//! How the tracer is run: under which name and with which arguments.

use crate::text::lemma_strings_view_push;
use crate::text::strings_view;
use vstd::prelude::*;

verus! {

/// A program and its arguments.
pub struct Invocation {
    pub program: String,
    pub args: Vec<String>,
}

/// Mathematical model of an [`Invocation`].
pub struct InvocationModel {
    pub program: Seq<char>,
    pub args: Seq<Seq<char>>,
}

impl View for Invocation {
    type V = InvocationModel;

    open spec fn view(&self) -> InvocationModel {
        InvocationModel { program: self.program@, args: strings_view(self.args@) }
    }
}

/// A copy of the arguments behind those that come first.
pub fn with_arguments(first: Vec<String>, args: &Vec<String>) -> (all: Vec<String>)
    ensures
        strings_view(all@) == strings_view(first@) + strings_view(args@),
{
    let ghost head = strings_view(first@);
    let mut all: Vec<String> = first;
    let mut i: usize = 0;
    proof {
        assert(strings_view(args@).take(0) =~= Seq::empty());
        assert(head + Seq::<Seq<char>>::empty() =~= head);
    }
    while i < args.len()
        invariant
            i <= args.len(),
            strings_view(all@) == head + strings_view(args@).take(i as int),
        decreases args.len() - i,
    {
        let arg: String = args[i].clone();
        proof {
            lemma_strings_view_push(all@, arg);
            assert((head + strings_view(args@).take(i as int)).push(arg@) =~= head + strings_view(
                args@,
            ).take(i + 1));
        }
        all.push(arg);
        i += 1;
    }
    proof {
        assert(strings_view(args@).take(args.len() as int) =~= strings_view(args@));
    }
    all
}

/// The tracer with the given arguments, run as it is or through `sudo`.
pub open spec fn tracer(use_sudo: bool, args: Seq<Seq<char>>) -> InvocationModel {
    if use_sudo {
        InvocationModel { program: "sudo"@, args: seq!["bpftrace"@] + args }
    } else {
        InvocationModel { program: "bpftrace"@, args }
    }
}

/// Names the tracer with the given arguments: `bpftrace`, or `sudo` with
/// `bpftrace` as its first argument.
pub fn sudo_bpftrace_command(use_sudo: bool, args: &Vec<String>) -> (cmd: Invocation)
    ensures
        cmd@ == tracer(use_sudo, strings_view(args@)),
{
    let mut first: Vec<String> = Vec::new();
    if use_sudo {
        first.push("bpftrace".to_owned());
        proof {
            assert(strings_view(first@) =~= seq!["bpftrace"@]);
        }
        Invocation { program: "sudo".to_owned(), args: with_arguments(first, args) }
    } else {
        proof {
            assert(strings_view(first@) + strings_view(args@) =~= strings_view(args@));
        }
        Invocation { program: "bpftrace".to_owned(), args: with_arguments(first, args) }
    }
}

/// What is known of how the tracer must be run.
pub struct Setup {
    /// A command that is run in place of the tracer.
    pub custom: Option<String>,
    /// Whether the tracer needs `sudo`, once that is found out.
    pub use_sudo: Option<bool>,
}

/// How the tracer is run first.
pub enum Attempt {
    /// The command is run and its outcome stands.
    Run(Invocation),
    /// The command is tried; [`after_trial`] says how to go on.
    Try(Invocation),
}

/// Decides how the tracer is run: the custom command where one is set;
/// the tracer with or without `sudo` where that is known; and otherwise
/// the tracer without `sudo`, on trial.
pub fn bpftrace_command(setup: &Setup, args: &Vec<String>) -> (attempt: Attempt)
    ensures
        match attempt {
            Attempt::Run(cmd) => match setup.custom {
                Some(custom) => cmd@ == (InvocationModel {
                    program: custom@,
                    args: strings_view(args@),
                }),
                None => setup.use_sudo matches Some(sudo) && cmd@ == tracer(
                    sudo,
                    strings_view(args@),
                ),
            },
            Attempt::Try(cmd) => setup.custom is None && setup.use_sudo is None && cmd@ == tracer(
                false,
                strings_view(args@),
            ),
        },
{
    match &setup.custom {
        Some(custom) => {
            let none: Vec<String> = Vec::new();
            proof {
                assert(strings_view(none@) + strings_view(args@) =~= strings_view(args@));
            }
            Attempt::Run(Invocation { program: custom.clone(), args: with_arguments(none, args) })
        },
        None => match setup.use_sudo {
            Some(use_sudo) => Attempt::Run(sudo_bpftrace_command(use_sudo, args)),
            None => Attempt::Try(sudo_bpftrace_command(false, args)),
        },
    }
}

/// What follows a trial of the tracer without `sudo`.
pub struct Verdict {
    /// Whether the tracer needs `sudo` from now on.
    pub use_sudo: bool,
    /// The command to run where the trial has failed.
    pub retry: Option<Invocation>,
}

/// Decides what follows a trial of the tracer without `sudo`: where it
/// succeeded, its outcome stands and `sudo` is not needed; where it
/// failed, the tracer is run through `sudo`, now and from now on.
pub fn after_trial(succeeded: bool, args: &Vec<String>) -> (verdict: Verdict)
    ensures
        verdict.use_sudo == !succeeded,
        match verdict.retry {
            Some(cmd) => !succeeded && cmd@ == tracer(true, strings_view(args@)),
            None => succeeded,
        },
{
    if succeeded {
        Verdict { use_sudo: false, retry: None }
    } else {
        Verdict { use_sudo: true, retry: Some(sudo_bpftrace_command(true, args)) }
    }
}

/// The arguments of a check of a script: those given, behind the flag
/// that keeps the tracer from running the script.
pub fn bpftrace_debug_command(use_dry_run: bool, args: &Vec<String>) -> (debug_args: Vec<String>)
    ensures
        strings_view(debug_args@) == seq![
            if use_dry_run {
                "--dry-run"@
            } else {
                "-d"@
            },
        ] + strings_view(args@),
{
    let mut first: Vec<String> = Vec::new();
    if use_dry_run {
        first.push("--dry-run".to_owned());
        proof {
            assert(strings_view(first@) =~= seq!["--dry-run"@]);
        }
    } else {
        first.push("-d".to_owned());
        proof {
            assert(strings_view(first@) =~= seq!["-d"@]);
        }
    }
    with_arguments(first, args)
}

/// The arguments with which the tracer shows whether it knows the flag
/// `--dry-run`.
pub fn dry_run_trial() -> (args: Vec<String>)
    ensures
        strings_view(args@) == seq!["--dry-run"@, "-e"@, "BEGIN { exit() }"@],
{
    let mut args: Vec<String> = Vec::new();
    args.push("--dry-run".to_owned());
    args.push("-e".to_owned());
    args.push("BEGIN { exit() }".to_owned());
    proof {
        assert(strings_view(args@) =~= seq!["--dry-run"@, "-e"@, "BEGIN { exit() }"@]);
    }
    args
}

} // verus!

//! Probe names: `provider:module:function` and its shorter forms.

use crate::text::join;
use crate::text::join_strings;
use crate::text::same_text;
use crate::text::split;
use crate::text::split_text;
use crate::text::starts_with;
use crate::text::strings_view;
use vstd::prelude::*;

verus! {

/// Whether the probe fires when a kernel function is entered.
pub open spec fn fentry_probe(probe: Seq<char>) -> bool {
    "fentry"@.is_prefix_of(probe) || "kfunc"@.is_prefix_of(probe)
}

/// Whether the probe fires when a kernel function returns.
pub open spec fn fexit_probe(probe: Seq<char>) -> bool {
    "fexit"@.is_prefix_of(probe) || "kretfunc"@.is_prefix_of(probe)
}

/// Whether the probe name starts with `fentry` or `kfunc`.
pub fn is_fentry_probe(probe: &str) -> (entry: bool)
    ensures
        entry == fentry_probe(probe@),
{
    starts_with(probe, "fentry") || starts_with(probe, "kfunc")
}

/// Whether the probe name starts with `fexit` or `kretfunc`.
pub fn is_fexit_probe(probe: &str) -> (exit: bool)
    ensures
        exit == fexit_probe(probe@),
{
    starts_with(probe, "fexit") || starts_with(probe, "kretfunc")
}

/// Whether the probe is one whose arguments the type graph describes.
pub fn is_btf_probe(probe: &str) -> (typed: bool)
    ensures
        typed == (fentry_probe(probe@) || fexit_probe(probe@)),
{
    is_fentry_probe(probe) || is_fexit_probe(probe)
}

/// The provider that describes the arguments of `provider`'s probes:
/// `kfunc` for `kprobe`, `kretfunc` for `kretprobe`, and the provider
/// itself otherwise.
pub open spec fn typed_provider(provider: Seq<char>) -> Seq<char> {
    if provider == "kprobe"@ {
        "kfunc"@
    } else if provider == "kretprobe"@ {
        "kretfunc"@
    } else {
        provider
    }
}

/// The probe name with its provider replaced by the one that describes
/// the arguments.
pub open spec fn typed_probe(probe: Seq<char>) -> Seq<char> {
    let fields = split(probe, ':');
    join(fields.update(0, typed_provider(fields[0])), seq![':'])
}

/// Names the `kfunc` probe of a `kprobe` and the `kretfunc` probe of a
/// `kretprobe`; any other probe name comes back as it is.
pub fn kprobe_to_kfunc(probe: &str) -> (kfunc: String)
    ensures
        kfunc@ == typed_probe(probe@),
{
    let mut v: Vec<String> = split_text(probe, ':');
    let ghost fields = strings_view(v@);
    proof {
        reveal_strlit(":");
    }
    if same_text(v[0].as_str(), "kprobe") {
        v[0] = "kfunc".to_owned();
    } else if same_text(v[0].as_str(), "kretprobe") {
        v[0] = "kretfunc".to_owned();
    }
    proof {
        reveal_strlit("kprobe");
        reveal_strlit("kretprobe");
        assert(strings_view(v@) =~= fields.update(0, typed_provider(fields[0])));
        assert(":"@ =~= seq![':']);
    }
    join_strings(&v, ":")
}

/// The module and the function that a probe name of three fields names.
pub struct ProbeTarget {
    pub module: String,
    pub function: String,
}

/// Mathematical model of a [`ProbeTarget`].
pub struct ProbeTargetView {
    pub module: Seq<char>,
    pub function: Seq<char>,
}

impl View for ProbeTarget {
    type V = ProbeTargetView;

    open spec fn view(&self) -> ProbeTargetView {
        ProbeTargetView { module: self.module@, function: self.function@ }
    }
}

/// The module and function of a probe name: its second and third field,
/// where it has exactly three fields and the second is not empty.
pub open spec fn probe_target(probe: Seq<char>) -> Option<ProbeTargetView> {
    let fields = split(probe, ':');
    if fields.len() == 3 && fields[1].len() > 0 {
        Some(ProbeTargetView { module: fields[1], function: fields[2] })
    } else {
        None
    }
}

/// Takes a probe name `provider:module:function` apart. `None` where the
/// name does not have three fields or names no module.
pub fn split_probe(probe: &str) -> (target: Option<ProbeTarget>)
    ensures
        match target {
            Some(t) => probe_target(probe@) == Some(t@),
            None => probe_target(probe@) is None,
        },
{
    let mut fields: Vec<String> = split_text(probe, ':');
    if fields.len() != 3 {
        return None;
    }
    let ghost all = strings_view(fields@);
    let function: String = fields.pop().unwrap();
    let module: String = fields.pop().unwrap();
    proof {
        assert(all[2] == function@);
        assert(all[1] == module@);
    }
    if module.as_str().unicode_len() == 0 {
        return None;
    }
    Some(ProbeTarget { module, function })
}

/// How the arguments of a probe are found.
pub struct ArgumentSource {
    /// The type graph describes the arguments.
    pub typed: bool,
    /// The probe fires on return, where the return value is an argument.
    pub with_return: bool,
}

/// How the arguments of a probe are found: from the type graph for probes
/// on kernel functions, with the return value for those that fire on
/// return.
pub fn argument_source(probe: &str) -> (source: ArgumentSource)
    ensures
        source.with_return == ("kretprobe:"@.is_prefix_of(probe@) || "kretfunc:"@.is_prefix_of(
            probe@,
        ) || "fexit"@.is_prefix_of(probe@)),
        source.typed == (source.with_return || "kprobe:"@.is_prefix_of(probe@)
            || "fentry"@.is_prefix_of(probe@) || "kfunc:"@.is_prefix_of(probe@)),
{
    let entry: bool = starts_with(probe, "kprobe:") || starts_with(probe, "fentry") || starts_with(
        probe,
        "kfunc:",
    );
    let exit: bool = starts_with(probe, "kretprobe:") || starts_with(probe, "kretfunc:")
        || starts_with(probe, "fexit");
    ArgumentSource { typed: entry || exit, with_return: exit }
}

/// The file that holds the type information of a module, where it is not
/// the kernel itself: `/sys/kernel/btf/` and the module's name.
pub open spec fn module_file(module: Seq<char>) -> Option<Seq<char>> {
    if module.len() == 0 || module == "vmlinux"@ {
        None
    } else {
        Some("/sys/kernel/btf/"@ + module)
    }
}

/// Where the type information of a module is read from. `None` for the
/// kernel itself, named `vmlinux` or not named at all, whose information
/// is the base of every module's.
pub fn module_btf_path(module: &str) -> (path: Option<String>)
    ensures
        match path {
            Some(p) => module_file(module@) == Some(p@),
            None => module_file(module@) is None,
        },
{
    if module.unicode_len() == 0 || same_text(module, "vmlinux") {
        None
    } else {
        let mut path: String = "/sys/kernel/btf/".to_owned();
        path.append(module);
        Some(path)
    }
}

} // verus!

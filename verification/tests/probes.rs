// Probe names, providers and completion lists.

use bpftrace_ls::completion::argument_items;
use bpftrace_ls::completion::argument_origin;
use bpftrace_ls::completion::listed_arguments;
use bpftrace_ls::completion::wants_prototype;
use bpftrace_ls::completion::ArgumentOrigin;
use bpftrace_ls::completion::complete_probes;
use bpftrace_ls::completion::completion_plan;
use bpftrace_ls::completion::contains_label;
use bpftrace_ls::completion::count_common_fields;
use bpftrace_ls::completion::line_head;
use bpftrace_ls::completion::search_line_fields;
use bpftrace_ls::completion::CompletionItem;
use bpftrace_ls::completion::CompletionPlan;
use bpftrace_ls::completion::KIND_FIELD;
use bpftrace_ls::completion::KIND_FUNCTION;
use bpftrace_ls::completion::KIND_MODULE;
use bpftrace_ls::probe::argument_source;
use bpftrace_ls::probe::is_btf_probe;
use bpftrace_ls::probe::is_fentry_probe;
use bpftrace_ls::probe::is_fexit_probe;
use bpftrace_ls::probe::kprobe_to_kfunc;
use bpftrace_ls::probe::module_btf_path;
use bpftrace_ls::probe::split_probe;
use bpftrace_ls::providers::find_provider;
use bpftrace_ls::providers::providers;
use bpftrace_ls::providers::short_providers;
use bpftrace_ls::syntax::SyntaxLocation;

fn strings(words: &[&str]) -> Vec<String> {
    words.iter().map(|w| w.to_string()).collect()
}

#[test]
fn probes_on_function_entry_and_exit() {
    assert!(is_fentry_probe("fentry:vmlinux:vfs_open"));
    assert!(is_fentry_probe("kfunc:vmlinux:vfs_open"));
    assert!(is_fentry_probe("kfunc"));
    assert!(!is_fentry_probe("fexit:vmlinux:vfs_open"));
    assert!(!is_fentry_probe("kprobe:vfs_open"));
    assert!(!is_fentry_probe(" kfunc:x"));
    assert!(!is_fentry_probe(""));
    assert!(is_fexit_probe("fexit:vmlinux:vfs_open"));
    assert!(is_fexit_probe("kretfunc:vmlinux:vfs_open"));
    assert!(!is_fexit_probe("kfunc:vmlinux:vfs_open"));
    assert!(!is_fexit_probe("kretprobe:vfs_open"));
    assert!(is_btf_probe("kfunc:a:b"));
    assert!(is_btf_probe("kretfunc:a:b"));
    assert!(is_btf_probe("fentry:a:b"));
    assert!(is_btf_probe("fexit:a:b"));
    assert!(!is_btf_probe("kprobe:a"));
    assert!(!is_btf_probe("tracepoint:a:b"));
}

#[test]
fn kprobe_names_its_kfunc() {
    assert_eq!(kprobe_to_kfunc("kprobe:vfs_open"), "kfunc:vfs_open");
    assert_eq!(kprobe_to_kfunc("kretprobe:vmlinux:vfs_open"), "kretfunc:vmlinux:vfs_open");
    assert_eq!(kprobe_to_kfunc("kprobe"), "kfunc");
    assert_eq!(kprobe_to_kfunc("kprobe:"), "kfunc:");
    assert_eq!(kprobe_to_kfunc("kprobes:x"), "kprobes:x");
    assert_eq!(kprobe_to_kfunc("kfunc:vmlinux:vfs_open"), "kfunc:vmlinux:vfs_open");
    assert_eq!(kprobe_to_kfunc("tracepoint:a:kprobe"), "tracepoint:a:kprobe");
    assert_eq!(kprobe_to_kfunc(":kprobe"), ":kprobe");
    assert_eq!(kprobe_to_kfunc(""), "");
}

#[test]
fn probe_name_splits_into_module_and_function() {
    let t = split_probe("kfunc:vmlinux:vfs_open").unwrap();
    assert_eq!(t.module, "vmlinux");
    assert_eq!(t.function, "vfs_open");
    let t = split_probe("x:m:").unwrap();
    assert_eq!(t.module, "m");
    assert_eq!(t.function, "");
    assert!(split_probe("kfunc::vfs_open").is_none());
    assert!(split_probe("kfunc:vmlinux").is_none());
    assert!(split_probe("kfunc:vmlinux:vfs_open:x").is_none());
    assert!(split_probe("kfunc").is_none());
    assert!(split_probe("").is_none());
}

#[test]
fn argument_source_by_provider() {
    let s = argument_source("kprobe:vfs_open");
    assert!(s.typed && !s.with_return);
    let s = argument_source("kfunc:vmlinux:vfs_open");
    assert!(s.typed && !s.with_return);
    let s = argument_source("fentry:vmlinux:vfs_open");
    assert!(s.typed && !s.with_return);
    let s = argument_source("kretprobe:vfs_open");
    assert!(s.typed && s.with_return);
    let s = argument_source("kretfunc:vmlinux:vfs_open");
    assert!(s.typed && s.with_return);
    let s = argument_source("fexit");
    assert!(s.typed && s.with_return);
    let s = argument_source("tracepoint:syscalls:sys_enter_bpf");
    assert!(!s.typed && !s.with_return);
    let s = argument_source("kprobe");
    assert!(!s.typed && !s.with_return);
    let s = argument_source("kfunc");
    assert!(!s.typed && !s.with_return);
    let s = argument_source("");
    assert!(!s.typed && !s.with_return);
}

#[test]
fn module_path_is_under_sys() {
    assert_eq!(module_btf_path(""), None);
    assert_eq!(module_btf_path("vmlinux"), None);
    assert_eq!(module_btf_path("mac80211"), Some("/sys/kernel/btf/mac80211".to_string()));
    assert_eq!(module_btf_path("vmlinux2"), Some("/sys/kernel/btf/vmlinux2".to_string()));
}

#[test]
fn providers_are_listed_in_order() {
    let names = providers();
    let shorts = short_providers();
    assert_eq!(names.len(), 18);
    assert_eq!(shorts.len(), 18);
    assert_eq!(names[0], "begin");
    assert_eq!(names[11], "tracepoint");
    assert_eq!(names[17], "fexit");
    assert_eq!(shorts[5], "i");
    assert_eq!(shorts[7], "it");
    assert_eq!(shorts[10], "rt");
    assert_eq!(shorts[13], "kr");
    assert_eq!(shorts[14], "");
    assert_eq!(shorts[17], "fr");
}

fn provider(line: &str) -> Option<(usize, bool)> {
    find_provider(line).map(|m| (m.index, m.short))
}

#[test]
fn provider_is_found_by_full_name_first() {
    assert_eq!(provider("begin"), Some((0, false)));
    assert_eq!(provider("end"), Some((1, false)));
    assert_eq!(provider("endless"), Some((1, false)));
    assert_eq!(provider("bench"), Some((3, false)));
    assert_eq!(provider("self"), Some((4, false)));
    assert_eq!(provider("interval:s:1"), Some((5, false)));
    assert_eq!(provider("tracepoint:sys"), Some((11, false)));
    assert_eq!(provider("rawtracepoint:sys"), Some((10, false)));
    assert_eq!(provider("kprobe:"), Some((12, false)));
    assert_eq!(provider("kretprobe:x"), Some((13, false)));
    assert_eq!(provider("kfunc:"), Some((14, false)));
    assert_eq!(provider("kretfunc"), Some((15, false)));
    assert_eq!(provider("fentry:"), Some((16, false)));
    assert_eq!(provider("fexit:"), Some((17, false)));
    assert_eq!(provider("  kprobe:x "), Some((12, false)));
}

#[test]
fn provider_is_found_by_short_name_and_colon() {
    assert_eq!(provider("i:"), Some((5, true)));
    assert_eq!(provider("p:hz:99"), Some((6, true)));
    assert_eq!(provider("it:"), Some((7, true)));
    assert_eq!(provider("h:"), Some((8, true)));
    assert_eq!(provider("s:"), Some((9, true)));
    assert_eq!(provider("rt:"), Some((10, true)));
    assert_eq!(provider("t:"), Some((11, true)));
    assert_eq!(provider("t:clk:"), Some((11, true)));
    assert_eq!(provider("k:"), Some((12, true)));
    assert_eq!(provider("kr:x"), Some((13, true)));
    assert_eq!(provider("f:"), Some((16, true)));
    assert_eq!(provider("fr:"), Some((17, true)));
    assert_eq!(provider(" t:x"), Some((11, true)));
}

#[test]
fn provider_is_not_found() {
    assert_eq!(provider(""), None);
    assert_eq!(provider("   "), None);
    assert_eq!(provider("t"), None);
    assert_eq!(provider("k"), None);
    assert_eq!(provider("x:"), None);
    assert_eq!(provider(":"), None);
    assert_eq!(provider("kx:"), None);
    assert_eq!(provider("K:"), None);
}

const TRACES: &str = "kprobe:vfs_open\nkprobe:vfs_read\nkfunc:vmlinux:vfs_open\nkfunc:vmlinux:vfs_read\nkfunc:ext4:ext4_read\ntracepoint:syscalls:sys_enter_open\ntracepoint:timer:tick_stop\n";

fn labels(traces: &str, line: &str) -> Option<Vec<(String, u32)>> {
    complete_probes(traces, line).map(|l| l.items.into_iter().map(|i| (i.label, i.kind)).collect())
}

fn pairs(items: &[(&str, u32)]) -> Option<Vec<(String, u32)>> {
    Some(items.iter().map(|(l, k)| (l.to_string(), *k)).collect())
}

#[test]
fn probes_complete_from_the_traces() {
    assert_eq!(
        labels(TRACES, "kprobe:vfs_"),
        pairs(&[("vfs_open", KIND_FUNCTION), ("vfs_read", KIND_FUNCTION)])
    );
    assert_eq!(
        labels(TRACES, "kfunc:"),
        pairs(&[("vmlinux", KIND_MODULE), ("ext4", KIND_MODULE)])
    );
    assert_eq!(
        labels(TRACES, "kfunc:vmlinux:"),
        pairs(&[("vfs_open", KIND_FUNCTION), ("vfs_read", KIND_FUNCTION)])
    );
    assert_eq!(
        labels(TRACES, "tracepoint:"),
        pairs(&[("syscalls", KIND_MODULE), ("timer", KIND_MODULE)])
    );
    assert_eq!(
        labels(TRACES, "kprobe"),
        pairs(&[("vfs_open", KIND_FUNCTION), ("vfs_read", KIND_FUNCTION)])
    );
    assert_eq!(labels(TRACES, "kprobe:vfs_open"), pairs(&[]));
    assert_eq!(labels(TRACES, "kprobe:nothing"), pairs(&[]));
    assert_eq!(labels(TRACES, "begin"), pairs(&[]));
    assert_eq!(labels("", "kprobe:"), pairs(&[]));
    assert_eq!(labels(TRACES, ""), None);
    assert_eq!(labels(TRACES, "vfs"), None);
}

#[test]
fn probes_complete_under_other_names() {
    // The probes of these providers are listed under `kfunc`.
    for line in ["kretfunc:vmlinux:vfs_o", "fentry:vmlinux:vfs_o", "fexit:vmlinux:vfs_o"] {
        assert_eq!(labels(TRACES, line), pairs(&[("vfs_open", KIND_FUNCTION)]), "{}", line);
    }
    for line in ["kretprobe:", "kr:", "f:", "fr:"] {
        assert_eq!(
            labels(TRACES, line),
            pairs(&[("vmlinux", KIND_MODULE), ("ext4", KIND_MODULE)]),
            "{}",
            line
        );
    }
    // A short name stands for the full one.
    assert_eq!(labels(TRACES, "t:sys"), pairs(&[("syscalls", KIND_MODULE)]));
    assert_eq!(
        labels(TRACES, "t:timer:"),
        pairs(&[("tick_stop", KIND_FUNCTION)])
    );
    assert_eq!(
        labels(TRACES, "k:vfs_r"),
        pairs(&[("vfs_read", KIND_FUNCTION)])
    );
}

#[test]
fn completion_item_keeps_its_trace() {
    let list = complete_probes(TRACES, "kfunc:ext4:").unwrap();
    assert!(!list.is_incomplete);
    assert_eq!(list.items.len(), 1);
    assert_eq!(list.items[0].label, "ext4_read");
    assert_eq!(list.items[0].kind, KIND_FUNCTION);
    assert_eq!(list.items[0].source, "kfunc:ext4:ext4_read");
}

#[test]
fn long_lists_are_cut_and_marked() {
    let mut traces = String::new();
    for i in 0..250 {
        traces.push_str(&format!("kprobe:f{}\n", i));
    }
    let list = complete_probes(&traces, "kprobe:").unwrap();
    assert!(list.is_incomplete);
    assert_eq!(list.items.len(), 201);
    assert_eq!(list.items[0].label, "f0");
    assert_eq!(list.items[200].label, "f200");

    let mut traces = String::new();
    for i in 0..201 {
        traces.push_str(&format!("kprobe:f{}\n", i));
    }
    let list = complete_probes(&traces, "kprobe:").unwrap();
    assert!(list.is_incomplete);
    assert_eq!(list.items.len(), 201);

    let mut traces = String::new();
    for i in 0..200 {
        traces.push_str(&format!("kprobe:f{}\nkprobe:f{}\n", i, i));
    }
    let list = complete_probes(&traces, "kprobe:").unwrap();
    assert!(!list.is_incomplete);
    assert_eq!(list.items.len(), 200);
}

#[test]
fn fields_and_entries_of_one_trace() {
    assert_eq!(search_line_fields("kprobe:vfs", None), vec!["kprobe", "vfs"]);
    assert_eq!(search_line_fields("fexit:a:b", None), vec!["kfunc", "a", "b"]);
    assert_eq!(search_line_fields("t:a", Some("tracepoint")), vec!["tracepoint", "a"]);
    assert_eq!(search_line_fields("kr:a", Some("kretprobe")), vec!["kfunc", "a"]);
    assert_eq!(search_line_fields("", None), vec![""]);
    assert_eq!(count_common_fields(&strings(&["a", "b", "c"]), &strings(&["a", "b", "x"])), 2);
    assert_eq!(count_common_fields(&strings(&["a"]), &strings(&["a", "b"])), 1);
    assert_eq!(count_common_fields(&strings(&["x"]), &strings(&["a"])), 0);
    assert_eq!(count_common_fields(&strings(&[]), &strings(&["a"])), 0);

    // A trace is compared trimmed, but split as it stands.
    let list = complete_probes("kfunc:vmlinux:vfs_open\n  kfunc:vmlinux:vfs_read\n", "kfunc:vm").unwrap();
    let got: Vec<(&str, u32, &str)> = list
        .items
        .iter()
        .map(|i| (i.label.as_str(), i.kind, i.source.as_str()))
        .collect();
    assert_eq!(
        got,
        vec![
            ("vmlinux", KIND_MODULE, "kfunc:vmlinux:vfs_open"),
            ("  kfunc", KIND_MODULE, "  kfunc:vmlinux:vfs_read"),
        ]
    );

    let items = vec![CompletionItem {
        label: "a".to_string(),
        kind: KIND_MODULE,
        source: "x:a".to_string(),
    }];
    assert!(contains_label(&items, "a"));
    assert!(!contains_label(&items, "b"));
    assert!(!contains_label(&Vec::new(), "a"));
}

#[test]
fn arguments_are_listed_from_their_declarations() {
    let lines = strings(&[
        "const struct path * path",
        "int flags",
        "",
        "x",
        "const char * ",
        "struct file * file",
    ]);
    let items = argument_items(&lines);
    let got: Vec<(&str, u32, &str)> = items
        .iter()
        .map(|i| (i.label.as_str(), i.kind, i.source.as_str()))
        .collect();
    assert_eq!(
        got,
        vec![
            ("path", KIND_FIELD, "const struct path * path"),
            ("flags", KIND_FIELD, "int flags"),
            ("", KIND_FIELD, "const char * "),
            ("file", KIND_FIELD, "struct file * file"),
        ]
    );
    assert!(argument_items(&Vec::new()).is_empty());
}

fn plan(location: SyntaxLocation, has_error: bool, line: &str) -> String {
    match completion_plan(location, has_error, line, line.len()) {
        CompletionPlan::ActionArguments(chain) => format!("action arguments {}", chain),
        CompletionPlan::Action => "action".to_string(),
        CompletionPlan::ErrorArguments(chain) => format!("error arguments {}", chain),
        CompletionPlan::Probes => "probes".to_string(),
        CompletionPlan::Nothing => "nothing".to_string(),
    }
}

#[test]
fn completion_is_planned_by_location() {
    assert_eq!(plan(SyntaxLocation::Action, false, "  printf(args.a->"), "action arguments args.a->");
    assert_eq!(
        plan(SyntaxLocation::Action, false, "  printf(\"é\", args.a->"),
        "action arguments args.a->"
    );
    assert_eq!(plan(SyntaxLocation::Action, true, "  args."), "action arguments args.");
    assert_eq!(plan(SyntaxLocation::Action, false, "  pri"), "action");
    assert_eq!(plan(SyntaxLocation::SourceFile, true, "t:a:b args."), "error arguments args.");
    assert_eq!(plan(SyntaxLocation::SourceFile, false, "t:a:b args."), "probes");
    assert_eq!(plan(SyntaxLocation::SourceFile, true, "kprobe:"), "probes");
    assert_eq!(plan(SyntaxLocation::Probes, false, "kprobe:"), "probes");
    assert_eq!(plan(SyntaxLocation::Probes, true, "args.x"), "probes");
    assert_eq!(plan(SyntaxLocation::Predicate, false, "/ args.x"), "probes");
    assert_eq!(plan(SyntaxLocation::Comment, false, "// args.x"), "nothing");
    assert_eq!(plan(SyntaxLocation::Comment, true, "kprobe:"), "nothing");
}

#[test]
fn line_head_ends_with_the_byte_under_the_cursor() {
    assert_eq!(line_head("kprobe:vfs", 0), "k");
    assert_eq!(line_head("kprobe:vfs", 6), "kprobe:");
    assert_eq!(line_head("kprobe:vfs", 9), "kprobe:vfs");
    assert_eq!(line_head("kprobe:vfs", 10), "kprobe:vfs");
    assert_eq!(line_head("kprobe:vfs", 99), "kprobe:vfs");
    assert_eq!(line_head("", 0), "");
    assert_eq!(line_head("kprobe:vfs", usize::MAX), "kprobe:vfs");
}

#[test]
fn line_head_keeps_the_line_where_the_cut_falls_inside_a_character() {
    // Both letters take two bytes.
    assert_eq!(line_head("éü", 0), "éü");
    assert_eq!(line_head("éü", 1), "é");
    assert_eq!(line_head("éü", 2), "éü");
    assert_eq!(line_head("éü", 3), "éü");
    assert_eq!(line_head("éü", 4), "éü");
    assert_eq!(line_head("aé:b", 0), "a");
    assert_eq!(line_head("aé:b", 1), "aé:b");
    assert_eq!(line_head("aé:b", 2), "aé");
    assert_eq!(line_head("aé:b", 3), "aé:");
}

#[test]
fn arguments_are_looked_up_by_provider() {
    assert_eq!(
        argument_origin("kfunc:vmlinux:vfs_open", "args."),
        ArgumentOrigin::Graph { with_return: false }
    );
    assert_eq!(
        argument_origin("kprobe:vfs_open", "args.path->"),
        ArgumentOrigin::Graph { with_return: false }
    );
    assert_eq!(
        argument_origin("fexit:vmlinux:vfs_open", "args.path->dentry."),
        ArgumentOrigin::Graph { with_return: true }
    );
    assert_eq!(
        argument_origin("kretprobe:vfs_open", "args."),
        ArgumentOrigin::Graph { with_return: true }
    );
    assert_eq!(
        argument_origin("tracepoint:syscalls:sys_enter_bpf", "args."),
        ArgumentOrigin::Listing
    );
    assert_eq!(
        argument_origin("tracepoint:syscalls:sys_enter_bpf", "args.uattr->"),
        ArgumentOrigin::Unknown
    );
    assert_eq!(argument_origin("t:a:b", "args"), ArgumentOrigin::Unknown);
    assert_eq!(argument_origin("", ""), ArgumentOrigin::Unknown);
    assert_eq!(argument_origin("kprobe", "args."), ArgumentOrigin::Listing);
}

#[test]
fn listing_declares_arguments_below_the_probe() {
    let listing = "tracepoint:syscalls:sys_enter_bpf\n    int __syscall_nr\n    int cmd\n    union bpf_attr * uattr\n    unsigned int size\n";
    let items = listed_arguments(listing);
    let got: Vec<(&str, &str)> = items
        .iter()
        .map(|i| (i.label.as_str(), i.source.as_str()))
        .collect();
    assert_eq!(
        got,
        vec![
            ("__syscall_nr", "    int __syscall_nr"),
            ("cmd", "    int cmd"),
            ("uattr", "    union bpf_attr * uattr"),
            ("size", "    unsigned int size"),
        ]
    );
    assert!(items.iter().all(|i| i.kind == KIND_FIELD));
    // The first line names the probe, whatever it holds.
    assert!(listed_arguments("int a").is_empty());
    assert!(listed_arguments("").is_empty());
    assert_eq!(listed_arguments("x\nint a").len(), 1);
}

#[test]
fn prototypes_are_shown_for_functions_of_kfunc_probes() {
    let item = |kind: u32, source: &str| CompletionItem {
        label: "x".to_string(),
        kind,
        source: source.to_string(),
    };
    assert!(wants_prototype(&item(KIND_FUNCTION, "kfunc:vmlinux:vfs_open")));
    assert!(wants_prototype(&item(KIND_FUNCTION, "kfunc")));
    assert!(!wants_prototype(&item(KIND_MODULE, "kfunc:vmlinux:vfs_open")));
    assert!(!wants_prototype(&item(KIND_FUNCTION, "kprobe:vfs_open")));
    assert!(!wants_prototype(&item(KIND_FUNCTION, "kfuncs:x")));
    assert!(!wants_prototype(&item(KIND_FUNCTION, " kfunc:x")));
}

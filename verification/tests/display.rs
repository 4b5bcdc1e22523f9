// Resolved items as text, and hover.

use bpftrace_ls::display::btf_item_to_str;
use bpftrace_ls::display::child_to_str;
use bpftrace_ls::display::children_to_vec_str;
use bpftrace_ls::display::func_proto_str;
use bpftrace_ls::display::parameter_to_str;
use bpftrace_ls::hover::argument_hover_text;
use bpftrace_ls::hover::contains_char;
use bpftrace_ls::hover::ends_word;
use bpftrace_ls::hover::find_hover_chain;
use bpftrace_ls::hover::find_hover_str;
use bpftrace_ls::hover::function_hover_text;
use bpftrace_ls::item::clone_strings;
use bpftrace_ls::item::ResolvedBtfItem;

fn item(name: &str, words: &[&str], children: Vec<ResolvedBtfItem>) -> ResolvedBtfItem {
    ResolvedBtfItem {
        name: name.to_string(),
        type_vec: words.iter().map(|w| w.to_string()).collect(),
        type_id: 0,
        children_vec: children,
    }
}

fn vfs_open() -> ResolvedBtfItem {
    item(
        "vfs_open",
        &["func"],
        vec![
            item("path", &["const", "struct", "path", "*"], Vec::new()),
            item("file", &["struct", "file", "*"], Vec::new()),
            item("retval", &["int"], Vec::new()),
        ],
    )
}

#[test]
fn item_is_written_as_a_declaration() {
    assert_eq!(
        btf_item_to_str(&item("path", &["const", "struct", "path", "*"], Vec::new())),
        "const struct path * path"
    );
    assert_eq!(btf_item_to_str(&item("x", &["int"], Vec::new())), "int x");
    assert_eq!(btf_item_to_str(&item("x", &[], Vec::new())), " x");
    assert_eq!(btf_item_to_str(&item("", &[], Vec::new())), " ");
    assert_eq!(btf_item_to_str(&ResolvedBtfItem::default()), " ");
}

#[test]
fn children_are_listed_one_per_line() {
    assert_eq!(
        children_to_vec_str(&vfs_open()),
        vec!["const struct path * path", "struct file * file", "int retval"]
    );
    assert!(children_to_vec_str(&item("x", &["int"], Vec::new())).is_empty());
    assert_eq!(child_to_str(&item("x", &[], Vec::new())), "x");
    assert_eq!(child_to_str(&item("", &["a", "b"], Vec::new())), "a b ");
    assert_eq!(child_to_str(&item("f", &["void (*)(  )"], Vec::new())), "void (*)(  ) f");
}

#[test]
fn prototype_is_written_as_in_c() {
    assert_eq!(
        func_proto_str(&vfs_open()),
        "int vfs_open(const struct path *path, struct file *file);"
    );
    let no_return = item(
        "f",
        &["func"],
        vec![item("a", &["int"], Vec::new()), item("b", &["char", "**"], Vec::new())],
    );
    assert_eq!(func_proto_str(&no_return), "void f(int a, char **b);");
    assert_eq!(func_proto_str(&item("g", &["func"], Vec::new())), "void g();");
    let only_return = item(
        "h",
        &["func"],
        vec![item("retval", &["struct", "x", "*"], Vec::new())],
    );
    assert_eq!(func_proto_str(&only_return), "struct x * h();");
    // Only the last child can be the return value.
    let early = item(
        "k",
        &["func"],
        vec![item("retval", &["int"], Vec::new()), item("a", &["long"], Vec::new())],
    );
    assert_eq!(func_proto_str(&early), "void k(int retval, long a);");
    let untyped = item("v", &["func"], vec![item("", &[], Vec::new()), item("x", &[], Vec::new())]);
    assert_eq!(func_proto_str(&untyped), "void v( ,  x);");
    assert_eq!(parameter_to_str(&item("p", &["void", "*"], Vec::new())), "void *p");
    assert_eq!(parameter_to_str(&item("p", &["*"], Vec::new())), "*p");
    assert_eq!(parameter_to_str(&item("n", &["int"], Vec::new())), "int n");
}

#[test]
fn clone_strings_copies() {
    let words = vec!["a".to_string(), "".to_string(), "b c".to_string()];
    assert_eq!(clone_strings(&words), words);
    assert!(clone_strings(&Vec::new()).is_empty());
}

#[test]
fn hover_word_is_bounded_by_white_space() {
    let line = "kfunc:vmlinux:vfs_open { printf(\"x\"); }";
    assert_eq!(find_hover_str(line, 0, "", ""), "kfunc:vmlinux:vfs_open");
    assert_eq!(find_hover_str(line, 3, "", ""), "kfunc:vmlinux:vfs_open");
    assert_eq!(find_hover_str(line, 21, "", ""), "kfunc:vmlinux:vfs_open");
    assert_eq!(find_hover_str(line, 22, "", ""), "");
    assert_eq!(find_hover_str(line, 23, "", ""), "{");
    assert_eq!(find_hover_str(line, 25, "", ""), "printf(\"x\");");
    assert_eq!(find_hover_str(line, line.len() - 1, "", ""), "}");
    assert_eq!(find_hover_str(line, line.len(), "", ""), "");
    assert_eq!(find_hover_str(line, 500, "", ""), "");
    assert_eq!(find_hover_str("", 0, "", ""), "");
    assert_eq!(find_hover_str("a\tb", 2, "", ""), "b");
    assert_eq!(find_hover_str("word", 2, "", ""), "word");
}

#[test]
fn hover_word_is_bounded_by_marks() {
    let line = "  printf(args.timer->base)";
    //          01234567890123456789012345
    assert_eq!(find_hover_str(line, 9, "{(", "}).-"), "args");
    assert_eq!(find_hover_str(line, 12, "{(", "}).-"), "args");
    assert_eq!(find_hover_str(line, 13, "{(", "}).-"), "args.timer");
    assert_eq!(find_hover_str(line, 16, "{(", "}).-"), "args.timer");
    assert_eq!(find_hover_str(line, 19, "{(", "}).-"), "args.timer->base");
    assert_eq!(find_hover_str(line, 22, "{(", "}).-"), "args.timer->base");
    assert_eq!(find_hover_str(line, 8, "{(", "}).-"), "");
    assert_eq!(find_hover_str(line, 25, "{(", "}).-"), "args.timer->base)");
    assert_eq!(find_hover_str(line, 4, "{(", "}).-"), "printf(args");
    assert_eq!(find_hover_str("{x}", 1, "{(", "}).-"), "x");
    assert_eq!(find_hover_str("{x}", 0, "{(", "}).-"), "");
    assert_eq!(find_hover_str("{x}", 2, "{(", "}).-"), "x}");
    assert!(contains_char(&vec!['{', '('], '('));
    assert!(!contains_char(&vec!['{', '('], ')'));
    assert!(ends_word(' ', &Vec::new()));
    assert!(ends_word('\n', &Vec::new()));
    assert!(ends_word('-', &vec!['-']));
    assert!(!ends_word('-', &Vec::new()));
}

#[test]
fn hover_chain_completes_the_keyword() {
    let line = "  printf(args.timer->base, args)";
    assert_eq!(find_hover_chain(line, 10), "args.");
    assert_eq!(find_hover_chain(line, 15), "args.timer");
    assert_eq!(find_hover_chain(line, 22), "args.timer->base,");
    assert_eq!(find_hover_chain(line, 28), "args.");
    assert_eq!(find_hover_chain(line, 0), "");
    assert_eq!(find_hover_chain("xargs", 1), "xargs");
}

#[test]
fn hover_texts() {
    assert_eq!(
        function_hover_text("kfunc:vmlinux:vfs_open", &vfs_open()),
        "kfunc:vmlinux:vfs_open:\n```c\nint vfs_open(const struct path *path, struct file *file);```"
    );
    let path = item(
        "path",
        &["const", "struct", "path", "*"],
        vec![
            item("mnt", &["struct", "vfsmount", "*"], Vec::new()),
            item("dentry", &["struct", "dentry", "*"], Vec::new()),
        ],
    );
    assert_eq!(
        argument_hover_text(&path),
        "const struct path * path\n\nstruct vfsmount * mnt\nstruct dentry * dentry"
    );
    assert_eq!(argument_hover_text(&item("n", &["int"], Vec::new())), "int n\n\n");
    assert_eq!(argument_hover_text(&ResolvedBtfItem::default()), " \n\n");
}

fn plan(text: &str, line_nr: usize, char_nr: usize) -> String {
    match bpftrace_ls::hover::hover_plan(text, line_nr, char_nr) {
        bpftrace_ls::hover::HoverPlan::Function(probe) => format!("function {}", probe),
        bpftrace_ls::hover::HoverPlan::Argument { probe, chain } => {
            format!("argument {} | {}", probe, chain)
        }
        bpftrace_ls::hover::HoverPlan::Nothing => "nothing".to_string(),
    }
}

#[test]
fn hover_is_planned_by_the_word_under_the_cursor() {
    let text = "kfunc:vmlinux:vfs_open\n{\n  printf(\"%s\", args.path->dentry);\n}\nkprobe:x { 1 }\n";
    assert_eq!(plan(text, 0, 3), "function kfunc:vmlinux:vfs_open");
    assert_eq!(plan(text, 0, 21), "function kfunc:vmlinux:vfs_open");
    assert_eq!(plan(text, 0, 22), "nothing");
    assert_eq!(plan(text, 2, 16), "argument  | args.");
    assert_eq!(plan(text, 2, 22), "argument  | args.path");
    assert_eq!(plan(text, 2, 0), "argument  | ");
    assert_eq!(plan(text, 1, 1), "argument kfunc:vmlinux:vfs_open | ");
    assert_eq!(plan(text, 4, 3), "nothing");
    assert_eq!(plan(text, 4, 11), "argument kprobe:x | 1");
    assert_eq!(plan(text, 9, 0), "nothing");
    assert_eq!(plan("", 0, 0), "nothing");
    assert_eq!(plan("fexit:a:b { x }", 0, 12), "argument fexit:a:b | x");
    assert_eq!(plan("{ kretfunc:a:b }", 0, 5), "function kretfunc:a:b");
}

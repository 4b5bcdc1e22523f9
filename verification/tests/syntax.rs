// The cursor in the text and among the nodes of the syntax tree.

use bpftrace_ls::location::find_location;
use bpftrace_ls::location::find_syntax_location;
use bpftrace_ls::location::node_to_syntax_location;
use bpftrace_ls::location::position_before_next_sibling;
use bpftrace_ls::location::position_relative_to;
use bpftrace_ls::location::Capture;
use bpftrace_ls::location::CaptureRef;
use bpftrace_ls::location::Position;
use bpftrace_ls::location::Span;
use bpftrace_ls::syntax::is_action_block;
use bpftrace_ls::syntax::ends_in_argument;
use bpftrace_ls::syntax::is_argument;
use bpftrace_ls::syntax::SyntaxLocation;

#[test]
fn action_block_is_where_more_braces_open_than_close() {
    let text = "kprobe:x { printf(1); }";
    assert!(!is_action_block(text, 0, 0));
    assert!(!is_action_block(text, 0, 9));
    assert!(is_action_block(text, 0, 10));
    assert!(is_action_block(text, 0, 22));
    assert!(!is_action_block(text, 0, 23));
    assert!(!is_action_block(text, 0, 100));
    assert!(!is_action_block(text, 1, 0));
    assert!(!is_action_block("", 0, 0));
}

#[test]
fn action_block_counts_the_lines_before() {
    let text = "a {\nb\n}\nc";
    assert!(!is_action_block(text, 0, 2));
    assert!(is_action_block(text, 0, 3));
    assert!(is_action_block(text, 1, 0));
    assert!(is_action_block(text, 1, 50));
    assert!(is_action_block(text, 2, 0));
    assert!(!is_action_block(text, 2, 1));
    assert!(!is_action_block(text, 3, 0));
    assert!(!is_action_block(text, 9, 0));
    assert!(is_action_block("a {\r\nb", 1, 1));
    assert!(is_action_block("{{}", 0, 3));
    assert!(!is_action_block("{}{}", 0, 4));
}

#[test]
fn action_block_with_more_closing_braces() {
    assert!(!is_action_block("}", 0, 1));
    assert!(!is_action_block("}{", 0, 2));
    assert!(!is_action_block("}}\n{", 1, 1));
}

#[test]
fn argument_is_the_last_word_on_args() {
    let mut args = String::new();
    let line = "  printf(\"%d\", args.timer->base";
    assert!(is_argument(line, line.len(), &mut args));
    assert_eq!(args, "args.timer->base");

    let mut args = String::from("pre");
    assert!(is_argument("x args.", 7, &mut args));
    assert_eq!(args, "preargs.");

    let mut args = String::new();
    assert!(is_argument("{args.x", 7, &mut args));
    assert_eq!(args, "args.x");

    let mut args = String::new();
    assert!(is_argument("f(args.x + 1", 8, &mut args));
    assert_eq!(args, "args.x");

    let mut args = String::new();
    assert!(is_argument("args.a args.b", 13, &mut args));
    assert_eq!(args, "args.b");
}

#[test]
fn argument_is_not_found_elsewhere() {
    let mut args = String::from("keep");
    assert!(!is_argument("args", 4, &mut args));
    assert!(!is_argument("xargs.a", 7, &mut args));
    assert!(!is_argument("\targs.x", 7, &mut args));
    assert!(!is_argument("args.x ", 7, &mut args));
    assert!(!is_argument("args.x", 0, &mut args));
    assert!(!is_argument("args.x", 4, &mut args));
    assert!(!is_argument("args.x", 7, &mut args));
    assert!(!is_argument("", 0, &mut args));
    assert!(!is_argument("Args.x", 6, &mut args));
    assert_eq!(args, "keep");
}

#[test]
fn argument_column_counts_bytes() {
    // The first letter takes two bytes, so the line has nine.
    let line = "é(args.x";
    assert_eq!(line.len(), 9);
    let mut args = String::new();
    assert!(is_argument(line, 9, &mut args));
    assert_eq!(args, "args.x");

    // Eight bytes in, the word ends one letter earlier.
    let mut args = String::new();
    assert!(is_argument(line, 8, &mut args));
    assert_eq!(args, "args.");

    let mut args = String::from("keep");
    assert!(!is_argument(line, 10, &mut args));
    assert!(!is_argument(line, 7, &mut args));
    assert_eq!(args, "keep");

    let mut args = String::new();
    assert!(is_argument("args.é", 7, &mut args));
    assert_eq!(args, "args.é");
}

#[test]
fn argument_is_not_found_inside_a_character() {
    let mut args = String::from("keep");
    assert!(!is_argument("args.é", 6, &mut args));
    assert!(!is_argument("é args.x", 1, &mut args));
    assert_eq!(args, "keep");
}

#[test]
fn ends_in_argument_reads_the_last_word() {
    let mut args = String::from("pre");
    assert!(ends_in_argument("a b(args.c", &mut args));
    assert_eq!(args, "preargs.c");
    assert!(!ends_in_argument("args.c ", &mut args));
    assert!(!ends_in_argument("", &mut args));
    assert!(!ends_in_argument("arg.c", &mut args));
    assert_eq!(args, "preargs.c");
}

fn span(start_row: usize, start_col: usize, end_row: usize, end_col: usize) -> Span {
    Span {
        start_row,
        start_col,
        end_row,
        end_col,
    }
}

#[test]
fn position_relative_to_a_span() {
    let s = span(1, 4, 3, 2);
    assert_eq!(position_relative_to(&s, 0, 9), Position::Before);
    assert_eq!(position_relative_to(&s, 1, 3), Position::Before);
    assert_eq!(position_relative_to(&s, 1, 4), Position::Within);
    assert_eq!(position_relative_to(&s, 2, 0), Position::Within);
    assert_eq!(position_relative_to(&s, 2, 99), Position::Within);
    assert_eq!(position_relative_to(&s, 3, 1), Position::Within);
    assert_eq!(position_relative_to(&s, 3, 2), Position::After);
    assert_eq!(position_relative_to(&s, 4, 0), Position::After);
    let one = span(0, 2, 0, 5);
    assert_eq!(position_relative_to(&one, 0, 1), Position::Before);
    assert_eq!(position_relative_to(&one, 0, 2), Position::Within);
    assert_eq!(position_relative_to(&one, 0, 4), Position::Within);
    assert_eq!(position_relative_to(&one, 0, 5), Position::After);
    let empty = span(0, 2, 0, 2);
    assert_eq!(position_relative_to(&empty, 0, 1), Position::Before);
    assert_eq!(position_relative_to(&empty, 0, 2), Position::After);

    assert!(position_before_next_sibling(Some(one), 0, 1));
    assert!(!position_before_next_sibling(Some(one), 0, 2));
    assert!(!position_before_next_sibling(None, 0, 0));
}

#[test]
fn kinds_of_nodes_stand_for_parts() {
    assert_eq!(node_to_syntax_location("block_comment"), SyntaxLocation::Comment);
    assert_eq!(node_to_syntax_location("line_comment"), SyntaxLocation::Comment);
    assert_eq!(node_to_syntax_location("probes"), SyntaxLocation::Probes);
    assert_eq!(node_to_syntax_location("predicate"), SyntaxLocation::Predicate);
    assert_eq!(node_to_syntax_location("action"), SyntaxLocation::Action);
    assert_eq!(node_to_syntax_location("source_file"), SyntaxLocation::SourceFile);
    assert_eq!(node_to_syntax_location("probe"), SyntaxLocation::SourceFile);
    assert_eq!(node_to_syntax_location(""), SyntaxLocation::SourceFile);
}

fn kinds(words: &[&str]) -> Vec<String> {
    words.iter().map(|w| w.to_string()).collect()
}

#[test]
fn find_location_takes_the_nearest_part() {
    assert_eq!(
        find_location(&kinds(&["identifier", "call", "action", "action_block", "source_file"])),
        SyntaxLocation::Action
    );
    assert_eq!(
        find_location(&kinds(&["probe", "probes", "action_block", "source_file"])),
        SyntaxLocation::Probes
    );
    assert_eq!(
        find_location(&kinds(&["block_comment", "action", "source_file"])),
        SyntaxLocation::Comment
    );
    assert_eq!(find_location(&kinds(&["source_file"])), SyntaxLocation::SourceFile);
    assert_eq!(find_location(&kinds(&["x", "y"])), SyntaxLocation::SourceFile);
    assert_eq!(find_location(&kinds(&[])), SyntaxLocation::SourceFile);
}

fn capture(kind: &str, s: Span) -> Capture {
    Capture {
        kind: kind.to_string(),
        span: s,
        next_sibling: None,
        has_error: false,
        last_child_missing: false,
    }
}

// kprobe:tcp_reset { }
//  /* this is block comment */
fn block_and_comment() -> Vec<Vec<Capture>> {
    vec![
        vec![capture("probes", span(0, 0, 0, 16))],
        vec![capture("action", span(0, 17, 0, 20))],
        vec![capture("block_comment", span(1, 1, 1, 28))],
    ]
}

#[test]
fn find_syntax_location_takes_the_capture_around_the_cursor() {
    let m = block_and_comment();
    let found = find_syntax_location(&m, 0, 0);
    assert_eq!(found.location, SyntaxLocation::Probes);
    assert_eq!(found.node, Some(CaptureRef { in_match: 0, capture: 0 }));
    let found = find_syntax_location(&m, 0, 18);
    assert_eq!(found.location, SyntaxLocation::Action);
    assert_eq!(found.node, Some(CaptureRef { in_match: 1, capture: 0 }));
    let found = find_syntax_location(&m, 1, 5);
    assert_eq!(found.location, SyntaxLocation::Comment);
    assert_eq!(found.node, Some(CaptureRef { in_match: 2, capture: 0 }));
    // Between the nodes and behind them the cursor is in the file.
    let found = find_syntax_location(&m, 0, 16);
    assert_eq!(found.location, SyntaxLocation::SourceFile);
    assert_eq!(found.node, None);
    let found = find_syntax_location(&m, 1, 0);
    assert_eq!(found.location, SyntaxLocation::SourceFile);
    let found = find_syntax_location(&m, 5, 0);
    assert_eq!(found.location, SyntaxLocation::SourceFile);
    assert_eq!(found.node, None);
    let found = find_syntax_location(&Vec::new(), 0, 0);
    assert_eq!(found.location, SyntaxLocation::SourceFile);
    assert_eq!(found.node, None);
}

#[test]
fn find_syntax_location_prefers_the_later_capture() {
    // A comment inside an action: both hold the cursor.
    let m = vec![
        vec![capture("probes", span(0, 0, 0, 28))],
        vec![capture("action", span(0, 29, 2, 1))],
        vec![capture("line_comment", span(1, 0, 1, 15))],
    ];
    assert_eq!(find_syntax_location(&m, 1, 0).location, SyntaxLocation::Comment);
    assert_eq!(find_syntax_location(&m, 0, 30).location, SyntaxLocation::Action);
    assert_eq!(find_syntax_location(&m, 2, 0).location, SyntaxLocation::Action);
    // Two captures in one match: one that lies behind the cursor ends the
    // match, whatever follows it there.
    let m = vec![vec![
        capture("action", span(1, 0, 1, 9)),
        capture("probes", span(0, 0, 0, 5)),
    ]];
    let found = find_syntax_location(&m, 0, 2);
    assert_eq!(found.location, SyntaxLocation::SourceFile);
    assert_eq!(found.node, None);
}

#[test]
fn find_syntax_location_stays_in_an_unfinished_node() {
    // kprobe:tcp_reset {   with the cursor behind the brace
    let mut action = capture("action", span(0, 17, 0, 18));
    action.has_error = true;
    action.last_child_missing = true;
    let m = vec![
        vec![capture("probes", span(0, 0, 0, 16))],
        vec![action],
    ];
    let found = find_syntax_location(&m, 0, 19);
    assert_eq!(found.location, SyntaxLocation::Action);
    assert_eq!(found.node, Some(CaptureRef { in_match: 1, capture: 0 }));

    // Not with a sibling before the cursor.
    let mut followed = capture("action", span(0, 17, 0, 18));
    followed.has_error = true;
    followed.last_child_missing = true;
    followed.next_sibling = Some(span(0, 18, 0, 19));
    let m2 = vec![vec![followed]];
    assert_eq!(find_syntax_location(&m2, 0, 19).location, SyntaxLocation::SourceFile);
    // But with a sibling behind the cursor.
    let mut open = capture("action", span(0, 17, 0, 18));
    open.has_error = true;
    open.last_child_missing = true;
    open.next_sibling = Some(span(2, 0, 2, 5));
    let m3 = vec![vec![open]];
    let found = find_syntax_location(&m3, 1, 0);
    assert_eq!(found.location, SyntaxLocation::Action);
    assert_eq!(found.node, Some(CaptureRef { in_match: 0, capture: 0 }));

    // Not when the node is sound, or has its last child.
    let mut sound = capture("action", span(0, 17, 0, 18));
    sound.last_child_missing = true;
    assert_eq!(find_syntax_location(&vec![vec![sound]], 0, 19).location, SyntaxLocation::SourceFile);
    let mut whole = capture("action", span(0, 17, 0, 18));
    whole.has_error = true;
    assert_eq!(find_syntax_location(&vec![vec![whole]], 0, 19).location, SyntaxLocation::SourceFile);
}

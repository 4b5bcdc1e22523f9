// Messages, diagnostics, the tracer's command line and the log.

use bpftrace_ls::command::after_trial;
use bpftrace_ls::command::bpftrace_command;
use bpftrace_ls::command::bpftrace_debug_command;
use bpftrace_ls::command::dry_run_trial;
use bpftrace_ls::command::sudo_bpftrace_command;
use bpftrace_ls::command::with_arguments;
use bpftrace_ls::command::Attempt;
use bpftrace_ls::command::Setup;
use bpftrace_ls::diagnostics::handle_definitions_error;
use bpftrace_ls::diagnostics::handle_multi_line_error;
use bpftrace_ls::diagnostics::handle_single_line_error;
use bpftrace_ls::diagnostics::parse_diagnostic;
use bpftrace_ls::diagnostics::parse_diagnostics;
use bpftrace_ls::diagnostics::rest_of_fields;
use bpftrace_ls::diagnostics::to_editor_line;
use bpftrace_ls::diagnostics::to_severity;
use bpftrace_ls::diagnostics::Diagnostic;
use bpftrace_ls::logger::is_verbose;
use bpftrace_ls::logger::kind_of_name;
use bpftrace_ls::logger::kind_of_upper;
use bpftrace_ls::logger::parse_mask;
use bpftrace_ls::logger::parse_verbose;
use bpftrace_ls::logger::takes_messages;
use bpftrace_ls::logger::Logger;
use bpftrace_ls::logger::BTFRE;
use bpftrace_ls::logger::COMPL;
use bpftrace_ls::logger::DEFAULT_MASK;
use bpftrace_ls::logger::DIAGN;
use bpftrace_ls::logger::HOVER;
use bpftrace_ls::logger::NOTIF;
use bpftrace_ls::logger::PARSE;
use bpftrace_ls::logger::PROTO;
use bpftrace_ls::protocol::classify_message;
use bpftrace_ls::protocol::definition_range;
use bpftrace_ls::protocol::ends_session;
use bpftrace_ls::protocol::frame_message;
use bpftrace_ls::protocol::line_number_prefix;
use bpftrace_ls::protocol::notification_kind;
use bpftrace_ls::protocol::parse_content_length;
use bpftrace_ls::protocol::request_kind;
use bpftrace_ls::protocol::DefinitionRange;
use bpftrace_ls::protocol::LspMessageType;
use bpftrace_ls::protocol::NotificationKind;
use bpftrace_ls::protocol::RequestKind;
use bpftrace_ls::protocol::JSON_RPC_VERSION;

fn strings(words: &[&str]) -> Vec<String> {
    words.iter().map(|w| w.to_string()).collect()
}

#[test]
fn messages_are_classified_by_id_and_content() {
    assert_eq!(classify_message(1, false, false), LspMessageType::Request);
    assert_eq!(classify_message(1, true, false), LspMessageType::Response);
    assert_eq!(classify_message(7, false, true), LspMessageType::Response);
    assert_eq!(classify_message(7, true, true), LspMessageType::Response);
    assert_eq!(classify_message(0, false, false), LspMessageType::Notification);
    assert_eq!(classify_message(0, true, true), LspMessageType::Notification);
    assert_eq!(JSON_RPC_VERSION, "2.0");
}

#[test]
fn methods_name_requests_and_notifications() {
    assert_eq!(request_kind("initialize"), RequestKind::Initialize);
    assert_eq!(request_kind("shutdown"), RequestKind::Shutdown);
    assert_eq!(request_kind("textDocument/hover"), RequestKind::Hover);
    assert_eq!(request_kind("textDocument/definition"), RequestKind::Definition);
    assert_eq!(request_kind("textDocument/codeAction"), RequestKind::CodeAction);
    assert_eq!(request_kind("textDocument/completion"), RequestKind::Completion);
    assert_eq!(request_kind("completionItem/resolve"), RequestKind::CompletionResolve);
    assert_eq!(request_kind("textDocument/rename"), RequestKind::Unhandled);
    assert_eq!(request_kind(""), RequestKind::Unhandled);
    assert_eq!(notification_kind("textDocument/didOpen"), NotificationKind::DidOpen);
    assert_eq!(notification_kind("textDocument/didChange"), NotificationKind::DidChange);
    assert_eq!(notification_kind("textDocument/didSave"), NotificationKind::DidSave);
    assert_eq!(notification_kind("exit"), NotificationKind::Exit);
    assert_eq!(notification_kind("initialized"), NotificationKind::Other);
    assert!(ends_session(LspMessageType::Notification, "exit"));
    assert!(!ends_session(LspMessageType::Request, "exit"));
    assert!(!ends_session(LspMessageType::Response, "exit"));
    assert!(!ends_session(LspMessageType::Notification, "shutdown"));
}

#[test]
fn message_is_framed_with_its_length_in_bytes() {
    assert_eq!(frame_message("{}", "\n"), "Content-Length: 2\r\n\r\n{}\n");
    assert_eq!(frame_message("", "\n"), "Content-Length: 0\r\n\r\n\n");
    assert_eq!(
        frame_message("{\"id\":1}", "\r\n"),
        "Content-Length: 8\r\n\r\n{\"id\":1}\r\n"
    );
    assert_eq!(frame_message("é", ""), "Content-Length: 2\r\n\r\né");
    let body = "x".repeat(1234);
    assert_eq!(
        frame_message(&body, "\n"),
        format!("Content-Length: {}\r\n\r\n{}\n", body.len(), body)
    );
}

#[test]
fn content_length_is_read_from_the_header() {
    assert_eq!(parse_content_length("Content-Length: 123\r\n"), Ok(123));
    assert_eq!(parse_content_length("Content-Length: 0"), Ok(0));
    assert_eq!(parse_content_length("Content-Length:   42  \r\n"), Ok(42));
    assert_eq!(parse_content_length("0123456789abcdef7"), Ok(7));
    assert_eq!(parse_content_length("Content-Length: abc\r\n"), Err(-2));
    assert_eq!(parse_content_length("Content-Length: \r\n"), Err(-2));
    assert_eq!(parse_content_length("Content-Length: -1\r\n"), Err(-2));
    assert_eq!(parse_content_length("Content-Length: 1 2\r\n"), Err(-2));
    assert_eq!(
        parse_content_length("Content-Length: 99999999999999999999999\r\n"),
        Err(-2)
    );
    assert_eq!(parse_content_length("Content-Length:"), Err(-1));
    assert_eq!(parse_content_length(""), Err(-1));
    assert_eq!(parse_content_length("\r\n"), Err(-1));
}

#[test]
fn definition_is_placed_a_line_up() {
    assert_eq!(
        definition_range(5, 3),
        Some(DefinitionRange { line: 4, start: 11, end: 13 })
    );
    assert_eq!(
        definition_range(0, 0),
        Some(DefinitionRange { line: 0, start: 8, end: 10 })
    );
    assert_eq!(
        definition_range(1, usize::MAX - 10),
        Some(DefinitionRange { line: 0, start: usize::MAX - 2, end: usize::MAX })
    );
    assert_eq!(definition_range(1, usize::MAX - 9), None);
    assert_eq!(definition_range(1, usize::MAX), None);
    assert_eq!(line_number_prefix(12), "12: ");
    assert_eq!(line_number_prefix(0), "0: ");
}

fn fields(d: &Diagnostic) -> (usize, usize, usize, u32, &str) {
    (d.line, d.start, d.end, d.severity, d.message.as_str())
}

#[test]
fn diagnostics_of_single_lines() {
    let d = parse_diagnostic("stdin:6:60-69: ERROR: str() expects an integer or a pointer type as first argument (struct _tracepoint_syscalls_sys_exit_bpf provided)").unwrap();
    assert_eq!(
        fields(&d),
        (5, 60, 69, 1, " ERROR: str() expects an integer or a pointer type as first argument (struct _tracepoint_syscalls_sys_exit_bpf provided)")
    );
    let d = parse_diagnostic("stdin:1:1-5: WARNING: odd: very").unwrap();
    assert_eq!(fields(&d), (1, 1, 5, 2, " WARNING: odd: very"));
    let d = parse_diagnostic("stdin:2:3-4:ERROR").unwrap();
    assert_eq!(fields(&d), (1, 3, 4, 1, "ERROR:"));
    let d = parse_diagnostic("stdin:0:3-4-5:error:x").unwrap();
    assert_eq!(fields(&d), (0, 3, 4, 2, "error:x"));
    // Fields that are missing or no numbers give no diagnostic.
    assert!(parse_diagnostic("stdin:6:60-69").is_none());
    assert!(parse_diagnostic("stdin:6:60: ERROR: x").is_none());
    assert!(parse_diagnostic("stdin:6:a-b: ERROR: x").is_none());
    assert!(parse_diagnostic("stdin:6:1-: ERROR: x").is_none());
    assert!(parse_diagnostic("stdin:6: ERROR: x").is_none());
}

#[test]
fn diagnostics_of_line_ranges() {
    let d = parse_diagnostic("stdin:2-4: ERROR: Invalid probe type: kkprobe").unwrap();
    assert_eq!(fields(&d), (3, 0, 0, 1, " ERROR: Invalid probe type: kkprobe"));
    let d = parse_diagnostic("stdin:1-1: note").unwrap();
    assert_eq!(fields(&d), (1, 0, 0, 2, " note:"));
    let d = parse_diagnostic("stdin:x-9:ERROR:").unwrap();
    assert_eq!(fields(&d), (8, 0, 0, 1, "ERROR:"));
    assert!(parse_diagnostic("stdin:x: ERROR: y").is_none());
    assert!(parse_diagnostic("stdin:1-x: ERROR: y").is_none());
    assert!(parse_diagnostic("stdin:1-2").is_none());
}

#[test]
fn diagnostics_of_definitions() {
    let d = parse_diagnostic("definitions.h:10:18: error: expected ';' at end of declaration list")
        .unwrap();
    assert_eq!(
        fields(&d),
        (9, 17, 18, 1, "ERROR: expected ';' at end of declaration list")
    );
    let d = parse_diagnostic("definitions.h:1:0: warning: a: b").unwrap();
    assert_eq!(fields(&d), (1, 0, 0, 1, "ERROR: a: b"));
    let d = parse_diagnostic("definitions.h:3:4").unwrap();
    assert_eq!(fields(&d), (2, 3, 4, 1, "ERROR:"));
    let d = parse_diagnostic("definitions.h:3:4: fatal error").unwrap();
    assert_eq!(fields(&d), (2, 3, 4, 1, "ERROR:"));
    assert!(parse_diagnostic("definitions.h:x:4: error: y").is_none());
    assert!(parse_diagnostic("definitions.h:3:y: error: y").is_none());
    assert!(parse_diagnostic("definitions.h:3").is_none());
}

#[test]
fn other_lines_give_no_diagnostic() {
    assert!(parse_diagnostic("").is_none());
    assert!(parse_diagnostic("Attaching 1 probe...").is_none());
    assert!(parse_diagnostic("stdout:6:60-69: ERROR: x").is_none());
    assert!(parse_diagnostic(" stdin:6:60-69: ERROR: x").is_none());
    assert!(parse_diagnostic("a:b:c:d:e").is_none());
}

#[test]
fn diagnostics_of_an_output() {
    let output = "stdin:2-4: ERROR: Invalid probe type: kkprobe\nnoise\r\n\nstdin:6:60-69: ERROR: bad\ndefinitions.h:10:18: error: x\nstdin:bad\n";
    let list = parse_diagnostics(output);
    let got: Vec<(usize, usize, usize, u32, &str)> = list.iter().map(fields).collect();
    assert_eq!(
        got,
        vec![
            (3, 0, 0, 1, " ERROR: Invalid probe type: kkprobe"),
            (5, 60, 69, 1, " ERROR: bad"),
            (9, 17, 18, 1, "ERROR: x"),
        ]
    );
    assert!(parse_diagnostics("").is_empty());
    assert!(parse_diagnostics("all fine\n").is_empty());
}

#[test]
fn diagnostic_helpers() {
    assert_eq!(to_severity("ERROR"), 1);
    assert_eq!(to_severity("  ERROR \t"), 1);
    assert_eq!(to_severity("error"), 2);
    assert_eq!(to_severity("WARNING"), 2);
    assert_eq!(to_severity(""), 2);
    assert_eq!(to_editor_line(0), 0);
    assert_eq!(to_editor_line(1), 1);
    assert_eq!(to_editor_line(2), 1);
    assert_eq!(to_editor_line(10), 9);
    let f = strings(&["a", "b", "c", "", "d"]);
    assert_eq!(rest_of_fields(&f, 0), "a:b:c::d");
    assert_eq!(rest_of_fields(&f, 3), ":d");
    assert_eq!(rest_of_fields(&f, 4), "d");
    assert_eq!(rest_of_fields(&f, 5), "");
    assert_eq!(rest_of_fields(&f, 9), "");
    assert!(handle_single_line_error(3, &strings(&["stdin", "3", "1-2"])).is_none());
    assert_eq!(
        fields(&handle_single_line_error(3, &strings(&["stdin", "3", "1-2", "E"])).unwrap()),
        (2, 1, 2, 2, "E:")
    );
    assert!(handle_multi_line_error(&strings(&["stdin", "1-2"])).is_none());
    assert!(handle_definitions_error(&strings(&["definitions.h", "1"])).is_none());
}

fn model(attempt: Attempt) -> (bool, String, Vec<String>) {
    match attempt {
        Attempt::Run(cmd) => (false, cmd.program, cmd.args),
        Attempt::Try(cmd) => (true, cmd.program, cmd.args),
    }
}

#[test]
fn tracer_is_run_as_the_setup_tells() {
    let args = strings(&["-l", "-v"]);
    let cmd = sudo_bpftrace_command(false, &args);
    assert_eq!(cmd.program, "bpftrace");
    assert_eq!(cmd.args, vec!["-l", "-v"]);
    let cmd = sudo_bpftrace_command(true, &args);
    assert_eq!(cmd.program, "sudo");
    assert_eq!(cmd.args, vec!["bpftrace", "-l", "-v"]);
    let cmd = sudo_bpftrace_command(true, &Vec::new());
    assert_eq!(cmd.args, vec!["bpftrace"]);

    let custom = Setup { custom: Some("./my-tracer".to_string()), use_sudo: Some(true) };
    assert_eq!(
        model(bpftrace_command(&custom, &args)),
        (false, "./my-tracer".to_string(), strings(&["-l", "-v"]))
    );
    let known = Setup { custom: None, use_sudo: Some(true) };
    assert_eq!(
        model(bpftrace_command(&known, &args)),
        (false, "sudo".to_string(), strings(&["bpftrace", "-l", "-v"]))
    );
    let known = Setup { custom: None, use_sudo: Some(false) };
    assert_eq!(
        model(bpftrace_command(&known, &args)),
        (false, "bpftrace".to_string(), strings(&["-l", "-v"]))
    );
    let unknown = Setup { custom: None, use_sudo: None };
    assert_eq!(
        model(bpftrace_command(&unknown, &args)),
        (true, "bpftrace".to_string(), strings(&["-l", "-v"]))
    );
}

#[test]
fn trial_decides_on_sudo() {
    let args = strings(&["-l"]);
    let v = after_trial(true, &args);
    assert!(!v.use_sudo);
    assert!(v.retry.is_none());
    let v = after_trial(false, &args);
    assert!(v.use_sudo);
    let retry = v.retry.unwrap();
    assert_eq!(retry.program, "sudo");
    assert_eq!(retry.args, vec!["bpftrace", "-l"]);
}

#[test]
fn debug_arguments_start_with_the_flag() {
    let args = strings(&["-e", "BEGIN {}"]);
    assert_eq!(bpftrace_debug_command(true, &args), vec!["--dry-run", "-e", "BEGIN {}"]);
    assert_eq!(bpftrace_debug_command(false, &args), vec!["-d", "-e", "BEGIN {}"]);
    assert_eq!(bpftrace_debug_command(false, &Vec::new()), vec!["-d"]);
    assert_eq!(dry_run_trial(), vec!["--dry-run", "-e", "BEGIN { exit() }"]);
    assert_eq!(with_arguments(strings(&["a"]), &strings(&["b", "c"])), vec!["a", "b", "c"]);
    assert!(with_arguments(Vec::new(), &Vec::new()).is_empty());
}

#[test]
fn logger_settings() {
    let quiet = Logger { name: "log.txt".to_string(), mask: PROTO | HOVER, verbose_debug: 0 };
    let loud = Logger { name: "log.txt".to_string(), mask: 0, verbose_debug: 2 };
    assert!(!is_verbose(None));
    assert!(!is_verbose(Some(&quiet)));
    assert!(is_verbose(Some(&loud)));
    assert!(takes_messages(Some(&quiet), PROTO));
    assert!(takes_messages(Some(&quiet), HOVER));
    assert!(takes_messages(Some(&quiet), HOVER | DIAGN));
    assert!(!takes_messages(Some(&quiet), DIAGN));
    assert!(!takes_messages(Some(&quiet), 0));
    assert!(!takes_messages(Some(&loud), PROTO));
    assert!(!takes_messages(None, PROTO));
    assert_eq!(
        (PROTO, DIAGN, COMPL, NOTIF, HOVER, BTFRE, PARSE, DEFAULT_MASK),
        (1, 2, 4, 8, 16, 32, 64, 1)
    );
}

#[test]
fn mask_is_read_from_numbers_and_names() {
    assert_eq!(parse_mask(""), 1);
    assert_eq!(parse_mask("6"), 6);
    assert_eq!(parse_mask("+6"), 6);
    assert_eq!(parse_mask("0"), 1);
    assert_eq!(parse_mask("4294967295"), u32::MAX);
    assert_eq!(parse_mask("4294967296"), 1);
    assert_eq!(parse_mask("0x10"), 16);
    assert_eq!(parse_mask("0xFf"), 255);
    assert_eq!(parse_mask("0x"), 1);
    assert_eq!(parse_mask("0xzz"), 1);
    assert_eq!(parse_mask("0x0"), 1);
    assert_eq!(parse_mask("0x100000000"), 1);
    assert_eq!(parse_mask("0X10"), 1);
    assert_eq!(parse_mask("proto,hover"), 17);
    assert_eq!(parse_mask(" diagn , COMPL ,junk"), 6);
    assert_eq!(parse_mask("BTFRE"), 32);
    assert_eq!(parse_mask("NoTiF,notif"), 8);
    assert_eq!(parse_mask("PROTO,DIAGN,COMPL,NOTIF,HOVER,BTFRE"), 63);
    assert_eq!(parse_mask("PARSE"), 1);
    assert_eq!(parse_mask("junk"), 1);
    assert_eq!(parse_mask(",,"), 1);
    assert_eq!(parse_mask("1,2"), 1);
    assert_eq!(kind_of_name(" hover\t"), 16);
    assert_eq!(kind_of_name("HOVER"), 16);
    assert_eq!(kind_of_name("hove"), 0);
    // Upper case is taken as `str::to_uppercase` gives it.
    assert_eq!(kind_of_name("d\u{131}agn"), 2);
}

#[test]
fn kinds_are_named_in_capital_letters() {
    assert_eq!(kind_of_upper("PROTO"), 1);
    assert_eq!(kind_of_upper("DIAGN"), 2);
    assert_eq!(kind_of_upper("COMPL"), 4);
    assert_eq!(kind_of_upper("NOTIF"), 8);
    assert_eq!(kind_of_upper("HOVER"), 16);
    assert_eq!(kind_of_upper("BTFRE"), 32);
    assert_eq!(kind_of_upper("PARSE"), 0);
    assert_eq!(kind_of_upper("hover"), 0);
    assert_eq!(kind_of_upper(" HOVER"), 0);
    assert_eq!(kind_of_upper("HOVER,"), 0);
    assert_eq!(kind_of_upper(""), 0);
}

#[test]
fn verbose_level_is_a_number_or_zero() {
    assert_eq!(parse_verbose("0"), 0);
    assert_eq!(parse_verbose("1"), 1);
    assert_eq!(parse_verbose("25"), 25);
    assert_eq!(parse_verbose(""), 0);
    assert_eq!(parse_verbose("yes"), 0);
    assert_eq!(parse_verbose("-1"), 0);
    assert_eq!(parse_verbose("4294967296"), 0);
}

// Reads a message as the server does: the text is parsed as JSON, and the
// library tells the kind of the message.
fn decode_message(msg: String) -> (LspMessageType, u64, String, json::JsonValue) {
    let content = json::parse(&msg).unwrap();

    let method = content["method"].to_string();

    let id = content["id"].as_u64().unwrap_or(0);
    let msg_type = classify_message(
        id,
        !content["result"].is_null(),
        !content["error"].is_null(),
    );

    (msg_type, id, method, content)
}

#[test]
fn test_decode_message() {
    let msg = r#"{"jsonrpc":"2.0","id":1,"method":"initialize","params":{"capabilities":{"general":{"positionEncodings":["utf-16"]}}}}"#;
    let (msg_type, id, method, _content) = decode_message(msg.to_string());
    match msg_type {
        LspMessageType::Request => assert!(true),
        _ => assert!(false),
    }
    assert!(id == 1);
    assert!(method == "initialize");
}

#[test]
fn messages_of_other_kinds_are_decoded() {
    let (msg_type, id, method, _) =
        decode_message(r#"{"jsonrpc":"2.0","method":"exit"}"#.to_string());
    assert_eq!(msg_type, LspMessageType::Notification);
    assert_eq!(id, 0);
    assert_eq!(method, "exit");
    let (msg_type, id, _, _) =
        decode_message(r#"{"jsonrpc":"2.0","id":3,"result":{"ok":true}}"#.to_string());
    assert_eq!(msg_type, LspMessageType::Response);
    assert_eq!(id, 3);
    let (msg_type, _, _, _) =
        decode_message(r#"{"jsonrpc":"2.0","id":4,"error":{"code":1}}"#.to_string());
    assert_eq!(msg_type, LspMessageType::Response);
}

//! The message layer of the language server protocol: kinds of messages,
//! methods, and the framing of a message body.

use crate::number::decimal;
use crate::number::decimal_text;
use crate::number::parse_decimal;
use crate::number::parse_usize;
use crate::text::same_text;
use crate::text::trim;
use crate::text::trim_text;
use vstd::prelude::*;

verus! {

/// The version of the remote procedure call protocol.
pub const JSON_RPC_VERSION: &'static str = "2.0";

/// The kinds of messages that a client sends.
#[derive(Clone, Copy, Debug, PartialEq, Eq, Structural)]
pub enum LspMessageType {
    Request,
    Response,
    Notification,
}

/// The kind of a message: a notification carries no id, or id zero; a
/// message with an id is a response if it carries a result or an error,
/// and a request otherwise.
pub fn classify_message(id: u64, has_result: bool, has_error: bool) -> (kind: LspMessageType)
    ensures
        kind == if id == 0 {
            LspMessageType::Notification
        } else if has_result || has_error {
            LspMessageType::Response
        } else {
            LspMessageType::Request
        },
{
    if id == 0 {
        LspMessageType::Notification
    } else if has_result || has_error {
        LspMessageType::Response
    } else {
        LspMessageType::Request
    }
}

/// The requests that the server answers.
#[derive(Clone, Copy, Debug, PartialEq, Eq, Structural)]
pub enum RequestKind {
    Initialize,
    Shutdown,
    Hover,
    Definition,
    CodeAction,
    Completion,
    CompletionResolve,
    /// A method without a handler; the answer carries no result.
    Unhandled,
}

/// The request that a method names.
pub open spec fn request_of(method: Seq<char>) -> RequestKind {
    if method == "initialize"@ {
        RequestKind::Initialize
    } else if method == "shutdown"@ {
        RequestKind::Shutdown
    } else if method == "textDocument/hover"@ {
        RequestKind::Hover
    } else if method == "textDocument/definition"@ {
        RequestKind::Definition
    } else if method == "textDocument/codeAction"@ {
        RequestKind::CodeAction
    } else if method == "textDocument/completion"@ {
        RequestKind::Completion
    } else if method == "completionItem/resolve"@ {
        RequestKind::CompletionResolve
    } else {
        RequestKind::Unhandled
    }
}

/// Tells which request a method names.
pub fn request_kind(method: &str) -> (kind: RequestKind)
    ensures
        kind == request_of(method@),
{
    if same_text(method, "initialize") {
        RequestKind::Initialize
    } else if same_text(method, "shutdown") {
        RequestKind::Shutdown
    } else if same_text(method, "textDocument/hover") {
        RequestKind::Hover
    } else if same_text(method, "textDocument/definition") {
        RequestKind::Definition
    } else if same_text(method, "textDocument/codeAction") {
        RequestKind::CodeAction
    } else if same_text(method, "textDocument/completion") {
        RequestKind::Completion
    } else if same_text(method, "completionItem/resolve") {
        RequestKind::CompletionResolve
    } else {
        RequestKind::Unhandled
    }
}

/// The notifications that the server acts on.
#[derive(Clone, Copy, Debug, PartialEq, Eq, Structural)]
pub enum NotificationKind {
    /// A document was opened: it is stored and diagnosed.
    DidOpen,
    /// A document has changed: it is stored anew and diagnosed.
    DidChange,
    /// A document was saved: it is diagnosed.
    DidSave,
    /// The client is done: the server ends.
    Exit,
    /// Any other notification; it is ignored.
    Other,
}

/// The notification that a method names.
pub open spec fn notification_of(method: Seq<char>) -> NotificationKind {
    if method == "textDocument/didOpen"@ {
        NotificationKind::DidOpen
    } else if method == "textDocument/didChange"@ {
        NotificationKind::DidChange
    } else if method == "textDocument/didSave"@ {
        NotificationKind::DidSave
    } else if method == "exit"@ {
        NotificationKind::Exit
    } else {
        NotificationKind::Other
    }
}

/// Tells which notification a method names.
pub fn notification_kind(method: &str) -> (kind: NotificationKind)
    ensures
        kind == notification_of(method@),
{
    if same_text(method, "textDocument/didOpen") {
        NotificationKind::DidOpen
    } else if same_text(method, "textDocument/didChange") {
        NotificationKind::DidChange
    } else if same_text(method, "textDocument/didSave") {
        NotificationKind::DidSave
    } else if same_text(method, "exit") {
        NotificationKind::Exit
    } else {
        NotificationKind::Other
    }
}

/// Whether a message ends the session: it is the notification `exit`.
pub fn ends_session(kind: LspMessageType, method: &str) -> (ends: bool)
    ensures
        ends == (kind is Notification && method@ == "exit"@),
{
    match kind {
        LspMessageType::Notification => same_text(method, "exit"),
        _ => false,
    }
}

/// A message as it goes over the wire: the length of the body in bytes,
/// an empty line, the body, and the ending.
pub open spec fn framed(body: Seq<char>, bytes: nat, ending: Seq<char>) -> Seq<char> {
    "Content-Length: "@ + decimal(bytes) + "\r\n\r\n"@ + body + ending
}

/// Frames a message body for the wire. Answers end with a line feed,
/// notifications of the server with a carriage return and a line feed.
pub fn frame_message(body: &str, ending: &str) -> (message: String)
    ensures
        message@ == framed(body@, body.len() as nat, ending@),
{
    let mut message: String = "Content-Length: ".to_owned();
    let length: usize = body.len();
    message.append(decimal_text(length as u64).as_str());
    message.append("\r\n\r\n");
    message.append(body);
    message.append(ending);
    message
}

/// The error of a header that is too short to hold a length.
pub const HEADER_TOO_SHORT: i32 = -1;

/// The error of a header whose length is no number.
pub const HEADER_NOT_A_NUMBER: i32 = -2;

/// The number of characters before the length in a header line: those of
/// `Content-Length: `.
pub const HEADER_NAME_LENGTH: usize = 16;

/// The length that a header line announces: the number behind the first
/// sixteen characters, trimmed.
pub open spec fn content_length(header: Seq<char>) -> Result<int, i32> {
    if header.len() < HEADER_NAME_LENGTH {
        Err(HEADER_TOO_SHORT)
    } else {
        match parse_decimal(trim(header.skip(HEADER_NAME_LENGTH as int)), usize::MAX as int) {
            Some(n) => Ok(n),
            None => Err(HEADER_NOT_A_NUMBER),
        }
    }
}

/// Reads the length of the body from the header line of a message.
pub fn parse_content_length(header: &str) -> (length: Result<usize, i32>)
    ensures
        match length {
            Ok(n) => content_length(header@) == Ok::<int, i32>(n as int),
            Err(e) => content_length(header@) == Err::<int, i32>(e),
        },
{
    let n: usize = header.unicode_len();
    if n < HEADER_NAME_LENGTH {
        return Err(HEADER_TOO_SHORT);
    }
    let rest: &str = header.substring_char(HEADER_NAME_LENGTH, n);
    proof {
        assert(rest@ =~= header@.skip(HEADER_NAME_LENGTH as int));
    }
    match parse_usize(trim_text(rest)) {
        Some(length) => Ok(length),
        None => Err(HEADER_NOT_A_NUMBER),
    }
}

/// The place that a definition request is answered with.
#[derive(Clone, Copy, Debug, PartialEq, Eq, Structural)]
pub struct DefinitionRange {
    pub line: usize,
    pub start: usize,
    pub end: usize,
}

/// Where the definition of the word at a position is said to be: in the
/// line before, eight to ten characters further right. `None` where the
/// columns do not fit a machine word.
pub fn definition_range(line_nr: usize, char_nr: usize) -> (range: Option<DefinitionRange>)
    ensures
        match range {
            Some(r) => char_nr + 10 <= usize::MAX && r.line == if line_nr > 0 {
                line_nr - 1
            } else {
                0
            } && r.start == char_nr + 8 && r.end == char_nr + 10,
            None => char_nr + 10 > usize::MAX,
        },
{
    if char_nr > usize::MAX - 10 {
        return None;
    }
    let line: usize = if line_nr > 0 {
        line_nr - 1
    } else {
        line_nr
    };
    Some(DefinitionRange { line, start: char_nr + 8, end: char_nr + 10 })
}

/// The text that a code action puts before a line: its number and a
/// colon.
pub fn line_number_prefix(line: u64) -> (prefix: String)
    ensures
        prefix@ == decimal(line as nat) + ": "@,
{
    let mut prefix: String = decimal_text(line);
    prefix.append(": ");
    prefix
}

} // verus!

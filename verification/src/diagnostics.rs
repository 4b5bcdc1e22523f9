//! Diagnostics from the messages that the tracer prints for a script.
//!
//! The tracer reports one problem per line, with fields between colons:
//! `stdin:6:60-69: ERROR: ...` for a problem in one line of the script,
//! `stdin:2-4: ERROR: ...` for one that spans lines, and
//! `definitions.h:10:18: error: ...` for one in the C definitions.

use crate::lines::lines_of;
use crate::lines::text_lines;
use crate::number::parse_decimal;
use crate::number::parse_usize;
use crate::text::join;
use crate::text::join_strings;
use crate::text::same_text;
use crate::text::split;
use crate::text::split_text;
use crate::text::strings_view;
use crate::text::trim;
use crate::text::trim_text;
use vstd::prelude::*;

verus! {

/// The severity of an error.
pub const SEVERITY_ERROR: u32 = 1;

/// The severity of a warning.
pub const SEVERITY_WARNING: u32 = 2;

/// A problem in a script, as the editor shows it.
pub struct Diagnostic {
    /// The line, as the editor counts it.
    pub line: usize,
    /// The first column.
    pub start: usize,
    /// The column behind the last.
    pub end: usize,
    pub severity: u32,
    pub message: String,
}

/// Mathematical model of a [`Diagnostic`].
pub struct DiagnosticModel {
    pub line: int,
    pub start: int,
    pub end: int,
    pub severity: u32,
    pub message: Seq<char>,
}

impl View for Diagnostic {
    type V = DiagnosticModel;

    open spec fn view(&self) -> DiagnosticModel {
        DiagnosticModel {
            line: self.line as int,
            start: self.start as int,
            end: self.end as int,
            severity: self.severity,
            message: self.message@,
        }
    }
}

/// The model of a list of diagnostics.
pub open spec fn diagnostics_model(list: Seq<Diagnostic>) -> Seq<DiagnosticModel> {
    Seq::new(list.len(), |i: int| list[i]@)
}

/// The severity that a word of the tracer stands for: an error for
/// `ERROR`, a warning for every other word.
pub open spec fn severity_of(word: Seq<char>) -> u32 {
    if trim(word) == "ERROR"@ {
        SEVERITY_ERROR
    } else {
        SEVERITY_WARNING
    }
}

/// The line of the editor for a line of the tracer: the one before,
/// but for the lines zero and one.
pub open spec fn editor_line(line: int) -> int {
    if line > 1 {
        line - 1
    } else {
        line
    }
}

/// The fields from position `k` on, with colons between them again.
pub open spec fn rest_of(fields: Seq<Seq<char>>, k: int) -> Seq<char> {
    if fields.len() > k {
        join(fields.skip(k), seq![':'])
    } else {
        Seq::empty()
    }
}

/// A number that fits a machine word, from its text.
pub open spec fn number(text: Seq<char>) -> Option<int> {
    parse_decimal(text, usize::MAX as int)
}

/// The diagnostic of a problem in line `line_nr` of the script. The third
/// field holds the columns, `first-last`; the fourth the severity; the
/// rest the message. `None` where a field is missing or no number.
pub open spec fn single_line_diagnostic(line_nr: int, fields: Seq<Seq<char>>) -> Option<
    DiagnosticModel,
> {
    if fields.len() < 4 {
        None
    } else {
        let columns = split(fields[2], '-');
        if columns.len() < 2 {
            None
        } else {
            match (number(columns[0]), number(columns[1])) {
                (Some(start), Some(end)) => Some(
                    DiagnosticModel {
                        line: editor_line(line_nr),
                        start,
                        end,
                        severity: severity_of(fields[3]),
                        message: fields[3] + seq![':'] + rest_of(fields, 4),
                    },
                ),
                _ => None,
            }
        }
    }
}

/// The diagnostic of a problem that spans lines of the script. The second
/// field holds the lines, `first-last`; the third the severity; the rest
/// the message. The problem is shown at the start of the last line.
/// `None` where a field is missing or no number.
pub open spec fn multi_line_diagnostic(fields: Seq<Seq<char>>) -> Option<DiagnosticModel> {
    if fields.len() < 3 {
        None
    } else {
        let rows = split(fields[1], '-');
        if rows.len() < 2 {
            None
        } else {
            match number(rows[1]) {
                Some(last) => Some(
                    DiagnosticModel {
                        line: editor_line(last),
                        start: 0,
                        end: 0,
                        severity: severity_of(fields[2]),
                        message: fields[2] + seq![':'] + rest_of(fields, 3),
                    },
                ),
                None => None,
            }
        }
    }
}

/// The diagnostic of a problem in the C definitions. The second field
/// holds the line, the third the column behind the problem; the message
/// follows the fourth. `None` where a field is missing or no number.
pub open spec fn definitions_diagnostic(fields: Seq<Seq<char>>) -> Option<DiagnosticModel> {
    if fields.len() < 3 {
        None
    } else {
        match (number(fields[1]), number(fields[2])) {
            (Some(line), Some(end)) => Some(
                DiagnosticModel {
                    line: editor_line(line),
                    start: if end > 0 {
                        end - 1
                    } else {
                        end
                    },
                    end,
                    severity: SEVERITY_ERROR,
                    message: "ERROR:"@ + rest_of(fields, 4),
                },
            ),
            _ => None,
        }
    }
}

/// The diagnostic that a line of the tracer's output stands for, if any.
pub open spec fn diagnostic_of(line: Seq<char>) -> Option<DiagnosticModel> {
    let fields = split(line, ':');
    if fields.len() < 3 {
        None
    } else if fields[0] == "stdin"@ {
        match number(fields[1]) {
            Some(line_nr) => single_line_diagnostic(line_nr, fields),
            None => multi_line_diagnostic(fields),
        }
    } else if fields[0] == "definitions.h"@ {
        definitions_diagnostic(fields)
    } else {
        None
    }
}

/// The diagnostics that the lines stand for, in their order.
pub open spec fn diagnostics_of(lines: Seq<Seq<char>>) -> Seq<DiagnosticModel>
    decreases lines.len(),
{
    if lines.len() == 0 {
        Seq::empty()
    } else {
        let rest = diagnostics_of(lines.drop_last());
        match diagnostic_of(lines.last()) {
            Some(d) => rest.push(d),
            None => rest,
        }
    }
}

/// The severity that a word of the tracer stands for.
pub fn to_severity(word: &str) -> (severity: u32)
    ensures
        severity == severity_of(word@),
{
    if same_text(trim_text(word), "ERROR") {
        SEVERITY_ERROR
    } else {
        SEVERITY_WARNING
    }
}

/// The line of the editor for a line of the tracer.
pub fn to_editor_line(line: usize) -> (editor: usize)
    ensures
        editor == editor_line(line as int),
{
    if line > 1 {
        line - 1
    } else {
        line
    }
}

/// The fields from position `k` on, with colons between them again.
pub fn rest_of_fields(fields: &Vec<String>, k: usize) -> (rest: String)
    ensures
        rest@ == rest_of(strings_view(fields@), k as int),
{
    if fields.len() <= k {
        return String::new();
    }
    let mut tail: Vec<String> = Vec::new();
    let mut i: usize = k;
    while i < fields.len()
        invariant
            k <= i <= fields.len(),
            tail.len() == i - k,
            forall|j: int| 0 <= j < tail.len() ==> tail@[j]@ == fields@[j + k]@,
        decreases fields.len() - i,
    {
        tail.push(fields[i].clone());
        i += 1;
    }
    proof {
        assert(strings_view(tail@) =~= strings_view(fields@).skip(k as int));
        reveal_strlit(":");
        assert(":"@ =~= seq![':']);
    }
    join_strings(&tail, ":")
}

/// Reads the diagnostic of a problem in line `line_nr` of the script
/// from the fields of a line like `stdin:6:60-69: ERROR: ...`.
pub fn handle_single_line_error(line_nr: usize, tokens: &Vec<String>) -> (diag: Option<Diagnostic>)
    ensures
        match diag {
            Some(d) => single_line_diagnostic(line_nr as int, strings_view(tokens@)) == Some(d@),
            None => single_line_diagnostic(line_nr as int, strings_view(tokens@)) is None,
        },
{
    if tokens.len() < 4 {
        return None;
    }
    proof {
        assert(strings_view(tokens@)[2] == tokens@[2]@);
        assert(strings_view(tokens@)[3] == tokens@[3]@);
    }
    let chars: Vec<String> = split_text(tokens[2].as_str(), '-');
    if chars.len() < 2 {
        return None;
    }
    proof {
        assert(strings_view(chars@)[0] == chars@[0]@);
        assert(strings_view(chars@)[1] == chars@[1]@);
    }
    let start: usize = match parse_usize(chars[0].as_str()) {
        Some(n) => n,
        None => {
            return None;
        },
    };
    let end: usize = match parse_usize(chars[1].as_str()) {
        Some(n) => n,
        None => {
            return None;
        },
    };
    let mut message: String = tokens[3].clone();
    proof {
        reveal_strlit(":");
        assert(":"@ =~= seq![':']);
    }
    message.append(":");
    message.append(rest_of_fields(tokens, 4).as_str());
    Some(
        Diagnostic {
            line: to_editor_line(line_nr),
            start,
            end,
            severity: to_severity(tokens[3].as_str()),
            message,
        },
    )
}

/// Reads the diagnostic of a problem that spans lines of the script from
/// the fields of a line like `stdin:2-4: ERROR: ...`.
pub fn handle_multi_line_error(tokens: &Vec<String>) -> (diag: Option<Diagnostic>)
    ensures
        match diag {
            Some(d) => multi_line_diagnostic(strings_view(tokens@)) == Some(d@),
            None => multi_line_diagnostic(strings_view(tokens@)) is None,
        },
{
    if tokens.len() < 3 {
        return None;
    }
    proof {
        assert(strings_view(tokens@)[1] == tokens@[1]@);
        assert(strings_view(tokens@)[2] == tokens@[2]@);
    }
    let start_end: Vec<String> = split_text(tokens[1].as_str(), '-');
    if start_end.len() < 2 {
        return None;
    }
    proof {
        assert(strings_view(start_end@)[1] == start_end@[1]@);
    }
    let line_nr: usize = match parse_usize(start_end[1].as_str()) {
        Some(n) => n,
        None => {
            return None;
        },
    };
    let mut message: String = tokens[2].clone();
    proof {
        reveal_strlit(":");
        assert(":"@ =~= seq![':']);
    }
    message.append(":");
    message.append(rest_of_fields(tokens, 3).as_str());
    Some(
        Diagnostic {
            line: to_editor_line(line_nr),
            start: 0,
            end: 0,
            severity: to_severity(tokens[2].as_str()),
            message,
        },
    )
}

/// Reads the diagnostic of a problem in the C definitions from the fields
/// of a line like `definitions.h:10:18: error: ...`.
pub fn handle_definitions_error(tokens: &Vec<String>) -> (diag: Option<Diagnostic>)
    ensures
        match diag {
            Some(d) => definitions_diagnostic(strings_view(tokens@)) == Some(d@),
            None => definitions_diagnostic(strings_view(tokens@)) is None,
        },
{
    if tokens.len() < 3 {
        return None;
    }
    proof {
        assert(strings_view(tokens@)[1] == tokens@[1]@);
        assert(strings_view(tokens@)[2] == tokens@[2]@);
    }
    let line_nr: usize = match parse_usize(tokens[1].as_str()) {
        Some(n) => n,
        None => {
            return None;
        },
    };
    let end_char_nr: usize = match parse_usize(tokens[2].as_str()) {
        Some(n) => n,
        None => {
            return None;
        },
    };
    let start_char_nr: usize = if end_char_nr > 0 {
        end_char_nr - 1
    } else {
        end_char_nr
    };
    let mut message: String = "ERROR:".to_owned();
    message.append(rest_of_fields(tokens, 4).as_str());
    Some(
        Diagnostic {
            line: to_editor_line(line_nr),
            start: start_char_nr,
            end: end_char_nr,
            severity: SEVERITY_ERROR,
            message,
        },
    )
}

/// Reads the diagnostic that a line of the tracer's output stands for.
pub fn parse_diagnostic(line: &str) -> (diag: Option<Diagnostic>)
    ensures
        match diag {
            Some(d) => diagnostic_of(line@) == Some(d@),
            None => diagnostic_of(line@) is None,
        },
{
    let tokens: Vec<String> = split_text(line, ':');
    if tokens.len() < 3 {
        return None;
    }
    proof {
        assert(strings_view(tokens@)[0] == tokens@[0]@);
        assert(strings_view(tokens@)[1] == tokens@[1]@);
    }
    if same_text(tokens[0].as_str(), "stdin") {
        match parse_usize(tokens[1].as_str()) {
            Some(line_nr) => handle_single_line_error(line_nr, &tokens),
            None => handle_multi_line_error(&tokens),
        }
    } else if same_text(tokens[0].as_str(), "definitions.h") {
        handle_definitions_error(&tokens)
    } else {
        None
    }
}

/// Reads the diagnostics of a script from what the tracer printed for it:
/// one for each line that reports a problem in the script or in its
/// definitions. Lines that report nothing of the kind are passed over.
pub fn parse_diagnostics(output: &str) -> (list: Vec<Diagnostic>)
    ensures
        diagnostics_model(list@) == diagnostics_of(lines_of(output@)),
{
    let lines: Vec<String> = text_lines(output);
    let ghost all = strings_view(lines@);
    let mut list: Vec<Diagnostic> = Vec::new();
    let mut i: usize = 0;
    proof {
        assert(diagnostics_model(list@) =~= Seq::empty());
        assert(all.take(0) =~= Seq::empty());
    }
    while i < lines.len()
        invariant
            i <= lines.len(),
            all == strings_view(lines@),
            diagnostics_model(list@) == diagnostics_of(all.take(i as int)),
        decreases lines.len() - i,
    {
        proof {
            let next = all.take(i + 1);
            assert(next.drop_last() =~= all.take(i as int));
            assert(next.last() == lines@[i as int]@);
        }
        match parse_diagnostic(lines[i].as_str()) {
            Some(d) => {
                let ghost before = diagnostics_model(list@);
                list.push(d);
                proof {
                    assert(diagnostics_model(list@) =~= before.push(d@));
                }
            },
            None => {},
        }
        i += 1;
    }
    proof {
        assert(all.take(lines.len() as int) =~= all);
    }
    list
}

} // verus!

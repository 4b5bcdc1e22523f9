//! The lines of a text.

use crate::text::strings_view;
use crate::text::to_chars;
use crate::text::trim;
use crate::text::trim_text;
use vstd::prelude::*;

verus! {

/// A line without the carriage return that may end it.
pub open spec fn strip_cr(line: Seq<char>) -> Seq<char> {
    if line.len() > 0 && line.last() == '\r' {
        line.drop_last()
    } else {
        line
    }
}

/// The lines of `s` from position `i` on, where the line that is being
/// read began at `start`.
pub open spec fn lines_from(s: Seq<char>, start: int, i: int) -> Seq<Seq<char>>
    decreases s.len() - i,
{
    if i >= s.len() {
        if start < s.len() {
            seq![s.subrange(start, s.len() as int)]
        } else {
            Seq::empty()
        }
    } else if s[i] == '\n' {
        seq![strip_cr(s.subrange(start, i))] + lines_from(s, i + 1, i + 1)
    } else {
        lines_from(s, start, i + 1)
    }
}

/// The lines of a text. A line feed ends a line, and so does a carriage
/// return with a line feed behind it; neither belongs to the line. The
/// last line needs no line ending, and keeps a carriage return at its end.
pub open spec fn lines_of(s: Seq<char>) -> Seq<Seq<char>> {
    lines_from(s, 0, 0)
}

/// The line with the given number, counted from zero; empty where the
/// text has no such line.
pub open spec fn line_at(s: Seq<char>, line_nr: int) -> Seq<char> {
    if 0 <= line_nr < lines_of(s).len() {
        lines_of(s)[line_nr]
    } else {
        Seq::empty()
    }
}

/// The lines of a text.
pub fn text_lines(text: &str) -> (lines: Vec<String>)
    ensures
        strings_view(lines@) == lines_of(text@),
{
    let chars: Vec<char> = to_chars(text);
    let n: usize = chars.len();
    let mut lines: Vec<String> = Vec::new();
    let mut start: usize = 0;
    let mut i: usize = 0;
    proof {
        assert(strings_view(lines@) + lines_of(text@) =~= lines_of(text@));
    }
    while i < n
        invariant
            start <= i <= n,
            n == text@.len(),
            chars@ == text@,
            strings_view(lines@) + lines_from(text@, start as int, i as int) == lines_of(text@),
        decreases n - i,
    {
        if chars[i] == '\n' {
            let ghost done = strings_view(lines@);
            let end: usize = if i > start && chars[i - 1] == '\r' {
                i - 1
            } else {
                i
            };
            let line: String = text.substring_char(start, end).to_owned();
            proof {
                let raw = text@.subrange(start as int, i as int);
                if i > start {
                    assert(raw.last() == chars@[i - 1]);
                }
                assert(line@ =~= strip_cr(raw));
            }
            lines.push(line);
            proof {
                assert(strings_view(lines@) =~= done.push(line@));
                assert(done.push(line@) + lines_from(text@, i + 1, i + 1) =~= done + lines_from(
                    text@,
                    start as int,
                    i as int,
                ));
            }
            start = i + 1;
        }
        i = i + 1;
    }
    if start < n {
        let ghost done = strings_view(lines@);
        let line: String = text.substring_char(start, n).to_owned();
        lines.push(line);
        proof {
            assert(strings_view(lines@) =~= done + seq![line@]);
        }
    } else {
        proof {
            assert(strings_view(lines@) + Seq::<Seq<char>>::empty() =~= strings_view(lines@));
        }
    }
    lines
}

/// The line with the given number, counted from zero; empty where the
/// text has no such line.
pub fn text_get_line(text: &str, line_nr: usize) -> (line: String)
    ensures
        line@ == line_at(text@, line_nr as int),
{
    let mut lines: Vec<String> = text_lines(text);
    if line_nr < lines.len() {
        let ghost all = strings_view(lines@);
        let line: String = lines.swap_remove(line_nr);
        proof {
            assert(all[line_nr as int] == line@);
        }
        line
    } else {
        String::new()
    }
}

/// The position of the first `c` in `s`, searched from `i` on.
pub open spec fn position_from(s: Seq<char>, c: char, i: int) -> Option<int>
    decreases s.len() - i,
{
    if i >= s.len() {
        None
    } else if s[i] == c {
        Some(i)
    } else {
        position_from(s, c, i + 1)
    }
}

/// The position of the first `c` in `s`.
pub open spec fn position_of(s: Seq<char>, c: char) -> Option<int> {
    position_from(s, c, 0)
}

/// The position of the first `c` among the characters.
pub fn find_char(chars: &Vec<char>, c: char) -> (found: Option<usize>)
    ensures
        match found {
            Some(k) => position_of(chars@, c) == Some(k as int) && k < chars.len(),
            None => position_of(chars@, c) is None,
        },
{
    let mut i: usize = 0;
    while i < chars.len()
        invariant
            i <= chars.len(),
            position_from(chars@, c, i as int) == position_of(chars@, c),
        decreases chars.len() - i,
    {
        if chars[i] == c {
            return Some(i);
        }
        i += 1;
    }
    None
}

/// The probe that the action block opening in line `line_nr` belongs to.
/// Where something other than white space stands before the opening brace,
/// it is that, trimmed; otherwise it is the line before, trimmed. Empty
/// where the line has no opening brace or the text has no such line.
pub open spec fn probe_before_action(text: Seq<char>, line_nr: int) -> Seq<char> {
    let lines = lines_of(text);
    if 0 <= line_nr < lines.len() {
        match position_of(lines[line_nr], '{') {
            Some(brace) => {
                let head = trim(lines[line_nr].take(brace));
                if head.len() > 0 {
                    head
                } else if line_nr > 0 {
                    trim(lines[line_nr - 1])
                } else {
                    Seq::empty()
                }
            },
            None => Seq::empty(),
        }
    } else {
        Seq::empty()
    }
}

/// Finds the probe of the action block that opens in line `line_nr`:
/// what stands before the opening brace or, if that is blank, the line
/// before.
pub fn find_probe_for_action(text: &str, line_nr: usize) -> (probe: String)
    ensures
        probe@ == probe_before_action(text@, line_nr as int),
{
    let lines: Vec<String> = text_lines(text);
    if line_nr >= lines.len() {
        return String::new();
    }
    let ghost all = strings_view(lines@);
    proof {
        assert(all[line_nr as int] == lines@[line_nr as int]@);
    }
    let line: &str = lines[line_nr].as_str();
    let chars: Vec<char> = to_chars(line);
    match find_char(&chars, '{') {
        None => String::new(),
        Some(brace) => {
            let head: &str = line.substring_char(0, brace);
            proof {
                assert(head@ =~= line@.take(brace as int));
            }
            let trimmed: &str = trim_text(head);
            if trimmed.unicode_len() > 0 {
                trimmed.to_owned()
            } else if line_nr > 0 {
                proof {
                    assert(all[line_nr - 1] == lines@[line_nr - 1]@);
                }
                trim_text(lines[line_nr - 1].as_str()).to_owned()
            } else {
                String::new()
            }
        },
    }
}

} // verus!

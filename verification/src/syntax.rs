//! Where the cursor stands in a script, judged from the text alone.

use crate::bytes::byte_head;
use crate::bytes::head_chars;
use crate::text::to_chars;
use vstd::prelude::*;

verus! {

/// The parts of a script that completion tells apart.
#[derive(Clone, Copy, Debug, PartialEq, Eq, Structural)]
pub enum SyntaxLocation {
    SourceFile,
    Comment,
    Probes,
    Predicate,
    Action,
}

/// The number of characters of `text` that stand before the cursor, found
/// by scanning from position `i`, which lies in line `line` at column
/// `col`. Lines end with a line feed and are counted from zero, as are the
/// columns of a line.
pub open spec fn offset_from(
    text: Seq<char>,
    line_nr: int,
    char_nr: int,
    i: int,
    line: int,
    col: int,
) -> int
    decreases text.len() - i,
{
    if i >= text.len() {
        text.len() as int
    } else if line > line_nr || (line == line_nr && col >= char_nr) {
        i
    } else if text[i] == '\n' {
        offset_from(text, line_nr, char_nr, i + 1, line + 1, 0)
    } else {
        offset_from(text, line_nr, char_nr, i + 1, line, col + 1)
    }
}

/// The number of characters of `text` that stand before the cursor at
/// column `char_nr` of line `line_nr`. A cursor behind the end of its line
/// stands at the end of that line; one behind the last line stands at the
/// end of the text.
pub open spec fn cursor_offset(text: Seq<char>, line_nr: int, char_nr: int) -> int {
    offset_from(text, line_nr, char_nr, 0, 0, 0)
}

/// How often `c` occurs in `s`.
pub open spec fn count_char(s: Seq<char>, c: char) -> int
    decreases s.len(),
{
    if s.len() == 0 {
        0
    } else {
        count_char(s.drop_last(), c) + if s.last() == c {
            1int
        } else {
            0int
        }
    }
}

/// Whether more braces open than close before the cursor.
pub open spec fn inside_braces(text: Seq<char>, line_nr: int, char_nr: int) -> bool {
    let before = text.take(cursor_offset(text, line_nr, char_nr));
    count_char(before, '{') > count_char(before, '}')
}

/// No character occurs more often than the sequence is long.
pub proof fn lemma_count_bounds(s: Seq<char>, c: char)
    ensures
        0 <= count_char(s, c) <= s.len(),
    decreases s.len(),
{
    if s.len() > 0 {
        lemma_count_bounds(s.drop_last(), c);
    }
}

/// Whether the cursor stands inside an action block: more braces open than
/// close in the text before it. Braces in comments and strings count too.
/// The cursor stands in line `line_nr` before the character at column
/// `char_nr`, both from zero; the column counts characters.
pub fn is_action_block(text: &str, line_nr: usize, char_nr: usize) -> (inside: bool)
    ensures
        inside == inside_braces(text@, line_nr as int, char_nr as int),
{
    let chars: Vec<char> = to_chars(text);
    let ghost s = text@;
    let mut opened: usize = 0;
    let mut closed: usize = 0;
    let mut line: usize = 0;
    let mut col: usize = 0;
    let mut i: usize = 0;
    proof {
        assert(s.take(0) =~= Seq::empty());
    }
    while i < chars.len() && (line < line_nr || (line == line_nr && col < char_nr))
        invariant
            i <= chars.len(),
            chars@ == s,
            line <= i,
            col <= i,
            opened == count_char(s.take(i as int), '{'),
            closed == count_char(s.take(i as int), '}'),
            offset_from(s, line_nr as int, char_nr as int, i as int, line as int, col as int)
                == cursor_offset(s, line_nr as int, char_nr as int),
        decreases chars.len() - i,
    {
        let c: char = chars[i];
        proof {
            assert(s.take(i + 1).drop_last() =~= s.take(i as int));
            lemma_count_bounds(s.take(i as int), '{');
            lemma_count_bounds(s.take(i as int), '}');
        }
        if c == '{' {
            opened = opened + 1;
        }
        if c == '}' {
            closed = closed + 1;
        }
        if c == '\n' {
            line = line + 1;
            col = 0;
        } else {
            col = col + 1;
        }
        i = i + 1;
    }
    opened > closed
}

/// Whether a character ends the word before it: a blank, an opening brace
/// or an opening parenthesis.
pub open spec fn is_separator(c: char) -> bool {
    c == ' ' || c == '{' || c == '('
}

/// Where the last word of `s` begins: behind the last separator, or at
/// the start where `s` holds none.
pub open spec fn last_word_start(s: Seq<char>) -> int
    decreases s.len(),
{
    if s.len() == 0 {
        0
    } else if is_separator(s.last()) {
        s.len() as int
    } else {
        last_word_start(s.drop_last())
    }
}

/// The last word of `s`: what follows the last separator.
pub open spec fn last_word(s: Seq<char>) -> Seq<char> {
    s.skip(last_word_start(s))
}

/// The argument expression that ends a text: its last word, if that
/// starts with `args.`.
pub open spec fn word_argument(head: Seq<char>) -> Option<Seq<char>> {
    if "args."@.is_prefix_of(last_word(head)) {
        Some(last_word(head))
    } else {
        None
    }
}

/// The argument expression that ends at byte `char_nr` of a line: that of
/// the text before the offset. `None` where the line has fewer bytes, and
/// where the offset lies inside a character.
pub open spec fn argument_at(line: Seq<char>, char_nr: int) -> Option<Seq<char>> {
    match head_chars(line, char_nr) {
        Some(head) => word_argument(head),
        None => None,
    }
}

/// Looks for an argument expression at the end of a text. Where the last
/// word of the text starts with `args.`, appends the word to `args` and
/// reports `true`. Otherwise leaves `args` as it is and reports `false`.
pub fn ends_in_argument(head: &str, args: &mut String) -> (res: bool)
    ensures
        match word_argument(head@) {
            Some(word) => res && final(args)@ == old(args)@ + word,
            None => !res && final(args)@ == old(args)@,
        },
{
    let chars: Vec<char> = to_chars(head);
    let end: usize = chars.len();
    let mut start: usize = end;
    proof {
        assert(head@.take(end as int) =~= head@);
    }
    while start > 0 && !(chars[start - 1] == ' ' || chars[start - 1] == '{' || chars[start - 1]
        == '(')
        invariant
            start <= end == chars.len(),
            chars@ == head@,
            last_word_start(head@.take(start as int)) == last_word_start(head@),
        decreases start,
    {
        proof {
            assert(head@.take(start as int).drop_last() =~= head@.take(start - 1));
        }
        start = start - 1;
    }
    proof {
        if start > 0 {
            assert(head@.take(start as int).last() == chars@[start - 1]);
        }
        assert(last_word_start(head@) == start);
        reveal_strlit("args.");
        let word = head@.subrange(start as int, end as int);
        assert(last_word(head@) =~= word);
        if "args."@.is_prefix_of(word) {
            assert(word.subrange(0, 5) =~= "args."@);
            assert(word.subrange(0, 5)[0] == 'a');
            assert(word.subrange(0, 5)[1] == 'r');
            assert(word.subrange(0, 5)[2] == 'g');
            assert(word.subrange(0, 5)[3] == 's');
            assert(word.subrange(0, 5)[4] == '.');
        }
        if word.len() >= 5 && word[0] == 'a' && word[1] == 'r' && word[2] == 'g' && word[3] == 's'
            && word[4] == '.' {
            assert(word.subrange(0, 5) =~= "args."@);
        }
    }
    if end - start >= 5 && chars[start] == 'a' && chars[start + 1] == 'r' && chars[start + 2]
        == 'g' && chars[start + 3] == 's' && chars[start + 4] == '.' {
        args.append(head.substring_char(start, end));
        true
    } else {
        false
    }
}

/// Looks for an argument expression before the cursor, which stands at
/// byte `char_nr` of the line. Where the last word before the cursor
/// starts with `args.`, appends the word to `args` and reports `true`.
/// Otherwise leaves `args` as it is and reports `false`: also where the
/// line has fewer bytes, and where the cursor stands inside a character.
pub fn is_argument(line_str: &str, char_nr: usize, args: &mut String) -> (res: bool)
    ensures
        match argument_at(line_str@, char_nr as int) {
            Some(word) => res && final(args)@ == old(args)@ + word,
            None => !res && final(args)@ == old(args)@,
        },
{
    match byte_head(line_str, char_nr) {
        Some(head) => ends_in_argument(head, args),
        None => false,
    }
}

} // verus!

//! Sequences of strings and how they are joined.

use vstd::prelude::*;

verus! {

/// The model of a list of strings: the list of their character sequences.
pub open spec fn strings_view(strings: Seq<String>) -> Seq<Seq<char>> {
    Seq::new(strings.len(), |i: int| strings[i]@)
}

/// The parts written one after the other, with `sep` between neighbours.
pub open spec fn join(parts: Seq<Seq<char>>, sep: Seq<char>) -> Seq<char>
    decreases parts.len(),
{
    if parts.len() == 0 {
        Seq::empty()
    } else if parts.len() == 1 {
        parts[0]
    } else {
        join(parts.drop_last(), sep) + sep + parts.last()
    }
}

/// The characters of a string.
pub fn to_chars(s: &str) -> (chars: Vec<char>)
    ensures
        chars@ == s@,
{
    let mut chars: Vec<char> = Vec::new();
    for c in it: s.chars()
        invariant
            it.seq() == s@,
            chars@ == s@.take(it.index() as int),
    {
        chars.push(c);
        proof {
            assert(s@.take(it.index() + 1) =~= s@.take(it.index() as int).push(c));
        }
    }
    proof {
        assert(s@.take(s@.len() as int) =~= s@);
    }
    chars
}

/// Whether two strings hold the same characters.
pub fn same_text(a: &str, b: &str) -> (same: bool)
    ensures
        same == (a@ == b@),
{
    let left: String = a.to_owned();
    let right: String = b.to_owned();
    left == right
}

/// Whether `text` begins with `prefix`.
pub fn starts_with(text: &str, prefix: &str) -> (found: bool)
    ensures
        found == prefix@.is_prefix_of(text@),
{
    let t: Vec<char> = to_chars(text);
    let p: Vec<char> = to_chars(prefix);
    if p.len() > t.len() {
        return false;
    }
    let mut i: usize = 0;
    while i < p.len()
        invariant
            i <= p.len() <= t.len(),
            t@ == text@,
            p@ == prefix@,
            forall|k: int| 0 <= k < i ==> t@[k] == p@[k],
        decreases p.len() - i,
    {
        if t[i] != p[i] {
            proof {
                assert(text@.subrange(0, prefix@.len() as int)[i as int] != prefix@[i as int]);
            }
            return false;
        }
        i += 1;
    }
    proof {
        assert(text@.subrange(0, prefix@.len() as int) =~= prefix@);
    }
    true
}

/// Whether `text` ends with `suffix`.
pub fn ends_with(text: &str, suffix: &str) -> (found: bool)
    ensures
        found == suffix@.is_suffix_of(text@),
{
    let t: Vec<char> = to_chars(text);
    let p: Vec<char> = to_chars(suffix);
    if p.len() > t.len() {
        return false;
    }
    let shift: usize = t.len() - p.len();
    let mut i: usize = 0;
    while i < p.len()
        invariant
            i <= p.len() <= t.len(),
            shift == t.len() - p.len(),
            t@ == text@,
            p@ == suffix@,
            forall|k: int| 0 <= k < i ==> t@[k + shift] == p@[k],
        decreases p.len() - i,
    {
        if t[shift + i] != p[i] {
            proof {
                let tail = text@.subrange(text@.len() - suffix@.len(), text@.len() as int);
                assert(tail[i as int] != suffix@[i as int]);
            }
            return false;
        }
        i += 1;
    }
    proof {
        assert(text@.subrange(text@.len() - suffix@.len(), text@.len() as int) =~= suffix@);
    }
    true
}

/// The pieces of `s` between the occurrences of `sep`, found by scanning
/// from position `i`, where the piece that is being read began at `start`.
pub open spec fn split_from(s: Seq<char>, sep: char, start: int, i: int) -> Seq<Seq<char>>
    decreases s.len() - i,
{
    if i >= s.len() {
        seq![s.subrange(start, s.len() as int)]
    } else if s[i] == sep {
        seq![s.subrange(start, i)] + split_from(s, sep, i + 1, i + 1)
    } else {
        split_from(s, sep, start, i + 1)
    }
}

/// The pieces of `s` between the occurrences of `sep`: one more than there
/// are occurrences, and empty where two stand side by side or at an end.
pub open spec fn split(s: Seq<char>, sep: char) -> Seq<Seq<char>> {
    split_from(s, sep, 0, 0)
}

/// Splits a text at every occurrence of `sep`.
pub fn split_text(text: &str, sep: char) -> (pieces: Vec<String>)
    ensures
        strings_view(pieces@) == split(text@, sep),
        pieces.len() >= 1,
{
    let chars: Vec<char> = to_chars(text);
    let n: usize = chars.len();
    let mut pieces: Vec<String> = Vec::new();
    let mut start: usize = 0;
    let mut i: usize = 0;
    proof {
        assert(strings_view(pieces@) + split(text@, sep) =~= split(text@, sep));
    }
    while i < n
        invariant
            start <= i <= n,
            n == text@.len(),
            chars@ == text@,
            strings_view(pieces@) + split_from(text@, sep, start as int, i as int) == split(
                text@,
                sep,
            ),
        decreases n - i,
    {
        if chars[i] == sep {
            let ghost done = strings_view(pieces@);
            let piece: String = text.substring_char(start, i).to_owned();
            pieces.push(piece);
            proof {
                assert(strings_view(pieces@) =~= done.push(piece@));
                assert(done.push(piece@) + split_from(text@, sep, i + 1, i + 1) =~= done
                    + split_from(text@, sep, start as int, i as int));
            }
            start = i + 1;
        }
        i = i + 1;
    }
    let ghost done = strings_view(pieces@);
    let piece: String = text.substring_char(start, n).to_owned();
    pieces.push(piece);
    proof {
        assert(strings_view(pieces@) =~= done + seq![piece@]);
    }
    pieces
}

/// Whether a character is white space: one of the characters that
/// Unicode gives the property `White_Space`. These are the controls from
/// tab to carriage return, the blank, the next-line control, the
/// no-break space, the Ogham space mark, the spaces from en quad to hair
/// space, the line and the paragraph separator, the narrow no-break
/// space, the medium mathematical space and the ideographic space.
pub open spec fn white_space(c: char) -> bool {
    ('\u{9}' <= c <= '\u{d}') || c == ' ' || c == '\u{85}' || c == '\u{a0}' || c == '\u{1680}' || (
    '\u{2000}' <= c <= '\u{200a}') || c == '\u{2028}' || c == '\u{2029}' || c == '\u{202f}' || c
        == '\u{205f}' || c == '\u{3000}'
}

/// `char::is_whitespace` tells whether a character has the Unicode
/// property `White_Space`. Taken on trust: that these are the characters
/// which [`white_space`] lists.
pub assume_specification[ char::is_whitespace ](c: char) -> (white: bool)
    ensures
        white == white_space(c),
;

/// The number of white-space characters at the start of `s`, counted from
/// position `i` on.
pub open spec fn leading_space(s: Seq<char>, i: int) -> int
    decreases s.len() - i,
{
    if 0 <= i < s.len() && white_space(s[i]) {
        leading_space(s, i + 1)
    } else {
        i
    }
}

/// The position behind the last character of the first `end` that is not
/// white space, and not before `start`.
pub open spec fn trailing_space(s: Seq<char>, start: int, end: int) -> int
    decreases end,
{
    if 0 <= start < end <= s.len() && white_space(s[end - 1]) {
        trailing_space(s, start, end - 1)
    } else {
        end
    }
}

/// Where the trimmed text begins.
pub open spec fn trim_start_of(s: Seq<char>) -> int {
    leading_space(s, 0)
}

/// Where the trimmed text ends.
pub open spec fn trim_end_of(s: Seq<char>) -> int {
    trailing_space(s, trim_start_of(s), s.len() as int)
}

/// The text without the white space at its start and end.
pub open spec fn trim(s: Seq<char>) -> Seq<char> {
    s.subrange(trim_start_of(s), trim_end_of(s))
}

/// The bounds of the trimmed text within the characters of a text.
pub fn trim_bounds(chars: &Vec<char>) -> (bounds: (usize, usize))
    ensures
        bounds.0 == trim_start_of(chars@),
        bounds.1 == trim_end_of(chars@),
        bounds.0 <= bounds.1 <= chars.len(),
{
    let n: usize = chars.len();
    let mut start: usize = 0;
    while start < n && chars[start].is_whitespace()
        invariant
            start <= n == chars.len(),
            leading_space(chars@, start as int) == trim_start_of(chars@),
        decreases n - start,
    {
        start = start + 1;
    }
    let mut end: usize = n;
    while end > start && chars[end - 1].is_whitespace()
        invariant
            start <= end <= n == chars.len(),
            start == trim_start_of(chars@),
            trailing_space(chars@, start as int, end as int) == trim_end_of(chars@),
        decreases end,
    {
        end = end - 1;
    }
    (start, end)
}

/// The text without the white space at its start and end.
pub fn trim_text(text: &str) -> (trimmed: &str)
    ensures
        trimmed@ == trim(text@),
{
    let chars: Vec<char> = to_chars(text);
    let (start, end) = trim_bounds(&chars);
    text.substring_char(start, end)
}

/// Pushing a string onto a list appends its characters to the model.
pub proof fn lemma_strings_view_push(strings: Seq<String>, s: String)
    ensures
        strings_view(strings.push(s)) == strings_view(strings).push(s@),
{
    assert(strings_view(strings.push(s)) =~= strings_view(strings).push(s@));
}

/// Joins the strings with `sep` between neighbours.
pub fn join_strings(parts: &Vec<String>, sep: &str) -> (joined: String)
    ensures
        joined@ == join(strings_view(parts@), sep@),
{
    let mut joined = String::new();
    let mut i: usize = 0;
    while i < parts.len()
        invariant
            i <= parts.len(),
            joined@ == join(strings_view(parts@).take(i as int), sep@),
        decreases parts.len() - i,
    {
        let ghost before = strings_view(parts@).take(i as int);
        let ghost after = strings_view(parts@).take(i + 1);
        proof {
            assert(after.drop_last() =~= before);
            assert(after.last() == parts@[i as int]@);
        }
        if i > 0 {
            joined.append(sep);
        }
        joined.append(parts[i].as_str());
        proof {
            if i == 0 {
                assert(joined@ =~= parts@[0]@);
            }
        }
        i += 1;
    }
    proof {
        assert(strings_view(parts@).take(parts.len() as int) =~= strings_view(parts@));
    }
    joined
}

} // verus!

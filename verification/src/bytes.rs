//! Positions in a text that are counted in bytes.
//!
//! The editor and the syntax tree give columns as offsets into the bytes
//! of a line. A text can be cut at such an offset where a character
//! begins there, or the text ends.

use vstd::prelude::*;
use vstd::string::StringSliceAdditionalSpecFns;
use vstd::utf8::decode_utf8;
use vstd::utf8::encode_utf8;
use vstd::utf8::encode_utf8_decode_utf8;
use vstd::utf8::encode_utf8_valid_utf8;
use vstd::utf8::is_ascii_chars;
use vstd::utf8::is_ascii_chars_encode_utf8;
use vstd::utf8::is_char_boundary;
use vstd::utf8::is_char_boundary_iff_not_is_continuation_byte;
use vstd::utf8::is_char_boundary_start_end_of_seq;

verus! {

/// The characters that the bytes from offset `start` up to offset `end`
/// of a text write. `None` where the offsets are out of order or behind
/// the text, and where one of them lies inside a character.
pub open spec fn chars_between(text: Seq<char>, start: int, end: int) -> Option<Seq<char>> {
    let bytes = encode_utf8(text);
    if 0 <= start <= end <= bytes.len() && is_char_boundary(bytes, start) && is_char_boundary(
        bytes,
        end,
    ) {
        Some(decode_utf8(bytes.subrange(start, end)))
    } else {
        None
    }
}

/// The characters that the first `n` bytes of a text write. `None` where
/// the text has fewer bytes, and where the offset lies inside a
/// character.
pub open spec fn head_chars(text: Seq<char>, n: int) -> Option<Seq<char>> {
    chars_between(text, 0, n)
}

/// The text that the first `n` bytes of a text hold.
pub fn byte_head(text: &str, n: usize) -> (head: Option<&str>)
    ensures
        match head {
            Some(h) => head_chars(text@, n as int) == Some(h@) && h.spec_bytes()
                == text.spec_bytes().subrange(0, n as int),
            None => head_chars(text@, n as int) is None,
        },
{
    proof {
        encode_utf8_valid_utf8(text@);
        is_char_boundary_start_end_of_seq(text.spec_bytes());
    }
    let length: usize = text.as_bytes().len();
    if n <= length && text.is_char_boundary(n) {
        let (head, _) = text.split_at(n);
        proof {
            encode_utf8_decode_utf8(head@);
        }
        Some(head)
    } else {
        None
    }
}

/// The text that the bytes from offset `start` up to offset `end` of a
/// text hold.
pub fn byte_slice(text: &str, start: usize, end: usize) -> (part: Option<&str>)
    ensures
        match part {
            Some(p) => chars_between(text@, start as int, end as int) == Some(p@),
            None => chars_between(text@, start as int, end as int) is None,
        },
{
    proof {
        encode_utf8_valid_utf8(text@);
        is_char_boundary_start_end_of_seq(text.spec_bytes());
    }
    if start > end || !text.is_char_boundary(start) {
        return None;
    }
    let head: &str = match byte_head(text, end) {
        Some(head) => head,
        None => {
            return None;
        },
    };
    proof {
        let bytes = text.spec_bytes();
        let front = head.spec_bytes();
        encode_utf8_valid_utf8(head@);
        is_char_boundary_start_end_of_seq(front);
        if start < end {
            is_char_boundary_iff_not_is_continuation_byte(bytes, start as int);
            is_char_boundary_iff_not_is_continuation_byte(front, start as int);
            assert(front[start as int] == bytes[start as int]);
        }
    }
    let (_, part) = head.split_at(start);
    proof {
        encode_utf8_decode_utf8(part@);
        assert(part.spec_bytes() =~= text.spec_bytes().subrange(start as int, end as int));
    }
    Some(part)
}

/// In a text of characters that take one byte each, bytes and characters
/// count alike: the bytes between two offsets write the characters
/// between them.
pub proof fn lemma_one_byte_characters(text: Seq<char>, start: int, end: int)
    requires
        is_ascii_chars(text),
    ensures
        chars_between(text, start, end) == if 0 <= start <= end <= text.len() {
            Some(text.subrange(start, end))
        } else {
            None
        },
        head_chars(text, end) == if 0 <= end <= text.len() {
            Some(text.take(end))
        } else {
            None
        },
{
    let bytes = encode_utf8(text);
    is_ascii_chars_encode_utf8(text);
    encode_utf8_valid_utf8(text);
    is_char_boundary_start_end_of_seq(bytes);
    assert forall|i: int| 0 <= i <= bytes.len() implies is_char_boundary(bytes, i) by {
        if i < bytes.len() {
            is_char_boundary_iff_not_is_continuation_byte(bytes, i);
            assert(bytes[i] == text[i] as u8);
            assert('\0' <= text[i] <= '\u{7f}');
        }
    }
    if 0 <= end <= text.len() {
        lemma_one_byte_part(text, 0, end);
        assert(text.subrange(0, end) =~= text.take(end));
    }
    if 0 <= start <= end <= text.len() {
        lemma_one_byte_part(text, start, end);
    }
}

/// The bytes of a part of a text of one-byte characters write that part.
proof fn lemma_one_byte_part(text: Seq<char>, start: int, end: int)
    requires
        is_ascii_chars(text),
        0 <= start <= end <= text.len(),
    ensures
        encode_utf8(text).len() == text.len(),
        decode_utf8(encode_utf8(text).subrange(start, end)) == text.subrange(start, end),
{
    let part = text.subrange(start, end);
    assert(is_ascii_chars(part)) by {
        assert forall|i: int| 0 <= i < part.len() implies '\0' <= #[trigger] part[i]
            <= '\u{7f}' by {
            assert(part[i] == text[start + i]);
        }
    }
    is_ascii_chars_encode_utf8(text);
    is_ascii_chars_encode_utf8(part);
    assert(encode_utf8(text).subrange(start, end) =~= encode_utf8(part)) by {
        assert forall|i: int| 0 <= i < part.len() implies encode_utf8(text).subrange(
            start,
            end,
        )[i] == encode_utf8(part)[i] by {
            assert(encode_utf8(text)[start + i] == text[start + i] as u8);
            assert(encode_utf8(part)[i] == part[i] as u8);
        }
    }
    encode_utf8_decode_utf8(part);
}

} // verus!

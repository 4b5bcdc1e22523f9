//! The settings of the log.

use crate::number::parse_decimal;
use crate::number::parse_hex_u32;
use crate::number::parse_hexadecimal;
use crate::number::parse_u32;
use crate::text::same_text;
use crate::text::split;
use crate::text::split_text;
use crate::text::starts_with;
use crate::text::strings_view;
use crate::text::trim;
use crate::text::trim_text;
use vstd::prelude::*;

verus! {

/// Messages of the protocol layer.
pub const PROTO: u32 = 1;

/// Messages about diagnostics.
pub const DIAGN: u32 = 2;

/// Messages about completion.
pub const COMPL: u32 = 4;

/// Messages about notifications.
pub const NOTIF: u32 = 8;

/// Messages about hover requests.
pub const HOVER: u32 = 16;

/// Messages of the type resolver.
pub const BTFRE: u32 = 32;

/// Messages of the parser.
pub const PARSE: u32 = 64;

/// The mask of a log that is told nothing else.
pub const DEFAULT_MASK: u32 = 1;

/// Where the log goes and what it takes.
#[derive(Debug)]
pub struct Logger {
    pub name: String,
    pub mask: u32,
    pub verbose_debug: u32,
}

/// Whether verbose messages are logged: a logger is set up and its level
/// is not zero.
pub fn is_verbose(logger: Option<&Logger>) -> (verbose: bool)
    ensures
        verbose == (logger matches Some(l) && l.verbose_debug != 0),
{
    match logger {
        Some(l) => l.verbose_debug != 0,
        None => false,
    }
}

/// Whether the logger takes messages of the kinds in `this_mask`: it is
/// set up and shares a kind with the mask.
pub fn takes_messages(logger: Option<&Logger>, this_mask: u32) -> (takes: bool)
    ensures
        takes == (logger matches Some(l) && (l.mask & this_mask) != 0),
{
    match logger {
        Some(l) => (l.mask & this_mask) != 0,
        None => false,
    }
}

/// A text in upper case, as `str::to_uppercase` writes it.
pub uninterp spec fn uppercase(s: Seq<char>) -> Seq<char>;

/// Calls `str::to_uppercase`. Trusted: the result depends on the
/// characters of the text alone.
#[verifier::external_body]
fn to_uppercase(text: &str) -> (upper: String)
    ensures
        upper@ == uppercase(text@),
{
    text.to_uppercase()
}

/// The kind of messages that a word names, in upper case: one bit, or
/// none for a word that names no kind.
pub open spec fn kind_bit(name: Seq<char>) -> u32 {
    if name == "PROTO"@ {
        PROTO
    } else if name == "DIAGN"@ {
        DIAGN
    } else if name == "COMPL"@ {
        COMPL
    } else if name == "NOTIF"@ {
        NOTIF
    } else if name == "HOVER"@ {
        HOVER
    } else if name == "BTFRE"@ {
        BTFRE
    } else {
        0
    }
}

/// The kinds of messages that the words name: a word counts trimmed and
/// in any case.
pub open spec fn kinds_mask(words: Seq<Seq<char>>) -> u32
    decreases words.len(),
{
    if words.len() == 0 {
        0
    } else {
        kinds_mask(words.drop_last()) | kind_bit(uppercase(trim(words.last())))
    }
}

/// The mask that a setting asks for, zero where it asks for none: the
/// text is a decimal number, a hexadecimal number behind `0x`, or a list
/// of kinds with commas between them.
pub open spec fn asked_mask(val: Seq<char>) -> u32 {
    if val.len() == 0 {
        0
    } else {
        match parse_decimal(val, u32::MAX as int) {
            Some(n) => n as u32,
            None => if "0x"@.is_prefix_of(val) {
                match parse_hexadecimal(val.skip(2), u32::MAX as int) {
                    Some(n) => n as u32,
                    None => 0,
                }
            } else {
                kinds_mask(split(val, ','))
            },
        }
    }
}

/// The mask of the log for a setting: what the setting asks for, and
/// [`DEFAULT_MASK`] where it asks for nothing.
pub open spec fn mask_of(val: Seq<char>) -> u32 {
    if asked_mask(val) == 0 {
        DEFAULT_MASK
    } else {
        asked_mask(val)
    }
}

/// The kind of messages that a name in capital letters stands for, and
/// zero where it stands for none.
pub fn kind_of_upper(name: &str) -> (bit: u32)
    ensures
        bit == kind_bit(name@),
{
    if same_text(name, "PROTO") {
        PROTO
    } else if same_text(name, "DIAGN") {
        DIAGN
    } else if same_text(name, "COMPL") {
        COMPL
    } else if same_text(name, "NOTIF") {
        NOTIF
    } else if same_text(name, "HOVER") {
        HOVER
    } else if same_text(name, "BTFRE") {
        BTFRE
    } else {
        0
    }
}

/// The kind of messages that a word names: the word counts trimmed and in
/// any case.
pub fn kind_of_name(word: &str) -> (bit: u32)
    ensures
        bit == kind_bit(uppercase(trim(word@))),
{
    let name: String = to_uppercase(trim_text(word));
    kind_of_upper(name.as_str())
}

/// Reads the mask of the log from its setting: a decimal number, a
/// hexadecimal number behind `0x`, or the names of kinds of messages with
/// commas between them, in any case. Names that are no kind count for
/// nothing. Where the setting names no kind at all, the mask is
/// [`DEFAULT_MASK`].
pub fn parse_mask(val: &str) -> (mask: u32)
    ensures
        mask == mask_of(val@),
{
    let mut mask: u32 = 0;
    if val.unicode_len() == 0 {
    } else if let Some(num) = parse_u32(val) {
        mask = num;
    } else if starts_with(val, "0x") {
        proof {
            reveal_strlit("0x");
        }
        let n: usize = val.unicode_len();
        let stripped: &str = val.substring_char(2, n);
        proof {
            assert(stripped@ =~= val@.skip(2));
        }
        if let Some(num) = parse_hex_u32(stripped) {
            mask = num;
        }
    } else {
        let words: Vec<String> = split_text(val, ',');
        let ghost all = strings_view(words@);
        let mut i: usize = 0;
        proof {
            assert(all.take(0) =~= Seq::empty());
        }
        while i < words.len()
            invariant
                i <= words.len(),
                all == strings_view(words@),
                mask == kinds_mask(all.take(i as int)),
            decreases words.len() - i,
        {
            proof {
                let next = all.take(i + 1);
                assert(next.drop_last() =~= all.take(i as int));
                assert(next.last() == words@[i as int]@);
            }
            mask = mask | kind_of_name(words[i].as_str());
            i += 1;
        }
        proof {
            assert(all.take(words.len() as int) =~= all);
        }
    }
    if mask == 0 {
        DEFAULT_MASK
    } else {
        mask
    }
}

/// Reads the level of verbose messages from its setting: a decimal
/// number, and zero for any other text.
pub fn parse_verbose(val: &str) -> (level: u32)
    ensures
        level == match parse_decimal(val@, u32::MAX as int) {
            Some(n) => n as u32,
            None => 0u32,
        },
{
    match parse_u32(val) {
        Some(n) => n,
        None => 0,
    }
}

} // verus!

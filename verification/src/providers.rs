//! The probe providers and their short names.

use crate::text::starts_with;
use crate::text::strings_view;
use crate::text::to_chars;
use crate::text::trim;
use crate::text::trim_text;
use vstd::prelude::*;

verus! {

/// The names of the probe providers, in the order in which a line is
/// tried against them.
pub open spec fn provider_names() -> Seq<Seq<char>> {
    seq![
        "begin"@,
        "end"@,
        "test"@,
        "bench"@,
        "self"@,
        "interval"@,
        "profile"@,
        "iter"@,
        "hardware"@,
        "software"@,
        "rawtracepoint"@,
        "tracepoint"@,
        "kprobe"@,
        "kretprobe"@,
        "kfunc"@,
        "kretfunc"@,
        "fentry"@,
        "fexit"@,
    ]
}

/// The short names of the providers, in the same order; empty for a
/// provider that has none.
pub open spec fn provider_short_names() -> Seq<Seq<char>> {
    seq![
        ""@,
        ""@,
        ""@,
        ""@,
        ""@,
        "i"@,
        "p"@,
        "it"@,
        "h"@,
        "s"@,
        "rt"@,
        "t"@,
        "k"@,
        "kr"@,
        ""@,
        ""@,
        "f"@,
        "fr"@,
    ]
}

/// The names of the probe providers.
pub fn providers() -> (names: Vec<String>)
    ensures
        strings_view(names@) == provider_names(),
{
    let mut names: Vec<String> = Vec::new();
    names.push("begin".to_owned());
    names.push("end".to_owned());
    names.push("test".to_owned());
    names.push("bench".to_owned());
    names.push("self".to_owned());
    names.push("interval".to_owned());
    names.push("profile".to_owned());
    names.push("iter".to_owned());
    names.push("hardware".to_owned());
    names.push("software".to_owned());
    names.push("rawtracepoint".to_owned());
    names.push("tracepoint".to_owned());
    names.push("kprobe".to_owned());
    names.push("kretprobe".to_owned());
    names.push("kfunc".to_owned());
    names.push("kretfunc".to_owned());
    names.push("fentry".to_owned());
    names.push("fexit".to_owned());
    proof {
        assert(strings_view(names@) =~= provider_names());
    }
    names
}

/// The short names of the probe providers.
pub fn short_providers() -> (names: Vec<String>)
    ensures
        strings_view(names@) == provider_short_names(),
{
    let mut names: Vec<String> = Vec::new();
    names.push("".to_owned());
    names.push("".to_owned());
    names.push("".to_owned());
    names.push("".to_owned());
    names.push("".to_owned());
    names.push("i".to_owned());
    names.push("p".to_owned());
    names.push("it".to_owned());
    names.push("h".to_owned());
    names.push("s".to_owned());
    names.push("rt".to_owned());
    names.push("t".to_owned());
    names.push("k".to_owned());
    names.push("kr".to_owned());
    names.push("".to_owned());
    names.push("".to_owned());
    names.push("f".to_owned());
    names.push("fr".to_owned());
    proof {
        assert(strings_view(names@) =~= provider_short_names());
    }
    names
}

/// Whether the line names the provider by its short name: the short name
/// and a colon begin the line.
pub open spec fn short_name_fits(line: Seq<char>, short: Seq<char>) -> bool {
    short.len() > 0 && line.len() > short.len() && line[short.len() as int] == ':'
        && short.is_prefix_of(line)
}

/// The first provider from position `i` on whose name begins the line.
pub open spec fn full_name_from(line: Seq<char>, i: int) -> Option<int>
    decreases provider_names().len() - i,
{
    if i < 0 || i >= provider_names().len() {
        None
    } else if provider_names()[i].is_prefix_of(line) {
        Some(i)
    } else {
        full_name_from(line, i + 1)
    }
}

/// The first provider from position `i` on that the line names by its
/// short name.
pub open spec fn short_name_from(line: Seq<char>, i: int) -> Option<int>
    decreases provider_short_names().len() - i,
{
    if i < 0 || i >= provider_short_names().len() {
        None
    } else if short_name_fits(line, provider_short_names()[i]) {
        Some(i)
    } else {
        short_name_from(line, i + 1)
    }
}

/// The provider that a line names, and how.
pub struct ProviderMatch {
    /// The position of the provider among [`provider_names`].
    pub index: usize,
    /// Whether the line names it by its short name.
    pub short: bool,
}

/// The provider that a line names: the first whose name begins the
/// trimmed line, or else the first whose short name and a colon begin it.
/// `None` for an empty line and for one that names no provider.
pub open spec fn provider_of(line: Seq<char>) -> Option<ProviderMatch> {
    if line.len() == 0 {
        None
    } else {
        match full_name_from(trim(line), 0) {
            Some(i) => Some(ProviderMatch { index: i as usize, short: false }),
            None => match short_name_from(trim(line), 0) {
                Some(i) => Some(ProviderMatch { index: i as usize, short: true }),
                None => None,
            },
        }
    }
}

/// Finds the provider that a line names.
pub fn find_provider(line_str: &str) -> (found: Option<ProviderMatch>)
    ensures
        found == provider_of(line_str@),
        found matches Some(m) ==> m.index < provider_names().len(),
{
    if line_str.unicode_len() == 0 {
        return None;
    }
    let trimmed: &str = trim_text(line_str);
    let names: Vec<String> = providers();
    let mut i: usize = 0;
    while i < names.len()
        invariant
            i <= names.len() == provider_names().len(),
            strings_view(names@) == provider_names(),
            trimmed@ == trim(line_str@),
            line_str@.len() > 0,
            full_name_from(trimmed@, i as int) == full_name_from(trimmed@, 0),
        decreases names.len() - i,
    {
        proof {
            assert(provider_names()[i as int] == names@[i as int]@);
        }
        if starts_with(trimmed, names[i].as_str()) {
            return Some(ProviderMatch { index: i, short: false });
        }
        i += 1;
    }
    let shorts: Vec<String> = short_providers();
    let chars: Vec<char> = to_chars(trimmed);
    let mut j: usize = 0;
    while j < shorts.len()
        invariant
            j <= shorts.len() == provider_short_names().len(),
            provider_short_names().len() == provider_names().len(),
            strings_view(shorts@) == provider_short_names(),
            chars@ == trimmed@,
            trimmed@ == trim(line_str@),
            line_str@.len() > 0,
            full_name_from(trimmed@, 0) is None,
            short_name_from(trimmed@, j as int) == short_name_from(trimmed@, 0),
        decreases shorts.len() - j,
    {
        proof {
            assert(provider_short_names()[j as int] == shorts@[j as int]@);
        }
        let short: &str = shorts[j].as_str();
        let len: usize = short.unicode_len();
        if len > 0 && chars.len() > len && chars[len] == ':' && starts_with(trimmed, short) {
            return Some(ProviderMatch { index: j, short: true });
        }
        j += 1;
    }
    None
}

} // verus!

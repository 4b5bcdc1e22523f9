//! What a hover request points at.

use crate::display::btf_item_to_str;
use crate::display::child_lines;
use crate::display::children_to_vec_str;
use crate::display::func_proto_str;
use crate::display::item_text;
use crate::display::proto_text;
use crate::item::ResolvedBtfItem;
use crate::lines::find_probe_for_action;
use crate::lines::line_at;
use crate::lines::probe_before_action;
use crate::lines::text_get_line;
use crate::probe::fentry_probe;
use crate::probe::fexit_probe;
use crate::probe::is_btf_probe;
use crate::syntax::inside_braces;
use crate::syntax::is_action_block;
use crate::text::join;
use crate::text::join_strings;
use crate::text::same_text;
use crate::text::to_chars;
use crate::text::white_space;
use vstd::prelude::*;

verus! {

/// Whether a character ends a word: white space, or one of `marks`.
pub open spec fn is_delimiter(c: char, marks: Seq<char>) -> bool {
    white_space(c) || marks.contains(c)
}

/// Where the word begins that holds the position before `i`: behind the
/// last delimiter before `i`, or at the start of the line.
pub open spec fn word_start(line: Seq<char>, i: int, marks: Seq<char>) -> int
    decreases i,
{
    if i <= 0 || i > line.len() {
        0
    } else if is_delimiter(line[i - 1], marks) {
        i
    } else {
        word_start(line, i - 1, marks)
    }
}

/// Where the word ends that holds the position before `i`: at the first
/// delimiter from `i` on, or at the end of the line.
pub open spec fn word_end(line: Seq<char>, i: int, marks: Seq<char>) -> int
    decreases line.len() - i,
{
    if i < 0 || i >= line.len() {
        line.len() as int
    } else if is_delimiter(line[i], marks) {
        i
    } else {
        word_end(line, i + 1, marks)
    }
}

/// The word under column `char_nr` of a line, where white space and the
/// characters of `left` end a word on the left, white space and those of
/// `right` on the right. Columns count the characters of the line, from
/// zero, whatever number of bytes each takes. Empty where the column lies
/// behind the line or a left delimiter stands under it.
pub open spec fn word_at(line: Seq<char>, char_nr: int, left: Seq<char>, right: Seq<char>) -> Seq<
    char,
> {
    if 0 <= char_nr < line.len() && !is_delimiter(line[char_nr], left) {
        line.subrange(word_start(line, char_nr, left), word_end(line, char_nr + 1, right))
    } else {
        Seq::empty()
    }
}

/// Whether `c` is among the characters.
pub fn contains_char(marks: &Vec<char>, c: char) -> (found: bool)
    ensures
        found == marks@.contains(c),
{
    let mut i: usize = 0;
    while i < marks.len()
        invariant
            i <= marks.len(),
            forall|k: int| 0 <= k < i ==> marks@[k] != c,
        decreases marks.len() - i,
    {
        if marks[i] == c {
            return true;
        }
        i += 1;
    }
    false
}

/// Whether a character ends a word.
pub fn ends_word(c: char, marks: &Vec<char>) -> (ends: bool)
    ensures
        ends == is_delimiter(c, marks@),
{
    c.is_whitespace() || contains_char(marks, c)
}

/// Finds the word under column `char_nr` of a line. The column is a
/// number of characters: column zero is the first character of the line,
/// and a character of several bytes takes one column. White space ends a
/// word on either side, as do the characters of `left` on the left and
/// those of `right` on the right. Empty where the column lies behind the
/// last character of the line or a left delimiter stands under it.
pub fn find_hover_str(line: &str, char_nr: usize, left: &str, right: &str) -> (found: String)
    ensures
        found@ == word_at(line@, char_nr as int, left@, right@),
{
    let chars: Vec<char> = to_chars(line);
    let lmarks: Vec<char> = to_chars(left);
    let rmarks: Vec<char> = to_chars(right);
    let n: usize = chars.len();
    if char_nr >= n || ends_word(chars[char_nr], &lmarks) {
        return String::new();
    }
    let mut l: usize = char_nr;
    while l > 0 && !ends_word(chars[l - 1], &lmarks)
        invariant
            l <= char_nr < n == chars.len(),
            chars@ == line@,
            lmarks@ == left@,
            word_start(line@, l as int, left@) == word_start(line@, char_nr as int, left@),
        decreases l,
    {
        l = l - 1;
    }
    let mut r: usize = char_nr + 1;
    while r < n && !ends_word(chars[r], &rmarks)
        invariant
            char_nr < r <= n == chars.len(),
            chars@ == line@,
            rmarks@ == right@,
            word_end(line@, r as int, right@) == word_end(line@, char_nr + 1, right@),
        decreases n - r,
    {
        r = r + 1;
    }
    line.substring_char(l, r).to_owned()
}

/// The characters that, beside white space, end an argument expression on
/// the left.
pub open spec fn argument_left() -> Seq<char> {
    "{("@
}

/// The characters that, beside white space, end an argument expression on
/// the right.
pub open spec fn argument_right() -> Seq<char> {
    "}).-"@
}

/// The chain that a hover inside an action block asks about: the
/// expression under the cursor up to the next operator, and `args.` for
/// the keyword `args` alone.
pub open spec fn hover_chain(line: Seq<char>, char_nr: int) -> Seq<char> {
    let word = word_at(line, char_nr, argument_left(), argument_right());
    if word == "args"@ {
        "args."@
    } else {
        word
    }
}

/// Finds the chain that a hover inside an action block asks about. The
/// column counts characters.
pub fn find_hover_chain(line: &str, char_nr: usize) -> (chain: String)
    ensures
        chain@ == hover_chain(line@, char_nr as int),
{
    let mut found: String = find_hover_str(line, char_nr, "{(", "}).-");
    if same_text(found.as_str(), "args") {
        proof {
            reveal_strlit("args");
            reveal_strlit(".");
            reveal_strlit("args.");
            assert("args"@ + "."@ =~= "args."@);
        }
        found.append(".");
    }
    found
}

/// The hover text for a probe on a function: the probe and the prototype
/// of the function in a code block.
pub open spec fn function_hover(probe: Seq<char>, proto: Seq<char>) -> Seq<char> {
    probe + ":\n```c\n"@ + proto + "```"@
}

/// The hover text for a probe on a resolved function.
pub fn function_hover_text(probe: &str, func: &ResolvedBtfItem) -> (hover: String)
    ensures
        hover@ == function_hover(probe@, proto_text(func@)),
{
    let mut hover: String = probe.to_owned();
    hover.append(":\n```c\n");
    hover.append(func_proto_str(func).as_str());
    hover.append("```");
    hover
}

/// The hover text for an argument: its declaration, an empty line, and
/// one line for each of its members.
pub fn argument_hover_text(arg: &ResolvedBtfItem) -> (hover: String)
    ensures
        hover@ == item_text(arg@) + "\n"@ + "\n"@ + join(child_lines(arg@.children), "\n"@),
{
    let mut hover: String = btf_item_to_str(arg);
    let args: Vec<String> = children_to_vec_str(arg);
    hover.append("\n");
    hover.append("\n");
    hover.append(join_strings(&args, "\n").as_str());
    hover
}

/// What a hover request asks about.
pub enum HoverPlan {
    /// The function that the probe under the cursor fires on.
    Function(String),
    /// An argument of a probe: the probe and the chain under the cursor.
    Argument { probe: String, chain: String },
    /// Nothing.
    Nothing,
}

/// Mathematical model of a [`HoverPlan`].
pub enum HoverModel {
    Function(Seq<char>),
    Argument { probe: Seq<char>, chain: Seq<char> },
    Nothing,
}

impl View for HoverPlan {
    type V = HoverModel;

    open spec fn view(&self) -> HoverModel {
        match self {
            HoverPlan::Function(probe) => HoverModel::Function(probe@),
            HoverPlan::Argument { probe, chain } => HoverModel::Argument {
                probe: probe@,
                chain: chain@,
            },
            HoverPlan::Nothing => HoverModel::Nothing,
        }
    }
}

/// What a hover at a position of a script asks about: the function of
/// the probe, where the word under the cursor names a probe that the
/// type graph describes; otherwise, inside an action block, the argument
/// chain under the cursor, for the probe of that block; and nothing
/// elsewhere.
pub open spec fn hover_for(text: Seq<char>, line_nr: int, char_nr: int) -> HoverModel {
    let line = line_at(text, line_nr);
    let word = word_at(line, char_nr, Seq::empty(), Seq::empty());
    if fentry_probe(word) || fexit_probe(word) {
        HoverModel::Function(word)
    } else if inside_braces(text, line_nr, char_nr) {
        HoverModel::Argument {
            probe: probe_before_action(text, line_nr),
            chain: hover_chain(line, char_nr),
        }
    } else {
        HoverModel::Nothing
    }
}

/// Decides what a hover at a position of a script asks about. The
/// position is a line and a column in it, both from zero; the column
/// counts characters.
pub fn hover_plan(text: &str, line_nr: usize, char_nr: usize) -> (plan: HoverPlan)
    ensures
        plan@ == hover_for(text@, line_nr as int, char_nr as int),
{
    let line: String = text_get_line(text, line_nr);
    proof {
        reveal_strlit("");
        assert(""@ =~= Seq::<char>::empty());
    }
    let found: String = find_hover_str(line.as_str(), char_nr, "", "");
    if is_btf_probe(found.as_str()) {
        HoverPlan::Function(found)
    } else if is_action_block(text, line_nr, char_nr) {
        HoverPlan::Argument {
            probe: find_probe_for_action(text, line_nr),
            chain: find_hover_chain(line.as_str(), char_nr),
        }
    } else {
        HoverPlan::Nothing
    }
}

} // verus!

//! Field-access chains: the tokenizer and the walker.
//!
//! A chain such as `args.timer->base->cpu_base.running` names a parameter
//! of a function and, step by step, members of the structs and unions
//! reached from it.

use crate::text::join;
use crate::text::same_text;
use vstd::prelude::*;

verus! {

/// The model of a list of string slices.
pub open spec fn strs_view(strs: Seq<&str>) -> Seq<Seq<char>> {
    Seq::new(strs.len(), |i: int| strs[i]@)
}

/// Whether an operator starts at position `i` of `s`: a dot, or a minus
/// sign with a greater-than sign right behind it.
pub open spec fn operator_at(s: Seq<char>, i: int) -> bool {
    0 <= i < s.len() && (s[i] == '.' || (s[i] == '-' && i + 1 < s.len() && s[i + 1] == '>'))
}

/// The tokens of `s` from position `i` on, where the identifier that is
/// being read began at `start`. An operator ends the identifier, which is
/// emitted even if it is empty, and is emitted itself. The end of `s` emits
/// the identifier unless it is empty.
pub open spec fn tokens_from(s: Seq<char>, start: int, i: int) -> Seq<Seq<char>>
    decreases s.len() - i,
{
    if i >= s.len() {
        if start < s.len() {
            seq![s.subrange(start, s.len() as int)]
        } else {
            Seq::empty()
        }
    } else if s[i] == '.' {
        seq![s.subrange(start, i), "."@] + tokens_from(s, i + 1, i + 1)
    } else if s[i] == '-' && i + 1 < s.len() && s[i + 1] == '>' {
        seq![s.subrange(start, i), "->"@] + tokens_from(s, i + 2, i + 2)
    } else {
        tokens_from(s, start, i + 1)
    }
}

/// The tokens of a chain: names and operators in turn, a name first.
pub open spec fn chain_tokens(s: Seq<char>) -> Seq<Seq<char>> {
    tokens_from(s, 0, 0)
}

/// The tokens without a leading `args` and `.`: the keyword stands for the
/// parameter list, from which every walk starts anyway.
pub open spec fn strip_args(tokens: Seq<Seq<char>>) -> Seq<Seq<char>> {
    if tokens.len() >= 2 && tokens[0] == "args"@ && tokens[1] == "."@ {
        tokens.skip(2)
    } else {
        tokens
    }
}

/// The tokens that the walker replays for a chain.
pub open spec fn chain_names(s: Seq<char>) -> Seq<Seq<char>> {
    strip_args(chain_tokens(s))
}

/// Whether a token is an operator.
pub open spec fn is_operator(token: Seq<char>) -> bool {
    token == "."@ || token == "->"@
}

/// Whether no operator starts anywhere in `name`.
pub open spec fn operator_free(name: Seq<char>) -> bool {
    forall|i: int| 0 <= i < name.len() ==> !operator_at(name, i)
}

/// Written one after the other, the tokens from any point of the scan on
/// give back the rest of the chain.
pub proof fn lemma_tokens_concat(s: Seq<char>, start: int, i: int)
    requires
        0 <= start <= i <= s.len(),
    ensures
        join(tokens_from(s, start, i), Seq::empty()) == s.subrange(start, s.len() as int),
    decreases s.len() - i,
{
    reveal_strlit(".");
    reveal_strlit("->");
    let rest = s.subrange(start, s.len() as int);
    let none = Seq::<char>::empty();
    if i >= s.len() {
        if start < s.len() {
            assert(join(seq![rest], none) == rest);
        } else {
            assert(rest =~= none);
        }
    } else if s[i] == '.' {
        lemma_tokens_concat(s, i + 1, i + 1);
        lemma_join_prepend2(s.subrange(start, i), "."@, tokens_from(s, i + 1, i + 1));
        assert(s.subrange(start, i) + "."@ + s.subrange(i + 1, s.len() as int) =~= rest);
    } else if s[i] == '-' && i + 1 < s.len() && s[i + 1] == '>' {
        lemma_tokens_concat(s, i + 2, i + 2);
        lemma_join_prepend2(s.subrange(start, i), "->"@, tokens_from(s, i + 2, i + 2));
        assert(s.subrange(start, i) + "->"@ + s.subrange(i + 2, s.len() as int) =~= rest);
    } else {
        lemma_tokens_concat(s, start, i + 1);
    }
}

/// Joining with nothing in between: two leading parts come first.
pub proof fn lemma_join_prepend2(a: Seq<char>, b: Seq<char>, rest: Seq<Seq<char>>)
    ensures
        join(seq![a, b] + rest, Seq::empty()) == a + b + join(rest, Seq::empty()),
    decreases rest.len(),
{
    let none = Seq::<char>::empty();
    let all = seq![a, b] + rest;
    if rest.len() == 0 {
        assert(all =~= seq![a, b]);
        assert(all.drop_last() =~= seq![a]);
        assert(join(all.drop_last(), none) == a);
        assert(all.last() == b);
        assert(join(all, none) =~= a + b);
        assert(a + b + join(rest, none) =~= a + b);
    } else {
        lemma_join_prepend2(a, b, rest.drop_last());
        assert(all.drop_last() =~= seq![a, b] + rest.drop_last());
        assert(all.last() == rest.last());
        if rest.len() == 1 {
            assert(join(rest, none) == rest[0]);
            assert(join(rest.drop_last(), none) =~= none);
            assert(join(all, none) =~= a + b + rest[0]);
        } else {
            assert(join(all, none) =~= a + b + join(rest, none));
        }
    }
}

/// The tokens of a chain, written one after the other, are the chain.
pub proof fn lemma_chain_round_trip(s: Seq<char>)
    ensures
        join(chain_tokens(s), Seq::empty()) == s,
{
    lemma_tokens_concat(s, 0, 0);
    assert(s.subrange(0, s.len() as int) =~= s);
}

/// Names and operators alternate in the tokens that a scan emits: every
/// token at an odd position is an operator, every token at an even
/// position holds no operator, and a name that ends them is not empty.
pub proof fn lemma_tokens_alternate(s: Seq<char>, start: int, i: int)
    requires
        0 <= start <= i <= s.len(),
        forall|k: int| start <= k < i ==> !operator_at(s, k),
    ensures
        forall|k: int|
            0 <= k < tokens_from(s, start, i).len() && k % 2 == 1 ==> is_operator(
                #[trigger] tokens_from(s, start, i)[k],
            ),
        forall|k: int|
            0 <= k < tokens_from(s, start, i).len() && k % 2 == 0 ==> operator_free(
                #[trigger] tokens_from(s, start, i)[k],
            ),
        tokens_from(s, start, i).len() % 2 == 1 ==> tokens_from(s, start, i).last().len() > 0,
    decreases s.len() - i,
{
    reveal_strlit(".");
    reveal_strlit("->");
    let toks = tokens_from(s, start, i);
    if i >= s.len() {
        if start < s.len() {
            lemma_name_operator_free(s, start, s.len() as int);
        }
    } else if s[i] == '.' {
        lemma_tokens_alternate(s, i + 1, i + 1);
        lemma_name_operator_free(s, start, i);
        let rest = tokens_from(s, i + 1, i + 1);
        assert forall|k: int| 0 <= k < toks.len() && k % 2 == 1 implies is_operator(
            #[trigger] toks[k],
        ) by {
            if k >= 2 {
                assert(toks[k] == rest[k - 2]);
            }
        }
        assert forall|k: int| 0 <= k < toks.len() && k % 2 == 0 implies operator_free(
            #[trigger] toks[k],
        ) by {
            if k >= 2 {
                assert(toks[k] == rest[k - 2]);
            }
        }
        if toks.len() % 2 == 1 {
            assert(toks.last() == rest.last());
        }
    } else if s[i] == '-' && i + 1 < s.len() && s[i + 1] == '>' {
        lemma_tokens_alternate(s, i + 2, i + 2);
        lemma_name_operator_free(s, start, i);
        let rest = tokens_from(s, i + 2, i + 2);
        assert forall|k: int| 0 <= k < toks.len() && k % 2 == 1 implies is_operator(
            #[trigger] toks[k],
        ) by {
            if k >= 2 {
                assert(toks[k] == rest[k - 2]);
            }
        }
        assert forall|k: int| 0 <= k < toks.len() && k % 2 == 0 implies operator_free(
            #[trigger] toks[k],
        ) by {
            if k >= 2 {
                assert(toks[k] == rest[k - 2]);
            }
        }
        if toks.len() % 2 == 1 {
            assert(toks.last() == rest.last());
        }
    } else {
        assert(!operator_at(s, i));
        lemma_tokens_alternate(s, start, i + 1);
    }
}

/// In the tokens of a chain every token at an odd position is an
/// operator, every token at an even position is a name that holds no
/// operator, and a name that ends the chain is not empty.
pub proof fn lemma_chain_alternates(s: Seq<char>)
    ensures
        forall|k: int|
            0 <= k < chain_tokens(s).len() && k % 2 == 1 ==> is_operator(
                #[trigger] chain_tokens(s)[k],
            ),
        forall|k: int|
            0 <= k < chain_tokens(s).len() && k % 2 == 0 ==> operator_free(
                #[trigger] chain_tokens(s)[k],
            ),
        chain_tokens(s).len() % 2 == 1 ==> chain_tokens(s).last().len() > 0,
{
    lemma_tokens_alternate(s, 0, 0);
}

/// A stretch of the chain in which no operator starts, and which an
/// operator or the end of the chain follows, holds no operator.
pub proof fn lemma_name_operator_free(s: Seq<char>, start: int, end: int)
    requires
        0 <= start <= end <= s.len(),
        forall|k: int| start <= k < end ==> !operator_at(s, k),
        end == s.len() || operator_at(s, end),
    ensures
        operator_free(s.subrange(start, end)),
{
    let name = s.subrange(start, end);
    assert forall|k: int| 0 <= k < name.len() implies !operator_at(name, k) by {
        assert(!operator_at(s, start + k));
        assert(name[k] == s[start + k]);
        if k + 1 < name.len() {
            assert(name[k + 1] == s[start + k + 1]);
        } else if end < s.len() {
            // The stretch ends before an operator, which begins with a dot
            // or a minus sign: no arrow is cut in two at its end.
            assert(s[end] == '.' || s[end] == '-');
        }
    }
}

/// A scan passes over a stretch in which no operator starts without
/// emitting a token.
pub proof fn lemma_scan_name(s: Seq<char>, start: int, i: int, j: int)
    requires
        0 <= start <= i <= j <= s.len(),
        forall|k: int| i <= k < j ==> !operator_at(s, k),
    ensures
        tokens_from(s, start, i) == tokens_from(s, start, j),
    decreases j - i,
{
    if i < j {
        assert(!operator_at(s, i));
        lemma_scan_name(s, start, i + 1, j);
    }
}

/// What follows a chain does not change where operators start in it,
/// unless it is cut behind a minus sign and a greater-than sign follows.
pub proof fn lemma_operator_at_prefix(s: Seq<char>, tail: Seq<char>, k: int)
    requires
        0 <= k < s.len(),
        tail.len() == 0 || tail[0] != '>',
    ensures
        operator_at(s + tail, k) == operator_at(s, k),
{
    let t = s + tail;
    assert(t[k] == s[k]);
    if k + 1 < s.len() {
        assert(t[k + 1] == s[k + 1]);
    } else if tail.len() > 0 {
        assert(t[k + 1] == tail[0]);
    }
}

/// The tokens of a name, an operator and a name written one after the
/// other are these three, where neither name holds an operator and the
/// second is not empty.
pub proof fn lemma_tokens_of_access(name: Seq<char>, op: Seq<char>, field: Seq<char>)
    requires
        operator_free(name),
        operator_free(field),
        field.len() > 0,
        is_operator(op),
    ensures
        chain_tokens(name + op + field) == seq![name, op, field],
{
    reveal_strlit(".");
    reveal_strlit("->");
    let s = name + op + field;
    let n = name.len() as int;
    let m = n + op.len();
    assert(s =~= name + (op + field));
    assert forall|k: int| 0 <= k < n implies !operator_at(s, k) by {
        lemma_operator_at_prefix(name, op + field, k);
    }
    lemma_scan_name(s, 0, 0, n);
    assert(s[n] == op[0]);
    if op == "->"@ {
        assert(s[n + 1] == op[1]);
    }
    assert(s.subrange(0, n) =~= name);
    assert forall|k: int| m <= k < s.len() implies !operator_at(s, k) by {
        assert(!operator_at(field, k - m));
        assert(s[k] == field[k - m]);
        if k + 1 < s.len() {
            assert(s[k + 1] == field[k - m + 1]);
        }
    }
    lemma_scan_name(s, m, m, s.len() as int);
    assert(s.subrange(m, s.len() as int) =~= field);
    assert(tokens_from(s, m, s.len() as int) == seq![field]);
    assert(seq![name, op] + seq![field] =~= seq![name, op, field]);
}

/// An operator written behind a chain adds itself to the tokens: behind
/// the name that ended them, or behind an empty name where an operator
/// ended them.
pub proof fn lemma_scan_trailing_operator(s: Seq<char>, op: Seq<char>, start: int, i: int)
    requires
        0 <= start <= i <= s.len(),
        is_operator(op),
    ensures
        tokens_from(s + op, start, i) == if tokens_from(s, start, i).len() % 2 == 1 {
            tokens_from(s, start, i).push(op)
        } else {
            tokens_from(s, start, i) + seq![Seq::<char>::empty(), op]
        },
    decreases s.len() - i,
{
    reveal_strlit(".");
    reveal_strlit("->");
    let t = s + op;
    let n = s.len() as int;
    let here = tokens_from(s, start, i);
    if i >= n {
        assert(t[n] == op[0]);
        if op == "->"@ {
            assert(t[n + 1] == op[1]);
        }
        let m = n + op.len();
        assert(tokens_from(t, m, m) =~= Seq::empty());
        assert(t.subrange(start, n) =~= s.subrange(start, n));
        if start < n {
            assert(tokens_from(t, start, i) =~= here.push(op));
        } else {
            assert(t.subrange(start, n) =~= Seq::<char>::empty());
            assert(tokens_from(t, start, i) =~= here + seq![Seq::<char>::empty(), op]);
        }
    } else {
        assert(t[i] == s[i]);
        if i + 1 < n {
            assert(t[i + 1] == s[i + 1]);
        } else {
            assert(t[i + 1] == op[0]);
        }
        assert(t.subrange(start, i) =~= s.subrange(start, i));
        if s[i] == '.' {
            lemma_scan_trailing_operator(s, op, i + 1, i + 1);
            let rest = tokens_from(s, i + 1, i + 1);
            let head = seq![s.subrange(start, i), "."@];
            if rest.len() % 2 == 1 {
                assert(head + rest.push(op) =~= (head + rest).push(op));
            } else {
                assert(head + (rest + seq![Seq::<char>::empty(), op]) =~= (head + rest) + seq![
                    Seq::<char>::empty(),
                    op,
                ]);
            }
        } else if s[i] == '-' && i + 1 < n && s[i + 1] == '>' {
            lemma_scan_trailing_operator(s, op, i + 2, i + 2);
            let rest = tokens_from(s, i + 2, i + 2);
            let head = seq![s.subrange(start, i), "->"@];
            if rest.len() % 2 == 1 {
                assert(head + rest.push(op) =~= (head + rest).push(op));
            } else {
                assert(head + (rest + seq![Seq::<char>::empty(), op]) =~= (head + rest) + seq![
                    Seq::<char>::empty(),
                    op,
                ]);
            }
        } else {
            lemma_scan_trailing_operator(s, op, start, i + 1);
        }
    }
}

/// An operator written behind a chain that ends in a name adds one token,
/// the operator.
pub proof fn lemma_tokens_trailing_operator(s: Seq<char>, op: Seq<char>)
    requires
        is_operator(op),
        chain_tokens(s).len() % 2 == 1,
    ensures
        chain_tokens(s + op) == chain_tokens(s).push(op),
{
    lemma_scan_trailing_operator(s, op, 0, 0);
}

/// Splits a chain into names and operators. A dot and an arrow are
/// operators; every other character belongs to a name. Names and operators
/// alternate and a name comes first, so a name may be empty; a name at the
/// end of the chain is left out if it is empty.
pub fn chain_str_to_tokens<'a>(names_chain: &'a str) -> (res: Vec<&'a str>)
    ensures
        strs_view(res@) == chain_tokens(names_chain@),
{
    let n: usize = names_chain.unicode_len();
    let mut res: Vec<&'a str> = Vec::new();
    let mut start: usize = 0;
    let mut i: usize = 0;
    proof {
        assert(strs_view(res@) + chain_tokens(names_chain@) =~= chain_tokens(names_chain@));
    }
    while i < n
        invariant
            start <= i <= n,
            n == names_chain@.len(),
            strs_view(res@) + tokens_from(names_chain@, start as int, i as int) == chain_tokens(
                names_chain@,
            ),
        decreases n - i,
    {
        let ghost done = strs_view(res@);
        let ghost s = names_chain@;
        let c: char = names_chain.get_char(i);
        if c == '.' {
            let name: &'a str = names_chain.substring_char(start, i);
            res.push(name);
            res.push(".");
            proof {
                assert(strs_view(res@) =~= done + seq![s.subrange(start as int, i as int), "."@]);
                assert(strs_view(res@) + tokens_from(s, i + 1, i + 1) =~= done + tokens_from(
                    s,
                    start as int,
                    i as int,
                ));
            }
            i = i + 1;
            start = i;
        } else if c == '-' && i + 1 < n && names_chain.get_char(i + 1) == '>' {
            let name: &'a str = names_chain.substring_char(start, i);
            res.push(name);
            res.push("->");
            proof {
                assert(strs_view(res@) =~= done + seq![s.subrange(start as int, i as int), "->"@]);
                assert(strs_view(res@) + tokens_from(s, i + 2, i + 2) =~= done + tokens_from(
                    s,
                    start as int,
                    i as int,
                ));
            }
            i = i + 2;
            start = i;
        } else {
            i = i + 1;
        }
    }
    if start < n {
        let ghost done = strs_view(res@);
        let name: &'a str = names_chain.substring_char(start, n);
        res.push(name);
        proof {
            assert(strs_view(res@) =~= done + seq![names_chain@.subrange(start as int, n as int)]);
        }
    } else {
        proof {
            assert(strs_view(res@) + Seq::<Seq<char>>::empty() =~= strs_view(res@));
        }
    }
    res
}

/// Drops a leading `args` and `.` from the tokens of a chain.
pub fn strip_args_prefix<'a>(tokens: Vec<&'a str>) -> (res: Vec<&'a str>)
    ensures
        strs_view(res@) == strip_args(strs_view(tokens@)),
{
    let mut tokens = tokens;
    if tokens.len() >= 2 && same_text(tokens[0], "args") && same_text(tokens[1], ".") {
        let ghost all = strs_view(tokens@);
        tokens.remove(0);
        tokens.remove(0);
        proof {
            assert(strs_view(tokens@) =~= all.skip(2));
        }
    }
    tokens
}

} // verus!

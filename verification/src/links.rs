//! Chains of links between the types of a graph.
//!
//! A resolution follows links from type to type: from a qualifier to the
//! type under it, from a pointer to its pointee. A type id is a number of
//! 32 bits, so a chain of more links than there are such numbers comes by
//! one type twice, and runs in a circle.

use crate::graph::Graph;
use crate::graph::record_at;
use crate::graph::TypeKind;
use vstd::prelude::*;

verus! {

/// The number of type ids that are not zero, and one more.
pub open spec fn id_space() -> nat {
    0x1_0000_0000
}

/// The id reached from `id` over `k` links, each from a type of a category
/// that `through` admits to the type it refers to. `None` where the chain
/// ends before: at id zero, or at a type of another category.
pub open spec fn follow(g: Graph, through: spec_fn(TypeKind) -> bool, id: u32, k: nat) -> Option<
    u32,
>
    decreases k,
{
    if k == 0 {
        Some(id)
    } else if id != 0 && through(record_at(g, id).kind) {
        follow(g, through, record_at(g, id).target, (k - 1) as nat)
    } else {
        None
    }
}

/// Whether the chain from `id` comes by one type twice.
pub open spec fn runs_in_circle(g: Graph, through: spec_fn(TypeKind) -> bool, id: u32) -> bool {
    exists|a: nat, b: nat|
        a < b && follow(g, through, id, a) is Some && #[trigger] follow(g, through, id, a)
            == #[trigger] follow(g, through, id, b)
}

/// A chain of `k` links has a type at every position up to `k`; those
/// before the last are links themselves; and the rest of the chain leads
/// from each to where the whole chain leads.
pub proof fn lemma_follow_earlier(
    g: Graph,
    through: spec_fn(TypeKind) -> bool,
    id: u32,
    k: nat,
    j: nat,
)
    requires
        j <= k,
        follow(g, through, id, k) is Some,
    ensures
        follow(g, through, id, j) is Some,
        j < k ==> follow(g, through, id, j).unwrap() != 0 && through(
            record_at(g, follow(g, through, id, j).unwrap()).kind,
        ),
        follow(g, through, follow(g, through, id, j).unwrap(), (k - j) as nat) == follow(
            g,
            through,
            id,
            k,
        ),
    decreases j,
{
    if j > 0 {
        lemma_follow_earlier(g, through, record_at(g, id).target, (k - 1) as nat, (j - 1) as nat);
    }
}

/// One more link at the end of a chain leads to what its last type refers
/// to.
pub proof fn lemma_follow_one_more(g: Graph, through: spec_fn(TypeKind) -> bool, id: u32, k: nat)
    requires
        follow(g, through, id, k) matches Some(last) && last != 0 && through(
            record_at(g, last).kind,
        ),
    ensures
        follow(g, through, id, k + 1) == Some(
            record_at(g, follow(g, through, id, k).unwrap()).target,
        ),
    decreases k,
{
    if k > 0 {
        lemma_follow_one_more(g, through, record_at(g, id).target, (k - 1) as nat);
    } else {
        assert(follow(g, through, record_at(g, id).target, 0) == Some(record_at(g, id).target));
    }
}

/// Among as many type ids as there are numbers of 32 bits, none of them
/// zero, one occurs twice.
pub proof fn lemma_ids_repeat(ids: Seq<u32>)
    requires
        ids.len() >= id_space(),
        forall|i: int| 0 <= i < ids.len() ==> #[trigger] ids[i] != 0,
    ensures
        exists|a: int, b: int| 0 <= a < b < ids.len() && #[trigger] ids[a] == #[trigger] ids[b],
{
    let numbers = Seq::new(ids.len(), |i: int| ids[i] as int);
    if numbers.no_duplicates() {
        numbers.unique_seq_to_set();
        vstd::set_lib::lemma_int_range(1, id_space() as int);
        let all = vstd::set_lib::set_int_range(1, id_space() as int);
        assert(numbers.to_set().subset_of(all)) by {
            assert forall|x: int| numbers.to_set().contains(x) implies all.contains(x) by {
                let i = choose|i: int| 0 <= i < numbers.len() && numbers[i] == x;
                assert(ids[i] != 0);
            }
        }
        vstd::set_lib::lemma_len_subset(numbers.to_set(), all);
        assert(false);
    }
    let (i, j) = choose|i: int, j: int|
        0 <= i < numbers.len() && 0 <= j < numbers.len() && i != j && numbers[i] == numbers[j];
    if i < j {
        assert(ids[i] == ids[j]);
    } else {
        assert(ids[j] == ids[i]);
    }
}

/// A chain of as many links as there are type ids comes by one type
/// twice.
pub proof fn lemma_long_chain_runs_in_circle(
    g: Graph,
    through: spec_fn(TypeKind) -> bool,
    id: u32,
    n: nat,
)
    requires
        n >= id_space(),
        follow(g, through, id, n) is Some,
    ensures
        exists|a: nat, b: nat|
            a < b < n && follow(g, through, id, a) is Some && #[trigger] follow(
                g,
                through,
                id,
                a,
            ) == #[trigger] follow(g, through, id, b),
        runs_in_circle(g, through, id),
{
    let ids = Seq::new(n, |i: int| follow(g, through, id, i as nat).unwrap());
    assert forall|i: int| 0 <= i < ids.len() implies #[trigger] ids[i] != 0 by {
        lemma_follow_earlier(g, through, id, n, i as nat);
    }
    lemma_ids_repeat(ids);
    let (i, j) = choose|i: int, j: int|
        0 <= i < j < ids.len() && #[trigger] ids[i] == #[trigger] ids[j];
    let a = i as nat;
    let b = j as nat;
    lemma_follow_earlier(g, through, id, n, a);
    lemma_follow_earlier(g, through, id, n, b);
    assert(ids[a as int] == ids[b as int]);
    assert(follow(g, through, id, a) == follow(g, through, id, b));
}

/// Whether the types in `seen` are those that a chain of links came by,
/// in order, before it came to `cur`.
pub open spec fn on_trail(
    g: Graph,
    through: spec_fn(TypeKind) -> bool,
    seen: Seq<u32>,
    cur: u32,
) -> bool {
    forall|j: int|
        0 <= j < seen.len() ==> follow(g, through, #[trigger] seen[j], (seen.len() - j) as nat)
            == Some(cur)
}

/// A chain that follows one more link has come by the type it followed
/// the link from.
pub proof fn lemma_trail_step(
    g: Graph,
    through: spec_fn(TypeKind) -> bool,
    seen: Seq<u32>,
    cur: u32,
)
    requires
        on_trail(g, through, seen, cur),
        cur != 0,
        through(record_at(g, cur).kind),
    ensures
        on_trail(g, through, seen.push(cur), record_at(g, cur).target),
{
    let longer = seen.push(cur);
    let next = record_at(g, cur).target;
    assert forall|j: int| 0 <= j < longer.len() implies follow(
        g,
        through,
        #[trigger] longer[j],
        (longer.len() - j) as nat,
    ) == Some(next) by {
        if j < seen.len() {
            assert(longer[j] == seen[j]);
            lemma_follow_one_more(g, through, seen[j], (seen.len() - j) as nat);
        } else {
            assert(follow(g, through, next, 0) == Some(next));
        }
    }
}

/// A chain that comes to a type it came by before runs in a circle. Gives
/// the number of links that lead from the type back to it.
pub proof fn lemma_trail_circle(
    g: Graph,
    through: spec_fn(TypeKind) -> bool,
    seen: Seq<u32>,
    cur: u32,
) -> (k: nat)
    requires
        on_trail(g, through, seen, cur),
        seen.contains(cur),
    ensures
        k >= 1,
        follow(g, through, cur, k) == Some(cur),
{
    let j = choose|j: int| 0 <= j < seen.len() && seen[j] == cur;
    assert(follow(g, through, seen[j], (seen.len() - j) as nat) == Some(cur));
    (seen.len() - j) as nat
}

/// Whether the id is among those that were seen.
pub fn seen_before(seen: &Vec<u32>, id: u32) -> (found: bool)
    ensures
        found == seen@.contains(id),
{
    let mut i: usize = 0;
    while i < seen.len()
        invariant
            i <= seen.len(),
            forall|j: int| 0 <= j < i ==> seen@[j] != id,
        decreases seen.len() - i,
    {
        if seen[i] == id {
            return true;
        }
        i += 1;
    }
    false
}

} // verus!

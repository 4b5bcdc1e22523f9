//! How deep the rendering of a type descends.
//!
//! An array is rendered with its element type, a prototype with its
//! return and parameter types. Rendering keeps a trail of the arrays and
//! prototypes it has descended into and descends into none of them twice,
//! so it never goes deeper than there are type ids. The depth that it is
//! given is larger than that, and never cuts a rendering short.

use crate::graph::Graph;
use crate::graph::MemberRecord;
use crate::graph::record_at;
use crate::links::id_space;
use crate::links::lemma_ids_repeat;
use crate::render::param_strings;
use crate::render::proto_token;
use crate::render::return_string;
use crate::render::terminal_tokens;
use crate::render::terminal_tokens_in;
use crate::render::type_string;
use crate::render::type_tokens;
use crate::render::type_tokens_in;
use crate::unwind::kind_of;
use crate::unwind::MAX_DEPTH;
use crate::unwind::unwind_spec;
use vstd::prelude::*;

verus! {

/// Whether `path` can be the trail of a rendering: it holds no id twice,
/// and not id zero.
pub open spec fn is_trail(path: Seq<u32>) -> bool {
    path.no_duplicates() && forall|i: int| 0 <= i < path.len() ==> #[trigger] path[i] != 0
}

/// Whether the depth is enough for every rendering that goes on from the
/// trail: with the length of the trail it makes up the largest depth.
pub open spec fn depth_suffices(depth: nat, path: Seq<u32>) -> bool {
    depth + path.len() >= MAX_DEPTH
}

/// A trail is shorter than there are type ids.
pub proof fn lemma_trail_is_short(path: Seq<u32>)
    requires
        is_trail(path),
    ensures
        path.len() < id_space(),
{
    if path.len() >= id_space() {
        lemma_ids_repeat(path);
    }
}

/// A trail goes on with an id that is not zero and not yet on it, and
/// some depth is then left for it.
pub proof fn lemma_trail_grows(path: Seq<u32>, id: u32, depth: nat)
    requires
        is_trail(path),
        depth_suffices(depth, path),
        id != 0,
        !path.contains(id),
    ensures
        is_trail(path.push(id)),
        depth > 0,
        depth_suffices((depth - 1) as nat, path.push(id)),
{
    let longer = path.push(id);
    assert forall|i: int, j: int|
        0 <= i < longer.len() && 0 <= j < longer.len() && i != j implies longer[i]
        != longer[j] by {
        if i < path.len() && j < path.len() {
            assert(path[i] != path[j]);
        } else if i < path.len() {
            assert(path.contains(path[i]));
        } else {
            assert(path.contains(path[j]));
        }
    }
    assert forall|i: int| 0 <= i < longer.len() implies #[trigger] longer[i] != 0 by {
        if i < path.len() {
            assert(longer[i] == path[i]);
        }
    }
    lemma_trail_is_short(longer);
}

/// Two depths that suffice give the same words for a terminal type.
pub proof fn lemma_terminal_depth(g: Graph, id: u32, one: nat, other: nat, path: Seq<u32>)
    requires
        is_trail(path),
        depth_suffices(one, path),
        depth_suffices(other, path),
    ensures
        terminal_tokens_in(g, id, one, path) == terminal_tokens_in(g, id, other, path),
    decreases one, 0nat,
{
    let rec = record_at(g, id);
    if (kind_of(g, id) is Array || kind_of(g, id) is FuncProto) && !path.contains(id) {
        lemma_trail_grows(path, id, one);
        lemma_trail_grows(path, id, other);
        let longer = path.push(id);
        let below = (one - 1) as nat;
        let beside = (other - 1) as nat;
        if kind_of(g, id) is Array {
            lemma_type_depth(g, rec.target, below, beside, longer);
        } else {
            if rec.target != 0 {
                lemma_type_depth(g, rec.target, below, beside, longer);
            }
            lemma_params_depth(g, rec.members, below, beside, longer);
            assert(return_string(g, rec, below, longer) == return_string(g, rec, beside, longer));
            assert(proto_token(g, rec, below, longer) == proto_token(g, rec, beside, longer));
        }
    }
}

/// Two depths that suffice give the same words for a type.
pub proof fn lemma_type_depth(g: Graph, id: u32, one: nat, other: nat, path: Seq<u32>)
    requires
        is_trail(path),
        depth_suffices(one, path),
        depth_suffices(other, path),
    ensures
        type_tokens_in(g, id, one, path) == type_tokens_in(g, id, other, path),
        type_string(g, id, one, path) == type_string(g, id, other, path),
    decreases one, 1nat,
{
    match unwind_spec(g, id, MAX_DEPTH as nat) {
        Some(u) => {
            lemma_terminal_depth(g, u.terminal, one, other, path);
        },
        None => {},
    }
}

/// Two depths that suffice give the same strings for a list of
/// parameters.
pub proof fn lemma_params_depth(
    g: Graph,
    params: Seq<MemberRecord>,
    one: nat,
    other: nat,
    path: Seq<u32>,
)
    requires
        is_trail(path),
        depth_suffices(one, path),
        depth_suffices(other, path),
    ensures
        param_strings(g, params, one, path) == param_strings(g, params, other, path),
    decreases one, 2nat, params.len(),
{
    if params.len() > 0 {
        lemma_params_depth(g, params.drop_last(), one, other, path);
        lemma_type_depth(g, params.last().type_id, one, other, path);
    }
}

/// The depth to which types are rendered never cuts a rendering short: a
/// larger one gives the same words. Rendering ends for another reason
/// only, at an array or a prototype that is nested in itself.
pub proof fn lemma_depth_budget(g: Graph, id: u32, depth: nat)
    requires
        depth >= MAX_DEPTH,
    ensures
        type_tokens(g, id, depth) == type_tokens(g, id, MAX_DEPTH as nat),
        terminal_tokens(g, id, depth) == terminal_tokens(g, id, MAX_DEPTH as nat),
{
    let path = Seq::<u32>::empty();
    lemma_type_depth(g, id, depth, MAX_DEPTH as nat, path);
    lemma_terminal_depth(g, id, depth, MAX_DEPTH as nat, path);
}

/// An array or a prototype that is rendered inside of itself adds no
/// words there.
pub proof fn lemma_nested_in_itself(g: Graph, id: u32, depth: nat, path: Seq<u32>)
    requires
        kind_of(g, id) is Array || kind_of(g, id) is FuncProto,
        path.contains(id),
    ensures
        terminal_tokens_in(g, id, depth, path).len() == 0,
{
}

} // verus!

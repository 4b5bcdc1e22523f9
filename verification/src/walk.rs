//! The chain walker: replays the tokens of a field-access chain against
//! the type graph.

use btf_rs::Btf;
use crate::chain::chain_names;
use crate::chain::chain_str_to_tokens;
use crate::chain::chain_tokens;
use crate::chain::is_operator;
use crate::chain::lemma_chain_round_trip;
use crate::chain::lemma_tokens_of_access;
use crate::chain::lemma_tokens_trailing_operator;
use crate::chain::operator_free;
use crate::chain::strip_args;
use crate::chain::strip_args_prefix;
use crate::chain::strs_view;
use crate::graph::btf_types;
use crate::graph::fetch;
use crate::graph::Graph;
use crate::graph::Member;
use crate::graph::MemberRecord;
use crate::graph::members_view;
use crate::graph::record_at;
use crate::graph::TypeInfo;
use crate::graph::TypeKind;
use crate::item::ItemView;
use crate::item::lemma_view_children;
use crate::item::ResolvedBtfItem;
use crate::links::follow;
use crate::links::id_space;
use crate::links::lemma_follow_earlier;
use crate::links::lemma_long_chain_runs_in_circle;
use crate::links::lemma_trail_circle;
use crate::links::lemma_trail_step;
use crate::links::on_trail;
use crate::links::runs_in_circle;
use crate::links::seen_before;
use crate::resolve::end_node;
use crate::resolve::opt_view;
use crate::resolve::resolve_end;
use crate::text::join;
use crate::text::same_text;
use crate::unwind::kind_of;
use crate::unwind::MAX_DEPTH;
use vstd::prelude::*;

verus! {

/// Whether the type under `id` is a pointer once `const` and typedef layers
/// are stripped off it. The pointer itself is not stripped.
pub open spec fn is_pointer(g: Graph, id: u32, fuel: nat) -> bool
    decreases fuel,
{
    let kind = kind_of(g, id);
    if kind is Ptr {
        true
    } else if (kind is Const || kind is Typedef) && fuel > 0 {
        is_pointer(g, record_at(g, id).target, (fuel - 1) as nat)
    } else {
        false
    }
}

/// The id of the struct or union that the type under `id` is once `const`
/// and pointer layers are stripped off it. A typedef is not looked through.
pub open spec fn find_body(g: Graph, id: u32, fuel: nat) -> Option<u32>
    decreases fuel,
{
    let kind = kind_of(g, id);
    if kind is Struct || kind is Union {
        Some(id)
    } else if (kind is Const || kind is Ptr) && fuel > 0 {
        find_body(g, record_at(g, id).target, (fuel - 1) as nat)
    } else {
        None
    }
}

/// The position of the first member from position `i` on that has the
/// given name.
pub open spec fn member_from(members: Seq<MemberRecord>, name: Seq<char>, i: int) -> Option<int>
    decreases members.len() - i,
{
    if i >= members.len() {
        None
    } else if members[i].name == name {
        Some(i)
    } else {
        member_from(members, name, i + 1)
    }
}

/// The type id of the first member with the given name.
pub open spec fn member_type(members: Seq<MemberRecord>, name: Seq<char>) -> Option<u32> {
    match member_from(members, name, 0) {
        Some(k) => Some(members[k].type_id),
        None => None,
    }
}

/// Whether the operator agrees with the type under `id`: an arrow asks for
/// a pointer, a dot for anything else.
pub open spec fn operator_fits(g: Graph, id: u32, op: Seq<char>, fuel: nat) -> bool {
    (op == "->"@ && is_pointer(g, id, fuel)) || (op == "."@ && !is_pointer(g, id, fuel))
}

/// One step of a walk: from the type under `cur` through the operator to
/// the member called `name`. Gives the type id of the member. `None` where
/// the operator does not fit, no struct or union is found, or it has no
/// such member.
pub open spec fn step(g: Graph, cur: u32, op: Seq<char>, name: Seq<char>, fuel: nat) -> Option<
    u32,
> {
    if operator_fits(g, cur, op, fuel) {
        match find_body(g, cur, fuel) {
            Some(body) => member_type(record_at(g, body).members, name),
            None => None,
        }
    } else {
        None
    }
}

/// The walk from the type under `cur` through the tokens from position `i`
/// on, which are operators and names in turn. Gives the type id that the
/// walk ends at and the last name it matched. An operator without a name
/// behind it ends the walk where it stands.
pub open spec fn walk_from(
    g: Graph,
    cur: u32,
    last: Seq<char>,
    tokens: Seq<Seq<char>>,
    i: int,
    fuel: nat,
) -> Option<(u32, Seq<char>)>
    decreases tokens.len() - i,
{
    if i + 1 >= tokens.len() {
        Some((cur, last))
    } else {
        match step(g, cur, tokens[i], tokens[i + 1], fuel) {
            Some(next) => walk_from(g, next, tokens[i + 1], tokens, i + 2, fuel),
            None => None,
        }
    }
}

/// The node that a chain of tokens names under the root node of a
/// function. No tokens name the root itself. Otherwise the first token
/// names a parameter of the prototype under the root's type id, the rest
/// walks from the parameter's type, and the type that the walk ends at is
/// rendered in full under the last name matched. A walk that ends at a
/// type which does not unwind gives the bare name: type id zero is a
/// place to stop, and fails a walk only where a member is looked for
/// behind it.
pub open spec fn walk_chain(g: Graph, root: ItemView, tokens: Seq<Seq<char>>, fuel: nat) -> Option<
    ItemView,
> {
    if tokens.len() == 0 {
        Some(root)
    } else if !(kind_of(g, root.type_id) is FuncProto) {
        None
    } else {
        match member_type(record_at(g, root.type_id).members, tokens[0]) {
            Some(first) => match walk_from(g, first, tokens[0], tokens, 1, fuel) {
                Some((id, name)) => Some(end_node(g, name, id, fuel)),
                None => None,
            },
            None => None,
        }
    }
}

/// Where the type is a pointer, a step through an arrow goes on to the
/// struct or union behind it and a step through a dot fails; where it is
/// not, a dot goes on and an arrow fails.
pub proof fn lemma_operator_agreement(g: Graph, cur: u32, name: Seq<char>, fuel: nat)
    ensures
        is_pointer(g, cur, fuel) ==> step(g, cur, "."@, name, fuel) is None,
        !is_pointer(g, cur, fuel) ==> step(g, cur, "->"@, name, fuel) is None,
        find_body(g, cur, fuel) matches Some(body) ==> (is_pointer(g, cur, fuel) ==> step(
            g,
            cur,
            "->"@,
            name,
            fuel,
        ) == member_type(record_at(g, body).members, name)),
        find_body(g, cur, fuel) matches Some(body) ==> (!is_pointer(g, cur, fuel) ==> step(
            g,
            cur,
            "."@,
            name,
            fuel,
        ) == member_type(record_at(g, body).members, name)),
{
    reveal_strlit(".");
    reveal_strlit("->");
    assert("."@ != "->"@) by {
        assert("."@.len() != "->"@.len());
    }
}

/// An operator at the end of the tokens changes nothing: the walk stops at
/// the type it has reached.
pub proof fn lemma_trailing_operator(
    g: Graph,
    cur: u32,
    last: Seq<char>,
    tokens: Seq<Seq<char>>,
    op: Seq<char>,
    i: int,
    fuel: nat,
)
    requires
        0 <= i <= tokens.len(),
        (tokens.len() - i) % 2 == 0,
    ensures
        walk_from(g, cur, last, tokens.push(op), i, fuel) == walk_from(
            g,
            cur,
            last,
            tokens,
            i,
            fuel,
        ),
    decreases tokens.len() - i,
{
    let longer = tokens.push(op);
    if i + 1 < tokens.len() {
        assert(longer[i] == tokens[i]);
        assert(longer[i + 1] == tokens[i + 1]);
        match step(g, cur, tokens[i], tokens[i + 1], fuel) {
            Some(next) => {
                lemma_trailing_operator(g, next, tokens[i + 1], tokens, op, i + 2, fuel);
            },
            None => {},
        }
    }
}

/// A chain that ends in an operator names the same node as the chain
/// without it.
pub proof fn lemma_partial_chain(
    g: Graph,
    root: ItemView,
    tokens: Seq<Seq<char>>,
    op: Seq<char>,
    fuel: nat,
)
    requires
        tokens.len() % 2 == 1,
    ensures
        walk_chain(g, root, tokens.push(op), fuel) == walk_chain(g, root, tokens, fuel),
{
    let longer = tokens.push(op);
    assert(longer[0] == tokens[0]);
    match member_type(record_at(g, root.type_id).members, tokens[0]) {
        Some(first) => {
            lemma_trailing_operator(g, first, tokens[0], tokens, op, 1, fuel);
        },
        None => {},
    }
}

/// A chain that ends in an operator names the same node as the chain
/// without it. The one chain left out is `args.`, which names the root
/// node, while `args` alone names a parameter called `args`.
pub proof fn lemma_partial_chain_query(
    g: Graph,
    root: ItemView,
    chain: Seq<char>,
    op: Seq<char>,
    fuel: nat,
)
    requires
        is_operator(op),
        chain_tokens(chain).len() % 2 == 1,
        !(chain == "args"@ && op == "."@),
    ensures
        walk_chain(g, root, chain_names(chain + op), fuel) == walk_chain(
            g,
            root,
            chain_names(chain),
            fuel,
        ),
{
    let tokens = chain_tokens(chain);
    lemma_tokens_trailing_operator(chain, op);
    let longer = tokens.push(op);
    assert(longer[0] == tokens[0]);
    if tokens.len() == 1 {
        if tokens[0] == "args"@ && op == "."@ {
            lemma_chain_round_trip(chain);
            assert(tokens =~= seq![tokens[0]]);
            assert(join(tokens, Seq::empty()) == tokens[0]);
        }
        assert(longer[1] == op);
        assert(strip_args(longer) == longer);
        lemma_partial_chain(g, root, tokens, op, fuel);
    } else {
        assert(longer[1] == tokens[1]);
        if tokens[0] == "args"@ && tokens[1] == "."@ {
            assert(longer.skip(2) =~= tokens.skip(2).push(op));
            lemma_partial_chain(g, root, tokens.skip(2), op, fuel);
        } else {
            lemma_partial_chain(g, root, tokens, op, fuel);
        }
    }
}

/// Whether the chain `name`, an operator, `field` can be walked but for
/// the operator: `name` is a parameter of the prototype under the root's
/// type id, a struct or union stands behind the parameter's type, it has a
/// member `field`.
pub open spec fn field_in_reach(
    g: Graph,
    root: ItemView,
    name: Seq<char>,
    field: Seq<char>,
    fuel: nat,
) -> bool {
    &&& kind_of(g, root.type_id) is FuncProto
    &&& member_type(record_at(g, root.type_id).members, name) matches Some(param)
    &&& find_body(g, param, fuel) matches Some(body)
    &&& member_type(record_at(g, body).members, field) is Some
}

/// The type of the parameter that a chain starts from.
pub open spec fn param_type(g: Graph, root: ItemView, name: Seq<char>) -> u32 {
    member_type(record_at(g, root.type_id).members, name).unwrap()
}

/// For a parameter that is a pointer to a struct or union, the chain
/// `name->field` is walked and `name.field` is not; for one that is the
/// struct or union itself, `name.field` is walked and `name->field` is
/// not.
pub proof fn lemma_chain_walk_agreement(
    g: Graph,
    root: ItemView,
    name: Seq<char>,
    field: Seq<char>,
    fuel: nat,
)
    requires
        operator_free(name),
        operator_free(field),
        field.len() > 0,
        name != "args"@,
        field_in_reach(g, root, name, field, fuel),
    ensures
        is_pointer(g, param_type(g, root, name), fuel) ==> walk_chain(
            g,
            root,
            chain_names(name + "->"@ + field),
            fuel,
        ) is Some && walk_chain(g, root, chain_names(name + "."@ + field), fuel) is None,
        !is_pointer(g, param_type(g, root, name), fuel) ==> walk_chain(
            g,
            root,
            chain_names(name + "."@ + field),
            fuel,
        ) is Some && walk_chain(g, root, chain_names(name + "->"@ + field), fuel) is None,
{
    let param = param_type(g, root, name);
    lemma_tokens_of_access(name, "->"@, field);
    lemma_tokens_of_access(name, "."@, field);
    lemma_operator_agreement(g, param, field, fuel);
    let arrow = seq![name, "->"@, field];
    let dot = seq![name, "."@, field];
    assert(strip_args(arrow) == arrow);
    assert(strip_args(dot) == dot);
    let body = find_body(g, param, fuel).unwrap();
    let member = member_type(record_at(g, body).members, field).unwrap();
    assert(walk_from(g, member, field, arrow, 3, fuel) == Some((member, field)));
    assert(walk_from(g, member, field, dot, 3, fuel) == Some((member, field)));
    if is_pointer(g, param, fuel) {
        assert(walk_from(g, param, name, arrow, 1, fuel) == Some((member, field)));
        assert(walk_from(g, param, name, dot, 1, fuel) is None);
    } else {
        assert(walk_from(g, param, name, dot, 1, fuel) == Some((member, field)));
        assert(walk_from(g, param, name, arrow, 1, fuel) is None);
    }
}

/// The categories that are looked through for a pointer: `const` and the
/// typedef.
pub open spec fn pointer_links() -> spec_fn(TypeKind) -> bool {
    |kind: TypeKind| kind is Const || kind is Typedef
}

/// The categories that are looked through for a struct or union: `const`
/// and the pointer.
pub open spec fn body_links() -> spec_fn(TypeKind) -> bool {
    |kind: TypeKind| kind is Const || kind is Ptr
}

/// The search for a pointer goes along a chain of links: with fewer links
/// in its budget than the chain has it finds none, and otherwise it goes
/// on from the end of the chain with the rest of the budget.
pub proof fn lemma_pointer_along(g: Graph, id: u32, k: nat, fuel: nat)
    requires
        follow(g, pointer_links(), id, k) is Some,
    ensures
        fuel < k ==> !is_pointer(g, id, fuel),
        fuel >= k ==> is_pointer(g, id, fuel) == is_pointer(
            g,
            follow(g, pointer_links(), id, k).unwrap(),
            (fuel - k) as nat,
        ),
    decreases k,
{
    if k > 0 && fuel > 0 {
        lemma_pointer_along(g, record_at(g, id).target, (k - 1) as nat, (fuel - 1) as nat);
    }
}

/// A type that a chain of links leads back to is no pointer, whatever the
/// budget of links.
pub proof fn lemma_pointer_circle(g: Graph, id: u32, k: nat, fuel: nat)
    requires
        k >= 1,
        follow(g, pointer_links(), id, k) == Some(id),
    ensures
        !is_pointer(g, id, fuel),
    decreases fuel,
{
    lemma_pointer_along(g, id, k, fuel);
    if fuel >= k {
        lemma_pointer_circle(g, id, k, (fuel - k) as nat);
    }
}

/// Where the chain of links from a type is not longer than the budget, a
/// larger budget changes nothing.
pub proof fn lemma_pointer_fits(g: Graph, id: u32, fuel: nat, extra: nat)
    requires
        follow(g, pointer_links(), id, fuel + 1) is None,
    ensures
        is_pointer(g, id, fuel + extra) == is_pointer(g, id, fuel),
    decreases fuel,
{
    let kind = kind_of(g, id);
    if id != 0 && (kind is Const || kind is Typedef) {
        if fuel == 0 {
            assert(follow(g, pointer_links(), record_at(g, id).target, 0) is Some);
        } else {
            lemma_pointer_fits(g, record_at(g, id).target, (fuel - 1) as nat, extra);
        }
    }
}

/// The budget of [`MAX_DEPTH`] links is never what decides whether a type
/// is a pointer: a larger budget gives the same answer. A chain that is
/// longer runs in a circle, and holds no pointer.
pub proof fn lemma_pointer_budget(g: Graph, id: u32, fuel: nat)
    requires
        fuel >= MAX_DEPTH,
    ensures
        is_pointer(g, id, fuel) == is_pointer(g, id, MAX_DEPTH as nat),
        follow(g, pointer_links(), id, id_space()) is Some ==> runs_in_circle(
            g,
            pointer_links(),
            id,
        ) && !is_pointer(g, id, fuel),
{
    let max = MAX_DEPTH as nat;
    let links = pointer_links();
    if follow(g, links, id, max + 1) is None {
        lemma_pointer_fits(g, id, max, (fuel - max) as nat);
    } else {
        lemma_long_chain_runs_in_circle(g, links, id, max + 1);
        let (a, b) = choose|a: nat, b: nat|
            a < b < max + 1 && follow(g, links, id, a) is Some && #[trigger] follow(
                g,
                links,
                id,
                a,
            ) == #[trigger] follow(g, links, id, b);
        let back = follow(g, links, id, a).unwrap();
        lemma_follow_earlier(g, links, id, b, a);
        lemma_pointer_along(g, id, a, max);
        lemma_pointer_circle(g, back, (b - a) as nat, (max - a) as nat);
        lemma_pointer_along(g, id, a, fuel);
        lemma_pointer_circle(g, back, (b - a) as nat, (fuel - a) as nat);
    }
}

/// The search for a struct or union goes along a chain of links: with
/// fewer links in its budget than the chain has it finds none, and
/// otherwise it goes on from the end of the chain with the rest of the
/// budget.
pub proof fn lemma_body_along(g: Graph, id: u32, k: nat, fuel: nat)
    requires
        follow(g, body_links(), id, k) is Some,
    ensures
        fuel < k ==> find_body(g, id, fuel) is None,
        fuel >= k ==> find_body(g, id, fuel) == find_body(
            g,
            follow(g, body_links(), id, k).unwrap(),
            (fuel - k) as nat,
        ),
    decreases k,
{
    if k > 0 && fuel > 0 {
        lemma_body_along(g, record_at(g, id).target, (k - 1) as nat, (fuel - 1) as nat);
    }
}

/// No struct or union is found from a type that a chain of links leads
/// back to, whatever the budget of links.
pub proof fn lemma_body_circle(g: Graph, id: u32, k: nat, fuel: nat)
    requires
        k >= 1,
        follow(g, body_links(), id, k) == Some(id),
    ensures
        find_body(g, id, fuel) is None,
    decreases fuel,
{
    lemma_body_along(g, id, k, fuel);
    if fuel >= k {
        lemma_body_circle(g, id, k, (fuel - k) as nat);
    }
}

/// Where the chain of links from a type is not longer than the budget, a
/// larger budget changes nothing.
pub proof fn lemma_body_fits(g: Graph, id: u32, fuel: nat, extra: nat)
    requires
        follow(g, body_links(), id, fuel + 1) is None,
    ensures
        find_body(g, id, fuel + extra) == find_body(g, id, fuel),
    decreases fuel,
{
    let kind = kind_of(g, id);
    if id != 0 && (kind is Const || kind is Ptr) {
        if fuel == 0 {
            assert(follow(g, body_links(), record_at(g, id).target, 0) is Some);
        } else {
            lemma_body_fits(g, record_at(g, id).target, (fuel - 1) as nat, extra);
        }
    }
}

/// The budget of [`MAX_DEPTH`] links is never what keeps a struct or
/// union from being found: a larger budget gives the same result. A chain
/// that is longer runs in a circle, and leads to no struct or union.
pub proof fn lemma_body_budget(g: Graph, id: u32, fuel: nat)
    requires
        fuel >= MAX_DEPTH,
    ensures
        find_body(g, id, fuel) == find_body(g, id, MAX_DEPTH as nat),
        follow(g, body_links(), id, id_space()) is Some ==> runs_in_circle(g, body_links(), id)
            && find_body(g, id, fuel) is None,
{
    let max = MAX_DEPTH as nat;
    let links = body_links();
    if follow(g, links, id, max + 1) is None {
        lemma_body_fits(g, id, max, (fuel - max) as nat);
    } else {
        lemma_long_chain_runs_in_circle(g, links, id, max + 1);
        let (a, b) = choose|a: nat, b: nat|
            a < b < max + 1 && follow(g, links, id, a) is Some && #[trigger] follow(
                g,
                links,
                id,
                a,
            ) == #[trigger] follow(g, links, id, b);
        let back = follow(g, links, id, a).unwrap();
        lemma_follow_earlier(g, links, id, b, a);
        lemma_body_along(g, id, a, max);
        lemma_body_circle(g, back, (b - a) as nat, (max - a) as nat);
        lemma_body_along(g, id, a, fuel);
        lemma_body_circle(g, back, (b - a) as nat, (fuel - a) as nat);
    }
}

/// Whether the type under `id` is a pointer under `const` and typedef
/// layers. The number of layers is never what decides: every larger
/// budget of links gives the same answer.
pub fn is_pointer_type(btf: &Btf, id: u32) -> (pointer: bool)
    ensures
        pointer == is_pointer(btf_types(*btf), id, MAX_DEPTH as nat),
        forall|fuel: nat|
            fuel >= MAX_DEPTH ==> #[trigger] is_pointer(btf_types(*btf), id, fuel) == pointer,
{
    proof {
        assert forall|fuel: nat| fuel >= MAX_DEPTH implies #[trigger] is_pointer(
            btf_types(*btf),
            id,
            fuel,
        ) == is_pointer(btf_types(*btf), id, MAX_DEPTH as nat) by {
            lemma_pointer_budget(btf_types(*btf), id, fuel);
        }
    }
    let mut cur: u32 = id;
    let mut left: u32 = MAX_DEPTH;
    let mut seen: Vec<u32> = Vec::new();
    loop
        invariant
            is_pointer(btf_types(*btf), cur, left as nat) == is_pointer(
                btf_types(*btf),
                id,
                MAX_DEPTH as nat,
            ),
            on_trail(btf_types(*btf), pointer_links(), seen@, cur),
            forall|fuel: nat|
                fuel >= MAX_DEPTH ==> #[trigger] is_pointer(btf_types(*btf), id, fuel)
                    == is_pointer(btf_types(*btf), id, MAX_DEPTH as nat),
        decreases left,
    {
        if cur == 0 {
            return false;
        }
        let info: TypeInfo = fetch(btf, cur);
        match info.kind {
            TypeKind::Ptr => {
                return true;
            },
            TypeKind::Const | TypeKind::Typedef => {
                if left == 0 {
                    return false;
                }
                if seen_before(&seen, cur) {
                    proof {
                        let k = lemma_trail_circle(btf_types(*btf), pointer_links(), seen@, cur);
                        lemma_pointer_circle(btf_types(*btf), cur, k, left as nat);
                    }
                    return false;
                }
                proof {
                    lemma_trail_step(btf_types(*btf), pointer_links(), seen@, cur);
                }
                seen.push(cur);
                cur = info.target;
                left = left - 1;
            },
            _ => {
                return false;
            },
        }
    }
}

/// The struct or union that the type under `id` is under `const` and
/// pointer layers. The number of layers is never what decides: every
/// larger budget of links gives the same result.
pub fn find_body_type(btf: &Btf, id: u32) -> (body: Option<(u32, TypeInfo)>)
    ensures
        match body {
            Some((body_id, info)) => find_body(btf_types(*btf), id, MAX_DEPTH as nat) == Some(
                body_id,
            ) && info@ == record_at(btf_types(*btf), body_id),
            None => find_body(btf_types(*btf), id, MAX_DEPTH as nat) is None,
        },
        forall|fuel: nat|
            fuel >= MAX_DEPTH ==> #[trigger] find_body(btf_types(*btf), id, fuel) == find_body(
                btf_types(*btf),
                id,
                MAX_DEPTH as nat,
            ),
{
    proof {
        assert forall|fuel: nat| fuel >= MAX_DEPTH implies #[trigger] find_body(
            btf_types(*btf),
            id,
            fuel,
        ) == find_body(btf_types(*btf), id, MAX_DEPTH as nat) by {
            lemma_body_budget(btf_types(*btf), id, fuel);
        }
    }
    let mut cur: u32 = id;
    let mut left: u32 = MAX_DEPTH;
    let mut seen: Vec<u32> = Vec::new();
    loop
        invariant
            find_body(btf_types(*btf), cur, left as nat) == find_body(
                btf_types(*btf),
                id,
                MAX_DEPTH as nat,
            ),
            on_trail(btf_types(*btf), body_links(), seen@, cur),
            forall|fuel: nat|
                fuel >= MAX_DEPTH ==> #[trigger] find_body(btf_types(*btf), id, fuel)
                    == find_body(btf_types(*btf), id, MAX_DEPTH as nat),
        decreases left,
    {
        if cur == 0 {
            return None;
        }
        let info: TypeInfo = fetch(btf, cur);
        match info.kind {
            TypeKind::Struct | TypeKind::Union => {
                return Some((cur, info));
            },
            TypeKind::Const | TypeKind::Ptr => {
                if left == 0 {
                    return None;
                }
                if seen_before(&seen, cur) {
                    proof {
                        let k = lemma_trail_circle(btf_types(*btf), body_links(), seen@, cur);
                        lemma_body_circle(btf_types(*btf), cur, k, left as nat);
                    }
                    return None;
                }
                proof {
                    lemma_trail_step(btf_types(*btf), body_links(), seen@, cur);
                }
                seen.push(cur);
                cur = info.target;
                left = left - 1;
            },
            _ => {
                return None;
            },
        }
    }
}

/// The type id of the first member with the given name.
pub fn find_member(members: &Vec<Member>, name: &str) -> (found: Option<u32>)
    ensures
        found == member_type(members_view(members@), name@),
{
    let mut i: usize = 0;
    while i < members.len()
        invariant
            i <= members.len(),
            member_from(members_view(members@), name@, i as int) == member_from(
                members_view(members@),
                name@,
                0,
            ),
        decreases members.len() - i,
    {
        if same_text(members[i].name.as_str(), name) {
            return Some(members[i].type_id);
        }
        i += 1;
    }
    None
}

/// One step of a walk: checks the operator against the type under `cur`,
/// finds the struct or union, and looks the member up in it.
pub fn walk_step(btf: &Btf, cur: u32, op: &str, name: &str) -> (next: Option<u32>)
    ensures
        next == step(btf_types(*btf), cur, op@, name@, MAX_DEPTH as nat),
{
    let pointer: bool = is_pointer_type(btf, cur);
    let fits: bool = if pointer {
        same_text(op, "->")
    } else {
        same_text(op, ".")
    };
    proof {
        reveal_strlit(".");
        reveal_strlit("->");
        assert("."@ != "->"@) by {
            assert("."@.len() != "->"@.len());
        }
    }
    if !fits {
        return None;
    }
    match find_body_type(btf, cur) {
        Some((_, body)) => find_member(&body.members, name),
        None => None,
    }
}

/// Walks a field-access chain from the root node of a function. An empty
/// chain gives the root back. Otherwise the first name picks a parameter
/// of the function; every pair of an operator and a name then steps into a
/// member, where `->` is accepted on pointers only and `.` on anything
/// else; an operator at the end stops the walk where it stands. The type
/// reached is rendered in full, with the members of a struct or union as
/// children, under the last name matched. A walk that ends at type id
/// zero, or at another type that does not unwind, gives a node with the
/// last name matched and nothing else. A leading `args.` is ignored.
/// `None` where a name is not found, an operator does not fit, or a
/// member is looked for where no struct or union is found.
pub fn btf_iterate_over_names_chain(
    btf: &Btf,
    func: ResolvedBtfItem,
    names_chain_str: &str,
) -> (r: Option<ResolvedBtfItem>)
    ensures
        opt_view(r) == walk_chain(
            btf_types(*btf),
            func@,
            chain_names(names_chain_str@),
            MAX_DEPTH as nat,
        ),
{
    let tokens: Vec<&str> = strip_args_prefix(chain_str_to_tokens(names_chain_str));
    let ghost names = strs_view(tokens@);
    let ghost g = btf_types(*btf);
    if tokens.len() == 0 {
        return Some(func);
    }
    if func.type_id == 0 {
        return None;
    }
    let proto: TypeInfo = fetch(btf, func.type_id);
    match proto.kind {
        TypeKind::FuncProto => {},
        _ => {
            return None;
        },
    }
    let mut cur: u32 = match find_member(&proto.members, tokens[0]) {
        Some(first) => first,
        None => {
            return None;
        },
    };
    let ghost first = cur;
    proof {
        lemma_view_children(&func);
        assert(names[0] == tokens@[0]@);
    }
    let mut last: usize = 0;
    let mut i: usize = 1;
    while i < tokens.len() - 1
        invariant
            1 <= i <= tokens.len(),
            last < tokens.len(),
            names == strs_view(tokens@),
            names == chain_names(names_chain_str@),
            walk_chain(btf_types(*btf), func@, names, MAX_DEPTH as nat) == match walk_from(
                btf_types(*btf),
                first,
                names[0],
                names,
                1,
                MAX_DEPTH as nat,
            ) {
                Some((id, name)) => Some(
                    end_node(btf_types(*btf), name, id, MAX_DEPTH as nat),
                ),
                None => None,
            },
            walk_from(btf_types(*btf), cur, names[last as int], names, i as int, MAX_DEPTH as nat)
                == walk_from(btf_types(*btf), first, names[0], names, 1, MAX_DEPTH as nat),
        decreases tokens.len() - i,
    {
        proof {
            assert(names[i as int] == tokens@[i as int]@);
            assert(names[i + 1] == tokens@[i + 1]@);
        }
        match walk_step(btf, cur, tokens[i], tokens[i + 1]) {
            Some(next) => {
                cur = next;
                last = i + 1;
                i = i + 2;
            },
            None => {
                return None;
            },
        }
    }
    Some(resolve_end(btf, tokens[last].to_owned(), cur))
}

} // verus!

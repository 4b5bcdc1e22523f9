//! The function resolver, and the nodes of structs, unions and their
//! members.

use btf_rs::Btf;
use crate::graph::btf_ids_named;
use crate::graph::btf_types;
use crate::graph::fetch;
use crate::graph::Graph;
use crate::graph::ids_named;
use crate::graph::Member;
use crate::graph::MemberRecord;
use crate::graph::members_view;
use crate::graph::record_at;
use crate::graph::TypeInfo;
use crate::graph::TypeKind;
use crate::graph::TypeRecord;
use crate::item::items_view;
use crate::item::ItemView;
use crate::item::lemma_view_children;
use crate::item::ResolvedBtfItem;
use crate::render::node_type_id;
use crate::render::pointer_marker;
use crate::render::resolve_type_tokens;
use crate::render::terminal_tokens;
use crate::render::type_tokens;
use crate::text::strings_view;
use crate::unwind::kind_of;
use crate::unwind::MAX_DEPTH;
use crate::unwind::unwind;
use crate::unwind::unwind_spec;
use vstd::prelude::*;

verus! {

/// The model of an optional item.
pub open spec fn opt_view(item: Option<ResolvedBtfItem>) -> Option<ItemView> {
    match item {
        Some(item) => Some(item@),
        None => None,
    }
}

/// The node of a parameter, a member or a return value: its name and the
/// words of its type, without children.
pub open spec fn leaf_node(g: Graph, name: Seq<char>, id: u32, depth: nat) -> ItemView {
    ItemView {
        name,
        tokens: type_tokens(g, id, depth),
        type_id: node_type_id(g, id),
        children: Seq::empty(),
    }
}

/// The nodes of the members whose type id is not zero, in declaration order.
pub open spec fn member_nodes(g: Graph, members: Seq<MemberRecord>, depth: nat) -> Seq<ItemView>
    decreases members.len(),
{
    if members.len() == 0 {
        Seq::empty()
    } else {
        let rest = member_nodes(g, members.drop_last(), depth);
        let last = members.last();
        if last.type_id != 0 {
            rest.push(leaf_node(g, last.name, last.type_id, depth))
        } else {
            rest
        }
    }
}

/// The nodes of all parameters, in declaration order.
pub open spec fn param_nodes(g: Graph, params: Seq<MemberRecord>, depth: nat) -> Seq<ItemView> {
    Seq::new(params.len(), |i: int| leaf_node(g, params[i].name, params[i].type_id, depth))
}

/// The children of a node whose terminal type is the one under `terminal`:
/// the members of a struct or union, and none for any other category.
pub open spec fn body_children(g: Graph, terminal: u32, depth: nat) -> Seq<ItemView> {
    if kind_of(g, terminal) is Struct || kind_of(g, terminal) is Union {
        member_nodes(g, record_at(g, terminal).members, depth)
    } else {
        Seq::empty()
    }
}

/// The fully rendered node of the type under `id`: the words of the type
/// and, for a struct or union, one child for each member. `None` where the
/// type does not unwind.
pub open spec fn full_node(g: Graph, name: Seq<char>, id: u32, depth: nat) -> Option<ItemView> {
    match unwind_spec(g, id, MAX_DEPTH as nat) {
        Some(u) => Some(
            ItemView {
                name,
                tokens: type_tokens(g, id, depth),
                type_id: node_type_id(g, id),
                children: body_children(g, u.terminal, depth),
            },
        ),
        None => None,
    }
}

/// The node of a name that has no type: the name alone, without words and
/// without children, and with type id zero.
pub open spec fn bare_node(name: Seq<char>) -> ItemView {
    ItemView { name, tokens: Seq::empty(), type_id: 0, children: Seq::empty() }
}

/// The node that stands for the end of a walk, which stopped at the type
/// under `id` and matched `name` last: the fully rendered node of the
/// type. Where the type does not unwind there is nothing to render, and
/// the node is the bare name. So it is at type id zero, which is a place
/// to stop, and at a type whose links lead to nothing or in a circle.
pub open spec fn end_node(g: Graph, name: Seq<char>, id: u32, depth: nat) -> ItemView {
    match full_node(g, name, id, depth) {
        Some(node) => node,
        None => bare_node(name),
    }
}

/// The node of the type that the type under `id` unwinds to, named after
/// it, where that type is of the category `kind`: a struct, or a union.
/// `None` where the type unwinds to anything else.
pub open spec fn body_node(g: Graph, id: u32, kind: TypeKind, depth: nat) -> Option<ItemView> {
    match unwind_spec(g, id, MAX_DEPTH as nat) {
        Some(u) => if kind_of(g, u.terminal) == kind {
            full_node(g, record_at(g, u.terminal).name, id, depth)
        } else {
            None
        },
        None => None,
    }
}

/// The children of a function's root node: one for each parameter and,
/// where asked for and the return type is not `void`, one named `retval`.
/// None where `proto` is no prototype.
pub open spec fn function_children(
    g: Graph,
    proto: TypeRecord,
    include_return: bool,
    depth: nat,
) -> Seq<ItemView> {
    if proto.kind is FuncProto {
        if include_return && proto.target != 0 {
            param_nodes(g, proto.members, depth).push(
                leaf_node(g, "retval"@, proto.target, depth),
            )
        } else {
            param_nodes(g, proto.members, depth)
        }
    } else {
        Seq::empty()
    }
}

/// The root node of the function under `id`; `None` where the type under
/// `id` is no function.
pub open spec fn function_node(g: Graph, id: u32, include_return: bool, depth: nat) -> Option<
    ItemView,
> {
    let f = record_at(g, id);
    if f.kind is Func {
        Some(
            ItemView {
                name: f.name,
                tokens: seq!["func"@],
                type_id: f.target,
                children: function_children(g, record_at(g, f.target), include_return, depth),
            },
        )
    } else {
        None
    }
}

/// The root node of the function that `ids` names; `None` unless `ids`
/// holds exactly one id and that id is a function's.
pub open spec fn named_function_node(
    g: Graph,
    ids: Seq<u32>,
    include_return: bool,
    depth: nat,
) -> Option<ItemView> {
    if ids.len() == 1 {
        function_node(g, ids[0], include_return, depth)
    } else {
        None
    }
}

/// Whether the renderer of a category always pushes a word.
pub open spec fn always_named(kind: TypeKind) -> bool {
    kind is Void || kind is Int || kind is Typedef || kind is Enum || kind is Enum64
        || kind is Struct || kind is Union
}

/// The shape of a fully rendered node. It carries the name it was given.
/// It has children only if its type unwinds to a struct or union. Its
/// type id is that of the terminal type or zero. Its words are the
/// qualifiers, the words of the terminal type and the pointer marker, in
/// this order, and there is at least one where the terminal type is
/// `void`, an integer, a typedef, an enum, a struct or a union.
pub proof fn lemma_node_shape(g: Graph, name: Seq<char>, id: u32, depth: nat)
    ensures
        leaf_node(g, name, id, depth).children.len() == 0,
        full_node(g, name, id, depth) is Some <==> unwind_spec(g, id, MAX_DEPTH as nat) is Some,
        full_node(g, name, id, depth) matches Some(node) ==> {
            let u = unwind_spec(g, id, MAX_DEPTH as nat).unwrap();
            let kind = kind_of(g, u.terminal);
            &&& node.name == name
            &&& node.tokens == leaf_node(g, name, id, depth).tokens
            &&& node.type_id == leaf_node(g, name, id, depth).type_id
            &&& node.tokens == u.quals + terminal_tokens(g, u.terminal, depth) + pointer_marker(
                g,
                u.pointers,
                u.terminal,
            )
            &&& node.children.len() > 0 ==> kind is Struct || kind is Union
            &&& node.type_id == u.terminal || node.type_id == 0
            &&& always_named(kind) ==> node.tokens.len() > 0
        },
{
    match unwind_spec(g, id, MAX_DEPTH as nat) {
        Some(u) => {
            let kind = kind_of(g, u.terminal);
            if always_named(kind) {
                assert(terminal_tokens(g, u.terminal, depth).len() > 0);
            }
        },
        None => {},
    }
}

/// Whether no two members with a type carry the same name.
pub open spec fn distinct_member_names(members: Seq<MemberRecord>) -> bool {
    forall|i: int, j: int|
        0 <= i < j < members.len() && members[i].type_id != 0 && members[j].type_id != 0
            ==> members[i].name != members[j].name
}

/// Every child of a struct or union node stands for a member of the type:
/// it carries the name of a member whose type id is not zero, and the words
/// of that member's type. Where no two such members share a name, no two
/// children do.
pub proof fn lemma_children_are_members(g: Graph, members: Seq<MemberRecord>, depth: nat)
    ensures
        member_nodes(g, members, depth).len() <= members.len(),
        forall|i: int|
            0 <= i < member_nodes(g, members, depth).len() ==> exists|j: int|
                0 <= j < members.len() && members[j].type_id != 0 && #[trigger] member_nodes(
                    g,
                    members,
                    depth,
                )[i] == leaf_node(g, members[j].name, members[j].type_id, depth),
        distinct_member_names(members) ==> forall|i: int, k: int|
            0 <= i < k < member_nodes(g, members, depth).len() ==> member_nodes(
                g,
                members,
                depth,
            )[i].name != member_nodes(g, members, depth)[k].name,
    decreases members.len(),
{
    let nodes = member_nodes(g, members, depth);
    if members.len() > 0 {
        let front = members.drop_last();
        let last = members.last();
        let rest = member_nodes(g, front, depth);
        lemma_children_are_members(g, front, depth);
        assert forall|i: int| 0 <= i < nodes.len() implies exists|j: int|
            0 <= j < members.len() && members[j].type_id != 0 && #[trigger] nodes[i] == leaf_node(
                g,
                members[j].name,
                members[j].type_id,
                depth,
            ) by {
            if i < rest.len() {
                let j = choose|j: int|
                    0 <= j < front.len() && front[j].type_id != 0 && rest[i] == leaf_node(
                        g,
                        front[j].name,
                        front[j].type_id,
                        depth,
                    );
                assert(members[j] == front[j]);
                assert(nodes[i] == rest[i]);
            } else {
                assert(nodes[i] == leaf_node(g, last.name, last.type_id, depth));
                assert(members[members.len() - 1] == last);
            }
        }
        if distinct_member_names(members) {
            assert(distinct_member_names(front)) by {
                assert forall|i: int, j: int|
                    0 <= i < j < front.len() && front[i].type_id != 0 && front[j].type_id
                        != 0 implies front[i].name != front[j].name by {
                    assert(members[i] == front[i]);
                    assert(members[j] == front[j]);
                }
            }
            assert forall|i: int, k: int| 0 <= i < k < nodes.len() implies nodes[i].name
                != nodes[k].name by {
                assert(nodes[i] == rest[i]);
                if k < rest.len() {
                    assert(nodes[k] == rest[k]);
                } else {
                    let j = choose|j: int|
                        0 <= j < front.len() && front[j].type_id != 0 && rest[i] == leaf_node(
                            g,
                            front[j].name,
                            front[j].type_id,
                            depth,
                        );
                    assert(members[j] == front[j]);
                    assert(members[members.len() - 1] == last);
                    assert(nodes[k] == leaf_node(g, last.name, last.type_id, depth));
                }
            }
        }
    }
}

/// The root node of a function has one child for each parameter, in
/// declaration order and under the parameter's name, and behind them the
/// child `retval` where it is asked for and the function returns a value.
pub proof fn lemma_function_children(g: Graph, id: u32, include_return: bool, depth: nat)
    requires
        record_at(g, id).kind is Func,
        record_at(g, record_at(g, id).target).kind is FuncProto,
    ensures
        function_node(g, id, include_return, depth) matches Some(root) && ({
            let proto = record_at(g, record_at(g, id).target);
            let with_return = include_return && proto.target != 0;
            &&& root.name == record_at(g, id).name
            &&& root.tokens == seq!["func"@]
            &&& root.type_id == record_at(g, id).target
            &&& root.children.len() == proto.members.len() + if with_return {
                1int
            } else {
                0int
            }
            &&& forall|i: int|
                0 <= i < proto.members.len() ==> #[trigger] root.children[i] == leaf_node(
                    g,
                    proto.members[i].name,
                    proto.members[i].type_id,
                    depth,
                )
            &&& with_return ==> root.children.last() == leaf_node(g, "retval"@, proto.target, depth)
        }),
{
}

/// A name that the graph does not know, or knows more than once, resolves
/// to no function.
pub proof fn lemma_function_name_must_be_unique(
    g: Graph,
    ids: Seq<u32>,
    include_return: bool,
    depth: nat,
)
    requires
        ids.len() != 1,
    ensures
        named_function_node(g, ids, include_return, depth) is None,
{
}

/// The node of a name and a type, without children.
pub fn resolve_leaf(btf: &Btf, name: String, id: u32) -> (item: ResolvedBtfItem)
    ensures
        item@ == leaf_node(btf_types(*btf), name@, id, MAX_DEPTH as nat),
{
    let (type_vec, type_id) = resolve_type_tokens(btf, id);
    let item = ResolvedBtfItem { name, type_vec, type_id, children_vec: Vec::new() };
    proof {
        lemma_view_children(&item);
        assert(items_view(item.children_vec@) =~= Seq::empty());
    }
    item
}

/// The node of a member of a struct or union.
pub fn resolve_struct_member(btf: &Btf, member: &Member) -> (item: ResolvedBtfItem)
    ensures
        item@ == leaf_node(btf_types(*btf), member@.name, member@.type_id, MAX_DEPTH as nat),
{
    resolve_leaf(btf, member.name.clone(), member.type_id)
}

/// The node of a parameter of a function.
pub fn resolve_parameter(btf: &Btf, param: &Member) -> (item: ResolvedBtfItem)
    ensures
        item@ == leaf_node(btf_types(*btf), param@.name, param@.type_id, MAX_DEPTH as nat),
{
    resolve_leaf(btf, param.name.clone(), param.type_id)
}

/// The nodes of the members whose type id is not zero.
pub fn resolve_members(btf: &Btf, members: &Vec<Member>) -> (children: Vec<ResolvedBtfItem>)
    ensures
        items_view(children@) == member_nodes(
            btf_types(*btf),
            members_view(members@),
            MAX_DEPTH as nat,
        ),
{
    let ghost all = members_view(members@);
    let mut children: Vec<ResolvedBtfItem> = Vec::new();
    let mut i: usize = 0;
    proof {
        assert(items_view(children@) =~= Seq::empty());
        assert(all.take(0) =~= Seq::empty());
    }
    while i < members.len()
        invariant
            i <= members.len(),
            all == members_view(members@),
            items_view(children@) == member_nodes(
                btf_types(*btf),
                all.take(i as int),
                MAX_DEPTH as nat,
            ),
        decreases members.len() - i,
    {
        proof {
            let next = all.take(i + 1);
            assert(next.drop_last() =~= all.take(i as int));
            assert(next.last() == members@[i as int]@);
        }
        if members[i].type_id != 0 {
            let child = resolve_struct_member(btf, &members[i]);
            proof {
                assert(items_view(children@.push(child)) =~= items_view(children@).push(child@));
            }
            children.push(child);
        }
        i += 1;
    }
    proof {
        assert(all.take(members.len() as int) =~= all);
    }
    children
}

/// The fully rendered node of the type under `id`, under the given name.
pub fn resolve_node(btf: &Btf, name: String, id: u32) -> (r: Option<ResolvedBtfItem>)
    ensures
        opt_view(r) == full_node(btf_types(*btf), name@, id, MAX_DEPTH as nat),
{
    match unwind(btf, id) {
        None => None,
        Some(u) => {
            let (type_vec, type_id) = resolve_type_tokens(btf, id);
            let children_vec: Vec<ResolvedBtfItem> = match u.terminal_kind {
                TypeKind::Struct | TypeKind::Union => {
                    let body: TypeInfo = fetch(btf, u.terminal_id);
                    resolve_members(btf, &body.members)
                },
                _ => {
                    let none: Vec<ResolvedBtfItem> = Vec::new();
                    proof {
                        assert(items_view(none@) =~= Seq::empty());
                    }
                    none
                },
            };
            let item = ResolvedBtfItem { name, type_vec, type_id, children_vec };
            proof {
                lemma_view_children(&item);
            }
            Some(item)
        },
    }
}

/// The node for the end of a walk that stopped at the type under `id`:
/// the fully rendered node of the type, and the bare name where the type
/// does not unwind.
pub fn resolve_end(btf: &Btf, name: String, id: u32) -> (r: ResolvedBtfItem)
    ensures
        r@ == end_node(btf_types(*btf), name@, id, MAX_DEPTH as nat),
{
    match resolve_node(btf, name.clone(), id) {
        Some(node) => node,
        None => {
            let item = ResolvedBtfItem {
                name,
                type_vec: Vec::new(),
                type_id: 0,
                children_vec: Vec::new(),
            };
            proof {
                lemma_view_children(&item);
                assert(strings_view(item.type_vec@) =~= Seq::empty());
                assert(items_view(item.children_vec@) =~= Seq::empty());
            }
            item
        },
    }
}

/// The node of the type that the type under `base_id` unwinds to, named
/// after it, where that type is of the given category.
pub fn resolve_body(btf: &Btf, base_id: u32, kind: TypeKind) -> (r: Option<ResolvedBtfItem>)
    ensures
        opt_view(r) == body_node(btf_types(*btf), base_id, kind, MAX_DEPTH as nat),
{
    match unwind(btf, base_id) {
        None => None,
        Some(u) => {
            if u.terminal_kind == kind {
                let body: TypeInfo = fetch(btf, u.terminal_id);
                resolve_node(btf, body.name, base_id)
            } else {
                None
            }
        },
    }
}

/// Resolves the struct that the type under `base_id` is, or points to: a
/// node named after the struct, with one child for each member whose type
/// id is not zero. `None` where the type unwinds to no struct.
pub fn resolve_struct(btf: &Btf, base_id: u32) -> (r: Option<ResolvedBtfItem>)
    ensures
        opt_view(r) == body_node(btf_types(*btf), base_id, TypeKind::Struct, MAX_DEPTH as nat),
{
    resolve_body(btf, base_id, TypeKind::Struct)
}

/// Resolves the union that the type under `base_id` is, or points to: a
/// node named after the union, with one child for each member whose type
/// id is not zero. `None` where the type unwinds to no union.
pub fn resolve_union(btf: &Btf, base_id: u32) -> (r: Option<ResolvedBtfItem>)
    ensures
        opt_view(r) == body_node(btf_types(*btf), base_id, TypeKind::Union, MAX_DEPTH as nat),
{
    resolve_body(btf, base_id, TypeKind::Union)
}

/// Gives the root node of a function its children: one for each parameter
/// of the prototype and, where `include_return` is set and the function
/// returns a value, a last one named `retval`.
pub fn resolve_func_parameters(
    btf: &Btf,
    proto: &TypeInfo,
    include_return: bool,
    item: &mut ResolvedBtfItem,
)
    ensures
        final(item)@ == (ItemView {
            children: old(item)@.children + function_children(
                btf_types(*btf),
                proto@,
                include_return,
                MAX_DEPTH as nat,
            ),
            ..old(item)@
        }),
{
    let ghost g = btf_types(*btf);
    let ghost before = items_view(item.children_vec@);
    let ghost params = proto@.members;
    proof {
        lemma_view_children(item);
    }
    match proto.kind {
        TypeKind::FuncProto => {},
        _ => {
            proof {
                assert(before =~= before + Seq::<ItemView>::empty());
            }
            return ;
        },
    }
    let mut i: usize = 0;
    while i < proto.members.len()
        invariant
            i <= proto.members.len(),
            params == members_view(proto.members@),
            item.name == old(item).name,
            item.type_vec == old(item).type_vec,
            item.type_id == old(item).type_id,
            items_view(item.children_vec@) == before + param_nodes(
                btf_types(*btf),
                params,
                MAX_DEPTH as nat,
            ).take(i as int),
        decreases proto.members.len() - i,
    {
        let child = resolve_parameter(btf, &proto.members[i]);
        proof {
            let nodes = param_nodes(btf_types(*btf), params, MAX_DEPTH as nat);
            assert(params[i as int] == proto.members@[i as int]@);
            assert(child@ == nodes[i as int]);
            assert(items_view(item.children_vec@.push(child)) =~= items_view(
                item.children_vec@,
            ).push(child@));
            assert((before + nodes.take(i as int)).push(nodes[i as int]) =~= before + nodes.take(
                i + 1,
            ));
        }
        item.children_vec.push(child);
        i += 1;
    }
    proof {
        let nodes = param_nodes(g, params, MAX_DEPTH as nat);
        assert(nodes.take(proto.members.len() as int) =~= nodes);
    }
    if include_return && proto.target > 0 {
        let child = resolve_leaf(btf, "retval".to_owned(), proto.target);
        proof {
            let nodes = param_nodes(g, params, MAX_DEPTH as nat);
            assert(items_view(item.children_vec@.push(child)) =~= items_view(
                item.children_vec@,
            ).push(child@));
            assert((before + nodes).push(child@) =~= before + nodes.push(child@));
        }
        item.children_vec.push(child);
    }
    proof {
        lemma_view_children(item);
    }
}

/// The root node of the function under `id`: its name, the marker `func`,
/// the id of its prototype, and its parameters as children. `None` where
/// the type under `id` is no function.
pub fn resolve_func_by_id(btf: &Btf, id: u32, include_return: bool) -> (r: Option<
    ResolvedBtfItem,
>)
    ensures
        opt_view(r) == function_node(btf_types(*btf), id, include_return, MAX_DEPTH as nat),
{
    let func: TypeInfo = fetch(btf, id);
    match func.kind {
        TypeKind::Func => {},
        _ => {
            return None;
        },
    }
    let mut type_vec: Vec<String> = Vec::new();
    type_vec.push("func".to_owned());
    let mut item = ResolvedBtfItem {
        name: func.name,
        type_vec,
        type_id: func.target,
        children_vec: Vec::new(),
    };
    proof {
        lemma_view_children(&item);
        assert(item@.tokens =~= seq!["func"@]);
        assert(item@.children =~= Seq::empty());
    }
    let proto: TypeInfo = fetch(btf, func.target);
    resolve_func_parameters(btf, &proto, include_return, &mut item);
    proof {
        let kids = function_children(btf_types(*btf), proto@, include_return, MAX_DEPTH as nat);
        assert(Seq::<ItemView>::empty() + kids =~= kids);
    }
    Some(item)
}

/// Resolves a function by name. The root node carries the function's name,
/// the single token `func` and the id of the prototype; its children are
/// the parameters in declaration order, followed by `retval` where
/// `include_return` is set and the function returns a value. `None` where
/// the name is unknown, names more than one type, or names no function.
pub fn btf_resolve_func(btf: &Btf, name: &str, include_return: bool) -> (r: Option<
    ResolvedBtfItem,
>)
    ensures
        opt_view(r) == named_function_node(
            btf_types(*btf),
            btf_ids_named(*btf, name@),
            include_return,
            MAX_DEPTH as nat,
        ),
{
    let ids: Vec<u32> = ids_named(btf, name);
    if ids.len() != 1 {
        return None;
    }
    resolve_func_by_id(btf, ids[0], include_return)
}

} // verus!

//! The terminal-type renderers: the descriptor words of a type.

use btf_rs::Btf;
use crate::graph::btf_types;
use crate::graph::fetch;
use crate::graph::Graph;
use crate::graph::MemberRecord;
use crate::graph::record_at;
use crate::graph::TypeInfo;
use crate::graph::TypeKind;
use crate::graph::TypeRecord;
use crate::item::ItemView;
use crate::item::lemma_view_children;
use crate::item::ResolvedBtfItem;
use crate::links::seen_before;
use crate::text::join;
use crate::text::join_strings;
use crate::text::lemma_strings_view_push;
use crate::text::strings_view;
use crate::unwind::kind_of;
use crate::unwind::MAX_DEPTH;
use crate::unwind::unwind;
use crate::unwind::unwind_spec;
use vstd::prelude::*;

verus! {

/// The pointer marker for `n` levels: `n` asterisks.
pub open spec fn stars(n: nat) -> Seq<char> {
    Seq::new(n, |i: int| '*')
}

/// The trailing pointer marker of a type with `pointers` levels over the
/// terminal `terminal`: one token of asterisks, and none where the terminal
/// is a function prototype, whose rendering holds the marker itself.
pub open spec fn pointer_marker(g: Graph, pointers: nat, terminal: u32) -> Seq<Seq<char>> {
    if pointers == 0 || kind_of(g, terminal) is FuncProto {
        Seq::empty()
    } else {
        seq![stars(pointers)]
    }
}

/// Whether resolution can go on from a terminal of this category.
pub open spec fn resolves_further(kind: TypeKind) -> bool {
    kind is Struct || kind is Union || kind is Typedef || kind is Array || kind is FuncProto
}

/// The words that the renderer of the terminal type under `id` pushes,
/// where `path` holds the arrays and prototypes that the type is rendered
/// inside of. An unsupported category pushes none. An array or a
/// prototype that is on the path, and so nested in itself, pushes none
/// either: rendering does not descend into a type twice. Nor does it
/// descend from depth zero.
pub open spec fn terminal_tokens_in(g: Graph, id: u32, depth: nat, path: Seq<u32>) -> Seq<Seq<char>>
    decreases depth, 0nat,
{
    let rec = record_at(g, id);
    match kind_of(g, id) {
        TypeKind::Void => seq!["void"@],
        TypeKind::Int | TypeKind::Typedef | TypeKind::Enum | TypeKind::Enum64 => seq![rec.name],
        TypeKind::Struct => seq!["struct"@, rec.name],
        TypeKind::Union => seq!["union"@, rec.name],
        TypeKind::Array => if depth == 0 || path.contains(id) {
            Seq::empty()
        } else {
            type_tokens_in(g, rec.target, (depth - 1) as nat, path.push(id)).push("[]"@)
        },
        TypeKind::FuncProto => if depth == 0 || path.contains(id) {
            Seq::empty()
        } else {
            seq![proto_token(g, rec, (depth - 1) as nat, path.push(id))]
        },
        _ => Seq::empty(),
    }
}

/// The descriptor words of the type under `id` inside the arrays and
/// prototypes on `path`: the qualifiers, the words of the terminal type,
/// and the pointer marker. Empty where the type does not unwind.
pub open spec fn type_tokens_in(g: Graph, id: u32, depth: nat, path: Seq<u32>) -> Seq<Seq<char>>
    decreases depth, 1nat,
{
    match unwind_spec(g, id, MAX_DEPTH as nat) {
        Some(u) => u.quals + terminal_tokens_in(g, u.terminal, depth, path) + pointer_marker(
            g,
            u.pointers,
            u.terminal,
        ),
        None => Seq::empty(),
    }
}

/// The words that the renderer of the terminal type under `id` pushes.
pub open spec fn terminal_tokens(g: Graph, id: u32, depth: nat) -> Seq<Seq<char>> {
    terminal_tokens_in(g, id, depth, Seq::empty())
}

/// The descriptor words of the type under `id`: the qualifiers, the words
/// of the terminal type, and the pointer marker. Empty where the type does
/// not unwind. The terminal type is rendered to the given depth.
pub open spec fn type_tokens(g: Graph, id: u32, depth: nat) -> Seq<Seq<char>> {
    type_tokens_in(g, id, depth, Seq::empty())
}

/// The type under `id` as one string: its words with a blank between them.
pub open spec fn type_string(g: Graph, id: u32, depth: nat, path: Seq<u32>) -> Seq<char>
    decreases depth, 2nat,
{
    join(type_tokens_in(g, id, depth, path), " "@)
}

/// The types of the parameters, each as one string.
pub open spec fn param_strings(
    g: Graph,
    params: Seq<MemberRecord>,
    depth: nat,
    path: Seq<u32>,
) -> Seq<Seq<char>>
    decreases depth, 3nat, params.len(),
{
    if params.len() == 0 {
        Seq::empty()
    } else {
        param_strings(g, params.drop_last(), depth, path).push(
            type_string(g, params.last().type_id, depth, path),
        )
    }
}

/// The return type of a prototype as one string: `void` for id zero.
pub open spec fn return_string(g: Graph, proto: TypeRecord, depth: nat, path: Seq<u32>) -> Seq<char>
    decreases depth, 3nat,
{
    if proto.target == 0 {
        "void"@
    } else {
        type_string(g, proto.target, depth, path)
    }
}

/// The single word that stands for a function pointer:
/// `<ret> (*)( <param>, <param>, ... )`.
pub open spec fn proto_token(g: Graph, proto: TypeRecord, depth: nat, path: Seq<u32>) -> Seq<char>
    decreases depth, 4nat,
{
    return_string(g, proto, depth, path) + " (*)( "@ + join(
        param_strings(g, proto.members, depth, path),
        ", "@,
    ) + " )"@
}

/// The id that a node of the type under `id` records: the terminal's, where
/// resolution can go on from it, and zero otherwise.
pub open spec fn node_type_id(g: Graph, id: u32) -> u32 {
    match unwind_spec(g, id, MAX_DEPTH as nat) {
        Some(u) => if resolves_further(kind_of(g, u.terminal)) {
            u.terminal
        } else {
            0
        },
        None => 0,
    }
}

/// Pushes the declared name of an integer type.
pub fn get_int_type_vec(i: &TypeInfo, type_vec: &mut Vec<String>)
    ensures
        strings_view(final(type_vec)@) == strings_view(old(type_vec)@).push(i@.name),
{
    let name: String = i.name.clone();
    proof {
        lemma_strings_view_push(type_vec@, name);
    }
    type_vec.push(name);
}

/// Pushes the declared name of a typedef, which is not expanded.
pub fn get_typedef_type_vec(t: &TypeInfo, type_vec: &mut Vec<String>)
    ensures
        strings_view(final(type_vec)@) == strings_view(old(type_vec)@).push(t@.name),
{
    let name: String = t.name.clone();
    proof {
        lemma_strings_view_push(type_vec@, name);
    }
    type_vec.push(name);
}

/// Pushes the declared name of an enum.
pub fn get_enum_type_vec(e: &TypeInfo, type_vec: &mut Vec<String>)
    ensures
        strings_view(final(type_vec)@) == strings_view(old(type_vec)@).push(e@.name),
{
    let name: String = e.name.clone();
    proof {
        lemma_strings_view_push(type_vec@, name);
    }
    type_vec.push(name);
}

/// Pushes `struct` and the name of the struct.
pub fn get_struct_type_vec(st: &TypeInfo, type_vec: &mut Vec<String>)
    ensures
        strings_view(final(type_vec)@) == strings_view(old(type_vec)@) + seq!["struct"@, st@.name],
{
    let word: String = "struct".to_owned();
    let name: String = st.name.clone();
    proof {
        lemma_strings_view_push(type_vec@, word);
        lemma_strings_view_push(type_vec@.push(word), name);
        assert(strings_view(type_vec@).push(word@).push(name@) =~= strings_view(type_vec@)
            + seq!["struct"@, st@.name]);
    }
    type_vec.push(word);
    type_vec.push(name);
}

/// Pushes `union` and the name of the union.
pub fn get_union_type_vec(u: &TypeInfo, type_vec: &mut Vec<String>)
    ensures
        strings_view(final(type_vec)@) == strings_view(old(type_vec)@) + seq!["union"@, u@.name],
{
    let word: String = "union".to_owned();
    let name: String = u.name.clone();
    proof {
        lemma_strings_view_push(type_vec@, word);
        lemma_strings_view_push(type_vec@.push(word), name);
        assert(strings_view(type_vec@).push(word@).push(name@) =~= strings_view(type_vec@)
            + seq!["union"@, u@.name]);
    }
    type_vec.push(word);
    type_vec.push(name);
}

/// Moves the strings of `more` to the end of `type_vec`.
pub fn extend_strings(type_vec: &mut Vec<String>, more: Vec<String>)
    ensures
        strings_view(final(type_vec)@) == strings_view(old(type_vec)@) + strings_view(more@),
{
    let ghost added = more@;
    let mut more = more;
    type_vec.append(&mut more);
    proof {
        assert(strings_view(type_vec@) =~= strings_view(old(type_vec)@) + strings_view(added));
    }
}

/// The pointer marker for `level` levels.
pub fn pointer_stars(level: u32) -> (marker: String)
    ensures
        marker@ == stars(level as nat),
{
    let mut marker = String::new();
    let mut i: u32 = 0;
    proof {
        reveal_strlit("*");
    }
    while i < level
        invariant
            i <= level,
            marker@ == stars(i as nat),
            "*"@ == seq!['*'],
        decreases level - i,
    {
        marker.append("*");
        i = i + 1;
        proof {
            assert(marker@ =~= stars(i as nat));
        }
    }
    marker
}

/// Pushes the words of the element type, then `[]`.
fn get_array_type_vec(
    btf: &Btf,
    a: &TypeInfo,
    type_vec: &mut Vec<String>,
    depth: u32,
    path: &mut Vec<u32>,
)
    ensures
        strings_view(final(type_vec)@) == strings_view(old(type_vec)@) + type_tokens_in(
            btf_types(*btf),
            a@.target,
            depth as nat,
            old(path)@,
        ).push("[]"@),
        final(path)@ == old(path)@,
    decreases depth, 3nat,
{
    let ghost before = strings_view(type_vec@);
    let element: Vec<String> = type_words(btf, a.target, depth, path);
    extend_strings(type_vec, element);
    let word: String = "[]".to_owned();
    proof {
        lemma_strings_view_push(type_vec@, word);
        assert((before + strings_view(element@)).push(word@) =~= before + strings_view(
            element@,
        ).push("[]"@));
    }
    type_vec.push(word);
}

/// The type under `id` as one string.
fn type_to_string(btf: &Btf, id: u32, depth: u32, path: &mut Vec<u32>) -> (s: String)
    ensures
        s@ == type_string(btf_types(*btf), id, depth as nat, old(path)@),
        final(path)@ == old(path)@,
    decreases depth, 3nat,
{
    let tokens: Vec<String> = type_words(btf, id, depth, path);
    join_strings(&tokens, " ")
}

/// Pushes the single word that stands for a pointer to a function with
/// this prototype: `<ret> (*)( <param>, <param>, ... )`.
fn get_func_proto_type_vec(
    btf: &Btf,
    fp: &TypeInfo,
    type_vec: &mut Vec<String>,
    depth: u32,
    path: &mut Vec<u32>,
)
    ensures
        strings_view(final(type_vec)@) == strings_view(old(type_vec)@).push(
            proto_token(btf_types(*btf), fp@, depth as nat, old(path)@),
        ),
        final(path)@ == old(path)@,
    decreases depth, 4nat,
{
    let ghost g = btf_types(*btf);
    let ghost trail = path@;
    let mut word: String = if fp.target > 0 {
        type_to_string(btf, fp.target, depth, path)
    } else {
        "void".to_owned()
    };
    let mut params: Vec<String> = Vec::new();
    let mut i: usize = 0;
    proof {
        assert(fp@.members.take(0) =~= Seq::empty());
        assert(strings_view(params@) =~= Seq::empty());
    }
    while i < fp.members.len()
        invariant
            i <= fp.members.len(),
            fp@.members.len() == fp.members.len(),
            path@ == trail,
            strings_view(params@) == param_strings(
                btf_types(*btf),
                fp@.members.take(i as int),
                depth as nat,
                trail,
            ),
        decreases fp.members.len() - i,
    {
        let param: String = type_to_string(btf, fp.members[i].type_id, depth, path);
        proof {
            let next = fp@.members.take(i + 1);
            assert(next.drop_last() =~= fp@.members.take(i as int));
            assert(next.last() == fp.members@[i as int]@);
            lemma_strings_view_push(params@, param);
        }
        params.push(param);
        i += 1;
    }
    proof {
        assert(fp@.members.take(fp.members.len() as int) =~= fp@.members);
    }
    let list: String = join_strings(&params, ", ");
    word.append(" (*)( ");
    word.append(list.as_str());
    word.append(" )");
    proof {
        lemma_strings_view_push(type_vec@, word);
    }
    type_vec.push(word);
}

/// Runs the renderer of the terminal type under `id` and pushes its words.
/// `path` holds the arrays and prototypes that are being rendered around
/// this type; one that stands on it is not rendered again.
fn render_terminal(
    btf: &Btf,
    id: u32,
    type_vec: &mut Vec<String>,
    depth: u32,
    path: &mut Vec<u32>,
)
    ensures
        strings_view(final(type_vec)@) == strings_view(old(type_vec)@) + terminal_tokens_in(
            btf_types(*btf),
            id,
            depth as nat,
            old(path)@,
        ),
        final(path)@ == old(path)@,
    decreases depth, 0nat,
{
    let ghost before = strings_view(type_vec@);
    if id == 0 {
        let word: String = "void".to_owned();
        proof {
            lemma_strings_view_push(type_vec@, word);
            assert(before.push(word@) =~= before + seq!["void"@]);
        }
        type_vec.push(word);
        return ;
    }
    let info: TypeInfo = fetch(btf, id);
    match info.kind {
        TypeKind::Void => {
            let word: String = "void".to_owned();
            proof {
                lemma_strings_view_push(type_vec@, word);
                assert(before.push(word@) =~= before + seq!["void"@]);
            }
            type_vec.push(word);
        },
        TypeKind::Int => {
            get_int_type_vec(&info, type_vec);
            proof {
                assert(before.push(info@.name) =~= before + seq![info@.name]);
            }
        },
        TypeKind::Typedef => {
            get_typedef_type_vec(&info, type_vec);
            proof {
                assert(before.push(info@.name) =~= before + seq![info@.name]);
            }
        },
        TypeKind::Enum | TypeKind::Enum64 => {
            get_enum_type_vec(&info, type_vec);
            proof {
                assert(before.push(info@.name) =~= before + seq![info@.name]);
            }
        },
        TypeKind::Struct => {
            get_struct_type_vec(&info, type_vec);
        },
        TypeKind::Union => {
            get_union_type_vec(&info, type_vec);
        },
        TypeKind::Array => {
            if depth > 0 && !seen_before(path, id) {
                path.push(id);
                get_array_type_vec(btf, &info, type_vec, depth - 1, path);
                path.pop();
                proof {
                    assert(path@ =~= old(path)@);
                }
            } else {
                proof {
                    assert(before =~= before + Seq::<Seq<char>>::empty());
                }
            }
        },
        TypeKind::FuncProto => {
            if depth > 0 && !seen_before(path, id) {
                path.push(id);
                get_func_proto_type_vec(btf, &info, type_vec, depth - 1, path);
                path.pop();
                proof {
                    assert(path@ =~= old(path)@);
                    let word = proto_token(
                        btf_types(*btf),
                        info@,
                        (depth - 1) as nat,
                        old(path)@.push(id),
                    );
                    assert(before.push(word) =~= before + seq![word]);
                }
            } else {
                proof {
                    assert(before =~= before + Seq::<Seq<char>>::empty());
                }
            }
        },
        _ => {
            proof {
                assert(before =~= before + Seq::<Seq<char>>::empty());
            }
        },
    }
}

/// The descriptor words of the type under `id`, and the id that a node of
/// this type records; `None` where the type does not unwind.
fn render_type(btf: &Btf, id: u32, depth: u32, path: &mut Vec<u32>) -> (r: Option<
    (Vec<String>, u32),
>)
    ensures
        match r {
            Some((tokens, type_id)) => unwind_spec(btf_types(*btf), id, MAX_DEPTH as nat) is Some
                && strings_view(tokens@) == type_tokens_in(
                btf_types(*btf),
                id,
                depth as nat,
                old(path)@,
            ) && type_id == node_type_id(btf_types(*btf), id),
            None => unwind_spec(btf_types(*btf), id, MAX_DEPTH as nat) is None,
        },
        final(path)@ == old(path)@,
    decreases depth, 1nat,
{
    match unwind(btf, id) {
        None => None,
        Some(u) => {
            let ghost g = btf_types(*btf);
            let ghost quals = strings_view(u.tokens@);
            let ghost trail = path@;
            let mut tokens: Vec<String> = u.tokens;
            render_terminal(btf, u.terminal_id, &mut tokens, depth, path);
            let is_proto: bool = match u.terminal_kind {
                TypeKind::FuncProto => true,
                _ => false,
            };
            if u.pointer_level > 0 && !is_proto {
                let marker: String = pointer_stars(u.pointer_level);
                proof {
                    lemma_strings_view_push(tokens@, marker);
                    let mid = quals + terminal_tokens_in(g, u.terminal_id, depth as nat, trail);
                    assert(mid.push(marker@) =~= mid + seq![stars(u.pointer_level as nat)]);
                }
                tokens.push(marker);
            } else {
                proof {
                    let mid = quals + terminal_tokens_in(g, u.terminal_id, depth as nat, trail);
                    assert(mid =~= mid + Seq::<Seq<char>>::empty());
                }
            }
            let type_id: u32 = match u.terminal_kind {
                TypeKind::Struct | TypeKind::Union | TypeKind::Typedef | TypeKind::Array
                | TypeKind::FuncProto => u.terminal_id,
                _ => 0,
            };
            Some((tokens, type_id))
        },
    }
}

/// The descriptor words of the type under `id`, rendered to the given
/// depth: none where the type does not unwind.
fn type_words(btf: &Btf, id: u32, depth: u32, path: &mut Vec<u32>) -> (words: Vec<String>)
    ensures
        strings_view(words@) == type_tokens_in(btf_types(*btf), id, depth as nat, old(path)@),
        final(path)@ == old(path)@,
    decreases depth, 2nat,
{
    match render_type(btf, id, depth, path) {
        Some((words, _)) => words,
        None => {
            let words: Vec<String> = Vec::new();
            proof {
                assert(strings_view(words@) =~= Seq::empty());
            }
            words
        },
    }
}

/// The descriptor words of the type under `id`, and the id that a node of
/// this type records: no words and zero where the type does not unwind.
pub fn resolve_type_tokens(btf: &Btf, id: u32) -> (r: (Vec<String>, u32))
    ensures
        strings_view(r.0@) == type_tokens(btf_types(*btf), id, MAX_DEPTH as nat),
        r.1 == node_type_id(btf_types(*btf), id),
{
    let mut path: Vec<u32> = Vec::new();
    match render_type(btf, id, MAX_DEPTH, &mut path) {
        Some(rendered) => rendered,
        None => {
            let tokens: Vec<String> = Vec::new();
            proof {
                assert(strings_view(tokens@) =~= Seq::empty());
            }
            (tokens, 0)
        },
    }
}

/// Appends the descriptor words of the type under `id` to the item and
/// records the id of its terminal type. Where the type does not unwind,
/// there is no type information to add, and the item stays as it is.
pub fn resolve_type_id(btf: &Btf, id: u32, param_item: &mut ResolvedBtfItem)
    ensures
        final(param_item)@ == if unwind_spec(btf_types(*btf), id, MAX_DEPTH as nat) is Some {
            ItemView {
                tokens: old(param_item)@.tokens + type_tokens(
                    btf_types(*btf),
                    id,
                    MAX_DEPTH as nat,
                ),
                type_id: node_type_id(btf_types(*btf), id),
                ..old(param_item)@
            }
        } else {
            old(param_item)@
        },
{
    proof {
        lemma_view_children(param_item);
    }
    let mut path: Vec<u32> = Vec::new();
    match render_type(btf, id, MAX_DEPTH, &mut path) {
        Some((tokens, type_id)) => {
            extend_strings(&mut param_item.type_vec, tokens);
            param_item.type_id = type_id;
            proof {
                lemma_view_children(param_item);
            }
        },
        None => {},
    }
}

} // verus!

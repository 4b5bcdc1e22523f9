//! The type graph: what the resolver reads of BTF type information.
//!
//! A [`Btf`] object is opaque to the verifier. Its contents are modelled as a
//! map from type ids to [`TypeRecord`]s, and four small trusted accessors say
//! how the calls into `btf_rs` relate to that map.

use btf_rs::Btf;
use btf_rs::BtfType;
use btf_rs::Type;
use vstd::prelude::*;

verus! {

/// `btf_rs::Btf`, a parsed BTF section together with its base section, if any.
#[verifier::external_type_specification]
#[verifier::external_body]
pub struct ExBtf(btf_rs::Btf);

/// The category of a type in the graph.
#[derive(Clone, Copy, Debug, PartialEq, Eq, Structural)]
pub enum TypeKind {
    Void,
    Int,
    Ptr,
    Array,
    Struct,
    Union,
    Enum,
    Enum64,
    Typedef,
    Volatile,
    Const,
    TypeTag,
    Func,
    FuncProto,
    /// A category that the resolver does not model.
    Other,
    /// No type is stored under the id.
    Missing,
}

/// A member of a struct or union, or a parameter of a function prototype.
pub struct Member {
    pub name: String,
    pub type_id: u32,
}

/// What the graph stores under one type id.
pub struct TypeInfo {
    pub kind: TypeKind,
    /// The declared name; empty for anonymous and unnamed types.
    pub name: String,
    /// The id that the type refers to: the pointee of a pointer, the type
    /// under a qualifier, a tag or a typedef, the element type of an array,
    /// the prototype of a function, the return type of a prototype. Zero
    /// where the type refers to none.
    pub target: u32,
    /// The members of a struct or union, the parameters of a prototype,
    /// in declaration order. Empty for every other category.
    pub members: Vec<Member>,
}

/// Mathematical model of a [`Member`].
pub struct MemberRecord {
    pub name: Seq<char>,
    pub type_id: u32,
}

/// Mathematical model of a [`TypeInfo`].
pub struct TypeRecord {
    pub kind: TypeKind,
    pub name: Seq<char>,
    pub target: u32,
    pub members: Seq<MemberRecord>,
}

/// Mathematical model of a type graph.
pub type Graph = Map<u32, TypeRecord>;

impl View for Member {
    type V = MemberRecord;

    open spec fn view(&self) -> MemberRecord {
        MemberRecord { name: self.name@, type_id: self.type_id }
    }
}

/// The model of a list of members.
pub open spec fn members_view(members: Seq<Member>) -> Seq<MemberRecord> {
    Seq::new(members.len(), |i: int| members[i]@)
}

impl View for TypeInfo {
    type V = TypeRecord;

    open spec fn view(&self) -> TypeRecord {
        TypeRecord {
            kind: self.kind,
            name: self.name@,
            target: self.target,
            members: members_view(self.members@),
        }
    }
}

/// The record that stands for an id under which the graph stores nothing.
pub open spec fn missing_record() -> TypeRecord {
    TypeRecord { kind: TypeKind::Missing, name: Seq::empty(), target: 0, members: Seq::empty() }
}

/// The record under `id`, or [`missing_record`] where the graph has none.
pub open spec fn record_at(g: Graph, id: u32) -> TypeRecord {
    if g.contains_key(id) {
        g[id]
    } else {
        missing_record()
    }
}

/// The types that a BTF object holds, by id: every type that
/// `Btf::resolve_type_by_id` resolves, as a record of plain values.
pub uninterp spec fn btf_types(btf: Btf) -> Map<u32, TypeRecord>;

/// The ids of the types that a BTF object holds under a name, in the order
/// in which `Btf::resolve_ids_by_name` lists them.
pub uninterp spec fn btf_ids_named(btf: Btf, name: Seq<char>) -> Seq<u32>;

/// Calls `Btf::resolve_type_by_id` and tells the variants of `btf_rs::Type`
/// apart. Trusted: the result is the category that the graph model records
/// under `id`, and `Missing` where the id does not resolve.
#[verifier::external_body]
fn kind_at(btf: &Btf, id: u32) -> (kind: TypeKind)
    ensures
        kind == record_at(btf_types(*btf), id).kind,
{
    let Ok(t) = btf.resolve_type_by_id(id) else { return TypeKind::Missing; };
    match t {
        Type::Void => TypeKind::Void, Type::Int(_) => TypeKind::Int,
        Type::Ptr(_) => TypeKind::Ptr, Type::Array(_) => TypeKind::Array,
        Type::Struct(_) => TypeKind::Struct, Type::Union(_) => TypeKind::Union,
        Type::Enum(_) => TypeKind::Enum, Type::Enum64(_) => TypeKind::Enum64,
        Type::Typedef(_) => TypeKind::Typedef, Type::Volatile(_) => TypeKind::Volatile,
        Type::Const(_) => TypeKind::Const, Type::TypeTag(_) => TypeKind::TypeTag,
        Type::Func(_) => TypeKind::Func, Type::FuncProto(_) => TypeKind::FuncProto,
        _ => TypeKind::Other,
    }
}

/// Calls `Btf::resolve_type_by_id` and `Btf::resolve_name` on what it found.
/// Trusted: the result is the name that the graph model records under `id`;
/// it is empty where the id or the name does not resolve, and where the
/// type carries no name.
#[verifier::external_body]
fn name_at(btf: &Btf, id: u32) -> (name: String)
    ensures
        name@ == record_at(btf_types(*btf), id).name,
{
    match btf.resolve_type_by_id(id) {
        Ok(t) => match t.as_btf_type() {
            Some(b) => btf.resolve_name(b).unwrap_or_default(),
            None => String::new(),
        },
        Err(_) => String::new(),
    }
}

/// Calls `Btf::resolve_type_by_id`, then `BtfType::get_type_id`, or
/// `FuncProto::return_type_id` for a prototype. Trusted: the result is the
/// target that the graph model records under `id`; it is zero where the id
/// does not resolve or the type refers to no other.
#[verifier::external_body]
fn target_at(btf: &Btf, id: u32) -> (target: u32)
    ensures
        target == record_at(btf_types(*btf), id).target,
{
    match btf.resolve_type_by_id(id) {
        Ok(Type::FuncProto(p)) => p.return_type_id(),
        Ok(t) => match t.as_btf_type() {
            Some(b) => b.get_type_id().unwrap_or_default(),
            None => 0,
        },
        Err(_) => 0,
    }
}

/// Calls `Btf::resolve_type_by_id` and hands out the members of a struct or
/// union, or the parameters of a prototype, each with its name
/// (`Btf::resolve_name`) and type id (`BtfType::get_type_id`). Trusted: the
/// result is the member list that the graph model records under `id`, in
/// declaration order; it is empty for every other category.
#[verifier::external_body]
fn members_at(btf: &Btf, id: u32) -> (members: Vec<Member>)
    ensures
        members_view(members@) == record_at(btf_types(*btf), id).members,
{
    let named = |name: btf_rs::Result<String>, type_id: Option<u32>| Member {
        name: name.unwrap_or_default(),
        type_id: type_id.unwrap_or_default(),
    };
    match btf.resolve_type_by_id(id) {
        Ok(Type::Struct(s)) | Ok(Type::Union(s)) => {
            s.members.iter().map(|m| named(btf.resolve_name(m), m.get_type_id())).collect()
        },
        Ok(Type::FuncProto(p)) => {
            p.parameters.iter().map(|m| named(btf.resolve_name(m), m.get_type_id())).collect()
        },
        _ => Vec::new(),
    }
}

/// Calls `Btf::resolve_ids_by_name`. Trusted: the result is the list of ids
/// that the model records under `name`; it is empty where the call fails.
#[verifier::external_body]
pub(crate) fn ids_named(btf: &Btf, name: &str) -> (ids: Vec<u32>)
    ensures
        ids@ == btf_ids_named(*btf, name@),
{
    btf.resolve_ids_by_name(name).unwrap_or_default()
}

/// Reads everything the graph stores under `id`.
pub fn fetch(btf: &Btf, id: u32) -> (info: TypeInfo)
    ensures
        info@ == record_at(btf_types(*btf), id),
{
    TypeInfo {
        kind: kind_at(btf, id),
        name: name_at(btf, id),
        target: target_at(btf, id),
        members: members_at(btf, id),
    }
}

} // verus!

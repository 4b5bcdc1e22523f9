//! The indirection unwinder: strips qualifiers and pointers off a type.

use btf_rs::Btf;
use crate::graph::btf_types;
use crate::graph::fetch;
use crate::graph::Graph;
use crate::graph::record_at;
use crate::graph::TypeInfo;
use crate::graph::TypeKind;
use crate::links::follow;
use crate::links::id_space;
use crate::links::lemma_follow_earlier;
use crate::links::lemma_long_chain_runs_in_circle;
use crate::links::lemma_trail_circle;
use crate::links::lemma_trail_step;
use crate::links::on_trail;
use crate::links::runs_in_circle;
use crate::links::seen_before;
use crate::text::lemma_strings_view_push;
use crate::text::strings_view;
use vstd::prelude::*;

verus! {

/// The number of links that one resolution follows in a row, and the depth
/// to which it may descend into element, return and parameter types. A
/// graph holds no more ids than this: only a chain that runs in a circle
/// is longer, and rendering, which descends into no array and no
/// prototype twice, never goes as deep.
pub const MAX_DEPTH: u32 = 0xffff_ffff;

/// Mathematical model of an [`Indirection`].
pub struct Unwound {
    /// The display tokens of the qualifiers, outermost first.
    pub quals: Seq<Seq<char>>,
    /// The number of pointer levels.
    pub pointers: nat,
    /// The id of the first type that is neither a qualifier nor a pointer.
    pub terminal: u32,
}

/// What the unwinder found on the way from a type to its terminal type.
pub struct Indirection {
    /// The display tokens of the qualifiers, outermost first.
    pub tokens: Vec<String>,
    /// The number of pointer levels.
    pub pointer_level: u32,
    /// The id of the first type that is neither a qualifier nor a pointer.
    pub terminal_id: u32,
    /// The category of the terminal type; `Void` for id zero.
    pub terminal_kind: TypeKind,
}

impl View for Indirection {
    type V = Unwound;

    open spec fn view(&self) -> Unwound {
        Unwound {
            quals: strings_view(self.tokens@),
            pointers: self.pointer_level as nat,
            terminal: self.terminal_id,
        }
    }
}

/// Whether a category is a qualifier: it adds a word to a type and nothing
/// else.
pub open spec fn is_qualifier(kind: TypeKind) -> bool {
    kind is Const || kind is Volatile || kind is TypeTag
}

/// The display token of a qualifier.
pub open spec fn qualifier_token(kind: TypeKind, name: Seq<char>) -> Seq<char> {
    if kind is Const {
        "const"@
    } else if kind is Volatile {
        "volatile"@
    } else {
        name
    }
}

/// The category of the type under `id`, where id zero is `void` whatever the
/// graph stores there.
pub open spec fn kind_of(g: Graph, id: u32) -> TypeKind {
    if id == 0 {
        TypeKind::Void
    } else {
        record_at(g, id).kind
    }
}

/// Unwinding, continued from `id` with the qualifiers and pointers that
/// were stripped so far. Every qualifier and every pointer costs one unit of
/// `fuel`. Id zero ends the walk: it is `void` under a pointer and a failure
/// otherwise, as is an id under which the graph stores nothing.
pub open spec fn unwind_from(
    g: Graph,
    id: u32,
    fuel: nat,
    quals: Seq<Seq<char>>,
    pointers: nat,
) -> Option<Unwound>
    decreases fuel,
{
    let rec = record_at(g, id);
    if id == 0 {
        if pointers > 0 {
            Some(Unwound { quals, pointers, terminal: 0 })
        } else {
            None
        }
    } else if rec.kind is Missing {
        None
    } else if is_qualifier(rec.kind) {
        if fuel == 0 {
            None
        } else {
            unwind_from(
                g,
                rec.target,
                (fuel - 1) as nat,
                quals.push(qualifier_token(rec.kind, rec.name)),
                pointers,
            )
        }
    } else if rec.kind is Ptr {
        if fuel == 0 {
            None
        } else {
            unwind_from(g, rec.target, (fuel - 1) as nat, quals, pointers + 1)
        }
    } else {
        Some(Unwound { quals, pointers, terminal: id })
    }
}

/// The result of unwinding the type under `id`.
pub open spec fn unwind_spec(g: Graph, id: u32, fuel: nat) -> Option<Unwound> {
    unwind_from(g, id, fuel, Seq::empty(), 0)
}

/// A type that is neither a qualifier nor a pointer unwinds to itself, with
/// no prefix tokens and no pointer level.
pub proof fn lemma_unwind_terminal(g: Graph, id: u32, fuel: nat)
    requires
        id != 0,
        !is_qualifier(record_at(g, id).kind),
        !(record_at(g, id).kind is Ptr),
        !(record_at(g, id).kind is Missing),
    ensures
        unwind_spec(g, id, fuel) == Some(
            Unwound { quals: Seq::empty(), pointers: 0, terminal: id },
        ),
{
}

/// What was stripped before a walk went on is kept in front of what the
/// walk strips: the qualifiers in front of its qualifiers, the pointer
/// levels on top of its levels.
pub proof fn lemma_unwind_accumulates(
    g: Graph,
    id: u32,
    fuel: nat,
    before: Seq<Seq<char>>,
    levels: nat,
    quals: Seq<Seq<char>>,
    pointers: nat,
)
    ensures
        unwind_from(g, id, fuel, quals, pointers) matches Some(u) ==> unwind_from(
            g,
            id,
            fuel,
            before + quals,
            levels + pointers,
        ) == Some(
            Unwound {
                quals: before + u.quals,
                pointers: levels + u.pointers,
                terminal: u.terminal,
            },
        ),
        levels == 0 && unwind_from(g, id, fuel, quals, pointers) is None ==> unwind_from(
            g,
            id,
            fuel,
            before + quals,
            pointers,
        ) is None,
    decreases fuel,
{
    let rec = record_at(g, id);
    if id != 0 && fuel > 0 {
        if is_qualifier(rec.kind) {
            let token = qualifier_token(rec.kind, rec.name);
            lemma_unwind_accumulates(
                g,
                rec.target,
                (fuel - 1) as nat,
                before,
                levels,
                quals.push(token),
                pointers,
            );
            assert(before + quals.push(token) =~= (before + quals).push(token));
        } else if rec.kind is Ptr {
            lemma_unwind_accumulates(
                g,
                rec.target,
                (fuel - 1) as nat,
                before,
                levels,
                quals,
                pointers + 1,
            );
        }
    }
}

/// A qualifier unwinds like the type under it, with its own token in
/// front.
pub proof fn lemma_unwind_qualifier(g: Graph, id: u32, fuel: nat)
    requires
        id != 0,
        is_qualifier(record_at(g, id).kind),
        fuel > 0,
    ensures
        unwind_spec(g, id, fuel) == match unwind_spec(
            g,
            record_at(g, id).target,
            (fuel - 1) as nat,
        ) {
            Some(u) => Some(
                Unwound {
                    quals: seq![
                        qualifier_token(record_at(g, id).kind, record_at(g, id).name),
                    ] + u.quals,
                    ..u
                },
            ),
            None => None,
        },
{
    let rec = record_at(g, id);
    let token = qualifier_token(rec.kind, rec.name);
    let none = Seq::<Seq<char>>::empty();
    lemma_unwind_accumulates(g, rec.target, (fuel - 1) as nat, seq![token], 0, none, 0);
    assert(seq![token] + none =~= none.push(token));
}

/// A pointer unwinds like its pointee with one level more; a pointer to
/// nothing is a pointer to `void`.
pub proof fn lemma_unwind_pointer(g: Graph, id: u32, fuel: nat)
    requires
        id != 0,
        record_at(g, id).kind is Ptr,
        fuel > 0,
    ensures
        unwind_spec(g, record_at(g, id).target, (fuel - 1) as nat) matches Some(u)
            ==> unwind_spec(g, id, fuel) == Some(Unwound { pointers: u.pointers + 1, ..u }),
        record_at(g, id).target == 0 ==> unwind_spec(g, id, fuel) == Some(
            Unwound { quals: Seq::empty(), pointers: 1, terminal: 0 },
        ),
{
    let rec = record_at(g, id);
    let none = Seq::<Seq<char>>::empty();
    lemma_unwind_accumulates(g, rec.target, (fuel - 1) as nat, none, 1, none, 0);
    assert(none + none =~= none);
    match unwind_spec(g, rec.target, (fuel - 1) as nat) {
        Some(u) => {
            assert(none + u.quals =~= u.quals);
        },
        None => {},
    }
}

/// The terminal of an unwound type is not itself a qualifier or a pointer,
/// and it is `void` only under a pointer.
pub proof fn lemma_unwind_stops_at_terminal(
    g: Graph,
    id: u32,
    fuel: nat,
    quals: Seq<Seq<char>>,
    pointers: nat,
)
    ensures
        unwind_from(g, id, fuel, quals, pointers) matches Some(u) ==> {
            &&& !is_qualifier(kind_of(g, u.terminal))
            &&& !(kind_of(g, u.terminal) is Ptr)
            &&& !(kind_of(g, u.terminal) is Missing)
            &&& u.terminal == 0 ==> u.pointers > 0
            &&& u.pointers >= pointers
            &&& u.pointers - pointers + u.quals.len() - quals.len() <= fuel
            &&& quals.is_prefix_of(u.quals)
        },
    decreases fuel,
{
    let rec = record_at(g, id);
    if id != 0 && fuel > 0 {
        if is_qualifier(rec.kind) {
            lemma_unwind_stops_at_terminal(
                g,
                rec.target,
                (fuel - 1) as nat,
                quals.push(qualifier_token(rec.kind, rec.name)),
                pointers,
            );
        } else if rec.kind is Ptr {
            lemma_unwind_stops_at_terminal(g, rec.target, (fuel - 1) as nat, quals, pointers + 1);
        }
    }
}

/// The categories through which unwinding follows a link: the qualifiers
/// and the pointer.
pub open spec fn unwind_links() -> spec_fn(TypeKind) -> bool {
    |kind: TypeKind| is_qualifier(kind) || kind is Ptr
}

/// Unwinding goes along a chain of links: with fewer links in its budget
/// than the chain has it fails, and otherwise it goes on from the end of
/// the chain with the rest of the budget. Gives what was stripped on the
/// way.
pub proof fn lemma_unwind_along(
    g: Graph,
    id: u32,
    k: nat,
    fuel: nat,
    quals: Seq<Seq<char>>,
    pointers: nat,
) -> (stripped: (Seq<Seq<char>>, nat))
    requires
        follow(g, unwind_links(), id, k) is Some,
    ensures
        fuel < k ==> unwind_from(g, id, fuel, quals, pointers) is None,
        fuel >= k ==> unwind_from(g, id, fuel, quals, pointers) == unwind_from(
            g,
            follow(g, unwind_links(), id, k).unwrap(),
            (fuel - k) as nat,
            stripped.0,
            stripped.1,
        ),
    decreases k,
{
    let rec = record_at(g, id);
    if k == 0 || fuel == 0 {
        (quals, pointers)
    } else if is_qualifier(rec.kind) {
        lemma_unwind_along(
            g,
            rec.target,
            (k - 1) as nat,
            (fuel - 1) as nat,
            quals.push(qualifier_token(rec.kind, rec.name)),
            pointers,
        )
    } else {
        lemma_unwind_along(
            g,
            rec.target,
            (k - 1) as nat,
            (fuel - 1) as nat,
            quals,
            pointers + 1,
        )
    }
}

/// A type that a chain of links leads back to does not unwind, whatever
/// the budget of links.
pub proof fn lemma_unwind_circle(
    g: Graph,
    id: u32,
    k: nat,
    fuel: nat,
    quals: Seq<Seq<char>>,
    pointers: nat,
)
    requires
        k >= 1,
        follow(g, unwind_links(), id, k) == Some(id),
    ensures
        unwind_from(g, id, fuel, quals, pointers) is None,
    decreases fuel,
{
    let stripped = lemma_unwind_along(g, id, k, fuel, quals, pointers);
    if fuel >= k {
        lemma_unwind_circle(g, id, k, (fuel - k) as nat, stripped.0, stripped.1);
    }
}

/// Where the chain of links from a type is not longer than the budget, a
/// larger budget changes nothing.
pub proof fn lemma_unwind_fits(
    g: Graph,
    id: u32,
    fuel: nat,
    extra: nat,
    quals: Seq<Seq<char>>,
    pointers: nat,
)
    requires
        follow(g, unwind_links(), id, fuel + 1) is None,
    ensures
        unwind_from(g, id, fuel + extra, quals, pointers) == unwind_from(
            g,
            id,
            fuel,
            quals,
            pointers,
        ),
    decreases fuel,
{
    let rec = record_at(g, id);
    if id != 0 && (is_qualifier(rec.kind) || rec.kind is Ptr) {
        if fuel == 0 {
            assert(follow(g, unwind_links(), rec.target, 0) is Some);
        } else if is_qualifier(rec.kind) {
            lemma_unwind_fits(
                g,
                rec.target,
                (fuel - 1) as nat,
                extra,
                quals.push(qualifier_token(rec.kind, rec.name)),
                pointers,
            );
        } else {
            lemma_unwind_fits(g, rec.target, (fuel - 1) as nat, extra, quals, pointers + 1);
        }
    }
}

/// The budget of [`MAX_DEPTH`] links is never what makes unwinding fail:
/// a larger budget gives the same result. A chain that is longer runs in
/// a circle, and does not unwind with any budget.
pub proof fn lemma_unwind_budget(g: Graph, id: u32, fuel: nat)
    requires
        fuel >= MAX_DEPTH,
    ensures
        unwind_spec(g, id, fuel) == unwind_spec(g, id, MAX_DEPTH as nat),
        follow(g, unwind_links(), id, id_space()) is Some ==> runs_in_circle(
            g,
            unwind_links(),
            id,
        ) && unwind_spec(g, id, fuel) is None,
{
    let max = MAX_DEPTH as nat;
    let links = unwind_links();
    let none = Seq::<Seq<char>>::empty();
    if follow(g, links, id, max + 1) is None {
        lemma_unwind_fits(g, id, max, (fuel - max) as nat, none, 0);
    } else {
        lemma_long_chain_runs_in_circle(g, links, id, max + 1);
        let (a, b) = choose|a: nat, b: nat|
            a < b < max + 1 && follow(g, links, id, a) is Some && #[trigger] follow(
                g,
                links,
                id,
                a,
            ) == #[trigger] follow(g, links, id, b);
        let back = follow(g, links, id, a).unwrap();
        lemma_follow_earlier(g, links, id, b, a);
        let at_max = lemma_unwind_along(g, id, a, max, none, 0);
        lemma_unwind_circle(g, back, (b - a) as nat, (max - a) as nat, at_max.0, at_max.1);
        let at_fuel = lemma_unwind_along(g, id, a, fuel, none, 0);
        lemma_unwind_circle(g, back, (b - a) as nat, (fuel - a) as nat, at_fuel.0, at_fuel.1);
    }
}

/// Where unwinding fails with a budget of [`MAX_DEPTH`] links, it fails
/// with every budget: the type has no type information, or its chain
/// runs in a circle.
pub proof fn lemma_unwind_fails_with_every_budget(g: Graph, id: u32, fuel: nat)
    requires
        unwind_spec(g, id, MAX_DEPTH as nat) is None,
    ensures
        unwind_spec(g, id, fuel) is None,
{
    let max = MAX_DEPTH as nat;
    let none = Seq::<Seq<char>>::empty();
    if fuel >= max {
        lemma_unwind_budget(g, id, fuel);
    } else if unwind_spec(g, id, fuel) is Some {
        if follow(g, unwind_links(), id, fuel + 1) is Some {
            let stripped = lemma_unwind_along(g, id, fuel + 1, fuel, none, 0);
        } else {
            lemma_unwind_fits(g, id, fuel, (max - fuel) as nat, none, 0);
        }
    }
}

/// Unwinds the type under `type_id`, following at most `fuel` qualifiers
/// and pointers.
fn unwind_bounded(btf: &Btf, type_id: u32, fuel: u32) -> (r: Option<Indirection>)
    ensures
        r matches Some(u) ==> unwind_spec(btf_types(*btf), type_id, fuel as nat) == Some(u@)
            && u.terminal_kind == kind_of(btf_types(*btf), u.terminal_id),
        r is None ==> unwind_spec(btf_types(*btf), type_id, fuel as nat) is None,
{
    let mut id: u32 = type_id;
    let mut left: u32 = fuel;
    let mut tokens: Vec<String> = Vec::new();
    let mut level: u32 = 0;
    // The types that the chain came by: coming by one of them again, it
    // runs in a circle, and the walk ends at once.
    let mut seen: Vec<u32> = Vec::new();
    proof {
        assert(strings_view(tokens@) =~= Seq::empty());
    }
    loop
        invariant
            level <= fuel - left,
            left <= fuel,
            unwind_from(btf_types(*btf), id, left as nat, strings_view(tokens@), level as nat)
                == unwind_spec(btf_types(*btf), type_id, fuel as nat),
            on_trail(btf_types(*btf), unwind_links(), seen@, id),
        decreases left,
    {
        if id == 0 {
            if level > 0 {
                return Some(
                    Indirection {
                        tokens,
                        pointer_level: level,
                        terminal_id: 0,
                        terminal_kind: TypeKind::Void,
                    },
                );
            }
            return None;
        }
        let info: TypeInfo = fetch(btf, id);
        match info.kind {
            TypeKind::Missing => {
                return None;
            },
            TypeKind::Const | TypeKind::Volatile | TypeKind::TypeTag | TypeKind::Ptr => {
                if left == 0 {
                    return None;
                }
                if seen_before(&seen, id) {
                    proof {
                        let k = lemma_trail_circle(btf_types(*btf), unwind_links(), seen@, id);
                        lemma_unwind_circle(
                            btf_types(*btf),
                            id,
                            k,
                            left as nat,
                            strings_view(tokens@),
                            level as nat,
                        );
                    }
                    return None;
                }
            },
            _ => {
                return Some(
                    Indirection {
                        tokens,
                        pointer_level: level,
                        terminal_id: id,
                        terminal_kind: info.kind,
                    },
                );
            },
        }
        match info.kind {
            TypeKind::Const => {
                let word: String = "const".to_owned();
                proof {
                    lemma_strings_view_push(tokens@, word);
                }
                tokens.push(word);
            },
            TypeKind::Volatile => {
                let word: String = "volatile".to_owned();
                proof {
                    lemma_strings_view_push(tokens@, word);
                }
                tokens.push(word);
            },
            TypeKind::TypeTag => {
                proof {
                    lemma_strings_view_push(tokens@, info.name);
                }
                tokens.push(info.name);
            },
            _ => {
                level = level + 1;
            },
        }
        proof {
            lemma_trail_step(btf_types(*btf), unwind_links(), seen@, id);
        }
        seen.push(id);
        id = info.target;
        left = left - 1;
    }
}

/// Unwinds the type under `type_id`: strips qualifiers and pointers in
/// order, and reports the qualifiers' tokens, the number of pointer levels,
/// and the id and category of the terminal type. `None` where no type
/// information is to be had: the id is zero, or the chain ends in an id
/// that the graph does not hold, or runs in a circle. The length of the
/// chain is never the reason: what fails here fails with every budget of
/// links, and what succeeds gives the same with every larger one.
pub fn unwind(btf: &Btf, type_id: u32) -> (r: Option<Indirection>)
    ensures
        r matches Some(u) ==> unwind_spec(btf_types(*btf), type_id, MAX_DEPTH as nat) == Some(u@)
            && u.terminal_kind == kind_of(btf_types(*btf), u.terminal_id),
        r is None ==> unwind_spec(btf_types(*btf), type_id, MAX_DEPTH as nat) is None,
        r is None ==> forall|fuel: nat|
            (#[trigger] unwind_spec(btf_types(*btf), type_id, fuel)) is None,
        forall|fuel: nat|
            fuel >= MAX_DEPTH ==> #[trigger] unwind_spec(btf_types(*btf), type_id, fuel)
                == unwind_spec(btf_types(*btf), type_id, MAX_DEPTH as nat),
{
    let r = unwind_bounded(btf, type_id, MAX_DEPTH);
    proof {
        let g = btf_types(*btf);
        assert forall|fuel: nat| fuel >= MAX_DEPTH implies #[trigger] unwind_spec(
            g,
            type_id,
            fuel,
        ) == unwind_spec(g, type_id, MAX_DEPTH as nat) by {
            lemma_unwind_budget(g, type_id, fuel);
        }
        if r is None {
            assert forall|fuel: nat| (#[trigger] unwind_spec(g, type_id, fuel)) is None by {
                lemma_unwind_fails_with_every_budget(g, type_id, fuel);
            }
        }
    }
    r
}

} // verus!

//! The cache of type graphs, one for each module that was asked for.
//!
//! A graph is costly to load and does not change while the kernel runs:
//! what was put into the cache stays there, and is never replaced.

use btf_rs::Btf;
use crate::text::same_text;
use vstd::prelude::*;

verus! {

/// A module's name and its type graph.
pub struct CacheEntry {
    pub module: String,
    pub graph: Btf,
}

/// The type graphs that were loaded, by the name of their module.
pub struct GraphCache {
    entries: Vec<CacheEntry>,
}

/// The position of the entry of a module among the entries from position
/// `i` on.
pub open spec fn entry_from(entries: Seq<CacheEntry>, module: Seq<char>, i: int) -> Option<int>
    decreases entries.len() - i,
{
    if i < 0 || i >= entries.len() {
        None
    } else if entries[i].module@ == module {
        Some(i)
    } else {
        entry_from(entries, module, i + 1)
    }
}

/// The first entry of a module, if there is any, is an entry of that
/// module; where there is none, no entry is.
pub proof fn lemma_entry_from(entries: Seq<CacheEntry>, module: Seq<char>, i: int)
    requires
        0 <= i <= entries.len(),
    ensures
        match entry_from(entries, module, i) {
            Some(k) => i <= k < entries.len() && entries[k].module@ == module && forall|j: int|
                i <= j < k ==> entries[j].module@ != module,
            None => forall|j: int| i <= j < entries.len() ==> entries[j].module@ != module,
        },
    decreases entries.len() - i,
{
    if i < entries.len() && entries[i].module@ != module {
        lemma_entry_from(entries, module, i + 1);
    }
}

/// One more entry at the end does not change where a module is found,
/// unless it was not found at all and the entry is its own.
pub proof fn lemma_entry_from_push(
    entries: Seq<CacheEntry>,
    entry: CacheEntry,
    module: Seq<char>,
    i: int,
)
    requires
        0 <= i <= entries.len(),
    ensures
        entry_from(entries.push(entry), module, i) == match entry_from(entries, module, i) {
            Some(k) => Some(k),
            None => if entry.module@ == module {
                Some(entries.len() as int)
            } else {
                None
            },
        },
    decreases entries.len() - i,
{
    let more = entries.push(entry);
    if i < entries.len() {
        assert(more[i] == entries[i]);
        if entries[i].module@ != module {
            lemma_entry_from_push(entries, entry, module, i + 1);
        }
    } else {
        assert(more[i] == entry);
        assert(entry_from(more, module, i + 1) is None);
    }
}

impl GraphCache {
    /// The graphs in the cache, by the name of their module.
    pub closed spec fn view(&self) -> Map<Seq<char>, Btf> {
        Map::new(
            |module: Seq<char>| entry_from(self.entries@, module, 0) is Some,
            |module: Seq<char>| self.entries@[entry_from(self.entries@, module, 0).unwrap()].graph,
        )
    }

    /// A cache that holds nothing.
    pub fn new() -> (cache: GraphCache)
        ensures
            cache@ == Map::<Seq<char>, Btf>::empty(),
    {
        let cache = GraphCache { entries: Vec::new() };
        proof {
            assert(cache@ =~= Map::<Seq<char>, Btf>::empty());
        }
        cache
    }

    /// The graph of a module, if the cache holds it.
    pub fn get(&self, module: &str) -> (graph: Option<&Btf>)
        ensures
            match graph {
                Some(g) => self@.contains_key(module@) && self@[module@] == *g,
                None => !self@.contains_key(module@),
            },
    {
        let mut i: usize = 0;
        while i < self.entries.len()
            invariant
                i <= self.entries.len(),
                entry_from(self.entries@, module@, i as int) == entry_from(
                    self.entries@,
                    module@,
                    0,
                ),
            decreases self.entries.len() - i,
        {
            if same_text(self.entries[i].module.as_str(), module) {
                return Some(&self.entries[i].graph);
            }
            i += 1;
        }
        None
    }

    /// Puts the graph of a module into the cache, unless the cache holds
    /// one for that module already: then it stays as it is. Tells whether
    /// the graph was put in. Nothing ever leaves the cache.
    pub fn insert_if_absent(&mut self, module: String, graph: Btf) -> (inserted: bool)
        ensures
            inserted == !old(self)@.contains_key(module@),
            final(self)@ == if inserted {
                old(self)@.insert(module@, graph)
            } else {
                old(self)@
            },
    {
        if self.get(module.as_str()).is_some() {
            return false;
        }
        let ghost before = self.entries@;
        let entry = CacheEntry { module, graph };
        self.entries.push(entry);
        proof {
            let after = self.entries@;
            assert forall|name: Seq<char>|
                #![trigger entry_from(after, name, 0)]
                entry_from(after, name, 0) == match entry_from(before, name, 0) {
                    Some(k) => Some(k),
                    None => if entry.module@ == name {
                        Some(before.len() as int)
                    } else {
                        None
                    },
                } by {
                lemma_entry_from_push(before, entry, name, 0);
            }
            assert forall|name: Seq<char>|
                #![trigger entry_from(before, name, 0)]
                entry_from(before, name, 0) is Some implies after[entry_from(
                    before,
                    name,
                    0,
                ).unwrap()] == before[entry_from(before, name, 0).unwrap()] by {
                lemma_entry_from(before, name, 0);
            }
            assert(self@ =~= old(self)@.insert(entry.module@, entry.graph));
        }
        true
    }
}

} // verus!

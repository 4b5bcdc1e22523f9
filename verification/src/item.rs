//! The node type that every resolution produces.

use crate::text::strings_view;
use vstd::prelude::*;

verus! {

/// A resolved function, parameter, member or type.
#[derive(Debug)]
pub struct ResolvedBtfItem {
    /// The name of the field, parameter or function.
    pub name: String,
    /// Descriptor words, read from the outside in: qualifiers, the name of
    /// the terminal type, and the pointer marker last.
    pub type_vec: Vec<String>,
    /// The id of the first type under the qualifiers and pointers, where
    /// resolution can go on from it, and zero where it cannot. For the
    /// root node of a function, the id of its prototype.
    pub type_id: u32,
    /// The members of a struct or union, or the parameters of a function.
    pub children_vec: Vec<ResolvedBtfItem>,
}

/// Mathematical model of a [`ResolvedBtfItem`].
pub struct ItemView {
    pub name: Seq<char>,
    pub tokens: Seq<Seq<char>>,
    pub type_id: u32,
    pub children: Seq<ItemView>,
}

impl View for ResolvedBtfItem {
    type V = ItemView;

    open spec fn view(&self) -> ItemView
        decreases self,
    {
        ItemView {
            name: self.name@,
            tokens: strings_view(self.type_vec@),
            type_id: self.type_id,
            children: children_view(self.children_vec@),
        }
    }
}

/// The models of a node's children, in order.
pub open spec fn children_view(items: Seq<ResolvedBtfItem>) -> Seq<ItemView>
    decreases items,
{
    if items.len() == 0 {
        Seq::empty()
    } else {
        children_view(items.drop_last()).push(items.last().view())
    }
}

/// [`children_view`] takes the model of each item.
pub proof fn lemma_children_view(items: Seq<ResolvedBtfItem>)
    ensures
        children_view(items) == items_view(items),
    decreases items.len(),
{
    if items.len() > 0 {
        lemma_children_view(items.drop_last());
        assert(children_view(items) == children_view(items.drop_last()).push(items.last().view()));
        assert(items_view(items.drop_last()).push(items.last()@) =~= items_view(items));
    } else {
        assert(children_view(items) =~= items_view(items));
    }
}

/// The children of a node's model are the models of its children.
pub proof fn lemma_view_children(item: &ResolvedBtfItem)
    ensures
        item@.name == item.name@,
        item@.tokens == strings_view(item.type_vec@),
        item@.type_id == item.type_id,
        item@.children == items_view(item.children_vec@),
{
    lemma_children_view(item.children_vec@);
}

/// The model of a list of items.
pub open spec fn items_view(items: Seq<ResolvedBtfItem>) -> Seq<ItemView> {
    Seq::new(items.len(), |i: int| items[i]@)
}

/// The node without a name, a type or children.
pub open spec fn empty_item() -> ItemView {
    ItemView { name: Seq::empty(), tokens: Seq::empty(), type_id: 0, children: Seq::empty() }
}

/// A copy of a list of strings.
pub fn clone_strings(strings: &Vec<String>) -> (copy: Vec<String>)
    ensures
        strings_view(copy@) == strings_view(strings@),
{
    let mut copy: Vec<String> = Vec::new();
    let mut i: usize = 0;
    while i < strings.len()
        invariant
            i <= strings.len(),
            copy.len() == i,
            forall|j: int| 0 <= j < i ==> copy@[j]@ == strings@[j]@,
        decreases strings.len() - i,
    {
        copy.push(strings[i].clone());
        i += 1;
    }
    proof {
        assert(strings_view(copy@) =~= strings_view(strings@));
    }
    copy
}

impl Clone for ResolvedBtfItem {
    fn clone(&self) -> (copy: Self)
        ensures
            copy@ == self@,
        decreases self,
    {
        let mut children: Vec<ResolvedBtfItem> = Vec::new();
        let mut i: usize = 0;
        while i < self.children_vec.len()
            invariant
                i <= self.children_vec.len(),
                children.len() == i,
                forall|j: int| 0 <= j < i ==> children@[j]@ == self.children_vec@[j]@,
            decreases self.children_vec.len() - i,
        {
            children.push(self.children_vec[i].clone());
            i += 1;
        }
        let copy = ResolvedBtfItem {
            name: self.name.clone(),
            type_vec: clone_strings(&self.type_vec),
            type_id: self.type_id,
            children_vec: children,
        };
        proof {
            lemma_view_children(&copy);
            lemma_view_children(self);
            assert(items_view(copy.children_vec@) =~= items_view(self.children_vec@));
        }
        copy
    }
}

impl Default for ResolvedBtfItem {
    fn default() -> (item: Self)
        ensures
            item@ == empty_item(),
    {
        let item = ResolvedBtfItem {
            name: String::new(),
            type_vec: Vec::new(),
            type_id: 0,
            children_vec: Vec::new(),
        };
        proof {
            assert(item@.tokens =~= Seq::empty());
            assert(item@.children =~= Seq::empty());
        }
        item
    }
}

} // verus!

//! Resolved items as text: for hover boxes and completion lists.

use crate::item::items_view;
use crate::item::ItemView;
use crate::item::lemma_view_children;
use crate::item::ResolvedBtfItem;
use crate::text::join;
use crate::text::join_strings;
use crate::text::same_text;
use crate::text::strings_view;
use crate::text::to_chars;
use vstd::prelude::*;

verus! {

/// An item as a declaration: the words of its type and its name, with
/// blanks between them.
pub open spec fn item_text(item: ItemView) -> Seq<char> {
    join(item.tokens, " "@) + " "@ + item.name
}

/// An item as a declaration: the words of its type and its name.
pub fn btf_item_to_str(item: &ResolvedBtfItem) -> (s: String)
    ensures
        s@ == item_text(item@),
{
    proof {
        lemma_view_children(item);
    }
    let mut s: String = join_strings(&item.type_vec, " ");
    s.append(" ");
    s.append(item.name.as_str());
    s
}

/// The words, each with a blank behind it.
pub open spec fn spaced(tokens: Seq<Seq<char>>) -> Seq<char>
    decreases tokens.len(),
{
    if tokens.len() == 0 {
        Seq::empty()
    } else {
        spaced(tokens.drop_last()) + tokens.last() + " "@
    }
}

/// The line that lists a child: the words of its type, each with a blank
/// behind it, and its name.
pub open spec fn child_line(child: ItemView) -> Seq<char> {
    spaced(child.tokens) + child.name
}

/// The lines that list the children of an item.
pub open spec fn child_lines(children: Seq<ItemView>) -> Seq<Seq<char>> {
    Seq::new(children.len(), |i: int| child_line(children[i]))
}

/// The line that lists one child.
pub fn child_to_str(child: &ResolvedBtfItem) -> (line: String)
    ensures
        line@ == child_line(child@),
{
    proof {
        lemma_view_children(child);
    }
    let mut line: String = String::new();
    let mut i: usize = 0;
    proof {
        assert(strings_view(child.type_vec@).take(0) =~= Seq::empty());
    }
    while i < child.type_vec.len()
        invariant
            i <= child.type_vec.len(),
            line@ == spaced(strings_view(child.type_vec@).take(i as int)),
        decreases child.type_vec.len() - i,
    {
        proof {
            let next = strings_view(child.type_vec@).take(i + 1);
            assert(next.drop_last() =~= strings_view(child.type_vec@).take(i as int));
            assert(next.last() == child.type_vec@[i as int]@);
        }
        line.append(child.type_vec[i].as_str());
        line.append(" ");
        i += 1;
    }
    proof {
        assert(strings_view(child.type_vec@).take(child.type_vec.len() as int) =~= strings_view(
            child.type_vec@,
        ));
    }
    line.append(child.name.as_str());
    line
}

/// One line for each child of an item: the words of its type and its
/// name, with blanks between them.
pub fn children_to_vec_str(resolved: &ResolvedBtfItem) -> (results: Vec<String>)
    ensures
        strings_view(results@) == child_lines(resolved@.children),
{
    proof {
        lemma_view_children(resolved);
    }
    let mut results: Vec<String> = Vec::new();
    let mut i: usize = 0;
    while i < resolved.children_vec.len()
        invariant
            i <= resolved.children_vec.len(),
            resolved@.children == items_view(resolved.children_vec@),
            results.len() == i,
            forall|k: int| 0 <= k < i ==> results@[k]@ == child_line(resolved.children_vec@[k]@),
        decreases resolved.children_vec.len() - i,
    {
        let line: String = child_to_str(&resolved.children_vec[i]);
        results.push(line);
        i += 1;
    }
    proof {
        assert(strings_view(results@) =~= child_lines(resolved@.children));
    }
    results
}

/// Whether the last child of the item stands for the return value.
pub open spec fn has_return(item: ItemView) -> bool {
    item.children.len() > 0 && item.children.last().name == "retval"@
}

/// The parameters of a function's root node: its children but for the
/// return value.
pub open spec fn parameters_of(item: ItemView) -> Seq<ItemView> {
    if has_return(item) {
        item.children.drop_last()
    } else {
        item.children
    }
}

/// A parameter in a prototype: its type and its name, with a blank between
/// them unless the type ends in an asterisk.
pub open spec fn parameter_text(param: ItemView) -> Seq<char> {
    let ty = join(param.tokens, " "@);
    if ty.len() > 0 && ty.last() == '*' {
        ty + param.name
    } else {
        ty + " "@ + param.name
    }
}

/// The parameters of a prototype, each as text.
pub open spec fn parameter_texts(params: Seq<ItemView>) -> Seq<Seq<char>> {
    Seq::new(params.len(), |i: int| parameter_text(params[i]))
}

/// The type that a function's root node returns: that of its last child
/// where the child stands for the return value, and `void` otherwise.
pub open spec fn return_text(item: ItemView) -> Seq<char> {
    if has_return(item) {
        join(item.children.last().tokens, " "@)
    } else {
        "void"@
    }
}

/// The prototype of a function as C writes it:
/// `<ret> <name>(<type> <param>, ...);`.
pub open spec fn proto_text(item: ItemView) -> Seq<char> {
    return_text(item) + " "@ + item.name + "("@ + join(
        parameter_texts(parameters_of(item)),
        ", "@,
    ) + ");"@
}

/// A parameter in a prototype.
pub fn parameter_to_str(param: &ResolvedBtfItem) -> (s: String)
    ensures
        s@ == parameter_text(param@),
{
    proof {
        lemma_view_children(param);
    }
    let mut s: String = join_strings(&param.type_vec, " ");
    let chars: Vec<char> = to_chars(s.as_str());
    if !(chars.len() > 0 && chars[chars.len() - 1] == '*') {
        s.append(" ");
    }
    s.append(param.name.as_str());
    s
}

/// The prototype of a resolved function as C writes it. The return type
/// is that of the last child if it is named `retval`, and `void`
/// otherwise; the other children are the parameters.
pub fn func_proto_str(item: &ResolvedBtfItem) -> (s: String)
    ensures
        s@ == proto_text(item@),
{
    proof {
        lemma_view_children(item);
    }
    let params: &Vec<ResolvedBtfItem> = &item.children_vec;
    let mut l: usize = params.len();
    let mut s: String = String::new();
    if l > 0 && same_text(params[l - 1].name.as_str(), "retval") {
        proof {
            lemma_view_children(&params[l - 1]);
        }
        s = join_strings(&params[l - 1].type_vec, " ");
        l = l - 1;
    } else {
        s.append("void");
    }
    s.append(" ");
    s.append(item.name.as_str());
    s.append("(");
    let mut texts: Vec<String> = Vec::new();
    let mut i: usize = 0;
    while i < l
        invariant
            i <= l <= params.len(),
            texts.len() == i,
            forall|k: int| 0 <= k < i ==> texts@[k]@ == parameter_text(params@[k]@),
        decreases l - i,
    {
        let text: String = parameter_to_str(&params[i]);
        texts.push(text);
        i += 1;
    }
    proof {
        assert(strings_view(texts@) =~= parameter_texts(parameters_of(item@)));
    }
    let list: String = join_strings(&texts, ", ");
    s.append(list.as_str());
    s.append(");");
    s
}

} // verus!

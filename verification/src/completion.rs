//! Completion lists: probes from the list of available traces, and the
//! arguments of a probe.

use crate::bytes::byte_head;
use crate::bytes::head_chars;
use crate::lines::lines_of;
use crate::probe::argument_source;
use crate::text::ends_with;
use crate::lines::text_lines;
use crate::providers::find_provider;
use crate::providers::provider_names;
use crate::providers::provider_of;
use crate::providers::ProviderMatch;
use crate::providers::providers;
use crate::syntax::argument_at;
use crate::syntax::is_argument;
use crate::syntax::SyntaxLocation;
use crate::text::join;
use crate::text::join_strings;
use crate::text::same_text;
use crate::text::split;
use crate::text::split_text;
use crate::text::starts_with;
use crate::text::strings_view;
use crate::text::trim;
use crate::text::trim_text;
use vstd::prelude::*;

verus! {

/// The kind of a completion item that names a function.
pub const KIND_FUNCTION: u32 = 3;

/// The kind of a completion item that names a field.
pub const KIND_FIELD: u32 = 5;

/// The kind of a completion item that names a module.
pub const KIND_MODULE: u32 = 9;

/// A list of traces holds this many items and one more, and is marked
/// incomplete when it does.
pub const MAX_TRACE_ITEMS: usize = 200;

/// An entry of a completion list.
pub struct CompletionItem {
    pub label: String,
    pub kind: u32,
    /// The line that the entry was made from: a trace, or the declaration
    /// of an argument.
    pub source: String,
}

/// Mathematical model of a [`CompletionItem`].
pub struct ItemModel {
    pub label: Seq<char>,
    pub kind: u32,
    pub source: Seq<char>,
}

impl View for CompletionItem {
    type V = ItemModel;

    open spec fn view(&self) -> ItemModel {
        ItemModel { label: self.label@, kind: self.kind, source: self.source@ }
    }
}

/// The model of a list of completion items.
pub open spec fn items_model(items: Seq<CompletionItem>) -> Seq<ItemModel> {
    Seq::new(items.len(), |i: int| items[i]@)
}

/// A completion list.
pub struct CompletionList {
    pub items: Vec<CompletionItem>,
    /// Whether the list was cut short.
    pub is_incomplete: bool,
}

/// Mathematical model of a [`CompletionList`].
pub struct ListModel {
    pub items: Seq<ItemModel>,
    pub is_incomplete: bool,
}

impl View for CompletionList {
    type V = ListModel;

    open spec fn view(&self) -> ListModel {
        ListModel { items: items_model(self.items@), is_incomplete: self.is_incomplete }
    }
}

/// Whether the provider's probes are listed under `kfunc`.
pub open spec fn listed_as_kfunc(provider: Seq<char>) -> bool {
    provider == "kretprobe"@ || provider == "kretfunc"@ || provider == "fentry"@ || provider
        == "fexit"@
}

/// The fields that traces are searched by: those of the line, with the
/// first replaced by the provider's full name where the line gives the
/// short one, and by `kfunc` for the providers whose probes are listed
/// under it.
pub open spec fn search_fields(line: Seq<char>, provider: Option<Seq<char>>) -> Seq<Seq<char>> {
    let fields = split(line, ':');
    let first = match provider {
        Some(name) => name,
        None => fields[0],
    };
    if listed_as_kfunc(first) {
        fields.update(0, "kfunc"@)
    } else {
        fields.update(0, first)
    }
}

/// The number of fields at the start, from position `i` on, that two
/// lists have in common.
pub open spec fn common_fields(a: Seq<Seq<char>>, b: Seq<Seq<char>>, i: int) -> int
    decreases a.len() - i,
{
    if 0 <= i < a.len() && i < b.len() && a[i] == b[i] {
        common_fields(a, b, i + 1)
    } else {
        i
    }
}

/// The entry that a trace adds to the list for the fields searched by:
/// none unless the trimmed trace begins with the trimmed search line and
/// has a field behind those it shares with the search; that field is the
/// label, and the entry names a function if it is the last field of the
/// trace and a module if it is not.
pub open spec fn trace_entry(trace: Seq<char>, search: Seq<Seq<char>>) -> Option<ItemModel> {
    let fields = split(trace, ':');
    let shared = common_fields(fields, search, 0);
    if trim(join(search, seq![':'])).is_prefix_of(trim(trace)) && shared < fields.len() {
        Some(
            ItemModel {
                label: fields[shared],
                kind: if shared == fields.len() - 1 {
                    KIND_FUNCTION
                } else {
                    KIND_MODULE
                },
                source: trace,
            },
        )
    } else {
        None
    }
}

/// Whether an entry of the list carries the label.
pub open spec fn has_label(items: Seq<ItemModel>, label: Seq<char>) -> bool {
    exists|k: int| 0 <= k < items.len() && #[trigger] items[k].label == label
}

/// The list that the traces from position `i` on add to the entries that
/// were collected so far. A trace adds its entry unless the list has one
/// with the same label. The list is cut short, and marked incomplete,
/// when it has grown beyond [`MAX_TRACE_ITEMS`].
pub open spec fn collect_from(
    traces: Seq<Seq<char>>,
    search: Seq<Seq<char>>,
    i: int,
    items: Seq<ItemModel>,
) -> ListModel
    decreases traces.len() - i,
{
    if i < 0 || i >= traces.len() {
        ListModel { items, is_incomplete: false }
    } else {
        match trace_entry(traces[i], search) {
            Some(entry) => if has_label(items, entry.label) {
                collect_from(traces, search, i + 1, items)
            } else if items.len() >= MAX_TRACE_ITEMS {
                ListModel { items: items.push(entry), is_incomplete: true }
            } else {
                collect_from(traces, search, i + 1, items.push(entry))
            },
            None => collect_from(traces, search, i + 1, items),
        }
    }
}

/// The completion list for a line that names a provider: the entries of
/// the traces, in the order of the traces.
pub open spec fn trace_list(traces: Seq<char>, line: Seq<char>, found: ProviderMatch) -> ListModel {
    let provider = if found.short {
        Some(provider_names()[found.index as int])
    } else {
        None
    };
    collect_from(lines_of(traces), search_fields(line, provider), 0, Seq::empty())
}

/// Whether no two entries of the list carry the same label.
pub open spec fn distinct_labels(items: Seq<ItemModel>) -> bool {
    forall|i: int, j: int| 0 <= i < j < items.len() ==> items[i].label != items[j].label
}

/// A collected list holds no label twice and at most one entry more than
/// [`MAX_TRACE_ITEMS`]; it is incomplete exactly when it holds that many.
pub proof fn lemma_collect_from(
    traces: Seq<Seq<char>>,
    search: Seq<Seq<char>>,
    i: int,
    items: Seq<ItemModel>,
)
    requires
        distinct_labels(items),
        items.len() <= MAX_TRACE_ITEMS,
    ensures
        distinct_labels(collect_from(traces, search, i, items).items),
        collect_from(traces, search, i, items).items.len() <= MAX_TRACE_ITEMS + 1,
        collect_from(traces, search, i, items).is_incomplete <==> collect_from(
            traces,
            search,
            i,
            items,
        ).items.len() == MAX_TRACE_ITEMS + 1,
        items.is_prefix_of(collect_from(traces, search, i, items).items),
    decreases traces.len() - i,
{
    if 0 <= i < traces.len() {
        match trace_entry(traces[i], search) {
            Some(entry) => {
                if has_label(items, entry.label) {
                    lemma_collect_from(traces, search, i + 1, items);
                } else {
                    let more = items.push(entry);
                    assert forall|a: int, b: int| 0 <= a < b < more.len() implies more[a].label
                        != more[b].label by {
                        if b == items.len() {
                            assert(items[a].label != entry.label);
                        }
                    }
                    if items.len() < MAX_TRACE_ITEMS {
                        lemma_collect_from(traces, search, i + 1, more);
                    }
                }
            },
            None => {
                lemma_collect_from(traces, search, i + 1, items);
            },
        }
    }
}

/// Whether an entry of the list carries the label.
pub fn contains_label(items: &Vec<CompletionItem>, label: &str) -> (found: bool)
    ensures
        found == has_label(items_model(items@), label@),
{
    let mut i: usize = 0;
    while i < items.len()
        invariant
            i <= items.len(),
            forall|k: int| 0 <= k < i ==> items_model(items@)[k].label != label@,
        decreases items.len() - i,
    {
        if same_text(items[i].label.as_str(), label) {
            proof {
                assert(items_model(items@)[i as int].label == label@);
            }
            return true;
        }
        i += 1;
    }
    false
}

/// The number of fields at the start that two lists have in common.
pub fn count_common_fields(a: &Vec<String>, b: &Vec<String>) -> (shared: usize)
    ensures
        shared == common_fields(strings_view(a@), strings_view(b@), 0),
        shared <= a.len(),
        shared <= b.len(),
{
    let mut i: usize = 0;
    while i < a.len() && i < b.len() && same_text(a[i].as_str(), b[i].as_str())
        invariant
            i <= a.len(),
            i <= b.len(),
            common_fields(strings_view(a@), strings_view(b@), i as int) == common_fields(
                strings_view(a@),
                strings_view(b@),
                0,
            ),
        decreases a.len() - i,
    {
        i += 1;
    }
    i
}

/// The fields that traces are searched by.
pub fn search_line_fields(line_str: &str, provider: Option<&str>) -> (fields: Vec<String>)
    ensures
        strings_view(fields@) == search_fields(
            line_str@,
            match provider {
                Some(name) => Some(name@),
                None => None,
            },
        ),
        fields.len() >= 1,
{
    let mut fields: Vec<String> = split_text(line_str, ':');
    let ghost old_fields = strings_view(fields@);
    match provider {
        Some(name) => {
            fields[0] = name.to_owned();
        },
        None => {},
    }
    let first: &str = fields[0].as_str();
    if same_text(first, "kretprobe") || same_text(first, "kretfunc") || same_text(first, "fentry")
        || same_text(first, "fexit") {
        fields[0] = "kfunc".to_owned();
    }
    proof {
        let first = match provider {
            Some(name) => name@,
            None => old_fields[0],
        };
        if listed_as_kfunc(first) {
            assert(strings_view(fields@) =~= old_fields.update(0, "kfunc"@));
        } else {
            assert(strings_view(fields@) =~= old_fields.update(0, first));
        }
    }
    fields
}

/// The entry that a trace adds to the list.
fn trace_to_item(trace: &str, search: &Vec<String>, search_line: &str) -> (entry: Option<
    CompletionItem,
>)
    requires
        search_line@ == trim(join(strings_view(search@), seq![':'])),
    ensures
        match entry {
            Some(item) => trace_entry(trace@, strings_view(search@)) == Some(item@),
            None => trace_entry(trace@, strings_view(search@)) is None,
        },
{
    if !starts_with(trim_text(trace), search_line) {
        return None;
    }
    let mut fields: Vec<String> = split_text(trace, ':');
    let shared: usize = count_common_fields(&fields, search);
    if fields.len() <= shared {
        return None;
    }
    let kind: u32 = if shared == fields.len() - 1 {
        KIND_FUNCTION
    } else {
        KIND_MODULE
    };
    let ghost all = strings_view(fields@);
    let label: String = fields.swap_remove(shared);
    proof {
        assert(all[shared as int] == label@);
    }
    Some(CompletionItem { label, kind, source: trace.to_owned() })
}

/// Lists what can follow on a line that names a probe, from the list of
/// available traces. `None` where the line names no provider. A trace
/// takes part where it begins with the line, read with the provider's
/// full name; it adds the first of its fields that the line does not give,
/// as a module, or as a function if it is the trace's last field. Every
/// label is listed once. The list ends, marked incomplete, with the entry
/// after the two hundredth.
pub fn complete_probes(traces: &str, line_str: &str) -> (list: Option<CompletionList>)
    ensures
        match list {
            Some(l) => provider_of(line_str@) matches Some(found) && l@ == trace_list(
                traces@,
                line_str@,
                found,
            ),
            None => provider_of(line_str@) is None,
        },
        list matches Some(l) ==> distinct_labels(l@.items) && l.items.len() <= MAX_TRACE_ITEMS + 1
            && (l.is_incomplete <==> l.items.len() == MAX_TRACE_ITEMS + 1),
{
    let found: ProviderMatch = match find_provider(line_str) {
        Some(found) => found,
        None => {
            return None;
        },
    };
    let names: Vec<String> = providers();
    proof {
        assert(provider_names()[found.index as int] == names@[found.index as int]@);
    }
    let search: Vec<String> = if found.short {
        search_line_fields(line_str, Some(names[found.index].as_str()))
    } else {
        search_line_fields(line_str, None)
    };
    proof {
        reveal_strlit(":");
        assert(":"@ =~= seq![':']);
    }
    let joined: String = join_strings(&search, ":");
    let search_line: &str = trim_text(joined.as_str());
    let lines: Vec<String> = text_lines(traces);
    let mut items: Vec<CompletionItem> = Vec::new();
    let mut i: usize = 0;
    proof {
        assert(items_model(items@) =~= Seq::empty());
    }
    while i < lines.len()
        invariant
            i <= lines.len(),
            items.len() <= MAX_TRACE_ITEMS,
            search_line@ == trim(join(strings_view(search@), seq![':'])),
            provider_of(line_str@) == Some(found),
            strings_view(lines@) == lines_of(traces@),
            strings_view(search@) == search_fields(
                line_str@,
                if found.short {
                    Some(provider_names()[found.index as int])
                } else {
                    None
                },
            ),
            collect_from(strings_view(lines@), strings_view(search@), i as int, items_model(items@))
                == collect_from(
                strings_view(lines@),
                strings_view(search@),
                0,
                Seq::empty(),
            ),
        decreases lines.len() - i,
    {
        proof {
            assert(strings_view(lines@)[i as int] == lines@[i as int]@);
        }
        match trace_to_item(lines[i].as_str(), &search, search_line) {
            Some(item) => {
                if !contains_label(&items, item.label.as_str()) {
                    let ghost before = items_model(items@);
                    let full: bool = items.len() >= MAX_TRACE_ITEMS;
                    items.push(item);
                    proof {
                        assert(items_model(items@) =~= before.push(item@));
                    }
                    if full {
                        proof {
                            lemma_collect_from(
                                strings_view(lines@),
                                strings_view(search@),
                                0,
                                Seq::empty(),
                            );
                        }
                        return Some(CompletionList { items, is_incomplete: true });
                    }
                }
            },
            None => {},
        }
        i += 1;
    }
    proof {
        lemma_collect_from(strings_view(lines@), strings_view(search@), 0, Seq::empty());
    }
    Some(CompletionList { items, is_incomplete: false })
}

/// The entry that the declaration of an argument adds to the list: none
/// for a line without a blank; otherwise the last word of the line is the
/// label.
pub open spec fn argument_entry(line: Seq<char>) -> Option<ItemModel> {
    let words = split(line, ' ');
    if words.len() <= 1 {
        None
    } else {
        Some(ItemModel { label: words.last(), kind: KIND_FIELD, source: line })
    }
}

/// The entries that the declarations add to the list, in their order.
pub open spec fn argument_entries(lines: Seq<Seq<char>>) -> Seq<ItemModel>
    decreases lines.len(),
{
    if lines.len() == 0 {
        Seq::empty()
    } else {
        let rest = argument_entries(lines.drop_last());
        match argument_entry(lines.last()) {
            Some(entry) => rest.push(entry),
            None => rest,
        }
    }
}

/// Lists the arguments that the lines declare. Each line holds a type and
/// a name, with blanks between the words; the name is the label of the
/// entry, the line its detail. A line of one word or none is left out.
pub fn argument_items(lines: &Vec<String>) -> (items: Vec<CompletionItem>)
    ensures
        items_model(items@) == argument_entries(strings_view(lines@)),
{
    let ghost all = strings_view(lines@);
    let mut items: Vec<CompletionItem> = Vec::new();
    let mut i: usize = 0;
    proof {
        assert(items_model(items@) =~= Seq::empty());
        assert(all.take(0) =~= Seq::empty());
    }
    while i < lines.len()
        invariant
            i <= lines.len(),
            all == strings_view(lines@),
            items_model(items@) == argument_entries(all.take(i as int)),
        decreases lines.len() - i,
    {
        proof {
            let next = all.take(i + 1);
            assert(next.drop_last() =~= all.take(i as int));
            assert(next.last() == lines@[i as int]@);
        }
        let mut words: Vec<String> = split_text(lines[i].as_str(), ' ');
        if words.len() > 1 {
            let ghost before = items_model(items@);
            let ghost fields = strings_view(words@);
            let label: String = words.pop().unwrap();
            proof {
                assert(fields.last() == label@);
            }
            let item = CompletionItem { label, kind: KIND_FIELD, source: lines[i].clone() };
            items.push(item);
            proof {
                assert(items_model(items@) =~= before.push(item@));
            }
        }
        i += 1;
    }
    proof {
        assert(all.take(lines.len() as int) =~= all);
    }
    items
}

/// What a completion request asks for.
pub enum CompletionPlan {
    /// The arguments of the probe whose action block holds the cursor;
    /// the chain typed so far is given.
    ActionArguments(String),
    /// The functions and keywords that an action block can hold.
    Action,
    /// The arguments of the probe before a broken action block.
    ErrorArguments(String),
    /// Probes that begin like the line before the cursor.
    Probes,
    /// Nothing.
    Nothing,
}

/// Mathematical model of a [`CompletionPlan`].
pub enum PlanModel {
    ActionArguments(Seq<char>),
    Action,
    ErrorArguments(Seq<char>),
    Probes,
    Nothing,
}

impl View for CompletionPlan {
    type V = PlanModel;

    open spec fn view(&self) -> PlanModel {
        match self {
            CompletionPlan::ActionArguments(chain) => PlanModel::ActionArguments(chain@),
            CompletionPlan::Action => PlanModel::Action,
            CompletionPlan::ErrorArguments(chain) => PlanModel::ErrorArguments(chain@),
            CompletionPlan::Probes => PlanModel::Probes,
            CompletionPlan::Nothing => PlanModel::Nothing,
        }
    }
}

/// What a completion request asks for, by the part of the script that
/// holds the cursor, whether that part is broken, and the line up to the
/// cursor.
pub open spec fn plan_for(
    location: SyntaxLocation,
    has_error: bool,
    line: Seq<char>,
    char_nr: int,
) -> PlanModel {
    match (location, argument_at(line, char_nr)) {
        (SyntaxLocation::Action, Some(chain)) => PlanModel::ActionArguments(chain),
        (SyntaxLocation::Action, None) => PlanModel::Action,
        (SyntaxLocation::SourceFile, Some(chain)) => if has_error {
            PlanModel::ErrorArguments(chain)
        } else {
            PlanModel::Probes
        },
        (SyntaxLocation::Comment, _) => PlanModel::Nothing,
        _ => PlanModel::Probes,
    }
}

/// Decides what a completion request asks for. Inside an action block it
/// is the arguments of the probe where an expression on `args.` ends at
/// the cursor, and the contents of a block otherwise. At the top level of
/// a broken script it is the arguments too, where such an expression
/// ends at the cursor. Inside a comment it is nothing. Everywhere else,
/// and where the probe of the arguments cannot be found, it is probes.
/// The cursor stands at byte `char_nr` of the line.
pub fn completion_plan(
    location: SyntaxLocation,
    has_error: bool,
    line_str: &str,
    char_nr: usize,
) -> (plan: CompletionPlan)
    ensures
        plan@ == plan_for(location, has_error, line_str@, char_nr as int),
{
    let mut chain: String = String::new();
    let is_arg: bool = is_argument(line_str, char_nr, &mut chain);
    match location {
        SyntaxLocation::Action => {
            if is_arg {
                CompletionPlan::ActionArguments(chain)
            } else {
                CompletionPlan::Action
            }
        },
        SyntaxLocation::SourceFile => {
            if is_arg && has_error {
                CompletionPlan::ErrorArguments(chain)
            } else {
                CompletionPlan::Probes
            }
        },
        SyntaxLocation::Comment => CompletionPlan::Nothing,
        _ => CompletionPlan::Probes,
    }
}

/// The byte behind the one under the cursor.
pub open spec fn behind(char_nr: usize) -> int {
    if char_nr < usize::MAX {
        char_nr + 1
    } else {
        char_nr as int
    }
}

/// The line up to and with the byte under the cursor, which stands at
/// byte `char_nr`: the whole line where the line ends before, and where
/// the cut would fall inside a character.
pub open spec fn head_of_line(line: Seq<char>, char_nr: usize) -> Seq<char> {
    match head_chars(line, behind(char_nr)) {
        Some(head) => head,
        None => line,
    }
}

/// The line up to and with the byte under the cursor; the whole line
/// where that is no place to cut it.
pub fn line_head(line_str: &str, char_nr: usize) -> (head: &str)
    ensures
        head@ == head_of_line(line_str@, char_nr),
{
    let up_to_char: usize = if char_nr < usize::MAX {
        char_nr + 1
    } else {
        char_nr
    };
    match byte_head(line_str, up_to_char) {
        Some(head) => head,
        None => line_str,
    }
}

/// Whether the entry of a trace is shown with the prototype of its
/// function: it names a function, and the trace is a `kfunc` probe.
pub open spec fn shows_prototype(item: ItemModel) -> bool {
    item.kind == KIND_FUNCTION && split(item.source, ':')[0] == "kfunc"@
}

/// Tells whether the entry of a trace is shown with the prototype of its
/// function.
pub fn wants_prototype(item: &CompletionItem) -> (wanted: bool)
    ensures
        wanted == shows_prototype(item@),
{
    if item.kind != KIND_FUNCTION {
        return false;
    }
    let fields: Vec<String> = split_text(item.source.as_str(), ':');
    proof {
        assert(strings_view(fields@)[0] == fields@[0]@);
    }
    same_text(fields[0].as_str(), "kfunc")
}

/// Where the arguments of a probe are looked up.
#[derive(Clone, Copy, Debug, PartialEq, Eq, Structural)]
pub enum ArgumentOrigin {
    /// In what the tracer lists for the probe.
    Listing,
    /// In the type graph, with or without the return value.
    Graph { with_return: bool },
    /// Nowhere.
    Unknown,
}

/// Where the arguments that a chain asks for are looked up: for the
/// probes that the type graph describes, in the graph; for any other
/// probe, in the tracer's listing, which knows the arguments themselves
/// and nothing below them.
pub open spec fn origin_of(probe: Seq<char>, chain: Seq<char>) -> ArgumentOrigin {
    let with_return = "kretprobe:"@.is_prefix_of(probe) || "kretfunc:"@.is_prefix_of(probe)
        || "fexit"@.is_prefix_of(probe);
    let typed = with_return || "kprobe:"@.is_prefix_of(probe) || "fentry"@.is_prefix_of(probe)
        || "kfunc:"@.is_prefix_of(probe);
    if typed {
        ArgumentOrigin::Graph { with_return }
    } else if "args."@.is_suffix_of(chain) {
        ArgumentOrigin::Listing
    } else {
        ArgumentOrigin::Unknown
    }
}

/// Decides where the arguments that a chain asks for are looked up.
pub fn argument_origin(probe: &str, chain: &str) -> (origin: ArgumentOrigin)
    ensures
        origin == origin_of(probe@, chain@),
{
    let source = argument_source(probe);
    if source.typed {
        ArgumentOrigin::Graph { with_return: source.with_return }
    } else if ends_with(chain, "args.") {
        ArgumentOrigin::Listing
    } else {
        ArgumentOrigin::Unknown
    }
}

/// The declarations in what the tracer lists for a probe: every line but
/// the first, which names the probe.
pub open spec fn listed_declarations(listing: Seq<char>) -> Seq<Seq<char>> {
    if lines_of(listing).len() == 0 {
        Seq::empty()
    } else {
        lines_of(listing).skip(1)
    }
}

/// Lists the arguments in what the tracer lists for a probe.
pub fn listed_arguments(listing: &str) -> (items: Vec<CompletionItem>)
    ensures
        items_model(items@) == argument_entries(listed_declarations(listing@)),
{
    let mut lines: Vec<String> = text_lines(listing);
    if lines.len() > 0 {
        let ghost all = strings_view(lines@);
        lines.remove(0);
        proof {
            assert(strings_view(lines@) =~= all.skip(1));
        }
    } else {
        proof {
            assert(strings_view(lines@) =~= Seq::empty());
        }
    }
    argument_items(&lines)
}

} // verus!

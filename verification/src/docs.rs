//! Completion entries from the reference documents of the tracer.
//!
//! The documents are written in Markdown. A heading of the third level
//! opens the entry of a probe provider or of a function; the lines below
//! it give a summary, the variants of the name, short names, and the full
//! description.

use crate::lines::lines_of;
use crate::lines::text_lines;
use crate::text::starts_with;
use crate::text::strings_view;
use crate::text::trim;
use crate::text::trim_text;
use vstd::prelude::*;

verus! {

/// The kind of a completion item that names a probe provider.
pub const KIND_PROVIDER: u32 = 8;

/// The kind of a completion item that names a function of the tracer.
pub const KIND_STDLIB: u32 = 3;

/// The entry of a provider or a function in a reference document.
pub struct DocItem {
    /// The heading.
    pub label: String,
    /// The first line below the heading.
    pub first_line: String,
    /// The variants of the name, one to a line.
    pub variants: String,
    /// The short names.
    pub short_name: String,
    /// The description, line by line.
    pub full_info: String,
}

/// Mathematical model of a [`DocItem`].
pub struct DocModel {
    pub label: Seq<char>,
    pub first_line: Seq<char>,
    pub variants: Seq<char>,
    pub short_name: Seq<char>,
    pub full_info: Seq<char>,
}

impl View for DocItem {
    type V = DocModel;

    open spec fn view(&self) -> DocModel {
        DocModel {
            label: self.label@,
            first_line: self.first_line@,
            variants: self.variants@,
            short_name: self.short_name@,
            full_info: self.full_info@,
        }
    }
}

/// The model of a list of entries.
pub open spec fn docs_model(items: Seq<DocItem>) -> Seq<DocModel> {
    Seq::new(items.len(), |i: int| items[i]@)
}

/// The entry that holds nothing.
pub open spec fn empty_doc() -> DocModel {
    DocModel {
        label: Seq::empty(),
        first_line: Seq::empty(),
        variants: Seq::empty(),
        short_name: Seq::empty(),
        full_info: Seq::empty(),
    }
}

impl Default for DocItem {
    fn default() -> (item: Self)
        ensures
            item@ == empty_doc(),
    {
        DocItem {
            label: String::new(),
            first_line: String::new(),
            variants: String::new(),
            short_name: String::new(),
            full_info: String::new(),
        }
    }
}

/// The detail of an entry: the variants of its name, or the name itself
/// where it has none.
pub open spec fn detail_of(item: DocModel) -> Seq<char> {
    if item.variants.len() == 0 {
        item.label
    } else {
        item.variants
    }
}

/// The documentation of an entry: the summary, with the short name where
/// there is one, an empty line, and the description.
pub open spec fn documentation_of(item: DocModel) -> Seq<char> {
    if item.short_name.len() == 0 {
        item.first_line + "\n\n"@ + item.full_info
    } else {
        item.first_line + ", short name "@ + item.short_name + "\n\n"@ + item.full_info
    }
}

/// The detail of an entry.
pub fn doc_detail(item: &DocItem) -> (detail: String)
    ensures
        detail@ == detail_of(item@),
{
    if item.variants.as_str().unicode_len() == 0 {
        item.label.clone()
    } else {
        item.variants.clone()
    }
}

/// The documentation of an entry.
pub fn doc_text(item: &DocItem) -> (docs: String)
    ensures
        docs@ == documentation_of(item@),
{
    let mut docs: String = item.first_line.clone();
    if item.short_name.as_str().unicode_len() > 0 {
        docs.append(", short name ");
        docs.append(item.short_name.as_str());
    }
    docs.append("\n\n");
    docs.append(item.full_info.as_str());
    docs
}

/// The line from character `from` on, without its last `cut` characters;
/// empty where the line is too short for that.
pub open spec fn line_part(line: Seq<char>, from: int, cut: int) -> Seq<char> {
    if from + cut <= line.len() {
        line.subrange(from, line.len() - cut)
    } else {
        Seq::empty()
    }
}

/// The line from character `from` on, without its last `cut` characters.
pub fn part_of_line(line: &str, from: usize, cut: usize) -> (part: &str)
    ensures
        part@ == line_part(line@, from as int, cut as int),
{
    let n: usize = line.unicode_len();
    if from <= n && cut <= n - from {
        line.substring_char(from, n - cut)
    } else {
        line.substring_char(0, 0)
    }
}

/// Whether a line is an item of a list: it begins, trimmed, with a dash
/// or an asterisk and a blank.
pub open spec fn is_list_item(trimmed: Seq<char>) -> bool {
    "- "@.is_prefix_of(trimmed) || "* "@.is_prefix_of(trimmed)
}

/// What a scan of the entries of the functions has read so far.
pub struct StdlibScan {
    /// The entries that are complete.
    pub items: Vec<DocItem>,
    /// The entry that is being read.
    pub item: DocItem,
    /// Whether an entry is being read.
    pub collected: bool,
    /// Whether the variants of the name may follow.
    pub after_label: bool,
    /// Whether the description is being read.
    pub in_full_docs: bool,
}

/// Mathematical model of a [`StdlibScan`].
pub struct StdlibModel {
    pub items: Seq<DocModel>,
    pub item: DocModel,
    pub collected: bool,
    pub after_label: bool,
    pub in_full_docs: bool,
}

impl View for StdlibScan {
    type V = StdlibModel;

    open spec fn view(&self) -> StdlibModel {
        StdlibModel {
            items: docs_model(self.items@),
            item: self.item@,
            collected: self.collected,
            after_label: self.after_label,
            in_full_docs: self.in_full_docs,
        }
    }
}

/// The scan of the functions after one more line. A heading of the third
/// level completes the entry before it and opens one under the rest of
/// the line. Below the heading, list items give variants of the name,
/// each without its first three characters and its last; the first other
/// line that is not blank begins the description, which takes every line
/// from there on.
pub open spec fn stdlib_step(scan: StdlibModel, line: Seq<char>) -> StdlibModel {
    let t = trim(line);
    if "### "@.is_prefix_of(t) {
        StdlibModel {
            items: if scan.collected {
                scan.items.push(scan.item)
            } else {
                scan.items
            },
            item: DocModel { label: line_part(line, 4, 0), ..empty_doc() },
            collected: true,
            after_label: true,
            in_full_docs: false,
        }
    } else {
        let variant = scan.after_label && is_list_item(t);
        let begins = scan.after_label && !is_list_item(t) && t.len() > 0;
        let describes = scan.in_full_docs || begins;
        StdlibModel {
            items: scan.items,
            item: DocModel {
                variants: if variant {
                    scan.item.variants + line_part(line, 3, 1) + seq!['\n']
                } else {
                    scan.item.variants
                },
                full_info: if describes {
                    scan.item.full_info + line + seq!['\n']
                } else {
                    scan.item.full_info
                },
                ..scan.item
            },
            collected: scan.collected,
            after_label: scan.after_label && !begins,
            in_full_docs: describes,
        }
    }
}

/// The scan of the functions over the lines from position `i` on.
pub open spec fn stdlib_scan(lines: Seq<Seq<char>>, i: int, scan: StdlibModel) -> StdlibModel
    decreases lines.len() - i,
{
    if i < 0 || i >= lines.len() {
        scan
    } else {
        stdlib_scan(lines, i + 1, stdlib_step(scan, lines[i]))
    }
}

/// The scan that has read nothing.
pub open spec fn stdlib_start() -> StdlibModel {
    StdlibModel {
        items: Seq::empty(),
        item: empty_doc(),
        collected: false,
        after_label: false,
        in_full_docs: false,
    }
}

/// The entries of the functions that a document describes: those that a
/// later heading has completed.
pub open spec fn stdlib_docs(document: Seq<char>) -> Seq<DocModel> {
    stdlib_scan(lines_of(document), 0, stdlib_start()).items
}

/// Reads one more line of the document of the functions.
pub fn stdlib_line(scan: &mut StdlibScan, line: &str)
    ensures
        final(scan)@ == stdlib_step(old(scan)@, line@),
{
    let t: &str = trim_text(line);
    proof {
        reveal_strlit("\n");
        assert("\n"@ =~= seq!['\n']);
    }
    if starts_with(t, "### ") {
        let mut item = DocItem::default();
        item.label = part_of_line(line, 4, 0).to_owned();
        if scan.collected {
            let ghost before = docs_model(scan.items@);
            let mut done = DocItem::default();
            core::mem::swap(&mut done, &mut scan.item);
            scan.items.push(done);
            proof {
                assert(docs_model(scan.items@) =~= before.push(done@));
            }
        }
        scan.item = item;
        scan.collected = true;
        scan.after_label = true;
        scan.in_full_docs = false;
        return ;
    }
    if scan.after_label {
        if starts_with(t, "- ") || starts_with(t, "* ") {
            scan.item.variants.append(part_of_line(line, 3, 1));
            scan.item.variants.append("\n");
        } else if t.unicode_len() > 0 {
            scan.after_label = false;
            scan.in_full_docs = true;
        }
    }
    if scan.in_full_docs {
        scan.item.full_info.append(line);
        scan.item.full_info.append("\n");
    }
}

/// Reads the entries of the functions from their reference document. An
/// entry is complete when the next heading follows it: the last entry of
/// the document is left out.
pub fn gen_completion_stdlib(stdlib_md: &str) -> (items: Vec<DocItem>)
    ensures
        docs_model(items@) == stdlib_docs(stdlib_md@),
{
    let lines: Vec<String> = text_lines(stdlib_md);
    let mut scan = StdlibScan {
        items: Vec::new(),
        item: DocItem::default(),
        collected: false,
        after_label: false,
        in_full_docs: false,
    };
    proof {
        assert(docs_model(scan.items@) =~= Seq::empty());
    }
    let mut i: usize = 0;
    while i < lines.len()
        invariant
            i <= lines.len(),
            strings_view(lines@) == lines_of(stdlib_md@),
            stdlib_scan(strings_view(lines@), i as int, scan@) == stdlib_scan(
                strings_view(lines@),
                0,
                stdlib_start(),
            ),
        decreases lines.len() - i,
    {
        proof {
            assert(strings_view(lines@)[i as int] == lines@[i as int]@);
        }
        stdlib_line(&mut scan, lines[i].as_str());
        i += 1;
    }
    scan.items
}

/// What a scan of the entries of the probe providers has read so far.
pub struct ProbesScan {
    /// The entries that are complete.
    pub items: Vec<DocItem>,
    /// The entry that is being read.
    pub item: DocItem,
    /// Whether the section on probes is being read.
    pub in_section: bool,
    /// Whether an entry is being read.
    pub collected: bool,
    /// Whether the summary is the next line that is not blank.
    pub after_label: bool,
    /// Whether variants of the name may follow.
    pub after_variants: bool,
    /// Whether short names may follow.
    pub after_short_name: bool,
    /// Whether the description is being read.
    pub in_full_docs: bool,
}

/// Mathematical model of a [`ProbesScan`].
pub struct ProbesModel {
    pub items: Seq<DocModel>,
    pub item: DocModel,
    pub in_section: bool,
    pub collected: bool,
    pub after_label: bool,
    pub after_variants: bool,
    pub after_short_name: bool,
    pub in_full_docs: bool,
}

impl View for ProbesScan {
    type V = ProbesModel;

    open spec fn view(&self) -> ProbesModel {
        ProbesModel {
            items: docs_model(self.items@),
            item: self.item@,
            in_section: self.in_section,
            collected: self.collected,
            after_label: self.after_label,
            after_variants: self.after_variants,
            after_short_name: self.after_short_name,
            in_full_docs: self.in_full_docs,
        }
    }
}

/// Whether a line announces the short names of a provider.
pub open spec fn is_short_names_heading(trimmed: Seq<char>) -> bool {
    "**short names**"@.is_prefix_of(trimmed) || "**short name**"@.is_prefix_of(trimmed)
}

/// Whether the section on probes is being read after a line: a heading
/// of the second level opens it if it begins with `Probes`, and closes it
/// otherwise.
pub open spec fn section_after(in_section: bool, trimmed: Seq<char>) -> bool {
    if "## Probes"@.is_prefix_of(trimmed) {
        true
    } else if "## "@.is_prefix_of(trimmed) {
        false
    } else {
        in_section
    }
}

/// The scan of the providers after one more line. Outside the section on
/// probes a line counts for nothing. Inside it, a heading of the third
/// level completes the entry before it and opens one under the rest of
/// the line. Blank lines before the description are passed over. The
/// first line below the heading is the summary. Below `**variants**`,
/// list items give variants of the name, each without its first three
/// characters and its last. Below `**short name**`, list items give short
/// names, each without its first two characters; the first other line
/// that is not blank begins the description, which takes every line from
/// there on.
pub open spec fn probes_step(scan: ProbesModel, line: Seq<char>) -> ProbesModel {
    let t = trim(line);
    let in_section = section_after(scan.in_section, t);
    if !in_section {
        ProbesModel { in_section, ..scan }
    } else if "### "@.is_prefix_of(t) {
        ProbesModel {
            items: if scan.collected {
                scan.items.push(scan.item)
            } else {
                scan.items
            },
            item: DocModel { label: line_part(line, 4, 0), ..empty_doc() },
            in_section,
            collected: true,
            after_label: true,
            after_variants: false,
            after_short_name: false,
            in_full_docs: false,
        }
    } else if t.len() == 0 && !scan.in_full_docs {
        ProbesModel { in_section, ..scan }
    } else if scan.after_label {
        ProbesModel {
            item: DocModel { first_line: t, ..scan.item },
            in_section,
            after_label: false,
            ..scan
        }
    } else if "**variants**"@.is_prefix_of(t) {
        ProbesModel { in_section, after_variants: true, ..scan }
    } else {
        let variant = scan.after_variants && is_list_item(t);
        let variants = if variant {
            scan.item.variants + line_part(line, 3, 1) + seq!['\n']
        } else {
            scan.item.variants
        };
        let after_variants = scan.after_variants && (is_list_item(t) || t.len() == 0);
        if is_short_names_heading(t) {
            ProbesModel {
                item: DocModel { variants, ..scan.item },
                in_section,
                after_variants,
                after_short_name: true,
                ..scan
            }
        } else {
            let short = scan.after_short_name && is_list_item(t);
            let begins = scan.after_short_name && !is_list_item(t) && t.len() > 0;
            let describes = scan.in_full_docs || begins;
            ProbesModel {
                item: DocModel {
                    variants,
                    short_name: if short {
                        scan.item.short_name + line_part(line, 2, 0)
                    } else {
                        scan.item.short_name
                    },
                    full_info: if describes {
                        scan.item.full_info + line + seq!['\n']
                    } else {
                        scan.item.full_info
                    },
                    ..scan.item
                },
                in_section,
                after_variants,
                after_short_name: scan.after_short_name && !begins,
                in_full_docs: describes,
                ..scan
            }
        }
    }
}

/// The scan of the providers over the lines from position `i` on.
pub open spec fn probes_scan(lines: Seq<Seq<char>>, i: int, scan: ProbesModel) -> ProbesModel
    decreases lines.len() - i,
{
    if i < 0 || i >= lines.len() {
        scan
    } else {
        probes_scan(lines, i + 1, probes_step(scan, lines[i]))
    }
}

/// The scan that has read nothing.
pub open spec fn probes_start() -> ProbesModel {
    ProbesModel {
        items: Seq::empty(),
        item: empty_doc(),
        in_section: false,
        collected: false,
        after_label: false,
        after_variants: false,
        after_short_name: false,
        in_full_docs: false,
    }
}

/// The entries of the providers that a document describes: those that a
/// later heading has completed.
pub open spec fn probes_docs(document: Seq<char>) -> Seq<DocModel> {
    probes_scan(lines_of(document), 0, probes_start()).items
}

/// Reads one more line of the document of the language.
pub fn probes_line(scan: &mut ProbesScan, line: &str)
    ensures
        final(scan)@ == probes_step(old(scan)@, line@),
{
    let t: &str = trim_text(line);
    proof {
        reveal_strlit("\n");
        assert("\n"@ =~= seq!['\n']);
    }
    if starts_with(t, "## Probes") {
        scan.in_section = true;
    } else if starts_with(t, "## ") {
        scan.in_section = false;
    }
    if !scan.in_section {
        return ;
    }
    if starts_with(t, "### ") {
        let mut item = DocItem::default();
        item.label = part_of_line(line, 4, 0).to_owned();
        if scan.collected {
            let ghost before = docs_model(scan.items@);
            let mut done = DocItem::default();
            core::mem::swap(&mut done, &mut scan.item);
            scan.items.push(done);
            proof {
                assert(docs_model(scan.items@) =~= before.push(done@));
            }
        }
        scan.item = item;
        scan.collected = true;
        scan.after_label = true;
        scan.after_short_name = false;
        scan.after_variants = false;
        scan.in_full_docs = false;
        return ;
    }
    let blank: bool = t.unicode_len() == 0;
    if blank && !scan.in_full_docs {
        return ;
    }
    if scan.after_label {
        scan.item.first_line = t.to_owned();
        scan.after_label = false;
        return ;
    }
    if starts_with(t, "**variants**") {
        scan.after_variants = true;
        return ;
    }
    let list_item: bool = starts_with(t, "- ") || starts_with(t, "* ");
    if scan.after_variants {
        if list_item {
            scan.item.variants.append(part_of_line(line, 3, 1));
            scan.item.variants.append("\n");
        } else if !blank {
            scan.after_variants = false;
        }
    }
    if starts_with(t, "**short names**") || starts_with(t, "**short name**") {
        scan.after_short_name = true;
        return ;
    }
    if scan.after_short_name {
        if list_item {
            scan.item.short_name.append(part_of_line(line, 2, 0));
        } else if !blank {
            scan.after_short_name = false;
            scan.in_full_docs = true;
        }
    }
    if scan.in_full_docs {
        scan.item.full_info.append(line);
        scan.item.full_info.append("\n");
    }
}

/// Reads the entries of the probe providers from the section `Probes` of
/// the reference document of the language. An entry is complete when the
/// next heading of an entry follows it: the last entry is left out.
pub fn gen_completion_probes(language_md: &str) -> (items: Vec<DocItem>)
    ensures
        docs_model(items@) == probes_docs(language_md@),
{
    let lines: Vec<String> = text_lines(language_md);
    let mut scan = ProbesScan {
        items: Vec::new(),
        item: DocItem::default(),
        in_section: false,
        collected: false,
        after_label: false,
        after_variants: false,
        after_short_name: false,
        in_full_docs: false,
    };
    proof {
        assert(docs_model(scan.items@) =~= Seq::empty());
    }
    let mut i: usize = 0;
    while i < lines.len()
        invariant
            i <= lines.len(),
            strings_view(lines@) == lines_of(language_md@),
            probes_scan(strings_view(lines@), i as int, scan@) == probes_scan(
                strings_view(lines@),
                0,
                probes_start(),
            ),
        decreases lines.len() - i,
    {
        proof {
            assert(strings_view(lines@)[i as int] == lines@[i as int]@);
        }
        probes_line(&mut scan, lines[i].as_str());
        i += 1;
    }
    scan.items
}

} // verus!

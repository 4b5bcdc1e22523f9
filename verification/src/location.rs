//! Where the cursor stands in a script, judged from the nodes of its
//! syntax tree. The nodes come as plain values: their kinds, the spans of
//! text they cover, and a few facts about their neighbours.

use crate::bytes::byte_slice;
use crate::bytes::chars_between;
use crate::syntax::SyntaxLocation;
use crate::text::same_text;
use crate::text::strings_view;
use vstd::prelude::*;

verus! {

/// The stretch of text that a node covers: from its first character to
/// behind its last, as rows and columns counted from zero.
#[derive(Clone, Copy, Debug, PartialEq, Eq, Structural)]
pub struct Span {
    pub start_row: usize,
    pub start_col: usize,
    pub end_row: usize,
    pub end_col: usize,
}

/// Where a position lies relative to a span.
#[derive(Clone, Copy, Debug, PartialEq, Eq, Structural)]
pub enum Position {
    Before,
    Within,
    After,
}

/// Where the position lies relative to the span: before its first
/// character, at or behind its end, or within.
pub open spec fn position_in(span: Span, line_nr: usize, char_nr: usize) -> Position {
    if line_nr < span.start_row {
        Position::Before
    } else if line_nr > span.end_row {
        Position::After
    } else if line_nr == span.start_row && char_nr < span.start_col {
        Position::Before
    } else if line_nr == span.end_row && char_nr >= span.end_col {
        Position::After
    } else {
        Position::Within
    }
}

/// Tells where a position lies relative to the span of a node.
pub fn position_relative_to(span: &Span, line_nr: usize, char_nr: usize) -> (position: Position)
    ensures
        position == position_in(*span, line_nr, char_nr),
{
    if line_nr < span.start_row {
        return Position::Before;
    }
    if line_nr > span.end_row {
        return Position::After;
    }
    if line_nr == span.start_row && char_nr < span.start_col {
        return Position::Before;
    }
    if line_nr == span.end_row && char_nr >= span.end_col {
        return Position::After;
    }
    Position::Within
}

/// Whether a node has a next sibling and the position lies before it.
pub fn position_before_next_sibling(
    next_sibling: Option<Span>,
    line_nr: usize,
    char_nr: usize,
) -> (before: bool)
    ensures
        before == (next_sibling matches Some(span) && position_in(span, line_nr, char_nr)
            is Before),
{
    match next_sibling {
        Some(span) => position_relative_to(&span, line_nr, char_nr) == Position::Before,
        None => false,
    }
}

/// The part of a script that a node of the given kind stands for.
pub open spec fn location_of_kind(kind: Seq<char>) -> SyntaxLocation {
    if kind == "block_comment"@ || kind == "line_comment"@ {
        SyntaxLocation::Comment
    } else if kind == "probes"@ {
        SyntaxLocation::Probes
    } else if kind == "predicate"@ {
        SyntaxLocation::Predicate
    } else if kind == "action"@ {
        SyntaxLocation::Action
    } else {
        SyntaxLocation::SourceFile
    }
}

/// Tells the part of a script that a node of the given kind stands for:
/// a comment, the probes, the predicate or the action of an action block,
/// and the file itself for every other kind.
pub fn node_to_syntax_location(kind: &str) -> (location: SyntaxLocation)
    ensures
        location == location_of_kind(kind@),
{
    if same_text(kind, "block_comment") || same_text(kind, "line_comment") {
        SyntaxLocation::Comment
    } else if same_text(kind, "probes") {
        SyntaxLocation::Probes
    } else if same_text(kind, "predicate") {
        SyntaxLocation::Predicate
    } else if same_text(kind, "action") {
        SyntaxLocation::Action
    } else {
        SyntaxLocation::SourceFile
    }
}

/// The location of the first kind from position `i` on that stands for a
/// part of a script other than the file itself.
pub open spec fn location_from(kinds: Seq<Seq<char>>, i: int) -> SyntaxLocation
    decreases kinds.len() - i,
{
    if i < 0 || i >= kinds.len() {
        SyntaxLocation::SourceFile
    } else if !(location_of_kind(kinds[i]) is SourceFile) {
        location_of_kind(kinds[i])
    } else {
        location_from(kinds, i + 1)
    }
}

/// Finds the part of the script that holds a node, given the kinds of the
/// node and of its ancestors from the node outwards: that of the first
/// kind which stands for a part, and the file itself where none does.
pub fn find_location(kinds: &Vec<String>) -> (location: SyntaxLocation)
    ensures
        location == location_from(strings_view(kinds@), 0),
{
    let mut i: usize = 0;
    while i < kinds.len()
        invariant
            i <= kinds.len(),
            location_from(strings_view(kinds@), i as int) == location_from(
                strings_view(kinds@),
                0,
            ),
        decreases kinds.len() - i,
    {
        proof {
            assert(strings_view(kinds@)[i as int] == kinds@[i as int]@);
        }
        let location: SyntaxLocation = node_to_syntax_location(kinds[i].as_str());
        if location != SyntaxLocation::SourceFile {
            return location;
        }
        i += 1;
    }
    SyntaxLocation::SourceFile
}

/// A node that a query for the parts of a script has captured.
pub struct Capture {
    pub kind: String,
    pub span: Span,
    /// The span of the next sibling, if the node has one.
    pub next_sibling: Option<Span>,
    /// Whether the node or one below it is a syntax error.
    pub has_error: bool,
    /// Whether the parser made up the last child of the node.
    pub last_child_missing: bool,
}

/// Mathematical model of a [`Capture`].
pub struct CaptureModel {
    pub kind: Seq<char>,
    pub span: Span,
    pub next_sibling: Option<Span>,
    pub has_error: bool,
    pub last_child_missing: bool,
}

impl View for Capture {
    type V = CaptureModel;

    open spec fn view(&self) -> CaptureModel {
        CaptureModel {
            kind: self.kind@,
            span: self.span,
            next_sibling: self.next_sibling,
            has_error: self.has_error,
            last_child_missing: self.last_child_missing,
        }
    }
}

/// The model of the captures of one match.
pub open spec fn captures_model(captures: Seq<Capture>) -> Seq<CaptureModel> {
    Seq::new(captures.len(), |i: int| captures[i]@)
}

/// The model of the matches of a query.
pub open spec fn matches_model(matches: Seq<Vec<Capture>>) -> Seq<Seq<CaptureModel>> {
    Seq::new(matches.len(), |i: int| captures_model(matches[i]@))
}

/// A capture, by the position of its match and its position in the match.
#[derive(Clone, Copy, Debug, PartialEq, Eq, Structural)]
pub struct CaptureRef {
    pub in_match: usize,
    pub capture: usize,
}

/// What a scan over the captures has found so far.
#[derive(Clone, Copy, Debug, PartialEq, Eq, Structural)]
pub struct Scan {
    /// The last capture that holds the position.
    pub within: Option<CaptureRef>,
    /// The last capture that does not lie behind the position.
    pub current: Option<CaptureRef>,
}

/// The scan over the captures of match `m` from position `j` on. A
/// capture that holds the position is noted; one that lies behind it ends
/// the scan of this match.
pub open spec fn scan_match(
    captures: Seq<CaptureModel>,
    line_nr: usize,
    char_nr: usize,
    m: usize,
    j: int,
    scan: Scan,
) -> Scan
    decreases captures.len() - j,
{
    if j < 0 || j >= captures.len() {
        scan
    } else {
        let here = Some(CaptureRef { in_match: m, capture: j as usize });
        match position_in(captures[j].span, line_nr, char_nr) {
            Position::Within => scan_match(
                captures,
                line_nr,
                char_nr,
                m,
                j + 1,
                Scan { within: here, current: here },
            ),
            Position::Before => scan,
            Position::After => scan_match(
                captures,
                line_nr,
                char_nr,
                m,
                j + 1,
                Scan { within: scan.within, current: here },
            ),
        }
    }
}

/// The scan over all matches from position `i` on.
pub open spec fn scan_matches(
    matches: Seq<Seq<CaptureModel>>,
    line_nr: usize,
    char_nr: usize,
    i: int,
    scan: Scan,
) -> Scan
    decreases matches.len() - i,
{
    if i < 0 || i >= matches.len() {
        scan
    } else {
        scan_matches(
            matches,
            line_nr,
            char_nr,
            i + 1,
            scan_match(matches[i], line_nr, char_nr, i as usize, 0, scan),
        )
    }
}

/// Whether an unfinished node still holds the position: nothing follows
/// the node before the position, the node is broken, and the parser made
/// up its last child.
pub open spec fn holds_unfinished(capture: CaptureModel, line_nr: usize, char_nr: usize) -> bool {
    &&& capture.next_sibling matches Some(span) ==> position_in(span, line_nr, char_nr) is Before
    &&& capture.has_error
    &&& capture.last_child_missing
}

/// A part of a script and the capture that stands for it; no capture
/// stands for the file itself.
pub struct Located {
    pub location: SyntaxLocation,
    pub node: Option<CaptureRef>,
}

/// The part of the script that holds the position, and its node. It is
/// the last capture that holds the position, if its kind stands for a
/// part. Failing that, it is the last capture that does not lie behind
/// the position, if that is an unfinished node. Failing that too, it is
/// the file itself.
pub open spec fn locate(matches: Seq<Seq<CaptureModel>>, line_nr: usize, char_nr: usize) -> Located {
    let scan = scan_matches(matches, line_nr, char_nr, 0, Scan { within: None, current: None });
    let file = Located { location: SyntaxLocation::SourceFile, node: None };
    let by_within = match scan.within {
        Some(r) => location_of_kind(matches[r.in_match as int][r.capture as int].kind),
        None => SyntaxLocation::SourceFile,
    };
    if !(by_within is SourceFile) {
        Located { location: by_within, node: scan.within }
    } else {
        match scan.current {
            Some(r) => {
                let node = matches[r.in_match as int][r.capture as int];
                if holds_unfinished(node, line_nr, char_nr) {
                    Located { location: location_of_kind(node.kind), node: scan.current }
                } else {
                    file
                }
            },
            None => file,
        }
    }
}

/// A scan refers to captures that exist.
pub open spec fn scan_in_range(matches: Seq<Seq<CaptureModel>>, scan: Scan) -> bool {
    &&& scan.within matches Some(r) ==> r.in_match < matches.len() && r.capture
        < matches[r.in_match as int].len()
    &&& scan.current matches Some(r) ==> r.in_match < matches.len() && r.capture
        < matches[r.in_match as int].len()
}

/// Finds the part of the script that holds the position, from the nodes
/// that a query for the parts has captured, match by match in the order
/// of the text.
pub fn find_syntax_location(matches: &Vec<Vec<Capture>>, line_nr: usize, char_nr: usize) -> (found:
    Located)
    ensures
        found == locate(matches_model(matches@), line_nr, char_nr),
        found.node matches Some(r) ==> r.in_match < matches.len() && r.capture
            < matches@[r.in_match as int].len(),
{
    let ghost model = matches_model(matches@);
    let mut scan = Scan { within: None, current: None };
    let mut i: usize = 0;
    while i < matches.len()
        invariant
            i <= matches.len(),
            model == matches_model(matches@),
            scan_in_range(model, scan),
            scan_matches(model, line_nr, char_nr, i as int, scan) == scan_matches(
                model,
                line_nr,
                char_nr,
                0,
                Scan { within: None, current: None },
            ),
        decreases matches.len() - i,
    {
        let captures: &Vec<Capture> = &matches[i];
        let ghost caps = captures_model(captures@);
        let ghost start = scan;
        proof {
            assert(model[i as int] == caps);
        }
        let mut j: usize = 0;
        let mut stopped: bool = false;
        while j < captures.len() && !stopped
            invariant
                j <= captures.len(),
                i < matches.len(),
                model == matches_model(matches@),
                model[i as int] == caps,
                caps == captures_model(captures@),
                scan_in_range(model, scan),
                stopped ==> scan == scan_match(caps, line_nr, char_nr, i, 0, start),
                !stopped ==> scan_match(caps, line_nr, char_nr, i, j as int, scan) == scan_match(
                    caps,
                    line_nr,
                    char_nr,
                    i,
                    0,
                    start,
                ),
            decreases captures.len() - j + if stopped {
                0int
            } else {
                1int
            },
        {
            proof {
                assert(caps[j as int] == captures@[j as int]@);
            }
            let here = Some(CaptureRef { in_match: i, capture: j });
            match position_relative_to(&captures[j].span, line_nr, char_nr) {
                Position::Within => {
                    scan = Scan { within: here, current: here };
                    j += 1;
                },
                Position::Before => {
                    stopped = true;
                },
                Position::After => {
                    scan = Scan { within: scan.within, current: here };
                    j += 1;
                },
            }
        }
        i += 1;
    }
    let file = Located { location: SyntaxLocation::SourceFile, node: None };
    match scan.within {
        Some(r) => {
            proof {
                let found = matches@[r.in_match as int]@[r.capture as int];
                assert(model[r.in_match as int][r.capture as int] == found@);
            }
            let location: SyntaxLocation = node_to_syntax_location(
                matches[r.in_match][r.capture].kind.as_str(),
            );
            if location != SyntaxLocation::SourceFile {
                return Located { location, node: scan.within };
            }
        },
        None => {},
    }
    match scan.current {
        Some(r) => {
            proof {
                let found = matches@[r.in_match as int]@[r.capture as int];
                assert(model[r.in_match as int][r.capture as int] == found@);
            }
            let node: &Capture = &matches[r.in_match][r.capture];
            let unfollowed: bool = node.next_sibling.is_none() || position_before_next_sibling(
                node.next_sibling,
                line_nr,
                char_nr,
            );
            if unfollowed && node.has_error && node.last_child_missing {
                Located {
                    location: node_to_syntax_location(node.kind.as_str()),
                    node: scan.current,
                }
            } else {
                file
            }
        },
        None => file,
    }
}

/// The nodes around the action of an action block, as the syntax tree
/// holds them.
pub struct ActionNodes {
    /// The kind of the node that is taken for the action.
    pub kind: String,
    /// The kind of its parent, if it has one.
    pub parent_kind: Option<String>,
    /// The kind of the first child of the parent, if there is one.
    pub first_kind: Option<String>,
    /// The bytes of the script that the first child of that child covers:
    /// the offset of its first byte and the offset behind its last.
    pub probe_bytes: Option<(usize, usize)>,
}

/// Mathematical model of [`ActionNodes`].
pub struct ActionNodesModel {
    pub kind: Seq<char>,
    pub parent_kind: Option<Seq<char>>,
    pub first_kind: Option<Seq<char>>,
    pub probe_bytes: Option<(usize, usize)>,
}

/// The characters of an optional string.
pub open spec fn kind_model(kind: Option<String>) -> Option<Seq<char>> {
    match kind {
        Some(k) => Some(k@),
        None => None,
    }
}

impl View for ActionNodes {
    type V = ActionNodesModel;

    open spec fn view(&self) -> ActionNodesModel {
        ActionNodesModel {
            kind: self.kind@,
            parent_kind: kind_model(self.parent_kind),
            first_kind: kind_model(self.first_kind),
            probe_bytes: self.probe_bytes,
        }
    }
}

/// Whether the nodes are those of an action block: an action, under an
/// action block, whose first child is the list of its probes.
pub open spec fn in_action_block(nodes: ActionNodesModel) -> bool {
    nodes.kind == "action"@ && nodes.parent_kind == Some("action_block"@) && nodes.first_kind
        == Some("probes"@)
}

/// The first probe of the action block that an action belongs to: the
/// text of the script that the first node of the list of probes covers.
/// `None` where the nodes are not those of an action block, where the
/// list holds no node, and where the node covers no text of the script:
/// its bytes end behind the script, or begin or end inside a character.
pub open spec fn action_probe(nodes: ActionNodesModel, text: Seq<char>) -> Option<Seq<char>> {
    if in_action_block(nodes) {
        match nodes.probe_bytes {
            Some((start, end)) => chars_between(text, start as int, end as int),
            None => None,
        }
    } else {
        None
    }
}

/// Whether an optional kind is the given one.
pub fn is_kind(kind: &Option<String>, wanted: &str) -> (same: bool)
    ensures
        same == (kind_model(*kind) == Some(wanted@)),
{
    match kind {
        Some(k) => same_text(k.as_str(), wanted),
        None => false,
    }
}

/// Finds the first probe of the action block that an action belongs to.
pub fn probe_for_action(nodes: &ActionNodes, text: &str) -> (probe: Option<String>)
    ensures
        kind_model(probe) == action_probe(nodes@, text@),
{
    if !same_text(nodes.kind.as_str(), "action") {
        return None;
    }
    if !is_kind(&nodes.parent_kind, "action_block") {
        return None;
    }
    if !is_kind(&nodes.first_kind, "probes") {
        return None;
    }
    match nodes.probe_bytes {
        Some((start, end)) => match byte_slice(text, start, end) {
            Some(part) => Some(part.to_owned()),
            None => None,
        },
        None => None,
    }
}

} // verus!

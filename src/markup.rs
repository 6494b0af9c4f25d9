//! A parsed page as a pre-order outline of its nodes, each with its depth in
//! the tree, and the queries that the thread parser makes on it.
use vstd::prelude::*;

use kuchikiki::iter::NodeEdge;
use kuchikiki::traits::TendrilSink;
use kuchikiki::NodeData;

use crate::text::{chars_of, occurs_at, occurs_at_exec};

verus! {

/// One node of a parsed page, without its children.
pub enum MarkupNode {
    /// An element, with its local name and its `class` attribute.
    Element { name: String, class: Option<String> },
    /// A text node.
    Text(String),
    /// Any other node: the document, a comment, a doctype.
    Other,
}

/// The value of a node that the contracts speak of.
pub enum NodeView {
    Element { name: Seq<char>, class: Option<Seq<char>> },
    Text(Seq<char>),
    Other,
}

impl View for MarkupNode {
    type V = NodeView;

    open spec fn view(&self) -> NodeView {
        match self {
            MarkupNode::Element { name, class } => NodeView::Element {
                name: name@,
                class: match class {
                    Some(c) => Some(c@),
                    None => None,
                },
            },
            MarkupNode::Text(s) => NodeView::Text(s@),
            MarkupNode::Other => NodeView::Other,
        }
    }
}

/// The start or the end of a node, in a walk of the tree in document order.
pub enum MarkupEdge {
    Start(MarkupNode),
    End,
}

pub enum EdgeView {
    Start(NodeView),
    End,
}

impl View for MarkupEdge {
    type V = EdgeView;

    open spec fn view(&self) -> EdgeView {
        match self {
            MarkupEdge::Start(n) => EdgeView::Start(n@),
            MarkupEdge::End => EdgeView::End,
        }
    }
}

/// The views of a sequence of edges.
pub open spec fn edge_views(e: Seq<MarkupEdge>) -> Seq<EdgeView> {
    e.map_values(|x: MarkupEdge| x@)
}

/// The walk of the tree that the HTML parser builds from `body`.
pub uninterp spec fn html_edges(body: Seq<char>) -> Seq<EdgeView>;

/// The most characters a page may have to be parsed: at four UTF-8 bytes each
/// at most, the parser's `u32` buffer length still holds the page.
pub const MAX_PAGE_CHARS: usize = 1073741823;

/// Relies on `kuchikiki::parse_html` (html5ever's parser) to build the tree of
/// `body`, and on `NodeRef::traverse_inclusive` to walk it from the document
/// node in document order; the walk depends on `body` alone. The parser copies
/// `body` into a tendril, which asserts a length of at most `u32::MAX` bytes.
#[verifier::external_body]
fn parse_html_edges(body: &str) -> (r: Vec<MarkupEdge>)
    requires
        body@.len() <= MAX_PAGE_CHARS,
    ensures
        edge_views(r@) == html_edges(body@),
{
    kuchikiki::parse_html().one(body).traverse_inclusive().map(|edge| match edge {
        NodeEdge::Start(node) => MarkupEdge::Start(match node.data() {
            NodeData::Element(e) => MarkupNode::Element {
                name: e.name.local.to_string(),
                class: e.attributes.borrow().get("class").map(String::from),
            },
            NodeData::Text(t) => MarkupNode::Text(t.borrow().clone()),
            _ => MarkupNode::Other,
        }),
        NodeEdge::End(_) => MarkupEdge::End,
    }).collect()
}

/// A node of the outline with its depth (the document node has depth 0).
pub struct Entry {
    pub depth: usize,
    pub node: MarkupNode,
}

impl View for Entry {
    type V = (int, NodeView);

    open spec fn view(&self) -> (int, NodeView) {
        (self.depth as int, self.node@)
    }
}

/// The views of a sequence of entries.
pub open spec fn entry_views(o: Seq<Entry>) -> Seq<(int, NodeView)> {
    o.map_values(|x: Entry| x@)
}

/// The nodes that the walk `e` starts, each with its depth; the walk begins at
/// depth `d`, a start goes one level down and an end one level up.
pub open spec fn outline_from(e: Seq<EdgeView>, d: int) -> Seq<(int, NodeView)>
    decreases e.len(),
{
    if e.len() == 0 {
        seq![]
    } else {
        match e[0] {
            EdgeView::Start(n) => seq![(d, n)] + outline_from(e.drop_first(), d + 1),
            EdgeView::End => outline_from(e.drop_first(), if d > 0 { d - 1 } else { 0 }),
        }
    }
}

/// The pre-order outline of the walk `e`.
pub open spec fn outline(e: Seq<EdgeView>) -> Seq<(int, NodeView)> {
    outline_from(e, 0)
}

/// The pre-order outline of the page `body`.
pub open spec fn page_outline(body: Seq<char>) -> Seq<(int, NodeView)> {
    outline(html_edges(body))
}

/// Builds the outline of a walk.
pub fn outline_of(edges: Vec<MarkupEdge>) -> (r: Vec<Entry>)
    ensures
        entry_views(r@) == outline(edge_views(edges@)),
{
    let ghost ev = edge_views(edges@);
    let mut r: Vec<Entry> = Vec::new();
    let mut d: usize = 0;
    let n = edges.len();
    assert(ev.skip(0) =~= ev);
    assert(entry_views(r@) =~= seq![]);
    for e in it: edges.into_iter()
        invariant
            it.seq() == edges@,
            n == edges@.len(),
            ev == edge_views(edges@),
            d <= it.index(),
            entry_views(r@) + outline_from(ev.skip(it.index() as int), d as int) == outline(ev),
    {
        let ghost i = it.index();
        proof {
            assert(ev.skip(i as int).drop_first() =~= ev.skip(i + 1));
            assert(ev.skip(i as int)[0] == ev[i as int]);
            assert(i < edges@.len());
            assert(ev[i as int] == e@);
        }
        match e {
            MarkupEdge::Start(node) => {
                let ghost r0 = entry_views(r@);
                r.push(Entry { depth: d, node });
                assert(entry_views(r@) =~= r0 + seq![(d as int, node@)]);
                d = d + 1;
            },
            MarkupEdge::End => {
                if d > 0 {
                    d = d - 1;
                }
            },
        }
    }
    assert(ev.skip(edges@.len() as int) =~= seq![]);
    assert(entry_views(r@) + seq![] =~= entry_views(r@));
    r
}

/// Parses `body` into its outline.
pub fn parse_page(body: &str) -> (r: Vec<Entry>)
    requires
        body@.len() <= MAX_PAGE_CHARS,
    ensures
        entry_views(r@) == page_outline(body@),
{
    outline_of(parse_html_edges(body))
}


/// The outline of a page: pairs of depth and node, in document order.
pub type OutlineView = Seq<(int, NodeView)>;

/// The first index from `j` on whose depth is at most `d`, or the length.
pub open spec fn scope_end(o: OutlineView, d: int, j: int) -> int
    decreases o.len() - j,
{
    if 0 <= j < o.len() && o[j].0 > d {
        scope_end(o, d, j + 1)
    } else {
        j
    }
}

/// The end of the subtree of entry `k`: its descendants are the entries
/// strictly between `k` and this index.
pub open spec fn subtree_end(o: OutlineView, k: int) -> int {
    scope_end(o, o[k].0, k + 1)
}

pub proof fn lemma_scope_end(o: OutlineView, d: int, j: int)
    requires
        0 <= j <= o.len(),
    ensures
        j <= scope_end(o, d, j) <= o.len(),
        forall|m: int| j <= m < scope_end(o, d, j) ==> #[trigger] o[m].0 > d,
    decreases o.len() - j,
{
    if j < o.len() && o[j].0 > d {
        lemma_scope_end(o, d, j + 1);
    }
}

/// The end of the scope of depth `d` that starts at `j`.
pub fn scope_end_exec(o: &Vec<Entry>, d: usize, j: usize) -> (r: usize)
    requires
        j <= o.len(),
    ensures
        r == scope_end(entry_views(o@), d as int, j as int),
        j <= r <= o.len(),
{
    let ghost ov = entry_views(o@);
    proof {
        lemma_scope_end(ov, d as int, j as int);
    }
    let mut k: usize = j;
    while k < o.len() && o[k].depth > d
        invariant
            j <= k <= o.len(),
            ov == entry_views(o@),
            scope_end(ov, d as int, j as int) == scope_end(ov, d as int, k as int),
        decreases o.len() - k,
    {
        k = k + 1;
    }
    k
}

/// The whitespace that separates the words of a `class` attribute.
pub open spec fn is_class_space(c: char) -> bool {
    c == ' ' || c == '\t' || c == '\n' || c == '\r' || c == '\x0C'
}

/// `w` occurs in `c` at `i` as a whole word.
pub open spec fn word_at(c: Seq<char>, i: int, w: Seq<char>) -> bool {
    &&& occurs_at(c, i, w)
    &&& (i == 0 || is_class_space(c[i - 1]))
    &&& (i + w.len() == c.len() || is_class_space(c[i + w.len()]))
}

/// The non-empty `w` is one of the whitespace-separated words of `c`.
pub open spec fn has_word(c: Seq<char>, w: Seq<char>) -> bool {
    w.len() > 0 && exists|i: int| word_at(c, i, w)
}

/// `n` is an element whose `class` attribute holds the word `w`.
pub open spec fn has_class(n: NodeView, w: Seq<char>) -> bool {
    match n {
        NodeView::Element { class: Some(c), .. } => has_word(c, w),
        _ => false,
    }
}

/// The first entry in `[from, to)` that is an element of class `w`.
pub open spec fn first_with_class(o: OutlineView, w: Seq<char>, from: int, to: int) -> Option<int>
    decreases to - from,
{
    if from < 0 || from >= to || from >= o.len() {
        None
    } else if has_class(o[from].1, w) {
        Some(from)
    } else {
        first_with_class(o, w, from + 1, to)
    }
}

fn is_class_space_exec(c: char) -> (r: bool)
    ensures
        r == is_class_space(c),
{
    c == ' ' || c == '\t' || c == '\n' || c == '\r' || c == '\x0C'
}

/// Whether the non-empty `w` is a word of `c`.
pub fn has_word_exec(c: &Vec<char>, w: &Vec<char>) -> (r: bool)
    ensures
        r == has_word(c@, w@),
{
    if w.len() == 0 || w.len() > c.len() {
        return false;
    }
    let last = c.len() - w.len();
    let mut i: usize = 0;
    while i <= last
        invariant
            last == c.len() - w.len(),
            0 < w.len() <= c.len(),
            i <= last + 1,
            forall|j: int| 0 <= j < i ==> !word_at(c@, j, w@),
        decreases last + 1 - i,
    {
        if occurs_at_exec(c, i, w) && (i == 0 || is_class_space_exec(c[i - 1])) && (i == last
            || is_class_space_exec(c[i + w.len()])) {
            assert(word_at(c@, i as int, w@));
            return true;
        }
        i = i + 1;
    }
    assert forall|j: int| !word_at(c@, j, w@) by {
        if word_at(c@, j, w@) && j > last {
        }
    }
    false
}

/// Whether node `n` is an element of class `w`.
pub fn has_class_exec(n: &MarkupNode, w: &Vec<char>) -> (r: bool)
    ensures
        r == has_class(n@, w@),
{
    match n {
        MarkupNode::Element { class: Some(c), .. } => has_word_exec(&chars_of(c.as_str()), w),
        _ => false,
    }
}

/// The first entry in `[from, to)` that is an element of class `w`.
pub fn find_class(o: &Vec<Entry>, w: &Vec<char>, from: usize, to: usize) -> (r: Option<usize>)
    requires
        to <= o.len(),
    ensures
        r matches Some(k) ==> from <= k < to,
        first_with_class(entry_views(o@), w@, from as int, to as int) == match r {
            Some(k) => Some(k as int),
            None => None::<int>,
        },
{
    let ghost ov = entry_views(o@);
    let mut k: usize = from;
    while k < to
        invariant
            from <= k,
            to <= o.len(),
            ov == entry_views(o@),
            first_with_class(ov, w@, from as int, to as int) == first_with_class(
                ov,
                w@,
                k as int,
                to as int,
            ),
        decreases to - k,
    {
        assert(ov[k as int] == o@[k as int]@);
        if has_class_exec(&o[k].node, w) {
            return Some(k);
        }
        k = k + 1;
    }
    None
}

} // verus!

//! A parsed page as plain data: its nodes in document order, each with its
//! depth, its text if it is a text node, the attributes that were asked for
//! and, for each selector that was asked for, whether it matches.
//!
//! The tree is read off the depths: the subtree of a node is the run of
//! deeper nodes that follows it.

use scraper::{ElementRef, Html, Selector};
use vstd::prelude::*;

verus! {

/// One node of a parsed page.
#[derive(Debug)]
pub struct Node {
    /// Number of ancestors.
    pub depth: usize,
    /// The text of a text node.
    pub text: Option<Vec<char>>,
    /// For each attribute name asked for, the value that the element has for it.
    pub attrs: Vec<Option<Vec<char>>>,
}

/// The mathematical content of a `Node`.
pub ghost struct MarkView {
    pub depth: nat,
    pub text: Option<Seq<char>>,
    pub attrs: Seq<Option<Seq<char>>>,
}

/// A node together with the selectors' verdicts on it.
pub ghost struct NodeView {
    pub depth: nat,
    pub text: Option<Seq<char>>,
    pub attrs: Seq<Option<Seq<char>>>,
    /// For each selector asked for, whether it matches the element; `None`
    /// where the node is no element or the selector is not valid.
    pub hits: Seq<Option<bool>>,
}

/// The content of an optional text.
pub open spec fn opt_text(o: Option<Vec<char>>) -> Option<Seq<char>> {
    match o {
        Some(s) => Some(s@),
        None => None,
    }
}

impl View for Node {
    type V = MarkView;

    open spec fn view(&self) -> MarkView {
        MarkView {
            depth: self.depth as nat,
            text: opt_text(self.text),
            attrs: Seq::new(self.attrs@.len(), |i: int| opt_text(self.attrs@[i])),
        }
    }
}

/// A parsed page: its nodes in document order and, node by node, the
/// selectors' verdicts.
#[derive(Debug)]
pub struct Page {
    pub nodes: Vec<Node>,
    pub hits: Vec<Vec<Option<bool>>>,
}

/// The nodes with the verdicts put beside them; a node for which no
/// verdicts are there has none.
pub open spec fn paired(marks: Seq<MarkView>, hits: Seq<Seq<Option<bool>>>) -> Seq<NodeView> {
    Seq::new(
        marks.len(),
        |i: int|
            NodeView {
                depth: marks[i].depth,
                text: marks[i].text,
                attrs: marks[i].attrs,
                hits: if i < hits.len() {
                    hits[i]
                } else {
                    Seq::empty()
                },
            },
    )
}

impl View for Page {
    type V = Seq<NodeView>;

    open spec fn view(&self) -> Seq<NodeView> {
        paired(
            Seq::new(self.nodes@.len(), |i: int| self.nodes@[i]@),
            Seq::new(self.hits@.len(), |i: int| self.hits@[i]@),
        )
    }
}

/// The contents of a list of string slices.
pub open spec fn strs_view(v: Seq<&str>) -> Seq<Seq<char>> {
    Seq::new(v.len(), |i: int| v[i]@)
}

/// The nodes of the document that `html` parses to, in document order from
/// the root element on, each with its number of ancestors, its text and
/// the values that it has for the attributes `names`.
pub uninterp spec fn scanned_nodes(html: Seq<char>, names: Seq<Seq<char>>) -> Seq<MarkView>;

/// For each node of the document that `html` parses to, in document order
/// from the root element on, the verdicts of the selectors `selectors`.
pub uninterp spec fn scanned_hits(html: Seq<char>, selectors: Seq<Seq<char>>) -> Seq<
    Seq<Option<bool>>,
>;

/// The page that `html` parses to, as read with the given selectors and
/// attribute names.
pub open spec fn scanned(
    html: Seq<char>,
    selectors: Seq<Seq<char>>,
    names: Seq<Seq<char>>,
) -> Seq<NodeView> {
    paired(scanned_nodes(html, names), scanned_hits(html, selectors))
}

/// `scraper::Html::parse_document` with `ego_tree`'s `descendants` and
/// `ancestors`, and `scraper::node::Element::attr`: parses `html` and walks
/// the root element's subtree in document order. Each node is recorded
/// with the number of its ancestors, its text if it is a text node, and
/// the value of each attribute in `names` if it is an element. The
/// contract only names the outcome.
#[verifier::external_body]
fn scan_nodes(html: &str, names: &Vec<&str>) -> (nodes: Vec<Node>)
    ensures
        Seq::new(nodes@.len(), |i: int| nodes@[i]@) == scanned_nodes(html@, strs_view(names@)),
{
    Html::parse_document(html).root_element().descendants().map(|n| Node {
        depth: n.ancestors().count(),
        text: n.value().as_text().map(|t| t.chars().collect()),
        attrs: names.iter().map(|a| n.value().as_element().and_then(|e| e.attr(a))
            .map(|v| v.chars().collect())).collect(),
    }).collect()
}

/// `scraper::Selector::parse` and `Selector::matches`, over the same walk
/// as `scan_nodes`: for each node, the verdict of each selector in
/// `selectors` on it; no verdict where the node is no element or the
/// selector does not parse. The contract only names the outcome.
#[verifier::external_body]
fn scan_hits(html: &str, selectors: &Vec<&str>) -> (hits: Vec<Vec<Option<bool>>>)
    ensures
        Seq::new(hits@.len(), |i: int| hits@[i]@) == scanned_hits(html@, strs_view(selectors@)),
{
    let sels: Vec<_> = selectors.iter().map(|s| Selector::parse(s).ok()).collect();
    Html::parse_document(html).root_element().descendants().map(|n| {
        sels.iter().map(|s| s.as_ref().zip(ElementRef::wrap(n))
            .map(|(s, e)| s.matches(&e))).collect()
    }).collect()
}

/// Selector `sel` matches node `j`.
pub open spec fn hit(nodes: Seq<NodeView>, j: int, sel: int) -> bool {
    0 <= j < nodes.len() && 0 <= sel < nodes[j].hits.len() && nodes[j].hits[sel] == Some(true)
}

/// First index from `j` on whose node is no deeper than `depth`; the
/// number of nodes if there is none.
pub open spec fn run_end(nodes: Seq<NodeView>, depth: nat, j: int) -> int
    decreases nodes.len() - j,
{
    if j < 0 || j >= nodes.len() {
        nodes.len() as int
    } else if nodes[j].depth <= depth {
        j
    } else {
        run_end(nodes, depth, j + 1)
    }
}

/// Index just past the subtree of node `i`; the number of nodes where
/// there is no node `i`.
pub open spec fn subtree_end(nodes: Seq<NodeView>, i: int) -> int {
    if 0 <= i < nodes.len() {
        run_end(nodes, nodes[i].depth, i + 1)
    } else {
        nodes.len() as int
    }
}

/// The nodes from `from` up to `to` that selector `sel` matches, in order.
pub open spec fn matches_in(nodes: Seq<NodeView>, sel: int, from: int, to: int) -> Seq<int>
    decreases to - from,
{
    if from >= to {
        Seq::empty()
    } else if hit(nodes, to - 1, sel) {
        matches_in(nodes, sel, from, to - 1).push(to - 1)
    } else {
        matches_in(nodes, sel, from, to - 1)
    }
}

/// The first node from `from` up to `to` that selector `sel` matches.
pub open spec fn first_match(nodes: Seq<NodeView>, sel: int, from: int, to: int) -> Option<int>
    decreases to - from,
{
    if from >= to {
        None
    } else if hit(nodes, from, sel) {
        Some(from)
    } else {
        first_match(nodes, sel, from + 1, to)
    }
}

/// The values that the nodes from `from` up to `to` which selector `sel`
/// matches have for attribute number `name`, in order; a node without the
/// attribute gives none.
pub open spec fn attrs_in(nodes: Seq<NodeView>, sel: int, name: int, from: int, to: int) -> Seq<
    Seq<char>,
>
    decreases to - from,
{
    if from >= to {
        Seq::empty()
    } else if hit(nodes, to - 1, sel) && attr_of(nodes, to - 1, name) is Some {
        attrs_in(nodes, sel, name, from, to - 1).push(attr_of(nodes, to - 1, name)->0)
    } else {
        attrs_in(nodes, sel, name, from, to - 1)
    }
}

/// The texts of the text nodes from `from` up to `to`, in order.
pub open spec fn texts_in(nodes: Seq<NodeView>, from: int, to: int) -> Seq<Seq<char>>
    decreases to - from,
{
    if from >= to || to > nodes.len() {
        Seq::empty()
    } else {
        match nodes[to - 1].text {
            Some(t) => texts_in(nodes, from, to - 1).push(t),
            None => texts_in(nodes, from, to - 1),
        }
    }
}

/// The texts of the text nodes in the subtree of node `i`, in order.
pub open spec fn texts_of(nodes: Seq<NodeView>, i: int) -> Seq<Seq<char>> {
    texts_in(nodes, i, subtree_end(nodes, i))
}

/// The text of node `i` on one line: the clean lines of its text nodes, a
/// space between each two.
pub open spec fn line_of(nodes: Seq<NodeView>, i: int) -> Seq<char> {
    crate::lines::spaced(texts_of(nodes, i))
}

/// The text of node `i` as one run: its text nodes run together, trimmed.
pub open spec fn run_of(nodes: Seq<NodeView>, i: int) -> Seq<char> {
    crate::lines::compact(texts_of(nodes, i))
}

/// The one-line texts of the nodes `idxs`, in order.
pub open spec fn lines_of(nodes: Seq<NodeView>, idxs: Seq<int>) -> Seq<Seq<char>> {
    Seq::new(idxs.len(), |k: int| line_of(nodes, idxs[k]))
}

/// The texts of the text nodes below the nodes `idxs`, node after node.
pub open spec fn texts_below(nodes: Seq<NodeView>, idxs: Seq<int>) -> Seq<Seq<char>>
    decreases idxs.len(),
{
    if idxs.len() == 0 {
        Seq::empty()
    } else {
        texts_below(nodes, idxs.drop_last()) + texts_of(nodes, idxs.last())
    }
}

/// The one-line text of the first node from `from` up to `to` that
/// selector `sel` matches.
pub open spec fn first_line(nodes: Seq<NodeView>, sel: int, from: int, to: int) -> Option<
    Seq<char>,
> {
    match first_match(nodes, sel, from, to) {
        Some(j) => Some(line_of(nodes, j)),
        None => None,
    }
}

/// The one-line texts of the nodes of the whole page that selector
/// `sel` matches, without the empty ones.
pub open spec fn paragraphs(nodes: Seq<NodeView>, sel: int) -> Seq<Seq<char>> {
    crate::lines::filled(lines_of(nodes, matches_in(nodes, sel, 0, nodes.len() as int)))
}

/// The paragraphs of the first of the selectors from `sel` up to `end`
/// that has any.
pub open spec fn first_paragraphs(nodes: Seq<NodeView>, sel: int, end: int) -> Seq<Seq<char>>
    decreases end - sel,
{
    if sel >= end {
        Seq::empty()
    } else if paragraphs(nodes, sel).len() > 0 {
        paragraphs(nodes, sel)
    } else {
        first_paragraphs(nodes, sel + 1, end)
    }
}

/// The one-line text of the first node from `from` up to `to` that
/// selector `sel` matches, where that text is not empty.
pub open spec fn filled_line(nodes: Seq<NodeView>, sel: int, from: int, to: int) -> Option<
    Seq<char>,
> {
    match first_line(nodes, sel, from, to) {
        Some(t) => if t.len() > 0 {
            Some(t)
        } else {
            None
        },
        None => None,
    }
}

/// The text as one run of the first node from `from` up to `to` that
/// selector `sel` matches.
pub open spec fn first_run(nodes: Seq<NodeView>, sel: int, from: int, to: int) -> Option<
    Seq<char>,
> {
    match first_match(nodes, sel, from, to) {
        Some(j) => Some(run_of(nodes, j)),
        None => None,
    }
}

/// The texts as one run of the nodes `idxs`, in order.
pub open spec fn runs_of(nodes: Seq<NodeView>, idxs: Seq<int>) -> Seq<Seq<char>> {
    Seq::new(idxs.len(), |k: int| run_of(nodes, idxs[k]))
}

/// The nearest node before `j` that is shallower than `depth`.
pub open spec fn shallower_before(nodes: Seq<NodeView>, depth: nat, j: int) -> Option<int>
    decreases j,
{
    if j <= 0 || j > nodes.len() {
        None
    } else if nodes[j - 1].depth < depth {
        Some(j - 1)
    } else {
        shallower_before(nodes, depth, j - 1)
    }
}

/// The parent of node `i`, if it is on the page.
pub open spec fn parent_of(nodes: Seq<NodeView>, i: int) -> Option<int> {
    if 0 <= i < nodes.len() {
        shallower_before(nodes, nodes[i].depth, i)
    } else {
        None
    }
}

/// Value of attribute number `name` of node `i`.
pub open spec fn attr_of(nodes: Seq<NodeView>, i: int, name: int) -> Option<Seq<char>> {
    if 0 <= i < nodes.len() && 0 <= name < nodes[i].attrs.len() {
        nodes[i].attrs[name]
    } else {
        None
    }
}

impl Page {
    /// The page that `html` parses to, with the verdicts of `selectors` and
    /// the values of the attributes `names`.
    pub fn parse(html: &str, selectors: &Vec<&str>, names: &Vec<&str>) -> (page: Page)
        ensures
            page@ == scanned(html@, strs_view(selectors@), strs_view(names@)),
    {
        Page { nodes: scan_nodes(html, names), hits: scan_hits(html, selectors) }
    }

    /// The number of nodes.
    pub fn len(&self) -> (n: usize)
        ensures
            n == self@.len(),
    {
        self.nodes.len()
    }

    /// Whether selector `sel` matches node `j`.
    pub fn is_hit(&self, j: usize, sel: usize) -> (r: bool)
        ensures
            r == hit(self@, j as int, sel as int),
    {
        if j < self.nodes.len() && j < self.hits.len() && sel < self.hits[j].len() {
            match self.hits[j][sel] {
                Some(b) => b,
                None => false,
            }
        } else {
            false
        }
    }

    /// Index just past the subtree of node `i`.
    pub fn end_of(&self, i: usize) -> (end: usize)
        ensures
            end == subtree_end(self@, i as int),
            end <= self@.len(),
            i < self@.len() ==> i < end,
    {
        let n = self.nodes.len();
        if i >= n {
            return n;
        }
        let depth = self.nodes[i].depth;
        let mut j: usize = i + 1;
        while j < self.nodes.len() && self.nodes[j].depth > depth
            invariant
                i < j <= self@.len(),
                depth == self@[i as int].depth,
                run_end(self@, depth as nat, j as int) == subtree_end(self@, i as int),
            decreases self.nodes.len() - j,
        {
            j += 1;
        }
        j
    }

    /// The nodes from `from` up to `to` that selector `sel` matches.
    pub fn select_range(&self, sel: usize, from: usize, to: usize) -> (out: Vec<usize>)
        ensures
            out@.map_values(|j: usize| j as int) == matches_in(
                self@,
                sel as int,
                from as int,
                to as int,
            ),
            forall|k: int| 0 <= k < out@.len() ==> #[trigger] out@[k] < self@.len(),
    {
        let mut out: Vec<usize> = Vec::new();
        let mut j: usize = from;
        assert(out@.map_values(|j: usize| j as int) =~= Seq::<int>::empty());
        if from >= to {
            return out;
        }
        while j < to
            invariant
                from <= j <= to,
                out@.map_values(|j: usize| j as int) == matches_in(
                    self@,
                    sel as int,
                    from as int,
                    j as int,
                ),
                forall|k: int| 0 <= k < out@.len() ==> #[trigger] out@[k] < self@.len(),
            decreases to - j,
        {
            let ghost before = out@.map_values(|j: usize| j as int);
            if self.is_hit(j, sel) {
                out.push(j);
                assert(out@.map_values(|j: usize| j as int) =~= before.push(j as int));
            }
            j += 1;
        }
        out
    }

    /// The first node from `from` up to `to` that selector `sel` matches.
    pub fn first_in_range(&self, sel: usize, from: usize, to: usize) -> (r: Option<usize>)
        ensures
            match r {
                Some(j) => first_match(self@, sel as int, from as int, to as int) == Some(
                    j as int,
                ) && from <= j < to && j < self@.len(),
                None => first_match(self@, sel as int, from as int, to as int) is None,
            },
    {
        let mut j: usize = from;
        while j < to
            invariant
                from <= j,
                first_match(self@, sel as int, j as int, to as int) == first_match(
                    self@,
                    sel as int,
                    from as int,
                    to as int,
                ),
            decreases to - j,
        {
            if self.is_hit(j, sel) {
                return Some(j);
            }
            j += 1;
        }
        None
    }

    /// The nodes of the whole page that selector `sel` matches.
    pub fn select(&self, sel: usize) -> (out: Vec<usize>)
        ensures
            out@.map_values(|j: usize| j as int) == matches_in(
                self@,
                sel as int,
                0,
                self@.len() as int,
            ),
            forall|k: int| 0 <= k < out@.len() ==> #[trigger] out@[k] < self@.len(),
    {
        self.select_range(sel, 0, self.nodes.len())
    }

    /// The first node of the whole page that selector `sel` matches.
    pub fn first(&self, sel: usize) -> (r: Option<usize>)
        ensures
            match r {
                Some(j) => first_match(self@, sel as int, 0, self@.len() as int) == Some(
                    j as int,
                ) && j < self@.len(),
                None => first_match(self@, sel as int, 0, self@.len() as int) is None,
            },
    {
        self.first_in_range(sel, 0, self.nodes.len())
    }

    /// The descendants of node `scope` that selector `sel` matches.
    pub fn select_in(&self, scope: usize, sel: usize) -> (out: Vec<usize>)
        ensures
            out@.map_values(|j: usize| j as int) == matches_in(
                self@,
                sel as int,
                scope + 1,
                subtree_end(self@, scope as int),
            ),
            forall|k: int| 0 <= k < out@.len() ==> #[trigger] out@[k] < self@.len(),
    {
        let end = self.end_of(scope);
        if scope >= end {
            let none: Vec<usize> = Vec::new();
            assert(none@.map_values(|j: usize| j as int) =~= Seq::<int>::empty());
            return none;
        }
        self.select_range(sel, scope + 1, end)
    }

    /// The first descendant of node `scope` that selector `sel` matches.
    pub fn first_in(&self, scope: usize, sel: usize) -> (r: Option<usize>)
        ensures
            match r {
                Some(j) => first_match(
                    self@,
                    sel as int,
                    scope + 1,
                    subtree_end(self@, scope as int),
                ) == Some(j as int) && j < self@.len(),
                None => first_match(
                    self@,
                    sel as int,
                    scope + 1,
                    subtree_end(self@, scope as int),
                ) is None,
            },
    {
        let end = self.end_of(scope);
        if scope >= end {
            return None;
        }
        self.first_in_range(sel, scope + 1, end)
    }

    /// The values of attribute number `name` of the nodes from `from` up
    /// to `to` that selector `sel` matches.
    pub fn attrs_range(&self, sel: usize, name: usize, from: usize, to: usize) -> (out: Vec<
        Vec<char>,
    >)
        ensures
            crate::text::views(out@) == attrs_in(
                self@,
                sel as int,
                name as int,
                from as int,
                to as int,
            ),
    {
        let mut out: Vec<Vec<char>> = Vec::new();
        let mut j: usize = from;
        assert(crate::text::views(out@) =~= Seq::<Seq<char>>::empty());
        if from >= to {
            return out;
        }
        while j < to
            invariant
                from <= j <= to,
                crate::text::views(out@) == attrs_in(
                    self@,
                    sel as int,
                    name as int,
                    from as int,
                    j as int,
                ),
            decreases to - j,
        {
            let ghost before = crate::text::views(out@);
            if self.is_hit(j, sel) {
                match self.attr(j, name) {
                    Some(v) => {
                        out.push(v);
                        assert(crate::text::views(out@) =~= before.push(v@));
                    },
                    None => {},
                }
            }
            j += 1;
        }
        out
    }

    /// The values of attribute number `name` of the nodes of the whole
    /// page that selector `sel` matches.
    pub fn attr_values(&self, sel: usize, name: usize) -> (out: Vec<Vec<char>>)
        ensures
            crate::text::views(out@) == attrs_in(
                self@,
                sel as int,
                name as int,
                0,
                self@.len() as int,
            ),
    {
        self.attrs_range(sel, name, 0, self.nodes.len())
    }

    /// The texts of the text nodes from `from` up to `to`.
    pub fn texts_range(&self, from: usize, to: usize) -> (out: Vec<Vec<char>>)
        ensures
            crate::text::views(out@) == texts_in(self@, from as int, to as int),
    {
        let mut out: Vec<Vec<char>> = Vec::new();
        let mut j: usize = from;
        assert(crate::text::views(out@) =~= Seq::<Seq<char>>::empty());
        if from >= to || to > self.nodes.len() {
            return out;
        }
        while j < to
            invariant
                from <= j <= to,
                to <= self@.len(),
                crate::text::views(out@) == texts_in(self@, from as int, j as int),
            decreases to - j,
        {
            let ghost before = crate::text::views(out@);
            match &self.nodes[j].text {
                Some(t) => {
                    let copy = crate::text::slice(t, 0, t.len());
                    assert(copy@ == t@) by {
                        assert(t@.subrange(0, t.len() as int) == t@);
                    }
                    out.push(copy);
                    assert(crate::text::views(out@) =~= before.push(t@));
                },
                None => {},
            }
            j += 1;
        }
        out
    }

    /// The texts of the text nodes in the subtree of node `i`.
    pub fn texts(&self, i: usize) -> (out: Vec<Vec<char>>)
        ensures
            crate::text::views(out@) == texts_of(self@, i as int),
    {
        let end = self.end_of(i);
        self.texts_range(i, end)
    }

    /// The texts of all text nodes of the page.
    pub fn all_texts(&self) -> (out: Vec<Vec<char>>)
        ensures
            crate::text::views(out@) == texts_in(self@, 0, self@.len() as int),
    {
        self.texts_range(0, self.nodes.len())
    }

    /// The parent of node `i`, if it is on the page.
    pub fn parent(&self, i: usize) -> (r: Option<usize>)
        ensures
            match r {
                Some(p) => parent_of(self@, i as int) == Some(p as int) && p < i,
                None => parent_of(self@, i as int) is None,
            },
    {
        if i >= self.nodes.len() {
            return None;
        }
        let depth = self.nodes[i].depth;
        let mut j: usize = i;
        while j > 0
            invariant
                j <= i < self@.len(),
                depth == self@[i as int].depth,
                shallower_before(self@, depth as nat, j as int) == parent_of(self@, i as int),
            decreases j,
        {
            if self.nodes[j - 1].depth < depth {
                return Some(j - 1);
            }
            j -= 1;
        }
        None
    }

    /// Value of attribute number `name` of node `i`.
    pub fn attr(&self, i: usize, name: usize) -> (r: Option<Vec<char>>)
        ensures
            opt_text(r) == attr_of(self@, i as int, name as int),
    {
        if i < self.nodes.len() && name < self.nodes[i].attrs.len() {
            match &self.nodes[i].attrs[name] {
                Some(v) => {
                    let copy = crate::text::slice(v, 0, v.len());
                    assert(v@.subrange(0, v.len() as int) == v@);
                    Some(copy)
                },
                None => None,
            }
        } else {
            None
        }
    }
}

impl Page {
    /// The text of node `i` on one line.
    pub fn line(&self, i: usize) -> (out: Vec<char>)
        ensures
            out@ == line_of(self@, i as int),
    {
        crate::lines::space_out(&self.texts(i))
    }

    /// The text of node `i` as one run.
    pub fn run(&self, i: usize) -> (out: Vec<char>)
        ensures
            out@ == run_of(self@, i as int),
    {
        crate::lines::compact_text(&self.texts(i))
    }

    /// The one-line texts of the nodes `idxs`.
    pub fn lines(&self, idxs: &Vec<usize>) -> (out: Vec<Vec<char>>)
        ensures
            crate::text::views(out@) == lines_of(self@, idxs@.map_values(|j: usize| j as int)),
    {
        let mut out: Vec<Vec<char>> = Vec::new();
        let mut k: usize = 0;
        while k < idxs.len()
            invariant
                k <= idxs.len(),
                out@.len() == k,
                forall|m: int| 0 <= m < k ==> (#[trigger] out@[m])@ == line_of(self@, idxs@[m] as int),
            decreases idxs.len() - k,
        {
            out.push(self.line(idxs[k]));
            k += 1;
        }
        assert(crate::text::views(out@) =~= lines_of(
            self@,
            idxs@.map_values(|j: usize| j as int),
        ));
        out
    }

    /// The texts of the text nodes below the nodes `idxs`, node after node.
    pub fn texts_under(&self, idxs: &Vec<usize>) -> (out: Vec<Vec<char>>)
        ensures
            crate::text::views(out@) == texts_below(self@, idxs@.map_values(|j: usize| j as int)),
    {
        let ghost all = idxs@.map_values(|j: usize| j as int);
        let mut out: Vec<Vec<char>> = Vec::new();
        let mut k: usize = 0;
        assert(crate::text::views(out@) =~= texts_below(self@, all.take(0)));
        while k < idxs.len()
            invariant
                k <= idxs.len(),
                all == idxs@.map_values(|j: usize| j as int),
                crate::text::views(out@) == texts_below(self@, all.take(k as int)),
            decreases idxs.len() - k,
        {
            proof {
                assert(all.take(k + 1).drop_last() == all.take(k as int));
                assert(all.take(k + 1).last() == idxs@[k as int] as int);
            }
            let ghost before = crate::text::views(out@);
            let mut more = self.texts(idxs[k]);
            let ghost added = crate::text::views(more@);
            out.append(&mut more);
            assert(crate::text::views(out@) =~= before + added);
            k += 1;
        }
        proof {
            assert(all.take(idxs.len() as int) == all);
        }
        out
    }

    /// The one-line text of the first node from `from` up to `to` that
    /// selector `sel` matches.
    pub fn first_line_in_range(&self, sel: usize, from: usize, to: usize) -> (r: Option<
        Vec<char>,
    >)
        ensures
            opt_text(r) == first_line(self@, sel as int, from as int, to as int),
    {
        match self.first_in_range(sel, from, to) {
            Some(j) => Some(self.line(j)),
            None => None,
        }
    }
}

impl Page {
    /// The one-line texts of the nodes that selector `sel` matches, without
    /// the empty ones.
    pub fn paragraphs_of(&self, sel: usize) -> (out: Vec<Vec<char>>)
        ensures
            crate::text::views(out@) == paragraphs(self@, sel as int),
    {
        let found = self.select(sel);
        crate::lines::keep_filled(&self.lines(&found))
    }

    /// The paragraphs of the first of the selectors from `sel` up to `end`
    /// that has any.
    pub fn first_paragraphs_of(&self, sel: usize, end: usize) -> (out: Vec<Vec<char>>)
        ensures
            crate::text::views(out@) == first_paragraphs(self@, sel as int, end as int),
    {
        let mut k: usize = sel;
        while k < end
            invariant
                sel <= k,
                first_paragraphs(self@, k as int, end as int) == first_paragraphs(
                    self@,
                    sel as int,
                    end as int,
                ),
            decreases end - k,
        {
            let found = self.paragraphs_of(k);
            if found.len() > 0 {
                return found;
            }
            k += 1;
        }
        let none: Vec<Vec<char>> = Vec::new();
        assert(crate::text::views(none@) =~= Seq::<Seq<char>>::empty());
        none
    }
}

impl Page {
    /// The one-line text of the first node from `from` up to `to` that
    /// selector `sel` matches, where that text is not empty.
    pub fn filled_line_in_range(&self, sel: usize, from: usize, to: usize) -> (r: Option<
        Vec<char>,
    >)
        ensures
            opt_text(r) == filled_line(self@, sel as int, from as int, to as int),
    {
        match self.first_line_in_range(sel, from, to) {
            Some(t) => if t.len() > 0 {
                Some(t)
            } else {
                None
            },
            None => None,
        }
    }

    /// The text as one run of the first node from `from` up to `to` that
    /// selector `sel` matches.
    pub fn first_run_in_range(&self, sel: usize, from: usize, to: usize) -> (r: Option<Vec<char>>)
        ensures
            opt_text(r) == first_run(self@, sel as int, from as int, to as int),
    {
        match self.first_in_range(sel, from, to) {
            Some(j) => Some(self.run(j)),
            None => None,
        }
    }

    /// The texts as one run of the nodes `idxs`.
    pub fn runs(&self, idxs: &Vec<usize>) -> (out: Vec<Vec<char>>)
        ensures
            crate::text::views(out@) == runs_of(self@, idxs@.map_values(|j: usize| j as int)),
    {
        let mut out: Vec<Vec<char>> = Vec::new();
        let mut k: usize = 0;
        while k < idxs.len()
            invariant
                k <= idxs.len(),
                out@.len() == k,
                forall|m: int| 0 <= m < k ==> (#[trigger] out@[m])@ == run_of(self@, idxs@[m] as int),
            decreases idxs.len() - k,
        {
            out.push(self.run(idxs[k]));
            k += 1;
        }
        assert(crate::text::views(out@) =~= runs_of(
            self@,
            idxs@.map_values(|j: usize| j as int),
        ));
        out
    }
}

} // verus!

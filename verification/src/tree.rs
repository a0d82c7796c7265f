//! A syntax tree held as plain values: the nodes in document order, each with its depth.
//!
//! The nodes stand in pre-order. The subtree of a node is the run of nodes that follow
//! it and lie deeper than it; its children are the first node of that run and then,
//! from each child, the node that follows the child's own subtree.

use vstd::prelude::*;
use vstd::utf8::*;
use crate::mutants::{Mutation, MutationView};
use crate::text::{
    bytes_of, context_after, context_before, get_context, is_valid_span, line_texts, span,
    span_text, split_lines, str_eq, valid_span,
};

verus! {

/// One node of a syntax tree.
#[derive(Debug, Clone)]
pub struct SyntaxNode {
    /// The node's type in its grammar.
    pub kind: String,
    /// The name of the field of its parent that the node fills, if any.
    pub field: Option<String>,
    /// The number of ancestors of the node.
    pub depth: usize,
    /// The first byte of the node's text.
    pub start_byte: usize,
    /// The first byte after the node's text.
    pub end_byte: usize,
    /// The line on which the node starts, counted from 0.
    pub row: usize,
    /// The byte column at which the node starts, counted from 0.
    pub column: usize,
}

/// The mathematical value of a [`SyntaxNode`].
pub struct NodeView {
    pub kind: Seq<char>,
    pub field: Option<Seq<char>>,
    pub depth: int,
    pub start_byte: int,
    pub end_byte: int,
    pub row: int,
    pub column: int,
}

impl View for SyntaxNode {
    type V = NodeView;

    open spec fn view(&self) -> NodeView {
        NodeView {
            kind: self.kind@,
            field: match self.field {
                Some(name) => Some(name@),
                None => None,
            },
            depth: self.depth as int,
            start_byte: self.start_byte as int,
            end_byte: self.end_byte as int,
            row: self.row as int,
            column: self.column as int,
        }
    }
}

impl DeepView for SyntaxNode {
    type V = NodeView;

    open spec fn deep_view(&self) -> NodeView {
        self@
    }
}

/// The mathematical value of a [`SyntaxTree`]: a source text and its nodes in document
/// order.
pub struct TreeView {
    pub source: Seq<char>,
    pub nodes: Seq<NodeView>,
}

impl TreeView {
    /// The number of nodes.
    pub open spec fn len(self) -> int {
        self.nodes.len() as int
    }

    /// The bytes of the source text.
    pub open spec fn bytes(self) -> Seq<u8> {
        bytes_of(self.source)
    }

    /// The first index at or after `j` whose node lies no deeper than `level`.
    pub open spec fn run_end(self, level: int, j: int) -> int
        decreases self.nodes.len() - j,
    {
        if 0 <= j < self.nodes.len() && self.nodes[j].depth > level {
            self.run_end(level, j + 1)
        } else {
            j
        }
    }

    /// The index after the last node of the subtree of node `i`.
    pub open spec fn subtree_end(self, i: int) -> int {
        self.run_end(self.nodes[i].depth, i + 1)
    }

    /// The node `c` and the siblings that follow it, up to `stop`.
    pub open spec fn siblings(self, c: int, stop: int) -> Seq<int>
        decreases self.nodes.len() - c,
    {
        if 0 <= c < stop <= self.len() {
            proof {
                self.lemma_run_end(self.nodes[c].depth, c + 1);
            }
            seq![c] + self.siblings(self.subtree_end(c), stop)
        } else {
            seq![]
        }
    }

    /// The children of node `i`, in document order.
    pub open spec fn children(self, i: int) -> Seq<int> {
        self.siblings(i + 1, self.subtree_end(i))
    }

    /// The nearest node at or before `j` whose subtree holds node `i`.
    pub open spec fn enclosing(self, i: int, j: int) -> Option<int>
        decreases j + 1,
    {
        if j < 0 {
            None
        } else if self.subtree_end(j) > i {
            Some(j)
        } else {
            self.enclosing(i, j - 1)
        }
    }

    /// The parent of node `i`.
    pub open spec fn parent(self, i: int) -> Option<int> {
        self.enclosing(i, i - 1)
    }

    /// The first of `kids` that fills the field `name`.
    pub open spec fn first_with_field(self, kids: Seq<int>, name: Seq<char>) -> Option<int>
        decreases kids.len(),
    {
        if kids.len() == 0 {
            None
        } else if self.nodes[kids[0]].field == Some(name) {
            Some(kids[0])
        } else {
            self.first_with_field(kids.drop_first(), name)
        }
    }

    /// The first child of node `i` that fills the field `name`.
    pub open spec fn child_by_field(self, i: int, name: Seq<char>) -> Option<int> {
        self.first_with_field(self.children(i), name)
    }

    /// The `k`-th child of node `i`.
    pub open spec fn child(self, i: int, k: int) -> Option<int> {
        if 0 <= k < self.children(i).len() {
            Some(self.children(i)[k])
        } else {
            None
        }
    }

    /// Node `i` names a range of the source that can be cut out of it, and its line and
    /// column can be counted from 1.
    pub open spec fn node_fits(self, i: int) -> bool {
        &&& valid_span(self.bytes(), self.nodes[i].start_byte, self.nodes[i].end_byte)
        &&& self.nodes[i].row < usize::MAX
        &&& self.nodes[i].column < usize::MAX
    }

    /// Every node fits the source.
    pub open spec fn fits(self) -> bool {
        forall|i: int| 0 <= i < self.len() ==> self.node_fits(i)
    }

    /// The source text of node `i`.
    pub open spec fn text(self, i: int) -> Seq<char> {
        span_text(self.source, self.nodes[i].start_byte, self.nodes[i].end_byte)
    }

    /// The edit that replaces the text of node `span` and is reported at the position of
    /// node `at`.
    pub open spec fn edit(self, at: int, span: int, operator: Seq<char>, replacement: Seq<char>)
        -> MutationView {
        MutationView {
            line: self.nodes[at].row + 1,
            column: self.nodes[at].column + 1,
            start_byte: self.nodes[span].start_byte,
            end_byte: self.nodes[span].end_byte,
            operator,
            original: self.text(span),
            replacement,
            context_before: context_before(line_texts(self.source), self.nodes[at].row, 2),
            context_after: context_after(line_texts(self.source), self.nodes[at].row, 2),
        }
    }

    /// A run ends inside the tree, at a node that lies no deeper than the level, and
    /// covers only deeper nodes.
    pub proof fn lemma_run_end(self, level: int, j: int)
        requires
            0 <= j <= self.len(),
        ensures
            j <= self.run_end(level, j) <= self.len(),
            self.run_end(level, j) < self.len() ==> self.nodes[self.run_end(level, j)].depth
                <= level,
            forall|k: int| j <= k < self.run_end(level, j) ==> self.nodes[k].depth > level,
        decreases self.len() - j,
    {
        if j < self.len() && self.nodes[j].depth > level {
            self.lemma_run_end(level, j + 1);
        }
    }

    /// The subtree of a node is not empty and lies inside the tree.
    pub proof fn lemma_subtree_end(self, i: int)
        requires
            0 <= i < self.len(),
        ensures
            i < self.subtree_end(i) <= self.len(),
    {
        self.lemma_run_end(self.nodes[i].depth, i + 1);
    }

    /// Subtrees nest: the subtree of a node inside a subtree ends inside it.
    pub proof fn lemma_nested(self, i: int, j: int)
        requires
            0 <= i < j < self.subtree_end(i),
            i < self.len(),
        ensures
            j < self.subtree_end(j) <= self.subtree_end(i),
    {
        self.lemma_run_end(self.nodes[i].depth, i + 1);
        self.lemma_run_end(self.nodes[j].depth, j + 1);
        let e = self.subtree_end(i);
        let f = self.subtree_end(j);
        if f > e {
            assert(self.nodes[e].depth > self.nodes[j].depth);
            assert(self.nodes[j].depth > self.nodes[i].depth);
        }
    }

    /// The children of a node lie inside its subtree, in rising order.
    pub proof fn lemma_siblings(self, c: int, stop: int)
        requires
            0 <= c <= stop <= self.len(),
        ensures
            forall|k: int|
                0 <= k < self.siblings(c, stop).len() ==> c <= #[trigger] self.siblings(c, stop)[k]
                    < stop,
        decreases stop - c,
    {
        if c < stop {
            self.lemma_subtree_end(c);
            let next = self.subtree_end(c);
            if next <= stop {
                self.lemma_siblings(next, stop);
            }
            assert forall|k: int| 0 <= k < self.siblings(c, stop).len() implies c
                <= #[trigger] self.siblings(c, stop)[k] < stop by {
                if k > 0 {
                    assert(self.siblings(c, stop)[k] == self.siblings(next, stop)[k - 1]);
                }
            }
        }
    }

    /// The children of a node lie inside its subtree.
    pub proof fn lemma_children(self, i: int)
        requires
            0 <= i < self.len(),
        ensures
            forall|k: int|
                0 <= k < self.children(i).len() ==> i < #[trigger] self.children(i)[k]
                    < self.subtree_end(i),
    {
        self.lemma_subtree_end(i);
        self.lemma_siblings(i + 1, self.subtree_end(i));
    }

    /// The first of `kids` that fills a field is one of `kids`.
    pub proof fn lemma_first_with_field(self, kids: Seq<int>, name: Seq<char>)
        ensures
            self.first_with_field(kids, name) matches Some(c) ==> kids.contains(c),
        decreases kids.len(),
    {
        if kids.len() > 0 {
            if self.nodes[kids[0]].field == Some(name) {
                assert(kids[0] == kids[0]);
            } else {
                self.lemma_first_with_field(kids.drop_first(), name);
                match self.first_with_field(kids.drop_first(), name) {
                    Some(c) => {
                        let k = choose|k: int|
                            0 <= k < kids.drop_first().len() && kids.drop_first()[k] == c;
                        assert(kids[k + 1] == c);
                    },
                    None => {},
                }
            }
        }
    }

    /// The text of a node that fits is the text that its bytes spell.
    pub proof fn lemma_text_bytes(self, i: int)
        requires
            0 <= i < self.len(),
            self.node_fits(i),
        ensures
            bytes_of(self.text(i)) == self.bytes().subrange(
                self.nodes[i].start_byte,
                self.nodes[i].end_byte,
            ),
    {
        let bytes = self.bytes();
        let from = self.nodes[i].start_byte;
        let to = self.nodes[i].end_byte;
        encode_utf8_valid_utf8(self.source);
        crate::text::lemma_boundary_in_prefix(bytes, from, to);
        let head = bytes.subrange(0, to);
        valid_utf8_split(head, from);
        assert(head.subrange(from, head.len() as int) =~= bytes.subrange(from, to));
        decode_utf8_encode_utf8(bytes.subrange(from, to));
    }
}

/// A syntax tree over a source text.
#[derive(Debug)]
pub struct SyntaxTree {
    source: String,
    nodes: Vec<SyntaxNode>,
    ends: Vec<usize>,
    lines: Vec<String>,
}

impl View for SyntaxTree {
    type V = TreeView;

    closed spec fn view(&self) -> TreeView {
        TreeView { source: self.source@, nodes: self.nodes.deep_view() }
    }
}

impl SyntaxTree {
    /// The tree is consistent: every node fits the source, and what the tree keeps
    /// beside the nodes agrees with them.
    pub closed spec fn wf(&self) -> bool {
        &&& self@.fits()
        &&& self.ends@.len() == self.nodes@.len()
        &&& forall|i: int| 0 <= i < self.nodes@.len() ==> self.ends@[i] == self@.subtree_end(i)
        &&& self.lines.deep_view() == line_texts(self.source@)
    }

    /// Every node of a consistent tree fits the source.
    pub proof fn lemma_wf_fits(&self)
        requires
            self.wf(),
        ensures
            self@.fits(),
    {
    }

    /// The tree of `nodes` over `source`, if every node fits the source.
    pub fn new(source: &str, nodes: Vec<SyntaxNode>) -> (r: Option<SyntaxTree>)
        ensures
            (TreeView { source: source@, nodes: nodes.deep_view() }).fits() <==> r is Some,
            r matches Some(tree) ==> tree.wf() && tree@ == (TreeView {
                source: source@,
                nodes: nodes.deep_view(),
            }),
    {
        let ghost view = TreeView { source: source@, nodes: nodes.deep_view() };
        let n = nodes.len();
        let mut ends: Vec<usize> = Vec::new();
        let mut i: usize = 0;
        while i < n
            invariant
                view == (TreeView { source: source@, nodes: nodes.deep_view() }),
                n == nodes.len(),
                0 <= i <= n,
                ends.len() == i,
                forall|k: int| 0 <= k < i ==> view.node_fits(k),
                forall|k: int| 0 <= k < i ==> ends@[k] == view.subtree_end(k),
            decreases n - i,
        {
            let node = &nodes[i];
            assert(view.nodes[i as int] == node@);
            if !is_valid_span(source, node.start_byte, node.end_byte) || node.row == usize::MAX
                || node.column == usize::MAX {
                assert(!view.node_fits(i as int));
                return None;
            }
            let level = node.depth;
            let mut j: usize = i + 1;
            while j < n && nodes[j].depth > level
                invariant
                    view == (TreeView { source: source@, nodes: nodes.deep_view() }),
                    n == nodes.len(),
                    i < j <= n,
                    view.run_end(level as int, i + 1) == view.run_end(level as int, j as int),
                decreases n - j,
            {
                assert(view.nodes[j as int] == nodes[j as int]@);
                j = j + 1;
            }
            assert(j < n ==> view.nodes[j as int] == nodes[j as int]@);
            ends.push(j);
            i = i + 1;
        }
        let tree = SyntaxTree { source: source.to_owned(), nodes, ends, lines: split_lines(source) };
        assert(tree@ == view);
        Some(tree)
    }

    /// The source text.
    pub fn source(&self) -> (r: &str)
        ensures
            r@ == self@.source,
    {
        self.source.as_str()
    }

    /// The number of nodes.
    pub fn len(&self) -> (r: usize)
        ensures
            r == self@.len(),
    {
        self.nodes.len()
    }

    /// Node `i`.
    pub fn node(&self, i: usize) -> (r: &SyntaxNode)
        requires
            i < self@.len(),
        ensures
            r@ == self@.nodes[i as int],
    {
        &self.nodes[i]
    }

    /// Whether node `i` is of the given kind.
    pub fn kind_is(&self, i: usize, kind: &str) -> (r: bool)
        requires
            i < self@.len(),
        ensures
            r == (self@.nodes[i as int].kind == kind@),
    {
        str_eq(self.nodes[i].kind.as_str(), kind)
    }

    /// The source text of node `i`.
    pub fn text(&self, i: usize) -> (r: &str)
        requires
            self.wf(),
            i < self@.len(),
        ensures
            r@ == self@.text(i as int),
    {
        let node = &self.nodes[i];
        assert(self@.node_fits(i as int));
        span(self.source.as_str(), node.start_byte, node.end_byte)
    }

    /// The index after the last node of the subtree of node `i`.
    pub fn subtree_end(&self, i: usize) -> (r: usize)
        requires
            self.wf(),
            i < self@.len(),
        ensures
            r == self@.subtree_end(i as int),
            i < r <= self@.len(),
    {
        proof {
            self@.lemma_subtree_end(i as int);
        }
        self.ends[i]
    }

    /// The children of node `i`, in document order.
    pub fn children(&self, i: usize) -> (r: Vec<usize>)
        requires
            self.wf(),
            i < self@.len(),
        ensures
            r@.map_values(|c: usize| c as int) == self@.children(i as int),
            r.len() == self@.children(i as int).len(),
            forall|k: int| 0 <= k < r.len() ==> i < #[trigger] r[k] < self@.len(),
            forall|k: int| 0 <= k < r.len() ==> r[k] as int == self@.children(i as int)[k],
    {
        let stop = self.subtree_end(i);
        let mut out: Vec<usize> = Vec::new();
        let mut c: usize = i + 1;
        while c < stop
            invariant
                self.wf(),
                i < c,
                i < stop <= self@.len(),
                stop == self@.subtree_end(i as int),
                c <= stop,
                out@.map_values(|c: usize| c as int) + self@.siblings(c as int, stop as int)
                    == self@.children(i as int),
                forall|k: int| 0 <= k < out.len() ==> i < #[trigger] out[k] < self@.len(),
            decreases stop - c,
        {
            let ghost before = out@.map_values(|c: usize| c as int);
            out.push(c);
            let next = self.subtree_end(c);
            proof {
                self@.lemma_nested(i as int, c as int);
                assert(out@.map_values(|c: usize| c as int) =~= before.push(c as int));
                assert(before.push(c as int) + self@.siblings(next as int, stop as int) =~= before
                    + (seq![c as int] + self@.siblings(next as int, stop as int)));
            }
            c = next;
        }
        proof {
            assert(out@.map_values(|c: usize| c as int) + self@.siblings(c as int, stop as int)
                =~= out@.map_values(|c: usize| c as int));
            assert forall|k: int| 0 <= k < out.len() implies out[k] as int == self@.children(
                i as int,
            )[k] by {
                assert(out@.map_values(|c: usize| c as int)[k] == out[k] as int);
            }
        }
        out
    }

    /// The `k`-th child of node `i`.
    pub fn child(&self, i: usize, k: usize) -> (r: Option<usize>)
        requires
            self.wf(),
            i < self@.len(),
        ensures
            match r {
                Some(c) => self@.child(i as int, k as int) == Some(c as int) && i < c < self@.len(),
                None => self@.child(i as int, k as int) is None,
            },
    {
        let kids = self.children(i);
        if k < kids.len() {
            assert(kids@.map_values(|c: usize| c as int)[k as int] == kids[k as int] as int);
            Some(kids[k])
        } else {
            assert(kids@.map_values(|c: usize| c as int).len() == kids.len());
            None
        }
    }

    /// The number of children of node `i`.
    pub fn child_count(&self, i: usize) -> (r: usize)
        requires
            self.wf(),
            i < self@.len(),
        ensures
            r == self@.children(i as int).len(),
    {
        let kids = self.children(i);
        assert(kids@.map_values(|c: usize| c as int).len() == kids.len());
        kids.len()
    }

    /// The first child of node `i` that fills the field `name`.
    pub fn child_by_field(&self, i: usize, name: &str) -> (r: Option<usize>)
        requires
            self.wf(),
            i < self@.len(),
        ensures
            match r {
                Some(c) => self@.child_by_field(i as int, name@) == Some(c as int) && i < c
                    < self@.len(),
                None => self@.child_by_field(i as int, name@) is None,
            },
    {
        let kids = self.children(i);
        let ghost all = kids@.map_values(|c: usize| c as int);
        assert(all.skip(0) =~= all);
        let mut k: usize = 0;
        while k < kids.len()
            invariant
                0 <= k <= kids.len(),
                all == kids@.map_values(|c: usize| c as int),
                all == self@.children(i as int),
                forall|k: int| 0 <= k < kids.len() ==> i < #[trigger] kids[k] < self@.len(),
                self@.first_with_field(all, name@) == self@.first_with_field(
                    all.skip(k as int),
                    name@,
                ),
            decreases kids.len() - k,
        {
            let c = kids[k];
            assert(all.skip(k as int)[0] == c as int);
            assert(all.skip(k as int).drop_first() =~= all.skip(k + 1));
            assert(self@.nodes[c as int] == self.nodes[c as int]@);
            let found = match &self.nodes[c].field {
                Some(field) => str_eq(field.as_str(), name),
                None => false,
            };
            if found {
                return Some(c);
            }
            k = k + 1;
        }
        assert(all.skip(k as int).len() == 0);
        None
    }

    /// The parent of node `i`.
    pub fn parent(&self, i: usize) -> (r: Option<usize>)
        requires
            self.wf(),
            i < self@.len(),
        ensures
            match r {
                Some(p) => self@.parent(i as int) == Some(p as int) && p < i,
                None => self@.parent(i as int) is None,
            },
    {
        let mut j: usize = i;
        while j > 0
            invariant
                self.wf(),
                0 <= j <= i < self@.len(),
                self@.parent(i as int) == self@.enclosing(i as int, j - 1),
            decreases j,
        {
            j = j - 1;
            if self.subtree_end(j) > i {
                return Some(j);
            }
        }
        None
    }

    /// The edit that replaces the text of node `span` by `replacement` and is reported
    /// at the position of node `at`.
    pub fn edit(&self, at: usize, span: usize, operator: &str, replacement: String) -> (r:
        Mutation)
        requires
            self.wf(),
            at < self@.len(),
            span < self@.len(),
        ensures
            r@ == self@.edit(at as int, span as int, operator@, replacement@),
    {
        let place = &self.nodes[at];
        let range = &self.nodes[span];
        assert(self@.node_fits(at as int));
        assert(self@.nodes[at as int] == place@);
        assert(self@.nodes[span as int] == range@);
        let (context_before, context_after) = get_context(&self.lines, place.row, 2);
        Mutation {
            line: place.row + 1,
            column: place.column + 1,
            start_byte: range.start_byte,
            end_byte: range.end_byte,
            operator: operator.to_owned(),
            original: self.text(span).to_owned(),
            replacement,
            context_before,
            context_after,
        }
    }
}

} // verus!

//! A syntax tree as the checks read it: nodes in one vector, each with its
//! kind, its place in the buffer and the indices of its children.

use crate::diagnostic::Range;
use vstd::prelude::*;
use vstd::slice::slice_subrange;

verus! {

/// One node of a syntax tree.
#[derive(Debug, PartialEq, Eq)]
pub struct SyntaxNode {
    /// The name the grammar gives to nodes of this sort.
    pub kind: String,
    /// Where the node stands, in the editor's lines and columns.
    pub location: Range,
    /// The row of the node's first byte.
    pub start_row: usize,
    /// The row of the node's last byte.
    pub end_row: usize,
    /// Offset of the node's first byte in the source.
    pub start_byte: usize,
    /// Offset just behind the node's last byte.
    pub end_byte: usize,
    /// The parser could not make sense of the text under this node.
    pub is_error: bool,
    /// The parser put this node in for a token that the grammar wants and the text lacks.
    pub is_missing: bool,
    /// The node's children, left to right, as indices into the tree.
    pub children: Vec<usize>,
}

/// What a [`SyntaxNode`] is in contracts.
pub struct NodeView {
    pub kind: Seq<char>,
    pub location: Range,
    pub start_row: usize,
    pub end_row: usize,
    pub start_byte: usize,
    pub end_byte: usize,
    pub is_error: bool,
    pub is_missing: bool,
    pub children: Seq<usize>,
}

impl View for SyntaxNode {
    type V = NodeView;

    open spec fn view(&self) -> NodeView {
        NodeView {
            kind: self.kind@,
            location: self.location,
            start_row: self.start_row,
            end_row: self.end_row,
            start_byte: self.start_byte,
            end_byte: self.end_byte,
            is_error: self.is_error,
            is_missing: self.is_missing,
            children: self.children@,
        }
    }
}

impl NodeView {
    /// The node lies on more than one row.
    pub open spec fn spans_rows(self) -> bool {
        self.start_row != self.end_row
    }
}

/// What a [`SyntaxTree`] is in contracts: the source and the nodes, node 0 the root.
pub struct TreeView {
    pub source: Seq<u8>,
    pub nodes: Seq<NodeView>,
}

impl TreeView {
    /// `node` is an index of this tree.
    pub open spec fn has(self, node: usize) -> bool {
        node < self.nodes.len()
    }

    /// Node `node` alone is in order: its bytes lie in the source and each
    /// child is a node of the tree with a larger index.
    pub open spec fn node_in_order(self, node: int) -> bool {
        let n = self.nodes[node];
        &&& n.start_byte <= n.end_byte <= self.source.len()
        &&& forall|i: int|
            0 <= i < n.children.len() ==> node < #[trigger] n.children[i] < self.nodes.len()
    }

    /// The tree has a root and every node is in order. Children with larger
    /// indices than their parent rule out cycles.
    pub open spec fn well_formed(self) -> bool {
        &&& self.nodes.len() > 0
        &&& forall|node: int| 0 <= node < self.nodes.len() ==> #[trigger] self.node_in_order(node)
    }

    /// The bytes of the source that `node` covers.
    pub open spec fn text(self, node: int) -> Seq<u8> {
        self.source.subrange(self.nodes[node].start_byte as int, self.nodes[node].end_byte as int)
    }
}

/// A syntax tree over a source buffer. Every value is well formed.
pub struct SyntaxTree {
    source: Vec<u8>,
    nodes: Vec<SyntaxNode>,
}

/// The views of `nodes`, in order.
pub open spec fn node_views(nodes: Seq<SyntaxNode>) -> Seq<NodeView> {
    nodes.map_values(|n: SyntaxNode| n@)
}

impl View for SyntaxTree {
    type V = TreeView;

    closed spec fn view(&self) -> TreeView {
        TreeView { source: self.source@, nodes: node_views(self.nodes@) }
    }
}

/// Tests one node of a candidate tree.
fn node_is_in_order(source: &Vec<u8>, nodes: &Vec<SyntaxNode>, node: usize) -> (ok: bool)
    requires
        node < nodes.len(),
    ensures
        ok == (TreeView { source: source@, nodes: node_views(nodes@) }).node_in_order(node as int),
{
    let ghost t = TreeView { source: source@, nodes: node_views(nodes@) };
    let n = &nodes[node];
    if n.start_byte > n.end_byte || n.end_byte > source.len() {
        return false;
    }
    let mut i: usize = 0;
    while i < n.children.len()
        invariant
            i <= n.children.len(),
            node < nodes.len(),
            t == (TreeView { source: source@, nodes: node_views(nodes@) }),
            n.start_byte <= n.end_byte <= source.len(),
            t.nodes[node as int] == n@,
            forall|j: int| 0 <= j < i ==> node < #[trigger] n.children@[j] < nodes.len(),
        decreases n.children.len() - i,
    {
        let c = n.children[i];
        if c <= node || c >= nodes.len() {
            assert(!(node < t.nodes[node as int].children[i as int] < t.nodes.len()));
            return false;
        }
        i += 1;
    }
    true
}

impl SyntaxTree {
    #[verifier::type_invariant]
    spec fn inv(self) -> bool {
        self@.well_formed()
    }

    /// Makes a tree of `nodes` over `source`, node 0 being the root.
    ///
    /// `None` comes back exactly when the nodes are no well-formed tree: when
    /// there is none, when a node's bytes lie outside the source, or when a
    /// child index does not point forward to a node.
    pub fn from_nodes(source: Vec<u8>, nodes: Vec<SyntaxNode>) -> (tree: Option<SyntaxTree>)
        ensures
            match tree {
                Some(t) => t@ == (TreeView { source: source@, nodes: node_views(nodes@) })
                    && t@.well_formed(),
                None => !(TreeView { source: source@, nodes: node_views(nodes@) }).well_formed(),
            },
    {
        let ghost t = TreeView { source: source@, nodes: node_views(nodes@) };
        if nodes.len() == 0 {
            return None;
        }
        let mut node: usize = 0;
        while node < nodes.len()
            invariant
                node <= nodes.len(),
                t == (TreeView { source: source@, nodes: node_views(nodes@) }),
                forall|k: int| 0 <= k < node ==> #[trigger] t.node_in_order(k),
            decreases nodes.len() - node,
        {
            if !node_is_in_order(&source, &nodes, node) {
                return None;
            }
            node += 1;
        }
        Some(SyntaxTree { source, nodes })
    }

    /// Tells a proof that this tree is well formed, as every tree is. Nothing
    /// happens at run time.
    pub fn note_well_formed(&self)
        ensures
            self@.well_formed(),
    {
        proof {
            use_type_invariant(self);
        }
    }

    /// The number of nodes; never 0.
    pub fn len(&self) -> (n: usize)
        ensures
            n == self@.nodes.len(),
            self@.well_formed(),
    {
        proof {
            use_type_invariant(self);
        }
        self.nodes.len()
    }

    /// The index of the root.
    pub fn root(&self) -> (node: usize)
        ensures
            node == 0,
            self@.has(node),
            self@.well_formed(),
    {
        proof {
            use_type_invariant(self);
        }
        0
    }

    /// The node at `node`.
    pub fn node(&self, node: usize) -> (n: &SyntaxNode)
        requires
            self@.has(node),
        ensures
            n@ == self@.nodes[node as int],
            self@.well_formed(),
    {
        proof {
            use_type_invariant(self);
        }
        &self.nodes[node]
    }

    /// The bytes of the source that the node at `node` covers.
    pub fn text(&self, node: usize) -> (bytes: &[u8])
        requires
            self@.has(node),
        ensures
            bytes@ == self@.text(node as int),
    {
        proof {
            use_type_invariant(self);
        }
        let n = &self.nodes[node];
        assert(self@.node_in_order(node as int));
        slice_subrange(self.source.as_slice(), n.start_byte, n.end_byte)
    }

    /// The whole source.
    pub fn source(&self) -> (bytes: &Vec<u8>)
        ensures
            bytes@ == self@.source,
    {
        &self.source
    }
}

} // verus!

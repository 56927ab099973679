//! Walking a syntax tree in pre-order, with a filter that says below which
//! nodes the walk goes on.

use crate::tree::{NodeView, SyntaxNode, SyntaxTree, TreeView};
use vstd::prelude::*;

verus! {

/// Decides, node by node, whether a walk goes on below a node that it has visited.
pub trait NodeFilter {
    /// The walk goes on below `node`.
    spec fn admits(&self, node: NodeView) -> bool;

    /// Computes [`Self::admits`].
    fn descend(&self, node: &SyntaxNode) -> (d: bool)
        ensures
            d == self.admits(node@),
    ;
}

/// The nodes that a walk visits among the children of `node` from the
/// `from`-th on and below them, in the order of the visits: each child, then
/// what lies below it if the filter admits the child, then the next child.
pub open spec fn visit_from<F: NodeFilter>(t: TreeView, filter: &F, node: int, from: int) -> Seq<
    usize,
>
    decreases t.nodes.len() - node, t.nodes[node].children.len() - from,
{
    if 0 <= node < t.nodes.len() && 0 <= from < t.nodes[node].children.len() {
        let child = t.nodes[node].children[from];
        let below = if node < child < t.nodes.len() && filter.admits(t.nodes[child as int]) {
            visit_from(t, filter, child as int, 0)
        } else {
            Seq::empty()
        };
        seq![child] + below + visit_from(t, filter, node, from + 1)
    } else {
        Seq::empty()
    }
}

/// The nodes that a walk from `root` visits, in order: every descendant of
/// `root` that is reached without passing through a node which the filter
/// does not admit. `root` itself is not among them.
pub open spec fn visit_order<F: NodeFilter>(t: TreeView, filter: &F, root: usize) -> Seq<usize> {
    visit_from(t, filter, root as int, 0)
}

/// What the frames of a walk's stack still owe, the top frame (the last) first.
/// A frame holds a node and the number of its children already visited.
spec fn pending<F: NodeFilter>(t: TreeView, filter: &F, stack: Seq<(usize, usize)>) -> Seq<usize>
    decreases stack.len(),
{
    if stack.len() == 0 {
        Seq::empty()
    } else {
        visit_from(t, filter, stack.last().0 as int, stack.last().1 as int) + pending(
            t,
            filter,
            stack.drop_last(),
        )
    }
}

/// Visits the descendants of `root` in pre-order and returns them in the
/// order of the visits. A node which the filter does not admit is visited,
/// but nothing below it is.
pub fn filtered_visit<F: NodeFilter>(tree: &SyntaxTree, root: usize, filter: &F) -> (visited: Vec<
    usize,
>)
    requires
        tree@.has(root),
    ensures
        visited@ == visit_order(tree@, filter, root),
        forall|i: int| 0 <= i < visited.len() ==> tree@.has(#[trigger] visited[i]),
{
    let ghost t = tree@;
    tree.note_well_formed();
    let mut visited: Vec<usize> = Vec::new();
    let mut stack: Vec<(usize, usize)> = Vec::new();
    stack.push((root, 0));
    assert(pending(t, filter, stack@) == visit_order(t, filter, root)) by {
        assert(pending(t, filter, stack@.drop_last()) =~= Seq::empty());
    }
    while stack.len() > 0
        invariant
            t == tree@,
            t.well_formed(),
            forall|k: int| 0 <= k < stack.len() ==> t.has(#[trigger] stack[k].0),
            forall|i: int| 0 <= i < visited.len() ==> t.has(#[trigger] visited[i]),
            visited@ + pending(t, filter, stack@) == visit_order(t, filter, root),
        decreases 2 * pending(t, filter, stack@).len() + stack.len(),
    {
        let top = stack.len() - 1;
        let (node, next) = stack[top];
        let ghost rest = stack@.drop_last();
        let current = tree.node(node);
        assert(t.node_in_order(node as int));
        if next < current.children.len() {
            let child = current.children[next];
            stack.set(top, (node, next + 1));
            assert(stack@.drop_last() == rest);
            assert(pending(t, filter, stack@) == visit_from(t, filter, node as int, next + 1)
                + pending(t, filter, rest));
            visited.push(child);
            if filter.descend(tree.node(child)) {
                let ghost waiting = stack@;
                stack.push((child, 0));
                assert(stack@.drop_last() == waiting);
            }
        } else {
            stack.pop();
        }
    }
    visited
}

} // verus!

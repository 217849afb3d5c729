use vstd::prelude::*;

use crate::span::DefinitionId;
use crate::types::checked_type::Type;

verus! {

/// Identifies a node of a type flow graph.
#[derive(Debug, Clone, Copy, PartialEq, Eq, Structural)]
pub struct TFGNodeId(pub usize);

/// That a variable is known to have a narrower type.
pub struct NarrowingInfo {
    pub target: DefinitionId,
    pub narrowed_type: Type,
}

/// A node of a type flow graph: a step with one successor, or a branch with a
/// successor and an optional narrowing for each outcome.
pub enum TFGNodeKind {
    NoOp { next_node: Option<TFGNodeId> },
    Branch {
        narrowing_if_true: Option<NarrowingInfo>,
        next_node_if_true: Option<TFGNodeId>,
        narrowing_if_false: Option<NarrowingInfo>,
        next_node_if_false: Option<TFGNodeId>,
    },
    BranchNarrowing {
        narrowing_if_true: Option<NarrowingInfo>,
        next_node_if_true: Option<TFGNodeId>,
        narrowing_if_false: Option<NarrowingInfo>,
        next_node_if_false: Option<TFGNodeId>,
    },
}

/// The graph through which narrowed types flow; node `i` is at index `i`.
pub struct TypeFlowGraph {
    pub nodes: Vec<TFGNodeKind>,
}

/// The nodes after making `to` the successor of the step `from`; other kinds
/// of node are left as they are.
pub open spec fn spec_link_successor(nodes: Seq<TFGNodeKind>, from: TFGNodeId, to: TFGNodeId) -> Seq<
    TFGNodeKind,
> {
    if from.0 < nodes.len() && nodes[from.0 as int] is NoOp {
        nodes.update(from.0 as int, TFGNodeKind::NoOp { next_node: Some(to) })
    } else {
        nodes
    }
}

/// The nodes after making `t` and `f` the successors of the branch `b`; other
/// kinds of node are left as they are.
pub open spec fn spec_link_branch(
    nodes: Seq<TFGNodeKind>,
    b: TFGNodeId,
    t: TFGNodeId,
    f: TFGNodeId,
) -> Seq<TFGNodeKind> {
    if b.0 < nodes.len() {
        match nodes[b.0 as int] {
            TFGNodeKind::Branch { narrowing_if_true, narrowing_if_false, .. } => nodes.update(
                b.0 as int,
                TFGNodeKind::Branch {
                    narrowing_if_true,
                    next_node_if_true: Some(t),
                    narrowing_if_false,
                    next_node_if_false: Some(f),
                },
            ),
            TFGNodeKind::BranchNarrowing { narrowing_if_true, narrowing_if_false, .. } => nodes.update(
                b.0 as int,
                TFGNodeKind::BranchNarrowing {
                    narrowing_if_true,
                    next_node_if_true: Some(t),
                    narrowing_if_false,
                    next_node_if_false: Some(f),
                },
            ),
            _ => nodes,
        }
    } else {
        nodes
    }
}

impl TypeFlowGraph {
    pub fn new() -> (r: TypeFlowGraph)
        ensures
            r.nodes@ == Seq::<TFGNodeKind>::empty(),
    {
        TypeFlowGraph { nodes: Vec::new() }
    }

    /// Adds a node; its id is its index.
    pub fn create_node(&mut self, kind: TFGNodeKind) -> (r: TFGNodeId)
        ensures
            final(self).nodes@ == old(self).nodes@.push(kind),
            r.0 == old(self).nodes@.len(),
    {
        let id = TFGNodeId(self.nodes.len());
        self.nodes.push(kind);
        id
    }

    /// Makes `to` the successor of the step `from`.
    pub fn link_successor(&mut self, from: TFGNodeId, to: TFGNodeId)
        ensures
            final(self).nodes@ == spec_link_successor(old(self).nodes@, from, to),
    {
        if from.0 < self.nodes.len() {
            let is_step = matches!(self.nodes[from.0], TFGNodeKind::NoOp { .. });
            if is_step {
                self.nodes.set(from.0, TFGNodeKind::NoOp { next_node: Some(to) });
            }
        }
    }

    /// Makes `t` and `f` the successors of the branch `b`.
    pub fn link_branch(&mut self, b: TFGNodeId, t: TFGNodeId, f: TFGNodeId)
        ensures
            final(self).nodes@ == spec_link_branch(old(self).nodes@, b, t, f),
    {
        if b.0 < self.nodes.len() {
            let node = self.nodes.remove(b.0);
            let updated = match node {
                TFGNodeKind::Branch { narrowing_if_true, narrowing_if_false, .. } => TFGNodeKind::Branch {
                    narrowing_if_true,
                    next_node_if_true: Some(t),
                    narrowing_if_false,
                    next_node_if_false: Some(f),
                },
                TFGNodeKind::BranchNarrowing { narrowing_if_true, narrowing_if_false, .. } => TFGNodeKind::BranchNarrowing {
                    narrowing_if_true,
                    next_node_if_true: Some(t),
                    narrowing_if_false,
                    next_node_if_false: Some(f),
                },
                other => other,
            };
            self.nodes.insert(b.0, updated);
            assert(self.nodes@ =~= spec_link_branch(old(self).nodes@, b, t, f));
        }
    }
}

/// The graph being built for one function, and the node that code flows from.
pub struct TFGContext {
    pub graph: TypeFlowGraph,
    pub current_node: TFGNodeId,
}

} // verus!

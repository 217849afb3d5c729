use vstd::prelude::*;

use crate::span::{NodeId, Span};

verus! {

/// The span recorded for `id` in `entries`, the latest entry winning.
pub open spec fn find_span(entries: Seq<(NodeId, Span)>, id: NodeId) -> Option<Span>
    decreases entries.len(),
{
    if entries.len() == 0 {
        None
    } else if entries.last().0 == id {
        Some(entries.last().1)
    } else {
        find_span(entries.drop_last(), id)
    }
}

/// Records the span of each syntax node.
pub struct SpanRegistry {
    registry: Vec<(NodeId, Span)>,
    id_counter: usize,
}

impl SpanRegistry {
    /// The span recorded for node `id`, if any.
    pub closed spec fn span_of(&self, id: NodeId) -> Option<Span> {
        find_span(self.registry@, id)
    }

    /// The node id that [`SpanRegistry::add_span`] records under next.
    pub closed spec fn next_index(&self) -> nat {
        self.id_counter as nat
    }

    /// An empty registry whose first node id is 0.
    pub fn new() -> (r: SpanRegistry)
        ensures
            forall|id: NodeId| r.span_of(id) is None,
            r.next_index() == 0,
    {
        SpanRegistry { id_counter: 0, registry: Vec::new() }
    }

    /// The span recorded for node `id`.
    pub fn get_span(&self, id: NodeId) -> (r: &Span)
        requires
            self.span_of(id) is Some,
        ensures
            Some(*r) == self.span_of(id),
    {
        let mut i = self.registry.len();
        let ghost m = self.registry@;
        assert(m.subrange(0, i as int) =~= m);
        while i > 0
            invariant
                i <= m.len(),
                m == self.registry@,
                find_span(m, id) == find_span(m.subrange(0, i as int), id),
                find_span(m, id) is Some,
            decreases i,
        {
            assert(m.subrange(0, i as int).drop_last() =~= m.subrange(0, i - 1));
            if self.registry[i - 1].0 == id {
                return &self.registry[i - 1].1;
            }
            i = i - 1;
        }
        proof {
            assert(m.subrange(0, 0).len() == 0);
        }
        &self.registry[0].1
    }

    /// Records `span` for node `id`, replacing what was recorded for it.
    pub fn insert_span(&mut self, id: NodeId, span: Span)
        ensures
            final(self).span_of(id) == Some(span),
            forall|other: NodeId| other != id ==> final(self).span_of(other) == old(self).span_of(
                other,
            ),
            final(self).next_index() == old(self).next_index(),
    {
        self.registry.push((id, span));
        proof {
            assert(self.registry@.drop_last() =~= old(self).registry@);
        }
    }

    /// Records `span` under the next node id.
    pub fn add_span(&mut self, span: Span)
        requires
            old(self).next_index() < usize::MAX,
        ensures
            final(self).span_of(NodeId(old(self).next_index() as usize)) == Some(span),
            forall|other: NodeId|
                other != NodeId(old(self).next_index() as usize) ==> final(self).span_of(other)
                    == old(self).span_of(other),
            final(self).next_index() == old(self).next_index() + 1,
    {
        self.insert_span(NodeId(self.id_counter), span);
        self.id_counter = self.id_counter + 1;
    }
}

} // verus!

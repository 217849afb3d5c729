use vstd::prelude::*;

use crate::hir::cfg::basic_blocks::BasicBlockId;
use crate::hir::cfg::ValueId;

verus! {

/// The count after `c`, wrapping around to zero past the largest `usize`.
pub open spec fn next_count(c: usize) -> usize {
    if c == usize::MAX {
        0
    } else {
        (c + 1) as usize
    }
}

/// Two successive ids of one counter differ.
pub proof fn lemma_next_count_differs(c: usize)
    ensures
        next_count(c) != c,
{
}

fn bump(c: &mut usize) -> (r: usize)
    ensures
        r == *old(c),
        *final(c) == next_count(*old(c)),
{
    let value = *c;
    *c = if value == usize::MAX {
        0
    } else {
        value + 1
    };
    value
}

/// The counters that hand out ids for values, blocks, constants and
/// declarations. Each hands out its current count and moves on by one.
pub struct Counters {
    pub value: usize,
    pub block: usize,
    pub constant: usize,
    pub declaration: usize,
}

impl Counters {
    /// All counters at zero.
    pub fn new() -> (r: Counters)
        ensures
            r.value == 0,
            r.block == 0,
            r.constant == 0,
            r.declaration == 0,
    {
        Counters { value: 0, block: 0, constant: 0, declaration: 0 }
    }

    pub fn next_value_id(&mut self) -> (r: ValueId)
        ensures
            r.0 == old(self).value,
            final(self).value == next_count(old(self).value),
            final(self).block == old(self).block,
            final(self).constant == old(self).constant,
            final(self).declaration == old(self).declaration,
    {
        ValueId(bump(&mut self.value))
    }

    pub fn next_block_id(&mut self) -> (r: BasicBlockId)
        ensures
            r.0 == old(self).block,
            final(self).block == next_count(old(self).block),
            final(self).value == old(self).value,
            final(self).constant == old(self).constant,
            final(self).declaration == old(self).declaration,
    {
        BasicBlockId(bump(&mut self.block))
    }

    pub fn next_constant_id(&mut self) -> (r: BasicBlockId)
        ensures
            r.0 == old(self).constant,
            final(self).constant == next_count(old(self).constant),
            final(self).value == old(self).value,
            final(self).block == old(self).block,
            final(self).declaration == old(self).declaration,
    {
        BasicBlockId(bump(&mut self.constant))
    }

    pub fn next_declaration_id(&mut self) -> (r: BasicBlockId)
        ensures
            r.0 == old(self).declaration,
            final(self).declaration == next_count(old(self).declaration),
            final(self).value == old(self).value,
            final(self).block == old(self).block,
            final(self).constant == old(self).constant,
    {
        BasicBlockId(bump(&mut self.declaration))
    }

    /// Sets every counter back to zero.
    pub fn reset_counters(&mut self)
        ensures
            final(self).value == 0,
            final(self).block == 0,
            final(self).constant == 0,
            final(self).declaration == 0,
    {
        self.value = 0;
        self.block = 0;
        self.constant = 0;
        self.declaration = 0;
    }
}

} // verus!

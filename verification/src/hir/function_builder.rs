use vstd::prelude::*;

use crate::hir::cfg::basic_blocks::{
    add_pred, field_pointer, pointee, pointer_to, points_to_field, BasicBlock, BasicBlockId, ValueTable,
};
use crate::hir::cfg::instructions::Instruction;
use crate::hir::cfg::{ControlFlowGraph, Place, Projection, Terminator, Value, ValueId};
use crate::number::NumberKind;
use crate::types::checked_type::Type;
use crate::types::copy::copy_type;

verus! {

/// What a boolean value says of the type of another value: the values that
/// stand for it where the boolean holds and where it does not.
#[derive(Clone, Copy, Debug, PartialEq, Eq, Structural)]
pub struct TypePredicate {
    /// The value that was checked, a pointer or a plain value
    pub source: ValueId,
    /// The new ValueId to use in the true path
    pub true_id: ValueId,
    /// The new ValueId to use in the false path
    pub false_id: ValueId,
}

/// How many of `blocks` have no value recorded for `original`.
pub open spec fn unmapped(blocks: Seq<BasicBlock>, original: ValueId) -> nat
    decreases blocks.len(),
{
    if blocks.len() == 0 {
        0
    } else {
        unmapped(blocks.drop_last(), original) + if blocks.last().mapped(original) is None {
            1nat
        } else {
            0nat
        }
    }
}

/// `new` has the blocks of `old`, with every recorded value kept and only
/// `original` newly recorded.
pub open spec fn keeps_mappings(old: Seq<BasicBlock>, new: Seq<BasicBlock>, original: ValueId) -> bool {
    &&& new.len() == old.len()
    &&& forall|i: int, k: ValueId|
        0 <= i < old.len() && (old[i].mapped(k) is Some || k != original) ==> #[trigger] new[i].mapped(
            k,
        ) == old[i].mapped(k)
}

/// `new` has the blocks of `old` with the same ids, instructions,
/// predecessors and sealing.
pub open spec fn same_shape(old: Seq<BasicBlock>, new: Seq<BasicBlock>) -> bool {
    &&& new.len() == old.len()
    &&& forall|i: int|
        0 <= i < old.len() ==> {
            &&& (#[trigger] new[i]).id == old[i].id
            &&& new[i].instructions == old[i].instructions
            &&& new[i].predecessors == old[i].predecessors
            &&& new[i].sealed == old[i].sealed
        }
}

/// `new` is the terminator `old` with `arg` added to the arguments of each of
/// its edges to `target`; a terminator without edges stays as it is.
pub open spec fn arg_appended(
    old: Option<Terminator>,
    new: Option<Terminator>,
    target: BasicBlockId,
    arg: ValueId,
) -> bool {
    match (old, new) {
        (
            Some(Terminator::Jump { target: t, args }),
            Some(Terminator::Jump { target: t2, args: args2 }),
        ) => t2 == t && args2@ == (if t == target {
            args@.push(arg)
        } else {
            args@
        }),
        (
            Some(
                Terminator::CondJump { condition, true_target, true_args, false_target, false_args },
            ),
            Some(
                Terminator::CondJump {
                    condition: c2,
                    true_target: tt2,
                    true_args: ta2,
                    false_target: ft2,
                    false_args: fa2,
                },
            ),
        ) => {
            &&& c2 == condition
            &&& tt2 == true_target
            &&& ft2 == false_target
            &&& ta2@ == (if true_target == target {
                true_args@.push(arg)
            } else {
                true_args@
            })
            &&& fa2@ == (if false_target == target {
                false_args@.push(arg)
            } else {
                false_args@
            })
        },
        (Some(Terminator::Jump { .. }), _) => false,
        (Some(Terminator::CondJump { .. }), _) => false,
        _ => new == old,
    }
}

/// The argument lists of the edges of `t` that go to `target`, the true
/// edge's before the false edge's.
pub open spec fn args_toward(t: Option<Terminator>, target: BasicBlockId) -> Seq<Seq<ValueId>> {
    match t {
        Some(Terminator::Jump { target: j, args }) => if j == target {
            seq![args@]
        } else {
            Seq::empty()
        },
        Some(Terminator::CondJump { true_target, true_args, false_target, false_args, .. }) => (if true_target
            == target {
            seq![true_args@]
        } else {
            Seq::empty()
        }) + (if false_target == target {
            seq![false_args@]
        } else {
            Seq::empty()
        }),
        _ => Seq::empty(),
    }
}

/// Each of the lists with `v` added at the end.
pub open spec fn each_pushed(lists: Seq<Seq<ValueId>>, v: ValueId) -> Seq<Seq<ValueId>> {
    Seq::new(lists.len(), |k: int| lists[k].push(v))
}

/// The edges of the blocks of `new` that go to `target` carry the arguments
/// that they carry in `old`.
pub open spec fn edges_kept(old: Seq<BasicBlock>, new: Seq<BasicBlock>, target: BasicBlockId) -> bool {
    forall|i: int|
        0 <= i < old.len() ==> args_toward((#[trigger] new[i]).terminator, target) == args_toward(
            old[i].terminator,
            target,
        )
}

/// No block lists a predecessor twice.
pub open spec fn preds_distinct(blocks: Seq<BasicBlock>) -> bool {
    forall|i: int| 0 <= i < blocks.len() ==> (#[trigger] blocks[i]).predecessors@.no_duplicates()
}

/// Every block that answers for `original` in `fb0` answers the same in `fb1`.
pub open spec fn keeps_answers(
    fb0: FunctionBuilder,
    v0: ValueTable,
    fb1: FunctionBuilder,
    v1: ValueTable,
    original: ValueId,
) -> bool {
    forall|t: BasicBlockId|
        #![trigger fb0.answer(&v0, t, original)]
        #![trigger fb1.answer(&v1, t, original)]
        t.0 < fb0.blocks().len() && fb0.answer(&v0, t, original) is Some ==> fb1.answer(
            &v1,
            t,
            original,
        ) == fb0.answer(&v0, t, original)
}

/// The edges to each block that answers for `original` in `fb0` carry the
/// same arguments in `fb1`.
pub open spec fn keeps_answered_edges(
    fb0: FunctionBuilder,
    v0: ValueTable,
    fb1: FunctionBuilder,
    original: ValueId,
) -> bool {
    forall|t: BasicBlockId|
        t.0 < fb0.blocks().len() && (#[trigger] fb0.answer(&v0, t, original)) is Some ==> edges_kept(
            fb0.blocks(),
            fb1.blocks(),
            t,
        )
}

/// `p` answers for `original` in `fb1`, and its edges to `block` carry in
/// `fb1` what they carry in `fb0` and, last, that answer.
pub open spec fn passed_on(
    fb0: FunctionBuilder,
    fb1: FunctionBuilder,
    v1: ValueTable,
    block: BasicBlockId,
    original: ValueId,
    p: BasicBlockId,
) -> bool {
    &&& fb1.answer(&v1, p, original) is Some
    &&& args_toward(fb1.blocks()[p.0 as int].terminator, block) == each_pushed(
        args_toward(fb0.blocks()[p.0 as int].terminator, block),
        fb1.answer(&v1, p, original)->Some_0,
    )
}

/// Each of the lists with `vs` added at the end.
pub open spec fn each_extended(lists: Seq<Seq<ValueId>>, vs: Seq<ValueId>) -> Seq<Seq<ValueId>> {
    Seq::new(lists.len(), |k: int| lists[k] + vs)
}

/// The values that `p` answers with in `fb` for the originals of `waiting`,
/// in order.
pub open spec fn answers_for(
    fb: FunctionBuilder,
    v: ValueTable,
    p: BasicBlockId,
    waiting: Seq<(ValueId, ValueId)>,
) -> Seq<ValueId> {
    Seq::new(waiting.len(), |k: int| fb.answer(&v, p, waiting[k].1)->Some_0)
}

/// Each parameter waiting in `b` is recorded there for its original.
pub open spec fn waiting_recorded(b: BasicBlock) -> bool {
    forall|k: int|
        0 <= k < b.incomplete_params@.len() ==> b.mapped((#[trigger] b.incomplete_params@[k]).1)
            == Some(b.incomplete_params@[k].0)
}

proof fn lemma_answer_kept(
    fb0: FunctionBuilder,
    v0: ValueTable,
    fb1: FunctionBuilder,
    v1: ValueTable,
    filled: ValueId,
    other: ValueId,
    t: BasicBlockId,
)
    requires
        t.0 < fb0.blocks().len(),
        keeps_mappings(fb0.blocks(), fb1.blocks(), filled),
        keeps_answers(fb0, v0, fb1, v1, filled),
        v0.wf(),
        v1.wf(),
        v1.extends(&v0),
        other.0 < v0.count(),
        fb0.answer(&v0, t, other) is Some,
    ensures
        fb1.answer(&v1, t, other) == fb0.answer(&v0, t, other),
{
    if other != filled {
        assert(fb1.blocks()[t.0 as int].mapped(other) == fb0.blocks()[t.0 as int].mapped(other));
        assert(v1.blocks@.subrange(0, v0.count() as int)[other.0 as int] == v1.blocks@[other.0 as int]);
    }
}

proof fn lemma_arg_appended_edges(
    old: Option<Terminator>,
    new: Option<Terminator>,
    target: BasicBlockId,
    arg: ValueId,
)
    requires
        arg_appended(old, new, target, arg),
    ensures
        args_toward(new, target) == each_pushed(args_toward(old, target), arg),
        forall|t: BasicBlockId| t != target ==> #[trigger] args_toward(new, t) == args_toward(old, t),
{
    match old {
        Some(Terminator::Jump { .. }) => {
            assert(args_toward(new, target) =~= each_pushed(args_toward(old, target), arg));
        },
        Some(Terminator::CondJump { true_target, false_target, .. }) => {
            assert(args_toward(new, target) =~= each_pushed(args_toward(old, target), arg));
            assert forall|t: BasicBlockId| t != target implies #[trigger] args_toward(new, t)
                == args_toward(old, t) by {
                assert(args_toward(new, t) =~= args_toward(old, t));
            }
        },
        _ => {
            assert(args_toward(new, target) =~= each_pushed(args_toward(old, target), arg));
        },
    }
}

/// Whether `b` starts with the items of `a`.
pub open spec fn args_prefix(a: Seq<ValueId>, b: Seq<ValueId>) -> bool {
    a.len() <= b.len() && forall|k: int| 0 <= k < a.len() ==> #[trigger] b[k] == a[k]
}

/// `new` is the terminator `old` with at most more arguments at the end of
/// its edges: no terminator stays none, and a jump keeps its kind, condition
/// and targets.
pub open spec fn edge_kept(old: Option<Terminator>, new: Option<Terminator>) -> bool {
    match (old, new) {
        (None, None) => true,
        (
            Some(Terminator::Jump { target, args }),
            Some(Terminator::Jump { target: t2, args: a2 }),
        ) => t2 == target && args_prefix(args@, a2@),
        (
            Some(
                Terminator::CondJump { condition, true_target, true_args, false_target, false_args },
            ),
            Some(
                Terminator::CondJump {
                    condition: c2,
                    true_target: tt2,
                    true_args: ta2,
                    false_target: ft2,
                    false_args: fa2,
                },
            ),
        ) => c2 == condition && tt2 == true_target && ft2 == false_target && args_prefix(
            true_args@,
            ta2@,
        ) && args_prefix(false_args@, fa2@),
        (Some(Terminator::Return { value }), Some(Terminator::Return { value: v2 })) => v2 == value,
        (Some(Terminator::Unreachable), Some(Terminator::Unreachable)) => true,
        _ => false,
    }
}

/// Each block of `old` keeps its terminator in `new`, up to arguments added
/// at the end of its edges; in particular a block without one still has none.
pub open spec fn keeps_unterminated(old: Seq<BasicBlock>, new: Seq<BasicBlock>) -> bool {
    forall|i: int| 0 <= i < old.len() ==> edge_kept(old[i].terminator, (#[trigger] new[i]).terminator)
}

pub proof fn lemma_edge_kept_refl(t: Option<Terminator>)
    ensures
        edge_kept(t, t),
{
}

pub proof fn lemma_edge_kept_trans(a: Option<Terminator>, b: Option<Terminator>, c: Option<Terminator>)
    requires
        edge_kept(a, b),
        edge_kept(b, c),
    ensures
        edge_kept(a, c),
{
}

proof fn lemma_arg_appended_kept(
    old: Option<Terminator>,
    new: Option<Terminator>,
    target: BasicBlockId,
    arg: ValueId,
)
    requires
        arg_appended(old, new, target, arg),
    ensures
        edge_kept(old, new),
{
}

/// The sealed blocks of `old` have no more parameters waiting in `new`.
pub open spec fn keeps_sealed_waiting(old: Seq<BasicBlock>, new: Seq<BasicBlock>) -> bool {
    forall|i: int|
        0 <= i < old.len() && old[i].sealed ==> (#[trigger] new[i]).incomplete_params
            == old[i].incomplete_params
}

/// The blocks of `old` that already had a value for `original` keep their
/// parameters in `new`.
pub open spec fn keeps_resolved(old: Seq<BasicBlock>, new: Seq<BasicBlock>, original: ValueId) -> bool {
    forall|i: int|
        0 <= i < old.len() && old[i].mapped(original) is Some ==> {
            &&& (#[trigger] new[i]).params == old[i].params
            &&& new[i].incomplete_params == old[i].incomplete_params
        }
}

proof fn lemma_unmapped_keeps(old: Seq<BasicBlock>, new: Seq<BasicBlock>, original: ValueId)
    requires
        keeps_mappings(old, new, original),
    ensures
        unmapped(new, original) <= unmapped(old, original),
    decreases old.len(),
{
    if old.len() > 0 {
        let n = old.len() - 1;
        assert(keeps_mappings(old.drop_last(), new.drop_last(), original)) by {
            assert forall|i: int, k: ValueId|
                0 <= i < old.drop_last().len() && (old.drop_last()[i].mapped(k) is Some || k
                    != original) implies #[trigger] new.drop_last()[i].mapped(k)
                == old.drop_last()[i].mapped(k) by {
                assert(new[i].mapped(k) == old[i].mapped(k));
            }
        }
        lemma_unmapped_keeps(old.drop_last(), new.drop_last(), original);
        if old[n].mapped(original) is Some {
            assert(new[n].mapped(original) == old[n].mapped(original));
        }
    }
}

proof fn lemma_unmapped_shrinks(
    old: Seq<BasicBlock>,
    new: Seq<BasicBlock>,
    original: ValueId,
    j: int,
)
    requires
        keeps_mappings(old, new, original),
        0 <= j < old.len(),
        old[j].mapped(original) is None,
        new[j].mapped(original) is Some,
    ensures
        unmapped(new, original) < unmapped(old, original),
    decreases old.len(),
{
    let n = old.len() - 1;
    assert(keeps_mappings(old.drop_last(), new.drop_last(), original)) by {
        assert forall|i: int, k: ValueId|
            0 <= i < old.drop_last().len() && (old.drop_last()[i].mapped(k) is Some || k
                != original) implies #[trigger] new.drop_last()[i].mapped(k)
            == old.drop_last()[i].mapped(k) by {
            assert(new[i].mapped(k) == old[i].mapped(k));
        }
    }
    if j == n {
        lemma_unmapped_keeps(old.drop_last(), new.drop_last(), original);
    } else {
        lemma_unmapped_shrinks(old.drop_last(), new.drop_last(), original, j);
        if old[n].mapped(original) is Some {
            assert(new[n].mapped(original) == old[n].mapped(original));
        }
    }
}

/// The type reached from a value of type `t` through `projections`, where
/// each step applies: a dereference needs a pointer and gives what it points
/// to, a field needs a pointer to a struct with that field and gives a
/// pointer to the field, and an index needs a list and gives a pointer to an
/// item.
pub open spec fn projected_type(t: Type, projections: Seq<Projection>) -> Option<Type>
    decreases projections.len(),
{
    if projections.len() == 0 {
        Some(t)
    } else {
        let last = projections.last();
        match projected_type(t, projections.drop_last()) {
            Some(u) => match last {
                Projection::Deref => if u is Pointer {
                    Some(pointee(u))
                } else {
                    None
                },
                Projection::Field(i) => if points_to_field(u, i as nat) {
                    Some(field_pointer(u, i as nat))
                } else {
                    None
                },
                Projection::Index(_) => if u is List {
                    Some(pointer_to(*u->List_0))
                } else {
                    None
                },
            },
            None => None,
        }
    }
}

/// The instruction that applies `projection` to the pointer `from`, defining
/// `dest`: a load for a dereference, a field pointer, or an element pointer.
pub open spec fn projection_instruction(projection: Projection, dest: ValueId, from: ValueId) -> Instruction {
    match projection {
        Projection::Deref => Instruction::Load { destination: dest, ptr: from },
        Projection::Field(i) => Instruction::GetFieldPtr { destination: dest, base_ptr: from, field_index: i },
        Projection::Index(v) => Instruction::GetElementPtr { destination: dest, base_ptr: from, index: v },
    }
}

/// The pointer after `k` steps of reading a place that starts from `start`
/// and whose steps define the values numbered from `base` on.
pub open spec fn step_value(start: ValueId, base: nat, k: nat) -> ValueId {
    if k == 0 {
        start
    } else {
        ValueId((base + k - 1) as usize)
    }
}

/// The instructions that reading a place emits: one per projection, each
/// applied to the pointer of the step before and defining the next value
/// from `base` on, then a load through the last pointer.
pub open spec fn read_instructions(projections: Seq<Projection>, start: ValueId, base: nat) -> Seq<
    Instruction,
> {
    Seq::new(
        projections.len() + 1,
        |i: int|
            if i < projections.len() {
                projection_instruction(
                    projections[i],
                    ValueId((base + i) as usize),
                    step_value(start, base, i as nat),
                )
            } else {
                Instruction::Load {
                    destination: ValueId((base + projections.len()) as usize),
                    ptr: step_value(start, base, projections.len()),
                }
            },
    )
}

/// The lowered form of a function: its blocks, the block being filled, its
/// return type, and what its boolean values say of the types of others.
pub struct FunctionBuilder {
    pub cfg: ControlFlowGraph,
    pub current_block: BasicBlockId,
    pub return_type: Type,
    /// Maps a boolean ValueId to the narrowing facts it carries
    pub predicates: Vec<(ValueId, TypePredicate)>,
}

impl FunctionBuilder {
    pub open spec fn blocks(&self) -> Seq<BasicBlock> {
        self.cfg.blocks@
    }

    /// The value that already stands for `original` in `block`, if any: the
    /// one recorded there, or `original` itself where `block` defines it.
    pub open spec fn answer(&self, values: &ValueTable, block: BasicBlockId, original: ValueId) -> Option<
        ValueId,
    > {
        match self.blocks()[block.0 as int].mapped(original) {
            Some(m) => Some(m),
            None => if values.blocks@[original.0 as int] == block {
                Some(original)
            } else {
                None
            },
        }
    }

    /// Block `i` has id `i`, predecessors name blocks, and the entry and
    /// current blocks exist.
    pub open spec fn wf(&self) -> bool {
        &&& forall|i: int| 0 <= i < self.blocks().len() ==> (#[trigger] self.blocks()[i]).id.0 == i
        &&& forall|i: int, j: int|
            0 <= i < self.blocks().len() && 0 <= j < self.blocks()[i].predecessors@.len()
                ==> (#[trigger] self.blocks()[i].predecessors@[j]).0 < self.blocks().len()
        &&& self.cfg.entry_block.0 < self.blocks().len()
        &&& self.current_block.0 < self.blocks().len()
    }

    /// A function with one empty block, the entry, being filled.
    pub fn new(return_type: Type) -> (r: FunctionBuilder)
        ensures
            r.wf(),
            r.blocks().len() == 1,
            r.cfg.entry_block == BasicBlockId(0),
            r.current_block == BasicBlockId(0),
            r.blocks()[0].terminator is None,
            !r.blocks()[0].sealed,
            r.return_type == return_type,
            r.predicates@.len() == 0,
            preds_distinct(r.blocks()),
    {
        let mut blocks = Vec::new();
        blocks.push(BasicBlock::new(BasicBlockId(0)));
        FunctionBuilder {
            cfg: ControlFlowGraph { entry_block: BasicBlockId(0), blocks },
            current_block: BasicBlockId(0),
            return_type,
            predicates: Vec::new(),
        }
    }

    /// The operand for a number literal: the literal itself.
    pub fn build_number_literal(&mut self, value: NumberKind) -> (r: Value)
        ensures
            r == Value::NumberLiteral(value),
            *final(self) == *old(self),
    {
        Value::NumberLiteral(value)
    }

    /// A new, empty, open block.
    pub fn new_basic_block(&mut self) -> (r: BasicBlockId)
        requires
            old(self).wf(),
        ensures
            final(self).wf(),
            r.0 == old(self).blocks().len(),
            final(self).blocks().len() == old(self).blocks().len() + 1,
            final(self).blocks().drop_last() == old(self).blocks(),
            final(self).blocks().last().id == r,
            final(self).blocks().last().terminator is None,
            final(self).blocks().last().predecessors@.len() == 0,
            final(self).blocks().last().original_to_local_valueid@.len() == 0,
            !final(self).blocks().last().sealed,
            preds_distinct(old(self).blocks()) ==> preds_distinct(final(self).blocks()),
            final(self).current_block == old(self).current_block,
            final(self).cfg.entry_block == old(self).cfg.entry_block,
            final(self).predicates == old(self).predicates,
            final(self).return_type == old(self).return_type,
    {
        let id = BasicBlockId(self.cfg.blocks.len());
        self.cfg.blocks.push(BasicBlock::new(id));
        proof {
            assert(self.blocks().drop_last() =~= old(self).blocks());
            assert forall|i: int, j: int|
                0 <= i < self.blocks().len() && 0 <= j < self.blocks()[i].predecessors@.len()
                    implies (#[trigger] self.blocks()[i].predecessors@[j]).0
                < self.blocks().len() by {
                if i < old(self).blocks().len() {
                    assert(self.blocks()[i] == old(self).blocks()[i]);
                }
            }
        }
        id
    }

    /// Continues filling the block `id`.
    pub fn use_basic_block(&mut self, id: BasicBlockId)
        requires
            old(self).wf(),
            id.0 < old(self).blocks().len(),
        ensures
            final(self).wf(),
            final(self).current_block == id,
            final(self).cfg == old(self).cfg,
            final(self).predicates == old(self).predicates,
            final(self).return_type == old(self).return_type,
    {
        self.current_block = id;
    }

    /// A new parameter of type `ty` for the block `block`.
    pub fn append_block_param(&mut self, values: &mut ValueTable, block: BasicBlockId, ty: Type) -> (r:
        ValueId)
        requires
            old(self).wf(),
            old(values).wf(),
            block.0 < old(self).blocks().len(),
        ensures
            final(self).wf(),
            final(values).wf(),
            r.0 == old(values).count(),
            final(values).types@ == old(values).types@.push(ty),
            final(values).blocks@ == old(values).blocks@.push(block),
            final(self).blocks()[block.0 as int].params@ == old(self).blocks()[block.0 as int].params@.push(r),
            same_shape(old(self).blocks(), final(self).blocks()),
            keeps_mappings(old(self).blocks(), final(self).blocks(), r),
            final(self).current_block == old(self).current_block,
            final(self).cfg.entry_block == old(self).cfg.entry_block,
            final(self).predicates == old(self).predicates,
            final(self).return_type == old(self).return_type,
            forall|i: int|
                0 <= i < old(self).blocks().len() ==> (#[trigger] final(self).blocks()[i]).terminator
                    == old(self).blocks()[i].terminator,
    {
        let r = self.cfg.blocks[block.0].append_param(values, ty);
        proof {
            assert(keeps_mappings(old(self).blocks(), self.blocks(), r)) by {
                assert forall|i: int, k: ValueId|
                    0 <= i < old(self).blocks().len() && (old(self).blocks()[i].mapped(k) is Some
                        || k != r) implies #[trigger] self.blocks()[i].mapped(k)
                    == old(self).blocks()[i].mapped(k) by {
                    if i != block.0 {
                        assert(self.blocks()[i] == old(self).blocks()[i]);
                    }
                }
            }
        }
        r
    }

    /// Adds `arg` to the arguments that the terminator of `pred` hands to
    /// `target`.
    fn append_arg_to_terminator(&mut self, pred: BasicBlockId, target: BasicBlockId, arg: ValueId)
        requires
            old(self).wf(),
            pred.0 < old(self).blocks().len(),
        ensures
            final(self).wf(),
            same_shape(old(self).blocks(), final(self).blocks()),
            forall|i: int|
                0 <= i < old(self).blocks().len() ==> {
                    &&& (#[trigger] final(self).blocks()[i]).params == old(self).blocks()[i].params
                    &&& final(self).blocks()[i].incomplete_params == old(self).blocks()[i].incomplete_params
                    &&& final(self).blocks()[i].original_to_local_valueid == old(self).blocks()[i].original_to_local_valueid
                },
            keeps_unterminated(old(self).blocks(), final(self).blocks()),
            arg_appended(
                old(self).blocks()[pred.0 as int].terminator,
                final(self).blocks()[pred.0 as int].terminator,
                target,
                arg,
            ),
            forall|i: int|
                0 <= i < old(self).blocks().len() && i != pred.0 ==> #[trigger] final(self).blocks()[i]
                    == old(self).blocks()[i],
            final(self).current_block == old(self).current_block,
            final(self).cfg.entry_block == old(self).cfg.entry_block,
            final(self).predicates == old(self).predicates,
            final(self).return_type == old(self).return_type,
    {
        let p = pred.0;
        let term = self.cfg.blocks[p].terminator.take();
        let updated = match term {
            Some(Terminator::Jump { target: t, mut args }) => {
                if t == target {
                    args.push(arg);
                }
                Some(Terminator::Jump { target: t, args })
            },
            Some(
                Terminator::CondJump {
                    condition,
                    true_target,
                    mut true_args,
                    false_target,
                    mut false_args,
                },
            ) => {
                if true_target == target {
                    true_args.push(arg);
                }
                if false_target == target {
                    false_args.push(arg);
                }
                Some(
                    Terminator::CondJump {
                        condition,
                        true_target,
                        true_args,
                        false_target,
                        false_args,
                    },
                )
            },
            other => other,
        };
        self.cfg.blocks[p].terminator = updated;
        proof {
            assert forall|i: int| 0 <= i < self.blocks().len() implies (#[trigger] self.blocks()[i]).id.0
                == i by {
                if i != p {
                    assert(self.blocks()[i] == old(self).blocks()[i]);
                }
            }
            assert forall|i: int, j: int|
                0 <= i < self.blocks().len() && 0 <= j < self.blocks()[i].predecessors@.len()
                    implies (#[trigger] self.blocks()[i].predecessors@[j]).0
                < self.blocks().len() by {
                assert(self.blocks()[i].predecessors == old(self).blocks()[i].predecessors);
                assert(old(self).blocks()[i].predecessors@[j].0 < old(self).blocks().len());
            }
        }
    }
}

impl FunctionBuilder {
    /// The value that stands for `original` in `block`: the one recorded
    /// there, `original` itself where `block` defines it, or else a new
    /// parameter of `block` with the type of `original`. The new parameter is
    /// recorded; in an open block it waits for sealing, and in a sealed block
    /// each predecessor at once hands it its own value for `original`.
    pub fn use_value_in_block(
        &mut self,
        values: &mut ValueTable,
        block: BasicBlockId,
        original: ValueId,
    ) -> (r: ValueId)
        requires
            old(self).wf(),
            old(values).wf(),
            block.0 < old(self).blocks().len(),
            original.0 < old(values).count(),
        ensures
            final(self).wf(),
            final(values).wf(),
            final(values).extends(old(values)),
            same_shape(old(self).blocks(), final(self).blocks()),
            keeps_mappings(old(self).blocks(), final(self).blocks(), original),
            keeps_resolved(old(self).blocks(), final(self).blocks(), original),
            keeps_sealed_waiting(old(self).blocks(), final(self).blocks()),
            keeps_unterminated(old(self).blocks(), final(self).blocks()),
            keeps_answers(*old(self), *old(values), *final(self), *final(values), original),
            keeps_answered_edges(*old(self), *old(values), *final(self), original),
            old(self).answer(old(values), block, original) is None && old(
                self).blocks()[block.0 as int].sealed && old(
                self).blocks()[block.0 as int].predecessors@.no_duplicates() ==> forall|j: int|
                0 <= j < old(self).blocks()[block.0 as int].predecessors@.len() ==> passed_on(
                    *old(self),
                    *final(self),
                    *final(values),
                    block,
                    original,
                    #[trigger] old(self).blocks()[block.0 as int].predecessors@[j],
                ),
            final(self).current_block == old(self).current_block,
            final(self).cfg.entry_block == old(self).cfg.entry_block,
            final(self).predicates == old(self).predicates,
            final(self).return_type == old(self).return_type,
            old(self).answer(old(values), block, original) is Some ==> {
                &&& Some(r) == old(self).answer(old(values), block, original)
                &&& *final(self) == *old(self)
                &&& *final(values) == *old(values)
            },
            final(self).answer(final(values), block, original) == Some(r),
            old(self).answer(old(values), block, original) is None ==> {
                &&& r.0 == old(values).count()
                &&& r.0 < final(values).count()
                &&& final(values).types@[r.0 as int] == old(values).types@[original.0 as int]
                &&& final(values).blocks@[r.0 as int] == block
                &&& final(self).blocks()[block.0 as int].mapped(original) == Some(r)
                &&& final(self).blocks()[block.0 as int].params@ == old(self).blocks()[block.0 as int].params@.push(r)
                &&& !old(self).blocks()[block.0 as int].sealed ==> final(self).blocks()[block.0 as int].incomplete_params@ == old(self).blocks()[block.0 as int].incomplete_params@.push((r, original))
            },
        decreases unmapped(old(self).blocks(), original), 0nat,
    {
        let b = block.0;
        proof {
            assert(values.types@.subrange(0, values.count() as int) =~= values.types@);
            assert(values.blocks@.subrange(0, values.count() as int) =~= values.blocks@);
        }
        if let Some(local) = self.cfg.blocks[b].get_mapped_value(original) {
            return local;
        }
        if values.block_of(original) == block {
            return original;
        }
        let ty = copy_type(values.type_of(original));
        let param = self.cfg.blocks[b].append_param(values, ty);
        self.cfg.blocks[b].map_value(original, param);
        let ghost mid_values = *values;
        proof {
            assert(values.types@.subrange(0, old(values).count() as int) =~= old(values).types@);
            assert(values.blocks@.subrange(0, old(values).count() as int) =~= old(values).blocks@);
            assert(keeps_mappings(old(self).blocks(), self.blocks(), original)) by {
                assert forall|i: int, k: ValueId|
                    0 <= i < old(self).blocks().len() && (old(self).blocks()[i].mapped(k) is Some
                        || k != original) implies #[trigger] self.blocks()[i].mapped(k)
                    == old(self).blocks()[i].mapped(k) by {
                    if i != b {
                        assert(self.blocks()[i] == old(self).blocks()[i]);
                    }
                }
            }
            assert forall|i: int| 0 <= i < self.blocks().len() implies (#[trigger] self.blocks()[i]).id.0
                == i by {
                if i != b {
                    assert(self.blocks()[i] == old(self).blocks()[i]);
                }
            }
            assert forall|i: int, j: int|
                0 <= i < self.blocks().len() && 0 <= j < self.blocks()[i].predecessors@.len()
                    implies (#[trigger] self.blocks()[i].predecessors@[j]).0
                < self.blocks().len() by {
                if i != b {
                    assert(self.blocks()[i] == old(self).blocks()[i]);
                }
                assert(old(self).blocks()[i].predecessors@[j].0 < old(self).blocks().len());
            }
        }
        let ghost mapped_blocks = self.blocks();
        if !self.cfg.blocks[b].sealed {
            self.cfg.blocks[b].incomplete_params.push((param, original));
            assert(self.blocks()[b as int].original_to_local_valueid == mapped_blocks[b as int].original_to_local_valueid);
            proof {
                assert(keeps_mappings(old(self).blocks(), self.blocks(), original)) by {
                    assert forall|i: int, k: ValueId|
                        0 <= i < old(self).blocks().len() && (old(self).blocks()[i].mapped(k) is Some
                            || k != original) implies #[trigger] self.blocks()[i].mapped(k)
                        == old(self).blocks()[i].mapped(k) by {
                        if i != b {
                            assert(self.blocks()[i] == old(self).blocks()[i]);
                        } else {
                            assert(mapped_blocks[i].mapped(k) == old(self).blocks()[i].mapped(k));
                        }
                    }
                }
                assert forall|i: int| 0 <= i < self.blocks().len() implies (#[trigger] self.blocks()[i]).id.0
                    == i by {
                    if i != b {
                        assert(self.blocks()[i] == old(self).blocks()[i]);
                    }
                }
                assert forall|i: int, j: int|
                    0 <= i < self.blocks().len() && 0 <= j < self.blocks()[i].predecessors@.len()
                        implies (#[trigger] self.blocks()[i].predecessors@[j]).0
                    < self.blocks().len() by {
                    if i != b {
                        assert(self.blocks()[i] == old(self).blocks()[i]);
                    }
                    assert(old(self).blocks()[i].predecessors@[j].0 < old(self).blocks().len());
                }
            }
            return param;
        }
        let ghost mid = self.blocks();
        proof {
            lemma_unmapped_shrinks(old(self).blocks(), self.blocks(), original, b as int);
        }
        let ghost mid_fb = *self;
        self.fill_predecessors(values, block, original);
        proof {
            assert forall|t: BasicBlockId|
                t.0 < old(self).blocks().len() && (#[trigger] old(self).answer(old(values), t, original))
                    is Some implies edges_kept(old(self).blocks(), self.blocks(), t) by {
                assert(t != block);
                assert(mid_fb.blocks()[t.0 as int] == old(self).blocks()[t.0 as int]);
                assert(mid_fb.answer(&mid_values, t, original) == old(self).answer(old(values), t, original));
                assert(edges_kept(mid_fb.blocks(), self.blocks(), t));
                assert forall|j: int| 0 <= j < old(self).blocks().len() implies args_toward(
                    (#[trigger] self.blocks()[j]).terminator, t) == args_toward(old(self).blocks()[j].terminator, t) by {
                    assert(mid_fb.blocks()[j].terminator == old(self).blocks()[j].terminator);
                    assert(args_toward(self.blocks()[j].terminator, t) == args_toward(mid_fb.blocks()[j].terminator, t));
                }
            }
            let preds = old(self).blocks()[block.0 as int].predecessors@;
            if preds.no_duplicates() {
                assert(mid_fb.blocks()[b as int].predecessors == old(self).blocks()[b as int].predecessors);
                assert(mid_fb.answer(&mid_values, block, original) is Some);
                assert forall|j: int| 0 <= j < preds.len() implies passed_on(
                    *old(self),
                    *self,
                    *values,
                    block,
                    original,
                    #[trigger] preds[j],
                ) by {
                    let q = preds[j];
                    assert(passed_on(mid_fb, *self, *values, block, original, mid_fb.blocks()[b as int].predecessors@[j]));
                    assert(old(self).blocks()[b as int].predecessors@[j].0 < old(self).blocks().len());
                    assert(mid_fb.blocks()[q.0 as int].terminator == old(self).blocks()[q.0 as int].terminator);
                }
            }
            assert(values.types@.subrange(0, old(values).count() as int) =~= old(values).types@);
            assert(values.blocks@.subrange(0, old(values).count() as int) =~= old(values).blocks@);
            assert(values.types@[param.0 as int] == mid_values.types@[param.0 as int]);
            assert(values.blocks@[param.0 as int] == mid_values.blocks@[param.0 as int]);
            assert(mid[b as int].mapped(original) is Some);
            assert(self.blocks()[b as int].mapped(original) == mid[b as int].mapped(original));
            assert(self.blocks()[b as int].params == mid[b as int].params);
        }
        param
    }

    /// Has each predecessor of `block` hand `block` its value for `original`.
    fn fill_predecessors(&mut self, values: &mut ValueTable, block: BasicBlockId, original: ValueId)
        requires
            old(self).wf(),
            old(values).wf(),
            block.0 < old(self).blocks().len(),
            original.0 < old(values).count(),
        ensures
            final(self).wf(),
            final(values).wf(),
            final(values).extends(old(values)),
            same_shape(old(self).blocks(), final(self).blocks()),
            keeps_mappings(old(self).blocks(), final(self).blocks(), original),
            keeps_resolved(old(self).blocks(), final(self).blocks(), original),
            keeps_sealed_waiting(old(self).blocks(), final(self).blocks()),
            keeps_unterminated(old(self).blocks(), final(self).blocks()),
            keeps_answers(*old(self), *old(values), *final(self), *final(values), original),
            forall|t: BasicBlockId|
                t.0 < old(self).blocks().len() && t != block && (#[trigger] old(self).answer(
                    old(values),
                    t,
                    original,
                )) is Some ==> edges_kept(old(self).blocks(), final(self).blocks(), t),
            old(self).answer(old(values), block, original) is Some && old(
                self).blocks()[block.0 as int].predecessors@.no_duplicates() ==> forall|j: int|
                0 <= j < old(self).blocks()[block.0 as int].predecessors@.len() ==> passed_on(
                    *old(self),
                    *final(self),
                    *final(values),
                    block,
                    original,
                    #[trigger] old(self).blocks()[block.0 as int].predecessors@[j],
                ),
            final(self).current_block == old(self).current_block,
            final(self).cfg.entry_block == old(self).cfg.entry_block,
            final(self).predicates == old(self).predicates,
            final(self).return_type == old(self).return_type,
        decreases unmapped(old(self).blocks(), original), 1nat,
    {
        let n = self.cfg.blocks[block.0].predecessors.len();
        let mut i: usize = 0;
        assert(values.types@.subrange(0, old(values).count() as int) =~= old(values).types@);
        assert(values.blocks@.subrange(0, old(values).count() as int) =~= old(values).blocks@);
        while i < n
            invariant
                i <= n,
                n == old(self).blocks()[block.0 as int].predecessors@.len(),
                block.0 < old(self).blocks().len(),
                original.0 < old(values).count(),
                self.wf(),
                values.wf(),
                values.extends(old(values)),
                same_shape(old(self).blocks(), self.blocks()),
                keeps_mappings(old(self).blocks(), self.blocks(), original),
                keeps_resolved(old(self).blocks(), self.blocks(), original),
                keeps_sealed_waiting(old(self).blocks(), self.blocks()),
                keeps_unterminated(old(self).blocks(), self.blocks()),
                keeps_answers(*old(self), *old(values), *self, *values, original),
                forall|t: BasicBlockId|
                    t.0 < old(self).blocks().len() && t != block && (#[trigger] old(self).answer(
                        old(values),
                        t,
                        original,
                    )) is Some ==> edges_kept(old(self).blocks(), self.blocks(), t),
                old(self).answer(old(values), block, original) is Some && old(
                    self).blocks()[block.0 as int].predecessors@.no_duplicates() ==> forall|j: int|
                    0 <= j < i ==> passed_on(
                        *old(self),
                        *self,
                        *values,
                        block,
                        original,
                        #[trigger] old(self).blocks()[block.0 as int].predecessors@[j],
                    ),
                old(self).answer(old(values), block, original) is Some && old(
                    self).blocks()[block.0 as int].predecessors@.no_duplicates() ==> forall|j: int|
                    i <= j < n ==> args_toward(
                        self.blocks()[(#[trigger] old(self).blocks()[block.0 as int].predecessors@[j]).0 as int].terminator,
                        block,
                    ) == args_toward(
                        old(self).blocks()[old(self).blocks()[block.0 as int].predecessors@[j].0 as int].terminator,
                        block,
                    ),
                self.current_block == old(self).current_block,
                self.cfg.entry_block == old(self).cfg.entry_block,
                self.predicates == old(self).predicates,
                self.return_type == old(self).return_type,
            decreases n - i,
        {
            let pred = self.cfg.blocks[block.0].predecessors[i];
            proof {
                assert(self.blocks()[block.0 as int].predecessors@[i as int].0 < self.blocks().len());
                lemma_unmapped_keeps(old(self).blocks(), self.blocks(), original);
            }
            let ghost before = self.blocks();
            let ghost before_fb = *self;
            let ghost before_values = *values;
            let val = self.use_value_in_block(values, pred, original);
            let ghost between = self.blocks();
            let ghost between_fb = *self;
            self.append_arg_to_terminator(pred, block, val);
            proof {
                lemma_arg_appended_edges(
                    between[pred.0 as int].terminator,
                    self.blocks()[pred.0 as int].terminator,
                    block,
                    val,
                );
                assert(keeps_answers(*old(self), *old(values), *self, *values, original)) by {
                    assert forall|t: BasicBlockId|
                        #![trigger old(self).answer(old(values), t, original)]
                        t.0 < old(self).blocks().len() && old(self).answer(old(values), t, original) is Some
                        implies self.answer(values, t, original) == old(self).answer(old(values), t, original) by {
                        assert(before_fb.answer(&before_values, t, original) == old(self).answer(old(values), t, original));
                        assert(between_fb.answer(values, t, original) == before_fb.answer(&before_values, t, original));
                        assert(self.blocks()[t.0 as int].original_to_local_valueid == between[t.0 as int].original_to_local_valueid);
                    }
                }
                assert forall|t: BasicBlockId|
                    t.0 < old(self).blocks().len() && t != block && (#[trigger] old(self).answer(
                        old(values),
                        t,
                        original,
                    )) is Some implies edges_kept(old(self).blocks(), self.blocks(), t) by {
                    assert(before_fb.answer(&before_values, t, original) == old(self).answer(old(values), t, original));
                    assert(edges_kept(before, between, t));
                    assert forall|j: int| 0 <= j < old(self).blocks().len() implies args_toward(
                        (#[trigger] self.blocks()[j]).terminator, t) == args_toward(old(self).blocks()[j].terminator, t) by {
                        assert(args_toward(before[j].terminator, t) == args_toward(old(self).blocks()[j].terminator, t));
                        assert(args_toward(between[j].terminator, t) == args_toward(before[j].terminator, t));
                        if j != pred.0 {
                            assert(self.blocks()[j] == between[j]);
                        }
                    }
                }
                let preds = old(self).blocks()[block.0 as int].predecessors@;
                if old(self).answer(old(values), block, original) is Some && preds.no_duplicates() {
                    assert(pred == preds[i as int]);
                    assert(before_fb.answer(&before_values, block, original) is Some);
                    assert(edges_kept(before, between, block));
                    assert(between_fb.answer(values, pred, original) == Some(val));
                    assert(self.answer(values, pred, original) == Some(val)) by {
                        assert(self.blocks()[pred.0 as int].original_to_local_valueid == between[pred.0 as int].original_to_local_valueid);
                    }
                    assert forall|j: int| 0 <= j < i + 1 implies passed_on(
                        *old(self),
                        *self,
                        *values,
                        block,
                        original,
                        #[trigger] preds[j],
                    ) by {
                        let q = preds[j];
                        if j < i {
                            assert(q != pred);
                            assert(passed_on(*old(self), before_fb, before_values, block, original, q));
                            assert(between_fb.answer(values, q, original) == before_fb.answer(&before_values, q, original));
                            assert(self.blocks()[q.0 as int] == between[q.0 as int]);
                            assert(args_toward(between[q.0 as int].terminator, block) == args_toward(before[q.0 as int].terminator, block));
                        } else {
                            assert(args_toward(between[q.0 as int].terminator, block) == args_toward(before[q.0 as int].terminator, block));
                        }
                    }
                    assert forall|j: int| i + 1 <= j < n implies args_toward(
                        self.blocks()[(#[trigger] preds[j]).0 as int].terminator,
                        block,
                    ) == args_toward(old(self).blocks()[preds[j].0 as int].terminator, block) by {
                        let q = preds[j];
                        assert(q != pred);
                        assert(self.blocks()[q.0 as int] == between[q.0 as int]);
                        assert(args_toward(between[q.0 as int].terminator, block) == args_toward(before[q.0 as int].terminator, block));
                    }
                }
                assert(values.types@.subrange(0, old(values).count() as int) =~= before_values.types@.subrange(0, old(values).count() as int));
                assert(values.blocks@.subrange(0, old(values).count() as int) =~= before_values.blocks@.subrange(0, old(values).count() as int));
                assert(same_shape(old(self).blocks(), self.blocks())) by {
                    assert forall|j: int| 0 <= j < old(self).blocks().len() implies {
                        &&& (#[trigger] self.blocks()[j]).id == old(self).blocks()[j].id
                        &&& self.blocks()[j].instructions == old(self).blocks()[j].instructions
                        &&& self.blocks()[j].predecessors == old(self).blocks()[j].predecessors
                        &&& self.blocks()[j].sealed == old(self).blocks()[j].sealed
                    } by {
                        assert(before[j].id == old(self).blocks()[j].id);
                        assert(between[j].id == before[j].id);
                    }
                }
                assert(keeps_mappings(old(self).blocks(), self.blocks(), original)) by {
                    assert forall|j: int, k: ValueId|
                        0 <= j < old(self).blocks().len() && (old(self).blocks()[j].mapped(k) is Some
                            || k != original) implies #[trigger] self.blocks()[j].mapped(k)
                        == old(self).blocks()[j].mapped(k) by {
                        assert(before[j].mapped(k) == old(self).blocks()[j].mapped(k));
                        assert(between[j].mapped(k) == before[j].mapped(k));
                        assert(self.blocks()[j].original_to_local_valueid == between[j].original_to_local_valueid);
                    }
                }
                assert(keeps_unterminated(old(self).blocks(), self.blocks())) by {
                    assert forall|j: int| 0 <= j < old(self).blocks().len() && old(self).blocks()[j].terminator is None
                        implies (#[trigger] self.blocks()[j]).terminator is None by {
                        assert(before[j].terminator is None);
                        assert(between[j].terminator is None);
                    }
                }
                assert(keeps_sealed_waiting(old(self).blocks(), self.blocks())) by {
                    assert forall|j: int| 0 <= j < old(self).blocks().len() && old(self).blocks()[j].sealed
                        implies (#[trigger] self.blocks()[j]).incomplete_params
                        == old(self).blocks()[j].incomplete_params by {
                        assert(before[j].sealed == old(self).blocks()[j].sealed);
                        assert(between[j].incomplete_params == before[j].incomplete_params);
                    }
                }
                assert(keeps_resolved(old(self).blocks(), self.blocks(), original)) by {
                    assert forall|j: int|
                        0 <= j < old(self).blocks().len() && old(self).blocks()[j].mapped(original) is Some implies {
                            &&& (#[trigger] self.blocks()[j]).params == old(self).blocks()[j].params
                            &&& self.blocks()[j].incomplete_params == old(self).blocks()[j].incomplete_params
                        } by {
                        assert(before[j].mapped(original) == old(self).blocks()[j].mapped(original));
                        assert(between[j].params == before[j].params);
                        assert(self.blocks()[j].params == between[j].params);
                    }
                }
            }
            i = i + 1;
        }
    }
}

/// The blocks that a terminator hands control to.
pub open spec fn terminator_targets(t: Terminator) -> Seq<BasicBlockId> {
    match t {
        Terminator::Jump { target, .. } => seq![target],
        Terminator::CondJump { true_target, false_target, .. } => seq![true_target, false_target],
        _ => Seq::empty(),
    }
}

/// `preds` with `p` added, unless it is there already.
proof fn lemma_add_pred_idempotent(preds: Seq<BasicBlockId>, p: BasicBlockId)
    ensures
        add_pred(add_pred(preds, p), p) == add_pred(preds, p),
{
    if !preds.contains(p) {
        assert(preds.push(p)[preds.len() as int] == p);
    }
}

impl FunctionBuilder {
    /// Records `from` as a predecessor of `target`.
    fn add_predecessor(&mut self, target: BasicBlockId, from: BasicBlockId)
        requires
            old(self).wf(),
            target.0 < old(self).blocks().len(),
            from.0 < old(self).blocks().len(),
        ensures
            final(self).wf(),
            final(self).blocks().len() == old(self).blocks().len(),
            final(self).blocks()[target.0 as int].predecessors@ == add_pred(
                old(self).blocks()[target.0 as int].predecessors@,
                from,
            ),
            preds_distinct(old(self).blocks()) ==> preds_distinct(final(self).blocks()),
            forall|i: int|
                0 <= i < old(self).blocks().len() && i != target.0 ==> #[trigger] final(self).blocks()[i]
                    == old(self).blocks()[i],
            ({
                let (o, n) = (old(self).blocks()[target.0 as int], final(self).blocks()[target.0 as int]);
                &&& n.id == o.id
                &&& n.instructions == o.instructions
                &&& n.terminator == o.terminator
                &&& n.params == o.params
                &&& n.incomplete_params == o.incomplete_params
                &&& n.original_to_local_valueid == o.original_to_local_valueid
                &&& n.sealed == o.sealed
            }),
            final(self).current_block == old(self).current_block,
            final(self).cfg.entry_block == old(self).cfg.entry_block,
            final(self).predicates == old(self).predicates,
            final(self).return_type == old(self).return_type,
    {
        let t = target.0;
        let n = self.cfg.blocks[t].predecessors.len();
        let mut i: usize = 0;
        let mut found = false;
        while i < n
            invariant
                i <= n,
                t < self.blocks().len(),
                n == self.blocks()[t as int].predecessors@.len(),
                found <==> exists|j: int|
                    0 <= j < i && self.blocks()[t as int].predecessors@[j] == from,
            decreases n - i,
        {
            if self.cfg.blocks[t].predecessors[i] == from {
                found = true;
            }
            i = i + 1;
        }
        if !found {
            self.cfg.blocks[t].predecessors.push(from);
        }
        proof {
            let o = old(self).blocks()[t as int].predecessors@;
            if found {
                let j = choose|j: int| 0 <= j < n && o[j] == from;
                assert(o.contains(from));
            } else {
                assert(!o.contains(from));
            }
            assert forall|i: int| 0 <= i < self.blocks().len() implies (#[trigger] self.blocks()[i]).id.0
                == i by {
                if i != t {
                    assert(self.blocks()[i] == old(self).blocks()[i]);
                }
            }
            assert forall|i: int, j: int|
                0 <= i < self.blocks().len() && 0 <= j < self.blocks()[i].predecessors@.len()
                    implies (#[trigger] self.blocks()[i].predecessors@[j]).0
                < self.blocks().len() by {
                if i != t {
                    assert(self.blocks()[i] == old(self).blocks()[i]);
                    assert(old(self).blocks()[i].predecessors@[j].0 < old(self).blocks().len());
                } else if j < o.len() {
                    assert(self.blocks()[i].predecessors@[j] == o[j]);
                    assert(old(self).blocks()[i].predecessors@[j].0 < old(self).blocks().len());
                }
            }
        }
    }

    /// Ends the block being filled with `terminator`, recording the block as
    /// a predecessor of each block that the terminator hands control to.
    pub fn set_basic_block_terminator(&mut self, terminator: Terminator)
        requires
            old(self).wf(),
            old(self).blocks()[old(self).current_block.0 as int].terminator is None,
            forall|k: int|
                0 <= k < terminator_targets(terminator).len() ==> (#[trigger] terminator_targets(
                    terminator,
                )[k]).0 < old(self).blocks().len(),
        ensures
            final(self).wf(),
            final(self).blocks().len() == old(self).blocks().len(),
            final(self).blocks()[old(self).current_block.0 as int].terminator == Some(terminator),
            preds_distinct(old(self).blocks()) ==> preds_distinct(final(self).blocks()),
            forall|i: int|
                0 <= i < old(self).blocks().len() ==> {
                    &&& (#[trigger] final(self).blocks()[i]).id == old(self).blocks()[i].id
                    &&& final(self).blocks()[i].instructions == old(self).blocks()[i].instructions
                    &&& final(self).blocks()[i].params == old(self).blocks()[i].params
                    &&& final(self).blocks()[i].original_to_local_valueid == old(
                        self).blocks()[i].original_to_local_valueid
                    &&& final(self).blocks()[i].sealed == old(self).blocks()[i].sealed
                    &&& final(self).blocks()[i].incomplete_params == old(
                        self).blocks()[i].incomplete_params
                    &&& i != old(self).current_block.0 ==> final(self).blocks()[i].terminator == old(
                        self).blocks()[i].terminator
                    &&& !terminator_targets(terminator).contains(BasicBlockId(i as usize))
                        ==> final(self).blocks()[i].predecessors == old(self).blocks()[i].predecessors
                    &&& terminator_targets(terminator).contains(BasicBlockId(i as usize))
                        ==> final(self).blocks()[i].predecessors@ == add_pred(
                        old(self).blocks()[i].predecessors@,
                        old(self).current_block,
                    )
                },
            final(self).current_block == old(self).current_block,
            final(self).cfg.entry_block == old(self).cfg.entry_block,
            final(self).predicates == old(self).predicates,
            final(self).return_type == old(self).return_type,
    {
        let cur = self.current_block;
        let ghost targets = terminator_targets(terminator);
        match &terminator {
            Terminator::Jump { target, .. } => {
                assert(targets[0] == *target);
                self.add_predecessor(*target, cur);
            },
            Terminator::CondJump { true_target, false_target, .. } => {
                assert(targets[0] == *true_target);
                assert(targets[1] == *false_target);
                let ghost before = self.blocks();
                self.add_predecessor(*true_target, cur);
                let ghost after_true = self.blocks();
                self.add_predecessor(*false_target, cur);
                proof {
                    if true_target.0 != false_target.0 {
                        assert(self.blocks()[true_target.0 as int] == after_true[true_target.0 as int]);
                        assert(after_true[false_target.0 as int] == before[false_target.0 as int]);
                    } else {
                        lemma_add_pred_idempotent(before[true_target.0 as int].predecessors@, cur);
                    }
                }
            },
            _ => {},
        }
        let ghost mid = self.blocks();
        self.cfg.blocks[cur.0].terminator = Some(terminator);
        proof {
            assert forall|i: int| 0 <= i < self.blocks().len() implies (#[trigger] self.blocks()[i]).id.0
                == i by {
                if i != cur.0 {
                    assert(self.blocks()[i] == mid[i]);
                }
            }
            assert forall|i: int, j: int|
                0 <= i < self.blocks().len() && 0 <= j < self.blocks()[i].predecessors@.len()
                    implies (#[trigger] self.blocks()[i].predecessors@[j]).0
                < self.blocks().len() by {
                assert(self.blocks()[i].predecessors == mid[i].predecessors);
                assert(mid[i].predecessors@[j].0 < mid.len());
            }
            assert forall|i: int| 0 <= i < old(self).blocks().len() implies {
                &&& (#[trigger] self.blocks()[i]).id == old(self).blocks()[i].id
                &&& self.blocks()[i].instructions == old(self).blocks()[i].instructions
                &&& self.blocks()[i].params == old(self).blocks()[i].params
                &&& self.blocks()[i].original_to_local_valueid == old(self).blocks()[i].original_to_local_valueid
                &&& self.blocks()[i].sealed == old(self).blocks()[i].sealed
                &&& self.blocks()[i].incomplete_params == old(self).blocks()[i].incomplete_params
                &&& i != cur.0 ==> self.blocks()[i].terminator == old(self).blocks()[i].terminator
                &&& !targets.contains(BasicBlockId(i as usize)) ==> self.blocks()[i].predecessors
                    == old(self).blocks()[i].predecessors
                &&& targets.contains(BasicBlockId(i as usize)) ==> self.blocks()[i].predecessors@
                    == add_pred(old(self).blocks()[i].predecessors@, cur)
            } by {
                assert(self.blocks()[i].predecessors == mid[i].predecessors);
                if targets.contains(BasicBlockId(i as usize)) {
                    let k = choose|k: int| 0 <= k < targets.len() && targets[k] == BasicBlockId(i as usize);
                    assert(mid[i].predecessors@ == add_pred(old(self).blocks()[i].predecessors@, cur));
                }
            }
        }
    }

    /// Seals `block`: its predecessors are all known now, so each parameter
    /// waiting in it gets its arguments from them.
    pub fn seal_block(&mut self, values: &mut ValueTable, block: BasicBlockId)
        requires
            old(self).wf(),
            old(values).wf(),
            block.0 < old(self).blocks().len(),
            forall|j: int|
                0 <= j < old(self).blocks()[block.0 as int].incomplete_params@.len() ==> (#[trigger] old(
                    self).blocks()[block.0 as int].incomplete_params@[j]).1.0 < old(values).count(),
        ensures
            final(self).wf(),
            final(values).wf(),
            final(values).extends(old(values)),
            final(self).blocks().len() == old(self).blocks().len(),
            final(self).blocks()[block.0 as int].sealed,
            !old(self).blocks()[block.0 as int].sealed ==> final(self).blocks()[block.0 as int].incomplete_params@.len() == 0,
            forall|i: int|
                0 <= i < old(self).blocks().len() ==> {
                    &&& (#[trigger] final(self).blocks()[i]).id == old(self).blocks()[i].id
                    &&& final(self).blocks()[i].instructions == old(self).blocks()[i].instructions
                    &&& final(self).blocks()[i].predecessors == old(self).blocks()[i].predecessors
                    &&& i != block.0 ==> final(self).blocks()[i].sealed == old(self).blocks()[i].sealed
                },
            old(self).blocks()[block.0 as int].sealed ==> *final(self) == *old(self) && *final(values)
                == *old(values),
            keeps_unterminated(old(self).blocks(), final(self).blocks()),
            !old(self).blocks()[block.0 as int].sealed && old(
                self).blocks()[block.0 as int].predecessors@.no_duplicates() && waiting_recorded(
                old(self).blocks()[block.0 as int],
            ) ==> forall|j: int|
                0 <= j < old(self).blocks()[block.0 as int].predecessors@.len() ==> {
                    let p = #[trigger] old(self).blocks()[block.0 as int].predecessors@[j];
                    let w = old(self).blocks()[block.0 as int].incomplete_params@;
                    &&& forall|k: int|
                        0 <= k < w.len() ==> #[trigger] final(self).answer(final(values), p, w[k].1) is Some
                    &&& args_toward(final(self).blocks()[p.0 as int].terminator, block)
                        == each_extended(
                        args_toward(old(self).blocks()[p.0 as int].terminator, block),
                        answers_for(*final(self), *final(values), p, w),
                    )
                },
            final(self).current_block == old(self).current_block,
            final(self).cfg.entry_block == old(self).cfg.entry_block,
            final(self).predicates == old(self).predicates,
            final(self).return_type == old(self).return_type,
    {
        let b = block.0;
        proof {
            assert(values.types@.subrange(0, values.count() as int) =~= values.types@);
            assert(values.blocks@.subrange(0, values.count() as int) =~= values.blocks@);
        }
        if self.cfg.blocks[b].sealed {
            return;
        }
        self.cfg.blocks[b].sealed = true;
        let mut waiting: Vec<(ValueId, ValueId)> = Vec::new();
        std::mem::swap(&mut waiting, &mut self.cfg.blocks[b].incomplete_params);
        let ghost start = self.blocks();
        let ghost start_values = *values;
        proof {
            assert forall|i: int| 0 <= i < self.blocks().len() implies (#[trigger] self.blocks()[i]).id.0
                == i by {
                if i != b {
                    assert(self.blocks()[i] == old(self).blocks()[i]);
                }
            }
            assert forall|i: int, j: int|
                0 <= i < self.blocks().len() && 0 <= j < self.blocks()[i].predecessors@.len()
                    implies (#[trigger] self.blocks()[i].predecessors@[j]).0
                < self.blocks().len() by {
                if i != b {
                    assert(self.blocks()[i] == old(self).blocks()[i]);
                }
                assert(old(self).blocks()[i].predecessors@[j].0 < old(self).blocks().len());
            }
        }
        let n = waiting.len();
        let mut k: usize = 0;
        proof {
            let preds = old(self).blocks()[b as int].predecessors@;
            if preds.no_duplicates() && waiting_recorded(old(self).blocks()[b as int]) {
                assert forall|m: int| 0 <= m < n implies #[trigger] self.blocks()[b as int].mapped(waiting@[m].1) == Some(waiting@[m].0) by {
                    assert(old(self).blocks()[b as int].mapped(waiting@[m].1) == Some(waiting@[m].0));
                }
                assert forall|j: int| 0 <= j < preds.len() implies ({
                    let p = #[trigger] preds[j];
                    &&& forall|m: int| 0 <= m < k ==> #[trigger] self.answer(values, p, waiting@[m].1) is Some
                    &&& args_toward(self.blocks()[p.0 as int].terminator, block) == each_extended(
                        args_toward(old(self).blocks()[p.0 as int].terminator, block),
                        answers_for(*self, *values, p, waiting@.take(k as int)),
                    )
                }) by {
                    let p = preds[j];
                    assert(p.0 < old(self).blocks().len());
                    if p.0 != b {
                        assert(self.blocks()[p.0 as int] == old(self).blocks()[p.0 as int]);
                    }
                    assert(answers_for(*self, *values, p, waiting@.take(0)) =~= Seq::<ValueId>::empty());
                    assert(args_toward(self.blocks()[p.0 as int].terminator, block) =~= each_extended(
                        args_toward(old(self).blocks()[p.0 as int].terminator, block),
                        Seq::<ValueId>::empty(),
                    ));
                }
            }
        }
        while k < n
            invariant
                k <= n,
                n == waiting@.len(),
                waiting@ == old(self).blocks()[b as int].incomplete_params@,
                b < self.blocks().len(),
                b == block.0,
                forall|j: int| 0 <= j < n ==> (#[trigger] waiting@[j]).1.0 < old(values).count(),
                self.wf(),
                values.wf(),
                values.extends(old(values)),
                same_shape(start, self.blocks()),
                keeps_sealed_waiting(start, self.blocks()),
                start[b as int].sealed,
                start[b as int].incomplete_params@.len() == 0,
                start.len() == old(self).blocks().len(),
                forall|i: int|
                    0 <= i < old(self).blocks().len() ==> {
                        &&& (#[trigger] start[i]).id == old(self).blocks()[i].id
                        &&& start[i].instructions == old(self).blocks()[i].instructions
                        &&& start[i].predecessors == old(self).blocks()[i].predecessors
                        &&& i != b ==> start[i].sealed == old(self).blocks()[i].sealed
                    },
                forall|i: int| 0 <= i < start.len() && i != b ==> #[trigger] start[i] == old(self).blocks()[i],
                start[b as int].terminator == old(self).blocks()[b as int].terminator,
                keeps_unterminated(start, self.blocks()),
                start[b as int].original_to_local_valueid == old(self).blocks()[b as int].original_to_local_valueid,
                start_values == *old(values),
                old(self).blocks()[b as int].predecessors@.no_duplicates() && waiting_recorded(old(self).blocks()[b as int]) ==> {
                    &&& forall|m: int| 0 <= m < n ==> #[trigger] self.blocks()[b as int].mapped(waiting@[m].1) == Some(waiting@[m].0)
                    &&& forall|j: int| 0 <= j < old(self).blocks()[b as int].predecessors@.len() ==> {
                        let p = #[trigger] old(self).blocks()[b as int].predecessors@[j];
                        &&& forall|m: int| 0 <= m < k ==> #[trigger] self.answer(values, p, waiting@[m].1) is Some
                        &&& args_toward(self.blocks()[p.0 as int].terminator, block) == each_extended(
                            args_toward(old(self).blocks()[p.0 as int].terminator, block),
                            answers_for(*self, *values, p, waiting@.take(k as int)),
                        )
                    }
                },
                self.current_block == old(self).current_block,
                self.cfg.entry_block == old(self).cfg.entry_block,
                self.predicates == old(self).predicates,
                self.return_type == old(self).return_type,
            decreases n - k,
        {
            let (_param, original) = waiting[k];
            let ghost before = self.blocks();
            let ghost before_fb = *self;
            let ghost before_values = *values;
            self.fill_predecessors(values, block, original);
            proof {
                assert(keeps_unterminated(start, self.blocks())) by {
                    assert forall|i: int|
                        0 <= i < start.len() && start[i].terminator is None implies (
                        #[trigger] self.blocks()[i]).terminator is None by {
                        assert(before[i].terminator is None);
                    }
                }
                let preds = old(self).blocks()[b as int].predecessors@;
                if preds.no_duplicates() && waiting_recorded(old(self).blocks()[b as int]) {
                    assert(before[b as int].predecessors == old(self).blocks()[b as int].predecessors);
                    assert(before_fb.answer(&before_values, block, original) is Some) by {
                        assert(before[b as int].mapped(waiting@[k as int].1) == Some(waiting@[k as int].0));
                    }
                    assert forall|m: int| 0 <= m < n implies #[trigger] self.blocks()[b as int].mapped(waiting@[m].1) == Some(waiting@[m].0) by {
                        assert(before[b as int].mapped(waiting@[m].1) == Some(waiting@[m].0));
                    }
                    assert forall|j: int| 0 <= j < preds.len() implies ({
                        let p = #[trigger] preds[j];
                        &&& forall|m: int| 0 <= m < k + 1 ==> #[trigger] self.answer(values, p, waiting@[m].1) is Some
                        &&& args_toward(self.blocks()[p.0 as int].terminator, block) == each_extended(
                            args_toward(old(self).blocks()[p.0 as int].terminator, block),
                            answers_for(*self, *values, p, waiting@.take(k + 1)),
                        )
                    }) by {
                        let p = preds[j];
                        assert(p.0 < old(self).blocks().len());
                        assert(passed_on(before_fb, *self, *values, block, original, before[b as int].predecessors@[j]));
                        assert forall|m: int| 0 <= m < k implies self.answer(values, p, waiting@[m].1)
                            == before_fb.answer(&before_values, p, waiting@[m].1) by {
                            assert(before_fb.answer(&before_values, p, waiting@[m].1) is Some);
                            lemma_answer_kept(before_fb, before_values, *self, *values, original, waiting@[m].1, p);
                        }
                        assert(answers_for(*self, *values, p, waiting@.take(k + 1)) =~= answers_for(
                            before_fb,
                            before_values,
                            p,
                            waiting@.take(k as int),
                        ).push(self.answer(values, p, original)->Some_0));
                        let l0 = args_toward(old(self).blocks()[p.0 as int].terminator, block);
                        let a0 = answers_for(before_fb, before_values, p, waiting@.take(k as int));
                        assert(each_pushed(each_extended(l0, a0), self.answer(values, p, original)->Some_0) =~= each_extended(
                            l0,
                            a0.push(self.answer(values, p, original)->Some_0),
                        )) by {
                            assert forall|q: int| 0 <= q < l0.len() implies (l0[q] + a0).push(
                                self.answer(values, p, original)->Some_0,
                            ) =~= l0[q] + a0.push(self.answer(values, p, original)->Some_0) by {}
                        }
                        assert forall|m: int| 0 <= m < k + 1 implies #[trigger] self.answer(values, p, waiting@[m].1) is Some by {
                            if m < k {
                                assert(self.answer(values, p, waiting@[m].1) == before_fb.answer(&before_values, p, waiting@[m].1));
                            }
                        }
                    }
                }
                assert(values.types@.subrange(0, old(values).count() as int) =~= before_values.types@.subrange(0, old(values).count() as int));
                assert(values.blocks@.subrange(0, old(values).count() as int) =~= before_values.blocks@.subrange(0, old(values).count() as int));
                assert(same_shape(start, self.blocks())) by {
                    assert forall|j: int| 0 <= j < start.len() implies {
                        &&& (#[trigger] self.blocks()[j]).id == start[j].id
                        &&& self.blocks()[j].instructions == start[j].instructions
                        &&& self.blocks()[j].predecessors == start[j].predecessors
                        &&& self.blocks()[j].sealed == start[j].sealed
                    } by {
                        assert(before[j].id == start[j].id);
                    }
                }
                assert(keeps_sealed_waiting(start, self.blocks())) by {
                    assert forall|j: int| 0 <= j < start.len() && start[j].sealed
                        implies (#[trigger] self.blocks()[j]).incomplete_params
                        == start[j].incomplete_params by {
                        assert(before[j].sealed == start[j].sealed);
                        assert(before[j].incomplete_params == start[j].incomplete_params);
                    }
                }
            }
            k = k + 1;
        }
        proof {
            assert(self.blocks()[b as int].incomplete_params == start[b as int].incomplete_params);
            assert(waiting@.take(n as int) =~= waiting@);
        }
    }
}

impl FunctionBuilder {
    /// The type of what `original` stands for in `block`: of the value
    /// recorded there, or of `original` itself.
    pub open spec fn local_type(&self, values: &ValueTable, block: BasicBlockId, original: ValueId) -> Type {
        match self.blocks()[block.0 as int].mapped(original) {
            Some(m) => values.types@[m.0 as int],
            None => values.types@[original.0 as int],
        }
    }

    /// Applies one projection to the pointer `current` in the block being
    /// filled.
    fn emit_projection(&mut self, values: &mut ValueTable, projection: Projection, current: ValueId) -> (r:
        ValueId)
        requires
            old(self).wf(),
            old(values).wf(),
            old(self).blocks()[old(self).current_block.0 as int].terminator is None,
            current.0 < old(values).count(),
            projected_type(old(values).types@[current.0 as int], seq![projection]) is Some,
        ensures
            final(self).wf(),
            final(values).wf(),
            final(values).extends(old(values)),
            r.0 == old(values).count(),
            final(values).count() == old(values).count() + 1,
            Some(final(values).types@[r.0 as int]) == projected_type(
                old(values).types@[current.0 as int],
                seq![projection],
            ),
            final(self).blocks()[old(self).current_block.0 as int].terminator is None,
            final(self).blocks()[old(self).current_block.0 as int].instructions@ == old(
                self).blocks()[old(self).current_block.0 as int].instructions@.push(
                projection_instruction(projection, r, current),
            ),
            final(self).blocks()[old(self).current_block.0 as int].original_to_local_valueid
                == old(self).blocks()[old(self).current_block.0 as int].original_to_local_valueid,
            final(self).blocks().len() == old(self).blocks().len(),
            forall|i: int|
                0 <= i < old(self).blocks().len() && i != old(self).current_block.0 ==> #[trigger] final(
                    self).blocks()[i] == old(self).blocks()[i],
            final(self).current_block == old(self).current_block,
            final(self).cfg.entry_block == old(self).cfg.entry_block,
            final(self).predicates == old(self).predicates,
            final(self).return_type == old(self).return_type,
    {
        let cur = self.current_block.0;
        let ghost t = values.types@[current.0 as int];
        proof {
            assert(seq![projection].drop_last() =~= Seq::<Projection>::empty());
            assert(seq![projection].last() == projection);
            reveal_with_fuel(projected_type, 2);
            assert(projected_type(t, Seq::<Projection>::empty()) == Some(t));
        }
        let r = match projection {
            Projection::Deref => self.cfg.blocks[cur].emit_load(values, current),
            Projection::Field(idx) => self.cfg.blocks[cur].emit_get_field_ptr_by_index(
                values,
                current,
                idx,
            ),
            Projection::Index(idx) => self.cfg.blocks[cur].emit_get_element_ptr(values, current, idx),
        };
        proof {
            assert(values.types@.subrange(0, old(values).count() as int) =~= old(values).types@);
            assert(values.blocks@.subrange(0, old(values).count() as int) =~= old(values).blocks@);
            assert forall|i: int| 0 <= i < self.blocks().len() implies (#[trigger] self.blocks()[i]).id.0
                == i by {
                if i != cur {
                    assert(self.blocks()[i] == old(self).blocks()[i]);
                }
            }
            assert forall|i: int, j: int|
                0 <= i < self.blocks().len() && 0 <= j < self.blocks()[i].predecessors@.len()
                    implies (#[trigger] self.blocks()[i].predecessors@[j]).0
                < self.blocks().len() by {
                if i != cur {
                    assert(self.blocks()[i] == old(self).blocks()[i]);
                }
                assert(old(self).blocks()[i].predecessors@[j].0 < old(self).blocks().len());
            }
        }
        r
    }

    /// Reads the place: the value standing for its root in the block being
    /// filled, followed through each projection, then loaded.
    pub fn read_place(&mut self, values: &mut ValueTable, place: Place) -> (r: ValueId)
        requires
            old(self).wf(),
            old(values).wf(),
            old(self).blocks()[old(self).current_block.0 as int].terminator is None,
            place.root.0 < old(values).count(),
            old(self).blocks()[old(self).current_block.0 as int].mapped(place.root) matches Some(m)
                ==> m.0 < old(values).count(),
            projected_type(
                old(self).local_type(old(values), old(self).current_block, place.root),
                place.projections@,
            ) matches Some(p) && p is Pointer,
        ensures
            final(self).wf(),
            final(values).wf(),
            final(values).extends(old(values)),
            r.0 + 1 == final(values).count(),
            final(values).types@[r.0 as int] == pointee(
                projected_type(
                    old(self).local_type(old(values), old(self).current_block, place.root),
                    place.projections@,
                )->Some_0,
            ),
            final(self).answer(final(values), old(self).current_block, place.root) matches Some(
                start,
            ) && final(self).blocks()[old(self).current_block.0 as int].instructions@ == old(
                self).blocks()[old(self).current_block.0 as int].instructions@ + read_instructions(
                place.projections@,
                start,
                (r.0 - place.projections@.len()) as nat,
            ),
            final(self).blocks().len() == old(self).blocks().len(),
            keeps_unterminated(old(self).blocks(), final(self).blocks()),
            final(self).blocks()[old(self).current_block.0 as int].terminator is None,
            final(self).current_block == old(self).current_block,
            final(self).cfg.entry_block == old(self).cfg.entry_block,
            final(self).predicates == old(self).predicates,
            final(self).return_type == old(self).return_type,
    {
        let cur = self.current_block;
        let ghost t0 = self.local_type(values, cur, place.root);
        let ghost values0 = *values;
        let ghost fb0 = *self;
        let mut current = self.use_value_in_block(values, cur, place.root);
        proof {
            match fb0.blocks()[cur.0 as int].mapped(place.root) {
                Some(m) => {
                    assert(fb0.answer(&values0, cur, place.root) == Some(m));
                    assert(current == m);
                    assert(values.types@[current.0 as int] == t0);
                },
                None => {
                    if values0.blocks@[place.root.0 as int] == cur {
                        assert(current == place.root);
                    } else {
                        assert(current.0 == values0.count());
                    }
                    assert(values.types@[current.0 as int] == t0);
                },
            }
            assert(place.projections@.take(0) =~= Seq::<Projection>::empty());
        }
        let ghost start = current;
        let ghost base = values.count();
        let ghost instr0 = old(self).blocks()[cur.0 as int].instructions@;
        let ghost map0 = self.blocks()[cur.0 as int].original_to_local_valueid;
        let ghost root_block = values.blocks@[place.root.0 as int];
        proof {
            assert(self.blocks()[cur.0 as int].instructions == old(self).blocks()[cur.0 as int].instructions);
            assert(self.answer(values, cur, place.root) == Some(start));
            assert(instr0 + Seq::<Instruction>::new(0, |j: int| projection_instruction(place.projections@[j], ValueId((base + j) as usize), step_value(start, base, j as nat))) =~= instr0);
        }
        let n = place.projections.len();
        let mut i: usize = 0;
        while i < n
            invariant
                i <= n,
                n == place.projections@.len(),
                self.wf(),
                values.wf(),
                values.extends(old(values)),
                self.current_block == cur,
                cur == old(self).current_block,
                self.blocks().len() == old(self).blocks().len(),
                self.cfg.entry_block == old(self).cfg.entry_block,
                self.predicates == old(self).predicates,
                self.return_type == old(self).return_type,
                keeps_unterminated(old(self).blocks(), self.blocks()),
                self.blocks()[cur.0 as int].terminator is None,
                current.0 < values.count(),
                projected_type(t0, place.projections@.take(i as int)) == Some(
                    values.types@[current.0 as int],
                ),
                projected_type(t0, place.projections@) matches Some(p) && p is Pointer,
                current == step_value(start, base, i as nat),
                values.count() == base + i,
                place.root.0 < base,
                values.blocks@[place.root.0 as int] == root_block,
                self.blocks()[cur.0 as int].original_to_local_valueid == map0,
                self.answer(values, cur, place.root) == Some(start),
                self.blocks()[cur.0 as int].instructions@ == instr0 + Seq::<Instruction>::new(
                    i as nat,
                    |j: int|
                        projection_instruction(
                            place.projections@[j],
                            ValueId((base + j) as usize),
                            step_value(start, base, j as nat),
                        ),
                ),
            decreases n - i,
        {
            let proj = place.projections[i];
            let ghost before = *values;
            proof {
                let s = place.projections@.take(i + 1);
                assert(s.drop_last() =~= place.projections@.take(i as int));
                assert(s.last() == proj);
                assert(seq![proj].drop_last() =~= Seq::<Projection>::empty());
                lemma_projected_prefix(t0, place.projections@, i + 1);
                reveal_with_fuel(projected_type, 2);
                assert(projected_type(values.types@[current.0 as int], Seq::<Projection>::empty())
                    == Some(values.types@[current.0 as int]));
            }
            let ghost instr_before = self.blocks()[cur.0 as int].instructions@;
            let ghost blocks_before = self.blocks();
            current = self.emit_projection(values, proj, current);
            proof {
                assert(keeps_unterminated(old(self).blocks(), self.blocks())) by {
                    assert forall|k: int| 0 <= k < old(self).blocks().len() implies edge_kept(
                        old(self).blocks()[k].terminator,
                        (#[trigger] self.blocks()[k]).terminator,
                    ) by {
                        if k != cur.0 {
                            assert(self.blocks()[k] == blocks_before[k]);
                        }
                        assert(edge_kept(old(self).blocks()[k].terminator, blocks_before[k].terminator));
                    lemma_edge_kept_trans(old(self).blocks()[k].terminator, blocks_before[k].terminator, self.blocks()[k].terminator);
                        lemma_edge_kept_trans(old(self).blocks()[k].terminator, blocks_before[k].terminator, self.blocks()[k].terminator);
                    }
                }
                assert(values.blocks@[place.root.0 as int] == root_block);
                assert(self.blocks()[cur.0 as int].instructions@ =~= instr0 + Seq::<Instruction>::new(
                    (i + 1) as nat,
                    |j: int|
                        projection_instruction(
                            place.projections@[j],
                            ValueId((base + j) as usize),
                            step_value(start, base, j as nat),
                        ),
                ));
                assert(values.types@.subrange(0, old(values).count() as int) =~= before.types@.subrange(0, old(values).count() as int));
                assert(values.blocks@.subrange(0, old(values).count() as int) =~= before.blocks@.subrange(0, old(values).count() as int));
                let s = place.projections@.take(i + 1);
                assert(s.drop_last() =~= place.projections@.take(i as int));
            }
            i = i + 1;
        }
        proof {
            assert(place.projections@.take(n as int) =~= place.projections@);
        }
        let ghost before_load = *values;
        let ghost blocks_before_load = self.blocks();
        let ghost instr_before_load = self.blocks()[cur.0 as int].instructions@;
        let r = self.cfg.blocks[cur.0].emit_load(values, current);
        proof {
            assert(keeps_unterminated(old(self).blocks(), self.blocks())) by {
                assert forall|k: int| 0 <= k < old(self).blocks().len() implies edge_kept(
                    old(self).blocks()[k].terminator,
                    (#[trigger] self.blocks()[k]).terminator,
                ) by {
                    if k != cur.0 {
                        assert(self.blocks()[k] == blocks_before_load[k]);
                    }
                    assert(edge_kept(old(self).blocks()[k].terminator, blocks_before_load[k].terminator));
                    lemma_edge_kept_trans(old(self).blocks()[k].terminator, blocks_before_load[k].terminator, self.blocks()[k].terminator);
                }
            }
            assert(r.0 == base + n);
            assert(values.blocks@[place.root.0 as int] == root_block);
            assert(self.blocks()[cur.0 as int].original_to_local_valueid == map0);
            assert(self.answer(values, cur, place.root) == Some(start));
            assert(self.blocks()[cur.0 as int].instructions@ =~= instr0 + read_instructions(
                place.projections@,
                start,
                base,
            ));
            assert(values.types@.subrange(0, old(values).count() as int) =~= before_load.types@.subrange(0, old(values).count() as int));
            assert(values.blocks@.subrange(0, old(values).count() as int) =~= before_load.blocks@.subrange(0, old(values).count() as int));
            assert forall|k: int| 0 <= k < self.blocks().len() implies (#[trigger] self.blocks()[k]).id.0
                == k by {
                if k != cur.0 {
                    assert(self.blocks()[k] == blocks_before_load[k]);
                }
            }
            assert forall|k: int, j: int|
                0 <= k < self.blocks().len() && 0 <= j < self.blocks()[k].predecessors@.len()
                    implies (#[trigger] self.blocks()[k].predecessors@[j]).0
                < self.blocks().len() by {
                if k != cur.0 {
                    assert(self.blocks()[k] == blocks_before_load[k]);
                }
                assert(blocks_before_load[k].predecessors@[j].0 < blocks_before_load.len());
            }
        }
        r
    }
}

/// Where projections lead somewhere, so do their prefixes.
proof fn lemma_projected_prefix(t: Type, projections: Seq<Projection>, k: int)
    requires
        0 <= k <= projections.len(),
        projected_type(t, projections) is Some,
    ensures
        projected_type(t, projections.take(k)) is Some,
    decreases projections.len(),
{
    if k < projections.len() {
        assert(projections.drop_last().take(k) =~= projections.take(k));
        lemma_projected_prefix(t, projections.drop_last(), k);
    } else {
        assert(projections.take(k) =~= projections);
    }
}

} // verus!

use vstd::prelude::*;

use crate::hir::cfg::instructions::Instruction;
use crate::hir::cfg::{DeclarationId, Terminator, Value, ValueId};
use crate::number::NumberKind;
use crate::hir::errors::SemanticError;
use crate::types::checked_type::{CheckedParam, Type};
use crate::types::copy::copy_type;
use crate::types::list::List;

verus! {

/// Identifies a basic block of a function.
#[derive(Clone, Copy, Debug, PartialEq, Eq, Structural, Hash)]
pub struct BasicBlockId(pub usize);

/// The values of a program: value `i` has type `types[i]` and is defined in
/// block `blocks[i]`.
pub struct ValueTable {
    pub types: Vec<Type>,
    pub blocks: Vec<BasicBlockId>,
}

impl ValueTable {
    pub open spec fn wf(&self) -> bool {
        self.types@.len() == self.blocks@.len()
    }

    /// How many values there are.
    pub open spec fn count(&self) -> nat {
        self.types@.len()
    }

    /// `self` holds the values of `other`, and maybe more.
    pub open spec fn extends(&self, other: &ValueTable) -> bool {
        &&& other.count() <= self.count()
        &&& self.types@.subrange(0, other.count() as int) == other.types@
        &&& self.blocks@.subrange(0, other.count() as int) == other.blocks@
    }

    pub fn new() -> (r: ValueTable)
        ensures
            r.wf(),
            r.count() == 0,
    {
        ValueTable { types: Vec::new(), blocks: Vec::new() }
    }

    /// The type of a value.
    pub fn type_of(&self, id: ValueId) -> (r: &Type)
        requires
            id.0 < self.count(),
        ensures
            *r == self.types@[id.0 as int],
    {
        &self.types[id.0]
    }

    /// The block in which a value is defined.
    pub fn block_of(&self, id: ValueId) -> (r: BasicBlockId)
        requires
            self.wf(),
            id.0 < self.count(),
        ensures
            r == self.blocks@[id.0 as int],
    {
        self.blocks[id.0]
    }
}

/// The value that `original` maps to in `m`, the latest entry winning.
pub open spec fn find_mapping(m: Seq<(ValueId, ValueId)>, original: ValueId) -> Option<ValueId>
    decreases m.len(),
{
    if m.len() == 0 {
        None
    } else if m.last().0 == original {
        Some(m.last().1)
    } else {
        find_mapping(m.drop_last(), original)
    }
}

/// The type of the value a pointer of type `t` points to.
pub open spec fn pointee(t: Type) -> Type {
    match t {
        Type::Pointer { narrowed_to, .. } => *narrowed_to,
        _ => Type::Unknown,
    }
}

/// Whether `t` is a pointer to a struct with a field at `index`, in both its
/// declared and its narrowed type.
pub open spec fn points_to_field(t: Type, index: nat) -> bool {
    match t {
        Type::Pointer { constraint, narrowed_to } => match (*constraint, *narrowed_to) {
            (Type::Struct(c), Type::Struct(n)) => index < c.seq().len() && index < n.seq().len(),
            _ => false,
        },
        _ => false,
    }
}

/// The type of a pointer to field `index` of the struct that a pointer of
/// type `t` points to.
pub open spec fn field_pointer(t: Type, index: nat) -> Type {
    match t {
        Type::Pointer { constraint, narrowed_to } => match (*constraint, *narrowed_to) {
            (Type::Struct(c), Type::Struct(n)) => Type::Pointer {
                constraint: Box::new(c.seq()[index as int].constraint),
                narrowed_to: Box::new(n.seq()[index as int].constraint),
            },
            _ => Type::Unknown,
        },
        _ => Type::Unknown,
    }
}

/// A pointer whose declared and narrowed pointee are both `t`.
pub open spec fn pointer_to(t: Type) -> Type {
    Type::Pointer { constraint: Box::new(t), narrowed_to: Box::new(t) }
}

fn field_constraint(fields: &List<CheckedParam>, index: usize) -> (r: Type)
    requires
        index < fields.seq().len(),
    ensures
        r == fields.seq()[index as int].constraint,
    decreases fields,
{
    match fields {
        List::Cons(h, t) => {
            if index == 0 {
                copy_type(&h.constraint)
            } else {
                field_constraint(t, index - 1)
            }
        },
        List::Nil => {
            proof {
                assert(false);
            }
            Type::Unknown
        },
    }
}

/// The type of a number literal.
pub open spec fn number_type(n: NumberKind) -> Type {
    match n {
        NumberKind::I64(_) => Type::I64,
        NumberKind::I32(_) => Type::I32,
        NumberKind::I16(_) => Type::I16,
        NumberKind::I8(_) => Type::I8,
        NumberKind::F32(_) => Type::F32,
        NumberKind::F64(_) => Type::F64,
        NumberKind::U64(_) => Type::U64,
        NumberKind::U32(_) => Type::U32,
        NumberKind::U16(_) => Type::U16,
        NumberKind::U8(_) => Type::U8,
        NumberKind::USize(_) => Type::USize,
        NumberKind::ISize(_) => Type::ISize,
    }
}

/// The type of an operand.
pub open spec fn value_type(values: ValueTable, v: Value) -> Type {
    match v {
        Value::VoidLiteral => Type::Void,
        Value::BoolLiteral(_) => Type::Bool,
        Value::NumberLiteral(n) => number_type(n),
        Value::Use(id) => values.types@[id.0 as int],
    }
}

/// An operand that uses a value names a known one.
pub open spec fn value_within(values: ValueTable, v: Value) -> bool {
    v matches Value::Use(id) ==> id.0 < values.count()
}

/// The instruction that defines `dest` as the literal `v`.
pub open spec fn constant_instruction(v: Value, dest: ValueId) -> Instruction {
    match v {
        Value::BoolLiteral(b) => Instruction::ConstBool { dest, val: b },
        Value::NumberLiteral(n) => Instruction::ConstInt { dest, val: n },
        _ => Instruction::ConstVoid { dest },
    }
}

/// `preds` with `p` added at the end, unless it is there already.
pub open spec fn add_pred(preds: Seq<BasicBlockId>, p: BasicBlockId) -> Seq<BasicBlockId> {
    if preds.contains(p) {
        preds
    } else {
        preds.push(p)
    }
}

/// A straight line of instructions, its parameters and how it ends.
pub struct BasicBlock {
    pub id: BasicBlockId,
    pub instructions: Vec<Instruction>,
    pub terminator: Option<Terminator>,
    pub predecessors: Vec<BasicBlockId>,
    pub params: Vec<ValueId>,
    // list of (placeholder valueid, original valueid)
    pub incomplete_params: Vec<(ValueId, ValueId)>,
    // Map original valueid -> block-local valueid
    pub original_to_local_valueid: Vec<(ValueId, ValueId)>,
    pub sealed: bool,
}

impl BasicBlock {
    /// The value that stands for `original` in this block, if one was recorded.
    pub open spec fn mapped(&self, original: ValueId) -> Option<ValueId> {
        find_mapping(self.original_to_local_valueid@, original)
    }

    /// An empty, open block.
    pub fn new(id: BasicBlockId) -> (r: BasicBlock)
        ensures
            r.id == id,
            r.instructions@.len() == 0,
            r.terminator is None,
            r.predecessors@.len() == 0,
            r.params@.len() == 0,
            r.incomplete_params@.len() == 0,
            r.original_to_local_valueid@.len() == 0,
            !r.sealed,
    {
        BasicBlock {
            id,
            instructions: Vec::new(),
            terminator: None,
            predecessors: Vec::new(),
            params: Vec::new(),
            incomplete_params: Vec::new(),
            original_to_local_valueid: Vec::new(),
            sealed: false,
        }
    }

    fn push_instruction(&mut self, instruction: Instruction)
        requires
            old(self).terminator is None,
        ensures
            final(self).instructions@ == old(self).instructions@.push(instruction),
            final(self).id == old(self).id,
            final(self).terminator is None,
            final(self).predecessors == old(self).predecessors,
            final(self).params == old(self).params,
            final(self).incomplete_params == old(self).incomplete_params,
            final(self).original_to_local_valueid == old(self).original_to_local_valueid,
            final(self).sealed == old(self).sealed,
    {
        self.instructions.push(instruction);
    }

    /// A new value of type `ty`, defined in this block.
    pub fn new_value_id(&self, values: &mut ValueTable, ty: Type) -> (r: ValueId)
        requires
            old(values).wf(),
        ensures
            final(values).wf(),
            r.0 == old(values).count(),
            final(values).types@ == old(values).types@.push(ty),
            final(values).blocks@ == old(values).blocks@.push(self.id),
    {
        let value_id = ValueId(values.types.len());
        values.types.push(ty);
        values.blocks.push(self.id);
        value_id
    }

    /// Defines a new value as the literal `value`.
    pub fn emit_constant(&mut self, values: &mut ValueTable, value: Value) -> (r: ValueId)
        requires
            old(values).wf(),
            old(self).terminator is None,
            !(value is Use),
        ensures
            final(values).wf(),
            r.0 == old(values).count(),
            final(values).types@ == old(values).types@.push(value_type(*old(values), value)),
            final(values).blocks@ == old(values).blocks@.push(old(self).id),
            final(self).instructions@ == old(self).instructions@.push(constant_instruction(value, r)),
            final(self).id == old(self).id,
            final(self).terminator is None,
            final(self).predecessors == old(self).predecessors,
            final(self).params == old(self).params,
            final(self).incomplete_params == old(self).incomplete_params,
            final(self).original_to_local_valueid == old(self).original_to_local_valueid,
            final(self).sealed == old(self).sealed,
    {
        match value {
            Value::BoolLiteral(b) => {
                let dest = self.new_value_id(values, Type::Bool);
                self.push_instruction(Instruction::ConstBool { dest, val: b });
                dest
            },
            Value::NumberLiteral(n) => {
                let ty = match n {
                    NumberKind::I64(_) => Type::I64,
                    NumberKind::I32(_) => Type::I32,
                    NumberKind::I16(_) => Type::I16,
                    NumberKind::I8(_) => Type::I8,
                    NumberKind::F32(_) => Type::F32,
                    NumberKind::F64(_) => Type::F64,
                    NumberKind::U64(_) => Type::U64,
                    NumberKind::U32(_) => Type::U32,
                    NumberKind::U16(_) => Type::U16,
                    NumberKind::U8(_) => Type::U8,
                    NumberKind::USize(_) => Type::USize,
                    NumberKind::ISize(_) => Type::ISize,
                };
                let dest = self.new_value_id(values, ty);
                self.push_instruction(Instruction::ConstInt { dest, val: n });
                dest
            },
            _ => {
                let dest = self.new_value_id(values, Type::Void);
                self.push_instruction(Instruction::ConstVoid { dest });
                dest
            },
        }
    }

    /// Defines a new value of type `fn_type` as the function `decl_id`.
    pub fn emit_const_fn(&mut self, values: &mut ValueTable, decl_id: DeclarationId, fn_type: Type) -> (r:
        ValueId)
        requires
            old(values).wf(),
            old(self).terminator is None,
        ensures
            final(values).wf(),
            r.0 == old(values).count(),
            final(values).types@ == old(values).types@.push(fn_type),
            final(values).blocks@ == old(values).blocks@.push(old(self).id),
            final(self).instructions@ == old(self).instructions@.push(
                Instruction::ConstFn { dest: r, decl_id },
            ),
            final(self).id == old(self).id,
            final(self).terminator is None,
            final(self).predecessors == old(self).predecessors,
            final(self).params == old(self).params,
            final(self).incomplete_params == old(self).incomplete_params,
            final(self).original_to_local_valueid == old(self).original_to_local_valueid,
            final(self).sealed == old(self).sealed,
    {
        let dest = self.new_value_id(values, fn_type);
        self.push_instruction(Instruction::ConstFn { dest, decl_id });
        dest
    }

    /// Reserves stack room for `count` values of type `ty`; gives the pointer.
    pub fn emit_stack_alloc(&mut self, values: &mut ValueTable, ty: Type, count: usize) -> (r:
        ValueId)
        requires
            old(values).wf(),
            old(self).terminator is None,
        ensures
            final(values).wf(),
            r.0 == old(values).count(),
            final(values).types@ == old(values).types@.push(pointer_to(ty)),
            final(values).blocks@ == old(values).blocks@.push(old(self).id),
            final(self).instructions@ == old(self).instructions@.push(
                Instruction::StackAlloc { destination: r, count },
            ),
            final(self).id == old(self).id,
            final(self).terminator is None,
            final(self).params == old(self).params,
            final(self).original_to_local_valueid == old(self).original_to_local_valueid,
            final(self).predecessors == old(self).predecessors,
            final(self).incomplete_params == old(self).incomplete_params,
            final(self).sealed == old(self).sealed,
    {
        let ty2 = copy_type(&ty);
        let destination = self.new_value_id(
            values,
            Type::Pointer { constraint: Box::new(ty), narrowed_to: Box::new(ty2) },
        );
        self.push_instruction(Instruction::StackAlloc { destination, count });
        destination
    }

    /// Reserves heap room for `count` values of type `ty`; gives the pointer.
    pub fn emit_heap_alloc(&mut self, values: &mut ValueTable, ty: Type, count: ValueId) -> (r:
        ValueId)
        requires
            old(values).wf(),
            old(self).terminator is None,
        ensures
            final(values).wf(),
            r.0 == old(values).count(),
            final(values).types@ == old(values).types@.push(pointer_to(ty)),
            final(values).blocks@ == old(values).blocks@.push(old(self).id),
            final(self).instructions@ == old(self).instructions@.push(
                Instruction::HeapAlloc { destination: r, count },
            ),
            final(self).id == old(self).id,
            final(self).terminator is None,
            final(self).params == old(self).params,
            final(self).original_to_local_valueid == old(self).original_to_local_valueid,
            final(self).predecessors == old(self).predecessors,
            final(self).incomplete_params == old(self).incomplete_params,
            final(self).sealed == old(self).sealed,
    {
        let ty2 = copy_type(&ty);
        let destination = self.new_value_id(
            values,
            Type::Pointer { constraint: Box::new(ty), narrowed_to: Box::new(ty2) },
        );
        self.push_instruction(Instruction::HeapAlloc { destination, count });
        destination
    }

    /// Adds `p` to the predecessors of this block, unless it is there.
    pub fn add_predecessor(&mut self, p: BasicBlockId)
        ensures
            final(self).predecessors@ == add_pred(old(self).predecessors@, p),
            final(self).id == old(self).id,
            final(self).instructions == old(self).instructions,
            final(self).terminator == old(self).terminator,
            final(self).params == old(self).params,
            final(self).incomplete_params == old(self).incomplete_params,
            final(self).original_to_local_valueid == old(self).original_to_local_valueid,
            final(self).sealed == old(self).sealed,
    {
        let n = self.predecessors.len();
        let mut i: usize = 0;
        let mut found = false;
        while i < n
            invariant
                i <= n,
                n == self.predecessors@.len(),
                found <==> exists|j: int| 0 <= j < i && self.predecessors@[j] == p,
            decreases n - i,
        {
            if self.predecessors[i] == p {
                found = true;
            }
            i = i + 1;
        }
        if !found {
            self.predecessors.push(p);
        }
        proof {
            if found {
                let j = choose|j: int| 0 <= j < n && old(self).predecessors@[j] == p;
                assert(old(self).predecessors@.contains(p));
            } else {
                assert(!old(self).predecessors@.contains(p));
            }
        }
    }

    /// Ends the block `from` of a function's `blocks` with a jump to `target`,
    /// and records `from` as a predecessor of `target`.
    pub fn jmp(
        blocks: &mut Vec<BasicBlock>,
        from: BasicBlockId,
        target: BasicBlockId,
        args: Vec<ValueId>,
    )
        requires
            from.0 < old(blocks)@.len(),
            target.0 < old(blocks)@.len(),
            old(blocks)@[from.0 as int].terminator is None,
        ensures
            final(blocks)@.len() == old(blocks)@.len(),
            final(blocks)@[from.0 as int].terminator == Some(Terminator::Jump { target, args }),
            final(blocks)@[target.0 as int].predecessors@ == add_pred(
                old(blocks)@[target.0 as int].predecessors@,
                old(blocks)@[from.0 as int].id,
            ),
            forall|i: int|
                0 <= i < old(blocks)@.len() ==> {
                    &&& (#[trigger] final(blocks)@[i]).id == old(blocks)@[i].id
                    &&& final(blocks)@[i].instructions == old(blocks)@[i].instructions
                    &&& final(blocks)@[i].params == old(blocks)@[i].params
                    &&& final(blocks)@[i].incomplete_params == old(blocks)@[i].incomplete_params
                    &&& final(blocks)@[i].original_to_local_valueid
                        == old(blocks)@[i].original_to_local_valueid
                    &&& final(blocks)@[i].sealed == old(blocks)@[i].sealed
                    &&& i != from.0 ==> final(blocks)@[i].terminator == old(blocks)@[i].terminator
                    &&& i != target.0 ==> final(blocks)@[i].predecessors
                        == old(blocks)@[i].predecessors
                },
    {
        let id = blocks[from.0].id;
        blocks[from.0].terminator = Some(Terminator::Jump { target, args });
        blocks[target.0].add_predecessor(id);
    }

    /// Ends the block `from` of a function's `blocks` with a jump to
    /// `true_target` when `condition` holds and to `false_target` when it
    /// does not, and records `from` as a predecessor of both targets.
    pub fn cond_jmp(
        blocks: &mut Vec<BasicBlock>,
        from: BasicBlockId,
        condition: ValueId,
        true_target: BasicBlockId,
        true_args: Vec<ValueId>,
        false_target: BasicBlockId,
        false_args: Vec<ValueId>,
    )
        requires
            from.0 < old(blocks)@.len(),
            true_target.0 < old(blocks)@.len(),
            false_target.0 < old(blocks)@.len(),
            old(blocks)@[from.0 as int].terminator is None,
        ensures
            final(blocks)@.len() == old(blocks)@.len(),
            final(blocks)@[from.0 as int].terminator == Some(
                Terminator::CondJump { condition, true_target, true_args, false_target, false_args },
            ),
            final(blocks)@[true_target.0 as int].predecessors@.contains(old(blocks)@[from.0 as int].id),
            final(blocks)@[false_target.0 as int].predecessors@.contains(old(blocks)@[from.0 as int].id),
            forall|i: int|
                0 <= i < old(blocks)@.len() ==> {
                    &&& (#[trigger] final(blocks)@[i]).id == old(blocks)@[i].id
                    &&& final(blocks)@[i].instructions == old(blocks)@[i].instructions
                    &&& final(blocks)@[i].params == old(blocks)@[i].params
                    &&& final(blocks)@[i].incomplete_params == old(blocks)@[i].incomplete_params
                    &&& final(blocks)@[i].original_to_local_valueid
                        == old(blocks)@[i].original_to_local_valueid
                    &&& final(blocks)@[i].sealed == old(blocks)@[i].sealed
                    &&& i != from.0 ==> final(blocks)@[i].terminator == old(blocks)@[i].terminator
                    &&& i != true_target.0 && i != false_target.0 ==> final(blocks)@[i].predecessors
                        == old(blocks)@[i].predecessors
                    &&& (i == true_target.0 || i == false_target.0)
                        ==> final(blocks)@[i].predecessors@ == add_pred(
                        old(blocks)@[i].predecessors@,
                        old(blocks)@[from.0 as int].id,
                    )
                },
    {
        let id = blocks[from.0].id;
        blocks[from.0].terminator = Some(
            Terminator::CondJump { condition, true_target, true_args, false_target, false_args },
        );
        let ghost mid = blocks@;
        blocks[true_target.0].add_predecessor(id);
        if false_target.0 != true_target.0 {
            blocks[false_target.0].add_predecessor(id);
        }
        proof {
            let o = old(blocks)@[true_target.0 as int].predecessors@;
            if !o.contains(id) {
                assert(o.push(id)[o.len() as int] == id);
            }
            let f = old(blocks)@[false_target.0 as int].predecessors@;
            if !f.contains(id) {
                assert(f.push(id)[f.len() as int] == id);
            }
            if false_target.0 == true_target.0 {
                assert(add_pred(add_pred(o, id), id) == add_pred(o, id)) by {
                    if !o.contains(id) {
                        assert(o.push(id)[o.len() as int] == id);
                    }
                }
            }
        }
    }

    /// Ends the block by returning from the function.
    pub fn ret(&mut self, value: Option<ValueId>)
        requires
            old(self).terminator is None,
        ensures
            final(self).terminator == Some(Terminator::Return { value }),
            final(self).id == old(self).id,
            final(self).instructions == old(self).instructions,
            final(self).predecessors == old(self).predecessors,
            final(self).params == old(self).params,
            final(self).incomplete_params == old(self).incomplete_params,
            final(self).original_to_local_valueid == old(self).original_to_local_valueid,
            final(self).sealed == old(self).sealed,
    {
        self.terminator = Some(Terminator::Return { value });
    }

    /// Ends the block as one that control never reaches the end of.
    pub fn unreachable(&mut self)
        requires
            old(self).terminator is None,
        ensures
            final(self).terminator == Some(Terminator::Unreachable),
            final(self).id == old(self).id,
            final(self).instructions == old(self).instructions,
            final(self).predecessors == old(self).predecessors,
            final(self).params == old(self).params,
            final(self).incomplete_params == old(self).incomplete_params,
            final(self).original_to_local_valueid == old(self).original_to_local_valueid,
            final(self).sealed == old(self).sealed,
    {
        self.terminator = Some(Terminator::Unreachable);
    }

    /// Loads through the pointer `ptr`; the value has the narrowed pointee type.
    pub fn emit_load(&mut self, values: &mut ValueTable, ptr: ValueId) -> (r: ValueId)
        requires
            old(values).wf(),
            old(self).terminator is None,
            ptr.0 < old(values).count(),
            old(values).types@[ptr.0 as int] is Pointer,
        ensures
            final(values).wf(),
            r.0 == old(values).count(),
            final(values).types@ == old(values).types@.push(
                pointee(old(values).types@[ptr.0 as int]),
            ),
            final(values).blocks@ == old(values).blocks@.push(old(self).id),
            final(self).instructions@ == old(self).instructions@.push(
                Instruction::Load { destination: r, ptr },
            ),
            final(self).id == old(self).id,
            final(self).terminator is None,
            final(self).params == old(self).params,
            final(self).original_to_local_valueid == old(self).original_to_local_valueid,
            final(self).predecessors == old(self).predecessors,
            final(self).incomplete_params == old(self).incomplete_params,
            final(self).sealed == old(self).sealed,
    {
        let dest_ty = match values.type_of(ptr) {
            Type::Pointer { narrowed_to, .. } => copy_type(narrowed_to),
            _ => Type::Unknown,
        };
        let destination = self.new_value_id(values, dest_ty);
        self.push_instruction(Instruction::Load { destination, ptr });
        destination
    }

    /// Stores `value` through the pointer `ptr`.
    pub fn emit_store(&mut self, ptr: ValueId, value: ValueId)
        requires
            old(self).terminator is None,
        ensures
            final(self).instructions@ == old(self).instructions@.push(
                Instruction::Store { ptr, value },
            ),
            final(self).id == old(self).id,
            final(self).terminator is None,
            final(self).params == old(self).params,
            final(self).original_to_local_valueid == old(self).original_to_local_valueid,
            final(self).predecessors == old(self).predecessors,
            final(self).incomplete_params == old(self).incomplete_params,
            final(self).sealed == old(self).sealed,
    {
        self.push_instruction(Instruction::Store { ptr, value });
    }

    /// A pointer to field `field_index` of the struct that `base_ptr` points to.
    pub fn emit_get_field_ptr_by_index(
        &mut self,
        values: &mut ValueTable,
        base_ptr: ValueId,
        field_index: usize,
    ) -> (r: ValueId)
        requires
            old(values).wf(),
            old(self).terminator is None,
            base_ptr.0 < old(values).count(),
            points_to_field(old(values).types@[base_ptr.0 as int], field_index as nat),
        ensures
            final(values).wf(),
            r.0 == old(values).count(),
            final(values).types@ == old(values).types@.push(
                field_pointer(old(values).types@[base_ptr.0 as int], field_index as nat),
            ),
            final(values).blocks@ == old(values).blocks@.push(old(self).id),
            final(self).instructions@ == old(self).instructions@.push(
                Instruction::GetFieldPtr { destination: r, base_ptr, field_index },
            ),
            final(self).id == old(self).id,
            final(self).terminator is None,
            final(self).params == old(self).params,
            final(self).original_to_local_valueid == old(self).original_to_local_valueid,
            final(self).predecessors == old(self).predecessors,
            final(self).incomplete_params == old(self).incomplete_params,
            final(self).sealed == old(self).sealed,
    {
        let field_ty = match values.type_of(base_ptr) {
            Type::Pointer { constraint, narrowed_to } => match (&**constraint, &**narrowed_to) {
                (Type::Struct(c), Type::Struct(n)) => Type::Pointer {
                    constraint: Box::new(field_constraint(c, field_index)),
                    narrowed_to: Box::new(field_constraint(n, field_index)),
                },
                _ => Type::Unknown,
            },
            _ => Type::Unknown,
        };
        let destination = self.new_value_id(values, field_ty);
        self.push_instruction(Instruction::GetFieldPtr { destination, base_ptr, field_index });
        destination
    }

    /// A pointer to item `index` of the list `base_ptr`.
    pub fn emit_get_element_ptr(&mut self, values: &mut ValueTable, base_ptr: ValueId, index: ValueId) -> (r:
        ValueId)
        requires
            old(values).wf(),
            old(self).terminator is None,
            base_ptr.0 < old(values).count(),
            old(values).types@[base_ptr.0 as int] is List,
        ensures
            final(values).wf(),
            r.0 == old(values).count(),
            final(values).types@ == old(values).types@.push(
                pointer_to(*old(values).types@[base_ptr.0 as int]->List_0),
            ),
            final(values).blocks@ == old(values).blocks@.push(old(self).id),
            final(self).instructions@ == old(self).instructions@.push(
                Instruction::GetElementPtr { destination: r, base_ptr, index },
            ),
            final(self).id == old(self).id,
            final(self).terminator is None,
            final(self).params == old(self).params,
            final(self).original_to_local_valueid == old(self).original_to_local_valueid,
            final(self).predecessors == old(self).predecessors,
            final(self).incomplete_params == old(self).incomplete_params,
            final(self).sealed == old(self).sealed,
    {
        let ptr_ty = match values.type_of(base_ptr) {
            Type::List(item) => Type::Pointer {
                constraint: Box::new(copy_type(item)),
                narrowed_to: Box::new(copy_type(item)),
            },
            _ => Type::Unknown,
        };
        let destination = self.new_value_id(values, ptr_ty);
        self.push_instruction(Instruction::GetElementPtr { destination, base_ptr, index });
        destination
    }

    /// `operand` seen as a value of type `target_type`.
    pub fn emit_type_cast(&mut self, values: &mut ValueTable, operand: ValueId, target_type: Type) -> (r:
        ValueId)
        requires
            old(values).wf(),
            old(self).terminator is None,
        ensures
            final(values).wf(),
            r.0 == old(values).count(),
            final(values).types@ == old(values).types@.push(target_type),
            final(values).blocks@ == old(values).blocks@.push(old(self).id),
            final(self).instructions@ == old(self).instructions@.push(
                Instruction::TypeCast { destination: r, operand, target_type },
            ),
            final(self).id == old(self).id,
            final(self).terminator is None,
            final(self).params == old(self).params,
            final(self).original_to_local_valueid == old(self).original_to_local_valueid,
            final(self).predecessors == old(self).predecessors,
            final(self).incomplete_params == old(self).incomplete_params,
            final(self).sealed == old(self).sealed,
    {
        let destination = self.new_value_id(values, copy_type(&target_type));
        self.push_instruction(Instruction::TypeCast { destination, operand, target_type });
        destination
    }

    /// The value recorded for `original` in this block, if any.
    pub fn get_mapped_value(&self, original: ValueId) -> (r: Option<ValueId>)
        ensures
            r == self.mapped(original),
    {
        let mut i = self.original_to_local_valueid.len();
        let ghost m = self.original_to_local_valueid@;
        assert(m.subrange(0, i as int) =~= m);
        while i > 0
            invariant
                i <= m.len(),
                m == self.original_to_local_valueid@,
                find_mapping(m, original) == find_mapping(m.subrange(0, i as int), original),
            decreases i,
        {
            let (from, to) = self.original_to_local_valueid[i - 1];
            assert(m.subrange(0, i as int).drop_last() =~= m.subrange(0, i - 1));
            if from == original {
                return Some(to);
            }
            i = i - 1;
        }
        None
    }

    /// Records that `local` stands for `original` in this block.
    pub fn map_value(&mut self, original: ValueId, local: ValueId)
        ensures
            final(self).original_to_local_valueid@ == old(self).original_to_local_valueid@.push(
                (original, local),
            ),
            final(self).mapped(original) == Some(local),
            forall|k: ValueId| k != original ==> final(self).mapped(k) == old(self).mapped(k),
            final(self).id == old(self).id,
            final(self).instructions == old(self).instructions,
            final(self).terminator == old(self).terminator,
            final(self).predecessors == old(self).predecessors,
            final(self).params == old(self).params,
            final(self).incomplete_params == old(self).incomplete_params,
            final(self).sealed == old(self).sealed,
    {
        self.original_to_local_valueid.push((original, local));
        proof {
            assert(self.original_to_local_valueid@.drop_last()
                =~= old(self).original_to_local_valueid@);
        }
    }

    /// A new parameter of type `ty` for this block.
    pub fn append_param(&mut self, values: &mut ValueTable, ty: Type) -> (r: ValueId)
        requires
            old(values).wf(),
        ensures
            final(values).wf(),
            r.0 == old(values).count(),
            final(values).types@ == old(values).types@.push(ty),
            final(values).blocks@ == old(values).blocks@.push(old(self).id),
            final(self).params@ == old(self).params@.push(r),
            final(self).id == old(self).id,
            final(self).instructions == old(self).instructions,
            final(self).terminator == old(self).terminator,
            final(self).predecessors == old(self).predecessors,
            final(self).incomplete_params == old(self).incomplete_params,
            final(self).original_to_local_valueid == old(self).original_to_local_valueid,
            final(self).sealed == old(self).sealed,
    {
        let id = self.new_value_id(values, ty);
        self.params.push(id);
        id
    }

    /// Records `error` and gives a new value of unknown type in its place.
    pub fn report_error_and_get_poison(
        &self,
        values: &mut ValueTable,
        errors: &mut Vec<SemanticError>,
        error: SemanticError,
    ) -> (r: ValueId)
        requires
            old(values).wf(),
        ensures
            final(values).wf(),
            r.0 == old(values).count(),
            final(values).types@ == old(values).types@.push(Type::Unknown),
            final(values).blocks@ == old(values).blocks@.push(self.id),
            final(errors)@ == old(errors)@.push(error),
    {
        errors.push(error);
        self.new_value_id(values, Type::Unknown)
    }
}

} // verus!

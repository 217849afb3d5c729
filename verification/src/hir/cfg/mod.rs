pub mod basic_blocks;
pub mod instructions;

use vstd::prelude::*;

use crate::hir::cfg::basic_blocks::{BasicBlock, BasicBlockId};
use crate::interner::StringId;
use crate::number::NumberKind;

verus! {

/// A value of the control flow graph, defined once.
#[derive(Clone, Copy, Debug, PartialEq, Eq, Structural, Hash)]
pub struct ValueId(pub usize);

/// Identifies a piece of constant data of the program.
#[derive(Clone, Copy, Debug, PartialEq, Eq, Structural, Hash)]
pub struct ConstantId(pub usize);

/// Identifies a declaration of the program.
#[derive(Clone, Copy, Debug, PartialEq, Eq, Structural, Hash)]
pub struct DeclarationId(pub usize);

/// An operand: a literal, or the use of a value.
#[derive(Clone, Copy, Debug, PartialEq, Eq, Structural)]
pub enum Value {
    VoidLiteral,
    BoolLiteral(bool),
    NumberLiteral(NumberKind),
    Use(ValueId),
}

#[derive(Clone, Copy, Debug, PartialEq, Eq, Structural)]
pub enum UnaryOperationKind {
    Not,
    Neg,
}

#[derive(Clone, Copy, Debug, PartialEq, Eq, Structural)]
pub enum BinaryOperationKind {
    Add,
    Subtract,
    Multiply,
    Divide,
    Modulo,
    LessThan,
    LessThanOrEqual,
    GreaterThan,
    GreaterThanOrEqual,
    Equal,
    NotEqual,
}

/// How control leaves a basic block; the arguments are handed to the
/// parameters of the target block.
pub enum Terminator {
    Jump { target: BasicBlockId, args: Vec<ValueId> },
    CondJump {
        condition: ValueId,
        true_target: BasicBlockId,
        true_args: Vec<ValueId>,
        false_target: BasicBlockId,
        false_args: Vec<ValueId>,
    },
    Return { value: Option<ValueId> },
    Unreachable,
}

/// A step from a place to a place inside it.
#[derive(Clone, Copy, Debug, PartialEq, Eq, Structural)]
pub enum Projection {
    Field(usize),
    Index(ValueId),
    Deref,
}

/// A memory location: a local variable and the projections applied to it.
pub struct Place {
    /// The local variable (stack slot) this starts from
    pub root: ValueId,
    /// The sequence of projections (fields, index, deref)
    pub projections: Vec<Projection>,
}

/// The blocks of a function; block `i` is at index `i`.
pub struct ControlFlowGraph {
    pub entry_block: BasicBlockId,
    pub blocks: Vec<BasicBlock>,
}

/// A module of the program: its path and the names it exports.
pub struct CheckedModule {
    pub path: String,
    pub exports: Vec<StringId>,
}

impl CheckedModule {
    /// A module at `path` that exports nothing yet.
    pub fn new(path: String) -> (r: CheckedModule)
        ensures
            r.path@ == path@,
            r.exports@.len() == 0,
    {
        CheckedModule { path, exports: Vec::new() }
    }
}

} // verus!

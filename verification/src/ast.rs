use vstd::prelude::*;

use crate::number::NumberKind;
use crate::span::{IdentifierNode, Span};
use crate::types::list::List;

verus! {

/// A type as written in the source.
pub struct TypeAnnotation {
    pub kind: TypeAnnotationKind,
    pub span: Span,
}

pub enum TypeAnnotationKind {
    Void,
    Null,
    Bool,
    U8,
    U16,
    U32,
    U64,
    USize,
    ISize,
    I8,
    I16,
    I32,
    I64,
    F32,
    F64,
    Char,
    Identifier(IdentifierNode),
    /// `{ name: T, ... }`
    Struct(List<Param>),
    /// `Left<A, B>`
    GenericApply { left: Box<TypeAnnotation>, args: List<TypeAnnotation> },
    /// `<T>(name: T) => R`
    FnType {
        params: List<Param>,
        return_type: Box<TypeAnnotation>,
        generic_params: List<GenericParam>,
    },
    /// `A | B`
    Union(List<TypeAnnotation>),
    /// `T[size]`
    Array { item_type: Box<TypeAnnotation>, size: NumberKind },
}

/// A parameter or struct field as written: a name and its type.
pub struct Param {
    pub identifier: IdentifierNode,
    pub constraint: TypeAnnotation,
}

/// A generic parameter as written, with an optional constraint.
pub struct GenericParam {
    pub identifier: IdentifierNode,
    pub constraint: Option<Box<TypeAnnotation>>,
}

/// An expression as written, and where.
pub struct Expr {
    pub kind: ExprKind,
    pub span: Span,
}

pub enum ExprKind {
    BoolLiteral(bool),
    Number(NumberKind),
    Identifier(IdentifierNode),
    /// `left && right`
    And { left: Box<Expr>, right: Box<Expr> },
    /// `left || right`
    Or { left: Box<Expr>, right: Box<Expr> },
    /// `if c1 { .. } else if c2 { .. } else { .. }`
    If { branches: List<IfBranch>, else_branch: Option<BlockContents> },
    /// `{ .. }`
    CodeBlock(BlockContents),
}

/// A condition of an `if` and the block run when it holds.
pub struct IfBranch {
    pub condition: Expr,
    pub body: BlockContents,
}

/// The inside of a block: the expression whose value the block has, if any.
pub struct BlockContents {
    pub final_expr: Option<Box<Expr>>,
    pub span: Span,
}

/// Every `if` in the expression that has no `else` has a branch, as
/// written `if` expressions do.
pub open spec fn expr_ok(e: Expr) -> bool
    decreases e,
{
    match e.kind {
        ExprKind::And { left, right } => expr_ok(*left) && expr_ok(*right),
        ExprKind::Or { left, right } => expr_ok(*left) && expr_ok(*right),
        ExprKind::If { branches, else_branch } => {
            &&& (else_branch is None ==> branches.seq().len() > 0)
            &&& branches_ok(branches)
            &&& match else_branch {
                Some(b) => block_ok(b),
                None => true,
            }
        },
        ExprKind::CodeBlock(b) => block_ok(b),
        _ => true,
    }
}

/// [`expr_ok`] holds of the block's final expression.
pub open spec fn block_ok(b: BlockContents) -> bool
    decreases b,
{
    match b.final_expr {
        Some(e) => expr_ok(*e),
        None => true,
    }
}

/// [`expr_ok`] holds of each branch's condition and body.
pub open spec fn branches_ok(l: List<IfBranch>) -> bool
    decreases l,
{
    match l {
        List::Nil => true,
        List::Cons(h, t) => expr_ok(h.condition) && block_ok(h.body) && branches_ok(*t),
    }
}

/// The number of nodes of an expression.
pub open spec fn expr_size(e: Expr) -> nat
    decreases e,
{
    match e.kind {
        ExprKind::And { left, right } => 2 + expr_size(*left) + expr_size(*right),
        ExprKind::Or { left, right } => 2 + expr_size(*left) + expr_size(*right),
        ExprKind::If { branches, else_branch } => 2 + branches_size(branches) + match else_branch {
            Some(b) => block_size(b),
            None => 0,
        },
        ExprKind::CodeBlock(b) => 2 + block_size(b),
        _ => 1,
    }
}

/// The number of nodes of a block.
pub open spec fn block_size(b: BlockContents) -> nat
    decreases b,
{
    1 + match b.final_expr {
        Some(e) => expr_size(*e),
        None => 0,
    }
}

/// The number of nodes of the branches of an `if`.
pub open spec fn branches_size(l: List<IfBranch>) -> nat
    decreases l,
{
    match l {
        List::Nil => 0,
        List::Cons(h, t) => 1 + expr_size(h.condition) + block_size(h.body) + branches_size(*t),
    }
}

} // verus!

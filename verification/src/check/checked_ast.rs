use vstd::prelude::*;

use crate::number::NumberKind;
use crate::span::{IdentifierNode, Span};
use crate::types::checked_type::Type;
use crate::types::copy::copy_type;
use crate::types::list::List;

verus! {

/// A type together with the place in the source that gave rise to it.
pub struct CheckedType {
    pub kind: Type,
    pub span: Span,
}

/// A type-checked expression.
pub struct CheckedExpr {
    pub kind: CheckedExprKind,
    pub ty: CheckedType,
}

pub enum CheckedExprKind {
    BoolLiteral { value: bool },
    Number(NumberKind),
    Identifier(IdentifierNode),
    Not { right: Box<CheckedExpr> },
    And { left: Box<CheckedExpr>, right: Box<CheckedExpr> },
    Or { left: Box<CheckedExpr>, right: Box<CheckedExpr> },
    Equal { left: Box<CheckedExpr>, right: Box<CheckedExpr> },
    NotEqual { left: Box<CheckedExpr>, right: Box<CheckedExpr> },
    /// `left::is(target)`
    IsType { left: Box<CheckedExpr>, target: CheckedType },
    If {
        condition: Box<CheckedExpr>,
        then_branch: CheckedBlock,
        else_if_branches: List<(CheckedExpr, CheckedBlock)>,
        else_branch: Option<CheckedBlock>,
    },
    Block(CheckedBlock),
}

/// A type-checked block: its statements and an optional final expression.
pub struct CheckedBlock {
    pub statements: List<CheckedStmt>,
    pub final_expr: Option<Box<CheckedExpr>>,
}

/// A type-checked statement.
pub enum CheckedStmt {
    Expression(CheckedExpr),
    Return(CheckedExpr),
    While { condition: Box<CheckedExpr>, body: CheckedBlock },
    Break,
    Continue,
}


pub fn copy_checked_type(t: &CheckedType) -> (r: CheckedType)
    ensures
        r == *t,
{
    CheckedType { kind: copy_type(&t.kind), span: t.span }
}

/// A copy of an expression.
pub fn copy_expr(e: &CheckedExpr) -> (r: CheckedExpr)
    ensures
        r == *e,
    decreases e,
{
    let kind = match &e.kind {
        CheckedExprKind::BoolLiteral { value } => CheckedExprKind::BoolLiteral { value: *value },
        CheckedExprKind::Number(n) => CheckedExprKind::Number(*n),
        CheckedExprKind::Identifier(id) => CheckedExprKind::Identifier(*id),
        CheckedExprKind::Not { right } => CheckedExprKind::Not { right: Box::new(copy_expr(right)) },
        CheckedExprKind::And { left, right } => CheckedExprKind::And {
            left: Box::new(copy_expr(left)),
            right: Box::new(copy_expr(right)),
        },
        CheckedExprKind::Or { left, right } => CheckedExprKind::Or {
            left: Box::new(copy_expr(left)),
            right: Box::new(copy_expr(right)),
        },
        CheckedExprKind::Equal { left, right } => CheckedExprKind::Equal {
            left: Box::new(copy_expr(left)),
            right: Box::new(copy_expr(right)),
        },
        CheckedExprKind::NotEqual { left, right } => CheckedExprKind::NotEqual {
            left: Box::new(copy_expr(left)),
            right: Box::new(copy_expr(right)),
        },
        CheckedExprKind::IsType { left, target } => CheckedExprKind::IsType {
            left: Box::new(copy_expr(left)),
            target: copy_checked_type(target),
        },
        CheckedExprKind::If { condition, then_branch, else_if_branches, else_branch } => {
            CheckedExprKind::If {
                condition: Box::new(copy_expr(condition)),
                then_branch: copy_block(then_branch),
                else_if_branches: copy_branches(else_if_branches),
                else_branch: match else_branch {
                    Some(b) => Some(copy_block(b)),
                    None => None,
                },
            }
        },
        CheckedExprKind::Block(b) => CheckedExprKind::Block(copy_block(b)),
    };
    CheckedExpr { kind, ty: copy_checked_type(&e.ty) }
}

pub fn copy_block(b: &CheckedBlock) -> (r: CheckedBlock)
    ensures
        r == *b,
    decreases b,
{
    CheckedBlock {
        statements: copy_stmts(&b.statements),
        final_expr: match &b.final_expr {
            Some(f) => Some(Box::new(copy_expr(f))),
            None => None,
        },
    }
}

pub fn copy_stmt(s: &CheckedStmt) -> (r: CheckedStmt)
    ensures
        r == *s,
    decreases s,
{
    match s {
        CheckedStmt::Expression(e) => CheckedStmt::Expression(copy_expr(e)),
        CheckedStmt::Return(e) => CheckedStmt::Return(copy_expr(e)),
        CheckedStmt::While { condition, body } => CheckedStmt::While {
            condition: Box::new(copy_expr(condition)),
            body: copy_block(body),
        },
        CheckedStmt::Break => CheckedStmt::Break,
        CheckedStmt::Continue => CheckedStmt::Continue,
    }
}

pub fn copy_stmts(l: &List<CheckedStmt>) -> (r: List<CheckedStmt>)
    ensures
        r == *l,
    decreases l,
{
    match l {
        List::Nil => List::Nil,
        List::Cons(h, t) => List::Cons(Box::new(copy_stmt(h)), Box::new(copy_stmts(t))),
    }
}

pub fn copy_branches(l: &List<(CheckedExpr, CheckedBlock)>) -> (r: List<(CheckedExpr, CheckedBlock)>)
    ensures
        r == *l,
    decreases l,
{
    match l {
        List::Nil => List::Nil,
        List::Cons(h, t) => List::Cons(
            Box::new((copy_expr(&h.0), copy_block(&h.1))),
            Box::new(copy_branches(t)),
        ),
    }
}

} // verus!

use vstd::prelude::*;

use crate::check::checked_ast::{copy_expr, CheckedBlock, CheckedExpr, CheckedExprKind, CheckedStmt};
use crate::check::checker::SemanticChecker;
use crate::check::errors::CheckError;
use crate::types::list::List;

verus! {

/// The values that a statement list can return, in order, with an error for
/// each `return` that is not the last statement of its list. Returns inside
/// `while` bodies and `if` branches count; a block used as a statement counts
/// its returns and then its final expression.
pub open spec fn spec_returns(stmts: List<CheckedStmt>) -> (Seq<CheckedExpr>, Seq<CheckError>)
    decreases stmts,
{
    match stmts {
        List::Nil => (Seq::empty(), Seq::empty()),
        List::Cons(h, t) => {
            let (r1, e1) = spec_stmt_returns(*h, *t is Nil);
            let (r2, e2) = spec_returns(*t);
            (r1 + r2, e1 + e2)
        },
    }
}

pub open spec fn spec_stmt_returns(stmt: CheckedStmt, is_last: bool) -> (
    Seq<CheckedExpr>,
    Seq<CheckError>,
)
    decreases stmt,
{
    match stmt {
        CheckedStmt::Return(e) => (
            seq![e],
            if is_last {
                Seq::empty()
            } else {
                seq![CheckError::ReturnNotLastStatement { span: e.ty.span }]
            },
        ),
        CheckedStmt::While { body, .. } => spec_returns(body.statements),
        CheckedStmt::Expression(e) => match e.kind {
            CheckedExprKind::If { then_branch, else_if_branches, else_branch, .. } => {
                let (r1, e1) = spec_returns(then_branch.statements);
                let (r2, e2) = spec_branch_returns(else_if_branches);
                let (r3, e3) = match else_branch {
                    Some(b) => spec_returns(b.statements),
                    None => (Seq::empty(), Seq::empty()),
                };
                (r1 + r2 + r3, e1 + e2 + e3)
            },
            CheckedExprKind::Block(b) => {
                let (r1, e1) = spec_returns(b.statements);
                match b.final_expr {
                    Some(f) => (r1.push(*f), e1),
                    None => (r1, e1),
                }
            },
            _ => (Seq::empty(), Seq::empty()),
        },
        _ => (Seq::empty(), Seq::empty()),
    }
}

pub open spec fn spec_branch_returns(l: List<(CheckedExpr, CheckedBlock)>) -> (
    Seq<CheckedExpr>,
    Seq<CheckError>,
)
    decreases l,
{
    match l {
        List::Nil => (Seq::empty(), Seq::empty()),
        List::Cons(h, t) => {
            let (r1, e1) = spec_returns(h.1.statements);
            let (r2, e2) = spec_branch_returns(*t);
            (r1 + r2, e1 + e2)
        },
    }
}


/// What a statement can return does not depend on whether it is the last
/// one of its list; only the errors do.
proof fn lemma_stmt_returns_position(stmt: CheckedStmt, a: bool, b: bool)
    ensures
        spec_stmt_returns(stmt, a).0 == spec_stmt_returns(stmt, b).0,
{
}

/// Whatever a statement of a list can return is collected for the list.
pub proof fn lemma_stmt_returns_collected(stmts: List<CheckedStmt>, i: int, x: CheckedExpr)
    requires
        0 <= i < stmts.seq().len(),
        spec_stmt_returns(stmts.seq()[i], false).0.contains(x),
    ensures
        spec_returns(stmts).0.contains(x),
    decreases stmts,
{
    match stmts {
        List::Cons(h, t) => {
            let (r1, _) = spec_stmt_returns(*h, *t is Nil);
            let (r2, _) = spec_returns(*t);
            if i == 0 {
                lemma_stmt_returns_position(*h, false, *t is Nil);
                let k = choose|k: int| 0 <= k < r1.len() && r1[k] == x;
                assert((r1 + r2)[k] == x);
            } else {
                assert(stmts.seq()[i] == t.seq()[i - 1]);
                lemma_stmt_returns_collected(*t, i - 1, x);
                let k = choose|k: int| 0 <= k < r2.len() && r2[k] == x;
                assert((r1 + r2)[r1.len() + k] == x);
            }
        },
        List::Nil => {},
    }
}

/// Every `return e` statement of a list is collected for the list.
pub proof fn lemma_return_collected(stmts: List<CheckedStmt>, i: int, e: CheckedExpr)
    requires
        0 <= i < stmts.seq().len(),
        stmts.seq()[i] == CheckedStmt::Return(e),
    ensures
        spec_returns(stmts).0.contains(e),
{
    assert(spec_stmt_returns(CheckedStmt::Return(e), false).0[0] == e);
    lemma_stmt_returns_collected(stmts, i, e);
}

/// What the block of an `else if` branch can return is collected for the
/// branches.
proof fn lemma_branch_returns_collected(l: List<(CheckedExpr, CheckedBlock)>, j: int, x: CheckedExpr)
    requires
        0 <= j < l.seq().len(),
        spec_returns(l.seq()[j].1.statements).0.contains(x),
    ensures
        spec_branch_returns(l).0.contains(x),
    decreases l,
{
    match l {
        List::Cons(h, t) => {
            let (r1, _) = spec_returns(h.1.statements);
            let (r2, _) = spec_branch_returns(*t);
            if j == 0 {
                let k = choose|k: int| 0 <= k < r1.len() && r1[k] == x;
                assert((r1 + r2)[k] == x);
            } else {
                assert(l.seq()[j] == t.seq()[j - 1]);
                lemma_branch_returns_collected(*t, j - 1, x);
                let k = choose|k: int| 0 <= k < r2.len() && r2[k] == x;
                assert((r1 + r2)[r1.len() + k] == x);
            }
        },
        List::Nil => {},
    }
}

/// Every `return e` in the block of an `else if` branch of an `if` statement
/// of a list is collected for the list, as are those of its `then` and `else`
/// blocks.
pub proof fn lemma_if_returns_collected(stmts: List<CheckedStmt>, i: int, e: CheckedExpr)
    requires
        0 <= i < stmts.seq().len(),
        stmts.seq()[i] matches CheckedStmt::Expression(c) && c.kind is If,
        ({
            let c = stmts.seq()[i]->Expression_0;
            let then_branch = c.kind->If_then_branch;
            let else_if_branches = c.kind->If_else_if_branches;
            let else_branch = c.kind->If_else_branch;
            ||| (exists|k: int| 0 <= k < then_branch.statements.seq().len() && then_branch.statements.seq()[k]
                == CheckedStmt::Return(e))
            ||| (exists|j: int, k: int|
                0 <= j < else_if_branches.seq().len() && 0 <= k < else_if_branches.seq()[j].1.statements.seq().len()
                    && else_if_branches.seq()[j].1.statements.seq()[k] == CheckedStmt::Return(e))
            ||| (else_branch matches Some(b) && exists|k: int| 0 <= k < b.statements.seq().len()
                && b.statements.seq()[k] == CheckedStmt::Return(e))
        }),
    ensures
        spec_returns(stmts).0.contains(e),
{
    let c = stmts.seq()[i]->Expression_0;
    let then_branch = c.kind->If_then_branch;
    let else_if_branches = c.kind->If_else_if_branches;
    let else_branch = c.kind->If_else_branch;
    let (r1, _) = spec_returns(then_branch.statements);
    let (r2, _) = spec_branch_returns(else_if_branches);
    let (r3, _) = match else_branch {
        Some(b) => spec_returns(b.statements),
        None => (Seq::<CheckedExpr>::empty(), Seq::<CheckError>::empty()),
    };
    let all = r1 + r2 + r3;
    assert(spec_stmt_returns(stmts.seq()[i], false).0 == all);
    if exists|k: int| 0 <= k < then_branch.statements.seq().len() && then_branch.statements.seq()[k]
        == CheckedStmt::Return(e) {
        let k = choose|k: int| 0 <= k < then_branch.statements.seq().len() && then_branch.statements.seq()[k]
            == CheckedStmt::Return(e);
        lemma_return_collected(then_branch.statements, k, e);
        let q = choose|q: int| 0 <= q < r1.len() && r1[q] == e;
        assert(all[q] == e);
    } else if exists|j: int, k: int|
        0 <= j < else_if_branches.seq().len() && 0 <= k < else_if_branches.seq()[j].1.statements.seq().len()
            && else_if_branches.seq()[j].1.statements.seq()[k] == CheckedStmt::Return(e) {
        let (j, k) = choose|j: int, k: int|
            0 <= j < else_if_branches.seq().len() && 0 <= k < else_if_branches.seq()[j].1.statements.seq().len()
                && else_if_branches.seq()[j].1.statements.seq()[k] == CheckedStmt::Return(e);
        lemma_return_collected(else_if_branches.seq()[j].1.statements, k, e);
        lemma_branch_returns_collected(else_if_branches, j, e);
        let q = choose|q: int| 0 <= q < r2.len() && r2[q] == e;
        assert(all[r1.len() + q] == e);
    } else {
        let b = else_branch->Some_0;
        let k = choose|k: int| 0 <= k < b.statements.seq().len() && b.statements.seq()[k] == CheckedStmt::Return(e);
        lemma_return_collected(b.statements, k, e);
        let q = choose|q: int| 0 <= q < r3.len() && r3[q] == e;
        assert(all[r1.len() + r2.len() + q] == e);
    }
    lemma_stmt_returns_collected(stmts, i, e);
}

fn append_all(out: &mut Vec<CheckedExpr>, more: Vec<CheckedExpr>)
    ensures
        final(out)@ == old(out)@ + more@,
{
    let mut more = more;
    out.append(&mut more);
}

impl SemanticChecker {
    /// The values that `statements` can return; see [`spec_returns`].
    pub fn check_returns(&mut self, statements: &List<CheckedStmt>) -> (r: Vec<CheckedExpr>)
        ensures
            r@ == spec_returns(*statements).0,
            final(self).errors@ == old(self).errors@ + spec_returns(*statements).1,
            final(self).scopes == old(self).scopes,
            final(self).node_counter == old(self).node_counter,
            final(self).definition_counter == old(self).definition_counter,
            final(self).span_registry == old(self).span_registry,
        decreases statements,
    {
        match statements {
            List::Nil => {
                assert(self.errors@ =~= old(self).errors@ + Seq::<CheckError>::empty());
                Vec::new()
            },
            List::Cons(h, t) => {
                let mut found = self.check_stmt_returns(h, t.is_empty());
                let rest = self.check_returns(t);
                append_all(&mut found, rest);
                proof {
                    let (_, e1) = spec_stmt_returns(**h, **t is Nil);
                    let (_, e2) = spec_returns(**t);
                    assert(self.errors@ =~= old(self).errors@ + (e1 + e2));
                }
                found
            },
        }
    }

    fn check_stmt_returns(&mut self, stmt: &CheckedStmt, is_last: bool) -> (r: Vec<CheckedExpr>)
        ensures
            r@ == spec_stmt_returns(*stmt, is_last).0,
            final(self).errors@ == old(self).errors@ + spec_stmt_returns(*stmt, is_last).1,
            final(self).scopes == old(self).scopes,
            final(self).node_counter == old(self).node_counter,
            final(self).definition_counter == old(self).definition_counter,
            final(self).span_registry == old(self).span_registry,
        decreases stmt,
    {
        let mut found: Vec<CheckedExpr> = Vec::new();
        match stmt {
            CheckedStmt::Return(expr) => {
                if !is_last {
                    self.errors.push(CheckError::ReturnNotLastStatement { span: expr.ty.span });
                } else {
                    assert(self.errors@ =~= old(self).errors@ + Seq::<CheckError>::empty());
                }
                found.push(copy_expr(expr));
                assert(found@ =~= seq![*expr]);
            },
            CheckedStmt::While { body, .. } => {
                found = self.check_returns(&body.statements);
            },
            CheckedStmt::Expression(expr) => {
                match &expr.kind {
                    CheckedExprKind::If { then_branch, else_if_branches, else_branch, .. } => {
                        found = self.check_returns(&then_branch.statements);
                        let ghost e1 = self.errors@;
                        let more = self.check_branch_returns(else_if_branches);
                        append_all(&mut found, more);
                        let ghost e2 = self.errors@;
                        match else_branch {
                            Some(else_block) => {
                                let more = self.check_returns(&else_block.statements);
                                append_all(&mut found, more);
                            },
                            None => {
                                assert(found@ =~= found@ + Seq::<CheckedExpr>::empty());
                                assert(self.errors@ =~= self.errors@ + Seq::<CheckError>::empty());
                            },
                        }
                        proof {
                            let (_, a) = spec_returns(then_branch.statements);
                            let (_, b) = spec_branch_returns(*else_if_branches);
                            let eb: Option<CheckedBlock> = *else_branch;
                            let (_, c) = match eb {
                                Some(bl) => spec_returns(bl.statements),
                                None => (Seq::<CheckedExpr>::empty(), Seq::<CheckError>::empty()),
                            };
                            assert(self.errors@ =~= old(self).errors@ + (a + b + c));
                        }
                    },
                    CheckedExprKind::Block(block) => {
                        found = self.check_returns(&block.statements);
                        if let Some(final_expr) = &block.final_expr {
                            found.push(copy_expr(final_expr));
                        }
                    },
                    _ => {
                        assert(self.errors@ =~= old(self).errors@ + Seq::<CheckError>::empty());
                    },
                }
            },
            _ => {
                assert(self.errors@ =~= old(self).errors@ + Seq::<CheckError>::empty());
            },
        }
        found
    }

    fn check_branch_returns(&mut self, l: &List<(CheckedExpr, CheckedBlock)>) -> (r: Vec<
        CheckedExpr,
    >)
        ensures
            r@ == spec_branch_returns(*l).0,
            final(self).errors@ == old(self).errors@ + spec_branch_returns(*l).1,
            final(self).scopes == old(self).scopes,
            final(self).node_counter == old(self).node_counter,
            final(self).definition_counter == old(self).definition_counter,
            final(self).span_registry == old(self).span_registry,
        decreases l,
    {
        match l {
            List::Nil => {
                assert(self.errors@ =~= old(self).errors@ + Seq::<CheckError>::empty());
                Vec::new()
            },
            List::Cons(h, t) => {
                let mut found = self.check_returns(&h.1.statements);
                let more = self.check_branch_returns(t);
                append_all(&mut found, more);
                proof {
                    let (_, a) = spec_returns(h.1.statements);
                    let (_, b) = spec_branch_returns(**t);
                    assert(self.errors@ =~= old(self).errors@ + (a + b));
                }
                found
            },
        }
    }
}

} // verus!

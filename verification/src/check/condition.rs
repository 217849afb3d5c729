use vstd::prelude::*;

use crate::check::assignable::{check_is_assignable_recursive, spec_assignable};
use crate::check::checked_ast::{copy_checked_type, copy_expr, CheckedExpr, CheckedExprKind, CheckedType};
use crate::check::checker::{lookup_env, SemanticChecker, SymbolEnv};
use crate::check::errors::CheckError;
use crate::check::scope::SymbolEntry;
use crate::check::tfg::{
    spec_link_branch, spec_link_successor, NarrowingInfo, TFGNodeId, TFGNodeKind,
};
use crate::check::union_of::{subtracted_members, union_subtract, without};
use crate::types::checked_type::Type;
use crate::types::copy::copy_type;
use crate::types::list::List;

verus! {

/// The identifier among two operands and the other operand: the left one if
/// it is an identifier, else the right one if it is.
pub open spec fn spec_identifier_and_other(left: CheckedExpr, right: CheckedExpr) -> Option<
    (CheckedExpr, CheckedExpr),
> {
    if left.kind is Identifier {
        Some((left, right))
    } else if right.kind is Identifier {
        Some((right, left))
    } else {
        None
    }
}

pub fn get_identifier_and_other<'a>(left: &'a CheckedExpr, right: &'a CheckedExpr) -> (r: Option<
    (&'a CheckedExpr, &'a CheckedExpr),
>)
    ensures
        match spec_identifier_and_other(*left, *right) {
            Some((i, o)) => r matches Some((ri, ro)) && *ri == i && *ro == o,
            None => r is None,
        },
{
    if matches!(left.kind, CheckedExprKind::Identifier(..)) {
        Some((left, right))
    } else if matches!(right.kind, CheckedExprKind::Identifier(..)) {
        Some((right, left))
    } else {
        None
    }
}

/// A union of the members of `from` other than those of `removed`.
pub open spec fn subtracted_union(from: List<Type>, removed: Type) -> Type {
    Type::Union(List::from_seq(without(from.seq(), subtracted_members(removed))))
}

proof fn lemma_without_contains(s: Seq<Type>, removed: Seq<Type>, x: Type)
    ensures
        without(s, removed).contains(x) <==> (s.contains(x) && !removed.contains(x)),
    decreases s.len(),
{
    if s.len() > 0 {
        lemma_without_contains(s.drop_first(), removed, x);
        let rest = without(s.drop_first(), removed);
        if s.drop_first().contains(x) {
            let k = choose|k: int| 0 <= k < s.drop_first().len() && s.drop_first()[k] == x;
            assert(s[k + 1] == x);
        }
        if s.contains(x) && s[0] != x {
            let k = choose|k: int| 0 <= k < s.len() && s[k] == x;
            assert(s.drop_first()[k - 1] == x);
        }
        if !removed.contains(s[0]) {
            assert((seq![s[0]] + rest)[0] == s[0]);
            if rest.contains(x) {
                let k = choose|k: int| 0 <= k < rest.len() && rest[k] == x;
                assert((seq![s[0]] + rest)[k + 1] == x);
            }
            if (seq![s[0]] + rest).contains(x) && s[0] != x {
                let k = choose|k: int| 0 <= k < rest.len() + 1 && (seq![s[0]] + rest)[k] == x;
                assert(rest[k - 1] == x);
            }
        }
    }
}

/// Narrowing a union by a type that is not a union splits it: where the
/// check fails, the variable has every other member of the union and not
/// that type.
pub proof fn lemma_narrowing_splits_union(types: List<Type>, target: Type)
    requires
        !(target is Union),
    ensures
        subtracted_union(types, target) matches Type::Union(rest) && {
            &&& !rest.seq().contains(target)
            &&& forall|x: Type| #[trigger] types.seq().contains(x) && x != target ==> rest.seq().contains(x)
            &&& forall|x: Type| #[trigger] rest.seq().contains(x) ==> types.seq().contains(x)
        },
{
    let w = without(types.seq(), subtracted_members(target));
    List::<Type>::lemma_from_seq(w);
    assert(subtracted_members(target) == seq![target]);
    assert(seq![target].contains(target)) by {
        assert(seq![target][0] == target);
    }
    lemma_without_contains(types.seq(), seq![target], target);
    assert forall|x: Type| #[trigger] types.seq().contains(x) && x != target implies w.contains(x) by {
        lemma_without_contains(types.seq(), seq![target], x);
    }
    assert forall|x: Type| #[trigger] w.contains(x) implies types.seq().contains(x) by {
        lemma_without_contains(types.seq(), seq![target], x);
    }
}

/// What a condition says about the type of a variable: a pair of narrowings
/// for when it holds and when it does not. `x::is(T)` on a union-typed
/// variable narrows it to `T`, or to the rest of the union; `x == e` (or
/// `e == x`) narrows it to the type of `e`, or to the rest; `!=` swaps the two.
pub open spec fn spec_analyze(condition: CheckedExpr, env: SymbolEnv) -> Option<
    (NarrowingInfo, NarrowingInfo),
> {
    match condition.kind {
        CheckedExprKind::IsType { left, target } => match left.kind {
            CheckedExprKind::Identifier(id) => match lookup_env(env, id.name) {
                Some(SymbolEntry::VarDecl(decl)) => match left.ty.kind {
                    Type::Union(types) => Some(
                        (
                            NarrowingInfo { target: decl.id, narrowed_type: target.kind },
                            NarrowingInfo {
                                target: decl.id,
                                narrowed_type: subtracted_union(types, target.kind),
                            },
                        ),
                    ),
                    _ => None,
                },
                _ => None,
            },
            _ => None,
        },
        CheckedExprKind::Equal { left, right } | CheckedExprKind::NotEqual { left, right } => {
            match spec_identifier_and_other(*left, *right) {
                Some((ident, other)) => match ident.kind {
                    CheckedExprKind::Identifier(id) => match lookup_env(env, id.name) {
                        Some(SymbolEntry::VarDecl(decl)) => match ident.ty.kind {
                            Type::Union(types) => {
                                let specific = NarrowingInfo {
                                    target: decl.id,
                                    narrowed_type: other.ty.kind,
                                };
                                let rest = NarrowingInfo {
                                    target: decl.id,
                                    narrowed_type: subtracted_union(types, other.ty.kind),
                                };
                                if condition.kind is NotEqual {
                                    Some((rest, specific))
                                } else {
                                    Some((specific, rest))
                                }
                            },
                            _ => None,
                        },
                        _ => None,
                    },
                    _ => None,
                },
                None => None,
            }
        },
        _ => None,
    }
}

pub open spec fn narrowing_pair(a: Option<(NarrowingInfo, NarrowingInfo)>) -> (
    Option<NarrowingInfo>,
    Option<NarrowingInfo>,
) {
    match a {
        Some((t, f)) => (Some(t), Some(f)),
        None => (None, None),
    }
}

/// The nodes after building the graph of a condition that flows from `prev`
/// to `t` when it holds and to `f` when it does not: `!` swaps the targets,
/// `&&` and `||` go through a new step between their operands, a literal links
/// straight to its target, and any other condition becomes a branch carrying
/// its narrowings.
pub open spec fn spec_build_tfg(
    condition: CheckedExpr,
    prev: TFGNodeId,
    t: TFGNodeId,
    f: TFGNodeId,
    nodes: Seq<TFGNodeKind>,
    env: SymbolEnv,
) -> Seq<TFGNodeKind>
    decreases condition,
{
    match condition.kind {
        CheckedExprKind::Not { right } => spec_build_tfg(*right, prev, f, t, nodes, env),
        CheckedExprKind::And { left, right } => {
            let inter = TFGNodeId(nodes.len() as usize);
            let n1 = nodes.push(TFGNodeKind::NoOp { next_node: None });
            let n2 = spec_build_tfg(*left, prev, inter, f, n1, env);
            spec_build_tfg(*right, inter, t, f, n2, env)
        },
        CheckedExprKind::Or { left, right } => {
            let inter = TFGNodeId(nodes.len() as usize);
            let n1 = nodes.push(TFGNodeKind::NoOp { next_node: None });
            let n2 = spec_build_tfg(*left, prev, t, inter, n1, env);
            spec_build_tfg(*right, inter, t, f, n2, env)
        },
        CheckedExprKind::BoolLiteral { value } => spec_link_successor(
            nodes,
            prev,
            if value {
                t
            } else {
                f
            },
        ),
        _ => {
            let (nt, nf) = narrowing_pair(spec_analyze(condition, env));
            let b = TFGNodeId(nodes.len() as usize);
            let n1 = nodes.push(
                TFGNodeKind::Branch {
                    narrowing_if_true: nt,
                    next_node_if_true: None,
                    narrowing_if_false: nf,
                    next_node_if_false: None,
                },
            );
            spec_link_branch(spec_link_successor(n1, prev, b), b, t, f)
        },
    }
}

/// How many nodes building the graph of a condition adds.
pub open spec fn condition_nodes(condition: CheckedExpr) -> nat
    decreases condition,
{
    match condition.kind {
        CheckedExprKind::Not { right } => condition_nodes(*right),
        CheckedExprKind::And { left, right } => 1 + condition_nodes(*left) + condition_nodes(*right),
        CheckedExprKind::Or { left, right } => 1 + condition_nodes(*left) + condition_nodes(*right),
        CheckedExprKind::BoolLiteral { .. } => 0,
        _ => 1,
    }
}

/// Building the graph of a condition adds one node for each `&&`, each `||`
/// and each atomic condition, and none for literals and `!`.
pub proof fn lemma_build_tfg_node_count(
    condition: CheckedExpr,
    prev: TFGNodeId,
    t: TFGNodeId,
    f: TFGNodeId,
    nodes: Seq<TFGNodeKind>,
    env: SymbolEnv,
)
    ensures
        spec_build_tfg(condition, prev, t, f, nodes, env).len() == nodes.len() + condition_nodes(
            condition,
        ),
    decreases condition,
{
    match condition.kind {
        CheckedExprKind::Not { right } => {
            lemma_build_tfg_node_count(*right, prev, f, t, nodes, env);
        },
        CheckedExprKind::And { left, right } => {
            let inter = TFGNodeId(nodes.len() as usize);
            let n1 = nodes.push(TFGNodeKind::NoOp { next_node: None });
            lemma_build_tfg_node_count(*left, prev, inter, f, n1, env);
            let n2 = spec_build_tfg(*left, prev, inter, f, n1, env);
            lemma_build_tfg_node_count(*right, inter, t, f, n2, env);
        },
        CheckedExprKind::Or { left, right } => {
            let inter = TFGNodeId(nodes.len() as usize);
            let n1 = nodes.push(TFGNodeKind::NoOp { next_node: None });
            lemma_build_tfg_node_count(*left, prev, t, inter, n1, env);
            let n2 = spec_build_tfg(*left, prev, t, inter, n1, env);
            lemma_build_tfg_node_count(*right, inter, t, f, n2, env);
        },
        _ => {},
    }
}

pub open spec fn bool_at(e: CheckedExpr) -> CheckedType {
    CheckedType { kind: Type::Bool, span: e.ty.span }
}

/// A condition that becomes one branch node of its own: not `!`, `&&`,
/// `||` or a literal.
pub open spec fn is_atomic_condition(c: CheckedExpr) -> bool {
    !(c.kind is Not || c.kind is And || c.kind is Or || c.kind is BoolLiteral)
}

/// Building a condition's graph changes no node that existed before, other
/// than the one it flows from.
pub proof fn lemma_build_tfg_keeps_nodes(
    condition: CheckedExpr,
    prev: TFGNodeId,
    t: TFGNodeId,
    f: TFGNodeId,
    nodes: Seq<TFGNodeKind>,
    env: SymbolEnv,
)
    requires
        nodes.len() + condition_nodes(condition) <= usize::MAX,
    ensures
        forall|i: int|
            0 <= i < nodes.len() && i != prev.0 ==> #[trigger] spec_build_tfg(
                condition,
                prev,
                t,
                f,
                nodes,
                env,
            )[i] == nodes[i],
    decreases condition,
{
    lemma_build_tfg_node_count(condition, prev, t, f, nodes, env);
    match condition.kind {
        CheckedExprKind::Not { right } => {
            lemma_build_tfg_keeps_nodes(*right, prev, f, t, nodes, env);
            assert(spec_build_tfg(condition, prev, t, f, nodes, env) == spec_build_tfg(*right, prev, f, t, nodes, env));
            assert forall|i: int| 0 <= i < nodes.len() && i != prev.0 implies #[trigger] spec_build_tfg(
                condition,
                prev,
                t,
                f,
                nodes,
                env,
            )[i] == nodes[i] by {
                assert(spec_build_tfg(*right, prev, f, t, nodes, env)[i] == nodes[i]);
            }
        },
        CheckedExprKind::And { left, right } => {
            let inter = TFGNodeId(nodes.len() as usize);
            let n1 = nodes.push(TFGNodeKind::NoOp { next_node: None });
            lemma_build_tfg_keeps_nodes(*left, prev, inter, f, n1, env);
            lemma_build_tfg_node_count(*left, prev, inter, f, n1, env);
            let n2 = spec_build_tfg(*left, prev, inter, f, n1, env);
            lemma_build_tfg_keeps_nodes(*right, inter, t, f, n2, env);
            assert forall|i: int| 0 <= i < nodes.len() && i != prev.0 implies #[trigger] spec_build_tfg(
                condition,
                prev,
                t,
                f,
                nodes,
                env,
            )[i] == nodes[i] by {
                assert(spec_build_tfg(condition, prev, t, f, nodes, env) == spec_build_tfg(*right, inter, t, f, n2, env));
                assert(i != inter.0);
                assert(spec_build_tfg(*right, inter, t, f, n2, env)[i] == n2[i]);
                assert(n2[i] == n1[i]);
                assert(n1[i] == nodes[i]);
            }
        },
        CheckedExprKind::Or { left, right } => {
            let inter = TFGNodeId(nodes.len() as usize);
            let n1 = nodes.push(TFGNodeKind::NoOp { next_node: None });
            lemma_build_tfg_keeps_nodes(*left, prev, t, inter, n1, env);
            lemma_build_tfg_node_count(*left, prev, t, inter, n1, env);
            let n2 = spec_build_tfg(*left, prev, t, inter, n1, env);
            lemma_build_tfg_keeps_nodes(*right, inter, t, f, n2, env);
            assert forall|i: int| 0 <= i < nodes.len() && i != prev.0 implies #[trigger] spec_build_tfg(
                condition,
                prev,
                t,
                f,
                nodes,
                env,
            )[i] == nodes[i] by {
                assert(spec_build_tfg(condition, prev, t, f, nodes, env) == spec_build_tfg(*right, inter, t, f, n2, env));
                assert(i != inter.0);
                assert(spec_build_tfg(*right, inter, t, f, n2, env)[i] == n2[i]);
                assert(n2[i] == n1[i]);
                assert(n1[i] == nodes[i]);
            }
        },
        CheckedExprKind::BoolLiteral { value } => {
            let target = if value {
                t
            } else {
                f
            };
            assert(spec_build_tfg(condition, prev, t, f, nodes, env) == spec_link_successor(nodes, prev, target));
            assert forall|i: int| 0 <= i < nodes.len() && i != prev.0 implies #[trigger] spec_build_tfg(
                condition,
                prev,
                t,
                f,
                nodes,
                env,
            )[i] == nodes[i] by {
                assert(spec_link_successor(nodes, prev, target)[i] == nodes[i]);
            }
        },
        _ => {
            let (nt, nf) = narrowing_pair(spec_analyze(condition, env));
            let bid = TFGNodeId(nodes.len() as usize);
            let n1 = nodes.push(
                TFGNodeKind::Branch {
                    narrowing_if_true: nt,
                    next_node_if_true: None,
                    narrowing_if_false: nf,
                    next_node_if_false: None,
                },
            );
            let n2 = spec_link_successor(n1, prev, bid);
            assert(spec_build_tfg(condition, prev, t, f, nodes, env) == spec_link_branch(n2, bid, t, f));
            assert forall|i: int| 0 <= i < nodes.len() && i != prev.0 implies #[trigger] spec_build_tfg(
                condition,
                prev,
                t,
                f,
                nodes,
                env,
            )[i] == nodes[i] by {
                assert(n1[i] == nodes[i]);
                assert(n2[i] == n1[i]);
                assert(i != bid.0);
            }
        },
    }
}

/// `n` is a branch that leads to `t` when its condition holds and to `f`
/// when it does not.
pub open spec fn branches_to(n: TFGNodeKind, t: TFGNodeId, f: TFGNodeId) -> bool {
    match n {
        TFGNodeKind::Branch { next_node_if_true, next_node_if_false, .. } => next_node_if_true == Some(t)
            && next_node_if_false == Some(f),
        _ => false,
    }
}

/// `condition` is `l || r` or `l && r` with an atomic `l`.
pub open spec fn logical_with_atomic_left(condition: CheckedExpr) -> bool {
    match condition.kind {
        CheckedExprKind::Or { left, .. } => is_atomic_condition(*left),
        CheckedExprKind::And { left, .. } => is_atomic_condition(*left),
        _ => false,
    }
}

/// The branch node built for an atomic condition is the next node, and it
/// leads to `t` when the condition holds and to `f` when it does not.
pub proof fn lemma_atomic_branch_targets(
    condition: CheckedExpr,
    prev: TFGNodeId,
    t: TFGNodeId,
    f: TFGNodeId,
    nodes: Seq<TFGNodeKind>,
    env: SymbolEnv,
)
    requires
        is_atomic_condition(condition),
        prev.0 < nodes.len(),
        nodes.len() < usize::MAX,
    ensures
        branches_to(spec_build_tfg(condition, prev, t, f, nodes, env)[nodes.len() as int], t, f),
{
}

/// In `l || r`, the branch built for an atomic left operand leads to the
/// overall target `t` when `l` holds and to the new intermediate node, from
/// which `r` is evaluated, when it does not; in `l && r` it leads to the
/// intermediate node when `l` holds and to the overall target `f` when it
/// does not. The intermediate node is the first one added, the branch the
/// second.
pub proof fn lemma_logical_left_branch(
    condition: CheckedExpr,
    prev: TFGNodeId,
    t: TFGNodeId,
    f: TFGNodeId,
    nodes: Seq<TFGNodeKind>,
    env: SymbolEnv,
)
    requires
        prev.0 < nodes.len(),
        nodes.len() + condition_nodes(condition) <= usize::MAX,
        logical_with_atomic_left(condition),
    ensures
        ({
            let inter = TFGNodeId(nodes.len() as usize);
            let built = spec_build_tfg(condition, prev, t, f, nodes, env);
            &&& condition.kind is Or ==> branches_to(built[nodes.len() as int + 1], t, inter)
            &&& condition.kind is And ==> branches_to(built[nodes.len() as int + 1], inter, f)
        }),
{
    let inter = TFGNodeId(nodes.len() as usize);
    let n1 = nodes.push(TFGNodeKind::NoOp { next_node: None });
    match condition.kind {
        CheckedExprKind::Or { left, right } => {
            assert(condition_nodes(*left) == 1);
            lemma_atomic_branch_targets(*left, prev, t, inter, n1, env);
            lemma_build_tfg_node_count(*left, prev, t, inter, n1, env);
            let n2 = spec_build_tfg(*left, prev, t, inter, n1, env);
            lemma_build_tfg_keeps_nodes(*right, inter, t, f, n2, env);
            assert(spec_build_tfg(*right, inter, t, f, n2, env)[nodes.len() as int + 1] == n2[nodes.len() as int + 1]);
        },
        CheckedExprKind::And { left, right } => {
            assert(condition_nodes(*left) == 1);
            lemma_atomic_branch_targets(*left, prev, inter, f, n1, env);
            lemma_build_tfg_node_count(*left, prev, inter, f, n1, env);
            let n2 = spec_build_tfg(*left, prev, inter, f, n1, env);
            lemma_build_tfg_keeps_nodes(*right, inter, t, f, n2, env);
            assert(spec_build_tfg(*right, inter, t, f, n2, env)[nodes.len() as int + 1] == n2[nodes.len() as int + 1]);
        },
        _ => {},
    }
}

/// Checking a condition: like [`spec_build_tfg`], flowing from the current
/// node, except that atomic conditions must be boolean (a mismatch is
/// reported), their branches are narrowing branches, and between the operands
/// of `&&` and `||` the current node becomes the new step. Gives the
/// condition, the nodes, the current node and the errors.
pub open spec fn spec_check_condition(
    condition: CheckedExpr,
    t: TFGNodeId,
    f: TFGNodeId,
    nodes: Seq<TFGNodeKind>,
    current: TFGNodeId,
    env: SymbolEnv,
) -> (CheckedExpr, Seq<TFGNodeKind>, TFGNodeId, Seq<CheckError>)
    decreases condition,
{
    match condition.kind {
        CheckedExprKind::Not { right } => {
            let (r, n, c, e) = spec_check_condition(*right, f, t, nodes, current, env);
            (
                CheckedExpr { kind: CheckedExprKind::Not { right: Box::new(r) }, ty: bool_at(condition) },
                n,
                c,
                e,
            )
        },
        CheckedExprKind::And { left, right } => {
            let inter = TFGNodeId(nodes.len() as usize);
            let n1 = nodes.push(TFGNodeKind::NoOp { next_node: None });
            let (l2, n2, _, e1) = spec_check_condition(*left, inter, f, n1, current, env);
            let (r2, n3, c3, e2) = spec_check_condition(*right, t, f, n2, inter, env);
            (
                CheckedExpr {
                    kind: CheckedExprKind::And { left: Box::new(l2), right: Box::new(r2) },
                    ty: bool_at(condition),
                },
                n3,
                c3,
                e1 + e2,
            )
        },
        CheckedExprKind::Or { left, right } => {
            let inter = TFGNodeId(nodes.len() as usize);
            let n1 = nodes.push(TFGNodeKind::NoOp { next_node: None });
            let (l2, n2, _, e1) = spec_check_condition(*left, t, inter, n1, current, env);
            let (r2, n3, c3, e2) = spec_check_condition(*right, t, f, n2, inter, env);
            (
                CheckedExpr {
                    kind: CheckedExprKind::Or { left: Box::new(l2), right: Box::new(r2) },
                    ty: bool_at(condition),
                },
                n3,
                c3,
                e1 + e2,
            )
        },
        CheckedExprKind::BoolLiteral { value } => (
            CheckedExpr { kind: CheckedExprKind::BoolLiteral { value }, ty: bool_at(condition) },
            spec_link_successor(
                nodes,
                current,
                if value {
                    t
                } else {
                    f
                },
            ),
            current,
            Seq::empty(),
        ),
        _ => {
            let e = if !spec_assignable(condition.ty.kind, Type::Bool) {
                seq![
                    CheckError::TypeMismatch {
                        expected: Type::Bool,
                        received: condition.ty.kind,
                        span: condition.ty.span,
                    },
                ]
            } else {
                Seq::empty()
            };
            let (nt, nf) = narrowing_pair(spec_analyze(condition, env));
            let b = TFGNodeId(nodes.len() as usize);
            let n1 = nodes.push(
                TFGNodeKind::BranchNarrowing {
                    narrowing_if_true: nt,
                    next_node_if_true: None,
                    narrowing_if_false: nf,
                    next_node_if_false: None,
                },
            );
            (condition, spec_link_branch(spec_link_successor(n1, current, b), b, t, f), current, e)
        },
    }
}

/// The union of the members of `from` other than those that `removed` covers.
fn subtract_to_union(from: &List<Type>, removed: &Type) -> (r: Type)
    ensures
        r == subtracted_union(*from, *removed),
{
    let rest = union_subtract(from, removed);
    proof {
        List::<Type>::lemma_seq_from(rest);
    }
    Type::Union(rest)
}

impl SemanticChecker {
    /// What an atomic condition says about the type of a variable, as
    /// [`spec_analyze`] describes.
    pub fn analyze_atomic_condition(&self, condition: &CheckedExpr) -> (r: Option<
        (NarrowingInfo, NarrowingInfo),
    >)
        requires
            self.wf(),
        ensures
            r == spec_analyze(*condition, self.env()),
    {
        match &condition.kind {
            CheckedExprKind::IsType { left, target } => {
                if let CheckedExprKind::Identifier(id) = &left.kind {
                    if let Some(SymbolEntry::VarDecl(decl)) = self.scope_lookup(id.name) {
                        if let Type::Union(types) = &left.ty.kind {
                            let narrowing_true = NarrowingInfo {
                                target: decl.id,
                                narrowed_type: copy_type(&target.kind),
                            };
                            let narrowing_false = NarrowingInfo {
                                target: decl.id,
                                narrowed_type: subtract_to_union(types, &target.kind),
                            };
                            return Some((narrowing_true, narrowing_false));
                        }
                    }
                }
                None
            },
            CheckedExprKind::Equal { left, right } | CheckedExprKind::NotEqual { left, right } => {
                let is_not_equal = matches!(condition.kind, CheckedExprKind::NotEqual { .. });
                if let Some((ident_expr, other_expr)) = get_identifier_and_other(left, right) {
                    if let CheckedExprKind::Identifier(id) = &ident_expr.kind {
                        if let Some(SymbolEntry::VarDecl(decl)) = self.scope_lookup(id.name) {
                            if let Type::Union(types) = &ident_expr.ty.kind {
                                let specific = NarrowingInfo {
                                    target: decl.id,
                                    narrowed_type: copy_type(&other_expr.ty.kind),
                                };
                                let rest = NarrowingInfo {
                                    target: decl.id,
                                    narrowed_type: subtract_to_union(types, &other_expr.ty.kind),
                                };
                                if is_not_equal {
                                    return Some((rest, specific));
                                } else {
                                    return Some((specific, rest));
                                }
                            }
                        }
                    }
                }
                None
            },
            _ => None,
        }
    }
}

impl SemanticChecker {
    /// The nodes of the graph being built.
    pub open spec fn tfg_nodes(&self) -> Seq<TFGNodeKind> {
        self.tfg_contexts@.last().graph.nodes@
    }

    /// The node that code flows from in the graph being built.
    pub open spec fn tfg_current(&self) -> TFGNodeId {
        self.tfg_contexts@.last().current_node
    }

    /// Everything but the graph being built and the errors is as in `other`.
    pub open spec fn same_but_tfg(&self, other: &SemanticChecker) -> bool {
        &&& self.scopes == other.scopes
        &&& self.node_counter == other.node_counter
        &&& self.definition_counter == other.definition_counter
        &&& self.span_registry == other.span_registry
        &&& self.tfg_contexts@.len() == other.tfg_contexts@.len()
        &&& forall|i: int|
            0 <= i < self.tfg_contexts@.len() - 1 ==> #[trigger] self.tfg_contexts@[i]
                == other.tfg_contexts@[i]
    }

    fn tfg_create_node(&mut self, kind: TFGNodeKind) -> (r: TFGNodeId)
        requires
            old(self).tfg_contexts@.len() > 0,
        ensures
            final(self).same_but_tfg(old(self)),
            final(self).errors == old(self).errors,
            final(self).tfg_nodes() == old(self).tfg_nodes().push(kind),
            final(self).tfg_current() == old(self).tfg_current(),
            r.0 == old(self).tfg_nodes().len(),
    {
        let mut ctx = self.tfg_contexts.pop().unwrap();
        let id = ctx.graph.create_node(kind);
        self.tfg_contexts.push(ctx);
        id
    }

    fn tfg_link_successor(&mut self, from: TFGNodeId, to: TFGNodeId)
        requires
            old(self).tfg_contexts@.len() > 0,
        ensures
            final(self).same_but_tfg(old(self)),
            final(self).errors == old(self).errors,
            final(self).tfg_nodes() == spec_link_successor(old(self).tfg_nodes(), from, to),
            final(self).tfg_current() == old(self).tfg_current(),
    {
        let mut ctx = self.tfg_contexts.pop().unwrap();
        ctx.graph.link_successor(from, to);
        self.tfg_contexts.push(ctx);
    }

    fn tfg_link_branch(&mut self, b: TFGNodeId, t: TFGNodeId, f: TFGNodeId)
        requires
            old(self).tfg_contexts@.len() > 0,
        ensures
            final(self).same_but_tfg(old(self)),
            final(self).errors == old(self).errors,
            final(self).tfg_nodes() == spec_link_branch(old(self).tfg_nodes(), b, t, f),
            final(self).tfg_current() == old(self).tfg_current(),
    {
        let mut ctx = self.tfg_contexts.pop().unwrap();
        ctx.graph.link_branch(b, t, f);
        self.tfg_contexts.push(ctx);
    }

    fn tfg_set_current(&mut self, node: TFGNodeId)
        requires
            old(self).tfg_contexts@.len() > 0,
        ensures
            final(self).same_but_tfg(old(self)),
            final(self).errors == old(self).errors,
            final(self).tfg_nodes() == old(self).tfg_nodes(),
            final(self).tfg_current() == node,
    {
        let mut ctx = self.tfg_contexts.pop().unwrap();
        ctx.current_node = node;
        self.tfg_contexts.push(ctx);
    }

    /// Adds to the graph being built the flow of `condition` from `prev_node`
    /// to `next_node_if_true` when it holds and to `next_node_if_false` when
    /// it does not, as [`spec_build_tfg`] describes.
    pub fn build_condition_tfg(
        &mut self,
        condition: &CheckedExpr,
        prev_node: TFGNodeId,
        next_node_if_true: TFGNodeId,
        next_node_if_false: TFGNodeId,
    )
        requires
            old(self).wf(),
            old(self).tfg_contexts@.len() > 0,
        ensures
            final(self).wf(),
            final(self).same_but_tfg(old(self)),
            final(self).errors == old(self).errors,
            final(self).tfg_current() == old(self).tfg_current(),
            final(self).tfg_nodes() == spec_build_tfg(
                *condition,
                prev_node,
                next_node_if_true,
                next_node_if_false,
                old(self).tfg_nodes(),
                old(self).env(),
            ),
        decreases condition,
    {
        match &condition.kind {
            CheckedExprKind::Not { right } => {
                self.build_condition_tfg(right, prev_node, next_node_if_false, next_node_if_true);
            },
            CheckedExprKind::And { left, right } => {
                let intermediate = self.tfg_create_node(TFGNodeKind::NoOp { next_node: None });
                self.build_condition_tfg(left, prev_node, intermediate, next_node_if_false);
                self.build_condition_tfg(right, intermediate, next_node_if_true, next_node_if_false);
            },
            CheckedExprKind::Or { left, right } => {
                let intermediate = self.tfg_create_node(TFGNodeKind::NoOp { next_node: None });
                self.build_condition_tfg(left, prev_node, next_node_if_true, intermediate);
                self.build_condition_tfg(right, intermediate, next_node_if_true, next_node_if_false);
            },
            CheckedExprKind::BoolLiteral { value } => {
                let target = if *value {
                    next_node_if_true
                } else {
                    next_node_if_false
                };
                self.tfg_link_successor(prev_node, target);
            },
            _ => {
                let (narrowing_if_true, narrowing_if_false) = match self.analyze_atomic_condition(
                    condition,
                ) {
                    Some((t, f)) => (Some(t), Some(f)),
                    None => (None, None),
                };
                let branch = self.tfg_create_node(
                    TFGNodeKind::Branch {
                        narrowing_if_true,
                        next_node_if_true: None,
                        narrowing_if_false,
                        next_node_if_false: None,
                    },
                );
                self.tfg_link_successor(prev_node, branch);
                self.tfg_link_branch(branch, next_node_if_true, next_node_if_false);
            },
        }
    }
}

impl SemanticChecker {
    /// Checks a condition whose operands have been checked, building its flow
    /// from the current node to `true_target` when it holds and to
    /// `false_target` when it does not, as [`spec_check_condition`] describes:
    /// gives the checked condition, leaves the nodes and the current node that
    /// it describes, and adds the errors that it lists.
    pub fn check_condition_expr(
        &mut self,
        condition: CheckedExpr,
        true_target: TFGNodeId,
        false_target: TFGNodeId,
    ) -> (r: CheckedExpr)
        requires
            old(self).wf(),
            old(self).tfg_contexts@.len() > 0,
        ensures
            final(self).wf(),
            final(self).same_but_tfg(old(self)),
            ({
                let (e, n, c, errs) = spec_check_condition(
                    condition,
                    true_target,
                    false_target,
                    old(self).tfg_nodes(),
                    old(self).tfg_current(),
                    old(self).env(),
                );
                &&& r == e
                &&& final(self).tfg_nodes() == n
                &&& final(self).tfg_current() == c
                &&& final(self).errors@ == old(self).errors@ + errs
            }),
        decreases condition,
    {
        let ghost cond = condition;
        let prev_node = self.tfg_contexts[self.tfg_contexts.len() - 1].current_node;
        let condition_span = condition.ty.span;
        match condition.kind {
            CheckedExprKind::Not { right } => {
                let checked_right = self.check_condition_expr(*right, false_target, true_target);
                CheckedExpr {
                    kind: CheckedExprKind::Not { right: Box::new(checked_right) },
                    ty: CheckedType { kind: Type::Bool, span: condition_span },
                }
            },
            CheckedExprKind::And { left, right } => {
                let intermediate = self.tfg_create_node(TFGNodeKind::NoOp { next_node: None });
                let checked_left = self.check_condition_expr(*left, intermediate, false_target);
                self.tfg_set_current(intermediate);
                let checked_right = self.check_condition_expr(*right, true_target, false_target);
                proof {
                    vstd::seq_lib::lemma_concat_associative::<CheckError>(
                        old(self).errors@,
                        spec_check_condition(
                            *cond.kind->And_left,
                            intermediate,
                            false_target,
                            old(self).tfg_nodes().push(TFGNodeKind::NoOp { next_node: None }),
                            old(self).tfg_current(),
                            old(self).env(),
                        ).3,
                        spec_check_condition(
                            *cond.kind->And_right,
                            true_target,
                            false_target,
                            spec_check_condition(
                                *cond.kind->And_left,
                                intermediate,
                                false_target,
                                old(self).tfg_nodes().push(TFGNodeKind::NoOp { next_node: None }),
                                old(self).tfg_current(),
                                old(self).env(),
                            ).1,
                            intermediate,
                            old(self).env(),
                        ).3,
                    );
                }
                CheckedExpr {
                    kind: CheckedExprKind::And {
                        left: Box::new(checked_left),
                        right: Box::new(checked_right),
                    },
                    ty: CheckedType { kind: Type::Bool, span: condition_span },
                }
            },
            CheckedExprKind::Or { left, right } => {
                let intermediate = self.tfg_create_node(TFGNodeKind::NoOp { next_node: None });
                let checked_left = self.check_condition_expr(*left, true_target, intermediate);
                self.tfg_set_current(intermediate);
                let checked_right = self.check_condition_expr(*right, true_target, false_target);
                proof {
                    vstd::seq_lib::lemma_concat_associative::<CheckError>(
                        old(self).errors@,
                        spec_check_condition(
                            *cond.kind->Or_left,
                            true_target,
                            intermediate,
                            old(self).tfg_nodes().push(TFGNodeKind::NoOp { next_node: None }),
                            old(self).tfg_current(),
                            old(self).env(),
                        ).3,
                        spec_check_condition(
                            *cond.kind->Or_right,
                            true_target,
                            false_target,
                            spec_check_condition(
                                *cond.kind->Or_left,
                                true_target,
                                intermediate,
                                old(self).tfg_nodes().push(TFGNodeKind::NoOp { next_node: None }),
                                old(self).tfg_current(),
                                old(self).env(),
                            ).1,
                            intermediate,
                            old(self).env(),
                        ).3,
                    );
                }
                CheckedExpr {
                    kind: CheckedExprKind::Or {
                        left: Box::new(checked_left),
                        right: Box::new(checked_right),
                    },
                    ty: CheckedType { kind: Type::Bool, span: condition_span },
                }
            },
            CheckedExprKind::BoolLiteral { value } => {
                let target = if value {
                    true_target
                } else {
                    false_target
                };
                self.tfg_link_successor(prev_node, target);
                proof {
                    assert(old(self).errors@ + Seq::<CheckError>::empty() =~= old(self).errors@);
                }
                CheckedExpr {
                    kind: CheckedExprKind::BoolLiteral { value },
                    ty: CheckedType { kind: Type::Bool, span: condition_span },
                }
            },
            kind => {
                let checked_expr = CheckedExpr { kind, ty: condition.ty };
                assert(checked_expr == cond);
                if !check_is_assignable_recursive(&checked_expr.ty.kind, &Type::Bool) {
                    self.errors.push(
                        CheckError::TypeMismatch {
                            expected: Type::Bool,
                            received: copy_type(&checked_expr.ty.kind),
                            span: checked_expr.ty.span,
                        },
                    );
                } else {
                    assert(old(self).errors@ + Seq::<CheckError>::empty() =~= old(self).errors@);
                }
                let (narrowing_if_true, narrowing_if_false) = match self.analyze_atomic_condition(
                    &checked_expr,
                ) {
                    Some((t, f)) => (Some(t), Some(f)),
                    None => (None, None),
                };
                let branch = self.tfg_create_node(
                    TFGNodeKind::BranchNarrowing {
                        narrowing_if_true,
                        next_node_if_true: None,
                        narrowing_if_false,
                        next_node_if_false: None,
                    },
                );
                self.tfg_link_successor(prev_node, branch);
                self.tfg_link_branch(branch, true_target, false_target);
                checked_expr
            },
        }
    }
}

} // verus!

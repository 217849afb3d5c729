use tern::check::checked_ast::{CheckedExpr, CheckedExprKind, CheckedType};
use tern::check::checker::SemanticChecker;
use tern::check::condition::get_identifier_and_other;
use tern::check::errors::CheckError;
use tern::check::scope::{CheckedVarDecl, SymbolEntry};
use tern::check::tfg::{TFGContext, TFGNodeId, TFGNodeKind, TypeFlowGraph};
use tern::interner::StringId;
use tern::number::NumberKind;
use tern::span::{DefinitionId, IdentifierNode, Position, Span};
use tern::types::checked_type::Type;
use tern::types::eq::same_type;
use tern::types::list::List;

fn span_at(line: usize) -> Span {
    Span {
        start: Position { line, col: 1, byte_offset: line },
        end: Position { line, col: 2, byte_offset: line + 1 },
    }
}

fn ty(kind: Type, line: usize) -> CheckedType {
    CheckedType { kind, span: span_at(line) }
}

fn nullable_i32() -> Type {
    Type::Union(List::from_vec(vec![Type::I32, Type::Null]))
}

fn ident_expr(name: usize, kind: Type) -> CheckedExpr {
    CheckedExpr {
        kind: CheckedExprKind::Identifier(IdentifierNode { name: StringId(name), span: span_at(1) }),
        ty: ty(kind, 1),
    }
}

fn literal(value: bool) -> CheckedExpr {
    CheckedExpr { kind: CheckedExprKind::BoolLiteral { value }, ty: ty(Type::Bool, 2) }
}

fn is_i32(name: usize) -> CheckedExpr {
    CheckedExpr {
        kind: CheckedExprKind::IsType { left: Box::new(ident_expr(name, nullable_i32())), target: ty(Type::I32, 3) },
        ty: ty(Type::Bool, 3),
    }
}

fn checker_with_graph() -> SemanticChecker {
    let mut c = SemanticChecker::new();
    c.scope_insert(
        IdentifierNode { name: StringId(1), span: span_at(1) },
        SymbolEntry::VarDecl(CheckedVarDecl {
            id: DefinitionId(7),
            identifier: IdentifierNode { name: StringId(1), span: span_at(1) },
            constraint: nullable_i32(),
        }),
    );
    let mut graph = TypeFlowGraph::new();
    let start = graph.create_node(TFGNodeKind::NoOp { next_node: None });
    c.tfg_contexts.push(TFGContext { graph, current_node: start });
    c
}

fn nodes(c: &SemanticChecker) -> &Vec<TFGNodeKind> {
    &c.tfg_contexts.last().unwrap().graph.nodes
}

#[test]
fn identifier_is_found_on_either_side() {
    let a = ident_expr(1, Type::I32);
    let b = literal(true);
    let (i, o) = get_identifier_and_other(&b, &a).unwrap();
    assert!(matches!(i.kind, CheckedExprKind::Identifier(_)));
    assert!(matches!(o.kind, CheckedExprKind::BoolLiteral { .. }));
    assert!(get_identifier_and_other(&b, &literal(false)).is_none());
}

#[test]
fn is_check_narrows_a_union_variable() {
    let c = checker_with_graph();
    let (t, f) = c.analyze_atomic_condition(&is_i32(1)).unwrap();
    assert_eq!(t.target, DefinitionId(7));
    assert!(same_type(&t.narrowed_type, &Type::I32));
    assert_eq!(f.target, DefinitionId(7));
    assert!(same_type(&f.narrowed_type, &Type::Union(List::from_vec(vec![Type::Null]))));
}

#[test]
fn inequality_swaps_the_narrowings() {
    let c = checker_with_graph();
    let null_expr = CheckedExpr { kind: CheckedExprKind::BoolLiteral { value: false }, ty: ty(Type::Null, 4) };
    let ne = CheckedExpr {
        kind: CheckedExprKind::NotEqual {
            left: Box::new(ident_expr(1, nullable_i32())),
            right: Box::new(null_expr),
        },
        ty: ty(Type::Bool, 4),
    };
    let (t, f) = c.analyze_atomic_condition(&ne).unwrap();
    assert!(same_type(&t.narrowed_type, &Type::Union(List::from_vec(vec![Type::I32]))));
    assert!(same_type(&f.narrowed_type, &Type::Null));
}

#[test]
fn undeclared_or_non_union_variables_are_not_narrowed() {
    let c = checker_with_graph();
    assert!(c.analyze_atomic_condition(&is_i32(2)).is_none());
    let plain = CheckedExpr {
        kind: CheckedExprKind::IsType { left: Box::new(ident_expr(1, Type::I32)), target: ty(Type::I32, 3) },
        ty: ty(Type::Bool, 3),
    };
    assert!(c.analyze_atomic_condition(&plain).is_none());
    assert!(c.analyze_atomic_condition(&literal(true)).is_none());
}

#[test]
fn literal_condition_links_straight_to_its_target() {
    let mut c = checker_with_graph();
    let r = c.check_condition_expr(literal(false), TFGNodeId(10), TFGNodeId(20));
    assert!(matches!(r.kind, CheckedExprKind::BoolLiteral { value: false }));
    assert_eq!(nodes(&c).len(), 1);
    assert!(matches!(nodes(&c)[0], TFGNodeKind::NoOp { next_node: Some(TFGNodeId(20)) }));
    assert!(c.errors.is_empty());
}

#[test]
fn atomic_condition_becomes_a_narrowing_branch() {
    let mut c = checker_with_graph();
    c.check_condition_expr(is_i32(1), TFGNodeId(10), TFGNodeId(20));
    assert_eq!(nodes(&c).len(), 2);
    assert!(matches!(nodes(&c)[0], TFGNodeKind::NoOp { next_node: Some(TFGNodeId(1)) }));
    match &nodes(&c)[1] {
        TFGNodeKind::BranchNarrowing { narrowing_if_true, next_node_if_true, next_node_if_false, .. } => {
            assert_eq!(*next_node_if_true, Some(TFGNodeId(10)));
            assert_eq!(*next_node_if_false, Some(TFGNodeId(20)));
            assert!(same_type(&narrowing_if_true.as_ref().unwrap().narrowed_type, &Type::I32));
        }
        _ => panic!("expected a branch"),
    }
}

#[test]
fn non_boolean_condition_is_reported() {
    let mut c = checker_with_graph();
    let n = CheckedExpr { kind: CheckedExprKind::Number(NumberKind::I32(1)), ty: ty(Type::I32, 5) };
    c.check_condition_expr(n, TFGNodeId(10), TFGNodeId(20));
    assert_eq!(c.errors.len(), 1);
    assert!(matches!(&c.errors[0], CheckError::TypeMismatch { expected: Type::Bool, received: Type::I32, span } if *span == span_at(5)));
}

#[test]
fn conjunction_goes_through_a_new_step() {
    let mut c = checker_with_graph();
    let cond = CheckedExpr {
        kind: CheckedExprKind::And { left: Box::new(literal(true)), right: Box::new(is_i32(1)) },
        ty: ty(Type::Bool, 6),
    };
    let r = c.check_condition_expr(cond, TFGNodeId(10), TFGNodeId(20));
    assert!(matches!(r.kind, CheckedExprKind::And { .. }));
    assert!(matches!(r.ty.kind, Type::Bool));
    assert_eq!(nodes(&c).len(), 3);
    assert!(matches!(nodes(&c)[0], TFGNodeKind::NoOp { next_node: Some(TFGNodeId(1)) }));
    assert!(matches!(nodes(&c)[1], TFGNodeKind::NoOp { next_node: Some(TFGNodeId(2)) }));
    assert_eq!(c.tfg_contexts.last().unwrap().current_node, TFGNodeId(1));
}

#[test]
fn negation_swaps_the_targets() {
    let mut c = checker_with_graph();
    let cond = CheckedExpr { kind: CheckedExprKind::Not { right: Box::new(literal(true)) }, ty: ty(Type::Bool, 6) };
    c.check_condition_expr(cond, TFGNodeId(10), TFGNodeId(20));
    assert!(matches!(nodes(&c)[0], TFGNodeKind::NoOp { next_node: Some(TFGNodeId(20)) }));
}

#[test]
fn graph_grows_by_one_node_per_operator_and_atom() {
    let mut c = checker_with_graph();
    let or = CheckedExpr {
        kind: CheckedExprKind::Or { left: Box::new(is_i32(1)), right: Box::new(is_i32(1)) },
        ty: ty(Type::Bool, 6),
    };
    let not = CheckedExpr { kind: CheckedExprKind::Not { right: Box::new(is_i32(1)) }, ty: ty(Type::Bool, 6) };
    let and = CheckedExpr {
        kind: CheckedExprKind::And { left: Box::new(or), right: Box::new(not) },
        ty: ty(Type::Bool, 6),
    };
    c.build_condition_tfg(&and, TFGNodeId(0), TFGNodeId(30), TFGNodeId(40));
    assert_eq!(nodes(&c).len(), 1 + 5);
    let lit = CheckedExpr {
        kind: CheckedExprKind::And { left: Box::new(literal(true)), right: Box::new(literal(false)) },
        ty: ty(Type::Bool, 6),
    };
    c.build_condition_tfg(&lit, TFGNodeId(0), TFGNodeId(30), TFGNodeId(40));
    assert_eq!(nodes(&c).len(), 1 + 5 + 1);
}

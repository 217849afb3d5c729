use tern::ast::{BlockContents, Expr, ExprKind, IfBranch};
use tern::check::scope::ScopeKind;
use tern::hir::cfg::basic_blocks::{BasicBlockId, ValueTable};
use tern::hir::cfg::instructions::Instruction;
use tern::hir::cfg::{DeclarationId, Terminator, Value, ValueId};
use tern::hir::declarations::{scope_lookup, CheckedDeclaration, DeclScope};
use tern::hir::errors::{SemanticError, SemanticErrorKind};
use tern::hir::function_builder::FunctionBuilder;
use tern::hir::lowering::{unify_branch_types, IfContext};
use tern::interner::StringId;
use tern::number::NumberKind;
use tern::span::{IdentifierNode, Position, Span};
use tern::types::checked_type::Type;
use tern::types::list::List;

fn span_at(line: usize) -> Span {
    Span {
        start: Position { line, col: 1, byte_offset: line * 10 },
        end: Position { line, col: 3, byte_offset: line * 10 + 2 },
    }
}

fn expr(kind: ExprKind, line: usize) -> Expr {
    Expr { kind, span: span_at(line) }
}

fn boolean(b: bool, line: usize) -> Expr {
    expr(ExprKind::BoolLiteral(b), line)
}

fn number(n: i32, line: usize) -> Expr {
    expr(ExprKind::Number(NumberKind::I32(n)), line)
}

fn block(e: Expr, line: usize) -> BlockContents {
    BlockContents { final_expr: Some(Box::new(e)), span: span_at(line) }
}

struct Ctx {
    fb: FunctionBuilder,
    values: ValueTable,
    errors: Vec<SemanticError>,
    scopes: Vec<DeclScope>,
    decls: Vec<CheckedDeclaration>,
}

fn ctx() -> Ctx {
    Ctx {
        fb: FunctionBuilder::new(Type::Void),
        values: ValueTable::new(),
        errors: Vec::new(),
        scopes: vec![DeclScope { kind: ScopeKind::File, symbols: Vec::new() }],
        decls: Vec::new(),
    }
}

fn build(c: &mut Ctx, e: &Expr) -> Value {
    c.fb.build_expr(&mut c.values, &mut c.errors, &c.scopes, &c.decls, e)
}

#[test]
fn or_jumps_to_the_merge_block_with_true() {
    let mut c = ctx();
    let e = expr(
        ExprKind::Or { left: Box::new(boolean(false, 1)), right: Box::new(boolean(true, 2)) },
        3,
    );
    let r = build(&mut c, &e);
    assert!(c.errors.is_empty());
    // block 1 evaluates the right operand, block 2 merges; the merge parameter is value 0
    assert_eq!(r, Value::Use(ValueId(0)));
    assert!(matches!(c.values.types[0], Type::Bool));
    assert_eq!(c.fb.current_block, BasicBlockId(2));
    match &c.fb.cfg.blocks[0].terminator {
        Some(Terminator::CondJump { true_target, true_args, false_target, false_args, .. }) => {
            assert_eq!(*true_target, BasicBlockId(2));
            assert_eq!(*false_target, BasicBlockId(1));
            assert_eq!(true_args.len(), 1);
            assert!(false_args.is_empty());
            assert!(matches!(c.values.types[true_args[0].0], Type::Bool));
        }
        _ => panic!("expected a conditional jump"),
    }
    assert!(matches!(
        c.fb.cfg.blocks[0].instructions.last(),
        Some(Instruction::ConstBool { val: true, .. })
    ));
    match &c.fb.cfg.blocks[1].terminator {
        Some(Terminator::Jump { target, args }) => {
            assert_eq!(*target, BasicBlockId(2));
            assert_eq!(args.len(), 1);
        }
        _ => panic!("expected a jump"),
    }
    assert_eq!(c.fb.cfg.blocks[2].predecessors, vec![BasicBlockId(0), BasicBlockId(1)]);
}

#[test]
fn and_jumps_to_the_merge_block_with_false() {
    let mut c = ctx();
    let e = expr(
        ExprKind::And { left: Box::new(boolean(true, 1)), right: Box::new(boolean(true, 2)) },
        3,
    );
    let r = build(&mut c, &e);
    assert_eq!(r, Value::Use(ValueId(0)));
    match &c.fb.cfg.blocks[0].terminator {
        Some(Terminator::CondJump { true_target, false_target, false_args, .. }) => {
            assert_eq!(*true_target, BasicBlockId(1));
            assert_eq!(*false_target, BasicBlockId(2));
            assert_eq!(false_args.len(), 1);
        }
        _ => panic!("expected a conditional jump"),
    }
    assert!(matches!(
        c.fb.cfg.blocks[0].instructions.last(),
        Some(Instruction::ConstBool { val: false, .. })
    ));
}

#[test]
fn non_boolean_operands_of_logical_operations_are_reported() {
    let mut c = ctx();
    let e = expr(ExprKind::Or { left: Box::new(number(1, 1)), right: Box::new(boolean(true, 2)) }, 3);
    let r = build(&mut c, &e);
    assert_eq!(c.errors.len(), 1);
    assert!(matches!(
        &c.errors[0],
        SemanticError { kind: SemanticErrorKind::TypeMismatch { expected: Type::Bool, received: Type::I32 }, span } if *span == span_at(1)
    ));
    match r {
        Value::Use(id) => assert!(matches!(c.values.types[id.0], Type::Unknown)),
        _ => panic!("expected a poison value"),
    }
    let mut c = ctx();
    let e = expr(ExprKind::And { left: Box::new(boolean(true, 1)), right: Box::new(number(2, 2)) }, 3);
    build(&mut c, &e);
    assert!(matches!(&c.errors[0], SemanticError { span, .. } if *span == span_at(2)));
}

#[test]
fn undeclared_identifiers_are_reported() {
    let mut c = ctx();
    let id = IdentifierNode { name: StringId(4), span: span_at(5) };
    let r = build(&mut c, &expr(ExprKind::Identifier(id), 5));
    assert_eq!(r, Value::Use(ValueId(0)));
    assert!(matches!(c.values.types[0], Type::Unknown));
    assert!(matches!(&c.errors[0], SemanticError { kind: SemanticErrorKind::UndeclaredIdentifier(i), span } if *i == id && *span == span_at(5)));
}

#[test]
fn variables_are_loaded_from_their_slot() {
    let mut c = ctx();
    c.values.types.push(Type::Pointer { constraint: Box::new(Type::U8), narrowed_to: Box::new(Type::U8) });
    c.values.blocks.push(BasicBlockId(0));
    let id = IdentifierNode { name: StringId(4), span: span_at(5) };
    c.decls.push(CheckedDeclaration::Var { identifier: id, ptr: ValueId(0) });
    c.scopes[0].symbols.push((StringId(4), DeclarationId(0)));
    assert_eq!(scope_lookup(&c.scopes, StringId(4)), Some(DeclarationId(0)));
    let r = build(&mut c, &expr(ExprKind::Identifier(id), 5));
    assert_eq!(r, Value::Use(ValueId(1)));
    assert!(matches!(c.values.types[1], Type::U8));
    assert!(matches!(
        c.fb.cfg.blocks[0].instructions.last(),
        Some(Instruction::Load { destination: ValueId(1), ptr: ValueId(0) })
    ));
    assert!(c.errors.is_empty());
}

#[test]
fn type_aliases_are_not_values_and_functions_are_constants() {
    let mut c = ctx();
    let alias = IdentifierNode { name: StringId(1), span: span_at(1) };
    let fun = IdentifierNode { name: StringId(2), span: span_at(2) };
    c.decls.push(CheckedDeclaration::TypeAlias { identifier: alias });
    c.decls.push(CheckedDeclaration::Function { identifier: fun, id: DeclarationId(1), fn_type: Type::Void });
    c.scopes[0].symbols.push((StringId(1), DeclarationId(0)));
    c.scopes[0].symbols.push((StringId(2), DeclarationId(1)));
    build(&mut c, &expr(ExprKind::Identifier(alias), 3));
    assert!(matches!(&c.errors[0], SemanticError { kind: SemanticErrorKind::CannotUseTypeDeclarationAsValue, span } if *span == span_at(1)));
    let r = build(&mut c, &expr(ExprKind::Identifier(fun), 4));
    assert_eq!(r, Value::Use(ValueId(1)));
    assert!(matches!(
        c.fb.cfg.blocks[0].instructions.last(),
        Some(Instruction::ConstFn { dest: ValueId(1), decl_id: DeclarationId(1) })
    ));
}

#[test]
fn if_expression_without_else_is_reported() {
    let mut c = ctx();
    let branches = List::from_vec(vec![IfBranch { condition: boolean(true, 1), body: block(number(1, 2), 2) }]);
    let r = c.fb.build_if(&mut c.values, &mut c.errors, &c.scopes, &c.decls, &branches, &None, IfContext::Expression);
    assert_eq!(r, Value::Use(ValueId(0)));
    assert_eq!(c.fb.cfg.blocks.len(), 1);
    assert!(matches!(&c.errors[0], SemanticError { kind: SemanticErrorKind::IfExpressionMissingElse, span } if *span == span_at(1)));
}

#[test]
fn if_expression_merges_its_branches() {
    let mut c = ctx();
    let e = expr(
        ExprKind::If {
            branches: List::from_vec(vec![IfBranch { condition: boolean(true, 1), body: block(number(1, 2), 2) }]),
            else_branch: Some(block(number(2, 3), 3)),
        },
        4,
    );
    let r = build(&mut c, &e);
    assert!(c.errors.is_empty());
    // merge block 1, body block 2, next (else) block 3
    assert_eq!(c.fb.current_block, BasicBlockId(1));
    match r {
        Value::Use(p) => {
            assert!(matches!(c.values.types[p.0], Type::I32));
            assert_eq!(c.values.blocks[p.0], BasicBlockId(1));
        }
        _ => panic!("expected the merge parameter"),
    }
    match &c.fb.cfg.blocks[0].terminator {
        Some(Terminator::CondJump { true_target, false_target, .. }) => {
            assert_eq!(*true_target, BasicBlockId(2));
            assert_eq!(*false_target, BasicBlockId(3));
        }
        _ => panic!("expected a conditional jump"),
    }
    for b in [2usize, 3] {
        match &c.fb.cfg.blocks[b].terminator {
            Some(Terminator::Jump { target, args }) => {
                assert_eq!(*target, BasicBlockId(1));
                assert_eq!(args.len(), 1);
            }
            _ => panic!("expected a jump to the merge block"),
        }
    }
}

#[test]
fn if_conditions_must_be_booleans_and_branches_agree() {
    let mut c = ctx();
    let e = expr(
        ExprKind::If {
            branches: List::from_vec(vec![IfBranch { condition: number(0, 1), body: block(number(1, 2), 2) }]),
            else_branch: Some(block(boolean(false, 3), 3)),
        },
        4,
    );
    let r = build(&mut c, &e);
    assert_eq!(c.errors.len(), 2);
    assert!(matches!(&c.errors[0], SemanticError { kind: SemanticErrorKind::TypeMismatch { expected: Type::Bool, received: Type::I32 }, span } if *span == span_at(1)));
    assert!(matches!(&c.errors[1], SemanticError { kind: SemanticErrorKind::IncompatibleBranchTypes { first: Type::I32, second: Type::Bool }, span } if *span == span_at(3)));
    match r {
        Value::Use(p) => assert!(matches!(c.values.types[p.0], Type::Unknown)),
        _ => panic!("expected the merge parameter"),
    }
}

#[test]
fn if_statement_gives_void_and_falls_through() {
    let mut c = ctx();
    let branches = List::from_vec(vec![IfBranch { condition: boolean(true, 1), body: block(number(1, 2), 2) }]);
    let r = c.fb.build_if(&mut c.values, &mut c.errors, &c.scopes, &c.decls, &branches, &None, IfContext::Statement);
    assert_eq!(r, Value::VoidLiteral);
    assert_eq!(c.fb.current_block, BasicBlockId(1));
    // the last condition block jumps straight to the merge block
    assert!(matches!(&c.fb.cfg.blocks[3].terminator, Some(Terminator::Jump { target: BasicBlockId(1), args }) if args.is_empty()));
    assert!(matches!(&c.fb.cfg.blocks[2].terminator, Some(Terminator::Jump { target: BasicBlockId(1), args }) if args.is_empty()));
}

#[test]
fn branch_types_unify_on_the_first() {
    assert!(matches!(unify_branch_types(&vec![(Type::I8, span_at(1)), (Type::Unknown, span_at(2))]), Ok(Type::I8)));
    assert!(matches!(unify_branch_types(&vec![]), Ok(Type::Void)));
    match unify_branch_types(&vec![(Type::I8, span_at(1)), (Type::I8, span_at(2)), (Type::Bool, span_at(3))]) {
        Err(SemanticError { kind: SemanticErrorKind::IncompatibleBranchTypes { first: Type::I8, second: Type::Bool }, span }) => assert_eq!(span, span_at(3)),
        _ => panic!("expected disagreement"),
    }
}

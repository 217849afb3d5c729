use tern::ast::{GenericParam, Param, TypeAnnotation, TypeAnnotationKind};
use tern::check::checked_ast::{CheckedBlock, CheckedExpr, CheckedExprKind, CheckedStmt, CheckedType};
use tern::check::checker::SemanticChecker;
use tern::check::errors::CheckError;
use tern::check::scope::{CheckedVarDecl, Scope, ScopeKind, SymbolEntry};
use tern::check::substitute::GenericSubstitutionMap;
use tern::check::type_to_string::type_to_string;
use tern::interner::{Interner, StringId};
use tern::number::NumberKind;
use tern::span::{dummy_span, DefinitionId, IdentifierNode, Position, Span};
use tern::types::checked_type::{CheckedFnType, CheckedGenericParam, CheckedParam, CheckedTypeAliasDecl, Type};
use tern::types::eq::same_type;
use tern::types::list::List;

fn span_at(line: usize) -> Span {
    Span {
        start: Position { line, col: 1, byte_offset: line * 10 },
        end: Position { line, col: 5, byte_offset: line * 10 + 4 },
    }
}

fn ident(n: usize) -> IdentifierNode {
    IdentifierNode { name: StringId(n), span: span_at(n) }
}

fn var(n: usize, def: usize, ty: Type) -> SymbolEntry {
    SymbolEntry::VarDecl(CheckedVarDecl { id: DefinitionId(def), identifier: ident(n), constraint: ty })
}

fn expr_of(ty: Type, line: usize) -> CheckedExpr {
    CheckedExpr {
        kind: CheckedExprKind::BoolLiteral { value: true },
        ty: CheckedType { kind: ty, span: span_at(line) },
    }
}

fn annotation(kind: TypeAnnotationKind) -> TypeAnnotation {
    TypeAnnotation { kind, span: span_at(7) }
}

#[test]
fn new_checker_has_only_the_file_scope() {
    let c = SemanticChecker::new();
    assert_eq!(c.scopes.len(), 1);
    assert!(c.is_file_scope());
    assert!(!c.within_function_scope());
    assert!(!c.within_loop_scope());
    assert!(c.scope_lookup(StringId(0)).is_none());
    assert!(c.errors.is_empty());
}

#[test]
fn node_and_definition_ids_count_up() {
    let mut c = SemanticChecker::new();
    assert_eq!(c.get_node_id().0, 0);
    assert_eq!(c.get_node_id().0, 1);
    assert_eq!(c.get_definition_id().0, 0);
    assert_eq!(c.get_node_id().0, 2);
    assert_eq!(c.get_definition_id().0, 1);
}

#[test]
fn declaring_a_name_twice_in_one_scope_is_reported() {
    let mut c = SemanticChecker::new();
    c.scope_insert(ident(3), var(3, 0, Type::I32));
    assert!(c.errors.is_empty());
    c.scope_insert(ident(3), var(3, 1, Type::Bool));
    assert_eq!(c.errors.len(), 1);
    assert!(matches!(c.errors[0], CheckError::DuplicateIdentifier { id } if id.name == StringId(3)));
    match c.scope_lookup(StringId(3)) {
        Some(SymbolEntry::VarDecl(d)) => assert_eq!(d.id.0, 1),
        _ => panic!("expected a variable"),
    }
}

#[test]
fn innermost_declaration_wins_and_exit_restores() {
    let mut c = SemanticChecker::new();
    c.scope_insert(ident(4), var(4, 10, Type::I32));
    c.enter_scope(ScopeKind::CodeBlock);
    match c.scope_lookup(StringId(4)) {
        Some(SymbolEntry::VarDecl(d)) => assert_eq!(d.id.0, 10),
        _ => panic!("outer declaration hidden"),
    }
    c.scope_insert(ident(4), var(4, 11, Type::Char));
    assert!(c.errors.is_empty());
    match c.scope_lookup(StringId(4)) {
        Some(SymbolEntry::VarDecl(d)) => assert_eq!(d.id.0, 11),
        _ => panic!("inner declaration missing"),
    }
    let closed = c.exit_scope();
    assert!(matches!(closed.kind, ScopeKind::CodeBlock));
    match c.scope_lookup(StringId(4)) {
        Some(SymbolEntry::VarDecl(d)) => assert_eq!(d.id.0, 10),
        _ => panic!("outer declaration lost"),
    }
}

#[test]
fn loop_scope_is_seen_through_code_blocks_only() {
    let mut c = SemanticChecker::new();
    c.enter_scope(ScopeKind::Function);
    assert!(c.within_function_scope());
    c.enter_scope(ScopeKind::While);
    c.enter_scope(ScopeKind::CodeBlock);
    c.enter_scope(ScopeKind::CodeBlock);
    assert!(c.within_loop_scope());
    c.enter_scope(ScopeKind::Function);
    assert!(!c.within_loop_scope());
    assert!(!c.is_file_scope());
}

#[test]
fn scope_insert_reports_whether_it_replaced() {
    let mut s = Scope::new(ScopeKind::File);
    assert!(!s.insert(StringId(1), var(1, 0, Type::I8)));
    assert!(s.insert(StringId(1), var(1, 2, Type::I8)));
    assert!(s.get(StringId(2)).is_none());
    match s.get(StringId(1)) {
        Some(SymbolEntry::VarDecl(d)) => assert_eq!(d.id.0, 2),
        _ => panic!(),
    }
}

#[test]
fn numeric_operation_needs_numbers() {
    let mut c = SemanticChecker::new();
    let r = c.check_binary_numeric_operation(&expr_of(Type::Bool, 1), &expr_of(Type::I32, 2), span_at(3));
    assert!(matches!(r.kind, Type::Unknown));
    assert_eq!(r.span, span_at(1));
    assert!(matches!(c.errors[0], CheckError::ExpectedANumericOperand { span } if span == span_at(1)));
    let r2 = c.check_binary_numeric_operation(&expr_of(Type::I32, 1), &expr_of(Type::Char, 2), span_at(3));
    assert!(matches!(r2.kind, Type::Unknown));
    assert!(matches!(c.errors[1], CheckError::ExpectedANumericOperand { span } if span == span_at(2)));
}

#[test]
fn numeric_operation_rejects_mixed_kinds() {
    let mut c = SemanticChecker::new();
    let r = c.check_binary_numeric_operation(&expr_of(Type::F32, 1), &expr_of(Type::I32, 2), span_at(3));
    assert!(matches!(r.kind, Type::Unknown));
    assert!(matches!(c.errors[0], CheckError::MixedFloatAndInteger { span } if span == span_at(3)));
    let r2 = c.check_binary_numeric_operation(&expr_of(Type::U8, 1), &expr_of(Type::I8, 2), span_at(4));
    assert!(matches!(r2.kind, Type::Unknown));
    assert!(matches!(c.errors[1], CheckError::MixedSignedAndUnsigned { span } if span == span_at(4)));
    assert_eq!(c.span_registry.get_span(tern::span::NodeId(1)), &span_at(4));
}

#[test]
fn numeric_operation_takes_the_wider_type() {
    let mut c = SemanticChecker::new();
    let r = c.check_binary_numeric_operation(&expr_of(Type::I16, 1), &expr_of(Type::I64, 2), span_at(3));
    assert!(matches!(r.kind, Type::I64));
    assert_eq!(r.span, span_at(3));
    let r2 = c.check_binary_numeric_operation(&expr_of(Type::F64, 1), &expr_of(Type::F32, 2), span_at(5));
    assert!(matches!(r2.kind, Type::F64));
    let r3 = c.check_binary_numeric_operation(&expr_of(Type::U32, 1), &expr_of(Type::U32, 1), span_at(6));
    assert!(matches!(r3.kind, Type::U32));
    assert_eq!(r3.span, span_at(1));
    assert!(c.errors.is_empty());
}

#[test]
fn primitive_annotations_check_to_their_types() {
    let mut c = SemanticChecker::new();
    let t = c.check_type_annotation(&annotation(TypeAnnotationKind::U16));
    assert!(matches!(t.kind, Type::U16));
    assert!(t.span == span_at(7));
    let u = c.check_type_annotation(&annotation(TypeAnnotationKind::Union(List::from_vec(vec![
        annotation(TypeAnnotationKind::Bool),
        annotation(TypeAnnotationKind::Null),
        annotation(TypeAnnotationKind::Bool),
    ])))).kind;
    match u {
        Type::Union(items) => assert_eq!(items.len(), 2),
        _ => panic!("expected a union"),
    }
    assert!(c.errors.is_empty());
}

#[test]
fn undeclared_type_is_reported() {
    let mut c = SemanticChecker::new();
    let t = c.check_type_annotation(&annotation(TypeAnnotationKind::Identifier(ident(9)))).kind;
    assert!(matches!(t, Type::Unknown));
    assert!(matches!(c.errors[0], CheckError::UndeclaredType { id } if id.name == StringId(9)));
}

#[test]
fn variable_is_not_a_type() {
    let mut c = SemanticChecker::new();
    c.scope_insert(ident(2), var(2, 0, Type::I32));
    let t = c.check_type_annotation(&annotation(TypeAnnotationKind::Identifier(ident(2)))).kind;
    assert!(matches!(t, Type::Unknown));
    assert!(matches!(c.errors[0], CheckError::CannotUseVariableDeclarationAsType { .. }));
}

#[test]
fn array_size_must_be_a_non_negative_integer() {
    let mut c = SemanticChecker::new();
    let ok = c.check_type_annotation(&annotation(TypeAnnotationKind::Array {
        item_type: Box::new(annotation(TypeAnnotationKind::Char)),
        size: NumberKind::U8(4),
    })).kind;
    assert!(matches!(ok, Type::Array { size: 4, .. }));
    let neg = c.check_type_annotation(&annotation(TypeAnnotationKind::Array {
        item_type: Box::new(annotation(TypeAnnotationKind::Char)),
        size: NumberKind::I32(-1),
    })).kind;
    assert!(matches!(neg, Type::Unknown));
    let float = c.check_type_annotation(&annotation(TypeAnnotationKind::Array {
        item_type: Box::new(annotation(TypeAnnotationKind::Char)),
        size: NumberKind::F32(0x4040_0000),
    })).kind;
    assert!(matches!(float, Type::Unknown));
    assert_eq!(c.errors.len(), 2);
    assert!(matches!(c.errors[0], CheckError::InvalidArraySizeValue { value: NumberKind::I32(-1), .. }));
}

#[test]
fn returns_are_collected_and_misplaced_ones_reported() {
    let mut c = SemanticChecker::new();
    let stmts = List::from_vec(vec![
        CheckedStmt::Return(expr_of(Type::I32, 1)),
        CheckedStmt::Break,
        CheckedStmt::While {
            condition: Box::new(expr_of(Type::Bool, 2)),
            body: CheckedBlock {
                statements: List::from_vec(vec![CheckedStmt::Return(expr_of(Type::Char, 3))]),
                final_expr: None,
            },
        },
    ]);
    let found = c.check_returns(&stmts);
    assert_eq!(found.len(), 2);
    assert!(matches!(found[0].ty.kind, Type::I32));
    assert!(matches!(found[1].ty.kind, Type::Char));
    assert_eq!(c.errors.len(), 1);
    assert!(matches!(c.errors[0], CheckError::ReturnNotLastStatement { span } if span == span_at(1)));
}

#[test]
fn substitution_replaces_bound_parameters() {
    let mut c = SemanticChecker::new();
    let mut map = GenericSubstitutionMap::new();
    map.insert(StringId(5), Type::Bool);
    let t = Type::Array {
        item_type: Box::new(Type::GenericParam(CheckedGenericParam { identifier: IdentifierNode { name: StringId(5), span: dummy_span() }, constraint: None })),
        size: 2,
    };
    let r = c.substitute_generics(&t, &map, span_at(1));
    assert!(same_type(&r, &Type::Array { item_type: Box::new(Type::Bool), size: 2 }));
    assert!(c.errors.is_empty());
}

#[test]
fn substitution_reports_unbound_parameters() {
    let mut c = SemanticChecker::new();
    let map = GenericSubstitutionMap::new();
    let t = Type::GenericParam(CheckedGenericParam { identifier: IdentifierNode { name: StringId(6), span: dummy_span() }, constraint: None });
    let r = c.substitute_generics(&t, &map, span_at(2));
    assert!(matches!(r, Type::Unknown));
    assert!(matches!(c.errors[0], CheckError::UnresolvedGenericParam { param, span } if param.name == StringId(6) && span == span_at(2)));
}

#[test]
fn substitution_checks_constraints() {
    let mut c = SemanticChecker::new();
    let mut map = GenericSubstitutionMap::new();
    map.insert(StringId(5), Type::Char);
    let t = Type::GenericParam(CheckedGenericParam { identifier: IdentifierNode { name: StringId(5), span: dummy_span() },
        constraint: Some(Box::new(Type::I32)),
    });
    let r = c.substitute_generics(&t, &map, span_at(2));
    assert!(matches!(r, Type::Unknown));
    assert!(matches!(c.errors[0], CheckError::IncompatibleGenericParamSubstitution { is_inferred: true, .. }));
}

#[test]
fn inference_binds_parameters_once() {
    let mut c = SemanticChecker::new();
    let mut map = GenericSubstitutionMap::new();
    let expected = Type::GenericParam(CheckedGenericParam { identifier: IdentifierNode { name: StringId(1), span: dummy_span() }, constraint: None });
    c.infer_generics(&expected, &Type::U8, &mut map);
    assert!(matches!(map.get(StringId(1)), Some(Type::U8)));
    c.infer_generics(&expected, &Type::U8, &mut map);
    assert!(c.errors.is_empty());
    c.infer_generics(&expected, &Type::Bool, &mut map);
    assert_eq!(c.errors.len(), 1);
    assert!(matches!(c.errors[0], CheckError::ConflictingGenericBinding { .. }));
    assert!(matches!(map.get(StringId(1)), Some(Type::U8)));
}

#[test]
fn inference_looks_inside_functions() {
    let mut c = SemanticChecker::new();
    let mut map = GenericSubstitutionMap::new();
    let t = Type::GenericParam(CheckedGenericParam { identifier: IdentifierNode { name: StringId(2), span: dummy_span() }, constraint: None });
    let expected = Type::FnType(CheckedFnType {
        params: List::from_vec(vec![CheckedParam { id: DefinitionId(0), identifier: IdentifierNode { name: StringId(3), span: dummy_span() }, constraint: Type::I32 }]),
        return_type: Box::new(t),
        generic_params: List::new(),
        applied_type_args: List::new(),
    });
    let received = Type::FnType(CheckedFnType {
        params: List::from_vec(vec![CheckedParam { id: DefinitionId(0), identifier: IdentifierNode { name: StringId(3), span: dummy_span() }, constraint: Type::I32 }]),
        return_type: Box::new(Type::Char),
        generic_params: List::new(),
        applied_type_args: List::new(),
    });
    c.infer_generics(&expected, &received, &mut map);
    assert!(matches!(map.get(StringId(2)), Some(Type::Char)));
}

fn names() -> Interner<String, StringId> {
    let mut i: Interner<String, StringId> = Interner::new();
    for n in ["x", "T", "count"] {
        i.intern(&n.to_string());
    }
    i
}

#[test]
fn types_are_written_as_in_source() {
    let i = names();
    assert_eq!(type_to_string(&Type::I32, &i), "i32");
    assert_eq!(
        type_to_string(&Type::Union(List::from_vec(vec![Type::I32, Type::Bool, Type::Null])), &i),
        "i32 | bool | null"
    );
    assert_eq!(type_to_string(&Type::Array { item_type: Box::new(Type::U8), size: 16 }, &i), "[u8; 16]");
    assert_eq!(type_to_string(&Type::List(Box::new(Type::Char)), &i), "list<char>");
    let f = Type::FnType(CheckedFnType {
        params: List::from_vec(vec![CheckedParam { id: DefinitionId(0), identifier: IdentifierNode { name: StringId(0), span: dummy_span() }, constraint: Type::I64 }]),
        return_type: Box::new(Type::Void),
        generic_params: List::from_vec(vec![CheckedGenericParam { identifier: IdentifierNode { name: StringId(1), span: dummy_span() }, constraint: None }]),
        applied_type_args: List::new(),
    });
    assert_eq!(type_to_string(&f, &i), "<T>(x: i64) => void");
    assert_eq!(type_to_string(&Type::Union(List::from_vec(vec![f, Type::Null])), &i), "(<T>(x: i64) => void) | null");
    let s = Type::Struct(List::from_vec(vec![
        CheckedParam { id: DefinitionId(0), identifier: IdentifierNode { name: StringId(2), span: dummy_span() }, constraint: Type::USize },
        CheckedParam { id: DefinitionId(0), identifier: IdentifierNode { name: StringId(0), span: dummy_span() }, constraint: Type::String },
    ]));
    assert_eq!(type_to_string(&s, &i), "{\ncount: usize,\nx: string\n}");
}

#[test]
fn assignability_of_checked_types_ignores_spans() {
    let c = SemanticChecker::new();
    let a = CheckedType { kind: Type::Bool, span: span_at(1) };
    let b = CheckedType { kind: Type::Bool, span: dummy_span() };
    assert!(c.check_is_assignable(&a, &b));
    let d = CheckedType { kind: Type::I8, span: span_at(1) };
    assert!(!c.check_is_assignable(&a, &d));
}

#[test]
fn checked_params_keep_identifiers_and_take_fresh_ids() {
    let mut c = SemanticChecker::new();
    c.scopes.push(Scope::new(ScopeKind::File));
    c.definition_counter = 4;
    let params = List::from_vec(vec![
        Param { identifier: ident(1), constraint: annotation(TypeAnnotationKind::Bool) },
        Param { identifier: ident(2), constraint: annotation(TypeAnnotationKind::U8) },
    ]);
    let r = c.check_params(&params).into_vec();
    assert_eq!(r.len(), 2);
    assert!(r[0].identifier == ident(1) && r[1].identifier == ident(2));
    assert_eq!(r[0].id, DefinitionId(4));
    assert_eq!(r[1].id, DefinitionId(5));
    assert_eq!(c.definition_counter, 6);
    assert!(c.errors.is_empty());
}

#[test]
fn checked_generic_params_keep_identifiers() {
    let mut c = SemanticChecker::new();
    c.scopes.push(Scope::new(ScopeKind::File));
    let gps = List::from_vec(vec![
        GenericParam { identifier: ident(3), constraint: None },
        GenericParam { identifier: ident(4), constraint: Some(Box::new(annotation(TypeAnnotationKind::I32))) },
    ]);
    let r = c.check_generic_params(&gps).into_vec();
    assert_eq!(r.len(), 2);
    assert!(r[0].identifier == ident(3) && r[0].constraint.is_none());
    assert!(r[1].identifier == ident(4) && r[1].constraint.is_some());
}

#[test]
fn unapplied_generic_alias_becomes_unknown_at_its_span() {
    let mut c = SemanticChecker::new();
    let alias = Type::TypeAliasDecl(Box::new(CheckedTypeAliasDecl {
        name: StringId(3),
        generic_params: List::from_vec(vec![CheckedGenericParam {
            identifier: ident(4),
            constraint: None,
        }]),
        value: Box::new(Type::Bool),
        applied_type_args: List::Nil,
    }));
    let r = c.check_has_type_arguments_applied(CheckedType { kind: alias, span: span_at(5) });
    assert!(matches!(r.kind, Type::Unknown));
    assert!(r.span == span_at(5));
    assert!(matches!(c.errors[0], CheckError::ExpectedTypeArguments { span } if span == span_at(5)));
    let kept = c.check_has_type_arguments_applied(CheckedType { kind: Type::I8, span: span_at(6) });
    assert!(matches!(kept.kind, Type::I8) && kept.span == span_at(6));
    assert_eq!(c.errors.len(), 1);
}

#[test]
fn leaving_a_scope_hands_back_its_declarations() {
    let mut c = SemanticChecker::new();
    c.scope_insert(ident(1), var(1, 1, Type::I8));
    let outer_len = c.scopes.len();
    c.enter_scope(ScopeKind::While);
    c.scope_insert(ident(2), var(2, 2, Type::Bool));
    c.scope_insert(ident(3), var(3, 3, Type::Char));
    c.scope_insert(ident(2), var(2, 4, Type::U8));
    let closed = c.exit_scope();
    assert!(matches!(closed.kind, ScopeKind::While));
    assert!(matches!(closed.get(StringId(2)), Some(SymbolEntry::VarDecl(d)) if d.id.0 == 4));
    assert!(matches!(closed.get(StringId(3)), Some(SymbolEntry::VarDecl(d)) if d.id.0 == 3));
    assert!(closed.get(StringId(1)).is_none());
    assert_eq!(c.scopes.len(), outer_len);
    assert!(matches!(c.scope_lookup(StringId(1)), Some(SymbolEntry::VarDecl(d)) if d.id.0 == 1));
    assert!(c.scope_lookup(StringId(2)).is_none());
}

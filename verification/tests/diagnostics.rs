use tern::check::type_to_string::has_names_below;
use tern::compile::errors::CompilationError;
use tern::compile::sorting::sort_texts;
use tern::hir::errors::{SemanticError, SemanticErrorKind};
use tern::interner::{Interner, StringId};
use tern::span::{dummy_span, DefinitionId, IdentifierNode};
use tern::types::checked_type::{CheckedFnType, CheckedGenericParam, CheckedParam, Type};
use tern::types::list::List;

fn names() -> Interner<String, StringId> {
    let mut i: Interner<String, StringId> = Interner::new();
    for n in ["width", "height", "main"] {
        i.intern(&n.to_string());
    }
    i
}

fn id(n: usize) -> IdentifierNode {
    IdentifierNode { name: StringId(n), span: dummy_span() }
}

#[test]
fn codes_are_prefixed_with_s() {
    assert_eq!(SemanticErrorKind::ExpectedANumericOperand.report_code(), "S1");
    assert_eq!(SemanticErrorKind::TypeMismatch { expected: Type::Bool, received: Type::I8 }.report_code(), "S10");
    assert_eq!(SemanticErrorKind::CannotUseFunctionDeclarationAsType.report_code(), "S37");
}

#[test]
fn type_mismatch_names_both_types() {
    let k = SemanticErrorKind::TypeMismatch {
        expected: Type::Bool,
        received: Type::Union(List::from_vec(vec![Type::I32, Type::Null])),
    };
    assert_eq!(k.report_title(), "Type mismatch");
    assert_eq!(k.report_label(&names()), "Type mismatch, expected \"bool\", instead found \"i32 | null\"");
}

#[test]
fn identifiers_are_named() {
    let i = names();
    let k = SemanticErrorKind::UndeclaredIdentifier(id(2));
    assert_eq!(k.report_title(), "Undeclared identifier");
    assert_eq!(k.report_label(&i), "Undeclared identifier \"main\"");
    let f = SemanticErrorKind::AccessToUndefinedField(id(0));
    assert_eq!(f.report_label(&i), "Field \"width\" is not defined");
    let d = SemanticErrorKind::DuplicateStructFieldInitializer(id(1));
    assert_eq!(d.report_label(&i), "Struct field \"height\" cannot be initialized multiple times");
}

#[test]
fn argument_count_is_plural_above_one() {
    let i = names();
    let one = SemanticErrorKind::FnArgumentCountMismatch { expected: 1, received: 0 };
    assert_eq!(one.report_label(&i), "This function expects 1 argument, but instead received 0");
    let many = SemanticErrorKind::FnArgumentCountMismatch { expected: 12, received: 3 };
    assert_eq!(many.report_label(&i), "This function expects 12 arguments, but instead received 3");
    assert_eq!(many.report_title(), "Function argument count mismatch");
}

#[test]
fn expected_types_are_listed_in_order() {
    let k = SemanticErrorKind::TypeMismatchExpectedOneOf {
        expected: vec![Type::U8, Type::Bool, Type::Char, Type::I64],
        received: Type::Null,
    };
    assert_eq!(
        k.report_label(&names()),
        "Expected one of \"bool\", \"char\", \"i64\", \"u8\", but found \"null\""
    );
}

#[test]
fn missing_fields_are_listed() {
    let k = SemanticErrorKind::MissingStructFieldInitializers(vec![StringId(0), StringId(1)]);
    assert_eq!(k.report_title(), "Missing field initializers");
    assert_eq!(
        k.report_label(&names()),
        "Missing initializers for the following struct fields \"width\", \"height\""
    );
}

#[test]
fn branch_types_are_reported_newest_first() {
    let k = SemanticErrorKind::IncompatibleBranchTypes { first: Type::I32, second: Type::String };
    assert_eq!(
        k.report_label(&names()),
        "This branch returns \"string\", but the previous branch returned \"i32\""
    );
}

#[test]
fn fixed_messages() {
    let i = names();
    let k = SemanticErrorKind::BreakKeywordOutsideLoop;
    assert_eq!(k.report_title(), "Keyword \"break\" used outside of a loop scope");
    assert_eq!(k.report_label(&i), "Cannot use the \"break\" keyword outside of a loop scope");
    assert_eq!(SemanticErrorKind::UnreachableCode.report_label(&i), "This code will never be executed");
    assert_eq!(SemanticErrorKind::IfExpressionMissingElse.report_title(), "`if` expression missing `else` block");
    let m = SemanticErrorKind::ModuleNotFound("lib/util.tern".to_string());
    assert_eq!(m.report_label(&i), "Could not find module at path \"lib/util.tern\"");
    let c = SemanticErrorKind::CannotCastType { source_type: Type::Bool, target_type: Type::F32 };
    assert_eq!(c.report_label(&i), "Cannot cast type \"bool\" to \"f32\"");
}

#[test]
fn file_errors_have_one_line_messages() {
    let e = CompilationError::CouldNotReadFile { path: "a.tern".to_string(), error: "denied".to_string() };
    assert_eq!(e.message().unwrap(), "Could not read file at path \"a.tern\", error denied");
    let m = CompilationError::ModuleNotFound {
        importing_module: "main.tern".to_string(),
        target_path: "b.tern".to_string(),
        error: "missing".to_string(),
    };
    assert_eq!(m.message().unwrap(), "Module not found \"b.tern\", imported from \"main.tern\", error: missing");
    let s = CompilationError::Semantic {
        path: "main.tern".to_string(),
        errors: vec![SemanticError { kind: SemanticErrorKind::InvalidLValue, span: dummy_span() }],
    };
    assert!(s.message().is_none());
}

#[test]
fn texts_sort_by_code_point_with_prefixes_first() {
    let v = vec!["b".to_string(), "ab".to_string(), "a".to_string(), "B".to_string(), "é".to_string(), "a".to_string()];
    let r = sort_texts(v);
    assert_eq!(r, vec!["B", "a", "a", "ab", "b", "é"]);
    assert!(sort_texts(vec![]).is_empty());
}

#[test]
fn labels_naming_unknown_ids_are_refused() {
    let i = names();
    let known = SemanticErrorKind::UndeclaredType(id(1));
    assert!(known.report_names_known(3));
    assert_eq!(known.report_label_checked(&i).unwrap(), "Undeclared type \"height\"");
    let unknown = SemanticErrorKind::UndeclaredType(id(3));
    assert!(!unknown.report_names_known(3));
    assert!(unknown.report_label_checked(&i).is_none());
    let plain = SemanticErrorKind::InvalidLValue;
    assert_eq!(plain.report_label_checked(&i).unwrap(), "Invalid assignment target");
}

#[test]
fn names_inside_types_are_checked() {
    let s = Type::Struct(List::from_vec(vec![CheckedParam { id: DefinitionId(0), identifier: IdentifierNode { name: StringId(4), span: dummy_span() }, constraint: Type::Bool }]));
    assert!(has_names_below(&s, 5));
    assert!(!has_names_below(&s, 4));
    let g = Type::List(Box::new(Type::GenericParam(CheckedGenericParam { identifier: IdentifierNode { name: StringId(0), span: dummy_span() }, constraint: None })));
    assert!(has_names_below(&g, 1));
    assert!(!has_names_below(&g, 0));
    assert!(has_names_below(&Type::I32, 0));
}

#[test]
fn expected_types_sort_as_quoted_texts() {
    let f = |ret: Type| {
        Type::FnType(CheckedFnType {
            params: List::new(),
            return_type: Box::new(ret),
            generic_params: List::new(),
            applied_type_args: List::new(),
        })
    };
    let k = SemanticErrorKind::TypeMismatchExpectedOneOf {
        expected: vec![f(Type::I32), f(Type::Union(List::from_vec(vec![Type::I32, Type::Null])))],
        received: Type::Bool,
    };
    assert_eq!(
        k.report_label(&names()),
        "Expected one of \"() => i32 | null\", \"() => i32\", but found \"bool\""
    );
}

use vstd::prelude::*;

use crate::check::type_to_string::{
    decimal, has_names_below, identifier_to_string, names_below, push_decimal, type_text,
    type_to_string,
};
use crate::compile::sorting::{lex_le, sort_texts, sorted, views};
use crate::hir::errors::{spec_code, SemanticErrorKind};
use crate::interner::{Interner, StringId};
use crate::types::checked_type::Type;

verus! {

/// The names that `ids` stand for.
pub open spec fn names_of(ids: Seq<StringId>, names: Seq<Seq<char>>) -> Seq<Seq<char>> {
    Seq::new(ids.len(), |i: int| names[ids[i].0 as int])
}

/// Each item in double quotes, the items joined by `, `.
pub open spec fn quoted_join(items: Seq<Seq<char>>) -> Seq<char>
    decreases items.len(),
{
    if items.len() == 0 {
        Seq::empty()
    } else if items.len() == 1 {
        "\""@ + items[0] + "\""@
    } else {
        "\""@ + items[0] + "\", "@ + quoted_join(items.drop_first())
    }
}

/// The texts of `types`, written as in messages, each in double quotes.
pub open spec fn type_texts(types: Seq<Type>, names: Seq<Seq<char>>) -> Seq<Seq<char>> {
    Seq::new(types.len(), |i: int| "\""@ + type_text(types[i], names, false) + "\""@)
}

/// The items joined by `, `.
pub open spec fn joined(items: Seq<Seq<char>>) -> Seq<char>
    decreases items.len(),
{
    if items.len() == 0 {
        Seq::empty()
    } else if items.len() == 1 {
        items[0]
    } else {
        items[0] + ", "@ + joined(items.drop_first())
    }
}

/// The code under which an error is reported: `S` and its number.
pub open spec fn report_code(kind: SemanticErrorKind) -> Seq<char> {
    "S"@ + decimal(spec_code(kind) as nat)
}

/// The headline of the report of an error.
pub open spec fn report_title(kind: SemanticErrorKind) -> Seq<char> {
    match kind {
        SemanticErrorKind::ExpectedANumericOperand => "Expected a numeric operand"@,
        SemanticErrorKind::MixedSignedAndUnsigned => "Mixed signed and unsigned operands"@,
        SemanticErrorKind::MixedFloatAndInteger => "Mixed float and integer operands"@,
        SemanticErrorKind::CannotCompareType { .. } => "Cannot compare types"@,
        SemanticErrorKind::UndeclaredIdentifier(..) => "Undeclared identifier"@,
        SemanticErrorKind::ReturnKeywordOutsideFunction => "Keyword \"return\" used outside of a function scope"@,
        SemanticErrorKind::BreakKeywordOutsideLoop => "Keyword \"break\" used outside of a loop scope"@,
        SemanticErrorKind::ContinueKeywordOutsideLoop => "Keyword \"continue\" used outside of a loop scope"@,
        SemanticErrorKind::InvalidLValue => "Invalid assignment target"@,
        SemanticErrorKind::TypeMismatch { .. } => "Type mismatch"@,
        SemanticErrorKind::ReturnNotLastStatement => "Expected the return statement to be the last statement in the function"@,
        SemanticErrorKind::ReturnTypeMismatch { .. } => "Return type mismatch"@,
        SemanticErrorKind::UndeclaredType(..) => "Undeclared type"@,
        SemanticErrorKind::CannotAccess(..) => "Cannot access field"@,
        SemanticErrorKind::CannotCall(..) => "Cannot use the function call operator"@,
        SemanticErrorKind::CannotUseVariableDeclarationAsType => "Cannot use variable declaration as a type"@,
        SemanticErrorKind::VarDeclWithoutConstraintOrInitializer => "Variable declaration without a constraint or an initializer"@,
        SemanticErrorKind::AccessToUndefinedField(..) => "Access to an undefined field"@,
        SemanticErrorKind::FnArgumentCountMismatch { .. } => "Function argument count mismatch"@,
        SemanticErrorKind::TypeAliasMustBeDeclaredAtTopLevel => "Type aliases must be declared in the file scope"@,
        SemanticErrorKind::DuplicateStructFieldInitializer(..) => "Duplicate initializer for a struct field"@,
        SemanticErrorKind::UnknownStructFieldInitializer(..) => "Unknown field in the struct initializer"@,
        SemanticErrorKind::MissingStructFieldInitializers(..) => "Missing field initializers"@,
        SemanticErrorKind::DuplicateIdentifier(..) => "Duplicate identifier"@,
        SemanticErrorKind::IncompatibleBranchTypes { .. } => "Incompatible branch types"@,
        SemanticErrorKind::IfExpressionMissingElse => "`if` expression missing `else` block"@,
        SemanticErrorKind::TypeMismatchExpectedOneOf { .. } => "Type mismatch"@,
        SemanticErrorKind::CannotCastType { .. } => "Invalid type cast"@,
        SemanticErrorKind::CannotIndex(..) => "Cannot index type"@,
        SemanticErrorKind::CannotStaticAccess(..) => "Cannot perform static access"@,
        SemanticErrorKind::AccessToUndefinedStaticField(..) => "Undefined static field"@,
        SemanticErrorKind::CannotUseTypeDeclarationAsValue => "Expected value, found type"@,
        SemanticErrorKind::CannotDeclareGlobalVariable => "Global variables not allowed"@,
        SemanticErrorKind::UnreachableCode => "Unreachable code"@,
        SemanticErrorKind::FromStatementMustBeDeclaredAtTopLevel => "Invalid import location"@,
        SemanticErrorKind::ModuleNotFound(..) => "Module not found"@,
        SemanticErrorKind::CannotUseFunctionDeclarationAsType => "Expected type, found function"@,
    }
}

/// Whether every name that the report of `kind` mentions has an index below `n`.
pub open spec fn report_names_below(kind: SemanticErrorKind, n: nat) -> bool {
    match kind {
        SemanticErrorKind::CannotCompareType { of, to } => (names_below(of, n)) && (names_below(to, n)),
        SemanticErrorKind::UndeclaredIdentifier(id) => (id.name.0 < n),
        SemanticErrorKind::TypeMismatch { expected, received } => (names_below(expected, n)) && (names_below(received, n)),
        SemanticErrorKind::ReturnTypeMismatch { expected, received } => (names_below(expected, n)) && (names_below(received, n)),
        SemanticErrorKind::UndeclaredType(id) => (id.name.0 < n),
        SemanticErrorKind::CannotAccess(target) => (names_below(target, n)),
        SemanticErrorKind::CannotCall(target) => (names_below(target, n)),
        SemanticErrorKind::AccessToUndefinedField(id) => (id.name.0 < n),
        SemanticErrorKind::DuplicateStructFieldInitializer(id) => (id.name.0 < n),
        SemanticErrorKind::UnknownStructFieldInitializer(id) => (id.name.0 < n),
        SemanticErrorKind::MissingStructFieldInitializers(fields) => (forall|i: int| 0 <= i < fields@.len() ==> (#[trigger] fields@[i]).0 < n),
        SemanticErrorKind::DuplicateIdentifier(id) => (id.name.0 < n),
        SemanticErrorKind::IncompatibleBranchTypes { first, second } => (names_below(second, n)) && (names_below(first, n)),
        SemanticErrorKind::TypeMismatchExpectedOneOf { expected, received } => (forall|i: int| 0 <= i < expected@.len() ==> names_below(#[trigger] expected@[i], n)) && (names_below(received, n)),
        SemanticErrorKind::CannotCastType { source_type, target_type } => (names_below(source_type, n)) && (names_below(target_type, n)),
        SemanticErrorKind::CannotIndex(target) => (names_below(target, n)),
        SemanticErrorKind::CannotStaticAccess(target) => (names_below(target, n)),
        SemanticErrorKind::AccessToUndefinedStaticField(id) => (id.name.0 < n),
        _ => true,
    }
}

/// The text under the report of an error, at the place where it occurred;
/// `names` resolves identifiers. The types that an error expected one of are
/// listed quoted and in lexicographic order, as `sorted_order` describes.
pub open spec fn report_label(kind: SemanticErrorKind, names: Seq<Seq<char>>, sorted_order: Seq<Seq<char>>) -> Seq<char> {
    match kind {
        SemanticErrorKind::ExpectedANumericOperand => "Expected this value to have a numeric type"@,
        SemanticErrorKind::MixedSignedAndUnsigned => "Mixing signed and unsigned operands in an arithmetic operation is not allowed"@,
        SemanticErrorKind::MixedFloatAndInteger => "Mixing integer and floating-point numbers in an arithmetic operation is not allowed"@,
        SemanticErrorKind::CannotCompareType { of, to } => "Cannot compare type \""@ + type_text(of, names, false) + "\" to type \""@ + type_text(to, names, false) + "\""@,
        SemanticErrorKind::UndeclaredIdentifier(id) => "Undeclared identifier \""@ + names[id.name.0 as int] + "\""@,
        SemanticErrorKind::ReturnKeywordOutsideFunction => "Cannot use the \"return\" keyword outside of a function scope"@,
        SemanticErrorKind::BreakKeywordOutsideLoop => "Cannot use the \"break\" keyword outside of a loop scope"@,
        SemanticErrorKind::ContinueKeywordOutsideLoop => "Cannot use the \"continue\" keyword outside of a loop scope"@,
        SemanticErrorKind::InvalidLValue => "Invalid assignment target"@,
        SemanticErrorKind::TypeMismatch { expected, received } => "Type mismatch, expected \""@ + type_text(expected, names, false) + "\", instead found \""@ + type_text(received, names, false) + "\""@,
        SemanticErrorKind::ReturnNotLastStatement => "Expected the return statement to be the last statement in the function"@,
        SemanticErrorKind::ReturnTypeMismatch { expected, received } => "Expected the return value to be assignable to \""@ + type_text(expected, names, false) + "\", found \""@ + type_text(received, names, false) + "\""@,
        SemanticErrorKind::UndeclaredType(id) => "Undeclared type \""@ + names[id.name.0 as int] + "\""@,
        SemanticErrorKind::CannotAccess(target) => "Cannot use the access operator on the type \""@ + type_text(target, names, false) + "\""@,
        SemanticErrorKind::CannotCall(target) => "Cannot use the function-call operator on type \""@ + type_text(target, names, false) + "\""@,
        SemanticErrorKind::CannotUseVariableDeclarationAsType => "Cannot use variable declaration as a type"@,
        SemanticErrorKind::VarDeclWithoutConstraintOrInitializer => "A variable declaration needs a type constraint or an initial value"@,
        SemanticErrorKind::AccessToUndefinedField(id) => "Field \""@ + names[id.name.0 as int] + "\" is not defined"@,
        SemanticErrorKind::FnArgumentCountMismatch { expected, received } => "This function expects "@ + decimal(expected as nat) + " argument"@ + (if expected > 1 { "s"@ } else { Seq::<char>::empty() }) + ", but instead received "@ + decimal(received as nat),
        SemanticErrorKind::TypeAliasMustBeDeclaredAtTopLevel => "Type aliases must be declared in the file scope"@,
        SemanticErrorKind::DuplicateStructFieldInitializer(id) => "Struct field \""@ + names[id.name.0 as int] + "\" cannot be initialized multiple times"@,
        SemanticErrorKind::UnknownStructFieldInitializer(id) => "Unknown struct field \""@ + names[id.name.0 as int] + "\""@,
        SemanticErrorKind::MissingStructFieldInitializers(fields) => "Missing initializers for the following struct fields "@ + quoted_join(names_of(fields@, names)),
        SemanticErrorKind::DuplicateIdentifier(id) => "Duplicate identifier declaration \""@ + names[id.name.0 as int] + "\""@,
        SemanticErrorKind::IncompatibleBranchTypes { first, second } => "This branch returns \""@ + type_text(second, names, false) + "\", but the previous branch returned \""@ + type_text(first, names, false) + "\""@,
        SemanticErrorKind::IfExpressionMissingElse => "`if` expressions used as values must have an `else` block"@,
        SemanticErrorKind::TypeMismatchExpectedOneOf { expected, received } => "Expected one of "@ + joined(sorted_order) + ", but found \""@ + type_text(received, names, false) + "\""@,
        SemanticErrorKind::CannotCastType { source_type, target_type } => "Cannot cast type \""@ + type_text(source_type, names, false) + "\" to \""@ + type_text(target_type, names, false) + "\""@,
        SemanticErrorKind::CannotIndex(target) => "Type \""@ + type_text(target, names, false) + "\" cannot be indexed"@,
        SemanticErrorKind::CannotStaticAccess(target) => "Type \""@ + type_text(target, names, false) + "\" does not support static access via ::"@,
        SemanticErrorKind::AccessToUndefinedStaticField(id) => "Static field \""@ + names[id.name.0 as int] + "\" does not exist"@,
        SemanticErrorKind::CannotUseTypeDeclarationAsValue => "Cannot use a type declaration as a value"@,
        SemanticErrorKind::CannotDeclareGlobalVariable => "Variables cannot be declared at the file scope (top-level)"@,
        SemanticErrorKind::UnreachableCode => "This code will never be executed"@,
        SemanticErrorKind::FromStatementMustBeDeclaredAtTopLevel => "`from` statements must be declared at the top level of the file"@,
        SemanticErrorKind::ModuleNotFound(path) => "Could not find module at path \""@ + path@ + "\""@,
        SemanticErrorKind::CannotUseFunctionDeclarationAsType => "Cannot use a function declaration as a type"@,
    }
}

/// The order in which the report lists the types that an error expected one
/// of: their quoted texts, sorted.
pub open spec fn is_report_order(kind: SemanticErrorKind, names: Seq<Seq<char>>, order: Seq<Seq<char>>) -> bool {
    match kind {
        SemanticErrorKind::TypeMismatchExpectedOneOf { expected, .. } => sorted(order)
            && order.to_multiset() == type_texts(expected@, names).to_multiset(),
        _ => order.len() == 0,
    }
}

fn append_owned(out: &mut String, s: String)
    ensures
        final(out)@ == old(out)@ + s@,
{
    out.append(s.as_str());
}

/// Appends the items of `items`, each in double quotes, joined by `, `.
fn append_quoted_join(out: &mut String, items: &Vec<String>, start: usize)
    requires
        start <= items@.len(),
    ensures
        final(out)@ == old(out)@ + quoted_join(views(items@).subrange(start as int, items@.len() as int)),
    decreases items@.len() - start,
{
    let ghost rest = views(items@).subrange(start as int, items@.len() as int);
    if start == items.len() {
        assert(rest.len() == 0);
        assert(old(out)@ + quoted_join(rest) =~= old(out)@);
    } else {
        out.append("\"");
        out.append(items[start].as_str());
        assert(rest[0] == items@[start as int]@);
        assert(rest.drop_first() =~= views(items@).subrange(start + 1, items@.len() as int));
        if start + 1 == items.len() {
            out.append("\"");
            assert(old(out)@ + quoted_join(rest) =~= old(out)@ + "\""@ + rest[0] + "\""@);
        } else {
            out.append("\", ");
            let ghost mid = out@;
            append_quoted_join(out, items, start + 1);
            assert(old(out)@ + quoted_join(rest) =~= old(out)@ + "\""@ + rest[0] + "\", "@
                + quoted_join(rest.drop_first()));
        }
    }
}

/// Whether every id in `ids` has an index below `n`.
fn ids_below(ids: &Vec<StringId>, n: usize) -> (r: bool)
    ensures
        r == forall|i: int| 0 <= i < ids@.len() ==> (#[trigger] ids@[i]).0 < n,
{
    let mut i: usize = 0;
    while i < ids.len()
        invariant
            i <= ids@.len(),
            forall|j: int| 0 <= j < i ==> (#[trigger] ids@[j]).0 < n,
        decreases ids@.len() - i,
    {
        if ids[i].0 >= n {
            return false;
        }
        i = i + 1;
    }
    true
}

/// Whether every name in each of `types` has an index below `n`.
fn types_below(types: &Vec<Type>, n: usize) -> (r: bool)
    ensures
        r == forall|i: int| 0 <= i < types@.len() ==> names_below(#[trigger] types@[i], n as nat),
{
    let mut i: usize = 0;
    while i < types.len()
        invariant
            i <= types@.len(),
            forall|j: int| 0 <= j < i ==> names_below(#[trigger] types@[j], n as nat),
        decreases types@.len() - i,
    {
        if !has_names_below(&types[i], n) {
            return false;
        }
        i = i + 1;
    }
    true
}

/// Appends the items of `items` from `start` on, joined by `, `.
fn append_join(out: &mut String, items: &Vec<String>, start: usize)
    requires
        start <= items@.len(),
    ensures
        final(out)@ == old(out)@ + joined(views(items@).subrange(start as int, items@.len() as int)),
    decreases items@.len() - start,
{
    let ghost rest = views(items@).subrange(start as int, items@.len() as int);
    if start == items.len() {
        assert(rest.len() == 0);
        assert(old(out)@ + joined(rest) =~= old(out)@);
    } else {
        out.append(items[start].as_str());
        assert(rest[0] == items@[start as int]@);
        assert(rest.drop_first() =~= views(items@).subrange(start + 1, items@.len() as int));
        if start + 1 == items.len() {
            assert(old(out)@ + joined(rest) =~= old(out)@ + rest[0]);
        } else {
            out.append(", ");
            append_join(out, items, start + 1);
            assert(old(out)@ + joined(rest) =~= old(out)@ + rest[0] + ", "@ + joined(rest.drop_first()));
        }
    }
}

/// The names of `ids`, looked up in `string_interner`.
fn names_text(ids: &Vec<StringId>, string_interner: &Interner<String, StringId>) -> (r: Vec<String>)
    requires
        string_interner.wf(),
        forall|i: int| 0 <= i < ids@.len() ==> (#[trigger] ids@[i]).0 < string_interner.keys().len(),
    ensures
        views(r@) == names_of(ids@, string_interner.keys()),
{
    let mut out: Vec<String> = Vec::new();
    let mut i: usize = 0;
    while i < ids.len()
        invariant
            i <= ids@.len(),
            string_interner.wf(),
            forall|j: int| 0 <= j < ids@.len() ==> (#[trigger] ids@[j]).0 < string_interner.keys().len(),
            views(out@) == names_of(ids@.subrange(0, i as int), string_interner.keys()),
        decreases ids@.len() - i,
    {
        let s = identifier_to_string(ids[i], string_interner);
        let ghost prev = views(out@);
        out.push(s);
        assert(views(out@) =~= prev.push(s@));
        assert(names_of(ids@.subrange(0, i + 1), string_interner.keys()) =~= names_of(
            ids@.subrange(0, i as int),
            string_interner.keys(),
        ).push(string_interner.keys()[ids@[i as int].0 as int]));
        i = i + 1;
    }
    assert(ids@.subrange(0, ids@.len() as int) =~= ids@);
    out
}

/// The texts of `types`, written as in messages, each in double quotes.
fn types_texts(types: &Vec<Type>, string_interner: &Interner<String, StringId>) -> (r: Vec<String>)
    requires
        string_interner.wf(),
        forall|i: int| 0 <= i < types@.len() ==> names_below(#[trigger] types@[i], string_interner.keys().len()),
    ensures
        views(r@) == type_texts(types@, string_interner.keys()),
{
    let mut out: Vec<String> = Vec::new();
    let mut i: usize = 0;
    while i < types.len()
        invariant
            i <= types@.len(),
            string_interner.wf(),
            forall|j: int| 0 <= j < types@.len() ==> names_below(#[trigger] types@[j], string_interner.keys().len()),
            views(out@) == type_texts(types@.subrange(0, i as int), string_interner.keys()),
        decreases types@.len() - i,
    {
        let mut s = String::from_str("\"");
        append_owned(&mut s, type_to_string(&types[i], string_interner));
        s.append("\"");
        let ghost prev = views(out@);
        out.push(s);
        assert(views(out@) =~= prev.push(s@));
        assert(type_texts(types@.subrange(0, i + 1), string_interner.keys()) =~= type_texts(
            types@.subrange(0, i as int),
            string_interner.keys(),
        ).push("\""@ + type_text(types@[i as int], string_interner.keys(), false) + "\""@));
        i = i + 1;
    }
    assert(types@.subrange(0, types@.len() as int) =~= types@);
    out
}

impl SemanticErrorKind {
    /// The code under which the error is reported.
    pub fn report_code(&self) -> (r: String)
        ensures
            r@ == report_code(*self),
    {
        let mut out = String::from_str("S");
        push_decimal(&mut out, self.code());
        out
    }

    /// The headline of the report of the error.
    pub fn report_title(&self) -> (r: &'static str)
        ensures
            r@ == report_title(*self),
    {
        match self {
            SemanticErrorKind::ExpectedANumericOperand => "Expected a numeric operand",
            SemanticErrorKind::MixedSignedAndUnsigned => "Mixed signed and unsigned operands",
            SemanticErrorKind::MixedFloatAndInteger => "Mixed float and integer operands",
            SemanticErrorKind::CannotCompareType { .. } => "Cannot compare types",
            SemanticErrorKind::UndeclaredIdentifier(..) => "Undeclared identifier",
            SemanticErrorKind::ReturnKeywordOutsideFunction => "Keyword \"return\" used outside of a function scope",
            SemanticErrorKind::BreakKeywordOutsideLoop => "Keyword \"break\" used outside of a loop scope",
            SemanticErrorKind::ContinueKeywordOutsideLoop => "Keyword \"continue\" used outside of a loop scope",
            SemanticErrorKind::InvalidLValue => "Invalid assignment target",
            SemanticErrorKind::TypeMismatch { .. } => "Type mismatch",
            SemanticErrorKind::ReturnNotLastStatement => "Expected the return statement to be the last statement in the function",
            SemanticErrorKind::ReturnTypeMismatch { .. } => "Return type mismatch",
            SemanticErrorKind::UndeclaredType(..) => "Undeclared type",
            SemanticErrorKind::CannotAccess(..) => "Cannot access field",
            SemanticErrorKind::CannotCall(..) => "Cannot use the function call operator",
            SemanticErrorKind::CannotUseVariableDeclarationAsType => "Cannot use variable declaration as a type",
            SemanticErrorKind::VarDeclWithoutConstraintOrInitializer => "Variable declaration without a constraint or an initializer",
            SemanticErrorKind::AccessToUndefinedField(..) => "Access to an undefined field",
            SemanticErrorKind::FnArgumentCountMismatch { .. } => "Function argument count mismatch",
            SemanticErrorKind::TypeAliasMustBeDeclaredAtTopLevel => "Type aliases must be declared in the file scope",
            SemanticErrorKind::DuplicateStructFieldInitializer(..) => "Duplicate initializer for a struct field",
            SemanticErrorKind::UnknownStructFieldInitializer(..) => "Unknown field in the struct initializer",
            SemanticErrorKind::MissingStructFieldInitializers(..) => "Missing field initializers",
            SemanticErrorKind::DuplicateIdentifier(..) => "Duplicate identifier",
            SemanticErrorKind::IncompatibleBranchTypes { .. } => "Incompatible branch types",
            SemanticErrorKind::IfExpressionMissingElse => "`if` expression missing `else` block",
            SemanticErrorKind::TypeMismatchExpectedOneOf { .. } => "Type mismatch",
            SemanticErrorKind::CannotCastType { .. } => "Invalid type cast",
            SemanticErrorKind::CannotIndex(..) => "Cannot index type",
            SemanticErrorKind::CannotStaticAccess(..) => "Cannot perform static access",
            SemanticErrorKind::AccessToUndefinedStaticField(..) => "Undefined static field",
            SemanticErrorKind::CannotUseTypeDeclarationAsValue => "Expected value, found type",
            SemanticErrorKind::CannotDeclareGlobalVariable => "Global variables not allowed",
            SemanticErrorKind::UnreachableCode => "Unreachable code",
            SemanticErrorKind::FromStatementMustBeDeclaredAtTopLevel => "Invalid import location",
            SemanticErrorKind::ModuleNotFound(..) => "Module not found",
            SemanticErrorKind::CannotUseFunctionDeclarationAsType => "Expected type, found function",
        }
    }

    /// The text under the report of the error, at the place where it
    /// occurred.
    pub fn report_label(&self, string_interner: &Interner<String, StringId>) -> (r: String)
        requires
            string_interner.wf(),
            report_names_below(*self, string_interner.keys().len()),
        ensures
            exists|order: Seq<Seq<char>>| is_report_order(*self, string_interner.keys(), order)
                && r@ == report_label(*self, string_interner.keys(), order),
    {
        let ghost names = string_interner.keys();
        match self {
            SemanticErrorKind::ExpectedANumericOperand => {
                let mut out = String::from_str("Expected this value to have a numeric type");
                assert(is_report_order(*self, names, Seq::empty()));
                out
            },
            SemanticErrorKind::MixedSignedAndUnsigned => {
                let mut out = String::from_str("Mixing signed and unsigned operands in an arithmetic operation is not allowed");
                assert(is_report_order(*self, names, Seq::empty()));
                out
            },
            SemanticErrorKind::MixedFloatAndInteger => {
                let mut out = String::from_str("Mixing integer and floating-point numbers in an arithmetic operation is not allowed");
                assert(is_report_order(*self, names, Seq::empty()));
                out
            },
            SemanticErrorKind::CannotCompareType { of, to } => {
                let mut out = String::from_str("Cannot compare type \"");
                append_owned(&mut out, type_to_string(of, string_interner));
                out.append("\" to type \"");
                append_owned(&mut out, type_to_string(to, string_interner));
                out.append("\"");
                assert(is_report_order(*self, names, Seq::empty()));
                out
            },
            SemanticErrorKind::UndeclaredIdentifier(id) => {
                let mut out = String::from_str("Undeclared identifier \"");
                append_owned(&mut out, identifier_to_string(id.name, string_interner));
                out.append("\"");
                assert(is_report_order(*self, names, Seq::empty()));
                out
            },
            SemanticErrorKind::ReturnKeywordOutsideFunction => {
                let mut out = String::from_str("Cannot use the \"return\" keyword outside of a function scope");
                assert(is_report_order(*self, names, Seq::empty()));
                out
            },
            SemanticErrorKind::BreakKeywordOutsideLoop => {
                let mut out = String::from_str("Cannot use the \"break\" keyword outside of a loop scope");
                assert(is_report_order(*self, names, Seq::empty()));
                out
            },
            SemanticErrorKind::ContinueKeywordOutsideLoop => {
                let mut out = String::from_str("Cannot use the \"continue\" keyword outside of a loop scope");
                assert(is_report_order(*self, names, Seq::empty()));
                out
            },
            SemanticErrorKind::InvalidLValue => {
                let mut out = String::from_str("Invalid assignment target");
                assert(is_report_order(*self, names, Seq::empty()));
                out
            },
            SemanticErrorKind::TypeMismatch { expected, received } => {
                let mut out = String::from_str("Type mismatch, expected \"");
                append_owned(&mut out, type_to_string(expected, string_interner));
                out.append("\", instead found \"");
                append_owned(&mut out, type_to_string(received, string_interner));
                out.append("\"");
                assert(is_report_order(*self, names, Seq::empty()));
                out
            },
            SemanticErrorKind::ReturnNotLastStatement => {
                let mut out = String::from_str("Expected the return statement to be the last statement in the function");
                assert(is_report_order(*self, names, Seq::empty()));
                out
            },
            SemanticErrorKind::ReturnTypeMismatch { expected, received } => {
                let mut out = String::from_str("Expected the return value to be assignable to \"");
                append_owned(&mut out, type_to_string(expected, string_interner));
                out.append("\", found \"");
                append_owned(&mut out, type_to_string(received, string_interner));
                out.append("\"");
                assert(is_report_order(*self, names, Seq::empty()));
                out
            },
            SemanticErrorKind::UndeclaredType(id) => {
                let mut out = String::from_str("Undeclared type \"");
                append_owned(&mut out, identifier_to_string(id.name, string_interner));
                out.append("\"");
                assert(is_report_order(*self, names, Seq::empty()));
                out
            },
            SemanticErrorKind::CannotAccess(target) => {
                let mut out = String::from_str("Cannot use the access operator on the type \"");
                append_owned(&mut out, type_to_string(target, string_interner));
                out.append("\"");
                assert(is_report_order(*self, names, Seq::empty()));
                out
            },
            SemanticErrorKind::CannotCall(target) => {
                let mut out = String::from_str("Cannot use the function-call operator on type \"");
                append_owned(&mut out, type_to_string(target, string_interner));
                out.append("\"");
                assert(is_report_order(*self, names, Seq::empty()));
                out
            },
            SemanticErrorKind::CannotUseVariableDeclarationAsType => {
                let mut out = String::from_str("Cannot use variable declaration as a type");
                assert(is_report_order(*self, names, Seq::empty()));
                out
            },
            SemanticErrorKind::VarDeclWithoutConstraintOrInitializer => {
                let mut out = String::from_str("A variable declaration needs a type constraint or an initial value");
                assert(is_report_order(*self, names, Seq::empty()));
                out
            },
            SemanticErrorKind::AccessToUndefinedField(id) => {
                let mut out = String::from_str("Field \"");
                append_owned(&mut out, identifier_to_string(id.name, string_interner));
                out.append("\" is not defined");
                assert(is_report_order(*self, names, Seq::empty()));
                out
            },
            SemanticErrorKind::FnArgumentCountMismatch { expected, received } => {
                let mut out = String::from_str("This function expects ");
                push_decimal(&mut out, *expected);
                out.append(" argument");
                if *expected > 1 {
                    out.append("s");
                }
                out.append(", but instead received ");
                push_decimal(&mut out, *received);
                assert(is_report_order(*self, names, Seq::empty()));
                out
            },
            SemanticErrorKind::TypeAliasMustBeDeclaredAtTopLevel => {
                let mut out = String::from_str("Type aliases must be declared in the file scope");
                assert(is_report_order(*self, names, Seq::empty()));
                out
            },
            SemanticErrorKind::DuplicateStructFieldInitializer(id) => {
                let mut out = String::from_str("Struct field \"");
                append_owned(&mut out, identifier_to_string(id.name, string_interner));
                out.append("\" cannot be initialized multiple times");
                assert(is_report_order(*self, names, Seq::empty()));
                out
            },
            SemanticErrorKind::UnknownStructFieldInitializer(id) => {
                let mut out = String::from_str("Unknown struct field \"");
                append_owned(&mut out, identifier_to_string(id.name, string_interner));
                out.append("\"");
                assert(is_report_order(*self, names, Seq::empty()));
                out
            },
            SemanticErrorKind::MissingStructFieldInitializers(fields) => {
                let mut out = String::from_str("Missing initializers for the following struct fields ");
                let listed = names_text(fields, string_interner);
                append_quoted_join(&mut out, &listed, 0);
                assert(views(listed@).subrange(0, listed@.len() as int) =~= views(listed@));
                assert(is_report_order(*self, names, Seq::empty()));
                out
            },
            SemanticErrorKind::DuplicateIdentifier(id) => {
                let mut out = String::from_str("Duplicate identifier declaration \"");
                append_owned(&mut out, identifier_to_string(id.name, string_interner));
                out.append("\"");
                assert(is_report_order(*self, names, Seq::empty()));
                out
            },
            SemanticErrorKind::IncompatibleBranchTypes { first, second } => {
                let mut out = String::from_str("This branch returns \"");
                append_owned(&mut out, type_to_string(second, string_interner));
                out.append("\", but the previous branch returned \"");
                append_owned(&mut out, type_to_string(first, string_interner));
                out.append("\"");
                assert(is_report_order(*self, names, Seq::empty()));
                out
            },
            SemanticErrorKind::IfExpressionMissingElse => {
                let mut out = String::from_str("`if` expressions used as values must have an `else` block");
                assert(is_report_order(*self, names, Seq::empty()));
                out
            },
            SemanticErrorKind::TypeMismatchExpectedOneOf { expected, received } => {
                let mut out = String::from_str("Expected one of ");
                let texts = types_texts(expected, string_interner);
                let ordered = sort_texts(texts);
                append_join(&mut out, &ordered, 0);
                assert(views(ordered@).subrange(0, ordered@.len() as int) =~= views(ordered@));
                out.append(", but found \"");
                append_owned(&mut out, type_to_string(received, string_interner));
                out.append("\"");
                assert(is_report_order(*self, names, views(ordered@)));
                out
            },
            SemanticErrorKind::CannotCastType { source_type, target_type } => {
                let mut out = String::from_str("Cannot cast type \"");
                append_owned(&mut out, type_to_string(source_type, string_interner));
                out.append("\" to \"");
                append_owned(&mut out, type_to_string(target_type, string_interner));
                out.append("\"");
                assert(is_report_order(*self, names, Seq::empty()));
                out
            },
            SemanticErrorKind::CannotIndex(target) => {
                let mut out = String::from_str("Type \"");
                append_owned(&mut out, type_to_string(target, string_interner));
                out.append("\" cannot be indexed");
                assert(is_report_order(*self, names, Seq::empty()));
                out
            },
            SemanticErrorKind::CannotStaticAccess(target) => {
                let mut out = String::from_str("Type \"");
                append_owned(&mut out, type_to_string(target, string_interner));
                out.append("\" does not support static access via ::");
                assert(is_report_order(*self, names, Seq::empty()));
                out
            },
            SemanticErrorKind::AccessToUndefinedStaticField(id) => {
                let mut out = String::from_str("Static field \"");
                append_owned(&mut out, identifier_to_string(id.name, string_interner));
                out.append("\" does not exist");
                assert(is_report_order(*self, names, Seq::empty()));
                out
            },
            SemanticErrorKind::CannotUseTypeDeclarationAsValue => {
                let mut out = String::from_str("Cannot use a type declaration as a value");
                assert(is_report_order(*self, names, Seq::empty()));
                out
            },
            SemanticErrorKind::CannotDeclareGlobalVariable => {
                let mut out = String::from_str("Variables cannot be declared at the file scope (top-level)");
                assert(is_report_order(*self, names, Seq::empty()));
                out
            },
            SemanticErrorKind::UnreachableCode => {
                let mut out = String::from_str("This code will never be executed");
                assert(is_report_order(*self, names, Seq::empty()));
                out
            },
            SemanticErrorKind::FromStatementMustBeDeclaredAtTopLevel => {
                let mut out = String::from_str("`from` statements must be declared at the top level of the file");
                assert(is_report_order(*self, names, Seq::empty()));
                out
            },
            SemanticErrorKind::ModuleNotFound(path) => {
                let mut out = String::from_str("Could not find module at path \"");
                out.append(path.as_str());
                out.append("\"");
                assert(is_report_order(*self, names, Seq::empty()));
                out
            },
            SemanticErrorKind::CannotUseFunctionDeclarationAsType => {
                let mut out = String::from_str("Cannot use a function declaration as a type");
                assert(is_report_order(*self, names, Seq::empty()));
                out
            },
        }
    }

    /// Whether every name that the report mentions has an index below `n`.
    pub fn report_names_known(&self, n: usize) -> (r: bool)
        ensures
            r == report_names_below(*self, n as nat),
    {
        match self {
            SemanticErrorKind::CannotCompareType { of, to } => has_names_below(of, n) && has_names_below(to, n),
            SemanticErrorKind::UndeclaredIdentifier(id) => id.name.0 < n,
            SemanticErrorKind::TypeMismatch { expected, received } => has_names_below(expected, n) && has_names_below(received, n),
            SemanticErrorKind::ReturnTypeMismatch { expected, received } => has_names_below(expected, n) && has_names_below(received, n),
            SemanticErrorKind::UndeclaredType(id) => id.name.0 < n,
            SemanticErrorKind::CannotAccess(target) => has_names_below(target, n),
            SemanticErrorKind::CannotCall(target) => has_names_below(target, n),
            SemanticErrorKind::AccessToUndefinedField(id) => id.name.0 < n,
            SemanticErrorKind::DuplicateStructFieldInitializer(id) => id.name.0 < n,
            SemanticErrorKind::UnknownStructFieldInitializer(id) => id.name.0 < n,
            SemanticErrorKind::MissingStructFieldInitializers(fields) => ids_below(fields, n),
            SemanticErrorKind::DuplicateIdentifier(id) => id.name.0 < n,
            SemanticErrorKind::IncompatibleBranchTypes { first, second } => has_names_below(second, n) && has_names_below(first, n),
            SemanticErrorKind::TypeMismatchExpectedOneOf { expected, received } => types_below(expected, n) && has_names_below(received, n),
            SemanticErrorKind::CannotCastType { source_type, target_type } => has_names_below(source_type, n) && has_names_below(target_type, n),
            SemanticErrorKind::CannotIndex(target) => has_names_below(target, n),
            SemanticErrorKind::CannotStaticAccess(target) => has_names_below(target, n),
            SemanticErrorKind::AccessToUndefinedStaticField(id) => id.name.0 < n,
            _ => true,
        }
    }

    /// The text under the report of the error, where every name it mentions
    /// is known to `string_interner`; nothing otherwise.
    pub fn report_label_checked(&self, string_interner: &Interner<String, StringId>) -> (r: Option<
        String,
    >)
        requires
            string_interner.wf(),
        ensures
            r is None <==> !report_names_below(*self, string_interner.keys().len()),
            r matches Some(text) ==> exists|order: Seq<Seq<char>>|
                is_report_order(*self, string_interner.keys(), order) && text@ == report_label(
                    *self,
                    string_interner.keys(),
                    order,
                ),
    {
        if self.report_names_known(string_interner.len()) {
            Some(self.report_label(string_interner))
        } else {
            None
        }
    }
}

} // verus!

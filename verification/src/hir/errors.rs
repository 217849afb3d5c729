use vstd::prelude::*;

use crate::interner::StringId;
use crate::span::{IdentifierNode, Span};
use crate::types::checked_type::Type;

verus! {

/// What went wrong while lowering a module.
#[allow(inconsistent_fields)]
pub enum SemanticErrorKind {
    ExpectedANumericOperand,
    MixedSignedAndUnsigned,
    MixedFloatAndInteger,
    CannotCompareType { of: Type, to: Type },
    UndeclaredIdentifier(IdentifierNode),
    ReturnKeywordOutsideFunction,
    BreakKeywordOutsideLoop,
    ContinueKeywordOutsideLoop,
    InvalidLValue,
    TypeMismatch { expected: Type, received: Type },
    ReturnNotLastStatement,
    ReturnTypeMismatch { expected: Type, received: Type },
    UndeclaredType(IdentifierNode),
    CannotAccess(Type),
    CannotCall(Type),
    CannotUseVariableDeclarationAsType,
    VarDeclWithoutConstraintOrInitializer,
    AccessToUndefinedField(IdentifierNode),
    FnArgumentCountMismatch { expected: usize, received: usize },
    TypeAliasMustBeDeclaredAtTopLevel,
    DuplicateStructFieldInitializer(IdentifierNode),
    UnknownStructFieldInitializer(IdentifierNode),
    MissingStructFieldInitializers(Vec<StringId>),
    DuplicateIdentifier(IdentifierNode),
    IncompatibleBranchTypes { first: Type, second: Type },
    IfExpressionMissingElse,
    TypeMismatchExpectedOneOf { expected: Vec<Type>, received: Type },
    CannotCastType { source_type: Type, target_type: Type },
    CannotIndex(Type),
    CannotStaticAccess(Type),
    AccessToUndefinedStaticField(IdentifierNode),
    CannotUseTypeDeclarationAsValue,
    CannotDeclareGlobalVariable,
    UnreachableCode,
    FromStatementMustBeDeclaredAtTopLevel,
    ModuleNotFound(String),
    CannotUseFunctionDeclarationAsType,
}

/// An error found while lowering a module, and where.
pub struct SemanticError {
    pub kind: SemanticErrorKind,
    pub span: Span,
}

/// The number by which each kind of error is known.
pub open spec fn spec_code(kind: SemanticErrorKind) -> usize {
    match kind {
        SemanticErrorKind::ExpectedANumericOperand => 1,
        SemanticErrorKind::MixedSignedAndUnsigned => 2,
        SemanticErrorKind::MixedFloatAndInteger => 3,
        SemanticErrorKind::CannotCompareType { .. } => 4,
        SemanticErrorKind::UndeclaredIdentifier(..) => 5,
        SemanticErrorKind::ReturnKeywordOutsideFunction => 6,
        SemanticErrorKind::BreakKeywordOutsideLoop => 7,
        SemanticErrorKind::ContinueKeywordOutsideLoop => 8,
        SemanticErrorKind::InvalidLValue => 9,
        SemanticErrorKind::TypeMismatch { .. } => 10,
        SemanticErrorKind::ReturnNotLastStatement => 11,
        SemanticErrorKind::ReturnTypeMismatch { .. } => 12,
        SemanticErrorKind::UndeclaredType(..) => 13,
        SemanticErrorKind::CannotAccess(..) => 14,
        SemanticErrorKind::CannotCall(..) => 15,
        SemanticErrorKind::CannotUseVariableDeclarationAsType => 16,
        SemanticErrorKind::VarDeclWithoutConstraintOrInitializer => 17,
        SemanticErrorKind::AccessToUndefinedField(..) => 18,
        SemanticErrorKind::FnArgumentCountMismatch { .. } => 19,
        SemanticErrorKind::TypeAliasMustBeDeclaredAtTopLevel => 20,
        SemanticErrorKind::DuplicateStructFieldInitializer(..) => 21,
        SemanticErrorKind::UnknownStructFieldInitializer(..) => 22,
        SemanticErrorKind::MissingStructFieldInitializers(..) => 23,
        SemanticErrorKind::DuplicateIdentifier(..) => 24,
        SemanticErrorKind::IncompatibleBranchTypes { .. } => 25,
        SemanticErrorKind::IfExpressionMissingElse => 26,
        SemanticErrorKind::TypeMismatchExpectedOneOf { .. } => 27,
        SemanticErrorKind::CannotCastType { .. } => 28,
        SemanticErrorKind::CannotIndex(..) => 29,
        SemanticErrorKind::CannotStaticAccess(..) => 30,
        SemanticErrorKind::AccessToUndefinedStaticField(..) => 31,
        SemanticErrorKind::CannotUseTypeDeclarationAsValue => 32,
        SemanticErrorKind::CannotDeclareGlobalVariable => 33,
        SemanticErrorKind::UnreachableCode => 34,
        SemanticErrorKind::FromStatementMustBeDeclaredAtTopLevel => 35,
        SemanticErrorKind::ModuleNotFound(..) => 36,
        SemanticErrorKind::CannotUseFunctionDeclarationAsType => 37,
    }
}

/// Whether two errors are of the same kind.
pub open spec fn same_kind(a: SemanticErrorKind, b: SemanticErrorKind) -> bool {
    match (a, b) {
        (SemanticErrorKind::ExpectedANumericOperand, SemanticErrorKind::ExpectedANumericOperand) => true,
        (SemanticErrorKind::MixedSignedAndUnsigned, SemanticErrorKind::MixedSignedAndUnsigned) => true,
        (SemanticErrorKind::MixedFloatAndInteger, SemanticErrorKind::MixedFloatAndInteger) => true,
        (SemanticErrorKind::CannotCompareType { .. }, SemanticErrorKind::CannotCompareType { .. }) => true,
        (SemanticErrorKind::UndeclaredIdentifier(..), SemanticErrorKind::UndeclaredIdentifier(..)) => true,
        (SemanticErrorKind::ReturnKeywordOutsideFunction, SemanticErrorKind::ReturnKeywordOutsideFunction) => true,
        (SemanticErrorKind::BreakKeywordOutsideLoop, SemanticErrorKind::BreakKeywordOutsideLoop) => true,
        (SemanticErrorKind::ContinueKeywordOutsideLoop, SemanticErrorKind::ContinueKeywordOutsideLoop) => true,
        (SemanticErrorKind::InvalidLValue, SemanticErrorKind::InvalidLValue) => true,
        (SemanticErrorKind::TypeMismatch { .. }, SemanticErrorKind::TypeMismatch { .. }) => true,
        (SemanticErrorKind::ReturnNotLastStatement, SemanticErrorKind::ReturnNotLastStatement) => true,
        (SemanticErrorKind::ReturnTypeMismatch { .. }, SemanticErrorKind::ReturnTypeMismatch { .. }) => true,
        (SemanticErrorKind::UndeclaredType(..), SemanticErrorKind::UndeclaredType(..)) => true,
        (SemanticErrorKind::CannotAccess(..), SemanticErrorKind::CannotAccess(..)) => true,
        (SemanticErrorKind::CannotCall(..), SemanticErrorKind::CannotCall(..)) => true,
        (SemanticErrorKind::CannotUseVariableDeclarationAsType, SemanticErrorKind::CannotUseVariableDeclarationAsType) => true,
        (SemanticErrorKind::VarDeclWithoutConstraintOrInitializer, SemanticErrorKind::VarDeclWithoutConstraintOrInitializer) => true,
        (SemanticErrorKind::AccessToUndefinedField(..), SemanticErrorKind::AccessToUndefinedField(..)) => true,
        (SemanticErrorKind::FnArgumentCountMismatch { .. }, SemanticErrorKind::FnArgumentCountMismatch { .. }) => true,
        (SemanticErrorKind::TypeAliasMustBeDeclaredAtTopLevel, SemanticErrorKind::TypeAliasMustBeDeclaredAtTopLevel) => true,
        (SemanticErrorKind::DuplicateStructFieldInitializer(..), SemanticErrorKind::DuplicateStructFieldInitializer(..)) => true,
        (SemanticErrorKind::UnknownStructFieldInitializer(..), SemanticErrorKind::UnknownStructFieldInitializer(..)) => true,
        (SemanticErrorKind::MissingStructFieldInitializers(..), SemanticErrorKind::MissingStructFieldInitializers(..)) => true,
        (SemanticErrorKind::DuplicateIdentifier(..), SemanticErrorKind::DuplicateIdentifier(..)) => true,
        (SemanticErrorKind::IncompatibleBranchTypes { .. }, SemanticErrorKind::IncompatibleBranchTypes { .. }) => true,
        (SemanticErrorKind::IfExpressionMissingElse, SemanticErrorKind::IfExpressionMissingElse) => true,
        (SemanticErrorKind::TypeMismatchExpectedOneOf { .. }, SemanticErrorKind::TypeMismatchExpectedOneOf { .. }) => true,
        (SemanticErrorKind::CannotCastType { .. }, SemanticErrorKind::CannotCastType { .. }) => true,
        (SemanticErrorKind::CannotIndex(..), SemanticErrorKind::CannotIndex(..)) => true,
        (SemanticErrorKind::CannotStaticAccess(..), SemanticErrorKind::CannotStaticAccess(..)) => true,
        (SemanticErrorKind::AccessToUndefinedStaticField(..), SemanticErrorKind::AccessToUndefinedStaticField(..)) => true,
        (SemanticErrorKind::CannotUseTypeDeclarationAsValue, SemanticErrorKind::CannotUseTypeDeclarationAsValue) => true,
        (SemanticErrorKind::CannotDeclareGlobalVariable, SemanticErrorKind::CannotDeclareGlobalVariable) => true,
        (SemanticErrorKind::UnreachableCode, SemanticErrorKind::UnreachableCode) => true,
        (SemanticErrorKind::FromStatementMustBeDeclaredAtTopLevel, SemanticErrorKind::FromStatementMustBeDeclaredAtTopLevel) => true,
        (SemanticErrorKind::ModuleNotFound(..), SemanticErrorKind::ModuleNotFound(..)) => true,
        (SemanticErrorKind::CannotUseFunctionDeclarationAsType, SemanticErrorKind::CannotUseFunctionDeclarationAsType) => true,
        _ => false,
    }
}

impl SemanticErrorKind {
    /// The number by which this kind of error is known.
    pub fn code(&self) -> (r: usize)
        ensures
            r == spec_code(*self),
    {
        match self {
            SemanticErrorKind::ExpectedANumericOperand => 1,
            SemanticErrorKind::MixedSignedAndUnsigned => 2,
            SemanticErrorKind::MixedFloatAndInteger => 3,
            SemanticErrorKind::CannotCompareType { .. } => 4,
            SemanticErrorKind::UndeclaredIdentifier(..) => 5,
            SemanticErrorKind::ReturnKeywordOutsideFunction => 6,
            SemanticErrorKind::BreakKeywordOutsideLoop => 7,
            SemanticErrorKind::ContinueKeywordOutsideLoop => 8,
            SemanticErrorKind::InvalidLValue => 9,
            SemanticErrorKind::TypeMismatch { .. } => 10,
            SemanticErrorKind::ReturnNotLastStatement => 11,
            SemanticErrorKind::ReturnTypeMismatch { .. } => 12,
            SemanticErrorKind::UndeclaredType(..) => 13,
            SemanticErrorKind::CannotAccess(..) => 14,
            SemanticErrorKind::CannotCall(..) => 15,
            SemanticErrorKind::CannotUseVariableDeclarationAsType => 16,
            SemanticErrorKind::VarDeclWithoutConstraintOrInitializer => 17,
            SemanticErrorKind::AccessToUndefinedField(..) => 18,
            SemanticErrorKind::FnArgumentCountMismatch { .. } => 19,
            SemanticErrorKind::TypeAliasMustBeDeclaredAtTopLevel => 20,
            SemanticErrorKind::DuplicateStructFieldInitializer(..) => 21,
            SemanticErrorKind::UnknownStructFieldInitializer(..) => 22,
            SemanticErrorKind::MissingStructFieldInitializers(..) => 23,
            SemanticErrorKind::DuplicateIdentifier(..) => 24,
            SemanticErrorKind::IncompatibleBranchTypes { .. } => 25,
            SemanticErrorKind::IfExpressionMissingElse => 26,
            SemanticErrorKind::TypeMismatchExpectedOneOf { .. } => 27,
            SemanticErrorKind::CannotCastType { .. } => 28,
            SemanticErrorKind::CannotIndex(..) => 29,
            SemanticErrorKind::CannotStaticAccess(..) => 30,
            SemanticErrorKind::AccessToUndefinedStaticField(..) => 31,
            SemanticErrorKind::CannotUseTypeDeclarationAsValue => 32,
            SemanticErrorKind::CannotDeclareGlobalVariable => 33,
            SemanticErrorKind::UnreachableCode => 34,
            SemanticErrorKind::FromStatementMustBeDeclaredAtTopLevel => 35,
            SemanticErrorKind::ModuleNotFound(..) => 36,
            SemanticErrorKind::CannotUseFunctionDeclarationAsType => 37,
        }
    }
}

/// Error codes run from 1 to 37, and two errors have the same code exactly
/// when they are of the same kind.
pub proof fn lemma_codes_identify_kinds(a: SemanticErrorKind, b: SemanticErrorKind)
    ensures
        1 <= spec_code(a) <= 37,
        spec_code(a) == spec_code(b) <==> same_kind(a, b),
{
}

} // verus!

use vstd::prelude::*;

use crate::interner::StringId;
use crate::number::NumberKind;
use crate::span::{IdentifierNode, Span};
use crate::types::checked_type::{CheckedGenericParam, Type};

verus! {

/// The errors that the semantic checker reports.
pub enum CheckError {
    ExpectedANumericOperand { span: Span },
    MixedFloatAndInteger { span: Span },
    MixedSignedAndUnsigned { span: Span },
    DuplicateIdentifier { id: IdentifierNode },
    TypeMismatch { expected: Type, received: Type, span: Span },
    ReturnNotLastStatement { span: Span },
    ExpectedTypeArguments { span: Span },
    GenericArgumentCountMismatch { expected_count: usize, received_count: usize, span: Span },
    CannotApplyTypeArguments { to: Type, span: Span },
    CannotUseVariableDeclarationAsType { span: Span },
    UndeclaredType { id: IdentifierNode },
    InvalidArraySizeValue { span: Span, value: NumberKind },
    UnresolvedGenericParam { param: IdentifierNode, span: Span },
    IncompatibleGenericParamSubstitution {
        generic_param: CheckedGenericParam,
        arg_type: Type,
        is_inferred: bool,
    },
    ConflictingGenericBinding { generic_param: CheckedGenericParam, existing: Type, new: Type },
}

} // verus!

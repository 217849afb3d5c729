use vstd::prelude::*;

use crate::types::checked_type::{CheckedGenericParam, CheckedParam, TagType, Type};
use crate::types::list::List;

verus! {

/// Decides whether two types are the same type.
pub fn same_type(a: &Type, b: &Type) -> (r: bool)
    ensures
        r == (*a == *b),
    decreases a,
{
    match (a, b) {
        (Type::I8, Type::I8) => true,
        (Type::I16, Type::I16) => true,
        (Type::I32, Type::I32) => true,
        (Type::I64, Type::I64) => true,
        (Type::ISize, Type::ISize) => true,
        (Type::U8, Type::U8) => true,
        (Type::U16, Type::U16) => true,
        (Type::U32, Type::U32) => true,
        (Type::U64, Type::U64) => true,
        (Type::USize, Type::USize) => true,
        (Type::F32, Type::F32) => true,
        (Type::F64, Type::F64) => true,
        (Type::Bool, Type::Bool) => true,
        (Type::Char, Type::Char) => true,
        (Type::Void, Type::Void) => true,
        (Type::Null, Type::Null) => true,
        (Type::Unknown, Type::Unknown) => true,
        (Type::String, Type::String) => true,
        (Type::Union(x), Type::Union(y)) => same_type_list(x, y),
        (Type::GenericParam(x), Type::GenericParam(y)) => same_generic_param(x, y),
        (Type::FnType(x), Type::FnType(y)) => {
            same_param_list(&x.params, &y.params) && same_type(&x.return_type, &y.return_type)
                && same_generic_param_list(&x.generic_params, &y.generic_params)
                && same_type_list(&x.applied_type_args, &y.applied_type_args)
        },
        (Type::Struct(x), Type::Struct(y)) => same_param_list(x, y),
        (Type::TypeAliasDecl(x), Type::TypeAliasDecl(y)) => {
            x.name == y.name && same_generic_param_list(&x.generic_params, &y.generic_params)
                && same_type(&x.value, &y.value) && same_type_list(
                &x.applied_type_args,
                &y.applied_type_args,
            )
        },
        (Type::Array { item_type: xi, size: xs }, Type::Array { item_type: yi, size: ys }) => {
            *xs == *ys && same_type(xi, yi)
        },
        (
            Type::Pointer { constraint: xc, narrowed_to: xn },
            Type::Pointer { constraint: yc, narrowed_to: yn },
        ) => same_type(xc, yc) && same_type(xn, yn),
        (Type::List(x), Type::List(y)) => same_type(x, y),
        (Type::Tag(x), Type::Tag(y)) => same_tag(x, y),
        (Type::TagUnion(x), Type::TagUnion(y)) => same_tag_list(x, y),
        _ => false,
    }
}

/// Decides whether two optional types are the same.
pub fn same_optional_type(a: &Option<Box<Type>>, b: &Option<Box<Type>>) -> (r: bool)
    ensures
        r == (*a == *b),
    decreases a,
{
    match (a, b) {
        (None, None) => true,
        (Some(x), Some(y)) => same_type(x, y),
        _ => false,
    }
}

pub fn same_generic_param(a: &CheckedGenericParam, b: &CheckedGenericParam) -> (r: bool)
    ensures
        r == (*a == *b),
    decreases a,
{
    a.identifier == b.identifier && same_optional_type(&a.constraint, &b.constraint)
}

pub fn same_tag(a: &TagType, b: &TagType) -> (r: bool)
    ensures
        r == (*a == *b),
    decreases a,
{
    a.id == b.id && same_optional_type(&a.value_type, &b.value_type)
}

pub fn same_type_list(a: &List<Type>, b: &List<Type>) -> (r: bool)
    ensures
        r == (*a == *b),
    decreases a,
{
    match (a, b) {
        (List::Nil, List::Nil) => true,
        (List::Cons(ah, at), List::Cons(bh, bt)) => same_type(ah, bh) && same_type_list(at, bt),
        _ => false,
    }
}

pub fn same_param_list(a: &List<CheckedParam>, b: &List<CheckedParam>) -> (r: bool)
    ensures
        r == (*a == *b),
    decreases a,
{
    match (a, b) {
        (List::Nil, List::Nil) => true,
        (List::Cons(ah, at), List::Cons(bh, bt)) => {
            ah.id == bh.id && ah.identifier == bh.identifier && same_type(&ah.constraint, &bh.constraint) && same_param_list(
                at,
                bt,
            )
        },
        _ => false,
    }
}

pub fn same_generic_param_list(a: &List<CheckedGenericParam>, b: &List<CheckedGenericParam>) -> (r:
    bool)
    ensures
        r == (*a == *b),
    decreases a,
{
    match (a, b) {
        (List::Nil, List::Nil) => true,
        (List::Cons(ah, at), List::Cons(bh, bt)) => same_generic_param(ah, bh)
            && same_generic_param_list(at, bt),
        _ => false,
    }
}

pub fn same_tag_list(a: &List<TagType>, b: &List<TagType>) -> (r: bool)
    ensures
        r == (*a == *b),
    decreases a,
{
    match (a, b) {
        (List::Nil, List::Nil) => true,
        (List::Cons(ah, at), List::Cons(bh, bt)) => same_tag(ah, bh) && same_tag_list(at, bt),
        _ => false,
    }
}

} // verus!

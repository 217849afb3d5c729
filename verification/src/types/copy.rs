use vstd::prelude::*;

use crate::types::checked_type::{CheckedFnType, CheckedGenericParam, CheckedParam, CheckedTypeAliasDecl, TagType, Type};
use crate::types::list::List;

verus! {

/// A copy of a type.
pub fn copy_type(a: &Type) -> (r: Type)
    ensures
        r == *a,
    decreases a,
{
    match a {
        Type::I8 => Type::I8,
        Type::I16 => Type::I16,
        Type::I32 => Type::I32,
        Type::I64 => Type::I64,
        Type::ISize => Type::ISize,
        Type::U8 => Type::U8,
        Type::U16 => Type::U16,
        Type::U32 => Type::U32,
        Type::U64 => Type::U64,
        Type::USize => Type::USize,
        Type::F32 => Type::F32,
        Type::F64 => Type::F64,
        Type::Bool => Type::Bool,
        Type::Char => Type::Char,
        Type::Void => Type::Void,
        Type::Null => Type::Null,
        Type::Unknown => Type::Unknown,
        Type::String => Type::String,
        Type::Union(items) => Type::Union(copy_type_list(items)),
        Type::GenericParam(gp) => Type::GenericParam(copy_generic_param(gp)),
        Type::FnType(f) => Type::FnType(CheckedFnType {
            params: copy_param_list(&f.params),
            return_type: Box::new(copy_type(&f.return_type)),
            generic_params: copy_generic_param_list(&f.generic_params),
            applied_type_args: copy_type_list(&f.applied_type_args),
        }),
        Type::Struct(fields) => Type::Struct(copy_param_list(fields)),
        Type::TypeAliasDecl(d) => Type::TypeAliasDecl(
            Box::new(
                CheckedTypeAliasDecl {
                    name: d.name,
                    generic_params: copy_generic_param_list(&d.generic_params),
                    value: Box::new(copy_type(&d.value)),
                    applied_type_args: copy_type_list(&d.applied_type_args),
                },
            ),
        ),
        Type::Array { item_type, size } => Type::Array {
            item_type: Box::new(copy_type(item_type)),
            size: *size,
        },
        Type::Pointer { constraint, narrowed_to } => Type::Pointer {
            constraint: Box::new(copy_type(constraint)),
            narrowed_to: Box::new(copy_type(narrowed_to)),
        },
        Type::List(item) => Type::List(Box::new(copy_type(item))),
        Type::Tag(t) => Type::Tag(copy_tag(t)),
        Type::TagUnion(ts) => Type::TagUnion(copy_tag_list(ts)),
    }
}

pub fn copy_optional_type(a: &Option<Box<Type>>) -> (r: Option<Box<Type>>)
    ensures
        r == *a,
    decreases a,
{
    match a {
        None => None,
        Some(t) => Some(Box::new(copy_type(t))),
    }
}

pub fn copy_generic_param(a: &CheckedGenericParam) -> (r: CheckedGenericParam)
    ensures
        r == *a,
    decreases a,
{
    CheckedGenericParam { identifier: a.identifier, constraint: copy_optional_type(&a.constraint) }
}

pub fn copy_param(a: &CheckedParam) -> (r: CheckedParam)
    ensures
        r == *a,
    decreases a,
{
    CheckedParam { id: a.id, identifier: a.identifier, constraint: copy_type(&a.constraint) }
}

pub fn copy_tag(a: &TagType) -> (r: TagType)
    ensures
        r == *a,
    decreases a,
{
    TagType { id: a.id, value_type: copy_optional_type(&a.value_type) }
}

pub fn copy_type_list(a: &List<Type>) -> (r: List<Type>)
    ensures
        r == *a,
    decreases a,
{
    match a {
        List::Nil => List::Nil,
        List::Cons(h, t) => List::Cons(Box::new(copy_type(h)), Box::new(copy_type_list(t))),
    }
}

pub fn copy_param_list(a: &List<CheckedParam>) -> (r: List<CheckedParam>)
    ensures
        r == *a,
    decreases a,
{
    match a {
        List::Nil => List::Nil,
        List::Cons(h, t) => List::Cons(Box::new(copy_param(h)), Box::new(copy_param_list(t))),
    }
}

pub fn copy_generic_param_list(a: &List<CheckedGenericParam>) -> (r: List<CheckedGenericParam>)
    ensures
        r == *a,
    decreases a,
{
    match a {
        List::Nil => List::Nil,
        List::Cons(h, t) => List::Cons(
            Box::new(copy_generic_param(h)),
            Box::new(copy_generic_param_list(t)),
        ),
    }
}

pub fn copy_tag_list(a: &List<TagType>) -> (r: List<TagType>)
    ensures
        r == *a,
    decreases a,
{
    match a {
        List::Nil => List::Nil,
        List::Cons(h, t) => List::Cons(Box::new(copy_tag(h)), Box::new(copy_tag_list(t))),
    }
}

} // verus!

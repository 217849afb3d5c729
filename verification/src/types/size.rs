use vstd::prelude::*;

use crate::types::checked_type::{CheckedGenericParam, CheckedParam, TagType, Type};
use crate::types::list::List;

verus! {

/// The number of nodes in a type; every part of a type is smaller than the type.
pub open spec fn type_size(t: Type) -> nat
    decreases t,
{
    match t {
        Type::Union(items) => 1 + types_size(items),
        Type::GenericParam(gp) => 2 + match gp.constraint {
            Some(c) => 1 + type_size(*c),
            None => 0,
        },
        Type::FnType(f) => 1 + params_size(f.params) + type_size(*f.return_type) + generic_params_size(
            f.generic_params,
        ) + types_size(f.applied_type_args),
        Type::Struct(fields) => 1 + params_size(fields),
        Type::TypeAliasDecl(d) => 1 + generic_params_size(d.generic_params) + type_size(*d.value)
            + types_size(d.applied_type_args),
        Type::Array { item_type, .. } => 1 + type_size(*item_type),
        Type::Pointer { constraint, narrowed_to } => 1 + type_size(*constraint) + type_size(
            *narrowed_to,
        ),
        Type::List(item) => 1 + type_size(*item),
        Type::Tag(tag) => 2 + match tag.value_type {
            Some(v) => 1 + type_size(*v),
            None => 0,
        },
        Type::TagUnion(tags) => 1 + tags_size(tags),
        _ => 1,
    }
}

pub open spec fn optional_type_size(t: Option<Box<Type>>) -> nat {
    match t {
        Some(b) => 1 + type_size(*b),
        None => 0,
    }
}

pub open spec fn tag_size(t: TagType) -> nat {
    1 + optional_type_size(t.value_type)
}

pub open spec fn types_size(l: List<Type>) -> nat
    decreases l,
{
    match l {
        List::Nil => 0,
        List::Cons(h, t) => 1 + type_size(*h) + types_size(*t),
    }
}

pub open spec fn params_size(l: List<CheckedParam>) -> nat
    decreases l,
{
    match l {
        List::Nil => 0,
        List::Cons(h, t) => 1 + type_size(h.constraint) + params_size(*t),
    }
}

pub open spec fn generic_params_size(l: List<CheckedGenericParam>) -> nat
    decreases l,
{
    match l {
        List::Nil => 0,
        List::Cons(h, t) => 2 + match h.constraint {
            Some(c) => 1 + type_size(*c),
            None => 0,
        } + generic_params_size(*t),
    }
}

pub open spec fn tags_size(l: List<TagType>) -> nat
    decreases l,
{
    match l {
        List::Nil => 0,
        List::Cons(h, t) => 2 + match h.value_type {
            Some(v) => 1 + type_size(*v),
            None => 0,
        } + tags_size(*t),
    }
}

/// A member of a list is smaller than the list.
pub proof fn lemma_member_size(l: List<Type>, i: int)
    requires
        0 <= i < l.seq().len(),
    ensures
        type_size(l.seq()[i]) < types_size(l),
    decreases l,
{
    match l {
        List::Cons(h, t) => {
            if i > 0 {
                lemma_member_size(*t, i - 1);
            }
        },
        List::Nil => {},
    }
}

} // verus!

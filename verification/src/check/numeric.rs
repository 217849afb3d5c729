use vstd::prelude::*;

use crate::types::checked_type::Type;
use crate::types::list::List;
use crate::types::size::{lemma_member_size, type_size, types_size};

verus! {

pub open spec fn spec_is_float(t: Type) -> bool {
    t is F32 || t is F64
}

pub open spec fn spec_is_integer(t: Type) -> bool {
    ||| t is I8
    ||| t is I16
    ||| t is I32
    ||| t is I64
    ||| t is U8
    ||| t is U16
    ||| t is U32
    ||| t is U64
    ||| t is ISize
    ||| t is USize
}

pub open spec fn spec_is_signed(t: Type) -> bool {
    ||| t is I8
    ||| t is I16
    ||| t is I32
    ||| t is I64
    ||| t is ISize
    ||| t is F32
    ||| t is F64
}

/// The width class of a numeric type; 0 for a type that is not numeric.
pub open spec fn spec_numeric_rank(t: Type) -> i32 {
    match t {
        Type::I8 | Type::U8 => 1,
        Type::I16 | Type::U16 => 2,
        Type::I32 | Type::U32 | Type::ISize | Type::USize => 3,
        Type::I64 | Type::U64 => 4,
        Type::F32 => 5,
        Type::F64 => 6,
        _ => 0,
    }
}

pub fn is_float(ty: &Type) -> (r: bool)
    ensures
        r == spec_is_float(*ty),
{
    matches!(ty, Type::F32 | Type::F64)
}

pub fn is_integer(ty: &Type) -> (r: bool)
    ensures
        r == spec_is_integer(*ty),
{
    matches!(
        ty,
        Type::I8 | Type::I16 | Type::I32 | Type::I64 | Type::U8 | Type::U16 | Type::U32 | Type::U64
            | Type::ISize | Type::USize
    )
}

pub fn is_signed(ty: &Type) -> (r: bool)
    ensures
        r == spec_is_signed(*ty),
{
    matches!(ty, Type::I8 | Type::I16 | Type::I32 | Type::I64 | Type::ISize | Type::F32 | Type::F64)
}

pub fn get_numeric_type_rank(ty: &Type) -> (r: i32)
    ensures
        r == spec_numeric_rank(*ty),
{
    match ty {
        Type::I8 | Type::U8 => 1,
        Type::I16 | Type::U16 => 2,
        Type::I32 | Type::U32 | Type::ISize | Type::USize => 3,
        Type::I64 | Type::U64 => 4,
        Type::F32 => 5,
        Type::F64 => 6,
        _ => 0,
    }
}

/// Whether values of the two types can be compared with `==`: booleans with
/// booleans, characters with characters, integers with integers, and unions
/// when some member of one can be compared with the other.
pub open spec fn spec_is_equatable(left: Type, right: Type) -> bool
    decreases type_size(left) + type_size(right),
{
    match (left, right) {
        (Type::Bool, Type::Bool) => true,
        (Type::Char, Type::Char) => true,
        (Type::Union(a), Type::Union(b)) => any_pair_equatable(a, b),
        (Type::Union(items), other) => any_equatable_with(items, other),
        (other, Type::Union(items)) => any_equatable_with(items, other),
        (a, b) => spec_is_integer(a) && spec_is_integer(b),
    }
}

/// Whether some member of `items` can be compared with `other`.
pub open spec fn any_equatable_with(items: List<Type>, other: Type) -> bool
    decreases types_size(items) + type_size(other),
{
    match items {
        List::Nil => false,
        List::Cons(h, t) => spec_is_equatable(*h, other) || any_equatable_with(*t, other),
    }
}

/// Whether some member of `a` can be compared with some member of `b`.
pub open spec fn any_pair_equatable(a: List<Type>, b: List<Type>) -> bool
    decreases types_size(a) + types_size(b),
{
    match a {
        List::Nil => false,
        List::Cons(h, t) => any_equatable_with(b, *h) || any_pair_equatable(*t, b),
    }
}

pub fn check_is_equatable(left: &Type, right: &Type) -> (r: bool)
    ensures
        r == spec_is_equatable(*left, *right),
    decreases type_size(*left) + type_size(*right),
{
    match (left, right) {
        (Type::Bool, Type::Bool) => true,
        (Type::Char, Type::Char) => true,
        (Type::Union(a), Type::Union(b)) => check_any_pair_equatable(a, b),
        (Type::Union(items), other) => check_any_equatable_with(items, other),
        (other, Type::Union(items)) => check_any_equatable_with(items, other),
        (a, b) => is_integer(a) && is_integer(b),
    }
}

fn check_any_equatable_with(items: &List<Type>, other: &Type) -> (r: bool)
    ensures
        r == any_equatable_with(*items, *other),
    decreases types_size(*items) + type_size(*other),
{
    match items {
        List::Nil => false,
        List::Cons(h, t) => check_is_equatable(h, other) || check_any_equatable_with(t, other),
    }
}

fn check_any_pair_equatable(a: &List<Type>, b: &List<Type>) -> (r: bool)
    ensures
        r == any_pair_equatable(*a, *b),
    decreases types_size(*a) + types_size(*b),
{
    match a {
        List::Nil => false,
        List::Cons(h, t) => check_any_equatable_with(b, h) || check_any_pair_equatable(t, b),
    }
}

proof fn lemma_any_equatable_with_member(items: List<Type>, other: Type)
    ensures
        any_equatable_with(items, other) <==> exists|i: int|
            0 <= i < items.seq().len() && spec_is_equatable(#[trigger] items.seq()[i], other),
    decreases items,
{
    match items {
        List::Nil => {},
        List::Cons(h, t) => {
            lemma_any_equatable_with_member(*t, other);
            assert(items.seq()[0] == *h);
            if any_equatable_with(*t, other) {
                let i = choose|i: int|
                    0 <= i < t.seq().len() && spec_is_equatable(#[trigger] t.seq()[i], other);
                assert(items.seq()[i + 1] == t.seq()[i]);
            }
            if exists|i: int|
                0 <= i < items.seq().len() && spec_is_equatable(#[trigger] items.seq()[i], other) {
                let i = choose|i: int|
                    0 <= i < items.seq().len() && spec_is_equatable(#[trigger] items.seq()[i], other);
                if i > 0 {
                    assert(t.seq()[i - 1] == items.seq()[i]);
                }
            }
        },
    }
}

proof fn lemma_any_pair_equatable_members(a: List<Type>, b: List<Type>)
    ensures
        any_pair_equatable(a, b) <==> exists|i: int, j: int|
            0 <= i < a.seq().len() && 0 <= j < b.seq().len() && spec_is_equatable(
                #[trigger] b.seq()[j],
                #[trigger] a.seq()[i],
            ),
    decreases a,
{
    match a {
        List::Nil => {},
        List::Cons(h, t) => {
            lemma_any_pair_equatable_members(*t, b);
            lemma_any_equatable_with_member(b, *h);
            assert(a.seq()[0] == *h);
            if any_equatable_with(b, *h) {
                let j = choose|j: int|
                    0 <= j < b.seq().len() && spec_is_equatable(#[trigger] b.seq()[j], *h);
                assert(spec_is_equatable(b.seq()[j], a.seq()[0]));
            }
            if any_pair_equatable(*t, b) {
                let (i, j) = choose|i: int, j: int|
                    0 <= i < t.seq().len() && 0 <= j < b.seq().len() && spec_is_equatable(
                        #[trigger] b.seq()[j],
                        #[trigger] t.seq()[i],
                    );
                assert(a.seq()[i + 1] == t.seq()[i]);
                assert(spec_is_equatable(b.seq()[j], a.seq()[i + 1]));
            }
            if exists|i: int, j: int|
                0 <= i < a.seq().len() && 0 <= j < b.seq().len() && spec_is_equatable(
                    #[trigger] b.seq()[j],
                    #[trigger] a.seq()[i],
                ) {
                let (i, j) = choose|i: int, j: int|
                    0 <= i < a.seq().len() && 0 <= j < b.seq().len() && spec_is_equatable(
                        #[trigger] b.seq()[j],
                        #[trigger] a.seq()[i],
                    );
                if i > 0 {
                    assert(t.seq()[i - 1] == a.seq()[i]);
                    assert(spec_is_equatable(b.seq()[j], t.seq()[i - 1]));
                } else {
                    assert(spec_is_equatable(b.seq()[j], *h));
                }
            }
        },
    }
}

/// Comparability is symmetric: `a` can be compared with `b` exactly when `b`
/// can be compared with `a`.
pub proof fn lemma_equatable_symmetric(a: Type, b: Type)
    ensures
        spec_is_equatable(a, b) == spec_is_equatable(b, a),
    decreases type_size(a) + type_size(b),
{
    match (a, b) {
        (Type::Union(x), Type::Union(y)) => {
            lemma_any_pair_equatable_members(x, y);
            lemma_any_pair_equatable_members(y, x);
            assert forall|i: int, j: int|
                0 <= i < x.seq().len() && 0 <= j < y.seq().len() implies spec_is_equatable(
                #[trigger] y.seq()[j],
                #[trigger] x.seq()[i],
            ) == spec_is_equatable(x.seq()[i], y.seq()[j]) by {
                lemma_member_size(x, i);
                lemma_member_size(y, j);
                lemma_equatable_symmetric(y.seq()[j], x.seq()[i]);
            }
            if spec_is_equatable(a, b) {
                let (i, j) = choose|i: int, j: int|
                    0 <= i < x.seq().len() && 0 <= j < y.seq().len() && spec_is_equatable(
                        #[trigger] y.seq()[j],
                        #[trigger] x.seq()[i],
                    );
                assert(spec_is_equatable(x.seq()[i], y.seq()[j]));
            }
            if spec_is_equatable(b, a) {
                let (j, i) = choose|j: int, i: int|
                    0 <= j < y.seq().len() && 0 <= i < x.seq().len() && spec_is_equatable(
                        #[trigger] x.seq()[i],
                        #[trigger] y.seq()[j],
                    );
                assert(spec_is_equatable(y.seq()[j], x.seq()[i]));
            }
        },
        _ => {},
    }
}

} // verus!

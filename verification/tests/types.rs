use tern::check::assignable::check_is_assignable;
use tern::check::numeric::{check_is_equatable, get_numeric_type_rank, is_float, is_integer, is_signed};
use tern::check::union_of::{distinct_types, union_of, union_of_kinds, union_subtract};
use tern::interner::{StringId, TagId};
use tern::span::{dummy_span, DefinitionId, IdentifierNode};
use tern::types::checked_type::{CheckedFnType, CheckedGenericParam, CheckedParam, TagType, Type};
use tern::types::copy::copy_type;
use tern::types::eq::same_type;
use tern::types::list::List;

fn list(items: Vec<Type>) -> List<Type> {
    List::from_vec(items)
}

fn union(items: Vec<Type>) -> Type {
    Type::Union(list(items))
}

fn members(t: &Type) -> Vec<Type> {
    match t {
        Type::Union(items) => {
            let mut out = Vec::new();
            let mut cur = items;
            while let List::Cons(h, rest) = cur {
                out.push(copy_type(h));
                cur = rest;
            }
            out
        }
        _ => panic!("not a union"),
    }
}

#[test]
fn union_of_keeps_each_member_once() {
    let r = union_of(vec![Type::I32, Type::I32, Type::Bool, Type::I32]);
    let m = members(&r);
    assert_eq!(m.len(), 2);
    assert!(same_type(&m[0], &Type::I32));
    assert!(same_type(&m[1], &Type::Bool));
}

#[test]
fn union_of_one_type_is_that_type() {
    let r = union_of(vec![Type::Char, Type::Char]);
    assert!(same_type(&r, &Type::Char));
}

#[test]
fn union_of_nothing_is_void() {
    assert!(matches!(union_of(vec![]), Type::Void));
}

#[test]
fn union_of_flattens_unions_and_drops_their_void() {
    let r = union_of(vec![union(vec![Type::I8, Type::Void, Type::U8]), Type::Bool, Type::U8]);
    let m = members(&r);
    assert_eq!(m.len(), 3);
    assert!(same_type(&m[0], &Type::I8));
    assert!(same_type(&m[1], &Type::U8));
    assert!(same_type(&m[2], &Type::Bool));
}

#[test]
fn union_of_keeps_a_plain_void() {
    let r = union_of(vec![Type::Void, Type::I64]);
    let m = members(&r);
    assert_eq!(m.len(), 2);
    assert!(same_type(&m[0], &Type::Void));
}

#[test]
fn union_of_kinds_unknown_wins() {
    assert!(matches!(union_of_kinds(vec![Type::I32, Type::Unknown]), Type::Unknown));
}

#[test]
fn union_of_kinds_leaves_out_void() {
    let r = union_of_kinds(vec![Type::Void, Type::F32, Type::Void]);
    assert!(same_type(&r, &Type::F32));
    assert!(matches!(union_of_kinds(vec![Type::Void]), Type::Void));
}

#[test]
fn distinct_types_in_first_order() {
    let r = distinct_types(&vec![Type::Bool, Type::Char, Type::Bool, Type::Null]);
    assert_eq!(r.len(), 3);
    assert!(same_type(&r[0], &Type::Bool));
    assert!(same_type(&r[1], &Type::Char));
    assert!(same_type(&r[2], &Type::Null));
}

#[test]
fn union_subtract_removes_a_type_or_the_members_of_a_union() {
    let from = list(vec![Type::I32, Type::Bool, Type::Null]);
    let r = union_subtract(&from, &Type::Bool);
    let m = members(&Type::Union(r));
    assert_eq!(m.len(), 2);
    assert!(same_type(&m[0], &Type::I32));
    assert!(same_type(&m[1], &Type::Null));
    let r2 = union_subtract(&from, &union(vec![Type::Null, Type::I32]));
    let m2 = members(&Type::Union(r2));
    assert_eq!(m2.len(), 1);
    assert!(same_type(&m2[0], &Type::Bool));
    let r3 = union_subtract(&from, &Type::Char);
    assert_eq!(members(&Type::Union(r3)).len(), 3);
}

#[test]
fn numeric_classification() {
    assert!(is_float(&Type::F64));
    assert!(!is_float(&Type::I64));
    assert!(is_integer(&Type::USize));
    assert!(!is_integer(&Type::Bool));
    assert!(is_signed(&Type::I8));
    assert!(is_signed(&Type::F32));
    assert!(!is_signed(&Type::U16));
    assert!(get_numeric_type_rank(&Type::I8) < get_numeric_type_rank(&Type::I16));
    assert!(get_numeric_type_rank(&Type::U32) < get_numeric_type_rank(&Type::U64));
    assert!(get_numeric_type_rank(&Type::F32) < get_numeric_type_rank(&Type::F64));
}

#[test]
fn equatable_examples() {
    assert!(check_is_equatable(&Type::Bool, &Type::Bool));
    assert!(check_is_equatable(&Type::Char, &Type::Char));
    assert!(check_is_equatable(&Type::I32, &Type::U8));
    assert!(!check_is_equatable(&Type::F32, &Type::F32));
    assert!(!check_is_equatable(&Type::Bool, &Type::Char));
    assert!(check_is_equatable(&union(vec![Type::Null, Type::I32]), &Type::I64));
    assert!(!check_is_equatable(&union(vec![Type::Null, Type::Char]), &Type::Bool));
}

#[test]
fn equatable_is_symmetric() {
    let types = vec![
        Type::Bool,
        Type::Char,
        Type::I32,
        Type::F64,
        Type::Null,
        union(vec![Type::Bool, Type::Null]),
        union(vec![Type::I8, Type::Char]),
        union(vec![Type::String, Type::Null]),
    ];
    for a in &types {
        for b in &types {
            assert_eq!(check_is_equatable(a, b), check_is_equatable(b, a));
        }
    }
}

#[test]
fn unknown_is_assignable_to_anything() {
    for t in [Type::I32, Type::Bool, union(vec![Type::Char, Type::Null]), Type::Void] {
        assert!(check_is_assignable(&Type::Unknown, &t));
    }
    assert!(!check_is_assignable(&Type::I32, &Type::Unknown));
}

#[test]
fn member_is_assignable_to_its_union() {
    let u = union(vec![Type::I32, Type::Bool, Type::Null]);
    assert!(check_is_assignable(&Type::Bool, &u));
    assert!(check_is_assignable(&Type::Null, &u));
    assert!(!check_is_assignable(&Type::Char, &u));
}

#[test]
fn union_assignable_to_a_wider_union_only() {
    let narrow = union(vec![Type::I32, Type::Null]);
    let wide = union(vec![Type::Null, Type::Bool, Type::I32]);
    assert!(check_is_assignable(&narrow, &wide));
    assert!(!check_is_assignable(&wide, &narrow));
    assert!(check_is_assignable(&union(vec![Type::I32, Type::I32]), &Type::I32));
}

#[test]
fn distinct_numbers_are_not_assignable() {
    assert!(!check_is_assignable(&Type::I32, &Type::I64));
    assert!(!check_is_assignable(&Type::U8, &Type::I8));
    assert!(check_is_assignable(&Type::String, &Type::String));
}

#[test]
fn lists_are_invariant_and_pointers_never_assignable() {
    let a = Type::List(Box::new(Type::I32));
    let b = Type::List(Box::new(union(vec![Type::I32, Type::Null])));
    assert!(check_is_assignable(&a, &Type::List(Box::new(Type::I32))));
    assert!(!check_is_assignable(&a, &b));
    let p = Type::Pointer { constraint: Box::new(Type::I32), narrowed_to: Box::new(Type::I32) };
    let q = Type::Pointer { constraint: Box::new(Type::I32), narrowed_to: Box::new(Type::I32) };
    assert!(!check_is_assignable(&p, &q));
}

#[test]
fn arrays_need_equal_sizes() {
    let a3 = Type::Array { item_type: Box::new(Type::U8), size: 3 };
    let b3 = Type::Array { item_type: Box::new(Type::U8), size: 3 };
    let a4 = Type::Array { item_type: Box::new(Type::U8), size: 4 };
    assert!(check_is_assignable(&a3, &b3));
    assert!(!check_is_assignable(&a3, &a4));
}

#[test]
fn tags_need_the_same_id() {
    let t1 = Type::Tag(TagType { id: TagId(1), value_type: None });
    let t1b = Type::Tag(TagType { id: TagId(1), value_type: None });
    let t2 = Type::Tag(TagType { id: TagId(2), value_type: None });
    assert!(check_is_assignable(&t1, &t1b));
    assert!(!check_is_assignable(&t1, &t2));
    let tu = Type::TagUnion(List::from_vec(vec![
        TagType { id: TagId(1), value_type: None },
        TagType { id: TagId(2), value_type: None },
    ]));
    assert!(check_is_assignable(&t2, &tu));
}

fn generic(name: u32, constraint: Option<Type>) -> CheckedGenericParam {
    CheckedGenericParam { identifier: IdentifierNode { name: StringId(name as usize), span: dummy_span() }, constraint: constraint.map(Box::new) }
}

fn generic_fn(gp: CheckedGenericParam, param: Type, ret: Type) -> Type {
    Type::FnType(CheckedFnType {
        params: List::from_vec(vec![CheckedParam { id: DefinitionId(0), identifier: IdentifierNode { name: StringId(90), span: dummy_span() }, constraint: param }]),
        return_type: Box::new(ret),
        generic_params: List::from_vec(vec![gp]),
        applied_type_args: List::Nil,
    })
}

#[test]
fn generic_function_types_compare_after_renaming() {
    // <T: i32>(x: T) => void  against  <U>(x: U) => void
    let t = generic(1, Some(Type::I32));
    let source = generic_fn(generic(1, Some(Type::I32)), Type::GenericParam(t), Type::Void);
    let u = generic(2, None);
    let target = generic_fn(generic(2, None), Type::GenericParam(u), Type::Void);
    assert!(check_is_assignable(&source, &target));
    // the other way, the unconstrained source parameter does not meet `i32`
    assert!(!check_is_assignable(&target, &source));
}

#[test]
fn generic_function_return_types_are_renamed() {
    // <T>() => T  against  <U>() => U
    let source = Type::FnType(CheckedFnType {
        params: List::Nil,
        return_type: Box::new(Type::GenericParam(generic(1, None))),
        generic_params: List::from_vec(vec![generic(1, None)]),
        applied_type_args: List::Nil,
    });
    let target = Type::FnType(CheckedFnType {
        params: List::Nil,
        return_type: Box::new(Type::GenericParam(generic(2, None))),
        generic_params: List::from_vec(vec![generic(2, None)]),
        applied_type_args: List::Nil,
    });
    assert!(check_is_assignable(&source, &target));
    // a generic return type without a constraint does not meet a concrete one
    let concrete = Type::FnType(CheckedFnType {
        params: List::Nil,
        return_type: Box::new(Type::I32),
        generic_params: List::from_vec(vec![generic(1, None)]),
        applied_type_args: List::Nil,
    });
    assert!(!check_is_assignable(&target, &concrete));
}

use vstd::prelude::*;

use crate::check::errors::CheckError;
use crate::check::substitute::{substitute_fuel, substitute_type, GenericSubstitutionMap};
use crate::span::{Position, Span};
use crate::types::checked_type::{CheckedGenericParam, CheckedParam, TagType, Type};
use crate::types::copy::copy_generic_param;
use crate::types::list::List;
use crate::types::size::{
    generic_params_size, optional_type_size, params_size, tag_size, tags_size, type_size,
    types_size,
};

verus! {

/// Whether a value of type `source` may be stored where type `target` is
/// expected. Two function types are compared after the target's generic
/// parameters are renamed to the source's; see [`assignable_fuel`].
pub open spec fn spec_assignable(source: Type, target: Type) -> bool {
    assignable_fuel(source, target, u64::MAX as nat)
}

/// The span given to the renaming of generic parameters when two function
/// types are compared; nothing of it reaches the answer.
pub open spec fn renaming_span() -> Span {
    Span {
        start: Position { line: 0, col: 0, byte_offset: 0 },
        end: Position { line: 0, col: 0, byte_offset: 0 },
    }
}

/// The substitution that renames the target's generic parameters, position
/// by position, to the source's.
pub open spec fn renaming(s: List<CheckedGenericParam>, t: List<CheckedGenericParam>) -> Seq<
    (crate::interner::StringId, Type),
>
    decreases s,
{
    match (s, t) {
        (List::Cons(sh, st), List::Cons(th, tt)) => seq![(th.identifier.name, Type::GenericParam(*sh))]
            + renaming(*st, *tt),
        _ => Seq::empty(),
    }
}

/// [`spec_assignable`], where comparisons of function types may nest `fuel`
/// deep; one nested deeper is not assignable.
pub open spec fn assignable_fuel(source: Type, target: Type, fuel: nat) -> bool
    decreases fuel, 0nat, type_size(source) + type_size(target),
{
    match (source, target) {
        (Type::I8, Type::I8) | (Type::I16, Type::I16) | (Type::I32, Type::I32) | (
            Type::I64,
            Type::I64,
        ) | (Type::ISize, Type::ISize) | (Type::U8, Type::U8) | (Type::U16, Type::U16) | (
            Type::U32,
            Type::U32,
        ) | (Type::U64, Type::U64) | (Type::USize, Type::USize) | (Type::F32, Type::F32) | (
            Type::F64,
            Type::F64,
        ) | (Type::Char, Type::Char) | (Type::Bool, Type::Bool) | (Type::Null, Type::Null) | (
            Type::Void,
            Type::Void,
        ) | (Type::String, Type::String) | (Type::Unknown, _) => true,
        (Type::Union(src), Type::Union(tgt)) => all_assignable_to_some(src, tgt, fuel),
        (_, Type::Union(tgt)) => assignable_to_some(source, tgt, fuel),
        (Type::Union(src), _) => all_assignable_to(src, target, fuel),
        (Type::GenericParam(sgp), Type::GenericParam(tgp)) => constraints_compatible(
            sgp.constraint,
            tgp.constraint,
            fuel,
        ),
        (Type::GenericParam(sgp), _) => match sgp.constraint {
            None => false,
            Some(c) => assignable_fuel(*c, target, fuel),
        },
        (_, Type::GenericParam(tgp)) => match tgp.constraint {
            None => true,
            Some(c) => assignable_fuel(source, *c, fuel),
        },
        (Type::Struct(sf), Type::Struct(tf)) => fields_assignable(sf, tf, fuel),
        (
            Type::Array { item_type: si, size: ss },
            Type::Array { item_type: ti, size: ts },
        ) => ss == ts && assignable_fuel(*si, *ti, fuel) && assignable_fuel(*ti, *si, fuel),
        (Type::FnType(sf), Type::FnType(tf)) => {
            let m = renaming(sf.generic_params, tf.generic_params);
            &&& fuel > 0
            &&& sf.generic_params.seq().len() == tf.generic_params.seq().len()
            &&& sf.params.seq().len() == tf.params.seq().len()
            &&& generic_params_compatible(sf.generic_params, tf.generic_params, fuel)
            &&& params_contravariant(tf.params, sf.params, m, (fuel - 1) as nat)
            &&& assignable_fuel(
                *sf.return_type,
                substitute_fuel(*tf.return_type, m, renaming_span(), (fuel - 1) as nat).0,
                (fuel - 1) as nat,
            )
        },
        (Type::TypeAliasDecl(sd), _) => assignable_fuel(*sd.value, target, fuel),
        (_, Type::TypeAliasDecl(td)) => assignable_fuel(source, *td.value, fuel),
        (Type::List(si), Type::List(ti)) => assignable_fuel(*si, *ti, fuel) && assignable_fuel(
            *ti,
            *si,
            fuel,
        ),
        (Type::Tag(st), Type::Tag(tt)) => tag_assignable(st, tt, fuel),
        (Type::Tag(st), Type::TagUnion(tv)) => tag_assignable_to_some(st, tv, fuel),
        (Type::TagUnion(sv), Type::TagUnion(tv)) => all_tags_assignable_to_some(sv, tv, fuel),
        _ => false,
    }
}

/// Whether the constraint of a source generic parameter satisfies that of a target one.
pub open spec fn constraints_compatible(s: Option<Box<Type>>, t: Option<Box<Type>>, fuel: nat) -> bool
    decreases fuel, 0nat, optional_type_size(s) + optional_type_size(t),
{
    match (s, t) {
        (None, None) => true,
        (Some(_), None) => true,
        (None, Some(_)) => false,
        (Some(a), Some(b)) => assignable_fuel(*a, *b, fuel),
    }
}

/// Whether every member of `src` is assignable to some member of `tgt`.
pub open spec fn all_assignable_to_some(src: List<Type>, tgt: List<Type>, fuel: nat) -> bool
    decreases fuel, 0nat, types_size(src) + types_size(tgt),
{
    match src {
        List::Nil => true,
        List::Cons(h, t) => assignable_to_some(*h, tgt, fuel) && all_assignable_to_some(
            *t,
            tgt,
            fuel,
        ),
    }
}

/// Whether `source` is assignable to some member of `tgt`.
pub open spec fn assignable_to_some(source: Type, tgt: List<Type>, fuel: nat) -> bool
    decreases fuel, 0nat, type_size(source) + types_size(tgt),
{
    match tgt {
        List::Nil => false,
        List::Cons(h, t) => assignable_fuel(source, *h, fuel) || assignable_to_some(
            source,
            *t,
            fuel,
        ),
    }
}

/// Whether every member of `src` is assignable to `target`.
pub open spec fn all_assignable_to(src: List<Type>, target: Type, fuel: nat) -> bool
    decreases fuel, 0nat, types_size(src) + type_size(target),
{
    match src {
        List::Nil => true,
        List::Cons(h, t) => assignable_fuel(*h, target, fuel) && all_assignable_to(
            *t,
            target,
            fuel,
        ),
    }
}

/// Whether two field lists have the same length, the same names in the same
/// order, and assignable field types.
pub open spec fn fields_assignable(s: List<CheckedParam>, t: List<CheckedParam>, fuel: nat) -> bool
    decreases fuel, 0nat, params_size(s) + params_size(t),
{
    match (s, t) {
        (List::Nil, List::Nil) => true,
        (List::Cons(sh, st), List::Cons(th, tt)) => sh.identifier.name == th.identifier.name && assignable_fuel(
            sh.constraint,
            th.constraint,
            fuel,
        ) && fields_assignable(*st, *tt, fuel),
        _ => false,
    }
}

/// Whether, position by position, each source generic parameter's constraint
/// satisfies the target's.
pub open spec fn generic_params_compatible(
    s: List<CheckedGenericParam>,
    t: List<CheckedGenericParam>,
    fuel: nat,
) -> bool
    decreases fuel, 0nat, generic_params_size(s) + generic_params_size(t),
{
    match (s, t) {
        (List::Cons(sh, st), List::Cons(th, tt)) => constraints_compatible(
            sh.constraint,
            th.constraint,
            fuel,
        ) && generic_params_compatible(*st, *tt, fuel),
        _ => true,
    }
}

/// Whether, position by position, each parameter type of the target function,
/// renamed by `m`, is assignable to the corresponding parameter type of the
/// source function.
pub open spec fn params_contravariant(
    t: List<CheckedParam>,
    s: List<CheckedParam>,
    m: Seq<(crate::interner::StringId, Type)>,
    fuel: nat,
) -> bool
    decreases fuel + 1, 0nat, params_size(t) + params_size(s),
{
    match (t, s) {
        (List::Cons(th, tt), List::Cons(sh, st)) => assignable_fuel(
            substitute_fuel(th.constraint, m, renaming_span(), fuel).0,
            sh.constraint,
            fuel,
        ) && params_contravariant(*tt, *st, m, fuel),
        _ => true,
    }
}

/// Whether a tag may be stored where another tag is expected: same id, and
/// assignable payloads.
pub open spec fn tag_assignable(s: TagType, t: TagType, fuel: nat) -> bool
    decreases fuel, 0nat, tag_size(s) + tag_size(t),
{
    s.id == t.id && match (s.value_type, t.value_type) {
        (None, None) => true,
        (Some(a), Some(b)) => assignable_fuel(*a, *b, fuel),
        _ => false,
    }
}

pub open spec fn tag_assignable_to_some(s: TagType, tv: List<TagType>, fuel: nat) -> bool
    decreases fuel, 0nat, tag_size(s) + tags_size(tv),
{
    match tv {
        List::Nil => false,
        List::Cons(h, t) => tag_assignable(s, *h, fuel) || tag_assignable_to_some(s, *t, fuel),
    }
}

pub open spec fn all_tags_assignable_to_some(sv: List<TagType>, tv: List<TagType>, fuel: nat) -> bool
    decreases fuel, 0nat, tags_size(sv) + tags_size(tv),
{
    match sv {
        List::Nil => true,
        List::Cons(h, t) => tag_assignable_to_some(*h, tv, fuel) && all_tags_assignable_to_some(
            *t,
            tv,
            fuel,
        ),
    }
}

/// Decides [`spec_assignable`]. The errors that renaming the target's generic
/// parameters reports while two function types are compared are dropped: the
/// answer alone is returned.
pub fn check_is_assignable_recursive(source: &Type, target: &Type) -> (r: bool)
    ensures
        r == spec_assignable(*source, *target),
{
    assignable_with_fuel(source, target, u64::MAX)
}

/// Decides [`assignable_fuel`].
pub fn assignable_with_fuel(source: &Type, target: &Type, fuel: u64) -> (r: bool)
    ensures
        r == assignable_fuel(*source, *target, fuel as nat),
    decreases fuel, 0nat, type_size(*source) + type_size(*target),
{
    match (source, target) {
        (Type::I8, Type::I8) | (Type::I16, Type::I16) | (Type::I32, Type::I32) | (
            Type::I64,
            Type::I64,
        ) | (Type::ISize, Type::ISize) | (Type::U8, Type::U8) | (Type::U16, Type::U16) | (
            Type::U32,
            Type::U32,
        ) | (Type::U64, Type::U64) | (Type::USize, Type::USize) | (Type::F32, Type::F32) | (
            Type::F64,
            Type::F64,
        ) | (Type::Char, Type::Char) | (Type::Bool, Type::Bool) | (Type::Null, Type::Null) | (
            Type::Void,
            Type::Void,
        ) | (Type::String, Type::String) | (Type::Unknown, _) => true,
        (Type::Union(src), Type::Union(tgt)) => check_all_assignable_to_some(src, tgt, fuel),
        (_, Type::Union(tgt)) => check_assignable_to_some(source, tgt, fuel),
        (Type::Union(src), _) => check_all_assignable_to(src, target, fuel),
        (Type::GenericParam(sgp), Type::GenericParam(tgp)) => check_constraints_compatible(
            &sgp.constraint,
            &tgp.constraint,
            fuel,
        ),
        (Type::GenericParam(sgp), _) => match &sgp.constraint {
            None => false,
            Some(c) => assignable_with_fuel(c, target, fuel),
        },
        (_, Type::GenericParam(tgp)) => match &tgp.constraint {
            None => true,
            Some(c) => assignable_with_fuel(source, c, fuel),
        },
        (Type::Struct(sf), Type::Struct(tf)) => check_fields_assignable(sf, tf, fuel),
        (
            Type::Array { item_type: si, size: ss },
            Type::Array { item_type: ti, size: ts },
        ) => *ss == *ts && assignable_with_fuel(si, ti, fuel) && assignable_with_fuel(
            ti,
            si,
            fuel,
        ),
        (Type::FnType(sf), Type::FnType(tf)) => {
            let ghost m = renaming(sf.generic_params, tf.generic_params);
            if fuel == 0 || !same_length_generic(&sf.generic_params, &tf.generic_params)
                || !same_length_params(&sf.params, &tf.params)
                || !check_generic_params_compatible(&sf.generic_params, &tf.generic_params, fuel) {
                false
            } else {
                let mut renamed = GenericSubstitutionMap::new();
                bind_renaming(&sf.generic_params, &tf.generic_params, &mut renamed);
                assert(renamed.entries@ =~= m);
                if !check_params_contravariant(&tf.params, &sf.params, &renamed, fuel - 1) {
                    false
                } else {
                    let mut ignored: Vec<CheckError> = Vec::new();
                    let target_return = substitute_type(
                        &tf.return_type,
                        &renamed,
                        renaming_span_value(),
                        fuel - 1,
                        &mut ignored,
                    );
                    assignable_with_fuel(&sf.return_type, &target_return, fuel - 1)
                }
            }
        },
        (Type::TypeAliasDecl(sd), _) => assignable_with_fuel(&sd.value, target, fuel),
        (_, Type::TypeAliasDecl(td)) => assignable_with_fuel(source, &td.value, fuel),
        (Type::List(si), Type::List(ti)) => assignable_with_fuel(si, ti, fuel)
            && assignable_with_fuel(ti, si, fuel),
        (Type::Tag(st), Type::Tag(tt)) => check_tag_assignable(st, tt, fuel),
        (Type::Tag(st), Type::TagUnion(tv)) => check_tag_assignable_to_some(st, tv, fuel),
        (Type::TagUnion(sv), Type::TagUnion(tv)) => check_all_tags_assignable_to_some(sv, tv, fuel),
        _ => false,
    }
}

fn renaming_span_value() -> (r: Span)
    ensures
        r == renaming_span(),
{
    let p = Position { line: 0, col: 0, byte_offset: 0 };
    Span { start: p, end: p }
}

/// Binds, position by position, each target generic parameter's name to the
/// source generic parameter; see [`renaming`].
fn bind_renaming(
    s: &List<CheckedGenericParam>,
    t: &List<CheckedGenericParam>,
    m: &mut GenericSubstitutionMap,
)
    ensures
        final(m).entries@ == old(m).entries@ + renaming(*s, *t),
    decreases s,
{
    match (s, t) {
        (List::Cons(sh, st), List::Cons(th, tt)) => {
            m.entries.push((th.identifier.name, Type::GenericParam(copy_generic_param(sh))));
            bind_renaming(st, tt, m);
            assert(m.entries@ =~= old(m).entries@ + renaming(*s, *t));
        },
        _ => {
            assert(old(m).entries@ + renaming(*s, *t) =~= old(m).entries@);
        },
    }
}

fn same_length_generic(a: &List<CheckedGenericParam>, b: &List<CheckedGenericParam>) -> (r: bool)
    ensures
        r == (a.seq().len() == b.seq().len()),
    decreases a,
{
    match (a, b) {
        (List::Nil, List::Nil) => true,
        (List::Cons(_, at), List::Cons(_, bt)) => same_length_generic(at, bt),
        _ => false,
    }
}

fn same_length_params(a: &List<CheckedParam>, b: &List<CheckedParam>) -> (r: bool)
    ensures
        r == (a.seq().len() == b.seq().len()),
    decreases a,
{
    match (a, b) {
        (List::Nil, List::Nil) => true,
        (List::Cons(_, at), List::Cons(_, bt)) => same_length_params(at, bt),
        _ => false,
    }
}

fn check_constraints_compatible(s: &Option<Box<Type>>, t: &Option<Box<Type>>, fuel: u64) -> (r:
    bool)
    ensures
        r == constraints_compatible(*s, *t, fuel as nat),
    decreases fuel, 0nat, optional_type_size(*s) + optional_type_size(*t),
{
    match (s, t) {
        (None, None) => true,
        (Some(_), None) => true,
        (None, Some(_)) => false,
        (Some(a), Some(b)) => assignable_with_fuel(a, b, fuel),
    }
}

fn check_all_assignable_to_some(src: &List<Type>, tgt: &List<Type>, fuel: u64) -> (r: bool)
    ensures
        r == all_assignable_to_some(*src, *tgt, fuel as nat),
    decreases fuel, 0nat, types_size(*src) + types_size(*tgt),
{
    match src {
        List::Nil => true,
        List::Cons(h, t) => check_assignable_to_some(h, tgt, fuel) && check_all_assignable_to_some(
            t,
            tgt,
            fuel,
        ),
    }
}

fn check_assignable_to_some(source: &Type, tgt: &List<Type>, fuel: u64) -> (r: bool)
    ensures
        r == assignable_to_some(*source, *tgt, fuel as nat),
    decreases fuel, 0nat, type_size(*source) + types_size(*tgt),
{
    match tgt {
        List::Nil => false,
        List::Cons(h, t) => assignable_with_fuel(source, h, fuel) || check_assignable_to_some(
            source,
            t,
            fuel,
        ),
    }
}

fn check_all_assignable_to(src: &List<Type>, target: &Type, fuel: u64) -> (r: bool)
    ensures
        r == all_assignable_to(*src, *target, fuel as nat),
    decreases fuel, 0nat, types_size(*src) + type_size(*target),
{
    match src {
        List::Nil => true,
        List::Cons(h, t) => assignable_with_fuel(h, target, fuel) && check_all_assignable_to(
            t,
            target,
            fuel,
        ),
    }
}

fn check_fields_assignable(s: &List<CheckedParam>, t: &List<CheckedParam>, fuel: u64) -> (r: bool)
    ensures
        r == fields_assignable(*s, *t, fuel as nat),
    decreases fuel, 0nat, params_size(*s) + params_size(*t),
{
    match (s, t) {
        (List::Nil, List::Nil) => true,
        (List::Cons(sh, st), List::Cons(th, tt)) => sh.identifier.name == th.identifier.name && assignable_with_fuel(
            &sh.constraint,
            &th.constraint,
            fuel,
        ) && check_fields_assignable(st, tt, fuel),
        _ => false,
    }
}

fn check_generic_params_compatible(
    s: &List<CheckedGenericParam>,
    t: &List<CheckedGenericParam>,
    fuel: u64,
) -> (r: bool)
    ensures
        r == generic_params_compatible(*s, *t, fuel as nat),
    decreases fuel, 0nat, generic_params_size(*s) + generic_params_size(*t),
{
    match (s, t) {
        (List::Cons(sh, st), List::Cons(th, tt)) => check_constraints_compatible(
            &sh.constraint,
            &th.constraint,
            fuel,
        ) && check_generic_params_compatible(st, tt, fuel),
        _ => true,
    }
}

fn check_params_contravariant(
    t: &List<CheckedParam>,
    s: &List<CheckedParam>,
    m: &GenericSubstitutionMap,
    fuel: u64,
) -> (r: bool)
    ensures
        r == params_contravariant(*t, *s, m.entries@, fuel as nat),
    decreases fuel + 1, 0nat, params_size(*t) + params_size(*s),
{
    match (t, s) {
        (List::Cons(th, tt), List::Cons(sh, st)) => {
            let mut ignored: Vec<CheckError> = Vec::new();
            let renamed = substitute_type(
                &th.constraint,
                m,
                renaming_span_value(),
                fuel,
                &mut ignored,
            );
            assignable_with_fuel(&renamed, &sh.constraint, fuel) && check_params_contravariant(
                tt,
                st,
                m,
                fuel,
            )
        },
        _ => true,
    }
}

fn check_tag_assignable(s: &TagType, t: &TagType, fuel: u64) -> (r: bool)
    ensures
        r == tag_assignable(*s, *t, fuel as nat),
    decreases fuel, 0nat, tag_size(*s) + tag_size(*t),
{
    s.id == t.id && match (&s.value_type, &t.value_type) {
        (None, None) => true,
        (Some(a), Some(b)) => assignable_with_fuel(a, b, fuel),
        _ => false,
    }
}

fn check_tag_assignable_to_some(s: &TagType, tv: &List<TagType>, fuel: u64) -> (r: bool)
    ensures
        r == tag_assignable_to_some(*s, *tv, fuel as nat),
    decreases fuel, 0nat, tag_size(*s) + tags_size(*tv),
{
    match tv {
        List::Nil => false,
        List::Cons(h, t) => check_tag_assignable(s, h, fuel) || check_tag_assignable_to_some(
            s,
            t,
            fuel,
        ),
    }
}

fn check_all_tags_assignable_to_some(sv: &List<TagType>, tv: &List<TagType>, fuel: u64) -> (r:
    bool)
    ensures
        r == all_tags_assignable_to_some(*sv, *tv, fuel as nat),
    decreases fuel, 0nat, tags_size(*sv) + tags_size(*tv),
{
    match sv {
        List::Nil => true,
        List::Cons(h, t) => check_tag_assignable_to_some(h, tv, fuel)
            && check_all_tags_assignable_to_some(t, tv, fuel),
    }
}

/// Whether a value of type `source` may be stored where `target` is expected.
pub fn check_is_assignable(source: &Type, target: &Type) -> (r: bool)
    ensures
        r == spec_assignable(*source, *target),
{
    check_is_assignable_recursive(source, target)
}


/// Two struct types are assignable only when they have the same number of
/// fields and, position by position, the fields carry the same names and
/// the source field's type is assignable to the target field's.
pub proof fn lemma_struct_assignable_fields(s: List<CheckedParam>, t: List<CheckedParam>)
    requires
        spec_assignable(Type::Struct(s), Type::Struct(t)),
    ensures
        s.seq().len() == t.seq().len(),
        forall|i: int|
            0 <= i < s.seq().len() ==> (#[trigger] s.seq()[i]).identifier.name == t.seq()[i].identifier.name
                && spec_assignable(s.seq()[i].constraint, t.seq()[i].constraint),
{
    lemma_fields_assignable_pointwise(s, t, u64::MAX as nat);
}

proof fn lemma_fields_assignable_pointwise(s: List<CheckedParam>, t: List<CheckedParam>, fuel: nat)
    requires
        fields_assignable(s, t, fuel),
    ensures
        s.seq().len() == t.seq().len(),
        forall|i: int|
            0 <= i < s.seq().len() ==> (#[trigger] s.seq()[i]).identifier.name == t.seq()[i].identifier.name
                && assignable_fuel(s.seq()[i].constraint, t.seq()[i].constraint, fuel),
    decreases s,
{
    match (s, t) {
        (List::Cons(sh, st), List::Cons(th, tt)) => {
            lemma_fields_assignable_pointwise(*st, *tt, fuel);
            assert forall|i: int| 0 <= i < s.seq().len() implies (#[trigger] s.seq()[i]).identifier.name
                == t.seq()[i].identifier.name && assignable_fuel(
                s.seq()[i].constraint,
                t.seq()[i].constraint,
                fuel,
            ) by {
                if i > 0 {
                    assert(s.seq()[i] == st.seq()[i - 1]);
                    assert(t.seq()[i] == tt.seq()[i - 1]);
                }
            }
        },
        _ => {},
    }
}

/// The types without parts: numbers, `bool`, `char`, `null`, `void` and
/// `string`.
pub open spec fn is_simple(t: Type) -> bool {
    t is I8 || t is I16 || t is I32 || t is I64 || t is ISize || t is U8 || t is U16 || t is U32
        || t is U64 || t is USize || t is F32 || t is F64 || t is Char || t is Bool || t is Null
        || t is Void || t is String
}

/// A value of unknown type may be stored anywhere.
pub proof fn lemma_unknown_assignable(target: Type)
    ensures
        spec_assignable(Type::Unknown, target),
{
}

/// A type without parts is assignable to itself.
pub proof fn lemma_simple_reflexive(t: Type)
    requires
        is_simple(t),
    ensures
        spec_assignable(t, t),
{
}

/// A type without parts is assignable to every union that lists it.
pub proof fn lemma_member_assignable_to_union(t: Type, members: List<Type>)
    requires
        is_simple(t),
        members.seq().contains(t),
    ensures
        spec_assignable(t, Type::Union(members)),
{
    lemma_assignable_to_some_member(t, members);
}

proof fn lemma_assignable_to_some_member(t: Type, members: List<Type>)
    requires
        is_simple(t),
        members.seq().contains(t),
    ensures
        assignable_to_some(t, members, u64::MAX as nat),
    decreases members,
{
    match members {
        List::Nil => {},
        List::Cons(h, rest) => {
            lemma_simple_reflexive(t);
            if *h != t {
                let k = choose|k: int| 0 <= k < members.seq().len() && members.seq()[k] == t;
                assert(k != 0);
                assert(rest.seq()[k - 1] == t);
                lemma_assignable_to_some_member(t, *rest);
            }
        },
    }
}

/// A union whose members have no parts is assignable to every union that
/// lists all of them.
pub proof fn lemma_union_subset_assignable(source: List<Type>, target: List<Type>)
    requires
        forall|i: int|
            0 <= i < source.seq().len() ==> is_simple(#[trigger] source.seq()[i])
                && target.seq().contains(source.seq()[i]),
    ensures
        spec_assignable(Type::Union(source), Type::Union(target)),
{
    lemma_all_assignable_to_some(source, target);
}

proof fn lemma_all_assignable_to_some(source: List<Type>, target: List<Type>)
    requires
        forall|i: int|
            0 <= i < source.seq().len() ==> is_simple(#[trigger] source.seq()[i])
                && target.seq().contains(source.seq()[i]),
    ensures
        all_assignable_to_some(source, target, u64::MAX as nat),
    decreases source,
{
    match source {
        List::Nil => {},
        List::Cons(h, rest) => {
            assert(source.seq()[0] == *h);
            lemma_assignable_to_some_member(*h, target);
            assert forall|i: int| 0 <= i < rest.seq().len() implies is_simple(
                #[trigger] rest.seq()[i],
            ) && target.seq().contains(rest.seq()[i]) by {
                assert(source.seq()[i + 1] == rest.seq()[i]);
            }
            lemma_all_assignable_to_some(*rest, target);
        },
    }
}

} // verus!

use vstd::prelude::*;

use crate::check::assignable::{assignable_fuel, assignable_with_fuel, spec_assignable};
use crate::check::checker::SemanticChecker;
use crate::check::errors::CheckError;
use crate::check::union_of::{spec_union_of, union_of};
use crate::interner::StringId;
use crate::span::{IdentifierNode, Span};
use crate::types::checked_type::{
    CheckedFnType, CheckedGenericParam, CheckedParam, CheckedTypeAliasDecl, Type,
};
use crate::types::copy::{copy_generic_param, copy_type};
use crate::types::list::List;
use crate::types::size::{params_size, type_size, types_size};

verus! {

/// The type bound to `name` in `entries`, searching from the most recent binding.
pub open spec fn find_binding(entries: Seq<(StringId, Type)>, name: StringId) -> Option<Type>
    decreases entries.len(),
{
    if entries.len() == 0 {
        None
    } else if entries.last().0 == name {
        Some(entries.last().1)
    } else {
        find_binding(entries.drop_last(), name)
    }
}

/// The types bound to generic parameters, by parameter name.
pub struct GenericSubstitutionMap {
    pub entries: Vec<(StringId, Type)>,
}

impl GenericSubstitutionMap {
    pub open spec fn binding(&self, name: StringId) -> Option<Type> {
        find_binding(self.entries@, name)
    }

    pub fn new() -> (r: GenericSubstitutionMap)
        ensures
            r.entries@ == Seq::<(StringId, Type)>::empty(),
            forall|n: StringId| r.binding(n) is None,
    {
        GenericSubstitutionMap { entries: Vec::new() }
    }

    /// The type bound to `name`, if any.
    pub fn get(&self, name: StringId) -> (r: Option<Type>)
        ensures
            r == self.binding(name),
    {
        let mut i = self.entries.len();
        assert(self.entries@.take(i as int) =~= self.entries@);
        while i > 0
            invariant
                i <= self.entries@.len(),
                find_binding(self.entries@, name) == find_binding(self.entries@.take(i as int), name),
            decreases i,
        {
            proof {
                assert(self.entries@.take(i as int).drop_last() =~= self.entries@.take(i - 1));
            }
            if self.entries[i - 1].0 == name {
                return Some(copy_type(&self.entries[i - 1].1));
            }
            i = i - 1;
        }
        None
    }

    /// Binds `name` to `ty`, replacing an earlier binding.
    pub fn insert(&mut self, name: StringId, ty: Type)
        ensures
            final(self).binding(name) == Some(ty),
            forall|n: StringId| n != name ==> final(self).binding(n) == old(self).binding(n),
    {
        self.entries.push((name, ty));
        proof {
            assert(self.entries@.drop_last() =~= old(self).entries@);
        }
    }
}

/// The error reported when no type is bound to a generic parameter.
pub open spec fn unresolved(param: IdentifierNode, span: Span) -> CheckError {
    CheckError::UnresolvedGenericParam { param, span }
}

/// The types bound to the given generic parameters (`unknown` for an unbound
/// one), with an error for each unbound parameter.
pub open spec fn spec_resolve_args(
    gps: List<CheckedGenericParam>,
    m: Seq<(StringId, Type)>,
    span: Span,
) -> (List<Type>, Seq<CheckError>)
    decreases gps,
{
    match gps {
        List::Nil => (List::Nil, Seq::empty()),
        List::Cons(gp, rest) => {
            let (tail, errs) = spec_resolve_args(*rest, m, span);
            match find_binding(m, gp.identifier.name) {
                Some(t) => (List::Cons(Box::new(t), Box::new(tail)), errs),
                None => (
                    List::Cons(Box::new(Type::Unknown), Box::new(tail)),
                    seq![unresolved(gp.identifier, span)] + errs,
                ),
            }
        },
    }
}

/// `t` with the generic parameters bound in `m` replaced by their types, and
/// the errors that the replacement reports, all at `span`. A parameter that is
/// unbound becomes `unknown`; one whose bound type does not satisfy its
/// constraint is reported and becomes `unknown`. A function type or type alias
/// loses its own generic parameters and records the types bound to them; a
/// union is rebuilt with [`spec_union_of`].
pub open spec fn spec_substitute(t: Type, m: Seq<(StringId, Type)>, span: Span) -> (
    Type,
    Seq<CheckError>,
) {
    substitute_fuel(t, m, span, u64::MAX as nat)
}

/// [`spec_substitute`], where constraints are checked with
/// [`assignable_fuel`] at the given `fuel`.
pub open spec fn substitute_fuel(t: Type, m: Seq<(StringId, Type)>, span: Span, fuel: nat) -> (
    Type,
    Seq<CheckError>,
)
    decreases fuel, 1nat, type_size(t),
{
    match t {
        Type::GenericParam(gp) => {
            let (to_sub, e1) = match find_binding(m, gp.identifier.name) {
                Some(x) => (x, Seq::<CheckError>::empty()),
                None => (Type::Unknown, seq![unresolved(gp.identifier, span)]),
            };
            match gp.constraint {
                Some(c) => if !assignable_fuel(to_sub, *c, fuel) {
                    (
                        Type::Unknown,
                        e1.push(
                            CheckError::IncompatibleGenericParamSubstitution {
                                generic_param: gp,
                                arg_type: to_sub,
                                is_inferred: true,
                            },
                        ),
                    )
                } else {
                    (to_sub, e1)
                },
                None => (to_sub, e1),
            }
        },
        Type::FnType(f) => {
            let (applied, e1) = spec_resolve_args(f.generic_params, m, span);
            let (params, e2) = substitute_params_fuel(f.params, m, span, fuel);
            let (ret, e3) = substitute_fuel(*f.return_type, m, span, fuel);
            (
                Type::FnType(
                    CheckedFnType {
                        params,
                        return_type: Box::new(ret),
                        generic_params: List::Nil,
                        applied_type_args: applied,
                    },
                ),
                e1 + e2 + e3,
            )
        },
        Type::Struct(fields) => {
            let (fs, e) = substitute_params_fuel(fields, m, span, fuel);
            (Type::Struct(fs), e)
        },
        Type::TypeAliasDecl(d) => {
            let (applied, e1) = spec_resolve_args(d.generic_params, m, span);
            let (value, e2) = substitute_fuel(*d.value, m, span, fuel);
            (
                Type::TypeAliasDecl(
                    Box::new(
                        CheckedTypeAliasDecl {
                            name: d.name,
                            generic_params: List::Nil,
                            value: Box::new(value),
                            applied_type_args: applied,
                        },
                    ),
                ),
                e1 + e2,
            )
        },
        Type::Array { item_type, size } => {
            let (item, e) = substitute_fuel(*item_type, m, span, fuel);
            (Type::Array { item_type: Box::new(item), size }, e)
        },
        Type::Union(items) => {
            let (ts, e) = substitute_list_fuel(items, m, span, fuel);
            (spec_union_of(ts.seq()), e)
        },
        _ => (t, Seq::empty()),
    }
}

pub open spec fn substitute_params_fuel(
    l: List<CheckedParam>,
    m: Seq<(StringId, Type)>,
    span: Span,
    fuel: nat,
) -> (List<CheckedParam>, Seq<CheckError>)
    decreases fuel, 1nat, params_size(l),
{
    match l {
        List::Nil => (List::Nil, Seq::empty()),
        List::Cons(p, rest) => {
            let (t, e1) = substitute_fuel(p.constraint, m, span, fuel);
            let (tail, e2) = substitute_params_fuel(*rest, m, span, fuel);
            (
                List::Cons(Box::new(CheckedParam { id: p.id, identifier: p.identifier, constraint: t }), Box::new(tail)),
                e1 + e2,
            )
        },
    }
}

pub open spec fn substitute_list_fuel(
    l: List<Type>,
    m: Seq<(StringId, Type)>,
    span: Span,
    fuel: nat,
) -> (List<Type>, Seq<CheckError>)
    decreases fuel, 1nat, types_size(l),
{
    match l {
        List::Nil => (List::Nil, Seq::empty()),
        List::Cons(t, rest) => {
            let (t2, e1) = substitute_fuel(*t, m, span, fuel);
            let (tail, e2) = substitute_list_fuel(*rest, m, span, fuel);
            (List::Cons(Box::new(t2), Box::new(tail)), e1 + e2)
        },
    }
}


/// `out` are the fields `fields`, in the same order, with the same ids and
/// names, each with its type substituted by `m`.
pub open spec fn fields_substituted(
    out: List<CheckedParam>,
    fields: List<CheckedParam>,
    m: Seq<(StringId, Type)>,
    span: Span,
) -> bool {
    &&& out.seq().len() == fields.seq().len()
    &&& forall|i: int|
        0 <= i < fields.seq().len() ==> {
            &&& (#[trigger] out.seq()[i]).id == fields.seq()[i].id
            &&& out.seq()[i].identifier == fields.seq()[i].identifier
            &&& out.seq()[i].constraint == spec_substitute(fields.seq()[i].constraint, m, span).0
        }
}

/// Substituting in a struct type gives a struct of the same fields, each
/// field's type substituted.
pub proof fn lemma_substitute_struct(fields: List<CheckedParam>, m: Seq<(StringId, Type)>, span: Span)
    ensures
        spec_substitute(Type::Struct(fields), m, span).0 is Struct,
        fields_substituted(spec_substitute(Type::Struct(fields), m, span).0->Struct_0, fields, m, span),
{
    lemma_substitute_params_pointwise(fields, m, span);
}

proof fn lemma_substitute_params_pointwise(fields: List<CheckedParam>, m: Seq<(StringId, Type)>, span: Span)
    ensures
        fields_substituted(substitute_params_fuel(fields, m, span, u64::MAX as nat).0, fields, m, span),
    decreases fields,
{
    match fields {
        List::Cons(p, rest) => {
            lemma_substitute_params_pointwise(*rest, m, span);
            let out = substitute_params_fuel(fields, m, span, u64::MAX as nat).0;
            let tail = substitute_params_fuel(*rest, m, span, u64::MAX as nat).0;
            assert forall|i: int| 0 <= i < fields.seq().len() implies {
                &&& (#[trigger] out.seq()[i]).id == fields.seq()[i].id
                &&& out.seq()[i].identifier == fields.seq()[i].identifier
                &&& out.seq()[i].constraint == spec_substitute(fields.seq()[i].constraint, m, span).0
            } by {
                if i > 0 {
                    assert(out.seq()[i] == tail.seq()[i - 1]);
                    assert(fields.seq()[i] == rest.seq()[i - 1]);
                }
            }
        },
        List::Nil => {},
    }
}

/// A generic parameter bound in `m` to a type that meets its constraint (or
/// that has none) becomes that type, without an error.
pub proof fn lemma_substitute_bound_param(
    gp: CheckedGenericParam,
    m: Seq<(StringId, Type)>,
    span: Span,
    x: Type,
)
    requires
        find_binding(m, gp.identifier.name) == Some(x),
        gp.constraint matches Some(c) ==> spec_assignable(x, *c),
    ensures
        spec_substitute(Type::GenericParam(gp), m, span) == (x, Seq::<CheckError>::empty()),
{
}

/// Appends to `errors` the errors of [`spec_resolve_args`] and returns its types.
pub fn resolve_args(
    generic_params: &List<CheckedGenericParam>,
    substitutions: &GenericSubstitutionMap,
    span: Span,
    errors: &mut Vec<CheckError>,
) -> (r: List<Type>)
    ensures
        r == spec_resolve_args(*generic_params, substitutions.entries@, span).0,
        final(errors)@ == old(errors)@ + spec_resolve_args(
            *generic_params,
            substitutions.entries@,
            span,
        ).1,
    decreases generic_params,
{
    match generic_params {
        List::Nil => {
            assert(old(errors)@ + Seq::<CheckError>::empty() =~= old(errors)@);
            List::Nil
        },
        List::Cons(gp, rest) => {
            let found = substitutions.get(gp.identifier.name);
            let head = match found {
                Some(t) => t,
                None => {
                    errors.push(CheckError::UnresolvedGenericParam { param: gp.identifier, span });
                    Type::Unknown
                },
            };
            let tail = resolve_args(rest, substitutions, span, errors);
            proof {
                let (_, errs) = spec_resolve_args(**rest, substitutions.entries@, span);
                if found is None {
                    assert(errors@ =~= old(errors)@ + (seq![unresolved(gp.identifier, span)] + errs));
                } else {
                    assert(errors@ =~= old(errors)@ + errs);
                }
            }
            List::Cons(Box::new(head), Box::new(tail))
        },
    }
}

/// Appends to `errors` the errors of [`substitute_fuel`] and returns its type.
pub fn substitute_type(
    ty: &Type,
    substitutions: &GenericSubstitutionMap,
    span: Span,
    fuel: u64,
    errors: &mut Vec<CheckError>,
) -> (r: Type)
    ensures
        r == substitute_fuel(*ty, substitutions.entries@, span, fuel as nat).0,
        final(errors)@ == old(errors)@ + substitute_fuel(
            *ty,
            substitutions.entries@,
            span,
            fuel as nat,
        ).1,
    decreases fuel, 1nat, type_size(*ty),
{
    let ghost m = substitutions.entries@;
    match ty {
        Type::GenericParam(gp) => {
            let found = substitutions.get(gp.identifier.name);
            let to_substitute = match found {
                Some(t) => t,
                None => {
                    errors.push(CheckError::UnresolvedGenericParam { param: gp.identifier, span });
                    Type::Unknown
                },
            };
            proof {
                if found is None {
                    assert(errors@ =~= old(errors)@ + seq![unresolved(gp.identifier, span)]);
                } else {
                    assert(errors@ =~= old(errors)@ + Seq::<CheckError>::empty());
                }
            }
            if let Some(c) = &gp.constraint {
                if !assignable_with_fuel(&to_substitute, c, fuel) {
                    errors.push(
                        CheckError::IncompatibleGenericParamSubstitution {
                            generic_param: copy_generic_param(gp),
                            arg_type: copy_type(&to_substitute),
                            is_inferred: true,
                        },
                    );
                    proof {
                        let e1 = if found is None {
                            seq![unresolved(gp.identifier, span)]
                        } else {
                            Seq::<CheckError>::empty()
                        };
                        assert(errors@ =~= old(errors)@ + e1.push(
                            CheckError::IncompatibleGenericParamSubstitution {
                                generic_param: *gp,
                                arg_type: to_substitute,
                                is_inferred: true,
                            },
                        ));
                    }
                    return Type::Unknown;
                }
            }
            to_substitute
        },
        Type::FnType(f) => {
            let applied = resolve_args(&f.generic_params, substitutions, span, errors);
            let params = substitute_param_list(&f.params, substitutions, span, fuel, errors);
            let ret = substitute_type(&f.return_type, substitutions, span, fuel, errors);
            proof {
                let (_, a) = spec_resolve_args(f.generic_params, m, span);
                let (_, b) = substitute_params_fuel(f.params, m, span, fuel as nat);
                let (_, c) = substitute_fuel(*f.return_type, m, span, fuel as nat);
                assert(errors@ =~= old(errors)@ + (a + b + c));
            }
            Type::FnType(
                CheckedFnType {
                    params,
                    return_type: Box::new(ret),
                    generic_params: List::Nil,
                    applied_type_args: applied,
                },
            )
        },
        Type::Struct(fields) => Type::Struct(
            substitute_param_list(fields, substitutions, span, fuel, errors),
        ),
        Type::TypeAliasDecl(d) => {
            let applied = resolve_args(&d.generic_params, substitutions, span, errors);
            let value = substitute_type(&d.value, substitutions, span, fuel, errors);
            proof {
                let (_, a) = spec_resolve_args(d.generic_params, m, span);
                let (_, b) = substitute_fuel(*d.value, m, span, fuel as nat);
                assert(errors@ =~= old(errors)@ + (a + b));
            }
            Type::TypeAliasDecl(
                Box::new(
                    CheckedTypeAliasDecl {
                        name: d.name,
                        generic_params: List::Nil,
                        value: Box::new(value),
                        applied_type_args: applied,
                    },
                ),
            )
        },
        Type::Array { item_type, size } => {
            let item = substitute_type(item_type, substitutions, span, fuel, errors);
            Type::Array { item_type: Box::new(item), size: *size }
        },
        Type::Union(items) => {
            let substituted = substitute_type_list(items, substitutions, span, fuel, errors);
            let v = substituted.into_vec();
            union_of(v)
        },
        _ => {
            assert(old(errors)@ + Seq::<CheckError>::empty() =~= old(errors)@);
            copy_type(ty)
        },
    }
}

fn substitute_param_list(
    l: &List<CheckedParam>,
    substitutions: &GenericSubstitutionMap,
    span: Span,
    fuel: u64,
    errors: &mut Vec<CheckError>,
) -> (r: List<CheckedParam>)
    ensures
        r == substitute_params_fuel(*l, substitutions.entries@, span, fuel as nat).0,
        final(errors)@ == old(errors)@ + substitute_params_fuel(
            *l,
            substitutions.entries@,
            span,
            fuel as nat,
        ).1,
    decreases fuel, 1nat, params_size(*l),
{
    match l {
        List::Nil => {
            assert(old(errors)@ + Seq::<CheckError>::empty() =~= old(errors)@);
            List::Nil
        },
        List::Cons(p, rest) => {
            let t = substitute_type(&p.constraint, substitutions, span, fuel, errors);
            let tail = substitute_param_list(rest, substitutions, span, fuel, errors);
            proof {
                let (_, a) = substitute_fuel(p.constraint, substitutions.entries@, span, fuel as nat);
                let (_, b) = substitute_params_fuel(**rest, substitutions.entries@, span, fuel as nat);
                assert(errors@ =~= old(errors)@ + (a + b));
            }
            List::Cons(Box::new(CheckedParam { id: p.id, identifier: p.identifier, constraint: t }), Box::new(tail))
        },
    }
}

fn substitute_type_list(
    l: &List<Type>,
    substitutions: &GenericSubstitutionMap,
    span: Span,
    fuel: u64,
    errors: &mut Vec<CheckError>,
) -> (r: List<Type>)
    ensures
        r == substitute_list_fuel(*l, substitutions.entries@, span, fuel as nat).0,
        final(errors)@ == old(errors)@ + substitute_list_fuel(
            *l,
            substitutions.entries@,
            span,
            fuel as nat,
        ).1,
    decreases fuel, 1nat, types_size(*l),
{
    match l {
        List::Nil => {
            assert(old(errors)@ + Seq::<CheckError>::empty() =~= old(errors)@);
            List::Nil
        },
        List::Cons(t, rest) => {
            let t2 = substitute_type(t, substitutions, span, fuel, errors);
            let tail = substitute_type_list(rest, substitutions, span, fuel, errors);
            proof {
                let (_, a) = substitute_fuel(**t, substitutions.entries@, span, fuel as nat);
                let (_, b) = substitute_list_fuel(**rest, substitutions.entries@, span, fuel as nat);
                assert(errors@ =~= old(errors)@ + (a + b));
            }
            List::Cons(Box::new(t2), Box::new(tail))
        },
    }
}

impl SemanticChecker {
    /// The types bound to the given generic parameters; an unbound parameter
    /// is reported and stands as `unknown`.
    pub fn resolve_applied_type_args(
        &mut self,
        generic_params: &List<CheckedGenericParam>,
        substitutions: &GenericSubstitutionMap,
        span: Span,
    ) -> (r: List<Type>)
        ensures
            r == spec_resolve_args(*generic_params, substitutions.entries@, span).0,
            final(self).errors@ == old(self).errors@ + spec_resolve_args(
                *generic_params,
                substitutions.entries@,
                span,
            ).1,
            final(self).scopes == old(self).scopes,
            final(self).node_counter == old(self).node_counter,
            final(self).definition_counter == old(self).definition_counter,
            final(self).span_registry == old(self).span_registry,
    {
        let mut errors: Vec<CheckError> = Vec::new();
        let r = resolve_args(generic_params, substitutions, span, &mut errors);
        self.errors.append(&mut errors);
        r
    }

    /// `ty` with the generic parameters bound in `substitutions` replaced;
    /// see [`spec_substitute`]. Errors are reported at `span`.
    pub fn substitute_generics(
        &mut self,
        ty: &Type,
        substitutions: &GenericSubstitutionMap,
        span: Span,
    ) -> (r: Type)
        ensures
            r == spec_substitute(*ty, substitutions.entries@, span).0,
            final(self).errors@ == old(self).errors@ + spec_substitute(
                *ty,
                substitutions.entries@,
                span,
            ).1,
            final(self).scopes == old(self).scopes,
            final(self).node_counter == old(self).node_counter,
            final(self).definition_counter == old(self).definition_counter,
            final(self).span_registry == old(self).span_registry,
    {
        let mut errors: Vec<CheckError> = Vec::new();
        let r = substitute_type(ty, substitutions, span, u64::MAX, &mut errors);
        self.errors.append(&mut errors);
        r
    }
}

} // verus!

use vstd::prelude::*;

use crate::check::checker::SemanticChecker;
use crate::check::errors::CheckError;
use crate::check::substitute::{find_binding, GenericSubstitutionMap};
use crate::interner::StringId;
use crate::types::checked_type::{CheckedParam, Type};
use crate::types::copy::{copy_generic_param, copy_type};
use crate::types::eq::same_type;
use crate::types::list::List;

verus! {

/// Whether inference can walk `expected` against `received`: it cannot yet
/// handle a union where it expects a type.
pub open spec fn infer_supported(expected: Type, received: Type) -> bool
    decreases expected,
{
    match (expected, received) {
        (Type::GenericParam(_), _) => true,
        (Type::Array { item_type: e, .. }, Type::Array { item_type: r, .. }) => infer_supported(
            *e,
            *r,
        ),
        (Type::Struct(ef), Type::Struct(rf)) => params_infer_supported(ef, rf),
        (Type::FnType(ef), Type::FnType(rf)) => params_infer_supported(ef.params, rf.params)
            && infer_supported(*ef.return_type, *rf.return_type),
        (Type::Union(_), _) => false,
        _ => true,
    }
}

pub open spec fn params_infer_supported(e: List<CheckedParam>, r: List<CheckedParam>) -> bool
    decreases e,
{
    match (e, r) {
        (List::Cons(eh, et), List::Cons(rh, rt)) => infer_supported(eh.constraint, rh.constraint)
            && params_infer_supported(*et, *rt),
        _ => true,
    }
}

/// The bindings and errors after inferring the generic parameters of
/// `expected` from `received`, starting from bindings `m`. A parameter seen for
/// the first time is bound to what it meets; one seen again must meet the same
/// type, or a conflict is reported. Arrays, structs and function types are
/// walked member by member, pairing members by position.
pub open spec fn spec_infer(expected: Type, received: Type, m: Seq<(StringId, Type)>) -> (
    Seq<(StringId, Type)>,
    Seq<CheckError>,
)
    decreases expected,
{
    match (expected, received) {
        (Type::GenericParam(gp), _) => match find_binding(m, gp.identifier.name) {
            Some(existing) => if existing != received {
                (
                    m,
                    seq![
                        CheckError::ConflictingGenericBinding {
                            generic_param: gp,
                            existing,
                            new: received,
                        },
                    ],
                )
            } else {
                (m, Seq::empty())
            },
            None => (m.push((gp.identifier.name, received)), Seq::empty()),
        },
        (Type::Array { item_type: e, .. }, Type::Array { item_type: r, .. }) => spec_infer(
            *e,
            *r,
            m,
        ),
        (Type::Struct(ef), Type::Struct(rf)) => spec_infer_params(ef, rf, m),
        (Type::FnType(ef), Type::FnType(rf)) => {
            let (m1, e1) = spec_infer_params(ef.params, rf.params, m);
            let (m2, e2) = spec_infer(*ef.return_type, *rf.return_type, m1);
            (m2, e1 + e2)
        },
        _ => (m, Seq::empty()),
    }
}

pub open spec fn spec_infer_params(
    e: List<CheckedParam>,
    r: List<CheckedParam>,
    m: Seq<(StringId, Type)>,
) -> (Seq<(StringId, Type)>, Seq<CheckError>)
    decreases e,
{
    match (e, r) {
        (List::Cons(eh, et), List::Cons(rh, rt)) => {
            let (m1, e1) = spec_infer(eh.constraint, rh.constraint, m);
            let (m2, e2) = spec_infer_params(*et, *rt, m1);
            (m2, e1 + e2)
        },
        _ => (m, Seq::empty()),
    }
}


/// Inferring an array type against an array type binds and reports exactly
/// what inferring its item type against the received item type does; the
/// sizes play no part.
pub proof fn lemma_infer_array_items(
    e: Type,
    es: usize,
    r: Type,
    rs: usize,
    m: Seq<(StringId, Type)>,
)
    ensures
        spec_infer(
            Type::Array { item_type: Box::new(e), size: es },
            Type::Array { item_type: Box::new(r), size: rs },
            m,
        ) == spec_infer(e, r, m),
{
}

/// A generic parameter met for the first time is bound to the type it meets,
/// without an error; inside an array, to the received item type.
pub proof fn lemma_infer_binds_fresh(
    gp: crate::types::checked_type::CheckedGenericParam,
    x: Type,
    es: usize,
    rs: usize,
    m: Seq<(StringId, Type)>,
)
    requires
        find_binding(m, gp.identifier.name) is None,
    ensures
        find_binding(spec_infer(Type::GenericParam(gp), x, m).0, gp.identifier.name) == Some(x),
        spec_infer(Type::GenericParam(gp), x, m).1 == Seq::<CheckError>::empty(),
        find_binding(
            spec_infer(
                Type::Array { item_type: Box::new(Type::GenericParam(gp)), size: es },
                Type::Array { item_type: Box::new(x), size: rs },
                m,
            ).0,
            gp.identifier.name,
        ) == Some(x),
{
    lemma_infer_array_items(Type::GenericParam(gp), es, x, rs, m);
    assert(m.push((gp.identifier.name, x)).drop_last() == m);
}

/// Inference never drops or changes a binding it started with.
pub proof fn lemma_infer_keeps_bindings(expected: Type, received: Type, m: Seq<(StringId, Type)>)
    ensures
        forall|n: StringId|
            find_binding(m, n) is Some ==> #[trigger] find_binding(spec_infer(expected, received, m).0, n)
                == find_binding(m, n),
    decreases expected,
{
    match (expected, received) {
        (Type::GenericParam(gp), _) => {
            if find_binding(m, gp.identifier.name) is None {
                let m2 = m.push((gp.identifier.name, received));
                assert(m2.drop_last() == m);
                assert forall|n: StringId| find_binding(m, n) is Some implies #[trigger] find_binding(m2, n)
                    == find_binding(m, n) by {
                    assert(n != gp.identifier.name);
                }
            }
        },
        (Type::Array { item_type: e, .. }, Type::Array { item_type: r, .. }) => {
            lemma_infer_keeps_bindings(*e, *r, m);
        },
        (Type::Struct(ef), Type::Struct(rf)) => {
            lemma_infer_params_keeps_bindings(ef, rf, m);
        },
        (Type::FnType(ef), Type::FnType(rf)) => {
            lemma_infer_params_keeps_bindings(ef.params, rf.params, m);
            let m1 = spec_infer_params(ef.params, rf.params, m).0;
            lemma_infer_keeps_bindings(*ef.return_type, *rf.return_type, m1);
            assert forall|n: StringId| find_binding(m, n) is Some implies #[trigger] find_binding(
                spec_infer(expected, received, m).0,
                n,
            ) == find_binding(m, n) by {
                assert(find_binding(m1, n) == find_binding(m, n));
            }
        },
        _ => {},
    }
}

proof fn lemma_infer_params_keeps_bindings(e: List<CheckedParam>, r: List<CheckedParam>, m: Seq<(StringId, Type)>)
    ensures
        forall|n: StringId|
            find_binding(m, n) is Some ==> #[trigger] find_binding(spec_infer_params(e, r, m).0, n)
                == find_binding(m, n),
    decreases e,
{
    match (e, r) {
        (List::Cons(eh, et), List::Cons(rh, rt)) => {
            lemma_infer_keeps_bindings(eh.constraint, rh.constraint, m);
            let m1 = spec_infer(eh.constraint, rh.constraint, m).0;
            lemma_infer_params_keeps_bindings(*et, *rt, m1);
            assert forall|n: StringId| find_binding(m, n) is Some implies #[trigger] find_binding(
                spec_infer_params(e, r, m).0,
                n,
            ) == find_binding(m, n) by {
                assert(find_binding(m1, n) == find_binding(m, n));
            }
        },
        _ => {},
    }
}

impl SemanticChecker {
    /// Infers the generic parameters of `expected` from `received`; see
    /// [`spec_infer`].
    pub fn infer_generics(
        &mut self,
        expected: &Type,
        received: &Type,
        substitution: &mut GenericSubstitutionMap,
    )
        requires
            infer_supported(*expected, *received),
        ensures
            final(substitution).entries@ == spec_infer(
                *expected,
                *received,
                old(substitution).entries@,
            ).0,
            final(self).errors@ == old(self).errors@ + spec_infer(
                *expected,
                *received,
                old(substitution).entries@,
            ).1,
            final(self).scopes == old(self).scopes,
            final(self).node_counter == old(self).node_counter,
            final(self).definition_counter == old(self).definition_counter,
            final(self).span_registry == old(self).span_registry,
        decreases expected,
    {
        match (expected, received) {
            (Type::GenericParam(gp), _) => {
                match substitution.get(gp.identifier.name) {
                    Some(existing) => {
                        if !same_type(&existing, received) {
                            self.errors.push(
                                CheckError::ConflictingGenericBinding {
                                    generic_param: copy_generic_param(gp),
                                    existing,
                                    new: copy_type(received),
                                },
                            );
                            assert(self.errors@ =~= old(self).errors@ + seq![
                                CheckError::ConflictingGenericBinding {
                                    generic_param: *gp,
                                    existing: find_binding(old(substitution).entries@, gp.identifier.name).unwrap(),
                                    new: *received,
                                },
                            ]);
                        } else {
                            assert(self.errors@ =~= old(self).errors@ + Seq::<CheckError>::empty());
                        }
                    },
                    None => {
                        substitution.entries.push((gp.identifier.name, copy_type(received)));
                        assert(self.errors@ =~= old(self).errors@ + Seq::<CheckError>::empty());
                    },
                }
            },
            (Type::Array { item_type: e, .. }, Type::Array { item_type: r, .. }) => {
                self.infer_generics(e, r, substitution);
            },
            (Type::Struct(ef), Type::Struct(rf)) => {
                self.infer_generics_params(ef, rf, substitution);
            },
            (Type::FnType(ef), Type::FnType(rf)) => {
                self.infer_generics_params(&ef.params, &rf.params, substitution);
                let ghost mid = self.errors@;
                let ghost mid_m = substitution.entries@;
                self.infer_generics(&ef.return_type, &rf.return_type, substitution);
                proof {
                    let (m1, e1) = spec_infer_params(
                        ef.params,
                        rf.params,
                        old(substitution).entries@,
                    );
                    let (_, e2) = spec_infer(*ef.return_type, *rf.return_type, m1);
                    assert(self.errors@ =~= old(self).errors@ + (e1 + e2));
                }
            },
            _ => {
                assert(self.errors@ =~= old(self).errors@ + Seq::<CheckError>::empty());
            },
        }
    }

    fn infer_generics_params(
        &mut self,
        e: &List<CheckedParam>,
        r: &List<CheckedParam>,
        substitution: &mut GenericSubstitutionMap,
    )
        requires
            params_infer_supported(*e, *r),
        ensures
            final(substitution).entries@ == spec_infer_params(
                *e,
                *r,
                old(substitution).entries@,
            ).0,
            final(self).errors@ == old(self).errors@ + spec_infer_params(
                *e,
                *r,
                old(substitution).entries@,
            ).1,
            final(self).scopes == old(self).scopes,
            final(self).node_counter == old(self).node_counter,
            final(self).definition_counter == old(self).definition_counter,
            final(self).span_registry == old(self).span_registry,
        decreases e,
    {
        match (e, r) {
            (List::Cons(eh, et), List::Cons(rh, rt)) => {
                self.infer_generics(&eh.constraint, &rh.constraint, substitution);
                self.infer_generics_params(et, rt, substitution);
                proof {
                    let (m1, e1) = spec_infer(
                        eh.constraint,
                        rh.constraint,
                        old(substitution).entries@,
                    );
                    let (_, e2) = spec_infer_params(**et, **rt, m1);
                    assert(self.errors@ =~= old(self).errors@ + (e1 + e2));
                }
            },
            _ => {
                assert(self.errors@ =~= old(self).errors@ + Seq::<CheckError>::empty());
            },
        }
    }
}

} // verus!

use vstd::prelude::*;

use crate::ast::{GenericParam, Param, TypeAnnotation, TypeAnnotationKind};
use crate::check::checked_ast::CheckedType;
use crate::check::checker::{env_insert, lookup_env, SemanticChecker, SymbolEnv};
use crate::check::errors::CheckError;
use crate::check::scope::{copy_symbol_entry, find_symbol, ScopeKind, SymbolEntry};
use crate::check::substitute::{spec_substitute, GenericSubstitutionMap};
use crate::check::union_of::{distinct, distinct_types};
use crate::interner::StringId;
use crate::number::NumberKind;
use crate::span::{DefinitionId, Span};
use crate::types::checked_type::{
    CheckedFnType, CheckedGenericParam, CheckedParam, CheckedTypeAliasDecl, Type,
};
use crate::types::copy::{copy_generic_param, copy_generic_param_list, copy_type};
use crate::types::list::List;

verus! {

/// A type that still needs type arguments (a generic type alias) is reported
/// and becomes `unknown`.
pub open spec fn spec_has_type_args(t: Type, span: Span) -> (Type, Seq<CheckError>) {
    match t {
        Type::TypeAliasDecl(d) => if d.generic_params is Cons {
            (Type::Unknown, seq![CheckError::ExpectedTypeArguments { span }])
        } else {
            (t, Seq::empty())
        },
        _ => (t, Seq::empty()),
    }
}

/// The size an array annotation gives: a number that fits in `usize`, not a
/// floating-point one.
pub open spec fn spec_array_size(n: NumberKind) -> Option<usize> {
    match n {
        NumberKind::USize(v) => Some(v),
        NumberKind::U64(v) => if v <= usize::MAX {
            Some(v as usize)
        } else {
            None
        },
        NumberKind::U32(v) => if v <= usize::MAX {
            Some(v as usize)
        } else {
            None
        },
        NumberKind::U16(v) => Some(v as usize),
        NumberKind::U8(v) => Some(v as usize),
        NumberKind::ISize(v) => if v >= 0 {
            Some(v as usize)
        } else {
            None
        },
        NumberKind::I64(v) => if 0 <= v <= usize::MAX {
            Some(v as usize)
        } else {
            None
        },
        NumberKind::I32(v) => if v >= 0 {
            Some(v as usize)
        } else {
            None
        },
        NumberKind::I16(v) => if v >= 0 {
            Some(v as usize)
        } else {
            None
        },
        NumberKind::I8(v) => if v >= 0 {
            Some(v as usize)
        } else {
            None
        },
        NumberKind::F32(_) | NumberKind::F64(_) => None,
    }
}

pub open spec fn sat_len(n: nat) -> usize {
    if n <= usize::MAX {
        n as usize
    } else {
        usize::MAX
    }
}

/// The bindings of generic parameters to type arguments, position by position.
pub open spec fn type_arg_bindings(gps: Seq<CheckedGenericParam>, args: Seq<Type>) -> Seq<
    (StringId, Type),
> {
    Seq::new(gps.len(), |i: int| (gps[i].identifier.name, args[i]))
}

/// Applying type arguments to a generic type: the counts must match, and then
/// each generic parameter is replaced by its argument.
pub open spec fn spec_apply_type_args(
    gps: List<CheckedGenericParam>,
    args: Seq<Type>,
    left: Type,
    span: Span,
) -> (Type, Seq<CheckError>) {
    if gps.seq().len() != args.len() {
        (
            Type::Unknown,
            seq![
                CheckError::GenericArgumentCountMismatch {
                    expected_count: sat_len(gps.seq().len()),
                    received_count: sat_len(args.len()),
                    span,
                },
            ],
        )
    } else {
        spec_substitute(left, type_arg_bindings(gps.seq(), args), span)
    }
}

/// The semantic type of an annotation, in the scopes `env`: the type, the
/// errors reported on the way, and the number of definition ids used.
pub open spec fn spec_check_annotation(a: TypeAnnotation, env: SymbolEnv, next: nat) -> (
    Type,
    Seq<CheckError>,
    nat,
)
    decreases a, 0nat,
{
    match a.kind {
        TypeAnnotationKind::Void => (Type::Void, Seq::empty(), 0),
        TypeAnnotationKind::Null => (Type::Null, Seq::empty(), 0),
        TypeAnnotationKind::Bool => (Type::Bool, Seq::empty(), 0),
        TypeAnnotationKind::U8 => (Type::U8, Seq::empty(), 0),
        TypeAnnotationKind::U16 => (Type::U16, Seq::empty(), 0),
        TypeAnnotationKind::U32 => (Type::U32, Seq::empty(), 0),
        TypeAnnotationKind::U64 => (Type::U64, Seq::empty(), 0),
        TypeAnnotationKind::USize => (Type::USize, Seq::empty(), 0),
        TypeAnnotationKind::ISize => (Type::ISize, Seq::empty(), 0),
        TypeAnnotationKind::I8 => (Type::I8, Seq::empty(), 0),
        TypeAnnotationKind::I16 => (Type::I16, Seq::empty(), 0),
        TypeAnnotationKind::I32 => (Type::I32, Seq::empty(), 0),
        TypeAnnotationKind::I64 => (Type::I64, Seq::empty(), 0),
        TypeAnnotationKind::F32 => (Type::F32, Seq::empty(), 0),
        TypeAnnotationKind::F64 => (Type::F64, Seq::empty(), 0),
        TypeAnnotationKind::Char => (Type::Char, Seq::empty(), 0),
        TypeAnnotationKind::Struct(params) => {
            let (ps, e, d) = spec_check_params(params, env, next);
            (Type::Struct(ps), e, d)
        },
        TypeAnnotationKind::GenericApply { left, args } => {
            let (lt, e1, d1) = spec_check_annotation(*left, env, next);
            let (ts, e2, d2) = spec_check_annotation_list(args, env, next + d1);
            let (t, e3) = match lt {
                Type::FnType(f) => spec_apply_type_args(f.generic_params, ts.seq(), lt, a.span),
                Type::TypeAliasDecl(d) => spec_apply_type_args(
                    d.generic_params,
                    ts.seq(),
                    lt,
                    a.span,
                ),
                _ => (
                    Type::Unknown,
                    seq![CheckError::CannotApplyTypeArguments { to: lt, span: a.span }],
                ),
            };
            (t, e1 + e2 + e3, d1 + d2)
        },
        TypeAnnotationKind::Identifier(id) => match lookup_env(env, id.name) {
            Some(SymbolEntry::TypeAliasDecl(d)) => (
                Type::TypeAliasDecl(Box::new(d)),
                Seq::empty(),
                0,
            ),
            Some(SymbolEntry::GenericParam(gp)) => (Type::GenericParam(gp), Seq::empty(), 0),
            Some(SymbolEntry::VarDecl(_)) => (
                Type::Unknown,
                seq![CheckError::CannotUseVariableDeclarationAsType { span: a.span }],
                0,
            ),
            None => (Type::Unknown, seq![CheckError::UndeclaredType { id }], 0),
        },
        TypeAnnotationKind::FnType { params, return_type, generic_params } => {
            let env1 = env.push(Seq::empty());
            let (gps, e1, d1, env2) = spec_check_generic_params(generic_params, env1, next);
            let (ps, e2, d2) = spec_check_params(params, env2, next + d1);
            let (rt, e3, d3) = spec_check_annotation_full(*return_type, env2, next + d1 + d2);
            (
                Type::FnType(
                    CheckedFnType {
                        params: ps,
                        return_type: Box::new(rt),
                        generic_params: gps,
                        applied_type_args: List::Nil,
                    },
                ),
                e1 + e2 + e3,
                d1 + d2 + d3,
            )
        },
        TypeAnnotationKind::Union(items) => {
            let (ts, e, d) = spec_check_annotation_list(items, env, next);
            (Type::Union(List::from_seq(distinct(ts.seq()))), e, d)
        },
        TypeAnnotationKind::Array { item_type, size } => {
            let (it, e, d) = spec_check_annotation_full(*item_type, env, next);
            match spec_array_size(size) {
                Some(n) => (Type::Array { item_type: Box::new(it), size: n }, e, d),
                None => (
                    Type::Unknown,
                    seq![CheckError::InvalidArraySizeValue { span: a.span, value: size }] + e,
                    d,
                ),
            }
        },
    }
}

/// [`spec_check_annotation`] followed by [`spec_has_type_args`].
pub open spec fn spec_check_annotation_full(a: TypeAnnotation, env: SymbolEnv, next: nat) -> (
    Type,
    Seq<CheckError>,
    nat,
)
    decreases a, 1nat,
{
    let (t, e, d) = spec_check_annotation(a, env, next);
    let (t2, e2) = spec_has_type_args(t, a.span);
    (t2, e + e2, d)
}

pub open spec fn spec_check_annotation_list(l: List<TypeAnnotation>, env: SymbolEnv, next: nat) -> (
    List<Type>,
    Seq<CheckError>,
    nat,
)
    decreases l, 0nat,
{
    match l {
        List::Nil => (List::Nil, Seq::empty(), 0),
        List::Cons(h, t) => {
            let (ht, e1, d1) = spec_check_annotation_full(*h, env, next);
            let (tt, e2, d2) = spec_check_annotation_list(*t, env, next + d1);
            (List::Cons(Box::new(ht), Box::new(tt)), e1 + e2, d1 + d2)
        },
    }
}

/// The checked parameters; each one takes the next definition id, before its
/// type is checked.
pub open spec fn spec_check_params(l: List<Param>, env: SymbolEnv, next: nat) -> (
    List<CheckedParam>,
    Seq<CheckError>,
    nat,
)
    decreases l, 0nat,
{
    match l {
        List::Nil => (List::Nil, Seq::empty(), 0),
        List::Cons(p, t) => {
            let (c, e1, d1) = spec_check_annotation_full(p.constraint, env, next + 1);
            let (rest, e2, d2) = spec_check_params(*t, env, next + 1 + d1);
            (
                List::Cons(
                    Box::new(
                        CheckedParam {
                            id: DefinitionId(next as usize),
                            identifier: p.identifier,
                            constraint: c,
                        },
                    ),
                    Box::new(rest),
                ),
                e1 + e2,
                1 + d1 + d2,
            )
        },
    }
}

/// The checked generic parameters, each declared in the innermost scope as it
/// is checked, so that later ones see earlier ones.
pub open spec fn spec_check_generic_params(l: List<GenericParam>, env: SymbolEnv, next: nat) -> (
    List<CheckedGenericParam>,
    Seq<CheckError>,
    nat,
    SymbolEnv,
)
    decreases l, 0nat,
{
    match l {
        List::Nil => (List::Nil, Seq::empty(), 0, env),
        List::Cons(gp, t) => {
            let (c, e1, d1) = match gp.constraint {
                Some(ca) => {
                    let (ct, ce, cd) = spec_check_annotation_full(*ca, env, next);
                    (Some(Box::new(ct)), ce, cd)
                },
                None => (None, Seq::<CheckError>::empty(), 0nat),
            };
            let checked = CheckedGenericParam { identifier: gp.identifier, constraint: c };
            let dup = if find_symbol(env.last(), gp.identifier.name) is Some {
                seq![CheckError::DuplicateIdentifier { id: gp.identifier }]
            } else {
                Seq::empty()
            };
            let env1 = env_insert(env, gp.identifier.name, SymbolEntry::GenericParam(checked));
            let (rest, e2, d2, env2) = spec_check_generic_params(*t, env1, next + d1);
            (List::Cons(Box::new(checked), Box::new(rest)), e1 + dup + e2, d1 + d2, env2)
        },
    }
}

/// The parameters checked by [`spec_check_params`] keep their identifiers
/// and take the ids `next`, `next + 1`, ... in increasing order, each below
/// `next` plus the number of ids used.
pub proof fn lemma_param_ids(l: List<Param>, env: SymbolEnv, next: nat)
    requires
        next + spec_check_params(l, env, next).2 <= usize::MAX,
    ensures
        ({
            let (r, _, d) = spec_check_params(l, env, next);
            &&& r.seq().len() == l.seq().len()
            &&& forall|i: int|
                0 <= i < r.seq().len() ==> (#[trigger] r.seq()[i]).identifier == l.seq()[i].identifier
                    && next <= r.seq()[i].id.0 < next + d
            &&& forall|i: int, j: int|
                0 <= i < j < r.seq().len() ==> (#[trigger] r.seq()[i]).id.0 < (#[trigger] r.seq()[j]).id.0
        }),
    decreases l,
{
    match l {
        List::Nil => {},
        List::Cons(p, t) => {
            let (_, _, d1) = spec_check_annotation_full(p.constraint, env, next + 1);
            lemma_param_ids(*t, env, next + 1 + d1);
            let (r, _, d) = spec_check_params(l, env, next);
            let (rest, _, _) = spec_check_params(*t, env, next + 1 + d1);
            assert(r.seq() == seq![r.seq()[0]] + rest.seq());
            assert forall|i: int| 0 < i < r.seq().len() implies r.seq()[i] == rest.seq()[i - 1] by {}
        },
    }
}

/// The generic parameters checked by [`spec_check_generic_params`] keep their
/// identifiers, and have a constraint exactly when they were written with one.
pub proof fn lemma_generic_param_identifiers(l: List<GenericParam>, env: SymbolEnv, next: nat)
    ensures
        ({
            let r = spec_check_generic_params(l, env, next).0;
            &&& r.seq().len() == l.seq().len()
            &&& forall|i: int|
                0 <= i < r.seq().len() ==> (#[trigger] r.seq()[i]).identifier == l.seq()[i].identifier
                    && (r.seq()[i].constraint is Some <==> l.seq()[i].constraint is Some)
        }),
    decreases l,
{
    match l {
        List::Nil => {},
        List::Cons(gp, t) => {
            let (r, _, _, _) = spec_check_generic_params(l, env, next);
            let (_, _, d1) = match gp.constraint {
                Some(ca) => {
                    let (ct, ce, cd) = spec_check_annotation_full(*ca, env, next);
                    (Some(Box::new(ct)), ce, cd)
                },
                None => (None::<Box<Type>>, Seq::<CheckError>::empty(), 0nat),
            };
            let c = match gp.constraint {
                Some(ca) => Some(Box::new(spec_check_annotation_full(*ca, env, next).0)),
                None => None,
            };
            let checked = CheckedGenericParam { identifier: gp.identifier, constraint: c };
            let envx = env_insert(env, gp.identifier.name, SymbolEntry::GenericParam(checked));
            lemma_generic_param_identifiers(*t, envx, next + d1);
            let rest = spec_check_generic_params(*t, envx, next + d1).0;
            assert(r.seq() == seq![r.seq()[0]] + rest.seq());
            assert forall|i: int| 0 < i < r.seq().len() implies r.seq()[i] == rest.seq()[i - 1] by {}
        },
    }
}

fn saturating_len<T>(l: &List<T>) -> (r: usize)
    ensures
        r == sat_len(l.seq().len()),
    decreases l,
{
    match l {
        List::Nil => 0,
        List::Cons(_, t) => {
            let n = saturating_len(t);
            if n < usize::MAX {
                n + 1
            } else {
                usize::MAX
            }
        },
    }
}

fn same_length<A, B>(a: &List<A>, b: &List<B>) -> (r: bool)
    ensures
        r == (a.seq().len() == b.seq().len()),
    decreases a,
{
    match (a, b) {
        (List::Nil, List::Nil) => true,
        (List::Cons(_, at), List::Cons(_, bt)) => same_length(at, bt),
        _ => false,
    }
}

fn array_size(n: &NumberKind) -> (r: Option<usize>)
    ensures
        r == spec_array_size(*n),
{
    match *n {
        NumberKind::USize(v) => Some(v),
        NumberKind::U64(v) => if v <= usize::MAX as u64 {
            Some(v as usize)
        } else {
            None
        },
        NumberKind::U32(v) => if v as u64 <= usize::MAX as u64 {
            Some(v as usize)
        } else {
            None
        },
        NumberKind::U16(v) => Some(v as usize),
        NumberKind::U8(v) => Some(v as usize),
        NumberKind::ISize(v) => if v >= 0 {
            Some(v as usize)
        } else {
            None
        },
        NumberKind::I64(v) => if v >= 0 && v as u64 <= usize::MAX as u64 {
            Some(v as usize)
        } else {
            None
        },
        NumberKind::I32(v) => if v >= 0 {
            Some(v as usize)
        } else {
            None
        },
        NumberKind::I16(v) => if v >= 0 {
            Some(v as usize)
        } else {
            None
        },
        NumberKind::I8(v) => if v >= 0 {
            Some(v as usize)
        } else {
            None
        },
        NumberKind::F32(_) | NumberKind::F64(_) => None,
    }
}


/// What checking an annotation leaves as it was: the scopes, the node ids and
/// the span registry.
pub open spec fn keeps_scopes(before: SemanticChecker, after: SemanticChecker) -> bool {
    &&& after.wf()
    &&& after.scopes@ == before.scopes@
    &&& after.node_counter == before.node_counter
    &&& after.span_registry == before.span_registry
}

proof fn lemma_bindings_cons(
    gp: CheckedGenericParam,
    gps: List<CheckedGenericParam>,
    a: Type,
    args: List<Type>,
)
    requires
        gps.seq().len() == args.seq().len(),
    ensures
        type_arg_bindings(
            List::Cons(Box::new(gp), Box::new(gps)).seq(),
            List::Cons(Box::new(a), Box::new(args)).seq(),
        ) == seq![(gp.identifier.name, a)] + type_arg_bindings(gps.seq(), args.seq()),
{
    assert(type_arg_bindings(
        List::Cons(Box::new(gp), Box::new(gps)).seq(),
        List::Cons(Box::new(a), Box::new(args)).seq(),
    ) =~= seq![(gp.identifier.name, a)] + type_arg_bindings(gps.seq(), args.seq()));
}

fn bind_type_args(
    gps: &List<CheckedGenericParam>,
    args: &List<Type>,
    map: &mut GenericSubstitutionMap,
)
    requires
        gps.seq().len() == args.seq().len(),
    ensures
        final(map).entries@ == old(map).entries@ + type_arg_bindings(gps.seq(), args.seq()),
    decreases gps,
{
    match (gps, args) {
        (List::Cons(gp, gt), List::Cons(a, at)) => {
            map.entries.push((gp.identifier.name, copy_type(a)));
            bind_type_args(gt, at, map);
            proof {
                lemma_bindings_cons(**gp, **gt, **a, **at);
                assert(map.entries@ =~= old(map).entries@ + type_arg_bindings(
                    gps.seq(),
                    args.seq(),
                ));
            }
        },
        _ => {
            assert(type_arg_bindings(gps.seq(), args.seq()) =~= Seq::<(StringId, Type)>::empty());
            assert(map.entries@ =~= old(map).entries@ + Seq::<(StringId, Type)>::empty());
        },
    }
}

impl SemanticChecker {
    /// A type that still needs type arguments (a generic type alias) is
    /// reported at its span and becomes `unknown` there; any other type is
    /// kept.
    pub fn check_has_type_arguments_applied(&mut self, target: CheckedType) -> (r: CheckedType)
        ensures
            r.kind == spec_has_type_args(target.kind, target.span).0,
            r.span == target.span,
            final(self).errors@ == old(self).errors@ + spec_has_type_args(
                target.kind,
                target.span,
            ).1,
            final(self).definition_counter == old(self).definition_counter,
            final(self).scopes == old(self).scopes,
            final(self).node_counter == old(self).node_counter,
            final(self).span_registry == old(self).span_registry,
    {
        let has_type_args = match &target.kind {
            Type::TypeAliasDecl(decl) => decl.generic_params.is_empty(),
            _ => true,
        };
        if !has_type_args {
            self.errors.push(CheckError::ExpectedTypeArguments { span: target.span });
            CheckedType { kind: Type::Unknown, span: target.span }
        } else {
            assert(self.errors@ =~= old(self).errors@ + Seq::<CheckError>::empty());
            target
        }
    }

    /// The semantic type of `annotation`, at the annotation's span; see
    /// [`spec_check_annotation`].
    pub fn check_type_annotation_recursive(&mut self, annotation: &TypeAnnotation) -> (r:
        CheckedType)
        requires
            old(self).wf(),
            old(self).definition_counter + spec_check_annotation(
                *annotation,
                old(self).env(),
                old(self).definition_counter as nat,
            ).2 <= usize::MAX,
        ensures
            keeps_scopes(*old(self), *final(self)),
            r.kind == spec_check_annotation(
                *annotation,
                old(self).env(),
                old(self).definition_counter as nat,
            ).0,
            r.span == annotation.span,
            final(self).errors@ == old(self).errors@ + spec_check_annotation(
                *annotation,
                old(self).env(),
                old(self).definition_counter as nat,
            ).1,
            final(self).definition_counter == old(self).definition_counter + spec_check_annotation(
                *annotation,
                old(self).env(),
                old(self).definition_counter as nat,
            ).2,
    {
        let kind = self.annotation_kind(annotation);
        CheckedType { kind, span: annotation.span }
    }

    /// The semantic type of `annotation`, which must not still need type
    /// arguments, at the annotation's span; see [`spec_check_annotation_full`].
    pub fn check_type_annotation(&mut self, annotation: &TypeAnnotation) -> (r: CheckedType)
        requires
            old(self).wf(),
            old(self).definition_counter + spec_check_annotation_full(
                *annotation,
                old(self).env(),
                old(self).definition_counter as nat,
            ).2 <= usize::MAX,
        ensures
            keeps_scopes(*old(self), *final(self)),
            r.kind == spec_check_annotation_full(
                *annotation,
                old(self).env(),
                old(self).definition_counter as nat,
            ).0,
            r.span == annotation.span,
            final(self).errors@ == old(self).errors@ + spec_check_annotation_full(
                *annotation,
                old(self).env(),
                old(self).definition_counter as nat,
            ).1,
            final(self).definition_counter == old(self).definition_counter
                + spec_check_annotation_full(
                *annotation,
                old(self).env(),
                old(self).definition_counter as nat,
            ).2,
    {
        let kind = self.annotation_kind_full(annotation);
        CheckedType { kind, span: annotation.span }
    }

    fn apply_type_args(
        &mut self,
        gps: &List<CheckedGenericParam>,
        args: List<Type>,
        left: &Type,
        span: Span,
    ) -> (r: Type)
        ensures
            r == spec_apply_type_args(*gps, args.seq(), *left, span).0,
            final(self).errors@ == old(self).errors@ + spec_apply_type_args(
                *gps,
                args.seq(),
                *left,
                span,
            ).1,
            final(self).definition_counter == old(self).definition_counter,
            final(self).scopes == old(self).scopes,
            final(self).node_counter == old(self).node_counter,
            final(self).span_registry == old(self).span_registry,
    {
        if !same_length(gps, &args) {
            let expected_count = saturating_len(gps);
            let received_count = saturating_len(&args);
            self.errors.push(
                CheckError::GenericArgumentCountMismatch { expected_count, received_count, span },
            );
            return Type::Unknown;
        }
        let mut substitutions = GenericSubstitutionMap::new();
        bind_type_args(gps, &args, &mut substitutions);
        assert(substitutions.entries@ =~= type_arg_bindings(gps.seq(), args.seq()));
        self.substitute_generics(left, &substitutions, span)
    }

    /// The semantic type of `annotation`; see [`spec_check_annotation`].
    fn annotation_kind(&mut self, annotation: &TypeAnnotation) -> (r: Type)
        requires
            old(self).wf(),
            old(self).definition_counter + spec_check_annotation(*annotation, old(self).env(), old(self).definition_counter as nat).2
                <= usize::MAX,
            
        ensures
            keeps_scopes(*old(self), *final(self)),
            r == spec_check_annotation(*annotation, old(self).env(), old(self).definition_counter as nat).0,
            final(self).errors@ == old(self).errors@ + spec_check_annotation(
                *annotation,
                old(self).env(), old(self).definition_counter as nat,
            ).1,
            final(self).definition_counter == old(self).definition_counter + spec_check_annotation(
                *annotation,
                old(self).env(), old(self).definition_counter as nat,
            ).2,
        decreases annotation, 1nat,
    {
        match &annotation.kind {
            TypeAnnotationKind::Void => Type::Void,
            TypeAnnotationKind::Null => Type::Null,
            TypeAnnotationKind::Bool => Type::Bool,
            TypeAnnotationKind::U8 => Type::U8,
            TypeAnnotationKind::U16 => Type::U16,
            TypeAnnotationKind::U32 => Type::U32,
            TypeAnnotationKind::U64 => Type::U64,
            TypeAnnotationKind::USize => Type::USize,
            TypeAnnotationKind::ISize => Type::ISize,
            TypeAnnotationKind::I8 => Type::I8,
            TypeAnnotationKind::I16 => Type::I16,
            TypeAnnotationKind::I32 => Type::I32,
            TypeAnnotationKind::I64 => Type::I64,
            TypeAnnotationKind::F32 => Type::F32,
            TypeAnnotationKind::F64 => Type::F64,
            TypeAnnotationKind::Char => Type::Char,
            TypeAnnotationKind::Struct(params) => Type::Struct(self.check_params(params)),
            TypeAnnotationKind::GenericApply { .. } => self.check_generic_apply_annotation(annotation),
            TypeAnnotationKind::Identifier(_) => self.check_identifier_annotation(annotation),
            TypeAnnotationKind::FnType { .. } => self.check_fn_type_annotation(annotation),
            TypeAnnotationKind::Union(_) => self.check_union_annotation(annotation),
            TypeAnnotationKind::Array { .. } => self.check_array_annotation(annotation),
        }
    }

    fn check_generic_apply_annotation(&mut self, annotation: &TypeAnnotation) -> (r: Type)
        requires
            old(self).wf(),
            old(self).definition_counter + spec_check_annotation(*annotation, old(self).env(), old(self).definition_counter as nat).2
                <= usize::MAX,
            annotation.kind is GenericApply,
        ensures
            keeps_scopes(*old(self), *final(self)),
            r == spec_check_annotation(*annotation, old(self).env(), old(self).definition_counter as nat).0,
            final(self).errors@ == old(self).errors@ + spec_check_annotation(
                *annotation,
                old(self).env(), old(self).definition_counter as nat,
            ).1,
            final(self).definition_counter == old(self).definition_counter + spec_check_annotation(
                *annotation,
                old(self).env(), old(self).definition_counter as nat,
            ).2,
        decreases annotation, 0nat,
    {
        let ghost env = self.env();
        match &annotation.kind {
            TypeAnnotationKind::GenericApply { left, args } => {
                let lt = self.annotation_kind(left);
                let ts = self.check_annotation_list(args);
                let ghost e12 = self.errors@;
                let r = match &lt {
                    Type::FnType(f) => {
                        let gps = copy_generic_param_list(&f.generic_params);
                        self.apply_type_args(&gps, ts, &lt, annotation.span)
                    },
                    Type::TypeAliasDecl(d) => {
                        let gps = copy_generic_param_list(&d.generic_params);
                        self.apply_type_args(&gps, ts, &lt, annotation.span)
                    },
                    _ => {
                        self.errors.push(
                            CheckError::CannotApplyTypeArguments { to: lt, span: annotation.span },
                        );
                        Type::Unknown
                    },
                };
                proof {
                    let n0 = old(self).definition_counter as nat;
                    let (_, e1, d1) = spec_check_annotation(**left, env, n0);
                    let (_, e2, _) = spec_check_annotation_list(*args, env, n0 + d1);
                    let e3 = self.errors@.subrange(e12.len() as int, self.errors@.len() as int);
                    assert(e12 == old(self).errors@ + e1 + e2);
                    assert(self.errors@ =~= e12 + e3);
                    assert(self.errors@ =~= old(self).errors@ + (e1 + e2 + e3));
                }
                r
            },
            _ => {
                assert(false);
                Type::Unknown
            },
        }
    }

    fn check_identifier_annotation(&mut self, annotation: &TypeAnnotation) -> (r: Type)
        requires
            old(self).wf(),
            old(self).definition_counter + spec_check_annotation(*annotation, old(self).env(), old(self).definition_counter as nat).2
                <= usize::MAX,
            annotation.kind is Identifier,
        ensures
            keeps_scopes(*old(self), *final(self)),
            r == spec_check_annotation(*annotation, old(self).env(), old(self).definition_counter as nat).0,
            final(self).errors@ == old(self).errors@ + spec_check_annotation(
                *annotation,
                old(self).env(), old(self).definition_counter as nat,
            ).1,
            final(self).definition_counter == old(self).definition_counter + spec_check_annotation(
                *annotation,
                old(self).env(), old(self).definition_counter as nat,
            ).2,
        decreases annotation, 0nat,
    {
        let ghost env = self.env();
        match &annotation.kind {
            TypeAnnotationKind::Identifier(id) => {
                match self.scope_lookup(id.name) {
                    Some(SymbolEntry::TypeAliasDecl(d)) => {
                        assert(self.errors@ =~= old(self).errors@ + Seq::<CheckError>::empty());
                        Type::TypeAliasDecl(Box::new(d))
                    },
                    Some(SymbolEntry::GenericParam(gp)) => {
                        assert(self.errors@ =~= old(self).errors@ + Seq::<CheckError>::empty());
                        Type::GenericParam(gp)
                    },
                    Some(SymbolEntry::VarDecl(_)) => {
                        self.errors.push(
                            CheckError::CannotUseVariableDeclarationAsType { span: annotation.span },
                        );
                        Type::Unknown
                    },
                    None => {
                        self.errors.push(CheckError::UndeclaredType { id: *id });
                        Type::Unknown
                    },
                }
            },
            _ => {
                assert(false);
                Type::Unknown
            },
        }
    }

    fn check_fn_type_annotation(&mut self, annotation: &TypeAnnotation) -> (r: Type)
        requires
            old(self).wf(),
            old(self).definition_counter + spec_check_annotation(*annotation, old(self).env(), old(self).definition_counter as nat).2
                <= usize::MAX,
            annotation.kind is FnType,
        ensures
            keeps_scopes(*old(self), *final(self)),
            r == spec_check_annotation(*annotation, old(self).env(), old(self).definition_counter as nat).0,
            final(self).errors@ == old(self).errors@ + spec_check_annotation(
                *annotation,
                old(self).env(), old(self).definition_counter as nat,
            ).1,
            final(self).definition_counter == old(self).definition_counter + spec_check_annotation(
                *annotation,
                old(self).env(), old(self).definition_counter as nat,
            ).2,
        decreases annotation, 0nat,
    {
        let ghost env = self.env();
        match &annotation.kind {
            TypeAnnotationKind::FnType { params, return_type, generic_params } => {
                self.enter_scope(ScopeKind::FnType);
                let ghost env1 = self.env();
                let ghost scopes1 = self.scopes@;
                assert(env1 == env.push(Seq::empty()));
                let checked_generic_params = self.check_generic_params(generic_params);
                let checked_params = self.check_params(params);
                let checked_return_type = self.annotation_kind_full(return_type);
                let ghost scopes3 = self.scopes@;
                self.exit_scope();
                proof {
                    assert(self.scopes@ =~= old(self).scopes@);
                    let n0 = old(self).definition_counter as nat;
                    let (_, e1, d1, env2) = spec_check_generic_params(*generic_params, env1, n0);
                    let (_, e2, d2) = spec_check_params(*params, env2, n0 + d1);
                    let (_, e3, d3) = spec_check_annotation_full(**return_type, env2, n0 + d1 + d2);
                    assert(self.errors@ =~= old(self).errors@ + (e1 + e2 + e3));
                }
                Type::FnType(
                    CheckedFnType {
                        params: checked_params,
                        return_type: Box::new(checked_return_type),
                        generic_params: checked_generic_params,
                        applied_type_args: List::Nil,
                    },
                )
            },
            _ => {
                assert(false);
                Type::Unknown
            },
        }
    }

    fn check_union_annotation(&mut self, annotation: &TypeAnnotation) -> (r: Type)
        requires
            old(self).wf(),
            old(self).definition_counter + spec_check_annotation(*annotation, old(self).env(), old(self).definition_counter as nat).2
                <= usize::MAX,
            annotation.kind is Union,
        ensures
            keeps_scopes(*old(self), *final(self)),
            r == spec_check_annotation(*annotation, old(self).env(), old(self).definition_counter as nat).0,
            final(self).errors@ == old(self).errors@ + spec_check_annotation(
                *annotation,
                old(self).env(), old(self).definition_counter as nat,
            ).1,
            final(self).definition_counter == old(self).definition_counter + spec_check_annotation(
                *annotation,
                old(self).env(), old(self).definition_counter as nat,
            ).2,
        decreases annotation, 0nat,
    {
        let ghost env = self.env();
        match &annotation.kind {
            TypeAnnotationKind::Union(items) => {
                let ts = self.check_annotation_list(items);
                let v = ts.into_vec();
                let members = distinct_types(&v);
                let l = List::from_vec(members);
                proof {
                    List::<Type>::lemma_seq_from(l);
                }
                Type::Union(l)
            },
            _ => {
                assert(false);
                Type::Unknown
            },
        }
    }

    fn check_array_annotation(&mut self, annotation: &TypeAnnotation) -> (r: Type)
        requires
            old(self).wf(),
            old(self).definition_counter + spec_check_annotation(*annotation, old(self).env(), old(self).definition_counter as nat).2
                <= usize::MAX,
            annotation.kind is Array,
        ensures
            keeps_scopes(*old(self), *final(self)),
            r == spec_check_annotation(*annotation, old(self).env(), old(self).definition_counter as nat).0,
            final(self).errors@ == old(self).errors@ + spec_check_annotation(
                *annotation,
                old(self).env(), old(self).definition_counter as nat,
            ).1,
            final(self).definition_counter == old(self).definition_counter + spec_check_annotation(
                *annotation,
                old(self).env(), old(self).definition_counter as nat,
            ).2,
        decreases annotation, 0nat,
    {
        let ghost env = self.env();
        match &annotation.kind {
            TypeAnnotationKind::Array { item_type, size } => {
                match array_size(size) {
                    Some(n) => {
                        let it = self.annotation_kind_full(item_type);
                        Type::Array { item_type: Box::new(it), size: n }
                    },
                    None => {
                        self.errors.push(
                            CheckError::InvalidArraySizeValue { span: annotation.span, value: *size },
                        );
                        let ghost e0 = self.errors@;
                        let _ = self.annotation_kind_full(item_type);
                        proof {
                            let (_, e, _) = spec_check_annotation_full(**item_type, env, old(self).definition_counter as nat);
                            assert(self.errors@ =~= old(self).errors@ + (seq![
                                CheckError::InvalidArraySizeValue {
                                    span: annotation.span,
                                    value: *size,
                                },
                            ] + e));
                        }
                        Type::Unknown
                    },
                }
            },
            _ => {
                assert(false);
                Type::Unknown
            },
        }
    }

    fn annotation_kind_full(&mut self, annotation: &TypeAnnotation) -> (r: Type)
        requires
            old(self).wf(),
            old(self).definition_counter + spec_check_annotation_full(
                *annotation,
                old(self).env(), old(self).definition_counter as nat,
            ).2 <= usize::MAX,
        ensures
            keeps_scopes(*old(self), *final(self)),
            r == spec_check_annotation_full(*annotation, old(self).env(), old(self).definition_counter as nat).0,
            final(self).errors@ == old(self).errors@ + spec_check_annotation_full(
                *annotation,
                old(self).env(), old(self).definition_counter as nat,
            ).1,
            final(self).definition_counter == old(self).definition_counter
                + spec_check_annotation_full(*annotation, old(self).env(), old(self).definition_counter as nat).2,
        decreases annotation, 2nat,
    {
        let checked = self.annotation_kind(annotation);
        let r = self.check_has_type_arguments_applied(
            CheckedType { kind: checked, span: annotation.span },
        ).kind;
        proof {
            let (t, e, _) = spec_check_annotation(*annotation, old(self).env(), old(self).definition_counter as nat);
            let (_, e2) = spec_has_type_args(t, annotation.span);
            assert(self.errors@ =~= old(self).errors@ + (e + e2));
        }
        r
    }

    fn check_annotation_list(&mut self, l: &List<TypeAnnotation>) -> (r: List<Type>)
        requires
            old(self).wf(),
            old(self).definition_counter + spec_check_annotation_list(*l, old(self).env(), old(self).definition_counter as nat).2
                <= usize::MAX,
        ensures
            keeps_scopes(*old(self), *final(self)),
            r == spec_check_annotation_list(*l, old(self).env(), old(self).definition_counter as nat).0,
            final(self).errors@ == old(self).errors@ + spec_check_annotation_list(
                *l,
                old(self).env(), old(self).definition_counter as nat,
            ).1,
            final(self).definition_counter == old(self).definition_counter
                + spec_check_annotation_list(*l, old(self).env(), old(self).definition_counter as nat).2,
        decreases l, 0nat,
    {
        match l {
            List::Nil => {
                assert(self.errors@ =~= old(self).errors@ + Seq::<CheckError>::empty());
                List::Nil
            },
            List::Cons(h, t) => {
                let ht = self.annotation_kind_full(h);
                let tt = self.check_annotation_list(t);
                proof {
                    let n0 = old(self).definition_counter as nat;
                    let (_, e1, d1) = spec_check_annotation_full(**h, old(self).env(), n0);
                    let (_, e2, _) = spec_check_annotation_list(**t, old(self).env(), n0 + d1);
                    assert(self.errors@ =~= old(self).errors@ + (e1 + e2));
                }
                List::Cons(Box::new(ht), Box::new(tt))
            },
        }
    }

    /// The checked parameters; each one takes a fresh definition id, in
    /// increasing order.
    pub fn check_params(&mut self, params: &List<Param>) -> (r: List<CheckedParam>)
        requires
            old(self).wf(),
            old(self).definition_counter + spec_check_params(*params, old(self).env(), old(self).definition_counter as nat).2
                <= usize::MAX,
        ensures
            keeps_scopes(*old(self), *final(self)),
            r == spec_check_params(*params, old(self).env(), old(self).definition_counter as nat).0,
            r.seq().len() == params.seq().len(),
            forall|i: int|
                0 <= i < r.seq().len() ==> (#[trigger] r.seq()[i]).identifier == params.seq()[i].identifier
                    && old(self).definition_counter <= r.seq()[i].id.0 < final(self).definition_counter,
            forall|i: int, j: int|
                0 <= i < j < r.seq().len() ==> (#[trigger] r.seq()[i]).id.0 < (#[trigger] r.seq()[j]).id.0,
            final(self).errors@ == old(self).errors@ + spec_check_params(
                *params,
                old(self).env(), old(self).definition_counter as nat,
            ).1,
            final(self).definition_counter == old(self).definition_counter + spec_check_params(
                *params,
                old(self).env(), old(self).definition_counter as nat,
            ).2,
        decreases params, 0nat,
    {
        proof {
            lemma_param_ids(*params, old(self).env(), old(self).definition_counter as nat);
        }
        match params {
            List::Nil => {
                assert(self.errors@ =~= old(self).errors@ + Seq::<CheckError>::empty());
                List::Nil
            },
            List::Cons(p, t) => {
                let id = self.get_definition_id();
                let constraint = self.annotation_kind_full(&p.constraint);
                let rest = self.check_params(t);
                proof {
                    let n0 = old(self).definition_counter as nat;
                    let (_, e1, d1) = spec_check_annotation_full(p.constraint, old(self).env(), n0 + 1);
                    let (_, e2, _) = spec_check_params(**t, old(self).env(), n0 + 1 + d1);
                    assert(self.errors@ =~= old(self).errors@ + (e1 + e2));
                }
                List::Cons(
                    Box::new(CheckedParam { id, identifier: p.identifier, constraint }),
                    Box::new(rest),
                )
            },
        }
    }

    /// The checked generic parameters, each declared in the innermost scope as
    /// soon as it is checked.
    pub fn check_generic_params(&mut self, generic_params: &List<GenericParam>) -> (r: List<
        CheckedGenericParam,
    >)
        requires
            old(self).wf(),
            old(self).scopes@.len() > 0,
            old(self).definition_counter + spec_check_generic_params(
                *generic_params,
                old(self).env(), old(self).definition_counter as nat,
            ).2 <= usize::MAX,
        ensures
            final(self).wf(),
            final(self).scopes@.len() == old(self).scopes@.len(),
            final(self).scopes@.drop_last() == old(self).scopes@.drop_last(),
            final(self).env() == spec_check_generic_params(*generic_params, old(self).env(), old(self).definition_counter as nat).3,
            final(self).node_counter == old(self).node_counter,
            final(self).span_registry == old(self).span_registry,
            r == spec_check_generic_params(*generic_params, old(self).env(), old(self).definition_counter as nat).0,
            r.seq().len() == generic_params.seq().len(),
            forall|i: int|
                0 <= i < r.seq().len() ==> (#[trigger] r.seq()[i]).identifier
                    == generic_params.seq()[i].identifier && (r.seq()[i].constraint is Some
                    <==> generic_params.seq()[i].constraint is Some),
            final(self).errors@ == old(self).errors@ + spec_check_generic_params(
                *generic_params,
                old(self).env(), old(self).definition_counter as nat,
            ).1,
            final(self).definition_counter == old(self).definition_counter
                + spec_check_generic_params(*generic_params, old(self).env(), old(self).definition_counter as nat).2,
        decreases generic_params, 0nat,
    {
        proof {
            lemma_generic_param_identifiers(
                *generic_params,
                old(self).env(),
                old(self).definition_counter as nat,
            );
        }
        match generic_params {
            List::Nil => {
                assert(self.errors@ =~= old(self).errors@ + Seq::<CheckError>::empty());
                List::Nil
            },
            List::Cons(gp, t) => {
                let constraint = match &gp.constraint {
                    Some(c) => Some(Box::new(self.annotation_kind_full(c))),
                    None => None,
                };
                let checked = CheckedGenericParam { identifier: gp.identifier, constraint };
                let ghost e1 = self.errors@;
                let ghost scopes1 = self.scopes@;
                let entry = SymbolEntry::GenericParam(copy_generic_param(&checked));
                self.scope_insert(gp.identifier, entry);
                let ghost scopes2 = self.scopes@;
                let ghost e_dup = self.errors@;
                let rest = self.check_generic_params(t);
                proof {
                    assert(self.scopes@.drop_last() =~= old(self).scopes@.drop_last());
                    let gpv: GenericParam = **gp;
                    let (c, ce, cd0) = match gpv.constraint {
                        Some(ca) => {
                            let (ct, ce, cd) = spec_check_annotation_full(*ca, old(self).env(), old(self).definition_counter as nat);
                            (Some(Box::new(ct)), ce, cd)
                        },
                        None => (None, Seq::<CheckError>::empty(), 0nat),
                    };
                    assert(e1 =~= old(self).errors@ + ce);
                    let env = old(self).env();
                    assert(symbol_last(scopes1) == env.last());
                    let dup = if find_symbol(env.last(), gp.identifier.name) is Some {
                        seq![CheckError::DuplicateIdentifier { id: gp.identifier }]
                    } else {
                        Seq::empty()
                    };
                    assert(e_dup =~= e1 + dup);
                    let env1 = env_insert(
                        env,
                        gp.identifier.name,
                        SymbolEntry::GenericParam(checked),
                    );
                    let (_, e2, _, _) = spec_check_generic_params(**t, env1, old(self).definition_counter as nat + cd0);
                    assert(self.errors@ =~= old(self).errors@ + (ce + dup + e2));
                }
                List::Cons(Box::new(checked), Box::new(rest))
            },
        }
    }
}

spec fn symbol_last(scopes: Seq<crate::check::scope::Scope>) -> Seq<(StringId, SymbolEntry)> {
    scopes.last().symbols@
}

} // verus!

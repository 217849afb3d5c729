use vstd::prelude::*;

use crate::ast::{block_ok, block_size, branches_ok, branches_size, expr_ok, expr_size, BlockContents, Expr, ExprKind, IfBranch};
use crate::check::assignable::{check_is_assignable, spec_assignable};
use crate::hir::cfg::basic_blocks::{
    constant_instruction, pointee, value_type, value_within, BasicBlock, BasicBlockId, ValueTable,
};
use crate::hir::cfg::instructions::Instruction;
use crate::hir::cfg::{Place, Terminator, Value, ValueId};
use crate::hir::declarations::{
    decls_within, lemma_decls_within_extends, lookup_decl, scope_lookup, scopes_within,
    CheckedDeclaration, DeclScope,
};
use crate::hir::errors::{SemanticError, SemanticErrorKind};
use crate::hir::function_builder::{edge_kept, keeps_unterminated, lemma_edge_kept_trans, FunctionBuilder};
use crate::span::{IdentifierNode, Span};
use crate::types::checked_type::Type;
use crate::types::copy::copy_type;
use crate::types::list::List;

verus! {

/// Whether an `if` gives a value or only directs control.
#[derive(Clone, Copy, Debug, PartialEq, Eq, Structural)]
pub enum IfContext {
    /// The `if` is used to produce a value
    Expression,
    /// The `if` is used for control flow, its value is discarded
    Statement,
}

/// The blocks of `a` other than block `x` keep their terminators in `b`, up to
/// arguments added at the end of their edges.
pub open spec fn keeps_others(a: Seq<BasicBlock>, b: Seq<BasicBlock>, x: int) -> bool {
    forall|i: int| 0 <= i < a.len() && i != x ==> edge_kept(a[i].terminator, (#[trigger] b[i]).terminator)
}

/// `e1` starts with the errors of `e0`.
pub open spec fn errors_extended(e0: Seq<SemanticError>, e1: Seq<SemanticError>) -> bool {
    e0.len() <= e1.len() && forall|k: int| 0 <= k < e0.len() ==> #[trigger] e1[k] == e0[k]
}

/// What lowering code leaves of the builder `fb0` and the values `v0`: both
/// stay well formed, values are only added, blocks are only added, the block
/// being filled is open and is the first one or a new one, and every other
/// block of `fb0` keeps its terminator.
pub open spec fn lowered(fb0: FunctionBuilder, v0: ValueTable, fb1: FunctionBuilder, v1: ValueTable) -> bool {
    &&& fb1.wf()
    &&& v1.wf()
    &&& v1.extends(&v0)
    &&& fb0.blocks().len() <= fb1.blocks().len()
    &&& fb1.blocks()[fb1.current_block.0 as int].terminator is None
    &&& (fb1.current_block == fb0.current_block || fb1.current_block.0 >= fb0.blocks().len())
    &&& keeps_others(fb0.blocks(), fb1.blocks(), fb0.current_block.0 as int)
    &&& fb1.return_type == fb0.return_type
    &&& fb1.cfg.entry_block == fb0.cfg.entry_block
    &&& fb1.predicates == fb0.predicates
}

/// What lowering code needs: a well-formed builder whose current block is
/// open, names that stand for known declarations, and variables kept in
/// known pointers.
pub open spec fn ready(
    fb: FunctionBuilder,
    values: ValueTable,
    scopes: Seq<DeclScope>,
    decls: Seq<CheckedDeclaration>,
) -> bool {
    &&& fb.wf()
    &&& values.wf()
    &&& fb.blocks()[fb.current_block.0 as int].terminator is None
    &&& scopes_within(scopes, decls.len())
    &&& decls_within(decls, values)
}


/// The number of nodes of an optional `else` block.
pub open spec fn else_size(b: Option<BlockContents>) -> nat {
    match b {
        Some(b) => block_size(b),
        None => 0,
    }
}

/// The branches of an `if` agree on a type when each branch's type is
/// assignable to the first one's; the first branch whose type is not is
/// reported against the first type, at that branch.
pub open spec fn spec_unify(entries: Seq<(Type, Span)>) -> Result<Type, SemanticError>
    decreases entries.len(),
{
    if entries.len() <= 1 {
        Ok(if entries.len() == 0 { Type::Void } else { entries[0].0 })
    } else {
        match spec_unify(entries.drop_last()) {
            Err(e) => Err(e),
            Ok(first) => if spec_assignable(entries.last().0, first) {
                Ok(first)
            } else {
                Err(
                    SemanticError {
                        kind: SemanticErrorKind::IncompatibleBranchTypes {
                            first,
                            second: entries.last().0,
                        },
                        span: entries.last().1,
                    },
                )
            },
        }
    }
}

/// The type that the branches of an `if` agree on; see [`spec_unify`].
pub fn unify_branch_types(entries: &Vec<(Type, Span)>) -> (r: Result<Type, SemanticError>)
    ensures
        r == spec_unify(entries@),
{
    if entries.len() == 0 {
        return Ok(Type::Void);
    }
    let first = copy_type(&entries[0].0);
    let mut i: usize = 1;
    proof {
        assert(entries@.take(1).drop_last() =~= Seq::<(Type, Span)>::empty());
        assert(spec_unify(entries@.take(1)) == Ok::<Type, SemanticError>(entries@[0].0));
    }
    while i < entries.len()
        invariant
            1 <= i <= entries@.len(),
            first == entries@[0].0,
            spec_unify(entries@.take(i as int)) == Ok::<Type, SemanticError>(first),
        decreases entries@.len() - i,
    {
        proof {
            assert(entries@.take(i + 1).drop_last() =~= entries@.take(i as int));
            assert(entries@.take(i + 1).last() == entries@[i as int]);
        }
        if !check_is_assignable(&entries[i].0, &first) {
            proof {
                lemma_unify_prefix_err(entries@, (i + 1) as int);
            }
            return Err(
                SemanticError {
                    kind: SemanticErrorKind::IncompatibleBranchTypes {
                        first,
                        second: copy_type(&entries[i].0),
                    },
                    span: entries[i].1,
                },
            );
        }
        i = i + 1;
    }
    proof {
        assert(entries@.take(entries@.len() as int) =~= entries@);
    }
    Ok(first)
}

/// Once a prefix disagrees, so does every longer prefix, with the same error.
proof fn lemma_unify_prefix_err(entries: Seq<(Type, Span)>, k: int)
    requires
        1 <= k <= entries.len(),
        spec_unify(entries.take(k)) is Err,
    ensures
        spec_unify(entries) == spec_unify(entries.take(k)),
    decreases entries.len() - k,
{
    if k < entries.len() {
        assert(entries.take(k + 1).drop_last() =~= entries.take(k));
        lemma_unify_prefix_err(entries, k + 1);
    } else {
        assert(entries.take(k) =~= entries);
    }
}


/// The blocks where branches of an `if` end, with their values: each is
/// `first` or lies at or after `lo`, is open, is not `avoid`, and no two are
/// the same.
pub open spec fn results_open(
    fb: FunctionBuilder,
    values: ValueTable,
    results: Seq<(BasicBlockId, Value, Span)>,
    lo: nat,
    first: BasicBlockId,
    avoid: BasicBlockId,
) -> bool {
    &&& forall|k: int|
        0 <= k < results.len() ==> {
            &&& (lo <= (#[trigger] results[k]).0.0 || results[k].0 == first)
            &&& results[k].0.0 < fb.blocks().len()
            &&& fb.blocks()[results[k].0.0 as int].terminator is None
            &&& results[k].0 != avoid
            &&& value_within(values, results[k].1)
        }
    &&& forall|k: int, j: int| 0 <= k < j < results.len() ==> (#[trigger] results[k]).0 != (#[trigger] results[j]).0
}

proof fn lemma_results_kept(
    fb1: FunctionBuilder,
    v1: ValueTable,
    fb2: FunctionBuilder,
    v2: ValueTable,
    results: Seq<(BasicBlockId, Value, Span)>,
    lo: nat,
    first: BasicBlockId,
    avoid: BasicBlockId,
    x: int,
)
    requires
        results_open(fb1, v1, results, lo, first, avoid),
        keeps_others(fb1.blocks(), fb2.blocks(), x),
        fb1.blocks().len() <= fb2.blocks().len(),
        v1.count() <= v2.count(),
        forall|k: int| 0 <= k < results.len() ==> (#[trigger] results[k]).0.0 != x,
    ensures
        results_open(fb2, v2, results, lo, first, avoid),
{
    assert forall|k: int| 0 <= k < results.len() implies {
        &&& (lo <= (#[trigger] results[k]).0.0 || results[k].0 == first)
        &&& results[k].0.0 < fb2.blocks().len()
        &&& fb2.blocks()[results[k].0.0 as int].terminator is None
        &&& results[k].0 != avoid
        &&& value_within(v2, results[k].1)
    } by {
        let b = results[k].0.0 as int;
        assert(edge_kept(fb1.blocks()[b].terminator, fb2.blocks()[b].terminator));
    }
}

proof fn lemma_extends_trans(v0: ValueTable, v1: ValueTable, v2: ValueTable)
    requires
        v0.wf(),
        v1.wf(),
        v2.wf(),
        v1.extends(&v0),
        v2.extends(&v1),
    ensures
        v2.extends(&v0),
{
    assert forall|k: int| 0 <= k < v0.count() implies v2.types@[k] == v0.types@[k] && v2.blocks@[k]
        == v0.blocks@[k] by {
        assert(v2.types@.subrange(0, v1.count() as int)[k] == v1.types@[k]);
        assert(v1.types@.subrange(0, v0.count() as int)[k] == v0.types@[k]);
        assert(v2.blocks@.subrange(0, v1.count() as int)[k] == v1.blocks@[k]);
        assert(v1.blocks@.subrange(0, v0.count() as int)[k] == v0.blocks@[k]);
    }
    assert(v2.types@.subrange(0, v0.count() as int) =~= v0.types@);
    assert(v2.blocks@.subrange(0, v0.count() as int) =~= v0.blocks@);
}

proof fn lemma_extends_refl(v: ValueTable)
    requires
        v.wf(),
    ensures
        v.extends(&v),
{
    assert(v.types@.subrange(0, v.count() as int) =~= v.types@);
    assert(v.blocks@.subrange(0, v.count() as int) =~= v.blocks@);
}

proof fn lemma_lowered_refl(fb: FunctionBuilder, v: ValueTable)
    requires
        fb.wf(),
        v.wf(),
        fb.blocks()[fb.current_block.0 as int].terminator is None,
    ensures
        lowered(fb, v, fb, v),
{
    lemma_extends_refl(v);
    assert forall|i: int| 0 <= i < fb.blocks().len() implies edge_kept(
        fb.blocks()[i].terminator,
        (#[trigger] fb.blocks()[i]).terminator,
    ) by {
        crate::hir::function_builder::lemma_edge_kept_refl(fb.blocks()[i].terminator);
    }
}

/// A step after a lowering: the blocks of the lowered state other than its
/// current one keep their terminators, and the new current block is open and
/// is the first one or a new one.
proof fn lemma_lowered_step(
    fb0: FunctionBuilder,
    v0: ValueTable,
    fb1: FunctionBuilder,
    v1: ValueTable,
    fb2: FunctionBuilder,
    v2: ValueTable,
)
    requires
        lowered(fb0, v0, fb1, v1),
        v0.wf(),
        fb2.wf(),
        v2.wf(),
        v2.extends(&v1),
        fb1.blocks().len() <= fb2.blocks().len(),
        keeps_others(fb1.blocks(), fb2.blocks(), fb1.current_block.0 as int),
        fb2.blocks()[fb2.current_block.0 as int].terminator is None,
        fb2.current_block == fb0.current_block || fb2.current_block.0 >= fb0.blocks().len(),
        fb2.return_type == fb1.return_type,
        fb2.cfg.entry_block == fb1.cfg.entry_block,
        fb2.predicates == fb1.predicates,
    ensures
        lowered(fb0, v0, fb2, v2),
{
    lemma_extends_trans(v0, v1, v2);
    assert forall|i: int| 0 <= i < fb0.blocks().len() && i != fb0.current_block.0 implies edge_kept(
        fb0.blocks()[i].terminator,
        (#[trigger] fb2.blocks()[i]).terminator,
    ) by {
        assert(edge_kept(fb0.blocks()[i].terminator, fb1.blocks()[i].terminator));
        assert(i != fb1.current_block.0);
        assert(edge_kept(fb1.blocks()[i].terminator, fb2.blocks()[i].terminator));
        lemma_edge_kept_trans(fb0.blocks()[i].terminator, fb1.blocks()[i].terminator, fb2.blocks()[i].terminator);
    }
}

proof fn lemma_keeps_all(a: Seq<BasicBlock>, b: Seq<BasicBlock>, x: int)
    requires
        keeps_unterminated(a, b),
    ensures
        keeps_others(a, b, x),
{
    assert forall|i: int| 0 <= i < a.len() && i != x implies edge_kept(
        a[i].terminator,
        (#[trigger] b[i]).terminator,
    ) by {
        assert(edge_kept(a[i].terminator, b[i].terminator));
    }
}

/// The type of an operand.
fn type_of_value(values: &ValueTable, v: &Value) -> (r: Type)
    requires
        value_within(*values, *v),
    ensures
        r == value_type(*values, *v),
{
    match v {
        Value::VoidLiteral => Type::Void,
        Value::BoolLiteral(_) => Type::Bool,
        Value::NumberLiteral(n) => match n {
            crate::number::NumberKind::I64(_) => Type::I64,
            crate::number::NumberKind::I32(_) => Type::I32,
            crate::number::NumberKind::I16(_) => Type::I16,
            crate::number::NumberKind::I8(_) => Type::I8,
            crate::number::NumberKind::F32(_) => Type::F32,
            crate::number::NumberKind::F64(_) => Type::F64,
            crate::number::NumberKind::U64(_) => Type::U64,
            crate::number::NumberKind::U32(_) => Type::U32,
            crate::number::NumberKind::U16(_) => Type::U16,
            crate::number::NumberKind::U8(_) => Type::U8,
            crate::number::NumberKind::USize(_) => Type::USize,
            crate::number::NumberKind::ISize(_) => Type::ISize,
        },
        Value::Use(id) => copy_type(values.type_of(*id)),
    }
}

proof fn lemma_block_changed(fb0: FunctionBuilder, fb1: FunctionBuilder, b: int)
    requires
        fb0.wf(),
        0 <= b < fb0.blocks().len(),
        fb1.blocks().len() == fb0.blocks().len(),
        forall|i: int| 0 <= i < fb0.blocks().len() && i != b ==> #[trigger] fb1.blocks()[i] == fb0.blocks()[i],
        fb1.blocks()[b].id == fb0.blocks()[b].id,
        fb1.blocks()[b].predecessors == fb0.blocks()[b].predecessors,
        fb1.blocks()[b].terminator == fb0.blocks()[b].terminator,
        fb1.cfg.entry_block == fb0.cfg.entry_block,
        fb1.current_block == fb0.current_block,
    ensures
        fb1.wf(),
        keeps_unterminated(fb0.blocks(), fb1.blocks()),
{
    assert forall|i: int| 0 <= i < fb1.blocks().len() implies (#[trigger] fb1.blocks()[i]).id.0 == i by {
        if i != b {
            assert(fb1.blocks()[i] == fb0.blocks()[i]);
        }
    }
    assert forall|i: int, j: int|
        0 <= i < fb1.blocks().len() && 0 <= j < fb1.blocks()[i].predecessors@.len() implies (
        #[trigger] fb1.blocks()[i].predecessors@[j]).0 < fb1.blocks().len() by {
        if i != b {
            assert(fb1.blocks()[i] == fb0.blocks()[i]);
        }
        assert(fb0.blocks()[i].predecessors@[j].0 < fb0.blocks().len());
    }
    assert forall|i: int| 0 <= i < fb0.blocks().len() implies edge_kept(
        fb0.blocks()[i].terminator,
        (#[trigger] fb1.blocks()[i]).terminator,
    ) by {
        if i != b {
            assert(fb1.blocks()[i] == fb0.blocks()[i]);
        }
        crate::hir::function_builder::lemma_edge_kept_refl(fb0.blocks()[i].terminator);
    }
}

proof fn lemma_lookup_within(scopes: Seq<DeclScope>, name: crate::interner::StringId, count: nat)
    requires
        scopes_within(scopes, count),
    ensures
        lookup_decl(scopes, name) matches Some(d) ==> d.0 < count,
    decreases scopes.len(),
{
    if scopes.len() > 0 {
        let syms = scopes.last().symbols@;
        lemma_symbols_within(syms, name, count, scopes, scopes.len() - 1);
        assert(scopes_within(scopes.drop_last(), count)) by {
            assert forall|i: int, j: int|
                0 <= i < scopes.drop_last().len() && 0 <= j < scopes.drop_last()[i].symbols@.len()
                    implies (#[trigger] scopes.drop_last()[i].symbols@[j]).1.0 < count by {
                assert(scopes.drop_last()[i] == scopes[i]);
                assert(scopes[i].symbols@[j].1.0 < count);
            }
        }
        lemma_lookup_within(scopes.drop_last(), name, count);
    }
}

proof fn lemma_symbols_within(
    syms: Seq<(crate::interner::StringId, crate::hir::cfg::DeclarationId)>,
    name: crate::interner::StringId,
    count: nat,
    scopes: Seq<DeclScope>,
    s: int,
)
    requires
        scopes_within(scopes, count),
        0 <= s < scopes.len(),
        syms.len() <= scopes[s].symbols@.len(),
        forall|j: int| 0 <= j < syms.len() ==> syms[j] == scopes[s].symbols@[j],
    ensures
        crate::hir::declarations::lookup_symbols(syms, name) matches Some(d) ==> d.0 < count,
    decreases syms.len(),
{
    if syms.len() > 0 {
        assert(scopes[s].symbols@[syms.len() - 1].1.0 < count);
        lemma_symbols_within(syms.drop_last(), name, count, scopes, s);
    }
}

proof fn lemma_set_keeps_others(a: Seq<BasicBlock>, b: Seq<BasicBlock>, x: int)
    requires
        a.len() == b.len(),
        forall|i: int| 0 <= i < a.len() && i != x ==> #[trigger] b[i].terminator == a[i].terminator,
    ensures
        keeps_others(a, b, x),
{
    assert forall|i: int| 0 <= i < a.len() && i != x implies edge_kept(
        a[i].terminator,
        (#[trigger] b[i]).terminator,
    ) by {
        crate::hir::function_builder::lemma_edge_kept_refl(a[i].terminator);
    }
}

proof fn lemma_others_then_all(a: Seq<BasicBlock>, b: Seq<BasicBlock>, c: Seq<BasicBlock>, x: int)
    requires
        keeps_others(a, b, x),
        keeps_unterminated(b, c),
        a.len() <= b.len(),
    ensures
        keeps_others(a, c, x),
{
    assert forall|i: int| 0 <= i < a.len() && i != x implies edge_kept(
        a[i].terminator,
        (#[trigger] c[i]).terminator,
    ) by {
        assert(edge_kept(a[i].terminator, b[i].terminator));
        assert(edge_kept(b[i].terminator, c[i].terminator));
        lemma_edge_kept_trans(a[i].terminator, b[i].terminator, c[i].terminator);
    }
}

proof fn lemma_others_then_all_others(a: Seq<BasicBlock>, b: Seq<BasicBlock>, c: Seq<BasicBlock>, x: int)
    requires
        keeps_others(a, b, x),
        keeps_others(b, c, x),
        a.len() <= b.len(),
    ensures
        keeps_others(a, c, x),
{
    assert forall|i: int| 0 <= i < a.len() && i != x implies edge_kept(
        a[i].terminator,
        (#[trigger] c[i]).terminator,
    ) by {
        assert(edge_kept(a[i].terminator, b[i].terminator));
        assert(edge_kept(b[i].terminator, c[i].terminator));
        lemma_edge_kept_trans(a[i].terminator, b[i].terminator, c[i].terminator);
    }
}

proof fn lemma_others_trans(a: Seq<BasicBlock>, b: Seq<BasicBlock>, c: Seq<BasicBlock>, x: int, y: int)
    requires
        keeps_others(a, b, x),
        keeps_others(b, c, y),
        a.len() <= b.len(),
        y == x || y >= a.len() || y < 0,
    ensures
        keeps_others(a, c, x),
{
    assert forall|i: int| 0 <= i < a.len() && i != x implies edge_kept(
        a[i].terminator,
        (#[trigger] c[i]).terminator,
    ) by {
        assert(edge_kept(a[i].terminator, b[i].terminator));
        assert(edge_kept(b[i].terminator, c[i].terminator));
        lemma_edge_kept_trans(a[i].terminator, b[i].terminator, c[i].terminator);
    }
}

proof fn lemma_all_trans(a: Seq<BasicBlock>, b: Seq<BasicBlock>, c: Seq<BasicBlock>)
    requires
        keeps_unterminated(a, b),
        keeps_unterminated(b, c),
        a.len() <= b.len(),
    ensures
        keeps_unterminated(a, c),
{
    assert forall|i: int| 0 <= i < a.len() implies edge_kept(
        a[i].terminator,
        (#[trigger] c[i]).terminator,
    ) by {
        assert(edge_kept(a[i].terminator, b[i].terminator));
        assert(edge_kept(b[i].terminator, c[i].terminator));
        lemma_edge_kept_trans(a[i].terminator, b[i].terminator, c[i].terminator);
    }
}

/// What `left && right` (`is_or` false) or `left || right` (`is_or` true)
/// leaves, from the builder `fb0`, values `v0` and errors `e0` to `fb1`,
/// `v1`, `e1`, with the result `r`. The block `R` that evaluates the right
/// operand and the merge block `M` are the first two blocks added, and the
/// merge block's boolean parameter `P` the first value added. Either an
/// operand that is not a boolean is reported at its span and the result is a
/// new value of unknown type; or the block where the left operand ends jumps
/// on its value to `M`, handing it the constant that decides the whole (`true`
/// for `||`, `false` for `&&`), or to `R`; the block where the right operand
/// ends jumps to `M` with its value; and the result is `P`, in `M`, which is
/// the block being filled.
pub open spec fn logical_outcome(
    is_or: bool,
    fb0: FunctionBuilder,
    v0: ValueTable,
    e0: Seq<SemanticError>,
    fb1: FunctionBuilder,
    v1: ValueTable,
    e1: Seq<SemanticError>,
    left: Expr,
    right: Expr,
    r: Value,
) -> bool {
    let rb = BasicBlockId(fb0.blocks().len() as usize);
    let mb = BasicBlockId((fb0.blocks().len() + 1) as usize);
    let p = ValueId(v0.count() as usize);
    ||| {
        &&& e1.len() > e0.len()
        &&& e1.last() matches SemanticError {
            kind: SemanticErrorKind::TypeMismatch { expected, received },
            span,
        }
        &&& expected == Type::Bool
        &&& !spec_assignable(received, Type::Bool)
        &&& (span == left.span || span == right.span)
        &&& r == Value::Use(ValueId((v1.count() - 1) as usize))
        &&& v1.types@.last() == Type::Unknown
    }
    ||| {
        &&& r == Value::Use(p)
        &&& v1.types@[p.0 as int] == Type::Bool
        &&& v1.blocks@[p.0 as int] == mb
        &&& fb1.current_block == mb
        &&& exists|x: int| 0 <= x < fb1.blocks().len() && #[trigger] logical_branch(
            is_or,
            fb1.blocks()[x].terminator,
            v1,
            rb,
            mb,
        )
        &&& exists|y: int| 0 <= y < fb1.blocks().len() && #[trigger] jumps_with_bool(
            fb1.blocks()[y].terminator,
            v1,
            mb,
        )
    }
}

/// `t` branches on a boolean to `mb`, handing it a boolean, or to `rb`: when
/// it holds for `||`, when it does not for `&&`.
pub open spec fn logical_branch(
    is_or: bool,
    t: Option<Terminator>,
    v: ValueTable,
    rb: BasicBlockId,
    mb: BasicBlockId,
) -> bool {
    match t {
        Some(Terminator::CondJump { condition, true_target, true_args, false_target, false_args }) => {
            &&& condition.0 < v.count()
            &&& spec_assignable(v.types@[condition.0 as int], Type::Bool)
            &&& if is_or {
                &&& true_target == mb
                &&& false_target == rb
                &&& true_args@.len() >= 1
                &&& true_args@[0].0 < v.count()
                &&& v.types@[true_args@[0].0 as int] == Type::Bool
            } else {
                &&& true_target == rb
                &&& false_target == mb
                &&& false_args@.len() >= 1
                &&& false_args@[0].0 < v.count()
                &&& v.types@[false_args@[0].0 as int] == Type::Bool
            }
        },
        _ => false,
    }
}

/// `t` jumps to `mb`, handing it first a value that is a boolean.
pub open spec fn jumps_with_bool(t: Option<Terminator>, v: ValueTable, mb: BasicBlockId) -> bool {
    match t {
        Some(Terminator::Jump { target, args }) => target == mb && args@.len() >= 1 && args@[0].0
            < v.count() && spec_assignable(
            v.types@[args@[0].0 as int],
            Type::Bool,
        ),
        _ => false,
    }
}

proof fn lemma_branch_kept(
    is_or: bool,
    t1: Option<Terminator>,
    t2: Option<Terminator>,
    v1: ValueTable,
    v2: ValueTable,
    rb: BasicBlockId,
    mb: BasicBlockId,
)
    requires
        logical_branch(is_or, t1, v1, rb, mb),
        edge_kept(t1, t2),
        v1.wf(),
        v2.wf(),
        v2.extends(&v1),
    ensures
        logical_branch(is_or, t2, v2, rb, mb),
{
    match (t1, t2) {
        (
            Some(Terminator::CondJump { condition, true_args, false_args, .. }),
            Some(Terminator::CondJump { true_args: ta2, false_args: fa2, .. }),
        ) => {
            assert(v2.types@.subrange(0, v1.count() as int)[condition.0 as int] == v2.types@[condition.0 as int]);
            if is_or {
                assert(ta2@[0] == true_args@[0]);
                assert(v2.types@.subrange(0, v1.count() as int)[true_args@[0].0 as int] == v2.types@[true_args@[0].0 as int]);
            } else {
                assert(fa2@[0] == false_args@[0]);
                assert(v2.types@.subrange(0, v1.count() as int)[false_args@[0].0 as int] == v2.types@[false_args@[0].0 as int]);
            }
        },
        _ => {},
    }
}

proof fn lemma_jump_kept(t1: Option<Terminator>, t2: Option<Terminator>, v1: ValueTable, v2: ValueTable, mb: BasicBlockId)
    requires
        jumps_with_bool(t1, v1, mb),
        edge_kept(t1, t2),
        v1.wf(),
        v2.wf(),
        v2.extends(&v1),
    ensures
        jumps_with_bool(t2, v2, mb),
{
    match (t1, t2) {
        (Some(Terminator::Jump { args, .. }), Some(Terminator::Jump { args: a2, .. })) => {
            assert(a2@[0] == args@[0]);
            assert(v2.types@.subrange(0, v1.count() as int)[args@[0].0 as int] == v2.types@[args@[0].0 as int]);
        },
        _ => {},
    }
}

impl FunctionBuilder {
    /// The value `v` as a value id: the value it uses, or a new value defined
    /// as the literal in the block being filled.
    fn value_id(&mut self, values: &mut ValueTable, v: Value) -> (r: ValueId)
        requires
            old(self).wf(),
            old(values).wf(),
            old(self).blocks()[old(self).current_block.0 as int].terminator is None,
            value_within(*old(values), v),
        ensures
            final(self).wf(),
            final(values).wf(),
            final(values).extends(old(values)),
            r.0 < final(values).count(),
            final(values).types@[r.0 as int] == value_type(*old(values), v),
            final(self).blocks().len() == old(self).blocks().len(),
            keeps_unterminated(old(self).blocks(), final(self).blocks()),
            final(self).blocks()[old(self).current_block.0 as int].terminator is None,
            final(self).current_block == old(self).current_block,
            final(self).cfg.entry_block == old(self).cfg.entry_block,
            final(self).predicates == old(self).predicates,
            final(self).return_type == old(self).return_type,
            v matches Value::Use(id) ==> r == id && *final(self) == *old(self) && *final(values)
                == *old(values),
            !(v is Use) ==> r.0 == old(values).count() && final(self).blocks()[old(
                self).current_block.0 as int].instructions@ == old(self).blocks()[old(
                self).current_block.0 as int].instructions@.push(constant_instruction(v, r)),
    {
        match v {
            Value::Use(id) => {
                proof {
                    lemma_extends_refl(*values);
                    assert forall|i: int| 0 <= i < self.blocks().len() implies edge_kept(
                        self.blocks()[i].terminator,
                        (#[trigger] self.blocks()[i]).terminator,
                    ) by {
                        crate::hir::function_builder::lemma_edge_kept_refl(self.blocks()[i].terminator);
                    }
                }
                id
            },
            _ => {
                let cur = self.current_block.0;
                let r = self.cfg.blocks[cur].emit_constant(values, v);
                proof {
                    lemma_block_changed(*old(self), *self, cur as int);
                    assert(values.types@.subrange(0, old(values).count() as int) =~= old(values).types@);
                    assert(values.blocks@.subrange(0, old(values).count() as int) =~= old(values).blocks@);
                }
                r
            },
        }
    }

    /// Records `error` and gives a new value of unknown type in its place, in
    /// the block being filled.
    fn poison(&self, values: &mut ValueTable, errors: &mut Vec<SemanticError>, error: SemanticError) -> (r:
        Value)
        requires
            self.wf(),
            old(values).wf(),
        ensures
            final(values).wf(),
            final(values).extends(old(values)),
            r == Value::Use(ValueId(old(values).count() as usize)),
            final(values).types@ == old(values).types@.push(Type::Unknown),
            final(errors)@ == old(errors)@.push(error),
    {
        let id = self.cfg.blocks[self.current_block.0].report_error_and_get_poison(values, errors, error);
        proof {
            assert(values.types@.subrange(0, old(values).count() as int) =~= old(values).types@);
            assert(values.blocks@.subrange(0, old(values).count() as int) =~= old(values).blocks@);
        }
        Value::Use(id)
    }

    /// Lowers a use of the name `identifier`: a variable is read from its
    /// stack slot in the block being filled, a function is a constant of its
    /// type, and a type alias or an unknown name is reported and stands as a
    /// value of unknown type. A slot whose value in the block being filled is
    /// not a pointer cannot be read; it gives a value of unknown type, without
    /// an error.
    pub fn build_identifier_expr(
        &mut self,
        values: &mut ValueTable,
        errors: &mut Vec<SemanticError>,
        scopes: &Vec<DeclScope>,
        decls: &Vec<CheckedDeclaration>,
        identifier: IdentifierNode,
    ) -> (r: Value)
        requires
            ready(*old(self), *old(values), scopes@, decls@),
        ensures
            lowered(*old(self), *old(values), *final(self), *final(values)),
            value_within(*final(values), r),
            errors_extended(old(errors)@, final(errors)@),
            final(self).current_block == old(self).current_block,
            final(self).blocks().len() == old(self).blocks().len(),
            lookup_decl(scopes@, identifier.name) is None ==> {
                &&& r == Value::Use(ValueId(old(values).count() as usize))
                &&& final(values).types@ == old(values).types@.push(Type::Unknown)
                &&& final(errors)@ == old(errors)@.push(
                    SemanticError {
                        kind: SemanticErrorKind::UndeclaredIdentifier(identifier),
                        span: identifier.span,
                    },
                )
                &&& *final(self) == *old(self)
            },
            lookup_decl(scopes@, identifier.name) matches Some(d) ==> match decls@[d.0 as int] {
                CheckedDeclaration::TypeAlias { identifier: declared } => {
                    &&& r == Value::Use(ValueId(old(values).count() as usize))
                    &&& final(values).types@ == old(values).types@.push(Type::Unknown)
                    &&& final(errors)@ == old(errors)@.push(
                        SemanticError {
                            kind: SemanticErrorKind::CannotUseTypeDeclarationAsValue,
                            span: declared.span,
                        },
                    )
                    &&& *final(self) == *old(self)
                },
                CheckedDeclaration::Function { id, fn_type, .. } => {
                    &&& r == Value::Use(ValueId(old(values).count() as usize))
                    &&& final(values).types@ == old(values).types@.push(fn_type)
                    &&& final(self).blocks()[old(self).current_block.0 as int].instructions@ == old(
                        self).blocks()[old(self).current_block.0 as int].instructions@.push(
                        Instruction::ConstFn { dest: ValueId(old(values).count() as usize), decl_id: id },
                    )
                    &&& final(errors)@ == old(errors)@
                },
                CheckedDeclaration::Var { ptr, .. } => {
                    &&& final(errors)@ == old(errors)@
                    &&& r matches Value::Use(q)
                    &&& q.0 + 1 == final(values).count()
                    &&& ({
                        let local = match old(self).blocks()[old(self).current_block.0 as int].mapped(ptr) {
                            Some(m) => m,
                            None => ptr,
                        };
                        local.0 < old(values).count() && old(values).types@[local.0 as int] is Pointer
                            ==> {
                            &&& final(values).types@[q.0 as int] == pointee(old(values).types@[local.0 as int])
                            &&& final(self).answer(final(values), old(self).current_block, ptr) matches Some(l)
                            &&& final(self).blocks()[old(self).current_block.0 as int].instructions@
                                == old(self).blocks()[old(self).current_block.0 as int].instructions@.push(
                                Instruction::Load { destination: q, ptr: l },
                            )
                        }
                    })
                },
            },
    {
        let found = scope_lookup(scopes, identifier.name);
        proof {
            lemma_lookup_within(scopes@, identifier.name, decls@.len());
            lemma_extends_refl(*values);
        }
        let cur = self.current_block;
        match found {
            None => {
                let r = self.poison(
                    values,
                    errors,
                    SemanticError {
                        kind: SemanticErrorKind::UndeclaredIdentifier(identifier),
                        span: identifier.span,
                    },
                );
                proof {
                    lemma_lowered_refl(*self, *old(values));
                    lemma_lowered_step(*self, *old(values), *self, *old(values), *self, *values);
                }
                r
            },
            Some(d) => {
                match &decls[d.0] {
                    CheckedDeclaration::TypeAlias { identifier: declared } => {
                        let r = self.poison(
                            values,
                            errors,
                            SemanticError {
                                kind: SemanticErrorKind::CannotUseTypeDeclarationAsValue,
                                span: declared.span,
                            },
                        );
                        proof {
                            lemma_lowered_refl(*self, *old(values));
                            lemma_lowered_step(*self, *old(values), *self, *old(values), *self, *values);
                        }
                        r
                    },
                    CheckedDeclaration::Function { id, fn_type, .. } => {
                        let ty = copy_type(fn_type);
                        let q = self.cfg.blocks[cur.0].emit_const_fn(values, *id, ty);
                        proof {
                            lemma_block_changed(*old(self), *self, cur.0 as int);
                            assert(values.types@.subrange(0, old(values).count() as int) =~= old(values).types@);
                            assert(values.blocks@.subrange(0, old(values).count() as int) =~= old(values).blocks@);
                            lemma_keeps_all(old(self).blocks(), self.blocks(), cur.0 as int);
                        }
                        Value::Use(q)
                    },
                    CheckedDeclaration::Var { ptr, .. } => {
                        let ptr = *ptr;
                        let mapped = self.cfg.blocks[cur.0].get_mapped_value(ptr);
                        let local = match mapped {
                            Some(m) => m,
                            None => ptr,
                        };
                        let is_pointer = local.0 < values.types.len() && matches!(
                            values.types[local.0],
                            Type::Pointer { .. }
                        );
                        if is_pointer {
                            proof {
                                reveal_with_fuel(crate::hir::function_builder::projected_type, 2);
                            }
                            let q = self.read_place(values, Place { root: ptr, projections: Vec::new() });
                            proof {
                                lemma_keeps_all(old(self).blocks(), self.blocks(), cur.0 as int);
                                assert(crate::hir::function_builder::read_instructions(
                                    Seq::<crate::hir::cfg::Projection>::empty(),
                                    self.answer(values, cur, ptr)->Some_0,
                                    q.0 as nat,
                                ) =~= seq![Instruction::Load { destination: q, ptr: self.answer(values, cur, ptr)->Some_0 }]);
                            }
                            Value::Use(q)
                        } else {
                            let q = self.cfg.blocks[cur.0].new_value_id(values, Type::Unknown);
                            proof {
                                lemma_lowered_refl(*self, *old(values));
                                assert(values.types@.subrange(0, old(values).count() as int) =~= old(values).types@);
                                assert(values.blocks@.subrange(0, old(values).count() as int) =~= old(values).blocks@);
                                lemma_lowered_step(*self, *old(values), *self, *old(values), *self, *values);
                            }
                            Value::Use(q)
                        }
                    },
                }
            },
        }
    }


    /// Lowers `expr` into the block being filled; gives the operand that
    /// holds its value.
    pub fn build_expr(
        &mut self,
        values: &mut ValueTable,
        errors: &mut Vec<SemanticError>,
        scopes: &Vec<DeclScope>,
        decls: &Vec<CheckedDeclaration>,
        expr: &Expr,
    ) -> (r: Value)
        requires
            ready(*old(self), *old(values), scopes@, decls@),
            expr_ok(*expr),
        ensures
            lowered(*old(self), *old(values), *final(self), *final(values)),
            value_within(*final(values), r),
            errors_extended(old(errors)@, final(errors)@),
            expr.kind matches ExprKind::BoolLiteral(b) ==> r == Value::BoolLiteral(b)
                && *final(self) == *old(self) && *final(values) == *old(values)
                && final(errors)@ == old(errors)@,
            expr.kind matches ExprKind::Number(n) ==> r == Value::NumberLiteral(n)
                && *final(self) == *old(self) && *final(values) == *old(values)
                && final(errors)@ == old(errors)@,
        decreases expr_size(*expr),
    {
        match &expr.kind {
            ExprKind::BoolLiteral(b) => {
                proof {
                    lemma_lowered_refl(*self, *values);
                }
                Value::BoolLiteral(*b)
            },
            ExprKind::Number(n) => {
                proof {
                    lemma_lowered_refl(*self, *values);
                }
                Value::NumberLiteral(*n)
            },
            ExprKind::Identifier(id) => self.build_identifier_expr(values, errors, scopes, decls, *id),
            ExprKind::And { left, right } => self.build_logical(
                false,
                values,
                errors,
                scopes,
                decls,
                left,
                right,
            ),
            ExprKind::Or { left, right } => self.build_logical(
                true,
                values,
                errors,
                scopes,
                decls,
                left,
                right,
            ),
            ExprKind::If { branches, else_branch } => self.build_if(
                values,
                errors,
                scopes,
                decls,
                branches,
                else_branch,
                IfContext::Expression,
            ),
            ExprKind::CodeBlock(block) => self.build_codeblock_expr(values, errors, scopes, decls, block),
        }
    }

    /// Lowers a block: its value is that of its final expression, or `void`.
    pub fn build_codeblock_expr(
        &mut self,
        values: &mut ValueTable,
        errors: &mut Vec<SemanticError>,
        scopes: &Vec<DeclScope>,
        decls: &Vec<CheckedDeclaration>,
        block: &BlockContents,
    ) -> (r: Value)
        requires
            ready(*old(self), *old(values), scopes@, decls@),
            block_ok(*block),
        ensures
            lowered(*old(self), *old(values), *final(self), *final(values)),
            value_within(*final(values), r),
            errors_extended(old(errors)@, final(errors)@),
            block.final_expr is None ==> r == Value::VoidLiteral && *final(self) == *old(self)
                && *final(values) == *old(values) && final(errors)@ == old(errors)@,
        decreases block_size(*block),
    {
        match &block.final_expr {
            Some(e) => self.build_expr(values, errors, scopes, decls, e),
            None => {
                proof {
                    lemma_lowered_refl(*self, *values);
                }
                Value::VoidLiteral
            },
        }
    }

    /// Lowers `left && right` (`is_or` false) or `left || right` (`is_or`
    /// true); see [`logical_outcome`].
    fn build_logical(
        &mut self,
        is_or: bool,
        values: &mut ValueTable,
        errors: &mut Vec<SemanticError>,
        scopes: &Vec<DeclScope>,
        decls: &Vec<CheckedDeclaration>,
        left: &Expr,
        right: &Expr,
    ) -> (r: Value)
        requires
            ready(*old(self), *old(values), scopes@, decls@),
            expr_ok(*left),
            expr_ok(*right),
        ensures
            lowered(*old(self), *old(values), *final(self), *final(values)),
            value_within(*final(values), r),
            errors_extended(old(errors)@, final(errors)@),
            logical_outcome(
                is_or,
                *old(self),
                *old(values),
                old(errors)@,
                *final(self),
                *final(values),
                final(errors)@,
                *left,
                *right,
                r,
            ),
        decreases expr_size(*left) + expr_size(*right) + 1,
    {
        let ghost fb0 = *self;
        let ghost v0 = *values;
        let right_block = self.new_basic_block();
        let merge_block = self.new_basic_block();
        let param = self.append_block_param(values, merge_block, Type::Bool);
        proof {
            lemma_lowered_refl(fb0, v0);
            assert forall|i: int| 0 <= i < fb0.blocks().len() implies #[trigger] self.blocks()[i].terminator
                == fb0.blocks()[i].terminator by {
                assert(self.blocks()[i].terminator == self.blocks().drop_last().drop_last()[i].terminator) by {
                    assert(self.blocks().len() == fb0.blocks().len() + 2);
                }
            }
            lemma_set_keeps_others(fb0.blocks(), self.blocks().subrange(0, fb0.blocks().len() as int), fb0.current_block.0 as int);
            assert(keeps_others(fb0.blocks(), self.blocks(), fb0.current_block.0 as int));
            assert(values.types@.subrange(0, v0.count() as int) =~= v0.types@);
            assert(values.blocks@.subrange(0, v0.count() as int) =~= v0.blocks@);
            lemma_lowered_step(fb0, v0, fb0, v0, *self, *values);
            lemma_decls_within_extends(decls@, v0, *values);
        }
        let ghost fb1 = *self;
        let ghost v1 = *values;
        let left_value = self.build_expr(values, errors, scopes, decls, left);
        let ghost fb2 = *self;
        let ghost v2 = *values;
        proof {
            lemma_lowered_step(fb0, v0, fb1, v1, fb2, v2);
            assert(fb2.blocks()[right_block.0 as int].terminator is None) by {
                assert(edge_kept(fb1.blocks()[right_block.0 as int].terminator, fb2.blocks()[right_block.0 as int].terminator));
            }
            assert(fb2.blocks()[merge_block.0 as int].terminator is None) by {
                assert(edge_kept(fb1.blocks()[merge_block.0 as int].terminator, fb2.blocks()[merge_block.0 as int].terminator));
            }
        }
        let left_type = type_of_value(values, &left_value);
        if !check_is_assignable(&left_type, &Type::Bool) {
            let r = self.poison(
                values,
                errors,
                SemanticError {
                    kind: SemanticErrorKind::TypeMismatch { expected: Type::Bool, received: left_type },
                    span: left.span,
                },
            );
            proof {
                lemma_lowered_step(fb0, v0, fb2, v2, *self, *values);
            }
            return r;
        }
        let condition = self.value_id(values, left_value);
        let ghost fb2b = *self;
        let ghost v2b = *values;
        let decided = self.value_id(values, Value::BoolLiteral(is_or));
        let ghost fb3 = *self;
        let ghost v3 = *values;
        proof {
            lemma_all_trans(fb2.blocks(), fb2b.blocks(), fb3.blocks());
            lemma_extends_trans(v2, v2b, v3);
            assert(v3.types@.subrange(0, v2b.count() as int)[condition.0 as int] == v3.types@[condition.0 as int]);
            assert(v3.types@[condition.0 as int] == left_type);
        }
        let terminator = if is_or {
            Terminator::CondJump {
                condition,
                true_target: merge_block,
                true_args: vec![decided],
                false_target: right_block,
                false_args: Vec::new(),
            }
        } else {
            Terminator::CondJump {
                condition,
                true_target: right_block,
                true_args: Vec::new(),
                false_target: merge_block,
                false_args: vec![decided],
            }
        };
        let ghost branch_block = self.current_block.0 as int;
        self.set_basic_block_terminator(terminator);
        let ghost fb4 = *self;
        proof {
            assert(logical_branch(is_or, fb4.blocks()[branch_block].terminator, v3, right_block, merge_block));
        }
        self.seal_if_ready(values, right_block);
        self.use_basic_block(right_block);
        let ghost fb5 = *self;
        let ghost v5 = *values;
        proof {
            lemma_set_keeps_others(fb3.blocks(), fb4.blocks(), branch_block);
            lemma_others_then_all(fb3.blocks(), fb4.blocks(), fb5.blocks(), branch_block);
            assert(fb3.current_block == fb2.current_block);
            assert(keeps_others(fb3.blocks(), fb5.blocks(), fb2.current_block.0 as int));
            lemma_keeps_all(fb2.blocks(), fb3.blocks(), fb2.current_block.0 as int);
            lemma_others_then_all_others(fb2.blocks(), fb3.blocks(), fb5.blocks(), fb2.current_block.0 as int);
            assert(fb5.blocks()[right_block.0 as int].terminator is None) by {
                assert(edge_kept(fb3.blocks()[right_block.0 as int].terminator, fb5.blocks()[right_block.0 as int].terminator));
            }
            lemma_extends_trans(v2, v3, v5);
            lemma_lowered_step(fb0, v0, fb2, v2, fb5, v5);
            lemma_decls_within_extends(decls@, v0, v5);
            assert(edge_kept(fb4.blocks()[branch_block].terminator, fb5.blocks()[branch_block].terminator));
            lemma_branch_kept(is_or, fb4.blocks()[branch_block].terminator, fb5.blocks()[branch_block].terminator, v3, v5, right_block, merge_block);
        }
        let right_value = self.build_expr(values, errors, scopes, decls, right);
        let ghost fb6 = *self;
        let ghost v6 = *values;
        proof {
            lemma_lowered_step(fb0, v0, fb5, v5, fb6, v6);
            assert(edge_kept(fb5.blocks()[branch_block].terminator, fb6.blocks()[branch_block].terminator));
            lemma_branch_kept(is_or, fb5.blocks()[branch_block].terminator, fb6.blocks()[branch_block].terminator, v5, v6, right_block, merge_block);
            assert(fb6.blocks()[merge_block.0 as int].terminator is None) by {
                assert(edge_kept(fb5.blocks()[merge_block.0 as int].terminator, fb6.blocks()[merge_block.0 as int].terminator));
            }
        }
        let right_type = type_of_value(values, &right_value);
        if !check_is_assignable(&right_type, &Type::Bool) {
            let r = self.poison(
                values,
                errors,
                SemanticError {
                    kind: SemanticErrorKind::TypeMismatch { expected: Type::Bool, received: right_type },
                    span: right.span,
                },
            );
            proof {
                lemma_lowered_step(fb0, v0, fb6, v6, *self, *values);
            }
            return r;
        }
        let passed = self.value_id(values, right_value);
        let ghost fb7 = *self;
        let ghost v7 = *values;
        let ghost jump_block = self.current_block.0 as int;
        self.set_basic_block_terminator(Terminator::Jump { target: merge_block, args: vec![passed] });
        let ghost fb8 = *self;
        self.seal_if_ready(values, merge_block);
        self.use_basic_block(merge_block);
        proof {
            lemma_set_keeps_others(fb7.blocks(), fb8.blocks(), jump_block);
            lemma_others_then_all(fb7.blocks(), fb8.blocks(), self.blocks(), jump_block);
            lemma_keeps_all(fb6.blocks(), fb7.blocks(), fb6.current_block.0 as int);
            lemma_others_then_all_others(fb6.blocks(), fb7.blocks(), self.blocks(), fb6.current_block.0 as int);
            assert(self.blocks()[merge_block.0 as int].terminator is None) by {
                assert(edge_kept(fb7.blocks()[merge_block.0 as int].terminator, self.blocks()[merge_block.0 as int].terminator));
            }
            lemma_extends_trans(v6, v7, *values);
            lemma_lowered_step(fb0, v0, fb6, v6, *self, *values);
            assert(edge_kept(fb6.blocks()[branch_block].terminator, fb7.blocks()[branch_block].terminator));
            lemma_branch_kept(is_or, fb6.blocks()[branch_block].terminator, fb7.blocks()[branch_block].terminator, v6, v7, right_block, merge_block);
            assert(edge_kept(fb7.blocks()[branch_block].terminator, self.blocks()[branch_block].terminator));
            lemma_branch_kept(is_or, fb7.blocks()[branch_block].terminator, self.blocks()[branch_block].terminator, v7, *values, right_block, merge_block);
            assert(jumps_with_bool(fb8.blocks()[jump_block].terminator, v7, merge_block));
            assert(edge_kept(fb8.blocks()[jump_block].terminator, self.blocks()[jump_block].terminator));
            lemma_jump_kept(fb8.blocks()[jump_block].terminator, self.blocks()[jump_block].terminator, v7, *values, merge_block);
            lemma_extends_trans(v1, v2, v5);
            lemma_extends_trans(v1, v5, v6);
            lemma_extends_trans(v1, v6, *values);
            assert(values.types@.subrange(0, v1.count() as int)[param.0 as int] == values.types@[param.0 as int]);
            assert(values.blocks@.subrange(0, v1.count() as int)[param.0 as int] == values.blocks@[param.0 as int]);
            assert(logical_branch(is_or, self.blocks()[branch_block].terminator, *values, right_block, merge_block));
            assert(jumps_with_bool(self.blocks()[jump_block].terminator, *values, merge_block));
        }
        Value::Use(param)
    }


    /// Lowers an `if` with its branches and optional `else`: each condition
    /// is checked to be a boolean and ends its block with a conditional jump
    /// to the branch's body or to the next condition; each branch then jumps
    /// to one merge block, which is being filled afterwards. As an
    /// expression, the branches hand the merge block their values, whose
    /// type is the one they agree on (see [`spec_unify`]), and the `if` gives
    /// that parameter; an expression without `else` is reported instead.
    pub fn build_if(
        &mut self,
        values: &mut ValueTable,
        errors: &mut Vec<SemanticError>,
        scopes: &Vec<DeclScope>,
        decls: &Vec<CheckedDeclaration>,
        branches: &List<IfBranch>,
        else_branch: &Option<BlockContents>,
        context: IfContext,
    ) -> (r: Value)
        requires
            ready(*old(self), *old(values), scopes@, decls@),
            context == IfContext::Expression && else_branch is None ==> branches.seq().len() > 0,
            branches_ok(*branches),
            *else_branch matches Some(b) ==> block_ok(b),
        ensures
            lowered(*old(self), *old(values), *final(self), *final(values)),
            value_within(*final(values), r),
            errors_extended(old(errors)@, final(errors)@),
            context == IfContext::Expression && else_branch is None ==> {
                &&& r == Value::Use(ValueId(old(values).count() as usize))
                &&& final(values).types@ == old(values).types@.push(Type::Unknown)
                &&& final(errors)@ == old(errors)@.push(
                    SemanticError {
                        kind: SemanticErrorKind::IfExpressionMissingElse,
                        span: branches.seq()[0].condition.span,
                    },
                )
                &&& *final(self) == *old(self)
            },
            !(context == IfContext::Expression && else_branch is None) ==> {
                &&& final(self).current_block == BasicBlockId(old(self).blocks().len() as usize)
                &&& context == IfContext::Statement ==> r == Value::VoidLiteral
                &&& context == IfContext::Expression ==> (r matches Value::Use(p)
                    && final(values).blocks@[p.0 as int] == final(self).current_block)
            },
        decreases branches_size(*branches) + else_size(*else_branch) + 1,
    {
        if context == IfContext::Expression && else_branch.is_none() {
            let span = match branches {
                List::Cons(h, _) => h.condition.span,
                List::Nil => {
                    proof {
                        assert(false);
                    }
                    crate::span::dummy_span()
                },
            };
            let r = self.poison(
                values,
                errors,
                SemanticError { kind: SemanticErrorKind::IfExpressionMissingElse, span },
            );
            proof {
                lemma_lowered_refl(*self, *old(values));
                lemma_lowered_step(*self, *old(values), *self, *old(values), *self, *values);
            }
            return r;
        }
        let ghost fb0 = *self;
        let ghost v0 = *values;
        let merge_block = self.new_basic_block();
        proof {
            lemma_lowered_refl(fb0, v0);
            assert forall|i: int| 0 <= i < fb0.blocks().len() implies #[trigger] self.blocks()[i].terminator
                == fb0.blocks()[i].terminator by {
                assert(self.blocks().drop_last()[i] == fb0.blocks()[i]);
            }
            lemma_set_keeps_others(fb0.blocks(), self.blocks().drop_last(), fb0.current_block.0 as int);
            lemma_extends_refl(v0);
            lemma_lowered_step(fb0, v0, fb0, v0, *self, *values);
        }
        let mut results: Vec<(BasicBlockId, Value, Span)> = Vec::new();
        let mut last_condition = self.current_block;
        let mut rest: &List<IfBranch> = branches;
        loop
            invariant
                lowered(fb0, v0, *self, *values),
                fb0.wf(),
                v0.wf(),
                decls_within(decls@, *values),
                scopes_within(scopes@, decls@.len()),
                last_condition.0 < self.blocks().len(),
                self.blocks()[last_condition.0 as int].terminator is None,
                last_condition == fb0.current_block || last_condition.0 > fb0.blocks().len(),
                merge_block.0 == fb0.blocks().len(),
                merge_block.0 < self.blocks().len(),
                self.blocks()[merge_block.0 as int].terminator is None,
                results_open(*self, *values, results@, (fb0.blocks().len() + 1) as nat, fb0.current_block, last_condition),
                errors_extended(old(errors)@, errors@),
                branches_size(*rest) <= branches_size(*branches),
                branches_ok(*rest),
            decreases branches_size(*rest),
        {
            match rest {
                List::Nil => {
                    break ;
                },
                List::Cons(h, t) => {
                    let ghost sa = *self;
                    let ghost va = *values;
                    self.use_basic_block(last_condition);
                    let ghost sb = *self;
                    proof {
                        lemma_set_keeps_others(sa.blocks(), sb.blocks(), sa.current_block.0 as int);
                        lemma_extends_refl(va);
                        lemma_lowered_step(fb0, v0, sa, va, sb, va);
                        lemma_lowered_refl(sb, va);
                    }
                    let cond_value = self.build_expr(values, errors, scopes, decls, &h.condition);
                    let ghost sc = *self;
                    let ghost vc = *values;
                    proof {
                        assert(fb0.current_block.0 < fb0.blocks().len());
                        assert(merge_block.0 != last_condition.0);
                        assert(results_open(sb, va, results@, (fb0.blocks().len() + 1) as nat, fb0.current_block, last_condition));
                        lemma_lowered_step(fb0, v0, sb, va, sc, vc);
                        lemma_results_kept(sb, va, sc, vc, results@, (fb0.blocks().len() + 1) as nat, fb0.current_block, last_condition, last_condition.0 as int);
                        assert(edge_kept(sb.blocks()[merge_block.0 as int].terminator, sc.blocks()[merge_block.0 as int].terminator));
                    }
                    let cond_type = type_of_value(values, &cond_value);
                    if !check_is_assignable(&cond_type, &Type::Bool) {
                        errors.push(
                            SemanticError {
                                kind: SemanticErrorKind::TypeMismatch {
                                    expected: Type::Bool,
                                    received: cond_type,
                                },
                                span: h.condition.span,
                            },
                        );
                    }
                    let body_block = self.new_basic_block();
                    let next_block = self.new_basic_block();
                    let condition = self.value_id(values, cond_value);
                    let ghost sd = *self;
                    let ghost vd = *values;
                    proof {
                        assert forall|i: int| 0 <= i < sc.blocks().len() implies edge_kept(
                            sc.blocks()[i].terminator,
                            (#[trigger] sd.blocks()[i]).terminator,
                        ) by {
                            assert(edge_kept(sc.blocks()[i].terminator, sd.blocks()[i].terminator));
                        }
                    }
                    self.set_basic_block_terminator(
                        Terminator::CondJump {
                            condition,
                            true_target: body_block,
                            true_args: Vec::new(),
                            false_target: next_block,
                            false_args: Vec::new(),
                        },
                    );
                    let ghost se = *self;
                    self.seal_if_ready(values, body_block);
                    self.use_basic_block(body_block);
                    let ghost sf = *self;
                    let ghost vf = *values;
                    proof {
                        lemma_set_keeps_others(sd.blocks(), se.blocks(), sd.current_block.0 as int);
                        lemma_others_then_all(sd.blocks(), se.blocks(), sf.blocks(), sd.current_block.0 as int);
                        lemma_keeps_all(sc.blocks(), sd.blocks(), sc.current_block.0 as int);
                        lemma_others_then_all_others(sc.blocks(), sd.blocks(), sf.blocks(), sc.current_block.0 as int);
                        lemma_extends_trans(vc, vd, vf);
                        assert(sf.blocks()[body_block.0 as int].terminator is None) by {
                            assert(edge_kept(sd.blocks()[body_block.0 as int].terminator, sf.blocks()[body_block.0 as int].terminator));
                        }
                        assert(sf.blocks()[next_block.0 as int].terminator is None) by {
                            assert(edge_kept(sd.blocks()[next_block.0 as int].terminator, sf.blocks()[next_block.0 as int].terminator));
                        }
                        lemma_lowered_step(fb0, v0, sc, vc, sf, vf);
                        lemma_extends_trans(va, vc, vf);
                        lemma_decls_within_extends(decls@, va, vf);
                        assert forall|k: int| 0 <= k < results@.len() implies (#[trigger] results@[k]).0.0
                            != sc.current_block.0 by {
                            assert(results@[k].0.0 < sb.blocks().len());
                            assert(results@[k].0 != last_condition);
                        }
                        lemma_results_kept(sc, vc, sf, vf, results@, (fb0.blocks().len() + 1) as nat, fb0.current_block, last_condition, sc.current_block.0 as int);
                        assert(edge_kept(sc.blocks()[merge_block.0 as int].terminator, sf.blocks()[merge_block.0 as int].terminator));
                    }
                    let body_value = self.build_codeblock_expr(values, errors, scopes, decls, &h.body);
                    let ghost sg = *self;
                    let ghost vg = *values;
                    proof {
                        lemma_lowered_step(fb0, v0, sf, vf, sg, vg);
                        lemma_results_kept(sf, vf, sg, vg, results@, (fb0.blocks().len() + 1) as nat, fb0.current_block, last_condition, body_block.0 as int);
                        assert(edge_kept(sf.blocks()[merge_block.0 as int].terminator, sg.blocks()[merge_block.0 as int].terminator));
                        assert(edge_kept(sf.blocks()[next_block.0 as int].terminator, sg.blocks()[next_block.0 as int].terminator));
                    }
                    results.push((self.current_block, body_value, h.body.span));
                    let ghost sh = *self;
                    self.seal_if_ready(values, next_block);
                    proof {
                        lemma_keeps_all(sg.blocks(), self.blocks(), sg.current_block.0 as int);
                        lemma_lowered_step(fb0, v0, sg, vg, *self, *values);
                        lemma_extends_trans(vf, vg, *values);
                        lemma_decls_within_extends(decls@, vf, *values);
                        assert(results_open(sg, vg, results@, (fb0.blocks().len() + 1) as nat, fb0.current_block, next_block)) by {
                            let n = results@.len() - 1;
                            assert forall|k: int| 0 <= k < n implies (#[trigger] results@[k]).0 != next_block by {
                                assert(results@[k].0.0 < sc.blocks().len());
                            }
                            assert forall|k: int, j: int| 0 <= k < j < results@.len() implies (#[trigger] results@[k]).0
                                != (#[trigger] results@[j]).0 by {
                                if j == n {
                                    assert(results@[k].0.0 < sc.blocks().len());
                                }
                            }
                        }
                        lemma_results_kept(sg, vg, *self, *values, results@, (fb0.blocks().len() + 1) as nat, fb0.current_block, next_block, -1);
                        assert(edge_kept(sg.blocks()[merge_block.0 as int].terminator, self.blocks()[merge_block.0 as int].terminator));
                        assert(edge_kept(sg.blocks()[next_block.0 as int].terminator, self.blocks()[next_block.0 as int].terminator));
                    }
                    last_condition = next_block;
                    rest = t;
                },
            }
        }
        let ghost sa = *self;
        let ghost va = *values;
        self.use_basic_block(last_condition);
        proof {
            lemma_set_keeps_others(sa.blocks(), self.blocks(), sa.current_block.0 as int);
            lemma_extends_refl(va);
            lemma_lowered_step(fb0, v0, sa, va, *self, va);
        }
        match else_branch {
            Some(else_body) => {
                let ghost sb = *self;
                let ghost vb = *values;
                let ghost res_before = results@;
                proof {
                    assert(results_open(sb, vb, res_before, (fb0.blocks().len() + 1) as nat, fb0.current_block, last_condition));
                    assert(fb0.current_block.0 < fb0.blocks().len());
                }
                let else_value = self.build_codeblock_expr(values, errors, scopes, decls, else_body);
                proof {
                    lemma_lowered_step(fb0, v0, sb, vb, *self, *values);
                    lemma_results_kept(sb, vb, *self, *values, results@, (fb0.blocks().len() + 1) as nat, fb0.current_block, last_condition, last_condition.0 as int);
                    assert(edge_kept(sb.blocks()[merge_block.0 as int].terminator, self.blocks()[merge_block.0 as int].terminator));
                }
                results.push((self.current_block, else_value, else_body.span));
                proof {
                    let n = results@.len() - 1;
                    assert(results_open(*self, *values, results@, (fb0.blocks().len() + 1) as nat, fb0.current_block, merge_block)) by {
                        assert forall|k: int, j: int| 0 <= k < j < results@.len() implies (#[trigger] results@[k]).0
                            != (#[trigger] results@[j]).0 by {
                            if j == n {
                                assert(results@[k] == res_before[k]);
                                assert(res_before[k].0.0 < sb.blocks().len());
                                assert(res_before[k].0 != last_condition);
                            } else {
                                assert(results@[k] == res_before[k]);
                                assert(results@[j] == res_before[j]);
                            }
                        }
                        assert forall|k: int| 0 <= k < results@.len() implies {
                            &&& (((fb0.blocks().len() + 1) as nat) <= (#[trigger] results@[k]).0.0 || results@[k].0 == fb0.current_block)
                            &&& results@[k].0.0 < self.blocks().len()
                            &&& self.blocks()[results@[k].0.0 as int].terminator is None
                            &&& results@[k].0 != merge_block
                            &&& value_within(*values, results@[k].1)
                        } by {
                            if k < n {
                                assert(results@[k] == res_before[k]);
                            }
                        }
                    }
                }
            },
            None => {
                if context == IfContext::Statement {
                    let ghost sb = *self;
                    self.set_basic_block_terminator(Terminator::Jump { target: merge_block, args: Vec::new() });
                    proof {
                        lemma_set_keeps_others(sb.blocks(), self.blocks(), sb.current_block.0 as int);
                        lemma_results_kept(sb, *values, *self, *values, results@, (fb0.blocks().len() + 1) as nat, fb0.current_block, last_condition, last_condition.0 as int);
                    }
                }
                proof {
                    assert(results_open(*self, *values, results@, (fb0.blocks().len() + 1) as nat, fb0.current_block, merge_block));
                }
            },
        }
        let ghost s_results = *self;
        let ghost v_results = *values;
        let param = if context == IfContext::Expression {
            let mut entries: Vec<(Type, Span)> = Vec::new();
            let mut i: usize = 0;
            while i < results.len()
                invariant
                    i <= results@.len(),
                    results_open(*self, *values, results@, (fb0.blocks().len() + 1) as nat, fb0.current_block, merge_block),
                    values.wf(),
                decreases results@.len() - i,
            {
                let ty = type_of_value(values, &results[i].1);
                entries.push((ty, results[i].2));
                i = i + 1;
            }
            let ty = match unify_branch_types(&entries) {
                Ok(t) => t,
                Err(e) => {
                    errors.push(e);
                    Type::Unknown
                },
            };
            let p = self.append_block_param(values, merge_block, ty);
            proof {
                lemma_set_keeps_others(s_results.blocks(), self.blocks(), -1);
                lemma_results_kept(s_results, v_results, *self, *values, results@, (fb0.blocks().len() + 1) as nat, fb0.current_block, merge_block, -1);
                assert(values.types@.subrange(0, v_results.count() as int) =~= v_results.types@);
                assert(values.blocks@.subrange(0, v_results.count() as int) =~= v_results.blocks@);
                lemma_others_trans(fb0.blocks(), s_results.blocks(), self.blocks(), fb0.current_block.0 as int, -1);
            }
            Some(p)
        } else {
            proof {
                lemma_extends_refl(*values);
            }
            None
        };
        proof {
            lemma_extends_trans(v0, v_results, *values);
        }
        let mut i: usize = 0;
        while i < results.len()
            invariant
                i <= results@.len(),
                self.wf(),
                values.wf(),
                v0.wf(),
                values.extends(&v0),
                fb0.blocks().len() < self.blocks().len(),
                merge_block.0 == fb0.blocks().len(),
                self.blocks()[merge_block.0 as int].terminator is None,
                fb0.wf(),
                forall|k: int|
                    i <= k < results@.len() ==> {
                        &&& ((fb0.blocks().len() + 1) as nat <= (#[trigger] results@[k]).0.0 || results@[k].0 == fb0.current_block)
                        &&& results@[k].0.0 < self.blocks().len()
                        &&& self.blocks()[results@[k].0.0 as int].terminator is None
                        &&& value_within(*values, results@[k].1)
                    },
                forall|k: int, j: int| 0 <= k < j < results@.len() ==> (#[trigger] results@[k]).0 != (#[trigger] results@[j]).0,
                keeps_others(fb0.blocks(), self.blocks(), fb0.current_block.0 as int),
                self.return_type == fb0.return_type,
                self.cfg.entry_block == fb0.cfg.entry_block,
                self.predicates == fb0.predicates,
                param matches Some(p) ==> p.0 < values.count() && values.blocks@[p.0 as int] == merge_block,
            decreases results@.len() - i,
        {
            let entry = results[i];
            let ghost sa = *self;
            let ghost va = *values;
            self.use_basic_block(entry.0);
            let args = match param {
                Some(_) => {
                    let id = self.value_id(values, entry.1);
                    vec![id]
                },
                None => {
                    proof {
                        lemma_extends_refl(*values);
                        assert forall|k: int| 0 <= k < sa.blocks().len() implies edge_kept(
                            sa.blocks()[k].terminator,
                            (#[trigger] self.blocks()[k]).terminator,
                        ) by {
                            crate::hir::function_builder::lemma_edge_kept_refl(sa.blocks()[k].terminator);
                        }
                    }
                    Vec::new()
                },
            };
            let ghost sb = *self;
            let ghost vb = *values;
            proof {
                assert(keeps_unterminated(sa.blocks(), sb.blocks()));
                assert(va.count() <= vb.count());
            }
            self.set_basic_block_terminator(Terminator::Jump { target: merge_block, args });
            proof {
                lemma_set_keeps_others(sb.blocks(), self.blocks(), entry.0.0 as int);
                lemma_keeps_all(sa.blocks(), sb.blocks(), entry.0.0 as int);
                lemma_others_then_all_others(sa.blocks(), sb.blocks(), self.blocks(), entry.0.0 as int);
                lemma_others_trans(fb0.blocks(), sa.blocks(), self.blocks(), fb0.current_block.0 as int, entry.0.0 as int);
                lemma_extends_trans(v0, va, *values);
                assert forall|k: int| i + 1 <= k < results@.len() implies {
                    &&& ((fb0.blocks().len() + 1) as nat <= (#[trigger] results@[k]).0.0 || results@[k].0 == fb0.current_block)
                    &&& results@[k].0.0 < self.blocks().len()
                    &&& self.blocks()[results@[k].0.0 as int].terminator is None
                    &&& value_within(*values, results@[k].1)
                } by {
                    assert(results@[k].0 != results@[i as int].0);
                    assert(edge_kept(sa.blocks()[results@[k].0.0 as int].terminator, self.blocks()[results@[k].0.0 as int].terminator));
                }
                assert(edge_kept(sa.blocks()[merge_block.0 as int].terminator, self.blocks()[merge_block.0 as int].terminator));
                if param is Some {
                    assert(values.blocks@.subrange(0, va.count() as int)[param->Some_0.0 as int] == values.blocks@[param->Some_0.0 as int]);
                }
            }
            i = i + 1;
        }
        let ghost s_end = *self;
        let ghost v_end = *values;
        self.seal_if_ready(values, merge_block);
        self.use_basic_block(merge_block);
        proof {
            lemma_others_then_all(fb0.blocks(), s_end.blocks(), self.blocks(), fb0.current_block.0 as int);
            assert(edge_kept(s_end.blocks()[merge_block.0 as int].terminator, self.blocks()[merge_block.0 as int].terminator));
            lemma_extends_trans(v0, v_end, *values);
            if param is Some {
                assert(values.blocks@.subrange(0, v_end.count() as int)[param->Some_0.0 as int] == values.blocks@[param->Some_0.0 as int]);
            }
        }
        match param {
            Some(p) => Value::Use(p),
            None => Value::VoidLiteral,
        }
    }


    /// Lowers `left || right`: the right operand is evaluated only when the
    /// left one is false; see [`logical_outcome`] with `is_or` true.
    pub fn build_or_expr(
        &mut self,
        values: &mut ValueTable,
        errors: &mut Vec<SemanticError>,
        scopes: &Vec<DeclScope>,
        decls: &Vec<CheckedDeclaration>,
        left: &Expr,
        right: &Expr,
    ) -> (r: Value)
        requires
            ready(*old(self), *old(values), scopes@, decls@),
            expr_ok(*left),
            expr_ok(*right),
        ensures
            lowered(*old(self), *old(values), *final(self), *final(values)),
            value_within(*final(values), r),
            errors_extended(old(errors)@, final(errors)@),
            logical_outcome(
                true,
                *old(self),
                *old(values),
                old(errors)@,
                *final(self),
                *final(values),
                final(errors)@,
                *left,
                *right,
                r,
            ),
    {
        self.build_logical(true, values, errors, scopes, decls, left, right)
    }

    /// Lowers `left && right`: the right operand is evaluated only when the
    /// left one is true; see [`logical_outcome`] with `is_or` false.
    pub fn build_and_expr(
        &mut self,
        values: &mut ValueTable,
        errors: &mut Vec<SemanticError>,
        scopes: &Vec<DeclScope>,
        decls: &Vec<CheckedDeclaration>,
        left: &Expr,
        right: &Expr,
    ) -> (r: Value)
        requires
            ready(*old(self), *old(values), scopes@, decls@),
            expr_ok(*left),
            expr_ok(*right),
        ensures
            lowered(*old(self), *old(values), *final(self), *final(values)),
            value_within(*final(values), r),
            errors_extended(old(errors)@, final(errors)@),
            logical_outcome(
                false,
                *old(self),
                *old(values),
                old(errors)@,
                *final(self),
                *final(values),
                final(errors)@,
                *left,
                *right,
                r,
            ),
    {
        self.build_logical(false, values, errors, scopes, decls, left, right)
    }

    /// Seals `block` when every parameter waiting in it stands for a known
    /// value, as sealing needs; otherwise leaves it open.
    fn seal_if_ready(&mut self, values: &mut ValueTable, block: BasicBlockId)
        requires
            old(self).wf(),
            old(values).wf(),
            block.0 < old(self).blocks().len(),
        ensures
            final(self).wf(),
            final(values).wf(),
            final(values).extends(old(values)),
            final(self).blocks().len() == old(self).blocks().len(),
            keeps_unterminated(old(self).blocks(), final(self).blocks()),
            final(self).current_block == old(self).current_block,
            final(self).cfg.entry_block == old(self).cfg.entry_block,
            final(self).predicates == old(self).predicates,
            final(self).return_type == old(self).return_type,
    {
        let n = self.cfg.blocks[block.0].incomplete_params.len();
        let mut i: usize = 0;
        let mut ready = true;
        while i < n
            invariant
                i <= n,
                block.0 < self.blocks().len(),
                n == self.blocks()[block.0 as int].incomplete_params@.len(),
                ready ==> forall|j: int|
                    0 <= j < i ==> (#[trigger] self.blocks()[block.0 as int].incomplete_params@[j]).1.0
                        < values.count(),
                values.wf(),
            decreases n - i,
        {
            if self.cfg.blocks[block.0].incomplete_params[i].1.0 >= values.types.len() {
                ready = false;
            }
            i = i + 1;
        }
        if ready {
            self.seal_block(values, block);
        } else {
            proof {
                lemma_extends_refl(*values);
                assert forall|k: int| 0 <= k < self.blocks().len() implies edge_kept(
                    self.blocks()[k].terminator,
                    (#[trigger] self.blocks()[k]).terminator,
                ) by {
                    crate::hir::function_builder::lemma_edge_kept_refl(self.blocks()[k].terminator);
                }
            }
        }
    }
}

} // verus!

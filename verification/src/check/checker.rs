use vstd::prelude::*;

use crate::check::assignable::{check_is_assignable_recursive, spec_assignable};
use crate::check::checked_ast::{CheckedExpr, CheckedType};
use crate::check::errors::CheckError;
use crate::check::numeric::{
    get_numeric_type_rank, is_float, is_integer, is_signed, spec_is_float, spec_is_integer,
    spec_is_signed, spec_numeric_rank,
};
use crate::check::scope::{find_symbol, insert_symbol, Scope, ScopeKind, SymbolEntry};
use crate::interner::StringId;
use crate::span::{DefinitionId, IdentifierNode, NodeId, Span};
use crate::span_registry::SpanRegistry;
use crate::check::tfg::TFGContext;
use crate::types::checked_type::Type;
use crate::types::copy::copy_type;
use crate::types::eq::same_type;

verus! {

/// The declarations of a stack of scopes, innermost last.
pub type SymbolEnv = Seq<Seq<(StringId, SymbolEntry)>>;

/// The declarations of each scope, innermost last.
pub open spec fn symbol_env(scopes: Seq<Scope>) -> SymbolEnv {
    Seq::new(scopes.len(), |i: int| scopes[i].symbols@)
}

/// The entry that `key` stands for in the innermost scope that declares it.
pub open spec fn lookup_env(env: SymbolEnv, key: StringId) -> Option<SymbolEntry>
    decreases env.len(),
{
    if env.len() == 0 {
        None
    } else {
        match find_symbol(env.last(), key) {
            Some(e) => Some(e),
            None => lookup_env(env.drop_last(), key),
        }
    }
}

/// The entry that `key` stands for in the innermost of `scopes` that declares it.
pub open spec fn lookup_scopes(scopes: Seq<Scope>, key: StringId) -> Option<SymbolEntry> {
    lookup_env(symbol_env(scopes), key)
}

/// The declarations with `key` declared as `value` in the innermost scope.
pub open spec fn env_insert(env: SymbolEnv, key: StringId, value: SymbolEntry) -> SymbolEnv {
    env.update(env.len() - 1, insert_symbol(env.last(), key, value))
}

/// Whether, looking outwards from the innermost scope past code blocks only,
/// a `while` scope is reached.
pub open spec fn spec_within_loop(scopes: Seq<Scope>) -> bool
    decreases scopes.len(),
{
    if scopes.len() == 0 {
        false
    } else {
        match scopes.last().kind {
            ScopeKind::CodeBlock => spec_within_loop(scopes.drop_last()),
            ScopeKind::While => true,
            _ => false,
        }
    }
}

/// The innermost declaration of a name wins: where the innermost scope
/// declares `key`, looking `key` up gives that entry.
pub proof fn lemma_innermost_declaration_wins(scopes: Seq<Scope>, key: StringId)
    requires
        scopes.len() > 0,
        scopes.last().lookup(key) is Some,
    ensures
        lookup_scopes(scopes, key) == scopes.last().lookup(key),
{
    assert(symbol_env(scopes).last() == scopes.last().symbols@);
}

/// A scope that does not declare `key` hides nothing: looking `key` up sees
/// through it to the enclosing scopes.
pub proof fn lemma_lookup_sees_through(scopes: Seq<Scope>, key: StringId)
    requires
        scopes.len() > 0,
        scopes.last().lookup(key) is None,
    ensures
        lookup_scopes(scopes, key) == lookup_scopes(scopes.drop_last(), key),
{
    assert(symbol_env(scopes).last() == scopes.last().symbols@);
    assert(symbol_env(scopes).drop_last() =~= symbol_env(scopes.drop_last()));
}

/// Opening a scope changes no lookup, and closing it again gives back the
/// declarations as they were.
pub proof fn lemma_enter_exit_restores(env: SymbolEnv, key: StringId)
    ensures
        lookup_env(env.push(Seq::empty()), key) == lookup_env(env, key),
        env.push(Seq::empty()).drop_last() == env,
{
    assert(env.push(Seq::empty()).drop_last() =~= env);
    assert(find_symbol(Seq::<(StringId, SymbolEntry)>::empty(), key) is None);
}

/// The innermost scope of `b` is that of `a` with `name` declared as `entry`,
/// and the outer scopes are unchanged: as [`SemanticChecker::scope_insert`]
/// leaves them.
pub open spec fn insert_step(a: Seq<Scope>, b: Seq<Scope>, name: StringId, entry: SymbolEntry) -> bool {
    &&& a.len() > 0
    &&& b.len() == a.len()
    &&& b.drop_last() == a.drop_last()
    &&& b.last().kind == a.last().kind
    &&& b.last().lookup(name) == Some(entry)
    &&& forall|k: StringId| k != name ==> #[trigger] b.last().lookup(k) == a.last().lookup(k)
}

/// The entry of the latest declaration of `key` among `names`.
pub open spec fn latest_entry(names: Seq<StringId>, entries: Seq<SymbolEntry>, key: StringId) -> Option<
    SymbolEntry,
>
    decreases names.len(),
{
    if names.len() == 0 {
        None
    } else if names.last() == key {
        Some(entries[names.len() - 1])
    } else {
        latest_entry(names.drop_last(), entries, key)
    }
}

/// Entering a scope of kind `kind` on the stack `before`, then declaring
/// `names[i]` as `entries[i]` one after another, leaves the stack `before`
/// below a scope of that kind in which each name stands for its latest entry
/// and no other name is declared; leaving that scope gives `before` back.
pub proof fn lemma_scope_round_trip(
    before: Seq<Scope>,
    states: Seq<Seq<Scope>>,
    kind: ScopeKind,
    names: Seq<StringId>,
    entries: Seq<SymbolEntry>,
)
    requires
        states.len() == names.len() + 1,
        entries.len() == names.len(),
        states[0].len() == before.len() + 1,
        states[0].drop_last() == before,
        states[0].last().kind == kind,
        forall|k: StringId| #[trigger] states[0].last().lookup(k) is None,
        forall|i: int|
            0 <= i < names.len() ==> #[trigger] insert_step(states[i], states[i + 1], names[i], entries[i]),
    ensures
        states.last().len() == before.len() + 1,
        states.last().drop_last() == before,
        states.last().last().kind == kind,
        forall|k: StringId| #[trigger] states.last().last().lookup(k) == latest_entry(names, entries, k),
    decreases names.len(),
{
    if names.len() == 0 {
        assert forall|k: StringId| #[trigger] states.last().last().lookup(k) == latest_entry(names, entries, k) by {
            assert(states.last() == states[0]);
        }
    } else {
        let n = names.len() - 1;
        assert forall|i: int| 0 <= i < names.drop_last().len() implies #[trigger] insert_step(
            states.drop_last()[i],
            states.drop_last()[i + 1],
            names.drop_last()[i],
            entries.drop_last()[i],
        ) by {
            assert(insert_step(states[i], states[i + 1], names[i], entries[i]));
        }
        lemma_scope_round_trip(before, states.drop_last(), kind, names.drop_last(), entries.drop_last());
        assert(insert_step(states[n], states[n + 1], names[n], entries[n]));
        assert(states.drop_last().last() == states[n]);
        assert forall|k: StringId| #[trigger] states.last().last().lookup(k) == latest_entry(names, entries, k) by {
            assert(states.drop_last().last().last().lookup(k) == latest_entry(names.drop_last(), entries.drop_last(), k));
            lemma_latest_entry_prefix(names.drop_last(), entries, entries.drop_last(), k);
            if k != names[n] {
                assert(states[n + 1].last().lookup(k) == states[n].last().lookup(k));
            }
        }
    }
}

proof fn lemma_latest_entry_prefix(
    names: Seq<StringId>,
    entries: Seq<SymbolEntry>,
    prefix: Seq<SymbolEntry>,
    key: StringId,
)
    requires
        names.len() <= prefix.len(),
        prefix.len() <= entries.len(),
        forall|i: int| 0 <= i < prefix.len() ==> prefix[i] == entries[i],
    ensures
        latest_entry(names, entries, key) == latest_entry(names, prefix, key),
    decreases names.len(),
{
    if names.len() > 0 {
        lemma_latest_entry_prefix(names.drop_last(), entries, prefix, key);
    }
}

/// The state of the semantic checker: reported errors, the stack of scopes,
/// and the counters for node and definition ids.
pub struct SemanticChecker {
    pub errors: Vec<CheckError>,
    pub scopes: Vec<Scope>,
    pub node_counter: usize,
    pub definition_counter: usize,
    pub span_registry: SpanRegistry,
    /// The type flow graphs being built, innermost last.
    pub tfg_contexts: Vec<TFGContext>,
}

impl SemanticChecker {
    pub open spec fn wf(&self) -> bool {
        &&& forall|i: int| 0 <= i < self.scopes@.len() ==> (#[trigger] self.scopes@[i]).wf()
    }

    /// The declarations of the open scopes, innermost last.
    pub open spec fn env(&self) -> SymbolEnv {
        symbol_env(self.scopes@)
    }

    /// A checker with the file scope open and nothing reported.
    pub fn new() -> (r: SemanticChecker)
        ensures
            r.wf(),
            r.errors@.len() == 0,
            r.scopes@.len() == 1,
            r.scopes@[0].kind == ScopeKind::File,
            forall|k: StringId| lookup_scopes(r.scopes@, k) is None,
            r.node_counter == 0,
            r.definition_counter == 0,
    {
        let mut scopes = Vec::new();
        let file_scope = Scope::new(ScopeKind::File);
        let ghost fs = file_scope;
        scopes.push(file_scope);
        let r = SemanticChecker {
            errors: Vec::new(),
            scopes,
            node_counter: 0,
            definition_counter: 0,
            span_registry: SpanRegistry::new(),
            tfg_contexts: Vec::new(),
        };
        assert forall|k: StringId| lookup_scopes(r.scopes@, k) is None by {
            let e = symbol_env(r.scopes@);
            assert(e.last() == fs.symbols@);
            assert(fs.lookup(k) is None);
            assert(e.drop_last().len() == 0);
            assert(lookup_env(e.drop_last(), k) is None);
        }
        r
    }

    /// A fresh node id.
    pub fn get_node_id(&mut self) -> (r: NodeId)
        requires
            old(self).node_counter < usize::MAX,
        ensures
            r.0 == old(self).node_counter,
            final(self).node_counter == old(self).node_counter + 1,
            final(self).definition_counter == old(self).definition_counter,
            final(self).errors == old(self).errors,
            final(self).scopes == old(self).scopes,
            final(self).span_registry == old(self).span_registry,
    {
        let value = self.node_counter;
        self.node_counter = self.node_counter + 1;
        NodeId(value)
    }

    /// A fresh definition id.
    pub fn get_definition_id(&mut self) -> (r: DefinitionId)
        requires
            old(self).definition_counter < usize::MAX,
        ensures
            r.0 == old(self).definition_counter,
            final(self).definition_counter == old(self).definition_counter + 1,
            final(self).node_counter == old(self).node_counter,
            final(self).errors == old(self).errors,
            final(self).scopes == old(self).scopes,
            final(self).span_registry == old(self).span_registry,
    {
        let val = DefinitionId(self.definition_counter);
        self.definition_counter = self.definition_counter + 1;
        val
    }

    /// Opens a new, empty innermost scope.
    pub fn enter_scope(&mut self, kind: ScopeKind)
        requires
            old(self).wf(),
        ensures
            final(self).wf(),
            final(self).scopes@.len() == old(self).scopes@.len() + 1,
            final(self).scopes@.drop_last() == old(self).scopes@,
            final(self).scopes@.last().kind == kind,
            forall|k: StringId| final(self).scopes@.last().lookup(k) is None,
            final(self).env() == old(self).env().push(Seq::empty()),
            final(self).errors == old(self).errors,
            final(self).node_counter == old(self).node_counter,
            final(self).definition_counter == old(self).definition_counter,
            final(self).span_registry == old(self).span_registry,
    {
        let scope = Scope::new(kind);
        self.scopes.push(scope);
        proof {
            assert(self.scopes@.drop_last() =~= old(self).scopes@);
            assert(self.env() =~= old(self).env().push(Seq::empty()));
        }
    }

    /// Closes the innermost scope and hands it back.
    pub fn exit_scope(&mut self) -> (r: Scope)
        requires
            old(self).wf(),
            old(self).scopes@.len() > 0,
        ensures
            final(self).wf(),
            r == old(self).scopes@.last(),
            final(self).scopes@ == old(self).scopes@.drop_last(),
            final(self).env() == old(self).env().drop_last(),
            final(self).errors == old(self).errors,
            final(self).node_counter == old(self).node_counter,
            final(self).definition_counter == old(self).definition_counter,
            final(self).span_registry == old(self).span_registry,
    {
        let r = self.scopes.pop().unwrap();
        assert(self.env() =~= old(self).env().drop_last());
        r
    }

    /// The innermost scope.
    pub fn last_scope(&self) -> (r: &Scope)
        requires
            self.scopes@.len() > 0,
        ensures
            *r == self.scopes@.last(),
    {
        let n = self.scopes.len();
        &self.scopes[n - 1]
    }

    /// Declares `key` in the innermost scope; declaring a name twice in one
    /// scope reports a duplicate identifier, and the later entry wins.
    pub fn scope_insert(&mut self, key: IdentifierNode, value: SymbolEntry)
        requires
            old(self).wf(),
            old(self).scopes@.len() > 0,
        ensures
            final(self).wf(),
            final(self).scopes@.len() == old(self).scopes@.len(),
            final(self).scopes@.drop_last() == old(self).scopes@.drop_last(),
            final(self).scopes@.last().kind == old(self).scopes@.last().kind,
            final(self).scopes@.last().lookup(key.name) == Some(value),
            final(self).env() == env_insert(old(self).env(), key.name, value),
            forall|k: StringId|
                k != key.name ==> final(self).scopes@.last().lookup(k) == old(
                    self,
                ).scopes@.last().lookup(k),
            old(self).scopes@.last().lookup(key.name) is Some ==> final(self).errors@ == old(
                self,
            ).errors@.push(CheckError::DuplicateIdentifier { id: key }),
            old(self).scopes@.last().lookup(key.name) is None ==> final(self).errors@ == old(
                self,
            ).errors@,
            final(self).node_counter == old(self).node_counter,
            final(self).definition_counter == old(self).definition_counter,
            final(self).span_registry == old(self).span_registry,
    {
        let mut last = self.scopes.pop().unwrap();
        proof {
            assert(old(self).scopes@[old(self).scopes@.len() - 1] == last);
        }
        let existed = last.insert(key.name, value);
        self.scopes.push(last);
        proof {
            assert(self.scopes@.drop_last() =~= old(self).scopes@.drop_last());
            assert(self.env() =~= env_insert(old(self).env(), key.name, value));
            assert forall|i: int| 0 <= i < self.scopes@.len() implies (
            #[trigger] self.scopes@[i]).wf() by {
                if i < self.scopes@.len() - 1 {
                    assert(self.scopes@[i] == old(self).scopes@[i]);
                }
            }
        }
        if existed {
            self.errors.push(CheckError::DuplicateIdentifier { id: key });
        }
    }

    /// The entry that `key` stands for in the innermost scope that declares it.
    pub fn scope_lookup(&self, key: StringId) -> (r: Option<SymbolEntry>)
        requires
            self.wf(),
        ensures
            r == lookup_scopes(self.scopes@, key),
    {
        let mut i = self.scopes.len();
        let ghost e = self.env();
        assert(e.take(i as int) =~= e);
        while i > 0
            invariant
                i <= self.scopes@.len(),
                self.wf(),
                e == self.env(),
                lookup_env(e, key) == lookup_env(e.take(i as int), key),
            decreases i,
        {
            let scope = &self.scopes[i - 1];
            proof {
                assert(e.take(i as int).drop_last() =~= e.take(i - 1));
                assert(e.take(i as int).last() == self.scopes@[i - 1].symbols@);
                assert(self.scopes@[i - 1].wf());
            }
            match scope.get(key) {
                Some(entry) => {
                    return Some(entry);
                },
                None => {},
            }
            i = i - 1;
        }
        assert(e.take(0).len() == 0);
        None
    }

    /// Whether some enclosing scope is a function.
    pub fn within_function_scope(&self) -> (r: bool)
        ensures
            r == exists|i: int|
                0 <= i < self.scopes@.len() && (#[trigger] self.scopes@[i]).kind
                    == ScopeKind::Function,
    {
        let mut i = self.scopes.len();
        while i > 0
            invariant
                i <= self.scopes@.len(),
                forall|j: int|
                    i <= j < self.scopes@.len() ==> (#[trigger] self.scopes@[j]).kind
                        != ScopeKind::Function,
            decreases i,
        {
            if self.scopes[i - 1].kind == ScopeKind::Function {
                return true;
            }
            i = i - 1;
        }
        false
    }

    /// Whether a `break` or `continue` is allowed here: looking outwards past
    /// code blocks only, a `while` scope is reached.
    pub fn within_loop_scope(&self) -> (r: bool)
        ensures
            r == spec_within_loop(self.scopes@),
    {
        let mut i = self.scopes.len();
        assert(self.scopes@.take(i as int) =~= self.scopes@);
        while i > 0
            invariant
                i <= self.scopes@.len(),
                spec_within_loop(self.scopes@) == spec_within_loop(self.scopes@.take(i as int)),
            decreases i,
        {
            proof {
                assert(self.scopes@.take(i as int).drop_last() =~= self.scopes@.take(i - 1));
                assert(self.scopes@.take(i as int).last() == self.scopes@[i - 1]);
            }
            match self.scopes[i - 1].kind {
                ScopeKind::CodeBlock => {},
                ScopeKind::While => {
                    return true;
                },
                _ => {
                    return false;
                },
            }
            i = i - 1;
        }
        false
    }

    /// Whether the innermost scope is the file scope.
    pub fn is_file_scope(&self) -> (r: bool)
        requires
            self.scopes@.len() > 0,
        ensures
            r == (self.scopes@.last().kind == ScopeKind::File),
    {
        self.last_scope().kind == ScopeKind::File
    }

    /// Whether a value of type `source_type` may be stored where
    /// `target_type` is expected.
    pub fn check_is_assignable(&self, source_type: &CheckedType, target_type: &CheckedType) -> (r:
        bool)
        ensures
            r == spec_assignable(source_type.kind, target_type.kind),
    {
        check_is_assignable_recursive(&source_type.kind, &target_type.kind)
    }

    /// The innermost scope, to be changed in place.
    pub fn last_scope_mut(&mut self) -> (r: &mut Scope)
        requires
            old(self).scopes@.len() > 0,
        ensures
            *r == old(self).scopes@.last(),
            final(self).scopes@ == old(self).scopes@.update(
                old(self).scopes@.len() - 1,
                *final(r),
            ),
            final(self).errors == old(self).errors,
            final(self).node_counter == old(self).node_counter,
            final(self).definition_counter == old(self).definition_counter,
            final(self).span_registry == old(self).span_registry,
    {
        let n = self.scopes.len();
        &mut self.scopes[n - 1]
    }

    /// The type of an arithmetic operation on `left` and `right`: both must be
    /// numeric, both integers or both floating-point, and both signed or both
    /// unsigned; the result has the wider of the two types. A violation is
    /// reported and gives `unknown`.
    pub fn check_binary_numeric_operation(
        &mut self,
        left: &CheckedExpr,
        right: &CheckedExpr,
        span: Span,
    ) -> (r: CheckedType)
        requires
            old(self).wf(),
            old(self).node_counter < usize::MAX,
        ensures
            final(self).wf(),
            final(self).node_counter == old(self).node_counter + 1,
            final(self).span_registry.span_of(NodeId(old(self).node_counter)) == Some(span),
            forall|other: NodeId|
                other != NodeId(old(self).node_counter) ==> final(self).span_registry.span_of(other)
                    == old(self).span_registry.span_of(other),
            final(self).scopes == old(self).scopes,
            final(self).definition_counter == old(self).definition_counter,
            ({
                let l = left.ty.kind;
                let rt = right.ty.kind;
                let l_num = spec_is_float(l) || spec_is_integer(l);
                let r_num = spec_is_float(rt) || spec_is_integer(rt);
                if !l_num {
                    &&& final(self).errors@ == old(self).errors@.push(
                        CheckError::ExpectedANumericOperand { span: left.ty.span },
                    )
                    &&& r == CheckedType { kind: Type::Unknown, span: left.ty.span }
                } else if !r_num {
                    &&& final(self).errors@ == old(self).errors@.push(
                        CheckError::ExpectedANumericOperand { span: right.ty.span },
                    )
                    &&& r == CheckedType { kind: Type::Unknown, span: right.ty.span }
                } else if spec_is_float(l) != spec_is_float(rt) {
                    &&& final(self).errors@ == old(self).errors@.push(
                        CheckError::MixedFloatAndInteger { span },
                    )
                    &&& r == CheckedType { kind: Type::Unknown, span }
                } else if spec_is_signed(l) != spec_is_signed(rt) {
                    &&& final(self).errors@ == old(self).errors@.push(
                        CheckError::MixedSignedAndUnsigned { span },
                    )
                    &&& r == CheckedType { kind: Type::Unknown, span }
                } else if right.ty == left.ty {
                    &&& final(self).errors@ == old(self).errors@
                    &&& r == left.ty
                } else if spec_numeric_rank(l) > spec_numeric_rank(rt) {
                    &&& final(self).errors@ == old(self).errors@
                    &&& r == CheckedType { kind: l, span }
                } else {
                    &&& final(self).errors@ == old(self).errors@
                    &&& r == CheckedType { kind: rt, span }
                }
            }),
    {
        let node_id = self.get_node_id();
        self.span_registry.insert_span(node_id, span);

        if !(is_float(&left.ty.kind) || is_integer(&left.ty.kind)) {
            self.errors.push(CheckError::ExpectedANumericOperand { span: left.ty.span });
            return CheckedType { kind: Type::Unknown, span: left.ty.span };
        }
        if !(is_float(&right.ty.kind) || is_integer(&right.ty.kind)) {
            self.errors.push(CheckError::ExpectedANumericOperand { span: right.ty.span });
            return CheckedType { kind: Type::Unknown, span: right.ty.span };
        }
        let left_type = &left.ty;
        let right_type = &right.ty;
        if (is_float(&left_type.kind) && is_integer(&right_type.kind)) || (is_integer(
            &left_type.kind,
        ) && is_float(&right_type.kind)) {
            self.errors.push(CheckError::MixedFloatAndInteger { span });
            return CheckedType { kind: Type::Unknown, span: span };
        }
        if is_signed(&left_type.kind) != is_signed(&right_type.kind) {
            self.errors.push(CheckError::MixedSignedAndUnsigned { span });
            return CheckedType { kind: Type::Unknown, span: span };
        }
        if same_type(&right_type.kind, &left_type.kind) && right_type.span == left_type.span {
            return CheckedType { kind: copy_type(&left_type.kind), span: left_type.span };
        }
        let left_rank = get_numeric_type_rank(&left_type.kind);
        let right_rank = get_numeric_type_rank(&right_type.kind);
        if left_rank > right_rank {
            CheckedType { kind: copy_type(&left_type.kind), span }
        } else {
            CheckedType { kind: copy_type(&right_type.kind), span }
        }
    }
}

} // verus!

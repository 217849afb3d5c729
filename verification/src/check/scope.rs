use vstd::prelude::*;

use crate::interner::StringId;
use crate::span::{DefinitionId, IdentifierNode};
use crate::types::checked_type::{CheckedGenericParam, CheckedTypeAliasDecl, Type};
use crate::types::copy::{copy_generic_param, copy_generic_param_list, copy_type, copy_type_list};

verus! {

#[derive(Debug, Clone, Copy, PartialEq, Eq, Structural)]
pub enum ScopeKind {
    Function,
    While,
    CodeBlock,
    File,
    TypeAlias,
    FnType,
}

/// A declared variable.
pub struct CheckedVarDecl {
    pub id: DefinitionId,
    pub identifier: IdentifierNode,
    pub constraint: Type,
}

/// What a name stands for in a scope.
pub enum SymbolEntry {
    VarDecl(CheckedVarDecl),
    TypeAliasDecl(CheckedTypeAliasDecl),
    GenericParam(CheckedGenericParam),
}

/// The entry for `key` in `symbols`, searching from the most recent.
pub open spec fn find_symbol(symbols: Seq<(StringId, SymbolEntry)>, key: StringId) -> Option<
    SymbolEntry,
>
    decreases symbols.len(),
{
    if symbols.len() == 0 {
        None
    } else if symbols.last().0 == key {
        Some(symbols.last().1)
    } else {
        find_symbol(symbols.drop_last(), key)
    }
}

/// The index of the entry for `key` in `symbols`, or -1.
pub open spec fn key_index(symbols: Seq<(StringId, SymbolEntry)>, key: StringId) -> int
    decreases symbols.len(),
{
    if symbols.len() == 0 {
        -1
    } else if symbols[0].0 == key {
        0
    } else {
        let r = key_index(symbols.drop_first(), key);
        if r < 0 {
            -1
        } else {
            r + 1
        }
    }
}

/// `symbols` with `key` declared as `value`: an existing entry is replaced in
/// place, a new one goes at the end.
pub open spec fn insert_symbol(
    symbols: Seq<(StringId, SymbolEntry)>,
    key: StringId,
    value: SymbolEntry,
) -> Seq<(StringId, SymbolEntry)> {
    let i = key_index(symbols, key);
    if i >= 0 {
        symbols.update(i, (key, value))
    } else {
        symbols.push((key, value))
    }
}

proof fn lemma_key_index(symbols: Seq<(StringId, SymbolEntry)>, key: StringId, i: int)
    requires
        0 <= i <= symbols.len(),
        forall|j: int| 0 <= j < i ==> #[trigger] symbols[j].0 != key,
        i < symbols.len() ==> symbols[i].0 == key,
    ensures
        key_index(symbols, key) == if i < symbols.len() {
            i
        } else {
            -1
        },
    decreases symbols.len(),
{
    if symbols.len() > 0 && i > 0 {
        assert forall|j: int| 0 <= j < i - 1 implies #[trigger] symbols.drop_first()[j].0
            != key by {
            assert(symbols.drop_first()[j] == symbols[j + 1]);
        }
        assert(symbols[0].0 != key);
        lemma_key_index(symbols.drop_first(), key, i - 1);
    }
}

pub open spec fn unique_keys(symbols: Seq<(StringId, SymbolEntry)>) -> bool {
    forall|i: int, j: int|
        0 <= i < j < symbols.len() ==> #[trigger] symbols[i].0 != #[trigger] symbols[j].0
}

/// A scope: the names declared in one block, function, file or type.
pub struct Scope {
    pub kind: ScopeKind,
    pub symbols: Vec<(StringId, SymbolEntry)>,
}

pub fn copy_symbol_entry(e: &SymbolEntry) -> (r: SymbolEntry)
    ensures
        r == *e,
{
    match e {
        SymbolEntry::VarDecl(d) => SymbolEntry::VarDecl(
            CheckedVarDecl { id: d.id, identifier: d.identifier, constraint: copy_type(&d.constraint) },
        ),
        SymbolEntry::TypeAliasDecl(d) => SymbolEntry::TypeAliasDecl(
            CheckedTypeAliasDecl {
                name: d.name,
                generic_params: copy_generic_param_list(&d.generic_params),
                value: Box::new(copy_type(&d.value)),
                applied_type_args: copy_type_list(&d.applied_type_args),
            },
        ),
        SymbolEntry::GenericParam(gp) => SymbolEntry::GenericParam(copy_generic_param(gp)),
    }
}

proof fn lemma_find_absent(symbols: Seq<(StringId, SymbolEntry)>, key: StringId)
    requires
        forall|i: int| 0 <= i < symbols.len() ==> #[trigger] symbols[i].0 != key,
    ensures
        find_symbol(symbols, key) is None,
    decreases symbols.len(),
{
    if symbols.len() > 0 {
        assert(symbols[symbols.len() - 1].0 != key);
        lemma_find_absent(symbols.drop_last(), key);
    }
}

proof fn lemma_find_present(symbols: Seq<(StringId, SymbolEntry)>, i: int)
    requires
        unique_keys(symbols),
        0 <= i < symbols.len(),
    ensures
        find_symbol(symbols, symbols[i].0) == Some(symbols[i].1),
    decreases symbols.len(),
{
    if i < symbols.len() - 1 {
        assert(symbols[i].0 != symbols[symbols.len() - 1].0);
        assert(symbols.drop_last()[i] == symbols[i]);
        lemma_find_present(symbols.drop_last(), i);
    }
}

proof fn lemma_find_update(
    symbols: Seq<(StringId, SymbolEntry)>,
    i: int,
    value: SymbolEntry,
    other: StringId,
)
    requires
        0 <= i < symbols.len(),
        other != symbols[i].0,
    ensures
        find_symbol(symbols.update(i, (symbols[i].0, value)), other) == find_symbol(symbols, other),
    decreases symbols.len(),
{
    let updated = symbols.update(i, (symbols[i].0, value));
    if i < symbols.len() - 1 {
        assert(updated.drop_last() =~= symbols.drop_last().update(i, (symbols[i].0, value)));
        lemma_find_update(symbols.drop_last(), i, value, other);
    } else {
        assert(updated.drop_last() =~= symbols.drop_last());
    }
}

impl Scope {
    /// The entry that `key` stands for in this scope.
    pub open spec fn lookup(&self, key: StringId) -> Option<SymbolEntry> {
        find_symbol(self.symbols@, key)
    }

    pub open spec fn wf(&self) -> bool {
        unique_keys(self.symbols@)
    }

    pub fn new(kind: ScopeKind) -> (r: Scope)
        ensures
            r.kind == kind,
            r.wf(),
            r.symbols@ == Seq::<(StringId, SymbolEntry)>::empty(),
            forall|k: StringId| r.lookup(k) is None,
    {
        let r = Scope { symbols: Vec::new(), kind };
        assert forall|k: StringId| r.lookup(k) is None by {
            lemma_find_absent(r.symbols@, k);
        }
        r
    }

    /// Declares `key` in this scope; returns whether it was already declared
    /// here, in which case its entry is replaced.
    pub fn insert(&mut self, key: StringId, value: SymbolEntry) -> (existed: bool)
        requires
            old(self).wf(),
        ensures
            final(self).wf(),
            final(self).kind == old(self).kind,
            existed == (old(self).lookup(key) is Some),
            final(self).lookup(key) == Some(value),
            forall|k: StringId| k != key ==> final(self).lookup(k) == old(self).lookup(k),
            final(self).symbols@ == insert_symbol(old(self).symbols@, key, value),
    {
        let ghost old_syms = self.symbols@;
        let mut i: usize = 0;
        while i < self.symbols.len()
            invariant
                i <= self.symbols@.len(),
                self.symbols@ == old_syms,
                old_syms == old(self).symbols@,
                self.kind == old(self).kind,
                unique_keys(old_syms),
                forall|j: int| 0 <= j < i ==> #[trigger] self.symbols@[j].0 != key,
            decreases self.symbols@.len() - i,
        {
            if self.symbols[i].0 == key {
                proof {
                    assert(old_syms[i as int].0 == key);
                    lemma_key_index(old_syms, key, i as int);
                    lemma_find_present(old_syms, i as int);
                    assert forall|k: StringId| k != key implies find_symbol(
                        old_syms.update(i as int, (key, value)),
                        k,
                    ) == find_symbol(old_syms, k) by {
                        lemma_find_update(old_syms, i as int, value, k);
                    }
                }
                self.symbols.set(i, (key, value));
                proof {
                    assert(self.symbols@ == old_syms.update(i as int, (key, value)));
                    assert forall|a: int, b: int|
                        0 <= a < b < self.symbols@.len() implies #[trigger] self.symbols@[a].0
                        != #[trigger] self.symbols@[b].0 by {
                        assert(old_syms[a].0 != old_syms[b].0);
                    }
                    lemma_find_present(self.symbols@, i as int);
                }
                return true;
            }
            i = i + 1;
        }
        proof {
            lemma_find_absent(old_syms, key);
            lemma_key_index(old_syms, key, old_syms.len() as int);
            assert(old_syms == old(self).symbols@);
        }
        self.symbols.push((key, value));
        proof {
            assert(self.symbols@.drop_last() =~= old_syms);
            assert forall|a: int, b: int|
                0 <= a < b < self.symbols@.len() implies #[trigger] self.symbols@[a].0
                != #[trigger] self.symbols@[b].0 by {
                if b < old_syms.len() {
                    assert(old_syms[a].0 != old_syms[b].0);
                } else {
                    assert(old_syms[a].0 != key);
                }
            }
        }
        false
    }

    /// The entry that `key` stands for in this scope, if any.
    pub fn get(&self, key: StringId) -> (r: Option<SymbolEntry>)
        requires
            self.wf(),
        ensures
            r == self.lookup(key),
    {
        let mut i: usize = 0;
        while i < self.symbols.len()
            invariant
                i <= self.symbols@.len(),
                unique_keys(self.symbols@),
                forall|j: int| 0 <= j < i ==> #[trigger] self.symbols@[j].0 != key,
            decreases self.symbols@.len() - i,
        {
            if self.symbols[i].0 == key {
                proof {
                    lemma_find_present(self.symbols@, i as int);
                }
                return Some(copy_symbol_entry(&self.symbols[i].1));
            }
            i = i + 1;
        }
        proof {
            lemma_find_absent(self.symbols@, key);
        }
        None
    }
}

} // verus!

use vstd::prelude::*;

use crate::check::scope::ScopeKind;
use crate::hir::cfg::basic_blocks::ValueTable;
use crate::hir::cfg::{DeclarationId, ValueId};
use crate::interner::StringId;
use crate::span::IdentifierNode;
use crate::types::checked_type::Type;

verus! {

/// What a name declared in a module stands for while it is lowered.
pub enum CheckedDeclaration {
    /// A variable, kept in the stack slot `ptr`.
    Var { identifier: IdentifierNode, ptr: ValueId },
    /// A type alias.
    TypeAlias { identifier: IdentifierNode },
    /// A function, with its type.
    Function { identifier: IdentifierNode, id: DeclarationId, fn_type: Type },
}

/// A scope of a module being lowered: the names declared in it, in order.
pub struct DeclScope {
    pub kind: ScopeKind,
    pub symbols: Vec<(StringId, DeclarationId)>,
}

/// The declaration of `name` among `symbols`, the latest one winning.
pub open spec fn lookup_symbols(symbols: Seq<(StringId, DeclarationId)>, name: StringId) -> Option<
    DeclarationId,
>
    decreases symbols.len(),
{
    if symbols.len() == 0 {
        None
    } else if symbols.last().0 == name {
        Some(symbols.last().1)
    } else {
        lookup_symbols(symbols.drop_last(), name)
    }
}

/// The declaration of `name` in a stack of scopes, the innermost scope first.
pub open spec fn lookup_decl(scopes: Seq<DeclScope>, name: StringId) -> Option<DeclarationId>
    decreases scopes.len(),
{
    if scopes.len() == 0 {
        None
    } else {
        match lookup_symbols(scopes.last().symbols@, name) {
            Some(d) => Some(d),
            None => lookup_decl(scopes.drop_last(), name),
        }
    }
}

/// Every name in `scopes` stands for one of `count` declarations.
pub open spec fn scopes_within(scopes: Seq<DeclScope>, count: nat) -> bool {
    forall|i: int, j: int|
        0 <= i < scopes.len() && 0 <= j < scopes[i].symbols@.len() ==> (#[trigger] scopes[i].symbols@[j]).1.0
            < count
}

/// Every variable of `decls` is kept in a known pointer value.
pub open spec fn decls_within(decls: Seq<CheckedDeclaration>, values: ValueTable) -> bool {
    forall|i: int|
        0 <= i < decls.len() ==> match #[trigger] decls[i] {
            CheckedDeclaration::Var { ptr, .. } => ptr.0 < values.count() && values.types@[ptr.0 as int] is Pointer,
            _ => true,
        }
}

pub proof fn lemma_decls_within_extends(decls: Seq<CheckedDeclaration>, v0: ValueTable, v1: ValueTable)
    requires
        decls_within(decls, v0),
        v1.extends(&v0),
    ensures
        decls_within(decls, v1),
{
    assert forall|i: int| 0 <= i < decls.len() implies match #[trigger] decls[i] {
        CheckedDeclaration::Var { ptr, .. } => ptr.0 < v1.count() && v1.types@[ptr.0 as int] is Pointer,
        _ => true,
    } by {
        match decls[i] {
            CheckedDeclaration::Var { ptr, .. } => {
                assert(v1.types@.subrange(0, v0.count() as int)[ptr.0 as int] == v1.types@[ptr.0 as int]);
            },
            _ => {},
        }
    }
}

fn lookup_in_symbols(symbols: &Vec<(StringId, DeclarationId)>, name: StringId) -> (r: Option<DeclarationId>)
    ensures
        r == lookup_symbols(symbols@, name),
{
    let mut i = symbols.len();
    assert(symbols@.take(i as int) =~= symbols@);
    while i > 0
        invariant
            i <= symbols@.len(),
            lookup_symbols(symbols@, name) == lookup_symbols(symbols@.take(i as int), name),
        decreases i,
    {
        assert(symbols@.take(i as int).drop_last() =~= symbols@.take(i - 1));
        if symbols[i - 1].0 == name {
            return Some(symbols[i - 1].1);
        }
        i = i - 1;
    }
    None
}

/// The declaration of `name` in `scopes`, the innermost scope first.
pub fn scope_lookup(scopes: &Vec<DeclScope>, name: StringId) -> (r: Option<DeclarationId>)
    ensures
        r == lookup_decl(scopes@, name),
{
    let mut i = scopes.len();
    assert(scopes@.take(i as int) =~= scopes@);
    while i > 0
        invariant
            i <= scopes@.len(),
            lookup_decl(scopes@, name) == lookup_decl(scopes@.take(i as int), name),
        decreases i,
    {
        assert(scopes@.take(i as int).drop_last() =~= scopes@.take(i - 1));
        if let Some(d) = lookup_in_symbols(&scopes[i - 1].symbols, name) {
            return Some(d);
        }
        i = i - 1;
    }
    None
}

} // verus!

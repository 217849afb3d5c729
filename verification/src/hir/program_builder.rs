use vstd::prelude::*;

use crate::check::scope::ScopeKind;
use crate::hir::cfg::basic_blocks::ValueTable;
use crate::hir::cfg::{CheckedModule, DeclarationId, ValueId};
use crate::hir::declarations::{CheckedDeclaration, DeclScope};
use crate::hir::errors::SemanticError;
use crate::interner::{SharedInterner, StringId, TagId};
use crate::types::checked_type::Type;
use crate::types::copy::copy_type;

verus! {

/// The ids of the names that lowering refers to itself.
pub struct CommonIdentifiers {
    pub ptr: StringId,
    pub capacity: StringId,
    pub is_heap_allocated: StringId,
    pub len: StringId,
    pub id: StringId,
    pub value: StringId,
}

/// A module being lowered: the module, its errors and its stack of scopes.
pub struct ModuleBuilder {
    pub module: CheckedModule,
    /// Module-specific errors
    pub errors: Vec<SemanticError>,
    /// Stack of closures
    pub scopes: Vec<DeclScope>,
}

impl ModuleBuilder {
    /// A builder for the module at `path`, with only its file scope open.
    pub fn new(path: String) -> (r: ModuleBuilder)
        ensures
            r.module.path@ == path@,
            r.module.exports@.len() == 0,
            r.errors@.len() == 0,
            r.scopes@.len() == 1,
            r.scopes@[0].kind == ScopeKind::File,
            r.scopes@[0].symbols@.len() == 0,
    {
        let mut scopes = Vec::new();
        scopes.push(DeclScope { kind: ScopeKind::File, symbols: Vec::new() });
        ModuleBuilder { module: CheckedModule::new(path), errors: Vec::new(), scopes }
    }
}

/// The program being lowered: its modules, the types of its values, its
/// declarations (declaration `i` at index `i`), its constant data, its
/// interners and its errors.
pub struct ProgramBuilder {
    pub modules: Vec<(String, ModuleBuilder)>,
    pub values: ValueTable,
    pub declarations: Vec<CheckedDeclaration>,
    pub constant_data: Vec<Vec<u8>>,
    pub string_interner: SharedInterner<String, StringId>,
    pub tag_interner: SharedInterner<String, TagId>,
    pub common_identifiers: CommonIdentifiers,
    pub errors: Vec<SemanticError>,
}

fn intern_name(interner: &mut SharedInterner<String, StringId>, name: &str) -> (r: StringId)
    requires
        old(interner).wf(),
        old(interner).keys().len() < usize::MAX,
    ensures
        final(interner).wf(),
        final(interner).keys().len() <= old(interner).keys().len() + 1,
        old(interner).keys().is_prefix_of(final(interner).keys()),
        r.0 < final(interner).keys().len(),
        final(interner).keys()[r.0 as int] == name@,
{
    let key = String::from_str(name);
    let r = interner.intern(&key);
    proof {
        assert(old(interner).keys().is_prefix_of(interner.keys())) by {
            if !old(interner).keys().contains(key@) {
                assert(interner.keys().subrange(0, old(interner).keys().len() as int)
                    =~= old(interner).keys());
            } else {
                assert(interner.keys().subrange(0, old(interner).keys().len() as int)
                    =~= old(interner).keys());
            }
        }
    }
    r
}

impl ProgramBuilder {
    /// A program with no modules and no values yet, whose names `id`,
    /// `value`, `capacity`, `is_heap_allocated`, `len` and `ptr` are interned.
    pub fn new(
        string_interner: SharedInterner<String, StringId>,
        tag_interner: SharedInterner<String, TagId>,
    ) -> (r: ProgramBuilder)
        requires
            string_interner.wf(),
            string_interner.keys().len() + 6 < usize::MAX,
        ensures
            r.string_interner.wf(),
            string_interner.keys().is_prefix_of(r.string_interner.keys()),
            r.string_interner.keys()[r.common_identifiers.id.0 as int] == "id"@,
            r.string_interner.keys()[r.common_identifiers.value.0 as int] == "value"@,
            r.string_interner.keys()[r.common_identifiers.capacity.0 as int] == "capacity"@,
            r.string_interner.keys()[r.common_identifiers.is_heap_allocated.0 as int]
                == "is_heap_allocated"@,
            r.string_interner.keys()[r.common_identifiers.len.0 as int] == "len"@,
            r.string_interner.keys()[r.common_identifiers.ptr.0 as int] == "ptr"@,
            r.common_identifiers.id.0 < r.string_interner.keys().len(),
            r.common_identifiers.value.0 < r.string_interner.keys().len(),
            r.common_identifiers.capacity.0 < r.string_interner.keys().len(),
            r.common_identifiers.is_heap_allocated.0 < r.string_interner.keys().len(),
            r.common_identifiers.len.0 < r.string_interner.keys().len(),
            r.common_identifiers.ptr.0 < r.string_interner.keys().len(),
            r.tag_interner == tag_interner,
            r.values.wf(),
            r.values.count() == 0,
            r.modules@.len() == 0,
            r.declarations@.len() == 0,
            r.constant_data@.len() == 0,
            r.errors@.len() == 0,
    {
        let mut string_interner = string_interner;
        let ghost k0 = string_interner.keys();
        let id = intern_name(&mut string_interner, "id");
        let ghost k1 = string_interner.keys();
        let value = intern_name(&mut string_interner, "value");
        let ghost k2 = string_interner.keys();
        let capacity = intern_name(&mut string_interner, "capacity");
        let ghost k3 = string_interner.keys();
        let is_heap_allocated = intern_name(&mut string_interner, "is_heap_allocated");
        let ghost k4 = string_interner.keys();
        let len = intern_name(&mut string_interner, "len");
        let ghost k5 = string_interner.keys();
        let ptr = intern_name(&mut string_interner, "ptr");
        let ghost k6 = string_interner.keys();
        proof {
            assert(k0.is_prefix_of(k6)) by {
                assert(k0.is_prefix_of(k2));
                assert(k0.is_prefix_of(k4));
            }
            assert(k1[id.0 as int] == k6[id.0 as int]) by {
                assert(k1.is_prefix_of(k3));
                assert(k3.is_prefix_of(k5));
            }
            assert(k2[value.0 as int] == k6[value.0 as int]) by {
                assert(k2.is_prefix_of(k4));
                assert(k4.is_prefix_of(k6));
            }
            assert(k3[capacity.0 as int] == k6[capacity.0 as int]) by {
                assert(k3.is_prefix_of(k5));
            }
            assert(k4[is_heap_allocated.0 as int] == k6[is_heap_allocated.0 as int]);
        }
        let common_identifiers = CommonIdentifiers {
            id,
            value,
            capacity,
            is_heap_allocated,
            len,
            ptr,
        };
        ProgramBuilder {
            errors: Vec::new(),
            modules: Vec::new(),
            values: ValueTable::new(),
            declarations: Vec::new(),
            constant_data: Vec::new(),
            string_interner,
            tag_interner,
            common_identifiers,
        }
    }

    /// The declaration with id `id`.
    pub fn get_declaration(&self, id: DeclarationId) -> (r: &CheckedDeclaration)
        requires
            id.0 < self.declarations@.len(),
        ensures
            *r == self.declarations@[id.0 as int],
    {
        &self.declarations[id.0]
    }

    /// The declaration with id `id`, to be changed in place.
    pub fn get_declaration_mut(&mut self, id: DeclarationId) -> (r: &mut CheckedDeclaration)
        requires
            id.0 < old(self).declarations@.len(),
        ensures
            *r == old(self).declarations@[id.0 as int],
            final(self).declarations@ == old(self).declarations@.update(id.0 as int, *final(r)),
            final(self).values == old(self).values,
            final(self).modules == old(self).modules,
            final(self).errors == old(self).errors,
    {
        &mut self.declarations[id.0]
    }

    /// Replaces the declaration with id `id`.
    pub fn set_declaration(&mut self, id: DeclarationId, decl: CheckedDeclaration)
        requires
            id.0 < old(self).declarations@.len(),
        ensures
            final(self).declarations@ == old(self).declarations@.update(id.0 as int, decl),
            final(self).values == old(self).values,
            final(self).modules == old(self).modules,
            final(self).errors == old(self).errors,
    {
        self.declarations.set(id.0, decl);
    }

    /// Adds a declaration; gives its id, the next one.
    pub fn add_declaration(&mut self, decl: CheckedDeclaration) -> (r: DeclarationId)
        ensures
            r.0 == old(self).declarations@.len(),
            final(self).declarations@ == old(self).declarations@.push(decl),
            final(self).values == old(self).values,
            final(self).modules == old(self).modules,
            final(self).errors == old(self).errors,
    {
        let id = DeclarationId(self.declarations.len());
        self.declarations.push(decl);
        id
    }

    /// The type of a value.
    pub fn get_value_type(&self, value_id: &ValueId) -> (r: Type)
        requires
            value_id.0 < self.values.count(),
        ensures
            r == self.values.types@[value_id.0 as int],
    {
        copy_type(self.values.type_of(*value_id))
    }
}

} // verus!

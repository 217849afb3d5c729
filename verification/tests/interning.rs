use tern::hir::program_builder::ProgramBuilder;
use tern::interner::{Interner, SharedInterner, StringId, TagId};
use tern::hir::cfg::{DeclarationId, ValueId};
use tern::hir::declarations::CheckedDeclaration;
use tern::span::{dummy_span, IdentifierNode, NodeId, Position, Span};
use tern::span_registry::SpanRegistry;
use tern::string_interner::{SharedStringInterner, StringInterner};

#[test]
fn interning_gives_one_id_per_value() {
    let mut i: Interner<String, StringId> = Interner::new();
    let a = i.intern(&"alpha".to_string());
    let b = i.intern(&"beta".to_string());
    let a2 = i.intern(&"alpha".to_string());
    assert_eq!(a, StringId(0));
    assert_eq!(b, StringId(1));
    assert_eq!(a2, a);
    assert_eq!(i.resolve(a), "alpha");
    assert_eq!(i.resolve(b), "beta");
}

#[test]
fn shared_interner_resolves_what_it_interned() {
    let mut s: SharedInterner<String, TagId> = SharedInterner::default();
    let t = s.intern(&"Some".to_string());
    let u = s.intern(&"None".to_string());
    assert_eq!(t, TagId(0));
    assert_eq!(u, TagId(1));
    assert_eq!(s.intern(&"Some".to_string()), t);
    assert_eq!(s.resolve(u), "None");
}

#[test]
fn string_interners_round_trip() {
    let mut s = StringInterner::new();
    let x = s.intern("x");
    let y = s.intern("y");
    assert_ne!(x, y);
    assert_eq!(s.intern("x"), x);
    assert_eq!(s.resolve(y), "y");
    let mut shared = SharedStringInterner::new();
    let z = shared.intern("zeta");
    assert_eq!(shared.resolve(z), "zeta".to_string());
}

#[test]
fn spans_are_kept_by_node_id() {
    let mut r = SpanRegistry::new();
    let s1 = Span { start: Position { line: 1, col: 1, byte_offset: 0 }, end: Position { line: 1, col: 4, byte_offset: 3 } };
    r.add_span(s1);
    r.add_span(dummy_span());
    assert_eq!(*r.get_span(NodeId(0)), s1);
    assert_eq!(*r.get_span(NodeId(1)), dummy_span());
}

#[test]
fn program_builder_interns_its_common_names() {
    let mut strings: SharedInterner<String, StringId> = SharedInterner::default();
    let existing = strings.intern(&"len".to_string());
    let p = ProgramBuilder::new(strings, SharedInterner::default());
    assert_eq!(p.common_identifiers.len, existing);
    assert_eq!(p.string_interner.resolve(p.common_identifiers.id), "id");
    assert_eq!(p.string_interner.resolve(p.common_identifiers.value), "value");
    assert_eq!(p.string_interner.resolve(p.common_identifiers.capacity), "capacity");
    assert_eq!(p.string_interner.resolve(p.common_identifiers.is_heap_allocated), "is_heap_allocated");
    assert_eq!(p.string_interner.resolve(p.common_identifiers.ptr), "ptr");
    assert!(p.values.types.is_empty());
    assert!(p.errors.is_empty());
    assert!(p.declarations.is_empty());
}

#[test]
fn program_builder_keeps_declarations_by_id() {
    let mut p = ProgramBuilder::new(SharedInterner::default(), SharedInterner::default());
    let name = IdentifierNode { name: StringId(7), span: dummy_span() };
    let a = p.add_declaration(CheckedDeclaration::TypeAlias { identifier: name });
    let b = p.add_declaration(CheckedDeclaration::Var { identifier: name, ptr: ValueId(3) });
    assert_eq!(a, DeclarationId(0));
    assert_eq!(b, DeclarationId(1));
    assert!(matches!(p.get_declaration(b), CheckedDeclaration::Var { ptr: ValueId(3), .. }));
    *p.get_declaration_mut(b) = CheckedDeclaration::Var { identifier: name, ptr: ValueId(4) };
    assert!(matches!(p.get_declaration(b), CheckedDeclaration::Var { ptr: ValueId(4), .. }));
    assert!(matches!(p.get_declaration(a), CheckedDeclaration::TypeAlias { .. }));
}

#[test]
fn interned_ids_survive_later_interns() {
    let mut s = StringInterner::new();
    let first = s.intern("first");
    for name in ["a", "b", "first", "c", "a"] {
        s.intern(name);
    }
    assert_eq!(s.resolve(first), "first");
    assert_eq!(s.intern("first"), first);
}

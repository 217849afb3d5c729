use vstd::prelude::*;

use crate::interner::StringId;

verus! {

/// A position in a source file.
#[derive(Clone, Copy, Debug, PartialEq, Eq, Structural, Hash, Default)]
pub struct Position {
    pub line: usize,
    pub col: usize,
    pub byte_offset: usize,
}

/// A range of source text, from `start` (inclusive) to `end` (exclusive).
#[derive(Clone, Copy, Debug, PartialEq, Eq, Structural, Hash, Default)]
pub struct Span {
    pub start: Position,
    pub end: Position,
}

/// An identifier as it appears in the source: the interned name and where it stands.
#[derive(Clone, Copy, Debug, PartialEq, Eq, Structural, Hash)]
pub struct IdentifierNode {
    pub name: StringId,
    pub span: Span,
}

/// Identifies a node of the syntax tree.
#[derive(Clone, Copy, Debug, PartialEq, Eq, Structural, Hash)]
pub struct NodeId(pub usize);

/// Identifies a declaration made by the semantic checker.
#[derive(Clone, Copy, Debug, PartialEq, Eq, Structural, Hash)]
pub struct DefinitionId(pub usize);

/// The span that stands for "no particular place in the source".
pub fn dummy_span() -> (s: Span)
    ensures
        s.start.line == 0 && s.start.col == 0 && s.start.byte_offset == 0,
        s.end == s.start,
{
    let p = Position { line: 0, col: 0, byte_offset: 0 };
    Span { start: p, end: p }
}

} // verus!

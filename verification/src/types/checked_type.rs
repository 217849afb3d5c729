use vstd::prelude::*;

use crate::interner::{StringId, TagId};
use crate::span::{DefinitionId, IdentifierNode};
use crate::types::list::List;

verus! {

/// A named member of a struct type or a parameter of a function type.
pub struct CheckedParam {
    pub id: DefinitionId,
    pub identifier: IdentifierNode,
    pub constraint: Type,
}

/// A generic parameter with its optional constraint.
pub struct CheckedGenericParam {
    pub identifier: IdentifierNode,
    pub constraint: Option<Box<Type>>,
}

/// The type of a function.
pub struct CheckedFnType {
    pub params: List<CheckedParam>,
    pub return_type: Box<Type>,
    pub generic_params: List<CheckedGenericParam>,
    pub applied_type_args: List<Type>,
}

/// A type alias, possibly with generic parameters, or with the type arguments
/// applied to it.
pub struct CheckedTypeAliasDecl {
    pub name: StringId,
    pub generic_params: List<CheckedGenericParam>,
    pub value: Box<Type>,
    pub applied_type_args: List<Type>,
}

/// A tag: an identifier with an optional payload.
pub struct TagType {
    pub id: TagId,
    pub value_type: Option<Box<Type>>,
}

/// The semantic types of the language.
pub enum Type {
    I8,
    I16,
    I32,
    I64,
    ISize,
    U8,
    U16,
    U32,
    U64,
    USize,
    F32,
    F64,
    Bool,
    Char,
    Void,
    Null,
    Unknown,
    /// A union; no member occurs twice and no member is itself a union.
    Union(List<Type>),
    GenericParam(CheckedGenericParam),
    FnType(CheckedFnType),
    /// An anonymous struct with the given fields.
    Struct(List<CheckedParam>),
    TypeAliasDecl(Box<CheckedTypeAliasDecl>),
    Array { item_type: Box<Type>, size: usize },
    /// A pointer, with the type it was declared with and the type it is known to hold.
    Pointer { constraint: Box<Type>, narrowed_to: Box<Type> },
    /// A growable list with a header of capacity, length and buffer pointer.
    List(Box<Type>),
    /// A single tag.
    Tag(TagType),
    /// A union of tags, ordered by tag id.
    TagUnion(List<TagType>),
    /// A string with a header of heap flag, length and data pointer.
    String,
}

} // verus!

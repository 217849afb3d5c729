use vstd::prelude::*;

verus! {

/// A numeric literal with its type. Floating-point literals are carried as the
/// bits of their IEEE 754 representation.
#[derive(Debug, Clone, Copy, PartialEq, Eq, Structural)]
pub enum NumberKind {
    I64(i64),
    I32(i32),
    I16(i16),
    I8(i8),
    F32(u32),
    F64(u64),
    U64(u64),
    U32(u32),
    U16(u16),
    U8(u8),
    USize(usize),
    ISize(isize),
}

} // verus!

pub mod span;
pub mod number;
pub mod ast;
pub mod interner;
pub mod types;
pub mod check;
pub mod string_interner;
pub mod span_registry;
pub mod hir;
pub mod compile;

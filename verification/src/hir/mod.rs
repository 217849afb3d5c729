pub mod cfg;
pub mod counters;
pub mod declarations;
pub mod errors;
pub mod function_builder;
pub mod lowering;
pub mod program_builder;

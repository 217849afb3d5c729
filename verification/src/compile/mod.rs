pub mod errors;
pub mod diagnostics;
pub mod sorting;

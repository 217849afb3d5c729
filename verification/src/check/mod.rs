pub mod numeric;
pub mod assignable;
pub mod union_of;
pub mod errors;
pub mod scope;
pub mod checked_ast;
pub mod checker;
pub mod substitute;
pub mod infer;
pub mod type_to_string;
pub mod check_type;
pub mod check_returns;
pub mod tfg;
pub mod condition;

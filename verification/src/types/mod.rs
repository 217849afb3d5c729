pub mod list;
pub mod checked_type;
pub mod eq;
pub mod copy;
pub mod size;

pub mod type_checker;
pub mod type_inference;
pub mod type_system;

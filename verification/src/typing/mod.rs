pub mod literal_typing;
pub mod type_validation;

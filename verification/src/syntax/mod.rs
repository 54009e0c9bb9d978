pub mod ast;
pub mod lexer;
pub mod lexer_model;
pub mod tokens;
pub mod traits;

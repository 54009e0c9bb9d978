pub mod errors;
pub mod semantics;
pub mod parser;

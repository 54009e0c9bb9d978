pub mod compiler;
pub mod parser;
pub mod syntax;
pub mod typing;
pub mod utils;

use vstd::prelude::*;

verus! {

/// A value with one number in it.
pub struct Test {
    pub field: i32,
}

} // verus!

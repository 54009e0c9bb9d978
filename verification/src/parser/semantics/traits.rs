use vstd::prelude::*;

verus! {

/// What every semantic pass keeps between the nodes it visits.
pub trait AstContext {}

} // verus!

use vstd::prelude::*;

verus! {

/// The pass that lists the nodes of a syntax tree by number. Its steps
/// walk whole trees, which this library does not traverse, so here it is
/// only the name of the pass.
#[derive(Debug, Default)]
pub struct FlattenTree;

} // verus!

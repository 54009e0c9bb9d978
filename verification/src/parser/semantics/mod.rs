pub mod name_resolving;
pub mod name_scoping;
pub mod traits;
pub mod flow_control;
pub mod flatten_tree;
pub mod scope_resolving;

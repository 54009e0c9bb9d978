use lib::parser::semantics::name_scoping::{NameScopingContext, ScopeError, ScopeTree};
use lib::parser::semantics::name_resolving;
use lib::syntax::ast::AstNodeIndex;
use lib::utils::name_map::NameMap;

#[test]
fn declared_const_is_found_from_inner_scopes() {
    let mut tree = ScopeTree::new(10);
    let (inner, _) = tree.stack_scope(Some(0));
    let (innermost, _) = tree.stack_scope(Some(inner));
    assert_eq!(tree.add_const(0, "LIMIT".to_string(), AstNodeIndex(3)), Ok(()));
    assert_eq!(tree.find_scope_index(innermost, "LIMIT"), Some(0));
    assert_eq!(tree.find_scope_index(innermost, "OTHER"), None);
    assert_eq!(tree.scope_id_by_node_index[3], 0);
}

#[test]
fn nearest_declaration_wins() {
    let mut tree = ScopeTree::new(10);
    let (inner, _) = tree.stack_scope(Some(0));
    tree.add_variable(0, "x".to_string(), AstNodeIndex(1));
    tree.add_variable(inner, "x".to_string(), AstNodeIndex(2));
    assert_eq!(tree.find_scope_index(inner, "x"), Some(inner));
    assert_eq!(tree.find_scope_index(0, "x"), Some(0));
    assert!(tree.is_variable_defined(inner, "x"));
    assert!(tree.scope_contains(inner, "x"));
}

#[test]
fn redeclaring_a_const_is_refused() {
    let mut tree = ScopeTree::new(4);
    assert_eq!(tree.add_const(0, "A".to_string(), AstNodeIndex(0)), Ok(()));
    assert_eq!(tree.add_const(0, "A".to_string(), AstNodeIndex(1)), Err(ScopeError::NameIsAlreadyDefined));
    assert_eq!(tree.add_static(0, "A".to_string(), AstNodeIndex(2)), Err(ScopeError::NameIsAlreadyDefined));
    assert_eq!(tree.add_static(0, "B".to_string(), AstNodeIndex(2)), Ok(()));
    assert!(tree.scopes[0].const_declarations.contains_key("B"));
}

#[test]
fn a_new_scope_keeps_earlier_lookups() {
    let mut tree = ScopeTree::new(4);
    tree.add_const(0, "C".to_string(), AstNodeIndex(0)).unwrap();
    let before = tree.find_scope_index(0, "C");
    let (child, scope) = tree.stack_scope(None);
    assert_eq!(child, 1);
    assert_eq!(scope.parent_scope, None);
    assert_eq!(tree.find_scope_index(0, "C"), before);
    assert_eq!(tree.tree, vec![0, 0]);
}

#[test]
fn sibling_scopes_do_not_see_each_other() {
    let mut tree = ScopeTree::new(4);
    let (left, _) = tree.stack_scope(Some(0));
    let (right, _) = tree.stack_scope(Some(0));
    tree.add_variable(left, "only_left".to_string(), AstNodeIndex(1));
    assert_eq!(tree.find_scope_index(right, "only_left"), None);
    assert_eq!(tree.find_from_scope(left, "only_left").map(|(i, _)| i), Some(left));
}

#[test]
fn context_starts_in_the_top_level_scope() {
    let context = NameScopingContext::new(3);
    assert!(context.get_current_scope().parent_scope.is_none());
    assert_eq!(context.local_scopes.scopes.len(), 1);
}

#[test]
fn resolving_tree_finds_names_outward() {
    let mut tree = name_resolving::ScopeTree::new();
    let (inner, _) = tree.stack_scope(Some(0));
    assert!(tree.find_scope_index(inner, "f").is_none());
    assert!(!tree.scope_contains(0, "f"));
}

#[test]
fn name_map_later_insert_replaces_value() {
    let mut map: NameMap<u32> = NameMap::new();
    assert!(map.is_empty());
    map.insert("a".to_string(), 1);
    map.insert("b".to_string(), 2);
    map.insert("a".to_string(), 3);
    assert_eq!(map.get("a"), Some(&3));
    assert_eq!(map.get("b"), Some(&2));
    assert_eq!(map.get("c"), None);
    assert!(map.contains_key("b"));
    if let Some(v) = map.get_mut("b") {
        *v = 5;
    }
    assert_eq!(map.get("b"), Some(&5));
}

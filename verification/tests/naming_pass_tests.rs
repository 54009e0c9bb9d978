use lib::parser::semantics::scope_resolving::{ScopeResolvingError, ScopeResolvingSemantics};
use lib::parser::semantics::name_scoping::{NameScopingContext, NameScopingError, NameScopingSemantics};
use lib::syntax::ast::AstNodeIndex;

fn args(names: &[(&str, usize)]) -> Vec<(String, AstNodeIndex)> {
    names.iter().map(|(n, i)| (n.to_string(), AstNodeIndex(*i))).collect()
}

#[test]
fn function_declares_its_name_and_parameters() {
    let pass = NameScopingSemantics;
    let mut context = NameScopingContext::new(20);
    let outer = pass.try_enter_function_statement(AstNodeIndex(1), "main".to_string(), &args(&[("a", 2), ("b", 3)]), &mut context).unwrap();
    assert_eq!(outer, 0);
    assert!(context.get_scope(0).functions.contains_key("main"));
    let inner = context.get_current_scope();
    assert_eq!(inner.parent_scope, Some(0));
    assert_eq!(inner.variables.get("a"), Some(&vec![AstNodeIndex(2)]));
    assert_eq!(inner.variables.get("b"), Some(&vec![AstNodeIndex(3)]));
    assert_eq!(context.local_scopes.find_scope_index(1, "main"), Some(0));
    pass.leave_function_statement(outer, &mut context);
    assert!(context.get_current_scope().parent_scope.is_none());
}

#[test]
fn duplicate_function_and_parameter_are_refused() {
    let pass = NameScopingSemantics;
    let mut context = NameScopingContext::new(20);
    pass.try_enter_function_statement(AstNodeIndex(1), "f".to_string(), &args(&[]), &mut context).map(|outer| pass.leave_function_statement(outer, &mut context)).unwrap();
    assert_eq!(
        pass.try_enter_function_statement(AstNodeIndex(2), "f".to_string(), &args(&[]), &mut context),
        Err(NameScopingError::DuplicatedFunction)
    );
    assert_eq!(
        pass.try_enter_function_statement(AstNodeIndex(3), "g".to_string(), &args(&[("x", 4), ("x", 5)]), &mut context),
        Err(NameScopingError::DuplicatedParameter)
    );
    assert!(!context.get_scope(0).functions.contains_key("g"));
    assert_eq!(context.local_scopes.scopes.len(), 2);
}

#[test]
fn let_cannot_shadow_in_the_same_scope() {
    let pass = NameScopingSemantics;
    let mut context = NameScopingContext::new(10);
    assert_eq!(pass.visit_const_statement("N".to_string(), AstNodeIndex(0), &mut context), Ok(()));
    assert_eq!(pass.visit_let_statement("N".to_string(), AstNodeIndex(1), &mut context), Err(NameScopingError::LetShadowsDeclaration));
    let previous = context.enter_new_naming_scope();
    assert_eq!(pass.visit_let_statement("N".to_string(), AstNodeIndex(2), &mut context), Ok(()));
    assert_eq!(pass.visit_let_statement("N".to_string(), AstNodeIndex(3), &mut context), Err(NameScopingError::LetShadowsDeclaration));
    context.leave_naming_scope(previous);
    assert_eq!(pass.visit_static_statement("N".to_string(), AstNodeIndex(4), &mut context), Err(NameScopingError::StaticRedefined));
    assert_eq!(pass.visit_const_statement("N".to_string(), AstNodeIndex(5), &mut context), Err(NameScopingError::ConstRedefined));
    assert_eq!(pass.visit_static_statement("S".to_string(), AstNodeIndex(6), &mut context), Ok(()));
    assert_eq!(context.local_scopes.scope_id_by_node_index[2], 1);
}

#[test]
fn impl_blocks_collect_functions_and_methods() {
    let pass = NameScopingSemantics;
    let mut context = NameScopingContext::new(30);
    assert_eq!(pass.visit_struct_statement("Point".to_string(), AstNodeIndex(1), &mut context), Ok(()));
    assert_eq!(pass.visit_struct_statement("Point".to_string(), AstNodeIndex(2), &mut context), Err(NameScopingError::StructRedefined));
    let was_inside = pass.enter_impl_statement("Point".to_string(), AstNodeIndex(3), &mut context).unwrap();
    assert!(!was_inside);
    let block = context.get_scope(0).impl_blocks.get("Point").unwrap();
    assert_eq!(block.ast_node_index, AstNodeIndex(3));
    assert_eq!(block.struct_ast_node_index, AstNodeIndex(1));

    let outer = pass.try_enter_function_statement(AstNodeIndex(4), "new".to_string(), &args(&[("x", 5)]), &mut context).unwrap();
    pass.leave_function_statement(outer, &mut context);
    let (outer, flag) = pass.try_enter_method_statement(AstNodeIndex(6), "len".to_string(), &args(&[]), &mut context).unwrap();
    pass.leave_method_statement(outer, flag, &mut context);
    let block = context.get_scope(0).impl_blocks.get("Point").unwrap();
    assert!(block.functions.contains_key("new"));
    assert!(block.methods.contains_key("len"));
    assert!(context.local_scopes.find_in_all_impl_blocks("len", "Point"));

    assert_eq!(
        pass.try_enter_method_statement(AstNodeIndex(7), "new".to_string(), &args(&[]), &mut context),
        Err(NameScopingError::DuplicatedImplMethod)
    );
    assert_eq!(
        pass.try_enter_function_statement(AstNodeIndex(8), "len".to_string(), &args(&[]), &mut context),
        Err(NameScopingError::DuplicatedImplFunction)
    );
    pass.leave_impl_statement(was_inside, &mut context);
}

#[test]
fn impl_for_unknown_names_is_refused() {
    let pass = NameScopingSemantics;
    let mut context = NameScopingContext::new(10);
    assert_eq!(pass.enter_impl_statement("Missing".to_string(), AstNodeIndex(1), &mut context), Err(NameScopingError::NameNotFound));
    pass.visit_const_statement("C".to_string(), AstNodeIndex(2), &mut context).unwrap();
    assert_eq!(pass.enter_impl_statement("C".to_string(), AstNodeIndex(3), &mut context), Err(NameScopingError::StructNotFound));
}

use lib::parser::semantics::name_resolving::{NameResolvingContext, NameResolvingError, NameResolvingSemantics};

fn names(list: &[&str]) -> Vec<String> {
    list.iter().map(|n| n.to_string()).collect()
}

#[test]
fn resolving_pass_declares_functions_and_parameters() {
    let pass = NameResolvingSemantics;
    let mut context = NameResolvingContext::default();
    let outer = pass.try_enter_function_statement(AstNodeIndex(1), "f".to_string(), &names(&["a", "b"]), &mut context).unwrap();
    assert_eq!(outer, 0);
    assert_eq!(context.get_current_scope().variables.get("a"), Some(&vec![AstNodeIndex(1)]));
    pass.leave_function_statement(outer, &mut context);
    assert_eq!(context.get_current_scope().functions.get("f"), Some(&AstNodeIndex(1)));
    assert_eq!(
        pass.try_enter_function_statement(AstNodeIndex(2), "f".to_string(), &names(&[]), &mut context),
        Err(NameResolvingError::DuplicatedFunction)
    );
    assert_eq!(
        pass.try_enter_function_statement(AstNodeIndex(3), "g".to_string(), &names(&["x", "x"]), &mut context),
        Err(NameResolvingError::DuplicatedParameter)
    );
}

#[test]
fn resolving_let_cannot_shadow_consts_or_statics() {
    let pass = NameResolvingSemantics;
    let mut context = NameResolvingContext::default();
    pass.visit_const_statement("C".to_string(), AstNodeIndex(1), &mut context).unwrap();
    pass.visit_static_statement("S".to_string(), AstNodeIndex(2), &mut context).unwrap();
    assert_eq!(pass.visit_let_statement("C".to_string(), AstNodeIndex(3), &mut context), Err(NameResolvingError::LetShadowsConst));
    assert_eq!(pass.visit_let_statement("S".to_string(), AstNodeIndex(4), &mut context), Err(NameResolvingError::LetShadowsStatic));
    assert_eq!(pass.visit_let_statement("v".to_string(), AstNodeIndex(5), &mut context), Ok(()));
    assert_eq!(pass.visit_let_statement("v".to_string(), AstNodeIndex(6), &mut context), Ok(()));
    assert_eq!(context.get_current_scope().variables.get("v"), Some(&vec![AstNodeIndex(5), AstNodeIndex(6)]));
    assert_eq!(pass.visit_const_statement("v".to_string(), AstNodeIndex(7), &mut context), Err(NameResolvingError::ConstRedefined));
    assert_eq!(pass.visit_static_statement("C".to_string(), AstNodeIndex(8), &mut context), Err(NameResolvingError::StaticRedefined));
}

#[test]
fn resolving_methods_get_self() {
    let pass = NameResolvingSemantics;
    let mut context = NameResolvingContext::default();
    pass.visit_struct_statement("P".to_string(), AstNodeIndex(1), &mut context).unwrap();
    assert_eq!(pass.visit_struct_statement("P".to_string(), AstNodeIndex(2), &mut context), Err(NameResolvingError::StructRedefined));
    let was_inside = pass.enter_impl_statement("P".to_string(), AstNodeIndex(3), &mut context).unwrap();
    let (outer, flag) = pass.try_enter_method_statement("len".to_string(), &names(&["k"]), &mut context).unwrap();
    assert!(context.get_current_scope().variables.contains_key("self"));
    assert!(context.get_current_scope().variables.contains_key("k"));
    pass.leave_method_statement(outer, flag, &mut context);
    assert_eq!(
        pass.try_enter_method_statement("other".to_string(), &names(&["self"]), &mut context),
        Err(NameResolvingError::DuplicatedParameter)
    );
    assert_eq!(
        pass.try_enter_method_statement("len".to_string(), &names(&[]), &mut context),
        Err(NameResolvingError::DuplicatedImplMethod)
    );
    pass.leave_impl_statement(was_inside, &mut context);
    assert_eq!(pass.enter_impl_statement("Q".to_string(), AstNodeIndex(9), &mut context), Err(NameResolvingError::NameNotFound));
}

#[test]
fn names_in_use_resolve_outward() {
    let pass = NameScopingSemantics;
    let resolving = ScopeResolvingSemantics;
    let mut context = NameScopingContext::new(10);
    assert_eq!(pass.visit_struct_statement("Point".to_string(), AstNodeIndex(0), &mut context), Ok(()));
    assert_eq!(pass.visit_let_statement("x".to_string(), AstNodeIndex(1), &mut context), Ok(()));
    let previous = context.enter_new_naming_scope();
    assert_eq!(pass.visit_let_statement("y".to_string(), AstNodeIndex(2), &mut context), Ok(()));
    context.leave_naming_scope(previous);
    let scopes = &context.local_scopes;
    // Node 2 was read in the inner scope, which sees the outer names too.
    assert_eq!(resolving.get_node_scope_id(scopes, AstNodeIndex(2)), Some(1));
    assert_eq!(resolving.visit_identifier(scopes, AstNodeIndex(2), "x"), Ok(()));
    assert_eq!(resolving.visit_identifier(scopes, AstNodeIndex(1), "y"), Err(ScopeResolvingError::NotFoundInScope));
    assert_eq!(resolving.visit_identifier(scopes, AstNodeIndex(40), "x"), Err(ScopeResolvingError::NotInNameTable));
    assert_eq!(resolving.visit_cast(scopes, AstNodeIndex(2), "Point"), Ok(()));
    assert_eq!(resolving.visit_struct_initializer(scopes, AstNodeIndex(2), "Point"), Ok(AstNodeIndex(0)));
    assert_eq!(resolving.visit_struct_initializer(scopes, AstNodeIndex(2), "x"), Err(ScopeResolvingError::NotAStruct));
}

#[test]
fn struct_types_found_through_scopes() {
    use_struct_lookup();
}

fn use_struct_lookup() {
    let pass = NameScopingSemantics;
    let mut context = NameScopingContext::new(10);
    assert_eq!(pass.visit_struct_statement("Point".to_string(), AstNodeIndex(0), &mut context), Ok(()));
    assert_eq!(pass.visit_let_statement("p".to_string(), AstNodeIndex(1), &mut context), Ok(()));
    let mut types = lib::typing::type_validation::TypeValidationContext::new();
    let point = lib::typing::literal_typing::StructType {
        ast_node_index: AstNodeIndex(0),
        name: "Point".to_string(),
        fields: vec![],
    };
    types.set_node_type(
        AstNodeIndex(0),
        lib::typing::literal_typing::Type::new(lib::typing::literal_typing::BuiltinType::Struct(Box::new(point)), false),
    );
    let found = types.find_struct_type_from_name(&context.local_scopes, AstNodeIndex(1), "Point").ok().unwrap();
    assert_eq!(found.name, "Point");
    assert_eq!(
        types.find_struct_type_from_name(&context.local_scopes, AstNodeIndex(1), "Line").err(),
        Some(lib::typing::type_validation::TypeValidationError::UnknownType)
    );
    assert_eq!(
        types.find_struct_type_from_name(&context.local_scopes, AstNodeIndex(1), "p").err(),
        Some(lib::typing::type_validation::TypeValidationError::UnknownType)
    );
}

#[test]
fn entering_allowed_functions_needs_no_error_path() {
    let pass = NameScopingSemantics;
    let mut context = NameScopingContext::new(20);
    let outer = pass.enter_function_statement(AstNodeIndex(1), "main".to_string(), &args(&[("a", 2)]), &mut context);
    assert_eq!(outer, 0);
    assert_eq!(context.get_current_scope().variables.get("a"), Some(&vec![AstNodeIndex(2)]));
    pass.leave_function_statement(outer, &mut context);
    assert!(context.get_scope(0).functions.contains_key("main"));
}

#[test]
fn resolving_allowed_function_entry() {
    let pass = NameResolvingSemantics;
    let mut context = NameResolvingContext::default();
    let outer = pass.enter_function_statement(AstNodeIndex(1), "g".to_string(), &names(&["x"]), &mut context);
    assert_eq!(outer, 0);
    assert!(context.get_current_scope().variables.contains_key("x"));
    pass.leave_function_statement(outer, &mut context);
    assert!(context.get_scope(0).functions.contains_key("g"));
}

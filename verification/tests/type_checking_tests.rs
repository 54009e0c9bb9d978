use lib::syntax::ast::{AstNodeIndex, PlainLiteral, PointerAnnotation, Type as AstType, TypeAnnotation, TypeKind};
use lib::syntax::tokens::TokenType;
use lib::typing::literal_typing::{BuiltinType, FunctionType, PointerType, StructType, Type};
use lib::typing::type_validation::{
    builtin_type_from_type_kind, TypeValidationContext, TypeValidationError, TypeValidationSemantics,
};
use lib::utils::test_utils::ttoken;

fn t(ttype: BuiltinType, mutable: bool) -> Type {
    Type::new(ttype, mutable)
}

fn n(i: usize) -> AstNodeIndex {
    AstNodeIndex(i)
}

fn typed(pairs: Vec<(usize, Type)>) -> TypeValidationContext {
    let mut context = TypeValidationContext::new();
    for (node, node_type) in pairs {
        context.set_node_type(AstNodeIndex(node), node_type);
    }
    context
}

fn point(index: usize) -> BuiltinType {
    BuiltinType::Struct(Box::new(StructType {
        ast_node_index: AstNodeIndex(index),
        name: "Point".to_string(),
        fields: vec![
            ("x".to_string(), t(BuiltinType::I32, false)),
            ("y".to_string(), t(BuiltinType::I64, true)),
        ],
    }))
}

fn simple(name: &'static str) -> TypeKind {
    TypeKind::Simple(AstType { name: ttoken(TokenType::Identifier, name, name) })
}

#[test]
fn unary_minus_keeps_the_operand_type() {
    let mut context = typed(vec![(1, t(BuiltinType::I32, true))]);
    let semantics = TypeValidationSemantics;
    assert_eq!(semantics.visit_unary(n(2), TokenType::Minus, n(1), &mut context), Ok(()));
    assert_eq!(*context.get_node_type(n(2)), t(BuiltinType::I32, true));
    assert_eq!(
        semantics.visit_unary(n(3), TokenType::LogicalNot, n(1), &mut context),
        Err(TypeValidationError::UnaryOperatorMismatch)
    );
    assert!(!context.evaluated_types.contains_key(&3));
}

#[test]
fn binary_types_and_mismatch() {
    let mut context = typed(vec![(1, t(BuiltinType::U8, false)), (2, t(BuiltinType::U8, false)), (3, t(BuiltinType::Bool, false))]);
    let semantics = TypeValidationSemantics;
    assert_eq!(semantics.visit_binary(n(4), TokenType::Plus, n(1), n(2), &mut context), Ok(()));
    assert_eq!(context.get_node_type(n(4)).ttype, BuiltinType::U8);
    assert_eq!(semantics.visit_binary(n(5), TokenType::Less, n(1), n(2), &mut context), Ok(()));
    assert_eq!(*context.get_node_type(n(5)), t(BuiltinType::Bool, false));
    assert_eq!(
        semantics.visit_binary(n(6), TokenType::Plus, n(1), n(3), &mut context),
        Err(TypeValidationError::BinaryOperatorMismatch)
    );
}

#[test]
fn assignments_need_a_changeable_place() {
    let semantics = TypeValidationSemantics;
    let mut context = typed(vec![(1, t(BuiltinType::I32, true)), (2, t(BuiltinType::I32, false)), (3, t(BuiltinType::I32, false))]);
    assert_eq!(semantics.visit_assignment(n(9), n(1), false, n(2), &mut context), Err(TypeValidationError::NotAPlaceExpression));
    assert_eq!(semantics.visit_assignment(n(9), n(3), true, n(2), &mut context), Err(TypeValidationError::AssignmentToImmutable));
    assert_eq!(semantics.visit_assignment(n(9), n(1), true, n(2), &mut context), Ok(()));
    assert_eq!(*context.get_node_type(n(9)), t(BuiltinType::I32, true));
    let mut context = typed(vec![(1, t(BuiltinType::I32, true)), (2, t(BuiltinType::Bool, false))]);
    assert_eq!(semantics.visit_assignment(n(9), n(1), true, n(2), &mut context), Err(TypeValidationError::AssignmentMismatch));
}

#[test]
fn in_place_assignments() {
    let semantics = TypeValidationSemantics;
    let mut context = typed(vec![(1, t(BuiltinType::I32, true)), (2, t(BuiltinType::I32, false)), (3, t(BuiltinType::Bool, false))]);
    assert_eq!(semantics.visit_inplace_assignment(n(9), TokenType::PlusEquals, n(1), true, n(2), &mut context), Ok(()));
    assert_eq!(context.get_node_type(n(9)).ttype, BuiltinType::I64);
    assert_eq!(
        semantics.visit_inplace_assignment(n(10), TokenType::PlusEquals, n(1), true, n(3), &mut context),
        Err(TypeValidationError::InplaceAssignmentMismatch)
    );
}

#[test]
fn groupings_declarations_and_names_copy_types() {
    let semantics = TypeValidationSemantics;
    let mut context = typed(vec![(1, t(BuiltinType::Char, true))]);
    semantics.visit_grouping(n(2), n(1), &mut context);
    semantics.visit_typed_declaration(n(3), n(1), &mut context);
    semantics.visit_identifier(n(4), n(3), &mut context);
    for i in 2..5 {
        assert_eq!(*context.get_node_type(n(i)), t(BuiltinType::Char, true));
    }
}

#[test]
fn literals_are_immutable_values() {
    let semantics = TypeValidationSemantics;
    let mut context = TypeValidationContext::new();
    semantics.visit_literal(n(1), &PlainLiteral::U16(7), &mut context);
    semantics.visit_literal(n(2), &PlainLiteral::String("hi".to_string()), &mut context);
    semantics.visit_literal(n(3), &PlainLiteral::Bool(true), &mut context);
    assert_eq!(*context.get_node_type(n(1)), t(BuiltinType::U16, false));
    assert_eq!(*context.get_node_type(n(2)), t(BuiltinType::String, false));
    assert_eq!(*context.get_node_type(n(3)), t(BuiltinType::Bool, false));
}

#[test]
fn let_statement_types() {
    let semantics = TypeValidationSemantics;
    let mut context = typed(vec![(1, t(BuiltinType::I32, false)), (2, t(BuiltinType::I32, true)), (3, t(BuiltinType::Bool, false))]);
    assert_eq!(semantics.visit_let_statement(n(10), Some(n(1)), Some(n(2)), true, &mut context), Ok(()));
    assert_eq!(*context.get_node_type(n(10)), t(BuiltinType::I32, true));
    assert_eq!(semantics.visit_let_statement(n(11), None, Some(n(3)), false, &mut context), Ok(()));
    assert_eq!(*context.get_node_type(n(11)), t(BuiltinType::Bool, false));
    assert_eq!(semantics.visit_let_statement(n(12), Some(n(3)), None, true, &mut context), Ok(()));
    assert_eq!(*context.get_node_type(n(12)), t(BuiltinType::Bool, true));
    assert_eq!(
        semantics.visit_let_statement(n(13), Some(n(1)), Some(n(3)), false, &mut context),
        Err(TypeValidationError::LetTypeMismatch)
    );
    assert_eq!(
        semantics.visit_let_statement(n(14), None, None, false, &mut context),
        Err(TypeValidationError::LetWithoutTypeOrInitializer)
    );
    assert!(!context.evaluated_types.contains_key(&13));
}

#[test]
fn casts() {
    let semantics = TypeValidationSemantics;
    let pointer = BuiltinType::Pointer(Box::new(PointerType::new(BuiltinType::I32, false)));
    let mut context = typed(vec![
        (1, t(BuiltinType::I32, false)),
        (2, t(BuiltinType::U8, false)),
        (3, t(pointer, false)),
        (4, t(BuiltinType::Bool, false)),
    ]);
    assert_eq!(semantics.visit_cast(n(10), n(1), n(2), false, &mut context), Ok(()));
    assert_eq!(*context.get_node_type(n(10)), t(BuiltinType::U8, false));
    assert_eq!(semantics.visit_cast(n(11), n(3), n(4), false, &mut context), Err(TypeValidationError::InvalidCast));
    assert!(!context.evaluated_types.contains_key(&11));
    assert_eq!(semantics.visit_cast(n(11), n(3), n(4), true, &mut context), Ok(()));
    assert_eq!(*context.get_node_type(n(11)), t(BuiltinType::Bool, false));
}

#[test]
fn field_access_through_dot_and_arrow() {
    let semantics = TypeValidationSemantics;
    let to_point = BuiltinType::Pointer(Box::new(PointerType::new(point(7), true)));
    let mut context = typed(vec![(1, t(point(7), false)), (2, t(to_point, false)), (3, t(BuiltinType::I32, false))]);
    assert_eq!(semantics.visit_dot_access(n(10), n(1), "y", &mut context), Ok(()));
    assert_eq!(*context.get_node_type(n(10)), t(BuiltinType::I64, true));
    assert_eq!(semantics.visit_dot_access(n(11), n(1), "z", &mut context), Err(TypeValidationError::UnknownField));
    assert_eq!(semantics.visit_dot_access(n(11), n(3), "x", &mut context), Err(TypeValidationError::NotAStruct));
    assert_eq!(semantics.visit_arrow_access(n(12), n(2), "x", &mut context), Ok(()));
    assert_eq!(*context.get_node_type(n(12)), t(BuiltinType::I32, false));
    assert_eq!(semantics.visit_arrow_access(n(13), n(1), "x", &mut context), Err(TypeValidationError::NotAPointer));
    assert!(!context.evaluated_types.contains_key(&11));
}

#[test]
fn calls_check_arguments() {
    let semantics = TypeValidationSemantics;
    let function = BuiltinType::Function(Box::new(FunctionType {
        arguments: vec![BuiltinType::I32, BuiltinType::Bool],
        return_type: BuiltinType::Void,
    }));
    let context = typed(vec![
        (1, t(function, false)),
        (2, t(BuiltinType::I32, false)),
        (3, t(BuiltinType::Bool, true)),
    ]);
    assert_eq!(semantics.visit_call(n(1), &vec![n(2), n(3)], &context), Ok(()));
    assert_eq!(semantics.visit_call(n(1), &vec![n(2)], &context), Err(TypeValidationError::ArgumentCountMismatch));
    assert_eq!(semantics.visit_call(n(1), &vec![n(3), n(2)], &context), Err(TypeValidationError::ArgumentTypeMismatch));
    assert_eq!(semantics.visit_call(n(2), &vec![], &context), Err(TypeValidationError::NotCallable));
}

#[test]
fn struct_declarations_and_initializers() {
    let semantics = TypeValidationSemantics;
    let mut context = typed(vec![(1, t(BuiltinType::I32, false)), (2, t(BuiltinType::Bool, true))]);
    let fields = vec![("a".to_string(), n(1)), ("b".to_string(), n(2))];
    semantics.visit_struct_statement(n(5), &"S".to_string(), &fields, &mut context);
    let declared = context.get_node_type(n(5)).clone();
    assert!(!declared.mutable);
    match &declared.ttype {
        BuiltinType::Struct(s) => {
            assert_eq!(s.ast_node_index, n(5));
            assert_eq!(s.name, "S");
            assert_eq!(s.fields.len(), 2);
            assert_eq!(s.fields[1].0, "b");
            assert_eq!(s.fields[1].1, t(BuiltinType::Bool, true));
        },
        _ => panic!("not a struct"),
    }
    context.set_node_type(n(6), t(BuiltinType::I32, false));
    context.set_node_type(n(7), t(BuiltinType::Char, false));
    assert_eq!(semantics.visit_struct_initializer(n(8), n(5), &vec![("a".to_string(), n(6))], &mut context), Ok(()));
    assert_eq!(context.get_node_type(n(8)).ttype, declared.ttype);
    assert_eq!(
        semantics.visit_struct_initializer(n(9), n(5), &vec![("c".to_string(), n(6))], &mut context),
        Err(TypeValidationError::UnknownField)
    );
    assert_eq!(
        semantics.visit_struct_initializer(n(9), n(5), &vec![("a".to_string(), n(7))], &mut context),
        Err(TypeValidationError::InitializerTypeMismatch)
    );
    assert_eq!(
        semantics.visit_struct_initializer(n(9), n(6), &vec![], &mut context),
        Err(TypeValidationError::NotAStruct)
    );
}

#[test]
fn annotations_name_basic_types_pointers_and_structs() {
    let semantics = TypeValidationSemantics;
    let mut context = typed(vec![(1, t(point(1), false)), (2, t(BuiltinType::I32, false))]);
    let pointer_kind = TypeKind::Pointer(PointerAnnotation { inner_type: Box::new(simple("u8")), points_to_mut: true });
    let annotation = TypeAnnotation { kind: pointer_kind, is_mut: false };
    assert_eq!(semantics.visit_type_annotation(n(10), &annotation, None, &mut context), Ok(()));
    assert_eq!(
        *context.get_node_type(n(10)),
        t(BuiltinType::Pointer(Box::new(PointerType::new(BuiltinType::U8, true))), false)
    );
    let named = TypeAnnotation { kind: simple("Point"), is_mut: true };
    assert_eq!(semantics.visit_type_annotation(n(11), &named, Some(n(1)), &mut context), Ok(()));
    assert_eq!(*context.get_node_type(n(11)), t(point(1), true));
    assert_eq!(semantics.visit_type_annotation(n(12), &named, None, &mut context), Err(TypeValidationError::UnknownType));
    assert_eq!(semantics.visit_type_annotation(n(12), &named, Some(n(2)), &mut context), Err(TypeValidationError::NotAStruct));
    assert_eq!(builtin_type_from_type_kind(&simple("usize"), None), Ok(BuiltinType::Usize));
}

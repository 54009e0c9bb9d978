use lib::syntax::ast::{AstNodeIndex, PointerAnnotation, Type as AstType, TypeAnnotation, TypeKind};
use lib::syntax::tokens::TokenType;
use lib::typing::literal_typing::{
    is_basic_type, match_binary_op, match_inplace_assignment_op, match_pointer_binary_comparison,
    match_pointer_binary_op, match_pointer_binary_op_comm, match_unary_op, verify_cast_operator, BuiltinType,
    FunctionType, InnerTypeEq, PointerType, StructType, Type, TypeSize, COMPARISON_OP_MAP, DIV_OP_MAP,
    LOGICAL_OP_MAP, LOGICAL_UNARY_MAP, MUL_OP_MAP, PLUS_OP_MAP, SUB_OP_MAP, UNARY_MINUS_OP_MAP,
};
use lib::typing::type_validation::TypeValidationContext;
use lib::utils::test_utils::ttoken;

fn t(ttype: BuiltinType, mutable: bool) -> Type {
    Type::new(ttype, mutable)
}

fn ptr(inner: BuiltinType, mutable: bool) -> BuiltinType {
    BuiltinType::Pointer(Box::new(PointerType::new(inner, mutable)))
}

fn simple(name: &'static str) -> TypeKind {
    TypeKind::Simple(AstType { name: ttoken(TokenType::Identifier, name, name) })
}

fn point_struct(index: usize) -> StructType {
    StructType {
        ast_node_index: AstNodeIndex(index),
        name: "Point".to_string(),
        fields: vec![
            ("x".to_string(), t(BuiltinType::I32, false)),
            ("y".to_string(), t(BuiltinType::I64, true)),
        ],
    }
}

#[test]
fn i32_sums_are_i64() {
    let r = match_binary_op(TokenType::Plus, &t(BuiltinType::I32, true), &t(BuiltinType::I32, false)).unwrap();
    assert_eq!(r.ttype, BuiltinType::I64);
    assert!(r.mutable);
}

#[test]
fn mixed_operands_have_no_sum() {
    assert!(match_binary_op(TokenType::Plus, &t(BuiltinType::I32, false), &t(BuiltinType::U8, false)).is_none());
    assert!(match_binary_op(TokenType::Plus, &t(BuiltinType::Bool, false), &t(BuiltinType::Bool, false)).is_none());
}

#[test]
fn strings_add_but_do_not_subtract() {
    let s = t(BuiltinType::String, false);
    assert_eq!(match_binary_op(TokenType::Plus, &s, &s).unwrap().ttype, BuiltinType::String);
    assert!(match_binary_op(TokenType::Minus, &s, &s).is_none());
}

#[test]
fn string_times_usize_in_either_order() {
    let s = t(BuiltinType::String, false);
    let n = t(BuiltinType::Usize, true);
    let a = match_binary_op(TokenType::Star, &s, &n).unwrap();
    let b = match_binary_op(TokenType::Star, &n, &s).unwrap();
    assert_eq!(a.ttype, BuiltinType::String);
    assert_eq!(b.ttype, BuiltinType::String);
    assert!(!a.mutable);
    assert!(b.mutable);
    assert!(match_binary_op(TokenType::Star, &n, &n).is_none());
    assert_eq!(match_binary_op(TokenType::Slash, &n, &n).unwrap().ttype, BuiltinType::Usize);
}

#[test]
fn comparisons_give_immutable_bool() {
    let r = match_binary_op(TokenType::Less, &t(BuiltinType::F64, true), &t(BuiltinType::F64, true)).unwrap();
    assert_eq!(r, t(BuiltinType::Bool, false));
    let null = t(BuiltinType::Null, false);
    assert_eq!(match_binary_op(TokenType::EqualsEquals, &null, &null).unwrap(), t(BuiltinType::Bool, false));
    let void = t(BuiltinType::Void, false);
    assert!(match_binary_op(TokenType::EqualsEquals, &void, &void).is_none());
}

#[test]
fn pointers_compare_when_they_point_to_the_same_type() {
    let a = t(ptr(BuiltinType::I32, false), false);
    let b = t(ptr(BuiltinType::I32, true), false);
    let c = t(ptr(BuiltinType::U8, true), false);
    assert_eq!(match_pointer_binary_comparison(&a, &b), Some(t(BuiltinType::Bool, false)));
    assert_eq!(match_pointer_binary_comparison(&a, &c), None);
    assert_eq!(match_binary_op(TokenType::NotEquals, &a, &b), Some(t(BuiltinType::Bool, false)));
}

#[test]
fn logical_operators_take_bools() {
    let b = t(BuiltinType::Bool, true);
    assert_eq!(match_binary_op(TokenType::LogicalAnd, &b, &b).unwrap().ttype, BuiltinType::Bool);
    assert!(match_binary_op(TokenType::LogicalOr, &b, &t(BuiltinType::I8, true)).is_none());
}

#[test]
fn pointer_arithmetic_only_in_place() {
    let p = t(ptr(BuiltinType::U8, true), true);
    let i = t(BuiltinType::I64, false);
    assert!(match_binary_op(TokenType::Plus, &p, &i).is_none());
    assert!(match_pointer_binary_op_comm(&p, &i).is_none());
    assert_eq!(match_pointer_binary_op(&p, &i), Some(p.clone()));
    assert_eq!(match_inplace_assignment_op(TokenType::PlusEquals, &p, &i), Some(p.clone()));
    assert!(match_pointer_binary_op(&i, &p).is_none());
}

#[test]
fn in_place_assignment_types() {
    let x = t(BuiltinType::I32, true);
    assert_eq!(match_inplace_assignment_op(TokenType::MinusEquals, &x, &x).unwrap().ttype, BuiltinType::I64);
    let b = t(BuiltinType::Bool, true);
    assert_eq!(match_inplace_assignment_op(TokenType::BinaryAndEquals, &b, &b), Some(b.clone()));
    assert!(match_inplace_assignment_op(TokenType::Equals, &x, &x).is_none());
}

#[test]
fn unary_operators() {
    let x = t(BuiltinType::I16, true);
    assert_eq!(match_unary_op(TokenType::Minus, &x), Some(x.clone()));
    assert!(match_unary_op(TokenType::Minus, &t(BuiltinType::U16, true)).is_none());
    let b = t(BuiltinType::Bool, false);
    assert_eq!(match_unary_op(TokenType::LogicalNot, &b), Some(b.clone()));
    let address = match_unary_op(TokenType::BinaryAnd, &x).unwrap();
    assert_eq!(address, t(ptr(BuiltinType::I16, false), false));
    let mut_address = match_unary_op(TokenType::MutRef, &x).unwrap();
    assert_eq!(mut_address, t(ptr(BuiltinType::I16, true), true));
}

#[test]
fn dereferencing_an_address_gives_the_type_back() {
    let x = t(BuiltinType::Char, true);
    let address = match_unary_op(TokenType::BinaryAnd, &x).unwrap();
    assert_eq!(match_unary_op(TokenType::Star, &address), Some(t(BuiltinType::Char, false)));
    let mut_address = match_unary_op(TokenType::MutRef, &x).unwrap();
    assert_eq!(match_unary_op(TokenType::Star, &mut_address), Some(t(BuiltinType::Char, true)));
    assert!(match_unary_op(TokenType::Star, &x).is_none());
}

#[test]
fn commutative_operators_accept_either_order() {
    let a = t(BuiltinType::U64, true);
    let b = t(BuiltinType::U64, false);
    for op in [TokenType::Plus, TokenType::Minus, TokenType::Star, TokenType::Slash] {
        assert_eq!(
            match_binary_op(op, &a, &b).unwrap().ttype,
            match_binary_op(op, &b, &a).unwrap().ttype
        );
    }
}

#[test]
fn casts_between_scalars_and_pointers() {
    let i = t(BuiltinType::I32, false);
    let c = t(BuiltinType::Char, false);
    let b = t(BuiltinType::Bool, false);
    let f = t(BuiltinType::F32, false);
    assert!(verify_cast_operator(&i, &c));
    assert!(verify_cast_operator(&b, &f));
    let p = t(ptr(BuiltinType::I32, false), false);
    let q = t(ptr(BuiltinType::U32, false), false);
    let r = t(ptr(BuiltinType::I64, false), false);
    let v = t(ptr(BuiltinType::Void, false), false);
    assert!(verify_cast_operator(&p, &i));
    assert!(verify_cast_operator(&p, &q));
    assert!(!verify_cast_operator(&p, &r));
    assert!(verify_cast_operator(&r, &v));
    assert!(!verify_cast_operator(&i, &p));
    assert!(!verify_cast_operator(&p, &c));
}

#[test]
fn sizes_of_types() {
    assert_eq!(BuiltinType::Void.size(), 0);
    assert_eq!(BuiltinType::Bool.size(), 1);
    assert_eq!(BuiltinType::U16.size(), 2);
    assert_eq!(BuiltinType::F32.size(), 4);
    assert_eq!(BuiltinType::I64.size(), 8);
    assert_eq!(BuiltinType::Usize.size(), std::mem::size_of::<usize>());
    assert_eq!(ptr(BuiltinType::I8, false).size(), std::mem::size_of::<usize>());
    let point = point_struct(1);
    assert_eq!(point.size(), 12);
    assert_eq!(BuiltinType::Struct(Box::new(point)).size(), 12);
    assert_eq!(t(BuiltinType::Char, true).size(), 1);
}

#[test]
fn inner_type_equality() {
    let a = BuiltinType::Struct(Box::new(point_struct(7)));
    let mut other = point_struct(7);
    other.name = "Renamed".to_string();
    let b = BuiltinType::Struct(Box::new(other));
    assert!(a.inner_type_eq(&b));
    assert!(a != b);
    assert!(!a.inner_type_eq(&BuiltinType::Struct(Box::new(point_struct(8)))));
    let f = FunctionType { arguments: vec![BuiltinType::I8], return_type: BuiltinType::Void };
    let g = FunctionType { arguments: vec![BuiltinType::I8], return_type: BuiltinType::Bool };
    assert!(f.inner_type_eq(&f.clone()));
    assert!(!f.inner_type_eq(&g));
    assert!(PointerType::new(a.clone(), true).inner_type_eq(&PointerType::new(b, false)));
    assert!(t(BuiltinType::I8, true).inner_type_eq(&t(BuiltinType::I8, false)));
}

#[test]
fn clones_are_equal() {
    let a = BuiltinType::Struct(Box::new(point_struct(2)));
    assert_eq!(a.clone(), a);
    let f = BuiltinType::Function(Box::new(FunctionType {
        arguments: vec![ptr(BuiltinType::U8, true), BuiltinType::Bool],
        return_type: BuiltinType::I32,
    }));
    assert_eq!(f.clone(), f);
    assert!(f != a);
}

#[test]
fn simple_type_names() {
    let name = AstType { name: ttoken(TokenType::Identifier, "usize", "usize") };
    assert_eq!(BuiltinType::from_simple_type(&name), Some(BuiltinType::Usize));
    let name = AstType { name: ttoken(TokenType::Identifier, "Point", "Point") };
    assert_eq!(BuiltinType::from_simple_type(&name), None);
    assert!(is_basic_type("cstring"));
    assert!(is_basic_type("bool"));
    assert!(!is_basic_type("void"));
}

#[test]
fn annotations_give_their_types() {
    let pointer = TypeKind::Pointer(PointerAnnotation { inner_type: Box::new(simple("i8")), points_to_mut: true });
    assert_eq!(BuiltinType::from_type_kind(&pointer), BuiltinType::I8);
    let annotation = TypeAnnotation { kind: simple("f64"), is_mut: true };
    assert_eq!(Type::from_type_annotation(&annotation), t(BuiltinType::F64, true));
    assert_eq!(Type::void(), t(BuiltinType::Void, false));
    assert_eq!(
        Type::new_pointer(t(BuiltinType::U32, false), true, false),
        t(ptr(BuiltinType::U32, true), false)
    );
}

#[test]
fn kinds_of_types() {
    assert!(BuiltinType::U8.is_integer());
    assert!(!BuiltinType::F32.is_integer());
    assert!(BuiltinType::F64.is_float());
    assert!(BuiltinType::I8.is_numeric());
    assert!(!BuiltinType::Char.is_numeric());
    assert!(BuiltinType::Bool.is_bool());
    assert!(ptr(BuiltinType::Void, false).is_pointer());
}

#[test]
fn operator_tables() {
    assert_eq!(PLUS_OP_MAP.get(&BuiltinType::Char, &BuiltinType::Char), Some(BuiltinType::Char));
    assert_eq!(SUB_OP_MAP.get(&BuiltinType::String, &BuiltinType::String), None);
    assert_eq!(MUL_OP_MAP.get(&BuiltinType::Usize, &BuiltinType::String), Some(BuiltinType::String));
    assert_eq!(DIV_OP_MAP.get(&BuiltinType::Char, &BuiltinType::Char), None);
    assert_eq!(LOGICAL_OP_MAP.get(&BuiltinType::Bool, &BuiltinType::Bool), Some(BuiltinType::Bool));
    assert_eq!(COMPARISON_OP_MAP.get(&BuiltinType::String, &BuiltinType::String), Some(BuiltinType::Bool));
    assert_eq!(UNARY_MINUS_OP_MAP.get(&BuiltinType::U8), None);
    assert_eq!(UNARY_MINUS_OP_MAP.get(&BuiltinType::F32), Some(BuiltinType::F32));
    assert_eq!(LOGICAL_UNARY_MAP.get(&BuiltinType::Bool), Some(BuiltinType::Bool));
}

#[test]
fn types_written_out() {
    assert_eq!(BuiltinType::String.display_string(), "const char*");
    assert_eq!(ptr(BuiltinType::I32, false).display_string(), "consti32*");
    assert_eq!(ptr(BuiltinType::I32, true).display_string(), "i32*");
    assert_eq!(t(BuiltinType::U8, true).display_string(), "mut  u8");
    assert_eq!(t(BuiltinType::U8, false).display_string(), "const u8");
    let f = FunctionType { arguments: vec![BuiltinType::I8, BuiltinType::Bool], return_type: BuiltinType::Void };
    assert_eq!(f.debug_string(), "FunctionType[i8, bool]");
    assert_eq!(
        BuiltinType::Struct(Box::new(point_struct(1))).display_string(),
        "struct struct Point{x: const i32, y: mut  i64}"
    );
}

#[test]
fn node_types_read_back() {
    let mut context = TypeValidationContext::new();
    context.set_node_type(AstNodeIndex(4), t(BuiltinType::I8, true));
    context.set_node_type(AstNodeIndex(5), t(BuiltinType::I8, true));
    context.set_node_type(AstNodeIndex(6), t(BuiltinType::I8, false));
    assert_eq!(context.get_node_type(AstNodeIndex(4)), &t(BuiltinType::I8, true));
    assert!(context.check_nodes_type_equality(&AstNodeIndex(4), &AstNodeIndex(5)));
    assert!(!context.check_nodes_type_equality(&AstNodeIndex(4), &AstNodeIndex(6)));
    context.set_node_type(AstNodeIndex(4), t(BuiltinType::Bool, false));
    assert_eq!(context.get_node_type(AstNodeIndex(4)), &t(BuiltinType::Bool, false));
    assert!(TypeValidationContext::default().evaluated_types.is_empty());
}

use lib::compiler::c_transpiler::{CTranspilerContext, CTranspilerSemantics};
use lib::syntax::ast::{
    AstNodeIndex, FunctionSignature, ImplFunctionSignature, MethodSignature, PlainLiteral, StructStatement,
    Type as AstType, TypeAnnotation, TypeKind, TypedDeclaration,
};
use lib::syntax::tokens::TokenType;
use lib::typing::literal_typing::{BuiltinType, FunctionType, Type};
use lib::utils::test_utils::{tidentifier, ttoken};
use lib::utils::text::{decimal_string, signed_decimal_string};

fn text(context: &CTranspilerContext, node: usize) -> String {
    context.get_transpile_result(&AstNodeIndex(node)).unwrap().clone()
}

fn strings(values: &[&str]) -> Vec<String> {
    values.iter().map(|v| v.to_string()).collect()
}

fn declaration(name: &'static str, annotation: &'static str) -> TypedDeclaration {
    TypedDeclaration {
        name: tidentifier(name),
        declared_type: TypeAnnotation {
            kind: TypeKind::Simple(AstType { name: ttoken(TokenType::Identifier, annotation, annotation) }),
            is_mut: false,
        },
    }
}

#[test]
fn simple_statements_and_expressions() {
    let pass = CTranspilerSemantics::default();
    let mut context = CTranspilerContext::new();
    pass.visit_break_statement(AstNodeIndex(1), &mut context);
    pass.visit_continue_statement(AstNodeIndex(2), &mut context);
    pass.visit_self(AstNodeIndex(3), &mut context);
    pass.visit_identifier(AstNodeIndex(4), &tidentifier("count"), &mut context);
    pass.visit_dot_access(AstNodeIndex(5), "p", &tidentifier("x"), &mut context);
    pass.visit_arrow_access(AstNodeIndex(6), "p", &tidentifier("y"), &mut context);
    pass.visit_call(AstNodeIndex(7), "f", &strings(&["a", "b"]), &mut context);
    pass.visit_unary(AstNodeIndex(8), &ttoken(TokenType::Minus, "-", ""), "x", &mut context);
    pass.visit_binary(AstNodeIndex(9), "a", &ttoken(TokenType::Plus, "+", ""), "b", &mut context);
    pass.visit_assignment(AstNodeIndex(10), "a", "b", &mut context);
    pass.visit_inplace_assignment(AstNodeIndex(11), "a", &ttoken(TokenType::PlusEquals, "+=", ""), "1", &mut context);
    pass.visit_grouping(AstNodeIndex(12), "a + b", &mut context);
    pass.visit_expression_statement(AstNodeIndex(13), "f()", &mut context);
    pass.visit_return_statement(AstNodeIndex(14), Some("x"), &mut context);
    pass.visit_return_statement(AstNodeIndex(15), None, &mut context);
    let cast_type = TypeAnnotation {
        kind: TypeKind::Simple(AstType { name: ttoken(TokenType::U8, "u8", "") }),
        is_mut: false,
    };
    pass.visit_cast(AstNodeIndex(16), &cast_type, "x", &mut context);
    pass.visit_call(AstNodeIndex(17), "g", &strings(&[]), &mut context);
    assert_eq!(text(&context, 1), "break;");
    assert_eq!(text(&context, 2), "continue;");
    assert_eq!(text(&context, 3), "self");
    assert_eq!(text(&context, 4), "count");
    assert_eq!(text(&context, 5), "p.x");
    assert_eq!(text(&context, 6), "p->y");
    assert_eq!(text(&context, 7), "f(a, b)");
    assert_eq!(text(&context, 8), "-x");
    assert_eq!(text(&context, 9), "a + b");
    assert_eq!(text(&context, 10), "a = b");
    assert_eq!(text(&context, 11), "a += 1");
    assert_eq!(text(&context, 12), "(a + b)");
    assert_eq!(text(&context, 13), "f();");
    assert_eq!(text(&context, 14), "return x;");
    assert_eq!(text(&context, 15), "return;");
    assert_eq!(text(&context, 16), "(u8)(x)");
    assert_eq!(text(&context, 17), "g()");
}

#[test]
fn wrapped_expressions() {
    let pass = CTranspilerSemantics { indent: 0, wrap: true };
    let mut context = CTranspilerContext::new();
    pass.visit_expression(AstNodeIndex(1), "a", &mut context);
    assert_eq!(text(&context, 1), "(a)");
    let plain = CTranspilerSemantics::default();
    plain.visit_expression(AstNodeIndex(2), "a", &mut context);
    assert_eq!(text(&context, 2), "a");
}

#[test]
fn literals() {
    let pass = CTranspilerSemantics::default();
    let mut context = CTranspilerContext::new();
    pass.visit_literal(AstNodeIndex(1), &PlainLiteral::U8(7), &mut context);
    pass.visit_literal(AstNodeIndex(2), &PlainLiteral::I32(-15), &mut context);
    pass.visit_literal(AstNodeIndex(3), &PlainLiteral::I64(i64::MIN), &mut context);
    pass.visit_literal(AstNodeIndex(4), &PlainLiteral::Bool(true), &mut context);
    pass.visit_literal(AstNodeIndex(5), &PlainLiteral::Char('c'), &mut context);
    pass.visit_literal(AstNodeIndex(6), &PlainLiteral::String("hi".to_string()), &mut context);
    pass.visit_literal(AstNodeIndex(7), &PlainLiteral::U64(u64::MAX), &mut context);
    pass.visit_literal(AstNodeIndex(8), &PlainLiteral::I8(0), &mut context);
    assert_eq!(text(&context, 1), "7");
    assert_eq!(text(&context, 2), "-15");
    assert_eq!(text(&context, 3), "-9223372036854775808");
    assert_eq!(text(&context, 4), "true");
    assert_eq!(text(&context, 5), "'c'");
    assert_eq!(text(&context, 6), "\"hi\"");
    assert_eq!(text(&context, 7), "18446744073709551615");
    assert_eq!(text(&context, 8), "0");
    assert_eq!(decimal_string(1203), "1203");
    assert_eq!(signed_decimal_string(-40), "-40");
}

#[test]
fn blocks_of_statements() {
    let pass = CTranspilerSemantics::default();
    let mut context = CTranspilerContext::new();
    pass.visit_let_statement(AstNodeIndex(1), &Type::new(BuiltinType::I32, false), &tidentifier("x"), Some("5"), &mut context);
    pass.visit_let_statement(AstNodeIndex(2), &Type::new(BuiltinType::U8, true), &tidentifier("y"), None, &mut context);
    pass.visit_while_statement(AstNodeIndex(3), "x < 3", &strings(&["a;", "b;"]), &mut context);
    pass.visit_if_else_statement(AstNodeIndex(4), "c", &strings(&["x;"]), Some(&strings(&["y;"])), &mut context);
    pass.visit_if_else_statement(AstNodeIndex(5), "c", &strings(&[]), None, &mut context);
    pass.visit_impl_statement(AstNodeIndex(6), &strings(&["s1", "s2"]), &mut context);
    assert_eq!(text(&context, 1), "const i32 x = 5;");
    assert_eq!(text(&context, 2), "u8 y;");
    assert_eq!(text(&context, 3), "while (x < 3) {\n        a;\n    b;\n    }");
    assert_eq!(text(&context, 4), "if (c) {\n        x;\n    } else {\n        y;\n    }\n");
    assert_eq!(text(&context, 5), "if (c) {}");
    assert_eq!(text(&context, 6), "    s1\n    s2");
}

#[test]
fn structs() {
    let pass = CTranspilerSemantics::default();
    let mut context = CTranspilerContext::new();
    let statement = StructStatement {
        token: ttoken(TokenType::Struct, "struct", ""),
        name: tidentifier("Point"),
        fields: vec![declaration("x", "i32"), declaration("y", "u8")],
    };
    pass.visit_struct_statement(AstNodeIndex(1), &statement, &vec![BuiltinType::I32, BuiltinType::U8], &mut context);
    assert_eq!(text(&context, 1), "struct Point {\n    i32 x;\n\n    u8 y;\n}\n");
    assert_eq!(context.header_result, "typedef struct Point Point;\n");
    let fields = vec![(tidentifier("x"), "1".to_string()), (tidentifier("y"), "2".to_string())];
    pass.visit_struct_initializer(AstNodeIndex(2), &tidentifier("P"), &fields, &mut context);
    assert_eq!(text(&context, 2), "P {\n        .x = 1,\n    .y = 2\n    }");
    pass.visit_struct_initializer(AstNodeIndex(3), &tidentifier("Q"), &vec![], &mut context);
    assert_eq!(text(&context, 3), "Q {}");
}

#[test]
fn functions_and_methods() {
    let pass = CTranspilerSemantics::default();
    let mut context = CTranspilerContext::new();
    let function_type = FunctionType { arguments: vec![BuiltinType::I32, BuiltinType::I32], return_type: BuiltinType::I64 };
    pass.visit_function_statement(
        AstNodeIndex(1),
        &tidentifier("add"),
        &vec![declaration("a", "i32"), declaration("b", "i32")],
        &function_type,
        &strings(&["return a;"]),
        &mut context,
    );
    assert_eq!(text(&context, 1), "i64 add(\n    i32 a,\n    i32 b\n) {\n    return a;\n}");
    let empty = FunctionType { arguments: vec![], return_type: BuiltinType::Void };
    pass.visit_function_statement(AstNodeIndex(2), &tidentifier("f"), &vec![], &empty, &strings(&[]), &mut context);
    assert_eq!(text(&context, 2), "void f(){}\n");
    let method_type = FunctionType { arguments: vec![BuiltinType::I32], return_type: BuiltinType::Void };
    pass.visit_method_statement(AstNodeIndex(3), &tidentifier("m"), &vec![], &method_type, &strings(&[]), &mut context);
    assert_eq!(text(&context, 3), "void m(\n    i32 self\n){}\n");
}

#[test]
fn whole_functions() {
    let pass = CTranspilerSemantics::default();
    let function = ImplFunctionSignature::Function(FunctionSignature {
        name: tidentifier("f"),
        arguments: vec![declaration("x", "u8")],
        return_type: None,
    });
    assert_eq!(pass.transpile_function(&function, String::new(), &strings(&["a;", "b;"])), "void  f(u8 x)\n{\n\ta;\n\tb;\n}\n\n");
    let method = ImplFunctionSignature::Method(MethodSignature {
        name: tidentifier("m"),
        bound_type: tidentifier("P"),
        is_mut_self: false,
        arguments: vec![],
        return_type: Some(TypeAnnotation {
            kind: TypeKind::Simple(AstType { name: tidentifier("i32") }),
            is_mut: false,
        }),
    });
    assert_eq!(pass.transpile_function(&method, String::new(), &strings(&[])), "i32 m(const P*const self)\n{\n\t\n}\n\n");
}

#[test]
fn top_level_statements_join_the_file() {
    let pass = CTranspilerSemantics::default();
    let mut context = CTranspilerContext::new();
    pass.visit_next("int x;", &mut context);
    assert_eq!(context.result, "#include <stdlib.h>\n#include \"loom_runtime.h\"\nint x;\n");
}

#[test]
fn transpiled_nodes_read_back_in_order() {
    let semantics = lib::compiler::c_transpiler::CTranspilerSemantics::default();
    let mut context = lib::compiler::c_transpiler::CTranspilerContext::new();
    semantics.visit_break_statement(lib::syntax::ast::AstNodeIndex(1), &mut context);
    semantics.visit_continue_statement(lib::syntax::ast::AstNodeIndex(2), &mut context);
    let nodes = [lib::syntax::ast::AstNodeIndex(2), lib::syntax::ast::AstNodeIndex(1)];
    assert_eq!(semantics.get_all_transpiled(&nodes, &context), vec!["continue;".to_string(), "break;".to_string()]);
    assert_eq!(semantics.get_transpiled_node(lib::syntax::ast::AstNodeIndex(1), &context), "break;");
    assert!(semantics.try_get_transpiled(lib::syntax::ast::AstNodeIndex(3), &context).is_none());
}

#[test]
fn indenting_equals_padding_one_level_deeper() {
    let mut h1 = lib::compiler::c_transpiler::TranspileHelper { indent_size: 4, level: 1, result: "x".to_string() };
    let mut h2 = lib::compiler::c_transpiler::TranspileHelper { indent_size: 4, level: 2, result: "x".to_string() };
    let values = vec!["a".to_string(), "b".to_string()];
    h1.push_all_indented(&values, ";");
    h2.push_all_padded(&values, ";");
    assert_eq!(h1.result, h2.result);
    assert_eq!(h1.level, 1);
    assert_eq!(h2.level, 2);
    let before = h1.result.clone();
    h1.push_all_indented(&[], ";");
    assert_eq!(h1.result, before);
}

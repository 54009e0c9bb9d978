use lib::compiler::c_transpiler::{
    builder, builder_with, empty_builder, CTranspilerContext, CTranspilerSemantics, TranspileHelper, Transpiled,
};
use lib::syntax::ast::{AstNodeIndex, PointerAnnotation, Type as AstType, TypeAnnotation, TypeKind, TypedDeclaration};
use lib::syntax::tokens::TokenType;
use lib::typing::literal_typing::{BuiltinType, FunctionType, PointerType, StructType, Type};
use lib::utils::test_utils::{tidentifier, ttoken};

fn helper(level: usize) -> TranspileHelper {
    TranspileHelper { indent_size: 4, level, result: String::new() }
}

fn ptr(inner: BuiltinType, mutable: bool) -> BuiltinType {
    BuiltinType::Pointer(Box::new(PointerType::new(inner, mutable)))
}

#[test]
fn pads_and_indents_by_level() {
    let h = helper(2);
    assert_eq!(h.pad_value(), "        ");
    assert_eq!(h.indent_value(), "            ");
    let mut h = helper(1);
    h.push("int x;");
    h.wrap();
    h.push("x = 1;");
    h.ln();
    h.space();
    h.pad();
    assert_eq!(h.result, "int x;\n    x = 1;\n     ");
}

#[test]
fn push_variants() {
    let mut h = helper(0);
    h.push_and_wrap("{");
    h.push_and_indent("a");
    h.push_and_wrap_indent("b");
    h.wrap_indent();
    h.indent();
    assert_eq!(h.result, "{\na    b\n    \n        ");
}

#[test]
fn push_all_wrapped_puts_each_value_on_its_line() {
    let mut h = helper(1);
    h.push_all_wrapped(&["a;", "b;"]);
    assert_eq!(h.result, "a;\n    b;\n    ");
}

#[test]
fn push_all_padded_separates_values() {
    let mut h = helper(1);
    h.push_all_padded(&["x".to_string(), "y".to_string(), "z".to_string()], ",");
    assert_eq!(h.result, "    x,\n    y,\n    z");
    let mut h = helper(1);
    h.push_all_padded(&[], ",");
    assert_eq!(h.result, "");
}

#[test]
fn push_all_indented_separates_values() {
    let mut h = helper(0);
    h.push_all_indented(&["x".to_string(), "y".to_string()], ";");
    assert_eq!(h.result, "    x;\n    y");
    let mut h = helper(0);
    h.push_all_indented(&["only".to_string()], ";");
    assert_eq!(h.result, "    only");
}

#[test]
fn block_nests_one_level() {
    let mut h = helper(0);
    h.block(|inner| {
        inner.pad();
        inner.push("nested");
    });
    assert_eq!(h.level, 0);
    assert_eq!(h.result, "    nested");
}

#[test]
fn builders() {
    let context = CTranspilerContext::new();
    assert_eq!(empty_builder().indent_size, 0);
    let b = builder(&context);
    assert_eq!(b.indent_size, 4);
    assert_eq!(b.level, 0);
    let b = builder_with("start".to_string(), &context);
    assert_eq!(b.result, "start");
    assert_eq!(TranspileHelper::from_context(&context).level, 0);
}

#[test]
fn context_starts_with_the_prelude() {
    let context = CTranspilerContext::new();
    assert_eq!(context.result, "#include <stdlib.h>\n#include \"loom_runtime.h\"\n");
    assert_eq!(CTranspilerContext::generate_main_c_file(), context.result);
    assert!(context.header_result.is_empty());
    assert_eq!(CTranspilerContext::default().result, context.result);
}

#[test]
fn transpile_results_read_back() {
    let mut context = CTranspilerContext::new();
    assert_eq!(context.get_transpile_result(&AstNodeIndex(1)), None);
    context.set_transpile_result(AstNodeIndex(1), "int a;".to_string());
    context.set_transpile_result(AstNodeIndex(2), "int b;".to_string());
    assert_eq!(context.get_transpile_result(&AstNodeIndex(1)).map(|s| s.as_str()), Some("int a;"));
    context.set_transpile_result(AstNodeIndex(1), "int c;".to_string());
    assert_eq!(context.get_transpile_result(&AstNodeIndex(1)).map(|s| s.as_str()), Some("int c;"));
    assert_eq!(context.get_transpile_result(&AstNodeIndex(2)).map(|s| s.as_str()), Some("int b;"));
}

#[test]
fn types_in_c() {
    assert_eq!(BuiltinType::String.transpiled(), "char*");
    assert_eq!(BuiltinType::Null.transpiled(), "const void* const");
    assert_eq!(ptr(ptr(BuiltinType::U32, false), true).transpiled(), "u32 const **");
    assert_eq!(PointerType::new(ptr(BuiltinType::U32, true), false).transpiled(), "u32* const *");
    assert_eq!(Type::new(BuiltinType::I32, false).transpiled(), "const i32");
    assert_eq!(Type::new(BuiltinType::I32, true).transpiled(), "i32");
    assert_eq!(Type::new(ptr(BuiltinType::I8, true), false).transpiled(), "i8*");
    let s = StructType { ast_node_index: AstNodeIndex(0), name: "Point".to_string(), fields: vec![] };
    assert_eq!(BuiltinType::Struct(Box::new(s)).transpiled(), "Point");
    let f = FunctionType { arguments: vec![BuiltinType::I8], return_type: BuiltinType::Void };
    assert_eq!(f.transpiled(), "/* FunctionType[i8] */");
}

#[test]
fn annotations_in_c() {
    let semantics = CTranspilerSemantics::default();
    assert_eq!(semantics.blank(), "");
    let simple = TypeAnnotation {
        kind: TypeKind::Simple(AstType { name: ttoken(TokenType::Identifier, "u8", "u8") }),
        is_mut: false,
    };
    assert_eq!(semantics.transpile_type_annotation(&simple), "u8");
    let pointer = PointerAnnotation {
        inner_type: Box::new(TypeKind::Pointer(PointerAnnotation {
            inner_type: Box::new(TypeKind::Simple(AstType { name: ttoken(TokenType::Identifier, "lex", "lit") })),
            points_to_mut: false,
        })),
        points_to_mut: true,
    };
    assert_eq!(semantics.transpile_pointer_annotation(&pointer), "lit**");
    let declaration = TypedDeclaration { name: tidentifier("count"), declared_type: simple };
    assert_eq!(semantics.transpile_typed_declaration(&declaration), "u8 count");
    let indented = CTranspilerSemantics { indent: 3, wrap: true };
    assert_eq!(indented.blank(), "   ");
}

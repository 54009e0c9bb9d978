use lib::parser::errors::ParserError;
use lib::parser::semantics::flow_control::{BlockType, FlowControlContext, FlowControlSemantics};
use lib::syntax::ast::{AstNodeIndex, Identifier, PointerAnnotation, StructStatement, Type, TypeAnnotation, TypeKind, TypedDeclaration};
use lib::syntax::lexer::Token;
use lib::syntax::tokens::{double_keyword, is_escape_character, keyword_type, number_postfix_type, TokenType};
use lib::syntax::traits::{partial_eq, partial_eq_all, PartialTreeEq};
use lib::utils::test_utils::{primitive_op_as_str, primitive_type_as_str, tidentifier, tsemicolon, ttoken};

fn chars(s: &str) -> Vec<char> {
    s.chars().collect()
}

#[test]
fn keyword_table() {
    assert_eq!(keyword_type(&chars("fn")), Some(TokenType::Fn));
    assert_eq!(keyword_type(&chars("branch")), Some(TokenType::Go));
    assert_eq!(keyword_type(&chars("function")), None);
    assert_eq!(number_postfix_type(&chars("u16")), Some(TokenType::U16Literal));
    assert_eq!(number_postfix_type(&chars("u17")), None);
    assert_eq!(double_keyword(TokenType::Union), Some((TokenType::Struct, TokenType::UnionStruct)));
    assert_eq!(double_keyword(TokenType::Struct), None);
    assert!(is_escape_character('n'));
    assert!(!is_escape_character('q'));
}

#[test]
fn block_types_restore_after_leaving() {
    let mut context = FlowControlContext::default();
    context.set_block_type(BlockType::Function);
    context.set_block_type(BlockType::While);
    assert_eq!(context.current_block_type, BlockType::While);
    assert_eq!(context.previous_block_type, BlockType::Function);
    context.restore_block_type();
    assert_eq!(context.current_block_type, BlockType::Function);
    assert_eq!(context.previous_block_type, BlockType::TopLevel);
    assert!(BlockType::For.is_loop());
    assert!(!BlockType::Impl.is_loop());
    assert_eq!(BlockType::default(), BlockType::TopLevel);
}

#[test]
fn flow_checks() {
    let semantics = FlowControlSemantics;
    let mut context = FlowControlContext::default();
    assert!(!semantics.check_if_within_loops(&context));
    assert!(!semantics.check_if_within_function(&context));
    context.set_block_type(BlockType::Loop);
    assert!(semantics.check_if_within_loops(&context));
    context.function_scope_block_type = BlockType::Method;
    assert!(semantics.check_if_within_function(&context));
}

#[test]
fn deferred_calls_latest_first_and_returns_in_order() {
    let semantics = FlowControlSemantics;
    let mut context = FlowControlContext::default();
    context.closest_function_ast_node_id = Some(AstNodeIndex(9));
    semantics.pin_defer_call_to_closest_function(AstNodeIndex(1), &mut context);
    semantics.pin_defer_call_to_closest_function(AstNodeIndex(2), &mut context);
    assert_eq!(context.function_deferred_calls.get(&9), Some(&vec![2, 1]));
    semantics.pin_return_to_closest_function(AstNodeIndex(3), &mut context);
    semantics.pin_return_to_closest_function(AstNodeIndex(4), &mut context);
    assert_eq!(context.function_return_statements.get(&9), Some(&vec![3, 4]));
}

#[test]
fn nodes_pinned_to_impl_blocks() {
    let semantics = FlowControlSemantics;
    let mut context = FlowControlContext::default();
    semantics.try_pin_to_impl_block(AstNodeIndex(5), &mut context);
    assert!(context.node_to_impl_block.is_empty());
    context.closest_impl_block_id = Some(AstNodeIndex(20));
    semantics.try_pin_to_impl_block(AstNodeIndex(5), &mut context);
    semantics.pin_to_impl_block(AstNodeIndex(6), &mut context);
    semantics.pin_self_to_impl_block(AstNodeIndex(7), &mut context);
    assert_eq!(context.node_to_impl_block.get(&5), Some(&20));
    assert_eq!(context.node_to_impl_block.get(&6), Some(&20));
    assert_eq!(context.node_to_impl_block.get(&7), Some(&20));
    assert_eq!(context.self_to_impl_block.get(&7), Some(&20));
}

#[test]
fn tree_equality_ignores_positions() {
    let a = Token::new(TokenType::Identifier, "x".to_string(), "x".to_string(), 1, 1);
    let b = Token::new(TokenType::Identifier, "x".to_string(), "x".to_string(), 7, 3);
    let c = Token::new(TokenType::Identifier, "y".to_string(), "y".to_string(), 1, 1);
    assert!(a.partial_eq(&b));
    assert!(!a.partial_eq(&c));
    assert!(partial_eq(&Identifier { name: a.clone() }, &Identifier { name: b.clone() }));
    let decl = |name: &'static str, is_mut: bool| TypedDeclaration {
        name: tidentifier(name),
        declared_type: TypeAnnotation {
            kind: TypeKind::Pointer(PointerAnnotation {
                inner_type: Box::new(TypeKind::Simple(Type { name: tidentifier("i32") })),
                points_to_mut: true,
            }),
            is_mut,
        },
    };
    assert!(decl("a", false).partial_eq(&decl("a", false)));
    assert!(!decl("a", false).partial_eq(&decl("a", true)));
    assert!(partial_eq_all(&vec![decl("a", false), decl("b", true)], &vec![decl("a", false), decl("b", true)]));
    assert!(!partial_eq_all(&vec![decl("a", false)], &vec![decl("a", false), decl("b", true)]));
    let s = |fields: Vec<TypedDeclaration>| StructStatement {
        token: ttoken(TokenType::Struct, "struct", ""),
        name: tidentifier("S"),
        fields,
    };
    assert!(s(vec![decl("a", false)]).partial_eq(&s(vec![decl("a", false)])));
    assert!(!s(vec![decl("a", false)]).partial_eq(&s(vec![decl("b", false)])));
}

#[test]
fn test_tokens() {
    let t = ttoken(TokenType::I32Literal, "5i32", "5");
    assert_eq!(t.lexeme, "5i32");
    assert_eq!(t.literal, "5");
    assert_eq!(t.start_line, 0);
    let i = tidentifier("name");
    assert_eq!(i.token_type, TokenType::Identifier);
    assert_eq!(i.literal, "name");
    let s = tsemicolon();
    assert_eq!(s.lexeme, ";");
    assert_eq!(s.literal, "");
    assert_eq!(primitive_type_as_str(TokenType::V3), "v3");
    assert_eq!(primitive_type_as_str(TokenType::F64), "f64");
    assert_eq!(primitive_op_as_str(TokenType::Percent), "%");
}

#[test]
fn parser_error_constructors() {
    let token = tidentifier("x");
    match ParserError::unexpected_token(token, TokenType::Semicolon, "expected ;") {
        ParserError::UnexpectedToken(e) => {
            assert_eq!(e.expected, TokenType::Semicolon);
            assert_eq!(e.message, "expected ;");
            assert_eq!(e.found.lexeme, "x");
        },
        _ => panic!("wrong variant"),
    }
    match ParserError::error("bad".to_string(), 3, 4, 5) {
        ParserError::ParseError(e) => {
            assert_eq!((e.line, e.column, e.position), (3, 4, 5));
            assert_eq!(e.message, "bad");
        },
        _ => panic!("wrong variant"),
    }
    match ParserError::unexpected_eof(TokenType::RightBrace, "eof") {
        ParserError::UnexpectedEof(e) => assert_eq!(e.expected, TokenType::RightBrace),
        _ => panic!("wrong variant"),
    }
}

use lib::parser::semantics::flow_control::{FlowControlError, TopLevelKind};

#[test]
fn flow_pass_over_a_function_with_a_loop() {
    let pass = FlowControlSemantics;
    let mut context = FlowControlContext::default();
    assert_eq!(pass.visit_break_statement(&context), Err(FlowControlError::BreakOutsideLoop));
    assert_eq!(pass.visit_return_statement(AstNodeIndex(1), &mut context), Err(FlowControlError::ReturnOutsideFunction));
    let previous = pass.enter_fn_statement(AstNodeIndex(10), &mut context);
    let body = pass.enter_function_body(BlockType::Function, &mut context);
    assert_eq!(pass.visit_continue_statement(&context), Err(FlowControlError::ContinueOutsideLoop));
    let saved = pass.enter_while_statement(&mut context);
    assert_eq!(pass.visit_break_statement(&context), Ok(()));
    assert_eq!(pass.visit_continue_statement(&context), Ok(()));
    context.leave_scope_block_type(saved);
    assert_eq!(pass.visit_return_statement(AstNodeIndex(11), &mut context), Ok(()));
    assert_eq!(pass.visit_defer_statement(AstNodeIndex(12), &mut context), Ok(()));
    assert_eq!(pass.visit_self(AstNodeIndex(13), &mut context), Err(FlowControlError::SelfOutsideMethod));
    pass.leave_function_body(body, &mut context);
    pass.leave_fn_statement(AstNodeIndex(10), previous, &mut context);
    assert_eq!(context.function_return_statements.get(&10), Some(&vec![11]));
    assert_eq!(context.function_deferred_calls.get(&10), Some(&vec![12]));
    assert_eq!(context.current_block_type, BlockType::TopLevel);
    assert_eq!(context.function_scope_block_type, BlockType::TopLevel);
    assert_eq!(context.closest_function_ast_node_id, None);
}

#[test]
fn flow_pass_over_an_impl_block() {
    let pass = FlowControlSemantics;
    let mut context = FlowControlContext::default();
    assert_eq!(
        pass.enter_impl_statement(AstNodeIndex(1), &vec![TopLevelKind::Const, TopLevelKind::Other], &mut context),
        Err(FlowControlError::UnexpectedImplStatement)
    );
    let saved = pass.enter_impl_statement(AstNodeIndex(1), &vec![TopLevelKind::Static, TopLevelKind::Const], &mut context).unwrap();
    assert_eq!(context.current_block_type, BlockType::Impl);
    pass.visit_static_or_const_statement(AstNodeIndex(2), &mut context);
    let previous = pass.enter_fn_statement(AstNodeIndex(3), &mut context);
    let body = pass.enter_function_body(BlockType::Method, &mut context);
    assert_eq!(pass.visit_self(AstNodeIndex(4), &mut context), Ok(()));
    pass.leave_function_body(body, &mut context);
    pass.leave_fn_statement(AstNodeIndex(3), previous, &mut context);
    pass.leave_impl_statement(saved, &mut context);
    assert_eq!(context.closest_impl_block_id, None);
    assert_eq!(context.current_block_type, BlockType::TopLevel);
    assert_eq!(context.node_to_impl_block.get(&2), Some(&1));
    assert_eq!(context.node_to_impl_block.get(&3), Some(&1));
    assert_eq!(context.self_to_impl_block.get(&4), Some(&1));
}

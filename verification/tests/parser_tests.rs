use lib::parser::errors::ParserError;
use lib::parser::parser::Parser;
use lib::syntax::traits::PartialTreeEq;
use lib::syntax::ast::{TypeAnnotation, TypeKind};
use lib::syntax::lexer::{Lexer, Token};
use lib::syntax::tokens::TokenType;

fn lex(source: &str) -> Vec<Token> {
    let mut lexer = Lexer::new(source.to_string());
    lexer.try_lex().expect("the source lexes")
}

fn parser(source: &str) -> Parser {
    Parser::new(lex(source))
}

fn simple_name(kind: &TypeKind) -> String {
    match kind {
        TypeKind::Simple(t) => t.name.lexeme.clone(),
        TypeKind::Pointer(_) => panic!("a pointer"),
    }
}

/// The pointer levels of an annotation, outermost first, and the name at
/// the bottom.
fn pointer_levels(annotation: &TypeAnnotation) -> (Vec<bool>, String) {
    let mut levels = vec![];
    let mut kind = &annotation.kind;
    loop {
        match kind {
            TypeKind::Pointer(p) => {
                levels.push(p.points_to_mut);
                kind = &p.inner_type;
            },
            TypeKind::Simple(t) => return (levels, t.name.lexeme.clone()),
        }
    }
}

#[test]
fn cursor_takes_tokens_in_order() {
    let mut p = parser("a b");
    assert!(!p.is_at_end());
    assert_eq!(p.peek().unwrap().lexeme, "a");
    assert_eq!(p.peek_ahead(1).unwrap().lexeme, "b");
    assert_eq!(p.advance().unwrap().lexeme, "a");
    assert_eq!(p.advance().unwrap().lexeme, "b");
    assert!(p.is_at_end());
    assert!(p.advance().is_none());
    assert_eq!(p.peek().unwrap().token_type, TokenType::EOF);
    assert!(p.peek_ahead(1).is_none());
}

#[test]
fn comments_are_passed_over() {
    let mut p = parser("// note\nx");
    assert_eq!(p.peek().unwrap().token_type, TokenType::SingleLineComment);
    assert_eq!(p.advance_skipping_comments().unwrap().lexeme, "x");
    assert_eq!(p.peek().unwrap().lexeme, "x");
    assert_eq!(p.advance_skipping_comments().unwrap().lexeme, "x");
}

#[test]
fn require_checks_the_token_type() {
    let mut p = parser("x : y");
    assert_eq!(p.require(TokenType::Identifier, "a name").unwrap().lexeme, "x");
    match p.require(TokenType::Identifier, "a name") {
        Err(ParserError::UnexpectedToken(e)) => {
            assert_eq!(e.found.token_type, TokenType::Colon);
            assert_eq!(e.expected, TokenType::Identifier);
            assert_eq!(e.message, "a name");
        },
        _ => panic!("expected an unexpected token error"),
    }
    assert_eq!(p.require(TokenType::Identifier, "").unwrap().lexeme, "y");
    assert!(matches!(p.require(TokenType::Identifier, ""), Err(ParserError::UnexpectedEof(_))));
}

#[test]
fn type_identifiers() {
    let mut p = parser("i32 Point ;");
    assert_eq!(p.require_type_identifier().unwrap().token_type, TokenType::I32);
    assert_eq!(p.require_type_identifier().unwrap().lexeme, "Point");
    match p.require_type_identifier() {
        Err(ParserError::UnexpectedToken(e)) => assert_eq!(e.found.token_type, TokenType::Semicolon),
        _ => panic!("expected an error"),
    }
}

#[test]
fn matching_the_current_token() {
    let mut p = parser("mut x");
    assert!(p.match_current(TokenType::Mut, "").unwrap().is_some());
    assert!(p.match_current(TokenType::Const, "").unwrap().is_none());
    assert!(p.match_tokens(&[TokenType::Const, TokenType::Mut], "").unwrap().is_some());
    assert!(p.match_tokens(&[TokenType::Const], "").unwrap().is_none());
    let mut empty = Parser::new(vec![]);
    assert!(matches!(empty.match_current(TokenType::Mut, "m"), Err(ParserError::UnexpectedEof(_))));
}

#[test]
fn annotations_with_pointers() {
    let mut p = parser("mut *mut *const *i64");
    let annotation = p.type_annotation(false).ok().unwrap();
    assert!(annotation.is_mut);
    assert_eq!(pointer_levels(&annotation), (vec![true, false, false], "i64".to_string()));
    assert!(p.is_at_end());
}

#[test]
fn annotation_without_mut_allowed() {
    let mut p = parser("mut i32");
    let annotation = p.type_annotation(true);
    match annotation {
        Err(ParserError::UnexpectedToken(e)) => assert_eq!(e.found.token_type, TokenType::Mut),
        _ => panic!("mut is not a type name"),
    }
    let mut p = parser("Point");
    let annotation = p.type_annotation(true).ok().unwrap();
    assert!(!annotation.is_mut);
    assert_eq!(simple_name(&annotation.kind), "Point");
}

#[test]
fn struct_with_fields() {
    let mut p = parser("struct Point { x: i32, y: *mut Point }");
    let s = p.struct_statement().ok().unwrap();
    assert_eq!(s.token.token_type, TokenType::Struct);
    assert_eq!(s.name.lexeme, "Point");
    assert_eq!(s.fields.len(), 2);
    assert_eq!(s.fields[0].name.lexeme, "x");
    assert_eq!(simple_name(&s.fields[0].declared_type.kind), "i32");
    assert_eq!(pointer_levels(&s.fields[1].declared_type), (vec![true], "Point".to_string()));
    assert!(p.is_at_end());
}

#[test]
fn struct_without_fields_and_with_trailing_comma() {
    let mut p = parser("struct Empty {}");
    assert_eq!(p.struct_statement().ok().unwrap().fields.len(), 0);
    let mut p = parser("struct A { a: u8, }");
    assert_eq!(p.struct_statement().ok().unwrap().fields.len(), 1);
}

#[test]
fn struct_errors() {
    let mut p = parser("struct A { a }");
    assert!(matches!(p.struct_statement(), Err(ParserError::TypeAnnotationRequired(_))));
    let mut p = parser("struct A { a: u8 = 5 }");
    match p.struct_statement() {
        Err(ParserError::UnexpectedToken(e)) => assert_eq!(e.message, "struct fields can't have initializers"),
        _ => panic!("fields have no initializers"),
    }
    let mut p = parser("struct A { a: u8 b: u8 }");
    match p.struct_statement() {
        Err(ParserError::UnexpectedToken(e)) => {
            assert_eq!(e.expected, TokenType::RightBrace);
            assert_eq!(e.found.lexeme, "b");
        },
        _ => panic!("a missing comma ends the fields"),
    }
    let mut p = parser("struct A {");
    assert!(matches!(p.struct_statement(), Err(ParserError::UnexpectedEof(_))));
    let mut p = parser("fn A {");
    assert!(matches!(p.struct_statement(), Err(ParserError::UnexpectedToken(_))));
}

#[test]
fn function_start_and_arguments() {
    let mut p = parser("fn f(mut a: *i32, b: bool)");
    let (token, name) = p.function_start().ok().unwrap();
    assert_eq!(token.token_type, TokenType::Fn);
    assert_eq!(name.lexeme, "f");
    let first = p.peek().unwrap().clone();
    let a = p.function_argument(first).ok().unwrap();
    assert_eq!(a.name.lexeme, "a");
    assert!(a.declared_type.is_mut);
    assert_eq!(pointer_levels(&a.declared_type), (vec![false], "i32".to_string()));
    p.require(TokenType::Comma, "").ok().unwrap();
    let second = p.peek().unwrap().clone();
    let b = p.function_argument(second).ok().unwrap();
    assert!(!b.declared_type.is_mut);
    assert_eq!(simple_name(&b.declared_type.kind), "bool");
}

#[test]
fn break_and_continue() {
    let mut p = parser("break; break outer; continue; continue 5");
    let b = p.break_statement().ok().unwrap();
    assert!(b.loop_key.is_none());
    let b = p.break_statement().ok().unwrap();
    assert_eq!(b.loop_key.unwrap().lexeme, "outer");
    assert!(p.continue_statement().ok().unwrap().loop_key.is_none());
    match p.continue_statement() {
        Err(ParserError::UnexpectedToken(e)) => assert_eq!(e.message, "expected ';' after 'continue' keyword"),
        _ => panic!("a number is no loop name"),
    }
}

#[test]
fn recovery_stops_at_semicolons() {
    let mut p = parser("a b ; c");
    p.advance_until_next_statement();
    assert_eq!(p.peek().unwrap().token_type, TokenType::Semicolon);
    p.advance();
    p.advance_until_next_statement();
    assert!(p.is_at_end());
}

#[test]
fn function_headers() {
    let mut p = parser("fn add(a: i32, b: i32) -> i64 {");
    let (token, signature) = p.function_signature().ok().unwrap();
    assert_eq!(token.token_type, TokenType::Fn);
    assert_eq!(signature.name.lexeme, "add");
    assert_eq!(signature.arguments.len(), 2);
    assert_eq!(signature.arguments[1].name.lexeme, "b");
    assert_eq!(simple_name(&signature.return_type.unwrap().kind), "i64");
    assert_eq!(p.peek().unwrap().token_type, TokenType::LeftBrace);

    let mut p = parser("fn nothing() {");
    let (_, signature) = p.function_signature().ok().unwrap();
    assert!(signature.arguments.is_empty());
    assert!(signature.return_type.is_none());
}

#[test]
fn function_headers_refuse_self() {
    let mut p = parser("fn f(*self) {");
    assert!(p.function_signature().is_err());
}

#[test]
fn impl_headers_tell_methods_from_functions() {
    let bound = lib::utils::test_utils::tidentifier("Point");
    let mut p = parser("fn shift(*mut self, by: i32) {");
    match p.impl_function_signature(bound.clone()).ok().unwrap().1 {
        lib::syntax::ast::ImplFunctionSignature::Method(m) => {
            assert!(m.is_mut_self);
            assert_eq!(m.bound_type.lexeme, "Point");
            assert_eq!(m.arguments.len(), 1);
            assert_eq!(m.name.lexeme, "shift");
        },
        _ => panic!("a method"),
    }
    let mut p = parser("fn origin() -> Point {");
    match p.impl_function_signature(bound.clone()).ok().unwrap().1 {
        lib::syntax::ast::ImplFunctionSignature::Function(f) => {
            assert_eq!(f.name.lexeme, "origin");
            assert!(f.return_type.is_some());
        },
        _ => panic!("a function"),
    }
    let mut p = parser("fn get(*self) -> i32 {");
    match p.impl_function_signature(bound.clone()).ok().unwrap().1 {
        lib::syntax::ast::ImplFunctionSignature::Method(m) => assert!(!m.is_mut_self),
        _ => panic!("a method"),
    }
    let mut p = parser("fn bad(x: i32, *self) {");
    assert!(p.impl_function_signature(bound).is_err());
}

#[test]
fn missing_parenthesis_in_header() {
    let mut p = parser("fn f a: i32)");
    match p.function_signature() {
        Err(ParserError::UnexpectedToken(e)) => assert_eq!(e.expected, TokenType::LeftParenthesis),
        _ => panic!("expected '('"),
    }
}

#[test]
fn tokens_and_errors_as_messages_write_them() {
    let token = Token::new(TokenType::Identifier, "x".to_string(), "x".to_string(), 3, 4);
    assert_eq!(token.display_string(), "Identifier:x:x at 3:4");
    assert_eq!(TokenType::LeftBrace.debug_name(), "LeftBrace");
    assert_eq!(ParserError::EmptyStream.display_string(), "Empty stream");
    assert_eq!(
        ParserError::unexpected_eof(TokenType::Semicolon, "after x").display_string(),
        "unexpected end of stream: expected Semicolon [after x]"
    );
    assert_eq!(
        ParserError::unexpected_token(token.clone(), TokenType::Colon, "m").display_string(),
        "unexpected token: expected Colon [m] but got Identifier:x:x at 3:4"
    );
    assert_eq!(
        ParserError::error("bad".to_string(), 1, 2, 9).display_string(),
        "Uncategorized error: bad at p9:l1:c2"
    );
    let compound = ParserError::CompoundError(vec![ParserError::EmptyStream, ParserError::UnexpectedStatement(token)]);
    assert_eq!(
        compound.display_string(),
        "1:\n\tEmpty stream\n2:\n\tUnexpected statement Identifier:x:x at 3:4\n"
    );
}

#[test]
fn literals_read_from_tokens() {
    use_literals();
}

fn use_literals() {
    let mut p = parser("7u8 /* c */ 65535u16 300u8");
    match p.literal().ok().unwrap() {
        lib::syntax::ast::Literal::U8 { token, value } => {
            assert_eq!(value, 7);
            assert_eq!(token.token_type, TokenType::U8Literal);
        },
        _ => panic!("a u8"),
    }
    match p.literal().ok().unwrap() {
        lib::syntax::ast::Literal::U16 { value, .. } => assert_eq!(value, 65535),
        _ => panic!("a u16"),
    }
    match p.literal() {
        Err(ParserError::LiteralParseError(e)) => {
            assert_eq!(e.to, "T");
            assert_eq!(e.token.literal, "300");
        },
        _ => panic!("300 does not fit a u8"),
    }
}

#[test]
fn signed_literals_are_read_as_unsigned() {
    let mut p = parser("5i32");
    match p.literal().ok().unwrap() {
        lib::syntax::ast::Literal::U32 { value, .. } => assert_eq!(value, 5),
        _ => panic!("read as a u32"),
    }
    let negative = Token::new(TokenType::I8Literal, "-5".to_string(), "-5".to_string(), 0, 0);
    let mut p = Parser::new(vec![negative]);
    assert!(matches!(p.literal(), Err(ParserError::LiteralParseError(_))));
}

#[test]
fn float_and_string_literals_keep_their_text() {
    let mut p = parser("1.5f32 \"hi\" x");
    match p.literal().ok().unwrap() {
        lib::syntax::ast::Literal::F32 { token } => assert_eq!(token.literal, "1.5"),
        _ => panic!("an f32"),
    }
    match p.literal().ok().unwrap() {
        lib::syntax::ast::Literal::String { value, .. } => assert_eq!(value, "hi"),
        _ => panic!("a string"),
    }
    assert!(matches!(p.literal(), Err(ParserError::UnexpectedPrimaryExpression(_))));
}

#[test]
fn unsigned_numbers_read_as_std_does() {
    use_parse_unsigned();
}

fn use_parse_unsigned() {
    use_parse("0", 255, Some(0));
    use_parse("+12", 255, Some(12));
    use_parse("255", 255, Some(255));
    use_parse("256", 255, None);
    use_parse("", 255, None);
    use_parse("+", 255, None);
    use_parse("-1", 255, None);
    use_parse("1a", 255, None);
    use_parse("18446744073709551615", u64::MAX, Some(u64::MAX));
    use_parse("18446744073709551616", u64::MAX, None);
    for text in ["0", "42", "+7", "255", "256", "x", " 1"] {
        assert_eq!(lib::utils::text::parse_unsigned(text, 255), text.parse::<u8>().ok().map(|v| v as u64));
    }
}

fn use_parse(text: &str, max: u64, expected: Option<u64>) {
    assert_eq!(lib::utils::text::parse_unsigned(text, max), expected);
}

#[test]
fn literals_compare_apart_from_positions() {
    let a = lib::syntax::ast::Literal::U8 { token: Token::new(TokenType::U8Literal, "7u8".to_string(), "7".to_string(), 1, 1), value: 7 };
    let b = lib::syntax::ast::Literal::U8 { token: Token::new(TokenType::U8Literal, "7u8".to_string(), "7".to_string(), 9, 4), value: 7 };
    let c = lib::syntax::ast::Literal::U8 { token: Token::new(TokenType::U8Literal, "8u8".to_string(), "8".to_string(), 1, 1), value: 8 };
    let d = lib::syntax::ast::Literal::U16 { token: Token::new(TokenType::U8Literal, "7u8".to_string(), "7".to_string(), 1, 1), value: 7 };
    assert!(a.partial_eq(&b));
    assert!(!a.partial_eq(&c));
    assert!(!a.partial_eq(&d));
}

#[test]
fn tree_constructors_build_the_nodes() {
    type Expression = lib::syntax::ast::Expression;
    type Statement = lib::syntax::ast::Statement;
    let x = Token::new(TokenType::Identifier, "x".to_string(), "x".to_string(), 0, 0);
    let one = Token::new(TokenType::U8Literal, "1u8".to_string(), "1".to_string(), 0, 0);
    let plus = Token::new(TokenType::Plus, "+".to_string(), String::new(), 0, 0);
    let sum = Expression::new_binary(
        Expression::new_identifier(x.clone()),
        plus,
        Expression::new_literal(lib::syntax::ast::Literal::U8 { token: one, value: 1 }),
    );
    match &sum {
        Expression::Binary(b) => {
            assert_eq!(b.operator.token_type, TokenType::Plus);
            assert!(matches!(*b.left, Expression::Identifier(_)));
            assert!(matches!(*b.right, Expression::Literal(lib::syntax::ast::Literal::U8 { value: 1, .. })));
        },
        _ => panic!("a binary expression"),
    }
    let statement = Statement::new_expression(sum);
    assert!(matches!(statement, Statement::ExpressionStatement(_)));
    let brk = Statement::new_break(x.clone(), None);
    assert!(matches!(brk, Statement::BreakStatement(_)));
    let block = Expression::new_block(x, vec![brk], None);
    match block {
        Expression::Block(b) => assert_eq!(b.statements.len(), 1),
        _ => panic!("a block"),
    }
}

#[test]
fn names_self_and_empty_statements() {
    let mut p = parser("x self ; y");
    assert!(matches!(p.identifier(), Ok(lib::syntax::ast::Expression::Identifier(_))));
    assert!(matches!(p.self_expression(), Ok(lib::syntax::ast::Expression::SelfExpression(_))));
    assert!(matches!(p.empty_statement(), Ok(lib::syntax::ast::Statement::EmptyStatement { .. })));
    assert!(matches!(p.self_expression(), Err(ParserError::UnexpectedToken(_))));
}

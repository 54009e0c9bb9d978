use lib::syntax::lexer::{Lexer, Token};
use lib::syntax::lexer_model::LexError;
use lib::syntax::tokens::TokenType;

fn lex(source: &str) -> Vec<Token> {
    let mut lexer = Lexer::new(source.to_string());
    lexer.try_lex().expect("the source lexes")
}

fn types(tokens: &[Token]) -> Vec<TokenType> {
    tokens.iter().map(|t| t.token_type).collect()
}

fn lex_error(source: &str) -> LexError {
    let mut lexer = Lexer::new(source.to_string());
    lexer.try_lex().expect_err("the source does not lex")
}

#[test]
fn lexes_a_let_statement() {
    let tokens = lex("let x = 5;");
    assert_eq!(
        types(&tokens),
        vec![
            TokenType::Let,
            TokenType::Identifier,
            TokenType::Equals,
            TokenType::U32,
            TokenType::Semicolon,
            TokenType::EOF,
        ]
    );
    assert_eq!(tokens[1].lexeme, "x");
    assert_eq!(tokens[1].literal, "x");
    assert_eq!(tokens[0].literal, "");
    assert_eq!(tokens[3].literal, "5");
}

#[test]
fn empty_source_gives_only_eof() {
    let tokens = lex("");
    assert_eq!(types(&tokens), vec![TokenType::EOF]);
    let tokens = lex("   \n\t  ");
    assert_eq!(types(&tokens), vec![TokenType::EOF]);
}

#[test]
fn lexes_number_postfixes() {
    let tokens = lex("7i64 8u8 9f32 10");
    assert_eq!(
        types(&tokens),
        vec![
            TokenType::I64Literal,
            TokenType::U8Literal,
            TokenType::F32Literal,
            TokenType::U32,
            TokenType::EOF,
        ]
    );
    assert_eq!(tokens[0].literal, "7");
    assert_eq!(tokens[0].lexeme, "7i64");
    assert_eq!(tokens[1].literal, "8");
    assert_eq!(tokens[2].literal, "9");
}

#[test]
fn lexes_floating_point_numbers() {
    let tokens = lex("1.5 2.25f64");
    assert_eq!(types(&tokens), vec![TokenType::F32, TokenType::F64Literal, TokenType::EOF]);
    assert_eq!(tokens[0].literal, "1.5");
    assert_eq!(tokens[1].literal, "2.25");
}

#[test]
fn lexes_double_tokens() {
    let tokens = lex("== != <= >= -> += -= && || .. .= << >> ++ --");
    assert_eq!(
        types(&tokens),
        vec![
            TokenType::EqualsEquals,
            TokenType::LogicalNot,
            TokenType::Equals,
            TokenType::LessEqual,
            TokenType::GreaterEqual,
            TokenType::Arrow,
            TokenType::PlusEquals,
            TokenType::MinusEquals,
            TokenType::LogicalAnd,
            TokenType::LogicalOr,
            TokenType::RangeExclusive,
            TokenType::RangeInclusive,
            TokenType::BinaryShiftLeft,
            TokenType::BinaryShiftRight,
            TokenType::Increment,
            TokenType::Decrement,
            TokenType::EOF,
        ]
    );
}

#[test]
fn lexes_single_tokens() {
    let tokens = lex(",:;{}[]()!-+* /|&. =~<>");
    assert_eq!(
        types(&tokens),
        vec![
            TokenType::Comma,
            TokenType::Colon,
            TokenType::Semicolon,
            TokenType::LeftBrace,
            TokenType::RightBrace,
            TokenType::LeftBracket,
            TokenType::RightBracket,
            TokenType::LeftParenthesis,
            TokenType::RightParenthesis,
            TokenType::LogicalNot,
            TokenType::Minus,
            TokenType::Plus,
            TokenType::Star,
            TokenType::Slash,
            TokenType::BinaryOr,
            TokenType::Ampersand,
            TokenType::Dot,
            TokenType::Equals,
            TokenType::BinaryInvert,
            TokenType::Less,
            TokenType::Greater,
            TokenType::EOF,
        ]
    );
}

#[test]
fn lexes_keywords() {
    let tokens = lex("fn struct impl self mut while return branch go");
    assert_eq!(
        types(&tokens),
        vec![
            TokenType::Fn,
            TokenType::Struct,
            TokenType::Impl,
            TokenType::SelfToken,
            TokenType::Mut,
            TokenType::While,
            TokenType::Return,
            TokenType::Go,
            TokenType::Go,
            TokenType::EOF,
        ]
    );
}

#[test]
fn joins_enum_struct_and_union_struct() {
    let tokens = lex("enum struct A union struct B enum C");
    assert_eq!(
        types(&tokens),
        vec![
            TokenType::EnumStruct,
            TokenType::Identifier,
            TokenType::UnionStruct,
            TokenType::Identifier,
            TokenType::Enum,
            TokenType::Identifier,
            TokenType::EOF,
        ]
    );
}

#[test]
fn lexes_comments() {
    let tokens = lex("a // rest\nb /* block */ c");
    assert_eq!(
        types(&tokens),
        vec![
            TokenType::Identifier,
            TokenType::SingleLineComment,
            TokenType::Identifier,
            TokenType::MultilineCommentStart,
            TokenType::Identifier,
            TokenType::EOF,
        ]
    );
}

#[test]
fn lexes_strings_and_characters() {
    let tokens = lex("\"hello\" 'c' `multi\nline`");
    assert_eq!(
        types(&tokens),
        vec![
            TokenType::StringLiteral,
            TokenType::CharLiteral,
            TokenType::StringLiteral,
            TokenType::EOF,
        ]
    );
    assert_eq!(tokens[0].literal, "hello");
    assert_eq!(tokens[1].literal, "c");
    assert_eq!(tokens[2].literal, "multi\nline");
}

#[test]
fn tracks_token_positions() {
    let tokens = lex("a\n  b");
    assert_eq!(tokens[0].start_line, 1);
    assert_eq!(tokens[1].start_line, 2);
    assert_eq!(tokens[0].at(), format!("{}:{}", tokens[0].start_line, tokens[0].start_column));
    assert_eq!(
        tokens[1].at_from(),
        format!(
            "{}:{} to {}:{}",
            tokens[1].start_line, tokens[1].start_column, tokens[1].end_line, tokens[1].end_column
        )
    );
}

#[test]
fn writes_large_positions_in_decimal() {
    let token = Token::new(TokenType::Identifier, "x".to_string(), "x".to_string(), 1234, 56);
    assert_eq!(token.at(), "1234:56");
    assert_eq!(token.at_from(), "1234:56 to 1234:56");
}

#[test]
fn unknown_character_is_an_error() {
    assert_eq!(lex_error("a % b"), LexError::UnknownCharacter('%'));
}

#[test]
fn stray_comment_end_is_an_error() {
    assert_eq!(lex_error("a */"), LexError::UnexpectedMultilineCommentEnd);
}

#[test]
fn unterminated_comment_is_an_error() {
    assert_eq!(lex_error("/* never closed"), LexError::UnterminatedMultilineComment);
}

#[test]
fn unknown_postfix_is_an_error() {
    assert_eq!(lex_error("3i7"), LexError::UnexpectedNumberPostfix);
}

#[test]
fn integer_postfix_on_float_is_an_error() {
    assert_eq!(lex_error("3.5i32"), LexError::ExpectedFloatPostfix);
}

#[test]
fn empty_character_literal_is_an_error() {
    assert_eq!(lex_error("''"), LexError::EmptyCharacterLiteral);
}

#[test]
fn unterminated_string_is_an_error() {
    assert_eq!(lex_error("\"open"), LexError::UnterminatedStringLiteral);
    assert_eq!(lex_error("\"line\nbreak\""), LexError::UnterminatedStringLiteral);
}

#[test]
fn parses_a_signed_number() {
    let mut lexer = Lexer::new("-3i8".to_string());
    let token = lexer.parse_number();
    assert_eq!(token.token_type, TokenType::I8Literal);
    assert_eq!(token.literal, "-3");
}

#[test]
fn lex_and_try_lex_agree() {
    let source = "fn main() { let y: i32 = 40 + 2; }";
    let mut a = Lexer::new(source.to_string());
    let mut b = Lexer::new(source.to_string());
    let left = a.lex();
    let right = b.try_lex().unwrap();
    assert_eq!(types(&left), types(&right));
    assert_eq!(left.len(), 16);
}

#[test]
fn lexing_a_name_and_semicolon_ends_at_the_end() {
    let mut lexer = Lexer::new("x;".to_string());
    let tokens = lexer.lex();
    assert_eq!(tokens.len(), 3);
    assert_eq!(tokens[0].token_type, TokenType::Identifier);
    assert_eq!(tokens[0].lexeme, "x");
    assert_eq!(tokens[0].literal, "x");
    assert_eq!(tokens[1].token_type, TokenType::Semicolon);
    assert_eq!(tokens[1].lexeme, ";");
    assert_eq!(tokens[2].token_type, TokenType::EOF);
    assert!(lexer.is_at_end());
}

#[test]
fn whitespace_only_gives_one_eof() {
    let mut lexer = Lexer::new(" \t\n ".to_string());
    let tokens = lexer.try_lex().expect("whitespace lexes");
    assert_eq!(tokens.len(), 1);
    assert_eq!(tokens[0].token_type, TokenType::EOF);
    assert!(lexer.is_at_end());
}

#[test]
fn streams_beyond_ascii_are_refused() {
    assert_eq!(lex_error("\"\u{e9}\""), LexError::NonAsciiStream);
    assert_eq!(lex_error("x // \u{e9}\n"), LexError::NonAsciiStream);
    assert_eq!(lex_error(" \u{3000} "), LexError::NonAsciiStream);
}

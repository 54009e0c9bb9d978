use vstd::prelude::*;

use crate::syntax::lexer::{Token, TokenV};
use crate::syntax::tokens::TokenType;

verus! {

/// A token at the start of the source, with the given kind and text.
pub open spec fn token_at_start(token_type: TokenType, lexeme: Seq<char>, literal: Seq<char>) -> TokenV {
    TokenV {
        start_line: 0,
        start_column: 0,
        end_line: 0,
        end_column: 0,
        token_type,
        lexeme,
        literal,
    }
}

/// A token of the given kind, lexeme and literal, placed at the start.
pub fn ttoken(token_type: TokenType, lexeme: &'static str, literal: &'static str) -> (r: Token)
    ensures
        r@ == token_at_start(token_type, lexeme@, literal@),
{
    Token::new(token_type, lexeme.to_owned(), literal.to_owned(), 0, 0)
}

/// An identifier token whose lexeme and literal are both `lexeme`.
pub fn tidentifier(lexeme: &'static str) -> (r: Token)
    ensures
        r@ == token_at_start(TokenType::Identifier, lexeme@, lexeme@),
{
    Token::new(TokenType::Identifier, lexeme.to_owned(), lexeme.to_owned(), 0, 0)
}

/// A `;` token with an empty literal.
pub fn tsemicolon() -> (r: Token)
    ensures
        r@ == token_at_start(TokenType::Semicolon, ";"@, Seq::empty()),
{
    Token::new(TokenType::Semicolon, ";".to_owned(), String::new(), 0, 0)
}

/// The name of each primitive type.
pub open spec fn spec_primitive_type_name(token_type: TokenType) -> Option<Seq<char>> {
    match token_type {
        TokenType::I8 => Some("i8"@),
        TokenType::U8 => Some("u8"@),
        TokenType::I16 => Some("i16"@),
        TokenType::U16 => Some("u16"@),
        TokenType::I32 => Some("i32"@),
        TokenType::U32 => Some("u32"@),
        TokenType::I64 => Some("i64"@),
        TokenType::U64 => Some("u64"@),
        TokenType::F32 => Some("f32"@),
        TokenType::F64 => Some("f64"@),
        TokenType::Bool => Some("bool"@),
        TokenType::Char => Some("char"@),
        TokenType::V2 => Some("v2"@),
        TokenType::V3 => Some("v3"@),
        TokenType::V4 => Some("v4"@),
        _ => None,
    }
}

/// The name of a primitive type.
pub fn primitive_type_as_str(token_type: TokenType) -> (r: &'static str)
    requires
        spec_primitive_type_name(token_type) is Some,
    ensures
        spec_primitive_type_name(token_type) == Some(r@),
{
    match token_type {
        TokenType::I8 => "i8",
        TokenType::U8 => "u8",
        TokenType::I16 => "i16",
        TokenType::U16 => "u16",
        TokenType::I32 => "i32",
        TokenType::U32 => "u32",
        TokenType::I64 => "i64",
        TokenType::U64 => "u64",
        TokenType::F32 => "f32",
        TokenType::F64 => "f64",
        TokenType::Bool => "bool",
        TokenType::Char => "char",
        TokenType::V2 => "v2",
        TokenType::V3 => "v3",
        _ => "v4",
    }
}

/// The symbol of each arithmetic operator.
pub open spec fn spec_primitive_op_symbol(token_type: TokenType) -> Option<Seq<char>> {
    match token_type {
        TokenType::Star => Some("*"@),
        TokenType::Plus => Some("+"@),
        TokenType::Minus => Some("-"@),
        TokenType::Slash => Some("/"@),
        TokenType::Percent => Some("%"@),
        _ => None,
    }
}

/// The symbol of an arithmetic operator.
pub fn primitive_op_as_str(token_type: TokenType) -> (r: &'static str)
    requires
        spec_primitive_op_symbol(token_type) is Some,
    ensures
        spec_primitive_op_symbol(token_type) == Some(r@),
{
    match token_type {
        TokenType::Star => "*",
        TokenType::Plus => "+",
        TokenType::Minus => "-",
        TokenType::Slash => "/",
        _ => "%",
    }
}

} // verus!

use vstd::prelude::*;

use crate::parser::errors::ParserError;
use crate::syntax::ast::{Expression, Identifier, SelfExpression, Statement, BreakStatement, ContinueStatement, FunctionSignature, ImplFunctionSignature, Literal, MethodSignature, PointerAnnotation, StructStatement, Type as AstType, TypeAnnotation, TypeKind, TypedDeclaration};
use crate::syntax::lexer::Token;
use crate::syntax::tokens::TokenType;
use crate::utils::text::{parse_unsigned, unsigned_text_value};

verus! {

/// Whether a token of this type is part of a comment.
pub open spec fn is_comment(token_type: TokenType) -> bool {
    token_type == TokenType::SingleLineComment || token_type == TokenType::MultilineCommentStart
        || token_type == TokenType::MultilineCommentEnd
}

/// Whether the stream has ended at `pos`: past the last token, or at an
/// `EOF` token.
pub open spec fn at_end(tokens: Seq<Token>, pos: int) -> bool {
    if 0 <= pos < tokens.len() {
        tokens[pos].token_type == TokenType::EOF
    } else {
        true
    }
}

/// The first position from `pos` on that holds no comment token, or the
/// end of the stream.
pub open spec fn skip_comments(tokens: Seq<Token>, pos: int) -> int
    decreases tokens.len() - pos,
{
    if pos < 0 || at_end(tokens, pos) || !is_comment(tokens[pos].token_type) {
        pos
    } else {
        skip_comments(tokens, pos + 1)
    }
}

/// The token at `pos`, if there is one (an `EOF` token too).
pub open spec fn token_at(tokens: Seq<Token>, pos: int) -> Option<Token> {
    if 0 <= pos < tokens.len() {
        Some(tokens[pos])
    } else {
        None
    }
}

/// What taking one token at `pos` gives, and the position after it: nothing
/// at the end of the stream.
pub open spec fn spec_advance(tokens: Seq<Token>, pos: int) -> (Option<Token>, int) {
    if at_end(tokens, pos) {
        (None, pos)
    } else {
        (Some(tokens[pos]), pos + 1)
    }
}

/// The first token from `pos` on that is not part of a comment, unless
/// the stream ends first, and its position; the token is not taken.
pub open spec fn spec_skip_to_token(tokens: Seq<Token>, pos: int) -> (Option<Token>, int) {
    let p = skip_comments(tokens, pos);
    if at_end(tokens, p) {
        (None, p)
    } else {
        (Some(tokens[p]), p)
    }
}

/// Taking a token of the given type at `pos`: the token, or the error for
/// the end of the stream or for another token (which is taken all the same).
pub open spec fn spec_require(tokens: Seq<Token>, pos: int, token_type: TokenType, message: &'static str) -> (Result<Token, ParserError>, int) {
    let (taken, p) = spec_advance(tokens, pos);
    match taken {
        None => (Err(ParserError::UnexpectedEof(crate::parser::errors::UnexpectedEofError { expected: token_type, message })), p),
        Some(t) => if t.token_type != token_type {
            (Err(ParserError::UnexpectedToken(crate::parser::errors::UnexpectedTokenError { found: t, expected: token_type, message })), p)
        } else {
            (Ok(t), p)
        },
    }
}

/// The token types that can name a type: identifiers and the basic type
/// keywords.
pub open spec fn names_type(token_type: TokenType) -> bool {
    ||| token_type == TokenType::Identifier
    ||| token_type == TokenType::I8
    ||| token_type == TokenType::I16
    ||| token_type == TokenType::I32
    ||| token_type == TokenType::I64
    ||| token_type == TokenType::U8
    ||| token_type == TokenType::U16
    ||| token_type == TokenType::U32
    ||| token_type == TokenType::U64
    ||| token_type == TokenType::F32
    ||| token_type == TokenType::F64
    ||| token_type == TokenType::Bool
    ||| token_type == TokenType::Char
}

/// Whether `expected` applies to the token, after comments are passed over:
/// `Some` of the token where its type is `expected`, `None` where it is
/// another, and the error for the end of the tokens.
pub open spec fn spec_match_current(tokens: Seq<Token>, pos: int, expected: TokenType, message: &'static str) -> (Result<Option<Token>, ParserError>, int) {
    let p = skip_comments(tokens, pos);
    match token_at(tokens, p) {
        None => (Err(ParserError::UnexpectedEof(crate::parser::errors::UnexpectedEofError { expected, message })), p),
        Some(t) => (Ok(if t.token_type == expected { Some(t) } else { None }), p),
    }
}

/// Passing over comments never moves back, and from a position within the
/// tokens it stays within them.
pub proof fn lemma_skip_comments_bounds(tokens: Seq<Token>, pos: int)
    ensures
        pos <= skip_comments(tokens, pos),
        0 <= pos <= tokens.len() ==> skip_comments(tokens, pos) <= tokens.len(),
        !at_end(tokens, skip_comments(tokens, pos)) ==> skip_comments(tokens, pos) < tokens.len(),
    decreases tokens.len() - pos,
{
    if !(pos < 0 || at_end(tokens, pos) || !is_comment(tokens[pos].token_type)) {
        lemma_skip_comments_bounds(tokens, pos + 1);
    }
}

/// The error for tokens that end where one of type `expected` should come.
pub open spec fn eof_error(expected: TokenType, message: &'static str) -> ParserError {
    ParserError::UnexpectedEof(crate::parser::errors::UnexpectedEofError { expected, message })
}

/// The error for a token `found` where one of type `expected` should come.
pub open spec fn token_error(found: Token, expected: TokenType, message: &'static str) -> ParserError {
    ParserError::UnexpectedToken(crate::parser::errors::UnexpectedTokenError { found, expected, message })
}

/// A type's name at `pos`: a token that names a type, which is taken.
pub open spec fn type_identifier_rule(tokens: Seq<Token>, pos: int) -> (Result<Token, ParserError>, int) {
    match token_at(tokens, pos) {
        None => (Err(eof_error(TokenType::Identifier, "expected type identifier")), pos),
        Some(t) => if names_type(t.token_type) {
            (Ok(t), spec_advance(tokens, pos).1)
        } else {
            (Err(token_error(t, TokenType::Identifier, "expected type identifier")), pos)
        },
    }
}

/// The tokens that name a type: an identifier, or one of the basic type
/// keywords `i8`, `i16`, `i32`, `i64`, `u8`, `u16`, `u32`, `u64`, `f32`,
/// `f64`, `bool` and `char`.
pub open spec fn type_name_token_types() -> Seq<TokenType> {
    seq![
        TokenType::Identifier,
        TokenType::I8,
        TokenType::I16,
        TokenType::I32,
        TokenType::I64,
        TokenType::U8,
        TokenType::U16,
        TokenType::U32,
        TokenType::U64,
        TokenType::F32,
        TokenType::F64,
        TokenType::Bool,
        TokenType::Char,
    ]
}

/// A token type names a type exactly when [`type_name_token_types`] lists it.
proof fn lemma_type_name_listed(token_type: TokenType)
    ensures
        names_type(token_type) <==> type_name_token_types().contains(token_type),
{
    if names_type(token_type) {
        let i: int = match token_type {
            TokenType::Identifier => 0,
            TokenType::I8 => 1,
            TokenType::I16 => 2,
            TokenType::I32 => 3,
            TokenType::I64 => 4,
            TokenType::U8 => 5,
            TokenType::U16 => 6,
            TokenType::U32 => 7,
            TokenType::U64 => 8,
            TokenType::F32 => 9,
            TokenType::F64 => 10,
            TokenType::Bool => 11,
            TokenType::Char => 12,
            _ => 0,
        };
        assert(type_name_token_types()[i] == token_type);
    }
}

/// Every identifier and every basic type keyword is a type's name: read
/// where a type is expected, the token alone makes the type, which is not
/// changeable, and reading goes on after it. Any other token there is
/// refused as no type identifier.
pub proof fn law_type_names_are_accepted(tokens: Seq<Token>, pos: int, no_mut: bool)
    requires
        0 <= pos < tokens.len(),
    ensures
        type_name_token_types().contains(tokens[pos].token_type) ==> {
            &&& type_identifier_rule(tokens, pos) == (Ok::<Token, ParserError>(tokens[pos]), pos + 1)
            &&& simple_type_rule(tokens, pos) == (Ok::<AstType, ParserError>(AstType { name: tokens[pos] }), pos + 1)
            &&& type_annotation_rule(tokens, pos, no_mut) == (Ok::<TypeAnnotation, ParserError>(TypeAnnotation {
                kind: TypeKind::Simple(AstType { name: tokens[pos] }),
                is_mut: false,
            }), pos + 1)
        },
        !type_name_token_types().contains(tokens[pos].token_type) ==> type_identifier_rule(tokens, pos)
            == (Err::<Token, ParserError>(token_error(tokens[pos], TokenType::Identifier, "expected type identifier")), pos),
{
    lemma_type_name_listed(tokens[pos].token_type);
}

/// A type named by one token, after any comments.
pub open spec fn simple_type_rule(tokens: Seq<Token>, pos: int) -> (Result<AstType, ParserError>, int) {
    let (name, p) = type_identifier_rule(tokens, skip_comments(tokens, pos));
    (match name { Ok(t) => Ok(AstType { name: t }), Err(e) => Err(e) }, p)
}

/// The `mut` or `const` that may follow a pointer's `*`: whether the
/// pointer points to changeable values, and the position after it.
pub open spec fn pointer_modifier_rule(tokens: Seq<Token>, pos: int) -> (Result<bool, ParserError>, int) {
    let (m, p) = spec_match_current(tokens, pos, TokenType::Mut, "expected mut modifier");
    match m {
        Err(e) => (Err(e), p),
        Ok(Some(_)) => (Ok(true), skip_comments(tokens, spec_advance(tokens, p).1)),
        Ok(None) => {
            let (c, q) = spec_match_current(tokens, p, TokenType::Const, "expected const modifier");
            match c {
                Err(e) => (Err(e), q),
                Ok(Some(_)) => (Ok(false), skip_comments(tokens, spec_advance(tokens, q).1)),
                Ok(None) => (Ok(false), q),
            }
        },
    }
}

/// A pointer type: `*`, then `mut` or `const` or neither, then the type
/// pointed to, itself a pointer type or a type's name.
pub open spec fn pointer_type_rule(tokens: Seq<Token>, pos: int) -> (Result<PointerAnnotation, ParserError>, int)
    decreases tokens.len() - pos,
{
    let p1 = skip_comments(tokens, pos);
    let (star, p2) = spec_require(tokens, p1, TokenType::Star, "expected '*'");
    match star {
        Err(e) => (Err(e), p2),
        Ok(_) => {
            let (modifier, p3) = pointer_modifier_rule(tokens, p2);
            match modifier {
                Err(e) => (Err(e), p3),
                Ok(points_to_mut) => {
                    let (next, p4) = spec_match_current(tokens, p3, TokenType::Star, "Expected '*' or type identifier");
                    match next {
                        Err(e) => (Err(e), p4),
                        Ok(Some(_)) => {
                            proof {
                                lemma_pointer_modifier_forward(tokens, p2);
                                lemma_skip_comments_bounds(tokens, pos);
                                lemma_skip_comments_bounds(tokens, p3);
                            }
                            let (inner, p5) = pointer_type_rule(tokens, p4);
                            match inner {
                                Err(e) => (Err(e), p5),
                                Ok(sub) => (Ok(PointerAnnotation { inner_type: Box::new(TypeKind::Pointer(sub)), points_to_mut }), p5),
                            }
                        },
                        Ok(None) => {
                            let (simple, p5) = simple_type_rule(tokens, p4);
                            match simple {
                                Err(e) => (Err(e), p5),
                                Ok(t) => (Ok(PointerAnnotation { inner_type: Box::new(TypeKind::Simple(t)), points_to_mut }), p5),
                            }
                        },
                    }
                },
            }
        },
    }
}

/// Reading a pointer's modifier never moves back.
pub proof fn lemma_pointer_modifier_forward(tokens: Seq<Token>, pos: int)
    ensures
        pos <= pointer_modifier_rule(tokens, pos).1,
        0 <= pos <= tokens.len() ==> pointer_modifier_rule(tokens, pos).1 <= tokens.len(),
{
    lemma_skip_comments_bounds(tokens, pos);
    let p = skip_comments(tokens, pos);
    lemma_skip_comments_bounds(tokens, p);
    lemma_skip_comments_bounds(tokens, spec_advance(tokens, p).1);
    let q = skip_comments(tokens, p);
    lemma_skip_comments_bounds(tokens, q);
    lemma_skip_comments_bounds(tokens, spec_advance(tokens, q).1);
}

/// A type annotation: `mut` where `no_mut` does not forbid it, then a
/// pointer type or a type's name.
pub open spec fn type_annotation_rule(tokens: Seq<Token>, pos: int, no_mut: bool) -> (Result<TypeAnnotation, ParserError>, int) {
    let (modifier, p) = if no_mut {
        (Ok(false), pos)
    } else {
        let p0 = skip_comments(tokens, pos);
        match token_at(tokens, p0) {
            None => (Err(eof_error(TokenType::Mut, "expected mut modifier")), p0),
            Some(t) => if t.token_type == TokenType::Mut {
                (Ok(true), skip_comments(tokens, spec_advance(tokens, p0).1))
            } else {
                (Ok(false), p0)
            },
        }
    };
    match modifier {
        Err(e) => (Err(e), p),
        Ok(is_mut) => match token_at(tokens, p) {
            None => (Err(eof_error(TokenType::Star, "expected '*' or type identifier")), p),
            Some(t) => if t.token_type == TokenType::Star {
                let (pointer, q) = pointer_type_rule(tokens, p);
                (match pointer { Ok(pt) => Ok(TypeAnnotation { kind: TypeKind::Pointer(pt), is_mut }), Err(e) => Err(e) }, q)
            } else {
                let (simple, q) = simple_type_rule(tokens, p);
                (match simple { Ok(st) => Ok(TypeAnnotation { kind: TypeKind::Simple(st), is_mut }), Err(e) => Err(e) }, q)
            },
        },
    }
}

/// Reading a pointer type never moves back, and stays within the tokens.
pub proof fn lemma_pointer_type_forward(tokens: Seq<Token>, pos: int)
    requires
        0 <= pos <= tokens.len(),
    ensures
        pos <= pointer_type_rule(tokens, pos).1 <= tokens.len(),
    decreases tokens.len() - pos,
{
    lemma_skip_comments_bounds(tokens, pos);
    let p1 = skip_comments(tokens, pos);
    let p2 = spec_require(tokens, p1, TokenType::Star, "expected '*'").1;
    if spec_require(tokens, p1, TokenType::Star, "expected '*'").0 is Ok {
        lemma_pointer_modifier_forward(tokens, p2);
        let p3 = pointer_modifier_rule(tokens, p2).1;
        lemma_skip_comments_bounds(tokens, p3);
        let p4 = skip_comments(tokens, p3);
        if pointer_modifier_rule(tokens, p2).0 is Ok && token_at(tokens, p4) is Some {
            if tokens[p4].token_type == TokenType::Star {
                lemma_pointer_type_forward(tokens, p4);
            } else {
                lemma_skip_comments_bounds(tokens, p4);
            }
        }
    }
}

/// Reading a type annotation never moves back, and stays within the tokens.
pub proof fn lemma_type_annotation_forward(tokens: Seq<Token>, pos: int, no_mut: bool)
    requires
        0 <= pos <= tokens.len(),
    ensures
        pos <= type_annotation_rule(tokens, pos, no_mut).1 <= tokens.len(),
{
    lemma_skip_comments_bounds(tokens, pos);
    let p0 = skip_comments(tokens, pos);
    if !no_mut && token_at(tokens, p0) is Some {
        lemma_skip_comments_bounds(tokens, p0 + 1);
    }
    let p = if no_mut { pos } else if token_at(tokens, p0) is Some && tokens[p0].token_type == TokenType::Mut {
        skip_comments(tokens, p0 + 1)
    } else {
        p0
    };
    if token_at(tokens, p) is Some {
        lemma_pointer_type_forward(tokens, p);
        lemma_skip_comments_bounds(tokens, p);
    }
}

/// A struct's field, starting at `opening`: a name, `:` and a type
/// annotation without `mut`. A field with an initializer (`=`) is refused
/// where it is met, before the initializer.
pub open spec fn struct_field_rule(tokens: Seq<Token>, pos: int, opening: Token) -> (Result<TypedDeclaration, ParserError>, int) {
    let (identifier, p1) = spec_require(tokens, pos, TokenType::Identifier, "expected a variable name");
    match identifier {
        Err(e) => (Err(e), p1),
        Ok(name) => match token_at(tokens, p1) {
            None => (Err(eof_error(TokenType::Equals, "expected type annotation or assignment")), p1),
            Some(t) => {
                let (annotation, p3) = if t.token_type == TokenType::Colon {
                    let (a, q) = type_annotation_rule(tokens, skip_comments(tokens, p1 + 1), true);
                    (match a { Ok(x) => Ok(Some(x)), Err(e) => Err(e) }, q)
                } else {
                    (Ok(None), p1)
                };
                match annotation {
                    Err(e) => (Err(e), p3),
                    Ok(annotation) => {
                        let p4 = skip_comments(tokens, p3);
                        match token_at(tokens, p4) {
                            None => (Err(ParserError::EmptyStream), p4),
                            Some(next) => match annotation {
                                None => (Err(ParserError::TypeAnnotationRequired(
                                    crate::parser::errors::TypeAnnotationRequiredError {
                                        identifier: name,
                                        message: "type annotation is required for fields in structs",
                                    },
                                )), p4),
                                Some(a) => if next.token_type == TokenType::Equals {
                                    (Err(token_error(opening, TokenType::Comma, "struct fields can't have initializers")), p4)
                                } else {
                                    (Ok(TypedDeclaration { name, declared_type: a }), p4)
                                },
                            },
                        }
                    },
                }
            },
        },
    }
}

/// Reading a struct field moves past its name at least, and stays within
/// the tokens.
pub proof fn lemma_struct_field_forward(tokens: Seq<Token>, pos: int, opening: Token)
    requires
        0 <= pos <= tokens.len(),
    ensures
        pos <= struct_field_rule(tokens, pos, opening).1 <= tokens.len(),
        struct_field_rule(tokens, pos, opening).0 is Ok ==> pos < struct_field_rule(tokens, pos, opening).1,
{
    let p1 = spec_advance(tokens, pos).1;
    if token_at(tokens, p1) is Some && tokens[p1].token_type == TokenType::Colon {
        lemma_skip_comments_bounds(tokens, p1 + 1);
        lemma_type_annotation_forward(tokens, skip_comments(tokens, p1 + 1), true);
        lemma_skip_comments_bounds(tokens, type_annotation_rule(tokens, skip_comments(tokens, p1 + 1), true).1);
    } else {
        lemma_skip_comments_bounds(tokens, p1);
    }
}

/// The fields of a struct after its `{`, each but the last followed by
/// `,`, up to the `}` or the first field that no `,` follows (neither
/// taken).
pub open spec fn struct_fields_rule(tokens: Seq<Token>, pos: int) -> (Result<Seq<TypedDeclaration>, ParserError>, int)
    decreases tokens.len() - pos,
{
    let (first, p) = spec_skip_to_token(tokens, pos);
    match first {
        None => (Err(eof_error(TokenType::Identifier, "expected struct definition after '{' after 'struct'")), p),
        Some(t) => if t.token_type == TokenType::RightBrace {
            (Ok(Seq::empty()), p)
        } else {
            let (field, p1) = struct_field_rule(tokens, p, t);
            match field {
                Err(e) => (Err(e), p1),
                Ok(f) => {
                    let (next, p2) = spec_skip_to_token(tokens, p1);
                    match next {
                        None => (Err(eof_error(TokenType::Comma, "expected ',' or '}' after struct field definition")), p2),
                        Some(n) => if n.token_type == TokenType::Comma {
                            proof {
                                lemma_skip_comments_bounds(tokens, pos);
                                lemma_struct_field_forward(tokens, p, t);
                                lemma_skip_comments_bounds(tokens, p1);
                            }
                            let (rest, p3) = struct_fields_rule(tokens, p2 + 1);
                            (match rest { Ok(fs) => Ok(seq![f] + fs), Err(e) => Err(e) }, p3)
                        } else {
                            (Ok(seq![f]), p2)
                        },
                    }
                },
            }
        },
    }
}

/// The end of a struct declaration: after the fields that `fields` gives,
/// the closing `}`.
pub open spec fn finish_struct(
    tokens: Seq<Token>,
    token: Token,
    name: Token,
    fields: (Result<Seq<TypedDeclaration>, ParserError>, int),
) -> (Result<(Token, Token, Seq<TypedDeclaration>), ParserError>, int) {
    match fields.0 {
        Err(e) => (Err(e), fields.1),
        Ok(fs) => {
            let (closing, p) = spec_require(tokens, fields.1, TokenType::RightBrace, "expected '}' after struct definition");
            match closing {
                Err(e) => (Err(e), p),
                Ok(_) => (Ok((token, name, fs)), p),
            }
        },
    }
}

/// A struct declaration: `struct`, its name, `{`, its fields and `}`;
/// gives the `struct` token, the name and the fields.
pub open spec fn struct_statement_rule(tokens: Seq<Token>, pos: int) -> (Result<(Token, Token, Seq<TypedDeclaration>), ParserError>, int) {
    let (token, p1) = spec_require(tokens, pos, TokenType::Struct, "expected 'struct' keyword");
    match token {
        Err(e) => (Err(e), p1),
        Ok(token) => {
            let (name, p2) = spec_require(tokens, p1, TokenType::Identifier, "expected a struct name in struct declaration");
            match name {
                Err(e) => (Err(e), p2),
                Ok(name) => {
                    let (brace, p3) = spec_require(tokens, p2, TokenType::LeftBrace, "expected '{' after struct name");
                    match brace {
                        Err(e) => (Err(e), p3),
                        Ok(_) => finish_struct(tokens, token, name, struct_fields_rule(tokens, p3)),
                    }
                },
            }
        },
    }
}

/// The start of a function declaration: `fn`, its name and `(`; gives the
/// `fn` token and the name.
pub open spec fn function_start_rule(tokens: Seq<Token>, pos: int) -> (Result<(Token, Token), ParserError>, int) {
    let (token, p1) = spec_require(tokens, pos, TokenType::Fn, "expected 'fn'");
    match token {
        Err(e) => (Err(e), p1),
        Ok(token) => {
            let (name, p2) = spec_require(tokens, p1, TokenType::Identifier, "expected a function name in fn statement");
            match name {
                Err(e) => (Err(e), p2),
                Ok(name) => {
                    let (paren, p3) = spec_require(tokens, p2, TokenType::LeftParenthesis, "expected '(' after function name");
                    match paren {
                        Err(e) => (Err(e), p3),
                        Ok(_) => (Ok((token, name)), p3),
                    }
                },
            }
        },
    }
}

/// A function's parameter, whose first token `token` has been looked at:
/// `mut` (where `token` is `mut`, one token is taken for it), a name, `:`
/// and a type annotation, as changeable as the `mut` says.
pub open spec fn function_argument_rule(tokens: Seq<Token>, pos: int, token: Token) -> (Result<TypedDeclaration, ParserError>, int) {
    let is_mut = token.token_type == TokenType::Mut;
    let p0 = if is_mut { spec_advance(tokens, pos).1 } else { pos };
    let (name, p1) = spec_require(tokens, p0, TokenType::Identifier, "expected parameter name in function declaration");
    match name {
        Err(e) => (Err(e), p1),
        Ok(name) => {
            let (colon, p2) = spec_require(tokens, p1, TokenType::Colon, "expected ':' after parameter name");
            match colon {
                Err(e) => (Err(e), p2),
                Ok(_) => {
                    let (annotation, p3) = type_annotation_rule(tokens, p2, true);
                    match annotation {
                        Err(e) => (Err(e), p3),
                        Ok(a) => (Ok(TypedDeclaration {
                            name,
                            declared_type: TypeAnnotation { kind: a.kind, is_mut },
                        }), p3),
                    }
                },
            }
        },
    }
}

/// Reading a parameter moves past its name at least, and stays within the
/// tokens.
pub proof fn lemma_function_argument_forward(tokens: Seq<Token>, pos: int, token: Token)
    requires
        0 <= pos <= tokens.len(),
    ensures
        pos <= function_argument_rule(tokens, pos, token).1 <= tokens.len(),
        function_argument_rule(tokens, pos, token).0 is Ok ==> pos < function_argument_rule(tokens, pos, token).1,
{
    let p0 = if token.token_type == TokenType::Mut { spec_advance(tokens, pos).1 } else { pos };
    let p1 = spec_advance(tokens, p0).1;
    let p2 = spec_advance(tokens, p1).1;
    lemma_type_annotation_forward(tokens, p2, true);
}

/// What the parameter list has given so far: the parameters, whether a
/// `*self` or `*mut self` made the function a method, and whether that
/// `self` is `mut`.
pub type ArgumentsSoFar = (Seq<TypedDeclaration>, bool, bool);

/// The parameters of a function after its `(`, separated by `,`, up to
/// the `)` or the first parameter that no `,` follows (neither taken).
/// Where `allow_self` holds, `*self` or `*mut self` may stand before the
/// first ordinary parameter. `so_far` is what was read before `pos`.
pub open spec fn arguments_rule(tokens: Seq<Token>, pos: int, allow_self: bool, so_far: ArgumentsSoFar) -> (Result<ArgumentsSoFar, ParserError>, int)
    decreases tokens.len() - pos,
{
    let (args, is_bound, is_mut_self) = so_far;
    match token_at(tokens, pos) {
        None => (Err(eof_error(TokenType::Identifier, "Expected argument or closing parenthesis")), pos),
        Some(t) => if t.token_type == TokenType::RightParenthesis {
            (Ok(so_far), pos)
        } else {
            let (item, p3) = if allow_self && args.len() < 1 && t.token_type == TokenType::Star {
                let p1 = spec_advance(tokens, pos).1;
                match token_at(tokens, p1) {
                    None => (Err(eof_error(TokenType::SelfToken, "expected 'self' after * in bound method")), p1),
                    Some(m) => {
                        let p2 = if m.token_type == TokenType::Mut { spec_advance(tokens, p1).1 } else { p1 };
                        let (self_token, q) = spec_require(tokens, p2, TokenType::SelfToken, "expected 'self' after * in bound method");
                        match self_token {
                            Err(e) => (Err(e), q),
                            Ok(_) => (Ok((args, true, is_mut_self || m.token_type == TokenType::Mut)), q),
                        }
                    },
                }
            } else {
                let (argument, q) = function_argument_rule(tokens, pos, t);
                match argument {
                    Err(e) => (Err(e), q),
                    Ok(a) => (Ok((args.push(a), is_bound, is_mut_self)), q),
                }
            };
            match item {
                Err(e) => (Err(e), p3),
                Ok(next_so_far) => match token_at(tokens, p3) {
                    None => (Err(eof_error(TokenType::Comma, "expected comma or closing parenthesis")), p3),
                    Some(separator) => if separator.token_type != TokenType::Comma {
                        (Ok(next_so_far), p3)
                    } else {
                        proof {
                            if !(allow_self && args.len() < 1 && t.token_type == TokenType::Star) {
                                lemma_function_argument_forward(tokens, pos, t);
                            }
                        }
                        arguments_rule(tokens, p3 + 1, allow_self, next_so_far)
                    },
                },
            }
        },
    }
}

/// The end of a function's header: `)`, then `->` and a type annotation
/// where the function returns a value; gives that annotation.
pub open spec fn return_type_rule(tokens: Seq<Token>, pos: int) -> (Result<Option<TypeAnnotation>, ParserError>, int) {
    let (paren, p1) = spec_require(tokens, pos, TokenType::RightParenthesis, "expected ')' after arguments list");
    match paren {
        Err(e) => (Err(e), p1),
        Ok(_) => match token_at(tokens, p1) {
            Some(t) => if t.token_type == TokenType::Arrow {
                let (annotation, p2) = type_annotation_rule(tokens, spec_advance(tokens, p1).1, true);
                (match annotation { Ok(a) => Ok(Some(a)), Err(e) => Err(e) }, p2)
            } else {
                (Ok(None), p1)
            },
            None => (Ok(None), p1),
        },
    }
}

/// A function's header: `fn`, its name, `(`, its parameters (with a
/// leading `*self` or `*mut self` where `allow_self` holds), `)` and its
/// return type. Gives the `fn` token, the name, what the parameter list
/// gave, and the return type.
pub open spec fn function_header_rule(tokens: Seq<Token>, pos: int, allow_self: bool)
    -> (Result<(Token, Token, ArgumentsSoFar, Option<TypeAnnotation>), ParserError>, int) {
    let (start, p1) = function_start_rule(tokens, pos);
    match start {
        Err(e) => (Err(e), p1),
        Ok((token, name)) => {
            let (arguments, p2) = arguments_rule(tokens, p1, allow_self, (Seq::empty(), false, false));
            match arguments {
                Err(e) => (Err(e), p2),
                Ok(arguments) => {
                    let (return_type, p3) = return_type_rule(tokens, p2);
                    match return_type {
                        Err(e) => (Err(e), p3),
                        Ok(return_type) => (Ok((token, name, arguments, return_type)), p3),
                    }
                },
            }
        },
    }
}

/// The literal at `pos`, after comments: a number of one of the integer
/// literal types, read from the token's value text (the signed types are
/// read as their unsigned counterparts), a floating-point number, or a
/// string. The token is taken, and the comments after it. A number that
/// does not fit is refused with the name `T` of what it was read as.
pub open spec fn literal_rule(tokens: Seq<Token>, pos: int) -> (Result<Literal, ParserError>, int) {
    let p = skip_comments(tokens, pos);
    match token_at(tokens, p) {
        None => (Err(eof_error(TokenType::Identifier, "expected primary token")), p),
        Some(t) => {
            let number = unsigned_text_value(t.literal@);
            let unreadable = ParserError::LiteralParseError(crate::parser::errors::LiteralParseError { token: t, to: "T" });
            let read: Result<Literal, ParserError> = match t.token_type {
                TokenType::U8Literal | TokenType::I8Literal => match number {
                    Some(v) => if v <= u8::MAX { Ok(Literal::U8 { token: t, value: v as u8 }) } else { Err(unreadable) },
                    None => Err(unreadable),
                },
                TokenType::U16Literal | TokenType::I16Literal => match number {
                    Some(v) => if v <= u16::MAX { Ok(Literal::U16 { token: t, value: v as u16 }) } else { Err(unreadable) },
                    None => Err(unreadable),
                },
                TokenType::U32Literal | TokenType::I32Literal => match number {
                    Some(v) => if v <= u32::MAX { Ok(Literal::U32 { token: t, value: v as u32 }) } else { Err(unreadable) },
                    None => Err(unreadable),
                },
                TokenType::U64Literal | TokenType::I64Literal => match number {
                    Some(v) => if v <= u64::MAX { Ok(Literal::U64 { token: t, value: v as u64 }) } else { Err(unreadable) },
                    None => Err(unreadable),
                },
                TokenType::F32Literal => Ok(Literal::F32 { token: t }),
                TokenType::F64Literal => Ok(Literal::F64 { token: t }),
                TokenType::StringLiteral => Ok(Literal::String { token: t, value: t.literal }),
                _ => Err(ParserError::UnexpectedPrimaryExpression(t)),
            };
            match read {
                Ok(l) => (Ok(l), skip_comments(tokens, p + 1)),
                Err(e) => (Err(e), p),
            }
        },
    }
}

/// The integer literal token types, each with the largest value its literal
/// holds: a literal is read as an unsigned number of its width, the signed
/// types too.
pub open spec fn integer_literal_limits() -> Seq<(TokenType, nat)> {
    seq![
        (TokenType::U8Literal, 0xFFnat),
        (TokenType::I8Literal, 0xFFnat),
        (TokenType::U16Literal, 0xFFFFnat),
        (TokenType::I16Literal, 0xFFFFnat),
        (TokenType::U32Literal, 0xFFFF_FFFFnat),
        (TokenType::I32Literal, 0xFFFF_FFFFnat),
        (TokenType::U64Literal, 0xFFFF_FFFF_FFFF_FFFFnat),
        (TokenType::I64Literal, 0xFFFF_FFFF_FFFF_FFFFnat),
    ]
}

/// The number that an integer literal holds.
pub open spec fn literal_number(literal: Literal) -> Option<nat> {
    match literal {
        Literal::U8 { value, .. } => Some(value as nat),
        Literal::U16 { value, .. } => Some(value as nat),
        Literal::U32 { value, .. } => Some(value as nat),
        Literal::U64 { value, .. } => Some(value as nat),
        _ => None,
    }
}

/// An integer literal token whose text reads as the number `v` is accepted
/// exactly when `v` fits its width, and then the literal holds `v`.
pub proof fn law_integer_literals(tokens: Seq<Token>, pos: int, i: int, v: nat)
    requires
        0 <= i < integer_literal_limits().len(),
        token_at(tokens, skip_comments(tokens, pos)) matches Some(t)
            && t.token_type == integer_literal_limits()[i].0
            && unsigned_text_value(t.literal@) == Some(v),
    ensures
        literal_rule(tokens, pos).0 is Ok <==> v <= integer_literal_limits()[i].1,
        literal_rule(tokens, pos).0 matches Ok(l) ==> literal_number(l) == Some(v),
{
}

/// The position of the next `;` from `pos` on, or of the end of the tokens.
pub open spec fn next_statement_position(tokens: Seq<Token>, pos: int) -> int
    decreases tokens.len() - pos,
{
    if at_end(tokens, pos) || tokens[pos].token_type == TokenType::Semicolon {
        pos
    } else {
        next_statement_position(tokens, pos + 1)
    }
}

/// A `break` or `continue` (of type `keyword`, taken with `keyword_message`):
/// then `;`, or a loop's name and `;`. Gives the keyword's token and the
/// loop's name, if any.
pub open spec fn loop_jump_rule(
    tokens: Seq<Token>,
    pos: int,
    keyword: TokenType,
    keyword_message: &'static str,
    eof_message: &'static str,
    token_message: &'static str,
) -> (Result<(Token, Option<Token>), ParserError>, int) {
    let (token, p1) = spec_require(tokens, pos, keyword, keyword_message);
    match token {
        Err(e) => (Err(e), p1),
        Ok(token) => {
            let (next, p2) = spec_advance(tokens, p1);
            match next {
                None => (Err(eof_error(TokenType::Semicolon, eof_message)), p2),
                Some(n) => if n.token_type == TokenType::Identifier {
                    let (semicolon, p3) = spec_require(tokens, p2, TokenType::Semicolon, "");
                    match semicolon {
                        Err(e) => (Err(e), p3),
                        Ok(_) => (Ok((token, Some(n))), p3),
                    }
                } else if n.token_type == TokenType::Semicolon {
                    (Ok((token, None)), p2)
                } else {
                    (Err(token_error(n, TokenType::Semicolon, token_message)), p2)
                },
            }
        },
    }
}

/// A `break` statement.
pub open spec fn break_rule(tokens: Seq<Token>, pos: int) -> (Result<(Token, Option<Token>), ParserError>, int) {
    loop_jump_rule(tokens, pos, TokenType::Break, "expected 'break' keyword", "", "Expected ';' after 'break' keyword")
}

/// A `continue` statement.
pub open spec fn continue_rule(tokens: Seq<Token>, pos: int) -> (Result<(Token, Option<Token>), ParserError>, int) {
    loop_jump_rule(
        tokens,
        pos,
        TokenType::Continue,
        "",
        "expected ';' after 'continue' keyword",
        "expected ';' after 'continue' keyword",
    )
}

/// `break;` and `continue;`, and `break name;` and `continue name;` with a
/// name after the keyword, are each read up to and with the `;`, giving the
/// keyword's token and the name where one is given; anything else after the
/// keyword is refused.
pub proof fn law_break_and_continue_statements(tokens: Seq<Token>, pos: int)
    requires
        0 <= pos,
        pos + 1 < tokens.len(),
        tokens[pos].token_type is Break || tokens[pos].token_type is Continue,
    ensures
        ({
            let r = if tokens[pos].token_type is Break { break_rule(tokens, pos) } else { continue_rule(tokens, pos) };
            let next = tokens[pos + 1].token_type;
            &&& next is Semicolon ==> r == (Ok::<(Token, Option<Token>), ParserError>((tokens[pos], None)), pos + 2)
            &&& next is Identifier && pos + 2 < tokens.len() && tokens[pos + 2].token_type is Semicolon
                ==> r == (Ok::<(Token, Option<Token>), ParserError>((tokens[pos], Some(tokens[pos + 1]))), pos + 3)
            &&& !(next is Semicolon || next is Identifier) ==> r.0 is Err
        }),
{
}

/// The fields `prefix` followed by those that `rest` gives, at the
/// position where `rest` ends; or the error of `rest`.
pub open spec fn with_prefix(
    prefix: Seq<TypedDeclaration>,
    rest: (Result<Seq<TypedDeclaration>, ParserError>, int),
) -> (Result<Seq<TypedDeclaration>, ParserError>, int) {
    (match rest.0 { Ok(fs) => Ok(prefix + fs), Err(e) => Err(e) }, rest.1)
}

/// Whether a borrowed token is the token expected, or both are absent.
pub open spec fn peeked(r: Option<&Token>, expected: Option<Token>) -> bool {
    match expected {
        Some(t) => r matches Some(found) && *found == t,
        None => r is None,
    }
}

/// Whether `token_type` is one of `token_types`.
fn contains_token_type(token_types: &[TokenType], token_type: TokenType) -> (r: bool)
    ensures
        r == token_types@.contains(token_type),
{
    let mut i: usize = 0;
    while i < token_types.len()
        invariant
            i <= token_types@.len(),
            forall|j: int| 0 <= j < i ==> token_types@[j] != token_type,
        decreases token_types.len() - i,
    {
        if token_types[i] == token_type {
            return true;
        }
        i = i + 1;
    }
    false
}

/// Tokens and a position in them, from which the grammar's rules read.
pub struct Parser {
    pub tokens: Vec<Token>,
    start_position: usize,
    current_position: usize,
}

impl Parser {
    /// The tokens read.
    pub closed spec fn stream(&self) -> Seq<Token> {
        self.tokens@
    }

    /// The position of the next token to read.
    pub closed spec fn position(&self) -> int {
        self.current_position as int
    }

    /// The position stays within the tokens, or just past the last one.
    pub closed spec fn wf(&self) -> bool {
        self.current_position <= self.tokens.len()
    }

    /// A parser at the first of the tokens.
    pub fn new(tokens: Vec<Token>) -> (r: Self)
        ensures
            r.wf(),
            r.stream() == tokens@,
            r.position() == 0,
    {
        Parser { tokens, start_position: 0, current_position: 0 }
    }

    /// Whether the tokens have ended: past the last one, or at an `EOF`.
    pub fn is_at_end(&self) -> (r: bool)
        ensures
            r == at_end(self.stream(), self.position()),
    {
        if self.current_position < self.tokens.len() {
            return self.tokens[self.current_position].token_type == TokenType::EOF;
        }
        self.current_position >= self.tokens.len()
    }

    /// Passes over comment tokens and gives the next other token, unless the
    /// tokens end first; that token is not taken.
    pub fn advance_skipping_comments(&mut self) -> (r: Option<Token>)
        requires
            old(self).wf(),
        ensures
            final(self).wf(),
            final(self).stream() == old(self).stream(),
            (r, final(self).position()) == spec_skip_to_token(old(self).stream(), old(self).position()),
    {
        loop
            invariant
                self.wf(),
                self.stream() == old(self).stream(),
                skip_comments(self.stream(), self.position()) == skip_comments(old(self).stream(), old(self).position()),
            decreases self.tokens.len() - self.current_position,
        {
            if self.is_at_end() {
                return None;
            }
            let token = &self.tokens[self.current_position];
            match token.token_type {
                TokenType::SingleLineComment | TokenType::MultilineCommentStart | TokenType::MultilineCommentEnd => {
                    self.current_position = self.current_position + 1;
                },
                _ => return Some(token.clone()),
            }
        }
    }

    /// Takes the next token, then passes over the comments that follow it.
    pub fn advance_and_skip_next_comments(&mut self) -> (r: Option<Token>)
        requires
            old(self).wf(),
        ensures
            final(self).wf(),
            final(self).stream() == old(self).stream(),
            r == spec_advance(old(self).stream(), old(self).position()).0,
            r is None ==> final(self).position() == old(self).position(),
            r is Some ==> final(self).position() == skip_comments(old(self).stream(), old(self).position() + 1),
    {
        let token = match self.advance() {
            Some(t) => t,
            None => return None,
        };
        self.advance_skipping_comments();
        Some(token)
    }

    /// The token `offset` places after the position, if there is one.
    pub fn peek_ahead(&self, offset: usize) -> (r: Option<&Token>)
        requires
            self.wf(),
        ensures
            peeked(r, token_at(self.stream(), self.position() + offset)),
    {
        if offset < self.tokens.len() - self.current_position {
            Some(&self.tokens[self.current_position + offset])
        } else {
            None
        }
    }

    /// The token at the position, if there is one.
    pub fn peek(&self) -> (r: Option<&Token>)
        requires
            self.wf(),
        ensures
            peeked(r, token_at(self.stream(), self.position())),
    {
        self.peek_ahead(0)
    }

    /// Takes the token at the position, unless the tokens have ended.
    pub fn advance(&mut self) -> (r: Option<Token>)
        requires
            old(self).wf(),
        ensures
            final(self).wf(),
            final(self).stream() == old(self).stream(),
            (r, final(self).position()) == spec_advance(old(self).stream(), old(self).position()),
    {
        if self.is_at_end() {
            return None;
        }
        let token = self.tokens[self.current_position].clone();
        self.current_position = self.current_position + 1;
        Some(token)
    }

    /// Passes over comments and gives the token there, or `EmptyStream`
    /// past the last token.
    pub fn peek_protected(&mut self) -> (r: Result<&Token, ParserError>)
        requires
            old(self).wf(),
        ensures
            final(self).wf(),
            final(self).stream() == old(self).stream(),
            final(self).position() == skip_comments(old(self).stream(), old(self).position()),
            match token_at(old(self).stream(), final(self).position()) {
                Some(t) => r matches Ok(found) && *found == t,
                None => r matches Err(ParserError::EmptyStream),
            },
    {
        self.advance_skipping_comments();
        match self.peek() {
            Some(t) => Ok(t),
            None => Err(ParserError::EmptyStream),
        }
    }

    /// Takes a token that must be of the given type.
    pub fn require(&mut self, token_type: TokenType, additional_message: &'static str) -> (r: Result<Token, ParserError>)
        requires
            old(self).wf(),
        ensures
            final(self).wf(),
            final(self).stream() == old(self).stream(),
            (r, final(self).position()) == spec_require(old(self).stream(), old(self).position(), token_type, additional_message),
    {
        let token = match self.advance() {
            Some(token) => token,
            None => return Err(ParserError::unexpected_eof(token_type, additional_message)),
        };
        if token.token_type != token_type {
            return Err(ParserError::unexpected_token(token, token_type, additional_message));
        }
        Ok(token)
    }
    /// Takes a token that names a type.
    pub fn require_type_identifier(&mut self) -> (r: Result<Token, ParserError>)
        requires
            old(self).wf(),
        ensures
            final(self).wf(),
            final(self).stream() == old(self).stream(),
            (r, final(self).position()) == type_identifier_rule(old(self).stream(), old(self).position()),
    {
        let token = match self.peek() {
            Some(t) => t.clone(),
            None => return Err(ParserError::unexpected_eof(TokenType::Identifier, "expected type identifier")),
        };
        match token.token_type {
            TokenType::Identifier | TokenType::I8 | TokenType::I16 | TokenType::I32 | TokenType::I64
            | TokenType::U8 | TokenType::U16 | TokenType::U32 | TokenType::U64 | TokenType::F32
            | TokenType::F64 | TokenType::Bool | TokenType::Char => {
                self.advance();
                Ok(token)
            },
            _ => Err(ParserError::unexpected_token(token, TokenType::Identifier, "expected type identifier")),
        }
    }

    /// Passes over comments; then whether the token there has the expected
    /// type (the token is not taken).
    pub fn match_current(&mut self, expected: TokenType, msg: &'static str) -> (r: Result<Option<Token>, ParserError>)
        requires
            old(self).wf(),
        ensures
            final(self).wf(),
            final(self).stream() == old(self).stream(),
            (r, final(self).position()) == spec_match_current(old(self).stream(), old(self).position(), expected, msg),
    {
        self.advance_skipping_comments();
        let token = match self.peek() {
            Some(t) => t.clone(),
            None => return Err(ParserError::unexpected_eof(expected, msg)),
        };
        if token.token_type == expected {
            Ok(Some(token))
        } else {
            Ok(None)
        }
    }

    /// Passes over comments; then whether the token there has one of the
    /// given types (the token is not taken). The error for the end of the
    /// tokens names the first of the types.
    pub fn match_tokens(&mut self, token_types: &[TokenType], msg: &'static str) -> (r: Result<Option<Token>, ParserError>)
        requires
            old(self).wf(),
            token_types@.len() > 0,
        ensures
            final(self).wf(),
            final(self).stream() == old(self).stream(),
            final(self).position() == skip_comments(old(self).stream(), old(self).position()),
            match token_at(old(self).stream(), final(self).position()) {
                None => r == Err::<Option<Token>, ParserError>(eof_error(token_types@[0], msg)),
                Some(t) => r == Ok::<Option<Token>, ParserError>(if token_types@.contains(t.token_type) { Some(t) } else { None }),
            },
    {
        self.advance_skipping_comments();
        let token = match self.peek() {
            Some(t) => t.clone(),
            None => return Err(ParserError::unexpected_eof(token_types[0], msg)),
        };
        if contains_token_type(token_types, token.token_type) {
            Ok(Some(token))
        } else {
            Ok(None)
        }
    }

    /// A type named by one token, after any comments.
    pub fn simple_type(&mut self) -> (r: Result<AstType, ParserError>)
        requires
            old(self).wf(),
        ensures
            final(self).wf(),
            final(self).stream() == old(self).stream(),
            (r, final(self).position()) == simple_type_rule(old(self).stream(), old(self).position()),
    {
        self.advance_skipping_comments();
        let name = self.require_type_identifier()?;
        Ok(AstType { name })
    }

    /// A pointer type: `*`, then `mut` or `const` or neither, then the type
    /// pointed to.
    pub fn pointer_type(&mut self) -> (r: Result<PointerAnnotation, ParserError>)
        requires
            old(self).wf(),
        ensures
            final(self).wf(),
            final(self).stream() == old(self).stream(),
            (r, final(self).position()) == pointer_type_rule(old(self).stream(), old(self).position()),
        decreases old(self).stream().len() - old(self).position(),
    {
        self.advance_skipping_comments();
        self.require(TokenType::Star, "expected '*'")?;
        let ghost after_star = self.position();
        proof {
            lemma_skip_comments_bounds(old(self).stream(), old(self).position());
            lemma_pointer_modifier_forward(self.stream(), after_star);
        }
        let mut points_to_mut = false;
        if self.match_current(TokenType::Mut, "expected mut modifier")?.is_some() {
            self.advance();
            self.advance_skipping_comments();
            points_to_mut = true;
        } else if self.match_current(TokenType::Const, "expected const modifier")?.is_some() {
            self.advance();
            self.advance_skipping_comments();
            points_to_mut = false;
        }
        let ghost before_next = self.position();
        if self.match_current(TokenType::Star, "Expected '*' or type identifier")?.is_some() {
            proof {
                lemma_skip_comments_bounds(self.stream(), before_next);
            }
            let sub_ptr = self.pointer_type()?;
            Ok(PointerAnnotation { inner_type: Box::new(TypeKind::Pointer(sub_ptr)), points_to_mut })
        } else {
            let simple_type = self.simple_type()?;
            Ok(PointerAnnotation { inner_type: Box::new(TypeKind::Simple(simple_type)), points_to_mut })
        }
    }

    /// A type annotation: `mut` unless `no_mut`, then a pointer type or a
    /// type's name.
    pub fn type_annotation(&mut self, no_mut: bool) -> (r: Result<TypeAnnotation, ParserError>)
        requires
            old(self).wf(),
        ensures
            final(self).wf(),
            final(self).stream() == old(self).stream(),
            (r, final(self).position()) == type_annotation_rule(old(self).stream(), old(self).position(), no_mut),
    {
        let mut is_mut = false;
        if !no_mut {
            let found_mut = match self.peek_protected() {
                Ok(token) => token.token_type == TokenType::Mut,
                Err(_) => return Err(ParserError::unexpected_eof(TokenType::Mut, "expected mut modifier")),
            };
            if found_mut {
                self.advance();
                self.advance_skipping_comments();
                is_mut = true;
            }
        }
        let is_pointer = match self.peek() {
            Some(token) => token.token_type == TokenType::Star,
            None => return Err(ParserError::unexpected_eof(TokenType::Star, "expected '*' or type identifier")),
        };
        if is_pointer {
            let pointer_type = self.pointer_type()?;
            Ok(TypeAnnotation { kind: TypeKind::Pointer(pointer_type), is_mut })
        } else {
            let simple_type = self.simple_type()?;
            Ok(TypeAnnotation { kind: TypeKind::Simple(simple_type), is_mut })
        }
    }
    /// A struct's field, starting at the token `opening`: a name, `:` and a
    /// type annotation without `mut`. A field with an initializer is refused
    /// at its `=`.
    pub fn struct_field(&mut self, opening: &Token) -> (r: Result<TypedDeclaration, ParserError>)
        requires
            old(self).wf(),
        ensures
            final(self).wf(),
            final(self).stream() == old(self).stream(),
            (r, final(self).position()) == struct_field_rule(old(self).stream(), old(self).position(), *opening),
    {
        let name = self.require(TokenType::Identifier, "expected a variable name")?;
        let has_annotation = match self.peek() {
            Some(token) => token.token_type == TokenType::Colon,
            None => return Err(ParserError::unexpected_eof(TokenType::Equals, "expected type annotation or assignment")),
        };
        let annotation = if has_annotation {
            self.advance_and_skip_next_comments();
            Some(self.type_annotation(true)?)
        } else {
            None
        };
        let has_initializer = match self.peek_protected() {
            Ok(token) => token.token_type == TokenType::Equals,
            Err(e) => return Err(e),
        };
        let declared_type = match annotation {
            Some(a) => a,
            None => return Err(ParserError::type_annotation_required(name, "type annotation is required for fields in structs")),
        };
        if has_initializer {
            return Err(ParserError::unexpected_token(opening.clone(), TokenType::Comma, "struct fields can't have initializers"));
        }
        Ok(TypedDeclaration { name, declared_type })
    }

    /// The fields of a struct after its `{`, each but the last followed by
    /// `,`, up to the `}` or the first field that no `,` follows.
    pub fn struct_fields(&mut self) -> (r: Result<Vec<TypedDeclaration>, ParserError>)
        requires
            old(self).wf(),
        ensures
            final(self).wf(),
            final(self).stream() == old(self).stream(),
            final(self).position() == struct_fields_rule(old(self).stream(), old(self).position()).1,
            match struct_fields_rule(old(self).stream(), old(self).position()).0 {
                Ok(fields) => r matches Ok(v) && v@ == fields,
                Err(e) => r == Err::<Vec<TypedDeclaration>, ParserError>(e),
            },
    {
        let ghost tokens = self.stream();
        let ghost fields_start = self.position();
        let mut fields: Vec<TypedDeclaration> = Vec::new();
        loop
            invariant_except_break
                struct_fields_rule(tokens, fields_start) == with_prefix(fields@, struct_fields_rule(tokens, self.position())),
            invariant
                self.wf(),
                self.stream() == tokens,
                tokens == old(self).stream(),
                fields_start == old(self).position(),
            ensures
                struct_fields_rule(tokens, fields_start) == (Ok::<Seq<TypedDeclaration>, ParserError>(fields@), self.position()),
            decreases tokens.len() - self.position(),
        {
            let ghost here = self.position();
            let ghost before = fields@;
            let token = match self.advance_skipping_comments() {
                Some(t) => t,
                None => return Err(ParserError::unexpected_eof(TokenType::Identifier, "expected struct definition after '{' after 'struct'")),
            };
            if token.token_type == TokenType::RightBrace {
                proof {
                    assert(fields@ + Seq::<TypedDeclaration>::empty() == fields@);
                }
                break;
            }
            let ghost field_start = self.position();
            let field = self.struct_field(&token)?;
            fields.push(field);
            let next = match self.advance_skipping_comments() {
                Some(t) => t,
                None => return Err(ParserError::unexpected_eof(TokenType::Comma, "expected ',' or '}' after struct field definition")),
            };
            proof {
                assert(before + seq![field] == fields@);
            }
            if next.token_type == TokenType::Comma {
                self.advance();
                proof {
                    lemma_skip_comments_bounds(tokens, here);
                    lemma_struct_field_forward(tokens, field_start, token);
                    lemma_skip_comments_bounds(tokens, struct_field_rule(tokens, field_start, token).1);
                    let rest = struct_fields_rule(tokens, self.position()).0;
                    if rest is Ok {
                        assert(before + (seq![field] + rest->Ok_0) == fields@ + rest->Ok_0);
                    }
                }
            } else {
                break;
            }
        }
        Ok(fields)
    }

    /// A struct declaration: `struct`, its name, `{`, fields separated by
    /// `,`, and `}`.
    pub fn struct_statement(&mut self) -> (r: Result<StructStatement, ParserError>)
        requires
            old(self).wf(),
        ensures
            final(self).wf(),
            final(self).stream() == old(self).stream(),
            final(self).position() == struct_statement_rule(old(self).stream(), old(self).position()).1,
            match struct_statement_rule(old(self).stream(), old(self).position()).0 {
                Ok((token, name, fields)) => r matches Ok(s) && s.token == token && s.name == name && s.fields@ == fields,
                Err(e) => r == Err::<StructStatement, ParserError>(e),
            },
    {
        let token = self.require(TokenType::Struct, "expected 'struct' keyword")?;
        let name = self.require(TokenType::Identifier, "expected a struct name in struct declaration")?;
        self.require(TokenType::LeftBrace, "expected '{' after struct name")?;
        let fields = self.struct_fields()?;
        self.require(TokenType::RightBrace, "expected '}' after struct definition")?;
        Ok(StructStatement { token, name, fields })
    }

    /// The start of a function declaration: `fn`, its name and `(`; gives
    /// the `fn` token and the name.
    pub fn function_start(&mut self) -> (r: Result<(Token, Token), ParserError>)
        requires
            old(self).wf(),
        ensures
            final(self).wf(),
            final(self).stream() == old(self).stream(),
            (r, final(self).position()) == function_start_rule(old(self).stream(), old(self).position()),
    {
        let token = self.require(TokenType::Fn, "expected 'fn'")?;
        let function_name = self.require(TokenType::Identifier, "expected a function name in fn statement")?;
        self.require(TokenType::LeftParenthesis, "expected '(' after function name")?;
        Ok((token, function_name))
    }

    /// A function's parameter, whose first token `token` has been looked
    /// at: `mut` where `token` is `mut`, a name, `:` and a type annotation.
    pub fn function_argument(&mut self, token: Token) -> (r: Result<TypedDeclaration, ParserError>)
        requires
            old(self).wf(),
        ensures
            final(self).wf(),
            final(self).stream() == old(self).stream(),
            (r, final(self).position()) == function_argument_rule(old(self).stream(), old(self).position(), token),
    {
        let mut is_mut = false;
        if token.token_type == TokenType::Mut {
            self.advance();
            is_mut = true;
        }
        let argument_name = self.require(TokenType::Identifier, "expected parameter name in function declaration")?;
        self.require(TokenType::Colon, "expected ':' after parameter name")?;
        let mut annotation = self.type_annotation(true)?;
        annotation.is_mut = is_mut;
        Ok(TypedDeclaration { name: argument_name, declared_type: annotation })
    }
    /// Passes over tokens up to the next `;` (not taken) or the end.
    pub fn advance_until_next_statement(&mut self)
        requires
            old(self).wf(),
        ensures
            final(self).wf(),
            final(self).stream() == old(self).stream(),
            final(self).position() == next_statement_position(old(self).stream(), old(self).position()),
    {
        while !self.is_at_end()
            invariant
                self.wf(),
                self.stream() == old(self).stream(),
                next_statement_position(self.stream(), self.position())
                    == next_statement_position(old(self).stream(), old(self).position()),
            decreases self.tokens.len() - self.current_position,
        {
            if self.tokens[self.current_position].token_type == TokenType::Semicolon {
                return;
            }
            self.advance();
        }
    }

    /// A `break` statement: `break`, then `;` or a loop's name and `;`.
    pub fn break_statement(&mut self) -> (r: Result<BreakStatement, ParserError>)
        requires
            old(self).wf(),
        ensures
            final(self).wf(),
            final(self).stream() == old(self).stream(),
            final(self).position() == break_rule(old(self).stream(), old(self).position()).1,
            match break_rule(old(self).stream(), old(self).position()).0 {
                Ok((token, loop_key)) => r == Ok::<BreakStatement, ParserError>(BreakStatement { token, loop_key }),
                Err(e) => r == Err::<BreakStatement, ParserError>(e),
            },
    {
        let token = self.require(TokenType::Break, "expected 'break' keyword")?;
        let next_token = match self.advance() {
            Some(token) => token,
            None => return Err(ParserError::unexpected_eof(TokenType::Semicolon, "")),
        };
        if next_token.token_type == TokenType::Identifier {
            self.require(TokenType::Semicolon, "")?;
            Ok(BreakStatement { token, loop_key: Some(next_token) })
        } else if next_token.token_type == TokenType::Semicolon {
            Ok(BreakStatement { token, loop_key: None })
        } else {
            Err(ParserError::unexpected_token(next_token, TokenType::Semicolon, "Expected ';' after 'break' keyword"))
        }
    }

    /// A `continue` statement: `continue`, then `;` or a loop's name and `;`.
    pub fn continue_statement(&mut self) -> (r: Result<ContinueStatement, ParserError>)
        requires
            old(self).wf(),
        ensures
            final(self).wf(),
            final(self).stream() == old(self).stream(),
            final(self).position() == continue_rule(old(self).stream(), old(self).position()).1,
            match continue_rule(old(self).stream(), old(self).position()).0 {
                Ok((token, loop_key)) => r == Ok::<ContinueStatement, ParserError>(ContinueStatement { token, loop_key }),
                Err(e) => r == Err::<ContinueStatement, ParserError>(e),
            },
    {
        let token = self.require(TokenType::Continue, "")?;
        let next_token = match self.advance() {
            Some(token) => token,
            None => return Err(ParserError::unexpected_eof(TokenType::Semicolon, "expected ';' after 'continue' keyword")),
        };
        if next_token.token_type == TokenType::Identifier {
            self.require(TokenType::Semicolon, "")?;
            Ok(ContinueStatement { token, loop_key: Some(next_token) })
        } else if next_token.token_type == TokenType::Semicolon {
            Ok(ContinueStatement { token, loop_key: None })
        } else {
            Err(ParserError::unexpected_token(next_token, TokenType::Semicolon, "expected ';' after 'continue' keyword"))
        }
    }
    /// The parameters of a function after its `(`, up to its `)` (not
    /// taken); where `allow_self` holds, `*self` or `*mut self` may come
    /// before the first ordinary parameter. Gives the parameters, whether
    /// a `self` was met, and whether it was `mut`.
    pub fn function_arguments(&mut self, allow_self: bool) -> (r: Result<(Vec<TypedDeclaration>, bool, bool), ParserError>)
        requires
            old(self).wf(),
        ensures
            final(self).wf(),
            final(self).stream() == old(self).stream(),
            final(self).position() == arguments_rule(old(self).stream(), old(self).position(), allow_self, (Seq::empty(), false, false)).1,
            match arguments_rule(old(self).stream(), old(self).position(), allow_self, (Seq::empty(), false, false)).0 {
                Ok((args, is_bound, is_mut_self)) => r matches Ok(found) && found.0@ == args && found.1 == is_bound && found.2 == is_mut_self,
                Err(e) => r == Err::<(Vec<TypedDeclaration>, bool, bool), ParserError>(e),
            },
    {
        let ghost tokens = self.stream();
        let ghost start = self.position();
        let mut is_bound_method = false;
        let mut is_mut_self = false;
        let mut arguments: Vec<TypedDeclaration> = Vec::new();
        loop
            invariant_except_break
                arguments_rule(tokens, start, allow_self, (Seq::empty(), false, false))
                    == arguments_rule(tokens, self.position(), allow_self, (arguments@, is_bound_method, is_mut_self)),
            invariant
                self.wf(),
                self.stream() == tokens,
                tokens == old(self).stream(),
                start == old(self).position(),
            ensures
                arguments_rule(tokens, start, allow_self, (Seq::empty(), false, false))
                    == (Ok::<ArgumentsSoFar, ParserError>((arguments@, is_bound_method, is_mut_self)), self.position()),
            decreases tokens.len() - self.position(),
        {
            let ghost here = self.position();
            let token = match self.peek() {
                Some(token) => token.clone(),
                None => return Err(ParserError::unexpected_eof(TokenType::Identifier, "Expected argument or closing parenthesis")),
            };
            if token.token_type == TokenType::RightParenthesis {
                break;
            }
            if allow_self && arguments.len() < 1 && token.token_type == TokenType::Star {
                self.advance();
                is_bound_method = true;
                let mut_token = match self.peek() {
                    Some(t) => t.clone(),
                    None => return Err(ParserError::unexpected_eof(TokenType::SelfToken, "expected 'self' after * in bound method")),
                };
                if mut_token.token_type == TokenType::Mut {
                    self.advance();
                    is_mut_self = true;
                }
                self.require(TokenType::SelfToken, "expected 'self' after * in bound method")?;
            } else {
                proof {
                    lemma_function_argument_forward(tokens, here, token);
                }
                let typed_declaration = self.function_argument(token)?;
                arguments.push(typed_declaration);
            }
            let is_comma = match self.peek() {
                Some(t) => t.token_type == TokenType::Comma,
                None => return Err(ParserError::unexpected_eof(TokenType::Comma, "expected comma or closing parenthesis")),
            };
            if !is_comma {
                break;
            }
            self.advance();
        }
        Ok((arguments, is_bound_method, is_mut_self))
    }

    /// The end of a function's header: `)`, then `->` and a type
    /// annotation where the function returns a value.
    pub fn function_return_type(&mut self) -> (r: Result<Option<TypeAnnotation>, ParserError>)
        requires
            old(self).wf(),
        ensures
            final(self).wf(),
            final(self).stream() == old(self).stream(),
            (r, final(self).position()) == return_type_rule(old(self).stream(), old(self).position()),
    {
        self.require(TokenType::RightParenthesis, "expected ')' after arguments list")?;
        let has_return_type = match self.peek() {
            Some(token) => token.token_type == TokenType::Arrow,
            None => false,
        };
        if has_return_type {
            self.advance();
            let type_annotation = self.type_annotation(true)?;
            Ok(Some(type_annotation))
        } else {
            Ok(None)
        }
    }

    /// A function's header, up to its body: `fn`, its name, its parameters
    /// in parentheses and its return type. Gives the `fn` token and the
    /// signature.
    pub fn function_signature(&mut self) -> (r: Result<(Token, FunctionSignature), ParserError>)
        requires
            old(self).wf(),
        ensures
            final(self).wf(),
            final(self).stream() == old(self).stream(),
            final(self).position() == function_header_rule(old(self).stream(), old(self).position(), false).1,
            match function_header_rule(old(self).stream(), old(self).position(), false).0 {
                Ok((token, name, arguments, return_type)) => r matches Ok((t, s)) && t == token && s.name == name
                    && s.arguments@ == arguments.0 && s.return_type == return_type,
                Err(e) => r == Err::<(Token, FunctionSignature), ParserError>(e),
            },
    {
        let (token, name) = self.function_start()?;
        let (arguments, _, _) = self.function_arguments(false)?;
        let return_type = self.function_return_type()?;
        Ok((token, FunctionSignature { name, arguments, return_type }))
    }

    /// A header in an `impl` block for `bound_type`, up to its body: a
    /// method where `*self` or `*mut self` comes before the first
    /// parameter, a function otherwise.
    pub fn impl_function_signature(&mut self, bound_type: Token) -> (r: Result<(Token, ImplFunctionSignature), ParserError>)
        requires
            old(self).wf(),
        ensures
            final(self).wf(),
            final(self).stream() == old(self).stream(),
            final(self).position() == function_header_rule(old(self).stream(), old(self).position(), true).1,
            match function_header_rule(old(self).stream(), old(self).position(), true).0 {
                Ok((token, name, (arguments, is_bound, is_mut_self), return_type)) => r matches Ok((t, s)) && t == token && if is_bound {
                    s matches ImplFunctionSignature::Method(m) && m.name == name && m.bound_type == bound_type
                        && m.is_mut_self == is_mut_self && m.arguments@ == arguments && m.return_type == return_type
                } else {
                    s matches ImplFunctionSignature::Function(f) && f.name == name && f.arguments@ == arguments
                        && f.return_type == return_type
                },
                Err(e) => r == Err::<(Token, ImplFunctionSignature), ParserError>(e),
            },
    {
        let (token, name) = self.function_start()?;
        let (arguments, is_bound_method, is_mut_self) = self.function_arguments(true)?;
        let return_type = self.function_return_type()?;
        let signature = if is_bound_method {
            ImplFunctionSignature::Method(MethodSignature { name, bound_type, is_mut_self, arguments, return_type })
        } else {
            ImplFunctionSignature::Function(FunctionSignature { name, arguments, return_type })
        };
        Ok((token, signature))
    }
    /// A number read from a literal token's value text, where it fits under
    /// `max`; the error names `T`, what the number was read as.
    fn token_as_literal(&self, token: &Token, max: u64) -> (r: Result<u64, ParserError>)
        ensures
            match unsigned_text_value(token.literal@) {
                Some(v) => if v <= max {
                    r == Ok::<u64, ParserError>(v as u64)
                } else {
                    r == Err::<u64, ParserError>(ParserError::LiteralParseError(
                        crate::parser::errors::LiteralParseError { token: *token, to: "T" }))
                },
                None => r == Err::<u64, ParserError>(ParserError::LiteralParseError(
                    crate::parser::errors::LiteralParseError { token: *token, to: "T" })),
            },
    {
        match parse_unsigned(token.literal.as_str(), max) {
            Some(v) => Ok(v),
            None => Err(ParserError::literal_parse_error(token.clone(), "T")),
        }
    }

    /// The literal at the position, after comments; the comments after it
    /// are passed over too.
    pub fn literal(&mut self) -> (r: Result<Literal, ParserError>)
        requires
            old(self).wf(),
        ensures
            final(self).wf(),
            final(self).stream() == old(self).stream(),
            (r, final(self).position()) == literal_rule(old(self).stream(), old(self).position()),
    {
        self.advance_skipping_comments();
        let token = match self.peek() {
            Some(token) => token.clone(),
            None => return Err(ParserError::unexpected_eof(TokenType::Identifier, "expected primary token")),
        };
        let literal = match token.token_type {
            TokenType::U8Literal | TokenType::I8Literal => {
                let value = self.token_as_literal(&token, 255)?;
                Literal::U8 { token, value: value as u8 }
            },
            TokenType::U16Literal | TokenType::I16Literal => {
                let value = self.token_as_literal(&token, 65535)?;
                Literal::U16 { token, value: value as u16 }
            },
            TokenType::U32Literal | TokenType::I32Literal => {
                let value = self.token_as_literal(&token, 4294967295)?;
                Literal::U32 { token, value: value as u32 }
            },
            TokenType::U64Literal | TokenType::I64Literal => {
                let value = self.token_as_literal(&token, 18446744073709551615)?;
                Literal::U64 { token, value }
            },
            TokenType::F32Literal => Literal::F32 { token },
            TokenType::F64Literal => Literal::F64 { token },
            TokenType::StringLiteral => {
                let value = token.literal.clone();
                Literal::String { token, value }
            },
            _ => return Err(ParserError::UnexpectedPrimaryExpression(token)),
        };
        self.advance_and_skip_next_comments();
        Ok(literal)
    }
    /// A name used as an expression.
    pub fn identifier(&mut self) -> (r: Result<Expression, ParserError>)
        requires
            old(self).wf(),
        ensures
            final(self).wf(),
            final(self).stream() == old(self).stream(),
            ({
                let (name, p) = spec_require(old(self).stream(), old(self).position(), TokenType::Identifier, "primary identifier");
                &&& final(self).position() == p
                &&& match name {
                    Ok(t) => r == Ok::<Expression, ParserError>(Expression::Identifier(Identifier { name: t })),
                    Err(e) => r == Err::<Expression, ParserError>(e),
                }
            }),
    {
        let name = self.require(TokenType::Identifier, "primary identifier")?;
        Ok(Expression::new_identifier(name))
    }

    /// `self` used as an expression.
    pub fn self_expression(&mut self) -> (r: Result<Expression, ParserError>)
        requires
            old(self).wf(),
        ensures
            final(self).wf(),
            final(self).stream() == old(self).stream(),
            ({
                let (token, p) = spec_require(old(self).stream(), old(self).position(), TokenType::SelfToken, "self primarity identifier");
                &&& final(self).position() == p
                &&& match token {
                    Ok(t) => r == Ok::<Expression, ParserError>(Expression::SelfExpression(SelfExpression { token: t })),
                    Err(e) => r == Err::<Expression, ParserError>(e),
                }
            }),
    {
        let self_token = self.require(TokenType::SelfToken, "self primarity identifier")?;
        Ok(Expression::new_self(self_token))
    }

    /// An empty statement: a lone `;`.
    pub fn empty_statement(&mut self) -> (r: Result<Statement, ParserError>)
        requires
            old(self).wf(),
        ensures
            final(self).wf(),
            final(self).stream() == old(self).stream(),
            ({
                let (token, p) = spec_require(old(self).stream(), old(self).position(), TokenType::Semicolon, "Expected semicolon");
                &&& final(self).position() == p
                &&& match token {
                    Ok(t) => r == Ok::<Statement, ParserError>(Statement::EmptyStatement { semicolon_token: t }),
                    Err(e) => r == Err::<Statement, ParserError>(e),
                }
            }),
    {
        let token = self.require(TokenType::Semicolon, "Expected semicolon")?;
        Ok(Statement::new_empty(token))
    }
}

} // verus!

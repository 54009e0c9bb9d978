use vstd::prelude::*;

use crate::syntax::lexer::{token_display_text, Token};
use crate::syntax::tokens::{token_type_name, TokenType};
use crate::utils::text::{decimal, decimal_string, push_str};

verus! {

/// An error with a message and the place it was found.
#[derive(Debug, Clone)]
pub struct ParseError {
    pub message: String,
    pub line: usize,
    pub column: usize,
    pub position: usize,
}

/// A token other than the one the grammar expects.
#[derive(Debug, Clone)]
pub struct UnexpectedTokenError {
    pub found: Token,
    pub expected: TokenType,
    pub message: &'static str,
}

/// The tokens ran out where the grammar expects one more.
#[derive(Debug, Clone)]
pub struct UnexpectedEofError {
    pub expected: TokenType,
    pub message: &'static str,
}

/// A declaration that needs a type annotation has none.
#[derive(Debug, Clone)]
pub struct TypeAnnotationRequiredError {
    pub identifier: Token,
    pub message: &'static str,
}

/// A declaration that needs an initializer has none.
#[derive(Debug, Clone)]
pub struct InitializerRequiredError {
    pub identifier: Token,
    pub message: &'static str,
}

/// A literal token whose text does not denote a value of its type.
#[derive(Debug, Clone)]
pub struct LiteralParseError {
    pub token: Token,
    pub to: &'static str,
}

/// A struct initializer that sets a field twice.
#[derive(Debug, Clone)]
pub struct DuplicatedStructInitializerFieldError {
    pub struct_name: Token,
    pub field_name: Token,
}

/// An argument that a statement cannot take.
#[derive(Debug, Clone)]
pub struct UnexpectedArgumentError {
    pub receiver: &'static str,
    pub argument: Token,
}

/// The ways parsing can fail.
#[derive(Debug)]
pub enum ParserError {
    EmptyStream,
    UnrecognizedToken(Token),
    UnexpectedToken(UnexpectedTokenError),
    UnexpectedEof(UnexpectedEofError),
    UnexpectedTopLevelStatement(Token),
    UnexpectedStatement(Token),
    TypeAnnotationRequired(TypeAnnotationRequiredError),
    InitializerRequired(InitializerRequiredError),
    DuplicatedStructInitializerField(DuplicatedStructInitializerFieldError),
    LiteralParseError(LiteralParseError),
    UnexpectedPrimaryExpression(Token),
    UnterminatedArraySlice(Token),
    UnexpectedArgument(UnexpectedArgumentError),
    ParseError(ParseError),
    CompoundError(Vec<ParserError>),
}

impl ParserError {
    pub fn unexpected_token(found: Token, expected: TokenType, message: &'static str) -> (r: Self)
        ensures
            r matches ParserError::UnexpectedToken(e) && e.found == found && e.expected == expected && e.message == message,
    {
        Self::UnexpectedToken(UnexpectedTokenError { found, expected, message })
    }

    pub fn unexpected_eof(expected: TokenType, message: &'static str) -> (r: Self)
        ensures
            r matches ParserError::UnexpectedEof(e) && e.expected == expected && e.message == message,
    {
        Self::UnexpectedEof(UnexpectedEofError { expected, message })
    }

    pub fn error(message: String, line: usize, column: usize, position: usize) -> (r: Self)
        ensures
            r matches ParserError::ParseError(e) && e.message == message && e.line == line
                && e.column == column && e.position == position,
    {
        Self::ParseError(ParseError { message, line, column, position })
    }

    pub fn type_annotation_required(identifier: Token, message: &'static str) -> (r: Self)
        ensures
            r matches ParserError::TypeAnnotationRequired(e) && e.identifier == identifier && e.message == message,
    {
        Self::TypeAnnotationRequired(TypeAnnotationRequiredError { identifier, message })
    }

    pub fn initializer_required(identifier: Token, message: &'static str) -> (r: Self)
        ensures
            r matches ParserError::InitializerRequired(e) && e.identifier == identifier && e.message == message,
    {
        Self::InitializerRequired(InitializerRequiredError { identifier, message })
    }

    pub fn literal_parse_error(token: Token, to: &'static str) -> (r: Self)
        ensures
            r matches ParserError::LiteralParseError(e) && e.token == token && e.to == to,
    {
        Self::LiteralParseError(LiteralParseError { token, to })
    }

    pub fn duplicated_struct_initializer_field(struct_name: Token, field_name: Token) -> (r: Self)
        ensures
            r matches ParserError::DuplicatedStructInitializerField(e) && e.struct_name == struct_name
                && e.field_name == field_name,
    {
        Self::DuplicatedStructInitializerField(DuplicatedStructInitializerFieldError { struct_name, field_name })
    }

    pub fn unexpected_argument(receiver: &'static str, argument: Token) -> (r: Self)
        ensures
            r matches ParserError::UnexpectedArgument(e) && e.receiver == receiver && e.argument == argument,
    {
        Self::UnexpectedArgument(UnexpectedArgumentError { receiver, argument })
    }

    /// The error for a `defer` whose argument cannot be called.
    pub fn defer_non_callable_argument(argument: Token) -> (r: Self)
        ensures
            r matches ParserError::UnexpectedArgument(e) && e.receiver@ == "defer"@ && e.argument == argument,
    {
        Self::unexpected_argument("defer", argument)
    }
}

/// An error as messages write it.
pub open spec fn parser_error_text(e: ParserError) -> Seq<char>
    decreases e, 1nat,
{
    match e {
        ParserError::EmptyStream => "Empty stream"@,
        ParserError::UnrecognizedToken(t) => "Unrecognized token: "@ + token_display_text(t),
        ParserError::UnexpectedToken(u) => "unexpected token: expected "@ + token_type_name(u.expected) + " ["@
            + u.message@ + "] but got "@ + token_display_text(u.found),
        ParserError::UnexpectedEof(u) => "unexpected end of stream: expected "@ + token_type_name(u.expected) + " ["@
            + u.message@ + "]"@,
        ParserError::UnexpectedTopLevelStatement(t) => "unexpected top level statement: "@ + token_display_text(t),
        ParserError::UnexpectedStatement(t) => "Unexpected statement "@ + token_display_text(t),
        ParserError::TypeAnnotationRequired(t) => "expected type annotation for "@ + token_display_text(t.identifier)
            + " ["@ + t.message@ + "]"@,
        ParserError::InitializerRequired(t) => "expected initializer for "@ + token_display_text(t.identifier) + " ["@
            + t.message@ + "]"@,
        ParserError::DuplicatedStructInitializerField(d) => "duplicated struct initializer field "@
            + token_display_text(d.field_name) + " for "@ + token_display_text(d.struct_name),
        ParserError::LiteralParseError(l) => "couldn't parse literal from token "@ + token_display_text(l.token)
            + " into "@ + l.to@,
        ParserError::UnexpectedPrimaryExpression(t) => "unexpected primary expression token "@ + token_display_text(t),
        ParserError::UnterminatedArraySlice(t) => "unterminated array slice for "@ + token_display_text(t),
        ParserError::UnexpectedArgument(a) => a.receiver@ + " received unexpected argument "@ + token_display_text(a.argument),
        ParserError::ParseError(p) => "Uncategorized error: "@ + p.message@ + " at p"@ + decimal(p.position as nat) + ":l"@
            + decimal(p.line as nat) + ":c"@ + decimal(p.column as nat),
        ParserError::CompoundError(errors) => numbered_error_texts(errors@),
    }
}

/// Each error of the list on lines of its own: its number from 1, a colon,
/// then the error on the next line after a tab.
pub open spec fn numbered_error_texts(errors: Seq<ParserError>) -> Seq<char>
    decreases errors, 0nat,
{
    if errors.len() == 0 {
        Seq::empty()
    } else {
        numbered_error_texts(errors.drop_last()) + decimal(errors.len()) + ":\n\t"@
            + parser_error_text(errors.last()) + "\n"@
    }
}

impl ParserError {
    /// The error as messages write it.
    pub fn display_string(&self) -> (r: String)
        ensures
            r@ == parser_error_text(*self),
        decreases self,
    {
        let mut out = String::new();
        match self {
            ParserError::EmptyStream => push_str(&mut out, "Empty stream"),
            ParserError::UnrecognizedToken(t) => {
                push_str(&mut out, "Unrecognized token: ");
                push_str(&mut out, t.display_string().as_str());
            },
            ParserError::UnexpectedToken(u) => {
                push_str(&mut out, "unexpected token: expected ");
                push_str(&mut out, u.expected.debug_name());
                push_str(&mut out, " [");
                push_str(&mut out, u.message);
                push_str(&mut out, "] but got ");
                push_str(&mut out, u.found.display_string().as_str());
            },
            ParserError::UnexpectedEof(u) => {
                push_str(&mut out, "unexpected end of stream: expected ");
                push_str(&mut out, u.expected.debug_name());
                push_str(&mut out, " [");
                push_str(&mut out, u.message);
                push_str(&mut out, "]");
            },
            ParserError::UnexpectedTopLevelStatement(t) => {
                push_str(&mut out, "unexpected top level statement: ");
                push_str(&mut out, t.display_string().as_str());
            },
            ParserError::UnexpectedStatement(t) => {
                push_str(&mut out, "Unexpected statement ");
                push_str(&mut out, t.display_string().as_str());
            },
            ParserError::TypeAnnotationRequired(t) => {
                push_str(&mut out, "expected type annotation for ");
                push_str(&mut out, t.identifier.display_string().as_str());
                push_str(&mut out, " [");
                push_str(&mut out, t.message);
                push_str(&mut out, "]");
            },
            ParserError::InitializerRequired(t) => {
                push_str(&mut out, "expected initializer for ");
                push_str(&mut out, t.identifier.display_string().as_str());
                push_str(&mut out, " [");
                push_str(&mut out, t.message);
                push_str(&mut out, "]");
            },
            ParserError::DuplicatedStructInitializerField(d) => {
                push_str(&mut out, "duplicated struct initializer field ");
                push_str(&mut out, d.field_name.display_string().as_str());
                push_str(&mut out, " for ");
                push_str(&mut out, d.struct_name.display_string().as_str());
            },
            ParserError::LiteralParseError(l) => {
                push_str(&mut out, "couldn't parse literal from token ");
                push_str(&mut out, l.token.display_string().as_str());
                push_str(&mut out, " into ");
                push_str(&mut out, l.to);
            },
            ParserError::UnexpectedPrimaryExpression(t) => {
                push_str(&mut out, "unexpected primary expression token ");
                push_str(&mut out, t.display_string().as_str());
            },
            ParserError::UnterminatedArraySlice(t) => {
                push_str(&mut out, "unterminated array slice for ");
                push_str(&mut out, t.display_string().as_str());
            },
            ParserError::UnexpectedArgument(a) => {
                push_str(&mut out, a.receiver);
                push_str(&mut out, " received unexpected argument ");
                push_str(&mut out, a.argument.display_string().as_str());
            },
            ParserError::ParseError(p) => {
                push_str(&mut out, "Uncategorized error: ");
                push_str(&mut out, p.message.as_str());
                push_str(&mut out, " at p");
                push_str(&mut out, decimal_string(p.position as u64).as_str());
                push_str(&mut out, ":l");
                push_str(&mut out, decimal_string(p.line as u64).as_str());
                push_str(&mut out, ":c");
                push_str(&mut out, decimal_string(p.column as u64).as_str());
            },
            ParserError::CompoundError(errors) => {
                let mut i: usize = 0;
                while i < errors.len()
                    invariant
                        i <= errors@.len(),
                        out@ == numbered_error_texts(errors@.take(i as int)),
                        *self is CompoundError,
                        self->CompoundError_0 == *errors,
                    decreases errors.len() - i,
                {
                    proof {
                        assert(errors@.take(i + 1).drop_last() == errors@.take(i as int));
                    }
                    push_str(&mut out, decimal_string((i + 1) as u64).as_str());
                    push_str(&mut out, ":\n\t");
                    proof {
                        assert(decreases_to!(*self => self->CompoundError_0));
                        assert(decreases_to!(*errors => errors@));
                        assert(decreases_to!(errors@ => errors@[i as int]));
                    }
                    push_str(&mut out, errors[i].display_string().as_str());
                    push_str(&mut out, "\n");
                    i = i + 1;
                }
                proof {
                    assert(errors@.take(i as int) == errors@);
                }
            },
        }
        out
    }
}

} // verus!

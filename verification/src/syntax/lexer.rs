use vstd::prelude::*;

use crate::syntax::lexer_model::{
    lemma_postfix_consumed,
    is_alphanumeric, is_identifier_char, is_whitespace, spec_can_start_identifier,
    spec_is_ascii_alphabetic, spec_is_ascii_digit, spec_lex, spec_lex_from, spec_lex_rest, spec_lex_whole, spec_make_token,
    spec_multi_line_comment, spec_next_token, spec_number_postfix, spec_parse_character_literal,
    spec_parse_double_token, spec_parse_identifier, spec_parse_number, spec_parse_quoted,
    spec_parse_simple_token, spec_single_line_comment, spec_try_convert_to_double_keyword,
    LexError, LexState,
};
use crate::syntax::tokens::{
    double_keyword, double_token_default, double_token_follow, is_escape_character,
    keyword_type, number_postfix_type, simple_token_type, token_type_name, TokenType,
};
use crate::utils::text::{decimal, decimal_string, push_char, push_str};

verus! {

/// A token together with where it starts and ends in the source.
#[derive(Debug)]
pub struct Token {
    pub start_line: usize,
    pub start_column: usize,
    pub end_line: usize,
    pub end_column: usize,
    pub token_type: TokenType,
    pub lexeme: String,
    pub literal: String,
}

/// The mathematical value of a [`Token`].
pub struct TokenV {
    pub start_line: int,
    pub start_column: int,
    pub end_line: int,
    pub end_column: int,
    pub token_type: TokenType,
    pub lexeme: Seq<char>,
    pub literal: Seq<char>,
}

impl View for Token {
    type V = TokenV;

    open spec fn view(&self) -> TokenV {
        TokenV {
            start_line: self.start_line as int,
            start_column: self.start_column as int,
            end_line: self.end_line as int,
            end_column: self.end_column as int,
            token_type: self.token_type,
            lexeme: self.lexeme@,
            literal: self.literal@,
        }
    }
}

/// The token that [`Token::empty`] and `Token::default` build.
pub open spec fn empty_token_v() -> TokenV {
    TokenV {
        start_line: 0,
        start_column: 0,
        end_line: 0,
        end_column: 0,
        token_type: TokenType::EOF,
        lexeme: Seq::empty(),
        literal: Seq::empty(),
    }
}

impl Clone for Token {
    fn clone(&self) -> (r: Self)
        ensures
            r == *self,
    {
        Token {
            start_line: self.start_line,
            start_column: self.start_column,
            end_line: self.end_line,
            end_column: self.end_column,
            token_type: self.token_type,
            lexeme: self.lexeme.clone(),
            literal: self.literal.clone(),
        }
    }
}

/// A token as messages write it: its type's name, its text and its value,
/// then where it starts.
pub open spec fn token_display_text(t: Token) -> Seq<char> {
    token_type_name(t.token_type) + ":"@ + t.lexeme@ + ":"@ + t.literal@ + " at "@
        + decimal(t.start_line as nat) + ":"@ + decimal(t.start_column as nat)
}

impl Token {
    /// The token as messages write it.
    pub fn display_string(&self) -> (r: String)
        ensures
            r@ == token_display_text(*self),
    {
        let mut out = String::new();
        push_str(&mut out, self.token_type.debug_name());
        push_str(&mut out, ":");
        push_str(&mut out, self.lexeme.as_str());
        push_str(&mut out, ":");
        push_str(&mut out, self.literal.as_str());
        push_str(&mut out, " at ");
        let line = decimal_string(self.start_line as u64);
        push_str(&mut out, line.as_str());
        push_str(&mut out, ":");
        let column = decimal_string(self.start_column as u64);
        push_str(&mut out, column.as_str());
        proof {
            assert(out@ == token_display_text(*self));
        }
        out
    }
}

impl Default for Token {
    fn default() -> (r: Self)
        ensures
            r@ == empty_token_v(),
    {
        Token {
            start_line: 0,
            start_column: 0,
            end_line: 0,
            end_column: 0,
            token_type: TokenType::EOF,
            lexeme: String::new(),
            literal: String::new(),
        }
    }
}

impl Token {
    /// A token of type `EOF` with empty text at position 0:0.
    pub fn empty() -> (r: Self)
        ensures
            r@ == empty_token_v(),
    {
        Self::default()
    }

    /// A token built by running `builder` on the empty token.
    pub fn new_with<T>(builder: T) -> (r: Self)
        where T: FnOnce(&mut Self)
        requires
            forall|m: &mut Token| (*m)@ == empty_token_v() ==> builder.requires((m,)),
        ensures
            exists|m: &mut Token|
                (*m)@ == empty_token_v() && *final(m) == r && builder.ensures((m,), ()),
    {
        let mut token = Self::default();
        token.replace(builder);
        token
    }

    /// A token of the given type and text that starts and ends at the given position.
    pub fn new(
        token_type: TokenType,
        lexeme: String,
        literal: String,
        start_line: usize,
        start_column: usize,
    ) -> (r: Self)
        ensures
            r@ == (TokenV {
                start_line: start_line as int,
                start_column: start_column as int,
                end_line: start_line as int,
                end_column: start_column as int,
                token_type,
                lexeme: lexeme@,
                literal: literal@,
            }),
    {
        Self {
            start_line,
            start_column,
            end_line: start_line,
            end_column: start_column,
            token_type,
            lexeme,
            literal,
        }
    }

    /// Runs `builder` on this token.
    pub fn replace<T>(&mut self, builder: T)
        where T: FnOnce(&mut Self)
        requires
            forall|m: &mut Token| *m == *old(self) ==> builder.requires((m,)),
        ensures
            exists|m: &mut Token|
                *m == *old(self) && *final(m) == *final(self) && builder.ensures((m,), ()),
    {
        builder(self);
    }

    /// Runs `builder` on this token and returns a copy of the result.
    pub fn with<T>(&mut self, builder: T) -> (r: Self)
        where T: FnOnce(&mut Self)
        requires
            forall|m: &mut Token| *m == *old(self) ==> builder.requires((m,)),
        ensures
            exists|m: &mut Token|
                *m == *old(self) && *final(m) == *final(self) && builder.ensures((m,), ()),
            r == *final(self),
    {
        self.replace(builder);
        self.clone()
    }

    /// The start position, written `line:column`.
    pub fn at(&self) -> (r: String)
        ensures
            r@ == decimal(self.start_line as nat) + seq![':'] + decimal(self.start_column as nat),
    {
        let mut r = decimal_string(self.start_line as u64);
        push_char(&mut r, ':');
        let column = decimal_string(self.start_column as u64);
        r.append(column.as_str());
        r
    }

    /// The start and end positions, written `line:column to line:column`.
    pub fn at_from(&self) -> (r: String)
        ensures
            r@ == decimal(self.start_line as nat) + seq![':'] + decimal(self.start_column as nat)
                + seq![' ', 't', 'o', ' '] + decimal(self.end_line as nat) + seq![':']
                + decimal(self.end_column as nat),
    {
        let mut r = self.at();
        push_char(&mut r, ' ');
        push_char(&mut r, 't');
        push_char(&mut r, 'o');
        push_char(&mut r, ' ');
        let line = decimal_string(self.end_line as u64);
        r.append(line.as_str());
        push_char(&mut r, ':');
        let column = decimal_string(self.end_column as u64);
        r.append(column.as_str());
        assert(r@ =~= decimal(self.start_line as nat) + seq![':'] + decimal(self.start_column as nat)
                + seq![' ', 't', 'o', ' '] + decimal(self.end_line as nat) + seq![':']
                + decimal(self.end_column as nat));
        r
    }
}


/// The value of an optional token.
pub open spec fn option_token_v(t: Option<Token>) -> Option<TokenV> {
    match t {
        Some(t) => Some(t@),
        None => None,
    }
}

/// The values of a sequence of tokens.
pub open spec fn tokens_v(tokens: Seq<Token>) -> Seq<TokenV> {
    tokens.map_values(|t: Token| t@)
}

/// Cuts a stream of characters into tokens.
pub struct Lexer {
    stream: Vec<char>,
    start_position: usize,
    current_position: usize,
    token_start_line: usize,
    token_start_column: usize,
    current_line: usize,
    current_column: usize,
}

impl View for Lexer {
    type V = LexState;

    closed spec fn view(&self) -> LexState {
        LexState {
            s: self.stream@,
            start: self.start_position as int,
            cur: self.current_position as int,
            tline: self.token_start_line as int,
            tcol: self.token_start_column as int,
            line: self.current_line as int,
            col: self.current_column as int,
        }
    }
}

/// Whether `c` is an ASCII decimal digit.
pub fn is_ascii_digit(c: char) -> (r: bool)
    ensures
        r == spec_is_ascii_digit(c),
{
    '0' <= c && c <= '9'
}

/// Whether `c` is an ASCII letter.
pub fn is_ascii_alphabetic(c: char) -> (r: bool)
    ensures
        r == spec_is_ascii_alphabetic(c),
{
    ('a' <= c && c <= 'z') || ('A' <= c && c <= 'Z')
}

impl Lexer {
    /// A lexer at the start of `stream`, at line 1, column 1.
    pub fn new(stream: String) -> (r: Self)
        requires
            stream@.len() < usize::MAX,
        ensures
            r@ == LexState::initial(stream@),
            r@.wf(),
    {
        let chars = crate::utils::text::chars_of(stream.as_str());
        Self {
            stream: chars,
            start_position: 0,
            current_position: 0,
            token_start_line: 1,
            token_start_column: 1,
            current_line: 1,
            current_column: 1,
        }
    }

    /// The current position, written `line:column`.
    fn at(&self) -> (r: String)
        ensures
            r@ == decimal(self@.line as nat) + seq![':'] + decimal(self@.col as nat),
    {
        let mut r = decimal_string(self.current_line as u64);
        push_char(&mut r, ':');
        let column = decimal_string(self.current_column as u64);
        r.append(column.as_str());
        r
    }

    pub fn is_at_end(&self) -> (r: bool)
        ensures
            r == self@.at_end(),
    {
        self.current_position >= self.stream.len()
    }

    /// The next character, or `'\0'` at the end.
    pub fn peek(&self) -> (r: char)
        ensures
            r == self@.peek(),
    {
        if self.current_position < self.stream.len() {
            self.stream[self.current_position]
        } else {
            '\0'
        }
    }

    /// The character `offset` places ahead, or `'\0'` past the end.
    pub fn peek_ahead(&self, offset: usize) -> (r: char)
        requires
            self@.cur + offset <= usize::MAX,
        ensures
            r == self@.peek_at(offset as int),
    {
        let position = self.current_position + offset;
        if position < self.stream.len() {
            self.stream[position]
        } else {
            '\0'
        }
    }

    /// Skips whitespace and returns the next character, if any.
    pub fn peek_skip_whitespaces(&mut self) -> (r: Option<char>)
        requires
            old(self)@.wf(),
        ensures
            final(self)@.wf(),
            final(self)@ == old(self)@.skip_ws(),
            r == (if final(self)@.peek() == '\0' { None } else { Some(final(self)@.peek()) }),
    {
        self.skip_whitespaces();
        let c = self.peek();
        if c == '\0' {
            None
        } else {
            Some(c)
        }
    }

    /// Moves past the next character and returns it; at the end, stays and returns `'\0'`.
    pub fn advance(&mut self) -> (r: char)
        requires
            old(self)@.wf(),
        ensures
            final(self)@.wf(),
            final(self)@ == old(self)@.advanced(),
            r == old(self)@.peek(),
    {
        if self.is_at_end() {
            return '\0';
        }
        let c = self.peek();
        if c == '\n' {
            self.current_line = self.current_line + 1;
            self.current_column = 1;
        }
        self.current_position = self.current_position + 1;
        self.current_column = self.current_column + 1;
        c
    }

    fn try_require(&mut self, required_character: char) -> (r: Result<char, LexError>)
        requires
            old(self)@.wf(),
        ensures
            final(self)@.wf(),
            match r {
                Ok(c) => c == required_character && old(self)@.required(required_character) == Ok::<LexState, LexError>(final(self)@),
                Err(e) => old(self)@.required(required_character) == Err::<LexState, LexError>(e),
            },
    {
        let c = self.advance();
        if c != required_character {
            return Err(LexError::UnexpectedCharacter { expected: required_character, found: c });
        }
        Ok(c)
    }

    /// Moves past the next character, which must be `required_character`.
    pub fn require(&mut self, required_character: char) -> (r: char)
        requires
            old(self)@.wf(),
            old(self)@.peek() == required_character,
        ensures
            final(self)@.wf(),
            final(self)@ == old(self)@.advanced(),
            r == required_character,
    {
        self.advance()
    }

    fn pin_position(&mut self)
        requires
            old(self)@.wf(),
        ensures
            final(self)@.wf(),
            final(self)@ == old(self)@.pinned(),
    {
        self.token_start_line = self.current_line;
        self.token_start_column = self.current_column;
    }

    fn extract(&self, start: usize, end: usize) -> (r: String)
        requires
            start <= end <= self@.s.len(),
        ensures
            r@ == self@.s.subrange(start as int, end as int),
    {
        let mut r = String::new();
        let mut i = start;
        while i < end
            invariant
                start <= i <= end <= self.stream@.len(),
                r@ == self.stream@.subrange(start as int, i as int),
            decreases end - i,
        {
            push_char(&mut r, self.stream[i]);
            i = i + 1;
            assert(r@ =~= self.stream@.subrange(start as int, i as int));
        }
        r
    }

    fn up_to_current_position(&self) -> (r: String)
        requires
            self@.wf(),
        ensures
            r@ == self@.lexeme(),
    {
        self.extract(self.start_position, self.current_position)
    }

    fn up_to_current_position_from(&self, start: usize) -> (r: String)
        requires
            self@.wf(),
            start <= self@.cur,
        ensures
            r@ == self@.s.subrange(start as int, self@.cur),
    {
        self.extract(start, self.current_position)
    }

    fn skip_whitespaces(&mut self)
        requires
            old(self)@.wf(),
        ensures
            final(self)@.wf(),
            final(self)@ == old(self)@.skip_ws(),
    {
        while self.peek() != '\0' && is_whitespace(self.peek())
            invariant
                self@.wf(),
                self@.skip_ws() == old(self)@.skip_ws(),
            decreases self@.s.len() - self@.cur,
        {
            self.advance();
        }
    }

    fn parse_single_line_comment(&mut self) -> (r: String)
        requires
            old(self)@.wf(),
        ensures
            final(self)@.wf(),
            spec_single_line_comment(old(self)@) == (final(self)@, r@),
    {
        let start = self.current_position;
        while self.peek() != '\n' && !self.is_at_end()
            invariant
                self@.wf(),
                self@.s == old(self)@.s,
                start == old(self)@.cur <= self@.cur,
                self@.line_rest() == old(self)@.line_rest(),
            decreases self@.s.len() - self@.cur,
        {
            self.advance();
        }
        self.advance();
        self.up_to_current_position_from(start)
    }

    fn parse_multi_line_comment(&mut self) -> (r: Result<String, LexError>)
        requires
            old(self)@.wf(),
        ensures
            final(self)@.wf(),
            match r {
                Ok(text) => spec_multi_line_comment(old(self)@) == Ok::<(LexState, Seq<char>), LexError>((final(self)@, text@)),
                Err(e) => spec_multi_line_comment(old(self)@) == Err::<(LexState, Seq<char>), LexError>(e),
            },
    {
        let start = self.current_position;
        loop
            invariant
                self@.wf(),
                self@.s == old(self)@.s,
                start == old(self)@.cur <= self@.cur,
                self@.comment_close() == old(self)@.comment_close(),
            decreases self@.s.len() - self@.cur,
        {
            if self.is_at_end() {
                return Err(LexError::UnterminatedMultilineComment);
            }
            let c = self.peek();
            if c == '*' && self.peek_ahead(1) == '/' {
                let comment_literal = self.up_to_current_position_from(start);
                self.advance();
                self.advance();
                return Ok(comment_literal);
            }
            self.advance();
        }
    }

    pub fn try_parse_double_token(&mut self) -> (r: Result<Option<Token>, LexError>)
        requires
            old(self)@.wf(),
        ensures
            final(self)@.wf(),
            match r {
                Ok(t) => spec_parse_double_token(old(self)@) == Ok::<(LexState, Option<TokenV>), LexError>((final(self)@, option_token_v(t))),
                Err(e) => spec_parse_double_token(old(self)@) == Err::<(LexState, Option<TokenV>), LexError>(e),
            },
    {
        let c = match self.peek_skip_whitespaces() {
            Some(c) => c,
            None => return Ok(None),
        };
        let single = match double_token_default(c) {
            Some(t) => t,
            None => return Ok(None),
        };
        self.advance();
        let next = self.peek();
        let token_type = match double_token_follow(c, next) {
            Some(double) => {
                self.advance();
                double
            },
            None => single,
        };
        let literal = if token_type == TokenType::SingleLineComment {
            self.parse_single_line_comment()
        } else if token_type == TokenType::MultilineCommentStart {
            match self.parse_multi_line_comment() {
                Ok(text) => text,
                Err(e) => return Err(e),
            }
        } else if token_type == TokenType::MultilineCommentEnd {
            return Err(LexError::UnexpectedMultilineCommentEnd);
        } else {
            String::new()
        };
        Ok(Some(self.make_token(token_type, literal)))
    }

    /// Reads a token of one or two characters whose first character may
    /// start a longer token, together with the comment it opens, if any.
    pub fn parse_double_token(&mut self) -> (r: Option<Token>)
        requires
            old(self)@.wf(),
            spec_parse_double_token(old(self)@) is Ok,
        ensures
            final(self)@.wf(),
            spec_parse_double_token(old(self)@) == Ok::<(LexState, Option<TokenV>), LexError>((final(self)@, option_token_v(r))),
    {
        match self.try_parse_double_token() {
            Ok(t) => t,
            Err(_) => None,
        }
    }

    /// Reads a token of a single character, if one comes next.
    pub fn parse_simple_token(&mut self) -> (r: Option<Token>)
        requires
            old(self)@.wf(),
        ensures
            final(self)@.wf(),
            spec_parse_simple_token(old(self)@) == (final(self)@, option_token_v(r)),
    {
        let c = match self.peek_skip_whitespaces() {
            Some(c) => c,
            None => return None,
        };
        self.pin_position();
        let token_type = match simple_token_type(c) {
            Some(t) => t,
            None => return None,
        };
        self.advance();
        Some(self.make_token(token_type, String::new()))
    }

    /// The token of the given type and literal whose text was read since the token started.
    pub fn make_token(&self, token_type: TokenType, literal: String) -> (r: Token)
        requires
            self@.wf(),
        ensures
            r@ == spec_make_token(self@, token_type, literal@),
    {
        Token {
            token_type,
            start_line: self.token_start_line,
            end_line: self.current_line,
            start_column: self.token_start_column,
            end_column: self.current_column,
            lexeme: self.up_to_current_position(),
            literal,
        }
    }

    /// Reads an identifier or a keyword.
    pub fn parse_identifier(&mut self) -> (r: Token)
        requires
            old(self)@.wf(),
        ensures
            final(self)@.wf(),
            spec_parse_identifier(old(self)@) == (final(self)@, r@),
    {
        let mut chars: Vec<char> = Vec::new();
        while !self.is_at_end() && (is_ascii_alphabetic(self.peek()) || is_ascii_digit(self.peek())
            || is_alphanumeric(self.peek()) || self.peek() == '_')
            invariant
                self@.wf(),
                self@.s == old(self)@.s,
                old(self)@.cur <= self@.cur,
                chars@ == self@.s.subrange(old(self)@.cur, self@.cur),
                self@.ident_run() == old(self)@.ident_run(),
                self@.start == old(self)@.start,
                self@.tline == old(self)@.tline,
                self@.tcol == old(self)@.tcol,
            decreases self@.s.len() - self@.cur,
        {
            let c = self.advance();
            chars.push(c);
            assert(chars@ =~= self@.s.subrange(old(self)@.cur, self@.cur));
        }
        match keyword_type(chars.as_slice()) {
            Some(token_type) => self.make_token(token_type, String::new()),
            None => {
                let identifier = crate::utils::text::string_from_chars(chars.as_slice());
                self.make_token(TokenType::Identifier, identifier)
            },
        }
    }

    fn extract_digits(&mut self) -> (r: String)
        requires
            old(self)@.wf(),
        ensures
            final(self)@.wf(),
            final(self)@ == old(self)@.digit_run(),
            r@ == old(self)@.s.subrange(old(self)@.cur, final(self)@.cur),
    {
        let start = self.current_position;
        while is_ascii_digit(self.peek())
            invariant
                self@.wf(),
                self@.s == old(self)@.s,
                start == old(self)@.cur <= self@.cur,
                self@.digit_run() == old(self)@.digit_run(),
            decreases self@.s.len() - self@.cur,
        {
            self.advance();
        }
        self.up_to_current_position_from(start)
    }

    fn parse_number_postfix(&mut self) -> (r: Result<Option<TokenType>, LexError>)
        requires
            old(self)@.wf(),
        ensures
            final(self)@.wf(),
            match r {
                Ok(t) => spec_number_postfix(old(self)@) == Ok::<(LexState, Option<TokenType>), LexError>((final(self)@, t)),
                Err(e) => spec_number_postfix(old(self)@) == Err::<(LexState, Option<TokenType>), LexError>(e),
            },
    {
        let c = self.peek();
        if !(c == 'i' || c == 'u' || c == 'f') {
            return Ok(None);
        }
        let postfix_start = self.advance();
        let digits_start = self.current_position;
        proof {
            crate::syntax::lexer_model::lemma_digit_run_forward(self@);
        }
        let _ = self.extract_digits();
        assert(seq![postfix_start] + self@.s.subrange(digits_start as int, digits_start as int) =~= seq![postfix_start]);
        let mut postfix: Vec<char> = Vec::new();
        postfix.push(postfix_start);
        let mut i = digits_start;
        while i < self.current_position
            invariant
                self@.wf(),
                digits_start <= i <= self@.cur,
                postfix@ == seq![postfix_start] + self@.s.subrange(digits_start as int, i as int),
            decreases self@.cur - i,
        {
            postfix.push(self.stream[i]);
            i = i + 1;
            assert(postfix@ =~= seq![postfix_start] + self@.s.subrange(digits_start as int, i as int));
        }
        match number_postfix_type(postfix.as_slice()) {
            Some(literal_type) => Ok(Some(literal_type)),
            None => Err(LexError::UnexpectedNumberPostfix),
        }
    }

    fn try_parse_number(&mut self) -> (r: Result<Token, LexError>)
        requires
            old(self)@.wf(),
        ensures
            final(self)@.wf(),
            match r {
                Ok(t) => spec_parse_number(old(self)@) == Ok::<(LexState, TokenV), LexError>((final(self)@, t@)),
                Err(e) => spec_parse_number(old(self)@) == Err::<(LexState, TokenV), LexError>(e),
            },
    {
        let is_signed = if self.peek() == '-' {
            self.advance();
            true
        } else {
            false
        };
        let default_type = if is_signed {
            TokenType::I32
        } else {
            TokenType::U32
        };
        let _decimal_part = self.extract_digits();
        if self.peek() == '.' {
            let _float_point = self.advance();
            let _floating_point_part = self.extract_digits();
            let ghost before_postfix = self@;
            match self.parse_number_postfix() {
                Err(e) => Err(e),
                Ok(Some(literal_type)) => {
                    if literal_type == TokenType::F32Literal || literal_type == TokenType::F64Literal {
                        proof {
                            lemma_postfix_consumed(before_postfix, literal_type);
                        }
                        let number_literal = self.extract(self.start_position, self.current_position - 3);
                        Ok(self.make_token(literal_type, number_literal))
                    } else {
                        Err(LexError::ExpectedFloatPostfix)
                    }
                },
                Ok(None) => {
                    let number_literal = self.up_to_current_position();
                    Ok(self.make_token(TokenType::F32, number_literal))
                },
            }
        } else {
            let ghost before_postfix = self@;
            match self.parse_number_postfix() {
                Err(e) => Err(e),
                Ok(Some(literal_type)) => {
                    let unsigned = literal_type == TokenType::U8Literal || literal_type == TokenType::U16Literal
                        || literal_type == TokenType::U32Literal || literal_type == TokenType::U64Literal;
                    if unsigned && is_signed {
                        return Err(LexError::UnsignedPostfixForSignedInteger);
                    }
                    let postfix_length: usize = if literal_type == TokenType::I8Literal || literal_type == TokenType::U8Literal {
                        2
                    } else {
                        3
                    };
                    proof {
                        lemma_postfix_consumed(before_postfix, literal_type);
                    }
                    let number_literal = self.extract(self.start_position, self.current_position - postfix_length);
                    Ok(self.make_token(literal_type, number_literal))
                },
                Ok(None) => {
                    let number_literal = self.up_to_current_position();
                    Ok(self.make_token(default_type, number_literal))
                },
            }
        }
    }

    /// Reads a number literal: an optional `-`, digits, an optional decimal
    /// point and digits, and an optional type suffix.
    pub fn parse_number(&mut self) -> (r: Token)
        requires
            old(self)@.wf(),
            spec_parse_number(old(self)@) is Ok,
        ensures
            final(self)@.wf(),
            spec_parse_number(old(self)@) == Ok::<(LexState, TokenV), LexError>((final(self)@, r@)),
    {
        match self.try_parse_number() {
            Ok(t) => t,
            Err(_) => Token::empty(),
        }
    }

    fn try_parse_character_literal(&mut self) -> (r: Result<Token, LexError>)
        requires
            old(self)@.wf(),
        ensures
            final(self)@.wf(),
            match r {
                Ok(t) => spec_parse_character_literal(old(self)@) == Ok::<(LexState, TokenV), LexError>((final(self)@, t@)),
                Err(e) => spec_parse_character_literal(old(self)@) == Err::<(LexState, TokenV), LexError>(e),
            },
    {
        let start = self.current_position;
        if let Err(e) = self.try_require('\'') {
            return Err(e);
        }
        if self.peek() == '\\' {
            let escaped_c = self.advance();
            if !is_escape_character(escaped_c) {
                return Err(LexError::UnexpectedEscapedCharacter(escaped_c));
            }
        } else {
            let c = self.advance();
            if c == '\'' {
                return Err(LexError::EmptyCharacterLiteral);
            }
        }
        if let Err(e) = self.try_require('\'') {
            return Err(e);
        }
        let literal = self.extract(start + 1, self.current_position - 1);
        Ok(self.make_token(TokenType::CharLiteral, literal))
    }

    /// Reads a character literal between single quotes.
    pub fn parse_character_literal(&mut self) -> (r: Token)
        requires
            old(self)@.wf(),
            spec_parse_character_literal(old(self)@) is Ok,
        ensures
            final(self)@.wf(),
            spec_parse_character_literal(old(self)@) == Ok::<(LexState, TokenV), LexError>((final(self)@, r@)),
    {
        match self.try_parse_character_literal() {
            Ok(t) => t,
            Err(_) => Token::empty(),
        }
    }

    fn try_parse_quoted(&mut self, quote: char, single_line: bool) -> (r: Result<Token, LexError>)
        requires
            old(self)@.wf(),
            quote != '\0',
            quote != '\n',
        ensures
            final(self)@.wf(),
            match r {
                Ok(t) => spec_parse_quoted(old(self)@, quote, single_line) == Ok::<(LexState, TokenV), LexError>((final(self)@, t@)),
                Err(e) => spec_parse_quoted(old(self)@, quote, single_line) == Err::<(LexState, TokenV), LexError>(e),
            },
    {
        let start = self.current_position;
        if let Err(e) = self.try_require(quote) {
            return Err(e);
        }
        loop
            invariant_except_break
                self@.string_close(quote, single_line) == old(self)@.advanced().string_close(quote, single_line),
            invariant
                self@.wf(),
                self@.s == old(self)@.s,
                start + 1 == old(self)@.cur + 1 <= self@.cur,
                old(self)@.required(quote) == Ok::<LexState, LexError>(old(self)@.advanced()),
            ensures
                old(self)@.advanced().string_close(quote, single_line) == Ok::<LexState, LexError>(self@),
                start + 2 <= self@.cur,
            decreases self@.s.len() - self@.cur,
        {
            if self.is_at_end() {
                return Err(LexError::UnterminatedStringLiteral);
            }
            let c = self.advance();
            if single_line && c == '\n' {
                return Err(LexError::UnterminatedStringLiteral);
            }
            if c == quote {
                break;
            }
        }
        let string_literal = self.extract(start + 1, self.current_position - 1);
        Ok(self.make_token(TokenType::StringLiteral, string_literal))
    }

    /// Reads a string literal between double quotes, on one line.
    pub fn parse_string_literal(&mut self) -> (r: Token)
        requires
            old(self)@.wf(),
            spec_parse_quoted(old(self)@, '"', true) is Ok,
        ensures
            final(self)@.wf(),
            spec_parse_quoted(old(self)@, '"', true) == Ok::<(LexState, TokenV), LexError>((final(self)@, r@)),
    {
        match self.try_parse_quoted('"', true) {
            Ok(t) => t,
            Err(_) => Token::empty(),
        }
    }

    /// Reads a string literal between backquotes, which may span lines.
    pub fn parse_multiline_string_literal(&mut self) -> (r: Token)
        requires
            old(self)@.wf(),
            spec_parse_quoted(old(self)@, '`', false) is Ok,
        ensures
            final(self)@.wf(),
            spec_parse_quoted(old(self)@, '`', false) == Ok::<(LexState, TokenV), LexError>((final(self)@, r@)),
    {
        match self.try_parse_quoted('`', false) {
            Ok(t) => t,
            Err(_) => Token::empty(),
        }
    }

    fn can_start_identifier(c: char) -> (r: bool)
        ensures
            r == spec_can_start_identifier(c),
    {
        is_ascii_alphabetic(c) || c == '_'
    }

    pub fn try_next_token(&mut self) -> (r: Result<Option<Token>, LexError>)
        requires
            old(self)@.wf(),
        ensures
            final(self)@.wf(),
            match r {
                Ok(t) => spec_next_token(old(self)@) == Ok::<(LexState, Option<TokenV>), LexError>((final(self)@, option_token_v(t))),
                Err(e) => spec_next_token(old(self)@) == Err::<(LexState, Option<TokenV>), LexError>(e),
            },
    {
        reveal(spec_next_token);
        if self.is_at_end() {
            return Ok(None);
        }
        let c = self.peek();
        if is_whitespace(c) {
            self.skip_whitespaces();
        }
        self.start_position = self.current_position;
        self.pin_position();
        if let Some(token) = self.parse_simple_token() {
            return Ok(Some(token));
        }
        match self.try_parse_double_token() {
            Err(e) => return Err(e),
            Ok(Some(token)) => return Ok(Some(token)),
            Ok(None) => {},
        }
        if Lexer::can_start_identifier(c) {
            return Ok(Some(self.parse_identifier()));
        }
        let r = if is_ascii_digit(c) {
            self.try_parse_number()
        } else if c == '\'' {
            self.try_parse_character_literal()
        } else if c == '"' {
            self.try_parse_quoted('"', true)
        } else if c == '`' {
            self.try_parse_quoted('`', false)
        } else {
            Err(LexError::UnknownCharacter(c))
        };
        match r {
            Err(e) => Err(e),
            Ok(token) => Ok(Some(token)),
        }
    }

    /// Reads the next token; `None` at the end of the stream.
    pub fn next_token(&mut self) -> (r: Option<Token>)
        requires
            old(self)@.wf(),
            spec_next_token(old(self)@) is Ok,
        ensures
            final(self)@.wf(),
            spec_next_token(old(self)@) == Ok::<(LexState, Option<TokenV>), LexError>((final(self)@, option_token_v(r))),
    {
        match self.try_next_token() {
            Ok(t) => t,
            Err(_) => None,
        }
    }

    fn try_convert_to_double_keyword(&mut self, token: Token) -> (r: (Token, Option<Token>))
        requires
            old(self)@.wf(),
        ensures
            final(self)@.wf(),
            spec_try_convert_to_double_keyword(old(self)@, token@) == (final(self)@, r.0@, option_token_v(r.1)),
    {
        reveal(spec_try_convert_to_double_keyword);
        let (follower, combined) = match double_keyword(token.token_type) {
            Some(pair) => pair,
            None => return (token, None),
        };
        self.skip_whitespaces();
        if !Lexer::can_start_identifier(self.peek()) {
            return (token, None);
        }
        self.start_position = self.current_position;
        self.pin_position();
        let next_identifier = self.parse_identifier();
        if next_identifier.token_type != follower {
            return (token, Some(next_identifier));
        }
        let mut literal = token.literal;
        push_char(&mut literal, ' ');
        literal.append(next_identifier.literal.as_str());
        assert(literal@ =~= token.literal@ + seq![' '] + next_identifier.literal@);
        let new_keyword = self.make_token(combined, literal);
        (new_keyword, None)
    }

    fn try_lex_tokens(&mut self) -> (r: Result<Vec<Token>, LexError>)
        requires
            old(self)@.wf(),
        ensures
            final(self)@.wf(),
            match r {
                Ok(tokens) => match spec_lex_from(old(self)@) {
                    Ok((e, ts)) => e == final(self)@ && ts == tokens_v(tokens@),
                    Err(_) => false,
                },
                Err(e) => spec_lex_from(old(self)@) == Err::<(LexState, Seq<TokenV>), LexError>(e),
            },
    {
        let mut tokens: Vec<Token> = Vec::new();
        loop
            invariant_except_break
                match spec_lex_from(old(self)@) {
                    Ok((e, ts)) => match spec_lex_from(self@) {
                        Ok((e2, rest)) => e2 == e && ts == tokens_v(tokens@) + rest,
                        Err(_) => false,
                    },
                    Err(err) => spec_lex_from(self@) == Err::<(LexState, Seq<TokenV>), LexError>(err),
                },
            invariant
                self@.wf(),
            ensures
                match spec_lex_from(old(self)@) {
                    Ok((e, ts)) => e == self@ && ts == tokens_v(tokens@),
                    Err(_) => false,
                },
            decreases self@.s.len() - self@.cur,
        {
            if self.is_at_end() {
                break;
            }
            let ghost before = self@;
            self.skip_whitespaces();
            match self.try_next_token() {
                Err(e) => return Err(e),
                Ok(None) => break,
                Ok(Some(token)) => {
                    let ghost after_token = self@;
                    let ghost token_v = token@;
                    let ghost old_tokens = tokens_v(tokens@);
                    let (first, second) = self.try_convert_to_double_keyword(token);
                    let ghost head = match option_token_v(second) {
                        Some(n) => seq![first@, n],
                        None => seq![first@],
                    };
                    tokens.push(first);
                    if let Some(second) = second {
                        tokens.push(second);
                    }
                    self.skip_whitespaces();
                    proof {
                        crate::syntax::lexer_model::lemma_lex_step_progress(before);
                        crate::syntax::lexer_model::lemma_lex_from_step(before, after_token, token_v, self@, head);
                        assert(tokens_v(tokens@) =~= old_tokens + head);
                    }
                },
            }
        }
        Ok(tokens)
    }

    /// Cuts the rest of the stream into tokens and ends them with an `EOF`
    /// token; or says why the rest cannot be cut into tokens.
    pub fn try_lex(&mut self) -> (r: Result<Vec<Token>, LexError>)
        requires
            old(self)@.wf(),
        ensures
            final(self)@.wf(),
            match r {
                Ok(tokens) => spec_lex_whole(old(self)@) == Ok::<Seq<TokenV>, LexError>(tokens_v(tokens@)),
                Err(e) => spec_lex_whole(old(self)@) == Err::<Seq<TokenV>, LexError>(e),
            },
            r is Ok ==> (spec_lex_from(old(self)@) matches Ok((e, _)) && final(self)@ == e),
            r is Ok ==> final(self)@.at_end(),
    {
        proof {
            crate::syntax::lexer_model::lemma_lex_from_ends_at_end(self@);
        }
        let mut i: usize = 0;
        while i < self.stream.len()
            invariant
                i <= self.stream@.len(),
                self@ == old(self)@,
                self@.wf(),
                self@.s == self.stream@,
                forall|j: int| 0 <= j < i ==> (#[trigger] self.stream@[j] as u32) < 0x80,
            decreases self.stream.len() - i,
        {
            if self.stream[i] as u32 >= 0x80 {
                return Err(LexError::NonAsciiStream);
            }
            i = i + 1;
        }
        let mut tokens = match self.try_lex_tokens() {
            Ok(tokens) => tokens,
            Err(e) => return Err(e),
        };
        let ghost before = tokens_v(tokens@);
        tokens.push(self.make_token(TokenType::EOF, String::new()));
        assert(tokens_v(tokens@) =~= before.push(tokens@.last()@));
        Ok(tokens)
    }

    /// Cuts the rest of the stream into tokens and ends them with an `EOF` token.
    pub fn lex(&mut self) -> (r: Vec<Token>)
        requires
            old(self)@.wf(),
            spec_lex_whole(old(self)@) is Ok,
        ensures
            final(self)@.wf(),
            spec_lex_whole(old(self)@) == Ok::<Seq<TokenV>, LexError>(tokens_v(r@)),
            spec_lex_from(old(self)@) matches Ok((e, _)) && final(self)@ == e,
            final(self)@.at_end(),
    {
        match self.try_lex() {
            Ok(tokens) => tokens,
            Err(_) => Vec::new(),
        }
    }
}

} // verus!

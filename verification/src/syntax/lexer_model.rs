use vstd::prelude::*;

use crate::syntax::lexer::TokenV;
use crate::syntax::tokens::{
    lemma_number_postfix_length,
    postfix_length, spec_double_keyword, spec_double_token_default, spec_double_token_follow,
    spec_is_escape_character, spec_keyword_type, spec_number_postfix_type, spec_simple_token_type,
    is_unsigned_literal_type, TokenType,
};

verus! {

/// Whether `c` has Unicode's `White_Space` property, which is what
/// `char::is_whitespace` answers: the ASCII tab, line feed, vertical tab,
/// form feed, carriage return and space; next line; no-break space; Ogham
/// space mark; the spaces from en quad to hair space; line and paragraph
/// separators; narrow no-break space; medium mathematical space; and
/// ideographic space.
pub open spec fn unicode_whitespace(c: char) -> bool {
    let n = c as u32;
    ||| 0x09 <= n <= 0x0D
    ||| n == 0x20
    ||| n == 0x85
    ||| n == 0xA0
    ||| n == 0x1680
    ||| 0x2000 <= n <= 0x200A
    ||| n == 0x2028
    ||| n == 0x2029
    ||| n == 0x202F
    ||| n == 0x205F
    ||| n == 0x3000
}

/// What `char::is_alphanumeric` answers for a character beyond ASCII
/// (Unicode's `Alphabetic` or `Numeric` property).
pub uninterp spec fn non_ascii_alphanumeric(c: char) -> bool;

/// What `char::is_alphanumeric` answers for `c`: among ASCII characters
/// exactly the letters and digits have the `Alphabetic` or `Numeric`
/// property; beyond ASCII the answer is named.
pub open spec fn unicode_alphanumeric(c: char) -> bool {
    if (c as u32) < 0x80 {
        spec_is_ascii_alphabetic(c) || spec_is_ascii_digit(c)
    } else {
        non_ascii_alphanumeric(c)
    }
}

/// `char::is_whitespace`: whether `c` has the `White_Space` property.
#[verifier::external_body]
pub(crate) fn is_whitespace(c: char) -> (r: bool)
    ensures
        r == unicode_whitespace(c),
{
    c.is_whitespace()
}

/// `char::is_alphanumeric`: an ASCII letter or digit, or, beyond ASCII, a
/// character whose answer is named [`non_ascii_alphanumeric`].
#[verifier::external_body]
pub(crate) fn is_alphanumeric(c: char) -> (r: bool)
    ensures
        r == unicode_alphanumeric(c),
        (c as u32) >= 0x80 ==> r == non_ascii_alphanumeric(c),
{
    c.is_alphanumeric()
}

/// An ASCII decimal digit.
pub open spec fn spec_is_ascii_digit(c: char) -> bool {
    '0' <= c <= '9'
}

/// An ASCII letter.
pub open spec fn spec_is_ascii_alphabetic(c: char) -> bool {
    ('a' <= c <= 'z') || ('A' <= c <= 'Z')
}

/// A character that may start an identifier or keyword.
pub open spec fn spec_can_start_identifier(c: char) -> bool {
    spec_is_ascii_alphabetic(c) || c == '_'
}

/// A character that may continue an identifier or keyword.
pub open spec fn is_identifier_char(c: char) -> bool {
    spec_is_ascii_alphabetic(c) || spec_is_ascii_digit(c) || unicode_alphanumeric(c) || c == '_'
}

/// Why a stream of characters cannot be cut into tokens.
#[derive(Debug, Clone, Copy, PartialEq, Eq, Structural)]
pub enum LexError {
    /// A character that starts no token.
    UnknownCharacter(char),
    /// A character other than the one the token requires at this point.
    UnexpectedCharacter { expected: char, found: char },
    /// `*/` outside of a comment.
    UnexpectedMultilineCommentEnd,
    /// The stream ends inside a `/* */` comment.
    UnterminatedMultilineComment,
    /// A number suffix that is not one of the number literal types.
    UnexpectedNumberPostfix,
    /// A number with a decimal point and an integer suffix.
    ExpectedFloatPostfix,
    /// A negative number with an unsigned suffix.
    UnsignedPostfixForSignedInteger,
    /// A backslash followed by a character that cannot be escaped.
    UnexpectedEscapedCharacter(char),
    /// `''`.
    EmptyCharacterLiteral,
    /// The stream or the line ends inside a string literal.
    UnterminatedStringLiteral,
    /// The stream holds a character beyond ASCII: the end of the stream is
    /// then reached by its length in bytes, after its characters run out,
    /// where no token can start.
    NonAsciiStream,
}

/// Where a lexer stands in its stream: the value of a `Lexer`.
pub struct LexState {
    pub s: Seq<char>,
    /// Where the token being read starts.
    pub start: int,
    /// The next character to read.
    pub cur: int,
    pub tline: int,
    pub tcol: int,
    pub line: int,
    pub col: int,
}

impl LexState {
    /// The state of a lexer that has read nothing of `s`.
    pub open spec fn initial(s: Seq<char>) -> LexState {
        LexState { s, start: 0, cur: 0, tline: 1, tcol: 1, line: 1, col: 1 }
    }

    pub open spec fn wf(self) -> bool {
        &&& self.s.len() < usize::MAX
        &&& 0 <= self.start <= self.cur <= self.s.len()
        &&& 1 <= self.line <= self.cur + 1
        &&& 1 <= self.col <= self.cur + 1
        &&& 1 <= self.tline <= self.cur + 1
        &&& 1 <= self.tcol <= self.cur + 1
    }

    pub open spec fn at_end(self) -> bool {
        self.cur >= self.s.len()
    }

    /// The character `offset` places ahead, or `'\0'` past the end.
    pub open spec fn peek_at(self, offset: int) -> char {
        if 0 <= self.cur + offset < self.s.len() {
            self.s[self.cur + offset]
        } else {
            '\0'
        }
    }

    pub open spec fn peek(self) -> char {
        self.peek_at(0)
    }

    /// One character further; a newline moves to the next line.
    pub open spec fn advanced(self) -> LexState {
        if self.at_end() {
            self
        } else if self.s[self.cur] == '\n' {
            LexState { cur: self.cur + 1, line: self.line + 1, col: 2, ..self }
        } else {
            LexState { cur: self.cur + 1, col: self.col + 1, ..self }
        }
    }

    /// The token being read starts at the current line and column.
    pub open spec fn pinned(self) -> LexState {
        LexState { tline: self.line, tcol: self.col, ..self }
    }

    /// The token being read starts at the next character.
    pub open spec fn started(self) -> LexState {
        LexState { start: self.cur, ..self }
    }

    /// The characters read since the token started.
    pub open spec fn lexeme(self) -> Seq<char> {
        self.s.subrange(self.start, self.cur)
    }

    /// Past the whitespace ahead.
    pub open spec fn skip_ws(self) -> LexState
        decreases self.s.len() - self.cur,
    {
        if self.peek() != '\0' && unicode_whitespace(self.peek()) {
            self.advanced().skip_ws()
        } else {
            self
        }
    }

    /// Up to the next newline or the end.
    pub open spec fn line_rest(self) -> LexState
        decreases self.s.len() - self.cur,
    {
        if self.peek() != '\n' && !self.at_end() {
            self.advanced().line_rest()
        } else {
            self
        }
    }

    /// Past the characters that continue an identifier.
    pub open spec fn ident_run(self) -> LexState
        decreases self.s.len() - self.cur,
    {
        if !self.at_end() && is_identifier_char(self.peek()) {
            self.advanced().ident_run()
        } else {
            self
        }
    }

    /// Past the ASCII digits ahead.
    pub open spec fn digit_run(self) -> LexState
        decreases self.s.len() - self.cur,
    {
        if spec_is_ascii_digit(self.peek()) {
            self.advanced().digit_run()
        } else {
            self
        }
    }

    /// At the `*/` that closes a comment, if there is one ahead.
    pub open spec fn comment_close(self) -> Option<LexState>
        decreases self.s.len() - self.cur,
    {
        if self.at_end() {
            None
        } else if self.peek() == '*' && self.peek_at(1) == '/' {
            Some(self)
        } else {
            self.advanced().comment_close()
        }
    }

    /// Past the `quote` that closes a string; with `single_line`, a newline
    /// first is an error.
    pub open spec fn string_close(self, quote: char, single_line: bool) -> Result<LexState, LexError>
        decreases self.s.len() - self.cur,
    {
        if self.at_end() {
            Err(LexError::UnterminatedStringLiteral)
        } else if single_line && self.peek() == '\n' {
            Err(LexError::UnterminatedStringLiteral)
        } else if self.peek() == quote {
            Ok(self.advanced())
        } else {
            self.advanced().string_close(quote, single_line)
        }
    }

    /// Past the character `c`, which must come next.
    pub open spec fn required(self, c: char) -> Result<LexState, LexError> {
        if self.peek() != c {
            Err(LexError::UnexpectedCharacter { expected: c, found: self.peek() })
        } else {
            Ok(self.advanced())
        }
    }
}

/// The token of type `token_type` and literal `literal` that ends where `st` stands.
pub open spec fn spec_make_token(st: LexState, token_type: TokenType, literal: Seq<char>) -> TokenV {
    TokenV {
        start_line: st.tline,
        start_column: st.tcol,
        end_line: st.line,
        end_column: st.col,
        token_type,
        lexeme: st.lexeme(),
        literal,
    }
}

/// Reads a single-character token, if one comes next.
pub open spec fn spec_parse_simple_token(st: LexState) -> (LexState, Option<TokenV>) {
    let s1 = st.skip_ws();
    if s1.peek() == '\0' {
        (s1, None)
    } else {
        let s2 = s1.pinned();
        match spec_simple_token_type(s1.peek()) {
            None => (s2, None),
            Some(t) => {
                let s3 = s2.advanced();
                (s3, Some(spec_make_token(s3, t, Seq::empty())))
            },
        }
    }
}

/// Reads `//` to the end of the line; the comment's text includes the newline.
pub open spec fn spec_single_line_comment(st: LexState) -> (LexState, Seq<char>) {
    let e = st.line_rest().advanced();
    (e, st.s.subrange(st.cur, e.cur))
}

/// Reads a comment up to and past its `*/`; the text stops before the `*/`.
pub open spec fn spec_multi_line_comment(st: LexState) -> Result<(LexState, Seq<char>), LexError> {
    match st.comment_close() {
        None => Err(LexError::UnterminatedMultilineComment),
        Some(e) => Ok((e.advanced().advanced(), st.s.subrange(st.cur, e.cur))),
    }
}

/// Reads a token of one or two characters whose first character may start a
/// longer token, and the comment it opens, if any.
pub open spec fn spec_parse_double_token(st: LexState) -> Result<(LexState, Option<TokenV>), LexError> {
    let s1 = st.skip_ws();
    let c = s1.peek();
    if c == '\0' {
        Ok((s1, None))
    } else {
        match spec_double_token_default(c) {
            None => Ok((s1, None)),
            Some(single) => {
                let s2 = s1.advanced();
                let (s3, t) = match spec_double_token_follow(c, s2.peek()) {
                    Some(double) => (s2.advanced(), double),
                    None => (s2, single),
                };
                if t == TokenType::SingleLineComment {
                    let (s4, text) = spec_single_line_comment(s3);
                    Ok((s4, Some(spec_make_token(s4, t, text))))
                } else if t == TokenType::MultilineCommentStart {
                    match spec_multi_line_comment(s3) {
                        Err(e) => Err(e),
                        Ok((s4, text)) => Ok((s4, Some(spec_make_token(s4, t, text)))),
                    }
                } else if t == TokenType::MultilineCommentEnd {
                    Err(LexError::UnexpectedMultilineCommentEnd)
                } else {
                    Ok((s3, Some(spec_make_token(s3, t, Seq::empty()))))
                }
            },
        }
    }
}

/// Reads an identifier or keyword.
pub open spec fn spec_parse_identifier(st: LexState) -> (LexState, TokenV) {
    let e = st.ident_run();
    let word = st.s.subrange(st.cur, e.cur);
    match spec_keyword_type(word) {
        Some(t) => (e, spec_make_token(e, t, Seq::empty())),
        None => (e, spec_make_token(e, TokenType::Identifier, word)),
    }
}

/// Reads the suffix that fixes a number literal's type, if one comes next.
pub open spec fn spec_number_postfix(st: LexState) -> Result<(LexState, Option<TokenType>), LexError> {
    let c = st.peek();
    if !(c == 'i' || c == 'u' || c == 'f') {
        Ok((st, None))
    } else {
        let s1 = st.advanced();
        let s2 = s1.digit_run();
        let postfix = seq![c] + st.s.subrange(s1.cur, s2.cur);
        match spec_number_postfix_type(postfix) {
            Some(t) => Ok((s2, Some(t))),
            None => Err(LexError::UnexpectedNumberPostfix),
        }
    }
}

/// Reads a number literal, with an optional `-`, decimal point and suffix.
pub open spec fn spec_parse_number(st: LexState) -> Result<(LexState, TokenV), LexError> {
    let signed = st.peek() == '-';
    let s0 = if signed { st.advanced() } else { st };
    let default_type = if signed { TokenType::I32 } else { TokenType::U32 };
    let s1 = s0.digit_run();
    if s1.peek() == '.' {
        let s2 = s1.advanced().digit_run();
        match spec_number_postfix(s2) {
            Err(e) => Err(e),
            Ok((s3, None)) => Ok((s3, spec_make_token(s3, TokenType::F32, s3.lexeme()))),
            Ok((s3, Some(t))) => if t == TokenType::F32Literal || t == TokenType::F64Literal {
                Ok((s3, spec_make_token(s3, t, s3.s.subrange(s3.start, s3.cur - 3))))
            } else {
                Err(LexError::ExpectedFloatPostfix)
            },
        }
    } else {
        match spec_number_postfix(s1) {
            Err(e) => Err(e),
            Ok((s3, None)) => Ok((s3, spec_make_token(s3, default_type, s3.lexeme()))),
            Ok((s3, Some(t))) => if signed && is_unsigned_literal_type(t) {
                Err(LexError::UnsignedPostfixForSignedInteger)
            } else {
                Ok((s3, spec_make_token(s3, t, s3.s.subrange(s3.start, s3.cur - postfix_length(t)))))
            },
        }
    }
}

/// Reads a character literal `'c'`; a backslash consumes only itself.
pub open spec fn spec_parse_character_literal(st: LexState) -> Result<(LexState, TokenV), LexError> {
    match st.required('\'') {
        Err(e) => Err(e),
        Ok(s1) => {
            let c = s1.peek();
            let s2 = s1.advanced();
            if c == '\\' && !spec_is_escape_character(c) {
                Err(LexError::UnexpectedEscapedCharacter(c))
            } else if c != '\\' && c == '\'' {
                Err(LexError::EmptyCharacterLiteral)
            } else {
                match s2.required('\'') {
                    Err(e) => Err(e),
                    Ok(s3) => Ok((s3, spec_make_token(s3, TokenType::CharLiteral,
                        st.s.subrange(st.cur + 1, s3.cur - 1)))),
                }
            }
        },
    }
}

/// Reads a string literal between `quote`s; with `single_line` it may not span lines.
pub open spec fn spec_parse_quoted(st: LexState, quote: char, single_line: bool) -> Result<(LexState, TokenV), LexError> {
    match st.required(quote) {
        Err(e) => Err(e),
        Ok(s1) => match s1.string_close(quote, single_line) {
            Err(e) => Err(e),
            Ok(e) => Ok((e, spec_make_token(e, TokenType::StringLiteral,
                st.s.subrange(st.cur + 1, e.cur - 1)))),
        },
    }
}

/// Reads the next token, if the stream is not at its end.
#[verifier::opaque]
pub open spec fn spec_next_token(st: LexState) -> Result<(LexState, Option<TokenV>), LexError> {
    if st.at_end() {
        Ok((st, None))
    } else {
        let c = st.peek();
        let s1 = if unicode_whitespace(c) { st.skip_ws() } else { st };
        let s2 = s1.started().pinned();
        let (s3, simple) = spec_parse_simple_token(s2);
        if simple is Some {
            Ok((s3, simple))
        } else {
            match spec_parse_double_token(s3) {
                Err(e) => Err(e),
                Ok((s4, Some(t))) => Ok((s4, Some(t))),
                Ok((s4, None)) => if spec_can_start_identifier(c) {
                    let (s5, t) = spec_parse_identifier(s4);
                    Ok((s5, Some(t)))
                } else {
                    let r = if spec_is_ascii_digit(c) {
                        spec_parse_number(s4)
                    } else if c == '\'' {
                        spec_parse_character_literal(s4)
                    } else if c == '"' {
                        spec_parse_quoted(s4, '"', true)
                    } else if c == '`' {
                        spec_parse_quoted(s4, '`', false)
                    } else {
                        Err(LexError::UnknownCharacter(c))
                    };
                    match r {
                        Err(e) => Err(e),
                        Ok((s5, t)) => Ok((s5, Some(t))),
                    }
                },
            }
        }
    }
}

/// The operators spelt with two characters, each with the type of the
/// token it makes. (`!=` is not among them: `!` is a token of its own, so
/// `!=` reads as `!` followed by `=`.)
pub open spec fn two_character_operators() -> Seq<(Seq<char>, TokenType)> {
    seq![
        (seq!['-', '-'], TokenType::Decrement),
        (seq!['-', '>'], TokenType::Arrow),
        (seq!['-', '='], TokenType::MinusEquals),
        (seq!['+', '+'], TokenType::Increment),
        (seq!['+', '='], TokenType::PlusEquals),
        (seq!['*', '='], TokenType::StarEquals),
        (seq!['/', '='], TokenType::SlashEquals),
        (seq!['|', '|'], TokenType::LogicalOr),
        (seq!['|', '='], TokenType::BinaryOrEquals),
        (seq!['&', '&'], TokenType::LogicalAnd),
        (seq!['&', '='], TokenType::BinaryAndEquals),
        (seq!['.', '.'], TokenType::RangeExclusive),
        (seq!['.', '='], TokenType::RangeInclusive),
        (seq!['=', '='], TokenType::EqualsEquals),
        (seq!['~', '='], TokenType::BinaryInvertEquals),
        (seq!['<', '='], TokenType::LessEqual),
        (seq!['<', '<'], TokenType::BinaryShiftLeft),
        (seq!['>', '='], TokenType::GreaterEqual),
        (seq!['>', '>'], TokenType::BinaryShiftRight),
    ]
}

/// Where the stream goes on with a two-character operator, the next token is
/// that operator, one token of its type whose lexeme is both characters,
/// which starts at the current line and column and ends two columns on;
/// reading goes on after them.
pub proof fn law_two_character_operator_is_one_token(st: LexState, i: int)
    requires
        0 <= i < two_character_operators().len(),
        0 <= st.cur,
        st.cur + 2 <= st.s.len(),
        st.s.subrange(st.cur, st.cur + 2) == two_character_operators()[i].0,
    ensures
        spec_next_token(st) matches Ok((e, Some(t))) && {
            &&& t.token_type == two_character_operators()[i].1
            &&& t.lexeme == two_character_operators()[i].0
            &&& t.literal == Seq::<char>::empty()
            &&& t.start_line == st.line && t.end_line == st.line
            &&& t.start_column == st.col && t.end_column == st.col + 2
            &&& e.s == st.s
            &&& e.cur == st.cur + 2
        },
{
    reveal(spec_next_token);
    let text = two_character_operators()[i].0;
    assert(st.s[st.cur] == text[0] && st.s[st.cur + 1] == text[1]) by {
        assert(st.s.subrange(st.cur, st.cur + 2)[0] == st.s[st.cur]);
        assert(st.s.subrange(st.cur, st.cur + 2)[1] == st.s[st.cur + 1]);
    }
    let s2 = st.started().pinned();
    assert(s2.skip_ws() == s2);
    let s3 = spec_parse_simple_token(s2).0;
    assert(s3.skip_ws() == s3);
    let e = s3.advanced().advanced();
    assert(e.lexeme() =~= text);
}

/// The tokens of one character, each with its character.
pub open spec fn one_character_tokens() -> Seq<(char, TokenType)> {
    seq![
        (',', TokenType::Comma),
        (':', TokenType::Colon),
        (';', TokenType::Semicolon),
        ('{', TokenType::LeftBrace),
        ('}', TokenType::RightBrace),
        ('[', TokenType::LeftBracket),
        (']', TokenType::RightBracket),
        ('(', TokenType::LeftParenthesis),
        (')', TokenType::RightParenthesis),
        ('!', TokenType::LogicalNot),
        ('-', TokenType::Minus),
        ('+', TokenType::Plus),
        ('*', TokenType::Star),
        ('/', TokenType::Slash),
        ('|', TokenType::BinaryOr),
        ('&', TokenType::Ampersand),
        ('.', TokenType::Dot),
        ('=', TokenType::Equals),
        ('~', TokenType::BinaryInvert),
        ('<', TokenType::Less),
        ('>', TokenType::Greater),
    ]
}

/// Where the stream goes on with a one-character token's character, and
/// then ends or goes on with a space, the next token is that character's
/// token, whose lexeme is the character alone, which starts at the current
/// line and column and ends one column on; reading goes on after it.
pub proof fn law_one_character_token(st: LexState, i: int)
    requires
        0 <= i < one_character_tokens().len(),
        0 <= st.cur < st.s.len(),
        st.s[st.cur] == one_character_tokens()[i].0,
        st.cur + 1 == st.s.len() || st.s[st.cur + 1] == ' ',
    ensures
        spec_next_token(st) matches Ok((e, Some(t))) && {
            &&& t.token_type == one_character_tokens()[i].1
            &&& t.lexeme == seq![one_character_tokens()[i].0]
            &&& t.literal == Seq::<char>::empty()
            &&& t.start_line == st.line && t.end_line == st.line
            &&& t.start_column == st.col && t.end_column == st.col + 1
            &&& e.s == st.s
            &&& e.cur == st.cur + 1
        },
{
    reveal(spec_next_token);
    let s2 = st.started().pinned();
    assert(s2.skip_ws() == s2);
    let c = one_character_tokens()[i].0;
    if spec_simple_token_type(c) is Some {
        assert(s2.advanced().lexeme() =~= seq![c]);
    } else {
        let s3 = spec_parse_simple_token(s2).0;
        assert(s3.skip_ws() == s3);
        assert(s3.advanced().lexeme() =~= seq![c]);
    }
}

/// Past `k` digits that end the stream or stand before a character other
/// than a digit.
proof fn lemma_digit_run_over(st: LexState, k: int)
    requires
        0 <= st.cur,
        0 <= k,
        st.cur + k <= st.s.len(),
        forall|j: int| st.cur <= j < st.cur + k ==> spec_is_ascii_digit(#[trigger] st.s[j]),
        st.cur + k == st.s.len() || !spec_is_ascii_digit(st.s[st.cur + k]),
    ensures
        st.digit_run() == (LexState { cur: st.cur + k, col: st.col + k, ..st }),
    decreases k,
{
    if k > 0 {
        assert(spec_is_ascii_digit(st.s[st.cur]));
        lemma_digit_run_over(st.advanced(), k - 1);
    } else if st.cur + k < st.s.len() {
        assert(!spec_is_ascii_digit(st.peek()));
    }
}

/// A number without a sign, point or suffix, followed by a space or the end
/// of the stream, is one `u32` token whose literal is its digits, and
/// reading goes on after it.
pub proof fn law_plain_number_is_u32(st: LexState, k: int)
    requires
        0 <= st.cur,
        1 <= k,
        st.cur + k <= st.s.len(),
        forall|j: int| st.cur <= j < st.cur + k ==> spec_is_ascii_digit(#[trigger] st.s[j]),
        st.cur + k == st.s.len() || st.s[st.cur + k] == ' ',
    ensures
        spec_next_token(st) matches Ok((e, Some(t))) && {
            &&& t.token_type == TokenType::U32
            &&& t.literal == st.s.subrange(st.cur, st.cur + k)
            &&& t.lexeme == st.s.subrange(st.cur, st.cur + k)
            &&& e.s == st.s
            &&& e.cur == st.cur + k
        },
{
    reveal(spec_next_token);
    let c = st.s[st.cur];
    assert(spec_is_ascii_digit(c));
    let s2 = st.started().pinned();
    assert(s2.skip_ws() == s2);
    let s3 = spec_parse_simple_token(s2).0;
    assert(s3 == s2);
    assert(s3.skip_ws() == s3);
    lemma_digit_run_over(s3, k);
}

/// Lexing a two-character operator on its own gives exactly one token of
/// the operator's type, whose lexeme is the whole text, and then `EOF`.
pub proof fn law_two_character_operator_alone(i: int)
    requires
        0 <= i < two_character_operators().len(),
    ensures
        spec_lex(two_character_operators()[i].0) matches Ok(tokens) && {
            &&& tokens.len() == 2
            &&& tokens[0].token_type == two_character_operators()[i].1
            &&& tokens[0].lexeme == two_character_operators()[i].0
            &&& tokens[1].token_type == TokenType::EOF
        },
{
    let text = two_character_operators()[i].0;
    let st = LexState::initial(text);
    assert(text.len() == 2);
    assert(is_ascii_text(text));
    assert(st.s.subrange(st.cur, st.cur + 2) =~= text);
    law_two_character_operator_is_one_token(st, i);
    let (e, t) = match spec_next_token(st) {
        Ok((e, Some(t))) => (e, t),
        _ => (st, arbitrary()),
    };
    reveal(spec_try_convert_to_double_keyword);
    assert(e.skip_ws() == e);
    assert(spec_lex_from(e) == Ok::<(LexState, Seq<TokenV>), LexError>((e, Seq::empty())));
    assert(st.skip_ws() == st);
}

/// Joins `token` with a following keyword into one token where the pair
/// forms one; returns the state, the token to keep and the token read ahead
/// that does not join.
#[verifier::opaque]
pub open spec fn spec_try_convert_to_double_keyword(st: LexState, token: TokenV) -> (LexState, TokenV, Option<TokenV>) {
    match spec_double_keyword(token.token_type) {
        None => (st, token, None),
        Some((follower, combined)) => {
            let s1 = st.skip_ws();
            if !spec_can_start_identifier(s1.peek()) {
                (s1, token, None)
            } else {
                let (s2, next) = spec_parse_identifier(s1.started().pinned());
                if next.token_type != follower {
                    (s2, token, Some(next))
                } else {
                    (s2, spec_make_token(s2, combined, token.literal + seq![' '] + next.literal), None)
                }
            }
        },
    }
}

/// The tokens of the rest of the stream, without the final `EOF`.
pub open spec fn spec_lex_from(st: LexState) -> Result<(LexState, Seq<TokenV>), LexError>
    decreases st.s.len() - st.cur,
{
    if st.at_end() || st.cur < 0 {
        Ok((st, Seq::empty()))
    } else {
        let s1 = st.skip_ws();
        match spec_next_token(s1) {
            Err(e) => Err(e),
            Ok((s2, None)) => Ok((s2, Seq::empty())),
            Ok((s2, Some(t))) => {
                let (s3, first, second) = spec_try_convert_to_double_keyword(s2, t);
                let s4 = s3.skip_ws();
                let head = match second {
                    Some(n) => seq![first, n],
                    None => seq![first],
                };
                proof {
                    lemma_lex_step_progress(st);
                }
                match spec_lex_from(s4) {
                    Err(e) => Err(e),
                    Ok((s5, rest)) => Ok((s5, head + rest)),
                }
            },
        }
    }
}

/// The tokens of the rest of the stream, ending with `EOF`, or why the rest
/// cannot be cut into tokens.
pub open spec fn spec_lex_rest(st: LexState) -> Result<Seq<TokenV>, LexError> {
    match spec_lex_from(st) {
        Err(e) => Err(e),
        Ok((e, tokens)) => Ok(tokens.push(spec_make_token(e, TokenType::EOF, Seq::empty()))),
    }
}

/// Whether every character of `s` is ASCII.
pub open spec fn is_ascii_text(s: Seq<char>) -> bool {
    forall|i: int| 0 <= i < s.len() ==> (#[trigger] s[i] as u32) < 0x80
}

/// Lexing the rest of a whole stream: a stream with a character beyond
/// ASCII is refused; otherwise the tokens of the rest, ending with `EOF`.
pub open spec fn spec_lex_whole(st: LexState) -> Result<Seq<TokenV>, LexError> {
    if !is_ascii_text(st.s) {
        Err(LexError::NonAsciiStream)
    } else {
        spec_lex_rest(st)
    }
}

/// The tokens of `s`, ending with `EOF`, or why `s` cannot be cut into tokens.
pub open spec fn spec_lex(s: Seq<char>) -> Result<Seq<TokenV>, LexError> {
    spec_lex_whole(LexState::initial(s))
}

/// `b` is `a` moved forward in the same stream, without passing its end.
pub open spec fn moved_forward(a: LexState, b: LexState) -> bool {
    &&& b.s == a.s
    &&& a.cur <= b.cur <= b.s.len()
}

/// The position lies within the stream.
pub open spec fn in_stream(st: LexState) -> bool {
    0 <= st.cur <= st.s.len()
}

pub proof fn lemma_skip_ws_forward(st: LexState)
    requires
        in_stream(st),
    ensures
        moved_forward(st, st.skip_ws()),
        st.peek() != '\0' && unicode_whitespace(st.peek()) ==> st.cur < st.skip_ws().cur,
        !(st.peek() != '\0' && unicode_whitespace(st.peek())) ==> st.skip_ws() == st,
    decreases st.s.len() - st.cur,
{
    if st.peek() != '\0' && unicode_whitespace(st.peek()) {
        lemma_skip_ws_forward(st.advanced());
    }
}

pub proof fn lemma_line_rest_forward(st: LexState)
    requires
        in_stream(st),
    ensures
        moved_forward(st, st.line_rest()),
    decreases st.s.len() - st.cur,
{
    if st.peek() != '\n' && !st.at_end() {
        lemma_line_rest_forward(st.advanced());
    }
}

pub proof fn lemma_ident_run_forward(st: LexState)
    requires
        in_stream(st),
    ensures
        moved_forward(st, st.ident_run()),
        !st.at_end() && is_identifier_char(st.peek()) ==> st.cur < st.ident_run().cur,
    decreases st.s.len() - st.cur,
{
    if !st.at_end() && is_identifier_char(st.peek()) {
        lemma_ident_run_forward(st.advanced());
    }
}

pub proof fn lemma_digit_run_forward(st: LexState)
    requires
        in_stream(st),
    ensures
        moved_forward(st, st.digit_run()),
        st.digit_run().start == st.start,
        spec_is_ascii_digit(st.peek()) ==> st.cur < st.digit_run().cur,
    decreases st.s.len() - st.cur,
{
    if spec_is_ascii_digit(st.peek()) {
        lemma_digit_run_forward(st.advanced());
    }
}

pub proof fn lemma_comment_close_forward(st: LexState)
    requires
        in_stream(st),
    ensures
        st.comment_close() matches Some(e) ==> moved_forward(st, e) && e.cur < e.s.len(),
    decreases st.s.len() - st.cur,
{
    if !st.at_end() && !(st.peek() == '*' && st.peek_at(1) == '/') {
        lemma_comment_close_forward(st.advanced());
    }
}

pub proof fn lemma_string_close_forward(st: LexState, quote: char, single_line: bool)
    requires
        in_stream(st),
    ensures
        st.string_close(quote, single_line) matches Ok(e) ==> moved_forward(st, e) && st.cur < e.cur,
    decreases st.s.len() - st.cur,
{
    if !st.at_end() && !(single_line && st.peek() == '\n') && st.peek() != quote {
        lemma_string_close_forward(st.advanced(), quote, single_line);
    }
}

pub proof fn lemma_parse_simple_token_forward(st: LexState)
    requires
        in_stream(st),
    ensures
        moved_forward(st, spec_parse_simple_token(st).0),
        spec_parse_simple_token(st).1 is Some ==> st.cur < spec_parse_simple_token(st).0.cur,
        spec_parse_simple_token(st).1 is None ==> spec_parse_simple_token(st).0.cur == st.skip_ws().cur,
{
    lemma_skip_ws_forward(st);
}

pub proof fn lemma_parse_double_token_forward(st: LexState)
    requires
        in_stream(st),
    ensures
        spec_parse_double_token(st) matches Ok((e, t)) ==> {
            &&& moved_forward(st, e)
            &&& t is Some ==> st.cur < e.cur
            &&& t is None ==> e.cur == st.skip_ws().cur
        },
{
    lemma_skip_ws_forward(st);
    let s1 = st.skip_ws();
    let s2 = s1.advanced();
    lemma_line_rest_forward(s2);
    lemma_line_rest_forward(s2.advanced());
    lemma_comment_close_forward(s2);
    lemma_comment_close_forward(s2.advanced());
}

pub proof fn lemma_parse_identifier_forward(st: LexState)
    requires
        in_stream(st),
    ensures
        moved_forward(st, spec_parse_identifier(st).0),
        !st.at_end() && is_identifier_char(st.peek()) ==> st.cur < spec_parse_identifier(st).0.cur,
{
    lemma_ident_run_forward(st);
}

pub proof fn lemma_number_postfix_forward(st: LexState)
    requires
        in_stream(st),
    ensures
        spec_number_postfix(st) matches Ok((e, _)) ==> moved_forward(st, e),
{
    lemma_digit_run_forward(st.advanced());
}

pub proof fn lemma_parse_number_forward(st: LexState)
    requires
        in_stream(st),
        spec_is_ascii_digit(st.peek()),
    ensures
        spec_parse_number(st) matches Ok((e, _)) ==> moved_forward(st, e) && st.cur < e.cur,
{
    lemma_digit_run_forward(st);
    let s1 = st.digit_run();
    lemma_digit_run_forward(s1.advanced());
    lemma_number_postfix_forward(s1);
    lemma_number_postfix_forward(s1.advanced().digit_run());
}

pub proof fn lemma_parse_character_literal_forward(st: LexState)
    requires
        in_stream(st),
    ensures
        spec_parse_character_literal(st) matches Ok((e, _)) ==> moved_forward(st, e) && st.cur < e.cur,
{
}

pub proof fn lemma_parse_quoted_forward(st: LexState, quote: char, single_line: bool)
    requires
        in_stream(st),
    ensures
        spec_parse_quoted(st, quote, single_line) matches Ok((e, _)) ==> moved_forward(st, e) && st.cur < e.cur,
{
    lemma_string_close_forward(st.advanced(), quote, single_line);
}

/// Each token read moves the lexer forward.
pub proof fn lemma_next_token_forward(st: LexState)
    requires
        in_stream(st),
    ensures
        spec_next_token(st) matches Ok((e, t)) ==> {
            &&& moved_forward(st, e)
            &&& t is Some ==> st.cur < e.cur
        },
{
    reveal(spec_next_token);
    if !st.at_end() {
        let c = st.peek();
        lemma_skip_ws_forward(st);
        let s1 = if unicode_whitespace(c) { st.skip_ws() } else { st };
        let s2 = s1.started().pinned();
        lemma_parse_simple_token_forward(s2);
        lemma_skip_ws_forward(s2);
        let s3 = spec_parse_simple_token(s2).0;
        lemma_parse_double_token_forward(s3);
        lemma_skip_ws_forward(s3);
        if let Ok((s4, None)) = spec_parse_double_token(s3) {
            lemma_parse_identifier_forward(s4);
            lemma_parse_character_literal_forward(s4);
            lemma_parse_quoted_forward(s4, '"', true);
            lemma_parse_quoted_forward(s4, '`', false);
            if s4.cur == st.cur {
                assert(s4.peek() == c);
                if spec_is_ascii_digit(c) {
                    lemma_parse_number_forward(s4);
                }
            } else {
                lemma_parse_number_forward_any(s4);
            }
        }
    }
}

pub proof fn lemma_parse_number_forward_any(st: LexState)
    requires
        in_stream(st),
    ensures
        spec_parse_number(st) matches Ok((e, _)) ==> moved_forward(st, e),
{
    lemma_digit_run_forward(st);
    lemma_digit_run_forward(st.advanced());
    let s0 = if st.peek() == '-' { st.advanced() } else { st };
    lemma_digit_run_forward(s0);
    let s1 = s0.digit_run();
    lemma_digit_run_forward(s1.advanced());
    lemma_number_postfix_forward(s1);
    lemma_number_postfix_forward(s1.advanced().digit_run());
}

pub proof fn lemma_try_convert_forward(st: LexState, token: TokenV)
    requires
        in_stream(st),
    ensures
        moved_forward(st, spec_try_convert_to_double_keyword(st, token).0),
{
    reveal(spec_try_convert_to_double_keyword);
    lemma_skip_ws_forward(st);
    lemma_parse_identifier_forward(st.skip_ws().started().pinned());
}

/// One round of the lexing loop moves forward in the stream.
pub proof fn lemma_lex_step_progress(st: LexState)
    requires
        !st.at_end(),
        0 <= st.cur,
    ensures
        spec_next_token(st.skip_ws()) matches Ok((s2, Some(t))) ==> {
            let s4 = spec_try_convert_to_double_keyword(s2, t).0.skip_ws();
            &&& s4.s == st.s
            &&& st.cur < s4.cur <= st.s.len()
        },
{
    lemma_skip_ws_forward(st);
    let s1 = st.skip_ws();
    lemma_next_token_forward(s1);
    if let Ok((s2, Some(t))) = spec_next_token(s1) {
        lemma_try_convert_forward(s2, t);
        let s3 = spec_try_convert_to_double_keyword(s2, t).0;
        lemma_skip_ws_forward(s3);
    }
}

/// A number suffix of type `t` takes [`postfix_length`]`(t)` characters.
pub proof fn lemma_postfix_consumed(st: LexState, t: TokenType)
    requires
        st.wf(),
        spec_number_postfix(st) matches Ok((e, Some(u))) && u == t,
    ensures
        spec_number_postfix(st) matches Ok((e, _)) && e.cur == st.cur + postfix_length(t)
            && e.start == st.start,
{
    let c = st.peek();
    let s1 = st.advanced();
    lemma_digit_run_forward(s1);
    let s2 = s1.digit_run();
    lemma_number_postfix_length(seq![c] + st.s.subrange(s1.cur, s2.cur));
}

/// Lexing that succeeds stops at the end of the stream.
pub proof fn lemma_lex_from_ends_at_end(st: LexState)
    requires
        0 <= st.cur,
    ensures
        spec_lex_from(st) matches Ok((e, _)) ==> e.at_end() || e.cur < 0,
    decreases st.s.len() - st.cur,
{
    if !(st.at_end() || st.cur < 0) {
        lemma_lex_step_progress(st);
        let s1 = st.skip_ws();
        reveal(spec_next_token);
        match spec_next_token(s1) {
            Ok((s2, Some(t))) => {
                let s4 = spec_try_convert_to_double_keyword(s2, t).0.skip_ws();
                lemma_lex_from_ends_at_end(s4);
            },
            Ok((s2, None)) => {
                assert(s1.at_end());
                assert(s2 == s1);
            },
            Err(_) => {},
        }
    }
}

/// One round of the lexing loop: the tokens of the rest of the stream are
/// those read in the round followed by the tokens after it.
pub proof fn lemma_lex_from_step(st: LexState, s2: LexState, t: TokenV, s4: LexState, head: Seq<TokenV>)
    requires
        !st.at_end(),
        0 <= st.cur,
        spec_next_token(st.skip_ws()) == Ok::<(LexState, Option<TokenV>), LexError>((s2, Some(t))),
        spec_try_convert_to_double_keyword(s2, t).0.skip_ws() == s4,
        head == (match spec_try_convert_to_double_keyword(s2, t).2 {
            Some(n) => seq![spec_try_convert_to_double_keyword(s2, t).1, n],
            None => seq![spec_try_convert_to_double_keyword(s2, t).1],
        }),
    ensures
        spec_lex_from(st) == (match spec_lex_from(s4) {
            Err(e) => Err(e),
            Ok((s5, rest)) => Ok((s5, head + rest)),
        }),
{
}

} // verus!

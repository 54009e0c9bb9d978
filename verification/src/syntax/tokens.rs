use vstd::prelude::*;

verus! {

/// The kinds of tokens produced by the lexer.
#[derive(Debug, Clone, Copy, Hash, PartialEq, Eq, Structural)]
pub enum TokenType {
    EOF,

    Identifier,
    Keyword,
    F32Literal,
    F64Literal,
    I8Literal,
    I16Literal,
    I32Literal,
    I64Literal,
    U8Literal,
    U16Literal,
    U32Literal,
    U64Literal,
    BoolLiteral,
    StringLiteral,
    MultilineStringLiteral,
    CharLiteral,
    ArrayLiteral,

    Vector2Literal,
    Vector3Literal,
    Vector4Literal,

    Matrix2Literal,
    Matrix3Literal,
    Matrix4Literal,

    I8,
    I16,
    I32,
    I64,
    U8,
    U16,
    U32,
    U64,
    F32,
    F64,
    Bool,
    Char,
    V2,
    V3,
    V4,
    M2x2,
    M3x3,
    M4x4,

    Comma,
    Dot,
    Semicolon,
    Colon,
    LeftBrace,
    RightBrace,
    LeftBracket,
    RightBracket,
    LeftParenthesis,
    RightParenthesis,
    SingleQuote,
    DoubleQuote,
    StrokeQuote,

    Plus,
    Minus,
    Star,
    Slash,
    Percent,

    Less,
    Greater,
    Equals,
    LessEqual,
    GreaterEqual,
    Ampersand,

    PlusEquals,
    MinusEquals,
    StarEquals,
    SlashEquals,
    BinaryOrEquals,
    BinaryAndEquals,
    BinaryXorEquals,
    BinaryInvertEquals,

    /// `->`
    Arrow,
    /// `=>`
    MatchClauseSeparator,
    /// `::`
    QualifierSeparator,
    /// `..`
    RangeExclusive,
    /// `..=`
    RangeInclusive,
    /// `//`
    SingleLineComment,
    /// `/*`
    MultilineCommentStart,
    /// `*/`
    MultilineCommentEnd,
    /// `++`
    Increment,
    /// `--`
    Decrement,
    EqualsEquals,
    NotEquals,
    /// `||`
    LogicalOr,
    /// `&&`
    LogicalAnd,
    /// `!`
    LogicalNot,
    /// `|`
    BinaryOr,
    /// `&`
    BinaryAnd,
    /// `^`
    BinaryXor,
    /// `~`
    BinaryInvert,
    /// `<<`
    BinaryShiftLeft,
    /// `>>`
    BinaryShiftRight,
    /// `&mut`
    MutRef,

    Pub,
    Use,
    Extern,
    Enum,
    Union,
    Struct,
    Impl,
    Branch,
    Go,

    /// `enum struct`
    EnumStruct,
    /// `union struct`
    UnionStruct,

    SelfToken,
    Fn,
    Let,
    Mut,
    Static,
    Const,
    Defer,
    Block,
    Loop,
    For,
    While,
    Break,
    Continue,
    If,
    Else,
    Return,
    Match,
    As,
    Raw,
    /// `as raw <type>`: reinterpreting cast
    AsRaw,
}

/// The name that `{:?}` writes for a token type: its variant's name.
pub open spec fn token_type_name(t: TokenType) -> Seq<char> {
    match t {
        TokenType::EOF => "EOF"@,
        TokenType::Identifier => "Identifier"@,
        TokenType::Keyword => "Keyword"@,
        TokenType::F32Literal => "F32Literal"@,
        TokenType::F64Literal => "F64Literal"@,
        TokenType::I8Literal => "I8Literal"@,
        TokenType::I16Literal => "I16Literal"@,
        TokenType::I32Literal => "I32Literal"@,
        TokenType::I64Literal => "I64Literal"@,
        TokenType::U8Literal => "U8Literal"@,
        TokenType::U16Literal => "U16Literal"@,
        TokenType::U32Literal => "U32Literal"@,
        TokenType::U64Literal => "U64Literal"@,
        TokenType::BoolLiteral => "BoolLiteral"@,
        TokenType::StringLiteral => "StringLiteral"@,
        TokenType::MultilineStringLiteral => "MultilineStringLiteral"@,
        TokenType::CharLiteral => "CharLiteral"@,
        TokenType::ArrayLiteral => "ArrayLiteral"@,
        TokenType::Vector2Literal => "Vector2Literal"@,
        TokenType::Vector3Literal => "Vector3Literal"@,
        TokenType::Vector4Literal => "Vector4Literal"@,
        TokenType::Matrix2Literal => "Matrix2Literal"@,
        TokenType::Matrix3Literal => "Matrix3Literal"@,
        TokenType::Matrix4Literal => "Matrix4Literal"@,
        TokenType::I8 => "I8"@,
        TokenType::I16 => "I16"@,
        TokenType::I32 => "I32"@,
        TokenType::I64 => "I64"@,
        TokenType::U8 => "U8"@,
        TokenType::U16 => "U16"@,
        TokenType::U32 => "U32"@,
        TokenType::U64 => "U64"@,
        TokenType::F32 => "F32"@,
        TokenType::F64 => "F64"@,
        TokenType::Bool => "Bool"@,
        TokenType::Char => "Char"@,
        TokenType::V2 => "V2"@,
        TokenType::V3 => "V3"@,
        TokenType::V4 => "V4"@,
        TokenType::M2x2 => "M2x2"@,
        TokenType::M3x3 => "M3x3"@,
        TokenType::M4x4 => "M4x4"@,
        TokenType::Comma => "Comma"@,
        TokenType::Dot => "Dot"@,
        TokenType::Semicolon => "Semicolon"@,
        TokenType::Colon => "Colon"@,
        TokenType::LeftBrace => "LeftBrace"@,
        TokenType::RightBrace => "RightBrace"@,
        TokenType::LeftBracket => "LeftBracket"@,
        TokenType::RightBracket => "RightBracket"@,
        TokenType::LeftParenthesis => "LeftParenthesis"@,
        TokenType::RightParenthesis => "RightParenthesis"@,
        TokenType::SingleQuote => "SingleQuote"@,
        TokenType::DoubleQuote => "DoubleQuote"@,
        TokenType::StrokeQuote => "StrokeQuote"@,
        TokenType::Plus => "Plus"@,
        TokenType::Minus => "Minus"@,
        TokenType::Star => "Star"@,
        TokenType::Slash => "Slash"@,
        TokenType::Percent => "Percent"@,
        TokenType::Less => "Less"@,
        TokenType::Greater => "Greater"@,
        TokenType::Equals => "Equals"@,
        TokenType::LessEqual => "LessEqual"@,
        TokenType::GreaterEqual => "GreaterEqual"@,
        TokenType::Ampersand => "Ampersand"@,
        TokenType::PlusEquals => "PlusEquals"@,
        TokenType::MinusEquals => "MinusEquals"@,
        TokenType::StarEquals => "StarEquals"@,
        TokenType::SlashEquals => "SlashEquals"@,
        TokenType::BinaryOrEquals => "BinaryOrEquals"@,
        TokenType::BinaryAndEquals => "BinaryAndEquals"@,
        TokenType::BinaryXorEquals => "BinaryXorEquals"@,
        TokenType::BinaryInvertEquals => "BinaryInvertEquals"@,
        TokenType::Arrow => "Arrow"@,
        TokenType::MatchClauseSeparator => "MatchClauseSeparator"@,
        TokenType::QualifierSeparator => "QualifierSeparator"@,
        TokenType::RangeExclusive => "RangeExclusive"@,
        TokenType::RangeInclusive => "RangeInclusive"@,
        TokenType::SingleLineComment => "SingleLineComment"@,
        TokenType::MultilineCommentStart => "MultilineCommentStart"@,
        TokenType::MultilineCommentEnd => "MultilineCommentEnd"@,
        TokenType::Increment => "Increment"@,
        TokenType::Decrement => "Decrement"@,
        TokenType::EqualsEquals => "EqualsEquals"@,
        TokenType::NotEquals => "NotEquals"@,
        TokenType::LogicalOr => "LogicalOr"@,
        TokenType::LogicalAnd => "LogicalAnd"@,
        TokenType::LogicalNot => "LogicalNot"@,
        TokenType::BinaryOr => "BinaryOr"@,
        TokenType::BinaryAnd => "BinaryAnd"@,
        TokenType::BinaryXor => "BinaryXor"@,
        TokenType::BinaryInvert => "BinaryInvert"@,
        TokenType::BinaryShiftLeft => "BinaryShiftLeft"@,
        TokenType::BinaryShiftRight => "BinaryShiftRight"@,
        TokenType::MutRef => "MutRef"@,
        TokenType::Pub => "Pub"@,
        TokenType::Use => "Use"@,
        TokenType::Extern => "Extern"@,
        TokenType::Enum => "Enum"@,
        TokenType::Union => "Union"@,
        TokenType::Struct => "Struct"@,
        TokenType::Impl => "Impl"@,
        TokenType::Branch => "Branch"@,
        TokenType::Go => "Go"@,
        TokenType::EnumStruct => "EnumStruct"@,
        TokenType::UnionStruct => "UnionStruct"@,
        TokenType::SelfToken => "SelfToken"@,
        TokenType::Fn => "Fn"@,
        TokenType::Let => "Let"@,
        TokenType::Mut => "Mut"@,
        TokenType::Static => "Static"@,
        TokenType::Const => "Const"@,
        TokenType::Defer => "Defer"@,
        TokenType::Block => "Block"@,
        TokenType::Loop => "Loop"@,
        TokenType::For => "For"@,
        TokenType::While => "While"@,
        TokenType::Break => "Break"@,
        TokenType::Continue => "Continue"@,
        TokenType::If => "If"@,
        TokenType::Else => "Else"@,
        TokenType::Return => "Return"@,
        TokenType::Match => "Match"@,
        TokenType::As => "As"@,
        TokenType::Raw => "Raw"@,
        TokenType::AsRaw => "AsRaw"@,
    }
}

impl TokenType {
    /// The variant's name, as `{:?}` writes it.
    pub fn debug_name(&self) -> (r: &'static str)
        ensures
            r@ == token_type_name(*self),
    {
        match self {
            TokenType::EOF => "EOF",
            TokenType::Identifier => "Identifier",
            TokenType::Keyword => "Keyword",
            TokenType::F32Literal => "F32Literal",
            TokenType::F64Literal => "F64Literal",
            TokenType::I8Literal => "I8Literal",
            TokenType::I16Literal => "I16Literal",
            TokenType::I32Literal => "I32Literal",
            TokenType::I64Literal => "I64Literal",
            TokenType::U8Literal => "U8Literal",
            TokenType::U16Literal => "U16Literal",
            TokenType::U32Literal => "U32Literal",
            TokenType::U64Literal => "U64Literal",
            TokenType::BoolLiteral => "BoolLiteral",
            TokenType::StringLiteral => "StringLiteral",
            TokenType::MultilineStringLiteral => "MultilineStringLiteral",
            TokenType::CharLiteral => "CharLiteral",
            TokenType::ArrayLiteral => "ArrayLiteral",
            TokenType::Vector2Literal => "Vector2Literal",
            TokenType::Vector3Literal => "Vector3Literal",
            TokenType::Vector4Literal => "Vector4Literal",
            TokenType::Matrix2Literal => "Matrix2Literal",
            TokenType::Matrix3Literal => "Matrix3Literal",
            TokenType::Matrix4Literal => "Matrix4Literal",
            TokenType::I8 => "I8",
            TokenType::I16 => "I16",
            TokenType::I32 => "I32",
            TokenType::I64 => "I64",
            TokenType::U8 => "U8",
            TokenType::U16 => "U16",
            TokenType::U32 => "U32",
            TokenType::U64 => "U64",
            TokenType::F32 => "F32",
            TokenType::F64 => "F64",
            TokenType::Bool => "Bool",
            TokenType::Char => "Char",
            TokenType::V2 => "V2",
            TokenType::V3 => "V3",
            TokenType::V4 => "V4",
            TokenType::M2x2 => "M2x2",
            TokenType::M3x3 => "M3x3",
            TokenType::M4x4 => "M4x4",
            TokenType::Comma => "Comma",
            TokenType::Dot => "Dot",
            TokenType::Semicolon => "Semicolon",
            TokenType::Colon => "Colon",
            TokenType::LeftBrace => "LeftBrace",
            TokenType::RightBrace => "RightBrace",
            TokenType::LeftBracket => "LeftBracket",
            TokenType::RightBracket => "RightBracket",
            TokenType::LeftParenthesis => "LeftParenthesis",
            TokenType::RightParenthesis => "RightParenthesis",
            TokenType::SingleQuote => "SingleQuote",
            TokenType::DoubleQuote => "DoubleQuote",
            TokenType::StrokeQuote => "StrokeQuote",
            TokenType::Plus => "Plus",
            TokenType::Minus => "Minus",
            TokenType::Star => "Star",
            TokenType::Slash => "Slash",
            TokenType::Percent => "Percent",
            TokenType::Less => "Less",
            TokenType::Greater => "Greater",
            TokenType::Equals => "Equals",
            TokenType::LessEqual => "LessEqual",
            TokenType::GreaterEqual => "GreaterEqual",
            TokenType::Ampersand => "Ampersand",
            TokenType::PlusEquals => "PlusEquals",
            TokenType::MinusEquals => "MinusEquals",
            TokenType::StarEquals => "StarEquals",
            TokenType::SlashEquals => "SlashEquals",
            TokenType::BinaryOrEquals => "BinaryOrEquals",
            TokenType::BinaryAndEquals => "BinaryAndEquals",
            TokenType::BinaryXorEquals => "BinaryXorEquals",
            TokenType::BinaryInvertEquals => "BinaryInvertEquals",
            TokenType::Arrow => "Arrow",
            TokenType::MatchClauseSeparator => "MatchClauseSeparator",
            TokenType::QualifierSeparator => "QualifierSeparator",
            TokenType::RangeExclusive => "RangeExclusive",
            TokenType::RangeInclusive => "RangeInclusive",
            TokenType::SingleLineComment => "SingleLineComment",
            TokenType::MultilineCommentStart => "MultilineCommentStart",
            TokenType::MultilineCommentEnd => "MultilineCommentEnd",
            TokenType::Increment => "Increment",
            TokenType::Decrement => "Decrement",
            TokenType::EqualsEquals => "EqualsEquals",
            TokenType::NotEquals => "NotEquals",
            TokenType::LogicalOr => "LogicalOr",
            TokenType::LogicalAnd => "LogicalAnd",
            TokenType::LogicalNot => "LogicalNot",
            TokenType::BinaryOr => "BinaryOr",
            TokenType::BinaryAnd => "BinaryAnd",
            TokenType::BinaryXor => "BinaryXor",
            TokenType::BinaryInvert => "BinaryInvert",
            TokenType::BinaryShiftLeft => "BinaryShiftLeft",
            TokenType::BinaryShiftRight => "BinaryShiftRight",
            TokenType::MutRef => "MutRef",
            TokenType::Pub => "Pub",
            TokenType::Use => "Use",
            TokenType::Extern => "Extern",
            TokenType::Enum => "Enum",
            TokenType::Union => "Union",
            TokenType::Struct => "Struct",
            TokenType::Impl => "Impl",
            TokenType::Branch => "Branch",
            TokenType::Go => "Go",
            TokenType::EnumStruct => "EnumStruct",
            TokenType::UnionStruct => "UnionStruct",
            TokenType::SelfToken => "SelfToken",
            TokenType::Fn => "Fn",
            TokenType::Let => "Let",
            TokenType::Mut => "Mut",
            TokenType::Static => "Static",
            TokenType::Const => "Const",
            TokenType::Defer => "Defer",
            TokenType::Block => "Block",
            TokenType::Loop => "Loop",
            TokenType::For => "For",
            TokenType::While => "While",
            TokenType::Break => "Break",
            TokenType::Continue => "Continue",
            TokenType::If => "If",
            TokenType::Else => "Else",
            TokenType::Return => "Return",
            TokenType::Match => "Match",
            TokenType::As => "As",
            TokenType::Raw => "Raw",
            TokenType::AsRaw => "AsRaw",
        }
    }
}

impl Default for TokenType {
    fn default() -> (r: Self)
        ensures
            r == TokenType::EOF,
    {
        TokenType::EOF
    }
}

/// The tokens made of a single character that never starts a longer token.
pub open spec fn spec_simple_token_type(c: char) -> Option<TokenType> {
    match c {
        ',' => Some(TokenType::Comma),
        ':' => Some(TokenType::Colon),
        ';' => Some(TokenType::Semicolon),
        '{' => Some(TokenType::LeftBrace),
        '}' => Some(TokenType::RightBrace),
        '[' => Some(TokenType::LeftBracket),
        ']' => Some(TokenType::RightBracket),
        '(' => Some(TokenType::LeftParenthesis),
        ')' => Some(TokenType::RightParenthesis),
        '!' => Some(TokenType::LogicalNot),
        _ => None,
    }
}

/// Looks `c` up in the table of single-character tokens.
pub fn simple_token_type(c: char) -> (r: Option<TokenType>)
    ensures
        r == spec_simple_token_type(c),
{
    match c {
        ',' => Some(TokenType::Comma),
        ':' => Some(TokenType::Colon),
        ';' => Some(TokenType::Semicolon),
        '{' => Some(TokenType::LeftBrace),
        '}' => Some(TokenType::RightBrace),
        '[' => Some(TokenType::LeftBracket),
        ']' => Some(TokenType::RightBracket),
        '(' => Some(TokenType::LeftParenthesis),
        ')' => Some(TokenType::RightParenthesis),
        '!' => Some(TokenType::LogicalNot),
        _ => None,
    }
}

/// The token that a character which may start a two-character token stands
/// for when it is not followed by one of its continuations.
pub open spec fn spec_double_token_default(c: char) -> Option<TokenType> {
    match c {
        '-' => Some(TokenType::Minus),
        '+' => Some(TokenType::Plus),
        '*' => Some(TokenType::Star),
        '/' => Some(TokenType::Slash),
        '|' => Some(TokenType::BinaryOr),
        '&' => Some(TokenType::Ampersand),
        '.' => Some(TokenType::Dot),
        '!' => Some(TokenType::LogicalNot),
        '=' => Some(TokenType::Equals),
        '~' => Some(TokenType::BinaryInvert),
        '<' => Some(TokenType::Less),
        '>' => Some(TokenType::Greater),
        _ => None,
    }
}

/// The two-character tokens: the token that `first` followed by `second` forms.
pub open spec fn spec_double_token_follow(first: char, second: char) -> Option<TokenType> {
    match (first, second) {
        ('-', '-') => Some(TokenType::Decrement),
        ('-', '>') => Some(TokenType::Arrow),
        ('-', '=') => Some(TokenType::MinusEquals),
        ('+', '+') => Some(TokenType::Increment),
        ('+', '=') => Some(TokenType::PlusEquals),
        ('*', '=') => Some(TokenType::StarEquals),
        ('*', '/') => Some(TokenType::MultilineCommentEnd),
        ('/', '=') => Some(TokenType::SlashEquals),
        ('/', '/') => Some(TokenType::SingleLineComment),
        ('/', '*') => Some(TokenType::MultilineCommentStart),
        ('|', '|') => Some(TokenType::LogicalOr),
        ('|', '=') => Some(TokenType::BinaryOrEquals),
        ('&', '&') => Some(TokenType::LogicalAnd),
        ('&', '=') => Some(TokenType::BinaryAndEquals),
        ('.', '.') => Some(TokenType::RangeExclusive),
        ('.', '=') => Some(TokenType::RangeInclusive),
        ('!', '=') => Some(TokenType::NotEquals),
        ('=', '=') => Some(TokenType::EqualsEquals),
        ('~', '=') => Some(TokenType::BinaryInvertEquals),
        ('<', '=') => Some(TokenType::LessEqual),
        ('<', '<') => Some(TokenType::BinaryShiftLeft),
        ('>', '=') => Some(TokenType::GreaterEqual),
        ('>', '>') => Some(TokenType::BinaryShiftRight),
        _ => None,
    }
}

/// Looks `c` up among the characters that may start a two-character token.
pub fn double_token_default(c: char) -> (r: Option<TokenType>)
    ensures
        r == spec_double_token_default(c),
{
    match c {
        '-' => Some(TokenType::Minus),
        '+' => Some(TokenType::Plus),
        '*' => Some(TokenType::Star),
        '/' => Some(TokenType::Slash),
        '|' => Some(TokenType::BinaryOr),
        '&' => Some(TokenType::Ampersand),
        '.' => Some(TokenType::Dot),
        '!' => Some(TokenType::LogicalNot),
        '=' => Some(TokenType::Equals),
        '~' => Some(TokenType::BinaryInvert),
        '<' => Some(TokenType::Less),
        '>' => Some(TokenType::Greater),
        _ => None,
    }
}

/// Looks up the two-character token that `first` followed by `second` forms.
pub fn double_token_follow(first: char, second: char) -> (r: Option<TokenType>)
    ensures
        r == spec_double_token_follow(first, second),
{
    match (first, second) {
        ('-', '-') => Some(TokenType::Decrement),
        ('-', '>') => Some(TokenType::Arrow),
        ('-', '=') => Some(TokenType::MinusEquals),
        ('+', '+') => Some(TokenType::Increment),
        ('+', '=') => Some(TokenType::PlusEquals),
        ('*', '=') => Some(TokenType::StarEquals),
        ('*', '/') => Some(TokenType::MultilineCommentEnd),
        ('/', '=') => Some(TokenType::SlashEquals),
        ('/', '/') => Some(TokenType::SingleLineComment),
        ('/', '*') => Some(TokenType::MultilineCommentStart),
        ('|', '|') => Some(TokenType::LogicalOr),
        ('|', '=') => Some(TokenType::BinaryOrEquals),
        ('&', '&') => Some(TokenType::LogicalAnd),
        ('&', '=') => Some(TokenType::BinaryAndEquals),
        ('.', '.') => Some(TokenType::RangeExclusive),
        ('.', '=') => Some(TokenType::RangeInclusive),
        ('!', '=') => Some(TokenType::NotEquals),
        ('=', '=') => Some(TokenType::EqualsEquals),
        ('~', '=') => Some(TokenType::BinaryInvertEquals),
        ('<', '=') => Some(TokenType::LessEqual),
        ('<', '<') => Some(TokenType::BinaryShiftLeft),
        ('>', '=') => Some(TokenType::GreaterEqual),
        ('>', '>') => Some(TokenType::BinaryShiftRight),
        _ => None,
    }
}

/// Whether the sequence of characters `word` spells `text`.
pub fn chars_spell(word: &[char], text: &str) -> (r: bool)
    ensures
        r == (word@ == text@),
{
    let n = text.unicode_len();
    if word.len() != n {
        return false;
    }
    let mut i: usize = 0;
    while i < n
        invariant
            n == text@.len(),
            word@.len() == n,
            i <= n,
            forall|j: int| 0 <= j < i ==> word@[j] == text@[j],
        decreases n - i,
    {
        if word[i] != text.get_char(i) {
            return false;
        }
        i = i + 1;
    }
    assert(word@ =~= text@);
    true
}

/// The reserved words of the language and the token each one stands for.
pub open spec fn spec_keyword_type(word: Seq<char>) -> Option<TokenType> {
    if word == "i8"@ { Some(TokenType::I8) }
    else if word == "i16"@ { Some(TokenType::I16) }
    else if word == "i32"@ { Some(TokenType::I32) }
    else if word == "i64"@ { Some(TokenType::I64) }
    else if word == "u8"@ { Some(TokenType::U8) }
    else if word == "u16"@ { Some(TokenType::U16) }
    else if word == "u32"@ { Some(TokenType::U32) }
    else if word == "u64"@ { Some(TokenType::U64) }
    else if word == "f32"@ { Some(TokenType::F32) }
    else if word == "f64"@ { Some(TokenType::F64) }
    else if word == "bool"@ { Some(TokenType::Bool) }
    else if word == "v2"@ { Some(TokenType::V2) }
    else if word == "v3"@ { Some(TokenType::V3) }
    else if word == "v4"@ { Some(TokenType::V4) }
    else if word == "m2x2"@ { Some(TokenType::M2x2) }
    else if word == "m3x3"@ { Some(TokenType::M3x3) }
    else if word == "m4x4"@ { Some(TokenType::M4x4) }
    else if word == "pub"@ { Some(TokenType::Pub) }
    else if word == "extern"@ { Some(TokenType::Extern) }
    else if word == "enum"@ { Some(TokenType::Enum) }
    else if word == "union"@ { Some(TokenType::Union) }
    else if word == "struct"@ { Some(TokenType::Struct) }
    else if word == "impl"@ { Some(TokenType::Impl) }
    else if word == "self"@ { Some(TokenType::SelfToken) }
    else if word == "fn"@ { Some(TokenType::Fn) }
    else if word == "let"@ { Some(TokenType::Let) }
    else if word == "mut"@ { Some(TokenType::Mut) }
    else if word == "static"@ { Some(TokenType::Static) }
    else if word == "const"@ { Some(TokenType::Const) }
    else if word == "defer"@ { Some(TokenType::Defer) }
    else if word == "loop"@ { Some(TokenType::Loop) }
    else if word == "for"@ { Some(TokenType::For) }
    else if word == "while"@ { Some(TokenType::While) }
    else if word == "break"@ { Some(TokenType::Break) }
    else if word == "continue"@ { Some(TokenType::Continue) }
    else if word == "if"@ { Some(TokenType::If) }
    else if word == "else"@ { Some(TokenType::Else) }
    else if word == "return"@ { Some(TokenType::Return) }
    else if word == "match"@ { Some(TokenType::Match) }
    else if word == "as"@ { Some(TokenType::As) }
    else if word == "raw"@ { Some(TokenType::Raw) }
    else if word == "go"@ { Some(TokenType::Go) }
    else if word == "branch"@ { Some(TokenType::Go) }
    else { None }
}


/// The reserved words of the language, each with the token it stands for.
pub open spec fn reserved_words() -> Seq<(Seq<char>, TokenType)> {
    seq![
        ("i8"@, TokenType::I8),
        ("i16"@, TokenType::I16),
        ("i32"@, TokenType::I32),
        ("i64"@, TokenType::I64),
        ("u8"@, TokenType::U8),
        ("u16"@, TokenType::U16),
        ("u32"@, TokenType::U32),
        ("u64"@, TokenType::U64),
        ("f32"@, TokenType::F32),
        ("f64"@, TokenType::F64),
        ("bool"@, TokenType::Bool),
        ("v2"@, TokenType::V2),
        ("v3"@, TokenType::V3),
        ("v4"@, TokenType::V4),
        ("m2x2"@, TokenType::M2x2),
        ("m3x3"@, TokenType::M3x3),
        ("m4x4"@, TokenType::M4x4),
        ("pub"@, TokenType::Pub),
        ("extern"@, TokenType::Extern),
        ("enum"@, TokenType::Enum),
        ("union"@, TokenType::Union),
        ("struct"@, TokenType::Struct),
        ("impl"@, TokenType::Impl),
        ("self"@, TokenType::SelfToken),
        ("fn"@, TokenType::Fn),
        ("let"@, TokenType::Let),
        ("mut"@, TokenType::Mut),
        ("static"@, TokenType::Static),
        ("const"@, TokenType::Const),
        ("defer"@, TokenType::Defer),
        ("loop"@, TokenType::Loop),
        ("for"@, TokenType::For),
        ("while"@, TokenType::While),
        ("break"@, TokenType::Break),
        ("continue"@, TokenType::Continue),
        ("if"@, TokenType::If),
        ("else"@, TokenType::Else),
        ("return"@, TokenType::Return),
        ("match"@, TokenType::Match),
        ("as"@, TokenType::As),
        ("raw"@, TokenType::Raw),
        ("go"@, TokenType::Go),
        ("branch"@, TokenType::Go),
    ]
}

/// Each reserved word is read as the token it stands for.
pub proof fn law_reserved_words(i: int)
    requires
        0 <= i < reserved_words().len(),
    ensures
        spec_keyword_type(reserved_words()[i].0) == Some(reserved_words()[i].1),
{
    reveal_strlit("i8");
    reveal_strlit("i16");
    reveal_strlit("i32");
    reveal_strlit("i64");
    reveal_strlit("u8");
    reveal_strlit("u16");
    reveal_strlit("u32");
    reveal_strlit("u64");
    reveal_strlit("f32");
    reveal_strlit("f64");
    reveal_strlit("bool");
    reveal_strlit("v2");
    reveal_strlit("v3");
    reveal_strlit("v4");
    reveal_strlit("m2x2");
    reveal_strlit("m3x3");
    reveal_strlit("m4x4");
    reveal_strlit("pub");
    reveal_strlit("extern");
    reveal_strlit("enum");
    reveal_strlit("union");
    reveal_strlit("struct");
    reveal_strlit("impl");
    reveal_strlit("self");
    reveal_strlit("fn");
    reveal_strlit("let");
    reveal_strlit("mut");
    reveal_strlit("static");
    reveal_strlit("const");
    reveal_strlit("defer");
    reveal_strlit("loop");
    reveal_strlit("for");
    reveal_strlit("while");
    reveal_strlit("break");
    reveal_strlit("continue");
    reveal_strlit("if");
    reveal_strlit("else");
    reveal_strlit("return");
    reveal_strlit("match");
    reveal_strlit("as");
    reveal_strlit("raw");
    reveal_strlit("go");
    reveal_strlit("branch");
    assert("i8"@ =~= seq!['i', '8']);
    assert("i16"@ =~= seq!['i', '1', '6']);
    assert("i32"@ =~= seq!['i', '3', '2']);
    assert("i64"@ =~= seq!['i', '6', '4']);
    assert("u8"@ =~= seq!['u', '8']);
    assert("u16"@ =~= seq!['u', '1', '6']);
    assert("u32"@ =~= seq!['u', '3', '2']);
    assert("u64"@ =~= seq!['u', '6', '4']);
    assert("f32"@ =~= seq!['f', '3', '2']);
    assert("f64"@ =~= seq!['f', '6', '4']);
    assert("bool"@ =~= seq!['b', 'o', 'o', 'l']);
    assert("v2"@ =~= seq!['v', '2']);
    assert("v3"@ =~= seq!['v', '3']);
    assert("v4"@ =~= seq!['v', '4']);
    assert("m2x2"@ =~= seq!['m', '2', 'x', '2']);
    assert("m3x3"@ =~= seq!['m', '3', 'x', '3']);
    assert("m4x4"@ =~= seq!['m', '4', 'x', '4']);
    assert("pub"@ =~= seq!['p', 'u', 'b']);
    assert("extern"@ =~= seq!['e', 'x', 't', 'e', 'r', 'n']);
    assert("enum"@ =~= seq!['e', 'n', 'u', 'm']);
    assert("union"@ =~= seq!['u', 'n', 'i', 'o', 'n']);
    assert("struct"@ =~= seq!['s', 't', 'r', 'u', 'c', 't']);
    assert("impl"@ =~= seq!['i', 'm', 'p', 'l']);
    assert("self"@ =~= seq!['s', 'e', 'l', 'f']);
    assert("fn"@ =~= seq!['f', 'n']);
    assert("let"@ =~= seq!['l', 'e', 't']);
    assert("mut"@ =~= seq!['m', 'u', 't']);
    assert("static"@ =~= seq!['s', 't', 'a', 't', 'i', 'c']);
    assert("const"@ =~= seq!['c', 'o', 'n', 's', 't']);
    assert("defer"@ =~= seq!['d', 'e', 'f', 'e', 'r']);
    assert("loop"@ =~= seq!['l', 'o', 'o', 'p']);
    assert("for"@ =~= seq!['f', 'o', 'r']);
    assert("while"@ =~= seq!['w', 'h', 'i', 'l', 'e']);
    assert("break"@ =~= seq!['b', 'r', 'e', 'a', 'k']);
    assert("continue"@ =~= seq!['c', 'o', 'n', 't', 'i', 'n', 'u', 'e']);
    assert("if"@ =~= seq!['i', 'f']);
    assert("else"@ =~= seq!['e', 'l', 's', 'e']);
    assert("return"@ =~= seq!['r', 'e', 't', 'u', 'r', 'n']);
    assert("match"@ =~= seq!['m', 'a', 't', 'c', 'h']);
    assert("as"@ =~= seq!['a', 's']);
    assert("raw"@ =~= seq!['r', 'a', 'w']);
    assert("go"@ =~= seq!['g', 'o']);
    assert("branch"@ =~= seq!['b', 'r', 'a', 'n', 'c', 'h']);
}

/// Looks `word` up among the reserved words.
pub fn keyword_type(word: &[char]) -> (r: Option<TokenType>)
    ensures
        r == spec_keyword_type(word@),
{
    if chars_spell(word, "i8") {
        return Some(TokenType::I8);
    }
    if chars_spell(word, "i16") {
        return Some(TokenType::I16);
    }
    if chars_spell(word, "i32") {
        return Some(TokenType::I32);
    }
    if chars_spell(word, "i64") {
        return Some(TokenType::I64);
    }
    if chars_spell(word, "u8") {
        return Some(TokenType::U8);
    }
    if chars_spell(word, "u16") {
        return Some(TokenType::U16);
    }
    if chars_spell(word, "u32") {
        return Some(TokenType::U32);
    }
    if chars_spell(word, "u64") {
        return Some(TokenType::U64);
    }
    if chars_spell(word, "f32") {
        return Some(TokenType::F32);
    }
    if chars_spell(word, "f64") {
        return Some(TokenType::F64);
    }
    if chars_spell(word, "bool") {
        return Some(TokenType::Bool);
    }
    if chars_spell(word, "v2") {
        return Some(TokenType::V2);
    }
    if chars_spell(word, "v3") {
        return Some(TokenType::V3);
    }
    if chars_spell(word, "v4") {
        return Some(TokenType::V4);
    }
    if chars_spell(word, "m2x2") {
        return Some(TokenType::M2x2);
    }
    if chars_spell(word, "m3x3") {
        return Some(TokenType::M3x3);
    }
    if chars_spell(word, "m4x4") {
        return Some(TokenType::M4x4);
    }
    if chars_spell(word, "pub") {
        return Some(TokenType::Pub);
    }
    if chars_spell(word, "extern") {
        return Some(TokenType::Extern);
    }
    if chars_spell(word, "enum") {
        return Some(TokenType::Enum);
    }
    if chars_spell(word, "union") {
        return Some(TokenType::Union);
    }
    if chars_spell(word, "struct") {
        return Some(TokenType::Struct);
    }
    if chars_spell(word, "impl") {
        return Some(TokenType::Impl);
    }
    if chars_spell(word, "self") {
        return Some(TokenType::SelfToken);
    }
    if chars_spell(word, "fn") {
        return Some(TokenType::Fn);
    }
    if chars_spell(word, "let") {
        return Some(TokenType::Let);
    }
    if chars_spell(word, "mut") {
        return Some(TokenType::Mut);
    }
    if chars_spell(word, "static") {
        return Some(TokenType::Static);
    }
    if chars_spell(word, "const") {
        return Some(TokenType::Const);
    }
    if chars_spell(word, "defer") {
        return Some(TokenType::Defer);
    }
    if chars_spell(word, "loop") {
        return Some(TokenType::Loop);
    }
    if chars_spell(word, "for") {
        return Some(TokenType::For);
    }
    if chars_spell(word, "while") {
        return Some(TokenType::While);
    }
    if chars_spell(word, "break") {
        return Some(TokenType::Break);
    }
    if chars_spell(word, "continue") {
        return Some(TokenType::Continue);
    }
    if chars_spell(word, "if") {
        return Some(TokenType::If);
    }
    if chars_spell(word, "else") {
        return Some(TokenType::Else);
    }
    if chars_spell(word, "return") {
        return Some(TokenType::Return);
    }
    if chars_spell(word, "match") {
        return Some(TokenType::Match);
    }
    if chars_spell(word, "as") {
        return Some(TokenType::As);
    }
    if chars_spell(word, "raw") {
        return Some(TokenType::Raw);
    }
    if chars_spell(word, "go") {
        return Some(TokenType::Go);
    }
    if chars_spell(word, "branch") {
        return Some(TokenType::Go);
    }
    None
}

/// The suffixes that fix the type of a number literal.
pub open spec fn spec_number_postfix_type(postfix: Seq<char>) -> Option<TokenType> {
    if postfix == "i8"@ { Some(TokenType::I8Literal) }
    else if postfix == "i16"@ { Some(TokenType::I16Literal) }
    else if postfix == "i32"@ { Some(TokenType::I32Literal) }
    else if postfix == "i64"@ { Some(TokenType::I64Literal) }
    else if postfix == "u8"@ { Some(TokenType::U8Literal) }
    else if postfix == "u16"@ { Some(TokenType::U16Literal) }
    else if postfix == "u32"@ { Some(TokenType::U32Literal) }
    else if postfix == "u64"@ { Some(TokenType::U64Literal) }
    else if postfix == "f32"@ { Some(TokenType::F32Literal) }
    else if postfix == "f64"@ { Some(TokenType::F64Literal) }
    else { None }
}

/// The suffixes of number literals, each with the type of literal it makes.
pub open spec fn number_suffixes() -> Seq<(Seq<char>, TokenType)> {
    seq![
        ("i8"@, TokenType::I8Literal),
        ("i16"@, TokenType::I16Literal),
        ("i32"@, TokenType::I32Literal),
        ("i64"@, TokenType::I64Literal),
        ("u8"@, TokenType::U8Literal),
        ("u16"@, TokenType::U16Literal),
        ("u32"@, TokenType::U32Literal),
        ("u64"@, TokenType::U64Literal),
        ("f32"@, TokenType::F32Literal),
        ("f64"@, TokenType::F64Literal),
    ]
}

/// Each number suffix makes a literal of its type.
pub proof fn law_number_suffixes(i: int)
    requires
        0 <= i < number_suffixes().len(),
    ensures
        spec_number_postfix_type(number_suffixes()[i].0) == Some(number_suffixes()[i].1),
{
    reveal_strlit("i8");
    reveal_strlit("i16");
    reveal_strlit("i32");
    reveal_strlit("i64");
    reveal_strlit("u8");
    reveal_strlit("u16");
    reveal_strlit("u32");
    reveal_strlit("u64");
    reveal_strlit("f32");
    reveal_strlit("f64");
    assert("i8"@ =~= seq!['i', '8']);
    assert("i16"@ =~= seq!['i', '1', '6']);
    assert("i32"@ =~= seq!['i', '3', '2']);
    assert("i64"@ =~= seq!['i', '6', '4']);
    assert("u8"@ =~= seq!['u', '8']);
    assert("u16"@ =~= seq!['u', '1', '6']);
    assert("u32"@ =~= seq!['u', '3', '2']);
    assert("u64"@ =~= seq!['u', '6', '4']);
    assert("f32"@ =~= seq!['f', '3', '2']);
    assert("f64"@ =~= seq!['f', '6', '4']);
}

/// Looks `postfix` up among the number literal suffixes.
pub fn number_postfix_type(postfix: &[char]) -> (r: Option<TokenType>)
    ensures
        r == spec_number_postfix_type(postfix@),
{
    if chars_spell(postfix, "i8") {
        return Some(TokenType::I8Literal);
    }
    if chars_spell(postfix, "i16") {
        return Some(TokenType::I16Literal);
    }
    if chars_spell(postfix, "i32") {
        return Some(TokenType::I32Literal);
    }
    if chars_spell(postfix, "i64") {
        return Some(TokenType::I64Literal);
    }
    if chars_spell(postfix, "u8") {
        return Some(TokenType::U8Literal);
    }
    if chars_spell(postfix, "u16") {
        return Some(TokenType::U16Literal);
    }
    if chars_spell(postfix, "u32") {
        return Some(TokenType::U32Literal);
    }
    if chars_spell(postfix, "u64") {
        return Some(TokenType::U64Literal);
    }
    if chars_spell(postfix, "f32") {
        return Some(TokenType::F32Literal);
    }
    if chars_spell(postfix, "f64") {
        return Some(TokenType::F64Literal);
    }
    None
}

/// The keywords that combine with a following keyword into one token: for a
/// keyword, the keyword that must follow and the combined token.
pub open spec fn spec_double_keyword(token_type: TokenType) -> Option<(TokenType, TokenType)> {
    match token_type {
        TokenType::Enum => Some((TokenType::Struct, TokenType::EnumStruct)),
        TokenType::Union => Some((TokenType::Struct, TokenType::UnionStruct)),
        _ => None,
    }
}

/// The keywords that join with the keyword after them into one token: the
/// first keyword, the one that must follow, and the token of the pair.
pub open spec fn joined_keywords() -> Seq<(TokenType, TokenType, TokenType)> {
    seq![
        (TokenType::Enum, TokenType::Struct, TokenType::EnumStruct),
        (TokenType::Union, TokenType::Struct, TokenType::UnionStruct),
    ]
}

/// `enum struct` and `union struct` join into one token each, and no other
/// token joins with what follows it.
pub proof fn law_joined_keywords(t: TokenType)
    ensures
        forall|i: int| 0 <= i < joined_keywords().len() && joined_keywords()[i].0 == t
            ==> spec_double_keyword(t) == Some((joined_keywords()[i].1, joined_keywords()[i].2)),
        !(t is Enum || t is Union) ==> spec_double_keyword(t) is None,
{
}

/// Looks `token_type` up among the keywords that combine with a following keyword.
pub fn double_keyword(token_type: TokenType) -> (r: Option<(TokenType, TokenType)>)
    ensures
        r == spec_double_keyword(token_type),
{
    match token_type {
        TokenType::Enum => Some((TokenType::Struct, TokenType::EnumStruct)),
        TokenType::Union => Some((TokenType::Struct, TokenType::UnionStruct)),
        _ => None,
    }
}

/// The characters that may follow a backslash in a character literal.
pub open spec fn spec_is_escape_character(c: char) -> bool {
    c == 'a' || c == 'b' || c == 'e' || c == 'f' || c == 'n' || c == 'r' || c == 't' || c == 'v'
        || c == '\\' || c == '\''
}

/// Whether `c` may follow a backslash in a character literal.
pub fn is_escape_character(c: char) -> (r: bool)
    ensures
        r == spec_is_escape_character(c),
{
    c == 'a' || c == 'b' || c == 'e' || c == 'f' || c == 'n' || c == 'r' || c == 't' || c == 'v'
        || c == '\\' || c == '\''
}

/// The integer literal types that are unsigned.
pub open spec fn is_unsigned_literal_type(t: TokenType) -> bool {
    t == TokenType::U8Literal || t == TokenType::U16Literal || t == TokenType::U32Literal
        || t == TokenType::U64Literal
}

/// The number of characters of the suffix that gives a literal of type `t`.
pub open spec fn postfix_length(t: TokenType) -> int {
    if t == TokenType::I8Literal || t == TokenType::U8Literal { 2 } else { 3 }
}

/// Each suffix in the table is as long as [`postfix_length`] says.
pub proof fn lemma_number_postfix_length(postfix: Seq<char>)
    ensures
        spec_number_postfix_type(postfix) matches Some(t) ==> postfix.len() == postfix_length(t),
{
    reveal_strlit("i8");
    reveal_strlit("i16");
    reveal_strlit("i32");
    reveal_strlit("i64");
    reveal_strlit("u8");
    reveal_strlit("u16");
    reveal_strlit("u32");
    reveal_strlit("u64");
    reveal_strlit("f32");
    reveal_strlit("f64");
}

} // verus!

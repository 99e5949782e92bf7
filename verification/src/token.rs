//! The token model: the closed set of token kinds, the token record, and
//! their canonical textual rendering.
//!
//! A token renders as `"<KIND_NAME> <lexeme> <literal-or-null>"`.  String
//! literals carry their unquoted content; number literals carry the numeric
//! text they were scanned from, and render it in normalized decimal form:
//! a whole value shows exactly one trailing zero digit (`123` renders as
//! `123.0`), any other value drops superfluous zeros (`123.400` renders as
//! `123.4`, `007` as `7.0`).

use vstd::prelude::*;

use crate::text::find_from;

verus! {

/// The closed set of token kinds.  Consumers must match it exhaustively;
/// adding a kind is a breaking change by design.
///
/// A string literal carries its content without the delimiting quotes.
/// A number literal carries the exact numeric text that was scanned
/// (decimal digits with at most one decimal point); its rendered value is
/// derived from that text by [`number_literal_text`].
#[derive(Debug, PartialEq, Clone)]
pub enum TokenType {
    LeftParen,
    RightParen,
    LeftBrace,
    RightBrace,
    Comma,
    Dot,
    Minus,
    Plus,
    Semicolon,
    Slash,
    Star,
    Bang,
    BangEqual,
    Equal,
    EqualEqual,
    Greater,
    GreaterEqual,
    Less,
    LessEqual,
    Identifier,
    StringLiteral(String),
    Number(String),
    And,
    Class,
    Else,
    False,
    Fun,
    For,
    If,
    Nil,
    Or,
    Print,
    Return,
    Super,
    This,
    True,
    Var,
    While,
    Eof,
}

/// The mathematical image of a [`TokenType`]: payloads become character
/// sequences.
pub enum TokenTypeV {
    LeftParen,
    RightParen,
    LeftBrace,
    RightBrace,
    Comma,
    Dot,
    Minus,
    Plus,
    Semicolon,
    Slash,
    Star,
    Bang,
    BangEqual,
    Equal,
    EqualEqual,
    Greater,
    GreaterEqual,
    Less,
    LessEqual,
    Identifier,
    StringLiteral(Seq<char>),
    Number(Seq<char>),
    And,
    Class,
    Else,
    False,
    Fun,
    For,
    If,
    Nil,
    Or,
    Print,
    Return,
    Super,
    This,
    True,
    Var,
    While,
    Eof,
}

impl View for TokenType {
    type V = TokenTypeV;

    open spec fn view(&self) -> TokenTypeV {
        match self {
            TokenType::LeftParen => TokenTypeV::LeftParen,
            TokenType::RightParen => TokenTypeV::RightParen,
            TokenType::LeftBrace => TokenTypeV::LeftBrace,
            TokenType::RightBrace => TokenTypeV::RightBrace,
            TokenType::Comma => TokenTypeV::Comma,
            TokenType::Dot => TokenTypeV::Dot,
            TokenType::Minus => TokenTypeV::Minus,
            TokenType::Plus => TokenTypeV::Plus,
            TokenType::Semicolon => TokenTypeV::Semicolon,
            TokenType::Slash => TokenTypeV::Slash,
            TokenType::Star => TokenTypeV::Star,
            TokenType::Bang => TokenTypeV::Bang,
            TokenType::BangEqual => TokenTypeV::BangEqual,
            TokenType::Equal => TokenTypeV::Equal,
            TokenType::EqualEqual => TokenTypeV::EqualEqual,
            TokenType::Greater => TokenTypeV::Greater,
            TokenType::GreaterEqual => TokenTypeV::GreaterEqual,
            TokenType::Less => TokenTypeV::Less,
            TokenType::LessEqual => TokenTypeV::LessEqual,
            TokenType::Identifier => TokenTypeV::Identifier,
            TokenType::StringLiteral(s) => TokenTypeV::StringLiteral(s@),
            TokenType::Number(t) => TokenTypeV::Number(t@),
            TokenType::And => TokenTypeV::And,
            TokenType::Class => TokenTypeV::Class,
            TokenType::Else => TokenTypeV::Else,
            TokenType::False => TokenTypeV::False,
            TokenType::Fun => TokenTypeV::Fun,
            TokenType::For => TokenTypeV::For,
            TokenType::If => TokenTypeV::If,
            TokenType::Nil => TokenTypeV::Nil,
            TokenType::Or => TokenTypeV::Or,
            TokenType::Print => TokenTypeV::Print,
            TokenType::Return => TokenTypeV::Return,
            TokenType::Super => TokenTypeV::Super,
            TokenType::This => TokenTypeV::This,
            TokenType::True => TokenTypeV::True,
            TokenType::Var => TokenTypeV::Var,
            TokenType::While => TokenTypeV::While,
            TokenType::Eof => TokenTypeV::Eof,
        }
    }
}

/// The canonical upper-case name of a token kind.
pub open spec fn kind_name(k: TokenTypeV) -> Seq<char> {
    match k {
        TokenTypeV::LeftParen => "LEFT_PAREN"@,
        TokenTypeV::RightParen => "RIGHT_PAREN"@,
        TokenTypeV::LeftBrace => "LEFT_BRACE"@,
        TokenTypeV::RightBrace => "RIGHT_BRACE"@,
        TokenTypeV::Comma => "COMMA"@,
        TokenTypeV::Dot => "DOT"@,
        TokenTypeV::Minus => "MINUS"@,
        TokenTypeV::Plus => "PLUS"@,
        TokenTypeV::Semicolon => "SEMICOLON"@,
        TokenTypeV::Slash => "SLASH"@,
        TokenTypeV::Star => "STAR"@,
        TokenTypeV::Bang => "BANG"@,
        TokenTypeV::BangEqual => "BANG_EQUAL"@,
        TokenTypeV::Equal => "EQUAL"@,
        TokenTypeV::EqualEqual => "EQUAL_EQUAL"@,
        TokenTypeV::Greater => "GREATER"@,
        TokenTypeV::GreaterEqual => "GREATER_EQUAL"@,
        TokenTypeV::Less => "LESS"@,
        TokenTypeV::LessEqual => "LESS_EQUAL"@,
        TokenTypeV::Identifier => "IDENTIFIER"@,
        TokenTypeV::StringLiteral(_) => "STRING_LITERAL"@,
        TokenTypeV::Number(_) => "NUMBER"@,
        TokenTypeV::And => "AND"@,
        TokenTypeV::Class => "CLASS"@,
        TokenTypeV::Else => "ELSE"@,
        TokenTypeV::False => "FALSE"@,
        TokenTypeV::Fun => "FUN"@,
        TokenTypeV::For => "FOR"@,
        TokenTypeV::If => "IF"@,
        TokenTypeV::Nil => "NIL"@,
        TokenTypeV::Or => "OR"@,
        TokenTypeV::Print => "PRINT"@,
        TokenTypeV::Return => "RETURN"@,
        TokenTypeV::Super => "SUPER"@,
        TokenTypeV::This => "THIS"@,
        TokenTypeV::True => "TRUE"@,
        TokenTypeV::Var => "VAR"@,
        TokenTypeV::While => "WHILE"@,
        TokenTypeV::Eof => "EOF"@,
    }
}

/// Leading zeros of a digit sequence removed, keeping at least one
/// character.
pub open spec fn strip_leading_zeros(s: Seq<char>) -> Seq<char>
    decreases s.len(),
{
    if s.len() >= 2 && s[0] == '0' {
        strip_leading_zeros(s.drop_first())
    } else {
        s
    }
}

/// Trailing zeros of a digit sequence removed; may leave it empty.
pub open spec fn strip_trailing_zeros(s: Seq<char>) -> Seq<char>
    decreases s.len(),
{
    if s.len() >= 1 && s[s.len() - 1] == '0' {
        strip_trailing_zeros(s.drop_last())
    } else {
        s
    }
}

/// The rendered value of a number literal, derived from its numeric text:
/// the normalized decimal with a fractional part of at least one digit.
/// A text without a decimal point, or whose fraction is all zeros, renders
/// with exactly one trailing zero digit; otherwise the trailing zeros of
/// the fraction and the leading zeros of the whole part are dropped.
pub open spec fn number_literal_text(t: Seq<char>) -> Seq<char> {
    let d = find_from(t, 0, '.');
    if d == t.len() {
        strip_leading_zeros(t) + ".0"@
    } else {
        let ip = strip_leading_zeros(t.subrange(0, d));
        let fp = strip_trailing_zeros(t.subrange(d + 1, t.len() as int));
        if fp.len() == 0 {
            ip + ".0"@
        } else {
            ip + "."@ + fp
        }
    }
}

/// The literal field of the canonical rendering: the content for a string
/// literal, the normalized decimal for a number literal, and the text
/// `null` for every other kind.
pub open spec fn literal_text(k: TokenTypeV) -> Seq<char> {
    match k {
        TokenTypeV::StringLiteral(s) => s,
        TokenTypeV::Number(t) => number_literal_text(t),
        _ => "null"@,
    }
}

/// Rendering any kind that carries no literal payload always yields the
/// literal field `null`.
pub proof fn lemma_nonliteral_renders_null(k: TokenTypeV)
    requires
        !(k is StringLiteral),
        !(k is Number),
    ensures
        literal_text(k) == "null"@,
{
}

/// An immutable token record: its kind, the exact source substring it was
/// scanned from, and the 1-based line on which it started.  Only the
/// terminal end-marker has an empty lexeme.
#[derive(Debug, PartialEq, Clone)]
pub struct Token {
    pub token_type: TokenType,
    pub lexeme: String,
    pub line: usize,
}

/// The mathematical image of a [`Token`].
pub struct TokenV {
    pub kind: TokenTypeV,
    pub lexeme: Seq<char>,
    pub line: nat,
}

impl View for Token {
    type V = TokenV;

    open spec fn view(&self) -> TokenV {
        TokenV { kind: self.token_type@, lexeme: self.lexeme@, line: self.line as nat }
    }
}

/// The canonical rendering of a token: its kind name, its lexeme and its
/// literal field, separated by single spaces.
pub open spec fn render_token(t: TokenV) -> Seq<char> {
    kind_name(t.kind) + " "@ + t.lexeme + " "@ + literal_text(t.kind)
}

impl TokenType {
    /// The canonical upper-case name of this kind.
    pub fn name(&self) -> (r: String)
        ensures
            r@ == kind_name(self@),
    {
        match self {
            TokenType::LeftParen => String::from_str("LEFT_PAREN"),
            TokenType::RightParen => String::from_str("RIGHT_PAREN"),
            TokenType::LeftBrace => String::from_str("LEFT_BRACE"),
            TokenType::RightBrace => String::from_str("RIGHT_BRACE"),
            TokenType::Comma => String::from_str("COMMA"),
            TokenType::Dot => String::from_str("DOT"),
            TokenType::Minus => String::from_str("MINUS"),
            TokenType::Plus => String::from_str("PLUS"),
            TokenType::Semicolon => String::from_str("SEMICOLON"),
            TokenType::Slash => String::from_str("SLASH"),
            TokenType::Star => String::from_str("STAR"),
            TokenType::Bang => String::from_str("BANG"),
            TokenType::BangEqual => String::from_str("BANG_EQUAL"),
            TokenType::Equal => String::from_str("EQUAL"),
            TokenType::EqualEqual => String::from_str("EQUAL_EQUAL"),
            TokenType::Greater => String::from_str("GREATER"),
            TokenType::GreaterEqual => String::from_str("GREATER_EQUAL"),
            TokenType::Less => String::from_str("LESS"),
            TokenType::LessEqual => String::from_str("LESS_EQUAL"),
            TokenType::Identifier => String::from_str("IDENTIFIER"),
            TokenType::StringLiteral(_) => String::from_str("STRING_LITERAL"),
            TokenType::Number(_) => String::from_str("NUMBER"),
            TokenType::And => String::from_str("AND"),
            TokenType::Class => String::from_str("CLASS"),
            TokenType::Else => String::from_str("ELSE"),
            TokenType::False => String::from_str("FALSE"),
            TokenType::Fun => String::from_str("FUN"),
            TokenType::For => String::from_str("FOR"),
            TokenType::If => String::from_str("IF"),
            TokenType::Nil => String::from_str("NIL"),
            TokenType::Or => String::from_str("OR"),
            TokenType::Print => String::from_str("PRINT"),
            TokenType::Return => String::from_str("RETURN"),
            TokenType::Super => String::from_str("SUPER"),
            TokenType::This => String::from_str("THIS"),
            TokenType::True => String::from_str("TRUE"),
            TokenType::Var => String::from_str("VAR"),
            TokenType::While => String::from_str("WHILE"),
            TokenType::Eof => String::from_str("EOF"),
        }
    }

    /// A copy of this kind with the same mathematical image.
    pub fn dup(&self) -> (r: TokenType)
        ensures
            r@ == self@,
    {
        match self {
            TokenType::LeftParen => TokenType::LeftParen,
            TokenType::RightParen => TokenType::RightParen,
            TokenType::LeftBrace => TokenType::LeftBrace,
            TokenType::RightBrace => TokenType::RightBrace,
            TokenType::Comma => TokenType::Comma,
            TokenType::Dot => TokenType::Dot,
            TokenType::Minus => TokenType::Minus,
            TokenType::Plus => TokenType::Plus,
            TokenType::Semicolon => TokenType::Semicolon,
            TokenType::Slash => TokenType::Slash,
            TokenType::Star => TokenType::Star,
            TokenType::Bang => TokenType::Bang,
            TokenType::BangEqual => TokenType::BangEqual,
            TokenType::Equal => TokenType::Equal,
            TokenType::EqualEqual => TokenType::EqualEqual,
            TokenType::Greater => TokenType::Greater,
            TokenType::GreaterEqual => TokenType::GreaterEqual,
            TokenType::Less => TokenType::Less,
            TokenType::LessEqual => TokenType::LessEqual,
            TokenType::Identifier => TokenType::Identifier,
            TokenType::StringLiteral(s) => TokenType::StringLiteral(s.clone()),
            TokenType::Number(t) => TokenType::Number(t.clone()),
            TokenType::And => TokenType::And,
            TokenType::Class => TokenType::Class,
            TokenType::Else => TokenType::Else,
            TokenType::False => TokenType::False,
            TokenType::Fun => TokenType::Fun,
            TokenType::For => TokenType::For,
            TokenType::If => TokenType::If,
            TokenType::Nil => TokenType::Nil,
            TokenType::Or => TokenType::Or,
            TokenType::Print => TokenType::Print,
            TokenType::Return => TokenType::Return,
            TokenType::Super => TokenType::Super,
            TokenType::This => TokenType::This,
            TokenType::True => TokenType::True,
            TokenType::Var => TokenType::Var,
            TokenType::While => TokenType::While,
            TokenType::Eof => TokenType::Eof,
        }
    }
}

/// Dropping the first element of a subrange shifts its lower bound.
proof fn lemma_subrange_drop_first(s: Seq<char>, lo: int, hi: int)
    requires
        0 <= lo < hi <= s.len(),
    ensures
        s.subrange(lo, hi).drop_first() =~= s.subrange(lo + 1, hi),
{
}

/// Dropping the last element of a subrange shifts its upper bound.
proof fn lemma_subrange_drop_last(s: Seq<char>, lo: int, hi: int)
    requires
        0 <= lo < hi <= s.len(),
    ensures
        s.subrange(lo, hi).drop_last() =~= s.subrange(lo, hi - 1),
{
}

/// The start of `strip_leading_zeros` applied to `t[lo..hi]`: the last
/// position a leading-zero scan stops at.
fn strip_start(t: &str, lo: usize, hi: usize) -> (a: usize)
    requires
        lo <= hi <= t@.len(),
    ensures
        lo <= a <= hi,
        t@.subrange(a as int, hi as int) == strip_leading_zeros(t@.subrange(lo as int, hi as int)),
    {
    let mut a = lo;
    while hi - a > 1 && t.get_char(a) == '0'
        invariant
            lo <= a <= hi <= t@.len(),
            a < hi || a == lo,
            strip_leading_zeros(t@.subrange(lo as int, hi as int)) == strip_leading_zeros(
                t@.subrange(a as int, hi as int),
            ),
        decreases hi - a,
    {
        proof {
            lemma_subrange_drop_first(t@, a as int, hi as int);
        }
        a = a + 1;
    }
    proof {
        assert(strip_leading_zeros(t@.subrange(a as int, hi as int)) == t@.subrange(
            a as int,
            hi as int,
        ));
    }
    a
}

/// The end of `strip_trailing_zeros` applied to `t[lo..hi]`: the last
/// position a trailing-zero scan stops at.
fn strip_end(t: &str, lo: usize, hi: usize) -> (b: usize)
    requires
        lo <= hi <= t@.len(),
    ensures
        lo <= b <= hi,
        t@.subrange(lo as int, b as int) == strip_trailing_zeros(
            t@.subrange(lo as int, hi as int),
        ),
    {
    let mut b = hi;
    while b > lo && t.get_char(b - 1) == '0'
        invariant
            lo <= b <= hi <= t@.len(),
            strip_trailing_zeros(t@.subrange(lo as int, hi as int)) == strip_trailing_zeros(
                t@.subrange(lo as int, b as int),
            ),
        decreases b,
    {
        proof {
            lemma_subrange_drop_last(t@, lo as int, b as int);
        }
        b = b - 1;
    }
    proof {
        assert(strip_trailing_zeros(t@.subrange(lo as int, b as int)) == t@.subrange(
            lo as int,
            b as int,
        ));
    }
    b
}

/// The normalized decimal rendering of a number literal's numeric text.
pub fn number_literal_string(t: &str) -> (r: String)
    ensures
        r@ == number_literal_text(t@),
{
    let n = t.unicode_len();
    let mut d: usize = 0;
    while d < n && t.get_char(d) != '.'
        invariant
            0 <= d <= n == t@.len(),
            find_from(t@, 0, '.') == find_from(t@, d as int, '.'),
        decreases n - d,
    {
        d = d + 1;
    }
    assert(d == find_from(t@, 0, '.'));
    if d == n {
        let a = strip_start(t, 0, n);
        let mut r = String::from_str(t.substring_char(a, n));
        r.append(".0");
        proof {
            assert(t@.subrange(0, n as int) =~= t@);
        }
        r
    } else {
        let a = strip_start(t, 0, d);
        let b = strip_end(t, d + 1, n);
        let mut r = String::from_str(t.substring_char(a, d));
        if b == d + 1 {
            r.append(".0");
        } else {
            r.append(".");
            r.append(t.substring_char(d + 1, b));
        }
        r
    }
}

impl Token {
    /// A token from its parts.
    pub fn new(token_type: TokenType, lexeme: String, line: usize) -> (t: Token)
        ensures
            t.token_type == token_type,
            t.lexeme == lexeme,
            t.line == line,
            t@ == (TokenV { kind: token_type@, lexeme: lexeme@, line: line as nat }),
    {
        Token { token_type, lexeme, line }
    }

    /// The canonical rendering of this token:
    /// `"<KIND_NAME> <lexeme> <literal-or-null>"`.
    pub fn render(&self) -> (r: String)
        ensures
            r@ == render_token(self@),
    {
        let mut r = self.token_type.name();
        r.append(" ");
        r.append(self.lexeme.as_str());
        r.append(" ");
        match &self.token_type {
            TokenType::StringLiteral(s) => {
                r.append(s.as_str());
            },
            TokenType::Number(t) => {
                let v = number_literal_string(t.as_str());
                r.append(v.as_str());
            },
            _ => {
                r.append("null");
            },
        }
        r
    }
}

} // verus!

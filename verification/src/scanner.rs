//! The scanner: a single-pass, stateful reader over the source text that
//! produces the token sequence and a list of diagnostics.
//!
//! The mathematical model is [`spec_scan`]: a recursive function over the
//! character sequence of the source.  Each top-level iteration starts in a
//! single neutral state and dispatches on the current character with at
//! most two characters of lookahead ([`spec_step`]); the executable
//! [`Scanner`] is proved to produce exactly the tokens and diagnostics of
//! the model.
//!
//! Lexical errors never stop the scan: they are collected beside the token
//! sequence, and flip the sticky failure flag.  An unterminated string is
//! attributed to the line reached at the point of failure, the end of the
//! input.

use vstd::prelude::*;

use crate::text::{check_alpha, check_digit, check_ident_char, count_char, digit_end, find_from,
    ident_end, is_alpha, is_digit, lemma_count_char_snoc, lemma_digit_end, lemma_find_from,
    lemma_ident_end};
use crate::token::{Token, TokenType, TokenTypeV, TokenV, render_token};

verus! {

/// The two lexical error kinds.  An unexpected character carries the
/// offending text, the one-character source substring it was found as.
#[derive(Debug, PartialEq, Clone)]
pub enum ScanErrorKind {
    UnterminatedString,
    UnexpectedCharacter(String),
}

/// The mathematical image of a [`ScanErrorKind`].
pub enum ScanErrorKindV {
    UnterminatedString,
    UnexpectedCharacter(Seq<char>),
}

impl View for ScanErrorKind {
    type V = ScanErrorKindV;

    open spec fn view(&self) -> ScanErrorKindV {
        match self {
            ScanErrorKind::UnterminatedString => ScanErrorKindV::UnterminatedString,
            ScanErrorKind::UnexpectedCharacter(t) => ScanErrorKindV::UnexpectedCharacter(t@),
        }
    }
}

/// A collected diagnostic: the 1-based line it is attributed to and its
/// kind.
#[derive(Debug, PartialEq, Clone)]
pub struct ScanError {
    pub line: usize,
    pub kind: ScanErrorKind,
}

/// The mathematical image of a [`ScanError`].
pub struct ScanErrorV {
    pub line: nat,
    pub kind: ScanErrorKindV,
}

impl View for ScanError {
    type V = ScanErrorV;

    open spec fn view(&self) -> ScanErrorV {
        ScanErrorV { line: self.line as nat, kind: self.kind@ }
    }
}

/// The effect of one top-level scanning iteration: where the cursor moves,
/// the line counter after the iteration, and the token or diagnostic the
/// iteration emits, if any.
pub struct ScanStep {
    pub next: int,
    pub line2: nat,
    pub token: Option<TokenV>,
    pub error: Option<ScanErrorV>,
}

/// Everything a complete scan emits: the token sequence, the end-marker
/// last, and the diagnostics in source order.
pub struct ScanOutput {
    pub tokens: Seq<TokenV>,
    pub errors: Seq<ScanErrorV>,
}

/// A sequence of the option's content: one element when present, none
/// otherwise.
pub open spec fn opt_seq<A>(o: Option<A>) -> Seq<A> {
    match o {
        Option::Some(a) => seq![a],
        Option::None => Seq::empty(),
    }
}

/// A single-character token at position `i`.
pub open spec fn step_single(s: Seq<char>, i: int, line: nat, k: TokenTypeV) -> ScanStep {
    ScanStep {
        next: i + 1,
        line2: line,
        token: Some(TokenV { kind: k, lexeme: s.subrange(i, i + 1), line }),
        error: None,
    }
}

/// A one-or-two-character operator at position `i`: the two-character kind
/// exactly when the next character is `=`.
pub open spec fn step_operator(
    s: Seq<char>,
    i: int,
    line: nat,
    one: TokenTypeV,
    two: TokenTypeV,
) -> ScanStep {
    if i + 1 < s.len() && s[i + 1] == '=' {
        ScanStep {
            next: i + 2,
            line2: line,
            token: Some(TokenV { kind: two, lexeme: s.subrange(i, i + 2), line }),
            error: None,
        }
    } else {
        step_single(s, i, line, one)
    }
}

/// Where the number literal beginning at the digit at `i` ends: the digit
/// run, then a fractional part only when a decimal point is directly
/// followed by a digit.
pub open spec fn number_end(s: Seq<char>, i: int) -> int {
    let a = digit_end(s, i + 1);
    if a + 1 < s.len() && s[a] == '.' && is_digit(s[a + 1]) {
        digit_end(s, a + 1)
    } else {
        a
    }
}

/// The fixed keyword table, in the order the scanner consults it.
pub open spec fn spec_keywords() -> Seq<(Seq<char>, TokenTypeV)> {
    seq![
        ("and"@, TokenTypeV::And),
        ("class"@, TokenTypeV::Class),
        ("else"@, TokenTypeV::Else),
        ("false"@, TokenTypeV::False),
        ("fun"@, TokenTypeV::Fun),
        ("for"@, TokenTypeV::For),
        ("if"@, TokenTypeV::If),
        ("nil"@, TokenTypeV::Nil),
        ("or"@, TokenTypeV::Or),
        ("print"@, TokenTypeV::Print),
        ("return"@, TokenTypeV::Return),
        ("super"@, TokenTypeV::Super),
        ("this"@, TokenTypeV::This),
        ("true"@, TokenTypeV::True),
        ("var"@, TokenTypeV::Var),
        ("while"@, TokenTypeV::While),
    ]
}

/// The kind of a maximal identifier-shaped word: the matching keyword kind
/// when the word equals a keyword exactly, the identifier kind otherwise.
pub open spec fn keyword_lookup(w: Seq<char>, j: int) -> TokenTypeV
    decreases spec_keywords().len() - j,
{
    if j < 0 || j >= spec_keywords().len() {
        TokenTypeV::Identifier
    } else if w == spec_keywords()[j].0 {
        spec_keywords()[j].1
    } else {
        keyword_lookup(w, j + 1)
    }
}

/// One top-level scanning iteration at position `i` on line `line`.
pub open spec fn spec_step(s: Seq<char>, i: int, line: nat) -> ScanStep
    recommends
        0 <= i < s.len(),
{
    let c = s[i];
    if c == '(' {
        step_single(s, i, line, TokenTypeV::LeftParen)
    } else if c == ')' {
        step_single(s, i, line, TokenTypeV::RightParen)
    } else if c == '{' {
        step_single(s, i, line, TokenTypeV::LeftBrace)
    } else if c == '}' {
        step_single(s, i, line, TokenTypeV::RightBrace)
    } else if c == ',' {
        step_single(s, i, line, TokenTypeV::Comma)
    } else if c == '.' {
        step_single(s, i, line, TokenTypeV::Dot)
    } else if c == '-' {
        step_single(s, i, line, TokenTypeV::Minus)
    } else if c == '+' {
        step_single(s, i, line, TokenTypeV::Plus)
    } else if c == ';' {
        step_single(s, i, line, TokenTypeV::Semicolon)
    } else if c == '*' {
        step_single(s, i, line, TokenTypeV::Star)
    } else if c == '=' {
        step_operator(s, i, line, TokenTypeV::Equal, TokenTypeV::EqualEqual)
    } else if c == '!' {
        step_operator(s, i, line, TokenTypeV::Bang, TokenTypeV::BangEqual)
    } else if c == '<' {
        step_operator(s, i, line, TokenTypeV::Less, TokenTypeV::LessEqual)
    } else if c == '>' {
        step_operator(s, i, line, TokenTypeV::Greater, TokenTypeV::GreaterEqual)
    } else if c == '/' {
        if i + 1 < s.len() && s[i + 1] == '/' {
            let e = find_from(s, i + 2, '\n');
            if e < s.len() {
                ScanStep { next: e + 1, line2: (line + 1) as nat, token: None, error: None }
            } else {
                ScanStep { next: s.len() as int, line2: line, token: None, error: None }
            }
        } else {
            step_single(s, i, line, TokenTypeV::Slash)
        }
    } else if c == ' ' || c == '\t' {
        ScanStep { next: i + 1, line2: line, token: None, error: None }
    } else if c == '\n' {
        ScanStep { next: i + 1, line2: (line + 1) as nat, token: None, error: None }
    } else if c == '"' {
        let e = find_from(s, i + 1, '"');
        if e < s.len() {
            ScanStep {
                next: e + 1,
                line2: (line + count_char(s, i + 1, e, '\n')) as nat,
                token: Some(
                    TokenV {
                        kind: TokenTypeV::StringLiteral(s.subrange(i + 1, e)),
                        lexeme: s.subrange(i, e + 1),
                        line,
                    },
                ),
                error: None,
            }
        } else {
            let l2 = (line + count_char(s, i + 1, s.len() as int, '\n')) as nat;
            ScanStep {
                next: s.len() as int,
                line2: l2,
                token: None,
                error: Some(ScanErrorV { line: l2, kind: ScanErrorKindV::UnterminatedString }),
            }
        }
    } else if is_digit(c) {
        let e = number_end(s, i);
        ScanStep {
            next: e,
            line2: line,
            token: Some(
                TokenV {
                    kind: TokenTypeV::Number(s.subrange(i, e)),
                    lexeme: s.subrange(i, e),
                    line,
                },
            ),
            error: None,
        }
    } else if is_alpha(c) {
        let e = ident_end(s, i + 1);
        ScanStep {
            next: e,
            line2: line,
            token: Some(
                TokenV {
                    kind: keyword_lookup(s.subrange(i, e), 0),
                    lexeme: s.subrange(i, e),
                    line,
                },
            ),
            error: None,
        }
    } else {
        ScanStep {
            next: i + 1,
            line2: line,
            token: None,
            error: Some(
                ScanErrorV {
                    line,
                    kind: ScanErrorKindV::UnexpectedCharacter(s.subrange(i, i + 1)),
                },
            ),
        }
    }
}

/// Every iteration consumes at least one character and never runs past the
/// end of the input.
pub proof fn lemma_step_bounds(s: Seq<char>, i: int, line: nat)
    requires
        0 <= i < s.len(),
    ensures
        i < spec_step(s, i, line).next <= s.len(),
{
    lemma_find_from(s, i + 1, '"');
    if i + 2 <= s.len() {
        lemma_find_from(s, i + 2, '\n');
    }
    lemma_ident_end(s, i + 1);
    lemma_digit_end(s, i + 1);
    let a = digit_end(s, i + 1);
    if a + 1 <= s.len() {
        lemma_digit_end(s, a + 1);
    }
}

/// The complete scan of `s` from position `i` on line `line`: the emitted
/// tokens, the end-marker last, and the diagnostics in source order.
pub open spec fn spec_scan(s: Seq<char>, i: int, line: nat) -> ScanOutput
    decreases s.len() - i,
        when 0 <= i <= s.len()
        via spec_scan_decreases
{
    if i >= s.len() {
        ScanOutput {
            tokens: seq![
                TokenV { kind: TokenTypeV::Eof, lexeme: Seq::empty(), line },
            ],
            errors: Seq::empty(),
        }
    } else {
        let st = spec_step(s, i, line);
        let rest = spec_scan(s, st.next, st.line2);
        ScanOutput {
            tokens: opt_seq(st.token) + rest.tokens,
            errors: opt_seq(st.error) + rest.errors,
        }
    }
}

#[via_fn]
proof fn spec_scan_decreases(s: Seq<char>, i: int, line: nat) {
    if 0 <= i < s.len() {
        lemma_step_bounds(s, i, line);
    }
}

/// The views of a sequence of tokens.
pub open spec fn token_views(ts: Seq<Token>) -> Seq<TokenV> {
    ts.map_values(|t: Token| t@)
}

/// The views of a sequence of diagnostics.
pub open spec fn error_views(es: Seq<ScanError>) -> Seq<ScanErrorV> {
    es.map_values(|e: ScanError| e@)
}

proof fn lemma_token_views_push(ts: Seq<Token>, t: Token)
    ensures
        token_views(ts.push(t)) =~= token_views(ts).push(t@),
{
}

proof fn lemma_error_views_push(es: Seq<ScanError>, e: ScanError)
    ensures
        error_views(es.push(e)) =~= error_views(es).push(e@),
{
}

/// An executable keyword table whose entries are exactly those of
/// [`spec_keywords`], in the same order.
pub open spec fn keywords_ok(ks: Seq<(String, TokenType)>) -> bool {
    &&& ks.len() == spec_keywords().len()
    &&& forall|j: int|
        0 <= j < ks.len() ==> {
            &&& (#[trigger] ks[j]).0@ == spec_keywords()[j].0
            &&& ks[j].1@ == spec_keywords()[j].1
        }
}

/// The scanner state: the source text, its length in characters, the mark
/// for the start of the token being built, the cursor, the 1-based line
/// counter, the accumulated tokens and diagnostics, the sticky failure
/// flag, and the keyword table.  It is created once per source text,
/// driven to completion once, and then discarded.
#[derive(Debug, PartialEq, Clone)]
pub struct Scanner {
    pub source: String,
    pub source_len: usize,
    pub tokens: Vec<Token>,
    pub start: usize,
    pub current: usize,
    pub line: usize,
    pub had_error: bool,
    pub keywords: Vec<(String, TokenType)>,
    pub errors: Vec<ScanError>,
}

impl Scanner {
    /// Well-formedness: the recorded length matches the source, the cursor
    /// stays within it, the line counter is 1-based and bounded by the
    /// characters consumed, and the keyword table is intact.  The length
    /// bound is a machine limit: the line counter must fit in `usize`.
    pub open spec fn wf(self) -> bool {
        &&& self.source_len == self.source@.len()
        &&& self.source@.len() < usize::MAX
        &&& self.start <= self.current <= self.source_len
        &&& 1 <= self.line <= 1 + self.current
        &&& keywords_ok(self.keywords@)
    }

    /// The fixed keyword-to-kind table, shared by every scan.
    pub fn init_keywords() -> (ks: Vec<(String, TokenType)>)
        ensures
            keywords_ok(ks@),
    {
        let mut ks: Vec<(String, TokenType)> = Vec::new();
        ks.push((String::from_str("and"), TokenType::And));
        ks.push((String::from_str("class"), TokenType::Class));
        ks.push((String::from_str("else"), TokenType::Else));
        ks.push((String::from_str("false"), TokenType::False));
        ks.push((String::from_str("fun"), TokenType::Fun));
        ks.push((String::from_str("for"), TokenType::For));
        ks.push((String::from_str("if"), TokenType::If));
        ks.push((String::from_str("nil"), TokenType::Nil));
        ks.push((String::from_str("or"), TokenType::Or));
        ks.push((String::from_str("print"), TokenType::Print));
        ks.push((String::from_str("return"), TokenType::Return));
        ks.push((String::from_str("super"), TokenType::Super));
        ks.push((String::from_str("this"), TokenType::This));
        ks.push((String::from_str("true"), TokenType::True));
        ks.push((String::from_str("var"), TokenType::Var));
        ks.push((String::from_str("while"), TokenType::While));
        ks
    }

    /// A fresh scanner over the given source text, at the first character
    /// of line 1, with nothing emitted yet.  The character count of the
    /// source must leave room for the line counter (a machine limit).
    pub fn new(source: String) -> (sc: Scanner)
        requires
            source@.len() < usize::MAX,
        ensures
            sc.wf(),
            sc.source@ == source@,
            sc.source_len == source@.len(),
            sc.tokens@.len() == 0,
            sc.errors@.len() == 0,
            sc.start == 0,
            sc.current == 0,
            sc.line == 1,
            !sc.had_error,
    {
        let source_len = source.as_str().unicode_len();
        Scanner {
            source_len,
            source,
            tokens: Vec::new(),
            start: 0,
            current: 0,
            line: 1,
            had_error: false,
            keywords: Scanner::init_keywords(),
            errors: Vec::new(),
        }
    }

    /// The kind of a maximal identifier-shaped word, looked up in the
    /// keyword table.
    fn lookup_keyword(&self, word: &String) -> (r: TokenType)
        requires
            keywords_ok(self.keywords@),
        ensures
            r@ == keyword_lookup(word@, 0),
    {
        let n = self.keywords.len();
        let mut j: usize = 0;
        while j < n
            invariant
                keywords_ok(self.keywords@),
                n == self.keywords@.len(),
                0 <= j <= n,
                keyword_lookup(word@, 0) == keyword_lookup(word@, j as int),
            decreases n - j,
        {
            if self.keywords[j].0 == *word {
                return self.keywords[j].1.dup();
            }
            j = j + 1;
        }
        TokenType::Identifier
    }

    /// Appends a token of the given kind whose lexeme is the source
    /// substring `[from, to)`, on the current line, and moves the cursor
    /// to `to`.
    fn add_token(&mut self, kind: TokenType, from: usize, to: usize)
        requires
            old(self).wf(),
            old(self).start <= to,
            old(self).current <= to,
            from <= to <= old(self).source_len,
        ensures
            final(self).wf(),
            token_views(final(self).tokens@) == token_views(old(self).tokens@).push(
                TokenV {
                    kind: kind@,
                    lexeme: old(self).source@.subrange(from as int, to as int),
                    line: old(self).line as nat,
                },
            ),
            final(self).current == to,
            final(self).line == old(self).line,
            final(self).start == old(self).start,
            final(self).source == old(self).source,
            final(self).source_len == old(self).source_len,
            final(self).keywords == old(self).keywords,
            final(self).errors == old(self).errors,
            final(self).had_error == old(self).had_error,
    {
        let lex = String::from_str(self.source.as_str().substring_char(from, to));
        let line = self.line;
        let t = Token::new(kind, lex, line);
        proof {
            lemma_token_views_push(self.tokens@, t);
        }
        self.tokens.push(t);
        self.current = to;
    }

    /// Records a diagnostic at the given line and sets the sticky failure
    /// flag.
    fn add_error(&mut self, line: usize, kind: ScanErrorKind)
        requires
            old(self).wf(),
        ensures
            final(self).wf(),
            error_views(final(self).errors@) == error_views(old(self).errors@).push(
                ScanErrorV { line: line as nat, kind: kind@ },
            ),
            final(self).had_error,
            final(self).tokens == old(self).tokens,
            final(self).current == old(self).current,
            final(self).line == old(self).line,
            final(self).start == old(self).start,
            final(self).source == old(self).source,
            final(self).source_len == old(self).source_len,
            final(self).keywords == old(self).keywords,
    {
        let e = ScanError { line, kind };
        proof {
            lemma_error_views_push(self.errors@, e);
        }
        self.errors.push(e);
        self.had_error = true;
    }
}

proof fn lemma_seq_empty_right<A>(xs: Seq<A>)
    ensures
        xs + Seq::<A>::empty() =~= xs,
{
}

proof fn lemma_push_concat<A>(xs: Seq<A>, x: A)
    ensures
        xs.push(x) =~= xs + seq![x],
{
}

impl Scanner {
    /// One top-level scanning iteration: reads the character under the
    /// cursor, marks the start of the token being built, and performs
    /// exactly the effect of [`spec_step`] there.
    fn scan_one(&mut self)
        requires
            old(self).wf(),
            old(self).current < old(self).source_len,
        ensures
            final(self).wf(),
            final(self).source == old(self).source,
            final(self).source_len == old(self).source_len,
            final(self).keywords == old(self).keywords,
            ({
                let st = spec_step(
                    old(self).source@,
                    old(self).current as int,
                    old(self).line as nat,
                );
                &&& final(self).current == st.next
                &&& final(self).line as nat == st.line2
                &&& token_views(final(self).tokens@) == token_views(old(self).tokens@)
                    + opt_seq(st.token)
                &&& error_views(final(self).errors@) == error_views(old(self).errors@)
                    + opt_seq(st.error)
                &&& final(self).had_error == (old(self).had_error || st.error is Some)
            }),
    {
        let ghost s = self.source@;
        let ghost line0 = self.line as nat;
        let i = self.current;
        self.start = i;
        proof {
            lemma_step_bounds(s, i as int, line0);
        }
        let c = self.source.as_str().get_char(i);
        if c == '(' {
            self.add_token(TokenType::LeftParen, i, i + 1);
        } else if c == ')' {
            self.add_token(TokenType::RightParen, i, i + 1);
        } else if c == '{' {
            self.add_token(TokenType::LeftBrace, i, i + 1);
        } else if c == '}' {
            self.add_token(TokenType::RightBrace, i, i + 1);
        } else if c == ',' {
            self.add_token(TokenType::Comma, i, i + 1);
        } else if c == '.' {
            self.add_token(TokenType::Dot, i, i + 1);
        } else if c == '-' {
            self.add_token(TokenType::Minus, i, i + 1);
        } else if c == '+' {
            self.add_token(TokenType::Plus, i, i + 1);
        } else if c == ';' {
            self.add_token(TokenType::Semicolon, i, i + 1);
        } else if c == '*' {
            self.add_token(TokenType::Star, i, i + 1);
        } else if c == '=' {
            if i + 1 < self.source_len && self.source.as_str().get_char(i + 1) == '=' {
                self.add_token(TokenType::EqualEqual, i, i + 2);
            } else {
                self.add_token(TokenType::Equal, i, i + 1);
            }
        } else if c == '!' {
            if i + 1 < self.source_len && self.source.as_str().get_char(i + 1) == '=' {
                self.add_token(TokenType::BangEqual, i, i + 2);
            } else {
                self.add_token(TokenType::Bang, i, i + 1);
            }
        } else if c == '<' {
            if i + 1 < self.source_len && self.source.as_str().get_char(i + 1) == '=' {
                self.add_token(TokenType::LessEqual, i, i + 2);
            } else {
                self.add_token(TokenType::Less, i, i + 1);
            }
        } else if c == '>' {
            if i + 1 < self.source_len && self.source.as_str().get_char(i + 1) == '=' {
                self.add_token(TokenType::GreaterEqual, i, i + 2);
            } else {
                self.add_token(TokenType::Greater, i, i + 1);
            }
        } else if c == '/' {
            if i + 1 < self.source_len && self.source.as_str().get_char(i + 1) == '/' {
                let mut j = i + 2;
                while j < self.source_len && self.source.as_str().get_char(j) != '\n'
                    invariant
                        i + 2 <= j <= self.source_len,
                        self.wf(),
                        s == self.source@,
                        find_from(s, i + 2, '\n') == find_from(s, j as int, '\n'),
                    decreases self.source_len - j,
                {
                    j = j + 1;
                }
                if j < self.source_len {
                    self.line = self.line + 1;
                    self.current = j + 1;
                } else {
                    self.current = j;
                }
            } else {
                self.add_token(TokenType::Slash, i, i + 1);
            }
        } else if c == ' ' || c == '\t' {
            self.current = i + 1;
        } else if c == '\n' {
            self.line = self.line + 1;
            self.current = i + 1;
        } else if c == '"' {
            let mut j = i + 1;
            let mut nl: usize = 0;
            while j < self.source_len && self.source.as_str().get_char(j) != '"'
                invariant
                    i + 1 <= j <= self.source_len,
                    self.wf(),
                    self.current == i < self.source_len,
                    s == self.source@,
                    find_from(s, i + 1, '"') == find_from(s, j as int, '"'),
                    nl == count_char(s, i + 1, j as int, '\n'),
                    nl <= j - i - 1,
                decreases self.source_len - j,
            {
                proof {
                    lemma_count_char_snoc(s, i + 1, j as int, '\n');
                }
                if self.source.as_str().get_char(j) == '\n' {
                    nl = nl + 1;
                }
                j = j + 1;
            }
            if j < self.source_len {
                let content = String::from_str(self.source.as_str().substring_char(i + 1, j));
                self.add_token(TokenType::StringLiteral(content), i, j + 1);
                self.line = self.line + nl;
            } else {
                self.current = j;
                self.line = self.line + nl;
                let l = self.line;
                self.add_error(l, ScanErrorKind::UnterminatedString);
            }
        } else if check_digit(c) {
            let mut j = i + 1;
            while j < self.source_len && check_digit(self.source.as_str().get_char(j))
                invariant
                    i + 1 <= j <= self.source_len,
                    self.wf(),
                    self.current == i < self.source_len,
                    s == self.source@,
                    digit_end(s, i + 1) == digit_end(s, j as int),
                decreases self.source_len - j,
            {
                j = j + 1;
            }
            let mut e = j;
            if j + 1 < self.source_len && self.source.as_str().get_char(j) == '.' && check_digit(
                self.source.as_str().get_char(j + 1),
            ) {
                let mut k = j + 1;
                while k < self.source_len && check_digit(self.source.as_str().get_char(k))
                    invariant
                        j + 1 <= k <= self.source_len,
                        self.wf(),
                        self.current == i < self.source_len,
                        s == self.source@,
                        digit_end(s, j + 1) == digit_end(s, k as int),
                    decreases self.source_len - k,
                {
                    k = k + 1;
                }
                e = k;
            }
            let numtext = String::from_str(self.source.as_str().substring_char(i, e));
            self.add_token(TokenType::Number(numtext), i, e);
        } else if check_alpha(c) {
            let mut j = i + 1;
            while j < self.source_len && check_ident_char(self.source.as_str().get_char(j))
                invariant
                    i + 1 <= j <= self.source_len,
                    self.wf(),
                    self.current == i < self.source_len,
                    s == self.source@,
                    ident_end(s, i + 1) == ident_end(s, j as int),
                decreases self.source_len - j,
            {
                j = j + 1;
            }
            let word = String::from_str(self.source.as_str().substring_char(i, j));
            let kind = self.lookup_keyword(&word);
            self.add_token(kind, i, j);
        } else {
            let text = String::from_str(self.source.as_str().substring_char(i, i + 1));
            let l = self.line;
            self.add_error(l, ScanErrorKind::UnexpectedCharacter(text));
            self.current = i + 1;
        }
        proof {
            let st = spec_step(s, i as int, line0);
            lemma_seq_empty_right::<TokenV>(token_views(old(self).tokens@));
            lemma_seq_empty_right::<ScanErrorV>(error_views(old(self).errors@));
            match st.token {
                Option::Some(tv) => lemma_push_concat(token_views(old(self).tokens@), tv),
                Option::None => (),
            }
            match st.error {
                Option::Some(ev) => lemma_push_concat(error_views(old(self).errors@), ev),
                Option::None => (),
            }
        }
    }
}

impl Scanner {
    /// Drives a fresh scanner to completion: a single left-to-right pass
    /// that emits exactly the tokens and diagnostics of [`spec_scan`] over
    /// the whole source, appends the end-marker last, and leaves the
    /// sticky failure flag set exactly when at least one lexical error
    /// occurred anywhere.
    pub fn scan_tokens(&mut self)
        requires
            old(self).wf(),
            old(self).current == 0,
            old(self).line == 1,
            old(self).tokens@.len() == 0,
            old(self).errors@.len() == 0,
            !old(self).had_error,
        ensures
            final(self).wf(),
            final(self).source == old(self).source,
            final(self).current == final(self).source_len,
            token_views(final(self).tokens@) == spec_scan(old(self).source@, 0, 1).tokens,
            error_views(final(self).errors@) == spec_scan(old(self).source@, 0, 1).errors,
            final(self).had_error == (spec_scan(old(self).source@, 0, 1).errors.len() > 0),
    {
        let ghost s = self.source@;
        proof {
            assert(token_views(self.tokens@) =~= Seq::<TokenV>::empty());
            assert(error_views(self.errors@) =~= Seq::<ScanErrorV>::empty());
            assert(Seq::<TokenV>::empty() + spec_scan(s, 0, 1).tokens =~= spec_scan(
                s,
                0,
                1,
            ).tokens);
            assert(Seq::<ScanErrorV>::empty() + spec_scan(s, 0, 1).errors =~= spec_scan(
                s,
                0,
                1,
            ).errors);
        }
        while self.current < self.source_len
            invariant
                self.wf(),
                self.source == old(self).source,
                s == self.source@,
                spec_scan(s, 0, 1).tokens == token_views(self.tokens@) + spec_scan(
                    s,
                    self.current as int,
                    self.line as nat,
                ).tokens,
                spec_scan(s, 0, 1).errors == error_views(self.errors@) + spec_scan(
                    s,
                    self.current as int,
                    self.line as nat,
                ).errors,
                self.had_error == (self.errors@.len() > 0),
            decreases self.source_len - self.current,
        {
            let ghost pre = *self;
            self.scan_one();
            proof {
                let st = spec_step(s, pre.current as int, pre.line as nat);
                lemma_step_bounds(s, pre.current as int, pre.line as nat);
                assert(spec_scan(s, pre.current as int, pre.line as nat).tokens == opt_seq(
                    st.token,
                ) + spec_scan(s, st.next, st.line2).tokens);
                assert((token_views(pre.tokens@) + opt_seq(st.token)) + spec_scan(
                    s,
                    st.next,
                    st.line2,
                ).tokens =~= token_views(pre.tokens@) + (opt_seq(st.token) + spec_scan(
                    s,
                    st.next,
                    st.line2,
                ).tokens));
                assert((error_views(pre.errors@) + opt_seq(st.error)) + spec_scan(
                    s,
                    st.next,
                    st.line2,
                ).errors =~= error_views(pre.errors@) + (opt_seq(st.error) + spec_scan(
                    s,
                    st.next,
                    st.line2,
                ).errors));
                if st.error is Some {
                    assert(error_views(self.errors@).len() == error_views(pre.errors@).len() + 1);
                }
            }
        }
        let line = self.line;
        let t = Token::new(TokenType::Eof, String::new(), line);
        proof {
            lemma_token_views_push(self.tokens@, t);
            lemma_push_concat(token_views(self.tokens@), t@);
            assert(error_views(self.errors@) + Seq::<ScanErrorV>::empty() =~= error_views(
                self.errors@,
            ));
        }
        self.tokens.push(t);
    }
}

/// The decimal digit character for a value 0 through 9.
pub open spec fn dec_digit(d: nat) -> char {
    if d == 0 {
        '0'
    } else if d == 1 {
        '1'
    } else if d == 2 {
        '2'
    } else if d == 3 {
        '3'
    } else if d == 4 {
        '4'
    } else if d == 5 {
        '5'
    } else if d == 6 {
        '6'
    } else if d == 7 {
        '7'
    } else if d == 8 {
        '8'
    } else {
        '9'
    }
}

/// The decimal representation of `n`, most significant digit first, with
/// no leading zeros (a single zero digit for zero).
pub open spec fn dec_rep(n: nat) -> Seq<char>
    decreases n,
{
    if n < 10 {
        seq![dec_digit(n)]
    } else {
        dec_rep(n / 10).push(dec_digit(n % 10))
    }
}

fn dec_digit_str(d: usize) -> (r: &'static str)
    requires
        d < 10,
    ensures
        r@ == seq![dec_digit(d as nat)],
{
    if d == 0 {
        proof {
            reveal_strlit("0");
            assert("0"@ =~= seq!['0']);
        }
        "0"
    } else if d == 1 {
        proof {
            reveal_strlit("1");
            assert("1"@ =~= seq!['1']);
        }
        "1"
    } else if d == 2 {
        proof {
            reveal_strlit("2");
            assert("2"@ =~= seq!['2']);
        }
        "2"
    } else if d == 3 {
        proof {
            reveal_strlit("3");
            assert("3"@ =~= seq!['3']);
        }
        "3"
    } else if d == 4 {
        proof {
            reveal_strlit("4");
            assert("4"@ =~= seq!['4']);
        }
        "4"
    } else if d == 5 {
        proof {
            reveal_strlit("5");
            assert("5"@ =~= seq!['5']);
        }
        "5"
    } else if d == 6 {
        proof {
            reveal_strlit("6");
            assert("6"@ =~= seq!['6']);
        }
        "6"
    } else if d == 7 {
        proof {
            reveal_strlit("7");
            assert("7"@ =~= seq!['7']);
        }
        "7"
    } else if d == 8 {
        proof {
            reveal_strlit("8");
            assert("8"@ =~= seq!['8']);
        }
        "8"
    } else {
        proof {
            reveal_strlit("9");
            assert("9"@ =~= seq!['9']);
        }
        "9"
    }
}

/// The decimal rendering of a line number.
pub fn dec_string(n: usize) -> (r: String)
    ensures
        r@ == dec_rep(n as nat),
    decreases n,
{
    if n < 10 {
        String::from_str(dec_digit_str(n))
    } else {
        let mut r = dec_string(n / 10);
        r.append(dec_digit_str(n % 10));
        proof {
            lemma_push_concat(dec_rep((n / 10) as nat), dec_digit((n % 10) as nat));
        }
        r
    }
}

/// The message of a diagnostic, without its final period.
pub open spec fn error_message(k: ScanErrorKindV) -> Seq<char> {
    match k {
        ScanErrorKindV::UnterminatedString => "Unterminated string"@,
        ScanErrorKindV::UnexpectedCharacter(t) => "Unexpected character: "@ + t,
    }
}

/// The diagnostic line for an error: `[line <N>] Error: <message>.`.
pub open spec fn render_error(e: ScanErrorV) -> Seq<char> {
    "[line "@ + dec_rep(e.line) + "] Error: "@ + error_message(e.kind) + "."@
}

impl ScanError {
    /// The diagnostic line for this error.
    pub fn render(&self) -> (r: String)
        ensures
            r@ == render_error(self@),
    {
        let mut r = String::from_str("[line ");
        let num = dec_string(self.line);
        r.append(num.as_str());
        r.append("] Error: ");
        match &self.kind {
            ScanErrorKind::UnterminatedString => {
                r.append("Unterminated string");
            },
            ScanErrorKind::UnexpectedCharacter(t) => {
                r.append("Unexpected character: ");
                r.append(t.as_str());
            },
        }
        r.append(".");
        proof {
            assert(r@ =~= render_error(self@));
        }
        r
    }
}

/// The newline-joined canonical renderings of a token sequence, with no
/// trailing newline.
pub open spec fn render_tokens(ts: Seq<TokenV>) -> Seq<char>
    decreases ts.len(),
{
    if ts.len() == 0 {
        Seq::empty()
    } else if ts.len() == 1 {
        render_token(ts[0])
    } else {
        render_tokens(ts.drop_last()) + "\n"@ + render_token(ts.last())
    }
}

/// Scans a whole source text in one pass: the first component is the exit
/// status — `0` when no lexical error occurred anywhere in the input,
/// `65` when at least one did — and the second is the newline-joined
/// canonical rendering of every emitted token, the end-marker last.  The
/// character count of the source must leave room for the line counter (a
/// machine limit).
pub fn scan_token(file_contents: &str) -> (r: (i32, String))
    requires
        file_contents@.len() < usize::MAX,
    ensures
        ({
            let out = spec_scan(file_contents@, 0, 1);
            &&& r.1@ == render_tokens(out.tokens)
            &&& r.0 == (if out.errors.len() == 0 {
                0i32
            } else {
                65i32
            })
        }),
{
    let mut sc = Scanner::new(String::from_str(file_contents));
    sc.scan_tokens();
    let ghost tv = token_views(sc.tokens@);
    let n = sc.tokens.len();
    let mut out = String::new();
    let mut k: usize = 0;
    while k < n
        invariant
            0 <= k <= n == sc.tokens@.len(),
            tv == token_views(sc.tokens@),
            out@ == render_tokens(tv.subrange(0, k as int)),
        decreases n - k,
    {
        if k > 0 {
            out.append("\n");
        }
        let piece = sc.tokens[k].render();
        out.append(piece.as_str());
        proof {
            assert(tv.subrange(0, k + 1).drop_last() =~= tv.subrange(0, k as int));
            assert(tv.subrange(0, k + 1).last() == tv[k as int]);
        }
        k = k + 1;
    }
    proof {
        assert(tv.subrange(0, n as int) =~= tv);
    }
    let result: i32 = if sc.had_error {
        65
    } else {
        0
    };
    (result, out)
}

/// A character the scanner consumes silently: space, tab, or the newline
/// that only advances the line counter.
pub open spec fn is_blank(c: char) -> bool {
    c == ' ' || c == '\t' || c == '\n'
}

proof fn lemma_whitespace_suffix(s: Seq<char>, i: int, line: nat)
    requires
        0 <= i <= s.len(),
        forall|k: int| 0 <= k < s.len() ==> is_blank(#[trigger] s[k]),
    ensures
        spec_scan(s, i, line).errors.len() == 0,
        spec_scan(s, i, line).tokens.len() == 1,
        spec_scan(s, i, line).tokens[0].kind == TokenTypeV::Eof,
        spec_scan(s, i, line).tokens[0].lexeme.len() == 0,
    decreases s.len() - i,
{
    if i < s.len() {
        let st = spec_step(s, i, line);
        assert(is_blank(s[i]));
        assert(st.next == i + 1 && st.token is None && st.error is None);
        lemma_whitespace_suffix(s, i + 1, st.line2);
    }
}

/// For all inputs consisting solely of whitespace, the only emitted token
/// is the terminal end-marker — with an empty lexeme — and no diagnostic
/// is emitted, so the scan succeeds.
pub proof fn lemma_whitespace_only(s: Seq<char>)
    requires
        forall|k: int| 0 <= k < s.len() ==> is_blank(#[trigger] s[k]),
    ensures
        spec_scan(s, 0, 1).errors.len() == 0,
        spec_scan(s, 0, 1).tokens.len() == 1,
        spec_scan(s, 0, 1).tokens[0].kind == TokenTypeV::Eof,
        spec_scan(s, 0, 1).tokens[0].lexeme.len() == 0,
{
    lemma_whitespace_suffix(s, 0, 1);
}

/// The kind of the token that a lone punctuation or operator character
/// produces: always the one-character form.
pub open spec fn single_kind(c: char) -> TokenTypeV {
    if c == '(' {
        TokenTypeV::LeftParen
    } else if c == ')' {
        TokenTypeV::RightParen
    } else if c == '{' {
        TokenTypeV::LeftBrace
    } else if c == '}' {
        TokenTypeV::RightBrace
    } else if c == ',' {
        TokenTypeV::Comma
    } else if c == '.' {
        TokenTypeV::Dot
    } else if c == '-' {
        TokenTypeV::Minus
    } else if c == '+' {
        TokenTypeV::Plus
    } else if c == ';' {
        TokenTypeV::Semicolon
    } else if c == '*' {
        TokenTypeV::Star
    } else if c == '/' {
        TokenTypeV::Slash
    } else if c == '=' {
        TokenTypeV::Equal
    } else if c == '!' {
        TokenTypeV::Bang
    } else if c == '<' {
        TokenTypeV::Less
    } else {
        TokenTypeV::Greater
    }
}

/// Scanning one punctuation or operator character alone yields exactly
/// one token of the matching one-character kind followed by the
/// end-marker, and no diagnostic.
pub proof fn lemma_single_punctuation(c: char)
    requires
        c == '(' || c == ')' || c == '{' || c == '}' || c == ',' || c == '.' || c == '-' || c
            == '+' || c == ';' || c == '*' || c == '/' || c == '=' || c == '!' || c == '<' || c
            == '>',
    ensures
        spec_scan(seq![c], 0, 1).errors.len() == 0,
        spec_scan(seq![c], 0, 1).tokens.len() == 2,
        spec_scan(seq![c], 0, 1).tokens[0] == (TokenV {
            kind: single_kind(c),
            lexeme: seq![c],
            line: 1,
        }),
        spec_scan(seq![c], 0, 1).tokens[1].kind == TokenTypeV::Eof,
{
    let s = seq![c];
    let st = spec_step(s, 0, 1);
    assert(s.len() == 1 && s[0] == c);
    assert(s.subrange(0, 1) =~= seq![c]);
    assert(st.next == 1 && st.error is None);
    assert(spec_scan(s, 1, 1).tokens.len() == 1);
}

/// Maximal munch for the two-character operators: when `=`, `!`, `<` or
/// `>` is directly followed by `=`, a single two-character token is
/// emitted and both characters are consumed — never the one-character
/// kind followed by an equals token.
pub proof fn lemma_maximal_munch_two_char(s: Seq<char>, i: int, line: nat)
    requires
        0 <= i,
        i + 1 < s.len(),
        s[i] == '=' || s[i] == '!' || s[i] == '<' || s[i] == '>',
        s[i + 1] == '=',
    ensures
        ({
            let st = spec_step(s, i, line);
            &&& st.next == i + 2
            &&& st.error is None
            &&& st.token == Some(
                TokenV {
                    kind: (if s[i] == '=' {
                        TokenTypeV::EqualEqual
                    } else if s[i] == '!' {
                        TokenTypeV::BangEqual
                    } else if s[i] == '<' {
                        TokenTypeV::LessEqual
                    } else {
                        TokenTypeV::GreaterEqual
                    }),
                    lexeme: s.subrange(i, i + 2),
                    line,
                },
            )
        }),
{
}

/// Line tracking through string literals: a terminated string token is
/// attributed to the line where it started, and scanning resumes past the
/// closing quote with the line counter advanced by exactly the newlines
/// inside the literal — so a subsequent diagnostic reports the correct
/// post-literal line.
pub proof fn lemma_string_line_tracking(s: Seq<char>, i: int, line: nat)
    requires
        0 <= i < s.len(),
        s[i] == '"',
        find_from(s, i + 1, '"') < s.len(),
    ensures
        ({
            let e = find_from(s, i + 1, '"');
            let st = spec_step(s, i, line);
            &&& st.next == e + 1
            &&& st.line2 == line + count_char(s, i + 1, e, '\n')
            &&& st.error is None
            &&& st.token == Some(
                TokenV {
                    kind: TokenTypeV::StringLiteral(s.subrange(i + 1, e)),
                    lexeme: s.subrange(i, e + 1),
                    line,
                },
            )
        }),
{
}

/// Every scan emits the end-marker: whatever the input and whatever
/// errors occurred, the token sequence is never empty and its last token
/// is the terminal end-marker with an empty lexeme.
pub proof fn lemma_scan_ends_with_eof(s: Seq<char>, i: int, line: nat)
    requires
        0 <= i <= s.len(),
    ensures
        spec_scan(s, i, line).tokens.len() >= 1,
        spec_scan(s, i, line).tokens.last().kind == TokenTypeV::Eof,
        spec_scan(s, i, line).tokens.last().lexeme.len() == 0,
    decreases s.len() - i,
{
    if i < s.len() {
        lemma_step_bounds(s, i, line);
        let st = spec_step(s, i, line);
        lemma_scan_ends_with_eof(s, st.next, st.line2);
        assert((opt_seq(st.token) + spec_scan(s, st.next, st.line2).tokens).last() == spec_scan(
            s,
            st.next,
            st.line2,
        ).tokens.last());
    }
}

} // verus!

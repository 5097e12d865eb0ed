use vstd::prelude::*;

use crate::token::{
    all_digits, canonical_decimal, chars_of, is_digit, lemma_all_digits_push, literal_view,
    push_char, push_range, Literal, LiteralView, Number, Token, TokenType, TokenView, token_views,
};

verus! {

pub open spec fn is_alpha(c: char) -> bool {
    ('a' <= c && c <= 'z') || ('A' <= c && c <= 'Z') || c == '_'
}

pub open spec fn is_alpha_numeric(c: char) -> bool {
    is_digit(c) || is_alpha(c)
}

/// ASCII whitespace other than the newline, which counts lines.
pub open spec fn is_blank(c: char) -> bool {
    c == ' ' || c == '\t' || c == '\r' || c == '\x0C'
}

/// The kind of a token that is always one character long.
pub open spec fn single_kind(c: char) -> Option<TokenType> {
    if c == '(' {
        Some(TokenType::LeftParen)
    } else if c == ')' {
        Some(TokenType::RightParen)
    } else if c == '{' {
        Some(TokenType::LeftBrace)
    } else if c == '}' {
        Some(TokenType::RightBrace)
    } else if c == ',' {
        Some(TokenType::Comma)
    } else if c == '.' {
        Some(TokenType::Dot)
    } else if c == '-' {
        Some(TokenType::Minus)
    } else if c == '+' {
        Some(TokenType::Plus)
    } else if c == ';' {
        Some(TokenType::Semicolon)
    } else if c == '*' {
        Some(TokenType::Star)
    } else {
        None
    }
}

/// The kinds of `!`, `=`, `<`, `>` alone and followed by `=`.
pub open spec fn pair_kinds(c: char) -> Option<(TokenType, TokenType)> {
    if c == '!' {
        Some((TokenType::Bang, TokenType::BangEqual))
    } else if c == '=' {
        Some((TokenType::Equal, TokenType::EqualEqual))
    } else if c == '<' {
        Some((TokenType::Less, TokenType::LessEqual))
    } else if c == '>' {
        Some((TokenType::Greater, TokenType::GreaterEqual))
    } else {
        None
    }
}

/// The reserved words, matched exactly and case-sensitively.
pub open spec fn keyword_kind(t: Seq<char>) -> Option<TokenType> {
    if t == "and"@ {
        Some(TokenType::And)
    } else if t == "class"@ {
        Some(TokenType::Class)
    } else if t == "else"@ {
        Some(TokenType::Else)
    } else if t == "false"@ {
        Some(TokenType::False)
    } else if t == "fun"@ {
        Some(TokenType::Fun)
    } else if t == "for"@ {
        Some(TokenType::For)
    } else if t == "if"@ {
        Some(TokenType::If)
    } else if t == "nil"@ {
        Some(TokenType::Nil)
    } else if t == "or"@ {
        Some(TokenType::Or)
    } else if t == "print"@ {
        Some(TokenType::Print)
    } else if t == "return"@ {
        Some(TokenType::Return)
    } else if t == "super"@ {
        Some(TokenType::Super)
    } else if t == "this"@ {
        Some(TokenType::This)
    } else if t == "true"@ {
        Some(TokenType::True)
    } else if t == "var"@ {
        Some(TokenType::Var)
    } else if t == "while"@ {
        Some(TokenType::While)
    } else {
        None
    }
}

/// The end of the longest run of characters from `i` on that satisfy `keep`.
pub open spec fn span_end(s: Seq<char>, i: int, keep: spec_fn(char) -> bool) -> int
    decreases s.len() - i,
{
    if 0 <= i < s.len() && keep(s[i]) {
        span_end(s, i + 1, keep)
    } else {
        i
    }
}

pub open spec fn digits_end(s: Seq<char>, i: int) -> int {
    span_end(s, i, |c: char| is_digit(c))
}

pub open spec fn word_end(s: Seq<char>, i: int) -> int {
    span_end(s, i, |c: char| is_alpha_numeric(c))
}

pub open spec fn line_end(s: Seq<char>, i: int) -> int {
    span_end(s, i, |c: char| c != '\n')
}

pub open spec fn quote_end(s: Seq<char>, i: int) -> int {
    span_end(s, i, |c: char| c != '"')
}

/// The number of newlines in `s[a..b]`.
pub open spec fn newlines(s: Seq<char>, a: int, b: int) -> nat
    decreases b - a,
{
    if b <= a {
        0
    } else {
        newlines(s, a, b - 1) + if s[b - 1] == '\n' {
            1nat
        } else {
            0nat
        }
    }
}

/// The bytes of the UTF-8 encoding of `c`.
pub open spec fn utf8_encoding(c: char) -> Seq<u8> {
    let v = c as u32;
    if v < 128 {
        seq![v as u8]
    } else if v < 2048 {
        seq![(192 + v / 64) as u8, (128 + v % 64) as u8]
    } else if v < 65536 {
        seq![(224 + v / 4096) as u8, (128 + (v / 64) % 64) as u8, (128 + v % 64) as u8]
    } else {
        seq![
            (240 + v / 262144) as u8,
            (128 + (v / 4096) % 64) as u8,
            (128 + (v / 64) % 64) as u8,
            (128 + v % 64) as u8,
        ]
    }
}

/// The UTF-8 encoding of `c`.
fn encode_utf8(c: char) -> (r: Vec<u8>)
    ensures
        r@ == utf8_encoding(c),
{
    let v = c as u32;
    if v < 128 {
        vec![v as u8]
    } else if v < 2048 {
        vec![(192 + v / 64) as u8, (128 + v % 64) as u8]
    } else if v < 65536 {
        vec![(224 + v / 4096) as u8, (128 + (v / 64) % 64) as u8, (128 + v % 64) as u8]
    } else {
        vec![
            (240 + v / 262144) as u8,
            (128 + (v / 4096) % 64) as u8,
            (128 + (v / 64) % 64) as u8,
            (128 + v % 64) as u8,
        ]
    }
}

/// The two errors that scanning can meet.
#[derive(Clone, Copy, Debug, PartialEq, Eq, Structural)]
pub enum ScanErrorKind {
    /// A string literal reached the end of input before its closing quote.
    UnterminatedLiteral,
    /// A byte that starts no token and is not whitespace.
    UnexpectedCharacter(u8),
}

/// An error met while scanning, with the line it was met on.
#[derive(Clone, Copy, Debug, PartialEq, Eq, Structural)]
pub struct ScanError {
    pub line: u64,
    pub kind: ScanErrorKind,
}

/// The text that describes an error of kind `kind`.
pub open spec fn error_message(kind: ScanErrorKind) -> Seq<char> {
    match kind {
        ScanErrorKind::UnterminatedLiteral => "Unterminated string."@,
        ScanErrorKind::UnexpectedCharacter(b) => "Unexpected character '"@ + seq![b as char]
            + "'."@,
    }
}

impl ScanError {
    /// The text that describes this error.
    pub fn message(&self) -> (r: String)
        ensures
            r@ == error_message(self.kind),
    {
        match self.kind {
            ScanErrorKind::UnterminatedLiteral => "Unterminated string.".to_owned(),
            ScanErrorKind::UnexpectedCharacter(b) => {
                let mut m = "Unexpected character '".to_owned();
                push_char(&mut m, b as char);
                m.append("'.");
                m
            },
        }
    }
}

pub struct ErrorView {
    pub line: nat,
    pub kind: ScanErrorKind,
}

impl View for ScanError {
    type V = ErrorView;

    open spec fn view(&self) -> ErrorView {
        ErrorView { line: self.line as nat, kind: self.kind }
    }
}

/// One unexpected-character error on line `line` for each of `bytes`.
pub open spec fn unexpected_errors(line: nat, bytes: Seq<u8>) -> Seq<ErrorView> {
    bytes.map_values(|b: u8| ErrorView { line, kind: ScanErrorKind::UnexpectedCharacter(b) })
}

pub open spec fn error_views(es: Seq<ScanError>) -> Seq<ErrorView> {
    es.map_values(|e: ScanError| e@)
}

/// What scanning one lexeme does: where the next lexeme starts, the line
/// counter after it, the token it yields and the errors it reports.
pub struct Step {
    pub next: int,
    pub line: nat,
    pub token: Option<TokenView>,
    pub errors: Seq<ErrorView>,
}

pub open spec fn skip(next: int, line: nat) -> Step {
    Step { next, line, token: None, errors: Seq::empty() }
}

/// A step that yields the token `s[p..next]`.
pub open spec fn emit(
    s: Seq<char>,
    p: int,
    next: int,
    line: nat,
    kind: TokenType,
    literal: Option<LiteralView>,
) -> Step {
    Step {
        next,
        line,
        token: Some(TokenView { kind, lexeme: s.subrange(p, next), line, literal }),
        errors: Seq::empty(),
    }
}

/// Scanning the lexeme that starts at `s[p]`, on line `line`.
pub open spec fn step(s: Seq<char>, p: int, line: nat) -> Step {
    let c = s[p];
    if single_kind(c) is Some {
        emit(s, p, p + 1, line, single_kind(c)->0, None)
    } else if pair_kinds(c) is Some {
        let (alone, with_equal) = pair_kinds(c)->0;
        if p + 1 < s.len() && s[p + 1] == '=' {
            emit(s, p, p + 2, line, with_equal, None)
        } else {
            emit(s, p, p + 1, line, alone, None)
        }
    } else if c == '/' {
        if p + 1 < s.len() && s[p + 1] == '/' {
            skip(line_end(s, p + 2), line)
        } else {
            emit(s, p, p + 1, line, TokenType::Slash, None)
        }
    } else if c == '\n' {
        skip(p + 1, line + 1)
    } else if c == '"' {
        let q = quote_end(s, p + 1);
        let l = line + newlines(s, p + 1, q);
        if q >= s.len() {
            Step {
                next: q,
                line: l,
                token: None,
                errors: seq![ErrorView { line: l, kind: ScanErrorKind::UnterminatedLiteral }],
            }
        } else {
            emit(
                s,
                p,
                q + 1,
                l,
                TokenType::String,
                Some(LiteralView::Text(s.subrange(p + 1, q))),
            )
        }
    } else if is_digit(c) {
        let q = digits_end(s, p + 1);
        if q + 1 < s.len() && s[q] == '.' && is_digit(s[q + 1]) {
            let r = digits_end(s, q + 2);
            emit(
                s,
                p,
                r,
                line,
                TokenType::Number,
                Some(LiteralView::Number(canonical_decimal(s.subrange(p, q), s.subrange(q + 1, r)))),
            )
        } else {
            emit(
                s,
                p,
                q,
                line,
                TokenType::Number,
                Some(LiteralView::Number(canonical_decimal(s.subrange(p, q), Seq::empty()))),
            )
        }
    } else if is_alpha(c) {
        let q = word_end(s, p + 1);
        let kind = match keyword_kind(s.subrange(p, q)) {
            Some(k) => k,
            None => TokenType::Identifier,
        };
        emit(s, p, q, line, kind, None)
    } else if is_blank(c) {
        skip(p + 1, line)
    } else {
        Step {
            next: p + 1,
            line,
            token: None,
            errors: unexpected_errors(line, utf8_encoding(c)),
        }
    }
}

pub open spec fn opt_seq<A>(o: Option<A>) -> Seq<A> {
    match o {
        Some(a) => seq![a],
        None => Seq::empty(),
    }
}

/// The tokens and errors of scanning `s` from position `p` on line `line`:
/// each lexeme in turn, then the end-of-input marker on the final line.
pub open spec fn lex_from(s: Seq<char>, p: int, line: nat) -> (Seq<TokenView>, Seq<ErrorView>)
    decreases s.len() - p,
{
    if 0 <= p < step(s, p, line).next <= s.len() {
        let st = step(s, p, line);
        let rest = lex_from(s, st.next, st.line);
        (opt_seq(st.token) + rest.0, st.errors + rest.1)
    } else {
        (seq![eof_token(line)], Seq::empty())
    }
}

pub open spec fn eof_token(line: nat) -> TokenView {
    TokenView { kind: TokenType::Eof, lexeme: Seq::empty(), line, literal: None }
}

/// The tokens of scanning the whole of `s`.
pub open spec fn tokens_of(s: Seq<char>) -> Seq<TokenView> {
    lex_from(s, 0, 1).0
}

/// The errors of scanning the whole of `s`, in the order they are met.
pub open spec fn errors_of(s: Seq<char>) -> Seq<ErrorView> {
    lex_from(s, 0, 1).1
}

/// Turns source text into tokens, one lexeme at a time, keeping the errors it
/// meets on the way.
pub struct Scanner {
    source: Vec<char>,
    tokens: Vec<Token>,
    errors: Vec<ScanError>,
    // Offset of the first character of the lexeme being scanned.
    start: usize,
    // Offset of the next character to read.
    current: usize,
    // Line of the current character, counted from 1.
    line: u64,
}

impl Scanner {
    /// The characters being scanned.
    pub closed spec fn source_text(&self) -> Seq<char> {
        self.source@
    }

    /// The errors reported by the last scan, in the order they were met.
    pub closed spec fn reported(&self) -> Seq<ErrorView> {
        error_views(self.errors@)
    }

    pub closed spec fn wf(&self) -> bool {
        &&& self.source.len() < usize::MAX
        &&& self.start <= self.current <= self.source.len()
        &&& 1 <= self.line <= self.current + 1
    }

    /// `self` is `before` after scanning the lexeme at `before.start`.
    closed spec fn did_step(&self, before: Scanner) -> bool {
        let st = step(before.source@, before.start as int, before.line as nat);
        &&& self.wf()
        &&& self.source@ == before.source@
        &&& self.start == before.start
        &&& self.current == st.next
        &&& self.line == st.line
        &&& token_views(self.tokens@) == token_views(before.tokens@) + opt_seq(st.token)
        &&& error_views(self.errors@) == error_views(before.errors@) + st.errors
    }

    fn is_digit(ch: char) -> (r: bool)
        ensures
            r == is_digit(ch),
    {
        '0' <= ch && ch <= '9'
    }

    fn is_alpha(ch: char) -> (r: bool)
        ensures
            r == is_alpha(ch),
    {
        ('a' <= ch && ch <= 'z') || ('A' <= ch && ch <= 'Z') || ch == '_'
    }

    fn is_alpha_numeric(ch: char) -> (r: bool)
        ensures
            r == is_alpha_numeric(ch),
    {
        Scanner::is_digit(ch) || Scanner::is_alpha(ch)
    }

    fn is_whitespace(ch: char) -> (r: bool)
        ensures
            r == (is_blank(ch) || ch == '\n'),
    {
        ch == ' ' || ch == '\t' || ch == '\n' || ch == '\r' || ch == '\x0C'
    }

    /// The keyword spelled by `text`, if it is one.
    fn keyword(text: &String) -> (r: Option<TokenType>)
        ensures
            r == keyword_kind(text@),
    {
        if *text == "and".to_owned() {
            Some(TokenType::And)
        } else if *text == "class".to_owned() {
            Some(TokenType::Class)
        } else if *text == "else".to_owned() {
            Some(TokenType::Else)
        } else if *text == "false".to_owned() {
            Some(TokenType::False)
        } else if *text == "fun".to_owned() {
            Some(TokenType::Fun)
        } else if *text == "for".to_owned() {
            Some(TokenType::For)
        } else if *text == "if".to_owned() {
            Some(TokenType::If)
        } else if *text == "nil".to_owned() {
            Some(TokenType::Nil)
        } else if *text == "or".to_owned() {
            Some(TokenType::Or)
        } else if *text == "print".to_owned() {
            Some(TokenType::Print)
        } else if *text == "return".to_owned() {
            Some(TokenType::Return)
        } else if *text == "super".to_owned() {
            Some(TokenType::Super)
        } else if *text == "this".to_owned() {
            Some(TokenType::This)
        } else if *text == "true".to_owned() {
            Some(TokenType::True)
        } else if *text == "var".to_owned() {
            Some(TokenType::Var)
        } else if *text == "while".to_owned() {
            Some(TokenType::While)
        } else {
            None
        }
    }

    /// The text of the current lexeme.
    fn lexeme(&self) -> (r: String)
        requires
            self.wf(),
        ensures
            r@ == self.source@.subrange(self.start as int, self.current as int),
    {
        let mut text = String::new();
        push_range(&mut text, &self.source, self.start, self.current);
        text
    }

    /// Appends a token for the current lexeme.
    fn add_token(&mut self, token_type: TokenType, literal: Option<Literal>)
        requires
            old(self).wf(),
        ensures
            final(self).wf(),
            final(self).source@ == old(self).source@,
            final(self).start == old(self).start,
            final(self).current == old(self).current,
            final(self).line == old(self).line,
            final(self).errors@ == old(self).errors@,
            token_views(final(self).tokens@) == token_views(old(self).tokens@).push(
                TokenView {
                    kind: token_type,
                    lexeme: old(self).source@.subrange(
                        old(self).start as int,
                        old(self).current as int,
                    ),
                    line: old(self).line as nat,
                    literal: literal_view(literal),
                },
            ),
    {
        let lexeme = self.lexeme();
        let line = self.line;
        let ghost before = self.tokens@;
        let t = Token { token_type, lexeme, line, literal };
        self.tokens.push(t);
        assert(token_views(self.tokens@) =~= token_views(before).push(t@));
    }

    /// The character after the next one, or NUL past the end.
    fn peek_next(&self) -> (r: char)
        requires
            self.wf(),
        ensures
            r == if self.current + 1 < self.source.len() {
                self.source@[self.current + 1]
            } else {
                '\0'
            },
    {
        if self.current + 1 >= self.source.len() {
            '\0'
        } else {
            self.source[self.current + 1]
        }
    }

    /// The next character, or NUL at the end.
    fn peek(&self) -> (r: char)
        requires
            self.wf(),
        ensures
            r == if self.current < self.source.len() {
                self.source@[self.current as int]
            } else {
                '\0'
            },
    {
        if self.is_at_end() {
            '\0'
        } else {
            self.source[self.current]
        }
    }

    /// Consumes the next character when it is `expected`.
    fn advance_if(&mut self, expected: char) -> (r: bool)
        requires
            old(self).wf(),
        ensures
            r == (old(self).current < old(self).source.len() && old(self).source@[old(
                self,
            ).current as int] == expected),
            final(self).current == old(self).current + if r {
                1int
            } else {
                0int
            },
            final(self).wf(),
            final(self).source@ == old(self).source@,
            final(self).start == old(self).start,
            final(self).line == old(self).line,
            final(self).tokens@ == old(self).tokens@,
            final(self).errors@ == old(self).errors@,
    {
        if self.is_at_end() {
            return false;
        }
        if self.source[self.current] == expected {
            self.current = self.current + 1;
            true
        } else {
            false
        }
    }

    /// Consumes the next character and returns it.
    fn advance(&mut self) -> (r: char)
        requires
            old(self).wf(),
            old(self).current < old(self).source.len(),
        ensures
            r == old(self).source@[old(self).current as int],
            final(self).current == old(self).current + 1,
            final(self).wf(),
            final(self).source@ == old(self).source@,
            final(self).start == old(self).start,
            final(self).line == old(self).line,
            final(self).tokens@ == old(self).tokens@,
            final(self).errors@ == old(self).errors@,
    {
        self.current = self.current + 1;
        self.source[self.current - 1]
    }

    /// Consumes characters up to the next newline or the end of input.
    fn consume_line(&mut self)
        requires
            old(self).wf(),
        ensures
            final(self).current == line_end(old(self).source@, old(self).current as int),
            final(self).current >= old(self).current,
            final(self).wf(),
            final(self).source@ == old(self).source@,
            final(self).start == old(self).start,
            final(self).line == old(self).line,
            final(self).tokens@ == old(self).tokens@,
            final(self).errors@ == old(self).errors@,
    {
        while self.peek() != '\n' && !self.is_at_end()
            invariant
                self.wf(),
                self.source@ == old(self).source@,
                self.start == old(self).start,
                self.line == old(self).line,
                self.tokens@ == old(self).tokens@,
                self.errors@ == old(self).errors@,
                old(self).current <= self.current,
                line_end(self.source@, self.current as int) == line_end(
                    self.source@,
                    old(self).current as int,
                ),
            decreases self.source.len() - self.current,
        {
            self.advance();
        }
    }

    /// Scans a string literal whose opening quote was just consumed.
    fn string(&mut self)
        requires
            old(self).wf(),
            old(self).current == old(self).start + 1,
            old(self).source@[old(self).start as int] == '"',
        ensures
            final(self).did_step(*old(self)),
            final(self).current > old(self).start,
    {
        let ghost s = self.source@;
        let ghost p = self.start as int;
        let ghost line0 = self.line as nat;
        while self.peek() != '"' && !self.is_at_end()
            invariant
                self.wf(),
                self.source@ == s,
                self.start == old(self).start,
                self.tokens@ == old(self).tokens@,
                self.errors@ == old(self).errors@,
                p + 1 <= self.current,
                quote_end(s, self.current as int) == quote_end(s, p + 1),
                self.line == line0 + newlines(s, p + 1, self.current as int),
            decreases self.source.len() - self.current,
        {
            let ch = self.advance();
            if ch == '\n' {
                self.line = self.line + 1;
            }
        }
        let ghost st = step(s, p, line0);
        if self.is_at_end() {
            self.report_error(ScanErrorKind::UnterminatedLiteral);
            assert(token_views(self.tokens@) =~= token_views(old(self).tokens@) + opt_seq(st.token));
            assert(error_views(self.errors@) =~= error_views(old(self).errors@) + st.errors);
            return;
        }
        // The closing quote.

        self.advance();
        let mut value = String::new();
        push_range(&mut value, &self.source, self.start + 1, self.current - 1);
        self.add_token(TokenType::String, Some(Literal::String(value)));
        assert(token_views(self.tokens@) =~= token_views(old(self).tokens@) + opt_seq(st.token));
        assert(error_views(self.errors@) =~= error_views(old(self).errors@) + st.errors);
    }

    /// Scans a number whose first digit was just consumed.
    fn number(&mut self)
        requires
            old(self).wf(),
            old(self).current == old(self).start + 1,
            is_digit(old(self).source@[old(self).start as int]),
        ensures
            final(self).did_step(*old(self)),
            final(self).current > old(self).start,
    {
        let ghost s = self.source@;
        let ghost p = self.start as int;
        while Scanner::is_digit(self.peek())
            invariant
                self.wf(),
                self.source@ == s,
                self.start == old(self).start,
                self.line == old(self).line,
                self.tokens@ == old(self).tokens@,
                self.errors@ == old(self).errors@,
                p == self.start,
                p + 1 <= self.current,
                digits_end(s, self.current as int) == digits_end(s, p + 1),
                all_digits(s.subrange(p, self.current as int)),
            decreases self.source.len() - self.current,
        {
            self.advance();
            proof {
                lemma_all_digits_push(s, p, self.current - 1);
            }
        }
        let whole_end = self.current;
        let value = if self.peek() == '.' && Scanner::is_digit(self.peek_next()) {
            // The fractional part.
            self.advance();
            assert(all_digits(s.subrange(whole_end + 1, whole_end + 1)));
            while Scanner::is_digit(self.peek())
                invariant
                    self.wf(),
                    self.source@ == s,
                    self.start == old(self).start,
                    self.line == old(self).line,
                    self.tokens@ == old(self).tokens@,
                    self.errors@ == old(self).errors@,
                    whole_end + 1 <= self.current,
                    digits_end(s, self.current as int) == digits_end(s, whole_end + 1),
                    all_digits(s.subrange(whole_end + 1, self.current as int)),
                decreases self.source.len() - self.current,
            {
                self.advance();
                proof {
                    lemma_all_digits_push(s, whole_end + 1, self.current - 1);
                }
            }
            Number::from_digit_runs(&self.source, self.start, whole_end, whole_end + 1, self.current)
        } else {
            let n = Number::from_digit_runs(&self.source, self.start, whole_end, whole_end, whole_end);
            assert(s.subrange(whole_end as int, whole_end as int) =~= Seq::<char>::empty());
            n
        };
        let ghost st = step(s, p, old(self).line as nat);
        self.add_token(TokenType::Number, Some(Literal::Number(value)));
        assert(token_views(self.tokens@) =~= token_views(old(self).tokens@) + opt_seq(st.token));
        assert(error_views(self.errors@) =~= error_views(old(self).errors@) + st.errors);
    }

    /// Scans an identifier or keyword whose first character was just consumed.
    fn identifier(&mut self)
        requires
            old(self).wf(),
            old(self).current == old(self).start + 1,
            is_alpha(old(self).source@[old(self).start as int]),
        ensures
            final(self).did_step(*old(self)),
            final(self).current > old(self).start,
    {
        let ghost s = self.source@;
        let ghost p = self.start as int;
        while Scanner::is_alpha_numeric(self.peek())
            invariant
                self.wf(),
                self.source@ == s,
                self.start == old(self).start,
                self.line == old(self).line,
                self.tokens@ == old(self).tokens@,
                self.errors@ == old(self).errors@,
                p + 1 <= self.current,
                word_end(s, self.current as int) == word_end(s, p + 1),
            decreases self.source.len() - self.current,
        {
            self.advance();
        }
        let text = self.lexeme();
        let token_type = match Scanner::keyword(&text) {
            Some(k) => k,
            None => TokenType::Identifier,
        };
        let ghost st = step(s, p, old(self).line as nat);
        self.add_token(token_type, None);
        assert(token_views(self.tokens@) =~= token_views(old(self).tokens@) + opt_seq(st.token));
        assert(error_views(self.errors@) =~= error_views(old(self).errors@) + st.errors);
    }

    /// Reports each byte of `ch`, which starts no token, as unexpected.
    fn report_unexpected(&mut self, ch: char)
        requires
            old(self).wf(),
        ensures
            final(self).wf(),
            final(self).source@ == old(self).source@,
            final(self).start == old(self).start,
            final(self).current == old(self).current,
            final(self).line == old(self).line,
            final(self).tokens@ == old(self).tokens@,
            error_views(final(self).errors@) == error_views(old(self).errors@) + unexpected_errors(
                old(self).line as nat,
                utf8_encoding(ch),
            ),
    {
        let bytes = encode_utf8(ch);
        let mut i: usize = 0;
        while i < bytes.len()
            invariant
                self.wf(),
                self.source@ == old(self).source@,
                self.start == old(self).start,
                self.current == old(self).current,
                self.line == old(self).line,
                self.tokens@ == old(self).tokens@,
                i <= bytes.len(),
                bytes@ == utf8_encoding(ch),
                error_views(self.errors@) == error_views(old(self).errors@) + unexpected_errors(
                    old(self).line as nat,
                    bytes@.take(i as int),
                ),
            decreases bytes.len() - i,
        {
            self.report_error(ScanErrorKind::UnexpectedCharacter(bytes[i]));
            let ghost line = self.line as nat;
            assert(unexpected_errors(line, bytes@.take(i + 1)) =~= unexpected_errors(
                line,
                bytes@.take(i as int),
            ).push(ErrorView { line, kind: ScanErrorKind::UnexpectedCharacter(bytes@[i as int]) }));
            assert(error_views(self.errors@) =~= error_views(old(self).errors@) + unexpected_errors(
                line,
                bytes@.take(i + 1),
            ));
            i = i + 1;
        }
        assert(bytes@.take(i as int) =~= bytes@);
    }

    /// Scans the one lexeme that starts at `start`.
    fn scan_token(&mut self)
        requires
            old(self).wf(),
            old(self).start == old(self).current,
            old(self).current < old(self).source.len(),
        ensures
            final(self).did_step(*old(self)),
            final(self).current > old(self).current,
    {
        let ghost s = self.source@;
        let ghost p = self.start as int;
        let ghost st = step(s, p, self.line as nat);
        let ch = self.advance();
        let token_type: Option<TokenType> = match ch {
            '(' => Some(TokenType::LeftParen),
            ')' => Some(TokenType::RightParen),
            '{' => Some(TokenType::LeftBrace),
            '}' => Some(TokenType::RightBrace),
            ',' => Some(TokenType::Comma),
            '.' => Some(TokenType::Dot),
            '-' => Some(TokenType::Minus),
            '+' => Some(TokenType::Plus),
            ';' => Some(TokenType::Semicolon),
            '*' => Some(TokenType::Star),
            '!' => {
                if self.advance_if('=') {
                    Some(TokenType::BangEqual)
                } else {
                    Some(TokenType::Bang)
                }
            },
            '=' => {
                if self.advance_if('=') {
                    Some(TokenType::EqualEqual)
                } else {
                    Some(TokenType::Equal)
                }
            },
            '<' => {
                if self.advance_if('=') {
                    Some(TokenType::LessEqual)
                } else {
                    Some(TokenType::Less)
                }
            },
            '>' => {
                if self.advance_if('=') {
                    Some(TokenType::GreaterEqual)
                } else {
                    Some(TokenType::Greater)
                }
            },
            '/' => {
                if self.advance_if('/') {
                    // A comment runs to the end of the line.
                    self.consume_line();
                    None
                } else {
                    Some(TokenType::Slash)
                }
            },
            '\n' => {
                self.line = self.line + 1;
                None
            },
            '"' => {
                self.string();
                None
            },
            _ => {
                if Scanner::is_digit(ch) {
                    self.number();
                } else if Scanner::is_alpha(ch) {
                    self.identifier();
                } else if !Scanner::is_whitespace(ch) {
                    self.report_unexpected(ch);
                }
                None
            },
        };
        if let Some(t) = token_type {
            self.add_token(t, None);
        }
        assert(token_views(self.tokens@) =~= token_views(old(self).tokens@) + opt_seq(st.token));
        assert(error_views(self.errors@) =~= error_views(old(self).errors@) + st.errors);
    }

    /// Scans the whole source from its start: the tokens in source order,
    /// ending with the end-of-input marker, and whether any error was met.
    /// The errors themselves are kept, in order, for [`Scanner::errors`].
    pub fn scan_tokens(&mut self) -> (r: (bool, Vec<Token>))
        requires
            old(self).wf(),
        ensures
            final(self).wf(),
            final(self).source_text() == old(self).source_text(),
            token_views(r.1@) == tokens_of(old(self).source_text()),
            final(self).reported() == errors_of(old(self).source_text()),
            r.0 == (errors_of(old(self).source_text()).len() > 0),
    {
        let ghost s = self.source@;
        self.tokens = Vec::new();
        self.errors = Vec::new();
        self.start = 0;
        self.current = 0;
        self.line = 1;
        while !self.is_at_end()
            invariant
                self.wf(),
                self.source@ == s,
                token_views(self.tokens@) + lex_from(s, self.current as int, self.line as nat).0
                    == tokens_of(s),
                error_views(self.errors@) + lex_from(s, self.current as int, self.line as nat).1
                    == errors_of(s),
            decreases self.source.len() - self.current,
        {
            // The next lexeme starts here.
            self.start = self.current;
            let ghost before = *self;
            self.scan_token();
            let ghost st = step(s, before.current as int, before.line as nat);
            let ghost rest = lex_from(s, self.current as int, self.line as nat);
            assert(lex_from(s, before.current as int, before.line as nat) == (
            opt_seq(st.token) + rest.0, st.errors + rest.1));
            assert(token_views(before.tokens@) + (opt_seq(st.token) + rest.0) =~= token_views(
                self.tokens@,
            ) + rest.0);
            assert(error_views(before.errors@) + (st.errors + rest.1) =~= error_views(self.errors@)
                + rest.1);
        }
        let ghost before = self.tokens@;
        let eof = Token {
            token_type: TokenType::Eof,
            lexeme: String::new(),
            line: self.line,
            literal: None,
        };
        self.tokens.push(eof);
        assert(token_views(self.tokens@) =~= token_views(before) + seq![eof@]);
        assert(eof@.lexeme =~= Seq::<char>::empty());
        let mut tokens: Vec<Token> = Vec::new();
        std::mem::swap(&mut tokens, &mut self.tokens);
        (self.errors.len() > 0, tokens)
    }

    /// A scanner over `source`, with nothing scanned yet.
    pub fn new(source: &str) -> (r: Scanner)
        requires
            source@.len() < usize::MAX,
        ensures
            r.wf(),
            r.source_text() == source@,
            r.reported() == Seq::<ErrorView>::empty(),
    {
        let r = Scanner {
            source: chars_of(source),
            tokens: Vec::new(),
            errors: Vec::new(),
            start: 0,
            current: 0,
            line: 1,
        };
        assert(error_views(r.errors@) =~= Seq::<ErrorView>::empty());
        r
    }

    /// The errors of the last scan, in the order they were met.
    pub fn errors(&self) -> (r: &Vec<ScanError>)
        ensures
            error_views(r@) == self.reported(),
    {
        &self.errors
    }

    fn is_at_end(&self) -> (r: bool)
        ensures
            r == (self.current >= self.source.len()),
    {
        self.current >= self.source.len()
    }

    /// Records an error of kind `kind` on the current line.
    fn report_error(&mut self, kind: ScanErrorKind)
        requires
            old(self).wf(),
        ensures
            final(self).wf(),
            final(self).source@ == old(self).source@,
            final(self).start == old(self).start,
            final(self).current == old(self).current,
            final(self).line == old(self).line,
            final(self).tokens@ == old(self).tokens@,
            error_views(final(self).errors@) == error_views(old(self).errors@).push(
                ErrorView { line: old(self).line as nat, kind },
            ),
    {
        let ghost before = self.errors@;
        let e = ScanError { line: self.line, kind };
        self.errors.push(e);
        assert(error_views(self.errors@) =~= error_views(before).push(e@));
    }
}

} // verus!

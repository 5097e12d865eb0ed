use vstd::prelude::*;

verus! {

/// The kind of a token: punctuation, operators, literals, keywords and the
/// end-of-input marker.
#[derive(Clone, Copy, Debug, PartialEq, Eq, Structural)]
pub enum TokenType {
    // Single-character tokens.
    LeftParen,
    RightParen,
    LeftBrace,
    RightBrace,
    Comma,
    Dot,
    Minus,
    Plus,
    Semicolon,
    Slash,
    Star,
    // One or two character tokens.
    Bang,
    BangEqual,
    Equal,
    EqualEqual,
    Greater,
    GreaterEqual,
    Less,
    LessEqual,
    // Literals.
    Identifier,
    String,
    Number,
    // Keywords.
    And,
    Class,
    Else,
    False,
    Fun,
    For,
    If,
    Nil,
    Or,
    Print,
    Return,
    Super,
    This,
    True,
    Var,
    While,
    Eof,
}

pub open spec fn is_digit(c: char) -> bool {
    '0' <= c && c <= '9'
}

/// Each character of `t` is a decimal digit.
pub open spec fn all_digits(t: Seq<char>) -> bool {
    forall|i: int| 0 <= i < t.len() ==> is_digit(#[trigger] t[i])
}

/// `t` without its leading zeros, keeping a single `0` when nothing else is left.
pub open spec fn trim_leading_zeros(t: Seq<char>) -> Seq<char>
    decreases t.len(),
{
    if t.len() > 1 && t[0] == '0' {
        trim_leading_zeros(t.drop_first())
    } else {
        t
    }
}

/// `t` without its trailing zeros.
pub open spec fn trim_trailing_zeros(t: Seq<char>) -> Seq<char>
    decreases t.len(),
{
    if t.len() > 0 && t.last() == '0' {
        trim_trailing_zeros(t.drop_last())
    } else {
        t
    }
}

/// The shortest ordinary decimal text of the number whose integral digits are
/// `whole` and whose fractional digits are `frac`.
pub open spec fn canonical_decimal(whole: Seq<char>, frac: Seq<char>) -> Seq<char> {
    let w = trim_leading_zeros(whole);
    let f = trim_trailing_zeros(frac);
    if f.len() == 0 {
        w
    } else {
        w + seq!['.'] + f
    }
}

/// Index of the first `.` in `t` at or after `i`, or `t.len()` when there is none.
pub open spec fn dot_index(t: Seq<char>, i: int) -> int
    decreases t.len() - i,
{
    if i >= t.len() || i < 0 {
        t.len() as int
    } else if t[i] == '.' {
        i
    } else {
        dot_index(t, i + 1)
    }
}

/// `t` is a run of digits, optionally followed by `.` and another run of digits.
pub open spec fn is_decimal_text(t: Seq<char>) -> bool {
    let d = dot_index(t, 0);
    &&& d > 0
    &&& all_digits(t.subrange(0, d))
    &&& d < t.len() ==> d + 1 < t.len() && all_digits(t.subrange(d + 1, t.len() as int))
}

/// The canonical text of the number that the decimal text `t` denotes.
pub open spec fn decimal_value(t: Seq<char>) -> Seq<char> {
    let d = dot_index(t, 0);
    if d < t.len() {
        canonical_decimal(t.subrange(0, d), t.subrange(d + 1, t.len() as int))
    } else {
        canonical_decimal(t, Seq::empty())
    }
}

/// `t` is the canonical text of some number written with digits.
pub open spec fn is_shortest_decimal(t: Seq<char>) -> bool {
    exists|w: Seq<char>, f: Seq<char>|
        #![trigger canonical_decimal(w, f)]
        w.len() > 0 && all_digits(w) && all_digits(f) && t == canonical_decimal(w, f)
}

/// A run of digits followed by one more digit is a run of digits.
pub(crate) proof fn lemma_all_digits_push(s: Seq<char>, a: int, b: int)
    requires
        0 <= a <= b < s.len(),
        all_digits(s.subrange(a, b)),
        is_digit(s[b]),
    ensures
        all_digits(s.subrange(a, b + 1)),
{
    assert forall|k: int| 0 <= k < b + 1 - a implies is_digit(#[trigger] s.subrange(a, b + 1)[k]) by {
        if k < b - a {
            assert(s.subrange(a, b)[k] == s[a + k]);
        }
    }
}

/// A decimal number, held exactly as its shortest ordinary decimal text
/// (no leading zeros in the integral part, no trailing zeros in the fraction).
#[derive(Clone, Debug, PartialEq, Eq)]
pub struct Number {
    text: String,
}

impl View for Number {
    type V = Seq<char>;

    closed spec fn view(&self) -> Seq<char> {
        self.text@
    }
}

/// The value a literal token carries.
#[derive(Clone, Debug, PartialEq)]
pub enum Literal {
    Number(Number),
    String(String),
}

/// What a literal holds: the canonical text of a number, or the characters of
/// a string.
pub enum LiteralView {
    Number(Seq<char>),
    Text(Seq<char>),
}

impl View for Literal {
    type V = LiteralView;

    open spec fn view(&self) -> LiteralView {
        match self {
            Literal::Number(n) => LiteralView::Number(n@),
            Literal::String(s) => LiteralView::Text(s@),
        }
    }
}

/// One token: its kind, the exact source text it was scanned from, the line
/// it ends on, and its literal value for numbers and strings.
#[derive(Clone, Debug, PartialEq)]
pub struct Token {
    pub token_type: TokenType,
    pub lexeme: String,
    pub line: u64,
    pub literal: Option<Literal>,
}

/// A token as a mathematical value.
pub struct TokenView {
    pub kind: TokenType,
    pub lexeme: Seq<char>,
    pub line: nat,
    pub literal: Option<LiteralView>,
}

pub open spec fn literal_view(l: Option<Literal>) -> Option<LiteralView> {
    match l {
        Some(v) => Some(v@),
        None => None,
    }
}

impl View for Token {
    type V = TokenView;

    open spec fn view(&self) -> TokenView {
        TokenView {
            kind: self.token_type,
            lexeme: self.lexeme@,
            line: self.line as nat,
            literal: literal_view(self.literal),
        }
    }
}

pub open spec fn token_views(ts: Seq<Token>) -> Seq<TokenView> {
    ts.map_values(|t: Token| t@)
}

/// Relies on `String::push`: appends one character.
#[verifier::external_body]
pub(crate) fn push_char(s: &mut String, c: char)
    ensures
        final(s)@ == old(s)@.push(c),
{
    s.push(c);
}

/// The characters of `s`, in order.
pub(crate) fn chars_of(s: &str) -> (r: Vec<char>)
    ensures
        r@ == s@,
{
    let mut r: Vec<char> = Vec::new();
    for c in it: s.chars()
        invariant
            r@ == it.seq().take(it.index() as int),
    {
        r.push(c);
    }
    r
}

/// Appends `chars[a..b]` to `s`.
pub(crate) fn push_range(s: &mut String, chars: &Vec<char>, a: usize, b: usize)
    requires
        a <= b <= chars.len(),
    ensures
        final(s)@ == old(s)@ + chars@.subrange(a as int, b as int),
{
    let mut i: usize = a;
    while i < b
        invariant
            a <= i <= b <= chars.len(),
            s@ == old(s)@ + chars@.subrange(a as int, i as int),
        decreases b - i,
    {
        push_char(s, chars[i]);
        i = i + 1;
        assert(chars@.subrange(a as int, i as int) =~= chars@.subrange(a as int, i - 1) + seq![chars@[i - 1]]);
    }
}

impl Number {
    /// The number whose integral digits are `chars[a..b]` and whose fractional
    /// digits are `chars[c..d]`.
    pub(crate) fn from_digit_runs(chars: &Vec<char>, a: usize, b: usize, c: usize, d: usize) -> (n: Number)
        requires
            a < b <= c <= d <= chars.len(),
            all_digits(chars@.subrange(a as int, b as int)),
            all_digits(chars@.subrange(c as int, d as int)),
        ensures
            n@ == canonical_decimal(
                chars@.subrange(a as int, b as int),
                chars@.subrange(c as int, d as int),
            ),
            is_shortest_decimal(n@),
    {
        let mut i: usize = a;
        while i + 1 < b && chars[i] == '0'
            invariant
                a <= i < b <= chars.len(),
                trim_leading_zeros(chars@.subrange(a as int, b as int)) == trim_leading_zeros(
                    chars@.subrange(i as int, b as int),
                ),
            decreases b - i,
        {
            assert(chars@.subrange(i as int, b as int).drop_first() =~= chars@.subrange(
                i + 1,
                b as int,
            ));
            i = i + 1;
        }
        let ghost w = chars@.subrange(i as int, b as int);
        assert(trim_leading_zeros(w) == w);
        let mut j: usize = d;
        while j > c && chars[j - 1] == '0'
            invariant
                c <= j <= d <= chars.len(),
                trim_trailing_zeros(chars@.subrange(c as int, d as int)) == trim_trailing_zeros(
                    chars@.subrange(c as int, j as int),
                ),
            decreases j - c,
        {
            assert(chars@.subrange(c as int, j as int).drop_last() =~= chars@.subrange(
                c as int,
                j - 1,
            ));
            j = j - 1;
        }
        let ghost f = chars@.subrange(c as int, j as int);
        assert(trim_trailing_zeros(f) == f);
        let mut text = String::new();
        push_range(&mut text, chars, i, b);
        if j > c {
            push_char(&mut text, '.');
            push_range(&mut text, chars, c, j);
        }
        assert(is_shortest_decimal(text@)) by {
            let w0 = chars@.subrange(a as int, b as int);
            let f0 = chars@.subrange(c as int, d as int);
            assert(text@ == canonical_decimal(w0, f0));
        }
        Number { text }
    }

    /// Reads decimal text: a run of digits, optionally followed by `.` and a
    /// second run of digits. Anything else gives `None`.
    pub fn parse(text: &str) -> (r: Option<Number>)
        ensures
            r is Some <==> is_decimal_text(text@),
            r is Some ==> r->0@ == decimal_value(text@) && is_shortest_decimal(r->0@),
    {
        let chars = chars_of(text);
        let n = chars.len();
        let mut d: usize = 0;
        while d < n && chars[d] != '.'
            invariant
                d <= n == chars.len(),
                chars@ == text@,
                dot_index(text@, 0) == dot_index(text@, d as int),
            decreases n - d,
        {
            d = d + 1;
        }
        if d == 0 || !digits_between(&chars, 0, d) {
            return None;
        }
        if d == n {
            assert(chars@.subrange(0, n as int) =~= chars@);
            let r = Number::from_digit_runs(&chars, 0, d, d, d);
            assert(chars@.subrange(d as int, d as int) =~= Seq::<char>::empty());
            return Some(r);
        }
        if d + 1 == n || !digits_between(&chars, d + 1, n) {
            return None;
        }
        Some(Number::from_digit_runs(&chars, 0, d, d + 1, n))
    }

    /// The shortest ordinary decimal text of this number.
    pub fn text(&self) -> (r: String)
        ensures
            r@ == self@,
    {
        self.text.clone()
    }
}

/// Whether `chars[a..b]` holds only digits.
pub(crate) fn digits_between(chars: &Vec<char>, a: usize, b: usize) -> (r: bool)
    requires
        a <= b <= chars.len(),
    ensures
        r == all_digits(chars@.subrange(a as int, b as int)),
{
    let mut i: usize = a;
    while i < b
        invariant
            a <= i <= b <= chars.len(),
            all_digits(chars@.subrange(a as int, i as int)),
        decreases b - i,
    {
        if !('0' <= chars[i] && chars[i] <= '9') {
            assert(chars@.subrange(a as int, b as int)[i - a] == chars@[i as int]);
            return false;
        }
        i = i + 1;
        assert forall|k: int| 0 <= k < i - a implies is_digit(
            #[trigger] chars@.subrange(a as int, i as int)[k],
        ) by {
            if k < i - 1 - a {
                assert(chars@.subrange(a as int, i - 1)[k] == chars@[a + k]);
            }
        }
    }
    true
}

} // verus!

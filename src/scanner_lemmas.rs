use vstd::prelude::*;

use crate::scanner::{
    eof_token, errors_of, lex_from, newlines, quote_end, span_end, step, tokens_of, ErrorView,
    ScanErrorKind,
};
use crate::token::{TokenType, TokenView};

verus! {

/// A run that holds all the way to the end of `s` ends there.
proof fn lemma_span_to_end(s: Seq<char>, i: int, keep: spec_fn(char) -> bool)
    requires
        0 <= i <= s.len(),
        forall|k: int| i <= k < s.len() ==> keep(#[trigger] s[k]),
    ensures
        span_end(s, i, keep) == s.len(),
    decreases s.len() - i,
{
    if i < s.len() {
        lemma_span_to_end(s, i + 1, keep);
    }
}

/// A stretch without a newline counts none.
proof fn lemma_no_newlines(s: Seq<char>, a: int, b: int)
    requires
        forall|k: int| a <= k < b ==> #[trigger] s[k] != '\n',
    ensures
        newlines(s, a, b) == 0,
    decreases b - a,
{
    if b > a {
        lemma_no_newlines(s, a, b - 1);
    }
}

/// A string that is still open at the end of input: scanning from its
/// opening quote reports exactly one unterminated-literal error, on the line
/// the string opened, and still ends with the end-of-input token.
pub proof fn lemma_unterminated_string(s: Seq<char>, p: int, line: nat)
    requires
        0 <= p < s.len(),
        s[p] == '"',
        forall|k: int| p < k < s.len() ==> #[trigger] s[k] != '"' && s[k] != '\n',
    ensures
        lex_from(s, p, line).1 == seq![
            ErrorView { line, kind: ScanErrorKind::UnterminatedLiteral },
        ],
        lex_from(s, p, line).0 == seq![eof_token(line)],
{
    lemma_span_to_end(s, p + 1, |c: char| c != '"');
    assert(quote_end(s, p + 1) == s.len());
    lemma_no_newlines(s, p + 1, s.len() as int);
    let st = step(s, p, line);
    assert(st.next == s.len());
    assert(st.line == line);
    let rest = lex_from(s, st.next, st.line);
    assert(rest == (seq![eof_token(line)], Seq::<ErrorView>::empty()));
    assert(lex_from(s, p, line).0 =~= seq![eof_token(line)]);
    assert(lex_from(s, p, line).1 =~= seq![
        ErrorView { line, kind: ScanErrorKind::UnterminatedLiteral },
    ]);
}

/// A token carries a literal exactly when it is a number or a string.
pub open spec fn has_literal_iff_valued(t: TokenView) -> bool {
    t.literal is Some <==> (t.kind == TokenType::Number || t.kind == TokenType::String)
}

proof fn lemma_lex_from_shape(s: Seq<char>, p: int, line: nat)
    ensures
        lex_from(s, p, line).0.len() >= 1,
        lex_from(s, p, line).0.last() == eof_token(lex_from(s, p, line).0.last().line),
        forall|i: int|
            0 <= i < lex_from(s, p, line).0.len() - 1 ==> (#[trigger] lex_from(
                s,
                p,
                line,
            ).0[i]).kind != TokenType::Eof,
        forall|i: int, j: int|
            0 <= i <= j < lex_from(s, p, line).0.len() ==> line <= (#[trigger] lex_from(
                s,
                p,
                line,
            ).0[i]).line <= (#[trigger] lex_from(s, p, line).0[j]).line,
        forall|i: int|
            0 <= i < lex_from(s, p, line).0.len() ==> has_literal_iff_valued(
                #[trigger] lex_from(s, p, line).0[i],
            ),
    decreases s.len() - p,
{
    let st = step(s, p, line);
    if 0 <= p < st.next <= s.len() {
        lemma_lex_from_shape(s, st.next, st.line);
        let rest = lex_from(s, st.next, st.line).0;
        let ts = lex_from(s, p, line).0;
        match st.token {
            Some(t) => {
                assert(ts == seq![t] + rest);
                assert(t.kind != TokenType::Eof);
                assert(t.line == st.line);
                assert(has_literal_iff_valued(t));
                assert forall|i: int| 0 <= i < ts.len() implies has_literal_iff_valued(
                    #[trigger] ts[i],
                ) by {
                    if i > 0 {
                        assert(ts[i] == rest[i - 1]);
                    }
                }
                assert forall|i: int| 0 <= i < ts.len() - 1 implies (#[trigger] ts[i]).kind
                    != TokenType::Eof by {
                    if i > 0 {
                        assert(ts[i] == rest[i - 1]);
                    }
                }
                assert forall|i: int, j: int| 0 <= i <= j < ts.len() implies line <= (
                #[trigger] ts[i]).line <= (#[trigger] ts[j]).line by {
                    if i > 0 {
                        assert(ts[i] == rest[i - 1]);
                    }
                    if j > 0 {
                        assert(ts[j] == rest[j - 1]);
                    }
                }
            },
            None => {
                assert(ts =~= rest);
            },
        }
    }
}

/// The shape of every token stream: it is never empty, its last token is
/// the end-of-input marker with an empty lexeme, no other token is one, and
/// line numbers start at 1 and never decrease, and a token carries a literal
/// exactly when it is a number or a string. An empty source yields the marker
/// alone, on line 1.
pub proof fn lemma_token_stream_shape(s: Seq<char>)
    ensures
        tokens_of(s).len() >= 1,
        tokens_of(s).last().kind == TokenType::Eof,
        tokens_of(s).last().lexeme == Seq::<char>::empty(),
        forall|i: int|
            0 <= i < tokens_of(s).len() - 1 ==> (#[trigger] tokens_of(s)[i]).kind
                != TokenType::Eof,
        forall|i: int, j: int|
            0 <= i <= j < tokens_of(s).len() ==> 1 <= (#[trigger] tokens_of(s)[i]).line <= (
            #[trigger] tokens_of(s)[j]).line,
        forall|i: int|
            0 <= i < tokens_of(s).len() ==> has_literal_iff_valued(#[trigger] tokens_of(s)[i]),
        s.len() == 0 ==> tokens_of(s) == seq![eof_token(1)] && errors_of(s).len() == 0,
{
    lemma_lex_from_shape(s, 0, 1);
}

/// Scanning is deterministic: equal sources give equal token streams and
/// equal errors, so also the same error flag.
pub proof fn lemma_scan_deterministic(a: Seq<char>, b: Seq<char>)
    requires
        a == b,
    ensures
        tokens_of(a) == tokens_of(b),
        errors_of(a) == errors_of(b),
        (errors_of(a).len() > 0) == (errors_of(b).len() > 0),
{
}

} // verus!

//! Lexical analysis.
//!
//! The behaviour of the lexer is captured by the specification scanner
//! [`read_token_spec`]: one call of [`Lexer::read_token`] performs exactly
//! one step of that scanner. The whole token sequence of a source text is
//! [`lex_tokens`], and [`crate::syntax::lex`] is proved against it.

use vstd::prelude::*;
use crate::syntax::chars::{
    chars_to_string, is_alnum_char, is_alpha_char, is_digit, is_digit_char, is_ws, is_ws_char,
    str_to_chars,
};
use crate::syntax::error::{LexResult, SyntaxError};
use crate::syntax::token::{keyword_of, Position, ToKeyword, Token, TokenType, TokenV};

verus! {

/// The first index at or after `i` whose character is not alphanumeric,
/// or the end of the text.
pub open spec fn scan_alnum(s: Seq<char>, i: int) -> int
    decreases s.len() - i,
{
    if i < s.len() && is_alnum_char(s[i]) {
        scan_alnum(s, i + 1)
    } else {
        i
    }
}

/// The first index at or after `i` whose character is not a digit, or the
/// end of the text.
pub open spec fn scan_digits(s: Seq<char>, i: int) -> int
    decreases s.len() - i,
{
    if i < s.len() && is_digit_char(s[i]) {
        scan_digits(s, i + 1)
    } else {
        i
    }
}

/// The end of a number token whose first digit is at `i`: a run of
/// digits, extended by a fractional part only when a `.` is followed by
/// at least one digit.
pub open spec fn scan_number(s: Seq<char>, i: int) -> int {
    let d = scan_digits(s, i);
    if d + 1 < s.len() && s[d] == '.' && is_digit_char(s[d + 1]) {
        scan_digits(s, d + 2)
    } else {
        d
    }
}

/// The index of the first `"` at or after `i`, or the end of the text.
pub open spec fn scan_to_quote(s: Seq<char>, i: int) -> int
    decreases s.len() - i,
{
    if i < s.len() && s[i] != '"' {
        scan_to_quote(s, i + 1)
    } else {
        i
    }
}

/// The index of the first newline at or after `i`, or the end of the
/// text.
pub open spec fn scan_to_newline(s: Seq<char>, i: int) -> int
    decreases s.len() - i,
{
    if i < s.len() && s[i] != '\n' {
        scan_to_newline(s, i + 1)
    } else {
        i
    }
}

/// The cursor and line counter after skipping whitespace, starting from
/// offset `i` on line `line`.
pub open spec fn skip_ws(s: Seq<char>, i: int, line: int) -> (int, int)
    decreases s.len() - i,
{
    if i < s.len() && is_ws_char(s[i]) {
        skip_ws(s, i + 1, line + if s[i] == '\n' { 1int } else { 0int })
    } else {
        (i, line)
    }
}

/// The number of newline characters in `s[i .. j]`.
pub open spec fn nl_count(s: Seq<char>, i: int, j: int) -> int
    decreases j - i,
{
    if i < j {
        nl_count(s, i, j - 1) + if s[j - 1] == '\n' { 1int } else { 0int }
    } else {
        0
    }
}

/// The token kind of a single punctuation character that needs no
/// lookahead, if any.
pub open spec fn single_char_kind(c: char) -> Option<TokenType> {
    if c == '(' {
        Some(TokenType::LeftParen)
    } else if c == ')' {
        Some(TokenType::RightParen)
    } else if c == '[' {
        Some(TokenType::LeftBracket)
    } else if c == ']' {
        Some(TokenType::RightBracket)
    } else if c == '{' {
        Some(TokenType::LeftBrace)
    } else if c == '}' {
        Some(TokenType::RightBrace)
    } else if c == ',' {
        Some(TokenType::Comma)
    } else if c == '.' {
        Some(TokenType::Dot)
    } else if c == '+' {
        Some(TokenType::Plus)
    } else if c == '-' {
        Some(TokenType::Minus)
    } else if c == '*' {
        Some(TokenType::Star)
    } else if c == ';' {
        Some(TokenType::Semicolon)
    } else {
        None
    }
}

/// The kinds of the operators that try one character of `=` lookahead:
/// the two-character kind taken when `=` follows, and the one-character
/// kind taken otherwise.
pub open spec fn lookahead_kinds(c: char) -> Option<(TokenType, TokenType)> {
    if c == '!' {
        Some((TokenType::BangEqual, TokenType::Bang))
    } else if c == '=' {
        Some((TokenType::EqualEqual, TokenType::Equal))
    } else if c == '<' {
        Some((TokenType::LessThanEqual, TokenType::LessThan))
    } else if c == '>' {
        Some((TokenType::GreaterThanEqual, TokenType::GreaterThan))
    } else {
        None
    }
}

/// The outcome of one scanner step: the token read (`None` for a
/// comment), or a lexical error; and the cursor and line counter after
/// the step. On an error the cursor and line are not meaningful.
pub struct ScanStep {
    pub res: Result<Option<TokenV>, SyntaxError>,
    pub next: int,
    pub line: int,
}

/// A token value spanning `[start, end)` of `s`.
pub open spec fn token_at(s: Seq<char>, kind: TokenType, start: int, end: int, line: int) -> TokenV {
    TokenV { kind, lexeme: s.subrange(start, end), start, end, line }
}

/// The end-of-input token: zero-length span at the end of the text.
pub open spec fn eof_token(s: Seq<char>, line: int) -> TokenV {
    TokenV {
        kind: TokenType::EOF,
        lexeme: Seq::empty(),
        start: s.len() as int,
        end: s.len() as int,
        line,
    }
}

/// One step of the scanner, from offset `i` on line `line`: skip
/// whitespace, then read one token, one comment, or the end of input.
pub open spec fn read_token_spec(s: Seq<char>, i: int, line: int) -> ScanStep {
    let (j, l) = skip_ws(s, i, line);
    if j >= s.len() {
        ScanStep { res: Ok(Some(eof_token(s, l))), next: j, line: l }
    } else {
        let c = s[j];
        if is_alpha_char(c) {
            let e = scan_alnum(s, j + 1);
            let lexeme = s.subrange(j, e);
            ScanStep {
                res: Ok(Some(TokenV { kind: keyword_of(lexeme), lexeme, start: j, end: e, line: l })),
                next: e,
                line: l,
            }
        } else if is_digit_char(c) {
            let e = scan_number(s, j);
            ScanStep { res: Ok(Some(token_at(s, TokenType::Number, j, e, l))), next: e, line: l }
        } else if c == '"' {
            let e = scan_to_quote(s, j + 1);
            if e >= s.len() {
                ScanStep { res: Err(SyntaxError::UnterminatedString), next: s.len() as int, line: l }
            } else {
                let l2 = l + nl_count(s, j + 1, e);
                ScanStep {
                    res: Ok(Some(token_at(s, TokenType::Str, j + 1, e, l2))),
                    next: e + 1,
                    line: l2,
                }
            }
        } else if c == '/' && j + 1 < s.len() && s[j + 1] == '/' {
            ScanStep { res: Ok(None), next: scan_to_newline(s, j + 2), line: l }
        } else if c == '/' {
            ScanStep { res: Ok(Some(token_at(s, TokenType::Slash, j, j + 1, l))), next: j + 1, line: l }
        } else if lookahead_kinds(c) is Some {
            let (two, one) = lookahead_kinds(c)->Some_0;
            if j + 1 < s.len() && s[j + 1] == '=' {
                ScanStep { res: Ok(Some(token_at(s, two, j, j + 2, l))), next: j + 2, line: l }
            } else {
                ScanStep { res: Ok(Some(token_at(s, one, j, j + 1, l))), next: j + 1, line: l }
            }
        } else if single_char_kind(c) is Some {
            ScanStep {
                res: Ok(Some(token_at(s, single_char_kind(c)->Some_0, j, j + 1, l))),
                next: j + 1,
                line: l,
            }
        } else {
            ScanStep { res: Err(SyntaxError::UnexpectedChar), next: s.len() as int, line: l }
        }
    }
}

pub proof fn lemma_scan_alnum_bounds(s: Seq<char>, i: int)
    ensures
        i <= scan_alnum(s, i),
        i <= s.len() ==> scan_alnum(s, i) <= s.len(),
    decreases s.len() - i,
{
    if i < s.len() && is_alnum_char(s[i]) {
        lemma_scan_alnum_bounds(s, i + 1);
    }
}

pub proof fn lemma_scan_digits_bounds(s: Seq<char>, i: int)
    ensures
        i <= scan_digits(s, i),
        i <= s.len() ==> scan_digits(s, i) <= s.len(),
    decreases s.len() - i,
{
    if i < s.len() && is_digit_char(s[i]) {
        lemma_scan_digits_bounds(s, i + 1);
    }
}

pub proof fn lemma_scan_number_bounds(s: Seq<char>, i: int)
    ensures
        i <= scan_number(s, i),
        i <= s.len() ==> scan_number(s, i) <= s.len(),
{
    lemma_scan_digits_bounds(s, i);
    let d = scan_digits(s, i);
    if d + 1 < s.len() && s[d] == '.' && is_digit_char(s[d + 1]) {
        lemma_scan_digits_bounds(s, d + 2);
    }
}

pub proof fn lemma_scan_to_quote_bounds(s: Seq<char>, i: int)
    ensures
        i <= scan_to_quote(s, i),
        i <= s.len() ==> scan_to_quote(s, i) <= s.len(),
    decreases s.len() - i,
{
    if i < s.len() && s[i] != '"' {
        lemma_scan_to_quote_bounds(s, i + 1);
    }
}

pub proof fn lemma_scan_to_newline_bounds(s: Seq<char>, i: int)
    ensures
        i <= scan_to_newline(s, i),
        i <= s.len() ==> scan_to_newline(s, i) <= s.len(),
    decreases s.len() - i,
{
    if i < s.len() && s[i] != '\n' {
        lemma_scan_to_newline_bounds(s, i + 1);
    }
}

pub proof fn lemma_skip_ws_bounds(s: Seq<char>, i: int, line: int)
    ensures
        i <= skip_ws(s, i, line).0,
        i <= s.len() ==> skip_ws(s, i, line).0 <= s.len(),
    decreases s.len() - i,
{
    if i < s.len() && is_ws_char(s[i]) {
        lemma_skip_ws_bounds(s, i + 1, line + if s[i] == '\n' { 1int } else { 0int });
    }
}

/// Every scanner step leaves the cursor within the text, and strictly
/// advances it unless the step read the end-of-input token.
pub proof fn lemma_read_token_progress(s: Seq<char>, i: int, line: int)
    requires
        i <= s.len(),
    ensures
        i <= read_token_spec(s, i, line).next <= s.len(),
        read_token_spec(s, i, line).res matches Ok(t) && !(t matches Some(tv) && tv.kind
            == TokenType::EOF) ==> read_token_spec(s, i, line).next > i,
{
    lemma_skip_ws_bounds(s, i, line);
    let (j, l) = skip_ws(s, i, line);
    if j < s.len() {
        let c = s[j];
        lemma_scan_alnum_bounds(s, j + 1);
        lemma_scan_number_bounds(s, j);
        lemma_scan_digits_bounds(s, j);
        lemma_scan_to_quote_bounds(s, j + 1);
        if c == '/' && j + 1 < s.len() && s[j + 1] == '/' {
            lemma_scan_to_newline_bounds(s, j + 2);
        }
        if is_digit_char(c) {
            assert(scan_digits(s, j) == scan_digits(s, j + 1));
            lemma_scan_digits_bounds(s, j + 1);
            let d = scan_digits(s, j);
            if d + 1 < s.len() && s[d] == '.' && is_digit_char(s[d + 1]) {
                lemma_scan_digits_bounds(s, d + 2);
            }
        }
    }
}

/// The token sequence of `s` from offset `i` on line `line`: scanner
/// steps repeated until the end-of-input token, which is included as the
/// last element.
pub open spec fn lex_tokens(s: Seq<char>, i: int, line: int) -> Result<Seq<TokenV>, SyntaxError>
    decreases s.len() - i,
    when i <= s.len()
    via lex_tokens_decreases
{
    let step = read_token_spec(s, i, line);
    match step.res {
        Err(e) => Err(e),
        Ok(None) => lex_tokens(s, step.next, step.line),
        Ok(Some(t)) => {
            if t.kind == TokenType::EOF {
                Ok(seq![t])
            } else {
                match lex_tokens(s, step.next, step.line) {
                    Ok(rest) => Ok(seq![t] + rest),
                    Err(e) => Err(e),
                }
            }
        },
    }
}

#[via_fn]
proof fn lex_tokens_decreases(s: Seq<char>, i: int, line: int) {
    lemma_read_token_progress(s, i, line);
}

/// On every source text that lexes successfully, the token sequence ends
/// with the end-of-input token, whose span has zero length and lies at
/// the end of the text.
pub proof fn lemma_lex_tokens_last_eof(s: Seq<char>, i: int, line: int)
    requires
        0 <= i <= s.len(),
    ensures
        lex_tokens(s, i, line) matches Ok(toks) ==> toks.len() >= 1 && toks.last().kind
            == TokenType::EOF && toks.last().lexeme.len() == 0 && toks.last().start == s.len()
            && toks.last().end == s.len(),
    decreases s.len() - i,
{
    lemma_read_token_progress(s, i, line);
    let step = read_token_spec(s, i, line);
    match step.res {
        Ok(None) => {
            lemma_lex_tokens_last_eof(s, step.next, step.line);
        },
        Ok(Some(t)) => {
            if t.kind != TokenType::EOF {
                lemma_lex_tokens_last_eof(s, step.next, step.line);
                if let Ok(rest) = lex_tokens(s, step.next, step.line) {
                    assert((seq![t] + rest).last() == rest.last());
                }
            }
        },
        Err(_) => {
        },
    }
}

pub proof fn lemma_scan_alnum_content(s: Seq<char>, i: int)
    requires
        0 <= i <= s.len(),
    ensures
        forall|j: int| i <= j < scan_alnum(s, i) ==> is_alnum_char(#[trigger] s[j]),
        scan_alnum(s, i) < s.len() ==> !is_alnum_char(s[scan_alnum(s, i)]),
    decreases s.len() - i,
{
    if i < s.len() && is_alnum_char(s[i]) {
        lemma_scan_alnum_content(s, i + 1);
    }
}

pub proof fn lemma_scan_digits_content(s: Seq<char>, i: int)
    requires
        0 <= i <= s.len(),
    ensures
        forall|j: int| i <= j < scan_digits(s, i) ==> is_digit_char(#[trigger] s[j]),
        scan_digits(s, i) < s.len() ==> !is_digit_char(s[scan_digits(s, i)]),
    decreases s.len() - i,
{
    if i < s.len() && is_digit_char(s[i]) {
        lemma_scan_digits_content(s, i + 1);
    }
}

pub proof fn lemma_scan_alnum_exact(s: Seq<char>, i: int, k: int)
    requires
        0 <= i <= k <= s.len(),
        forall|j: int| i <= j < k ==> is_alnum_char(#[trigger] s[j]),
        k == s.len() || !is_alnum_char(s[k]),
    ensures
        scan_alnum(s, i) == k,
    decreases k - i,
{
    if i < k {
        lemma_scan_alnum_exact(s, i + 1, k);
    }
}

pub proof fn lemma_scan_digits_exact(s: Seq<char>, i: int, k: int)
    requires
        0 <= i <= k <= s.len(),
        forall|j: int| i <= j < k ==> is_digit_char(#[trigger] s[j]),
        k == s.len() || !is_digit_char(s[k]),
    ensures
        scan_digits(s, i) == k,
    decreases k - i,
{
    if i < k {
        lemma_scan_digits_exact(s, i + 1, k);
    }
}

/// The kinds whose lexemes are identifier-shaped: an alphabetic
/// character followed by alphanumerics.
pub open spec fn ident_kind(k: TokenType) -> bool {
    k == TokenType::Identifier || k == TokenType::Fun || k == TokenType::Let || k
        == TokenType::Print || k == TokenType::If || k == TokenType::Else || k == TokenType::True
        || k == TokenType::False
}

/// The shape of a number lexeme: a digit run, optionally followed by a
/// `.` and at least one more digit.
pub open spec fn number_shape(lx: Seq<char>) -> bool {
    let d = scan_digits(lx, 0);
    &&& lx.len() >= 1
    &&& is_digit_char(lx[0])
    &&& (d == lx.len() || (d + 2 <= lx.len() && lx[d] == '.' && forall|k: int|
        d + 1 <= k < lx.len() ==> is_digit_char(#[trigger] lx[k])))
}

/// The fixed lexeme of an operator or punctuation kind; empty for the
/// other kinds.
pub open spec fn op_lexeme(k: TokenType) -> Seq<char> {
    match k {
        TokenType::LeftParen => seq!['('],
        TokenType::RightParen => seq![')'],
        TokenType::LeftBracket => seq!['['],
        TokenType::RightBracket => seq![']'],
        TokenType::LeftBrace => seq!['{'],
        TokenType::RightBrace => seq!['}'],
        TokenType::Comma => seq![','],
        TokenType::Dot => seq!['.'],
        TokenType::Plus => seq!['+'],
        TokenType::Minus => seq!['-'],
        TokenType::Star => seq!['*'],
        TokenType::Semicolon => seq![';'],
        TokenType::Slash => seq!['/'],
        TokenType::Bang => seq!['!'],
        TokenType::Equal => seq!['='],
        TokenType::LessThan => seq!['<'],
        TokenType::GreaterThan => seq!['>'],
        TokenType::BangEqual => seq!['!', '='],
        TokenType::EqualEqual => seq!['=', '='],
        TokenType::LessThanEqual => seq!['<', '='],
        TokenType::GreaterThanEqual => seq!['>', '='],
        _ => Seq::empty(),
    }
}

/// The lexeme of a token determines the token again: its kind and
/// lexeme fit one of the three shapes a scanner step can read in one
/// piece. String tokens do not qualify: their lexeme drops the
/// enclosing quotes.
pub open spec fn content_ok(t: TokenV) -> bool {
    if ident_kind(t.kind) {
        &&& t.lexeme.len() >= 1
        &&& is_alpha_char(t.lexeme[0])
        &&& (forall|k: int| 1 <= k < t.lexeme.len() ==> is_alnum_char(#[trigger] t.lexeme[k]))
        &&& t.kind == keyword_of(t.lexeme)
    } else if t.kind == TokenType::Number {
        number_shape(t.lexeme)
    } else if op_lexeme(t.kind).len() >= 1 {
        t.lexeme == op_lexeme(t.kind)
    } else {
        false
    }
}

/// Every token the scanner reads, except string and end-of-input
/// tokens, has a lexeme of one of the readable shapes.
pub proof fn lemma_token_content(s: Seq<char>, i: int, line: int)
    requires
        0 <= i <= s.len(),
    ensures
        match read_token_spec(s, i, line).res {
            Ok(Some(t)) => t.kind != TokenType::Str && t.kind != TokenType::EOF ==> content_ok(t),
            _ => true,
        },
{
    lemma_skip_ws_bounds(s, i, line);
    let (j, l) = skip_ws(s, i, line);
    if j < s.len() {
        let c = s[j];
        if is_alpha_char(c) {
            lemma_scan_alnum_bounds(s, j + 1);
            lemma_scan_alnum_content(s, j + 1);
            let e = scan_alnum(s, j + 1);
            let lx = s.subrange(j, e);
            assert(lx[0] == c);
            assert forall|k: int| 1 <= k < lx.len() implies is_alnum_char(#[trigger] lx[k]) by {
                assert(lx[k] == s[j + k]);
            }
            assert(ident_kind(keyword_of(lx)));
        } else if is_digit_char(c) {
            lemma_scan_digits_bounds(s, j);
            lemma_scan_digits_content(s, j);
            let d = scan_digits(s, j);
            let e = scan_number(s, j);
            assert(scan_digits(s, j) == scan_digits(s, j + 1));
            lemma_scan_digits_bounds(s, j + 1);
            if d + 1 < s.len() && s[d] == '.' && is_digit_char(s[d + 1]) {
                lemma_scan_digits_bounds(s, d + 2);
            }
            assert(j + 1 <= e <= s.len());
            let lx = s.subrange(j, e);
            assert(lx[0] == c) by {
                assert(lx[0] == s.subrange(j, e)[0]);
                assert(s.subrange(j, e)[0] == s[j]);
            }
            if d + 1 < s.len() && s[d] == '.' && is_digit_char(s[d + 1]) {
                lemma_scan_digits_content(s, d + 2);
                assert forall|k: int| 0 <= k < d - j implies is_digit_char(#[trigger] lx[k]) by {
                    assert(lx[k] == s[j + k]);
                }
                assert(lx[d - j] == '.');
                lemma_scan_digits_exact(lx, 0, d - j);
                assert forall|k: int| d - j + 1 <= k < lx.len() implies is_digit_char(
                    #[trigger] lx[k],
                ) by {
                    assert(lx[k] == s[j + k]);
                }
                assert(number_shape(lx));
            } else {
                assert forall|k: int| 0 <= k < lx.len() implies is_digit_char(#[trigger] lx[k]) by {
                    assert(lx[k] == s[j + k]);
                }
                lemma_scan_digits_exact(lx, 0, lx.len() as int);
                assert(number_shape(lx));
            }
        } else if c == '"' {
        } else if c == '/' && j + 1 < s.len() && s[j + 1] == '/' {
        } else if c == '/' {
            assert(s.subrange(j, j + 1) =~= seq!['/']);
        } else if lookahead_kinds(c) is Some {
            if j + 1 < s.len() && s[j + 1] == '=' {
                assert(s.subrange(j, j + 2) =~= seq![c, '=']);
            } else {
                assert(s.subrange(j, j + 1) =~= seq![c]);
            }
        } else if single_char_kind(c) is Some {
            assert(s.subrange(j, j + 1) =~= seq![c]);
        }
    }
}

/// Reading at an offset where a readable lexeme lies, bounded by a
/// space or the end of the text, yields exactly that token.
pub proof fn lemma_read_at(s: Seq<char>, p: int, line: int, t: TokenV)
    requires
        content_ok(t),
        0 <= p,
        p + t.lexeme.len() <= s.len(),
        s.subrange(p, p + t.lexeme.len() as int) == t.lexeme,
        p + t.lexeme.len() == s.len() || s[p + t.lexeme.len() as int] == ' ',
    ensures
        read_token_spec(s, p, line) == (ScanStep {
            res: Ok::<Option<TokenV>, SyntaxError>(
                Some(TokenV {
                    kind: t.kind,
                    lexeme: t.lexeme,
                    start: p,
                    end: p + t.lexeme.len() as int,
                    line,
                }),
            ),
            next: p + t.lexeme.len() as int,
            line,
        }),
{
    let lx = t.lexeme;
    let n = lx.len() as int;
    assert forall|k: int| 0 <= k < n implies s[p + k] == #[trigger] lx[k] by {
        assert(s.subrange(p, p + n)[k] == s[p + k]);
    }
    assert(s[p] == lx[0]);
    assert(!is_ws_char(s[p]));
    if ident_kind(t.kind) {
        assert forall|q: int| p + 1 <= q < p + n implies is_alnum_char(#[trigger] s[q]) by {
            assert(s[q] == lx[q - p]);
        }
        lemma_scan_alnum_exact(s, p + 1, p + n);
        assert(s.subrange(p, scan_alnum(s, p + 1)) == lx);
    } else if t.kind == TokenType::Number {
        let d = scan_digits(lx, 0);
        lemma_scan_digits_bounds(lx, 0);
        lemma_scan_digits_content(lx, 0);
        if d == n {
            assert forall|q: int| p <= q < p + n implies is_digit_char(#[trigger] s[q]) by {
                assert(s[q] == lx[q - p]);
            }
            lemma_scan_digits_exact(s, p, p + n);
            assert(scan_number(s, p) == p + n);
        } else {
            assert(d + 2 <= n && lx[d] == '.');
            assert forall|q: int| p <= q < p + d implies is_digit_char(#[trigger] s[q]) by {
                assert(s[q] == lx[q - p]);
            }
            assert(s[p + d] == lx[d]);
            assert(!is_digit_char(s[p + d]));
            lemma_scan_digits_exact(s, p, p + d);
            assert(s[p + d] == '.');
            assert(is_digit_char(s[p + d + 1])) by {
                assert(s[p + d + 1] == lx[d + 1]);
            }
            assert forall|q: int| p + d + 2 <= q < p + n implies is_digit_char(
                #[trigger] s[q],
            ) by {
                assert(s[q] == lx[q - p]);
            }
            lemma_scan_digits_exact(s, p + d + 2, p + n);
            assert(scan_number(s, p) == p + n);
        }
        assert(s.subrange(p, p + n) == lx);
    } else {
        assert(lx == op_lexeme(t.kind));
        assert(!is_alpha_char(s[p]));
        assert(!is_digit_char(s[p]));
        if n == 2 {
            assert(s[p + 1] == '=');
            assert(s.subrange(p, p + 2) == lx);
        } else {
            assert(n == 1);
            assert(s.subrange(p, p + 1) == lx);
            if p + 1 < s.len() {
                assert(s[p + 1] == ' ');
            }
        }
    }
}

/// The lexemes of a token sequence, joined with one space after each.
pub open spec fn sep_join(ts: Seq<TokenV>) -> Seq<char>
    decreases ts.len(),
{
    if ts.len() == 0 {
        Seq::empty()
    } else {
        ts[0].lexeme + seq![' '] + sep_join(ts.drop_first())
    }
}

/// Lexing a space-joined sequence of readable lexemes reconstructs the
/// sequence: the same kinds with the same lexemes, closed by the
/// end-of-input token.
pub proof fn lemma_sep_join_relex(s: Seq<char>, p: int, line: int, ts: Seq<TokenV>)
    requires
        0 <= p <= s.len(),
        s.subrange(p, s.len() as int) == sep_join(ts),
        forall|k: int| 0 <= k < ts.len() ==> content_ok(#[trigger] ts[k]),
    ensures
        match lex_tokens(s, p, line) {
            Ok(r) => {
                &&& r.len() == ts.len() + 1
                &&& (forall|k: int|
                    0 <= k < ts.len() ==> (#[trigger] r[k]).kind == ts[k].kind && r[k].lexeme
                        == ts[k].lexeme)
                &&& r.last().kind == TokenType::EOF
            },
            Err(_) => false,
        },
    decreases ts.len(),
{
    if ts.len() == 0 {
        assert(s.subrange(p, s.len() as int).len() == 0);
        assert(p == s.len());
        assert(lex_tokens(s, p, line) == Ok::<Seq<TokenV>, SyntaxError>(
            seq![eof_token(s, line)],
        ));
    } else {
        let t0 = ts[0];
        let lx = t0.lexeme;
        let n = lx.len() as int;
        let tail = sep_join(ts.drop_first());
        assert(content_ok(t0));
        assert(n >= 1);
        assert(s.subrange(p, s.len() as int).len() == n + 1 + tail.len());
        assert forall|k: int| 0 <= k < n implies #[trigger] s.subrange(p, p + n)[k] == lx[k] by {
            assert(s.subrange(p, s.len() as int)[k] == (lx + seq![' '] + tail)[k]);
            assert(s.subrange(p, s.len() as int)[k] == s[p + k]);
        }
        assert(s.subrange(p, p + n) =~= lx);
        assert(s[p + n] == ' ') by {
            assert(s.subrange(p, s.len() as int)[n] == (lx + seq![' '] + tail)[n]);
        }
        lemma_read_at(s, p, line, t0);
        let t0read = TokenV { kind: t0.kind, lexeme: lx, start: p, end: p + n, line };
        assert(t0read.kind != TokenType::EOF);
        // The single separator space is skipped by the next step.
        assert(read_token_spec(s, p + n, line) == read_token_spec(s, p + n + 1, line)) by {
            assert(skip_ws(s, p + n, line) == skip_ws(s, p + n + 1, line));
        }
        assert(lex_tokens(s, p + n, line) == lex_tokens(s, p + n + 1, line));
        assert(s.subrange(p + n + 1, s.len() as int) =~= tail) by {
            assert forall|k: int| 0 <= k < tail.len() implies #[trigger] s.subrange(
                p + n + 1,
                s.len() as int,
            )[k] == tail[k] by {
                assert(s.subrange(p, s.len() as int)[n + 1 + k] == (lx + seq![' '] + tail)[n + 1
                    + k]);
                assert(s.subrange(p, s.len() as int)[n + 1 + k] == s[p + n + 1 + k]);
            }
        }
        assert forall|k: int| 0 <= k < ts.drop_first().len() implies content_ok(
            #[trigger] ts.drop_first()[k],
        ) by {
            assert(ts.drop_first()[k] == ts[k + 1]);
        }
        lemma_sep_join_relex(s, p + n + 1, line, ts.drop_first());
        if let Ok(rest) = lex_tokens(s, p + n + 1, line) {
            assert(lex_tokens(s, p, line) == Ok::<Seq<TokenV>, SyntaxError>(
                seq![t0read] + rest,
            ));
            let r = seq![t0read] + rest;
            assert(r.len() == ts.len() + 1);
            assert forall|k: int|
                0 <= k < ts.len() implies (#[trigger] r[k]).kind == ts[k].kind && r[k].lexeme
                == ts[k].lexeme by {
                if k > 0 {
                    assert(r[k] == rest[k - 1]);
                    assert(ts.drop_first()[k - 1] == ts[k]);
                }
            }
            assert(r.last() == rest.last());
        }
    }
}

/// Round-trip: lexing a valid program and re-concatenating the token
/// lexemes, each closed by a single space in place of the original
/// whitespace, reconstructs an equivalent token stream on a second lex:
/// the same kinds with the same lexemes, closed by the end-of-input
/// token. String tokens are excepted: their lexeme drops the enclosing
/// quotes, so it does not denote the original token on its own.
pub proof fn lemma_lex_roundtrip(s: Seq<char>)
    ensures
        match lex_tokens(s, 0, 1) {
            Ok(ts) => (forall|k: int|
                0 <= k < ts.len() - 1 ==> (#[trigger] ts[k]).kind != TokenType::Str) ==> {
                match lex_tokens(sep_join(ts.drop_last()), 0, 1) {
                    Ok(r) => {
                        &&& r.len() == ts.len()
                        &&& (forall|k: int|
                            0 <= k < ts.len() - 1 ==> (#[trigger] r[k]).kind == ts[k].kind
                                && r[k].lexeme == ts[k].lexeme)
                        &&& r.last().kind == TokenType::EOF
                    },
                    Err(_) => false,
                }
            },
            Err(_) => true,
        },
{
    if let Ok(ts) = lex_tokens(s, 0, 1) {
        if forall|k: int| 0 <= k < ts.len() - 1 ==> (#[trigger] ts[k]).kind != TokenType::Str {
            lemma_lex_tokens_last_eof(s, 0, 1);
            lemma_lex_tokens_content(s, 0, 1);
            let body = ts.drop_last();
            assert forall|k: int| 0 <= k < body.len() implies content_ok(#[trigger] body[k]) by {
                assert(body[k] == ts[k]);
            }
            let joined = sep_join(body);
            assert(joined.subrange(0, joined.len() as int) =~= joined);
            lemma_sep_join_relex(joined, 0, 1, body);
            if let Ok(r) = lex_tokens(joined, 0, 1) {
                assert forall|k: int|
                    0 <= k < ts.len() - 1 implies (#[trigger] r[k]).kind == ts[k].kind
                    && r[k].lexeme == ts[k].lexeme by {
                    assert(r[k].kind == body[k].kind && r[k].lexeme == body[k].lexeme);
                }
            }
        }
    }
}

/// Every token of a successful lex, except string tokens and the final
/// end-of-input token, has a lexeme of one of the readable shapes, and
/// only the final token has the end-of-input kind.
pub proof fn lemma_lex_tokens_content(s: Seq<char>, i: int, line: int)
    requires
        0 <= i <= s.len(),
    ensures
        match lex_tokens(s, i, line) {
            Ok(ts) => forall|k: int|
                0 <= k < ts.len() - 1 ==> (#[trigger] ts[k]).kind != TokenType::EOF && (ts[k].kind
                    != TokenType::Str ==> content_ok(ts[k])),
            Err(_) => true,
        },
    decreases s.len() - i,
{
    lemma_read_token_progress(s, i, line);
    lemma_token_content(s, i, line);
    let step = read_token_spec(s, i, line);
    match step.res {
        Ok(None) => {
            lemma_lex_tokens_content(s, step.next, step.line);
        },
        Ok(Some(t)) => {
            if t.kind != TokenType::EOF {
                lemma_lex_tokens_content(s, step.next, step.line);
                if let Ok(rest) = lex_tokens(s, step.next, step.line) {
                    let ts = seq![t] + rest;
                    assert forall|k: int|
                        0 <= k < ts.len() - 1 implies (#[trigger] ts[k]).kind != TokenType::EOF && (
                    ts[k].kind != TokenType::Str ==> content_ok(ts[k])) by {
                        if k > 0 {
                            assert(ts[k] == rest[k - 1]);
                        }
                    }
                }
            }
        },
        Err(_) => {
        },
    }
}

/// Whether an executable scanner outcome agrees with a specification
/// step outcome.
pub open spec fn opt_token_matches(t: Option<Token>, res: Result<Option<TokenV>, SyntaxError>) -> bool {
    match t {
        Some(tok) => res == Ok::<Option<TokenV>, SyntaxError>(Some(tok@)),
        None => res == Ok::<Option<TokenV>, SyntaxError>(None),
    }
}

/// The lexer: a cursor over the characters of the source text, with a
/// 1-based line counter.
pub struct Lexer {
    pub source: Vec<char>,
    pub pos: usize,
    pub line: usize,
}

impl Lexer {
    /// The cursor is inside the text, and the line counter cannot
    /// overflow while the remaining characters are consumed.
    pub open spec fn wf(self) -> bool {
        self.pos <= self.source.len() && self.line + (self.source.len() - self.pos)
            <= usize::MAX
    }

    pub fn new(source: &str) -> (lx: Lexer)
        requires
            source@.len() < usize::MAX,
        ensures
            lx.wf(),
            lx.source@ == source@,
            lx.pos == 0,
            lx.line == 1,
    {
        Lexer { source: str_to_chars(source), pos: 0, line: 1 }
    }

    fn is_at_end(&self) -> (r: bool)
        requires
            self.wf(),
        ensures
            r == (self.pos == self.source@.len()),
    {
        self.pos == self.source.len()
    }

    fn peek(&self) -> (r: Option<char>)
        requires
            self.wf(),
        ensures
            r == (if self.pos < self.source@.len() {
                Some(self.source@[self.pos as int])
            } else {
                None::<char>
            }),
    {
        if self.pos < self.source.len() {
            Some(self.source[self.pos])
        } else {
            None
        }
    }

    fn peek_next(&self) -> (r: Option<char>)
        requires
            self.wf(),
        ensures
            r == (if self.pos + 1 < self.source@.len() {
                Some(self.source@[self.pos + 1])
            } else {
                None::<char>
            }),
    {
        if self.pos < self.source.len() && self.pos + 1 < self.source.len() {
            Some(self.source[self.pos + 1])
        } else {
            None
        }
    }

    fn advance(&mut self) -> (c: char)
        requires
            old(self).wf(),
            old(self).pos < old(self).source@.len(),
        ensures
            final(self).wf(),
            final(self).source == old(self).source,
            final(self).pos == old(self).pos + 1,
            final(self).line == old(self).line + if old(self).source@[old(self).pos as int]
                == '\n' {
                1int
            } else {
                0int
            },
            c == old(self).source@[old(self).pos as int],
    {
        let c = self.source[self.pos];
        if c == '\n' {
            self.line += 1;
        }
        self.pos += 1;
        c
    }

    fn check(&self, c: char) -> (r: bool)
        requires
            self.wf(),
        ensures
            r == (self.pos < self.source@.len() && self.source@[self.pos as int] == c),
    {
        match self.peek() {
            Some(p) => p == c,
            None => false,
        }
    }

    fn match_(&mut self, c: char) -> (r: bool)
        requires
            old(self).wf(),
        ensures
            final(self).wf(),
            final(self).source == old(self).source,
            r == (old(self).pos < old(self).source@.len() && old(self).source@[old(
                self,
            ).pos as int] == c),
            r ==> final(self).pos == old(self).pos + 1 && final(self).line == old(self).line
                + if old(self).source@[old(self).pos as int] == '\n' {
                1int
            } else {
                0int
            },
            !r ==> *final(self) == *old(self),
    {
        if self.check(c) {
            self.advance();
            true
        } else {
            false
        }
    }

    /// The string holding the characters from `start` to the cursor.
    fn token_contents(&self, start: usize) -> (r: String)
        requires
            self.wf(),
            start <= self.pos,
        ensures
            r@ == self.source@.subrange(start as int, self.pos as int),
    {
        chars_to_string(&self.source, start, self.pos)
    }

    fn make_token(&self, token_type: TokenType, start: usize) -> (r: LexResult<Option<Token>>)
        requires
            self.wf(),
            start <= self.pos,
        ensures
            opt_token_matches(
                r->Ok_0,
                Ok(Some(token_at(self.source@, token_type, start as int, self.pos as int, self.line as int))),
            ),
            r is Ok,
    {
        let source = self.token_contents(start);
        let pos = Position::new(start, self.pos, self.line);
        Ok(Some(Token::new(token_type, source, pos)))
    }

    fn eof(&self) -> (r: LexResult<Option<Token>>)
        requires
            self.wf(),
            self.pos == self.source@.len(),
        ensures
            r is Ok,
            opt_token_matches(r->Ok_0, Ok(Some(eof_token(self.source@, self.line as int)))),
    {
        let r = self.make_token(TokenType::EOF, self.pos);
        proof {
            assert(self.source@.subrange(self.pos as int, self.pos as int) =~= Seq::<
                char,
            >::empty());
        }
        r
    }

    fn skip_whitespace(&mut self)
        requires
            old(self).wf(),
        ensures
            final(self).wf(),
            final(self).source == old(self).source,
            (final(self).pos as int, final(self).line as int) == skip_ws(
                old(self).source@,
                old(self).pos as int,
                old(self).line as int,
            ),
    {
        loop
            invariant
                self.wf(),
                self.source == old(self).source,
                skip_ws(old(self).source@, old(self).pos as int, old(self).line as int)
                    == skip_ws(self.source@, self.pos as int, self.line as int),
            decreases self.source@.len() - self.pos,
        {
            match self.peek() {
                Some(c) => {
                    if is_ws(c) {
                        self.advance();
                    } else {
                        return ;
                    }
                },
                None => {
                    return ;
                },
            }
        }
    }

    /// An identifier or keyword token whose first character is at
    /// `start`; the cursor stands one past that character.
    fn identifier(&mut self, start: usize) -> (r: LexResult<Option<Token>>)
        requires
            old(self).wf(),
            old(self).pos == start + 1,
            start < old(self).source@.len(),
        ensures
            final(self).wf(),
            final(self).source == old(self).source,
            final(self).line == old(self).line,
            final(self).pos as int == scan_alnum(old(self).source@, old(self).pos as int),
            r is Ok,
            ({
                let s = old(self).source@;
                let e = scan_alnum(s, old(self).pos as int);
                let lexeme = s.subrange(start as int, e);
                opt_token_matches(
                    r->Ok_0,
                    Ok(Some(TokenV {
                        kind: keyword_of(lexeme),
                        lexeme,
                        start: start as int,
                        end: e,
                        line: old(self).line as int,
                    })),
                )
            }),
    {
        proof {
            lemma_scan_alnum_bounds(self.source@, self.pos as int);
        }
        self.scan_while_alnum();
        let lexeme = self.token_contents(start);
        let keyword = lexeme.to_keyword();
        let pos = Position::new(start, self.pos, self.line);
        Ok(Some(Token::new(keyword, lexeme, pos)))
    }

    fn scan_while_alnum(&mut self)
        requires
            old(self).wf(),
        ensures
            final(self).wf(),
            final(self).source == old(self).source,
            final(self).line == old(self).line,
            final(self).pos as int == scan_alnum(old(self).source@, old(self).pos as int),
    {
        loop
            invariant
                self.wf(),
                self.source == old(self).source,
                self.line == old(self).line,
                scan_alnum(old(self).source@, old(self).pos as int) == scan_alnum(
                    self.source@,
                    self.pos as int,
                ),
            decreases self.source@.len() - self.pos,
        {
            match self.peek() {
                Some(c) => {
                    if c.is_alphanumeric() {
                        self.advance();
                    } else {
                        return ;
                    }
                },
                None => {
                    return ;
                },
            }
        }
    }

    fn scan_while_digits(&mut self)
        requires
            old(self).wf(),
        ensures
            final(self).wf(),
            final(self).source == old(self).source,
            final(self).line == old(self).line,
            final(self).pos as int == scan_digits(old(self).source@, old(self).pos as int),
    {
        loop
            invariant
                self.wf(),
                self.source == old(self).source,
                self.line == old(self).line,
                scan_digits(old(self).source@, old(self).pos as int) == scan_digits(
                    self.source@,
                    self.pos as int,
                ),
            decreases self.source@.len() - self.pos,
        {
            match self.peek() {
                Some(c) => {
                    if is_digit(c) {
                        self.advance();
                    } else {
                        return ;
                    }
                },
                None => {
                    return ;
                },
            }
        }
    }

    /// A number token whose first digit is at `start`; the cursor stands
    /// one past that digit.
    fn number(&mut self, start: usize) -> (r: LexResult<Option<Token>>)
        requires
            old(self).wf(),
            old(self).pos == start + 1,
            start < old(self).source@.len(),
            is_digit_char(old(self).source@[start as int]),
        ensures
            final(self).wf(),
            final(self).source == old(self).source,
            final(self).line == old(self).line,
            final(self).pos as int == scan_number(old(self).source@, start as int),
            r is Ok,
            opt_token_matches(
                r->Ok_0,
                Ok(Some(token_at(
                    old(self).source@,
                    TokenType::Number,
                    start as int,
                    scan_number(old(self).source@, start as int),
                    old(self).line as int,
                ))),
            ),
    {
        let ghost s = self.source@;
        proof {
            assert(scan_digits(s, start as int) == scan_digits(s, start + 1));
            lemma_scan_digits_bounds(s, start + 1);
        }
        self.scan_while_digits();
        // Look for a fractional part: one character of lookahead decides
        // whether the `.` belongs to the number.
        let has_fraction = match (self.peek(), self.peek_next()) {
            (Some(dot), Some(d)) => dot == '.' && is_digit(d),
            _ => false,
        };
        if has_fraction {
            // Consume the '.' and the first fractional digit.
            self.advance();
            self.advance();
            proof {
                lemma_scan_digits_bounds(s, self.pos as int);
            }
            self.scan_while_digits();
        }
        self.make_token(TokenType::Number, start)
    }

    /// A string token whose opening quote is at `start`; the cursor
    /// stands one past that quote.
    fn string(&mut self, start: usize) -> (r: LexResult<Option<Token>>)
        requires
            old(self).wf(),
            old(self).pos == start + 1,
            start < old(self).source@.len(),
        ensures
            final(self).wf(),
            final(self).source == old(self).source,
            ({
                let s = old(self).source@;
                let e = scan_to_quote(s, old(self).pos as int);
                if e >= s.len() {
                    r == Err::<Option<Token>, SyntaxError>(SyntaxError::UnterminatedString)
                } else {
                    let l2 = old(self).line as int + nl_count(s, old(self).pos as int, e);
                    &&& r is Ok
                    &&& opt_token_matches(
                        r->Ok_0,
                        Ok(Some(token_at(s, TokenType::Str, start + 1, e, l2))),
                    )
                    &&& final(self).pos as int == e + 1
                    &&& final(self).line as int == l2
                }
            }),
    {
        loop
            invariant
                self.wf(),
                self.source == old(self).source,
                old(self).pos as int == start + 1,
                start + 1 <= self.pos as int,
                scan_to_quote(old(self).source@, start + 1) == scan_to_quote(
                    self.source@,
                    self.pos as int,
                ),
                self.line as int == old(self).line as int + nl_count(
                    self.source@,
                    start + 1,
                    self.pos as int,
                ),
            decreases self.source@.len() - self.pos,
        {
            match self.peek() {
                Some(c) => {
                    if c != '"' {
                        self.advance();
                    } else {
                        // The closing quote: the token carries the interior
                        // text only.
                        let lexeme = self.token_contents(start + 1);
                        let pos = Position::new(start + 1, self.pos, self.line);
                        let token = Token::new(TokenType::Str, lexeme, pos);
                        self.advance();
                        return Ok(Some(token));
                    }
                },
                None => {
                    return Err(SyntaxError::UnterminatedString);
                },
            }
        }
    }

    /// Skip a line comment: everything up to, and not including, the next
    /// newline.
    fn comment(&mut self)
        requires
            old(self).wf(),
        ensures
            final(self).wf(),
            final(self).source == old(self).source,
            final(self).line == old(self).line,
            final(self).pos as int == scan_to_newline(old(self).source@, old(self).pos as int),
    {
        loop
            invariant
                self.wf(),
                self.source == old(self).source,
                self.line == old(self).line,
                scan_to_newline(old(self).source@, old(self).pos as int) == scan_to_newline(
                    self.source@,
                    self.pos as int,
                ),
            decreases self.source@.len() - self.pos,
        {
            match self.peek() {
                Some(c) => {
                    if c != '\n' {
                        self.advance();
                    } else {
                        return ;
                    }
                },
                None => {
                    return ;
                },
            }
        }
    }

    /// One scanner step: exactly [`read_token_spec`] applied to the
    /// current cursor and line.
    pub fn read_token(&mut self) -> (r: LexResult<Option<Token>>)
        requires
            old(self).wf(),
        ensures
            final(self).wf(),
            final(self).source == old(self).source,
            ({
                let step = read_token_spec(
                    old(self).source@,
                    old(self).pos as int,
                    old(self).line as int,
                );
                match r {
                    Ok(t) => {
                        &&& opt_token_matches(t, step.res)
                        &&& final(self).pos as int == step.next
                        &&& final(self).line as int == step.line
                    },
                    Err(e) => step.res == Err::<Option<TokenV>, SyntaxError>(e),
                }
            }),
    {
        self.skip_whitespace();
        if self.is_at_end() {
            return self.eof();
        }
        let start = self.pos;
        let c = self.advance();

        if c.is_alphabetic() {
            return self.identifier(start);
        }
        if is_digit(c) {
            return self.number(start);
        }

        match c {
            '(' => self.make_token(TokenType::LeftParen, start),
            ')' => self.make_token(TokenType::RightParen, start),
            '[' => self.make_token(TokenType::LeftBracket, start),
            ']' => self.make_token(TokenType::RightBracket, start),
            '{' => self.make_token(TokenType::LeftBrace, start),
            '}' => self.make_token(TokenType::RightBrace, start),
            ',' => self.make_token(TokenType::Comma, start),
            '.' => self.make_token(TokenType::Dot, start),
            '+' => self.make_token(TokenType::Plus, start),
            '-' => self.make_token(TokenType::Minus, start),
            '*' => self.make_token(TokenType::Star, start),
            ';' => self.make_token(TokenType::Semicolon, start),
            '/' => {
                if self.check('/') {
                    self.comment();
                    Ok(None)
                } else {
                    self.make_token(TokenType::Slash, start)
                }
            },
            '!' => {
                if self.match_('=') {
                    self.make_token(TokenType::BangEqual, start)
                } else {
                    self.make_token(TokenType::Bang, start)
                }
            },
            '=' => {
                if self.match_('=') {
                    self.make_token(TokenType::EqualEqual, start)
                } else {
                    self.make_token(TokenType::Equal, start)
                }
            },
            '<' => {
                if self.match_('=') {
                    self.make_token(TokenType::LessThanEqual, start)
                } else {
                    self.make_token(TokenType::LessThan, start)
                }
            },
            '>' => {
                if self.match_('=') {
                    self.make_token(TokenType::GreaterThanEqual, start)
                } else {
                    self.make_token(TokenType::GreaterThan, start)
                }
            },
            '"' => self.string(start),
            _ => Err(SyntaxError::UnexpectedChar),
        }
    }
}

} // verus!

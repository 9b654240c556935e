//! The tokenizer.
//!
//! Five token classes: open paren, close paren, bareword (ASCII letters),
//! numeric literal (optional sign, optional integer part, optional dot with
//! fractional digits, at least one digit), and operator symbol (a run of
//! characters from `> ^ < = + * / -`). Runs of whitespace are skipped, and
//! the longest match wins. A character that starts no token ends the scan:
//! the token stream up to that point is handed over together with the
//! offending slice.

use vstd::prelude::*;
use vstd::string::StrSliceExecFns;
use vstd::string::StringExecFns;

verus! {

/// The class of a token.
#[derive(Debug, Clone, Copy, PartialEq, Eq, Structural)]
pub enum TokenKind {
    Open,
    Close,
    Word,
    Num,
    Op,
}

/// One token: its class and the slice of text it covers.
#[derive(Debug, PartialEq)]
pub struct Token {
    pub kind: TokenKind,
    pub text: String,
}

/// The view of a token.
pub struct TokV {
    pub kind: TokenKind,
    pub text: Seq<char>,
}

impl View for Token {
    type V = TokV;

    open spec fn view(&self) -> TokV {
        TokV { kind: self.kind, text: self.text@ }
    }
}

/// The views of a token vector.
pub open spec fn toks_view(v: Vec<Token>) -> Seq<TokV> {
    v@.map_values(|t: Token| t@)
}

/// The view of the optional offending slice.
pub open spec fn opt_view(o: Option<String>) -> Option<Seq<char>> {
    match o {
        Some(s) => Some(s@),
        None => None,
    }
}

pub open spec fn is_ws_char(c: char) -> bool {
    c == ' ' || c == '\t' || c == '\n' || c == '\u{000c}'
}

pub open spec fn is_letter(c: char) -> bool {
    (97 <= c as u32 && c as u32 <= 122) || (65 <= c as u32 && c as u32 <= 90)
}

pub open spec fn is_digit(c: char) -> bool {
    48 <= c as u32 && c as u32 <= 57
}

pub open spec fn is_sign(c: char) -> bool {
    c == '+' || c == '-'
}

pub open spec fn is_op_char(c: char) -> bool {
    c == '>' || c == '^' || c == '<' || c == '=' || c == '+' || c == '*' || c == '/' || c == '-'
}

/// Length of the run of ASCII letters starting at `i`.
pub open spec fn letters_len(s: Seq<char>, i: int) -> int
    decreases s.len() - i,
{
    if i < 0 || i >= s.len() || !is_letter(s[i]) {
        0
    } else {
        1 + letters_len(s, i + 1)
    }
}

/// Length of the run of decimal digits starting at `i`.
pub open spec fn digits_len(s: Seq<char>, i: int) -> int
    decreases s.len() - i,
{
    if i < 0 || i >= s.len() || !is_digit(s[i]) {
        0
    } else {
        1 + digits_len(s, i + 1)
    }
}

/// Length of the run of operator characters starting at `i`.
pub open spec fn ops_len(s: Seq<char>, i: int) -> int
    decreases s.len() - i,
{
    if i < 0 || i >= s.len() || !is_op_char(s[i]) {
        0
    } else {
        1 + ops_len(s, i + 1)
    }
}

/// Length of the longest numeric literal starting at `i`: an optional sign,
/// then either digits, or digits (possibly none) followed by a dot and at
/// least one digit.
pub open spec fn num_len(s: Seq<char>, i: int) -> int {
    let j = if 0 <= i < s.len() && is_sign(s[i]) {
        i + 1
    } else {
        i
    };
    let d1 = digits_len(s, j);
    let k = j + d1;
    if 0 <= k < s.len() && s[k] == '.' && digits_len(s, k + 1) > 0 {
        k + 1 + digits_len(s, k + 1) - i
    } else if d1 > 0 {
        k - i
    } else {
        0
    }
}

/// A piece of text that is exactly one numeric literal.
pub open spec fn is_number_token(t: Seq<char>) -> bool {
    t.len() > 0 && num_len(t, 0) == t.len()
}

/// The token starting at position `i`, with its length: parens first, then
/// the longest of the three run classes. Numeric literals and operator runs
/// can compete only over a leading sign character, and the longer match
/// wins. `None` when no class matches.
pub open spec fn token_at(s: Seq<char>, i: int) -> Option<(TokenKind, int)> {
    if !(0 <= i < s.len()) {
        None
    } else if s[i] == '(' {
        Some((TokenKind::Open, 1))
    } else if s[i] == ')' {
        Some((TokenKind::Close, 1))
    } else {
        let n = num_len(s, i);
        let o = ops_len(s, i);
        let w = letters_len(s, i);
        if n > o {
            Some((TokenKind::Num, n))
        } else if o > 0 {
            Some((TokenKind::Op, o))
        } else if w > 0 {
            Some((TokenKind::Word, w))
        } else {
            None
        }
    }
}

pub proof fn lemma_letters_len_bounds(s: Seq<char>, i: int)
    requires
        0 <= i <= s.len(),
    ensures
        0 <= letters_len(s, i),
        i + letters_len(s, i) <= s.len(),
    decreases s.len() - i,
{
    if i < s.len() && is_letter(s[i]) {
        lemma_letters_len_bounds(s, i + 1);
    }
}

pub proof fn lemma_digits_len_bounds(s: Seq<char>, i: int)
    requires
        0 <= i <= s.len(),
    ensures
        0 <= digits_len(s, i),
        i + digits_len(s, i) <= s.len(),
    decreases s.len() - i,
{
    if i < s.len() && is_digit(s[i]) {
        lemma_digits_len_bounds(s, i + 1);
    }
}

pub proof fn lemma_ops_len_bounds(s: Seq<char>, i: int)
    requires
        0 <= i <= s.len(),
    ensures
        0 <= ops_len(s, i),
        i + ops_len(s, i) <= s.len(),
    decreases s.len() - i,
{
    if i < s.len() && is_op_char(s[i]) {
        lemma_ops_len_bounds(s, i + 1);
    }
}

pub proof fn lemma_num_len_bounds(s: Seq<char>, i: int)
    requires
        0 <= i <= s.len(),
    ensures
        0 <= num_len(s, i),
        i + num_len(s, i) <= s.len(),
{
    let j = if 0 <= i < s.len() && is_sign(s[i]) {
        i + 1
    } else {
        i
    };
    lemma_digits_len_bounds(s, j);
    let k = j + digits_len(s, j);
    if 0 <= k < s.len() {
        lemma_digits_len_bounds(s, k + 1);
    }
}

/// Every token has at least one character and stays inside the text.
pub proof fn lemma_token_at_bounds(s: Seq<char>, i: int)
    ensures
        0 <= i < s.len() ==> (token_at(s, i) matches Some(t) ==> 1 <= t.1 && i + t.1 <= s.len()),
{
    if 0 <= i < s.len() {
        lemma_num_len_bounds(s, i);
        lemma_ops_len_bounds(s, i);
        lemma_letters_len_bounds(s, i);
    }
}

/// A run of exactly `c` digits, ended by the text or a non-digit, has
/// digit-run length `c`.
proof fn lemma_digits_run(u: Seq<char>, x: int, c: int)
    requires
        0 <= x,
        0 <= c,
        x + c <= u.len(),
        forall|d: int| x <= d < x + c ==> is_digit(u[d]),
        x + c == u.len() || !is_digit(u[x + c]),
    ensures
        digits_len(u, x) == c,
    decreases c,
{
    if c > 0 {
        lemma_digits_run(u, x + 1, c - 1);
    }
}

/// A run of exactly `c` letters, ended by the text or a non-letter, has
/// letter-run length `c`.
pub proof fn lemma_letters_run(u: Seq<char>, x: int, c: int)
    requires
        0 <= x,
        0 <= c,
        x + c <= u.len(),
        forall|d: int| x <= d < x + c ==> is_letter(u[d]),
        x + c == u.len() || !is_letter(u[x + c]),
    ensures
        letters_len(u, x) == c,
    decreases c,
{
    if c > 0 {
        lemma_letters_run(u, x + 1, c - 1);
    }
}

/// A run of exactly `c` operator characters, ended by the text or another
/// kind of character, has operator-run length `c`.
pub proof fn lemma_ops_run(u: Seq<char>, x: int, c: int)
    requires
        0 <= x,
        0 <= c,
        x + c <= u.len(),
        forall|d: int| x <= d < x + c ==> is_op_char(u[d]),
        x + c == u.len() || !is_op_char(u[x + c]),
    ensures
        ops_len(u, x) == c,
    decreases c,
{
    if c > 0 {
        lemma_ops_run(u, x + 1, c - 1);
    }
}

/// The digit run starting at `x` covers digits only and ends at the text's
/// end or before a non-digit.
proof fn lemma_digits_chars(u: Seq<char>, x: int)
    requires
        0 <= x <= u.len(),
    ensures
        forall|d: int| x <= d < x + digits_len(u, x) ==> is_digit(u[d]),
        x + digits_len(u, x) < u.len() ==> !is_digit(u[x + digits_len(u, x)]),
    decreases u.len() - x,
{
    lemma_digits_len_bounds(u, x);
    if x < u.len() && is_digit(u[x]) {
        lemma_digits_chars(u, x + 1);
    }
}

/// The slice that a numeric match covers is itself exactly one numeric
/// literal.
proof fn lemma_num_token_wf(s: Seq<char>, i: int)
    requires
        0 <= i < s.len(),
        num_len(s, i) > 0,
    ensures
        is_number_token(s.subrange(i, i + num_len(s, i))),
{
    let n = num_len(s, i);
    lemma_num_len_bounds(s, i);
    let t = s.subrange(i, i + n);
    let j = if is_sign(s[i]) {
        i + 1
    } else {
        i
    };
    let d1 = digits_len(s, j);
    lemma_digits_len_bounds(s, j);
    lemma_digits_chars(s, j);
    let k = j + d1;
    if 0 <= k < s.len() && s[k] == '.' && digits_len(s, k + 1) > 0 {
        let d2 = digits_len(s, k + 1);
        lemma_digits_len_bounds(s, k + 1);
        lemma_digits_chars(s, k + 1);
        assert(n == k + 1 + d2 - i);
        // the digit runs of the slice mirror those of the text
        assert forall|d: int| j - i <= d < j - i + d1 implies is_digit(t[d]) by {
            assert(t[d] == s[i + d]);
        }
        lemma_digits_run(t, j - i, d1);
        assert forall|d: int| k + 1 - i <= d < k + 1 - i + d2 implies is_digit(t[d]) by {
            assert(t[d] == s[i + d]);
        }
        lemma_digits_run(t, k + 1 - i, d2);
        assert(t[k - i] == '.');
        assert(num_len(t, 0) == t.len());
    } else {
        assert(d1 > 0);
        assert(n == k - i);
        assert forall|d: int| j - i <= d < j - i + d1 implies is_digit(t[d]) by {
            assert(t[d] == s[i + d]);
        }
        lemma_digits_run(t, j - i, d1);
        assert(num_len(t, 0) == t.len());
    }
}

/// Every numeric token of the token stream is exactly one numeric literal.
pub open spec fn wf_toks(ts: Seq<TokV>) -> bool {
    forall|q: int|
        0 <= q < ts.len() ==> (ts[q].kind == TokenKind::Num ==> is_number_token(ts[q].text))
}

/// The scan only emits well-formed numeric tokens.
pub proof fn lemma_tokens_wf(s: Seq<char>, i: int)
    ensures
        wf_toks(spec_tokenize_from(s, i).0),
    decreases s.len() - i,
{
    lemma_token_at_bounds(s, i);
    if !(0 <= i < s.len()) {
    } else if is_ws_char(s[i]) {
        lemma_tokens_wf(s, i + 1);
    } else {
        match token_at(s, i) {
            Some(t) => {
                lemma_tokens_wf(s, i + t.1);
                if t.0 == TokenKind::Num {
                    lemma_ops_len_bounds(s, i);
                    assert(t.1 == num_len(s, i));
                    lemma_num_token_wf(s, i);
                }
                let head = TokV { kind: t.0, text: s.subrange(i, i + t.1) };
                let rest = spec_tokenize_from(s, i + t.1);
                assert forall|q: int| 0 <= q < spec_tokenize_from(s, i).0.len() implies (
                spec_tokenize_from(s, i).0[q].kind == TokenKind::Num ==> is_number_token(
                    spec_tokenize_from(s, i).0[q].text,
                )) by {
                    if q > 0 {
                        assert(spec_tokenize_from(s, i).0[q] == rest.0[q - 1]);
                    }
                }
            },
            None => {},
        }
    }
}

/// The token stream from position `i` on, with the offending slice if a
/// character that starts no token ends the scan early.
pub open spec fn spec_tokenize_from(s: Seq<char>, i: int) -> (Seq<TokV>, Option<Seq<char>>)
    decreases s.len() - i,
    via spec_tokenize_from_dec
{
    if !(0 <= i < s.len()) {
        (Seq::empty(), None)
    } else if is_ws_char(s[i]) {
        spec_tokenize_from(s, i + 1)
    } else {
        match token_at(s, i) {
            Some(t) => {
                let rest = spec_tokenize_from(s, i + t.1);
                (seq![TokV { kind: t.0, text: s.subrange(i, i + t.1) }] + rest.0, rest.1)
            },
            None => (Seq::empty(), Some(s.subrange(i, i + 1))),
        }
    }
}

#[via_fn]
proof fn spec_tokenize_from_dec(s: Seq<char>, i: int) {
    lemma_token_at_bounds(s, i);
}

/// The token stream of the whole text.
pub open spec fn spec_tokenize(s: Seq<char>) -> (Seq<TokV>, Option<Seq<char>>) {
    spec_tokenize_from(s, 0)
}

/// A text that is exactly one numeric literal scans to exactly one numeric
/// token covering the whole text.
pub proof fn lemma_tokenize_number(s: Seq<char>)
    requires
        is_number_token(s),
    ensures
        spec_tokenize(s) == (seq![TokV { kind: TokenKind::Num, text: s }], None::<Seq<char>>),
{
    let n = num_len(s, 0);
    lemma_num_len_bounds(s, 0);
    lemma_digits_chars(s, 0);
    lemma_digits_chars(s, 1);
    let o = ops_len(s, 0);
    if is_sign(s[0]) {
        // after the sign comes a digit or the dot, so the operator run stops
        assert(s.len() >= 2);
        assert(!is_op_char(s[1]));
        assert(ops_len(s, 1) == 0);
        assert(o == 1);
    } else {
        assert(!is_op_char(s[0]));
        assert(o == 0);
    }
    assert(token_at(s, 0) == Some((TokenKind::Num, n)));
    assert(s.subrange(0, n) =~= s);
    let rest = spec_tokenize_from(s, n);
    assert(rest == (Seq::<TokV>::empty(), None::<Seq<char>>));
    assert(seq![TokV { kind: TokenKind::Num, text: s }] + rest.0 =~= seq![
        TokV { kind: TokenKind::Num, text: s },
    ]);
}

fn ws_char(c: char) -> (r: bool)
    ensures
        r == is_ws_char(c),
{
    c == ' ' || c == '\t' || c == '\n' || c == '\u{000c}'
}

fn letter_char(c: char) -> (r: bool)
    ensures
        r == is_letter(c),
{
    let u = c as u32;
    (97 <= u && u <= 122) || (65 <= u && u <= 90)
}

fn digit_char(c: char) -> (r: bool)
    ensures
        r == is_digit(c),
{
    let u = c as u32;
    48 <= u && u <= 57
}

fn sign_char(c: char) -> (r: bool)
    ensures
        r == is_sign(c),
{
    c == '+' || c == '-'
}

fn op_char(c: char) -> (r: bool)
    ensures
        r == is_op_char(c),
{
    c == '>' || c == '^' || c == '<' || c == '=' || c == '+' || c == '*' || c == '/' || c == '-'
}

fn scan_letters(s: &str, i: usize) -> (r: usize)
    requires
        i <= s@.len(),
    ensures
        r == letters_len(s@, i as int),
        i + r <= s@.len(),
{
    proof {
        lemma_letters_len_bounds(s@, i as int);
    }
    let n = s.unicode_len();
    let mut j = i;
    while j < n && letter_char(s.get_char(j))
        invariant
            i <= j <= n,
            n == s@.len(),
            letters_len(s@, i as int) == j - i + letters_len(s@, j as int),
        decreases n - j,
    {
        j = j + 1;
    }
    j - i
}

fn scan_digits(s: &str, i: usize) -> (r: usize)
    requires
        i <= s@.len(),
    ensures
        r == digits_len(s@, i as int),
        i + r <= s@.len(),
{
    proof {
        lemma_digits_len_bounds(s@, i as int);
    }
    let n = s.unicode_len();
    let mut j = i;
    while j < n && digit_char(s.get_char(j))
        invariant
            i <= j <= n,
            n == s@.len(),
            digits_len(s@, i as int) == j - i + digits_len(s@, j as int),
        decreases n - j,
    {
        j = j + 1;
    }
    j - i
}

fn scan_ops(s: &str, i: usize) -> (r: usize)
    requires
        i <= s@.len(),
    ensures
        r == ops_len(s@, i as int),
        i + r <= s@.len(),
{
    proof {
        lemma_ops_len_bounds(s@, i as int);
    }
    let n = s.unicode_len();
    let mut j = i;
    while j < n && op_char(s.get_char(j))
        invariant
            i <= j <= n,
            n == s@.len(),
            ops_len(s@, i as int) == j - i + ops_len(s@, j as int),
        decreases n - j,
    {
        j = j + 1;
    }
    j - i
}

fn scan_num(s: &str, i: usize) -> (r: usize)
    requires
        i <= s@.len(),
    ensures
        r == num_len(s@, i as int),
        i + r <= s@.len(),
{
    let n = s.unicode_len();
    let j = if i < n && sign_char(s.get_char(i)) {
        i + 1
    } else {
        i
    };
    let d1 = scan_digits(s, j);
    let k = j + d1;
    if k < n && s.get_char(k) == '.' {
        let d2 = scan_digits(s, k + 1);
        if d2 > 0 {
            return k + 1 + d2 - i;
        }
    }
    if d1 > 0 {
        k - i
    } else {
        0
    }
}

/// Scans the whole text into tokens. The result pairs the tokens read with
/// the offending slice, present exactly when a character that starts no
/// token stopped the scan.
pub fn tokenize(s: &str) -> (r: (Vec<Token>, Option<String>))
    ensures
        toks_view(r.0) == spec_tokenize(s@).0,
        opt_view(r.1) == spec_tokenize(s@).1,
{
    let n = s.unicode_len();
    let mut toks: Vec<Token> = Vec::new();
    let mut i: usize = 0;
    loop
        invariant
            i <= n,
            n == s@.len(),
            spec_tokenize(s@).0 == toks_view(toks) + spec_tokenize_from(s@, i as int).0,
            spec_tokenize(s@).1 == spec_tokenize_from(s@, i as int).1,
        decreases n - i,
    {
        if i >= n {
            proof {
                assert(toks_view(toks) + spec_tokenize_from(s@, i as int).0 =~= toks_view(
                    toks,
                ));
            }
            return (toks, None);
        }
        let c = s.get_char(i);
        if ws_char(c) {
            i = i + 1;
            continue;
        }
        proof {
            lemma_token_at_bounds(s@, i as int);
        }
        let (kind, len) = if c == '(' {
            (TokenKind::Open, 1)
        } else if c == ')' {
            (TokenKind::Close, 1)
        } else {
            let nl = scan_num(s, i);
            let ol = scan_ops(s, i);
            let wl = scan_letters(s, i);
            if nl > ol {
                (TokenKind::Num, nl)
            } else if ol > 0 {
                (TokenKind::Op, ol)
            } else if wl > 0 {
                (TokenKind::Word, wl)
            } else {
                let bad = s.substring_char(i, i + 1).to_owned();
                return (toks, Some(bad));
            }
        };
        assert(token_at(s@, i as int) == Some((kind, len as int)));
        let text = s.substring_char(i, i + len).to_owned();
        let tok = Token { kind, text };
        proof {
            let ghost old_toks = toks_view(toks);
            assert(toks_view(toks).push(tok@) =~= old_toks + seq![tok@]);
        }
        let ghost prev = toks_view(toks);
        toks.push(tok);
        proof {
            assert(toks_view(toks) =~= prev + seq![tok@]);
            assert((prev + seq![tok@]) + spec_tokenize_from(s@, i + len).0 =~= prev + (seq![
                tok@,
            ] + spec_tokenize_from(s@, i + len).0));
        }
        i = i + len;
    }
}

} // verus!

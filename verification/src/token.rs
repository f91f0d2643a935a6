//! Tokenizer: scans normalized source text into an ordered, finite token
//! sequence terminated by an end-of-input sentinel.
//!
//! Tokenization is a total, pure function of the input: every character
//! sequence (including the empty one) yields a valid token sequence, and
//! unrecognized characters become literal-text tokens. Each token records
//! the character range `[start, end)` it occupies in the source.

use vstd::prelude::*;
use vstd::string::StrSliceExecFns;

verus! {

/// The lexical class of a token.
#[derive(Clone, Copy, Debug, PartialEq, Eq, Structural)]
pub enum TokenKind {
    /// The subscript delimiter `,,`.
    Subscript,
    /// The superscript delimiter `^^`.
    Superscript,
    /// A run of inline whitespace (spaces and tabs).
    Whitespace,
    /// A single newline.
    LineBreak,
    /// A run of two or more newlines: a hard paragraph break.
    ParagraphBreak,
    /// A run of literal text.
    Text,
    /// The end-of-input sentinel; always the last token, never elsewhere.
    InputEnd,
}

/// An immutable lexical unit: a kind tag plus the character range
/// `[start, end)` it occupies in the source buffer.
#[derive(Clone, Copy, Debug, PartialEq, Eq, Structural)]
pub struct Token {
    pub kind: TokenKind,
    pub start: usize,
    pub end: usize,
}

/// Whitespace that does not end a line.
pub open spec fn is_inline_whitespace(c: char) -> bool {
    c == ' ' || c == '\t'
}

/// A doubled delimiter character (`,,` or `^^`) begins at position `i`.
pub open spec fn starts_pair(s: Seq<char>, i: int, c: char) -> bool {
    0 <= i && i + 1 < s.len() && s[i] == c && s[i + 1] == c
}

/// Position `i` begins a non-text token, so a literal-text run stops here.
pub open spec fn starts_special(s: Seq<char>, i: int) -> bool {
    s[i] == '\n' || is_inline_whitespace(s[i]) || starts_pair(s, i, ',') || starts_pair(s, i, '^')
}

/// First position at or after `i` that does not hold a newline.
pub open spec fn newline_run_end(s: Seq<char>, i: int) -> int
    decreases s.len() - i,
{
    if 0 <= i && i < s.len() && s[i] == '\n' {
        newline_run_end(s, i + 1)
    } else {
        i
    }
}

/// First position at or after `i` that does not hold inline whitespace.
pub open spec fn whitespace_run_end(s: Seq<char>, i: int) -> int
    decreases s.len() - i,
{
    if 0 <= i && i < s.len() && is_inline_whitespace(s[i]) {
        whitespace_run_end(s, i + 1)
    } else {
        i
    }
}

/// First position at or after `i` where a literal-text run must stop.
pub open spec fn text_run_end(s: Seq<char>, i: int) -> int
    decreases s.len() - i,
{
    if 0 <= i && i < s.len() && !starts_special(s, i) {
        text_run_end(s, i + 1)
    } else {
        i
    }
}

/// End position of the token that begins at position `i`.
pub open spec fn spec_token_end(s: Seq<char>, i: int) -> int {
    if starts_pair(s, i, ',') || starts_pair(s, i, '^') {
        i + 2
    } else if s[i] == '\n' {
        newline_run_end(s, i)
    } else if is_inline_whitespace(s[i]) {
        whitespace_run_end(s, i)
    } else {
        text_run_end(s, i)
    }
}

/// Kind of the token that begins at position `i`.
pub open spec fn spec_token_kind(s: Seq<char>, i: int) -> TokenKind {
    if starts_pair(s, i, ',') {
        TokenKind::Subscript
    } else if starts_pair(s, i, '^') {
        TokenKind::Superscript
    } else if s[i] == '\n' {
        if newline_run_end(s, i) - i >= 2 {
            TokenKind::ParagraphBreak
        } else {
            TokenKind::LineBreak
        }
    } else if is_inline_whitespace(s[i]) {
        TokenKind::Whitespace
    } else {
        TokenKind::Text
    }
}

/// The token that begins at position `i` of the source.
pub open spec fn spec_next_token(s: Seq<char>, i: int) -> Token {
    Token { kind: spec_token_kind(s, i), start: i as usize, end: spec_token_end(s, i) as usize }
}

/// The token sequence for the source suffix beginning at position `i`.
///
/// The recursion advances by at least one position per token; the bound on
/// [`spec_token_end`] that makes the clamp below a no-op is proved in
/// [`lemma_token_end_bounds`].
pub open spec fn spec_tokenize_from(s: Seq<char>, i: int) -> Seq<Token>
    decreases s.len() - i,
{
    if !(0 <= i && i < s.len()) {
        seq![Token { kind: TokenKind::InputEnd, start: s.len() as usize, end: s.len() as usize }]
    } else {
        let j = spec_token_end(s, i);
        let j2 = if j <= i {
            i + 1
        } else if j > s.len() {
            s.len() as int
        } else {
            j
        };
        seq![spec_next_token(s, i)] + spec_tokenize_from(s, j2)
    }
}

/// The full token sequence of a source text.
pub open spec fn spec_tokenize(s: Seq<char>) -> Seq<Token> {
    spec_tokenize_from(s, 0)
}

/// A well-formed token sequence: non-empty, ends with the end-of-input
/// sentinel, and the sentinel appears nowhere else.
pub open spec fn wf_tokens(toks: Seq<Token>) -> bool {
    &&& toks.len() >= 1
    &&& toks[toks.len() - 1].kind == TokenKind::InputEnd
    &&& forall|k: int| 0 <= k < toks.len() - 1 ==> #[trigger] toks[k].kind != TokenKind::InputEnd
}

pub proof fn lemma_newline_run_bounds(s: Seq<char>, i: int)
    requires
        0 <= i <= s.len(),
    ensures
        i <= newline_run_end(s, i) <= s.len(),
    decreases s.len() - i,
{
    if i < s.len() && s[i] == '\n' {
        lemma_newline_run_bounds(s, i + 1);
    }
}

pub proof fn lemma_whitespace_run_bounds(s: Seq<char>, i: int)
    requires
        0 <= i <= s.len(),
    ensures
        i <= whitespace_run_end(s, i) <= s.len(),
    decreases s.len() - i,
{
    if i < s.len() && is_inline_whitespace(s[i]) {
        lemma_whitespace_run_bounds(s, i + 1);
    }
}

pub proof fn lemma_text_run_bounds(s: Seq<char>, i: int)
    requires
        0 <= i <= s.len(),
    ensures
        i <= text_run_end(s, i) <= s.len(),
    decreases s.len() - i,
{
    if i < s.len() && !starts_special(s, i) {
        lemma_text_run_bounds(s, i + 1);
    }
}

/// Every token occupies at least one character and stays inside the source.
pub proof fn lemma_token_end_bounds(s: Seq<char>, i: int)
    requires
        0 <= i < s.len(),
    ensures
        i < spec_token_end(s, i) <= s.len(),
{
    if starts_pair(s, i, ',') || starts_pair(s, i, '^') {
    } else if s[i] == '\n' {
        lemma_newline_run_bounds(s, i + 1);
        assert(newline_run_end(s, i) == newline_run_end(s, i + 1));
    } else if is_inline_whitespace(s[i]) {
        lemma_whitespace_run_bounds(s, i + 1);
        assert(whitespace_run_end(s, i) == whitespace_run_end(s, i + 1));
    } else {
        lemma_text_run_bounds(s, i + 1);
        assert(!starts_special(s, i));
        assert(text_run_end(s, i) == text_run_end(s, i + 1));
    }
}

/// Tokenization always produces a well-formed token sequence.
pub proof fn lemma_tokenize_from_wf(s: Seq<char>, i: int)
    ensures
        wf_tokens(spec_tokenize_from(s, i)),
    decreases s.len() - i,
{
    if !(0 <= i && i < s.len()) {
    } else {
        let j = spec_token_end(s, i);
        let j2 = if j <= i {
            i + 1
        } else if j > s.len() {
            s.len() as int
        } else {
            j
        };
        lemma_tokenize_from_wf(s, j2);
        let rest = spec_tokenize_from(s, j2);
        let whole = spec_tokenize_from(s, i);
        assert(whole == seq![spec_next_token(s, i)] + rest);
        assert(whole[whole.len() - 1] == rest[rest.len() - 1]);
        assert forall|k: int| 0 <= k < whole.len() - 1 implies #[trigger] whole[k].kind
            != TokenKind::InputEnd by {
            if k > 0 {
                assert(whole[k] == rest[k - 1]);
            }
        }
    }
}

/// Tokens tile the source: the first token starts where scanning began,
/// adjacent tokens share a boundary, and the sentinel closes the sequence
/// at the end of the source. So every source position belongs to exactly
/// one token.
pub proof fn lemma_tokenize_from_spans(s: Seq<char>, i: int)
    requires
        0 <= i <= s.len(),
        s.len() <= usize::MAX,
    ensures
        ({
            let toks = spec_tokenize_from(s, i);
            &&& toks[0].start == i
            &&& toks[toks.len() - 1].end == s.len()
            &&& forall|k: int|
                0 <= k < toks.len() - 1 ==> #[trigger] toks[k].end == toks[k + 1].start
        }),
    decreases s.len() - i,
{
    if !(0 <= i && i < s.len()) {
    } else {
        lemma_token_end_bounds(s, i);
        let j = spec_token_end(s, i);
        lemma_tokenize_from_spans(s, j);
        let rest = spec_tokenize_from(s, j);
        let whole = spec_tokenize_from(s, i);
        assert(whole == seq![spec_next_token(s, i)] + rest);
        assert(whole[whole.len() - 1] == rest[rest.len() - 1]);
        assert forall|k: int| 0 <= k < whole.len() - 1 implies #[trigger] whole[k].end == whole[k
            + 1].start by {
            if k == 0 {
                assert(whole[1] == rest[0]);
            } else {
                assert(whole[k] == rest[k - 1]);
                assert(whole[k + 1] == rest[k]);
            }
        }
    }
}

/// The ordered token sequence for one source buffer, always ending in the
/// end-of-input sentinel. Immutable once produced.
#[derive(Debug)]
pub struct Tokenization {
    tokens: Vec<Token>,
}

impl Tokenization {
    /// The token sequence this value holds.
    pub closed spec fn view(&self) -> Seq<Token> {
        self.tokens@
    }

    /// The structural invariant every tokenizer output satisfies.
    pub open spec fn wf(&self) -> bool {
        wf_tokens(self@)
    }

    /// Read-only access to the token sequence.
    pub fn tokens(&self) -> (r: &Vec<Token>)
        ensures
            r@ == self@,
    {
        &self.tokens
    }
}

fn is_special_at(s: &str, n: usize, i: usize) -> (b: bool)
    requires
        n == s@.len(),
        i < n,
    ensures
        b == starts_special(s@, i as int),
{
    let c = s.get_char(i);
    if c == '\n' || c == ' ' || c == '\t' {
        true
    } else if (c == ',' || c == '^') && i + 1 < n {
        s.get_char(i + 1) == c
    } else {
        false
    }
}

fn newline_run(s: &str, n: usize, i: usize) -> (j: usize)
    requires
        n == s@.len(),
        i <= n,
    ensures
        j as int == newline_run_end(s@, i as int),
        i <= j <= n,
    decreases n - i,
{
    if i < n && s.get_char(i) == '\n' {
        newline_run(s, n, i + 1)
    } else {
        i
    }
}

fn whitespace_run(s: &str, n: usize, i: usize) -> (j: usize)
    requires
        n == s@.len(),
        i <= n,
    ensures
        j as int == whitespace_run_end(s@, i as int),
        i <= j <= n,
    decreases n - i,
{
    if i < n {
        let c = s.get_char(i);
        if c == ' ' || c == '\t' {
            return whitespace_run(s, n, i + 1);
        }
    }
    i
}

fn text_run(s: &str, n: usize, i: usize) -> (j: usize)
    requires
        n == s@.len(),
        i <= n,
    ensures
        j as int == text_run_end(s@, i as int),
        i <= j <= n,
    decreases n - i,
{
    if i < n && !is_special_at(s, n, i) {
        text_run(s, n, i + 1)
    } else {
        i
    }
}

/// Scan the single token that begins at position `i`.
fn next_token(s: &str, n: usize, i: usize) -> (t: Token)
    requires
        n == s@.len(),
        i < n,
    ensures
        t == spec_next_token(s@, i as int),
        t.start == i,
        i < t.end <= n,
        t.kind != TokenKind::InputEnd,
{
    proof {
        lemma_token_end_bounds(s@, i as int);
    }
    let c = s.get_char(i);
    if c == ',' && i + 1 < n && s.get_char(i + 1) == ',' {
        Token { kind: TokenKind::Subscript, start: i, end: i + 2 }
    } else if c == '^' && i + 1 < n && s.get_char(i + 1) == '^' {
        Token { kind: TokenKind::Superscript, start: i, end: i + 2 }
    } else if c == '\n' {
        let j = newline_run(s, n, i);
        let kind = if j - i >= 2 {
            TokenKind::ParagraphBreak
        } else {
            TokenKind::LineBreak
        };
        Token { kind, start: i, end: j }
    } else if c == ' ' || c == '\t' {
        let j = whitespace_run(s, n, i);
        Token { kind: TokenKind::Whitespace, start: i, end: j }
    } else {
        let j = text_run(s, n, i);
        Token { kind: TokenKind::Text, start: i, end: j }
    }
}

fn tokenize_from(s: &str, n: usize, i: usize) -> (r: Vec<Token>)
    requires
        n == s@.len(),
        i <= n,
    ensures
        r@ == spec_tokenize_from(s@, i as int),
    decreases n - i,
{
    if i >= n {
        let mut v: Vec<Token> = Vec::new();
        v.push(Token { kind: TokenKind::InputEnd, start: n, end: n });
        proof {
            assert(v@ =~= spec_tokenize_from(s@, i as int));
        }
        v
    } else {
        let t = next_token(s, n, i);
        let mut rest = tokenize_from(s, n, t.end);
        rest.insert(0, t);
        proof {
            lemma_token_end_bounds(s@, i as int);
            assert(t.end as int == spec_token_end(s@, i as int));
            assert(rest@ =~= seq![t] + spec_tokenize_from(s@, t.end as int));
        }
        rest
    }
}

/// Scan a normalized source text into its token sequence.
///
/// Total function: every input, including the empty string, yields a
/// well-formed tokenization, and two calls on equal inputs yield equal
/// tokenizations.
pub fn tokenize(source: &str) -> (t: Tokenization)
    ensures
        t@ == spec_tokenize(source@),
        t.wf(),
{
    let n = source.unicode_len();
    let tokens = tokenize_from(source, n, 0);
    proof {
        lemma_tokenize_from_wf(source@, 0);
    }
    Tokenization { tokens }
}

} // verus!

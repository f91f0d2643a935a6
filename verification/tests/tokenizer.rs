use ftml::{tokenize, Token, TokenKind};

fn kinds(tokens: &[Token]) -> Vec<TokenKind> {
    tokens.iter().map(|t| t.kind).collect()
}

#[test]
fn empty_input_is_only_the_sentinel() {
    let t = tokenize("");
    assert_eq!(
        t.tokens().as_slice(),
        &[Token { kind: TokenKind::InputEnd, start: 0, end: 0 }]
    );
}

#[test]
fn subscript_delimiter_token() {
    let t = tokenize(",,");
    assert_eq!(
        t.tokens().as_slice(),
        &[
            Token { kind: TokenKind::Subscript, start: 0, end: 2 },
            Token { kind: TokenKind::InputEnd, start: 2, end: 2 },
        ]
    );
}

#[test]
fn superscript_delimiter_token() {
    let t = tokenize("^^");
    assert_eq!(
        t.tokens().as_slice(),
        &[
            Token { kind: TokenKind::Superscript, start: 0, end: 2 },
            Token { kind: TokenKind::InputEnd, start: 2, end: 2 },
        ]
    );
}

#[test]
fn text_run_with_exact_span() {
    let t = tokenize("hello");
    assert_eq!(
        t.tokens().as_slice(),
        &[
            Token { kind: TokenKind::Text, start: 0, end: 5 },
            Token { kind: TokenKind::InputEnd, start: 5, end: 5 },
        ]
    );
}

#[test]
fn single_comma_stays_inside_a_text_run() {
    let t = tokenize("a,b");
    assert_eq!(
        t.tokens().as_slice(),
        &[
            Token { kind: TokenKind::Text, start: 0, end: 3 },
            Token { kind: TokenKind::InputEnd, start: 3, end: 3 },
        ]
    );
}

#[test]
fn whitespace_run_is_one_token() {
    let t = tokenize("a  \tb");
    assert_eq!(
        t.tokens().as_slice(),
        &[
            Token { kind: TokenKind::Text, start: 0, end: 1 },
            Token { kind: TokenKind::Whitespace, start: 1, end: 4 },
            Token { kind: TokenKind::Text, start: 4, end: 5 },
            Token { kind: TokenKind::InputEnd, start: 5, end: 5 },
        ]
    );
}

#[test]
fn single_newline_is_a_line_break() {
    let t = tokenize("a\nb");
    assert_eq!(
        kinds(t.tokens()),
        vec![TokenKind::Text, TokenKind::LineBreak, TokenKind::Text, TokenKind::InputEnd]
    );
}

#[test]
fn newline_run_is_a_paragraph_break() {
    let t = tokenize("a\n\n\nb");
    assert_eq!(
        t.tokens().as_slice(),
        &[
            Token { kind: TokenKind::Text, start: 0, end: 1 },
            Token { kind: TokenKind::ParagraphBreak, start: 1, end: 4 },
            Token { kind: TokenKind::Text, start: 4, end: 5 },
            Token { kind: TokenKind::InputEnd, start: 5, end: 5 },
        ]
    );
}

#[test]
fn mixed_markup_token_spans_are_contiguous() {
    let t = tokenize(",,text,, after");
    assert_eq!(
        t.tokens().as_slice(),
        &[
            Token { kind: TokenKind::Subscript, start: 0, end: 2 },
            Token { kind: TokenKind::Text, start: 2, end: 6 },
            Token { kind: TokenKind::Subscript, start: 6, end: 8 },
            Token { kind: TokenKind::Whitespace, start: 8, end: 9 },
            Token { kind: TokenKind::Text, start: 9, end: 14 },
            Token { kind: TokenKind::InputEnd, start: 14, end: 14 },
        ]
    );
}

#[test]
fn tokenizing_twice_gives_identical_sequences() {
    let first = tokenize(",,a,, ^^b^^\n\nrest");
    let second = tokenize(",,a,, ^^b^^\n\nrest");
    assert_eq!(first.tokens(), second.tokens());
}

#[test]
fn every_tokenization_ends_with_the_sentinel() {
    for source in ["", "x", ",,", ",,a", "\n\n", ",  ,", "^", "^^^"] {
        let t = tokenize(source);
        let tokens = t.tokens();
        assert!(!tokens.is_empty());
        assert_eq!(tokens.last().unwrap().kind, TokenKind::InputEnd);
        for tok in &tokens[..tokens.len() - 1] {
            assert_ne!(tok.kind, TokenKind::InputEnd);
        }
    }
}

#[test]
fn tokens_tile_the_source() {
    for source in ["", "a b", ",,a ,,\n\nrest", "^^,,  \n,,^^", "\ta\n\n\nb,"] {
        let t = tokenize(source);
        let tokens = t.tokens();
        assert_eq!(tokens[0].start, 0);
        for pair in tokens.windows(2) {
            assert_eq!(pair[0].end, pair[1].start);
        }
        assert_eq!(tokens.last().unwrap().end, source.chars().count());
    }
}

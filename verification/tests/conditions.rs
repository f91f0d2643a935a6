use ftml::condition::{condition_matches, first_match, ParseCondition};
use ftml::rule::{
    condition_consumption, position_satisfied, rule_table, LineRequirement, Rule, RuleId,
};
use ftml::{tokenize, TokenKind};

#[test]
fn rule_table_order_is_fixed() {
    assert_eq!(
        rule_table(),
        vec![
            Rule { id: RuleId::Subscript, position: LineRequirement::Any },
            Rule { id: RuleId::Superscript, position: LineRequirement::Any },
        ]
    );
}

#[test]
fn current_token_condition_matches_only_its_kind() {
    // `,,a`: Subscript, Text, InputEnd.
    let t = tokenize(",,a");
    let tokens = t.tokens();
    let sub = ParseCondition::current(TokenKind::Subscript);
    assert!(condition_matches(&sub, tokens, 0));
    assert!(!condition_matches(&sub, tokens, 1));
    // Out of range: no match.
    assert!(!condition_matches(&sub, tokens, 17));
}

#[test]
fn token_pair_condition_needs_both_kinds_in_order() {
    // `,, a`: Subscript, Whitespace, Text, InputEnd.
    let t = tokenize(",, a");
    let tokens = t.tokens();
    let pair = ParseCondition::token_pair(TokenKind::Subscript, TokenKind::Whitespace);
    assert!(condition_matches(&pair, tokens, 0));
    assert!(!condition_matches(&pair, tokens, 1));
    let reversed = ParseCondition::token_pair(TokenKind::Whitespace, TokenKind::Subscript);
    assert!(!condition_matches(&reversed, tokens, 0));
}

#[test]
fn first_match_takes_the_order_supplied() {
    // `,, `: Subscript, Whitespace, InputEnd. Both conditions match at 0;
    // the one listed first wins.
    let t = tokenize(",, ");
    let tokens = t.tokens();
    let current = ParseCondition::current(TokenKind::Subscript);
    let pair = ParseCondition::token_pair(TokenKind::Subscript, TokenKind::Whitespace);
    assert_eq!(first_match(&vec![current, pair], tokens, 0), Some(current));
    assert_eq!(first_match(&vec![pair, current], tokens, 0), Some(pair));
    assert_eq!(
        first_match(&vec![ParseCondition::current(TokenKind::Text)], tokens, 0),
        None
    );
}

#[test]
fn consumption_runs_through_the_delimiter() {
    let delim = TokenKind::Subscript;
    // The delimiter itself: consumed, clean close.
    assert_eq!(
        condition_consumption(&ParseCondition::current(delim), delim),
        (1, true)
    );
    // Delimiter then whitespace: only the delimiter is consumed.
    assert_eq!(
        condition_consumption(&ParseCondition::token_pair(delim, TokenKind::Whitespace), delim),
        (1, true)
    );
    // Whitespace then delimiter: both are consumed.
    assert_eq!(
        condition_consumption(&ParseCondition::token_pair(TokenKind::Whitespace, delim), delim),
        (2, true)
    );
    // No delimiter in the window: nothing is consumed, close is not clean.
    assert_eq!(
        condition_consumption(&ParseCondition::current(TokenKind::ParagraphBreak), delim),
        (0, false)
    );
}

#[test]
fn start_of_line_constraint_follows_breaks() {
    // `a\nb\n\nc`: Text, LineBreak, Text, ParagraphBreak, Text, InputEnd.
    let t = tokenize("a\nb\n\nc");
    let tokens = t.tokens();
    assert!(position_satisfied(LineRequirement::StartOfLine, tokens, 0));
    assert!(!position_satisfied(LineRequirement::StartOfLine, tokens, 1));
    assert!(position_satisfied(LineRequirement::StartOfLine, tokens, 2));
    assert!(position_satisfied(LineRequirement::StartOfLine, tokens, 4));
    for i in 0..tokens.len() {
        assert!(position_satisfied(LineRequirement::Any, tokens, i));
    }
}

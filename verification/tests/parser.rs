use ftml::rule::RuleId;
use ftml::{tokenize, ContainerType, Element, Parser, SyntaxTree, Warning, WarningKind};

fn parse(source: &str) -> SyntaxTree {
    let tokenization = tokenize(source);
    let mut parser = Parser::new(tokenization);
    parser.consume().expect("parsing is total")
}

fn text(start: usize, end: usize) -> Element {
    Element::Text { start, end }
}

fn subscript(children: Vec<Element>) -> Element {
    Element::Container { ctype: ContainerType::Subscript, children }
}

#[test]
fn balanced_round_trip() {
    // `,,text,,`: one subscript container, one text child, zero warnings.
    let tree = parse(",,text,,");
    assert_eq!(tree.elements, vec![subscript(vec![text(2, 6)])]);
    assert_eq!(tree.warnings, vec![]);
}

#[test]
fn unterminated_construct() {
    // `,,text`: the container closes at end-of-input with exactly one
    // warning positioned at the opening delimiter.
    let tree = parse(",,text");
    assert_eq!(tree.elements, vec![subscript(vec![text(2, 6)])]);
    assert_eq!(
        tree.warnings,
        vec![Warning {
            kind: WarningKind::UnterminatedContainer,
            rule: RuleId::Subscript,
            start: 0,
            end: 2,
        }]
    );
}

#[test]
fn adjacency_disambiguation() {
    // `,,a,, ,,b,,`: two sibling containers separated by a whitespace text
    // token, not one container spanning both.
    let tree = parse(",,a,, ,,b,,");
    assert_eq!(
        tree.elements,
        vec![
            subscript(vec![text(2, 3)]),
            text(5, 6),
            subscript(vec![text(8, 9)]),
        ]
    );
    assert_eq!(tree.warnings, vec![]);
}

#[test]
fn whitespace_adjacent_terminator() {
    // `,,a ,,`: the closing delimiter preceded by whitespace still
    // terminates the container; the terminator condition absorbs the
    // adjacent whitespace, leaving child `a`.
    let tree = parse(",,a ,,");
    assert_eq!(tree.elements, vec![subscript(vec![text(2, 3)])]);
    assert_eq!(tree.warnings, vec![]);
}

#[test]
fn fallback_literal() {
    // A stray token matched by no rule is emitted as literal text and the
    // parse completes without warnings.
    let tree = parse("hello");
    assert_eq!(tree.elements, vec![text(0, 5)]);
    assert_eq!(tree.warnings, vec![]);
}

#[test]
fn paragraph_break_bounds_a_container() {
    // `,,a\n\nb`: the hard paragraph break terminates the container even
    // though no closing delimiter was found; the break itself stays outside
    // the container and a warning marks the unexpected token.
    let tree = parse(",,a\n\nb");
    assert_eq!(
        tree.elements,
        vec![subscript(vec![text(2, 3)]), text(3, 5), text(5, 6)]
    );
    assert_eq!(
        tree.warnings,
        vec![Warning {
            kind: WarningKind::UnexpectedToken,
            rule: RuleId::Subscript,
            start: 3,
            end: 5,
        }]
    );
}

#[test]
fn superscript_container() {
    let tree = parse("^^x^^");
    assert_eq!(
        tree.elements,
        vec![Element::Container {
            ctype: ContainerType::Superscript,
            children: vec![text(2, 3)],
        }]
    );
    assert_eq!(tree.warnings, vec![]);
}

#[test]
fn containers_of_different_types_nest() {
    // `,,^^x^^,,`: a superscript container nested inside a subscript one.
    let tree = parse(",,^^x^^,,");
    assert_eq!(
        tree.elements,
        vec![subscript(vec![Element::Container {
            ctype: ContainerType::Superscript,
            children: vec![text(4, 5)],
        }])]
    );
    assert_eq!(tree.warnings, vec![]);
}

#[test]
fn empty_container_from_adjacent_delimiters() {
    // `,,,,`: an opening pair immediately followed by a closing pair makes
    // one empty container.
    let tree = parse(",,,,");
    assert_eq!(tree.elements, vec![subscript(vec![])]);
    assert_eq!(tree.warnings, vec![]);
}

#[test]
fn eof_is_reached_after_consume() {
    let tokenization = tokenize(",,a,, rest");
    let mut parser = Parser::new(tokenization);
    assert!(!parser.eof());
    parser.consume().expect("parsing is total");
    assert!(parser.eof());
}

#[test]
fn parse_constructor_matches_new() {
    let mut first = Parser::new(tokenize(",,a"));
    let mut second = Parser::parse(tokenize(",,a"));
    assert_eq!(
        first.consume().expect("parsing is total"),
        second.consume().expect("parsing is total")
    );
}

#[test]
fn rule_names_identify_the_rules() {
    assert_eq!(ftml::rule::rule_name(RuleId::Subscript), "subscript");
    assert_eq!(ftml::rule::rule_name(RuleId::Superscript), "superscript");
}

#[test]
fn current_token_tracks_the_cursor() {
    let tokenization = tokenize(",,a");
    let mut parser = Parser::new(tokenization);
    assert_eq!(parser.current().kind, ftml::TokenKind::Subscript);
    parser.consume().expect("parsing is total");
    assert_eq!(parser.current().kind, ftml::TokenKind::InputEnd);
}

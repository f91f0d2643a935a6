use ftml::parsing::MAX_NESTING_DEPTH;
use ftml::{tokenize, ContainerType, Element, Parser, SyntaxTree, WarningKind};

fn parse(source: &str) -> SyntaxTree {
    let tokenization = tokenize(source);
    let mut parser = Parser::new(tokenization);
    parser.consume().expect("parsing is total")
}

/// Nesting depth of the deepest container chain in the element sequence.
fn depth_of(elements: &[Element]) -> usize {
    elements
        .iter()
        .map(|e| match e {
            Element::Container { children, .. } => 1 + depth_of(children),
            _ => 0,
        })
        .max()
        .unwrap_or(0)
}

fn contains_partial(elements: &[Element]) -> bool {
    elements.iter().any(|e| match e {
        Element::Container { children, .. } => contains_partial(children),
        Element::Partial => true,
        Element::Text { .. } => false,
    })
}

#[test]
fn determinism_on_identical_input() {
    let source = ",,a,, ^^b\n\n,,c ,, stray ,,unclosed";
    let first = parse(source);
    let second = parse(source);
    assert_eq!(first.elements, second.elements);
    assert_eq!(first.warnings, second.warnings);
}

#[test]
fn totality_on_empty_input() {
    let tree = parse("");
    assert_eq!(tree.elements, vec![]);
    assert_eq!(tree.warnings, vec![]);
}

#[test]
fn totality_on_delimiters_only() {
    // Six subscript delimiters: two balanced containers and one left open.
    let tree = parse(",,,,,,");
    assert_eq!(tree.elements.len(), 2);
    assert_eq!(tree.warnings.len(), 1);
    assert_eq!(tree.warnings[0].kind, WarningKind::UnterminatedContainer);
}

#[test]
fn totality_on_adversarial_inputs() {
    for source in [
        ",",
        ",,",
        ",,,",
        " ,, ",
        "\n,,\n\n,,",
        "^^,,^^,,",
        &",,".repeat(40),
        &"^^ ,,".repeat(25),
    ] {
        let tree = parse(source);
        assert!(!contains_partial(&tree.elements));
    }
}

/// Alternating opening delimiters (`,,^^,,^^…`), `count` of them: a second
/// delimiter of the same kind would close its container, so the deepest
/// possible nesting alternates container types.
fn alternating_openers(count: usize) -> String {
    let mut s = String::new();
    for level in 0..count {
        s.push_str(if level % 2 == 0 { ",," } else { "^^" });
    }
    s
}

/// Closers matching [`alternating_openers`], innermost first.
fn alternating_closers(count: usize) -> String {
    let mut s = String::new();
    for level in (0..count).rev() {
        s.push_str(if level % 2 == 0 { ",," } else { "^^" });
    }
    s
}

#[test]
fn depth_cap_yields_warning_and_literal_text() {
    // One more opening delimiter than the cap allows, balanced by exactly
    // as many closers as containers were opened: the excess delimiter is
    // kept as literal text with one depth warning, and nesting stops at
    // the cap.
    let openers = alternating_openers(MAX_NESTING_DEPTH + 1);
    let closers = alternating_closers(MAX_NESTING_DEPTH);
    let source = format!("{openers}x{closers}");
    let tree = parse(&source);
    assert_eq!(tree.warnings.len(), 1);
    assert_eq!(tree.warnings[0].kind, WarningKind::DepthExceeded);
    assert_eq!(tree.warnings[0].start, 2 * MAX_NESTING_DEPTH);
    assert_eq!(tree.warnings[0].end, 2 * MAX_NESTING_DEPTH + 2);
    assert_eq!(depth_of(&tree.elements), MAX_NESTING_DEPTH);

    // The innermost container holds the excess delimiter and the text,
    // both as literal text.
    let mut current: &[Element] = &tree.elements;
    for level in 0..MAX_NESTING_DEPTH {
        assert_eq!(current.len(), 1);
        match &current[0] {
            Element::Container { ctype, children } => {
                let expected = if level % 2 == 0 {
                    ContainerType::Subscript
                } else {
                    ContainerType::Superscript
                };
                assert_eq!(*ctype, expected);
                current = children;
            }
            other => panic!("expected a container, found {other:?}"),
        }
    }
    assert_eq!(
        current,
        &[
            Element::Text { start: 2 * MAX_NESTING_DEPTH, end: 2 * MAX_NESTING_DEPTH + 2 },
            Element::Text { start: 2 * MAX_NESTING_DEPTH + 2, end: 2 * MAX_NESTING_DEPTH + 3 },
        ]
    );
}

#[test]
fn nesting_below_the_cap_is_unaffected() {
    let openers = alternating_openers(MAX_NESTING_DEPTH);
    let closers = alternating_closers(MAX_NESTING_DEPTH);
    let source = format!("{openers}x{closers}");
    let tree = parse(&source);
    assert_eq!(tree.warnings, vec![]);
    assert_eq!(depth_of(&tree.elements), MAX_NESTING_DEPTH);
}

//! The parsing engine: rule dispatch, generic container collection, and
//! syntax-tree assembly with warning accumulation.
//!
//! The whole engine is specified by one functional model
//! ([`spec_parse`] and its helpers) over the token sequence; the executable
//! functions return exactly what the model says. Parsing is deterministic,
//! total, and monotone: every step strictly advances the cursor, so every
//! parse of a finite token sequence terminates.

use vstd::prelude::*;
use crate::condition::{
    conds_no_input_end, first_match, lemma_first_match_some, spec_first_match, ParseCondition,
};
use crate::rule::{
    close_conditions, condition_consumption, container_type_of, delimiter_of,
    lemma_container_conditions_wf, position_satisfied, rule_table, spec_close_conditions,
    spec_condition_consumption, spec_container_type, spec_delimiter, spec_position_satisfied,
    spec_rule_table, spec_terminate_conditions, terminate_conditions, Rule, RuleId,
};
use crate::token::{wf_tokens, Token, TokenKind, Tokenization};
use crate::tree::{
    elems_clean, elems_view, lemma_elems_view_concat, lemma_elems_view_singleton, ContainerType, Element, SpecElement,
    SyntaxTree, Warning, WarningKind,
};

verus! {

/// The configured maximum container nesting depth. Opening delimiters that
/// would nest deeper are kept as literal text, with a warning: a deliberate
/// bound against recursion exhaustion on adversarial input.
pub const MAX_NESTING_DEPTH: usize = 8;

/// A warning of the given kind placed on the span of one token.
pub open spec fn spec_warn_at(kind: WarningKind, rule: RuleId, tok: Token) -> Warning {
    Warning { kind, rule, start: tok.start, end: tok.end }
}

/// The warning attached when a container reaches end-of-input unclosed; it
/// is positioned at the container's opening delimiter.
pub open spec fn spec_opener_warning(toks: Seq<Token>, rule: RuleId, opener: int) -> Warning {
    if 0 <= opener < toks.len() {
        spec_warn_at(WarningKind::UnterminatedContainer, rule, toks[opener])
    } else {
        Warning { kind: WarningKind::UnterminatedContainer, rule, start: 0, end: 0 }
    }
}

/// The first closing or terminating condition matching at cursor `i`,
/// together with its consumption: closing conditions are evaluated before
/// terminating ones, each list in the order supplied, first match wins.
pub open spec fn spec_terminator(
    close: Seq<ParseCondition>,
    term: Seq<ParseCondition>,
    toks: Seq<Token>,
    i: int,
    delim: TokenKind,
) -> Option<(int, bool)> {
    match spec_first_match(close, toks, i) {
        Some(c) => Some(spec_condition_consumption(c, delim)),
        None => match spec_first_match(term, toks, i) {
            Some(c) => Some(spec_condition_consumption(c, delim)),
            None => None,
        },
    }
}

/// One step of the rule dispatcher at cursor `i`: the first applicable rule
/// that matches wins; on total failure the current token is consumed as
/// literal text, which guarantees liveness.
///
/// Returns the produced elements, the produced warnings, and the advanced
/// cursor. The advanced cursor strictly exceeds `i` ([`lemma_dispatch_monotone`]).
pub open spec fn spec_dispatch(toks: Seq<Token>, i: int, depth: int) -> (
    Seq<SpecElement>,
    Seq<Warning>,
    int,
)
    decreases toks.len() - i, 1int, 0int,
{
    if !(0 <= i && i < toks.len()) {
        (Seq::empty(), Seq::empty(), i + 1)
    } else {
        match spec_try_rules(spec_rule_table(), toks, i, depth) {
            Some(r) => r,
            None => (
                seq![
                    SpecElement::Text { start: toks[i].start as int, end: toks[i].end as int },
                ],
                Seq::empty(),
                i + 1,
            ),
        }
    }
}

/// Try the given rules in order at cursor `i`; `None` means no rule
/// matched and the dispatcher must fall back to literal text.
///
/// A matching container rule whose nesting would exceed the depth cap
/// consumes its opening delimiter as literal text and records a warning
/// instead of recursing further.
pub open spec fn spec_try_rules(rules: Seq<Rule>, toks: Seq<Token>, i: int, depth: int) -> Option<
    (Seq<SpecElement>, Seq<Warning>, int),
>
    decreases toks.len() - i, 0int, rules.len(),
{
    if !(0 <= i && i < toks.len()) || rules.len() == 0 {
        None
    } else {
        let r = rules[0];
        let ct = spec_container_type(r.id);
        if spec_position_satisfied(r.position, toks, i) && toks[i].kind == spec_delimiter(ct) {
            Some(spec_apply_rule(toks, i, r, depth))
        } else {
            spec_try_rules(rules.drop_first(), toks, i, depth)
        }
    }
}

/// The generic container collector, with the opening delimiter already
/// consumed: consume tokens until a closing or terminating condition
/// matches, recursively dispatching rules for nested content; at
/// end-of-input, close the container anyway with an "unterminated" warning
/// positioned at the opener.
///
/// The clamp on the recursive cursor is a no-op: the dispatcher strictly
/// advances ([`lemma_dispatch_monotone`]).
pub open spec fn spec_collect(
    toks: Seq<Token>,
    i: int,
    ctype: ContainerType,
    rule: RuleId,
    depth: int,
    opener: int,
    close: Seq<ParseCondition>,
    term: Seq<ParseCondition>,
) -> (Seq<SpecElement>, Seq<Warning>, int)
    decreases toks.len() - i, 2int, 0int,
{
    if !(0 <= i && i < toks.len()) || toks[i].kind == TokenKind::InputEnd {
        (Seq::empty(), seq![spec_opener_warning(toks, rule, opener)], i)
    } else {
        match spec_terminator(close, term, toks, i, spec_delimiter(ctype)) {
            Some((consumed, clean)) => {
                let ws = if clean {
                    Seq::<Warning>::empty()
                } else {
                    seq![spec_warn_at(WarningKind::UnexpectedToken, rule, toks[i])]
                };
                (Seq::empty(), ws, i + consumed)
            },
            None => {
                let (els, ws, j) = spec_dispatch(toks, i, depth);
                let j2 = if j <= i {
                    i + 1
                } else if j > toks.len() {
                    toks.len() as int
                } else {
                    j
                };
                let (els2, ws2, k) = spec_collect(toks, j2, ctype, rule, depth, opener, close, term);
                (els + els2, ws + ws2, k)
            },
        }
    }
}

/// The matcher of one container rule whose opening delimiter stands at
/// cursor `i`: consume the delimiter and collect the container, or — if the
/// nesting depth cap is reached — keep the delimiter as literal text and
/// record a warning instead of recursing further.
pub open spec fn spec_apply_rule(toks: Seq<Token>, i: int, rule: Rule, depth: int) -> (
    Seq<SpecElement>,
    Seq<Warning>,
    int,
)
    decreases toks.len() - i, 0int, 0int,
{
    let ct = spec_container_type(rule.id);
    if !(0 <= i && i < toks.len()) {
        (Seq::empty(), Seq::empty(), i + 1)
    } else if depth >= MAX_NESTING_DEPTH {
        (
            seq![SpecElement::Text { start: toks[i].start as int, end: toks[i].end as int }],
            seq![spec_warn_at(WarningKind::DepthExceeded, rule.id, toks[i])],
            i + 1,
        )
    } else {
        let (children, ws, j) = spec_collect(
            toks,
            i + 1,
            ct,
            rule.id,
            depth + 1,
            i,
            spec_close_conditions(ct),
            spec_terminate_conditions(ct),
        );
        (seq![SpecElement::Container { ctype: ct, children }], ws, j)
    }
}

/// The syntax-tree assembler: drive the dispatcher from cursor `i` until
/// the end-of-input sentinel, concatenating produced elements and warnings.
pub open spec fn spec_consume_from(toks: Seq<Token>, i: int) -> (Seq<SpecElement>, Seq<Warning>)
    decreases toks.len() - i, 3int, 0int,
{
    if !(0 <= i && i < toks.len()) || toks[i].kind == TokenKind::InputEnd {
        (Seq::empty(), Seq::empty())
    } else {
        let (els, ws, j) = spec_dispatch(toks, i, 0);
        let j2 = if j <= i {
            i + 1
        } else if j > toks.len() {
            toks.len() as int
        } else {
            j
        };
        let (els2, ws2) = spec_consume_from(toks, j2);
        (els + els2, ws + ws2)
    }
}

/// The complete parse of a token sequence: root elements plus warnings.
pub open spec fn spec_parse(toks: Seq<Token>) -> (Seq<SpecElement>, Seq<Warning>) {
    spec_consume_from(toks, 0)
}

/// Monotonicity of rule application: a successful match strictly advances
/// the cursor, and never past the end of the token sequence.
pub proof fn lemma_try_rules_monotone(rules: Seq<Rule>, toks: Seq<Token>, i: int, depth: int)
    ensures
        spec_try_rules(rules, toks, i, depth) matches Some(r) ==> i < r.2 <= toks.len(),
    decreases toks.len() - i, 0int, rules.len(),
{
    reveal_with_fuel(spec_try_rules, 2);
    if !(0 <= i && i < toks.len()) || rules.len() == 0 {
    } else {
        let r = rules[0];
        let ct = spec_container_type(r.id);
        if spec_position_satisfied(r.position, toks, i) && toks[i].kind == spec_delimiter(ct) {
            if depth >= MAX_NESTING_DEPTH {
            } else {
                lemma_collect_monotone(
                    toks,
                    i + 1,
                    ct,
                    r.id,
                    depth + 1,
                    i,
                    spec_close_conditions(ct),
                    spec_terminate_conditions(ct),
                );
            }
        } else {
            lemma_try_rules_monotone(rules.drop_first(), toks, i, depth);
        }
    }
}

/// The collector never moves the cursor backwards, and never past the end.
pub proof fn lemma_collect_monotone(
    toks: Seq<Token>,
    i: int,
    ctype: ContainerType,
    rule: RuleId,
    depth: int,
    opener: int,
    close: Seq<ParseCondition>,
    term: Seq<ParseCondition>,
)
    requires
        0 <= i <= toks.len(),
    ensures
        i <= spec_collect(toks, i, ctype, rule, depth, opener, close, term).2 <= toks.len(),
    decreases toks.len() - i, 2int, 0int,
{
    if !(0 <= i && i < toks.len()) || toks[i].kind == TokenKind::InputEnd {
    } else {
        let delim = spec_delimiter(ctype);
        match spec_terminator(close, term, toks, i, delim) {
            Some((consumed, clean)) => {
                lemma_first_match_some(close, toks, i);
                lemma_first_match_some(term, toks, i);
            },
            None => {
                let (els, ws, j) = spec_dispatch(toks, i, depth);
                let j2 = if j <= i {
                    i + 1
                } else if j > toks.len() {
                    toks.len() as int
                } else {
                    j
                };
                lemma_collect_monotone(toks, j2, ctype, rule, depth, opener, close, term);
            },
        }
    }
}

/// Monotonicity law: every dispatcher step on a cursor inside the token
/// sequence strictly advances the cursor, and never past the end. Combined
/// with finiteness of the token sequence this bounds the iteration count of
/// every parse.
pub proof fn lemma_dispatch_monotone(toks: Seq<Token>, i: int, depth: int)
    requires
        0 <= i < toks.len(),
    ensures
        i < spec_dispatch(toks, i, depth).2 <= toks.len(),
{
    lemma_try_rules_monotone(spec_rule_table(), toks, i, depth);
}

/// Find the first closing or terminating condition matching at cursor `i`.
///
/// A match consumes at most the condition's two-token window, and the
/// consumed tokens are ordinary (never the end-of-input sentinel), so the
/// advanced cursor stays strictly inside the token sequence.
fn find_terminator(
    close: &Vec<ParseCondition>,
    term: &Vec<ParseCondition>,
    toks: &Vec<Token>,
    i: usize,
    delim: TokenKind,
) -> (r: Option<(usize, bool)>)
    requires
        wf_tokens(toks@),
        i < toks@.len(),
        conds_no_input_end(close@),
        conds_no_input_end(term@),
    ensures
        match r {
            Some(t) => spec_terminator(close@, term@, toks@, i as int, delim) == Some(
                (t.0 as int, t.1),
            ) && i + t.0 < toks@.len(),
            None => spec_terminator(close@, term@, toks@, i as int, delim) is None,
        },
{
    proof {
        lemma_first_match_some(close@, toks@, i as int);
        lemma_first_match_some(term@, toks@, i as int);
    }
    let matched: Option<ParseCondition> = match first_match(close, toks, i) {
        Some(c) => Some(c),
        None => first_match(term, toks, i),
    };
    match matched {
        Some(c) => {
            let r = condition_consumption(&c, delim);
            proof {
                let last = toks@.len() - 1;
                assert(toks@[last].kind == TokenKind::InputEnd);
                match c {
                    ParseCondition::CurrentToken { kind } => {
                        assert(toks@[i as int].kind != TokenKind::InputEnd);
                        assert(i as int != last);
                    },
                    ParseCondition::TokenPair { first, second } => {
                        assert(toks@[i as int].kind != TokenKind::InputEnd);
                        assert(toks@[i + 1].kind != TokenKind::InputEnd);
                        assert(i as int != last && i + 1 != last);
                    },
                }
            }
            Some(r)
        },
        None => None,
    }
}

/// Try the rules of the table from entry `k` onwards, in table order, at
/// cursor `i`. `None` means no remaining rule matched.
fn try_rules_from(
    toks: &Vec<Token>,
    i: usize,
    depth: usize,
    rules: &Vec<Rule>,
    k: usize,
) -> (r: Option<(Vec<Element>, Vec<Warning>, usize)>)
    requires
        wf_tokens(toks@),
        i < toks@.len(),
        toks@[i as int].kind != TokenKind::InputEnd,
        depth <= MAX_NESTING_DEPTH,
        k <= rules@.len(),
    ensures
        ({
            let sr = spec_try_rules(rules@.skip(k as int), toks@, i as int, depth as int);
            match r {
                Some(t) => sr matches Some(st) && elems_view(t.0@) == st.0 && t.1@ == st.1
                    && t.2 as int == st.2 && i < t.2 < toks@.len(),
                None => sr is None,
            }
        }),
    decreases toks@.len() - i, 0int, rules@.len() - k,
{
    if k == rules.len() {
        proof {
            assert(rules@.skip(k as int) =~= Seq::<Rule>::empty());
        }
        return None;
    }
    let rl = rules[k];
    proof {
        assert(rules@.skip(k as int)[0] == rules@[k as int]);
    }
    let ct = container_type_of(rl.id);
    let matches_here = position_satisfied(rl.position, toks, i) && toks[i].kind == delimiter_of(
        ct,
    );
    if matches_here {
        Some(try_consume_fn(toks, i, depth, rl))
    } else {
        let r = try_rules_from(toks, i, depth, rules, k + 1);
        proof {
            assert(rules@.skip(k as int).drop_first() =~= rules@.skip(k as int + 1));
        }
        r
    }
}

/// The matcher of one container rule, with the rule's opening delimiter
/// under the cursor: consume it and collect the container, or — beyond the
/// depth cap — keep it as literal text with a warning. Either way the
/// cursor strictly advances.
fn try_consume_fn(toks: &Vec<Token>, i: usize, depth: usize, rl: Rule) -> (r: (
    Vec<Element>,
    Vec<Warning>,
    usize,
))
    requires
        wf_tokens(toks@),
        i < toks@.len(),
        toks@[i as int].kind == spec_delimiter(spec_container_type(rl.id)),
        depth <= MAX_NESTING_DEPTH,
    ensures
        ({
            let (e, w, j) = spec_apply_rule(toks@, i as int, rl, depth as int);
            elems_view(r.0@) == e && r.1@ == w && r.2 as int == j
        }),
        i < r.2 < toks@.len(),
    decreases toks@.len() - i, 0int, 0int,
{
    let n_toks: usize = toks.len();
    let ct = container_type_of(rl.id);
    let cur = toks[i];
    proof {
        let last = toks@.len() - 1;
        assert(toks@[last].kind == TokenKind::InputEnd);
        assert(i as int != last);
    }
    if depth >= MAX_NESTING_DEPTH {
        let els = vec![Element::Text { start: cur.start, end: cur.end }];
        let ws = vec![
            Warning {
                kind: WarningKind::DepthExceeded,
                rule: rl.id,
                start: cur.start,
                end: cur.end,
            },
        ];
        proof {
            assert(els@ =~= seq![Element::Text { start: cur.start, end: cur.end }]);
            lemma_elems_view_singleton(els@[0]);
        }
        (els, ws, i + 1)
    } else {
        let close = close_conditions(ct);
        let term = terminate_conditions(ct);
        proof {
            lemma_container_conditions_wf(ct);
        }
        let (children, ws, j) = collect_container(
            toks,
            i + 1,
            ct,
            rl.id,
            depth + 1,
            i,
            &close,
            &term,
        );
        let ghost spec_children = elems_view(children@);
        let els = vec![Element::Container { ctype: ct, children }];
        proof {
            lemma_elems_view_singleton(els@[0]);
            assert(els@ =~= seq![els@[0]]);
            assert(elems_view(els@) =~= seq![
                SpecElement::Container { ctype: ct, children: spec_children },
            ]);
        }
        (els, ws, j)
    }
}

/// One step of the rule dispatcher: the per-step decision procedure. The
/// first applicable rule in table order wins; on total failure the current
/// token is consumed as literal text.
fn parse_step(toks: &Vec<Token>, i: usize, depth: usize) -> (r: (Vec<Element>, Vec<Warning>, usize))
    requires
        wf_tokens(toks@),
        i < toks@.len(),
        toks@[i as int].kind != TokenKind::InputEnd,
        depth <= MAX_NESTING_DEPTH,
    ensures
        ({
            let (e, w, j) = spec_dispatch(toks@, i as int, depth as int);
            elems_view(r.0@) == e && r.1@ == w && r.2 as int == j
        }),
        i < r.2 < toks@.len(),
    decreases toks@.len() - i, 1int, 0int,
{
    let n_toks: usize = toks.len();
    let table = rule_table();
    proof {
        assert(table@.skip(0) =~= spec_rule_table());
    }
    match try_rules_from(toks, i, depth, &table, 0) {
        Some(t) => t,
        None => {
            let cur = toks[i];
            let els = vec![Element::Text { start: cur.start, end: cur.end }];
            proof {
                assert(els@ =~= seq![Element::Text { start: cur.start, end: cur.end }]);
                lemma_elems_view_singleton(els@[0]);
                let last = toks@.len() - 1;
                assert(toks@[last].kind == TokenKind::InputEnd);
                assert(i as int != last);
            }
            (els, Vec::new(), i + 1)
        },
    }
}

/// The generic container collector: consume tokens as children of one
/// container until a closing or terminating condition matches, recursively
/// invoking the dispatcher for nested content; at end-of-input, close the
/// container anyway and attach an "unterminated" warning at the opener.
fn collect_container(
    toks: &Vec<Token>,
    i: usize,
    ctype: ContainerType,
    rule: RuleId,
    depth: usize,
    opener: usize,
    close: &Vec<ParseCondition>,
    term: &Vec<ParseCondition>,
) -> (r: (Vec<Element>, Vec<Warning>, usize))
    requires
        wf_tokens(toks@),
        i < toks@.len(),
        opener < toks@.len(),
        depth <= MAX_NESTING_DEPTH,
        close@ == spec_close_conditions(ctype),
        term@ == spec_terminate_conditions(ctype),
    ensures
        ({
            let (e, w, j) = spec_collect(
                toks@,
                i as int,
                ctype,
                rule,
                depth as int,
                opener as int,
                close@,
                term@,
            );
            elems_view(r.0@) == e && r.1@ == w && r.2 as int == j
        }),
        i <= r.2 < toks@.len(),
    decreases toks@.len() - i, 2int, 0int,
{
    let n_toks: usize = toks.len();
    proof {
        lemma_container_conditions_wf(ctype);
    }
    let cur = toks[i];
    if cur.kind == TokenKind::InputEnd {
        let op = toks[opener];
        let ws = vec![
            Warning {
                kind: WarningKind::UnterminatedContainer,
                rule,
                start: op.start,
                end: op.end,
            },
        ];
        proof {
            assert(elems_view(Seq::<Element>::empty()) =~= Seq::<SpecElement>::empty());
        }
        (Vec::new(), ws, i)
    } else {
        match find_terminator(close, term, toks, i, delimiter_of(ctype)) {
            Some((consumed, clean)) => {
                let ws: Vec<Warning> = if clean {
                    Vec::new()
                } else {
                    vec![
                        Warning {
                            kind: WarningKind::UnexpectedToken,
                            rule,
                            start: cur.start,
                            end: cur.end,
                        },
                    ]
                };
                proof {
                    assert(elems_view(Seq::<Element>::empty()) =~= Seq::<SpecElement>::empty());
                }
                (Vec::new(), ws, i + consumed)
            },
            None => {
                let (mut els, mut ws, j) = parse_step(toks, i, depth);
                let (mut els2, mut ws2, end) = collect_container(
                    toks,
                    j,
                    ctype,
                    rule,
                    depth,
                    opener,
                    close,
                    term,
                );
                proof {
                    lemma_elems_view_concat(els@, els2@);
                }
                els.append(&mut els2);
                ws.append(&mut ws2);
                (els, ws, end)
            },
        }
    }
}

fn consume_from(toks: &Vec<Token>, i: usize) -> (r: (Vec<Element>, Vec<Warning>, usize))
    requires
        wf_tokens(toks@),
        i < toks@.len(),
    ensures
        ({
            let (e, w) = spec_consume_from(toks@, i as int);
            elems_view(r.0@) == e && r.1@ == w
        }),
        i <= r.2 < toks@.len(),
        toks@[r.2 as int].kind == TokenKind::InputEnd,
    decreases toks@.len() - i, 3int, 0int,
{
    let cur = toks[i];
    if cur.kind == TokenKind::InputEnd {
        proof {
            assert(elems_view(Seq::<Element>::empty()) =~= Seq::<SpecElement>::empty());
        }
        (Vec::new(), Vec::new(), i)
    } else {
        let (mut els, mut ws, j) = parse_step(toks, i, 0);
        let (mut els2, mut ws2, end) = consume_from(toks, j);
        proof {
            lemma_elems_view_concat(els@, els2@);
        }
        els.append(&mut els2);
        ws.append(&mut ws2);
        (els, ws, end)
    }
}

/// Cleanliness of rule output: no internal-only marker element.
pub proof fn lemma_try_rules_clean(rules: Seq<Rule>, toks: Seq<Token>, i: int, depth: int)
    ensures
        spec_try_rules(rules, toks, i, depth) matches Some(r) ==> elems_clean(r.0),
    decreases toks.len() - i, 0int, rules.len(),
{
    reveal_with_fuel(spec_try_rules, 2);
    if !(0 <= i && i < toks.len()) || rules.len() == 0 {
    } else {
        let r = rules[0];
        let ct = spec_container_type(r.id);
        if spec_position_satisfied(r.position, toks, i) && toks[i].kind == spec_delimiter(ct) {
            if depth >= MAX_NESTING_DEPTH {
            } else {
                lemma_collect_clean(
                    toks,
                    i + 1,
                    ct,
                    r.id,
                    depth + 1,
                    i,
                    spec_close_conditions(ct),
                    spec_terminate_conditions(ct),
                );
            }
        } else {
            lemma_try_rules_clean(rules.drop_first(), toks, i, depth);
        }
    }
}

/// Cleanliness of collected children: no internal-only marker element.
pub proof fn lemma_collect_clean(
    toks: Seq<Token>,
    i: int,
    ctype: ContainerType,
    rule: RuleId,
    depth: int,
    opener: int,
    close: Seq<ParseCondition>,
    term: Seq<ParseCondition>,
)
    ensures
        elems_clean(spec_collect(toks, i, ctype, rule, depth, opener, close, term).0),
    decreases toks.len() - i, 2int, 0int,
{
    if !(0 <= i && i < toks.len()) || toks[i].kind == TokenKind::InputEnd {
    } else {
        match spec_terminator(close, term, toks, i, spec_delimiter(ctype)) {
            Some(_) => {},
            None => {
                let (els, ws, j) = spec_dispatch(toks, i, depth);
                let j2 = if j <= i {
                    i + 1
                } else if j > toks.len() {
                    toks.len() as int
                } else {
                    j
                };
                lemma_dispatch_clean(toks, i, depth);
                lemma_collect_clean(toks, j2, ctype, rule, depth, opener, close, term);
            },
        }
    }
}

/// Cleanliness of one dispatcher step: no internal-only marker element.
pub proof fn lemma_dispatch_clean(toks: Seq<Token>, i: int, depth: int)
    ensures
        elems_clean(spec_dispatch(toks, i, depth).0),
    decreases toks.len() - i, 1int, 0int,
{
    lemma_try_rules_clean(spec_rule_table(), toks, i, depth);
}

/// The internal-only marker never survives into an assembled tree: every
/// element of a finished parse, at every nesting level, is a container or
/// literal text.
pub proof fn lemma_consume_clean(toks: Seq<Token>, i: int)
    ensures
        elems_clean(spec_consume_from(toks, i).0),
    decreases toks.len() - i, 3int, 0int,
{
    if !(0 <= i && i < toks.len()) || toks[i].kind == TokenKind::InputEnd {
    } else {
        let (els, ws, j) = spec_dispatch(toks, i, 0);
        let j2 = if j <= i {
            i + 1
        } else if j > toks.len() {
            toks.len() as int
        } else {
            j
        };
        lemma_dispatch_clean(toks, i, 0);
        lemma_consume_clean(toks, j2);
    }
}

/// The fatal, programmer-error class of failure: a defect in the engine
/// itself, never triggered by user input. The verified engine proves these
/// unreachable — see the `ensures` of [`Parser::consume`], which promises an
/// `Ok` result for every well-formed tokenization.
#[derive(Clone, Copy, Debug, PartialEq, Eq, Structural)]
pub enum ParseError {
    /// A rule reported success without advancing the cursor.
    RuleStalled,
    /// The internal-only marker element reached the finished tree.
    MarkerInTree,
}

/// The parser cursor state: a tokenization, the current index, and nothing
/// else. Created at parse start, driven by [`Parser::consume`], and left
/// standing at the end-of-input sentinel.
#[derive(Debug)]
pub struct Parser {
    tokenization: Tokenization,
    index: usize,
}

impl Parser {
    /// The token sequence being parsed.
    pub closed spec fn tokens_view(&self) -> Seq<Token> {
        self.tokenization@
    }

    /// The current cursor index.
    pub closed spec fn index_view(&self) -> int {
        self.index as int
    }

    /// Parser invariant: the tokenization is well-formed and the cursor
    /// never passes the end-of-input sentinel.
    pub open spec fn wf(&self) -> bool {
        &&& wf_tokens(self.tokens_view())
        &&& 0 <= self.index_view() < self.tokens_view().len()
    }

    /// Start a parser at cursor zero of a tokenization.
    pub fn new(tokenization: Tokenization) -> (p: Parser)
        requires
            tokenization.wf(),
        ensures
            p.wf(),
            p.tokens_view() == tokenization@,
            p.index_view() == 0,
    {
        Parser { tokenization, index: 0 }
    }

    /// Start a parser for a tokenization; alias of [`Parser::new`].
    pub fn parse(tokenization: Tokenization) -> (p: Parser)
        requires
            tokenization.wf(),
        ensures
            p.wf(),
            p.tokens_view() == tokenization@,
            p.index_view() == 0,
    {
        Parser::new(tokenization)
    }

    /// The token under the cursor.
    pub fn current(&self) -> (t: &Token)
        requires
            self.wf(),
        ensures
            *t == self.tokens_view()[self.index_view()],
    {
        &self.tokenization.tokens()[self.index]
    }

    /// Whether the cursor stands at the end-of-input sentinel.
    pub fn eof(&self) -> (b: bool)
        requires
            self.wf(),
        ensures
            b == (self.tokens_view()[self.index_view()].kind == TokenKind::InputEnd),
    {
        self.current().kind == TokenKind::InputEnd
    }

    /// Run the dispatcher to exhaustion and assemble the syntax tree.
    ///
    /// Total over every well-formed tokenization: the result is always `Ok`,
    /// it carries exactly the model parse [`spec_consume_from`] of the
    /// remaining tokens (so equal inputs give bit-identical trees and
    /// warning lists), the finished tree is free of the internal-only
    /// marker, and the parser is left standing at the end-of-input sentinel.
    pub fn consume(&mut self) -> (r: Result<SyntaxTree, ParseError>)
        requires
            old(self).wf(),
        ensures
            final(self).wf(),
            final(self).tokens_view() == old(self).tokens_view(),
            final(self).tokens_view()[final(self).index_view()].kind == TokenKind::InputEnd,
            r matches Ok(tree) && {
                let (e, w) = spec_consume_from(old(self).tokens_view(), old(self).index_view());
                &&& tree.elements_view() == e
                &&& tree.warnings_view() == w
                &&& elems_clean(tree.elements_view())
            },
    {
        proof {
            lemma_consume_clean(self.tokens_view(), self.index_view());
        }
        let (elements, warnings, end) = consume_from(self.tokenization.tokens(), self.index);
        self.index = end;
        Ok(SyntaxTree { elements, warnings })
    }
}

/// Determinism law: parsing one token sequence twice yields bit-identical
/// element trees and warning lists. The executable entry points return
/// exactly [`spec_parse`] of their input, so any two runs on equal inputs
/// agree.
pub proof fn lemma_parse_deterministic(
    toks: Seq<Token>,
    first: (Seq<SpecElement>, Seq<Warning>),
    second: (Seq<SpecElement>, Seq<Warning>),
)
    requires
        first == spec_parse(toks),
        second == spec_parse(toks),
    ensures
        first == second,
{
}

} // verus!

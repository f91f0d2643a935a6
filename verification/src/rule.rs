//! The rule table: an ordered, immutable catalogue of named matchers, each
//! constrained to fire only at certain cursor positions.
//!
//! Trying the rules in their fixed table order is the sole
//! ambiguity-resolution mechanism between competing rules; there is no
//! cross-rule backtracking. Each container rule carries a set of closing
//! conditions (its own delimiter) and a set of terminating conditions
//! (paragraph breaks and whitespace-adjacent delimiters), both evaluated in
//! the order supplied.

use vstd::prelude::*;
use crate::condition::ParseCondition;
use crate::token::{Token, TokenKind};
use crate::tree::ContainerType;

verus! {

/// Diagnostic identifier of a rule.
#[derive(Clone, Copy, Debug, PartialEq, Eq, Structural)]
pub enum RuleId {
    Subscript,
    Superscript,
}

/// Where on a line a rule is eligible to fire.
#[derive(Clone, Copy, Debug, PartialEq, Eq, Structural)]
pub enum LineRequirement {
    /// The rule may fire at any cursor position.
    Any,
    /// The rule may fire only at the start of a line.
    StartOfLine,
}

/// One entry of the rule table: an identifier plus its position constraint.
#[derive(Clone, Copy, Debug, PartialEq, Eq, Structural)]
pub struct Rule {
    pub id: RuleId,
    pub position: LineRequirement,
}

/// The fixed, ordered rule table.
pub open spec fn spec_rule_table() -> Seq<Rule> {
    seq![
        Rule { id: RuleId::Subscript, position: LineRequirement::Any },
        Rule { id: RuleId::Superscript, position: LineRequirement::Any },
    ]
}

/// Build the rule table; immutable shared data once constructed.
pub fn rule_table() -> (r: Vec<Rule>)
    ensures
        r@ == spec_rule_table(),
{
    let mut v: Vec<Rule> = Vec::new();
    v.push(Rule { id: RuleId::Subscript, position: LineRequirement::Any });
    v.push(Rule { id: RuleId::Superscript, position: LineRequirement::Any });
    proof {
        assert(v@ =~= spec_rule_table());
    }
    v
}

/// The container tag a rule produces.
pub open spec fn spec_container_type(id: RuleId) -> ContainerType {
    match id {
        RuleId::Subscript => ContainerType::Subscript,
        RuleId::Superscript => ContainerType::Superscript,
    }
}

/// Executable form of [`spec_container_type`].
pub fn container_type_of(id: RuleId) -> (ct: ContainerType)
    ensures
        ct == spec_container_type(id),
{
    match id {
        RuleId::Subscript => ContainerType::Subscript,
        RuleId::Superscript => ContainerType::Superscript,
    }
}

/// The delimiter token kind that opens and closes a container.
pub open spec fn spec_delimiter(ct: ContainerType) -> TokenKind {
    match ct {
        ContainerType::Subscript => TokenKind::Subscript,
        ContainerType::Superscript => TokenKind::Superscript,
    }
}

/// Executable form of [`spec_delimiter`].
pub fn delimiter_of(ct: ContainerType) -> (k: TokenKind)
    ensures
        k == spec_delimiter(ct),
{
    match ct {
        ContainerType::Subscript => TokenKind::Subscript,
        ContainerType::Superscript => TokenKind::Superscript,
    }
}

/// The diagnostic name of a rule.
pub fn rule_name(id: RuleId) -> (r: &'static str)
    ensures
        id == RuleId::Subscript ==> r@ == "subscript"@,
        id == RuleId::Superscript ==> r@ == "superscript"@,
{
    match id {
        RuleId::Subscript => "subscript",
        RuleId::Superscript => "superscript",
    }
}

/// Conditions that close a container normally: its own delimiter.
pub open spec fn spec_close_conditions(ct: ContainerType) -> Seq<ParseCondition> {
    seq![ParseCondition::CurrentToken { kind: spec_delimiter(ct) }]
}

/// Conditions that terminate a container even without a clean closing pair:
/// a hard paragraph break bounds the container to one paragraph, and a
/// delimiter immediately adjacent to whitespace (on either side) is itself
/// a valid terminator.
pub open spec fn spec_terminate_conditions(ct: ContainerType) -> Seq<ParseCondition> {
    seq![
        ParseCondition::CurrentToken { kind: TokenKind::ParagraphBreak },
        ParseCondition::TokenPair { first: spec_delimiter(ct), second: TokenKind::Whitespace },
        ParseCondition::TokenPair { first: TokenKind::Whitespace, second: spec_delimiter(ct) },
    ]
}

/// Build the closing conditions of a container rule.
pub fn close_conditions(ct: ContainerType) -> (r: Vec<ParseCondition>)
    ensures
        r@ == spec_close_conditions(ct),
{
    let mut v: Vec<ParseCondition> = Vec::new();
    v.push(ParseCondition::current(delimiter_of(ct)));
    proof {
        assert(v@ =~= spec_close_conditions(ct));
    }
    v
}

/// Build the terminating conditions of a container rule, in the order they
/// are evaluated.
pub fn terminate_conditions(ct: ContainerType) -> (r: Vec<ParseCondition>)
    ensures
        r@ == spec_terminate_conditions(ct),
{
    let delim = delimiter_of(ct);
    let mut v: Vec<ParseCondition> = Vec::new();
    v.push(ParseCondition::current(TokenKind::ParagraphBreak));
    v.push(ParseCondition::token_pair(delim, TokenKind::Whitespace));
    v.push(ParseCondition::token_pair(TokenKind::Whitespace, delim));
    proof {
        assert(v@ =~= spec_terminate_conditions(ct));
    }
    v
}

/// How many tokens a matched closing/terminating condition consumes, and
/// whether that consumption includes the container's own delimiter.
///
/// The uniform policy: consume through the last token of the matched window
/// that is the container's delimiter, and nothing past it. A condition whose
/// window holds no delimiter (such as a hard paragraph break) consumes
/// nothing: the token stays for the enclosing context, and the close is not
/// clean.
pub open spec fn spec_condition_consumption(c: ParseCondition, delim: TokenKind) -> (int, bool) {
    match c {
        ParseCondition::CurrentToken { kind } => if kind == delim {
            (1int, true)
        } else {
            (0int, false)
        },
        ParseCondition::TokenPair { first, second } => if second == delim {
            (2int, true)
        } else if first == delim {
            (1int, true)
        } else {
            (0int, false)
        },
    }
}

/// Executable form of [`spec_condition_consumption`].
pub fn condition_consumption(c: &ParseCondition, delim: TokenKind) -> (r: (usize, bool))
    ensures
        (r.0 as int, r.1) == spec_condition_consumption(*c, delim),
{
    match c {
        ParseCondition::CurrentToken { kind } => if *kind == delim {
            (1, true)
        } else {
            (0, false)
        },
        ParseCondition::TokenPair { first, second } => if *second == delim {
            (2, true)
        } else if *first == delim {
            (1, true)
        } else {
            (0, false)
        },
    }
}

/// Neither condition list of a container rule speaks of the end-of-input
/// sentinel.
pub proof fn lemma_container_conditions_wf(ct: ContainerType)
    ensures
        crate::condition::conds_no_input_end(spec_close_conditions(ct)),
        crate::condition::conds_no_input_end(spec_terminate_conditions(ct)),
{
    let close = spec_close_conditions(ct);
    let term = spec_terminate_conditions(ct);
    assert forall|k: int| 0 <= k < close.len() implies crate::condition::cond_no_input_end(
        #[trigger] close[k],
    ) by {
        assert(close[0] == (ParseCondition::CurrentToken { kind: spec_delimiter(ct) }));
    }
    assert forall|k: int| 0 <= k < term.len() implies crate::condition::cond_no_input_end(
        #[trigger] term[k],
    ) by {
        assert(term[0] == (ParseCondition::CurrentToken { kind: TokenKind::ParagraphBreak }));
        assert(term[1] == (ParseCondition::TokenPair {
            first: spec_delimiter(ct),
            second: TokenKind::Whitespace,
        }));
        assert(term[2] == (ParseCondition::TokenPair {
            first: TokenKind::Whitespace,
            second: spec_delimiter(ct),
        }));
    }
}

/// Whether cursor `i` stands at the start of a line: at the very beginning
/// of the input, or right after a line or paragraph break.
pub open spec fn spec_at_line_start(toks: Seq<Token>, i: int) -> bool {
    ||| i == 0
    ||| (0 <= i - 1 < toks.len() && (toks[i - 1].kind == TokenKind::LineBreak || toks[i
        - 1].kind == TokenKind::ParagraphBreak))
}

/// Whether a rule's position constraint is satisfied at cursor `i`.
pub open spec fn spec_position_satisfied(p: LineRequirement, toks: Seq<Token>, i: int) -> bool {
    match p {
        LineRequirement::Any => true,
        LineRequirement::StartOfLine => spec_at_line_start(toks, i),
    }
}

/// Evaluate a rule's position constraint; the dispatch filter.
pub fn position_satisfied(p: LineRequirement, toks: &Vec<Token>, i: usize) -> (b: bool)
    requires
        i < toks@.len(),
    ensures
        b == spec_position_satisfied(p, toks@, i as int),
{
    match p {
        LineRequirement::Any => true,
        LineRequirement::StartOfLine => {
            if i == 0 {
                true
            } else {
                let prev = toks[i - 1];
                prev.kind == TokenKind::LineBreak || prev.kind == TokenKind::ParagraphBreak
            }
        },
    }
}

} // verus!

//! Parse conditions: side-effect-free predicates over the token sequence at
//! or near a cursor position, used by rules as opener and terminator tests.
//!
//! Evaluating a condition never advances the cursor. The two-token pattern
//! gives rules a one-token lookahead, which is how delimiter/whitespace
//! adjacency ambiguities are resolved by explicit named conditions rather
//! than by a heuristic.

use vstd::prelude::*;
use crate::token::{Token, TokenKind};

verus! {

/// A predicate on the token sequence at a cursor position.
#[derive(Clone, Copy, Debug, PartialEq, Eq, Structural)]
pub enum ParseCondition {
    /// The current token has the given kind.
    CurrentToken { kind: TokenKind },
    /// The current and next tokens have the given kinds, in order.
    TokenPair { first: TokenKind, second: TokenKind },
}

impl ParseCondition {
    /// Condition on the current token alone.
    pub fn current(kind: TokenKind) -> (c: Self)
        ensures
            c == (ParseCondition::CurrentToken { kind }),
    {
        ParseCondition::CurrentToken { kind }
    }

    /// Two-token lookahead condition.
    pub fn token_pair(first: TokenKind, second: TokenKind) -> (c: Self)
        ensures
            c == (ParseCondition::TokenPair { first, second }),
    {
        ParseCondition::TokenPair { first, second }
    }
}

/// Whether the condition holds of the token sequence at cursor `i`.
pub open spec fn spec_condition_matches(c: ParseCondition, toks: Seq<Token>, i: int) -> bool {
    &&& 0 <= i < toks.len()
    &&& match c {
        ParseCondition::CurrentToken { kind } => toks[i].kind == kind,
        ParseCondition::TokenPair { first, second } => {
            &&& toks[i].kind == first
            &&& i + 1 < toks.len()
            &&& toks[i + 1].kind == second
        },
    }
}

/// The condition never speaks of the end-of-input sentinel, so a match
/// implies the tokens in its window are ordinary tokens.
pub open spec fn cond_no_input_end(c: ParseCondition) -> bool {
    match c {
        ParseCondition::CurrentToken { kind } => kind != TokenKind::InputEnd,
        ParseCondition::TokenPair { first, second } => first != TokenKind::InputEnd && second
            != TokenKind::InputEnd,
    }
}

/// No condition in the list speaks of the end-of-input sentinel.
pub open spec fn conds_no_input_end(conds: Seq<ParseCondition>) -> bool {
    forall|k: int| 0 <= k < conds.len() ==> cond_no_input_end(#[trigger] conds[k])
}

/// The first condition in the list, in the order supplied, that matches at
/// cursor `i`.
pub open spec fn spec_first_match(conds: Seq<ParseCondition>, toks: Seq<Token>, i: int) -> Option<
    ParseCondition,
>
    decreases conds.len(),
{
    if conds.len() == 0 {
        None
    } else if spec_condition_matches(conds[0], toks, i) {
        Some(conds[0])
    } else {
        spec_first_match(conds.drop_first(), toks, i)
    }
}

/// A found match is indeed a matching condition drawn from the list.
pub proof fn lemma_first_match_some(conds: Seq<ParseCondition>, toks: Seq<Token>, i: int)
    ensures
        spec_first_match(conds, toks, i) matches Some(c) ==> spec_condition_matches(c, toks, i)
            && (conds_no_input_end(conds) ==> cond_no_input_end(c)),
    decreases conds.len(),
{
    if conds.len() > 0 && !spec_condition_matches(conds[0], toks, i) {
        lemma_first_match_some(conds.drop_first(), toks, i);
        assert(conds_no_input_end(conds) ==> conds_no_input_end(conds.drop_first()));
    }
}

/// Evaluate one condition at cursor `i`; never mutates anything.
pub fn condition_matches(c: &ParseCondition, toks: &Vec<Token>, i: usize) -> (b: bool)
    ensures
        b == spec_condition_matches(*c, toks@, i as int),
{
    if i >= toks.len() {
        return false;
    }
    match c {
        ParseCondition::CurrentToken { kind } => toks[i].kind == *kind,
        ParseCondition::TokenPair { first, second } => {
            toks[i].kind == *first && i + 1 < toks.len() && toks[i + 1].kind == *second
        },
    }
}

fn first_match_from(conds: &Vec<ParseCondition>, k: usize, toks: &Vec<Token>, i: usize) -> (r:
    Option<ParseCondition>)
    requires
        k <= conds.len(),
    ensures
        r == spec_first_match(conds@.skip(k as int), toks@, i as int),
    decreases conds.len() - k,
{
    if k == conds.len() {
        proof {
            assert(conds@.skip(k as int) =~= Seq::<ParseCondition>::empty());
        }
        None
    } else {
        let c = conds[k];
        proof {
            assert(conds@.skip(k as int)[0] == conds@[k as int]);
        }
        if condition_matches(&c, toks, i) {
            Some(c)
        } else {
            let r = first_match_from(conds, k + 1, toks, i);
            proof {
                assert(conds@.skip(k as int).drop_first() =~= conds@.skip(k as int + 1));
            }
            r
        }
    }
}

/// The first condition of the list that matches at cursor `i`, in the order
/// supplied.
pub fn first_match(conds: &Vec<ParseCondition>, toks: &Vec<Token>, i: usize) -> (r: Option<
    ParseCondition,
>)
    ensures
        r == spec_first_match(conds@, toks@, i as int),
{
    let r = first_match_from(conds, 0, toks, i);
    proof {
        assert(conds@.skip(0) =~= conds@);
    }
    r
}

} // verus!

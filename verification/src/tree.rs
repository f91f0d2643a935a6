//! Syntax-tree data model: elements, containers, warnings, and the
//! mathematical view of a finished tree.
//!
//! An [`Element`] is the AST node produced by parsing. Its mathematical
//! counterpart is [`SpecElement`], whose child lists are `Seq`s; contracts
//! throughout the engine speak of `SpecElement` trees obtained through
//! [`elem_view`] / [`elems_view`].

use vstd::prelude::*;

verus! {

/// The tag of a delimited container span.
#[derive(Clone, Copy, Debug, PartialEq, Eq, Structural)]
pub enum ContainerType {
    Subscript,
    Superscript,
}

/// A syntax-tree node.
///
/// `Text` carries the character range `[start, end)` of the literal run in
/// the source buffer. `Partial` is an internal-only marker used transiently
/// while a rule is matching; a tree handed to a consumer never contains it
/// (see [`elem_clean`] and the parser's contracts).
#[derive(Debug, PartialEq, Eq)]
pub enum Element {
    /// A typed, delimited span with ordered children.
    Container { ctype: ContainerType, children: Vec<Element> },
    /// A literal text run, as a character range into the source.
    Text { start: usize, end: usize },
    /// Internal-only marker; must never survive into a returned tree.
    Partial,
}

/// The mathematical form of an [`Element`], with `Seq` child lists and
/// unbounded integer spans.
pub enum SpecElement {
    Container { ctype: ContainerType, children: Seq<SpecElement> },
    Text { start: int, end: int },
    Partial,
}

/// The mathematical view of one element.
pub open spec fn elem_view(e: Element) -> SpecElement
    decreases e,
{
    match e {
        Element::Container { ctype, children } => SpecElement::Container {
            ctype,
            children: elems_view(children@),
        },
        Element::Text { start, end } => SpecElement::Text {
            start: start as int,
            end: end as int,
        },
        Element::Partial => SpecElement::Partial,
    }
}

/// The mathematical view of a sequence of elements.
pub open spec fn elems_view(s: Seq<Element>) -> Seq<SpecElement>
    decreases s,
{
    if s.len() == 0 {
        Seq::empty()
    } else {
        seq![elem_view(s[0])] + elems_view(s.drop_first())
    }
}

/// The view of a sequence has the same length and maps element-wise.
pub proof fn lemma_elems_view_index(s: Seq<Element>)
    ensures
        elems_view(s).len() == s.len(),
        forall|k: int| 0 <= k < s.len() ==> elems_view(s)[k] == elem_view(s[k]),
    decreases s,
{
    if s.len() > 0 {
        lemma_elems_view_index(s.drop_first());
    }
}

/// The view of a one-element sequence.
pub proof fn lemma_elems_view_singleton(e: Element)
    ensures
        elems_view(seq![e]) == seq![elem_view(e)],
{
    let s = seq![e];
    assert(s.drop_first() =~= Seq::<Element>::empty());
    assert(elems_view(s.drop_first()) =~= Seq::<SpecElement>::empty());
    assert(elems_view(s) =~= seq![elem_view(e)]);
}

/// Views distribute over concatenation.
pub proof fn lemma_elems_view_concat(a: Seq<Element>, b: Seq<Element>)
    ensures
        elems_view(a + b) == elems_view(a) + elems_view(b),
    decreases a,
{
    if a.len() == 0 {
        assert(a + b =~= b);
        assert(elems_view(a) + elems_view(b) =~= elems_view(b));
    } else {
        lemma_elems_view_concat(a.drop_first(), b);
        assert((a + b).drop_first() =~= a.drop_first() + b);
        assert(elems_view(a + b) =~= elems_view(a) + elems_view(b));
    }
}

/// A tree free of the internal-only marker.
pub open spec fn elem_clean(e: SpecElement) -> bool
    decreases e,
{
    match e {
        SpecElement::Container { ctype, children } => elems_clean(children),
        SpecElement::Text { .. } => true,
        SpecElement::Partial => false,
    }
}

/// Every element of the sequence is free of the internal-only marker.
pub open spec fn elems_clean(s: Seq<SpecElement>) -> bool
    decreases s,
{
    forall|k: int| 0 <= k < s.len() ==> elem_clean(#[trigger] s[k])
}

/// The kind of a diagnostic warning.
#[derive(Clone, Copy, Debug, PartialEq, Eq, Structural)]
pub enum WarningKind {
    /// A container was still open when the input ended; it was closed
    /// implicitly.
    UnterminatedContainer,
    /// A token that cannot appear inside the current container (such as a
    /// hard paragraph break) terminated it without a closing delimiter.
    UnexpectedToken,
    /// The nesting depth cap was reached; the opening delimiter was kept as
    /// literal text instead of opening a further container.
    DepthExceeded,
}

/// A non-fatal diagnostic describing malformed input. `start`/`end` give
/// the character range of the offending token; parsing always continues.
#[derive(Clone, Copy, Debug, PartialEq, Eq, Structural)]
pub struct Warning {
    pub kind: WarningKind,
    pub rule: crate::rule::RuleId,
    pub start: usize,
    pub end: usize,
}

/// The finished, immutable document representation: the root element
/// sequence plus the warnings accumulated while parsing it.
#[derive(Debug, PartialEq, Eq)]
pub struct SyntaxTree {
    pub elements: Vec<Element>,
    pub warnings: Vec<Warning>,
}

impl SyntaxTree {
    /// The mathematical view of the root element sequence.
    pub open spec fn elements_view(&self) -> Seq<SpecElement> {
        elems_view(self.elements@)
    }

    /// The warnings, as a sequence.
    pub open spec fn warnings_view(&self) -> Seq<Warning> {
        self.warnings@
    }
}

} // verus!

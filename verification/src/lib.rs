//! Rule-based parsing engine for wiki markup.
//!
//! The engine turns untrusted markup text into a structured document tree
//! plus a list of diagnostic warnings. It never hard-fails on malformed
//! input: unbalanced or ambiguous markup degrades to literal text and
//! warnings, and every parse terminates.
//!
//! The pipeline is: [`tokenize`] scans the source into a token sequence
//! ending in an end-of-input sentinel; a [`Parser`] drives an ordered rule
//! table over that sequence, collecting delimited containers recursively,
//! and assembles the final [`SyntaxTree`].

pub mod condition;
pub mod parsing;
pub mod rule;
pub mod token;
pub mod tree;

pub use parsing::{ParseError, Parser};
pub use token::{tokenize, Token, TokenKind, Tokenization};
pub use tree::{ContainerType, Element, SyntaxTree, Warning, WarningKind};

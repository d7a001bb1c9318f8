//! A rule-based linter for C++ syntax trees.
//!
//! The library walks a syntax tree in document order, applies a fixed set of
//! style rules to every node, collects the diagnostics they raise and strikes
//! the spans of auto-fixable violations out of a working copy of the source.

pub mod diagnostic;
pub mod linter;
pub mod naming;
pub mod order;
pub mod outline;
pub mod parse;
pub mod rewrite;
pub mod rules;
pub mod syntax;
pub mod text;

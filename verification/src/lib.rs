//! Marker types for the rules of a pest grammar, and the rewrite of pest's
//! generated parser that lets `enum_dispatch` bind the rule enumeration to a
//! trait.
//!
//! pest turns a grammar into a parser and an enumeration `Rule` with one unit
//! alternative per rule. This library reads the rules out of that
//! enumeration, writes a unit struct for each of them, and rewrites the
//! parser so that every alternative carries its struct: `Rule::r#statement`
//! becomes `Rule::r#statement(crate::r#statement)`. With the annotation that
//! the rewrite adds, a call of a trait method on a `Rule` goes to the
//! implementation for the struct of the rule that matched.
//!
//! Everything works on source text. Running pest and handing the result to
//! the compiler is left to the caller.
//!
//! - [`arguments`]: the two arguments of the attribute.
//! - [`rules`]: the rule set and the marker types.
//! - [`rewrite`]: the rewrite of the parser.
//! - [`pipeline`]: the three parts put together.
//! - [`text`]: searching and replacing in sequences of characters.
//! - [`pattern`], [`syntax`]: what is left to the `regex` and `syn` crates.

pub mod arguments;
pub mod pattern;
pub mod pipeline;
pub mod rewrite;
pub mod rules;
pub mod syntax;
pub mod text;

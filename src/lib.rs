//! Literal and reserved-word recognizers for an interface definition language.
//!
//! Every recognizer is a function from a source text and a character position to
//! either a recognized value with the position just past it, or an error. Each one
//! is proved to agree with a specification over the characters of the text.

pub mod keyword;
pub mod literal;
pub mod scan;

pub use keyword::{Keyword, KeywordParser};
pub use literal::{LexError, Literal, LiteralKind, LiteralParser};

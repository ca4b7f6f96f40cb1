//! A small INI configuration parser.
//!
//! A character-by-character state machine turns a text buffer into an ordered
//! sequence of section, key, value and comment tokens; an [`INITree`] owns
//! that sequence and answers `(section, key)` lookups over it.  The synthetic
//! section `"generaly"` always stands first and holds the keys written before
//! any `[section]` header.
//!
//! Parsing runs in one of two modes: lenient, where every character the
//! machine rejects is silently discarded, and strict, where parsing stops at
//! the first rejected character and reports its character offset.
//!
//! One deliberate quirk of the lookup is kept: the flag that records "the
//! requested key was seen" is never cleared again, neither by a later key nor
//! by a section header, so a value in a later section can answer for a key
//! token that matched in an earlier one.

pub mod laws;
pub mod machine;
pub mod parser;
pub mod token;
pub mod tree;

pub use crate::token::INIContext;
pub use crate::tree::INITree;

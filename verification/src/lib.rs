//! Position-indexed code intelligence for a small, statically typed,
//! expression-oriented functional language.
//!
//! Given an already-parsed, already type-checked syntax tree and a byte
//! offset into the source text, the library answers what stands at that
//! position (hover), which occurrences share the binding under the cursor
//! (symbol search), what could be typed there (completion), and what
//! documentation attaches there (metadata lookup). Every query is a pure
//! function of the caller-supplied tree, type environment and position;
//! nothing is cached or mutated across queries.

pub mod ast;
pub mod boundary;
pub mod candidates;
pub mod imports;
pub mod laws;
pub mod locate;
pub mod metadata;
pub mod name;
pub mod scope;
pub mod suggest;
pub mod symbols;
pub mod types;
pub mod walk;

pub use name::Name;

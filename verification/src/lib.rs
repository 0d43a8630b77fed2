//! Comment stripping for C-like source text.
//!
//! The heart of the crate is a four-state scanner that drops `//` and
//! `/* */` comments and copies everything else, including comment-like
//! text inside string and character literals. [`Obfuscator::obfuscate`]
//! runs it over a whole text. [`scanner`] defines what it writes,
//! [`segments`] says the same comment by comment and literal by literal,
//! and [`laws`] states what follows for every input.
//!
//! Two small companions stand beside it: [`brackets`] checks whether
//! parentheses and square brackets are balanced, with its laws in
//! [`nesting`], and [`layout`] computes where the members of a struct
//! stand.

pub mod scanner;
pub mod runs;
pub mod segments;
pub mod laws;
pub mod obfuscator;
pub mod brackets;
pub mod nesting;
pub mod layout;

pub use obfuscator::Obfuscator;
pub use scanner::{State, Transition};

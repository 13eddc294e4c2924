//! A grammar engine for a small statically-typed language, the grammar of
//! that language, and the syntax tree that it builds.
//!
//! A grammar is a table of rules ([`grammar`]). The rules are consumers of
//! one token ([`consumers`]), patterns that run steps in order and transform
//! their values ([`transform`]), choices made by looking ahead, lists with a
//! policy for their separators, and recursive references, which are added
//! unbound and bound once the rule they stand for exists. What a rule means
//! is defined in [`semantics`]; [`engine`] runs the rules on a token cursor
//! ([`cursor`]) and does exactly what they mean.
//!
//! The grammar of the language is the table in [`language`];
//! [`pattern_builder`] assembles it and parses functions and the content of
//! modules into the tree of [`ast`]. Expressions are read as flat runs of
//! operands and operators and folded by [`expr`].
//!
//! What holds of every grammar is proved in [`laws`], [`typing`] and
//! [`progress`]; what holds of the language, in [`language`].

pub mod span;
pub mod tokens;
pub mod error;
pub mod cursor;
pub mod consumers;
pub mod ast;
pub mod module;
pub mod value;
pub mod expr;
pub mod transform;
pub mod grammar;
pub mod semantics;
pub mod engine;
pub mod laws;
pub mod typing;
pub mod progress;
pub mod language;
pub mod pattern_builder;

//! A tree-walking interpreter for Flang, a small dynamically checked scripting
//! language with structural typing and trait-based dispatch.
//!
//! [`runtime`] holds the evaluator: values and their types, scopes, traits,
//! the calling of functions, and the meaning of every expression, stated as
//! mathematics in [`runtime::semantics`] and proved of the code. [`sitter`]
//! holds the expressions and their making from a syntax tree, [`project`]
//! packages and versions, [`errors`] what is reported when something fails,
//! and [`repl`] what a prompt needs while a line is typed.
//!
//! Numbers are IEEE-754 binary64 values, held here by their bit patterns; the
//! arithmetic on them is supplied by the embedding program through
//! [`runtime::Host`]. What a program prints is kept in the
//! [`runtime::session::Session`] until the embedding program takes it.

pub mod assoc;
pub mod errors;
pub mod number;
pub mod project;
pub mod repl;
pub mod runtime;
pub mod sitter;
pub mod text;

//! Static semantic analysis for a small expression-oriented language.
//!
//! The crate consumes a span-annotated syntax tree and produces either a
//! type-annotated tree or a structured diagnostic value.  The core is a
//! unification-based type inference engine over an arena of type-variable
//! slots, combined with lexical scope resolution and a span-preserving
//! error-reporting model.

pub mod span;
pub mod ast;
pub mod typed_ast;
pub mod scopes;
pub mod error;
pub mod engine;
pub mod typecheck;

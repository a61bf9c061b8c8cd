//! A code-generation engine for tagged integer enumerations.
//!
//! Given a declarative description of an enumeration whose members are
//! identified by integer representations, the engine extracts a validated
//! model and synthesizes the conversion code between the enumeration's
//! symbolic values and its integer representation.
//!
//! The engine works on its own syntax model ([`syntax`]): the host
//! type-declaration parser and the source-to-text emitter are external
//! capabilities that hand declarations in and carry generated fragments out.
//! Every invocation is a pure function from syntax to syntax (or to a
//! diagnostic); nothing persists across invocations.

pub mod diag;
pub mod model;
pub mod syntax;
pub mod semantics;
pub mod extract;
pub mod config;
pub mod synth;
pub mod engine;

//! Resolution of extensible, multi-keyword syntactic constructs ("macros",
//! e.g. `if ... then ... else ...`) from a flat token stream.
//!
//! A runtime-extensible registry maps segment-opening keywords ("headers") to
//! macro [`definition::Definition`]s.  The [`resolver::Resolver`] consumes a
//! token stream, matching headers against the registry while maintaining one
//! current, partially matched macro instance and a stack of suspended parents
//! for nesting.  Once the stream is exhausted every open instance is finalized
//! into a single syntax [`syntax::Tree`].

#![verifier::loop_isolation(false)]

pub mod built_in;
pub mod builders;
pub mod definition;
pub mod operator;
pub mod events;
pub mod laws;
pub mod pattern;
pub mod resolver;
pub mod syntax;
pub mod token;
pub mod util;

//! A small parser-combinator algebra over character input.
//!
//! Parsers are values that, given a [`position::StrGenerator`], either succeed
//! with the position reached and an output value, or fail. Every parser
//! carries a specification (`Parser::spec_parse`) over the remaining input,
//! and its executable `parse` is proved to follow it.
pub mod combinators;
pub mod laws;
pub mod parser;
pub mod position;

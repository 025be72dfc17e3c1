//! Explains C declarations in plain English: a verified parser for the
//! C declarator grammar and a verified explainer that renders a parsed
//! declaration as a tagged, articulated, pluralized phrase.
//!
//! Parsing and explanation are total functions of the source text and the
//! typedef registry: every executable entry point is verified to terminate,
//! never to panic, and to return exactly the value of a specification
//! function of its inputs, so two runs on equal inputs agree exactly.

pub mod ast;
pub mod color;
pub mod explainer;
pub mod lexical;
pub mod parser;

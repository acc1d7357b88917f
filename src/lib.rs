//! Behaviour-style feature specifications: a line-oriented grammar
//! (Feature / Background / Scenario / Given / When / Then / And) that turns
//! text into a tree, and the evaluation of that tree against a host-defined
//! test context, one result per scenario.

pub mod ast;
pub mod parse_utils;
pub mod parser;

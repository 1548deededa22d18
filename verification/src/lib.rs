//! A splice planner for WebAssembly component compositions.
//!
//! Given a composition graph (instances importing and exporting named
//! interfaces) and a list of declarative splice rules, the planner emits a
//! textual composition script that re-wires the graph so that middleware
//! components intercept selected interface edges, together with the
//! `(package, path)` argument pairs a downstream composer needs.

pub mod chains;
pub mod emit;
pub mod engine;
pub mod laws;
pub mod model;
pub mod parse;
pub mod seqs;
pub mod split;
pub mod text;
pub mod wac;

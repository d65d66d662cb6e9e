//! A declarative layout language for the text files of programming-contest
//! judges, with a verified renderer and a verified constraint aggregator.
//!
//! A file layout is a tree of [`model::IOElement`] values; the renderer turns
//! the tree into the exact newline-joined text a judge expects, and the
//! aggregator collects every violated constraint into one report.

pub mod model;
pub mod text;
pub mod generator;
pub mod constraints;
pub mod laws;

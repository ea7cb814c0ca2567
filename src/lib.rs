//! Browse and run the targets of a Makefile or a Justfile: line-structural
//! parsers for both dialects, a dependency tree with cycle detection, a fuzzy
//! filtered selection model and a sequential, abort-on-failure executor.
pub mod text;
pub mod parser;
pub mod filter;
pub mod deps;
pub mod app;
pub mod executor;
pub mod interaction;

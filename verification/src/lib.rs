//! A multilingual comment stripper: resolves exactly one language definition
//! for a file path (reconciling extension rules, path globs and user hints)
//! and excises every comment node from a parsed syntax tree while preserving
//! the line count of the source.

pub mod errors;
pub mod languages;
pub mod strip_core;
pub mod strip_process;
pub mod syntax_tree;
pub mod type_hints;

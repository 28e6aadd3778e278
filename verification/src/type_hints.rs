//! Structures related to the type hints mechanism.
//!
//! A hint overrides language detection for every path that its glob pattern
//! matches. Hints are externally authored data, loaded once per run; the
//! order of the collection is the file's order and matters for tie-breaking
//! (a later hint overrides an earlier one).

use vstd::prelude::*;

verus! {

/// A type hint via a pattern.
#[derive(Debug, Clone)]
pub struct TypeHint {
    /// A glob pattern that matches file(s).
    pub pattern: String,
    /// A language name to use; matched against `LanguageDefinition::name`.
    /// Free text: an unrecognized name is tolerated and simply never selects
    /// a language.
    pub language: String,
}

/// A type representing a loaded type hints file: an ordered sequence of hints.
pub type TypeHints = Vec<TypeHint>;

} // verus!

//! Errors raised while resolving a language and stripping a file.

use vstd::prelude::*;

verus! {

/// An error raised during the stripping process.
///
/// Errors that external collaborators raise outside this library (glob
/// enumeration, pattern compilation, grammar initialisation, file I/O, path
/// manipulation) are carried here as their rendered message.
#[derive(Debug, Clone)]
pub enum StrippingError {
    MultipleTypeHintsFound { path: String },
    NoStripperFound { path: String },
    MultipleStrippersFound { path: String, suggestion: String },
    /// Typically this means unable to access the file for permissions reasons.
    GlobError { message: String },
    PatternError { message: String },
    /// Unlikely to occur, but caused by problems obtaining a parser for a
    /// language's grammar.
    LanguageError { message: String },
    IOError { message: String },
    PathError { message: String },
}

pub type StrippingResult<T> = Result<T, StrippingError>;

/// The text that each error renders to.
pub open spec fn spec_message(e: StrippingError) -> Seq<char> {
    match e {
        StrippingError::MultipleTypeHintsFound { path } => "multiple type hints found: "@ + path@,
        StrippingError::NoStripperFound { path } => "no stripper found"@,
        StrippingError::MultipleStrippersFound { path, suggestion } => "multiple strippers found for '"@
            + path@ + "'. Consider adding a type hint similar to "@ + suggestion@,
        StrippingError::GlobError { message } => "glob error: "@ + message@,
        StrippingError::PatternError { message } => "glob pattern error"@,
        StrippingError::LanguageError { message } => "language error: "@ + message@,
        StrippingError::IOError { message } => "IO error: "@ + message@,
        StrippingError::PathError { message } => "Path manipulation error: "@ + message@,
    }
}

impl StrippingError {
    /// Renders the error as human-readable text.
    pub fn message(&self) -> (r: String)
        ensures
            r@ == spec_message(*self),
    {
        match self {
            StrippingError::MultipleTypeHintsFound { path } => {
                let mut s = String::from_str("multiple type hints found: ");
                s.append(path.as_str());
                s
            },
            StrippingError::NoStripperFound { path: _ } => String::from_str("no stripper found"),
            StrippingError::MultipleStrippersFound { path, suggestion } => {
                let mut s = String::from_str("multiple strippers found for '");
                s.append(path.as_str());
                s.append("'. Consider adding a type hint similar to ");
                s.append(suggestion.as_str());
                s
            },
            StrippingError::GlobError { message } => {
                let mut s = String::from_str("glob error: ");
                s.append(message.as_str());
                s
            },
            StrippingError::PatternError { message: _ } => String::from_str("glob pattern error"),
            StrippingError::LanguageError { message } => {
                let mut s = String::from_str("language error: ");
                s.append(message.as_str());
                s
            },
            StrippingError::IOError { message } => {
                let mut s = String::from_str("IO error: ");
                s.append(message.as_str());
                s
            },
            StrippingError::PathError { message } => {
                let mut s = String::from_str("Path manipulation error: ");
                s.append(message.as_str());
                s
            },
        }
    }
}

} // verus!

//! The errors that end a command as a whole.

use vstd::prelude::*;

verus! {

/// Why something could not be read. Each error holds the words of the
/// parser that refused the text.
#[derive(Debug)]
pub enum ParseError {
    /// The manifest is no valid document.
    Manifest(String),
    /// The text is no exact version.
    Version(String),
    /// What was given as a version requirement is none.
    Requirement(String),
}

/// `to_string` of `toml_edit::TomlError`: the parser's message, of which
/// nothing is stated.
#[verifier::external_body]
pub(crate) fn toml_error_message(error: &toml_edit::TomlError) -> String {
    error.to_string()
}

/// `to_string` of `semver::Error`: the parser's message, of which nothing
/// is stated.
#[verifier::external_body]
pub(crate) fn semver_error_message(error: &semver::Error) -> String {
    error.to_string()
}

impl ParseError {
    /// The parser's words that the error holds.
    pub open spec fn text(&self) -> Seq<char> {
        match self {
            ParseError::Manifest(words) => words@,
            ParseError::Version(words) => words@,
            ParseError::Requirement(words) => words@,
        }
    }

    /// The parser's words for what went wrong.
    pub fn message(&self) -> (r: String)
        ensures
            r@ == self.text(),
    {
        match self {
            ParseError::Manifest(words) => words.clone(),
            ParseError::Version(words) => words.clone(),
            ParseError::Requirement(words) => words.clone(),
        }
    }
}

} // verus!

//! The ways in which a document or a build can fail.

use vstd::prelude::*;

verus! {

/// Why a single document could not be read.
#[derive(Debug)]
pub enum ParseError {
    /// The front matter opens but never closes, or holds a line that is no
    /// `key: value` pair.
    MalformedFrontmatter,
    /// A required key is absent; `field` names it.
    MissingRequiredField { field: String },
    /// The `date` value is no `YYYY.M.D` date; `literal` is the value.
    InvalidDate { literal: String },
    /// The `status` value is none of the known states; `token` is the value.
    InvalidStatus { token: String },
}

/// The model of a `ParseError`: the same cases over character sequences.
pub enum ParseErrorView {
    MalformedFrontmatter,
    MissingRequiredField { field: Seq<char> },
    InvalidDate { literal: Seq<char> },
    InvalidStatus { token: Seq<char> },
}

impl View for ParseError {
    type V = ParseErrorView;

    open spec fn view(&self) -> ParseErrorView {
        match self {
            ParseError::MalformedFrontmatter => ParseErrorView::MalformedFrontmatter,
            ParseError::MissingRequiredField { field } => ParseErrorView::MissingRequiredField {
                field: field@,
            },
            ParseError::InvalidDate { literal } => ParseErrorView::InvalidDate { literal: literal@ },
            ParseError::InvalidStatus { token } => ParseErrorView::InvalidStatus { token: token@ },
        }
    }
}

/// Why a build could not be completed.
#[derive(Debug)]
pub enum BuildError {
    /// The document at `path` could not be read.
    Parse { path: String, error: ParseError },
    /// The document at `path` is to be published but has no date.
    PublishInvariantViolation { path: String },
}

/// The model of a `BuildError`.
pub enum BuildErrorView {
    Parse { path: Seq<char>, error: ParseErrorView },
    PublishInvariantViolation { path: Seq<char> },
}

impl View for BuildError {
    type V = BuildErrorView;

    open spec fn view(&self) -> BuildErrorView {
        match self {
            BuildError::Parse { path, error } => BuildErrorView::Parse {
                path: path@,
                error: error@,
            },
            BuildError::PublishInvariantViolation { path } => {
                BuildErrorView::PublishInvariantViolation { path: path@ }
            },
        }
    }
}

} // verus!

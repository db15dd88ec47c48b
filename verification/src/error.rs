//! The ways in which preparing an announcement can fail.
use vstd::prelude::*;

verus! {

/// Why no announcement could be produced.
#[derive(Debug, PartialEq, Eq)]
pub enum ReleaseError {
    /// The tag does not have the shape of a semantic version.
    InvalidVersion,
    /// The version-control backend failed; holds its diagnostic output.
    CommandError(String),
    /// A file could not be read or written; holds the reason.
    IoError(String),
    /// No project name can be derived from the remote URL.
    MissingProjectName,
    /// The template is malformed or could not be filled; holds the reason.
    TemplateError(String),
}

/// A `ReleaseError` with its texts as sequences of characters.
pub ghost enum ReleaseErrorView {
    InvalidVersion,
    CommandError(Seq<char>),
    IoError(Seq<char>),
    MissingProjectName,
    TemplateError(Seq<char>),
}

impl View for ReleaseError {
    type V = ReleaseErrorView;

    open spec fn view(&self) -> ReleaseErrorView {
        match self {
            ReleaseError::InvalidVersion => ReleaseErrorView::InvalidVersion,
            ReleaseError::CommandError(m) => ReleaseErrorView::CommandError(m@),
            ReleaseError::IoError(m) => ReleaseErrorView::IoError(m@),
            ReleaseError::MissingProjectName => ReleaseErrorView::MissingProjectName,
            ReleaseError::TemplateError(m) => ReleaseErrorView::TemplateError(m@),
        }
    }
}

/// A text or an error as plain values.
pub open spec fn text_outcome(r: Result<String, ReleaseError>) -> Result<
    Seq<char>,
    ReleaseErrorView,
> {
    match r {
        Ok(text) => Ok(text@),
        Err(error) => Err(error@),
    }
}

impl ReleaseError {
    /// The text shown to the operator for this error: a fixed sentence for
    /// the errors that hold nothing, and otherwise what the error holds.
    pub open spec fn message_of(e: ReleaseErrorView) -> Seq<char> {
        match e {
            ReleaseErrorView::InvalidVersion => "Invalid version"@,
            ReleaseErrorView::CommandError(m) => m,
            ReleaseErrorView::IoError(m) => m,
            ReleaseErrorView::MissingProjectName => "Failed to extract project name from URL"@,
            ReleaseErrorView::TemplateError(m) => m,
        }
    }

    /// The text shown to the operator for this error.
    pub fn message(&self) -> (s: String)
        ensures
            s@ == Self::message_of(self@),
    {
        match self {
            ReleaseError::InvalidVersion => "Invalid version".to_owned(),
            ReleaseError::CommandError(m) => m.clone(),
            ReleaseError::IoError(m) => m.clone(),
            ReleaseError::MissingProjectName => "Failed to extract project name from URL".to_owned(),
            ReleaseError::TemplateError(m) => m.clone(),
        }
    }
}

} // verus!

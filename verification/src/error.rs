//! The ways in which an extraction fails.

use vstd::prelude::*;

verus! {

/// A failure that aborts the whole extraction: no test case is returned.
#[derive(Clone, Debug, PartialEq, Eq)]
pub enum ExtractError {
    /// A heading whose label is not a single run of plain text.
    MalformedHeading,
    /// A configuration block that the merge capability rejected.
    ConfigurationParseError {
        /// The line on which the block starts.
        line: usize,
        /// What the merge capability said of the block's text.
        message: String,
    },
    /// The markup parser gave no usable document tree for the source text:
    /// no root, or a heading or a block of raw text without a position.
    UnreadableDocument,
}

/// An [`ExtractError`], with text as a sequence of characters.
pub enum ExtractErrorView {
    MalformedHeading,
    ConfigurationParseError { line: nat, message: Seq<char> },
    UnreadableDocument,
}

impl DeepView for ExtractError {
    type V = ExtractErrorView;

    open spec fn deep_view(&self) -> ExtractErrorView {
        match self {
            ExtractError::MalformedHeading => ExtractErrorView::MalformedHeading,
            ExtractError::ConfigurationParseError { line, message } => {
                ExtractErrorView::ConfigurationParseError { line: *line as nat, message: message@ }
            },
            ExtractError::UnreadableDocument => ExtractErrorView::UnreadableDocument,
        }
    }
}

} // verus!

//! The ways in which turning a page into a track can fail.
use vstd::prelude::*;

verus! {

/// Why a page could not be turned into a track.
#[derive(Debug)]
pub enum PipelineError {
    /// The page holds no `kmtBoot.setProps("...");` embedding.
    MarkerNotFound,
    /// The embedded string holds a malformed escape sequence.
    UnescapeError,
    /// The unescaped text is not JSON; the parser's diagnostic is kept.
    MalformedDocument(String),
    /// A key on the way to the coordinate list is missing, or its parent is not an object.
    PathNotFound(String),
    /// The coordinate list is not an array.
    NotAnArray,
    /// A coordinate field (with the item's position) or the name (without one)
    /// is missing or of the wrong type.
    InvalidField(String, Option<usize>),
}

/// What a `PipelineError` says, as plain values.
pub enum Failure {
    MarkerNotFound,
    UnescapeError,
    MalformedDocument,
    PathNotFound(Seq<char>),
    NotAnArray,
    InvalidField(Seq<char>, Option<nat>),
}

impl View for PipelineError {
    type V = Failure;

    open spec fn view(&self) -> Failure {
        match self {
            PipelineError::MarkerNotFound => Failure::MarkerNotFound,
            PipelineError::UnescapeError => Failure::UnescapeError,
            PipelineError::MalformedDocument(_) => Failure::MalformedDocument,
            PipelineError::PathNotFound(key) => Failure::PathNotFound(key@),
            PipelineError::NotAnArray => Failure::NotAnArray,
            PipelineError::InvalidField(field, index) => Failure::InvalidField(
                field@,
                match index {
                    Some(i) => Some(*i as nat),
                    None => None,
                },
            ),
        }
    }
}

} // verus!

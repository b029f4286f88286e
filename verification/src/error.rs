//! The cleaner's error vocabulary.

use vstd::prelude::*;

verus! {

/// Everything that can go wrong while cleaning one item. The surrounding
/// batch keeps going: errors are reported per item, never aborting the
/// run.
#[derive(Clone, Copy, PartialEq, Eq, Structural, Debug)]
pub enum CleanerError {
    /// A filesystem read, write, copy or directory creation failed.
    Io,
    /// The tag container could not be read, parsed or persisted.
    Lofty,
    /// A zip archive could not be extracted.
    Zip,
    /// A rar archive could not be extracted.
    Unrar,
    /// The file has no extension, so no container kind can be chosen.
    MissingFileExtension,
    /// The file's extension names no supported container kind.
    UnexpectedFileExtension,
    /// The selected cover image could not be decoded or re-encoded.
    ImageDecode,
    /// The track resolved without the number or title its destination
    /// name needs.
    IncompleteMetadata,
}

impl CleanerError {
    /// A short description, for reporting.
    pub fn message(&self) -> (r: &'static str)
        ensures
            *self is Io ==> r@ == "io failure"@,
            *self is Lofty ==> r@ == "failed to process tags"@,
            *self is Zip ==> r@ == "failed to process zip"@,
            *self is Unrar ==> r@ == "failed to process rar"@,
            *self is MissingFileExtension ==> r@ == "missing file extension"@,
            *self is UnexpectedFileExtension ==> r@ == "unexpected file extension"@,
            *self is ImageDecode ==> r@ == "failed to process image"@,
            *self is IncompleteMetadata ==> r@ == "missing track number or title"@,
    {
        match *self {
            CleanerError::Io => "io failure",
            CleanerError::Lofty => "failed to process tags",
            CleanerError::Zip => "failed to process zip",
            CleanerError::Unrar => "failed to process rar",
            CleanerError::MissingFileExtension => "missing file extension",
            CleanerError::UnexpectedFileExtension => "unexpected file extension",
            CleanerError::ImageDecode => "failed to process image",
            CleanerError::IncompleteMetadata => "missing track number or title",
        }
    }
}

/// The result type the cleaner's fallible operations share.
pub type CleanerResult<T> = Result<T, CleanerError>;

} // verus!

//! The shared shape of discovered files, and the processing modes.

use vstd::prelude::*;

use crate::cover::ImageFile;
use crate::error::CleanerError;
use crate::meta::AudioFile;
use crate::paths::ext_of;
use crate::text::str_equal;

verus! {

/// The archive container formats a top-level scan can extract.
#[derive(Clone, Copy, PartialEq, Eq, Structural, Debug)]
pub enum ArchiveKind {
    Zip,
    Rar,
}

/// The archive kind a file name implies: a `zip` or `rar` extension,
/// a missing-extension error, or an unexpected-extension error.
pub open spec fn archive_kind_of(name: Seq<char>) -> Result<ArchiveKind, CleanerError> {
    match ext_of(name) {
        None => Err(CleanerError::MissingFileExtension),
        Some(e) => if e == "zip"@ {
            Ok(ArchiveKind::Zip)
        } else if e == "rar"@ {
            Ok(ArchiveKind::Rar)
        } else {
            Err(CleanerError::UnexpectedFileExtension)
        },
    }
}

/// Decides how an archive file is to be extracted, from its name alone.
pub fn classify_archive(name: &str) -> (r: Result<ArchiveKind, CleanerError>)
    ensures
        r == archive_kind_of(name@),
{
    let (_stem, ext) = crate::paths::split_file_name(name);
    match ext {
        None => Err(CleanerError::MissingFileExtension),
        Some(e) => {
            if str_equal(e.as_str(), "zip") {
                Ok(ArchiveKind::Zip)
            } else if str_equal(e.as_str(), "rar") {
                Ok(ArchiveKind::Rar)
            } else {
                Err(CleanerError::UnexpectedFileExtension)
            }
        },
    }
}

/// Anything discovered during a scan: it sits at a path, and may be
/// checked for basic validity.
pub trait MediaFile {
    fn path(&self) -> &Vec<String>;

    fn is_valid(&self) -> bool {
        true
    }
}

impl MediaFile for AudioFile {
    fn path(&self) -> &Vec<String> {
        &self.path
    }
}

impl MediaFile for ImageFile {
    fn path(&self) -> &Vec<String> {
        &self.path
    }
}

/// A discovered file that is neither audio nor image: carried along only
/// for completeness.
pub struct OtherFile {
    pub path: Vec<String>,
}

impl OtherFile {
    pub fn new(path: Vec<String>) -> (r: OtherFile)
        ensures
            r.path == path,
    {
        OtherFile { path }
    }
}

impl MediaFile for OtherFile {
    fn path(&self) -> &Vec<String> {
        &self.path
    }
}

/// What a run processes: archives at the top level, or the files of a
/// directory tree.
#[derive(Clone, Copy, PartialEq, Eq, Structural, Debug)]
pub enum Mode {
    /// Process all archives in the given directory.
    Archives,
    /// Process all files, recursively, in the given directory.
    Files,
}

impl Mode {
    /// The mode's display label.
    pub fn label(&self) -> (r: &'static str)
        ensures
            *self is Archives ==> r@ == "archives"@,
            *self is Files ==> r@ == "Files"@,
    {
        match *self {
            Mode::Archives => "archives",
            Mode::Files => "Files",
        }
    }
}

} // verus!

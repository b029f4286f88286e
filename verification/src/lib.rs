//! Normalizes a disorganized collection of audio tracks into a canonically
//! tagged, canonically named library tree.
//!
//! The library infers missing metadata from directory and file naming
//! conventions, reconciles that inference against embedded tag data, selects
//! a representative cover image per album, and plans a clean rewrite of each
//! track's tag container. All decision logic lives here, verified; the
//! filesystem walking, prompting and byte-level I/O around it live in the
//! accompanying application.

pub mod cleaner;
pub mod cover;
pub mod error;
pub mod group;
pub mod media;
pub mod meta;
pub mod naming;
pub mod paths;
pub mod tagger;
pub mod text;

//! Resolved per-track metadata and the precedence rules that produce it.
//!
//! Each field of the resolved record is chosen independently: the embedded
//! tag value wins when present (trimmed), and the candidate inferred from
//! the path is the fallback. A container with no primary tag falls back to
//! the path candidates for every field; genre has no path fallback.

use vstd::prelude::*;

use crate::paths::{
    album_candidates, artist_candidate, container_kind_of, decompose_album_path,
    decompose_artist_path, decompose_file_path, stem_of, stem_track_number, stem_track_title,
};
use crate::text::{trim_spec, trim_str};

verus! {

/// The audio container formats whose tags can be rewritten.
#[derive(Clone, Copy, PartialEq, Eq, Structural, Debug)]
pub enum AudioFileType {
    Flac,
    Mp3,
}

impl AudioFileType {
    /// The canonical lower-case file extension for this container kind.
    pub fn to_extension(&self) -> (r: &'static str)
        ensures
            *self is Flac ==> r@ == "flac"@,
            *self is Mp3 ==> r@ == "mp3"@,
    {
        match *self {
            AudioFileType::Flac => "flac",
            AudioFileType::Mp3 => "mp3",
        }
    }
}

/// The field values read from a container's primary tag, exactly as the
/// tag reader handed them over.
pub struct TagValues {
    pub album_artist: Option<String>,
    pub artist: Option<String>,
    pub album: Option<String>,
    pub year: Option<u32>,
    pub track: Option<u32>,
    pub title: Option<String>,
    pub genre: Option<String>,
}

/// The metadata candidates inferred from a track's path alone.
pub struct PathCandidates {
    pub artist: Option<String>,
    pub album_title: Option<String>,
    pub album_year: Option<u32>,
    pub track_number: Option<u32>,
    pub track_title: Option<String>,
}

/// Derives all path-based candidates of one track at once.
pub fn infer_path_candidates(root_path: &Vec<String>, path: &Vec<String>) -> (r: PathCandidates)
    ensures
        r.artist.deep_view() == artist_candidate(root_path.deep_view(), path.deep_view()),
        r.album_title.deep_view() == album_candidates(root_path.deep_view(), path.deep_view()).0,
        r.album_year == album_candidates(root_path.deep_view(), path.deep_view()).1,
        r.track_number == path_track_number(path.deep_view()),
        r.track_title.deep_view() == path_track_title(path.deep_view()),
{
    let artist = decompose_artist_path(root_path, path);
    let (album_title, album_year) = decompose_album_path(root_path, path);
    let (track_number, track_title, _kind) = decompose_file_path(path);
    PathCandidates { artist, album_title, album_year, track_number, track_title }
}

/// First of two optional values, when present.
pub open spec fn opt_or<A>(a: Option<A>, b: Option<A>) -> Option<A> {
    match a {
        Some(x) => Some(x),
        None => b,
    }
}

/// An optional character sequence, trimmed when present.
pub open spec fn opt_trim(o: Option<Seq<char>>) -> Option<Seq<char>> {
    match o {
        Some(s) => Some(trim_spec(s)),
        None => None,
    }
}

/// Album artist: embedded album-artist field, then embedded artist field,
/// then the path candidate.
pub open spec fn resolved_album_artist(tag: Option<TagValues>, path_artist: Option<Seq<char>>)
    -> Option<Seq<char>> {
    match tag {
        Some(t) => opt_or(
            opt_trim(t.album_artist.deep_view()),
            opt_or(opt_trim(t.artist.deep_view()), path_artist),
        ),
        None => path_artist,
    }
}

/// Artist: embedded artist field, then embedded album-artist field, then
/// the path candidate.
pub open spec fn resolved_artist(tag: Option<TagValues>, path_artist: Option<Seq<char>>) -> Option<
    Seq<char>,
> {
    match tag {
        Some(t) => opt_or(
            opt_trim(t.artist.deep_view()),
            opt_or(opt_trim(t.album_artist.deep_view()), path_artist),
        ),
        None => path_artist,
    }
}

/// Album title: embedded album field, then the path candidate.
pub open spec fn resolved_album_title(tag: Option<TagValues>, path_album: Option<Seq<char>>)
    -> Option<Seq<char>> {
    match tag {
        Some(t) => opt_or(opt_trim(t.album.deep_view()), path_album),
        None => path_album,
    }
}

/// Year: embedded year field, then the path candidate.
pub open spec fn resolved_year(tag: Option<TagValues>, path_year: Option<u32>) -> Option<u32> {
    match tag {
        Some(t) => opt_or(t.year, path_year),
        None => path_year,
    }
}

/// Track number: embedded track field, then the path candidate.
pub open spec fn resolved_track_number(tag: Option<TagValues>, path_track: Option<u32>) -> Option<
    u32,
> {
    match tag {
        Some(t) => opt_or(t.track, path_track),
        None => path_track,
    }
}

/// Track title: embedded title field, then the path candidate.
pub open spec fn resolved_track_title(tag: Option<TagValues>, path_title: Option<Seq<char>>)
    -> Option<Seq<char>> {
    match tag {
        Some(t) => opt_or(opt_trim(t.title.deep_view()), path_title),
        None => path_title,
    }
}

/// Genre: the embedded genre field only; no path fallback exists.
pub open spec fn resolved_genre(tag: Option<TagValues>) -> Option<Seq<char>> {
    match tag {
        Some(t) => opt_trim(t.genre.deep_view()),
        None => None,
    }
}

/// The track-number candidate a whole path yields.
pub open spec fn path_track_number(path: Seq<Seq<char>>) -> Option<u32> {
    if path.len() > 0 {
        stem_track_number(stem_of(path.last()))
    } else {
        None
    }
}

/// The track-title candidate a whole path yields.
pub open spec fn path_track_title(path: Seq<Seq<char>>) -> Option<Seq<char>> {
    if path.len() > 0 {
        Some(stem_track_title(stem_of(path.last())))
    } else {
        None
    }
}

/// The container kind a whole path yields.
pub open spec fn path_container_kind(path: Seq<Seq<char>>) -> Option<AudioFileType> {
    if path.len() > 0 {
        container_kind_of(path.last())
    } else {
        None
    }
}

/// The resolved metadata of one track: each field independently resolved,
/// absence meaningful.
pub struct AudioFileMeta {
    pub album_artist_name: Option<String>,
    pub artist_name: Option<String>,
    pub album_title: Option<String>,
    pub year: Option<u32>,
    pub track_number: Option<u32>,
    pub track_title: Option<String>,
    pub genre: Option<String>,
    pub audio_file_type: Option<AudioFileType>,
}

impl AudioFileMeta {
    #[allow(clippy::too_many_arguments)]
    pub fn new(
        album_artist_name: Option<String>,
        artist_name: Option<String>,
        album_title: Option<String>,
        year: Option<u32>,
        track_number: Option<u32>,
        track_title: Option<String>,
        genre: Option<String>,
        audio_file_type: Option<AudioFileType>,
    ) -> (r: AudioFileMeta)
        ensures
            r.album_artist_name == album_artist_name,
            r.artist_name == artist_name,
            r.album_title == album_title,
            r.year == year,
            r.track_number == track_number,
            r.track_title == track_title,
            r.genre == genre,
            r.audio_file_type == audio_file_type,
    {
        AudioFileMeta {
            album_artist_name,
            artist_name,
            album_title,
            year,
            track_number,
            track_title,
            genre,
            audio_file_type,
        }
    }

    pub fn album_artist_name(&self) -> (r: Option<&str>)
        ensures
            r.deep_view() == self.album_artist_name.deep_view(),
    {
        match &self.album_artist_name {
            Some(s) => Some(s.as_str()),
            None => None,
        }
    }

    pub fn artist_name(&self) -> (r: Option<&str>)
        ensures
            r.deep_view() == self.artist_name.deep_view(),
    {
        match &self.artist_name {
            Some(s) => Some(s.as_str()),
            None => None,
        }
    }

    pub fn album_title(&self) -> (r: Option<&str>)
        ensures
            r.deep_view() == self.album_title.deep_view(),
    {
        match &self.album_title {
            Some(s) => Some(s.as_str()),
            None => None,
        }
    }

    pub fn year(&self) -> (r: Option<u32>)
        ensures
            r == self.year,
    {
        self.year
    }

    pub fn track_number(&self) -> (r: Option<u32>)
        ensures
            r == self.track_number,
    {
        self.track_number
    }

    pub fn track_title(&self) -> (r: Option<&str>)
        ensures
            r.deep_view() == self.track_title.deep_view(),
    {
        match &self.track_title {
            Some(s) => Some(s.as_str()),
            None => None,
        }
    }

    pub fn genre(&self) -> (r: Option<&str>)
        ensures
            r.deep_view() == self.genre.deep_view(),
    {
        match &self.genre {
            Some(s) => Some(s.as_str()),
            None => None,
        }
    }

    pub fn audio_file_type(&self) -> (r: Option<AudioFileType>)
        ensures
            r == self.audio_file_type,
    {
        self.audio_file_type
    }
}

fn clone_opt_string(o: &Option<String>) -> (r: Option<String>)
    ensures
        r == *o,
{
    match o {
        Some(s) => Some(s.clone()),
        None => None,
    }
}

fn trim_or(first: &Option<String>, fallback: Option<String>) -> (r: Option<String>)
    ensures
        r.deep_view() == opt_or(opt_trim(first.deep_view()), fallback.deep_view()),
{
    match first {
        Some(s) => Some(trim_str(s.as_str())),
        None => fallback,
    }
}

/// Resolves every metadata field of one track from its embedded tag (if
/// the container has a primary tag) and the candidates its path yields.
pub fn build_meta(root_path: &Vec<String>, path: &Vec<String>, tag: &Option<TagValues>) -> (r:
    AudioFileMeta)
    ensures
        r.album_artist_name.deep_view() == resolved_album_artist(
            *tag,
            artist_candidate(root_path.deep_view(), path.deep_view()),
        ),
        r.artist_name.deep_view() == resolved_artist(
            *tag,
            artist_candidate(root_path.deep_view(), path.deep_view()),
        ),
        r.album_title.deep_view() == resolved_album_title(
            *tag,
            album_candidates(root_path.deep_view(), path.deep_view()).0,
        ),
        r.year == resolved_year(*tag, album_candidates(root_path.deep_view(), path.deep_view()).1),
        r.track_number == resolved_track_number(*tag, path_track_number(path.deep_view())),
        r.track_title.deep_view() == resolved_track_title(
            *tag,
            path_track_title(path.deep_view()),
        ),
        r.genre.deep_view() == resolved_genre(*tag),
        r.audio_file_type == path_container_kind(path.deep_view()),
{
    let path_artist = decompose_artist_path(root_path, path);
    let (path_album_title, path_album_year) = decompose_album_path(root_path, path);
    let (path_track_num, path_title, audio_file_type) = decompose_file_path(path);

    match tag {
        Some(t) => {
            let album_artist_name = trim_or(
                &t.album_artist,
                trim_or(&t.artist, clone_opt_string(&path_artist)),
            );
            let artist_name = trim_or(
                &t.artist,
                trim_or(&t.album_artist, clone_opt_string(&path_artist)),
            );
            let album_title = trim_or(&t.album, path_album_title);
            let year = match t.year {
                Some(y) => Some(y),
                None => path_album_year,
            };
            let track_number = match t.track {
                Some(n) => Some(n),
                None => path_track_num,
            };
            let track_title = trim_or(&t.title, path_title);
            let genre = trim_or(&t.genre, None);
            AudioFileMeta::new(
                album_artist_name,
                artist_name,
                album_title,
                year,
                track_number,
                track_title,
                genre,
                audio_file_type,
            )
        },
        None => AudioFileMeta::new(
            clone_opt_string(&path_artist),
            clone_opt_string(&path_artist),
            path_album_title,
            path_album_year,
            path_track_num,
            path_title,
            None,
            audio_file_type,
        ),
    }
}

/// A discovered audio file: its path (as components below the scan root)
/// and the metadata resolved for it, computed once at construction.
pub struct AudioFile {
    pub path: Vec<String>,
    pub meta: AudioFileMeta,
}

impl AudioFile {
    pub fn new(root_path: &Vec<String>, path: Vec<String>, tag: &Option<TagValues>) -> (r:
        AudioFile)
        ensures
            r.path == path,
            r.meta.album_artist_name.deep_view() == resolved_album_artist(
                *tag,
                artist_candidate(root_path.deep_view(), path.deep_view()),
            ),
            r.meta.artist_name.deep_view() == resolved_artist(
                *tag,
                artist_candidate(root_path.deep_view(), path.deep_view()),
            ),
            r.meta.album_title.deep_view() == resolved_album_title(
                *tag,
                album_candidates(root_path.deep_view(), path.deep_view()).0,
            ),
            r.meta.year == resolved_year(
                *tag,
                album_candidates(root_path.deep_view(), path.deep_view()).1,
            ),
            r.meta.track_number == resolved_track_number(
                *tag,
                path_track_number(path.deep_view()),
            ),
            r.meta.track_title.deep_view() == resolved_track_title(
                *tag,
                path_track_title(path.deep_view()),
            ),
            r.meta.genre.deep_view() == resolved_genre(*tag),
            r.meta.audio_file_type == path_container_kind(path.deep_view()),
    {
        let meta = build_meta(root_path, &path, tag);
        AudioFile { path, meta }
    }

    pub fn get_meta(&self) -> (r: &AudioFileMeta)
        ensures
            r == &self.meta,
    {
        &self.meta
    }

    pub fn path(&self) -> (r: &Vec<String>)
        ensures
            r == &self.path,
    {
        &self.path
    }
}

/// Precedence law: whenever an embedded field is present, the resolved
/// value is that embedded value (trimmed); the path candidate is never
/// consulted for it.
pub proof fn lemma_embedded_precedence(
    t: TagValues,
    path_artist: Option<Seq<char>>,
    path_album: Option<Seq<char>>,
    path_year: Option<u32>,
    path_track: Option<u32>,
    path_title: Option<Seq<char>>,
)
    ensures
        t.album_artist is Some ==> resolved_album_artist(Some(t), path_artist) == Some(
            trim_spec(t.album_artist->0@),
        ),
        t.artist is Some ==> resolved_artist(Some(t), path_artist) == Some(
            trim_spec(t.artist->0@),
        ),
        t.album is Some ==> resolved_album_title(Some(t), path_album) == Some(
            trim_spec(t.album->0@),
        ),
        t.year is Some ==> resolved_year(Some(t), path_year) == t.year,
        t.track is Some ==> resolved_track_number(Some(t), path_track) == t.track,
        t.title is Some ==> resolved_track_title(Some(t), path_title) == Some(
            trim_spec(t.title->0@),
        ),
        t.genre is Some ==> resolved_genre(Some(t)) == Some(trim_spec(t.genre->0@)),
{
}

/// Fallback law: with no embedded tag at all, every resolved field equals
/// its path candidate, and genre resolves absent.
pub proof fn lemma_no_tag_fallback(
    path_artist: Option<Seq<char>>,
    path_album: Option<Seq<char>>,
    path_year: Option<u32>,
    path_track: Option<u32>,
    path_title: Option<Seq<char>>,
)
    ensures
        resolved_album_artist(None, path_artist) == path_artist,
        resolved_artist(None, path_artist) == path_artist,
        resolved_album_title(None, path_album) == path_album,
        resolved_year(None, path_year) == path_year,
        resolved_track_number(None, path_track) == path_track,
        resolved_track_title(None, path_title) == path_title,
        resolved_genre(None) is None,
{
}

} // verus!

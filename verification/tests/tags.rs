use std::io::Cursor;

use lofty::{ItemKey, PictureType};

use music_cleaner::error::CleanerError;
use music_cleaner::meta::{AudioFileMeta, AudioFileType};
use music_cleaner::tagger::{add_tag, rewrite_steps, RewriteStep, TagGeneration};

fn meta(
    album_artist: Option<&str>,
    artist: Option<&str>,
    album: Option<&str>,
    year: Option<u32>,
    track: Option<u32>,
    title: Option<&str>,
    genre: Option<&str>,
) -> AudioFileMeta {
    AudioFileMeta::new(
        album_artist.map(|s| s.to_string()),
        artist.map(|s| s.to_string()),
        album.map(|s| s.to_string()),
        year,
        track,
        title.map(|s| s.to_string()),
        genre.map(|s| s.to_string()),
        Some(AudioFileType::Mp3),
    )
}

fn jpeg_bytes() -> Vec<u8> {
    let img = image::DynamicImage::new_rgb8(1, 1);
    let mut buffer = Cursor::new(Vec::new());
    img.write_to(&mut buffer, image::ImageOutputFormat::Jpeg(90))
        .expect("in-memory jpeg encode");
    buffer.into_inner()
}

// Round trip through the modern generation: every field reads back as
// the resolved-and-defaulted input, the year in the recording-date slot,
// the track number as a fraction over the group total.
#[test]
fn modern_tag_round_trip() {
    let m = meta(
        Some("AA"),
        Some("Artist"),
        Some("Album"),
        Some(2001),
        Some(3),
        Some("Title"),
        Some("Rock"),
    );
    let tag = add_tag(TagGeneration::Modern, &m, None, &None, 12, &None).expect("tag");
    assert_eq!(tag.get_string(&ItemKey::AlbumArtist), Some("AA"));
    assert_eq!(tag.get_string(&ItemKey::TrackArtist), Some("Artist"));
    assert_eq!(tag.get_string(&ItemKey::AlbumTitle), Some("Album"));
    assert_eq!(tag.get_string(&ItemKey::RecordingDate), Some("2001"));
    assert_eq!(tag.get_string(&ItemKey::TrackNumber), Some("3/12"));
    assert_eq!(tag.get_string(&ItemKey::TrackTitle), Some("Title"));
    assert_eq!(tag.get_string(&ItemKey::Genre), Some("Rock"));
    assert_eq!(tag.get_string(&ItemKey::Year), None);
    assert_eq!(tag.picture_count(), 0);
}

// The legacy generation stores the bare year and the bare track number,
// and has no album-artist or recording-date slot.
#[test]
fn legacy_tag_encodings() {
    let m = meta(
        Some("AA"),
        Some("Artist"),
        Some("Album"),
        Some(2001),
        Some(3),
        Some("Title"),
        Some("Rock"),
    );
    let tag = add_tag(TagGeneration::Legacy, &m, None, &None, 12, &None).expect("tag");
    assert_eq!(tag.get_string(&ItemKey::Year), Some("2001"));
    assert_eq!(tag.get_string(&ItemKey::TrackNumber), Some("3"));
    assert_eq!(tag.get_string(&ItemKey::AlbumArtist), None);
    assert_eq!(tag.get_string(&ItemKey::RecordingDate), None);
    assert_eq!(tag.get_string(&ItemKey::TrackArtist), Some("Artist"));
}

// Absent fields fall back to the group defaults, and stay absent when
// no default exists either.
#[test]
fn defaults_fill_missing_year_and_genre() {
    let m = meta(None, Some("Artist"), None, None, Some(1), Some("T"), None);
    let tag = add_tag(
        TagGeneration::Modern,
        &m,
        Some(1987),
        &Some("Jazz".to_string()),
        1,
        &None,
    )
    .expect("tag");
    assert_eq!(tag.get_string(&ItemKey::RecordingDate), Some("1987"));
    assert_eq!(tag.get_string(&ItemKey::Genre), Some("Jazz"));
    assert_eq!(tag.get_string(&ItemKey::AlbumTitle), None);

    let bare = add_tag(TagGeneration::Modern, &m, None, &None, 1, &None).expect("tag");
    assert_eq!(bare.get_string(&ItemKey::RecordingDate), None);
    assert_eq!(bare.get_string(&ItemKey::Genre), None);
}

// A resolved value beats the default.
#[test]
fn resolved_year_beats_default() {
    let m = meta(None, None, None, Some(1999), Some(1), Some("T"), None);
    let tag = add_tag(TagGeneration::Modern, &m, Some(2020), &None, 1, &None).expect("tag");
    assert_eq!(tag.get_string(&ItemKey::RecordingDate), Some("1999"));
}

// Valid cover bytes become one front-cover picture; garbage bytes fail
// the build.
#[test]
fn cover_bytes_become_front_cover_picture() {
    let m = meta(None, Some("A"), None, None, Some(1), Some("T"), None);
    let bytes = jpeg_bytes();
    let tag = add_tag(TagGeneration::Modern, &m, None, &None, 1, &Some(bytes.clone()))
        .expect("tag");
    assert_eq!(tag.picture_count(), 1);
    assert_eq!(tag.pictures()[0].pic_type(), PictureType::CoverFront);
    // Reading the front cover back yields the very bytes that went in.
    let front = tag
        .get_picture_type(PictureType::CoverFront)
        .expect("front cover");
    assert_eq!(front.data(), bytes.as_slice());
}

#[test]
fn bad_cover_bytes_fail_the_build() {
    let m = meta(None, Some("A"), None, None, Some(1), Some("T"), None);
    let bytes = vec![1u8, 2, 3];
    let r = add_tag(TagGeneration::Modern, &m, None, &None, 1, &Some(bytes));
    assert_eq!(r.err(), Some(CleanerError::Lofty));
}

// The rewrite protocol strips both generations before any rebuild, and
// writes the legacy generation after the modern one.
#[test]
fn rewrite_protocol_order() {
    let steps = rewrite_steps();
    assert_eq!(
        steps,
        vec![
            RewriteStep::RemoveLegacy,
            RewriteStep::RemoveModern,
            RewriteStep::WriteModern,
            RewriteStep::WriteLegacy,
        ]
    );
}

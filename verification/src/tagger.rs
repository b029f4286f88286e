//! The tag rewriter: a clean rewrite of a track's tag container across
//! two tag generations.
//!
//! Both existing generations are stripped, then a fresh modern-generation
//! tag and a fresh legacy-generation tag are built from the resolved
//! metadata, the group's defaults and total track count, and the group's
//! re-encoded cover image. The modern generation stores the year in its
//! recording-date field and the track number as a `N/total` fraction; the
//! legacy generation stores the year as text and the bare track number,
//! and has no album-artist or recording-date slot at all.

use vstd::prelude::*;

use lofty::{ItemKey, LoftyError, Picture, PictureType, Tag, TagType};

use crate::error::CleanerError;
use crate::meta::{opt_or, AudioFileMeta};
use crate::text::dec_digits;
use crate::text::u64_to_dec;

verus! {

/// The two tag generations written into every cleaned container.
#[derive(Clone, Copy, PartialEq, Eq, Structural, Debug)]
pub enum TagGeneration {
    /// The modern, richer format (ID3v2).
    Modern,
    /// The legacy compatibility format (ID3v1).
    Legacy,
}

/// The semantic text fields the rewriter populates.
#[derive(Clone, Copy, PartialEq, Eq, Structural, Debug)]
pub enum TagFieldKey {
    AlbumArtist,
    Artist,
    Album,
    Year,
    RecordingDate,
    TrackNumber,
    Title,
    Genre,
}

/// Which semantic keys each generation can carry, from the tag library's
/// key-mapping tables: the legacy generation has a fixed field set with
/// no album-artist and no recording-date slot; the modern generation maps
/// every key here except the bare year, which it stores as a recording
/// date instead.
pub open spec fn key_maps(gen: TagGeneration, key: TagFieldKey) -> bool {
    match gen {
        TagGeneration::Modern => !(key is Year),
        TagGeneration::Legacy => match key {
            TagFieldKey::Artist => true,
            TagFieldKey::Album => true,
            TagFieldKey::Year => true,
            TagFieldKey::TrackNumber => true,
            TagFieldKey::Title => true,
            TagFieldKey::Genre => true,
            TagFieldKey::AlbumArtist => false,
            TagFieldKey::RecordingDate => false,
        },
    }
}

#[verifier::external_type_specification]
#[verifier::external_body]
pub struct ExTag(Tag);

#[verifier::external_type_specification]
#[verifier::external_body]
pub struct ExPicture(Picture);

#[verifier::external_type_specification]
#[verifier::external_body]
pub struct ExLoftyError(LoftyError);

/// The text items a tag holds, by semantic field.
pub uninterp spec fn tag_texts(t: Tag) -> Map<TagFieldKey, Seq<char>>;

/// How many pictures a tag holds.
pub uninterp spec fn tag_picture_count(t: Tag) -> nat;

/// The bytes of the first front-cover picture a tag holds, if any: what
/// a reader asking the tag for its front cover gets back.
pub uninterp spec fn front_cover_data(t: Tag) -> Option<Seq<u8>>;

/// Whether a tag was created by this module for one of the two rewrite
/// generations. The tag library knows several more tag types; none of
/// the contracts below speak about those, so every mutating wrapper
/// demands a tag of this module's own making.
pub uninterp spec fn is_rewrite_tag(t: Tag) -> bool;

/// The generation a rewrite tag was created for. Meaningful only for
/// tags satisfying [`is_rewrite_tag`].
pub uninterp spec fn tag_generation(t: Tag) -> TagGeneration;

/// The bytes a parsed picture carries.
pub uninterp spec fn pic_data(p: Picture) -> Seq<u8>;

/// Whether a picture is typed as a front cover.
pub uninterp spec fn is_front_cover(p: Picture) -> bool;

/// Whether the picture parser accepts these bytes: its outcome is a
/// function of the bytes alone (it checks their length and leading
/// signature).
pub uninterp spec fn parses_as_picture(data: Seq<u8>) -> bool;

/// Relies on lofty's `Tag::new`: a fresh tag of the given type holds no
/// items and no pictures.
#[verifier::external_body]
fn new_tag(gen: TagGeneration) -> (t: Tag)
    ensures
        is_rewrite_tag(t),
        tag_generation(t) == gen,
        forall|key: TagFieldKey| !tag_texts(t).contains_key(key),
        tag_picture_count(t) == 0,
        front_cover_data(t) is None,
{
    match gen {
        TagGeneration::Modern => Tag::new(TagType::Id3v2),
        TagGeneration::Legacy => Tag::new(TagType::Id3v1),
    }
}

/// Relies on lofty's `Tag::insert_text`: on a tag of one of the two
/// rewrite generations, when the key maps into the tag's type, the text
/// replaces any existing item under the same key and the call reports
/// success; otherwise the tag is left unchanged. Pictures are untouched
/// either way.
#[verifier::external_body]
fn tag_insert_text(t: &mut Tag, key: TagFieldKey, text: String) -> (r: bool)
    requires
        is_rewrite_tag(*old(t)),
    ensures
        r == key_maps(tag_generation(*old(t)), key),
        r ==> tag_texts(*final(t)) == tag_texts(*old(t)).insert(key, text@),
        !r ==> tag_texts(*final(t)) == tag_texts(*old(t)),
        tag_picture_count(*final(t)) == tag_picture_count(*old(t)),
        front_cover_data(*final(t)) == front_cover_data(*old(t)),
        is_rewrite_tag(*final(t)),
        tag_generation(*final(t)) == tag_generation(*old(t)),
{
    let item_key = match key {
        TagFieldKey::AlbumArtist => ItemKey::AlbumArtist,
        TagFieldKey::Artist => ItemKey::TrackArtist,
        TagFieldKey::Album => ItemKey::AlbumTitle,
        TagFieldKey::Year => ItemKey::Year,
        TagFieldKey::RecordingDate => ItemKey::RecordingDate,
        TagFieldKey::TrackNumber => ItemKey::TrackNumber,
        TagFieldKey::Title => ItemKey::TrackTitle,
        TagFieldKey::Genre => ItemKey::Genre,
    };
    t.insert_text(item_key, text)
}

/// Relies on lofty's `Picture::from_reader`: it succeeds exactly when
/// the bytes carry a recognized image signature, and the parsed picture
/// holds those bytes, typed as an ordinary picture, not yet a front
/// cover.
#[verifier::external_body]
fn picture_from_bytes(data: &Vec<u8>) -> (r: Result<Picture, LoftyError>)
    ensures
        r is Ok <==> parses_as_picture(data@),
        r matches Ok(p) ==> pic_data(p) == data@ && !is_front_cover(p),
{
    let mut reader: &[u8] = data.as_slice();
    Picture::from_reader(&mut reader)
}

/// Relies on lofty's `Picture::set_pic_type` to mark a parsed picture as
/// a front cover, leaving its bytes alone.
#[verifier::external_body]
fn mark_front_cover(p: &mut Picture)
    ensures
        is_front_cover(*final(p)),
        pic_data(*final(p)) == pic_data(*old(p)),
{
    p.set_pic_type(PictureType::CoverFront);
}

/// Relies on lofty's `Tag::push_picture`: it appends one picture and
/// leaves the text items alone; the tag's first front cover is the old
/// one if there was one, else the new picture when it is one.
#[verifier::external_body]
fn tag_push_picture(t: &mut Tag, p: Picture)
    ensures
        tag_texts(*final(t)) == tag_texts(*old(t)),
        tag_picture_count(*final(t)) == tag_picture_count(*old(t)) + 1,
        front_cover_data(*old(t)) matches Some(d) ==> front_cover_data(*final(t)) == Some(d),
        front_cover_data(*old(t)) is None && is_front_cover(p) ==> front_cover_data(*final(t))
            == Some(pic_data(p)),
        front_cover_data(*old(t)) is None && !is_front_cover(p) ==> front_cover_data(*final(t))
            is None,
        is_rewrite_tag(*final(t)) == is_rewrite_tag(*old(t)),
        tag_generation(*final(t)) == tag_generation(*old(t)),
{
    t.push_picture(p);
}

/// The modern generation's track-number encoding: `N/total`.
pub open spec fn track_fraction(n: u32, total: u32) -> Seq<char> {
    dec_digits(n as nat) + seq!['/'] + dec_digits(total as nat)
}

/// The text a freshly rewritten tag of generation `gen` carries under
/// `key`, if any: each metadata field lands in its own slot when resolved
/// (year and genre falling back to the group defaults), in the encoding
/// the generation calls for, and only under keys the generation can
/// carry.
pub open spec fn written_field(
    gen: TagGeneration,
    meta: AudioFileMeta,
    default_year: Option<u32>,
    default_genre: Option<String>,
    total_tracks: u32,
    key: TagFieldKey,
) -> Option<Seq<char>> {
    if !key_maps(gen, key) {
        None
    } else {
        match key {
            TagFieldKey::AlbumArtist => meta.album_artist_name.deep_view(),
            TagFieldKey::Artist => meta.artist_name.deep_view(),
            TagFieldKey::Album => meta.album_title.deep_view(),
            TagFieldKey::Title => meta.track_title.deep_view(),
            TagFieldKey::Genre => opt_or(meta.genre.deep_view(), default_genre.deep_view()),
            TagFieldKey::Year => match opt_or(meta.year, default_year) {
                Some(y) => Some(dec_digits(y as nat)),
                None => None,
            },
            TagFieldKey::RecordingDate => match opt_or(meta.year, default_year) {
                Some(y) => Some(dec_digits(y as nat)),
                None => None,
            },
            TagFieldKey::TrackNumber => match meta.track_number {
                Some(n) => if gen is Modern {
                    Some(track_fraction(n, total_tracks))
                } else {
                    Some(dec_digits(n as nat))
                },
                None => None,
            },
        }
    }
}

/// The complete text-item map of a freshly rewritten tag.
pub open spec fn written_texts(
    gen: TagGeneration,
    meta: AudioFileMeta,
    default_year: Option<u32>,
    default_genre: Option<String>,
    total_tracks: u32,
) -> Map<TagFieldKey, Seq<char>> {
    Map::new(
        |key: TagFieldKey| written_field(gen, meta, default_year, default_genre, total_tracks, key)
            is Some,
        |key: TagFieldKey| written_field(
            gen,
            meta,
            default_year,
            default_genre,
            total_tracks,
            key,
        )->0,
    )
}

fn clone_opt_string(o: &Option<String>) -> (r: Option<String>)
    ensures
        r == *o,
{
    match o {
        Some(s) => Some(s.clone()),
        None => None,
    }
}

/// Builds one fresh tag of the given generation from the resolved
/// metadata, the group defaults, the group's total track count and the
/// re-encoded cover bytes. Fails exactly when cover bytes are present
/// and the picture parser rejects them; on success the tag's text items,
/// generation, picture count and front-cover bytes are all pinned.
pub fn add_tag(
    gen: TagGeneration,
    meta: &AudioFileMeta,
    default_year: Option<u32>,
    default_genre: &Option<String>,
    total_tracks: u32,
    cover_image: &Option<Vec<u8>>,
) -> (r: Result<Tag, CleanerError>)
    ensures
        r matches Ok(t) ==> tag_texts(t) == written_texts(
            gen,
            *meta,
            default_year,
            *default_genre,
            total_tracks,
        ) && tag_generation(t) == gen && tag_picture_count(t) == (
            if cover_image is Some {
                1nat
            } else {
                0nat
            }
        ) && (cover_image matches Some(b) ==> front_cover_data(t) == Some(b@)) && (
        cover_image is None ==> front_cover_data(t) is None),
        r is Err <==> (cover_image matches Some(b) && !parses_as_picture(b@)),
{
    let mut tag = new_tag(gen);

    if let Some(album_artist_name) = &meta.album_artist_name {
        tag_insert_text(&mut tag, TagFieldKey::AlbumArtist, album_artist_name.clone());
    }

    if let Some(artist_name) = &meta.artist_name {
        tag_insert_text(&mut tag, TagFieldKey::Artist, artist_name.clone());
    }

    if let Some(album_title) = &meta.album_title {
        tag_insert_text(&mut tag, TagFieldKey::Album, album_title.clone());
    }

    let year = match meta.year {
        Some(y) => Some(y),
        None => default_year,
    };
    if let Some(y) = year {
        // The modern generation has no bare year slot; this insert is a
        // no-op there, and its year lives in the recording date below.
        if matches!(gen, TagGeneration::Legacy) {
            tag_insert_text(&mut tag, TagFieldKey::Year, u64_to_dec(y as u64));
        }
        tag_insert_text(&mut tag, TagFieldKey::RecordingDate, u64_to_dec(y as u64));
    }

    if let Some(n) = meta.track_number {
        let text = match gen {
            TagGeneration::Modern => {
                let mut s = u64_to_dec(n as u64);
                proof {
                    reveal_strlit("/");
                }
                s.append("/");
                s.append(u64_to_dec(total_tracks as u64).as_str());
                proof {
                    assert(s@ =~= track_fraction(n, total_tracks));
                }
                s
            },
            TagGeneration::Legacy => u64_to_dec(n as u64),
        };
        tag_insert_text(&mut tag, TagFieldKey::TrackNumber, text);
    }

    if let Some(track_title) = &meta.track_title {
        tag_insert_text(&mut tag, TagFieldKey::Title, track_title.clone());
    }

    let genre = match &meta.genre {
        Some(g) => Some(g.clone()),
        None => clone_opt_string(default_genre),
    };
    if let Some(g) = genre {
        tag_insert_text(&mut tag, TagFieldKey::Genre, g);
    }

    proof {
        assert(tag_texts(tag) =~= written_texts(
            gen,
            *meta,
            default_year,
            *default_genre,
            total_tracks,
        ));
    }

    if let Some(cover_image) = cover_image {
        match picture_from_bytes(cover_image) {
            Ok(mut picture) => {
                mark_front_cover(&mut picture);
                tag_push_picture(&mut tag, picture);
            },
            Err(_) => {
                return Err(CleanerError::Lofty);
            },
        }
    }

    Ok(tag)
}

/// One step of the rewrite protocol.
#[derive(Clone, Copy, PartialEq, Eq, Structural, Debug)]
pub enum RewriteStep {
    /// Remove a legacy-generation tag, if one exists, and persist.
    RemoveLegacy,
    /// Remove a modern-generation tag, if one exists, and persist.
    RemoveModern,
    /// Build the fresh modern-generation tag and persist it.
    WriteModern,
    /// Build the fresh legacy-generation tag and persist it.
    WriteLegacy,
}

/// The rewrite protocol, in order: strip both generations before any
/// rebuild, and write the legacy generation after the modern one.
pub fn rewrite_steps() -> (r: Vec<RewriteStep>)
    ensures
        r@ =~= seq![
            RewriteStep::RemoveLegacy,
            RewriteStep::RemoveModern,
            RewriteStep::WriteModern,
            RewriteStep::WriteLegacy,
        ],
{
    let mut v: Vec<RewriteStep> = Vec::new();
    v.push(RewriteStep::RemoveLegacy);
    v.push(RewriteStep::RemoveModern);
    v.push(RewriteStep::WriteModern);
    v.push(RewriteStep::WriteLegacy);
    v
}

/// Round-trip law: reading the freshly written modern-generation tag back
/// yields exactly the resolved-and-defaulted inputs: string fields as
/// resolved, the year in the recording-date slot, and the track number as
/// a fraction whose denominator is the group's total track count. Fields
/// that resolved to nothing are absent.
pub proof fn lemma_rewrite_round_trip(
    meta: AudioFileMeta,
    default_year: Option<u32>,
    default_genre: Option<String>,
    total_tracks: u32,
)
    ensures
        ({
            let m = written_texts(
                TagGeneration::Modern,
                meta,
                default_year,
                default_genre,
                total_tracks,
            );
            &&& (meta.album_artist_name matches Some(a) ==> m.contains_key(TagFieldKey::AlbumArtist)
                && m[TagFieldKey::AlbumArtist] == a@)
            &&& (meta.album_artist_name is None ==> !m.contains_key(TagFieldKey::AlbumArtist))
            &&& (meta.artist_name matches Some(a) ==> m.contains_key(TagFieldKey::Artist)
                && m[TagFieldKey::Artist] == a@)
            &&& (meta.artist_name is None ==> !m.contains_key(TagFieldKey::Artist))
            &&& (meta.album_title matches Some(a) ==> m.contains_key(TagFieldKey::Album)
                && m[TagFieldKey::Album] == a@)
            &&& (meta.track_title matches Some(t) ==> m.contains_key(TagFieldKey::Title)
                && m[TagFieldKey::Title] == t@)
            &&& (opt_or(meta.year, default_year) matches Some(y) ==> m.contains_key(
                TagFieldKey::RecordingDate,
            ) && m[TagFieldKey::RecordingDate] == dec_digits(y as nat))
            &&& (opt_or(meta.year, default_year) is None ==> !m.contains_key(
                TagFieldKey::RecordingDate,
            ))
            &&& (meta.track_number matches Some(n) ==> m.contains_key(TagFieldKey::TrackNumber)
                && m[TagFieldKey::TrackNumber] == dec_digits(n as nat) + seq!['/'] + dec_digits(
                total_tracks as nat,
            ))
            &&& (meta.track_number is None ==> !m.contains_key(TagFieldKey::TrackNumber))
            &&& (opt_or(meta.genre.deep_view(), default_genre.deep_view()) matches Some(g)
                ==> m.contains_key(TagFieldKey::Genre) && m[TagFieldKey::Genre] == g)
            &&& !m.contains_key(TagFieldKey::Year)
        }),
{
}

} // verus!

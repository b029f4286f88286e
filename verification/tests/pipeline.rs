use music_cleaner::cleaner::{clean_files, SourceDir, TrackInput};
use music_cleaner::cover::{cover_candidates, get_cover_art_from_file, CoverRef, ImageFile};
use music_cleaner::error::CleanerError;
use music_cleaner::media::{Mode, OtherFile};
use music_cleaner::meta::{build_meta, infer_path_candidates, AudioFileType, TagValues};
use music_cleaner::paths::{
    decompose_album_path, decompose_artist_path, decompose_file_path, decompose_stem,
    match_album_name,
};
use music_cleaner::text::{replace_separators, u64_to_dec, u64_to_dec_padded};

fn path(parts: &[&str]) -> Vec<String> {
    parts.iter().map(|p| p.to_string()).collect()
}

fn no_tag() -> Option<TagValues> {
    None
}

fn tag(
    album_artist: Option<&str>,
    artist: Option<&str>,
    album: Option<&str>,
    year: Option<u32>,
    track: Option<u32>,
    title: Option<&str>,
    genre: Option<&str>,
) -> TagValues {
    TagValues {
        album_artist: album_artist.map(|s| s.to_string()),
        artist: artist.map(|s| s.to_string()),
        album: album.map(|s| s.to_string()),
        year,
        track,
        title: title.map(|s| s.to_string()),
        genre: genre.map(|s| s.to_string()),
    }
}

// Album-directory matching: a four-digit year, parenthesized or bare,
// yields title and year; no year yields neither.
#[test]
fn album_name_with_parenthesized_year() {
    let r = match_album_name("Abbey Road (1969)");
    assert!(matches!(r, Some((ref t, 1969)) if t == "Abbey Road"));
}

#[test]
fn album_name_with_bare_year() {
    let r = match_album_name("Abbey Road 1969");
    assert!(matches!(r, Some((ref t, 1969)) if t == "Abbey Road"));
}

#[test]
fn album_name_without_year() {
    assert!(match_album_name("Abbey Road").is_none());
}

#[test]
fn album_path_candidates() {
    let root = path(&["Root"]);
    let p = path(&["Root", "Artist", "Abbey Road (1969)", "01 Come Together.mp3"]);
    let (title, year) = decompose_album_path(&root, &p);
    assert_eq!(title.as_deref(), Some("Abbey Road"));
    assert_eq!(year, Some(1969));
}

#[test]
fn album_path_skips_root_itself() {
    let root = path(&["Music 1999"]);
    let p = path(&["Music 1999", "01 Song.mp3"]);
    let (title, year) = decompose_album_path(&root, &p);
    assert_eq!(title, None);
    assert_eq!(year, None);
}

// File-stem matching: leading digits and a separator yield number and
// title; a stem without them is all title.
#[test]
fn stem_with_number() {
    let (n, t) = decompose_stem("03 Come Together");
    assert_eq!(n, Some(3));
    assert_eq!(t, "Come Together");
}

#[test]
fn stem_without_number() {
    let (n, t) = decompose_stem("Come Together");
    assert_eq!(n, None);
    assert_eq!(t, "Come Together");
}

#[test]
fn stem_with_dot_and_dash_separators() {
    let (n, t) = decompose_stem("7. - Weird Name");
    assert_eq!(n, Some(7));
    assert_eq!(t, "Weird Name");
    let (n2, t2) = decompose_stem("12 - Song");
    assert_eq!(n2, Some(12));
    assert_eq!(t2, "Song");
}

#[test]
fn stem_with_overflowing_number_keeps_title() {
    let (n, t) = decompose_stem("99999999999999999999 Song");
    assert_eq!(n, None);
    assert_eq!(t, "Song");
}

#[test]
fn artist_two_levels_above_unless_root() {
    let root = path(&["Root"]);
    let p = path(&["Root", "The Beatles", "Abbey Road (1969)", "01 Come Together.mp3"]);
    assert_eq!(decompose_artist_path(&root, &p).as_deref(), Some("The Beatles"));
    let shallow = path(&["Root", "Album", "01 Song.mp3"]);
    assert_eq!(decompose_artist_path(&root, &shallow), None);
}

#[test]
fn path_candidates_all_at_once() {
    let root = path(&["Root"]);
    let p = path(&["Root", "The Beatles", "Abbey Road (1969)", "03 Come Together.mp3"]);
    let c = infer_path_candidates(&root, &p);
    assert_eq!(c.artist.as_deref(), Some("The Beatles"));
    assert_eq!(c.album_title.as_deref(), Some("Abbey Road"));
    assert_eq!(c.album_year, Some(1969));
    assert_eq!(c.track_number, Some(3));
    assert_eq!(c.track_title.as_deref(), Some("Come Together"));
}

#[test]
fn container_kind_from_extension() {
    let (_, _, kind) = decompose_file_path(&path(&["a", "b", "Song.MP3"]));
    assert_eq!(kind, Some(AudioFileType::Mp3));
    let (_, _, kind2) = decompose_file_path(&path(&["a", "Song.FlAc"]));
    assert_eq!(kind2, Some(AudioFileType::Flac));
    let (_, _, kind3) = decompose_file_path(&path(&["a", "Song.ogg"]));
    assert_eq!(kind3, None);
    let (_, _, kind4) = decompose_file_path(&path(&["a", "Song"]));
    assert_eq!(kind4, None);
}

// Precedence: an embedded field always beats the path candidate.
#[test]
fn embedded_fields_win_over_path() {
    let root = path(&["Root"]);
    let p = path(&["Root", "Dir Artist", "Dir Album (1999)", "05 Dir Title.mp3"]);
    let t = tag(
        Some(" Tag AA "),
        Some("Tag Artist"),
        Some(" Tag Album "),
        Some(2010),
        Some(7),
        Some("Tag Title"),
        Some(" Rock "),
    );
    let m = build_meta(&root, &p, &Some(t));
    assert_eq!(m.album_artist_name.as_deref(), Some("Tag AA"));
    assert_eq!(m.artist_name.as_deref(), Some("Tag Artist"));
    assert_eq!(m.album_title.as_deref(), Some("Tag Album"));
    assert_eq!(m.year, Some(2010));
    assert_eq!(m.track_number, Some(7));
    assert_eq!(m.track_title.as_deref(), Some("Tag Title"));
    assert_eq!(m.genre.as_deref(), Some("Rock"));
}

#[test]
fn album_artist_falls_back_to_artist_then_path() {
    let root = path(&["Root"]);
    let p = path(&["Root", "Dir Artist", "Dir Album (1999)", "05 Dir Title.mp3"]);
    let t = tag(None, Some("Only Artist"), None, None, None, None, None);
    let m = build_meta(&root, &p, &Some(t));
    assert_eq!(m.album_artist_name.as_deref(), Some("Only Artist"));
    let t2 = tag(None, None, None, None, None, None, None);
    let m2 = build_meta(&root, &p, &Some(t2));
    assert_eq!(m2.album_artist_name.as_deref(), Some("Dir Artist"));
}

// No tag at all: every field comes from the path, genre stays absent.
#[test]
fn no_tag_falls_back_to_path() {
    let root = path(&["Root"]);
    let p = path(&["Root", "Dir Artist", "Dir Album (1999)", "05 Dir Title.mp3"]);
    let m = build_meta(&root, &p, &no_tag());
    assert_eq!(m.album_artist_name.as_deref(), Some("Dir Artist"));
    assert_eq!(m.artist_name.as_deref(), Some("Dir Artist"));
    assert_eq!(m.album_title.as_deref(), Some("Dir Album"));
    assert_eq!(m.year, Some(1999));
    assert_eq!(m.track_number, Some(5));
    assert_eq!(m.track_title.as_deref(), Some("Dir Title"));
    assert_eq!(m.genre, None);
    assert_eq!(m.audio_file_type, Some(AudioFileType::Mp3));
}

fn img(parts: &[&str], dims: Option<(u32, u32)>) -> ImageFile {
    ImageFile::new(path(parts), dims)
}

// Cover selection: a lone image wins regardless of name; the chain then
// tries exact names, partial names, album-title matches and the widest
// square; selection is repeatable.
#[test]
fn lone_image_wins_regardless_of_name() {
    let images = vec![img(&["d", "weird-name.png"], None)];
    let titles: Vec<String> = Vec::new();
    assert_eq!(get_cover_art_from_file(&images, &titles), Some(0));
}

#[test]
fn exact_name_beats_partial_name() {
    let images = vec![
        img(&["d", "my cover art.png"], None),
        img(&["d", "COVER.jpg"], None),
        img(&["d", "front.png"], None),
    ];
    let titles: Vec<String> = Vec::new();
    assert_eq!(get_cover_art_from_file(&images, &titles), Some(1));
}

#[test]
fn partial_name_match() {
    let images = vec![img(&["d", "a.png"], None), img(&["d", "my cover art.png"], None)];
    let titles: Vec<String> = Vec::new();
    assert_eq!(get_cover_art_from_file(&images, &titles), Some(1));
}

#[test]
fn album_title_match() {
    let images = vec![
        img(&["d", "something.png"], None),
        img(&["d", "Abbey Road deluxe.png"], None),
    ];
    let titles = vec!["abbey road".to_string()];
    assert_eq!(get_cover_art_from_file(&images, &titles), Some(1));
}

#[test]
fn widest_square_image_wins() {
    let images = vec![
        img(&["d", "a.png"], Some((500, 500))),
        img(&["d", "b.png"], Some((700, 300))),
        img(&["d", "c.png"], Some((600, 600))),
        img(&["d", "e.png"], Some((600, 600))),
    ];
    let titles: Vec<String> = Vec::new();
    assert_eq!(get_cover_art_from_file(&images, &titles), Some(2));
}

#[test]
fn no_cover_when_nothing_qualifies() {
    let images = vec![img(&["d", "a.png"], Some((10, 20))), img(&["d", "b.png"], None)];
    let titles: Vec<String> = Vec::new();
    assert_eq!(get_cover_art_from_file(&images, &titles), None);
}

#[test]
fn selection_is_repeatable() {
    let images = vec![
        img(&["d", "a.png"], Some((500, 500))),
        img(&["d", "cover art.png"], None),
    ];
    let titles = vec!["x".to_string()];
    let first = get_cover_art_from_file(&images, &titles);
    let second = get_cover_art_from_file(&images, &titles);
    assert_eq!(first, second);
    assert_eq!(first, Some(1));
}

#[test]
fn embedded_covers_follow_file_choice() {
    let images: Vec<ImageFile> = Vec::new();
    let titles: Vec<String> = Vec::new();
    let flags = vec![false, true, true];
    let c = cover_candidates(&images, &titles, &flags);
    assert_eq!(c, vec![CoverRef::TagAt(1), CoverRef::TagAt(2)]);

    let images2 = vec![img(&["d", "cover.png"], None)];
    let c2 = cover_candidates(&images2, &titles, &flags);
    assert_eq!(c2, vec![CoverRef::FileAt(0), CoverRef::TagAt(1), CoverRef::TagAt(2)]);
}

// Formatting helpers.
#[test]
fn decimal_formatting_and_padding() {
    assert_eq!(u64_to_dec(0), "0");
    assert_eq!(u64_to_dec(1234), "1234");
    assert_eq!(u64_to_dec_padded(3, 2), "03");
    assert_eq!(u64_to_dec_padded(123, 2), "123");
}

#[test]
fn separators_are_replaced() {
    assert_eq!(replace_separators("AC/DC"), "AC-DC");
    assert_eq!(replace_separators("plain"), "plain");
}

#[test]
fn error_messages() {
    assert_eq!(CleanerError::Io.message(), "io failure");
    assert_eq!(CleanerError::Lofty.message(), "failed to process tags");
    assert_eq!(CleanerError::Zip.message(), "failed to process zip");
    assert_eq!(CleanerError::Unrar.message(), "failed to process rar");
    assert_eq!(CleanerError::MissingFileExtension.message(), "missing file extension");
    assert_eq!(CleanerError::UnexpectedFileExtension.message(), "unexpected file extension");
    assert_eq!(CleanerError::ImageDecode.message(), "failed to process image");
    assert_eq!(CleanerError::IncompleteMetadata.message(), "missing track number or title");
}

#[test]
fn mode_labels() {
    assert_eq!(Mode::Archives.label(), "archives");
    assert_eq!(Mode::Files.label(), "Files");
}

#[test]
fn other_file_keeps_path() {
    let f = OtherFile::new(path(&["a", "b.txt"]));
    assert_eq!(f.path, path(&["a", "b.txt"]));
}

#[test]
fn extension_of_container_kind() {
    assert_eq!(AudioFileType::Mp3.to_extension(), "mp3");
    assert_eq!(AudioFileType::Flac.to_extension(), "flac");
}

// End-to-end planning scenario: a tagless track under
// `Artist/Album (2001)` with a colocated cover image.
#[test]
fn plan_end_to_end() {
    let root = path(&["Root"]);
    let dir = SourceDir {
        tracks: vec![TrackInput {
            path: path(&["Root", "Artist", "Album (2001)", "01 Intro.mp3"]),
            tag: None,
            has_front_cover: false,
        }],
        images: vec![img(&["Root", "Artist", "Album (2001)", "cover.jpg"], None)],
    };
    let plans = clean_files(&root, &vec![dir]);
    assert_eq!(plans.len(), 1);
    let plan = &plans[0];
    assert_eq!(plan.groups.len(), 1);
    let g = &plan.groups[0];
    assert_eq!(g.artist_dir, "Artist");
    assert_eq!(g.album_dir, "Album");
    assert_eq!(g.total_tracks, 1);
    assert_eq!(g.track_width, 2);
    assert_eq!(g.title_width, 2 + 1 + 5 + 1 + 3);
    assert_eq!(g.default_year, Some(2001));
    assert_eq!(g.default_genre, None);
    assert_eq!(g.cover_candidates, vec![CoverRef::FileAt(0)]);
    assert_eq!(g.tracks.len(), 1);
    assert_eq!(g.tracks[0].source_index, 0);
    assert_eq!(g.tracks[0].name.as_deref().ok(), Some("01 Intro.mp3"));
    let m = &plan.files[0].meta;
    assert_eq!(m.album_artist_name.as_deref(), Some("Artist"));
    assert_eq!(m.album_title.as_deref(), Some("Album"));
    assert_eq!(m.year, Some(2001));
    assert_eq!(m.track_number, Some(1));
    assert_eq!(m.track_title.as_deref(), Some("Intro"));
}

// Determinism: planning twice over an unmodified input yields identical
// group order and identical destination names.
#[test]
fn planning_twice_is_identical() {
    let root = path(&["Root"]);
    let make_dirs = || {
        vec![SourceDir {
            tracks: vec![
                TrackInput {
                    path: path(&["Root", "B Artist", "Later (2002)", "02 Two.mp3"]),
                    tag: None,
                    has_front_cover: false,
                },
                TrackInput {
                    path: path(&["Root", "A Artist", "First (2001)", "01 One.mp3"]),
                    tag: None,
                    has_front_cover: true,
                },
                TrackInput {
                    path: path(&["Root", "A Artist", "First (2001)", "Extra.mp3"]),
                    tag: None,
                    has_front_cover: false,
                },
            ],
            images: vec![],
        }]
    };
    let p1 = clean_files(&root, &make_dirs());
    let p2 = clean_files(&root, &make_dirs());
    assert_eq!(p1.len(), p2.len());
    let keys1: Vec<(String, String)> = p1[0]
        .groups
        .iter()
        .map(|g| (g.artist_dir.clone(), g.album_dir.clone()))
        .collect();
    let keys2: Vec<(String, String)> = p2[0]
        .groups
        .iter()
        .map(|g| (g.artist_dir.clone(), g.album_dir.clone()))
        .collect();
    assert_eq!(keys1, keys2);
    assert_eq!(
        keys1,
        vec![
            ("A Artist".to_string(), "First".to_string()),
            ("B Artist".to_string(), "Later".to_string()),
        ]
    );
    for (g1, g2) in p1[0].groups.iter().zip(p2[0].groups.iter()) {
        let n1: Vec<_> = g1.tracks.iter().map(|t| t.name.clone()).collect();
        let n2: Vec<_> = g2.tracks.iter().map(|t| t.name.clone()).collect();
        assert_eq!(n1, n2);
    }
    // numbered tracks first, numberless after, in discovery order
    let first_group = &p1[0].groups[0];
    assert_eq!(first_group.tracks[0].source_index, 1);
    assert_eq!(first_group.tracks[1].source_index, 2);
    assert_eq!(
        first_group.tracks[1].name.clone().err(),
        Some(CleanerError::IncompleteMetadata)
    );
}

#[test]
fn unknown_placeholders_group_unresolvable_tracks() {
    let root = path(&["Root"]);
    let dir = SourceDir {
        tracks: vec![TrackInput {
            path: path(&["Root", "03 Song.mp3"]),
            tag: None,
            has_front_cover: false,
        }],
        images: vec![],
    };
    let plans = clean_files(&root, &vec![dir]);
    let g = &plans[0].groups[0];
    assert_eq!(g.artist_dir, "[unknown]");
    assert_eq!(g.album_dir, "[unknown]");
    assert_eq!(g.tracks[0].name.as_deref().ok(), Some("03 Song.mp3"));
}

#[test]
fn unsupported_and_missing_extensions_fail_planning() {
    let root = path(&["Root"]);
    let dir = SourceDir {
        tracks: vec![
            TrackInput {
                path: path(&["Root", "A", "B (2000)", "01 X.ogg"]),
                tag: None,
                has_front_cover: false,
            },
            TrackInput {
                path: path(&["Root", "A", "B (2000)", "02 Y"]),
                tag: None,
                has_front_cover: false,
            },
        ],
        images: vec![],
    };
    let plans = clean_files(&root, &vec![dir]);
    let g = &plans[0].groups[0];
    assert_eq!(g.tracks[0].name.clone().err(), Some(CleanerError::UnexpectedFileExtension));
    assert_eq!(g.tracks[1].name.clone().err(), Some(CleanerError::MissingFileExtension));
}

#[test]
fn empty_input_plans_nothing() {
    let root = path(&["Root"]);
    let plans = clean_files(&root, &Vec::new());
    assert!(plans.is_empty());
    let empty_dir = SourceDir { tracks: vec![], images: vec![] };
    let plans2 = clean_files(&root, &vec![empty_dir]);
    assert_eq!(plans2.len(), 1);
    assert!(plans2[0].groups.is_empty());
}

#[test]
fn equal_track_numbers_keep_discovery_order() {
    let root = path(&["Root"]);
    let dir = SourceDir {
        tracks: vec![
            TrackInput {
                path: path(&["Root", "A", "B (2000)", "01 First.mp3"]),
                tag: None,
                has_front_cover: false,
            },
            TrackInput {
                path: path(&["Root", "A", "B (2000)", "01 Second.mp3"]),
                tag: None,
                has_front_cover: false,
            },
        ],
        images: vec![],
    };
    let plans = clean_files(&root, &vec![dir]);
    let g = &plans[0].groups[0];
    assert_eq!(g.tracks[0].source_index, 0);
    assert_eq!(g.tracks[1].source_index, 1);
    assert_eq!(g.tracks[0].name.as_deref().ok(), Some("01 First.mp3"));
    assert_eq!(g.tracks[1].name.as_deref().ok(), Some("01 Second.mp3"));
}

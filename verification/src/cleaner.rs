//! The cleaning plan: everything the run decides, computed up front.
//!
//! For each scanned source directory the cleaner resolves every track,
//! partitions the tracks into (artist, album) groups, orders each group,
//! derives the group's defaults, widths and cover-candidate order, and
//! computes each track's destination file name. The surrounding
//! application then only executes the plan: it creates directories,
//! copies bytes, decodes the first workable cover candidate, prompts for
//! missing defaults, and persists the rewritten tags.

use vstd::prelude::*;

use crate::cover::{
    album_titles_lower, cover_candidates, cover_candidates_spec, cover_file_choice, CoverRef,
    ImageFile,
};
use crate::error::CleanerError;
use crate::group::{
    album_key_of, artist_key_of, group_is_filter, group_tracks, groups_sorted,
    lemma_sorted_pairs_unique, lemma_track_order_unique, pair_lt, pairs_sorted,
    sort_tracks_by_number, track_ord_lt, track_sort_key,
};
use crate::meta::{
    path_container_kind, path_track_number, path_track_title, resolved_album_artist,
    resolved_album_title, resolved_artist, resolved_genre, resolved_track_number,
    resolved_track_title, resolved_year, AudioFile, TagValues,
};
use crate::naming::{
    add_width, format_track_file_name, get_max_extension_length, get_max_title_length,
    get_max_track_num_length, max_ext_len_spec, max_title_len_spec, track_file_name_spec,
    track_num_width_spec,
};
use crate::paths::{album_candidates, artist_candidate, ext_of};

verus! {

/// One discovered track, as the scan hands it over: its path below the
/// scan root, its primary tag's field values (when the container has
/// one), and whether that tag embeds a front-cover picture.
pub struct TrackInput {
    pub path: Vec<String>,
    pub tag: Option<TagValues>,
    pub has_front_cover: bool,
}

/// One scanned source directory: its audio tracks and the image files
/// that sit beside them.
pub struct SourceDir {
    pub tracks: Vec<TrackInput>,
    pub images: Vec<ImageFile>,
}

/// One track's slot in a group plan: which input track it is, and the
/// destination file name computed for it, or why none could be.
pub struct TrackPlan {
    pub source_index: usize,
    pub name: Result<String, CleanerError>,
}

/// One album group's plan.
pub struct GroupPlan {
    /// Destination directory components: artist, then album.
    pub artist_dir: String,
    pub album_dir: String,
    /// The group's cardinality, written into every track's tag.
    pub total_tracks: u32,
    /// Zero-padding width for track numbers in file names.
    pub track_width: usize,
    /// Display width of the longest track file name, for aligned
    /// reporting.
    pub title_width: usize,
    /// The year and genre defaults found in the group's own tracks; an
    /// absent one is to be supplied externally, or left absent.
    pub default_year: Option<u32>,
    pub default_genre: Option<String>,
    /// Cover candidates, in the order the decoder should try them.
    pub cover_candidates: Vec<CoverRef>,
    /// The group's tracks, ordered by track number.
    pub tracks: Vec<TrackPlan>,
}

/// One directory's plan: the resolved tracks and the groups over them.
pub struct DirPlan {
    pub files: Vec<AudioFile>,
    pub groups: Vec<GroupPlan>,
}

/// The track was resolved from exactly this input.
pub open spec fn resolved_from(f: AudioFile, root: Seq<Seq<char>>, ti: TrackInput) -> bool {
    &&& f.path@ == ti.path@
    &&& f.meta.album_artist_name.deep_view() == resolved_album_artist(
        ti.tag,
        artist_candidate(root, ti.path.deep_view()),
    )
    &&& f.meta.artist_name.deep_view() == resolved_artist(
        ti.tag,
        artist_candidate(root, ti.path.deep_view()),
    )
    &&& f.meta.album_title.deep_view() == resolved_album_title(
        ti.tag,
        album_candidates(root, ti.path.deep_view()).0,
    )
    &&& f.meta.year == resolved_year(ti.tag, album_candidates(root, ti.path.deep_view()).1)
    &&& f.meta.track_number == resolved_track_number(
        ti.tag,
        path_track_number(ti.path.deep_view()),
    )
    &&& f.meta.track_title.deep_view() == resolved_track_title(
        ti.tag,
        path_track_title(ti.path.deep_view()),
    )
    &&& f.meta.genre.deep_view() == resolved_genre(ti.tag)
    &&& f.meta.audio_file_type == path_container_kind(ti.path.deep_view())
}

/// The extension of a track's own file name, if any.
pub open spec fn path_ext(path: Seq<Seq<char>>) -> Option<Seq<char>> {
    if path.len() > 0 {
        ext_of(path.last())
    } else {
        None
    }
}

/// One planned track is right: it points at a track of the file list,
/// and either carries the destination name the naming rules give it, or
/// says exactly why the track cannot be written: no usable container
/// kind first, then missing number or title.
pub open spec fn track_plan_ok(tp: TrackPlan, files: Seq<AudioFile>, width: nat) -> bool {
    &&& (tp.source_index as int) < files.len()
    &&& {
        let f = files[tp.source_index as int];
        match f.meta.audio_file_type {
            None => match path_ext(f.path.deep_view()) {
                None => tp.name matches Err(e) && e is MissingFileExtension,
                Some(_) => tp.name matches Err(e) && e is UnexpectedFileExtension,
            },
            Some(kind) => if f.meta.track_number is Some && f.meta.track_title is Some {
                tp.name matches Ok(n) && n@ == track_file_name_spec(
                    width,
                    f.meta.track_number->0,
                    f.meta.track_title->0@,
                    kind,
                )
            } else {
                tp.name matches Err(e) && e is IncompleteMetadata
            },
        }
    }
}

/// The first resolved year among the given tracks, in order.
pub open spec fn first_year_spec(files: Seq<AudioFile>, idxs: Seq<usize>) -> Option<u32>
    decreases idxs.len(),
{
    if idxs.len() == 0 {
        None
    } else {
        match files[idxs[0] as int].meta.year {
            Some(y) => Some(y),
            None => first_year_spec(files, idxs.drop_first()),
        }
    }
}

/// The first resolved genre among the given tracks, in order.
pub open spec fn first_genre_spec(files: Seq<AudioFile>, idxs: Seq<usize>) -> Option<Seq<char>>
    decreases idxs.len(),
{
    if idxs.len() == 0 {
        None
    } else {
        match files[idxs[0] as int].meta.genre {
            Some(g) => Some(g@),
            None => first_genre_spec(files, idxs.drop_first()),
        }
    }
}

/// The front-cover flags of the given tracks, in order.
pub open spec fn flags_of(tracks: Seq<TrackInput>, idxs: Seq<usize>) -> Seq<bool> {
    idxs.map_values(|t: usize| tracks[t as int].has_front_cover)
}

/// One group plan is right with respect to the resolved file list and
/// the directory's inputs.
pub open spec fn group_plan_ok(gp: GroupPlan, files: Seq<AudioFile>, dir: SourceDir) -> bool {
    &&& gp.tracks.len() == gp.total_tracks
    &&& gp.track_width == track_num_width_spec(gp.total_tracks as nat)
    &&& {
        let srcs = gp.tracks@.map_values(|tp: TrackPlan| tp.source_index);
        let exact = gp.track_width + 1 + max_title_len_spec(files, srcs) + 1 + max_ext_len_spec(
            files,
            srcs,
        );
        gp.title_width == if exact <= usize::MAX {
            exact
        } else {
            usize::MAX as int
        }
    }
    &&& forall|p: int| 0 <= p < gp.tracks@.len() ==> track_plan_ok(
        #[trigger] gp.tracks@[p],
        files,
        gp.track_width as nat,
    )
    // ordered by track number, ties in discovery order, numberless last
    &&& forall|p: int, q: int|
        0 <= p < q < gp.tracks@.len() ==> track_ord_lt(
            files,
            (#[trigger] gp.tracks@[p]).source_index as int,
            (#[trigger] gp.tracks@[q]).source_index as int,
        )
    // exactly the tracks bearing this group's keys
    &&& forall|p: int|
        0 <= p < gp.tracks@.len() ==> artist_key_of(
            files[(#[trigger] gp.tracks@[p]).source_index as int].meta,
        ) == gp.artist_dir@ && album_key_of(files[gp.tracks@[p].source_index as int].meta)
            == gp.album_dir@
    &&& forall|t: int|
        0 <= t < files.len() && artist_key_of((#[trigger] files[t]).meta) == gp.artist_dir@
            && album_key_of(files[t].meta) == gp.album_dir@ ==> exists|p: int|
            0 <= p < gp.tracks@.len() && (#[trigger] gp.tracks@[p]).source_index == t
    // group-level defaults, from the ordered tracks
    &&& gp.default_year == first_year_spec(files, gp.tracks@.map_values(|tp: TrackPlan| tp.source_index))
    &&& gp.default_genre.deep_view() == first_genre_spec(
        files,
        gp.tracks@.map_values(|tp: TrackPlan| tp.source_index),
    )
    // cover candidates, in decode order
    &&& gp.cover_candidates@ == cover_candidates_spec(
        cover_file_choice(
            dir.images@,
            album_titles_lower(files, gp.tracks@.map_values(|tp: TrackPlan| tp.source_index)),
        ),
        flags_of(dir.tracks@, gp.tracks@.map_values(|tp: TrackPlan| tp.source_index)),
    )
}

/// The groups of a directory plan are keyed and ordered like the sorted
/// group partition.
pub open spec fn dir_plan_ok(plan: DirPlan, root: Seq<Seq<char>>, dir: SourceDir) -> bool {
    &&& plan.files@.len() == dir.tracks@.len()
    &&& forall|t: int|
        0 <= t < dir.tracks@.len() ==> resolved_from(
            #[trigger] plan.files@[t],
            root,
            dir.tracks@[t],
        )
    &&& forall|a: int, b: int|
        0 <= a < b < plan.groups@.len() ==> pair_lt(
            (#[trigger] plan.groups@[a]).artist_dir@,
            plan.groups@[a].album_dir@,
            (#[trigger] plan.groups@[b]).artist_dir@,
            plan.groups@[b].album_dir@,
        )
    &&& forall|g: int|
        0 <= g < plan.groups@.len() ==> group_plan_ok(#[trigger] plan.groups@[g], plan.files@, dir)
    &&& forall|g: int| 0 <= g < plan.groups@.len() ==> (#[trigger] plan.groups@[g]).total_tracks > 0
    // every track lands in some group
    &&& forall|t: int|
        0 <= t < plan.files@.len() ==> exists|g: int|
            0 <= g < plan.groups@.len() && (#[trigger] plan.groups@[g]).artist_dir@
                == artist_key_of((#[trigger] plan.files@[t]).meta) && plan.groups@[g].album_dir@
                == album_key_of(plan.files@[t].meta)
}

proof fn lemma_increasing_index_lower_bound(s: Seq<usize>, p: int)
    requires
        forall|a: int, b: int| 0 <= a < b < s.len() ==> s[a] < s[b],
        0 <= p < s.len(),
    ensures
        s[p] >= p,
    decreases p,
{
    if p > 0 {
        lemma_increasing_index_lower_bound(s, p - 1);
    }
}

/// Resolves every track of one directory against the scan root.
fn resolve_dir(root_path: &Vec<String>, dir: &SourceDir) -> (files: Vec<AudioFile>)
    ensures
        files@.len() == dir.tracks@.len(),
        forall|t: int|
            0 <= t < dir.tracks@.len() ==> resolved_from(
                #[trigger] files@[t],
                root_path.deep_view(),
                dir.tracks@[t],
            ),
{
    let mut files: Vec<AudioFile> = Vec::new();
    let mut t: usize = 0;
    while t < dir.tracks.len()
        invariant
            0 <= t <= dir.tracks@.len(),
            files@.len() == t,
            forall|u: int|
                0 <= u < t ==> resolved_from(
                    #[trigger] files@[u],
                    root_path.deep_view(),
                    dir.tracks@[u],
                ),
        decreases dir.tracks@.len() - t,
    {
        let mut path: Vec<String> = Vec::new();
        let src = &dir.tracks[t].path;
        let mut k: usize = 0;
        while k < src.len()
            invariant
                0 <= k <= src@.len(),
                path@.len() == k,
                forall|m: int| 0 <= m < k ==> path@[m] == src@[m],
            decreases src@.len() - k,
        {
            path.push(src[k].clone());
            k = k + 1;
        }
        proof {
            assert(path@ =~= src@);
        }
        let file = AudioFile::new(root_path, path, &dir.tracks[t].tag);
        files.push(file);
        proof {
            assert(resolved_from(files@[t as int], root_path.deep_view(), dir.tracks@[t as int]));
        }
        t = t + 1;
    }
    files
}

/// Plans one track of a group.
fn plan_track(files: &Vec<AudioFile>, idx: usize, width: usize) -> (tp: TrackPlan)
    requires
        (idx as int) < files@.len(),
    ensures
        tp.source_index == idx,
        track_plan_ok(tp, files@, width as nat),
{
    let f = &files[idx];
    let name: Result<String, CleanerError> = match f.meta.audio_file_type {
        None => {
            if f.path.len() == 0 {
                Err(CleanerError::MissingFileExtension)
            } else {
                let (_stem, ext) = crate::paths::split_file_name(
                    f.path[f.path.len() - 1].as_str(),
                );
                proof {
                    assert(f.path.deep_view().last() == f.path@[f.path@.len() - 1]@);
                }
                match ext {
                    None => Err(CleanerError::MissingFileExtension),
                    Some(_) => Err(CleanerError::UnexpectedFileExtension),
                }
            }
        },
        Some(kind) => {
            match (&f.meta.track_number, &f.meta.track_title) {
                (Some(n), Some(title)) => Ok(
                    format_track_file_name(width, *n, title.as_str(), kind),
                ),
                _ => Err(CleanerError::IncompleteMetadata),
            }
        },
    };
    TrackPlan { source_index: idx, name }
}

/// The year default for a group: the first resolved year scanning the
/// ordered tracks.
fn find_default_year(files: &Vec<AudioFile>, idxs: &Vec<usize>) -> (r: Option<u32>)
    requires
        forall|p: int| 0 <= p < idxs@.len() ==> (#[trigger] idxs@[p]) < files@.len(),
    ensures
        r == first_year_spec(files@, idxs@),
{
    let mut i: usize = 0;
    proof {
        assert(idxs@.skip(0) =~= idxs@);
    }
    while i < idxs.len()
        invariant
            0 <= i <= idxs@.len(),
            forall|p: int| 0 <= p < idxs@.len() ==> (#[trigger] idxs@[p]) < files@.len(),
            first_year_spec(files@, idxs@) == first_year_spec(files@, idxs@.skip(i as int)),
        decreases idxs@.len() - i,
    {
        proof {
            assert(idxs@.skip(i as int)[0] == idxs@[i as int]);
            assert(idxs@.skip(i as int).drop_first() =~= idxs@.skip(i as int + 1));
        }
        match files[idxs[i]].meta.year {
            Some(y) => {
                return Some(y);
            },
            None => {},
        }
        i = i + 1;
    }
    None
}

/// The genre default for a group: the first resolved genre scanning the
/// ordered tracks.
fn find_default_genre(files: &Vec<AudioFile>, idxs: &Vec<usize>) -> (r: Option<String>)
    requires
        forall|p: int| 0 <= p < idxs@.len() ==> (#[trigger] idxs@[p]) < files@.len(),
    ensures
        r.deep_view() == first_genre_spec(files@, idxs@),
{
    let mut i: usize = 0;
    proof {
        assert(idxs@.skip(0) =~= idxs@);
    }
    while i < idxs.len()
        invariant
            0 <= i <= idxs@.len(),
            forall|p: int| 0 <= p < idxs@.len() ==> (#[trigger] idxs@[p]) < files@.len(),
            first_genre_spec(files@, idxs@) == first_genre_spec(files@, idxs@.skip(i as int)),
        decreases idxs@.len() - i,
    {
        proof {
            assert(idxs@.skip(i as int)[0] == idxs@[i as int]);
            assert(idxs@.skip(i as int).drop_first() =~= idxs@.skip(i as int + 1));
        }
        match &files[idxs[i]].meta.genre {
            Some(g) => {
                return Some(g.clone());
            },
            None => {},
        }
        i = i + 1;
    }
    None
}

/// The front-cover flags of the given tracks, in order.
fn collect_flags(tracks: &Vec<TrackInput>, idxs: &Vec<usize>) -> (r: Vec<bool>)
    requires
        forall|p: int| 0 <= p < idxs@.len() ==> (#[trigger] idxs@[p]) < tracks@.len(),
    ensures
        r@ == flags_of(tracks@, idxs@),
{
    let mut r: Vec<bool> = Vec::new();
    let mut i: usize = 0;
    while i < idxs.len()
        invariant
            0 <= i <= idxs@.len(),
            forall|p: int| 0 <= p < idxs@.len() ==> (#[trigger] idxs@[p]) < tracks@.len(),
            r@ =~= flags_of(tracks@, idxs@.take(i as int)),
        decreases idxs@.len() - i,
    {
        r.push(tracks[idxs[i]].has_front_cover);
        proof {
            assert(r@ =~= flags_of(tracks@, idxs@.take(i + 1)));
        }
        i = i + 1;
    }
    proof {
        assert(idxs@.take(idxs@.len() as int) =~= idxs@);
    }
    r
}

/// Plans one directory: resolves its tracks, partitions and orders them,
/// and derives every per-group value the execution needs.
pub fn plan_directory(root_path: &Vec<String>, dir: &SourceDir) -> (plan: DirPlan)
    requires
        dir.tracks@.len() <= u32::MAX,
    ensures
        dir_plan_ok(plan, root_path.deep_view(), *dir),
{
    let files = resolve_dir(root_path, dir);
    let groups = group_tracks(&files);
    let mut plans: Vec<GroupPlan> = Vec::new();
    let mut g: usize = 0;
    while g < groups.len()
        invariant
            0 <= g <= groups@.len(),
            plans@.len() == g,
            files@.len() == dir.tracks@.len(),
            dir.tracks@.len() <= u32::MAX,
            forall|t: int|
                0 <= t < dir.tracks@.len() ==> resolved_from(
                    #[trigger] files@[t],
                    root_path.deep_view(),
                    dir.tracks@[t],
                ),
            groups_sorted(groups@),
            forall|k: int|
                0 <= k < groups@.len() ==> group_is_filter(#[trigger] groups@[k], files@),
            crate::group::groups_cover(groups@, files@),
            forall|k: int|
                0 <= k < groups@.len() ==> (#[trigger] groups@[k].track_indices@).len() > 0,
            forall|a: int|
                0 <= a < g ==> (#[trigger] plans@[a]).artist_dir@ == groups@[a].artist_name@
                    && plans@[a].album_dir@ == groups@[a].album_title@,
            forall|a: int| 0 <= a < g ==> group_plan_ok(#[trigger] plans@[a], files@, *dir),
            forall|a: int| 0 <= a < g ==> (#[trigger] plans@[a]).total_tracks > 0,
        decreases groups@.len() - g,
    {
        let group = &groups[g];
        let sorted = sort_tracks_by_number(&files, &group.track_indices);
        proof {
            assert forall|p: int| 0 <= p < sorted@.len() implies (#[trigger] sorted@[p])
                < files@.len() by {
                assert(group.track_indices@.contains(sorted@[p]));
                let m = choose|m: int|
                    0 <= m < group.track_indices@.len() && group.track_indices@[m] == sorted@[p];
                assert(group.track_indices@[m] < files@.len());
            }
            if sorted@.len() > files@.len() {
                lemma_increasing_index_lower_bound(
                    group.track_indices@,
                    group.track_indices@.len() - 1,
                );
            }
            assert(group.track_indices@.len() <= files@.len());
            assert(sorted@.len() <= u32::MAX);
            assert(sorted@.len() > 0) by {
                assert(group.track_indices@.len() > 0);
                assert(group.track_indices@.contains(group.track_indices@[0]));
                assert(sorted@.contains(group.track_indices@[0]));
            }
        }
        let total: u32 = sorted.len() as u32;
        let width = get_max_track_num_length(sorted.len());
        let title_width = add_width(
            add_width(add_width(add_width(width, 1), get_max_title_length(&files, &sorted)), 1),
            get_max_extension_length(&files, &sorted),
        );
        let default_year = find_default_year(&files, &sorted);
        let default_genre = find_default_genre(&files, &sorted);
        let titles = crate::cover::collect_album_titles(&files, &sorted);
        let flags = collect_flags(&dir.tracks, &sorted);
        let candidates = cover_candidates(&dir.images, &titles, &flags);
        let mut tracks: Vec<TrackPlan> = Vec::new();
        let mut p: usize = 0;
        while p < sorted.len()
            invariant
                0 <= p <= sorted@.len(),
                tracks@.len() == p,
                width == track_num_width_spec(sorted@.len() as nat),
                forall|m: int| 0 <= m < sorted@.len() ==> (#[trigger] sorted@[m]) < files@.len(),
                forall|m: int|
                    0 <= m < p ==> (#[trigger] tracks@[m]).source_index == sorted@[m],
                forall|m: int|
                    0 <= m < p ==> track_plan_ok(#[trigger] tracks@[m], files@, width as nat),
            decreases sorted@.len() - p,
        {
            let tp = plan_track(&files, sorted[p], width);
            tracks.push(tp);
            p = p + 1;
        }
        proof {
            assert(tracks@.map_values(|tp: TrackPlan| tp.source_index) =~= sorted@);
        }
        let gp = GroupPlan {
            artist_dir: group.artist_name.clone(),
            album_dir: group.album_title.clone(),
            total_tracks: total,
            track_width: width,
            title_width,
            default_year,
            default_genre,
            cover_candidates: candidates,
            tracks,
        };
        proof {
            assert forall|t: int|
                0 <= t < files@.len() && artist_key_of((#[trigger] files@[t]).meta)
                    == gp.artist_dir@ && album_key_of(files@[t].meta) == gp.album_dir@ implies exists|pp: int|
                0 <= pp < gp.tracks@.len() && (#[trigger] gp.tracks@[pp]).source_index == t by {
                assert(crate::group::gkey_matches(groups@[g as int], files@[t].meta));
                assert(group.track_indices@.contains(t as usize));
                assert(sorted@.contains(t as usize));
                let pp = choose|pp: int| 0 <= pp < sorted@.len() && sorted@[pp] == t as usize;
                assert(gp.tracks@[pp].source_index == t);
            }
            assert forall|pp: int| 0 <= pp < gp.tracks@.len() implies artist_key_of(
                files@[(#[trigger] gp.tracks@[pp]).source_index as int].meta,
            ) == gp.artist_dir@ && album_key_of(files@[gp.tracks@[pp].source_index as int].meta)
                == gp.album_dir@ by {
                assert(group.track_indices@.contains(sorted@[pp]));
                let m = choose|m: int|
                    0 <= m < group.track_indices@.len() && group.track_indices@[m] == sorted@[pp];
                assert(crate::group::gkey_matches(
                    groups@[g as int],
                    files@[group.track_indices@[m] as int].meta,
                ));
            }
            assert(group_plan_ok(gp, files@, *dir));
        }
        plans.push(gp);
        g = g + 1;
    }
    let plan = DirPlan { files, groups: plans };
    proof {
        assert forall|t: int| 0 <= t < plan.files@.len() implies exists|k: int|
            0 <= k < plan.groups@.len() && (#[trigger] plan.groups@[k]).artist_dir@
                == artist_key_of((#[trigger] plan.files@[t]).meta) && plan.groups@[k].album_dir@
                == album_key_of(plan.files@[t].meta) by {
            assert(crate::group::in_some_group(groups@, plan.files@[t].meta));
            let k = choose|k: int|
                0 <= k < groups@.len() && crate::group::gkey_matches(
                    #[trigger] groups@[k],
                    plan.files@[t].meta,
                );
            assert(plan.groups@[k].artist_dir@ == artist_key_of(plan.files@[t].meta));
        }
    }
    plan
}

/// Plans a whole run: one plan per scanned directory, in the given
/// order. The plan is a function of the inputs alone, so two runs over
/// an unmodified tree plan identical groups, orders and names.
pub fn clean_files(root_path: &Vec<String>, dirs: &Vec<SourceDir>) -> (r: Vec<DirPlan>)
    requires
        forall|d: int| 0 <= d < dirs@.len() ==> (#[trigger] dirs@[d]).tracks@.len() <= u32::MAX,
    ensures
        r@.len() == dirs@.len(),
        forall|d: int|
            0 <= d < dirs@.len() ==> dir_plan_ok(#[trigger] r@[d], root_path.deep_view(), dirs@[d]),
{
    let mut r: Vec<DirPlan> = Vec::new();
    let mut d: usize = 0;
    while d < dirs.len()
        invariant
            0 <= d <= dirs@.len(),
            r@.len() == d,
            forall|e: int|
                0 <= e < dirs@.len() ==> (#[trigger] dirs@[e]).tracks@.len() <= u32::MAX,
            forall|e: int|
                0 <= e < d ==> dir_plan_ok(#[trigger] r@[e], root_path.deep_view(), dirs@[e]),
        decreases dirs@.len() - d,
    {
        let plan = plan_directory(root_path, &dirs[d]);
        r.push(plan);
        d = d + 1;
    }
    r
}


/// The two resolved file lists of two right plans for the same inputs
/// agree on everything the grouping and naming read.
proof fn lemma_resolved_agree(root: Seq<Seq<char>>, dir: SourceDir, p1: DirPlan, p2: DirPlan, t: int)
    requires
        dir_plan_ok(p1, root, dir),
        dir_plan_ok(p2, root, dir),
        0 <= t < dir.tracks@.len(),
    ensures
        artist_key_of(p1.files@[t].meta) == artist_key_of(p2.files@[t].meta),
        album_key_of(p1.files@[t].meta) == album_key_of(p2.files@[t].meta),
        p1.files@[t].meta.track_number == p2.files@[t].meta.track_number,
        p1.files@[t].meta.track_title.deep_view() == p2.files@[t].meta.track_title.deep_view(),
        p1.files@[t].meta.audio_file_type == p2.files@[t].meta.audio_file_type,
        p1.files@[t].path.deep_view() == p2.files@[t].path.deep_view(),
        track_sort_key(p1.files@, t) == track_sort_key(p2.files@, t),
{
    let m1 = p1.files@[t].meta;
    let m2 = p2.files@[t].meta;
    assert(resolved_from(p1.files@[t], root, dir.tracks@[t]));
    assert(resolved_from(p2.files@[t], root, dir.tracks@[t]));
    match (m1.album_artist_name, m2.album_artist_name) {
        (Some(x), Some(y)) => {
            assert(x@ == y@);
        },
        (None, None) => {},
        _ => {
            assert(false);
        },
    }
    match (m1.album_title, m2.album_title) {
        (Some(x), Some(y)) => {
            assert(x@ == y@);
        },
        (None, None) => {},
        _ => {
            assert(false);
        },
    }
    assert(p1.files@[t].path@ == dir.tracks@[t].path@);
    assert(p2.files@[t].path@ == dir.tracks@[t].path@);
}

/// Within one matching group pair, the ordered source-index lists are
/// identical.
#[verifier::spinoff_prover]
proof fn lemma_group_srcs_equal(
    root: Seq<Seq<char>>,
    dir: SourceDir,
    p1: DirPlan,
    p2: DirPlan,
    g1: GroupPlan,
    g2: GroupPlan,
)
    requires
        dir_plan_ok(p1, root, dir),
        dir_plan_ok(p2, root, dir),
        group_plan_ok(g1, p1.files@, dir),
        group_plan_ok(g2, p2.files@, dir),
        g1.artist_dir@ == g2.artist_dir@,
        g1.album_dir@ == g2.album_dir@,
    ensures
        g1.tracks@.map_values(|tp: TrackPlan| tp.source_index) == g2.tracks@.map_values(
            |tp: TrackPlan| tp.source_index,
        ),
        g1.tracks@.len() == g2.tracks@.len(),
{
    let srcs1 = g1.tracks@.map_values(|tp: TrackPlan| tp.source_index);
    let srcs2 = g2.tracks@.map_values(|tp: TrackPlan| tp.source_index);
    assert forall|p: int, q: int| 0 <= p < q < srcs1.len() implies track_ord_lt(
        p1.files@,
        (#[trigger] srcs1[p]) as int,
        (#[trigger] srcs1[q]) as int,
    ) by {
        assert(srcs1[p] == g1.tracks@[p].source_index);
        assert(srcs1[q] == g1.tracks@[q].source_index);
    }
    assert forall|p: int, q: int| 0 <= p < q < srcs2.len() implies track_ord_lt(
        p1.files@,
        (#[trigger] srcs2[p]) as int,
        (#[trigger] srcs2[q]) as int,
    ) by {
        assert(srcs2[p] == g2.tracks@[p].source_index);
        assert(srcs2[q] == g2.tracks@[q].source_index);
        assert(track_plan_ok(g2.tracks@[p], p2.files@, g2.track_width as nat));
        assert(track_plan_ok(g2.tracks@[q], p2.files@, g2.track_width as nat));
        lemma_resolved_agree(root, dir, p1, p2, srcs2[p] as int);
        lemma_resolved_agree(root, dir, p1, p2, srcs2[q] as int);
        assert(track_ord_lt(p2.files@, srcs2[p] as int, srcs2[q] as int));
    }
    assert forall|p: int| 0 <= p < srcs1.len() implies srcs2.contains(#[trigger] srcs1[p]) by {
        let t = srcs1[p] as int;
        assert(srcs1[p] == g1.tracks@[p].source_index);
        assert(track_plan_ok(g1.tracks@[p], p1.files@, g1.track_width as nat));
        assert(artist_key_of(p1.files@[t].meta) == g1.artist_dir@);
        lemma_resolved_agree(root, dir, p1, p2, t);
        assert(artist_key_of(p2.files@[t].meta) == g2.artist_dir@);
        let q = choose|q: int|
            0 <= q < g2.tracks@.len() && (#[trigger] g2.tracks@[q]).source_index == t as usize;
        assert(srcs2[q] == srcs1[p]);
    }
    assert forall|p: int| 0 <= p < srcs2.len() implies srcs1.contains(#[trigger] srcs2[p]) by {
        let t = srcs2[p] as int;
        assert(srcs2[p] == g2.tracks@[p].source_index);
        assert(track_plan_ok(g2.tracks@[p], p2.files@, g2.track_width as nat));
        assert(artist_key_of(p2.files@[t].meta) == g2.artist_dir@);
        lemma_resolved_agree(root, dir, p1, p2, t);
        assert(artist_key_of(p1.files@[t].meta) == g1.artist_dir@);
        let q = choose|q: int|
            0 <= q < g1.tracks@.len() && (#[trigger] g1.tracks@[q]).source_index == t as usize;
        assert(srcs1[q] == srcs2[p]);
    }
    lemma_track_order_unique(p1.files@, srcs1, srcs2);
}

/// Within one matching group pair, each track slot carries the same
/// outcome: the same destination name, or the same failure.
#[verifier::spinoff_prover]
proof fn lemma_track_outcomes_agree(
    root: Seq<Seq<char>>,
    dir: SourceDir,
    p1: DirPlan,
    p2: DirPlan,
    g1: GroupPlan,
    g2: GroupPlan,
    p: int,
)
    requires
        dir_plan_ok(p1, root, dir),
        dir_plan_ok(p2, root, dir),
        group_plan_ok(g1, p1.files@, dir),
        group_plan_ok(g2, p2.files@, dir),
        g1.track_width == g2.track_width,
        0 <= p < g1.tracks@.len(),
        p < g2.tracks@.len(),
        g1.tracks@[p].source_index == g2.tracks@[p].source_index,
    ensures
        (g1.tracks@[p].name matches Ok(n1) ==> g2.tracks@[p].name matches Ok(n2) && n1@ == n2@),
        (g1.tracks@[p].name matches Err(e1) ==> g2.tracks@[p].name matches Err(e2) && e1 == e2),
{
    let t1 = g1.tracks@[p];
    let t2 = g2.tracks@[p];
    let t = t1.source_index as int;
    assert(track_plan_ok(t1, p1.files@, g1.track_width as nat));
    assert(track_plan_ok(t2, p2.files@, g2.track_width as nat));
    lemma_resolved_agree(root, dir, p1, p2, t);
    match (p1.files@[t].meta.track_title, p2.files@[t].meta.track_title) {
        (Some(x), Some(y)) => {
            assert(x@ == y@);
        },
        (None, None) => {},
        _ => {
            assert(false);
        },
    }
    match (t1.name, t2.name) {
        (Ok(n1), Ok(n2)) => {
            assert(n1@ == n2@);
        },
        (Err(e1), Err(e2)) => {
            assert(e1 == e2);
        },
        _ => {
            assert(false);
        },
    }
}

/// Grouping determinism: the plan is a function of the inputs alone.
/// Any two plans that are right for the same root and directory agree on
/// the number of groups, the group keys in order, every group's track
/// order, and every track's destination name or failure.
#[verifier::spinoff_prover]
pub proof fn lemma_plan_deterministic(
    root: Seq<Seq<char>>,
    dir: SourceDir,
    p1: DirPlan,
    p2: DirPlan,
)
    requires
        dir_plan_ok(p1, root, dir),
        dir_plan_ok(p2, root, dir),
    ensures
        p1.groups@.len() == p2.groups@.len(),
        forall|g: int|
            0 <= g < p1.groups@.len() ==> {
                let g1 = #[trigger] p1.groups@[g];
                let g2 = p2.groups@[g];
                &&& g1.artist_dir@ == g2.artist_dir@
                &&& g1.album_dir@ == g2.album_dir@
                &&& g1.tracks@.len() == g2.tracks@.len()
                &&& forall|p: int|
                    0 <= p < g1.tracks@.len() ==> {
                        let t1 = #[trigger] g1.tracks@[p];
                        let t2 = g2.tracks@[p];
                        &&& t1.source_index == t2.source_index
                        &&& (t1.name matches Ok(n1) ==> t2.name matches Ok(n2) && n1@ == n2@)
                        &&& (t1.name matches Err(e1) ==> t2.name matches Err(e2) && e1 == e2)
                    }
            },
{
    let k1 = Seq::new(
        p1.groups@.len(),
        |g: int| (p1.groups@[g].artist_dir@, p1.groups@[g].album_dir@),
    );
    let k2 = Seq::new(
        p2.groups@.len(),
        |g: int| (p2.groups@[g].artist_dir@, p2.groups@[g].album_dir@),
    );
    assert(pairs_sorted(k1));
    assert(pairs_sorted(k2));
    assert forall|g: int| 0 <= g < k1.len() implies k2.contains(#[trigger] k1[g]) by {
        let gp = p1.groups@[g];
        assert(group_plan_ok(gp, p1.files@, dir));
        assert(gp.tracks@.len() > 0);
        let t = gp.tracks@[0].source_index as int;
        assert(track_plan_ok(gp.tracks@[0], p1.files@, gp.track_width as nat));
        assert(artist_key_of(p1.files@[t].meta) == gp.artist_dir@);
        lemma_resolved_agree(root, dir, p1, p2, t);
        let h = choose|h: int|
            0 <= h < p2.groups@.len() && (#[trigger] p2.groups@[h]).artist_dir@ == artist_key_of(
                p2.files@[t].meta,
            ) && p2.groups@[h].album_dir@ == album_key_of(p2.files@[t].meta);
        assert(k2[h] == k1[g]);
    }
    assert forall|g: int| 0 <= g < k2.len() implies k1.contains(#[trigger] k2[g]) by {
        let gp = p2.groups@[g];
        assert(group_plan_ok(gp, p2.files@, dir));
        assert(gp.tracks@.len() > 0);
        let t = gp.tracks@[0].source_index as int;
        assert(track_plan_ok(gp.tracks@[0], p2.files@, gp.track_width as nat));
        assert(artist_key_of(p2.files@[t].meta) == gp.artist_dir@);
        lemma_resolved_agree(root, dir, p1, p2, t);
        let h = choose|h: int|
            0 <= h < p1.groups@.len() && (#[trigger] p1.groups@[h]).artist_dir@ == artist_key_of(
                p1.files@[t].meta,
            ) && p1.groups@[h].album_dir@ == album_key_of(p1.files@[t].meta);
        assert(k1[h] == k2[g]);
    }
    lemma_sorted_pairs_unique(k1, k2);
    assert(p1.groups@.len() == p2.groups@.len());

    assert forall|g: int| 0 <= g < p1.groups@.len() implies {
        let g1 = #[trigger] p1.groups@[g];
        let g2 = p2.groups@[g];
        &&& g1.artist_dir@ == g2.artist_dir@
        &&& g1.album_dir@ == g2.album_dir@
        &&& g1.tracks@.len() == g2.tracks@.len()
        &&& forall|p: int|
            0 <= p < g1.tracks@.len() ==> {
                let t1 = #[trigger] g1.tracks@[p];
                let t2 = g2.tracks@[p];
                &&& t1.source_index == t2.source_index
                &&& (t1.name matches Ok(n1) ==> t2.name matches Ok(n2) && n1@ == n2@)
                &&& (t1.name matches Err(e1) ==> t2.name matches Err(e2) && e1 == e2)
            }
    } by {
        let g1 = p1.groups@[g];
        let g2 = p2.groups@[g];
        assert(k1[g] == k2[g]);
        assert(g1.artist_dir@ == g2.artist_dir@ && g1.album_dir@ == g2.album_dir@);
        assert(group_plan_ok(g1, p1.files@, dir));
        assert(group_plan_ok(g2, p2.files@, dir));
        lemma_group_srcs_equal(root, dir, p1, p2, g1, g2);
        assert(g1.total_tracks == g2.total_tracks);
        assert(g1.track_width == g2.track_width);
        let srcs1 = g1.tracks@.map_values(|tp: TrackPlan| tp.source_index);
        let srcs2 = g2.tracks@.map_values(|tp: TrackPlan| tp.source_index);
        assert forall|p: int| 0 <= p < g1.tracks@.len() implies {
            let t1 = #[trigger] g1.tracks@[p];
            let t2 = g2.tracks@[p];
            &&& t1.source_index == t2.source_index
            &&& (t1.name matches Ok(n1) ==> t2.name matches Ok(n2) && n1@ == n2@)
            &&& (t1.name matches Err(e1) ==> t2.name matches Err(e2) && e1 == e2)
        } by {
            assert(srcs1[p] == g1.tracks@[p].source_index);
            assert(srcs2[p] == g2.tracks@[p].source_index);
            assert(g1.tracks@[p].source_index == g2.tracks@[p].source_index);
            lemma_track_outcomes_agree(root, dir, p1, p2, g1, g2, p);
        }
    }
}

} // verus!

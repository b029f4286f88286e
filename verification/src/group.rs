//! Partitioning of resolved tracks into (artist, album) groups.
//!
//! Group keys fall back to a fixed placeholder when artist or album could
//! not be resolved, so every track is groupable. Groups come out in
//! strict lexicographic key order, and each group lists its tracks in
//! discovery order; a second pass orders them by track number, ties kept
//! in discovery order, numberless tracks last. Both orders are strict,
//! so the whole arrangement is uniquely determined by the input.

use vstd::prelude::*;

use crate::meta::{AudioFile, AudioFileMeta};
use crate::text::{
    lemma_lex_lt_asym, lemma_lex_lt_connected, lemma_lex_lt_irrefl, lemma_lex_lt_trans, lex_lt,
    str_equal, str_lt,
};

verus! {

/// The placeholder for an artist that could not be resolved.
pub fn unknown_artist_name() -> (r: &'static str)
    ensures
        r@ == "[unknown]"@,
{
    "[unknown]"
}

/// The placeholder for an album that could not be resolved.
pub fn unknown_album_title() -> (r: &'static str)
    ensures
        r@ == "[unknown]"@,
{
    "[unknown]"
}

/// The artist half of a track's group key.
pub open spec fn artist_key_of(m: AudioFileMeta) -> Seq<char> {
    match m.album_artist_name {
        Some(s) => s@,
        None => "[unknown]"@,
    }
}

/// The album half of a track's group key.
pub open spec fn album_key_of(m: AudioFileMeta) -> Seq<char> {
    match m.album_title {
        Some(s) => s@,
        None => "[unknown]"@,
    }
}

/// Strict lexicographic order on (artist, album) pairs.
pub open spec fn pair_lt(aa: Seq<char>, ab: Seq<char>, ba: Seq<char>, bb: Seq<char>) -> bool {
    lex_lt(aa, ba) || (aa == ba && lex_lt(ab, bb))
}

/// Two key pairs are ordered one way or the other, or equal.
pub proof fn lemma_pair_lt_connected(aa: Seq<char>, ab: Seq<char>, ba: Seq<char>, bb: Seq<char>)
    ensures
        pair_lt(aa, ab, ba, bb) || pair_lt(ba, bb, aa, ab) || (aa == ba && ab == bb),
{
    lemma_lex_lt_connected(aa, ba);
    if !lex_lt(aa, ba) && !lex_lt(ba, aa) {
        lemma_lex_lt_connected(ab, bb);
    }
}

/// The pair order is transitive.
pub proof fn lemma_pair_lt_trans(
    aa: Seq<char>,
    ab: Seq<char>,
    ba: Seq<char>,
    bb: Seq<char>,
    ca: Seq<char>,
    cb: Seq<char>,
)
    requires
        pair_lt(aa, ab, ba, bb),
        pair_lt(ba, bb, ca, cb),
    ensures
        pair_lt(aa, ab, ca, cb),
{
    if lex_lt(aa, ba) && lex_lt(ba, ca) {
        lemma_lex_lt_trans(aa, ba, ca);
    } else if aa == ba && ba == ca {
        lemma_lex_lt_trans(ab, bb, cb);
    }
}

/// Compares two key pairs.
fn pair_lt_exec(aa: &str, ab: &str, ba: &str, bb: &str) -> (r: bool)
    ensures
        r == pair_lt(aa@, ab@, ba@, bb@),
{
    if str_lt(aa, ba) {
        true
    } else if str_equal(aa, ba) {
        str_lt(ab, bb)
    } else {
        false
    }
}

/// The artist half of a track's group key, as a fresh string.
fn artist_key(m: &AudioFileMeta) -> (r: String)
    ensures
        r@ == artist_key_of(*m),
{
    match &m.album_artist_name {
        Some(s) => s.clone(),
        None => String::from_str(unknown_artist_name()),
    }
}

/// The album half of a track's group key, as a fresh string.
fn album_key(m: &AudioFileMeta) -> (r: String)
    ensures
        r@ == album_key_of(*m),
{
    match &m.album_title {
        Some(s) => s.clone(),
        None => String::from_str(unknown_album_title()),
    }
}

/// One (artist, album) partition: its two key strings and the indices of
/// its tracks into the discovery list.
pub struct AlbumGroup {
    pub artist_name: String,
    pub album_title: String,
    pub track_indices: Vec<usize>,
}

/// Whether a track belongs to a group: both key halves agree.
pub open spec fn gkey_matches(g: AlbumGroup, m: AudioFileMeta) -> bool {
    g.artist_name@ == artist_key_of(m) && g.album_title@ == album_key_of(m)
}

/// A group holds exactly the tracks bearing its key, in discovery order.
pub open spec fn group_is_filter(g: AlbumGroup, files: Seq<AudioFile>) -> bool {
    &&& forall|p: int, q: int|
        0 <= p < q < g.track_indices@.len() ==> g.track_indices@[p] < g.track_indices@[q]
    &&& forall|p: int|
        0 <= p < g.track_indices@.len() ==> #[trigger] g.track_indices@[p] < files.len()
            && gkey_matches(g, files[g.track_indices@[p] as int].meta)
    &&& forall|t: int|
        0 <= t < files.len() && gkey_matches(g, files[t].meta)
            ==> g.track_indices@.contains(t as usize)
}

/// Groups come out in strictly ascending key order.
pub open spec fn groups_sorted(groups: Seq<AlbumGroup>) -> bool {
    forall|a: int, b: int|
        0 <= a < b < groups.len() ==> pair_lt(
            #[trigger] groups[a].artist_name@,
            groups[a].album_title@,
            #[trigger] groups[b].artist_name@,
            groups[b].album_title@,
        )
}

/// One collected key pair names the same partition as a track's keys.
pub open spec fn key_matches(k: (String, String), m: AudioFileMeta) -> bool {
    k.0@ == artist_key_of(m) && k.1@ == album_key_of(m)
}

/// The collected key pairs are strictly sorted.
pub open spec fn keys_sorted(keys: Seq<(String, String)>) -> bool {
    forall|a: int, b: int|
        0 <= a < b < keys.len() ==> pair_lt(
            (#[trigger] keys[a]).0@,
            keys[a].1@,
            (#[trigger] keys[b]).0@,
            keys[b].1@,
        )
}

/// Some collected key pair matches this track.
pub open spec fn has_key_for(keys: Seq<(String, String)>, m: AudioFileMeta) -> bool {
    exists|g: int| 0 <= g < keys.len() && key_matches(#[trigger] keys[g], m)
}

/// Every one of the first `n` tracks has a collected key pair.
pub open spec fn keys_cover(keys: Seq<(String, String)>, files: Seq<AudioFile>, n: int) -> bool {
    forall|t: int| 0 <= t < n ==> has_key_for(keys, (#[trigger] files[t]).meta)
}

/// Some track bears this key pair.
pub open spec fn key_used(k: (String, String), files: Seq<AudioFile>) -> bool {
    exists|t: int| 0 <= t < files.len() && key_matches(k, (#[trigger] files[t]).meta)
}

/// Every collected key pair is borne by some track.
pub open spec fn keys_sound(keys: Seq<(String, String)>, files: Seq<AudioFile>) -> bool {
    forall|g: int| 0 <= g < keys.len() ==> key_used(#[trigger] keys[g], files)
}

/// The sorted, unique key pairs of the tracks.
fn collect_keys(files: &Vec<AudioFile>) -> (keys: Vec<(String, String)>)
    ensures
        keys_sorted(keys@),
        keys_cover(keys@, files@, files@.len() as int),
        keys_sound(keys@, files@),
{
    let mut keys: Vec<(String, String)> = Vec::new();
    let mut i: usize = 0;
    while i < files.len()
        invariant
            0 <= i <= files@.len(),
            keys_sorted(keys@),
            keys_cover(keys@, files@, i as int),
            keys_sound(keys@, files@),
        decreases files@.len() - i,
    {
        let ak = artist_key(&files[i].meta);
        let alk = album_key(&files[i].meta);
        let mut p: usize = 0;
        while p < keys.len() && pair_lt_exec(
            keys[p].0.as_str(),
            keys[p].1.as_str(),
            ak.as_str(),
            alk.as_str(),
        )
            invariant
                0 <= p <= keys@.len(),
                ak@ == artist_key_of(files@[i as int].meta),
                alk@ == album_key_of(files@[i as int].meta),
                forall|m: int|
                    0 <= m < p ==> pair_lt((#[trigger] keys@[m]).0@, keys@[m].1@, ak@, alk@),
            decreases keys@.len() - p,
        {
            p = p + 1;
        }
        let ghost old_keys = keys@;
        let is_dup = p < keys.len() && str_equal(keys[p].0.as_str(), ak.as_str()) && str_equal(
            keys[p].1.as_str(),
            alk.as_str(),
        );
        if is_dup {
            proof {
                assert(key_matches(keys@[p as int], files@[i as int].meta));
                assert(keys_cover(keys@, files@, i + 1));
            }
        } else {
            proof {
                if (p as int) < keys@.len() {
                    lemma_pair_lt_connected(keys@[p as int].0@, keys@[p as int].1@, ak@, alk@);
                    assert(pair_lt(ak@, alk@, keys@[p as int].0@, keys@[p as int].1@));
                }
            }
            keys.insert(p, (ak, alk));
            proof {
                let ks = keys@;
                assert(ks.len() == old_keys.len() + 1);
                assert forall|a: int, b: int| 0 <= a < b < ks.len() implies pair_lt(
                    (#[trigger] ks[a]).0@,
                    ks[a].1@,
                    (#[trigger] ks[b]).0@,
                    ks[b].1@,
                ) by {
                    if a < p && b < p {
                        assert(ks[a] == old_keys[a] && ks[b] == old_keys[b]);
                    } else if a < p && b == p {
                        assert(ks[a] == old_keys[a]);
                    } else if a < p && b > p {
                        assert(ks[a] == old_keys[a] && ks[b] == old_keys[b - 1]);
                    } else if a == p && b > p {
                        assert(ks[b] == old_keys[b - 1]);
                        if b - 1 > p {
                            lemma_pair_lt_trans(
                                ks[a].0@,
                                ks[a].1@,
                                old_keys[p as int].0@,
                                old_keys[p as int].1@,
                                old_keys[b - 1].0@,
                                old_keys[b - 1].1@,
                            );
                        }
                    } else {
                        assert(a > p && b > p);
                        assert(ks[a] == old_keys[a - 1] && ks[b] == old_keys[b - 1]);
                    }
                }
                assert forall|t: int| 0 <= t < i + 1 implies has_key_for(
                    ks,
                    (#[trigger] files@[t]).meta,
                ) by {
                    if t < i {
                        let g0 = choose|g0: int|
                            0 <= g0 < old_keys.len() && key_matches(
                                #[trigger] old_keys[g0],
                                files@[t].meta,
                            );
                        if g0 < p {
                            assert(ks[g0] == old_keys[g0]);
                            assert(key_matches(ks[g0], files@[t].meta));
                        } else {
                            assert(ks[g0 + 1] == old_keys[g0]);
                            assert(key_matches(ks[g0 + 1], files@[t].meta));
                        }
                    } else {
                        assert(key_matches(ks[p as int], files@[t].meta));
                    }
                }
                assert forall|g: int| 0 <= g < ks.len() implies key_used(
                    #[trigger] ks[g],
                    files@,
                ) by {
                    if g == p {
                        assert(key_matches(ks[g], files@[i as int].meta));
                    } else {
                        let g0: int = if g < p {
                            g
                        } else {
                            g - 1
                        };
                        assert(ks[g] == old_keys[g0]);
                        assert(key_used(old_keys[g0], files@));
                        let t0 = choose|t0: int|
                            0 <= t0 < files@.len() && key_matches(
                                old_keys[g0],
                                (#[trigger] files@[t0]).meta,
                            );
                        assert(key_matches(ks[g], files@[t0].meta));
                    }
                }
            }
        }
        i = i + 1;
    }
    keys
}

/// The indices of all tracks bearing one key, in discovery order.
fn tracks_with_key(files: &Vec<AudioFile>, ak: &str, alk: &str) -> (r: Vec<usize>)
    ensures
        forall|p: int, q: int| 0 <= p < q < r@.len() ==> r@[p] < r@[q],
        forall|p: int|
            0 <= p < r@.len() ==> (#[trigger] r@[p]) < files@.len() && artist_key_of(
                files@[r@[p] as int].meta,
            ) == ak@ && album_key_of(files@[r@[p] as int].meta) == alk@,
        forall|t: int|
            0 <= t < files@.len() && artist_key_of((#[trigger] files@[t]).meta) == ak@
                && album_key_of(files@[t].meta) == alk@ ==> r@.contains(t as usize),
{
    let mut r: Vec<usize> = Vec::new();
    let mut t: usize = 0;
    while t < files.len()
        invariant
            0 <= t <= files@.len(),
            forall|p: int, q: int| 0 <= p < q < r@.len() ==> r@[p] < r@[q],
            forall|p: int|
                0 <= p < r@.len() ==> (#[trigger] r@[p]) < t && artist_key_of(
                    files@[r@[p] as int].meta,
                ) == ak@ && album_key_of(files@[r@[p] as int].meta) == alk@,
            forall|u: int|
                0 <= u < t && artist_key_of((#[trigger] files@[u]).meta) == ak@ && album_key_of(
                    files@[u].meta,
                ) == alk@ ==> r@.contains(u as usize),
        decreases files@.len() - t,
    {
        let tak = artist_key(&files[t].meta);
        let talk = album_key(&files[t].meta);
        if str_equal(tak.as_str(), ak) && str_equal(talk.as_str(), alk) {
            let ghost old_r = r@;
            r.push(t);
            proof {
                assert forall|u: int|
                    0 <= u < t + 1 && artist_key_of((#[trigger] files@[u]).meta) == ak@
                        && album_key_of(files@[u].meta) == alk@ implies r@.contains(
                    u as usize,
                ) by {
                    if u < t {
                        let m = choose|m: int| 0 <= m < old_r.len() && old_r[m] == u as usize;
                        assert(r@[m] == u as usize);
                    } else {
                        assert(r@[r@.len() - 1] == t);
                    }
                }
            }
        }
        t = t + 1;
    }
    r
}

/// Some group bears this track's keys.
pub open spec fn in_some_group(groups: Seq<AlbumGroup>, m: AudioFileMeta) -> bool {
    exists|g: int| 0 <= g < groups.len() && gkey_matches(#[trigger] groups[g], m)
}

/// Every track belongs to a group.
pub open spec fn groups_cover(groups: Seq<AlbumGroup>, files: Seq<AudioFile>) -> bool {
    forall|t: int| 0 <= t < files.len() ==> in_some_group(groups, (#[trigger] files[t]).meta)
}

/// Partitions the tracks into (artist, album) groups: group keys use the
/// placeholder when a half is unresolved, groups come out in strict key
/// order, and each group lists exactly its tracks in discovery order.
pub fn group_tracks(files: &Vec<AudioFile>) -> (groups: Vec<AlbumGroup>)
    ensures
        groups_sorted(groups@),
        forall|g: int| 0 <= g < groups@.len() ==> group_is_filter(#[trigger] groups@[g], files@),
        groups_cover(groups@, files@),
        forall|g: int|
            0 <= g < groups@.len() ==> (#[trigger] groups@[g].track_indices@).len() > 0,
{
    let keys = collect_keys(files);
    let mut groups: Vec<AlbumGroup> = Vec::new();
    let mut g: usize = 0;
    while g < keys.len()
        invariant
            0 <= g <= keys@.len(),
            groups@.len() == g,
            keys_sorted(keys@),
            keys_cover(keys@, files@, files@.len() as int),
            keys_sound(keys@, files@),
            forall|a: int|
                0 <= a < g ==> (#[trigger] groups@[a]).artist_name@ == keys@[a].0@
                    && groups@[a].album_title@ == keys@[a].1@,
            forall|a: int| 0 <= a < g ==> group_is_filter(#[trigger] groups@[a], files@),
            forall|a: int| 0 <= a < g ==> (#[trigger] groups@[a].track_indices@).len() > 0,
        decreases keys@.len() - g,
    {
        let indices = tracks_with_key(files, keys[g].0.as_str(), keys[g].1.as_str());
        let grp = AlbumGroup {
            artist_name: keys[g].0.clone(),
            album_title: keys[g].1.clone(),
            track_indices: indices,
        };
        proof {
            assert(group_is_filter(grp, files@));
            assert(key_used(keys@[g as int], files@));
            let t0 = choose|t0: int|
                0 <= t0 < files@.len() && key_matches(
                    keys@[g as int],
                    (#[trigger] files@[t0]).meta,
                );
            assert(grp.track_indices@.contains(t0 as usize));
        }
        groups.push(grp);
        g = g + 1;
    }
    proof {
        assert forall|t: int| 0 <= t < files@.len() implies in_some_group(
            groups@,
            (#[trigger] files@[t]).meta,
        ) by {
            assert(has_key_for(keys@, files@[t].meta));
            let k = choose|k: int|
                0 <= k < keys@.len() && key_matches(#[trigger] keys@[k], files@[t].meta);
            assert(gkey_matches(groups@[k], files@[t].meta));
        }
    }
    groups
}

/// The sort key a track orders by within its group: its track number,
/// with numberless tracks after every numbered one.
pub open spec fn track_sort_key(files: Seq<AudioFile>, t: int) -> int {
    match files[t].meta.track_number {
        Some(n) => n as int,
        None => 0x1_0000_0000,
    }
}

/// Strict order of two track indices within a group: by sort key, ties
/// broken by discovery order.
pub open spec fn track_ord_lt(files: Seq<AudioFile>, a: int, b: int) -> bool {
    track_sort_key(files, a) < track_sort_key(files, b) || (track_sort_key(files, a)
        == track_sort_key(files, b) && a < b)
}

/// Orders a group's tracks by resolved track number, ascending, with
/// ties kept in discovery order and numberless tracks after all numbered
/// ones. The strict order makes the arrangement unique, hence stable and
/// deterministic.
pub fn sort_tracks_by_number(files: &Vec<AudioFile>, indices: &Vec<usize>) -> (r: Vec<usize>)
    requires
        forall|p: int| 0 <= p < indices@.len() ==> (#[trigger] indices@[p]) < files@.len(),
        forall|p: int, q: int| 0 <= p < q < indices@.len() ==> indices@[p] != indices@[q],
    ensures
        r@.len() == indices@.len(),
        forall|p: int, q: int|
            0 <= p < q < r@.len() ==> track_ord_lt(files@, r@[p] as int, r@[q] as int),
        forall|p: int| 0 <= p < r@.len() ==> indices@.contains(#[trigger] r@[p]),
        forall|p: int| 0 <= p < indices@.len() ==> r@.contains(#[trigger] indices@[p]),
{
    let mut out: Vec<usize> = Vec::new();
    let mut i: usize = 0;
    while i < indices.len()
        invariant
            0 <= i <= indices@.len(),
            out@.len() == i,
            forall|p: int| 0 <= p < indices@.len() ==> (#[trigger] indices@[p]) < files@.len(),
            forall|p: int, q: int| 0 <= p < q < indices@.len() ==> indices@[p] != indices@[q],
            forall|p: int, q: int|
                0 <= p < q < out@.len() ==> track_ord_lt(files@, out@[p] as int, out@[q] as int),
            forall|p: int| 0 <= p < out@.len() ==> (#[trigger] out@[p]) < files@.len(),
            forall|p: int|
                0 <= p < out@.len() ==> exists|j: int|
                    0 <= j < i && indices@[j] == #[trigger] out@[p],
            forall|j: int| 0 <= j < i ==> out@.contains(#[trigger] indices@[j]),
        decreases indices@.len() - i,
    {
        let x = indices[i];
        let mut p: usize = 0;
        while p < out.len() && track_lt_exec(files, out[p], x)
            invariant
                0 <= p <= out@.len(),
                x == indices@[i as int],
                x < files@.len(),
                forall|m: int| 0 <= m < out@.len() ==> (#[trigger] out@[m]) < files@.len(),
                forall|m: int|
                    0 <= m < p ==> track_ord_lt(files@, (#[trigger] out@[m]) as int, x as int),
            decreases out@.len() - p,
        {
            p = p + 1;
        }
        let ghost old_out = out@;
        proof {
            if (p as int) < out@.len() {
                let j = choose|j: int| 0 <= j < i && indices@[j] == out@[p as int];
                assert(indices@[j] != indices@[i as int]);
                assert(out@[p as int] != x);
                assert(track_ord_lt(files@, x as int, out@[p as int] as int));
            }
        }
        out.insert(p, x);
        proof {
            let os = out@;
            assert(os.len() == old_out.len() + 1);
            assert(os[p as int] == x);
            assert forall|a: int, b: int| 0 <= a < b < os.len() implies track_ord_lt(
                files@,
                os[a] as int,
                os[b] as int,
            ) by {
                if a < p && b < p {
                    assert(os[a] == old_out[a] && os[b] == old_out[b]);
                    assert(track_ord_lt(files@, old_out[a] as int, old_out[b] as int));
                } else if a < p && b == p {
                    assert(os[a] == old_out[a]);
                    assert(track_ord_lt(files@, old_out[a] as int, x as int));
                } else if a < p && b > p {
                    assert(os[a] == old_out[a] && os[b] == old_out[b - 1]);
                    assert(track_ord_lt(files@, old_out[a] as int, old_out[b - 1] as int));
                } else if a == p && b > p {
                    assert(os[b] == old_out[b - 1]);
                    assert(track_ord_lt(files@, x as int, old_out[p as int] as int));
                    if b - 1 > p {
                        assert(track_ord_lt(
                            files@,
                            old_out[p as int] as int,
                            old_out[b - 1] as int,
                        ));
                    }
                    assert(track_ord_lt(files@, x as int, old_out[b - 1] as int));
                } else {
                    assert(a > p && b > p);
                    assert(os[a] == old_out[a - 1] && os[b] == old_out[b - 1]);
                    assert(track_ord_lt(files@, old_out[a - 1] as int, old_out[b - 1] as int));
                }
            }
            assert forall|q: int| 0 <= q < os.len() implies exists|j: int|
                0 <= j < i + 1 && indices@[j] == #[trigger] os[q] by {
                if q == p {
                    assert(indices@[i as int] == os[q]);
                } else {
                    let q0: int = if q < p {
                        q
                    } else {
                        q - 1
                    };
                    assert(os[q] == old_out[q0]);
                    let j = choose|j: int| 0 <= j < i && indices@[j] == old_out[q0];
                    assert(indices@[j] == os[q]);
                }
            }
            assert forall|j: int| 0 <= j < i + 1 implies out@.contains(#[trigger] indices@[j]) by {
                if j == i {
                    assert(out@[p as int] == indices@[j]);
                } else {
                    let m = choose|m: int| 0 <= m < old_out.len() && old_out[m] == indices@[j];
                    if m < p {
                        assert(out@[m] == indices@[j]);
                    } else {
                        assert(out@[m + 1] == indices@[j]);
                    }
                }
            }
        }
        i = i + 1;
    }
    proof {
        assert forall|p: int| 0 <= p < out@.len() implies indices@.contains(#[trigger] out@[p]) by {
            let j = choose|j: int| 0 <= j < i && indices@[j] == out@[p];
            assert(indices@[j] == out@[p]);
        }
    }
    out
}

/// Compares two track indices by sort key, ties by index.
fn track_lt_exec(files: &Vec<AudioFile>, a: usize, b: usize) -> (r: bool)
    requires
        a < files@.len(),
        b < files@.len(),
    ensures
        r == track_ord_lt(files@, a as int, b as int),
{
    let ka: u64 = match files[a].meta.track_number {
        Some(n) => n as u64,
        None => 0x1_0000_0000u64,
    };
    let kb: u64 = match files[b].meta.track_number {
        Some(n) => n as u64,
        None => 0x1_0000_0000u64,
    };
    ka < kb || (ka == kb && a < b)
}


/// The pair order is asymmetric.
pub proof fn lemma_pair_lt_asym(aa: Seq<char>, ab: Seq<char>, ba: Seq<char>, bb: Seq<char>)
    ensures
        !(pair_lt(aa, ab, ba, bb) && pair_lt(ba, bb, aa, ab)),
{
    lemma_lex_lt_asym(aa, ba);
    lemma_lex_lt_asym(ab, bb);
}

/// The pair order is irreflexive.
pub proof fn lemma_pair_lt_irrefl(aa: Seq<char>, ab: Seq<char>)
    ensures
        !pair_lt(aa, ab, aa, ab),
{
    lemma_lex_lt_irrefl(aa);
    lemma_lex_lt_irrefl(ab);
}

/// A strictly sorted sequence of key pairs.
pub open spec fn pairs_sorted(ks: Seq<(Seq<char>, Seq<char>)>) -> bool {
    forall|a: int, b: int|
        0 <= a < b < ks.len() ==> pair_lt(
            (#[trigger] ks[a]).0,
            ks[a].1,
            (#[trigger] ks[b]).0,
            ks[b].1,
        )
}

/// Order-uniqueness of sorted key pairs: two strictly sorted sequences
/// with the same members are the same sequence. This is what makes the
/// group iteration order a function of the key set alone.
pub proof fn lemma_sorted_pairs_unique(k1: Seq<(Seq<char>, Seq<char>)>, k2: Seq<(Seq<char>, Seq<char>)>)
    requires
        pairs_sorted(k1),
        pairs_sorted(k2),
        forall|p: int| 0 <= p < k1.len() ==> k2.contains(#[trigger] k1[p]),
        forall|p: int| 0 <= p < k2.len() ==> k1.contains(#[trigger] k2[p]),
    ensures
        k1 == k2,
    decreases k1.len(),
{
    if k1.len() == 0 {
        if k2.len() > 0 {
            assert(k1.contains(k2[0]));
        }
        assert(k1 =~= k2);
    } else {
        assert(k2.contains(k1[0]));
        let j = choose|j: int| 0 <= j < k2.len() && k2[j] == k1[0];
        if j > 0 {
            assert(pair_lt(k2[0].0, k2[0].1, k1[0].0, k1[0].1));
            assert(k1.contains(k2[0]));
            let i = choose|i: int| 0 <= i < k1.len() && k1[i] == k2[0];
            if i == 0 {
                lemma_pair_lt_irrefl(k1[0].0, k1[0].1);
            } else {
                assert(pair_lt(k1[0].0, k1[0].1, k2[0].0, k2[0].1));
                lemma_pair_lt_asym(k1[0].0, k1[0].1, k2[0].0, k2[0].1);
            }
            assert(false);
        }
        assert(k1[0] == k2[0]);
        let t1 = k1.drop_first();
        let t2 = k2.drop_first();
        assert forall|p: int| 0 <= p < t1.len() implies t2.contains(#[trigger] t1[p]) by {
            assert(t1[p] == k1[p + 1]);
            assert(k2.contains(k1[p + 1]));
            let q = choose|q: int| 0 <= q < k2.len() && k2[q] == k1[p + 1];
            assert(pair_lt(k1[0].0, k1[0].1, k1[p + 1].0, k1[p + 1].1));
            if q == 0 {
                lemma_pair_lt_irrefl(k1[0].0, k1[0].1);
            }
            assert(q > 0);
            assert(t2[q - 1] == k2[q]);
            assert(t2[q - 1] == t1[p]);
        }
        assert forall|p: int| 0 <= p < t2.len() implies t1.contains(#[trigger] t2[p]) by {
            assert(t2[p] == k2[p + 1]);
            assert(k1.contains(k2[p + 1]));
            let q = choose|q: int| 0 <= q < k1.len() && k1[q] == k2[p + 1];
            assert(pair_lt(k2[0].0, k2[0].1, k2[p + 1].0, k2[p + 1].1));
            if q == 0 {
                lemma_pair_lt_irrefl(k2[0].0, k2[0].1);
            }
            assert(q > 0);
            assert(t1[q - 1] == k1[q]);
            assert(t1[q - 1] == t2[p]);
        }
        assert(pairs_sorted(t1)) by {
            assert forall|a: int, b: int| 0 <= a < b < t1.len() implies pair_lt(
                (#[trigger] t1[a]).0,
                t1[a].1,
                (#[trigger] t1[b]).0,
                t1[b].1,
            ) by {
                assert(t1[a] == k1[a + 1] && t1[b] == k1[b + 1]);
            }
        }
        assert(pairs_sorted(t2)) by {
            assert forall|a: int, b: int| 0 <= a < b < t2.len() implies pair_lt(
                (#[trigger] t2[a]).0,
                t2[a].1,
                (#[trigger] t2[b]).0,
                t2[b].1,
            ) by {
                assert(t2[a] == k2[a + 1] && t2[b] == k2[b + 1]);
            }
        }
        lemma_sorted_pairs_unique(t1, t2);
        assert forall|p: int| 0 <= p < k1.len() implies k1[p] == k2[p] by {
            if p > 0 {
                assert(k1[p] == t1[p - 1] && t2[p - 1] == k2[p]);
            }
        }
        assert(k1 =~= k2);
    }
}

/// Order-uniqueness of an ordered track list: two lists strictly ordered
/// by the same track order, holding the same members, are the same list.
/// This is what makes the in-group track order stable and deterministic.
pub proof fn lemma_track_order_unique(files: Seq<AudioFile>, a: Seq<usize>, b: Seq<usize>)
    requires
        forall|p: int, q: int|
            0 <= p < q < a.len() ==> track_ord_lt(files, (#[trigger] a[p]) as int, (#[trigger] a[q]) as int),
        forall|p: int, q: int|
            0 <= p < q < b.len() ==> track_ord_lt(files, (#[trigger] b[p]) as int, (#[trigger] b[q]) as int),
        forall|p: int| 0 <= p < a.len() ==> b.contains(#[trigger] a[p]),
        forall|p: int| 0 <= p < b.len() ==> a.contains(#[trigger] b[p]),
    ensures
        a == b,
    decreases a.len(),
{
    if a.len() == 0 {
        if b.len() > 0 {
            assert(a.contains(b[0]));
        }
        assert(a =~= b);
    } else {
        assert(b.contains(a[0]));
        let j = choose|j: int| 0 <= j < b.len() && b[j] == a[0];
        if j > 0 {
            assert(track_ord_lt(files, b[0] as int, a[0] as int));
            assert(a.contains(b[0]));
            let i = choose|i: int| 0 <= i < a.len() && a[i] == b[0];
            if i > 0 {
                assert(track_ord_lt(files, a[0] as int, b[0] as int));
            }
            assert(false);
        }
        assert(a[0] == b[0]);
        let t1 = a.drop_first();
        let t2 = b.drop_first();
        assert forall|p: int| 0 <= p < t1.len() implies t2.contains(#[trigger] t1[p]) by {
            assert(t1[p] == a[p + 1]);
            assert(b.contains(a[p + 1]));
            let q = choose|q: int| 0 <= q < b.len() && b[q] == a[p + 1];
            assert(track_ord_lt(files, a[0] as int, a[p + 1] as int));
            assert(q > 0);
            assert(t2[q - 1] == b[q]);
            assert(t2[q - 1] == t1[p]);
        }
        assert forall|p: int| 0 <= p < t2.len() implies t1.contains(#[trigger] t2[p]) by {
            assert(t2[p] == b[p + 1]);
            assert(a.contains(b[p + 1]));
            let q = choose|q: int| 0 <= q < a.len() && a[q] == b[p + 1];
            assert(track_ord_lt(files, b[0] as int, b[p + 1] as int));
            assert(q > 0);
            assert(t1[q - 1] == a[q]);
            assert(t1[q - 1] == t2[p]);
        }
        assert forall|p: int, q: int| 0 <= p < q < t1.len() implies track_ord_lt(
            files,
            (#[trigger] t1[p]) as int,
            (#[trigger] t1[q]) as int,
        ) by {
            assert(t1[p] == a[p + 1] && t1[q] == a[q + 1]);
        }
        assert forall|p: int, q: int| 0 <= p < q < t2.len() implies track_ord_lt(
            files,
            (#[trigger] t2[p]) as int,
            (#[trigger] t2[q]) as int,
        ) by {
            assert(t2[p] == b[p + 1] && t2[q] == b[q + 1]);
        }
        lemma_track_order_unique(files, t1, t2);
        assert forall|p: int| 0 <= p < a.len() implies a[p] == b[p] by {
            if p > 0 {
                assert(a[p] == t1[p - 1] && t2[p - 1] == b[p]);
            }
        }
        assert(a =~= b);
    }
}

} // verus!

//! Cover-art selection: at most one image per album group, chosen by an
//! ordered heuristic chain.
//!
//! The rules, first hit wins: a lone colocated image; an image whose stem
//! is exactly `cover` or `front` (case folded); one whose stem contains
//! `cover` or `front`; one whose stem contains any track's album title;
//! the widest square image. When no colocated file qualifies, the tracks'
//! embedded front-cover pictures are the fallback, in track order. The
//! decoder may still reject a candidate, so the selection is handed over
//! as an ordered candidate list.

use vstd::prelude::*;

use crate::meta::AudioFile;
use crate::paths::{split_file_name, stem_of};
use crate::text::{contains_seq, contains_sub, lower_of, lowercase, str_equal};

verus! {

/// A colocated image file: its path below the scan root, and its pixel
/// dimensions when the image metadata could be read.
pub struct ImageFile {
    pub path: Vec<String>,
    pub dimensions: Option<(u32, u32)>,
}

impl ImageFile {
    pub fn new(path: Vec<String>, dimensions: Option<(u32, u32)>) -> (r: ImageFile)
        ensures
            r.path == path,
            r.dimensions == dimensions,
    {
        ImageFile { path, dimensions }
    }

    pub fn path(&self) -> (r: &Vec<String>)
        ensures
            r == &self.path,
    {
        &self.path
    }

    /// The decoded pixel dimensions, when the image metadata could be
    /// read at discovery.
    pub fn meta(&self) -> (r: Option<(u32, u32)>)
        ensures
            r == self.dimensions,
    {
        self.dimensions
    }
}

/// The stem of an image file's name.
pub open spec fn img_stem(f: ImageFile) -> Seq<char> {
    if f.path.deep_view().len() > 0 {
        stem_of(f.path.deep_view().last())
    } else {
        Seq::<char>::empty()
    }
}

/// The case-folded stem of an image file's name.
fn image_stem_lower(f: &ImageFile) -> (r: String)
    ensures
        r@ == lower_of(img_stem(*f)),
{
    if f.path.len() == 0 {
        let r = lowercase("");
        proof {
            reveal_strlit("");
            assert(""@ =~= Seq::<char>::empty());
        }
        r
    } else {
        let (stem, _ext) = split_file_name(f.path[f.path.len() - 1].as_str());
        proof {
            assert(f.path.deep_view().last() == f.path@[f.path@.len() - 1]@);
        }
        lowercase(stem.as_str())
    }
}

/// Rule: the stem is exactly `cover` or `front`, case folded.
pub open spec fn is_exact_name(f: ImageFile) -> bool {
    lower_of(img_stem(f)) == "cover"@ || lower_of(img_stem(f)) == "front"@
}

/// Rule: the stem contains `cover` or `front`, case folded.
pub open spec fn is_partial_name(f: ImageFile) -> bool {
    contains_seq(lower_of(img_stem(f)), "cover"@) || contains_seq(lower_of(img_stem(f)), "front"@)
}

/// Rule: the stem contains one of the album titles, all case folded.
pub open spec fn matches_album_title(f: ImageFile, titles: Seq<Seq<char>>) -> bool {
    exists|j: int| 0 <= j < titles.len() && contains_seq(lower_of(img_stem(f)), #[trigger] titles[j])
}

/// First index at or after `i` whose stem is an exact name match.
pub open spec fn first_exact_from(imgs: Seq<ImageFile>, i: int) -> Option<int>
    decreases imgs.len() - i,
{
    if i < 0 || i >= imgs.len() {
        None
    } else if is_exact_name(imgs[i]) {
        Some(i)
    } else {
        first_exact_from(imgs, i + 1)
    }
}

/// First index at or after `i` whose stem is a partial name match.
pub open spec fn first_partial_from(imgs: Seq<ImageFile>, i: int) -> Option<int>
    decreases imgs.len() - i,
{
    if i < 0 || i >= imgs.len() {
        None
    } else if is_partial_name(imgs[i]) {
        Some(i)
    } else {
        first_partial_from(imgs, i + 1)
    }
}

/// First index at or after `i` whose stem matches an album title.
pub open spec fn first_album_match_from(imgs: Seq<ImageFile>, titles: Seq<Seq<char>>, i: int)
    -> Option<int>
    decreases imgs.len() - i,
{
    if i < 0 || i >= imgs.len() {
        None
    } else if matches_album_title(imgs[i], titles) {
        Some(i)
    } else {
        first_album_match_from(imgs, titles, i + 1)
    }
}

/// The running winner of the widest-square scan over the first `n` images:
/// a square image is adopted only when strictly wider than the widest
/// square seen before it.
pub open spec fn best_square(imgs: Seq<ImageFile>, n: int) -> (Option<int>, nat)
    decreases n,
{
    if n <= 0 || n > imgs.len() {
        (None, 0)
    } else {
        let prev = best_square(imgs, n - 1);
        match imgs[n - 1].dimensions {
            Some(d) => if d.0 == d.1 && d.0 > prev.1 {
                (Some(n - 1), d.0 as nat)
            } else {
                prev
            },
            None => prev,
        }
    }
}

/// The colocated image chosen by the heuristic chain, if any: a lone
/// image wins outright; otherwise exact name, partial name, album-title
/// and widest-square matches are tried in that order.
pub open spec fn cover_file_choice(imgs: Seq<ImageFile>, titles: Seq<Seq<char>>) -> Option<int> {
    if imgs.len() == 1 {
        Some(0)
    } else {
        match first_exact_from(imgs, 0) {
            Some(i) => Some(i),
            None => match first_partial_from(imgs, 0) {
                Some(i) => Some(i),
                None => match first_album_match_from(imgs, titles, 0) {
                    Some(i) => Some(i),
                    None => best_square(imgs, imgs.len() as int).0,
                },
            },
        }
    }
}

/// The case-folded album titles of the given tracks that resolved one,
/// in the given order.
pub open spec fn album_titles_lower(files: Seq<AudioFile>, idxs: Seq<usize>) -> Seq<Seq<char>>
    decreases idxs.len(),
{
    if idxs.len() == 0 {
        Seq::<Seq<char>>::empty()
    } else {
        album_titles_lower(files, idxs.drop_last()) + (match files[idxs.last() as int].meta.album_title {
            Some(t) => seq![lower_of(t@)],
            None => Seq::<Seq<char>>::empty(),
        })
    }
}

/// Collects the case-folded album titles of a group's tracks.
pub fn collect_album_titles(files: &Vec<AudioFile>, idxs: &Vec<usize>) -> (r: Vec<String>)
    requires
        forall|p: int| 0 <= p < idxs@.len() ==> (#[trigger] idxs@[p]) < files@.len(),
    ensures
        r.deep_view() == album_titles_lower(files@, idxs@),
{
    let mut out: Vec<String> = Vec::new();
    let mut i: usize = 0;
    while i < idxs.len()
        invariant
            0 <= i <= idxs@.len(),
            forall|p: int| 0 <= p < idxs@.len() ==> (#[trigger] idxs@[p]) < files@.len(),
            out.deep_view() =~= album_titles_lower(files@, idxs@.take(i as int)),
        decreases idxs@.len() - i,
    {
        match &files[idxs[i]].meta.album_title {
            Some(t) => {
                let lt = lowercase(t.as_str());
                out.push(lt);
            },
            None => {},
        }
        proof {
            assert(idxs@.take(i + 1).drop_last() =~= idxs@.take(i as int));
            assert(idxs@.take(i + 1).last() == idxs@[i as int]);
            assert(out.deep_view() =~= album_titles_lower(files@, idxs@.take(i + 1)));
        }
        i = i + 1;
    }
    proof {
        assert(idxs@.take(idxs@.len() as int) =~= idxs@);
    }
    out
}

/// Selects the colocated cover image for a group, by the ordered rules.
pub fn get_cover_art_from_file(image_files: &Vec<ImageFile>, titles_lower: &Vec<String>) -> (r:
    Option<usize>)
    ensures
        match cover_file_choice(image_files@, titles_lower.deep_view()) {
            Some(i) => r matches Some(u) && u == i,
            None => r is None,
        },
{
    let ghost imgs = image_files@;
    let ghost titles = titles_lower.deep_view();
    if image_files.len() == 1 {
        return Some(0);
    }

    // Exact name matches
    let mut i: usize = 0;
    while i < image_files.len()
        invariant
            0 <= i <= imgs.len(),
            imgs == image_files@,
            titles == titles_lower.deep_view(),
            first_exact_from(imgs, 0) == first_exact_from(imgs, i as int),
        decreases imgs.len() - i,
    {
        let name = image_stem_lower(&image_files[i]);
        if str_equal(name.as_str(), "cover") || str_equal(name.as_str(), "front") {
            proof {
                assert(is_exact_name(imgs[i as int]));
            }
            return Some(i);
        }
        proof {
            assert(!is_exact_name(imgs[i as int]));
        }
        i = i + 1;
    }

    // Partial name matches
    let mut i: usize = 0;
    while i < image_files.len()
        invariant
            0 <= i <= imgs.len(),
            imgs == image_files@,
            titles == titles_lower.deep_view(),
            first_exact_from(imgs, 0) is None,
            first_partial_from(imgs, 0) == first_partial_from(imgs, i as int),
        decreases imgs.len() - i,
    {
        let name = image_stem_lower(&image_files[i]);
        if contains_sub(name.as_str(), "cover") || contains_sub(name.as_str(), "front") {
            proof {
                assert(is_partial_name(imgs[i as int]));
            }
            return Some(i);
        }
        proof {
            assert(!is_partial_name(imgs[i as int]));
        }
        i = i + 1;
    }

    // Partial album name matches
    let mut i: usize = 0;
    while i < image_files.len()
        invariant
            0 <= i <= imgs.len(),
            imgs == image_files@,
            titles == titles_lower.deep_view(),
            first_exact_from(imgs, 0) is None,
            first_partial_from(imgs, 0) is None,
            first_album_match_from(imgs, titles, 0) == first_album_match_from(
                imgs,
                titles,
                i as int,
            ),
        decreases imgs.len() - i,
    {
        let name = image_stem_lower(&image_files[i]);
        let mut j: usize = 0;
        let mut hit = false;
        while j < titles_lower.len() && !hit
            invariant
                0 <= j <= titles.len(),
                imgs == image_files@,
                titles == titles_lower.deep_view(),
                0 <= i < imgs.len(),
                name@ == lower_of(img_stem(imgs[i as int])),
                hit ==> matches_album_title(imgs[i as int], titles),
                !hit ==> forall|m: int|
                    0 <= m < j ==> !contains_seq(lower_of(img_stem(imgs[i as int])), #[trigger] titles[m]),
            decreases titles.len() - j,
        {
            if contains_sub(name.as_str(), titles_lower[j].as_str()) {
                proof {
                    assert(titles_lower.deep_view()[j as int] == titles_lower@[j as int]@);
                }
                hit = true;
            }
            j = j + 1;
        }
        if hit {
            return Some(i);
        }
        proof {
            assert(!matches_album_title(imgs[i as int], titles));
        }
        i = i + 1;
    }

    // Largest square image
    let mut i: usize = 0;
    let mut current: Option<usize> = None;
    let mut largest: u32 = 0;
    while i < image_files.len()
        invariant
            0 <= i <= imgs.len(),
            imgs == image_files@,
            titles == titles_lower.deep_view(),
            first_exact_from(imgs, 0) is None,
            first_partial_from(imgs, 0) is None,
            first_album_match_from(imgs, titles, 0) is None,
            best_square(imgs, i as int).1 == largest as nat,
            match best_square(imgs, i as int).0 {
                Some(k) => current matches Some(u) && u == k,
                None => current is None,
            },
        decreases imgs.len() - i,
    {
        match image_files[i].dimensions {
            Some(d) => {
                if d.0 == d.1 && d.0 > largest {
                    current = Some(i);
                    largest = d.0;
                }
            },
            None => {},
        }
        i = i + 1;
    }
    current
}

/// First track at or after `i` flagged as carrying an embedded front
/// cover.
pub open spec fn first_flag_from(flags: Seq<bool>, i: int) -> Option<int>
    decreases flags.len() - i,
{
    if i < 0 || i >= flags.len() {
        None
    } else if flags[i] {
        Some(i)
    } else {
        first_flag_from(flags, i + 1)
    }
}

/// Scans the group's tracks in order for the first embedded front-cover
/// picture.
pub fn get_cover_art_from_tag(has_front_cover: &Vec<bool>) -> (r: Option<usize>)
    ensures
        match first_flag_from(has_front_cover@, 0) {
            Some(i) => r matches Some(u) && u == i,
            None => r is None,
        },
{
    let mut i: usize = 0;
    while i < has_front_cover.len()
        invariant
            0 <= i <= has_front_cover@.len(),
            first_flag_from(has_front_cover@, 0) == first_flag_from(has_front_cover@, i as int),
        decreases has_front_cover@.len() - i,
    {
        if has_front_cover[i] {
            return Some(i);
        }
        i = i + 1;
    }
    None
}

/// Determinism law: the cover choice is a function of the candidate set
/// and its ordering alone, so repeated selection yields the same image.
pub proof fn lemma_cover_selection_deterministic(
    a: Seq<ImageFile>,
    b: Seq<ImageFile>,
    titles: Seq<Seq<char>>,
)
    requires
        a == b,
    ensures
        cover_file_choice(a, titles) == cover_file_choice(b, titles),
{
}

/// Lone-image law: with exactly one colocated image and no other
/// constraints, the first rule wins regardless of the image's name.
pub proof fn lemma_single_image_wins(imgs: Seq<ImageFile>, titles: Seq<Seq<char>>)
    requires
        imgs.len() == 1,
    ensures
        cover_file_choice(imgs, titles) == Some(0int),
{
}


/// One cover candidate, in the order the decoder should try them: a
/// colocated image file, or the embedded front cover of a track.
#[derive(Clone, Copy, PartialEq, Eq, Structural, Debug)]
pub enum CoverRef {
    /// The image file at this index in the group's colocated image list.
    FileAt(usize),
    /// The embedded front cover of the track at this position in the
    /// group's ordered track list.
    TagAt(usize),
}

/// The embedded-picture candidates: one per flagged track, in order.
pub open spec fn tag_candidates_spec(flags: Seq<bool>) -> Seq<CoverRef>
    decreases flags.len(),
{
    if flags.len() == 0 {
        Seq::<CoverRef>::empty()
    } else {
        tag_candidates_spec(flags.drop_last()) + (if flags.last() {
            seq![CoverRef::TagAt((flags.len() - 1) as usize)]
        } else {
            Seq::<CoverRef>::empty()
        })
    }
}

/// The full candidate order: the chosen colocated file, if any, then
/// every embedded front cover in track order.
pub open spec fn cover_candidates_spec(choice: Option<int>, flags: Seq<bool>) -> Seq<CoverRef> {
    (match choice {
        Some(i) => seq![CoverRef::FileAt(i as usize)],
        None => Seq::<CoverRef>::empty(),
    }) + tag_candidates_spec(flags)
}

/// Builds the ordered cover-candidate list for one group: the heuristic
/// chain's file choice first, then the tracks' embedded front covers.
/// The decoder tries them in order, so a candidate it rejects falls
/// through to the next.
pub fn cover_candidates(
    image_files: &Vec<ImageFile>,
    titles_lower: &Vec<String>,
    has_front_cover: &Vec<bool>,
) -> (r: Vec<CoverRef>)
    ensures
        r@ == cover_candidates_spec(
            cover_file_choice(image_files@, titles_lower.deep_view()),
            has_front_cover@,
        ),
{
    let mut r: Vec<CoverRef> = Vec::new();
    match get_cover_art_from_file(image_files, titles_lower) {
        Some(i) => {
            r.push(CoverRef::FileAt(i));
        },
        None => {},
    }
    let ghost head = r@;
    let mut j: usize = 0;
    while j < has_front_cover.len()
        invariant
            0 <= j <= has_front_cover@.len(),
            head == (match cover_file_choice(image_files@, titles_lower.deep_view()) {
                Some(i) => seq![CoverRef::FileAt(i as usize)],
                None => Seq::<CoverRef>::empty(),
            }),
            r@ =~= head + tag_candidates_spec(has_front_cover@.take(j as int)),
        decreases has_front_cover@.len() - j,
    {
        if has_front_cover[j] {
            r.push(CoverRef::TagAt(j));
        }
        proof {
            assert(has_front_cover@.take(j + 1).drop_last() =~= has_front_cover@.take(j as int));
            assert(has_front_cover@.take(j + 1).last() == has_front_cover@[j as int]);
            assert(r@ =~= head + tag_candidates_spec(has_front_cover@.take(j + 1)));
        }
        j = j + 1;
    }
    proof {
        assert(has_front_cover@.take(has_front_cover@.len() as int) =~= has_front_cover@);
    }
    r
}

} // verus!

//! Inference of metadata candidates from directory and file naming
//! conventions.
//!
//! A filesystem path is modelled as its sequence of components, root first.
//! The artist candidate is the directory two levels above the file, the
//! album candidate comes from the parent directory's name (an optional
//! four-digit year, bare or in parentheses, at the end), and the track
//! candidates come from the file stem (optional leading digits and a
//! separator before the title).

use vstd::prelude::*;

use crate::meta::AudioFileType;
use crate::text::{
    all_digits, digits_val, is_ascii_digit_char, is_space_char, lemma_four_digits_fit, lower_of,
    lowercase, parse_digits_u32, str_equal, trim_spec, trim_str,
};

verus! {

/// Checks whether the character at `i` is an ASCII decimal digit.
fn char_at_is_digit(s: &str, i: usize) -> (r: bool)
    requires
        i < s@.len(),
    ensures
        r == is_ascii_digit_char(s@[i as int]),
{
    let cu = s.get_char(i) as u32;
    48 <= cu && cu <= 57
}

/// Checks a character against the Unicode `White_Space` set.
pub fn is_space(c: char) -> (r: bool)
    ensures
        r == is_space_char(c),
{
    c == '\u{0009}' || c == '\u{000A}' || c == '\u{000B}' || c == '\u{000C}' || c == '\u{000D}'
        || c == '\u{0020}' || c == '\u{0085}' || c == '\u{00A0}' || c == '\u{1680}'
        || c == '\u{2000}' || c == '\u{2001}' || c == '\u{2002}' || c == '\u{2003}'
        || c == '\u{2004}' || c == '\u{2005}' || c == '\u{2006}' || c == '\u{2007}'
        || c == '\u{2008}' || c == '\u{2009}' || c == '\u{200A}' || c == '\u{2028}'
        || c == '\u{2029}' || c == '\u{202F}' || c == '\u{205F}' || c == '\u{3000}'
}

/// Whether the first `k` components of `path` are exactly `other`.
pub fn prefix_matches(path: &Vec<String>, k: usize, other: &Vec<String>) -> (r: bool)
    requires
        k <= path@.len(),
    ensures
        r == (path.deep_view().take(k as int) == other.deep_view()),
{
    if other.len() != k {
        proof {
            assert(path.deep_view().take(k as int).len() == k);
            assert(other.deep_view().len() == other@.len());
        }
        return false;
    }
    let mut j: usize = 0;
    while j < k
        invariant
            k <= path@.len(),
            path.deep_view().len() == path@.len(),
            other.deep_view().len() == other@.len(),
            other@.len() == k,
            0 <= j <= k,
            forall|m: int| 0 <= m < j ==> path.deep_view()[m] == other.deep_view()[m],
        decreases k - j,
    {
        if !str_equal(path[j].as_str(), other[j].as_str()) {
            proof {
                assert(path.deep_view()[j as int] == path@[j as int]@);
                assert(other.deep_view()[j as int] == other@[j as int]@);
                assert(path.deep_view().take(k as int)[j as int] == path.deep_view()[j as int]);
            }
            return false;
        }
        proof {
            assert(path.deep_view()[j as int] == path@[j as int]@);
            assert(other.deep_view()[j as int] == other@[j as int]@);
        }
        j = j + 1;
    }
    proof {
        assert(path.deep_view().take(k as int) =~= other.deep_view());
    }
    true
}

/// The artist candidate: the name of the directory two levels above the
/// file, trimmed, unless that directory is the library root.
pub open spec fn artist_candidate(root: Seq<Seq<char>>, path: Seq<Seq<char>>) -> Option<
    Seq<char>,
> {
    if path.len() >= 3 && path.take(path.len() - 2) != root {
        Some(trim_spec(path[path.len() - 3]))
    } else {
        None
    }
}

/// Derives the artist-name candidate from the directory two levels above
/// the file, skipping it when that directory is the library root itself.
pub fn decompose_artist_path(root_path: &Vec<String>, path: &Vec<String>) -> (r: Option<String>)
    ensures
        r.deep_view() == artist_candidate(root_path.deep_view(), path.deep_view()),
{
    if path.len() < 3 {
        return None;
    }
    if prefix_matches(path, path.len() - 2, root_path) {
        return None;
    }
    let name = trim_str(path[path.len() - 3].as_str());
    proof {
        assert(path.deep_view()[path.deep_view().len() - 3] == path@[path@.len() - 3]@);
    }
    Some(name)
}

/// Index one past the end of the year digits in an album directory name:
/// the whole name, less one optional closing parenthesis.
pub open spec fn year_end(s: Seq<char>) -> int {
    if s.len() > 0 && s[s.len() - 1] == ')' {
        s.len() - 1
    } else {
        s.len() as int
    }
}

/// Index of the first year digit.
pub open spec fn year_start(s: Seq<char>) -> int {
    year_end(s) - 4
}

/// Index of the whitespace separator before the year group, after
/// accounting for one optional opening parenthesis.
pub open spec fn sep_index(s: Seq<char>) -> int {
    if year_start(s) >= 1 && s[year_start(s) - 1] == '(' {
        year_start(s) - 2
    } else {
        year_start(s) - 1
    }
}

/// Whether an album directory name ends in a four-digit year, bare or in
/// parentheses, preceded by whitespace and a non-empty title.
pub open spec fn album_match(s: Seq<char>) -> bool {
    year_start(s) >= 0 && all_digits(s.subrange(year_start(s), year_end(s))) && sep_index(s) >= 1
        && is_space_char(s[sep_index(s)])
}

/// The trimmed title part of a matching album directory name.
pub open spec fn album_title_of(s: Seq<char>) -> Seq<char> {
    trim_spec(s.subrange(0, sep_index(s)))
}

/// The year a matching album directory name carries.
pub open spec fn album_year_of(s: Seq<char>) -> nat {
    digits_val(s.subrange(year_start(s), year_end(s)))
}

/// The album title and year candidates a whole path yields: the parent
/// directory's name is matched, unless that directory is the library root.
pub open spec fn album_candidates(root: Seq<Seq<char>>, path: Seq<Seq<char>>) -> (Option<
    Seq<char>,
>, Option<u32>) {
    if path.len() >= 2 && path.take(path.len() - 1) != root && album_match(path[path.len() - 2]) {
        (
            Some(album_title_of(path[path.len() - 2])),
            Some(album_year_of(path[path.len() - 2]) as u32),
        )
    } else {
        (None, None)
    }
}

/// Matches one directory name against the album naming pattern: a title,
/// whitespace, then a four-digit year, bare or parenthesized, at the end.
pub fn match_album_name(s: &str) -> (r: Option<(String, u32)>)
    ensures
        album_match(s@) ==> (r matches Some(p) && p.0@ == album_title_of(s@) && p.1
            == album_year_of(s@)),
        !album_match(s@) ==> r is None,
{
    let n = s.unicode_len();
    let mut end: usize = n;
    if n > 0 && s.get_char(n - 1) == ')' {
        end = n - 1;
    }
    proof {
        assert(end == year_end(s@));
    }
    if end < 4 {
        return None;
    }
    let ystart = end - 4;
    let mut i = ystart;
    while i < end
        invariant
            n == s@.len(),
            end == year_end(s@),
            ystart == year_start(s@),
            0 <= ystart <= i <= end <= n,
            forall|j: int| ystart <= j < i ==> is_ascii_digit_char(#[trigger] s@[j]),
        decreases end - i,
    {
        let c = s.get_char(i);
        let cu = c as u32;
        if !(48 <= cu && cu <= 57) {
            proof {
                assert(!is_ascii_digit_char(s@[i as int]));
                assert(s@.subrange(year_start(s@), year_end(s@))[i - year_start(s@)]
                    == s@[i as int]);
            }
            return None;
        }
        i = i + 1;
    }
    proof {
        assert(forall|j: int|
            0 <= j < s@.subrange(year_start(s@), year_end(s@)).len() ==> is_ascii_digit_char(
                #[trigger] s@.subrange(year_start(s@), year_end(s@))[j],
            ));
    }
    let sep: usize;
    if ystart >= 1 && s.get_char(ystart - 1) == '(' {
        if ystart < 2 {
            proof {
                assert(sep_index(s@) == year_start(s@) - 2);
            }
            return None;
        }
        sep = ystart - 2;
    } else {
        if ystart < 1 {
            return None;
        }
        sep = ystart - 1;
    }
    proof {
        assert(sep == sep_index(s@));
    }
    if sep < 1 {
        return None;
    }
    if !is_space(s.get_char(sep)) {
        return None;
    }
    proof {
        assert(album_match(s@));
    }
    let title_raw = s.substring_char(0, sep);
    let title = trim_str(title_raw);
    let digits = s.substring_char(ystart, end);
    proof {
        assert(digits@ =~= s@.subrange(year_start(s@), year_end(s@)));
        assert(digits@.len() == 4);
    }
    match parse_digits_u32(digits) {
        Some(y) => Some((title, y)),
        None => {
            proof {
                lemma_four_digits_fit(digits@);
            }
            None
        },
    }
}

/// The number of leading ASCII decimal digits.
pub open spec fn digit_prefix_len(s: Seq<char>) -> int
    decreases s.len(),
{
    if s.len() > 0 && is_ascii_digit_char(s[0]) {
        1 + digit_prefix_len(s.drop_first())
    } else {
        0
    }
}

proof fn lemma_digit_prefix_char(s: Seq<char>, i: int)
    requires
        0 <= i <= s.len(),
        forall|j: int| 0 <= j < i ==> is_ascii_digit_char(#[trigger] s[j]),
        i == s.len() || !is_ascii_digit_char(s[i]),
    ensures
        digit_prefix_len(s) == i,
    decreases s.len(),
{
    if i == 0 {
        assert(s.len() == 0 || !is_ascii_digit_char(s[0]));
    } else {
        assert(is_ascii_digit_char(s[0]));
        let t = s.drop_first();
        assert(forall|j: int| 0 <= j < i - 1 ==> is_ascii_digit_char(#[trigger] t[j]));
        lemma_digit_prefix_char(t, i - 1);
    }
}

/// Index just past the separator after a leading track number in a file
/// stem, or a negative value when the stem has no such prefix. The digits
/// may be followed by one optional period, then either whitespace-dash-
/// whitespace or a single whitespace character, and at least one more
/// character must remain for the title.
pub open spec fn stem_sep_end(s: Seq<char>) -> int {
    let d = digit_prefix_len(s);
    if d == 0 {
        -1
    } else {
        let p = if d < s.len() && s[d] == '.' {
            d + 1
        } else {
            d
        };
        if p + 3 < s.len() && is_space_char(s[p]) && s[p + 1] == '-' && is_space_char(s[p + 2]) {
            p + 3
        } else if p + 1 < s.len() && is_space_char(s[p]) {
            p + 1
        } else {
            -1
        }
    }
}

/// The track-number candidate a file stem yields: the leading digits, when
/// a separator and title follow and the value fits in a `u32`.
pub open spec fn stem_track_number(s: Seq<char>) -> Option<u32> {
    if stem_sep_end(s) >= 0 && digits_val(s.take(digit_prefix_len(s))) <= u32::MAX {
        Some(digits_val(s.take(digit_prefix_len(s))) as u32)
    } else {
        None
    }
}

/// The track-title candidate a file stem yields: what follows the
/// separator when the stem has a track-number prefix, the whole stem
/// otherwise; trimmed either way.
pub open spec fn stem_track_title(s: Seq<char>) -> Seq<char> {
    if stem_sep_end(s) >= 0 {
        trim_spec(s.skip(stem_sep_end(s)))
    } else {
        trim_spec(s)
    }
}

/// Splits a file stem into its track-number and track-title candidates.
pub fn decompose_stem(s: &str) -> (r: (Option<u32>, String))
    ensures
        r.0 == stem_track_number(s@),
        r.1@ == stem_track_title(s@),
{
    let n = s.unicode_len();
    let mut i: usize = 0;
    while i < n && char_at_is_digit(s, i)
        invariant
            n == s@.len(),
            0 <= i <= n,
            forall|j: int| 0 <= j < i ==> is_ascii_digit_char(#[trigger] s@[j]),
        decreases n - i,
    {
        i = i + 1;
    }
    proof {
        lemma_digit_prefix_char(s@, i as int);
    }
    let d = i;
    if d == 0 {
        let title = trim_str(s);
        return (None, title);
    }
    let mut p = d;
    if d < n && s.get_char(d) == '.' {
        p = d + 1;
    }
    let rem = n - p;
    let sep_end: usize;
    if rem > 3 && is_space(s.get_char(p)) && s.get_char(p + 1) == '-' && is_space(
        s.get_char(p + 2),
    ) {
        sep_end = p + 3;
    } else if rem > 1 && is_space(s.get_char(p)) {
        sep_end = p + 1;
    } else {
        let title = trim_str(s);
        proof {
            assert(stem_sep_end(s@) < 0);
        }
        return (None, title);
    }
    proof {
        assert(sep_end == stem_sep_end(s@));
    }
    let title_raw = s.substring_char(sep_end, n);
    let title = trim_str(title_raw);
    proof {
        assert(title_raw@ =~= s@.skip(stem_sep_end(s@)));
    }
    let digits = s.substring_char(0, d);
    proof {
        assert(digits@ =~= s@.take(d as int));
        assert(all_digits(digits@));
    }
    let number = parse_digits_u32(digits);
    (number, title)
}

/// Index of the dot separating stem from extension in a file name: the
/// last `'.'` at index one or greater, or a negative value when there is
/// none (a name that is all extension, like a hidden file, has no
/// extension of its own).
pub open spec fn last_dot(name: Seq<char>) -> int
    decreases name.len(),
{
    if name.len() <= 1 {
        -1
    } else if name[name.len() - 1] == '.' {
        name.len() - 1
    } else {
        last_dot(name.drop_last())
    }
}

/// The file stem: everything before the extension dot.
pub open spec fn stem_of(name: Seq<char>) -> Seq<char> {
    if last_dot(name) >= 1 {
        name.take(last_dot(name))
    } else {
        name
    }
}

/// The extension: everything after the extension dot, when there is one.
pub open spec fn ext_of(name: Seq<char>) -> Option<Seq<char>> {
    if last_dot(name) >= 1 {
        Some(name.skip(last_dot(name) + 1))
    } else {
        None
    }
}

/// The container kind a file name implies: its extension, case folded,
/// must name a supported format.
pub open spec fn container_kind_of(name: Seq<char>) -> Option<AudioFileType> {
    match ext_of(name) {
        Some(e) => if lower_of(e) == "mp3"@ {
            Some(AudioFileType::Mp3)
        } else if lower_of(e) == "flac"@ {
            Some(AudioFileType::Flac)
        } else {
            None
        },
        None => None,
    }
}

/// Splits a file name at the extension dot.
pub fn split_file_name(name: &str) -> (r: (String, Option<String>))
    ensures
        r.0@ == stem_of(name@),
        r.1.deep_view() == ext_of(name@),
{
    let n = name.unicode_len();
    let mut k: usize = n;
    proof {
        assert(name@.take(n as int) =~= name@);
    }
    while k > 1
        invariant
            n == name@.len(),
            0 <= k <= n,
            last_dot(name@) == last_dot(name@.take(k as int)),
        decreases k,
    {
        if name.get_char(k - 1) == '.' {
            proof {
                assert(name@.take(k as int)[k - 1] == name@[k - 1]);
                assert(last_dot(name@.take(k as int)) == k - 1);
            }
            let stem = name.substring_char(0, k - 1);
            let ext = name.substring_char(k, n);
            proof {
                assert(stem@ =~= stem_of(name@));
                assert(ext@ =~= name@.skip(last_dot(name@) + 1));
            }
            return (String::from_str(stem), Some(String::from_str(ext)));
        }
        proof {
            assert(name@.take(k as int).drop_last() =~= name@.take(k - 1));
            assert(name@.take(k as int)[k - 1] == name@[k - 1]);
        }
        k = k - 1;
    }
    proof {
        assert(last_dot(name@) == -1);
    }
    (String::from_str(name), None)
}

/// Derives the track-number and track-title candidates and the container
/// kind from the file's own name.
pub fn decompose_file_path(path: &Vec<String>) -> (r: (
    Option<u32>,
    Option<String>,
    Option<AudioFileType>,
))
    ensures
        path.deep_view().len() == 0 ==> r == (
            None::<u32>,
            None::<String>,
            None::<AudioFileType>,
        ),
        path.deep_view().len() > 0 ==> {
            let name = path.deep_view().last();
            r.0 == stem_track_number(stem_of(name)) && (r.1 matches Some(t) && t@
                == stem_track_title(stem_of(name))) && r.2 == container_kind_of(name)
        },
{
    if path.len() == 0 {
        return (None, None, None);
    }
    let name = path[path.len() - 1].as_str();
    proof {
        assert(path.deep_view().last() == path@[path@.len() - 1]@);
    }
    let (stem, ext) = split_file_name(name);
    let kind: Option<AudioFileType> = match ext {
        Some(e) => {
            let le = lowercase(e.as_str());
            if str_equal(le.as_str(), "mp3") {
                Some(AudioFileType::Mp3)
            } else if str_equal(le.as_str(), "flac") {
                Some(AudioFileType::Flac)
            } else {
                None
            }
        },
        None => None,
    };
    let (number, title) = decompose_stem(stem.as_str());
    (number, Some(title), kind)
}

/// Derives the album-title and album-year candidates from the parent
/// directory's name, skipping it when that directory is the library root.
pub fn decompose_album_path(root_path: &Vec<String>, path: &Vec<String>) -> (r: (
    Option<String>,
    Option<u32>,
))
    ensures
        r.0.deep_view() == album_candidates(root_path.deep_view(), path.deep_view()).0,
        r.1 == album_candidates(root_path.deep_view(), path.deep_view()).1,
{
    if path.len() < 2 {
        return (None, None);
    }
    if prefix_matches(path, path.len() - 1, root_path) {
        return (None, None);
    }
    proof {
        assert(path.deep_view()[path.deep_view().len() - 2] == path@[path@.len() - 2]@);
    }
    match match_album_name(path[path.len() - 2].as_str()) {
        Some((title, year)) => (Some(title), Some(year)),
        None => (None, None),
    }
}

} // verus!

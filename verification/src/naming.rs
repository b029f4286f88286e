//! Output naming: destination file names and the display widths the
//! reporting alignment uses.

use vstd::prelude::*;

use crate::meta::{AudioFile, AudioFileType};
use crate::text::{
    dec_digits, replace_sep_spec, replace_separators, u64_to_dec, u64_to_dec_padded,
    zero_pad_spec,
};

verus! {

/// The canonical extension of a container kind.
pub open spec fn ext_spec(t: AudioFileType) -> Seq<char> {
    match t {
        AudioFileType::Flac => "flac"@,
        AudioFileType::Mp3 => "mp3"@,
    }
}

/// A track's destination file name: the zero-padded track number, a
/// space, the title with path separators replaced, a dot, the extension.
pub open spec fn track_file_name_spec(
    width: nat,
    number: u32,
    title: Seq<char>,
    kind: AudioFileType,
) -> Seq<char> {
    zero_pad_spec(dec_digits(number as nat), width) + seq![' '] + replace_sep_spec(title)
        + seq!['.'] + ext_spec(kind)
}

/// Formats a track's destination file name.
pub fn format_track_file_name(width: usize, number: u32, title: &str, kind: AudioFileType) -> (r:
    String)
    ensures
        r@ == track_file_name_spec(width as nat, number, title@, kind),
{
    let mut s = u64_to_dec_padded(number as u64, width);
    proof {
        reveal_strlit(" ");
        reveal_strlit(".");
    }
    s.append(" ");
    let replaced = replace_separators(title);
    s.append(replaced.as_str());
    s.append(".");
    s.append(kind.to_extension());
    proof {
        assert(s@ =~= track_file_name_spec(width as nat, number, title@, kind));
    }
    s
}

/// The name of the standalone cover file written once per album.
pub fn cover_file_name() -> (r: &'static str)
    ensures
        r@ == "cover.jpg"@,
{
    "cover.jpg"
}

/// The track-number field width: at least two digits, and wide enough
/// for the group's total track count.
pub open spec fn track_num_width_spec(total: nat) -> nat {
    if dec_digits(total).len() < 2 {
        2
    } else {
        dec_digits(total).len()
    }
}

/// Computes the track-number field width for a group of `total` tracks.
pub fn get_max_track_num_length(total: usize) -> (r: usize)
    ensures
        r == track_num_width_spec(total as nat),
{
    let digits = u64_to_dec(total as u64);
    let len = digits.as_str().unicode_len();
    if len < 2 {
        2
    } else {
        len
    }
}

/// The longest resolved track title among the given tracks, in
/// characters.
pub open spec fn max_title_len_spec(files: Seq<AudioFile>, idxs: Seq<usize>) -> nat
    decreases idxs.len(),
{
    if idxs.len() == 0 {
        0
    } else {
        let rest = max_title_len_spec(files, idxs.drop_last());
        let cur = match files[idxs.last() as int].meta.track_title {
            Some(t) => t@.len(),
            None => 0,
        };
        if cur > rest {
            cur
        } else {
            rest
        }
    }
}

/// Computes the longest resolved track title among a group's tracks.
pub fn get_max_title_length(files: &Vec<AudioFile>, idxs: &Vec<usize>) -> (r: usize)
    requires
        forall|p: int| 0 <= p < idxs@.len() ==> (#[trigger] idxs@[p]) < files@.len(),
    ensures
        r == max_title_len_spec(files@, idxs@),
{
    let mut best: usize = 0;
    let mut i: usize = 0;
    while i < idxs.len()
        invariant
            0 <= i <= idxs@.len(),
            forall|p: int| 0 <= p < idxs@.len() ==> (#[trigger] idxs@[p]) < files@.len(),
            best == max_title_len_spec(files@, idxs@.take(i as int)),
        decreases idxs@.len() - i,
    {
        let cur: usize = match &files[idxs[i]].meta.track_title {
            Some(t) => t.as_str().unicode_len(),
            None => 0,
        };
        if cur > best {
            best = cur;
        }
        proof {
            assert(idxs@.take(i + 1).drop_last() =~= idxs@.take(i as int));
            assert(idxs@.take(i + 1).last() == idxs@[i as int]);
        }
        i = i + 1;
    }
    proof {
        assert(idxs@.take(idxs@.len() as int) =~= idxs@);
    }
    best
}

/// The longest canonical extension among the given tracks, in
/// characters.
pub open spec fn max_ext_len_spec(files: Seq<AudioFile>, idxs: Seq<usize>) -> nat
    decreases idxs.len(),
{
    if idxs.len() == 0 {
        0
    } else {
        let rest = max_ext_len_spec(files, idxs.drop_last());
        let cur = match files[idxs.last() as int].meta.audio_file_type {
            Some(t) => ext_spec(t).len(),
            None => 0,
        };
        if cur > rest {
            cur
        } else {
            rest
        }
    }
}

/// Computes the longest canonical extension among a group's tracks.
pub fn get_max_extension_length(files: &Vec<AudioFile>, idxs: &Vec<usize>) -> (r: usize)
    requires
        forall|p: int| 0 <= p < idxs@.len() ==> (#[trigger] idxs@[p]) < files@.len(),
    ensures
        r == max_ext_len_spec(files@, idxs@),
{
    let mut best: usize = 0;
    let mut i: usize = 0;
    while i < idxs.len()
        invariant
            0 <= i <= idxs@.len(),
            forall|p: int| 0 <= p < idxs@.len() ==> (#[trigger] idxs@[p]) < files@.len(),
            best == max_ext_len_spec(files@, idxs@.take(i as int)),
        decreases idxs@.len() - i,
    {
        let cur: usize = match &files[idxs[i]].meta.audio_file_type {
            Some(t) => t.to_extension().unicode_len(),
            None => 0,
        };
        if cur > best {
            best = cur;
        }
        proof {
            assert(idxs@.take(i + 1).drop_last() =~= idxs@.take(i as int));
            assert(idxs@.take(i + 1).last() == idxs@[i as int]);
        }
        i = i + 1;
    }
    proof {
        assert(idxs@.take(idxs@.len() as int) =~= idxs@);
    }
    best
}

/// Adds two widths, saturating instead of overflowing.
pub fn add_width(a: usize, b: usize) -> (r: usize)
    ensures
        a + b <= usize::MAX ==> r == a + b,
        a + b > usize::MAX ==> r == usize::MAX,
{
    if a > usize::MAX - b {
        usize::MAX
    } else {
        a + b
    }
}

} // verus!

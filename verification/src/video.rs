//! Which files of a directory are videos.
//!
//! A file is a video by its name alone: its extension, in lower case, is one
//! of a fixed list.

use crate::paths::{file_name, path_file_name};
use crate::text::{compare, lemma_rank_same, lowercase_of, to_lowercase, Rank};
use vstd::prelude::*;
use vstd::std_specs::iter::IteratorSpec;

verus! {

/// The extensions of video files, in lower case.
pub open spec fn video_extensions() -> Seq<Seq<char>> {
    seq!["mp4"@, "mkv"@, "avi"@, "mov"@, "wmv"@, "flv"@, "webm"@]
}

/// The extension of a file name: what follows its last dot. A name without a
/// dot has none, nor has one whose only dot is its first character.
pub open spec fn extension(name: Seq<char>) -> Option<Seq<char>> {
    match name.index_of_last('.') {
        Some(dot) => if dot > 0 {
            Some(name.skip(dot + 1))
        } else {
            None
        },
        None => None,
    }
}

/// Whether `name` is `stem`, a dot, and `ext`.
pub open spec fn splits_at_dot(name: Seq<char>, stem: Seq<char>, ext: Seq<char>) -> bool {
    name == stem + seq!['.'] + ext
}

/// What [`extension`] comes to, said of the name itself: a name with an
/// extension is a stem that is not empty, a dot, and the extension, which
/// holds no dot. A name without one holds no dot but, at most, its first
/// character.
pub proof fn lemma_extension_splits_name(name: Seq<char>)
    ensures
        extension(name) matches Some(ext) ==> !ext.contains('.') && exists|stem: Seq<char>|
            stem.len() > 0 && #[trigger] splits_at_dot(name, stem, ext),
        extension(name) is None ==> forall|k: int| 0 < k < name.len() ==> name[k] != '.',
{
    name.index_of_last_ensures('.');
    if let Some(dot) = name.index_of_last('.') {
        if dot > 0 {
            let stem = name.take(dot);
            let ext = name.skip(dot + 1);
            assert(name =~= stem + seq!['.'] + ext);
            assert(splits_at_dot(name, stem, ext));
        }
    }
}

/// A file name is a video's when its extension, put in lower case, is one of
/// the video extensions.
pub open spec fn video_name(name: Seq<char>) -> bool {
    match extension(name) {
        Some(ext) => video_extensions().contains(lowercase_of(ext)),
        None => false,
    }
}

/// A path is a video's when it ends in a file name that is a video's.
pub open spec fn video_path(path: Seq<char>) -> bool {
    match path_file_name(path) {
        Some(name) => video_name(name),
        None => false,
    }
}

/// Whether `ext`, taken as it is written, is one of the video extensions.
pub fn is_video_extension(ext: &str) -> (listed: bool)
    ensures
        listed == video_extensions().contains(ext@),
{
    let known: [&str; 7] = ["mp4", "mkv", "avi", "mov", "wmv", "flv", "webm"];
    let ghost all = video_extensions();
    let mut i: usize = 0;
    while i < 7
        invariant
            i <= 7,
            known@.len() == 7,
            all == video_extensions(),
            forall|k: int| 0 <= k < 7 ==> (#[trigger] known@[k])@ == all[k],
            forall|k: int| 0 <= k < i ==> all[k] != ext@,
        decreases 7 - i,
    {
        proof {
            lemma_rank_same(ext@, all[i as int]);
        }
        match compare(ext, known[i]) {
            Rank::Same => {
                return true;
            },
            _ => {},
        }
        i = i + 1;
    }
    false
}

/// The extension of a file name, as a part of the name.
pub fn extension_of(name: &str) -> (ext: Option<&str>)
    ensures
        match ext {
            Some(e) => extension(name@) == Some(e@),
            None => extension(name@) is None,
        },
{
    let length: usize = name.unicode_len();
    let mut chars = name.chars();
    let mut seen: usize = 0;
    let mut dot: Option<usize> = None;
    loop
        invariant
            chars.decrease() is Some,
            seen <= length == name@.len(),
            chars.remaining() == name@.skip(seen as int),
            match dot {
                Some(d) => d < seen && name@[d as int] == '.' && forall|k: int|
                    d < k < seen ==> name@[k] != '.',
                None => forall|k: int| 0 <= k < seen ==> name@[k] != '.',
            },
        decreases chars.decrease()->0,
    {
        match chars.next() {
            Some(c) => {
                if c == '.' {
                    dot = Some(seen);
                }
                seen = seen + 1;
            },
            None => {
                proof {
                    name@.index_of_last_ensures('.');
                }
                return match dot {
                    Some(d) => if d > 0 {
                        Some(name.substring_char(d + 1, length))
                    } else {
                        None
                    },
                    None => None,
                };
            },
        }
    }
}

/// Whether a file name is a video's.
pub fn is_video_name(name: &str) -> (video: bool)
    ensures
        video == video_name(name@),
{
    match extension_of(name) {
        Some(ext) => {
            let lower = to_lowercase(ext);
            is_video_extension(lower.as_str())
        },
        None => false,
    }
}

/// Whether a path is a video's.
pub fn is_video_path(path: &str) -> (video: bool)
    ensures
        video == video_path(path@),
{
    match file_name(path) {
        Some(name) => is_video_name(name.as_str()),
        None => false,
    }
}

} // verus!

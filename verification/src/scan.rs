use vstd::prelude::*;

use crate::digits::{chars_prefix, match_chars_prefix};

verus! {

/// Coarse media kind, inferred once from content-type inference and never
/// persisted.
#[derive(Clone, Copy, PartialEq, Eq, Structural, Debug)]
pub enum FileType {
    Image,
    Video,
    Audio,
}

/// A classified file: its path, its base name, and its inferred kind.
#[derive(Debug)]
pub struct FileInfo {
    pub path: String,
    pub name: String,
    pub file_type: FileType,
}

/// The content type that content-type inference reports for a path name.
/// The guess is derived from the path text alone (its extension), never
/// from file bytes.
pub uninterp spec fn mime_of(path: Seq<char>) -> Seq<char>;

/// Relies on `mime_guess::from_path` and `MimeGuess::first_or_octet_stream`:
/// the guess is a pure lookup on the path's extension, with
/// `application/octet-stream` as the fallback, so the result is a function
/// of the path text alone.
#[verifier::external_body]
pub fn guess_mime_type(path: &str) -> (r: String)
    ensures
        r@ == mime_of(path@),
{
    mime_guess::from_path(path).first_or_octet_stream().to_string()
}

pub open spec fn image_prefix() -> Seq<char> {
    seq!['i', 'm', 'a', 'g', 'e', '/']
}

pub open spec fn video_prefix() -> Seq<char> {
    seq!['v', 'i', 'd', 'e', 'o', '/']
}

pub open spec fn audio_prefix() -> Seq<char> {
    seq!['a', 'u', 'd', 'i', 'o', '/']
}

/// The media kind that a content-type string denotes, by its top-level type.
pub open spec fn spec_categorize(m: Seq<char>) -> Option<FileType> {
    if chars_prefix(m, image_prefix()) {
        Some(FileType::Image)
    } else if chars_prefix(m, video_prefix()) {
        Some(FileType::Video)
    } else if chars_prefix(m, audio_prefix()) {
        Some(FileType::Audio)
    } else {
        None
    }
}

/// Map a content-type string to a media kind; unknown or unmapped types
/// yield `None`, which callers treat as "not media", never as an error.
pub fn categorize_mime_type(mime: &str) -> (r: Option<FileType>)
    ensures
        r == spec_categorize(mime@),
{
    let image_lit: Vec<char> = vec!['i', 'm', 'a', 'g', 'e', '/'];
    let video_lit: Vec<char> = vec!['v', 'i', 'd', 'e', 'o', '/'];
    let audio_lit: Vec<char> = vec!['a', 'u', 'd', 'i', 'o', '/'];
    proof {
        assert(image_lit@ =~= image_prefix());
        assert(video_lit@ =~= video_prefix());
        assert(audio_lit@ =~= audio_prefix());
    }
    if match_chars_prefix(mime, image_lit.as_slice()) {
        Some(FileType::Image)
    } else if match_chars_prefix(mime, video_lit.as_slice()) {
        Some(FileType::Video)
    } else if match_chars_prefix(mime, audio_lit.as_slice()) {
        Some(FileType::Audio)
    } else {
        None
    }
}

/// The media kind inferred for a path, straight from its content type.
pub open spec fn spec_kind_of_path(path: Seq<char>) -> Option<FileType> {
    spec_categorize(mime_of(path))
}

/// Classify one path: infer its content type and map it to a media kind.
/// Paths of no media kind yield `None`.
pub fn classify_path(path: String, name: String) -> (r: Option<FileInfo>)
    ensures
        match r {
            Some(fi) => {
                &&& spec_kind_of_path(path@) == Some(fi.file_type)
                &&& fi.path == path
                &&& fi.name == name
            },
            None => spec_kind_of_path(path@) is None,
        },
{
    let mime = guess_mime_type(path.as_str());
    match categorize_mime_type(mime.as_str()) {
        Some(ft) => Some(FileInfo { path, name, file_type: ft }),
        None => None,
    }
}

/// The classification of a list of `(path, base name)` entries: each entry
/// of a media kind contributes a `FileInfo`, in order; the rest are dropped.
pub open spec fn spec_classify_list(entries: Seq<(String, String)>) -> Seq<FileInfo>
    decreases entries.len(),
{
    if entries.len() == 0 {
        Seq::<FileInfo>::empty()
    } else {
        let rest = spec_classify_list(entries.drop_last());
        let e = entries.last();
        match spec_kind_of_path(e.0@) {
            Some(ft) => rest.push(FileInfo { path: e.0, name: e.1, file_type: ft }),
            None => rest,
        }
    }
}

/// Classify every entry of a flat `(path, base name)` list, keeping only
/// entries of a media kind, in their given order.
pub fn classify_entries(entries: &Vec<(String, String)>) -> (r: Vec<FileInfo>)
    ensures
        r@ == spec_classify_list(entries@),
{
    let n: usize = entries.len();
    let mut r: Vec<FileInfo> = Vec::new();
    let mut k: usize = 0;
    while k < n
        invariant
            0 <= k <= n == entries@.len(),
            r@ == spec_classify_list(entries@.subrange(0, k as int)),
        decreases n - k,
    {
        let path: String = entries[k].0.clone();
        let name: String = entries[k].1.clone();
        proof {
            assert(path == entries@[k as int].0);
            assert(name == entries@[k as int].1);
        }
        match classify_path(path, name) {
            Some(fi) => {
                r.push(fi);
            },
            None => {},
        }
        proof {
            let pre = entries@.subrange(0, k as int);
            let cur = entries@.subrange(0, k + 1);
            assert(cur.drop_last() =~= pre);
            assert(cur.last() == entries@[k as int]);
        }
        k = k + 1;
    }
    proof {
        assert(entries@.subrange(0, n as int) =~= entries@);
    }
    r
}

} // verus!

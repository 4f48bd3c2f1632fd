//! Classification of file names by extension, and the hidden-entry policy.
//!
//! Classification is cheap and purely by name; it decides what a listing
//! shows, never what may be served.

use vstd::prelude::*;
use crate::constants::{ARCHIVE_EXTENSIONS, AUDIO_EXTENSIONS, IMAGE_EXTENSIONS, VIDEO_EXTENSIONS};
use crate::text::{chars_of, contains_seq, find_from, str_ends_with};

verus! {

/// The lower-case form of a string under the standard library's Unicode
/// case mapping.
pub uninterp spec fn lowercase_of(s: Seq<char>) -> Seq<char>;

/// Calls `str::to_lowercase`. Trusted: the result is the standard library's
/// lower-case mapping of the argument, which depends on nothing else.
#[verifier::external_body]
pub(crate) fn to_lowercase(s: &str) -> (lower: String)
    ensures
        lower@ == lowercase_of(s@),
{
    s.to_lowercase()
}

/// Some extension of `exts` is a suffix of `lower`.
pub open spec fn has_extension_in(lower: Seq<char>, exts: Seq<&'static str>) -> bool {
    exists|i: int| 0 <= i < exts.len() && (#[trigger] exts[i])@.is_suffix_of(lower)
}

/// A name that classifies as an image.
pub open spec fn is_image_name(name: Seq<char>) -> bool {
    has_extension_in(lowercase_of(name), IMAGE_EXTENSIONS@)
}

/// A name that classifies as a video.
pub open spec fn is_video_name(name: Seq<char>) -> bool {
    has_extension_in(lowercase_of(name), VIDEO_EXTENSIONS@)
}

/// A name that classifies as audio.
pub open spec fn is_audio_name(name: Seq<char>) -> bool {
    has_extension_in(lowercase_of(name), AUDIO_EXTENSIONS@)
}

/// A name that classifies as an archive.
pub open spec fn is_archive_name(name: Seq<char>) -> bool {
    has_extension_in(lowercase_of(name), ARCHIVE_EXTENSIONS@)
}

/// A path inside a listing or an archive that is hidden: it begins with a
/// dot, or one of its later segments does.
pub open spec fn is_hidden_path(path: Seq<char>) -> bool {
    (path.len() > 0 && path[0] == '.') || contains_seq(path, seq!['/', '.'])
}

/// A single name that is hidden: it begins with a dot.
pub open spec fn is_hidden_name(name: Seq<char>) -> bool {
    name.len() > 0 && name[0] == '.'
}

/// Whether the already lower-cased name `lower` ends with one of `exts`.
pub fn has_extension(lower: &str, exts: &[&'static str]) -> (r: bool)
    ensures
        r == has_extension_in(lower@, exts@),
{
    let mut i: usize = 0;
    while i < exts.len()
        invariant
            i <= exts.len(),
            forall|j: int| 0 <= j < i ==> !(#[trigger] exts@[j])@.is_suffix_of(lower@),
        decreases exts.len() - i,
    {
        if str_ends_with(lower, exts[i]) {
            return true;
        }
        i += 1;
    }
    false
}

/// Whether `filename` has an image extension, ignoring case.
pub fn is_image(filename: &str) -> (r: bool)
    ensures
        r == is_image_name(filename@),
{
    let lower = to_lowercase(filename);
    has_extension(lower.as_str(), &IMAGE_EXTENSIONS)
}

/// Whether `filename` has a video extension, ignoring case.
pub fn is_video(filename: &str) -> (r: bool)
    ensures
        r == is_video_name(filename@),
{
    let lower = to_lowercase(filename);
    has_extension(lower.as_str(), &VIDEO_EXTENSIONS)
}

/// Whether `filename` has an audio extension, ignoring case.
pub fn is_audio(filename: &str) -> (r: bool)
    ensures
        r == is_audio_name(filename@),
{
    let lower = to_lowercase(filename);
    has_extension(lower.as_str(), &AUDIO_EXTENSIONS)
}

/// Whether `filename` has an archive extension, ignoring case.
pub fn is_archive(filename: &str) -> (r: bool)
    ensures
        r == is_archive_name(filename@),
{
    let lower = to_lowercase(filename);
    has_extension(lower.as_str(), &ARCHIVE_EXTENSIONS)
}

/// Whether the single name `name` is hidden.
pub fn is_hidden(name: &str) -> (r: bool)
    ensures
        r == is_hidden_name(name@),
{
    let v = chars_of(name);
    v.len() > 0 && v[0] == '.'
}

/// Whether the path `path` is hidden, by the policy shared between
/// directory listings and archive members.
pub fn is_hidden_member(path: &str) -> (r: bool)
    ensures
        r == is_hidden_path(path@),
{
    let v = chars_of(path);
    if v.len() > 0 && v[0] == '.' {
        return true;
    }
    let mut pat: Vec<char> = Vec::new();
    pat.push('/');
    pat.push('.');
    assert(pat@ =~= seq!['/', '.']);
    find_from(&v, &pat, 0).is_some()
}

} // verus!

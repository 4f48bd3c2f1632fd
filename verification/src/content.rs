//! Content-type validation: what a file really is, by its leading bytes,
//! checked against what its name claims.
//!
//! A file is only sent when its bytes are recognised and the recognised
//! type lies in the category of its extension. Unrecognised content is
//! refused, not trusted.

use vstd::prelude::*;
use crate::error::AppError;
use crate::filetypes::{
    is_audio, is_audio_name, is_image, is_image_name, is_video, is_video_name,
};
use crate::text::str_starts_with;

verus! {

/// The category that a media file's extension places it in.
#[derive(Debug, Clone, Copy, PartialEq, Eq, Structural)]
pub enum MediaCategory {
    Image,
    Video,
    Audio,
}

impl MediaCategory {
    /// The major part of the MIME types of this category, with its slash.
    pub open spec fn spec_prefix(self) -> Seq<char> {
        match self {
            MediaCategory::Image => "image/"@,
            MediaCategory::Video => "video/"@,
            MediaCategory::Audio => "audio/"@,
        }
    }

    /// The major part of the MIME types of this category, with its slash.
    pub fn prefix(&self) -> (text: &'static str)
        ensures
            text@ == self.spec_prefix(),
    {
        match self {
            MediaCategory::Image => "image/",
            MediaCategory::Video => "video/",
            MediaCategory::Audio => "audio/",
        }
    }
}

/// The MIME type that the leading bytes of `content` are recognised as by
/// the `infer` crate's table of signatures, `None` where they match none.
pub uninterp spec fn sniffed_mime(content: Seq<u8>) -> Option<Seq<char>>;

/// The MIME type that the `mime_guess` crate's table gives for the
/// extension of `path`, `application/octet-stream` where it has none.
pub uninterp spec fn guessed_mime(path: Seq<char>) -> Seq<char>;

/// How many leading bytes of a file are looked at to recognise it.
pub const SNIFF_LENGTH: usize = 8192;

/// The leading bytes of `content` by which it is recognised.
pub open spec fn sniffed_prefix(content: Seq<u8>) -> Seq<u8> {
    if content.len() <= SNIFF_LENGTH {
        content
    } else {
        content.subrange(0, SNIFF_LENGTH as int)
    }
}

/// The MIME type that `content` is recognised as, by its leading bytes.
pub open spec fn recognised_mime(content: Seq<u8>) -> Option<Seq<char>> {
    sniffed_mime(sniffed_prefix(content))
}

/// Calls `infer::get` and takes the MIME type of the match. Trusted: the
/// result is the first signature of the crate's table that the bytes match,
/// which depends on the bytes alone. The bytes are limited to the length
/// within which the crate itself reads a file: one of its matchers calls
/// itself once for every eight bytes of some inputs.
#[verifier::external_body]
fn sniff_mime(content: &[u8]) -> (mime: Option<&'static str>)
    requires
        content@.len() <= SNIFF_LENGTH,
    ensures
        match mime {
            Some(m) => sniffed_mime(content@) == Some(m@),
            None => sniffed_mime(content@) is None,
        },
{
    infer::get(content).map(|kind| kind.mime_type())
}

/// Calls `mime_guess::from_path` and takes the first guess, or
/// `application/octet-stream`. Trusted: the result is the crate's table
/// entry for the path's extension, which depends on the path's text alone.
/// No disk access is made.
#[verifier::external_body]
pub(crate) fn guess_mime(path: &str) -> (mime: String)
    ensures
        mime@ == guessed_mime(path@),
{
    mime_guess::from_path(path).first_or_octet_stream().to_string()
}

/// The category of a name by its extension: image before video before audio.
pub open spec fn category_of_name(name: Seq<char>) -> Option<MediaCategory> {
    if is_image_name(name) {
        Some(MediaCategory::Image)
    } else if is_video_name(name) {
        Some(MediaCategory::Video)
    } else if is_audio_name(name) {
        Some(MediaCategory::Audio)
    } else {
        None
    }
}

/// What validation answers for content recognised as `detected` where a
/// type beginning with `expected` is required: the recognised type, or
/// `Forbidden` where nothing was recognised or the type is of another kind.
pub open spec fn category_checked(detected: Option<Seq<char>>, expected: Seq<char>) -> Result<
    Seq<char>,
    AppError,
> {
    match detected {
        Some(mime) if expected.is_prefix_of(mime) => Ok(mime),
        _ => Err(AppError::Forbidden),
    }
}

/// The category of `file_name` by its extension.
pub fn category_of(file_name: &str) -> (category: Option<MediaCategory>)
    ensures
        category == category_of_name(file_name@),
{
    if is_image(file_name) {
        Some(MediaCategory::Image)
    } else if is_video(file_name) {
        Some(MediaCategory::Video)
    } else if is_audio(file_name) {
        Some(MediaCategory::Audio)
    } else {
        None
    }
}

/// Checks a recognised MIME type against the expected category.
pub fn check_category(detected: Option<&str>, expected_category: &str) -> (checked: Result<
    String,
    AppError,
>)
    ensures
        match checked {
            Ok(mime) => category_checked(
                match detected {
                    Some(d) => Some(d@),
                    None => None,
                },
                expected_category@,
            ) == Ok::<Seq<char>, AppError>(mime@),
            Err(e) => category_checked(
                match detected {
                    Some(d) => Some(d@),
                    None => None,
                },
                expected_category@,
            ) == Err::<Seq<char>, AppError>(e),
        },
{
    match detected {
        Some(mime) => {
            if str_starts_with(mime, expected_category) {
                Ok(mime.to_owned())
            } else {
                Err(AppError::Forbidden)
            }
        },
        None => Err(AppError::Forbidden),
    }
}

/// Validates `contents` against `expected_category`, the major part of a
/// MIME type with its slash: recognises the content by its leading bytes,
/// at most `SNIFF_LENGTH` of them, and answers the recognised type where
/// it lies in that category.
pub fn validate_mime_type(contents: &[u8], expected_category: &str) -> (checked: Result<
    String,
    AppError,
>)
    ensures
        match checked {
            Ok(mime) => category_checked(recognised_mime(contents@), expected_category@) == Ok::<
                Seq<char>,
                AppError,
            >(mime@),
            Err(e) => category_checked(recognised_mime(contents@), expected_category@) == Err::<
                Seq<char>,
                AppError,
            >(e),
        },
{
    let leading = if contents.len() <= SNIFF_LENGTH {
        contents
    } else {
        vstd::slice::slice_subrange(contents, 0, SNIFF_LENGTH)
    };
    let detected = sniff_mime(leading);
    check_category(detected, expected_category)
}

} // verus!

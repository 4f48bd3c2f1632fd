//! The request handlers: from a requested path and what the filesystem
//! answered for it to a listing or a response.
//!
//! A handler takes the path as the client sent it, and the filesystem's
//! answers as plain values that the caller has read: the canonical form of
//! the target, whether it is a file or a directory, and its bytes or
//! entries. Every handler decodes the path, confines it to the media root,
//! and only then looks at what was read, in that order; so the refusals
//! come in that order whatever the caller handed over.

use vstd::prelude::*;
use crate::archives::{base_name, file_name};
use crate::error::AppError;
use crate::listing::{
    archive_listing, gallery_listing, is_archive_listing, is_directory_listing, music_listing,
    raws_view, ListingMode, RawEntry, RawModel,
};
use crate::models::DirectoryListing;
use crate::paths::{
    confined, decode_request_path, decoded_request, path_view, validate_media_path,
};
use crate::serve::{
    art_response, header_view, media_response, member_parts, member_response, response_view,
    serve_album_art, serve_archive_member, serve_media, split_member_path, AlbumArt, MediaResponse,
    ResponseModel,
};

verus! {

/// The canonical path that a requested path resolves to: the path has to
/// decode to text, and its canonical form has to be confined to the root.
pub open spec fn resolved_request(
    media_dir: Seq<char>,
    path: Seq<char>,
    canonical: Option<Seq<char>>,
) -> Result<Seq<char>, AppError> {
    match decoded_request(path) {
        None => Err(AppError::InvalidPath),
        Some(decoded) => confined(media_dir, decoded, canonical),
    }
}

/// The name of the file that a decoded request resolves to: the request
/// has to be confined to the root and its target has to be a file.
pub open spec fn confined_file(
    media_dir: Seq<char>,
    decoded: Seq<char>,
    canonical: Option<Seq<char>>,
    is_file: bool,
) -> Result<Seq<char>, AppError> {
    match confined(media_dir, decoded, canonical) {
        Err(e) => Err(e),
        Ok(target) => if is_file {
            Ok(base_name(target))
        } else {
            Err(AppError::NotFound)
        },
    }
}

/// The name of the file that a requested path resolves to.
pub open spec fn resolved_file(
    media_dir: Seq<char>,
    path: Seq<char>,
    canonical: Option<Seq<char>>,
    is_file: bool,
) -> Result<Seq<char>, AppError> {
    match decoded_request(path) {
        None => Err(AppError::InvalidPath),
        Some(decoded) => confined_file(media_dir, decoded, canonical, is_file),
    }
}

/// The failure with which a requested directory cannot be listed, `None`
/// where it can: the path has to decode and be confined, and its target
/// has to be a directory.
pub open spec fn directory_fault(
    media_dir: Seq<char>,
    path: Seq<char>,
    canonical: Option<Seq<char>>,
    is_dir: bool,
) -> Option<AppError> {
    match resolved_request(media_dir, path, canonical) {
        Err(e) => Some(e),
        Ok(_) => if is_dir {
            None
        } else {
            Some(AppError::NotFound)
        },
    }
}

/// `answer` is what is answered to a request for the listing of a
/// directory in the view `mode`.
pub open spec fn is_directory_answer(
    mode: ListingMode,
    media_dir: Seq<char>,
    path: Seq<char>,
    canonical: Option<Seq<char>>,
    is_dir: bool,
    raws: Seq<RawModel>,
    answer: Result<DirectoryListing, AppError>,
) -> bool {
    match answer {
        Ok(listing) => directory_fault(media_dir, path, canonical, is_dir) is None
            && is_directory_listing(mode, path, raws, listing),
        Err(e) => directory_fault(media_dir, path, canonical, is_dir) == Some(e),
    }
}

/// `answer` is what is answered to a request for the listing of an
/// archive.
pub open spec fn is_archive_answer(
    media_dir: Seq<char>,
    path: Seq<char>,
    canonical: Option<Seq<char>>,
    is_file: bool,
    data: Seq<u8>,
    answer: Result<DirectoryListing, AppError>,
) -> bool {
    match resolved_file(media_dir, path, canonical, is_file) {
        Err(e) => answer is Err && answer->Err_0 == e,
        Ok(name) => is_archive_listing(path, decoded_request(path)->0, name, data, answer),
    }
}

/// What is answered to a request for a media file.
pub open spec fn media_request_response(
    media_dir: Seq<char>,
    path: Seq<char>,
    canonical: Option<Seq<char>>,
    is_file: bool,
    contents: Seq<u8>,
    range_header: Option<Seq<char>>,
) -> Result<ResponseModel, AppError> {
    match resolved_file(media_dir, path, canonical, is_file) {
        Err(e) => Err(e),
        Ok(name) => media_response(name, contents, range_header),
    }
}

/// What is answered to a request for a member of an archive. The path has
/// to decode to text and to name an archive and a member, both non-empty,
/// around one separator `!/`; the archive's path has to be confined to the
/// root and its target has to be a file; then the member is served.
pub open spec fn archive_request_response(
    media_dir: Seq<char>,
    path: Seq<char>,
    canonical: Option<Seq<char>>,
    is_file: bool,
    data: Seq<u8>,
    range_header: Option<Seq<char>>,
) -> Result<ResponseModel, AppError> {
    match decoded_request(path) {
        None => Err(AppError::InvalidPath),
        Some(decoded) => match member_parts(decoded) {
            None => Err(AppError::InvalidPath),
            Some((archive, member)) => match confined_file(media_dir, archive, canonical, is_file) {
                Err(e) => Err(e),
                Ok(name) => member_response(name, data, member, range_header),
            },
        },
    }
}

/// What is answered to a request for the album picture of an audio file.
pub open spec fn art_request_response(
    media_dir: Seq<char>,
    path: Seq<char>,
    canonical: Option<Seq<char>>,
    is_file: bool,
    picture: Option<(Seq<char>, Seq<u8>)>,
) -> Result<ResponseModel, AppError> {
    match resolved_file(media_dir, path, canonical, is_file) {
        Err(e) => Err(e),
        Ok(name) => art_response(name, picture),
    }
}

/// What a picture that may be missing stands for.
pub open spec fn picture_view(picture: Option<AlbumArt>) -> Option<(Seq<char>, Seq<u8>)> {
    match picture {
        Some(art) => Some((art.mime_type@, art.data@)),
        None => None,
    }
}

/// The decoded request for the target of a path: the decoded path, or for
/// the path of an archive member the archive's part of it. This is what
/// the caller joins onto the media root to ask the filesystem.
pub open spec fn request_target(path: Seq<char>, of_member: bool) -> Result<Seq<char>, AppError> {
    match decoded_request(path) {
        None => Err(AppError::InvalidPath),
        Some(decoded) => if of_member {
            match member_parts(decoded) {
                Some((archive, _)) => Ok(archive),
                None => Err(AppError::InvalidPath),
            }
        } else {
            Ok(decoded)
        },
    }
}

/// The decoded, relative path that a request targets, for the caller to
/// join onto the media root: the decoded path, or for the path of an
/// archive member (`of_member`) the archive's part of it.
pub fn target_of(path: &str, of_member: bool) -> (target: Result<String, AppError>)
    ensures
        match target {
            Ok(t) => request_target(path@, of_member) == Ok::<Seq<char>, AppError>(t@),
            Err(e) => request_target(path@, of_member) == Err::<Seq<char>, AppError>(e),
        },
{
    let decoded = match decode_request_path(path) {
        Ok(decoded) => decoded,
        Err(e) => {
            return Err(e);
        },
    };
    if of_member {
        match split_member_path(decoded.as_str()) {
            Ok((archive, _)) => Ok(archive),
            Err(e) => Err(e),
        }
    } else {
        Ok(decoded)
    }
}

/// The name of the file that a decoded request resolves to.
fn confine_file(media_dir: &str, decoded: &str, canonical: Option<&str>, is_file: bool) -> (name:
    Result<String, AppError>)
    ensures
        match name {
            Ok(n) => confined_file(media_dir@, decoded@, path_view(canonical), is_file) == Ok::<
                Seq<char>,
                AppError,
            >(n@),
            Err(e) => confined_file(media_dir@, decoded@, path_view(canonical), is_file) == Err::<
                Seq<char>,
                AppError,
            >(e),
        },
{
    let target = match validate_media_path(media_dir, decoded, canonical) {
        Ok(target) => target,
        Err(e) => {
            return Err(e);
        },
    };
    if !is_file {
        return Err(AppError::NotFound);
    }
    Ok(file_name(target.as_str()))
}

/// The name of the file that a requested path resolves to.
fn resolve_file(media_dir: &str, path: &str, canonical: Option<&str>, is_file: bool) -> (name:
    Result<String, AppError>)
    ensures
        match name {
            Ok(n) => resolved_file(media_dir@, path@, path_view(canonical), is_file) == Ok::<
                Seq<char>,
                AppError,
            >(n@),
            Err(e) => resolved_file(media_dir@, path@, path_view(canonical), is_file) == Err::<
                Seq<char>,
                AppError,
            >(e),
        },
{
    match decode_request_path(path) {
        Ok(decoded) => confine_file(media_dir, decoded.as_str(), canonical, is_file),
        Err(e) => Err(e),
    }
}

/// Checks that a requested directory can be listed.
fn resolve_directory(media_dir: &str, path: &str, canonical: Option<&str>, is_dir: bool) -> (fault:
    Option<AppError>)
    ensures
        fault == directory_fault(media_dir@, path@, path_view(canonical), is_dir),
{
    let decoded = match decode_request_path(path) {
        Ok(decoded) => decoded,
        Err(e) => {
            return Some(e);
        },
    };
    match validate_media_path(media_dir, decoded.as_str(), canonical) {
        Ok(_) => {},
        Err(e) => {
            return Some(e);
        },
    }
    if is_dir {
        None
    } else {
        Some(AppError::NotFound)
    }
}

/// Answers a request for the gallery listing of the directory at `path`.
///
/// `canonical` is what the filesystem gave as the canonical form of the
/// decoded path under `media_dir`, `is_dir` whether that is a directory,
/// and `raws` what reading it gave. A path that does not decode is
/// invalid; one that is not confined to the root is refused or not found;
/// a target that is no directory is not found.
pub fn list_directory_handler(
    media_dir: &str,
    path: &str,
    canonical: Option<&str>,
    is_dir: bool,
    raws: Vec<RawEntry>,
) -> (answer: Result<DirectoryListing, AppError>)
    ensures
        is_directory_answer(
            ListingMode::Gallery,
            media_dir@,
            path@,
            path_view(canonical),
            is_dir,
            raws_view(raws@),
            answer,
        ),
{
    match resolve_directory(media_dir, path, canonical, is_dir) {
        Some(e) => Err(e),
        None => Ok(gallery_listing(path, raws)),
    }
}

/// Answers a request for the music listing of the directory at `path`.
///
/// `canonical` is what the filesystem gave as the canonical form of the
/// decoded path under `media_dir`, `is_dir` whether that is a directory,
/// and `raws` what reading it gave, with the archives probed for audio. A
/// path that does not decode is invalid; one that is not confined to the
/// root is refused or not found; a target that is no directory is not
/// found.
pub fn music_list_handler(
    media_dir: &str,
    path: &str,
    canonical: Option<&str>,
    is_dir: bool,
    raws: Vec<RawEntry>,
) -> (answer: Result<DirectoryListing, AppError>)
    ensures
        is_directory_answer(
            ListingMode::Music,
            media_dir@,
            path@,
            path_view(canonical),
            is_dir,
            raws_view(raws@),
            answer,
        ),
{
    match resolve_directory(media_dir, path, canonical, is_dir) {
        Some(e) => Err(e),
        None => Ok(music_listing(path, raws)),
    }
}

/// Answers a request for the listing of the archive at `path`, whose
/// bytes are `data`.
pub fn music_archive_handler(
    media_dir: &str,
    path: &str,
    canonical: Option<&str>,
    is_file: bool,
    data: Vec<u8>,
) -> (answer: Result<DirectoryListing, AppError>)
    ensures
        is_archive_answer(media_dir@, path@, path_view(canonical), is_file, data@, answer),
{
    let decoded = match decode_request_path(path) {
        Ok(decoded) => decoded,
        Err(e) => {
            return Err(e);
        },
    };
    let name = match confine_file(media_dir, decoded.as_str(), canonical, is_file) {
        Ok(name) => name,
        Err(e) => {
            return Err(e);
        },
    };
    archive_listing(path, decoded.as_str(), name.as_str(), data)
}

/// Answers a request for the media file at `path`, whose bytes are
/// `contents`, with the request's `Range` header if it had one.
pub fn serve_media_handler(
    media_dir: &str,
    path: &str,
    canonical: Option<&str>,
    is_file: bool,
    contents: Vec<u8>,
    range_header: Option<&str>,
) -> (answer: Result<MediaResponse, AppError>)
    ensures
        response_view(answer) == media_request_response(
            media_dir@,
            path@,
            path_view(canonical),
            is_file,
            contents@,
            header_view(range_header),
        ),
{
    match resolve_file(media_dir, path, canonical, is_file) {
        Ok(name) => serve_media(name.as_str(), contents, range_header),
        Err(e) => Err(e),
    }
}

/// Answers a request for a member of an archive. `path` names the archive
/// and the member around the separator `!/`; `canonical` and `is_file` are
/// the filesystem's answers for the archive's part, and `data` is the
/// archive's bytes.
pub fn serve_archive_file_handler(
    media_dir: &str,
    path: &str,
    canonical: Option<&str>,
    is_file: bool,
    data: Vec<u8>,
    range_header: Option<&str>,
) -> (answer: Result<MediaResponse, AppError>)
    ensures
        response_view(answer) == archive_request_response(
            media_dir@,
            path@,
            path_view(canonical),
            is_file,
            data@,
            header_view(range_header),
        ),
{
    let decoded = match decode_request_path(path) {
        Ok(decoded) => decoded,
        Err(e) => {
            return Err(e);
        },
    };
    let (archive, member) = match split_member_path(decoded.as_str()) {
        Ok(parts) => parts,
        Err(e) => {
            return Err(e);
        },
    };
    match confine_file(media_dir, archive.as_str(), canonical, is_file) {
        Ok(name) => serve_archive_member(name.as_str(), data, member.as_str(), range_header),
        Err(e) => Err(e),
    }
}

/// Answers a request for the album picture of the audio file at `path`,
/// given the first picture embedded in it, if it has one.
pub fn serve_album_art_handler(
    media_dir: &str,
    path: &str,
    canonical: Option<&str>,
    is_file: bool,
    picture: Option<AlbumArt>,
) -> (answer: Result<MediaResponse, AppError>)
    ensures
        response_view(answer) == art_request_response(
            media_dir@,
            path@,
            path_view(canonical),
            is_file,
            picture_view(picture),
        ),
{
    match resolve_file(media_dir, path, canonical, is_file) {
        Ok(name) => serve_album_art(name.as_str(), picture),
        Err(e) => Err(e),
    }
}

/// Whatever the request and whatever the caller read, a media file is
/// only answered with a response where the request's target is confined to
/// the media root and is a file.
pub proof fn lemma_served_media_is_confined(
    media_dir: Seq<char>,
    path: Seq<char>,
    canonical: Option<Seq<char>>,
    is_file: bool,
    contents: Seq<u8>,
    range_header: Option<Seq<char>>,
)
    requires
        media_request_response(media_dir, path, canonical, is_file, contents, range_header) is Ok,
    ensures
        is_file,
        canonical is Some,
        crate::paths::is_within(media_dir, canonical->0),
        !crate::paths::has_hidden_segment(media_dir, canonical->0),
        decoded_request(path) is Some,
        !crate::filetypes::is_hidden_path(decoded_request(path)->0),
{
}

} // verus!

//! Serving: what is sent for a media file, an archive member or an album
//! picture, once its bytes are at hand.
//!
//! A response is a plain value: status, headers and body. Nothing is sent
//! before the content has been validated against the category of its name.

use vstd::prelude::*;
use crate::archives::{extract_file_from_archive, extraction_result};
use crate::content::{
    category_checked, category_of, category_of_name, guess_mime, guessed_mime, recognised_mime,
    validate_mime_type,
};
use crate::error::AppError;
use crate::filetypes::{is_audio, is_audio_name, lowercase_of, to_lowercase};
use crate::range::{content_range, content_range_text, negotiate, negotiated, ByteRange};
use crate::text::{
    chars_of, contains_seq, find_from, first_occurrence_from, occurs_at, str_ends_with,
};

verus! {

/// A response to a request for media.
#[derive(Debug)]
pub struct MediaResponse {
    /// The HTTP status code: 200, or 206 for a part.
    pub status: u16,
    pub content_type: String,
    pub content_length: u64,
    /// The `Content-Range` header of a part.
    pub content_range: Option<String>,
    /// Whether `Accept-Ranges: bytes` is sent.
    pub accept_ranges: bool,
    pub cache_control: String,
    /// The `Content-Security-Policy` header, where one is sent.
    pub content_security_policy: Option<String>,
    pub body: Vec<u8>,
}

/// What a `MediaResponse` stands for.
pub struct ResponseModel {
    pub status: u16,
    pub content_type: Seq<char>,
    pub content_length: u64,
    pub content_range: Option<Seq<char>>,
    pub accept_ranges: bool,
    pub cache_control: Seq<char>,
    pub content_security_policy: Option<Seq<char>>,
    pub body: Seq<u8>,
}

impl View for MediaResponse {
    type V = ResponseModel;

    open spec fn view(&self) -> ResponseModel {
        ResponseModel {
            status: self.status,
            content_type: self.content_type@,
            content_length: self.content_length,
            content_range: match self.content_range {
                Some(r) => Some(r@),
                None => None,
            },
            accept_ranges: self.accept_ranges,
            cache_control: self.cache_control@,
            content_security_policy: match self.content_security_policy {
                Some(p) => Some(p@),
                None => None,
            },
            body: self.body@,
        }
    }
}

/// A picture embedded in an audio file.
#[derive(Debug)]
pub struct AlbumArt {
    pub mime_type: String,
    pub data: Vec<u8>,
}

/// How long media may be cached.
pub open spec fn media_cache_control() -> Seq<char> {
    "public, max-age=3600"@
}

/// How long album pictures may be cached.
pub open spec fn art_cache_control() -> Seq<char> {
    "public, max-age=86400"@
}

/// The policy under which an SVG image is sent: nothing may load or run.
pub open spec fn svg_policy() -> Seq<char> {
    "default-src 'none'; style-src 'unsafe-inline'; sandbox"@
}

/// A name with the SVG extension, in any case.
pub open spec fn is_svg_name(name: Seq<char>) -> bool {
    ".svg"@.is_suffix_of(lowercase_of(name))
}

/// What a header that may be absent stands for.
pub open spec fn header_view(header: Option<&str>) -> Option<Seq<char>> {
    match header {
        Some(h) => Some(h@),
        None => None,
    }
}

/// What a response, or a refusal, stands for.
pub open spec fn response_view(r: Result<MediaResponse, AppError>) -> Result<
    ResponseModel,
    AppError,
> {
    match r {
        Ok(response) => Ok(response@),
        Err(e) => Err(e),
    }
}

/// The response that sends `contents`, whole or in part as `range` says.
/// A part has status 206, its own length and a `Content-Range`; the whole
/// has status 200. Both announce that ranges are accepted.
pub open spec fn ranged_response(
    content_type: Seq<char>,
    policy: Option<Seq<char>>,
    contents: Seq<u8>,
    range: ByteRange,
) -> ResponseModel {
    match range {
        ByteRange::Full => ResponseModel {
            status: 200,
            content_type,
            content_length: contents.len() as u64,
            content_range: None,
            accept_ranges: true,
            cache_control: media_cache_control(),
            content_security_policy: policy,
            body: contents,
        },
        ByteRange::Partial { start, end } => ResponseModel {
            status: 206,
            content_type,
            content_length: (end - start + 1) as u64,
            content_range: Some(content_range_text(start, end, contents.len() as u64)),
            accept_ranges: true,
            cache_control: media_cache_control(),
            content_security_policy: policy,
            body: contents.subrange(start as int, end + 1),
        },
    }
}

/// What is answered to a request for the media file `file_name` holding
/// `contents`.
///
/// A name without a media extension is refused. An SVG name is not
/// judged by its bytes, which no signature tells from other text: it is
/// sent as `image/svg+xml` under the locked-down policy, so that nothing
/// in it can run. Any other file is refused unless its content is
/// recognised as of the category of its name, and is sent under the type
/// of its extension.
pub open spec fn media_response(
    file_name: Seq<char>,
    contents: Seq<u8>,
    range_header: Option<Seq<char>>,
) -> Result<ResponseModel, AppError> {
    let range = negotiated(range_header, contents.len() as u64);
    match category_of_name(file_name) {
        None => Err(AppError::Forbidden),
        Some(category) => if is_svg_name(file_name) {
            Ok(ranged_response("image/svg+xml"@, Some(svg_policy()), contents, range))
        } else {
            match category_checked(recognised_mime(contents), category.spec_prefix()) {
                Err(e) => Err(e),
                Ok(_) => Ok(ranged_response(guessed_mime(file_name), None, contents, range)),
            }
        },
    }
}

/// What is answered to a request for the member `member_path` of the
/// archive `archive_name` holding `data`: only audio members are served; a
/// member that cannot be extracted is not found; its content must be
/// recognised as audio.
pub open spec fn member_response(
    archive_name: Seq<char>,
    data: Seq<u8>,
    member_path: Seq<char>,
    range_header: Option<Seq<char>>,
) -> Result<ResponseModel, AppError> {
    if !is_audio_name(member_path) {
        Err(AppError::Forbidden)
    } else {
        match extraction_result(archive_name, data, member_path) {
            Err(_) => Err(AppError::NotFound),
            Ok(contents) => match category_checked(recognised_mime(contents), "audio/"@) {
                Err(e) => Err(e),
                Ok(_) => Ok(
                    ranged_response(
                        guessed_mime(member_path),
                        None,
                        contents,
                        negotiated(range_header, contents.len() as u64),
                    ),
                ),
            },
        }
    }
}

/// What is answered to a request for the album picture of `file_name`,
/// given the first picture embedded in it, if it has one.
pub open spec fn art_response(file_name: Seq<char>, picture: Option<(Seq<char>, Seq<u8>)>) -> Result<
    ResponseModel,
    AppError,
> {
    if !is_audio_name(file_name) {
        Err(AppError::Forbidden)
    } else {
        match picture {
            None => Err(AppError::NotFound),
            Some((mime_type, data)) => Ok(
                ResponseModel {
                    status: 200,
                    content_type: mime_type,
                    content_length: data.len() as u64,
                    content_range: None,
                    accept_ranges: false,
                    cache_control: art_cache_control(),
                    content_security_policy: None,
                    body: data,
                },
            ),
        }
    }
}

/// `path` names the member `member` of the archive at `archive`: it reads
/// `archive`, the separator `!/` once, and `member`, both non-empty.
pub open spec fn is_member_path(path: Seq<char>, archive: Seq<char>, member: Seq<char>) -> bool {
    &&& path == archive + "!/"@ + member
    &&& archive.len() > 0
    &&& member.len() > 0
    &&& !contains_seq(archive, "!/"@)
    &&& !contains_seq(member, "!/"@)
}

/// Builds the response that sends `contents`, whole or in part.
pub fn respond_with_range(
    content_type: String,
    policy: Option<String>,
    contents: Vec<u8>,
    range: ByteRange,
) -> (response: MediaResponse)
    requires
        match range {
            ByteRange::Partial { start, end } => start <= end < contents.len(),
            ByteRange::Full => true,
        },
    ensures
        response@ == ranged_response(
            content_type@,
            match policy {
                Some(p) => Some(p@),
                None => None,
            },
            contents@,
            range,
        ),
{
    let total = contents.len() as u64;
    match range {
        ByteRange::Full => MediaResponse {
            status: 200,
            content_type,
            content_length: total,
            content_range: None,
            accept_ranges: true,
            cache_control: "public, max-age=3600".to_owned(),
            content_security_policy: policy,
            body: contents,
        },
        ByteRange::Partial { start, end } => {
            let mut head = contents;
            head.truncate(end as usize + 1);
            let body = head.split_off(start as usize);
            assert(body@ =~= contents@.subrange(start as int, end + 1));
            MediaResponse {
                status: 206,
                content_type,
                content_length: end - start + 1,
                content_range: Some(content_range(start, end, total)),
                accept_ranges: true,
                cache_control: "public, max-age=3600".to_owned(),
                content_security_policy: policy,
                body,
            }
        },
    }
}

/// Answers a request for the media file `file_name`, whose bytes are
/// `contents`, with the request's `Range` header if it had one.
pub fn serve_media(file_name: &str, contents: Vec<u8>, range_header: Option<&str>) -> (answer:
    Result<MediaResponse, AppError>)
    ensures
        response_view(answer) == media_response(file_name@, contents@, header_view(range_header)),
{
    let category = match category_of(file_name) {
        Some(category) => category,
        None => {
            return Err(AppError::Forbidden);
        },
    };
    let lower = to_lowercase(file_name);
    let svg = str_ends_with(lower.as_str(), ".svg");
    let content_type = if svg {
        "image/svg+xml".to_owned()
    } else {
        match validate_mime_type(contents.as_slice(), category.prefix()) {
            Ok(_) => {},
            Err(e) => {
                return Err(e);
            },
        }
        guess_mime(file_name)
    };
    let policy = if svg {
        Some("default-src 'none'; style-src 'unsafe-inline'; sandbox".to_owned())
    } else {
        None
    };
    let range = negotiate(range_header, contents.len() as u64);
    proof {
        crate::range::lemma_negotiated_within(header_view(range_header), contents.len() as u64);
    }
    Ok(respond_with_range(content_type, policy, contents, range))
}

/// Answers a request for the member `member_path` of the archive named
/// `archive_name`, whose bytes are `data`.
pub fn serve_archive_member(
    archive_name: &str,
    data: Vec<u8>,
    member_path: &str,
    range_header: Option<&str>,
) -> (answer: Result<MediaResponse, AppError>)
    ensures
        response_view(answer) == member_response(
            archive_name@,
            data@,
            member_path@,
            header_view(range_header),
        ),
{
    if !is_audio(member_path) {
        return Err(AppError::Forbidden);
    }
    let contents = match extract_file_from_archive(archive_name, data, member_path) {
        Ok(contents) => contents,
        Err(_) => {
            return Err(AppError::NotFound);
        },
    };
    match validate_mime_type(contents.as_slice(), "audio/") {
        Ok(_) => {},
        Err(e) => {
            return Err(e);
        },
    }
    let content_type = guess_mime(member_path);
    let range = negotiate(range_header, contents.len() as u64);
    proof {
        crate::range::lemma_negotiated_within(header_view(range_header), contents.len() as u64);
    }
    Ok(respond_with_range(content_type, None, contents, range))
}

/// Answers a request for the album picture of the audio file `file_name`,
/// given the first picture embedded in it, if it has one.
pub fn serve_album_art(file_name: &str, picture: Option<AlbumArt>) -> (answer: Result<
    MediaResponse,
    AppError,
>)
    ensures
        response_view(answer) == art_response(
            file_name@,
            match picture {
                Some(art) => Some((art.mime_type@, art.data@)),
                None => None,
            },
        ),
{
    if !is_audio(file_name) {
        return Err(AppError::Forbidden);
    }
    match picture {
        None => Err(AppError::NotFound),
        Some(art) => Ok(
            MediaResponse {
                status: 200,
                content_type: art.mime_type,
                content_length: art.data.len() as u64,
                content_range: None,
                accept_ranges: false,
                cache_control: "public, max-age=86400".to_owned(),
                content_security_policy: None,
                body: art.data,
            },
        ),
    }
}

/// The separator between an archive's path and a member's.
pub open spec fn member_separator() -> Seq<char> {
    seq!['!', '/']
}

/// Where a path names a member of an archive, the archive's part ends at
/// the first separator.
proof fn lemma_member_path_cut(path: Seq<char>, archive: Seq<char>, member: Seq<char>, i: int)
    requires
        is_member_path(path, archive, member),
        first_occurrence_from(path, member_separator(), 0, i),
    ensures
        archive.len() == i,
{
    reveal_strlit("!/");
    let sep = member_separator();
    assert("!/"@ =~= sep);
    let n = archive.len() as int;
    assert(occurs_at(path, sep, n)) by {
        assert(path.subrange(n, n + 2) =~= sep);
    }
    if i + 2 <= n {
        assert(occurs_at(archive, sep, i)) by {
            assert(archive.subrange(i, i + 2) =~= path.subrange(i, i + 2));
        }
    } else if i + 1 == n {
        assert(path.subrange(i, i + 2)[1] == sep[1]);
        assert(path[n] == sep[0]);
    }
}

/// A path names a member of an archive in one way at most.
pub proof fn lemma_member_path_unique(
    path: Seq<char>,
    archive: Seq<char>,
    member: Seq<char>,
    other_archive: Seq<char>,
    other_member: Seq<char>,
)
    requires
        is_member_path(path, archive, member),
        is_member_path(path, other_archive, other_member),
    ensures
        archive == other_archive,
        member == other_member,
{
    reveal_strlit("!/");
    let sep = member_separator();
    assert("!/"@ =~= sep);
    let n = archive.len() as int;
    let k = other_archive.len() as int;
    assert(path.subrange(n, n + 2) =~= sep);
    assert(path.subrange(k, k + 2) =~= sep);
    if n + 2 <= k {
        assert(other_archive.subrange(n, n + 2) =~= path.subrange(n, n + 2));
        assert(occurs_at(other_archive, sep, n));
    } else if n + 1 == k {
        assert(path.subrange(n, n + 2)[1] == sep[1]);
        assert(path.subrange(k, k + 2)[0] == sep[0]);
    } else if k + 2 <= n {
        assert(archive.subrange(k, k + 2) =~= path.subrange(k, k + 2));
        assert(occurs_at(archive, sep, k));
    } else if k + 1 == n {
        assert(path.subrange(k, k + 2)[1] == sep[1]);
        assert(path.subrange(n, n + 2)[0] == sep[0]);
    }
    assert(n == k);
    assert(archive =~= path.subrange(0, n));
    assert(other_archive =~= path.subrange(0, n));
    assert(member =~= path.subrange(n + 2, path.len() as int));
    assert(other_member =~= path.subrange(n + 2, path.len() as int));
}

/// The archive's path and the member's path that `path` names, `None`
/// where it names no member of an archive.
pub open spec fn member_parts(path: Seq<char>) -> Option<(Seq<char>, Seq<char>)> {
    if exists|parts: (Seq<char>, Seq<char>)| is_member_path(path, parts.0, parts.1) {
        Some(choose|parts: (Seq<char>, Seq<char>)| is_member_path(path, parts.0, parts.1))
    } else {
        None
    }
}

/// Splits the decoded path of an archive member into the archive's path
/// and the member's path inside it. The separator `!/` has to occur exactly
/// once, with text on both sides; any other path is invalid.
pub fn split_member_path(decoded: &str) -> (parts: Result<(String, String), AppError>)
    ensures
        match parts {
            Ok((archive, member)) => is_member_path(decoded@, archive@, member@) && member_parts(
                decoded@,
            ) == Some((archive@, member@)),
            Err(e) => e == AppError::InvalidPath && member_parts(decoded@) is None && forall|
                archive: Seq<char>,
                member: Seq<char>,
            |
                !is_member_path(decoded@, archive, member),
        },
{
    let chars = chars_of(decoded);
    let mut sep: Vec<char> = Vec::new();
    sep.push('!');
    sep.push('/');
    proof {
        reveal_strlit("!/");
        assert(sep@ =~= member_separator());
        assert("!/"@ =~= member_separator());
    }
    let cut = match find_from(&chars, &sep, 0) {
        Some(cut) => cut,
        None => {
            proof {
                assert forall|archive: Seq<char>, member: Seq<char>|
                    !is_member_path(decoded@, archive, member) by {
                    if is_member_path(decoded@, archive, member) {
                        let n = archive.len() as int;
                        assert(decoded@.subrange(n, n + 2) =~= sep@);
                        assert(occurs_at(decoded@, sep@, n));
                    }
                }
            }
            return Err(AppError::InvalidPath);
        },
    };
    assert(first_occurrence_from(chars@, sep@, 0, cut as int));
    assert(cut + 2 <= chars.len());
    let tail_start: usize = cut + 2;
    let second = find_from(&chars, &sep, tail_start);
    if cut == 0 || tail_start == chars.len() || second.is_some() {
        proof {
            assert forall|archive: Seq<char>, member: Seq<char>|
                !is_member_path(decoded@, archive, member) by {
                if is_member_path(decoded@, archive, member) {
                    lemma_member_path_cut(decoded@, archive, member, cut as int);
                    assert(member =~= decoded@.skip(cut + 2));
                    if second.is_some() {
                        let j = second->0 as int;
                        assert(member.subrange(j - tail_start, j - tail_start + 2)
                            =~= decoded@.subrange(j, j + 2));
                        assert(occurs_at(member, sep@, j - tail_start));
                    }
                }
            }
        }
        return Err(AppError::InvalidPath);
    }
    let archive = vstd::string::StrSliceExecFns::substring_char(decoded, 0, cut).to_owned();
    let member = vstd::string::StrSliceExecFns::substring_char(
        decoded,
        tail_start,
        chars.len(),
    ).to_owned();
    proof {
        assert(decoded@ =~= archive@ + sep@ + member@) by {
            assert(decoded@.subrange(cut as int, cut + 2) =~= sep@);
        }
        if contains_seq(archive@, sep@) {
            let j = choose|j: int| occurs_at(archive@, sep@, j);
            assert(decoded@.subrange(j, j + 2) =~= archive@.subrange(j, j + 2));
            assert(occurs_at(decoded@, sep@, j));
        }
        if contains_seq(member@, sep@) {
            let j = choose|j: int| occurs_at(member@, sep@, j);
            assert(decoded@.subrange(j + tail_start, j + tail_start + 2) =~= member@.subrange(
                j,
                j + 2,
            ));
            assert(occurs_at(decoded@, sep@, j + tail_start));
        }
    }
    proof {
        let found = (archive@, member@);
        assert(is_member_path(decoded@, found.0, found.1));
        let chosen = choose|parts: (Seq<char>, Seq<char>)|
            is_member_path(decoded@, parts.0, parts.1);
        lemma_member_path_unique(decoded@, chosen.0, chosen.1, archive@, member@);
        assert(chosen == found);
    }
    Ok((archive, member))
}

/// Content decides, not the name: a file whose name is no SVG name is
/// refused wherever its content is not recognised, or is recognised as of
/// a kind other than the category of its name.
pub proof fn lemma_unrecognised_content_is_refused(
    file_name: Seq<char>,
    contents: Seq<u8>,
    range_header: Option<Seq<char>>,
)
    requires
        !is_svg_name(file_name),
        match (recognised_mime(contents), category_of_name(file_name)) {
            (Some(mime), Some(category)) => !category.spec_prefix().is_prefix_of(mime),
            _ => true,
        },
    ensures
        media_response(file_name, contents, range_header) == Err::<ResponseModel, AppError>(
            AppError::Forbidden,
        ),
{
}

} // verus!

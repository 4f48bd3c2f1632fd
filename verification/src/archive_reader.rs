//! Reading archives: what the `zip`, `tar`, `flate2` and `bzip2` crates
//! report of an archive's bytes.
//!
//! Nothing here is proved. Each function makes one call into one of those
//! crates, and its contract says what the crate's documentation and source
//! show of the call, over a model of the archive: a sequence of members in
//! which a member that cannot be read stands as `None`. The body of a
//! compressed tar archive is decoded as it is walked, so damage in the
//! stream shows at the member where it is met, not before.

use vstd::prelude::*;
use std::io::Read;

verus! {

/// What an archive reader reports of one member.
#[derive(Debug)]
pub struct ArchiveMember {
    /// The member's path inside the archive, where it is valid text.
    pub path: Option<String>,
    pub is_dir: bool,
    /// The member's uncompressed size, where the archive states it legibly.
    pub size: Option<u64>,
}

/// What an `ArchiveMember` stands for.
pub struct MemberInfo {
    pub path: Option<Seq<char>>,
    pub is_dir: bool,
    pub size: Option<u64>,
}

impl View for ArchiveMember {
    type V = MemberInfo;

    open spec fn view(&self) -> MemberInfo {
        MemberInfo {
            path: match self.path {
                Some(p) => Some(p@),
                None => None,
            },
            is_dir: self.is_dir,
            size: self.size,
        }
    }
}

/// What an archive holds of one member: what a reader reports of it, and
/// the member's bytes where they can be read.
pub struct MemberModel {
    pub info: MemberInfo,
    pub content: Option<Seq<u8>>,
}

/// `std::io::Cursor`, carried through as an opaque value.
#[verifier::external_type_specification]
#[verifier::external_body]
#[verifier::reject_recursive_types(T)]
pub struct ExCursor<T>(std::io::Cursor<T>);

/// `zip::ZipArchive`, carried through as an opaque value.
#[verifier::external_type_specification]
#[verifier::external_body]
#[verifier::reject_recursive_types(R)]
pub struct ExZipArchive<R>(zip::ZipArchive<R>);

/// `zip::result::ZipError`: why the `zip` crate failed. Never looked into.
#[verifier::external_type_specification]
#[verifier::external_body]
pub struct ExZipError(zip::result::ZipError);

/// `std::io::Error`: why a read failed. Never looked into.
#[verifier::external_type_specification]
#[verifier::external_body]
pub struct ExIoError(std::io::Error);

/// One member of a zip archive, open for reading: a `zip::read::ZipFile`.
#[verifier::external_body]
pub struct ZipEntry<'a> {
    inner: zip::read::ZipFile<'a, std::io::Cursor<Vec<u8>>>,
}

/// A tar archive over bytes held in memory, read as they are or through a
/// decoder: a `tar::Archive`.
#[verifier::external_body]
pub struct TarArchive {
    inner: tar::Archive<Box<dyn Read>>,
}

/// A walk over the members of a tar archive, with the member it stands
/// at: a `tar::Entries` and the `tar::Entry` that it yielded last. The
/// member is kept inside the walk, so that it cannot be read after the
/// walk has gone on.
#[verifier::external_body]
pub struct TarCursor<'a> {
    walk: tar::Entries<'a, Box<dyn Read>>,
    current: Option<tar::Entry<'a, Box<dyn Read>>>,
}

/// The members that the `zip` crate finds in the central directory of the
/// archive `data`, in directory order; `None` where it finds no readable
/// directory. A member that the crate cannot open stands as `None`.
pub uninterp spec fn zip_members(data: Seq<u8>) -> Option<Seq<Option<MemberModel>>>;

/// The members of an opened zip archive.
pub uninterp spec fn zip_contents(archive: zip::ZipArchive<std::io::Cursor<Vec<u8>>>) -> Seq<
    Option<MemberModel>,
>;

/// What a zip member that is open for reading holds.
pub uninterp spec fn zip_member(entry: ZipEntry) -> MemberModel;

/// The members that the `tar` crate yields when it walks the plain
/// archive `data` from its start. A point where the walk fails stands as
/// `None`.
pub uninterp spec fn tar_members(data: Seq<u8>) -> Seq<Option<MemberModel>>;

/// The members of an opened tar archive.
pub uninterp spec fn tar_contents(archive: TarArchive) -> Seq<Option<MemberModel>>;

/// Whether nothing has been read from an opened tar archive yet.
pub uninterp spec fn tar_at_start(archive: TarArchive) -> bool;

/// The members that a walk of a tar archive has yet to yield.
pub uninterp spec fn tar_pending(cursor: TarCursor) -> Seq<Option<MemberModel>>;

/// The member that a walk of a tar archive stands at, open for reading;
/// `None` before the first step, after a step that failed, and at the end.
pub uninterp spec fn tar_current(cursor: TarCursor) -> Option<MemberModel>;

/// The members that the `tar` crate yields when it walks the archive
/// that `flate2`'s gzip decoder reads out of `data`. A point where the
/// walk or the decoder fails stands as `None`.
pub uninterp spec fn gzip_tar_members(data: Seq<u8>) -> Seq<Option<MemberModel>>;

/// The members that the `tar` crate yields when it walks the archive
/// that `bzip2`'s decoder reads out of `data`. A point where the walk or
/// the decoder fails stands as `None`.
pub uninterp spec fn bzip2_tar_members(data: Seq<u8>) -> Seq<Option<MemberModel>>;

/// Calls `zip::ZipArchive::new` on a cursor over `data`. Trusted: it
/// succeeds exactly where the crate finds a readable central directory, and
/// the archive then holds the members that the directory lists.
#[verifier::external_body]
pub(crate) fn zip_open(data: Vec<u8>) -> (opened: Result<
    zip::ZipArchive<std::io::Cursor<Vec<u8>>>,
    zip::result::ZipError,
>)
    ensures
        match opened {
            Ok(archive) => zip_members(data@) == Some(zip_contents(archive)),
            Err(_) => zip_members(data@) is None,
        },
{
    zip::ZipArchive::new(std::io::Cursor::new(data))
}

/// Calls `zip::ZipArchive::len`. Trusted: it is the number of members.
#[verifier::external_body]
pub(crate) fn zip_len(archive: &zip::ZipArchive<std::io::Cursor<Vec<u8>>>) -> (n: usize)
    ensures
        n == zip_contents(*archive).len(),
{
    archive.len()
}

/// Calls `zip::ZipArchive::by_index`. Trusted: the call opens the member
/// at that index, fails for an index past the end and for a member that
/// cannot be opened, and leaves the archive's members as they were.
#[verifier::external_body]
pub(crate) fn zip_by_index<'a>(archive: &'a mut zip::ZipArchive<std::io::Cursor<Vec<u8>>>, index: usize) -> (opened:
    Result<ZipEntry<'a>, zip::result::ZipError>)
    ensures
        zip_contents(*final(archive)) == zip_contents(*old(archive)),
        match opened {
            Ok(entry) => index < zip_contents(*old(archive)).len() && zip_contents(
                *old(archive),
            )[index as int] == Some(zip_member(entry)),
            Err(_) => index >= zip_contents(*old(archive)).len() || zip_contents(
                *old(archive),
            )[index as int] is None,
        },
{
    Ok(ZipEntry { inner: archive.by_index(index)? })
}

/// Reports a zip member's name (`ZipFile::name`), whether it is a
/// directory (`ZipFile::is_dir`), and its uncompressed size
/// (`ZipFile::size`). Trusted: these are what the member holds; a zip
/// member always has a name that is text, and a size.
#[verifier::external_body]
pub(crate) fn zip_describe<'a>(entry: &ZipEntry<'a>) -> (member: ArchiveMember)
    ensures
        member@ == zip_member(*entry).info,
        member.path is Some,
        member.size is Some,
{
    ArchiveMember {
        path: Some(entry.inner.name().to_string()),
        is_dir: entry.inner.is_dir(),
        size: Some(entry.inner.size()),
    }
}

/// Reads a zip member to its end. Trusted: the bytes are the member's
/// content, and the call fails where the content cannot be read.
#[verifier::external_body]
pub(crate) fn zip_read<'a>(entry: &mut ZipEntry<'a>) -> (read: Result<Vec<u8>, std::io::Error>)
    ensures
        match read {
            Ok(bytes) => zip_member(*old(entry)).content == Some(bytes@),
            Err(_) => zip_member(*old(entry)).content is None,
        },
{
    let mut bytes = Vec::new();
    entry.inner.read_to_end(&mut bytes)?;
    Ok(bytes)
}

/// Calls `tar::Archive::new` on a cursor over `data`. Trusted: the archive
/// holds the members that a walk of `data` yields, and nothing has been
/// read from it.
#[verifier::external_body]
pub(crate) fn tar_open(data: Vec<u8>) -> (archive: TarArchive)
    ensures
        tar_contents(archive) == tar_members(data@),
        tar_at_start(archive),
{
    let reader: Box<dyn Read> = Box::new(std::io::Cursor::new(data));
    TarArchive { inner: tar::Archive::new(reader) }
}

/// Calls `tar::Archive::new` on a `flate2::read::GzDecoder` over `data`.
/// Trusted: the archive holds the members that a walk of the decoded
/// stream yields, and nothing has been read from the archive. The decoder
/// parses the gzip header when it is made and reports a bad one at the
/// first read; the rest of the stream is decoded as the walk goes on.
#[verifier::external_body]
pub(crate) fn tar_open_gzip(data: Vec<u8>) -> (archive: TarArchive)
    ensures
        tar_contents(archive) == gzip_tar_members(data@),
        tar_at_start(archive),
{
    let reader: Box<dyn Read> = Box::new(flate2::read::GzDecoder::new(std::io::Cursor::new(data)));
    TarArchive { inner: tar::Archive::new(reader) }
}

/// Calls `tar::Archive::new` on a `bzip2::read::BzDecoder` over `data`.
/// Trusted: the archive holds the members that a walk of the decoded
/// stream yields, decoded as the walk goes on, and nothing has been read
/// from it.
#[verifier::external_body]
pub(crate) fn tar_open_bzip2(data: Vec<u8>) -> (archive: TarArchive)
    ensures
        tar_contents(archive) == bzip2_tar_members(data@),
        tar_at_start(archive),
{
    let reader: Box<dyn Read> = Box::new(bzip2::read::BzDecoder::new(std::io::Cursor::new(data)));
    TarArchive { inner: tar::Archive::new(reader) }
}

/// Calls `tar::Archive::entries`. Trusted: it fails only where something
/// has been read from the archive before, and the walk it starts has all
/// of the archive's members to yield and stands at none.
#[verifier::external_body]
pub(crate) fn tar_entries<'a>(archive: &'a mut TarArchive) -> (walk: Result<
    TarCursor<'a>,
    std::io::Error,
>)
    ensures
        match walk {
            Ok(cursor) => tar_pending(cursor) == tar_contents(*old(archive)) && tar_current(cursor)
                is None,
            Err(_) => !tar_at_start(*old(archive)),
        },
{
    Ok(TarCursor { walk: archive.inner.entries()?, current: None })
}

/// Calls `next` on the walk of a tar archive, and reports the path of the
/// member it yields (`tar::Entry::path`, where it is valid text), whether
/// its header's type is a directory, and the size that its header states
/// (`tar::Header::size`). Trusted: the walk yields the next member, which
/// it then stands at, or an error where it fails at this point, and `None`
/// at the end; what it yields leaves the pending members.
#[verifier::external_body]
pub(crate) fn tar_step<'a>(cursor: &mut TarCursor<'a>) -> (next: Option<
    Result<ArchiveMember, std::io::Error>,
>)
    ensures
        match next {
            Some(Ok(member)) => {
                &&& tar_pending(*old(cursor)).len() > 0
                &&& tar_pending(*old(cursor))[0] is Some
                &&& member@ == tar_pending(*old(cursor))[0]->0.info
                &&& tar_current(*final(cursor)) == tar_pending(*old(cursor))[0]
                &&& tar_pending(*final(cursor)) == tar_pending(*old(cursor)).drop_first()
            },
            Some(Err(_)) => {
                &&& tar_pending(*old(cursor)).len() > 0
                &&& tar_pending(*old(cursor))[0] is None
                &&& tar_current(*final(cursor)) is None
                &&& tar_pending(*final(cursor)) == tar_pending(*old(cursor)).drop_first()
            },
            None => tar_pending(*old(cursor)).len() == 0 && tar_current(*final(cursor)) is None,
        },
{
    cursor.current = None;
    let entry = match cursor.walk.next()? {
        Ok(entry) => entry,
        Err(e) => return Some(Err(e)),
    };
    let member = ArchiveMember {
        path: entry.path().ok().and_then(|p| p.to_str().map(|s| s.to_string())),
        is_dir: entry.header().entry_type().is_dir(),
        size: entry.header().size().ok(),
    };
    cursor.current = Some(entry);
    Some(Ok(member))
}

/// Reads the member that the walk stands at to its end. Trusted: the
/// bytes are the member's content, and the call fails where the content
/// cannot be read.
#[verifier::external_body]
pub(crate) fn tar_read_current<'a>(cursor: &mut TarCursor<'a>) -> (read: Result<
    Vec<u8>,
    std::io::Error,
>)
    requires
        tar_current(*old(cursor)) is Some,
    ensures
        match read {
            Ok(bytes) => tar_current(*old(cursor))->0.content == Some(bytes@),
            Err(_) => tar_current(*old(cursor))->0.content is None,
        },
{
    let mut bytes = Vec::new();
    if let Some(entry) = cursor.current.as_mut() {
        entry.read_to_end(&mut bytes)?;
    }
    Ok(bytes)
}

} // verus!

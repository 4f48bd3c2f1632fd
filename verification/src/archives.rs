//! Archive inspection: which audio members a zip or tar archive holds, and
//! the bytes of one of them.
//!
//! The container format is chosen by the file name's suffix alone. What
//! the archive readers report is a sequence of members; the rules about
//! which members count, in which order they are listed, and which one is
//! extracted are proved over that sequence.

use vstd::prelude::*;
use crate::archive_reader::{
    bzip2_tar_members, gzip_tar_members, tar_at_start, tar_contents, tar_entries,
    tar_members, tar_open, tar_open_bzip2, tar_open_gzip, tar_pending, tar_read_current, tar_step,
    zip_by_index, zip_contents, zip_describe, zip_len, zip_members, zip_open, zip_read, ArchiveMember,
    MemberInfo, MemberModel, TarArchive,
};
use crate::filetypes::{is_audio, is_audio_name, is_hidden_member, is_hidden_path};
use crate::models::{entries_view, DirectoryEntry, EntryModel, EntryType};
use crate::ordering::{is_stable_sort, keys_view, stable_sort_by_key, KeyModel, SortKey};
use crate::text::{chars_of, str_ends_with};

verus! {

/// The container formats, told apart by file name.
#[derive(Debug, Clone, Copy, PartialEq, Eq, Structural)]
pub enum ArchiveFormat {
    Zip,
    Tar,
    TarGz,
    TarBz2,
}

/// How the bytes of a tar archive are compressed.
#[derive(Debug, Clone, Copy, PartialEq, Eq, Structural)]
pub enum TarCompression {
    Plain,
    Gzip,
    Bzip2,
}

/// Why an archive operation failed.
#[derive(Debug, Clone, Copy, PartialEq, Eq, Structural)]
pub enum ArchiveError {
    /// The archive, or a member that had to be read, could not be read.
    Malformed,
    /// No member has the requested path.
    MemberNotFound,
    /// The file name has none of the supported archive suffixes.
    UnsupportedFormat,
}

/// The format that a file name's suffix selects. The suffix is compared as
/// it stands: an upper-case suffix selects nothing.
pub open spec fn format_of_name(name: Seq<char>) -> Option<ArchiveFormat> {
    if ".zip"@.is_suffix_of(name) {
        Some(ArchiveFormat::Zip)
    } else if ".tar"@.is_suffix_of(name) {
        Some(ArchiveFormat::Tar)
    } else if ".tar.gz"@.is_suffix_of(name) || ".tgz"@.is_suffix_of(name) {
        Some(ArchiveFormat::TarGz)
    } else if ".tar.bz2"@.is_suffix_of(name) || ".tbz2"@.is_suffix_of(name) {
        Some(ArchiveFormat::TarBz2)
    } else {
        None
    }
}

/// The members of the archive `data` of the given format, `None` where a
/// zip archive cannot be opened.
pub open spec fn archive_members(format: ArchiveFormat, data: Seq<u8>) -> Option<
    Seq<Option<MemberModel>>,
> {
    match format {
        ArchiveFormat::Zip => zip_members(data),
        ArchiveFormat::Tar => Some(compressed_tar_members(TarCompression::Plain, data)),
        ArchiveFormat::TarGz => Some(compressed_tar_members(TarCompression::Gzip, data)),
        ArchiveFormat::TarBz2 => Some(compressed_tar_members(TarCompression::Bzip2, data)),
    }
}

/// The members of a tar archive that is compressed as stated. The archive
/// is decompressed as it is walked, so a stream that is damaged shows as a
/// member that cannot be read, at the point where the damage is met.
pub open spec fn compressed_tar_members(compression: TarCompression, data: Seq<u8>) -> Seq<
    Option<MemberModel>,
> {
    match compression {
        TarCompression::Plain => tar_members(data),
        TarCompression::Gzip => gzip_tar_members(data),
        TarCompression::Bzip2 => bzip2_tar_members(data),
    }
}

/// Where the last segment of a slash-separated path begins.
pub open spec fn name_start(path: Seq<char>) -> int
    decreases path.len(),
{
    if path.len() == 0 {
        0
    } else if path.last() == '/' {
        path.len() as int
    } else {
        name_start(path.drop_last())
    }
}

/// The base name of a member: the text after its path's last slash.
pub open spec fn base_name(path: Seq<char>) -> Seq<char> {
    path.skip(name_start(path))
}

/// A member that counts as audio when an archive is probed: not a
/// directory, with a legible path that has an audio extension.
pub open spec fn is_audio_member(m: MemberInfo) -> bool {
    !m.is_dir && m.path is Some && is_audio_name(m.path->0)
}

/// A member that a listing shows: an audio member that is not hidden.
pub open spec fn is_listed_member(m: MemberInfo) -> bool {
    is_audio_member(m) && !is_hidden_path(m.path->0)
}

/// The listing entry of a listed member.
pub open spec fn member_entry(path: Seq<char>, size: u64) -> EntryModel {
    EntryModel { name: base_name(path), path, entry_type: EntryType::Audio, size }
}

/// What probing the members `ms` for audio answers: `true` at the first
/// audio member, an error at a member that cannot be read before any such,
/// `false` where the members end first.
pub open spec fn probe_result(ms: Seq<Option<MemberModel>>) -> Result<bool, ArchiveError>
    decreases ms.len(),
{
    if ms.len() == 0 {
        Ok(false)
    } else {
        match ms[0] {
            None => Err(ArchiveError::Malformed),
            Some(m) => if is_audio_member(m.info) {
                Ok(true)
            } else {
                probe_result(ms.drop_first())
            },
        }
    }
}

/// What the members `ms` report of themselves, in archive order, or
/// `None` where one of them cannot be read.
pub open spec fn readable_members(ms: Seq<Option<MemberModel>>) -> Option<Seq<MemberInfo>>
    decreases ms.len(),
{
    if ms.len() == 0 {
        Some(Seq::empty())
    } else {
        match (readable_members(ms.drop_last()), ms.last()) {
            (Some(earlier), Some(m)) => Some(earlier.push(m.info)),
            _ => None,
        }
    }
}

/// The entries of the members among `infos` that a listing shows, in
/// archive order, or `None` where the size of one of them is illegible.
pub open spec fn listed_entries(infos: Seq<MemberInfo>) -> Option<Seq<EntryModel>>
    decreases infos.len(),
{
    if infos.len() == 0 {
        Some(Seq::empty())
    } else {
        match listed_entries(infos.drop_last()) {
            Some(earlier) => if is_listed_member(infos.last()) {
                match infos.last().size {
                    Some(size) => Some(earlier.push(member_entry(infos.last().path->0, size))),
                    None => None,
                }
            } else {
                Some(earlier)
            },
            None => None,
        }
    }
}

/// The listed members of `ms` in archive order, or `None` where a member
/// cannot be read or a listed member's size is illegible.
pub open spec fn listed_members(ms: Seq<Option<MemberModel>>) -> Option<Seq<EntryModel>> {
    match readable_members(ms) {
        Some(infos) => listed_entries(infos),
        None => None,
    }
}

/// What a vector of members stands for.
pub open spec fn member_infos(members: Seq<ArchiveMember>) -> Seq<MemberInfo> {
    members.map_values(|m: ArchiveMember| m@)
}

/// `entries` is the listing of members that report `infos`: the entries
/// of those that a listing shows, by name.
pub open spec fn is_listing_of_infos(infos: Seq<MemberInfo>, entries: Seq<EntryModel>) -> bool {
    listed_entries(infos) is Some && is_stable_sort(
        listed_entries(infos)->0,
        name_keys(listed_entries(infos)->0),
        entries,
    )
}

/// What extracting the member at `target` from `ms` answers: the content
/// of the first member with exactly that path.
pub open spec fn extract_result(ms: Seq<Option<MemberModel>>, target: Seq<char>) -> Result<
    Seq<u8>,
    ArchiveError,
>
    decreases ms.len(),
{
    if ms.len() == 0 {
        Err(ArchiveError::MemberNotFound)
    } else {
        match ms[0] {
            None => Err(ArchiveError::Malformed),
            Some(m) => if m.info.path == Some(target) {
                match m.content {
                    Some(bytes) => Ok(bytes),
                    None => Err(ArchiveError::Malformed),
                }
            } else {
                extract_result(ms.drop_first(), target)
            },
        }
    }
}

/// The keys by which a listing of members is ordered: the names alone.
pub open spec fn name_keys(entries: Seq<EntryModel>) -> Seq<KeyModel> {
    entries.map_values(|e: EntryModel| KeyModel { rank: 0, name: e.name })
}

/// `entries` is the listing of the members `ms`: the listed members by name.
pub open spec fn is_member_listing(ms: Seq<Option<MemberModel>>, entries: Seq<EntryModel>) -> bool {
    listed_members(ms) is Some && is_stable_sort(
        listed_members(ms)->0,
        name_keys(listed_members(ms)->0),
        entries,
    )
}

/// What listing an archive answers.
pub open spec fn listing_result(
    name: Seq<char>,
    data: Seq<u8>,
    listed: Result<Seq<EntryModel>, ArchiveError>,
) -> bool {
    match format_of_name(name) {
        None => listed == Ok::<Seq<EntryModel>, ArchiveError>(Seq::empty()),
        Some(format) => match archive_members(format, data) {
            None => listed == Err::<Seq<EntryModel>, ArchiveError>(ArchiveError::Malformed),
            Some(ms) => match listed {
                Ok(entries) => is_member_listing(ms, entries),
                Err(e) => listed_members(ms) is None && e == ArchiveError::Malformed,
            },
        },
    }
}

/// What probing an archive for audio answers.
pub open spec fn contains_audio_result(name: Seq<char>, data: Seq<u8>) -> Result<
    bool,
    ArchiveError,
> {
    match format_of_name(name) {
        None => Ok(false),
        Some(format) => match archive_members(format, data) {
            None => Err(ArchiveError::Malformed),
            Some(ms) => probe_result(ms),
        },
    }
}

/// What extracting a member from an archive answers.
pub open spec fn extraction_result(name: Seq<char>, data: Seq<u8>, target: Seq<char>) -> Result<
    Seq<u8>,
    ArchiveError,
> {
    match format_of_name(name) {
        None => Err(ArchiveError::UnsupportedFormat),
        Some(format) => match archive_members(format, data) {
            None => Err(ArchiveError::Malformed),
            Some(ms) => extract_result(ms, target),
        },
    }
}

/// What a vector of bytes, or the failure to get one, stands for.
pub open spec fn bytes_view(r: Result<Vec<u8>, ArchiveError>) -> Result<Seq<u8>, ArchiveError> {
    match r {
        Ok(bytes) => Ok(bytes@),
        Err(e) => Err(e),
    }
}

/// What a vector of entries, or the failure to get one, stands for.
pub open spec fn listed_view(r: Result<Vec<DirectoryEntry>, ArchiveError>) -> Result<
    Seq<EntryModel>,
    ArchiveError,
> {
    match r {
        Ok(entries) => Ok(entries_view(entries@)),
        Err(e) => Err(e),
    }
}

/// The format that the suffix of `filename` selects.
pub fn archive_format(filename: &str) -> (format: Option<ArchiveFormat>)
    ensures
        format == format_of_name(filename@),
{
    if str_ends_with(filename, ".zip") {
        Some(ArchiveFormat::Zip)
    } else if str_ends_with(filename, ".tar") {
        Some(ArchiveFormat::Tar)
    } else if str_ends_with(filename, ".tar.gz") || str_ends_with(filename, ".tgz") {
        Some(ArchiveFormat::TarGz)
    } else if str_ends_with(filename, ".tar.bz2") || str_ends_with(filename, ".tbz2") {
        Some(ArchiveFormat::TarBz2)
    } else {
        None
    }
}

/// Whether `member` counts as audio when an archive is probed.
pub fn is_audio_file(member: &ArchiveMember) -> (r: bool)
    ensures
        r == is_audio_member(member@),
{
    if member.is_dir {
        return false;
    }
    match &member.path {
        Some(path) => is_audio(path.as_str()),
        None => false,
    }
}

/// Whether a listing shows `member`.
pub fn is_listed(member: &ArchiveMember) -> (r: bool)
    ensures
        r == is_listed_member(member@),
{
    if member.is_dir {
        return false;
    }
    match &member.path {
        Some(path) => !is_hidden_member(path.as_str()) && is_audio(path.as_str()),
        None => false,
    }
}

/// The last segment of a path begins where it begins in any longer stretch
/// of the path that adds no slash.
proof fn lemma_name_start_step(path: Seq<char>, i: int)
    requires
        0 < i <= path.len(),
        forall|j: int| i <= j < path.len() ==> path[j] != '/',
    ensures
        name_start(path) == name_start(path.take(i)),
    decreases path.len() - i,
{
    if i < path.len() {
        assert(path.drop_last().take(i) =~= path.take(i));
        lemma_name_start_step(path.drop_last(), i);
    } else {
        assert(path.take(i) =~= path);
    }
}

/// The base name of the member at `path`, with its characters.
fn member_name(path: &str) -> (named: (String, Vec<char>))
    ensures
        named.0@ == base_name(path@),
        named.1@ == base_name(path@),
{
    let chars = chars_of(path);
    let mut start: usize = chars.len();
    while start > 0 && chars[start - 1] != '/'
        invariant
            start <= chars.len(),
            chars@ == path@,
            forall|j: int| start <= j < chars.len() ==> chars@[j] != '/',
        decreases start,
    {
        start -= 1;
    }
    proof {
        if start > 0 {
            lemma_name_start_step(path@, start as int);
            assert(path@.take(start as int).last() == '/');
        } else {
            lemma_name_start_none(path@);
        }
        assert(path@.skip(start as int) =~= path@.subrange(start as int, chars.len() as int));
    }
    let name_chars = crate::text::slice_chars(&chars, start, chars.len());
    let name = vstd::string::StrSliceExecFns::substring_char(path, start, chars.len()).to_owned();
    (name, name_chars)
}

/// The base name of `path`: the text after its last slash.
pub fn file_name(path: &str) -> (name: String)
    ensures
        name@ == base_name(path@),
{
    member_name(path).0
}

/// A path without a slash is its own base name.
proof fn lemma_name_start_none(path: Seq<char>)
    requires
        forall|j: int| 0 <= j < path.len() ==> path[j] != '/',
    ensures
        name_start(path) == 0,
    decreases path.len(),
{
    if path.len() > 0 {
        lemma_name_start_none(path.drop_last());
    }
}

/// Where the members up to some point cannot all be read, neither can all.
proof fn lemma_readable_prefix(ms: Seq<Option<MemberModel>>, k: int)
    requires
        0 <= k <= ms.len(),
        readable_members(ms.take(k)) is None,
    ensures
        readable_members(ms) is None,
    decreases ms.len() - k,
{
    if k < ms.len() {
        assert(ms.take(k + 1).drop_last() =~= ms.take(k));
        lemma_readable_prefix(ms, k + 1);
    } else {
        assert(ms.take(k) =~= ms);
    }
}

/// Where the members up to some point cannot be listed, neither can all.
proof fn lemma_listed_entries_prefix(infos: Seq<MemberInfo>, k: int)
    requires
        0 <= k <= infos.len(),
        listed_entries(infos.take(k)) is None,
    ensures
        listed_entries(infos) is None,
    decreases infos.len() - k,
{
    if k < infos.len() {
        assert(infos.take(k + 1).drop_last() =~= infos.take(k));
        lemma_listed_entries_prefix(infos, k + 1);
    } else {
        assert(infos.take(k) =~= infos);
    }
}

/// The listing of the members `members`, as an archive reports them: the
/// members that are not directories, not hidden, and have an audio
/// extension, each under its base name and its path inside the archive,
/// ordered by name. A listed member whose size is illegible makes the
/// archive malformed.
pub fn list_members(members: Vec<ArchiveMember>) -> (listed: Result<
    Vec<DirectoryEntry>,
    ArchiveError,
>)
    ensures
        match listed {
            Ok(entries) => is_listing_of_infos(member_infos(members@), entries_view(entries@)),
            Err(e) => e == ArchiveError::Malformed && listed_entries(member_infos(members@))
                is None,
        },
{
    let ghost infos = member_infos(members@);
    let mut entries: Vec<DirectoryEntry> = Vec::new();
    let mut keys: Vec<SortKey> = Vec::new();
    let mut i: usize = 0;
    proof {
        assert(infos.take(0) =~= Seq::<MemberInfo>::empty());
        assert(entries_view(entries@) =~= Seq::<EntryModel>::empty());
        assert(keys_view(keys@) =~= name_keys(entries_view(entries@)));
    }
    while i < members.len()
        invariant
            i <= members.len(),
            infos == member_infos(members@),
            entries.len() == keys.len(),
            listed_entries(infos.take(i as int)) == Some(entries_view(entries@)),
            keys_view(keys@) == name_keys(entries_view(entries@)),
        decreases members.len() - i,
    {
        let member = &members[i];
        proof {
            assert(infos.take(i + 1).drop_last() =~= infos.take(i as int));
            assert(infos.take(i + 1).last() == member@);
        }
        if is_listed(member) {
            let size = match member.size {
                Some(size) => size,
                None => {
                    proof {
                        lemma_listed_entries_prefix(infos, i + 1);
                    }
                    return Err(ArchiveError::Malformed);
                },
            };
            match &member.path {
                Some(path) => {
                    let (name, name_chars) = member_name(path.as_str());
                    let ghost old_entries = entries@;
                    let ghost old_keys = keys@;
                    let entry = DirectoryEntry {
                        name,
                        path: path.clone(),
                        entry_type: EntryType::Audio,
                        size,
                    };
                    let key = SortKey { rank: 0, name: name_chars };
                    entries.push(entry);
                    keys.push(key);
                    proof {
                        assert(entries_view(entries@) =~= entries_view(old_entries).push(entry@));
                        assert(keys_view(keys@) =~= keys_view(old_keys).push(key@));
                        assert(keys_view(keys@) =~= name_keys(entries_view(entries@)));
                    }
                },
                None => {},
            }
        }
        i += 1;
    }
    proof {
        assert(infos.take(members.len() as int) =~= infos);
    }
    let ghost unsorted = entries@;
    let sorted = stable_sort_by_key(entries, keys);
    proof {
        crate::ordering::lemma_stable_sort_of_views(
            unsorted,
            name_keys(entries_view(unsorted)),
            sorted@,
            entries_view(unsorted),
            entries_view(sorted@),
        );
    }
    Ok(sorted)
}

/// What the members of a zip archive report of themselves.
fn read_zip_members(data: Vec<u8>) -> (read: Result<Vec<ArchiveMember>, ArchiveError>)
    ensures
        match zip_members(data@) {
            None => read is Err && read->Err_0 == ArchiveError::Malformed,
            Some(ms) => match read {
                Ok(members) => readable_members(ms) == Some(member_infos(members@)),
                Err(e) => e == ArchiveError::Malformed && readable_members(ms) is None,
            },
        },
{
    let mut archive = match zip_open(data) {
        Ok(archive) => archive,
        Err(_) => {
            return Err(ArchiveError::Malformed);
        },
    };
    let ghost ms = zip_contents(archive);
    let n = zip_len(&archive);
    let mut members: Vec<ArchiveMember> = Vec::new();
    let mut i: usize = 0;
    proof {
        assert(ms.take(0) =~= Seq::<Option<MemberModel>>::empty());
        assert(member_infos(members@) =~= Seq::<MemberInfo>::empty());
    }
    while i < n
        invariant
            i <= n,
            n == ms.len(),
            zip_contents(archive) == ms,
            zip_members(data@) == Some(ms),
            readable_members(ms.take(i as int)) == Some(member_infos(members@)),
        decreases n - i,
    {
        proof {
            assert(ms.take(i + 1).drop_last() =~= ms.take(i as int));
            assert(ms.take(i + 1).last() == ms[i as int]);
        }
        match zip_by_index(&mut archive, i) {
            Ok(entry) => {
                let ghost before = members@;
                let member = zip_describe(&entry);
                members.push(member);
                proof {
                    assert(member_infos(members@) =~= member_infos(before).push(member@));
                }
            },
            Err(_) => {
                proof {
                    lemma_readable_prefix(ms, i + 1);
                }
                return Err(ArchiveError::Malformed);
            },
        }
        i += 1;
    }
    proof {
        assert(ms.take(n as int) =~= ms);
    }
    Ok(members)
}

/// What the members of a tar archive report of themselves.
fn read_tar_members(data: Vec<u8>, compression: TarCompression) -> (read: Result<
    Vec<ArchiveMember>,
    ArchiveError,
>)
    ensures
        match read {
            Ok(members) => readable_members(compressed_tar_members(compression, data@)) == Some(
                member_infos(members@),
            ),
            Err(e) => e == ArchiveError::Malformed && readable_members(
                compressed_tar_members(compression, data@),
            ) is None,
        },
{
    let ghost ms = compressed_tar_members(compression, data@);
    let mut archive = open_tar(data, compression);
    let mut walk = match tar_entries(&mut archive) {
        Ok(walk) => walk,
        Err(_) => {
            return Err(ArchiveError::Malformed);
        },
    };
    let mut members: Vec<ArchiveMember> = Vec::new();
    let ghost mut seen: int = 0;
    proof {
        assert(ms.take(0) =~= Seq::<Option<MemberModel>>::empty());
        assert(ms.skip(0) =~= ms);
        assert(member_infos(members@) =~= Seq::<MemberInfo>::empty());
    }
    loop
        invariant
            compressed_tar_members(compression, data@) == ms,
            0 <= seen <= ms.len(),
            tar_pending(walk) == ms.skip(seen),
            readable_members(ms.take(seen)) == Some(member_infos(members@)),
        decreases tar_pending(walk).len(),
    {
        proof {
            if seen < ms.len() {
                assert(ms.skip(seen)[0] == ms[seen]);
                assert(ms.skip(seen).drop_first() =~= ms.skip(seen + 1));
                assert(ms.take(seen + 1).drop_last() =~= ms.take(seen));
                assert(ms.take(seen + 1).last() == ms[seen]);
            }
        }
        match tar_step(&mut walk) {
            Some(Ok(member)) => {
                let ghost before = members@;
                members.push(member);
                proof {
                    assert(member_infos(members@) =~= member_infos(before).push(member@));
                    seen = seen + 1;
                }
            },
            Some(Err(_)) => {
                proof {
                    lemma_readable_prefix(ms, seen + 1);
                }
                return Err(ArchiveError::Malformed);
            },
            None => {
                proof {
                    assert(ms.take(seen) =~= ms);
                }
                return Ok(members);
            },
        }
    }
}

/// Whether a zip archive holds an audio member.
pub fn check_zip_for_audio(data: Vec<u8>) -> (found: Result<bool, ArchiveError>)
    ensures
        found == match zip_members(data@) {
            Some(ms) => probe_result(ms),
            None => Err(ArchiveError::Malformed),
        },
{
    let mut archive = match zip_open(data) {
        Ok(archive) => archive,
        Err(_) => {
            return Err(ArchiveError::Malformed);
        },
    };
    let ghost ms = zip_contents(archive);
    let n = zip_len(&archive);
    let mut i: usize = 0;
    assert(ms.skip(0) =~= ms);
    while i < n
        invariant
            i <= n,
            n == ms.len(),
            zip_contents(archive) == ms,
            zip_members(data@) == Some(ms),
            probe_result(ms) == probe_result(ms.skip(i as int)),
        decreases n - i,
    {
        proof {
            assert(ms.skip(i as int)[0] == ms[i as int]);
            assert(ms.skip(i as int).drop_first() =~= ms.skip(i + 1));
        }
        match zip_by_index(&mut archive, i) {
            Ok(entry) => {
                let member = zip_describe(&entry);
                if is_audio_file(&member) {
                    return Ok(true);
                }
            },
            Err(_) => {
                return Err(ArchiveError::Malformed);
            },
        }
        i += 1;
    }
    Ok(false)
}

/// The audio members of a zip archive, by name.
pub fn list_zip_contents(data: Vec<u8>) -> (listed: Result<Vec<DirectoryEntry>, ArchiveError>)
    ensures
        match zip_members(data@) {
            None => listed_view(listed) == Err::<Seq<EntryModel>, ArchiveError>(
                ArchiveError::Malformed,
            ),
            Some(ms) => match listed {
                Ok(entries) => is_member_listing(ms, entries_view(entries@)),
                Err(e) => listed_members(ms) is None && e == ArchiveError::Malformed,
            },
        },
{
    match read_zip_members(data) {
        Ok(members) => list_members(members),
        Err(e) => Err(e),
    }
}

/// The bytes of the member of a zip archive whose path is `file_path`.
pub fn extract_from_zip(data: Vec<u8>, file_path: &str) -> (extracted: Result<
    Vec<u8>,
    ArchiveError,
>)
    ensures
        bytes_view(extracted) == match zip_members(data@) {
            Some(ms) => extract_result(ms, file_path@),
            None => Err(ArchiveError::Malformed),
        },
{
    let mut archive = match zip_open(data) {
        Ok(archive) => archive,
        Err(_) => {
            return Err(ArchiveError::Malformed);
        },
    };
    let ghost ms = zip_contents(archive);
    let n = zip_len(&archive);
    let mut i: usize = 0;
    assert(ms.skip(0) =~= ms);
    while i < n
        invariant
            i <= n,
            n == ms.len(),
            zip_contents(archive) == ms,
            zip_members(data@) == Some(ms),
            extract_result(ms, file_path@) == extract_result(ms.skip(i as int), file_path@),
        decreases n - i,
    {
        proof {
            assert(ms.skip(i as int)[0] == ms[i as int]);
            assert(ms.skip(i as int).drop_first() =~= ms.skip(i + 1));
        }
        match zip_by_index(&mut archive, i) {
            Ok(entry) => {
                let mut entry = entry;
                let member = zip_describe(&entry);
                let matches = match &member.path {
                    Some(path) => crate::text::str_equal(path.as_str(), file_path),
                    None => false,
                };
                if matches {
                    return match zip_read(&mut entry) {
                        Ok(bytes) => Ok(bytes),
                        Err(_) => Err(ArchiveError::Malformed),
                    };
                }
            },
            Err(_) => {
                return Err(ArchiveError::Malformed);
            },
        }
        i += 1;
    }
    Err(ArchiveError::MemberNotFound)
}

/// Opens a tar archive over `data`, read through the decoder of its
/// compression.
fn open_tar(data: Vec<u8>, compression: TarCompression) -> (archive: TarArchive)
    ensures
        tar_contents(archive) == compressed_tar_members(compression, data@),
        tar_at_start(archive),
{
    match compression {
        TarCompression::Plain => tar_open(data),
        TarCompression::Gzip => tar_open_gzip(data),
        TarCompression::Bzip2 => tar_open_bzip2(data),
    }
}

/// Whether a tar archive holds an audio member.
pub fn check_tar_for_audio(data: Vec<u8>, compression: TarCompression) -> (found: Result<
    bool,
    ArchiveError,
>)
    ensures
        found == probe_result(compressed_tar_members(compression, data@)),
{
    let ghost ms = compressed_tar_members(compression, data@);
    let mut archive = open_tar(data, compression);
    let mut walk = match tar_entries(&mut archive) {
        Ok(walk) => walk,
        Err(_) => {
            return Err(ArchiveError::Malformed);
        },
    };
    loop
        invariant
            compressed_tar_members(compression, data@) == ms,
            probe_result(ms) == probe_result(tar_pending(walk)),
        decreases tar_pending(walk).len(),
    {
        match tar_step(&mut walk) {
            Some(Ok(member)) => {
                if is_audio_file(&member) {
                    return Ok(true);
                }
            },
            Some(Err(_)) => {
                return Err(ArchiveError::Malformed);
            },
            None => {
                return Ok(false);
            },
        }
    }
}

/// The audio members of a tar archive, by name.
pub fn list_tar_contents(data: Vec<u8>, compression: TarCompression) -> (listed: Result<
    Vec<DirectoryEntry>,
    ArchiveError,
>)
    ensures
        match listed {
            Ok(entries) => is_member_listing(
                compressed_tar_members(compression, data@),
                entries_view(entries@),
            ),
            Err(e) => listed_members(compressed_tar_members(compression, data@)) is None && e
                == ArchiveError::Malformed,
        },
{
    match read_tar_members(data, compression) {
        Ok(members) => list_members(members),
        Err(e) => Err(e),
    }
}

/// The bytes of the member of a tar archive whose path is `file_path`.
pub fn extract_from_tar(data: Vec<u8>, compression: TarCompression, file_path: &str) -> (extracted:
    Result<Vec<u8>, ArchiveError>)
    ensures
        bytes_view(extracted) == extract_result(
            compressed_tar_members(compression, data@),
            file_path@,
        ),
{
    let ghost ms = compressed_tar_members(compression, data@);
    let mut archive = open_tar(data, compression);
    let mut walk = match tar_entries(&mut archive) {
        Ok(walk) => walk,
        Err(_) => {
            return Err(ArchiveError::Malformed);
        },
    };
    loop
        invariant
            compressed_tar_members(compression, data@) == ms,
            extract_result(ms, file_path@) == extract_result(tar_pending(walk), file_path@),
        decreases tar_pending(walk).len(),
    {
        match tar_step(&mut walk) {
            Some(Ok(member)) => {
                let matches = match &member.path {
                    Some(path) => crate::text::str_equal(path.as_str(), file_path),
                    None => false,
                };
                if matches {
                    return match tar_read_current(&mut walk) {
                        Ok(bytes) => Ok(bytes),
                        Err(_) => Err(ArchiveError::Malformed),
                    };
                }
            },
            Some(Err(_)) => {
                return Err(ArchiveError::Malformed);
            },
            None => {
                return Err(ArchiveError::MemberNotFound);
            },
        }
    }
}

/// The compression that a tar format uses.
fn compression_of(format: ArchiveFormat) -> (compression: TarCompression)
    ensures
        compression == match format {
            ArchiveFormat::TarGz => TarCompression::Gzip,
            ArchiveFormat::TarBz2 => TarCompression::Bzip2,
            _ => TarCompression::Plain,
        },
{
    match format {
        ArchiveFormat::TarGz => TarCompression::Gzip,
        ArchiveFormat::TarBz2 => TarCompression::Bzip2,
        _ => TarCompression::Plain,
    }
}

/// Whether the archive named `filename`, whose bytes are `data`, holds an
/// audio member: a member that is not a directory and whose path has an
/// audio extension. A file that is not an archive holds none.
pub fn archive_contains_audio(filename: &str, data: Vec<u8>) -> (found: Result<bool, ArchiveError>)
    ensures
        found == contains_audio_result(filename@, data@),
{
    match archive_format(filename) {
        None => Ok(false),
        Some(ArchiveFormat::Zip) => check_zip_for_audio(data),
        Some(format) => check_tar_for_audio(data, compression_of(format)),
    }
}

/// The audio members of the archive named `filename`, whose bytes are
/// `data`: its members that are not directories, not hidden, and have an
/// audio extension, each under its base name and its path inside the
/// archive, ordered by name. A file that is not an archive lists nothing.
pub fn list_archive_contents(filename: &str, data: Vec<u8>) -> (listed: Result<
    Vec<DirectoryEntry>,
    ArchiveError,
>)
    ensures
        listing_result(filename@, data@, listed_view(listed)),
        listed is Ok ==> shows_only_audio(entries_view(listed->Ok_0@)),
        listed is Ok ==> ascends_by_name(entries_view(listed->Ok_0@)),
{
    let ghost bytes = data@;
    let listed = match archive_format(filename) {
        None => {
            let none: Vec<DirectoryEntry> = Vec::new();
            assert(entries_view(none@) =~= Seq::<EntryModel>::empty());
            Ok(none)
        },
        Some(ArchiveFormat::Zip) => list_zip_contents(data),
        Some(format) => list_tar_contents(data, compression_of(format)),
    };
    proof {
        if listed is Ok {
            if let Some(format) = format_of_name(filename@) {
                lemma_listing_only_audio(
                    archive_members(format, bytes)->0,
                    entries_view(listed->Ok_0@),
                );
            }
        }
    }
    listed
}

/// The bytes of the member at exactly `file_path` inside the archive named
/// `filename`, whose bytes are `data`.
pub fn extract_file_from_archive(filename: &str, data: Vec<u8>, file_path: &str) -> (extracted:
    Result<Vec<u8>, ArchiveError>)
    ensures
        bytes_view(extracted) == extraction_result(filename@, data@, file_path@),
{
    match archive_format(filename) {
        None => Err(ArchiveError::UnsupportedFormat),
        Some(ArchiveFormat::Zip) => extract_from_zip(data, file_path),
        Some(format) => extract_from_tar(data, compression_of(format), file_path),
    }
}

/// Where the members can all be read, what they report is what each of
/// them holds, place by place.
pub proof fn lemma_readable_members(ms: Seq<Option<MemberModel>>)
    requires
        readable_members(ms) is Some,
    ensures
        readable_members(ms)->0.len() == ms.len(),
        forall|k: int|
            0 <= k < ms.len() ==> (#[trigger] ms[k]) is Some && readable_members(ms)->0[k]
                == ms[k]->0.info,
    decreases ms.len(),
{
    if ms.len() > 0 {
        let earlier = ms.drop_last();
        lemma_readable_members(earlier);
        assert forall|k: int| 0 <= k < ms.len() implies (#[trigger] ms[k]) is Some
            && readable_members(ms)->0[k] == ms[k]->0.info by {
            if k < ms.len() - 1 {
                assert(earlier[k] == ms[k]);
            } else {
                assert(ms[k] == ms.last());
            }
        }
    }
}

/// Every entry that a listing shows is the entry of a member that a
/// listing shows.
pub proof fn lemma_listed_entries_origin(infos: Seq<MemberInfo>)
    requires
        listed_entries(infos) is Some,
    ensures
        forall|i: int|
            0 <= i < listed_entries(infos)->0.len() ==> exists|k: int|
                {
                    &&& 0 <= k < infos.len()
                    &&& is_listed_member(#[trigger] infos[k])
                    &&& infos[k].size is Some
                    &&& #[trigger] listed_entries(infos)->0[i] == member_entry(
                        infos[k].path->0,
                        infos[k].size->0,
                    )
                },
    decreases infos.len(),
{
    if infos.len() > 0 {
        let earlier = infos.drop_last();
        lemma_listed_entries_origin(earlier);
        let all = listed_entries(infos)->0;
        let before = listed_entries(earlier)->0;
        assert forall|i: int| 0 <= i < all.len() implies exists|k: int|
            {
                &&& 0 <= k < infos.len()
                &&& is_listed_member(#[trigger] infos[k])
                &&& infos[k].size is Some
                &&& #[trigger] all[i] == member_entry(infos[k].path->0, infos[k].size->0)
            } by {
            if i < before.len() {
                assert(all[i] == before[i]);
                let k = choose|k: int|
                    {
                        &&& 0 <= k < earlier.len()
                        &&& is_listed_member(#[trigger] earlier[k])
                        &&& earlier[k].size is Some
                        &&& before[i] == member_entry(earlier[k].path->0, earlier[k].size->0)
                    };
                assert(infos[k] == earlier[k]);
            } else {
                let k = infos.len() - 1;
                assert(infos[k] == infos.last());
            }
        }
    }
}

/// Every entry among the listed members of `ms` is the entry of a member
/// of `ms` that a listing shows, and where the members can be listed at
/// all, each of them can be read.
pub proof fn lemma_listed_members_origin(ms: Seq<Option<MemberModel>>)
    requires
        listed_members(ms) is Some,
    ensures
        forall|k: int| 0 <= k < ms.len() ==> (#[trigger] ms[k]) is Some,
        forall|i: int|
            0 <= i < listed_members(ms)->0.len() ==> exists|k: int|
                {
                    &&& 0 <= k < ms.len()
                    &&& ms[k] is Some
                    &&& is_listed_member(ms[k]->0.info)
                    &&& ms[k]->0.info.size is Some
                    &&& #[trigger] listed_members(ms)->0[i] == member_entry(
                        ms[k]->0.info.path->0,
                        ms[k]->0.info.size->0,
                    )
                },
{
    lemma_readable_members(ms);
    let infos = readable_members(ms)->0;
    lemma_listed_entries_origin(infos);
    let all = listed_members(ms)->0;
    assert forall|i: int| 0 <= i < all.len() implies exists|k: int|
        {
            &&& 0 <= k < ms.len()
            &&& ms[k] is Some
            &&& is_listed_member(ms[k]->0.info)
            &&& ms[k]->0.info.size is Some
            &&& #[trigger] all[i] == member_entry(ms[k]->0.info.path->0, ms[k]->0.info.size->0)
        } by {
        let k = choose|k: int|
            {
                &&& 0 <= k < infos.len()
                &&& is_listed_member(#[trigger] infos[k])
                &&& infos[k].size is Some
                &&& all[i] == member_entry(infos[k].path->0, infos[k].size->0)
            };
        assert(ms[k] is Some && infos[k] == ms[k]->0.info);
    }
}

/// Where every member can be read and one of them has the path `target`,
/// extraction finds a member: it does not answer that none has that path.
pub proof fn lemma_extract_finds(ms: Seq<Option<MemberModel>>, target: Seq<char>, k: int)
    requires
        forall|j: int| 0 <= j < ms.len() ==> (#[trigger] ms[j]) is Some,
        0 <= k < ms.len(),
        ms[k]->0.info.path == Some(target),
    ensures
        extract_result(ms, target) != Err::<Seq<u8>, ArchiveError>(ArchiveError::MemberNotFound),
        exists|j: int|
            0 <= j <= k && (#[trigger] ms[j])->0.info.path == Some(target) && extract_result(
                ms,
                target,
            ) == match ms[j]->0.content {
                Some(bytes) => Ok::<Seq<u8>, ArchiveError>(bytes),
                None => Err(ArchiveError::Malformed),
            },
    decreases ms.len(),
{
    assert(ms[0] is Some);
    if ms[0]->0.info.path == Some(target) {
        assert(ms[0]->0.info.path == Some(target));
    } else {
        let rest = ms.drop_first();
        assert forall|j: int| 0 <= j < rest.len() implies (#[trigger] rest[j]) is Some by {
            assert(rest[j] == ms[j + 1]);
        }
        assert(rest[k - 1] == ms[k]);
        lemma_extract_finds(rest, target, k - 1);
        let j = choose|j: int|
            0 <= j <= k - 1 && (#[trigger] rest[j])->0.info.path == Some(target) && extract_result(
                rest,
                target,
            ) == match rest[j]->0.content {
                Some(bytes) => Ok::<Seq<u8>, ArchiveError>(bytes),
                None => Err(ArchiveError::Malformed),
            };
        assert(ms[j + 1] == rest[j]);
    }
}

/// Every entry is of kind audio, under a path that has an audio extension
/// and is not hidden, and is named by that path's base name.
pub open spec fn shows_only_audio(entries: Seq<EntryModel>) -> bool {
    forall|i: int|
        0 <= i < entries.len() ==> {
            &&& (#[trigger] entries[i]).entry_type == EntryType::Audio
            &&& is_audio_name(entries[i].path)
            &&& !is_hidden_path(entries[i].path)
            &&& entries[i].name == base_name(entries[i].path)
        }
}

/// The entries are in ascending order of name.
pub open spec fn ascends_by_name(entries: Seq<EntryModel>) -> bool {
    forall|i: int, j: int|
        0 <= i <= j < entries.len() ==> crate::text::lex_le(
            (#[trigger] entries[i]).name,
            (#[trigger] entries[j]).name,
        )
}

/// A listing of an archive's members shows only audio: every entry is of
/// kind audio, its path has an audio extension and is not hidden, it is the
/// path of a member that is no directory, and its name is that path's base
/// name. The entries are in ascending order of name.
pub proof fn lemma_listing_only_audio(ms: Seq<Option<MemberModel>>, entries: Seq<EntryModel>)
    requires
        is_member_listing(ms, entries),
    ensures
        shows_only_audio(entries),
        ascends_by_name(entries),
        forall|i: int|
            0 <= i < entries.len() ==> exists|k: int|
                0 <= k < ms.len() && (#[trigger] ms[k]) is Some && !ms[k]->0.info.is_dir
                    && ms[k]->0.info.path == Some((#[trigger] entries[i]).path),
{
    let unsorted = listed_members(ms)->0;
    let keys = name_keys(unsorted);
    let perm = choose|perm: Seq<int>|
        crate::ordering::is_stable_sort_by(unsorted, keys, entries, perm);
    lemma_listed_members_origin(ms);
    assert forall|i: int| 0 <= i < entries.len() implies {
        &&& (#[trigger] entries[i]).entry_type == EntryType::Audio
        &&& is_audio_name(entries[i].path)
        &&& !is_hidden_path(entries[i].path)
        &&& entries[i].name == base_name(entries[i].path)
        &&& exists|k: int|
            0 <= k < ms.len() && (#[trigger] ms[k]) is Some && !ms[k]->0.info.is_dir
                && ms[k]->0.info.path == Some(entries[i].path)
    } by {
        let e = unsorted[perm[i]];
        assert(entries[i] == e);
        let k = choose|k: int|
            {
                &&& 0 <= k < ms.len()
                &&& ms[k] is Some
                &&& is_listed_member(ms[k]->0.info)
                &&& ms[k]->0.info.size is Some
                &&& e == member_entry(ms[k]->0.info.path->0, ms[k]->0.info.size->0)
            };
        assert(ms[k] is Some && !ms[k]->0.info.is_dir && ms[k]->0.info.path == Some(
            entries[i].path,
        ));
    }
    assert forall|i: int, j: int| 0 <= i <= j < entries.len() implies crate::text::lex_le(
        (#[trigger] entries[i]).name,
        (#[trigger] entries[j]).name,
    ) by {
        crate::ordering::lemma_stable_sort_ascends(unsorted, keys, entries, perm, i, j);
        assert(entries[i] == unsorted[perm[i]] && entries[j] == unsorted[perm[j]]);
        assert(keys[perm[i]].name == unsorted[perm[i]].name);
        assert(keys[perm[j]].name == unsorted[perm[j]].name);
        if keys[perm[i]] == keys[perm[j]] {
            crate::text::lemma_lex_le_refl(entries[i].name);
        }
    }
}

/// Every path that a listing of an archive shows can be handed back to
/// extraction as it stands: extraction finds a member with exactly that
/// path, and answers its content, or that the content cannot be read.
pub proof fn lemma_listed_paths_extract(
    ms: Seq<Option<MemberModel>>,
    entries: Seq<EntryModel>,
    i: int,
)
    requires
        is_member_listing(ms, entries),
        0 <= i < entries.len(),
    ensures
        extract_result(ms, entries[i].path) != Err::<Seq<u8>, ArchiveError>(
            ArchiveError::MemberNotFound,
        ),
        exists|j: int|
            0 <= j < ms.len() && (#[trigger] ms[j]) is Some && ms[j]->0.info.path == Some(
                entries[i].path,
            ) && extract_result(ms, entries[i].path) == match ms[j]->0.content {
                Some(bytes) => Ok::<Seq<u8>, ArchiveError>(bytes),
                None => Err(ArchiveError::Malformed),
            },
{
    lemma_listing_only_audio(ms, entries);
    lemma_listed_members_origin(ms);
    let target = entries[i].path;
    let k = choose|k: int|
        0 <= k < ms.len() && (#[trigger] ms[k]) is Some && !ms[k]->0.info.is_dir
            && ms[k]->0.info.path == Some(target);
    lemma_extract_finds(ms, target, k);
    let j = choose|j: int|
        0 <= j <= k && (#[trigger] ms[j])->0.info.path == Some(target) && extract_result(
            ms,
            target,
        ) == match ms[j]->0.content {
            Some(bytes) => Ok::<Seq<u8>, ArchiveError>(bytes),
            None => Err(ArchiveError::Malformed),
        };
    assert(ms[j] is Some);
}

} // verus!

//! Directory listings: which entries of a directory are shown, as what, and
//! in which order.
//!
//! The gallery view shows directories, images, video and audio, directories
//! first. The music view shows directories, audio, and archives that hold
//! audio: directories first, then archives, then audio files. Within each
//! group entries are ordered by name. Hidden entries never appear.

use vstd::prelude::*;
use crate::filetypes::{
    is_archive, is_archive_name, is_audio, is_audio_name, is_hidden, is_hidden_name, is_image,
    is_image_name, is_video, is_video_name,
};
use crate::models::{entries_view, DirectoryEntry, DirectoryListing, EntryModel, EntryType};
use crate::ordering::{
    is_stable_sort, keys_view, lemma_stable_sort_of_views, stable_sort_by_key, KeyModel, SortKey,
};
use crate::archives::{list_archive_contents, listing_result, ArchiveError};
use crate::error::AppError;
use crate::text::{child_path, chars_of, joined, join_child};

verus! {

/// What reading a directory reports of one of its entries.
#[derive(Debug)]
pub struct RawEntry {
    pub name: String,
    pub is_dir: bool,
    /// Size in bytes.
    pub size: u64,
    /// For an archive that was probed: whether audio was found in it.
    /// `None` where no probe was made or the probe failed.
    pub contains_audio: Option<bool>,
}

/// What a `RawEntry` stands for.
pub struct RawModel {
    pub name: Seq<char>,
    pub is_dir: bool,
    pub size: u64,
    pub contains_audio: Option<bool>,
}

impl View for RawEntry {
    type V = RawModel;

    open spec fn view(&self) -> RawModel {
        RawModel {
            name: self.name@,
            is_dir: self.is_dir,
            size: self.size,
            contains_audio: self.contains_audio,
        }
    }
}

/// What a vector of raw entries stands for.
pub open spec fn raws_view(raws: Seq<RawEntry>) -> Seq<RawModel> {
    raws.map_values(|r: RawEntry| r@)
}

/// The two views of a directory.
#[derive(Debug, Clone, Copy, PartialEq, Eq, Structural)]
pub enum ListingMode {
    Gallery,
    Music,
}

/// As what an entry is shown in a view, or `None` where it is left out.
pub open spec fn shown_as(mode: ListingMode, raw: RawModel) -> Option<EntryType> {
    if is_hidden_name(raw.name) {
        None
    } else if raw.is_dir {
        Some(EntryType::Directory)
    } else {
        match mode {
            ListingMode::Gallery => if is_image_name(raw.name) {
                Some(EntryType::Image)
            } else if is_video_name(raw.name) {
                Some(EntryType::Video)
            } else if is_audio_name(raw.name) {
                Some(EntryType::Audio)
            } else {
                None
            },
            ListingMode::Music => if is_audio_name(raw.name) {
                Some(EntryType::Audio)
            } else if is_archive_name(raw.name) && raw.contains_audio == Some(true) {
                Some(EntryType::Archive)
            } else {
                None
            },
        }
    }
}

/// An archive in the music view has to be probed for audio before it can be
/// listed; nothing else has.
pub open spec fn probe_needed(raw_name: Seq<char>, is_dir: bool) -> bool {
    !is_hidden_name(raw_name) && !is_dir && !is_audio_name(raw_name) && is_archive_name(raw_name)
}

/// The position of a kind of entry among the groups of a view.
pub open spec fn group_rank(mode: ListingMode, entry_type: EntryType) -> int {
    match mode {
        ListingMode::Gallery => if entry_type == EntryType::Directory {
            0
        } else {
            1
        },
        ListingMode::Music => if entry_type == EntryType::Directory {
            0
        } else if entry_type == EntryType::Archive {
            1
        } else {
            2
        },
    }
}

/// The entries of the directory `path` that a view shows, in the order in
/// which the directory was read.
pub open spec fn shown_entries(mode: ListingMode, path: Seq<char>, raws: Seq<RawModel>) -> Seq<
    EntryModel,
>
    decreases raws.len(),
{
    if raws.len() == 0 {
        Seq::empty()
    } else {
        let earlier = shown_entries(mode, path, raws.drop_last());
        let raw = raws.last();
        match shown_as(mode, raw) {
            Some(entry_type) => earlier.push(
                EntryModel {
                    name: raw.name,
                    path: child_path(path, raw.name),
                    entry_type,
                    size: raw.size,
                },
            ),
            None => earlier,
        }
    }
}

/// The keys by which a view orders its entries.
pub open spec fn listing_keys(mode: ListingMode, entries: Seq<EntryModel>) -> Seq<KeyModel> {
    entries.map_values(
        |e: EntryModel| KeyModel { rank: group_rank(mode, e.entry_type), name: e.name },
    )
}

/// `entries` is what a view shows of the directory `path` holding `raws`:
/// the shown entries, by group and then by name.
pub open spec fn is_listing_of(
    mode: ListingMode,
    path: Seq<char>,
    raws: Seq<RawModel>,
    entries: Seq<EntryModel>,
) -> bool {
    is_stable_sort(
        shown_entries(mode, path, raws),
        listing_keys(mode, shown_entries(mode, path, raws)),
        entries,
    )
}

/// The parent of a path as `std::path::Path::parent` gives it, `None` where
/// the path has none.
pub uninterp spec fn parent_of(path: Seq<char>) -> Option<Seq<char>>;

/// The parent that a listing of `path` links to: none at the top, else the
/// path's parent, which is empty where the path has none.
pub open spec fn listing_parent(path: Seq<char>) -> Option<Seq<char>> {
    if path.len() == 0 {
        None
    } else {
        match parent_of(path) {
            Some(parent) => Some(parent),
            None => Some(Seq::empty()),
        }
    }
}

/// Calls `std::path::Path::parent` on `path`. Trusted: the result is that
/// function's answer, which depends on the path's text alone.
#[verifier::external_body]
fn path_parent(path: &str) -> (parent: Option<String>)
    ensures
        match parent {
            Some(p) => parent_of(path@) == Some(p@),
            None => parent_of(path@) is None,
        },
{
    std::path::Path::new(path).parent().map(|p| p.to_string_lossy().into_owned())
}

/// The parent that a listing of `path` links to.
pub fn parent_link(path: &str) -> (parent: Option<String>)
    ensures
        match parent {
            Some(p) => listing_parent(path@) == Some(p@),
            None => listing_parent(path@) is None,
        },
{
    if path.is_empty() {
        None
    } else {
        match path_parent(path) {
            Some(p) => Some(p),
            None => Some(String::new()),
        }
    }
}

/// Whether the entry `name` of a directory shown in the music view is an
/// archive that has to be probed for audio before the listing is built.
pub fn needs_archive_probe(name: &str, is_dir: bool) -> (r: bool)
    ensures
        r == probe_needed(name@, is_dir),
{
    !is_hidden(name) && !is_dir && !is_audio(name) && is_archive(name)
}

/// As what `raw` is shown in the view `mode`.
pub fn classify_entry(mode: ListingMode, raw: &RawEntry) -> (kind: Option<EntryType>)
    ensures
        kind == shown_as(mode, raw@),
{
    if is_hidden(raw.name.as_str()) {
        None
    } else if raw.is_dir {
        Some(EntryType::Directory)
    } else {
        match mode {
            ListingMode::Gallery => {
                if is_image(raw.name.as_str()) {
                    Some(EntryType::Image)
                } else if is_video(raw.name.as_str()) {
                    Some(EntryType::Video)
                } else if is_audio(raw.name.as_str()) {
                    Some(EntryType::Audio)
                } else {
                    None
                }
            },
            ListingMode::Music => {
                if is_audio(raw.name.as_str()) {
                    Some(EntryType::Audio)
                } else if is_archive(raw.name.as_str()) {
                    match raw.contains_audio {
                        Some(true) => Some(EntryType::Archive),
                        _ => None,
                    }
                } else {
                    None
                }
            },
        }
    }
}

/// The rank of a kind of entry in the view `mode`.
pub fn rank_of(mode: ListingMode, entry_type: EntryType) -> (rank: u8)
    ensures
        rank as int == group_rank(mode, entry_type),
{
    match mode {
        ListingMode::Gallery => match entry_type {
            EntryType::Directory => 0,
            _ => 1,
        },
        ListingMode::Music => match entry_type {
            EntryType::Directory => 0,
            EntryType::Archive => 1,
            _ => 2,
        },
    }
}

/// Builds the listing of the directory at the relative path `path`, whose
/// entries are `raws`, for the view `mode`.
pub fn build_listing(mode: ListingMode, path: &str, raws: Vec<RawEntry>) -> (listing:
    DirectoryListing)
    ensures
        listing.current_path@ == path@,
        match listing.parent_path {
            Some(p) => listing_parent(path@) == Some(p@),
            None => listing_parent(path@) is None,
        },
        is_listing_of(mode, path@, raws_view(raws@), entries_view(listing.entries@)),
{
    let mut entries: Vec<DirectoryEntry> = Vec::new();
    let mut keys: Vec<SortKey> = Vec::new();
    let ghost all = raws_view(raws@);
    let mut i: usize = 0;
    assert(all.take(0) =~= Seq::<RawModel>::empty());
    while i < raws.len()
        invariant
            i <= raws.len(),
            all == raws_view(raws@),
            entries.len() == keys.len(),
            entries_view(entries@) == shown_entries(mode, path@, all.take(i as int)),
            keys_view(keys@) == listing_keys(mode, entries_view(entries@)),
        decreases raws.len() - i,
    {
        let raw = &raws[i];
        proof {
            assert(all.take(i + 1).drop_last() =~= all.take(i as int));
            assert(all.take(i + 1).last() == raw@);
        }
        match classify_entry(mode, raw) {
            Some(entry_type) => {
                let ghost old_entries = entries@;
                let ghost old_keys = keys@;
                let entry = DirectoryEntry {
                    name: raw.name.clone(),
                    path: join_child(path, raw.name.as_str()),
                    entry_type,
                    size: raw.size,
                };
                let key = SortKey { rank: rank_of(mode, entry_type), name: chars_of(raw.name.as_str()) };
                entries.push(entry);
                keys.push(key);
                proof {
                    assert(entries_view(entries@) =~= entries_view(old_entries).push(entry@));
                    assert(keys_view(keys@) =~= keys_view(old_keys).push(key@));
                    assert(keys_view(keys@) =~= listing_keys(mode, entries_view(entries@)));
                }
            },
            None => {},
        }
        i += 1;
    }
    proof {
        assert(all.take(raws.len() as int) =~= all);
    }
    let ghost unsorted = entries@;
    let sorted = stable_sort_by_key(entries, keys);
    proof {
        lemma_stable_sort_of_views(
            unsorted,
            listing_keys(mode, entries_view(unsorted)),
            sorted@,
            entries_view(unsorted),
            entries_view(sorted@),
        );
    }
    DirectoryListing { current_path: path.to_owned(), parent_path: parent_link(path), entries: sorted }
}

/// `listing` is the listing of the directory requested as `path`, which
/// holds `raws`, in the view `mode`: it is titled by the path, links to the
/// path's parent, and shows the view's entries in the view's order.
pub open spec fn is_directory_listing(
    mode: ListingMode,
    path: Seq<char>,
    raws: Seq<RawModel>,
    listing: DirectoryListing,
) -> bool {
    &&& listing.current_path@ == path
    &&& match listing.parent_path {
        Some(p) => listing_parent(path) == Some(p@),
        None => listing_parent(path) is None,
    }
    &&& is_listing_of(mode, path, raws, entries_view(listing.entries@))
}

/// The gallery listing of the directory at `path`: directories, images,
/// video and audio; directories first, each group by name.
pub fn gallery_listing(path: &str, raws: Vec<RawEntry>) -> (listing: DirectoryListing)
    ensures
        is_directory_listing(ListingMode::Gallery, path@, raws_view(raws@), listing),
{
    build_listing(ListingMode::Gallery, path, raws)
}

/// The music listing of the directory at `path`: directories, archives that
/// hold audio, and audio files, in that order, each group by name.
pub fn music_listing(path: &str, raws: Vec<RawEntry>) -> (listing: DirectoryListing)
    ensures
        is_directory_listing(ListingMode::Music, path@, raws_view(raws@), listing),
{
    build_listing(ListingMode::Music, path, raws)
}

/// The entries of an archive's listing as they are linked from the page of
/// the archive at `path`: each member's path is prefixed with the
/// archive's path and the separator `!/`.
pub open spec fn linked_members(path: Seq<char>, members: Seq<EntryModel>) -> Seq<EntryModel> {
    members.map_values(
        |e: EntryModel|
            EntryModel {
                name: e.name,
                path: path + "!/"@ + e.path,
                entry_type: e.entry_type,
                size: e.size,
            },
    )
}

/// The parent that the listing of an archive links to: the parent of the
/// archive's path, which is empty where it has none.
pub open spec fn archive_parent(decoded_path: Seq<char>) -> Seq<char> {
    match parent_of(decoded_path) {
        Some(parent) => parent,
        None => Seq::empty(),
    }
}

/// `answer` is what is answered for the listing of the archive requested
/// as `path`, which decodes to `decoded_path`, is named `file_name` and
/// holds `data`: refused for a file without an archive extension, an
/// internal error for an archive that cannot be read, else the listing of
/// its audio members by name, each linked through the archive's path.
pub open spec fn is_archive_listing(
    path: Seq<char>,
    decoded_path: Seq<char>,
    file_name: Seq<char>,
    data: Seq<u8>,
    answer: Result<DirectoryListing, AppError>,
) -> bool {
    match answer {
        Ok(listing) => {
            &&& is_archive_name(file_name)
            &&& listing.current_path@ == decoded_path + " (archive)"@
            &&& listing.parent_path is Some
            &&& listing.parent_path->0@ == archive_parent(decoded_path)
            &&& exists|members: Seq<EntryModel>|
                {
                    &&& listing_result(file_name, data, Ok::<Seq<EntryModel>, ArchiveError>(members))
                    &&& entries_view(listing.entries@) == linked_members(path, members)
                }
        },
        Err(e) => if !is_archive_name(file_name) {
            e == AppError::Forbidden
        } else {
            e == AppError::InternalError && exists|why: ArchiveError|
                listing_result(file_name, data, Err::<Seq<EntryModel>, ArchiveError>(why))
        },
    }
}

/// Builds the listing of the archive that was requested as `path`, which
/// decodes to `decoded_path`, is named `file_name` and holds `data`.
///
/// A file without an archive extension is refused; an archive that cannot
/// be read is an internal error. The listing shows the archive's audio
/// members by name, each linked through the archive's path.
pub fn archive_listing(path: &str, decoded_path: &str, file_name: &str, data: Vec<u8>) -> (
    answer: Result<DirectoryListing, AppError>)
    ensures
        is_archive_listing(path@, decoded_path@, file_name@, data@, answer),
{
    if !is_archive(file_name) {
        return Err(AppError::Forbidden);
    }
    let mut entries = match list_archive_contents(file_name, data) {
        Ok(entries) => entries,
        Err(why) => {
            assert(listing_result(file_name@, data@, Err::<Seq<EntryModel>, ArchiveError>(why)));
            return Err(AppError::InternalError);
        },
    };
    let ghost members = entries_view(entries@);
    let prefix = joined(path, "!/");
    let mut i: usize = 0;
    while i < entries.len()
        invariant
            i <= entries.len(),
            entries.len() == members.len(),
            prefix@ == path@ + "!/"@,
            forall|j: int|
                0 <= j < i ==> (#[trigger] entries@[j])@ == linked_members(path@, members)[j],
            forall|j: int| i <= j < entries.len() ==> (#[trigger] entries@[j])@ == members[j],
        decreases entries.len() - i,
    {
        let linked = joined(prefix.as_str(), entries[i].path.as_str());
        entries[i].path = linked;
        i += 1;
    }
    proof {
        assert(entries_view(entries@) =~= linked_members(path@, members));
    }
    let parent = match path_parent(decoded_path) {
        Some(parent) => parent,
        None => String::new(),
    };
    Ok(
        DirectoryListing {
            current_path: joined(decoded_path, " (archive)"),
            parent_path: Some(parent),
            entries,
        },
    )
}

} // verus!

//! Media search: which files under the media root match a query.
//!
//! The tree is walked with a worklist of directories. The caller reads
//! one directory at a time and hands over its canonical form and its
//! entries. Containment is checked again at every step: a directory that
//! is not confined to the media root adds nothing. Of a confined directory
//! hidden entries are skipped, directories are queued, and media files
//! that pass every filter of the query are collected. At the end the
//! results are ordered by name.

use vstd::prelude::*;
use crate::content::{category_of, category_of_name, MediaCategory};
use crate::filetypes::{is_hidden, is_hidden_name, lowercase_of, to_lowercase};
use crate::listing::{raws_view, RawEntry, RawModel};
use crate::paths::{confined, path_view, validate_media_path};
use crate::ordering::{is_stable_sort, keys_view, stable_sort_by_key, KeyModel, SortKey};
use crate::text::{
    child_path, chars_of, contains_seq, join_child, str_contains, str_ends_with, str_equal,
};

verus! {

/// The filters of a search. Each one that is present has to hold.
#[derive(Debug)]
pub struct FilterQuery {
    /// The kind of file: `image`, `video` or `audio`.
    pub file_type: Option<String>,
    /// A suffix of the file name, compared without regard to case.
    pub extension: Option<String>,
    /// A part of the file name, compared without regard to case.
    pub name: Option<String>,
}

/// What a `FilterQuery` stands for.
pub struct QueryModel {
    pub file_type: Option<Seq<char>>,
    pub extension: Option<Seq<char>>,
    pub name: Option<Seq<char>>,
}

impl View for FilterQuery {
    type V = QueryModel;

    open spec fn view(&self) -> QueryModel {
        QueryModel {
            file_type: match self.file_type {
                Some(t) => Some(t@),
                None => None,
            },
            extension: match self.extension {
                Some(e) => Some(e@),
                None => None,
            },
            name: match self.name {
                Some(n) => Some(n@),
                None => None,
            },
        }
    }
}

/// One file that a search found.
#[derive(Debug)]
pub struct FilterResult {
    /// The file's path relative to the media root.
    pub path: String,
    pub name: String,
    /// Size in bytes.
    pub size: u64,
    /// `image`, `video` or `audio`.
    pub file_type: String,
}

/// What a `FilterResult` stands for.
pub struct ResultModel {
    pub path: Seq<char>,
    pub name: Seq<char>,
    pub size: u64,
    pub file_type: Seq<char>,
}

impl View for FilterResult {
    type V = ResultModel;

    open spec fn view(&self) -> ResultModel {
        ResultModel {
            path: self.path@,
            name: self.name@,
            size: self.size,
            file_type: self.file_type@,
        }
    }
}

/// What a vector of results stands for.
pub open spec fn results_view(results: Seq<FilterResult>) -> Seq<ResultModel> {
    results.map_values(|r: FilterResult| r@)
}

/// What a vector of paths stands for.
pub open spec fn paths_view(paths: Seq<String>) -> Seq<Seq<char>> {
    paths.map_values(|p: String| p@)
}

/// The answer to a search: the files found, by name, and their number.
#[derive(Debug)]
pub struct FilterResponse {
    pub results: Vec<FilterResult>,
    pub total: usize,
}

/// The name of a category as queries and results write it.
pub open spec fn category_name(category: MediaCategory) -> Seq<char> {
    match category {
        MediaCategory::Image => "image"@,
        MediaCategory::Video => "video"@,
        MediaCategory::Audio => "audio"@,
    }
}

/// The kind under which the file `name` matches `query`, `None` where it
/// is no media file or fails a filter.
pub open spec fn matched_kind(name: Seq<char>, query: QueryModel) -> Option<MediaCategory> {
    match category_of_name(name) {
        None => None,
        Some(category) => {
            let type_ok = match query.file_type {
                Some(wanted) => category_name(category) == wanted,
                None => true,
            };
            let extension_ok = match query.extension {
                Some(ext) => lowercase_of(ext).is_suffix_of(lowercase_of(name)),
                None => true,
            };
            let name_ok = match query.name {
                Some(part) => contains_seq(lowercase_of(name), lowercase_of(part)),
                None => true,
            };
            if type_ok && extension_ok && name_ok {
                Some(category)
            } else {
                None
            }
        },
    }
}

/// The files among the entries `raws` of the directory `dir` that match
/// `query`, in the order in which the directory was read.
pub open spec fn found_in(dir: Seq<char>, raws: Seq<RawModel>, query: QueryModel) -> Seq<
    ResultModel,
>
    decreases raws.len(),
{
    if raws.len() == 0 {
        Seq::empty()
    } else {
        let earlier = found_in(dir, raws.drop_last(), query);
        let raw = raws.last();
        if is_hidden_name(raw.name) || raw.is_dir {
            earlier
        } else {
            match matched_kind(raw.name, query) {
                Some(category) => earlier.push(
                    ResultModel {
                        path: child_path(dir, raw.name),
                        name: raw.name,
                        size: raw.size,
                        file_type: category_name(category),
                    },
                ),
                None => earlier,
            }
        }
    }
}

/// The directories among the entries `raws` of the directory `dir` that
/// the walk goes on into: those that are not hidden, in the order read.
pub open spec fn subdirectories(dir: Seq<char>, raws: Seq<RawModel>) -> Seq<Seq<char>>
    decreases raws.len(),
{
    if raws.len() == 0 {
        Seq::empty()
    } else {
        let earlier = subdirectories(dir, raws.drop_last());
        let raw = raws.last();
        if !is_hidden_name(raw.name) && raw.is_dir {
            earlier.push(child_path(dir, raw.name))
        } else {
            earlier
        }
    }
}

/// The keys by which results are ordered: the names alone.
pub open spec fn result_keys(results: Seq<ResultModel>) -> Seq<KeyModel> {
    results.map_values(|r: ResultModel| KeyModel { rank: 0, name: r.name })
}

/// The name of `category` as queries and results write it.
pub fn category_text(category: MediaCategory) -> (text: &'static str)
    ensures
        text@ == category_name(category),
{
    match category {
        MediaCategory::Image => "image",
        MediaCategory::Video => "video",
        MediaCategory::Audio => "audio",
    }
}

/// The kind under which the file `file_name` matches `query`.
pub fn match_file(file_name: &str, query: &FilterQuery) -> (kind: Option<MediaCategory>)
    ensures
        kind == matched_kind(file_name@, query@),
{
    let category = match category_of(file_name) {
        Some(category) => category,
        None => {
            return None;
        },
    };
    match &query.file_type {
        Some(wanted) => {
            if !str_equal(category_text(category), wanted.as_str()) {
                return None;
            }
        },
        None => {},
    }
    match &query.extension {
        Some(ext) => {
            let lower_name = to_lowercase(file_name);
            let lower_ext = to_lowercase(ext.as_str());
            if !str_ends_with(lower_name.as_str(), lower_ext.as_str()) {
                return None;
            }
        },
        None => {},
    }
    match &query.name {
        Some(part) => {
            let lower_name = to_lowercase(file_name);
            let lower_part = to_lowercase(part.as_str());
            if !str_contains(lower_name.as_str(), lower_part.as_str()) {
                return None;
            }
        },
        None => {},
    }
    Some(category)
}

/// The files that a step of the walk reports of the directory `dir`: its
/// matching files where the directory is confined to the root, none where
/// it is not.
pub open spec fn found_under(
    root: Seq<char>,
    dir: Seq<char>,
    canonical: Option<Seq<char>>,
    raws: Seq<RawModel>,
    query: QueryModel,
) -> Seq<ResultModel> {
    if confined(root, dir, canonical) is Ok {
        found_in(dir, raws, query)
    } else {
        Seq::empty()
    }
}

/// The directories that a step of the walk queues of the directory `dir`:
/// its visible subdirectories where the directory is confined to the root,
/// none where it is not.
pub open spec fn queued_under(
    root: Seq<char>,
    dir: Seq<char>,
    canonical: Option<Seq<char>>,
    raws: Seq<RawModel>,
) -> Seq<Seq<char>> {
    if confined(root, dir, canonical) is Ok {
        subdirectories(dir, raws)
    } else {
        Seq::empty()
    }
}

/// One step of the walk, at the directory whose relative path is
/// `relative_path`.
///
/// `canonical` is what the filesystem gave as the canonical form of that
/// directory under `media_dir`, and `entries` is what reading it gave.
/// Containment is checked again at every step: a directory that is not
/// confined to the media root reports nothing and queues nothing, whatever
/// `entries` holds. Of a confined directory the files that match `query`
/// join `results`, and its visible subdirectories join `pending`.
pub fn search_directory(
    media_dir: &str,
    relative_path: &str,
    canonical: Option<&str>,
    entries: &Vec<RawEntry>,
    query: &FilterQuery,
    results: &mut Vec<FilterResult>,
    pending: &mut Vec<String>,
)
    ensures
        results_view(final(results)@) == results_view(old(results)@) + found_under(
            media_dir@,
            relative_path@,
            path_view(canonical),
            raws_view(entries@),
            query@,
        ),
        paths_view(final(pending)@) == paths_view(old(pending)@) + queued_under(
            media_dir@,
            relative_path@,
            path_view(canonical),
            raws_view(entries@),
        ),
{
    match validate_media_path(media_dir, relative_path, canonical) {
        Ok(_) => collect_directory(relative_path, entries, query, results, pending),
        Err(_) => {
            assert(results_view(results@) + Seq::<ResultModel>::empty() =~= results_view(results@));
            assert(paths_view(pending@) + Seq::<Seq<char>>::empty() =~= paths_view(pending@));
        },
    }
}

/// Takes in the entries `entries` of the directory at the relative path
/// `relative_path`: the files that match `query` join `results`, and the
/// directories to walk next join `pending`. Hidden entries are skipped.
fn collect_directory(
    relative_path: &str,
    entries: &Vec<RawEntry>,
    query: &FilterQuery,
    results: &mut Vec<FilterResult>,
    pending: &mut Vec<String>,
)
    ensures
        results_view(final(results)@) == results_view(old(results)@) + found_in(
            relative_path@,
            raws_view(entries@),
            query@,
        ),
        paths_view(final(pending)@) == paths_view(old(pending)@) + subdirectories(
            relative_path@,
            raws_view(entries@),
        ),
{
    let ghost results0 = results_view(results@);
    let ghost pending0 = paths_view(pending@);
    let ghost raws = raws_view(entries@);
    let mut i: usize = 0;
    proof {
        assert(raws.take(0) =~= Seq::<RawModel>::empty());
        assert(results_view(results@) =~= results0 + found_in(relative_path@, raws.take(0), query@));
        assert(paths_view(pending@) =~= pending0 + subdirectories(relative_path@, raws.take(0)));
    }
    while i < entries.len()
        invariant
            i <= entries.len(),
            raws == raws_view(entries@),
            results_view(results@) == results0 + found_in(
                relative_path@,
                raws.take(i as int),
                query@,
            ),
            paths_view(pending@) == pending0 + subdirectories(relative_path@, raws.take(i as int)),
        decreases entries.len() - i,
    {
        let entry = &entries[i];
        let ghost old_results = results@;
        let ghost old_pending = pending@;
        proof {
            assert(raws.take(i + 1).drop_last() =~= raws.take(i as int));
            assert(raws.take(i + 1).last() == entry@);
        }
        if !is_hidden(entry.name.as_str()) {
            if entry.is_dir {
                let child = join_child(relative_path, entry.name.as_str());
                pending.push(child);
                proof {
                    assert(paths_view(pending@) =~= paths_view(old_pending).push(child@));
                }
            } else {
                match match_file(entry.name.as_str(), query) {
                    Some(category) => {
                        let found = FilterResult {
                            path: join_child(relative_path, entry.name.as_str()),
                            name: entry.name.clone(),
                            size: entry.size,
                            file_type: category_text(category).to_owned(),
                        };
                        results.push(found);
                        proof {
                            assert(results_view(results@) =~= results_view(old_results).push(
                                found@,
                            ));
                        }
                    },
                    None => {},
                }
            }
        }
        proof {
            assert(results_view(results@) =~= results0 + found_in(
                relative_path@,
                raws.take(i + 1),
                query@,
            ));
            assert(paths_view(pending@) =~= pending0 + subdirectories(
                relative_path@,
                raws.take(i + 1),
            ));
        }
        i += 1;
    }
    proof {
        assert(raws.take(entries.len() as int) =~= raws);
    }
}

/// Makes the answer to a search of the files found: the files ordered by
/// name, files of one name in the order found, and their number.
pub fn filter_handler(results: Vec<FilterResult>) -> (response: FilterResponse)
    ensures
        is_stable_sort(
            results_view(results@),
            result_keys(results_view(results@)),
            results_view(response.results@),
        ),
        response.total == results.len(),
        response.total == response.results.len(),
{
    let mut keys: Vec<SortKey> = Vec::new();
    let mut i: usize = 0;
    while i < results.len()
        invariant
            i <= results.len(),
            keys.len() == i,
            keys_view(keys@) == result_keys(results_view(results@).take(i as int)),
        decreases results.len() - i,
    {
        let ghost old_keys = keys@;
        let key = SortKey { rank: 0, name: chars_of(results[i].name.as_str()) };
        keys.push(key);
        proof {
            assert(keys_view(keys@) =~= keys_view(old_keys).push(key@));
            assert(keys_view(keys@) =~= result_keys(results_view(results@).take(i + 1)));
        }
        i += 1;
    }
    proof {
        assert(results_view(results@).take(results.len() as int) =~= results_view(results@));
    }
    let ghost unsorted = results@;
    let sorted = stable_sort_by_key(results, keys);
    proof {
        crate::ordering::lemma_stable_sort_of_views(
            unsorted,
            result_keys(results_view(unsorted)),
            sorted@,
            results_view(unsorted),
            results_view(sorted@),
        );
    }
    let total = sorted.len();
    FilterResponse { results: sorted, total }
}

/// A search under way: the query, the directories still to be read, and
/// the files found so far.
pub struct MediaSearch {
    query: FilterQuery,
    pending: Vec<String>,
    results: Vec<FilterResult>,
}

/// What a search under way stands for.
pub struct SearchModel {
    pub query: QueryModel,
    /// The relative paths of the directories still to be read; the last
    /// one is read next.
    pub pending: Seq<Seq<char>>,
    /// The files found so far, in the order found.
    pub results: Seq<ResultModel>,
}

impl View for MediaSearch {
    type V = SearchModel;

    closed spec fn view(&self) -> SearchModel {
        SearchModel {
            query: self.query@,
            pending: paths_view(self.pending@),
            results: results_view(self.results@),
        }
    }
}

impl MediaSearch {
    /// A search for `query` that has the media root, the empty relative
    /// path, to read and has found nothing yet.
    pub fn new(query: FilterQuery) -> (search: Self)
        ensures
            search@.query == query@,
            search@.pending == seq![Seq::<char>::empty()],
            search@.results == Seq::<ResultModel>::empty(),
    {
        let mut pending: Vec<String> = Vec::new();
        pending.push(String::new());
        let search = MediaSearch { query, pending, results: Vec::new() };
        proof {
            assert(search@.pending =~= seq![Seq::<char>::empty()]);
            assert(search@.results =~= Seq::<ResultModel>::empty());
        }
        search
    }

    /// The directory to read next, `None` when the walk is over. The
    /// directory leaves the worklist.
    pub fn next_directory(&mut self) -> (next: Option<String>)
        ensures
            final(self)@.query == old(self)@.query,
            final(self)@.results == old(self)@.results,
            match next {
                Some(dir) => old(self)@.pending.len() > 0 && dir@ == old(self)@.pending.last()
                    && final(self)@.pending == old(self)@.pending.drop_last(),
                None => old(self)@.pending.len() == 0 && final(self)@.pending == old(
                    self,
                )@.pending,
            },
    {
        let ghost before = self.pending@;
        let next = self.pending.pop();
        proof {
            if before.len() > 0 {
                assert(paths_view(self.pending@) =~= paths_view(before).drop_last());
                assert(paths_view(before).last() == before.last()@);
            }
        }
        next
    }

    /// One step of the walk: takes in what reading the directory at
    /// `relative_path` gave, where the directory is confined to
    /// `media_dir`.
    ///
    /// `canonical` is what the filesystem gave as the canonical form of the
    /// directory. Where the directory is not confined to the root, results
    /// and worklist stay as they are. Else the files that match the query
    /// join the results, and the visible subdirectories join the worklist.
    pub fn visit_confined(
        &mut self,
        media_dir: &str,
        relative_path: &str,
        canonical: Option<&str>,
        entries: &Vec<RawEntry>,
    )
        ensures
            final(self)@.query == old(self)@.query,
            final(self)@.results == old(self)@.results + found_under(
                media_dir@,
                relative_path@,
                path_view(canonical),
                raws_view(entries@),
                old(self)@.query,
            ),
            final(self)@.pending == old(self)@.pending + queued_under(
                media_dir@,
                relative_path@,
                path_view(canonical),
                raws_view(entries@),
            ),
            confined(media_dir@, relative_path@, path_view(canonical)) is Err ==> final(self)@
                == old(self)@,
    {
        search_directory(
            media_dir,
            relative_path,
            canonical,
            entries,
            &self.query,
            &mut self.results,
            &mut self.pending,
        );
        proof {
            if confined(media_dir@, relative_path@, path_view(canonical)) is Err {
                assert(self@.results =~= old(self)@.results);
                assert(self@.pending =~= old(self)@.pending);
            }
        }
    }

    /// Ends the search: the files found, ordered by name, and their number.
    pub fn finish(self) -> (response: FilterResponse)
        ensures
            is_stable_sort(
                self@.results,
                result_keys(self@.results),
                results_view(response.results@),
            ),
            response.total == self@.results.len(),
            response.total == response.results.len(),
    {
        filter_handler(self.results)
    }
}

} // verus!

use doggygallery::content::MediaCategory;
use doggygallery::listing::RawEntry;
use doggygallery::search::{
    category_text, filter_handler, match_file, search_directory, FilterQuery, FilterResult,
    MediaSearch,
};

fn file(name: &str, size: u64) -> RawEntry {
    RawEntry { name: name.to_string(), is_dir: false, size, contains_audio: None }
}

fn dir(name: &str) -> RawEntry {
    RawEntry { name: name.to_string(), is_dir: true, size: 0, contains_audio: None }
}

fn query(file_type: Option<&str>, extension: Option<&str>, name: Option<&str>) -> FilterQuery {
    FilterQuery {
        file_type: file_type.map(|s| s.to_string()),
        extension: extension.map(|s| s.to_string()),
        name: name.map(|s| s.to_string()),
    }
}

fn found(path: &str, name: &str, size: u64, file_type: &str) -> FilterResult {
    FilterResult {
        path: path.to_string(),
        name: name.to_string(),
        size,
        file_type: file_type.to_string(),
    }
}

fn paths(results: &[FilterResult]) -> Vec<String> {
    results.iter().map(|r| r.path.clone()).collect()
}

#[test]
fn files_are_matched_by_kind() {
    let all = query(None, None, None);
    assert_eq!(match_file("a.jpg", &all), Some(MediaCategory::Image));
    assert_eq!(match_file("a.MOV", &all), Some(MediaCategory::Video));
    assert_eq!(match_file("a.ogg", &all), Some(MediaCategory::Audio));
    assert_eq!(match_file("a.zip", &all), None);
    assert_eq!(match_file("a.txt", &all), None);
    assert_eq!(category_text(MediaCategory::Image), "image");
    assert_eq!(category_text(MediaCategory::Video), "video");
    assert_eq!(category_text(MediaCategory::Audio), "audio");
}

#[test]
fn type_filter_is_exact() {
    assert_eq!(match_file("a.jpg", &query(Some("image"), None, None)), Some(MediaCategory::Image));
    assert_eq!(match_file("a.jpg", &query(Some("video"), None, None)), None);
    assert_eq!(match_file("a.jpg", &query(Some("Image"), None, None)), None);
    assert_eq!(match_file("a.jpg", &query(Some(""), None, None)), None);
}

#[test]
fn extension_filter_ignores_case() {
    assert_eq!(match_file("a.JPG", &query(None, Some(".jpg"), None)), Some(MediaCategory::Image));
    assert_eq!(match_file("a.jpg", &query(None, Some(".JPG"), None)), Some(MediaCategory::Image));
    assert_eq!(match_file("a.jpg", &query(None, Some("jpg"), None)), Some(MediaCategory::Image));
    assert_eq!(match_file("a.jpg", &query(None, Some(".png"), None)), None);
    assert_eq!(match_file("a.jpg", &query(None, Some(""), None)), Some(MediaCategory::Image));
}

#[test]
fn name_filter_is_a_substring_without_case() {
    assert_eq!(
        match_file("Holiday-2020.jpg", &query(None, None, Some("holiday"))),
        Some(MediaCategory::Image)
    );
    assert_eq!(
        match_file("holiday.jpg", &query(None, None, Some("DAY.J"))),
        Some(MediaCategory::Image)
    );
    assert_eq!(match_file("holiday.jpg", &query(None, None, Some("work"))), None);
    assert_eq!(match_file("holiday.jpg", &query(None, None, Some(""))), Some(MediaCategory::Image));
}

#[test]
fn filters_all_have_to_hold() {
    let q = query(Some("audio"), Some(".mp3"), Some("live"));
    assert_eq!(match_file("Live at Home.mp3", &q), Some(MediaCategory::Audio));
    assert_eq!(match_file("Live at Home.flac", &q), None);
    assert_eq!(match_file("Studio.mp3", &q), None);
    assert_eq!(match_file("live.mp3.jpg", &q), None);
}

#[test]
fn directory_is_searched_and_subdirectories_queued() {
    let entries = vec![
        file("b.jpg", 10),
        dir("sub"),
        file(".hidden.jpg", 11),
        dir(".cache"),
        file("a.mp3", 12),
        file("readme.txt", 13),
        dir("other"),
    ];
    let mut results = Vec::new();
    let mut pending = Vec::new();
    search_directory(
        "/srv/media",
        "",
        Some("/srv/media"),
        &entries,
        &query(None, None, None),
        &mut results,
        &mut pending,
    );
    assert_eq!(paths(&results), vec!["b.jpg", "a.mp3"]);
    assert_eq!(results[0].name, "b.jpg");
    assert_eq!(results[0].size, 10);
    assert_eq!(results[0].file_type, "image");
    assert_eq!(results[1].file_type, "audio");
    assert_eq!(pending, vec!["sub", "other"]);
}

#[test]
fn nested_directory_prefixes_paths() {
    let entries = vec![file("c.mp4", 1), dir("deeper")];
    let mut results = vec![found("x.jpg", "x.jpg", 5, "image")];
    let mut pending = vec!["waiting".to_string()];
    search_directory(
        "/srv/media",
        "sub/dir",
        Some("/srv/media/sub/dir"),
        &entries,
        &query(Some("video"), None, None),
        &mut results,
        &mut pending,
    );
    assert_eq!(paths(&results), vec!["x.jpg", "sub/dir/c.mp4"]);
    assert_eq!(results[1].name, "c.mp4");
    assert_eq!(results[1].file_type, "video");
    assert_eq!(pending, vec!["waiting", "sub/dir/deeper"]);
}

#[test]
fn whole_tree_is_walked_with_a_worklist() {
    // root: a.jpg, d1/, d2/ ; d1: b.jpg, d3/, c.png ; d2: (empty) ; d1/d3: A.JPG, .x/
    let mut walk = MediaSearch::new(query(None, Some(".jpg"), None));
    let mut visited = Vec::new();
    while let Some(current) = walk.next_directory() {
        let entries = match current.as_str() {
            "" => vec![file("a.jpg", 1), dir("d1"), dir("d2")],
            "d1" => vec![file("b.jpg", 2), dir("d3"), file("c.png", 9)],
            "d2" => vec![],
            "d1/d3" => vec![file("A.JPG", 3), dir(".x")],
            other => panic!("unexpected directory {}", other),
        };
        let canonical = if current.is_empty() {
            "/srv/media".to_string()
        } else {
            format!("/srv/media/{}", current)
        };
        walk.visit_confined("/srv/media", &current, Some(&canonical), &entries);
        visited.push(current);
    }
    assert_eq!(visited, vec!["", "d2", "d1", "d1/d3"]);
    let response = walk.finish();
    assert_eq!(response.total, 3);
    assert_eq!(paths(&response.results), vec!["d1/d3/A.JPG", "a.jpg", "d1/b.jpg"]);
}

#[test]
fn search_starts_at_the_root_and_ends_when_nothing_is_left() {
    let mut walk = MediaSearch::new(query(None, None, None));
    assert_eq!(walk.next_directory(), Some(String::new()));
    assert_eq!(walk.next_directory(), None);
    walk.visit_confined(
        "/srv/media",
        "",
        Some("/srv/media"),
        &vec![dir("a"), dir("b"), file("x.mp3", 1)],
    );
    assert_eq!(walk.next_directory(), Some("b".to_string()));
    assert_eq!(walk.next_directory(), Some("a".to_string()));
    assert_eq!(walk.next_directory(), None);
    let response = walk.finish();
    assert_eq!(response.total, 1);
    assert_eq!(response.results[0].path, "x.mp3");
}

#[test]
fn directory_outside_the_root_reports_nothing() {
    let entries = vec![file("passwd.jpg", 1), dir("ssh")];
    let mut results = vec![found("x.jpg", "x.jpg", 5, "image")];
    let mut pending = vec!["waiting".to_string()];
    let all = query(None, None, None);
    // a link below the root that leads outside
    search_directory("/srv/media", "link", Some("/etc"), &entries, &all, &mut results, &mut pending);
    // a sibling that shares the root's name as a prefix
    search_directory("/srv/media", "b", Some("/srv/media2/b"), &entries, &all, &mut results, &mut pending);
    // a directory that is gone
    search_directory("/srv/media", "gone", None, &entries, &all, &mut results, &mut pending);
    // a hidden directory, and a visible name that leads to one
    search_directory("/srv/media", ".git", Some("/srv/media/.git"), &entries, &all, &mut results, &mut pending);
    search_directory("/srv/media", "g", Some("/srv/media/.git"), &entries, &all, &mut results, &mut pending);
    assert_eq!(paths(&results), vec!["x.jpg"]);
    assert_eq!(pending, vec!["waiting"]);
    // the same entries under a confined directory are taken in
    search_directory("/srv/media", "ok", Some("/srv/media/ok"), &entries, &all, &mut results, &mut pending);
    assert_eq!(paths(&results), vec!["x.jpg", "ok/passwd.jpg"]);
    assert_eq!(pending, vec!["waiting", "ok/ssh"]);
}

#[test]
fn walk_skips_directories_that_leave_the_root() {
    // root: a.jpg, out/ (leads to /etc), loop/ (leads back to the root)
    let mut walk = MediaSearch::new(query(None, None, None));
    let mut steps = 0;
    while let Some(current) = walk.next_directory() {
        steps += 1;
        assert!(steps < 10, "the walk does not end");
        let (canonical, entries) = match current.as_str() {
            "" => ("/srv/media", vec![file("a.jpg", 1), dir("out"), dir("inner")]),
            "out" => ("/etc", vec![file("secret.jpg", 2), dir("deeper")]),
            "inner" => ("/srv/media/inner", vec![file("b.jpg", 3)]),
            other => panic!("unexpected directory {}", other),
        };
        walk.visit_confined("/srv/media", &current, Some(canonical), &entries);
    }
    let response = walk.finish();
    assert_eq!(paths(&response.results), vec!["a.jpg", "inner/b.jpg"]);
    assert_eq!(response.total, 2);
}

#[test]
fn results_are_ordered_by_name() {
    let results = vec![
        found("z/b.jpg", "b.jpg", 1, "image"),
        found("a.jpg", "a.jpg", 2, "image"),
        found("y/b.jpg", "b.jpg", 3, "image"),
        found("B.jpg", "B.jpg", 4, "image"),
        found("ab.jpg", "ab.jpg", 5, "image"),
        found("a", "a", 6, "image"),
    ];
    let response = filter_handler(results);
    assert_eq!(response.total, 6);
    assert_eq!(
        paths(&response.results),
        vec!["B.jpg", "a", "a.jpg", "ab.jpg", "z/b.jpg", "y/b.jpg"]
    );
    assert_eq!(response.results[4].size, 1);
}

#[test]
fn empty_search_has_no_results() {
    let response = filter_handler(Vec::new());
    assert_eq!(response.total, 0);
    assert!(response.results.is_empty());
}

use std::io::Write;

use doggygallery::error::AppError;
use doggygallery::listing::{
    archive_listing, classify_entry, gallery_listing, music_listing, needs_archive_probe,
    parent_link, ListingMode, RawEntry,
};
use doggygallery::models::{DirectoryListing, EntryType};

fn file(name: &str, size: u64) -> RawEntry {
    RawEntry { name: name.to_string(), is_dir: false, size, contains_audio: None }
}

fn dir(name: &str) -> RawEntry {
    RawEntry { name: name.to_string(), is_dir: true, size: 4096, contains_audio: None }
}

fn archive(name: &str, contains_audio: Option<bool>) -> RawEntry {
    RawEntry { name: name.to_string(), is_dir: false, size: 10, contains_audio }
}

fn shown(listing: &DirectoryListing) -> Vec<(String, EntryType)> {
    listing.entries.iter().map(|e| (e.name.clone(), e.entry_type)).collect()
}

fn zip_with(name: &str) -> Vec<u8> {
    let mut writer = zip::ZipWriter::new(std::io::Cursor::new(Vec::new()));
    writer.start_file(name, zip::write::SimpleFileOptions::default()).unwrap();
    writer.write_all(b"data").unwrap();
    writer.finish().unwrap().into_inner()
}

#[test]
fn gallery_shows_directories_first_then_names() {
    let raws = vec![
        file("zebra.png", 1),
        dir("music"),
        file("notes.txt", 2),
        file(".hidden.jpg", 3),
        file("clip.MP4", 4),
        dir(".git"),
        dir("albums"),
        file("song.mp3", 5),
        file("archive.zip", 6),
        file("Alpha.jpg", 7),
    ];
    let listing = gallery_listing("", raws);
    assert_eq!(
        shown(&listing),
        vec![
            ("albums".to_string(), EntryType::Directory),
            ("music".to_string(), EntryType::Directory),
            ("Alpha.jpg".to_string(), EntryType::Image),
            ("clip.MP4".to_string(), EntryType::Video),
            ("song.mp3".to_string(), EntryType::Audio),
            ("zebra.png".to_string(), EntryType::Image),
        ]
    );
    assert_eq!(listing.current_path, "");
    assert_eq!(listing.parent_path, None);
    assert_eq!(listing.entries[2].size, 7);
    assert_eq!(listing.entries[2].path, "Alpha.jpg");
}

#[test]
fn music_shows_directories_then_archives_then_audio() {
    let raws = vec![
        file("b.mp3", 1),
        archive("live.zip", Some(true)),
        file("cover.jpg", 2),
        dir("disc2"),
        archive("empty.zip", Some(false)),
        archive("unread.tar", None),
        file("a.flac", 3),
        archive("demo.tar.gz", Some(true)),
        dir("disc1"),
        file(".b.mp3", 4),
    ];
    let listing = music_listing("rock/1999", raws);
    assert_eq!(
        shown(&listing),
        vec![
            ("disc1".to_string(), EntryType::Directory),
            ("disc2".to_string(), EntryType::Directory),
            ("demo.tar.gz".to_string(), EntryType::Archive),
            ("live.zip".to_string(), EntryType::Archive),
            ("a.flac".to_string(), EntryType::Audio),
            ("b.mp3".to_string(), EntryType::Audio),
        ]
    );
    assert_eq!(listing.current_path, "rock/1999");
    assert_eq!(listing.parent_path, Some("rock".to_string()));
    assert_eq!(listing.entries[0].path, "rock/1999/disc1");
    assert_eq!(listing.entries[4].path, "rock/1999/a.flac");
    assert_eq!(listing.entries[4].size, 3);
}

#[test]
fn empty_directory_lists_nothing() {
    let listing = gallery_listing("a", Vec::new());
    assert!(listing.entries.is_empty());
    assert_eq!(listing.parent_path, Some(String::new()));
    let listing = music_listing("", Vec::new());
    assert!(listing.entries.is_empty());
    assert_eq!(listing.parent_path, None);
}

#[test]
fn parent_of_a_listing() {
    assert_eq!(parent_link(""), None);
    assert_eq!(parent_link("a"), Some(String::new()));
    assert_eq!(parent_link("a/b"), Some("a".to_string()));
    assert_eq!(parent_link("a/b/c.zip"), Some("a/b".to_string()));
}

#[test]
fn entries_are_classified_by_extension() {
    assert_eq!(classify_entry(ListingMode::Gallery, &file("a.PNG", 1)), Some(EntryType::Image));
    assert_eq!(classify_entry(ListingMode::Gallery, &file("a.webm", 1)), Some(EntryType::Video));
    assert_eq!(classify_entry(ListingMode::Gallery, &file("a.opus", 1)), Some(EntryType::Audio));
    assert_eq!(classify_entry(ListingMode::Gallery, &file("a.zip", 1)), None);
    assert_eq!(classify_entry(ListingMode::Gallery, &file("a", 1)), None);
    assert_eq!(classify_entry(ListingMode::Gallery, &dir("a.png")), Some(EntryType::Directory));
    assert_eq!(classify_entry(ListingMode::Gallery, &dir(".a")), None);
    assert_eq!(classify_entry(ListingMode::Music, &file("a.png", 1)), None);
    assert_eq!(classify_entry(ListingMode::Music, &file("a.wav", 1)), Some(EntryType::Audio));
    assert_eq!(
        classify_entry(ListingMode::Music, &archive("a.tbz2", Some(true))),
        Some(EntryType::Archive)
    );
    assert_eq!(classify_entry(ListingMode::Music, &archive("a.tbz2", Some(false))), None);
    assert_eq!(classify_entry(ListingMode::Music, &archive("a.tbz2", None)), None);
}

#[test]
fn only_visible_archives_are_probed() {
    assert!(needs_archive_probe("a.zip", false));
    assert!(needs_archive_probe("A.TAR.GZ", false));
    assert!(!needs_archive_probe("a.zip", true));
    assert!(!needs_archive_probe(".a.zip", false));
    assert!(!needs_archive_probe("a.mp3", false));
    assert!(!needs_archive_probe("a.txt", false));
}

#[test]
fn archive_listing_links_members_through_the_archive() {
    let listing =
        archive_listing("my%20music/a.zip", "my music/a.zip", "a.zip", zip_with("x/s.mp3"))
            .unwrap();
    assert_eq!(listing.current_path, "my music/a.zip (archive)");
    assert_eq!(listing.parent_path, Some("my music".to_string()));
    assert_eq!(listing.entries.len(), 1);
    assert_eq!(listing.entries[0].name, "s.mp3");
    assert_eq!(listing.entries[0].path, "my%20music/a.zip!/x/s.mp3");
    assert_eq!(listing.entries[0].entry_type, EntryType::Audio);
    assert_eq!(listing.entries[0].size, 4);
}

#[test]
fn archive_listing_of_a_top_level_archive() {
    let listing = archive_listing("a.zip", "a.zip", "a.zip", zip_with("s.mp3")).unwrap();
    assert_eq!(listing.parent_path, Some(String::new()));
    assert_eq!(listing.entries[0].path, "a.zip!/s.mp3");
}

#[test]
fn archive_listing_refuses_other_files() {
    assert_eq!(
        archive_listing("a.mp3", "a.mp3", "a.mp3", zip_with("s.mp3")).unwrap_err(),
        AppError::Forbidden
    );
}

#[test]
fn archive_listing_of_an_unreadable_archive_is_an_internal_error() {
    assert_eq!(
        archive_listing("a.zip", "a.zip", "a.zip", b"garbage".to_vec()).unwrap_err(),
        AppError::InternalError
    );
}

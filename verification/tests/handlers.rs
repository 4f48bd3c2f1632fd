use std::io::Write;

use doggygallery::archive_reader::ArchiveMember;
use doggygallery::archives::{file_name, list_members, ArchiveError};
use doggygallery::error::AppError;
use doggygallery::handlers::{
    list_directory_handler, music_archive_handler, music_list_handler, serve_album_art_handler,
    serve_archive_file_handler, serve_media_handler, target_of,
};
use doggygallery::listing::RawEntry;
use doggygallery::models::EntryType;
use doggygallery::serve::AlbumArt;

const ROOT: &str = "/srv/media";
const ID3: &[u8] = b"ID3\x03\x00\x00\x00\x00\x00\x0fsome audio frames";
const PNG: &[u8] = b"\x89PNG\r\n\x1a\n\x00\x00\x00\rIHDR\x00\x00\x00\x01\x00\x00\x00\x01";
const SCRIPT: &[u8] = b"<script>alert('hi')</script> plain text payload";

fn file(name: &str, size: u64) -> RawEntry {
    RawEntry { name: name.to_string(), is_dir: false, size, contains_audio: None }
}

fn dir(name: &str) -> RawEntry {
    RawEntry { name: name.to_string(), is_dir: true, size: 0, contains_audio: None }
}

fn zip_of(members: &[(&str, &[u8])]) -> Vec<u8> {
    let mut writer = zip::ZipWriter::new(std::io::Cursor::new(Vec::new()));
    for (name, content) in members {
        writer.start_file(*name, zip::write::SimpleFileOptions::default()).unwrap();
        writer.write_all(content).unwrap();
    }
    writer.finish().unwrap().into_inner()
}

fn member(path: Option<&str>, is_dir: bool, size: Option<u64>) -> ArchiveMember {
    ArchiveMember { path: path.map(|p| p.to_string()), is_dir, size }
}

#[test]
fn listing_of_a_path_that_does_not_decode_is_invalid() {
    // whatever the filesystem holds
    for (canonical, is_dir) in [(None, false), (Some("/"), true), (Some("/srv/media"), true)] {
        assert_eq!(
            music_list_handler("/", "%FF", canonical, is_dir, vec![file("a.mp3", 1)]).unwrap_err(),
            AppError::InvalidPath
        );
        assert_eq!(
            list_directory_handler(ROOT, "a/%C3", canonical, is_dir, vec![]).unwrap_err(),
            AppError::InvalidPath
        );
    }
}

#[test]
fn listing_refusals_come_in_order() {
    let raws = || vec![file("a.mp3", 1), dir("d")];
    // hidden before anything is looked for
    assert_eq!(
        music_list_handler(ROOT, ".git", Some("/srv/media/.git"), true, raws()).unwrap_err(),
        AppError::Forbidden
    );
    assert_eq!(music_list_handler(ROOT, "%2Egit", None, false, raws()).unwrap_err(), AppError::Forbidden);
    // missing
    assert_eq!(music_list_handler(ROOT, "gone", None, false, raws()).unwrap_err(), AppError::NotFound);
    // outside the root
    assert_eq!(
        music_list_handler(ROOT, "link", Some("/etc"), true, raws()).unwrap_err(),
        AppError::Forbidden
    );
    assert_eq!(
        list_directory_handler(ROOT, "link", Some("/srv/media2"), true, raws()).unwrap_err(),
        AppError::Forbidden
    );
    // a file, not a directory
    assert_eq!(
        list_directory_handler(ROOT, "a.mp3", Some("/srv/media/a.mp3"), false, raws()).unwrap_err(),
        AppError::NotFound
    );
}

#[test]
fn directories_are_listed_through_the_handlers() {
    let raws = vec![file("b.mp3", 1), dir("d"), file("a.png", 2), file(".x.mp3", 3)];
    let listing =
        list_directory_handler(ROOT, "my%20dir", Some("/srv/media/my dir"), true, raws).unwrap();
    assert_eq!(listing.current_path, "my%20dir");
    assert_eq!(listing.parent_path, Some(String::new()));
    let names: Vec<&str> = listing.entries.iter().map(|e| e.name.as_str()).collect();
    assert_eq!(names, vec!["d", "a.png", "b.mp3"]);
    assert_eq!(listing.entries[1].path, "my%20dir/a.png");
    let raws = vec![file("b.mp3", 1), dir("d"), file("a.png", 2)];
    let listing = music_list_handler(ROOT, "", Some("/srv/media"), true, raws).unwrap();
    let names: Vec<&str> = listing.entries.iter().map(|e| e.name.as_str()).collect();
    assert_eq!(names, vec!["d", "b.mp3"]);
    assert_eq!(listing.parent_path, None);
}

#[test]
fn media_is_served_through_the_handler() {
    let response = serve_media_handler(
        ROOT,
        "albums/my%20song.mp3",
        Some("/srv/media/albums/my song.mp3"),
        true,
        ID3.to_vec(),
        Some("bytes=0-2"),
    )
    .unwrap();
    assert_eq!(response.status, 206);
    assert_eq!(response.body, b"ID3");
    assert_eq!(response.content_type, "audio/mpeg");
}

#[test]
fn media_refusals_come_in_order() {
    let serve = |path: &str, canonical: Option<&str>, is_file: bool, contents: &[u8]| {
        serve_media_handler(ROOT, path, canonical, is_file, contents.to_vec(), None).unwrap_err()
    };
    assert_eq!(serve("%FF.mp3", Some("/srv/media/a.mp3"), true, ID3), AppError::InvalidPath);
    assert_eq!(serve("../a.mp3", Some("/srv/a.mp3"), true, ID3), AppError::Forbidden);
    assert_eq!(serve("/etc/passwd", Some("/etc/passwd"), true, ID3), AppError::Forbidden);
    assert_eq!(serve("a.mp3", None, false, ID3), AppError::NotFound);
    assert_eq!(serve("link.mp3", Some("/etc/a.mp3"), true, ID3), AppError::Forbidden);
    assert_eq!(serve("dir.mp3", Some("/srv/media/dir.mp3"), false, ID3), AppError::NotFound);
    assert_eq!(serve("a.txt", Some("/srv/media/a.txt"), true, ID3), AppError::Forbidden);
    assert_eq!(serve("photo.jpg", Some("/srv/media/photo.jpg"), true, SCRIPT), AppError::Forbidden);
    // the name that counts is the one the filesystem gave
    assert_eq!(serve("a.mp3", Some("/srv/media/real.txt"), true, ID3), AppError::Forbidden);
}

#[test]
fn photo_with_script_content_is_refused_through_the_handler() {
    assert_eq!(
        serve_media_handler(
            ROOT,
            "photo.jpg",
            Some("/srv/media/photo.jpg"),
            true,
            SCRIPT.to_vec(),
            None
        )
        .unwrap_err(),
        AppError::Forbidden
    );
    let response =
        serve_media_handler(ROOT, "song.mp3", Some("/srv/media/song.mp3"), true, ID3.to_vec(), None)
            .unwrap();
    assert_eq!(response.status, 200);
    assert_eq!(response.body, ID3);
}

#[test]
fn member_path_of_three_parts_is_invalid() {
    let archive = zip_of(&[("b!/c.mp3", ID3), ("c.mp3", ID3)]);
    for (canonical, is_file) in [(None, false), (Some("/a.zip"), true)] {
        assert_eq!(
            serve_archive_file_handler("/", "a.zip!/b!/c.mp3", canonical, is_file, archive.clone(), None)
                .unwrap_err(),
            AppError::InvalidPath
        );
    }
}

#[test]
fn member_path_with_an_empty_part_is_invalid() {
    let archive = zip_of(&[("c.mp3", ID3)]);
    for path in ["a.zip!/", "!/c.mp3", "a.zip", "", "a.zip%21/"] {
        assert_eq!(
            serve_archive_file_handler("/", path, Some("/a.zip"), true, archive.clone(), None)
                .unwrap_err(),
            AppError::InvalidPath,
            "{:?}",
            path
        );
    }
}

#[test]
fn member_is_served_through_the_handler() {
    let archive = zip_of(&[("disc/a.mp3", ID3), ("cover.png", PNG)]);
    let response = serve_archive_file_handler(
        ROOT,
        "albums/live.zip%21/disc/a.mp3",
        Some("/srv/media/albums/live.zip"),
        true,
        archive.clone(),
        None,
    )
    .unwrap();
    assert_eq!(response.status, 200);
    assert_eq!(response.body, ID3);
    let serve = |path: &str, canonical: Option<&str>, is_file: bool| {
        serve_archive_file_handler(ROOT, path, canonical, is_file, archive.clone(), None)
            .unwrap_err()
    };
    assert_eq!(serve("%FF!/a.mp3", Some("/srv/media/live.zip"), true), AppError::InvalidPath);
    assert_eq!(serve(".live.zip!/disc/a.mp3", Some("/srv/media/.live.zip"), true), AppError::Forbidden);
    assert_eq!(serve("live.zip!/disc/a.mp3", None, false), AppError::NotFound);
    assert_eq!(serve("live.zip!/disc/a.mp3", Some("/tmp/live.zip"), true), AppError::Forbidden);
    assert_eq!(serve("live.zip!/disc/a.mp3", Some("/srv/media/live.zip"), false), AppError::NotFound);
    assert_eq!(serve("live.zip!/cover.png", Some("/srv/media/live.zip"), true), AppError::Forbidden);
    assert_eq!(serve("live.zip!/disc/b.mp3", Some("/srv/media/live.zip"), true), AppError::NotFound);
    // a hidden member path is not hidden from the request check: only the archive's part is confined
    assert_eq!(serve("live.zip!/.x/a.mp3", Some("/srv/media/live.zip"), true), AppError::NotFound);
}

#[test]
fn archives_are_listed_through_the_handler() {
    let archive = zip_of(&[("x/s.mp3", ID3)]);
    let listing = music_archive_handler(
        ROOT,
        "my%20music/a.zip",
        Some("/srv/media/my music/a.zip"),
        true,
        archive.clone(),
    )
    .unwrap();
    assert_eq!(listing.current_path, "my music/a.zip (archive)");
    assert_eq!(listing.parent_path, Some("my music".to_string()));
    assert_eq!(listing.entries[0].path, "my%20music/a.zip!/x/s.mp3");
    assert_eq!(listing.entries[0].entry_type, EntryType::Audio);
    let list = |path: &str, canonical: Option<&str>, is_file: bool, data: &[u8]| {
        music_archive_handler(ROOT, path, canonical, is_file, data.to_vec()).unwrap_err()
    };
    assert_eq!(list("%FF", Some("/srv/media/a.zip"), true, &archive), AppError::InvalidPath);
    assert_eq!(list("a.zip", None, false, &archive), AppError::NotFound);
    assert_eq!(list("a.zip", Some("/etc/a.zip"), true, &archive), AppError::Forbidden);
    assert_eq!(list("a.zip", Some("/srv/media/a.zip"), false, &archive), AppError::NotFound);
    assert_eq!(list("a.mp3", Some("/srv/media/a.mp3"), true, &archive), AppError::Forbidden);
    assert_eq!(list("a.zip", Some("/srv/media/a.zip"), true, b"junk"), AppError::InternalError);
}

#[test]
fn album_art_is_served_through_the_handler() {
    let art = || Some(AlbumArt { mime_type: "image/png".to_string(), data: PNG.to_vec() });
    let response =
        serve_album_art_handler(ROOT, "a.mp3", Some("/srv/media/a.mp3"), true, art()).unwrap();
    assert_eq!(response.content_type, "image/png");
    assert_eq!(response.body, PNG);
    let serve = |path: &str, canonical: Option<&str>, is_file: bool, picture: Option<AlbumArt>| {
        serve_album_art_handler(ROOT, path, canonical, is_file, picture).unwrap_err()
    };
    assert_eq!(serve("%FF", Some("/srv/media/a.mp3"), true, art()), AppError::InvalidPath);
    assert_eq!(serve("a.mp3", None, false, art()), AppError::NotFound);
    assert_eq!(serve("a.mp3", Some("/srv/a.mp3"), true, art()), AppError::Forbidden);
    assert_eq!(serve("a.mp3", Some("/srv/media/a.mp3"), false, art()), AppError::NotFound);
    assert_eq!(serve("a.png", Some("/srv/media/a.png"), true, art()), AppError::Forbidden);
    assert_eq!(serve("a.mp3", Some("/srv/media/a.mp3"), true, None), AppError::NotFound);
}

#[test]
fn request_targets() {
    assert_eq!(target_of("a%20b/c.mp3", false), Ok("a b/c.mp3".to_string()));
    assert_eq!(target_of("", false), Ok(String::new()));
    assert_eq!(target_of("%FF", false), Err(AppError::InvalidPath));
    assert_eq!(target_of("a%20b/c.zip!/d/e.mp3", true), Ok("a b/c.zip".to_string()));
    assert_eq!(target_of("c.zip", true), Err(AppError::InvalidPath));
    assert_eq!(target_of("c.zip!/a!/b", true), Err(AppError::InvalidPath));
    assert_eq!(target_of("%FF!/a", true), Err(AppError::InvalidPath));
    assert_eq!(file_name("/srv/media/a b/c.zip"), "c.zip");
    assert_eq!(file_name("c.zip"), "c.zip");
    assert_eq!(file_name("/"), "");
}

#[test]
fn given_members_are_listed() {
    let members = vec![
        member(Some("z/b.mp3"), false, Some(3)),
        member(Some("dir.mp3"), true, Some(0)),
        member(None, false, Some(9)),
        member(Some("a.flac"), false, Some(1)),
        member(Some(".h/c.mp3"), false, Some(2)),
        member(Some("notes.txt"), false, None),
        member(Some("y/b.mp3"), false, Some(4)),
    ];
    let listed = list_members(members).unwrap();
    let shown: Vec<(&str, &str, u64)> =
        listed.iter().map(|e| (e.name.as_str(), e.path.as_str(), e.size)).collect();
    assert_eq!(
        shown,
        vec![("a.flac", "a.flac", 1), ("b.mp3", "z/b.mp3", 3), ("b.mp3", "y/b.mp3", 4)]
    );
    assert!(list_members(Vec::new()).unwrap().is_empty());
}

#[test]
fn listed_member_without_a_size_is_malformed() {
    let members = vec![member(Some("a.mp3"), false, Some(1)), member(Some("b.mp3"), false, None)];
    assert_eq!(list_members(members).unwrap_err(), ArchiveError::Malformed);
    // a size that is missing on a member that is not listed does no harm
    let members = vec![member(Some("a.mp3"), false, Some(1)), member(Some(".b.mp3"), false, None)];
    assert_eq!(list_members(members).unwrap().len(), 1);
}

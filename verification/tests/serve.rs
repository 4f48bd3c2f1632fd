use std::io::Write;

use doggygallery::content::{category_of, check_category, validate_mime_type, MediaCategory};
use doggygallery::error::AppError;
use doggygallery::serve::{
    respond_with_range, serve_album_art, serve_archive_member, serve_media, split_member_path,
    AlbumArt,
};
use doggygallery::range::ByteRange;

const PNG: &[u8] = b"\x89PNG\r\n\x1a\n\x00\x00\x00\rIHDR\x00\x00\x00\x01\x00\x00\x00\x01";
const JPEG: &[u8] = b"\xff\xd8\xff\xe0\x00\x10JFIF\x00\x01\x01\x00\x00\x01";
const ID3: &[u8] = b"ID3\x03\x00\x00\x00\x00\x00\x0fsome audio frames";
const SCRIPT: &[u8] = b"<script>alert('hi')</script> plain text payload";

fn zip_of(members: &[(&str, &[u8])]) -> Vec<u8> {
    let mut writer = zip::ZipWriter::new(std::io::Cursor::new(Vec::new()));
    for (name, content) in members {
        writer.start_file(*name, zip::write::SimpleFileOptions::default()).unwrap();
        writer.write_all(content).unwrap();
    }
    writer.finish().unwrap().into_inner()
}

#[test]
fn script_named_as_picture_is_rejected() {
    assert_eq!(
        serve_media("photo.jpg", SCRIPT.to_vec(), None).unwrap_err(),
        AppError::Forbidden
    );
    assert_eq!(validate_mime_type(SCRIPT, "image/"), Err(AppError::Forbidden));
}

#[test]
fn genuine_mp3_is_accepted() {
    let response = serve_media("song.mp3", ID3.to_vec(), None).unwrap();
    assert_eq!(response.status, 200);
    assert_eq!(response.content_type, "audio/mpeg");
    assert_eq!(response.body, ID3);
    assert_eq!(response.content_length, ID3.len() as u64);
    assert_eq!(response.content_range, None);
    assert!(response.accept_ranges);
    assert_eq!(response.cache_control, "public, max-age=3600");
    assert_eq!(response.content_security_policy, None);
    assert_eq!(validate_mime_type(ID3, "audio/"), Ok("audio/mpeg".to_string()));
}

#[test]
fn content_of_another_category_is_rejected() {
    assert_eq!(serve_media("song.mp3", PNG.to_vec(), None).unwrap_err(), AppError::Forbidden);
    assert_eq!(serve_media("clip.mp4", JPEG.to_vec(), None).unwrap_err(), AppError::Forbidden);
    assert_eq!(validate_mime_type(PNG, "audio/"), Err(AppError::Forbidden));
    assert_eq!(validate_mime_type(PNG, "image/"), Ok("image/png".to_string()));
    assert_eq!(validate_mime_type(JPEG, "image/"), Ok("image/jpeg".to_string()));
    assert_eq!(validate_mime_type(b"", "image/"), Err(AppError::Forbidden));
}

#[test]
fn content_is_judged_by_bytes_not_by_the_exact_extension() {
    let response = serve_media("photo.jpg", PNG.to_vec(), None).unwrap();
    assert_eq!(response.content_type, "image/jpeg");
    assert_eq!(response.body, PNG);
}

#[test]
fn files_that_are_no_media_are_rejected() {
    assert_eq!(serve_media("doc.pdf", PNG.to_vec(), None).unwrap_err(), AppError::Forbidden);
    assert_eq!(serve_media("a.zip", PNG.to_vec(), None).unwrap_err(), AppError::Forbidden);
    assert_eq!(serve_media("png", PNG.to_vec(), None).unwrap_err(), AppError::Forbidden);
    assert_eq!(category_of("doc.pdf"), None);
    assert_eq!(category_of("a.PNG"), Some(MediaCategory::Image));
    assert_eq!(category_of("a.mkv"), Some(MediaCategory::Video));
    assert_eq!(category_of("a.weba"), Some(MediaCategory::Audio));
}

#[test]
fn recognised_type_is_checked_against_the_category() {
    assert_eq!(check_category(Some("image/png"), "image/"), Ok("image/png".to_string()));
    assert_eq!(check_category(Some("image/png"), "audio/"), Err(AppError::Forbidden));
    assert_eq!(check_category(Some("imag"), "image/"), Err(AppError::Forbidden));
    assert_eq!(check_category(None, "image/"), Err(AppError::Forbidden));
    assert_eq!(MediaCategory::Video.prefix(), "video/");
}

#[test]
fn svg_names_are_sent_locked_down() {
    let drawing = b"<svg xmlns='http://www.w3.org/2000/svg' onload='x()'/>";
    let response = serve_media("drawing.svg", drawing.to_vec(), None).unwrap();
    assert_eq!(response.status, 200);
    assert_eq!(response.content_type, "image/svg+xml");
    assert_eq!(
        response.content_security_policy,
        Some("default-src 'none'; style-src 'unsafe-inline'; sandbox".to_string())
    );
    assert_eq!(response.body, drawing);
    assert!(response.accept_ranges);
    // whatever the bytes are, the name decides type and policy
    let response = serve_media("drawing.SVG", PNG.to_vec(), Some("bytes=0-3")).unwrap();
    assert_eq!(response.status, 206);
    assert_eq!(response.content_type, "image/svg+xml");
    assert_eq!(
        response.content_security_policy,
        Some("default-src 'none'; style-src 'unsafe-inline'; sandbox".to_string())
    );
    // other images carry no policy of their own
    let response = serve_media("photo.png", PNG.to_vec(), None).unwrap();
    assert_eq!(response.content_security_policy, None);
    assert_eq!(response.content_type, "image/png");
}

#[test]
fn part_of_a_file_is_sent_for_a_range() {
    let response = serve_media("song.mp3", ID3.to_vec(), Some("bytes=3-9")).unwrap();
    assert_eq!(response.status, 206);
    assert_eq!(response.body, &ID3[3..=9]);
    assert_eq!(response.content_length, 7);
    assert_eq!(response.content_range, Some(format!("bytes 3-9/{}", ID3.len())));
    assert!(response.accept_ranges);
    assert_eq!(response.content_type, "audio/mpeg");
}

#[test]
fn open_range_is_sent_to_the_end() {
    let response = serve_media("song.mp3", ID3.to_vec(), Some("bytes=10-")).unwrap();
    assert_eq!(response.status, 206);
    assert_eq!(response.body, &ID3[10..]);
    assert_eq!(
        response.content_range,
        Some(format!("bytes 10-{}/{}", ID3.len() - 1, ID3.len()))
    );
}

#[test]
fn unusable_range_sends_the_whole_file() {
    for header in ["bytes=-5", "bytes=9-3", "bytes=0-100000", "lines=1-2", "bytes=1-2-3"] {
        let response = serve_media("song.mp3", ID3.to_vec(), Some(header)).unwrap();
        assert_eq!(response.status, 200, "{}", header);
        assert_eq!(response.body, ID3);
        assert_eq!(response.content_range, None);
        assert!(response.accept_ranges);
    }
}

#[test]
fn responses_are_built_from_ranges() {
    let body: Vec<u8> = (0u8..10).collect();
    let whole = respond_with_range("a/b".to_string(), None, body.clone(), ByteRange::Full);
    assert_eq!(whole.status, 200);
    assert_eq!(whole.body, body);
    assert_eq!(whole.content_length, 10);
    let first = respond_with_range(
        "a/b".to_string(),
        None,
        body.clone(),
        ByteRange::Partial { start: 0, end: 0 },
    );
    assert_eq!(first.body, vec![0u8]);
    assert_eq!(first.content_range, Some("bytes 0-0/10".to_string()));
    let last = respond_with_range(
        "a/b".to_string(),
        None,
        body.clone(),
        ByteRange::Partial { start: 9, end: 9 },
    );
    assert_eq!(last.body, vec![9u8]);
    let all = respond_with_range("a/b".to_string(), None, body.clone(), ByteRange::Partial { start: 0, end: 9 });
    assert_eq!(all.status, 206);
    assert_eq!(all.body, body);
    assert_eq!(all.content_length, 10);
}

#[test]
fn member_paths_split_at_the_separator() {
    assert_eq!(
        split_member_path("albums/live.zip!/disc1/a.mp3"),
        Ok(("albums/live.zip".to_string(), "disc1/a.mp3".to_string()))
    );
    assert_eq!(split_member_path("a!/b"), Ok(("a".to_string(), "b".to_string())));
    assert_eq!(split_member_path("a!!/b!"), Ok(("a!".to_string(), "b!".to_string())));
    assert_eq!(split_member_path("a/!/b"), Ok(("a/".to_string(), "b".to_string())));
}

#[test]
fn member_paths_need_exactly_two_parts() {
    assert_eq!(split_member_path("albums/live.zip"), Err(AppError::InvalidPath));
    assert_eq!(split_member_path("a!/b!/c"), Err(AppError::InvalidPath));
    assert_eq!(split_member_path("!/b"), Err(AppError::InvalidPath));
    assert_eq!(split_member_path("a!/"), Err(AppError::InvalidPath));
    assert_eq!(split_member_path("!/"), Err(AppError::InvalidPath));
    assert_eq!(split_member_path(""), Err(AppError::InvalidPath));
    assert_eq!(split_member_path("a!b/c"), Err(AppError::InvalidPath));
    assert_eq!(split_member_path("a!/!/b"), Err(AppError::InvalidPath));
}

#[test]
fn audio_member_is_served_from_an_archive() {
    let archive = zip_of(&[("disc/a.mp3", ID3), ("disc/fake.mp3", SCRIPT), ("cover.png", PNG)]);
    let response =
        serve_archive_member("live.zip", archive.clone(), "disc/a.mp3", None).unwrap();
    assert_eq!(response.status, 200);
    assert_eq!(response.content_type, "audio/mpeg");
    assert_eq!(response.body, ID3);
    assert!(response.accept_ranges);
    let part =
        serve_archive_member("live.zip", archive.clone(), "disc/a.mp3", Some("bytes=0-2"))
            .unwrap();
    assert_eq!(part.status, 206);
    assert_eq!(part.body, b"ID3");
    assert_eq!(part.content_range, Some(format!("bytes 0-2/{}", ID3.len())));
    // not audio by name
    assert_eq!(
        serve_archive_member("live.zip", archive.clone(), "cover.png", None).unwrap_err(),
        AppError::Forbidden
    );
    // audio by name, not by content
    assert_eq!(
        serve_archive_member("live.zip", archive.clone(), "disc/fake.mp3", None).unwrap_err(),
        AppError::Forbidden
    );
    // absent
    assert_eq!(
        serve_archive_member("live.zip", archive.clone(), "disc/b.mp3", None).unwrap_err(),
        AppError::NotFound
    );
    // not an archive, or not readable as one
    assert_eq!(
        serve_archive_member("live.txt", archive, "disc/a.mp3", None).unwrap_err(),
        AppError::NotFound
    );
    assert_eq!(
        serve_archive_member("live.zip", b"junk".to_vec(), "disc/a.mp3", None).unwrap_err(),
        AppError::NotFound
    );
}

#[test]
fn album_art_is_served_for_audio_files() {
    let art = AlbumArt { mime_type: "image/jpeg".to_string(), data: JPEG.to_vec() };
    let response = serve_album_art("song.mp3", Some(art)).unwrap();
    assert_eq!(response.status, 200);
    assert_eq!(response.content_type, "image/jpeg");
    assert_eq!(response.body, JPEG);
    assert_eq!(response.content_length, JPEG.len() as u64);
    assert_eq!(response.cache_control, "public, max-age=86400");
    assert!(!response.accept_ranges);
    assert_eq!(serve_album_art("song.mp3", None).unwrap_err(), AppError::NotFound);
    let art = AlbumArt { mime_type: "image/jpeg".to_string(), data: JPEG.to_vec() };
    assert_eq!(serve_album_art("photo.jpg", Some(art)).unwrap_err(), AppError::Forbidden);
}

#[test]
fn only_the_leading_bytes_are_looked_at() {
    // a long run of empty skippable frames: recognised by its first bytes
    // alone, however long it is
    let mut frames = Vec::new();
    for _ in 0..200_000 {
        frames.extend_from_slice(&[0x50, 0x2A, 0x4D, 0x18, 0, 0, 0, 0]);
    }
    assert_eq!(serve_media("song.mp3", frames.clone(), None).unwrap_err(), AppError::Forbidden);
    assert_eq!(validate_mime_type(&frames, "audio/"), Err(AppError::Forbidden));
    // genuine audio with a long tail
    let mut long_song = ID3.to_vec();
    long_song.extend(std::iter::repeat(0x55u8).take(1_000_000));
    let response = serve_media("song.mp3", long_song.clone(), None).unwrap();
    assert_eq!(response.content_type, "audio/mpeg");
    assert_eq!(response.body.len(), long_song.len());
    // a signature that only begins after the leading bytes is not seen
    let mut late = vec![0u8; 8192];
    late.extend_from_slice(ID3);
    assert_eq!(validate_mime_type(&late, "audio/"), Err(AppError::Forbidden));
    // exactly the leading bytes
    let mut edge = ID3.to_vec();
    edge.resize(8192, 0);
    assert_eq!(validate_mime_type(&edge, "audio/"), Ok("audio/mpeg".to_string()));
    edge.push(0);
    assert_eq!(validate_mime_type(&edge, "audio/"), Ok("audio/mpeg".to_string()));
}

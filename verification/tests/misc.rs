use doggygallery::api::{config_handler, AppState};
use doggygallery::config::{Config, ConfigError, ConfigFiles};
use doggygallery::constants::{
    APP_NAME, ARCHIVE_EXTENSIONS, AUDIO_EXTENSIONS, HTTP_VERSION, IMAGE_EXTENSIONS, TLS_VERSION,
    VIDEO_EXTENSIONS,
};
use doggygallery::error::AppError;
use doggygallery::filetypes::{
    has_extension, is_archive, is_audio, is_hidden, is_hidden_member, is_image, is_video,
};
use doggygallery::models::{DirectoryEntry, EntryType};
use doggygallery::ordering::{key_before, stable_sort_by_key, SortKey};
use doggygallery::text::{
    chars_le, chars_of, join_child, joined, str_contains, str_ends_with, str_equal,
    str_starts_with,
};

fn key(rank: u8, name: &str) -> SortKey {
    SortKey { rank, name: name.chars().collect() }
}

fn entry(entry_type: EntryType) -> DirectoryEntry {
    DirectoryEntry { name: "n".to_string(), path: "p".to_string(), entry_type, size: 1 }
}

fn good_config() -> Config {
    Config {
        cert: Some("/etc/cert.pem".to_string()),
        key: Some("/etc/key.pem".to_string()),
        self_signed_certs_on_the_fly: false,
        media_dir: "/srv/media".to_string(),
        username: "admin".to_string(),
        password: "secret".to_string(),
        host: "0.0.0.0".to_string(),
        port: 7833,
    }
}

fn all_there() -> ConfigFiles {
    ConfigFiles { cert_exists: true, key_exists: true, media_dir_exists: true, media_dir_is_dir: true }
}

#[test]
fn names_are_classified_without_regard_to_case() {
    assert!(is_image("a.jpg") && is_image("a.JPEG") && is_image("A.Png") && is_image("x.svg"));
    assert!(is_video("a.mp4") && is_video("a.MKV") && is_video("a.wmv"));
    assert!(is_audio("a.mp3") && is_audio("a.FLAC") && is_audio("a.Opus") && is_audio("a.weba"));
    assert!(is_archive("a.zip") && is_archive("a.TAR.GZ") && is_archive("a.tbz2"));
    assert!(!is_image("a.mp3") && !is_video("a.jpg") && !is_audio("a.zip") && !is_archive("a.gz"));
    assert!(!is_image("jpg") && !is_image("") && !is_audio("mp3"));
    assert!(is_image(".jpg"));
    assert!(is_video("film.m\u{212A}v"));
}

#[test]
fn extension_lists_are_complete() {
    assert_eq!(IMAGE_EXTENSIONS, [".jpg", ".jpeg", ".png", ".gif", ".webp", ".bmp", ".svg"]);
    assert_eq!(VIDEO_EXTENSIONS, [".mp4", ".webm", ".mkv", ".avi", ".mov", ".flv", ".wmv"]);
    assert_eq!(
        AUDIO_EXTENSIONS,
        [".mp3", ".flac", ".wav", ".ogg", ".m4a", ".aac", ".opus", ".weba"]
    );
    assert_eq!(ARCHIVE_EXTENSIONS, [".zip", ".tar", ".tar.gz", ".tgz", ".tar.bz2", ".tbz2"]);
    assert!(has_extension("a.gif", &IMAGE_EXTENSIONS));
    assert!(!has_extension("a.GIF", &IMAGE_EXTENSIONS));
    assert!(!has_extension("a.gif", &[]));
}

#[test]
fn hidden_names_begin_with_a_dot() {
    assert!(is_hidden(".git") && is_hidden(".") && is_hidden("..a"));
    assert!(!is_hidden("a.b") && !is_hidden("") && !is_hidden("a."));
    assert!(is_hidden_member(".a/b.mp3") && is_hidden_member("a/.b/c.mp3"));
    assert!(is_hidden_member("a/b/.c.mp3") && is_hidden_member("a/."));
    assert!(!is_hidden_member("a/b.mp3") && !is_hidden_member("a.b/c.d") && !is_hidden_member(""));
}

#[test]
fn errors_map_to_status_codes() {
    assert_eq!(AppError::NotFound.status(), 404);
    assert_eq!(AppError::Forbidden.status(), 403);
    assert_eq!(AppError::InvalidPath.status(), 400);
    assert_eq!(AppError::RateLimited.status(), 429);
    assert_eq!(AppError::InternalError.status(), 500);
    assert_eq!(AppError::NotFound.message(), "Not found");
    assert_eq!(AppError::Forbidden.message(), "Forbidden");
    assert_eq!(AppError::InvalidPath.message(), "Invalid path");
    assert_eq!(AppError::InternalError.message(), "Internal server error");
}

#[test]
fn entries_know_their_kind() {
    assert!(entry(EntryType::Directory).is_directory());
    assert!(entry(EntryType::Image).is_image());
    assert!(entry(EntryType::Video).is_video());
    assert!(entry(EntryType::Audio).is_audio());
    assert!(entry(EntryType::Archive).is_archive());
    assert!(!entry(EntryType::Archive).is_audio());
    assert!(!entry(EntryType::Image).is_directory());
    assert!(!entry(EntryType::Directory).is_image());
    assert!(!entry(EntryType::Audio).is_video());
    assert!(!entry(EntryType::Video).is_archive());
}

#[test]
fn text_helpers() {
    assert_eq!(chars_of("añ"), vec!['a', 'ñ']);
    assert!(str_starts_with("bytes=1", "bytes=") && !str_starts_with("byte", "bytes="));
    assert!(str_starts_with("a", "") && str_ends_with("a", ""));
    assert!(str_ends_with("a.mp3", ".mp3") && !str_ends_with("mp3", ".mp3"));
    assert!(str_contains("a/.b", "/.") && !str_contains("a/b.", "/.") && str_contains("", ""));
    assert!(str_equal("ab", "ab") && !str_equal("ab", "abc") && !str_equal("ab", "ac"));
    assert_eq!(joined("a", "b"), "ab");
    assert_eq!(join_child("", "x"), "x");
    assert_eq!(join_child("a/b", "x"), "a/b/x");
}

#[test]
fn names_are_ordered_as_strings_are() {
    let names = ["", "a", "A", "ab", "b", "a.jpg", "Z", "é", "z", "日本", "a\u{10FFFF}", "aa"];
    for a in names {
        for b in names {
            let av: Vec<char> = a.chars().collect();
            let bv: Vec<char> = b.chars().collect();
            assert_eq!(chars_le(&av, &bv), a <= b, "{:?} {:?}", a, b);
        }
    }
}

#[test]
fn keys_order_by_rank_then_name() {
    assert!(key_before(&key(0, "z"), &key(1, "a")));
    assert!(!key_before(&key(1, "a"), &key(0, "z")));
    assert!(key_before(&key(1, "a"), &key(1, "b")));
    assert!(!key_before(&key(1, "a"), &key(1, "a")));
    assert!(key_before(&key(1, "a"), &key(1, "aa")));
}

#[test]
fn sort_is_stable() {
    let items = vec![10, 11, 12, 13, 14, 15];
    let keys =
        vec![key(1, "b"), key(0, "z"), key(1, "a"), key(1, "b"), key(0, "a"), key(1, "a")];
    assert_eq!(stable_sort_by_key(items, keys), vec![14, 11, 12, 15, 10, 13]);
    assert_eq!(stable_sort_by_key(Vec::<u8>::new(), Vec::new()), Vec::<u8>::new());
    assert_eq!(stable_sort_by_key(vec![1], vec![key(0, "")]), vec![1]);
}

#[test]
fn valid_configuration_passes() {
    assert_eq!(good_config().validate(&all_there()), Ok(()));
    let mut self_signed = good_config();
    self_signed.self_signed_certs_on_the_fly = true;
    self_signed.cert = None;
    self_signed.key = None;
    let files = ConfigFiles { cert_exists: false, key_exists: false, ..all_there() };
    assert_eq!(self_signed.validate(&files), Ok(()));
    assert!(!self_signed.ignores_certificate());
    self_signed.cert = Some("c".to_string());
    assert!(self_signed.ignores_certificate());
    assert!(!good_config().ignores_certificate());
}

#[test]
fn configuration_faults_are_reported_in_order() {
    let mut no_key = good_config();
    no_key.key = None;
    assert_eq!(no_key.validate(&all_there()), Err(ConfigError::CertificateNotConfigured));
    let mut nothing = good_config();
    nothing.cert = None;
    nothing.key = None;
    nothing.username = String::new();
    assert_eq!(nothing.validate(&all_there()), Err(ConfigError::CertificateNotConfigured));
    let files = ConfigFiles { cert_exists: false, key_exists: false, ..all_there() };
    assert_eq!(good_config().validate(&files), Err(ConfigError::CertificateMissing));
    let files = ConfigFiles { key_exists: false, media_dir_exists: false, ..all_there() };
    assert_eq!(good_config().validate(&files), Err(ConfigError::PrivateKeyMissing));
    let files = ConfigFiles { media_dir_exists: false, media_dir_is_dir: false, ..all_there() };
    assert_eq!(good_config().validate(&files), Err(ConfigError::MediaDirMissing));
    let files = ConfigFiles { media_dir_is_dir: false, ..all_there() };
    assert_eq!(good_config().validate(&files), Err(ConfigError::MediaDirNotDirectory));
    let mut no_user = good_config();
    no_user.username = String::new();
    no_user.password = String::new();
    assert_eq!(no_user.validate(&all_there()), Err(ConfigError::EmptyUsername));
    let mut no_password = good_config();
    no_password.password = String::new();
    assert_eq!(no_password.validate(&all_there()), Err(ConfigError::EmptyPassword));
    assert_eq!(ConfigError::EmptyPassword.message(), "Password cannot be empty");
    assert_eq!(ConfigError::MediaDirMissing.message(), "Media directory does not exist");
}

#[test]
fn server_information() {
    let info = config_handler();
    assert_eq!(info.app_name, APP_NAME);
    assert_eq!(info.app_name, "DoggyGallery");
    assert_eq!(info.tls_version, TLS_VERSION);
    assert_eq!(info.http_version, HTTP_VERSION);
    assert_eq!(info.image_extensions, IMAGE_EXTENSIONS);
    assert_eq!(info.video_extensions, VIDEO_EXTENSIONS);
    assert_eq!(info.audio_extensions, AUDIO_EXTENSIONS);
    assert_eq!(info.emoji_prefix.chars().count(), 5);
    let state = AppState { media_dir: "/srv/media".to_string() };
    assert_eq!(state.media_dir, "/srv/media");
}

//! Names and the file-extension sets by which entries are classified.

use vstd::prelude::*;

verus! {

/// Prefix shown before the application name.
pub const EMOJI_PREFIX: &'static str = "\u{1F415}\u{1F5BC}\u{FE0F}\u{2728}\u{1F512}";

/// Application name.
pub const APP_NAME: &'static str = "DoggyGallery";

/// TLS version enforced.
pub const TLS_VERSION: &'static str = "TLS 1.3";

/// HTTP protocol enforced.
pub const HTTP_VERSION: &'static str = "HTTP/2";

/// Supported image file extensions.
pub const IMAGE_EXTENSIONS: [&'static str; 7] = [
    ".jpg", ".jpeg", ".png", ".gif", ".webp", ".bmp", ".svg",
];

/// Supported video file extensions.
pub const VIDEO_EXTENSIONS: [&'static str; 7] = [
    ".mp4", ".webm", ".mkv", ".avi", ".mov", ".flv", ".wmv",
];

/// Supported audio file extensions.
pub const AUDIO_EXTENSIONS: [&'static str; 8] = [
    ".mp3", ".flac", ".wav", ".ogg", ".m4a", ".aac", ".opus", ".weba",
];

/// Supported archive file extensions.
pub const ARCHIVE_EXTENSIONS: [&'static str; 6] = [
    ".zip", ".tar", ".tar.gz", ".tgz", ".tar.bz2", ".tbz2",
];

} // verus!

//! What the server tells of itself: its name, the protocols it enforces,
//! and the file types it serves.

use vstd::prelude::*;
use crate::constants::{
    APP_NAME, AUDIO_EXTENSIONS, EMOJI_PREFIX, HTTP_VERSION, IMAGE_EXTENSIONS, TLS_VERSION,
    VIDEO_EXTENSIONS,
};

verus! {

/// The media root that every request is confined to: an absolute,
/// canonical directory path.
#[derive(Debug, Clone)]
pub struct AppState {
    pub media_dir: String,
}

/// Information about the server and its supported file types.
#[derive(Debug)]
pub struct ConfigInfo {
    pub emoji_prefix: String,
    pub app_name: String,
    pub tls_version: String,
    pub http_version: String,
    pub image_extensions: Vec<String>,
    pub video_extensions: Vec<String>,
    pub audio_extensions: Vec<String>,
}

/// What a vector of strings stands for.
pub open spec fn texts_view(texts: Seq<String>) -> Seq<Seq<char>> {
    texts.map_values(|t: String| t@)
}

/// What a list of string constants stands for.
pub open spec fn constants_view(texts: Seq<&'static str>) -> Seq<Seq<char>> {
    texts.map_values(|t: &'static str| t@)
}

/// Owned copies of a list of string constants.
pub fn owned_list(texts: &[&'static str]) -> (owned: Vec<String>)
    ensures
        texts_view(owned@) == constants_view(texts@),
{
    let mut owned: Vec<String> = Vec::new();
    let mut i: usize = 0;
    while i < texts.len()
        invariant
            i <= texts.len(),
            texts_view(owned@) == constants_view(texts@.take(i as int)),
        decreases texts.len() - i,
    {
        let ghost before = owned@;
        let text = texts[i].to_owned();
        owned.push(text);
        proof {
            assert(texts_view(owned@) =~= texts_view(before).push(text@));
            assert(texts_view(owned@) =~= constants_view(texts@.take(i + 1)));
        }
        i += 1;
    }
    proof {
        assert(texts@.take(texts.len() as int) =~= texts@);
    }
    owned
}

/// The information about the server.
pub fn config_handler() -> (info: ConfigInfo)
    ensures
        info.emoji_prefix@ == EMOJI_PREFIX@,
        info.app_name@ == APP_NAME@,
        info.tls_version@ == TLS_VERSION@,
        info.http_version@ == HTTP_VERSION@,
        texts_view(info.image_extensions@) == constants_view(IMAGE_EXTENSIONS@),
        texts_view(info.video_extensions@) == constants_view(VIDEO_EXTENSIONS@),
        texts_view(info.audio_extensions@) == constants_view(AUDIO_EXTENSIONS@),
{
    ConfigInfo {
        emoji_prefix: EMOJI_PREFIX.to_owned(),
        app_name: APP_NAME.to_owned(),
        tls_version: TLS_VERSION.to_owned(),
        http_version: HTTP_VERSION.to_owned(),
        image_extensions: owned_list(&IMAGE_EXTENSIONS),
        video_extensions: owned_list(&VIDEO_EXTENSIONS),
        audio_extensions: owned_list(&AUDIO_EXTENSIONS),
    }
}

} // verus!

//! The secure media-access layer of a personal media gallery: path
//! confinement, archive inspection, content-type validation, byte-range
//! negotiation, failed-login throttling and media search.

pub mod api;
pub mod archive_reader;
pub mod archives;
pub mod auth;
pub mod config;
pub mod constants;
pub mod content;
pub mod decimal;
pub mod error;
pub mod filetypes;
pub mod handlers;
pub mod listing;
pub mod models;
pub mod ordering;
pub mod paths;
pub mod range;
pub mod rate_limiter;
pub mod search;
pub mod serve;
pub mod text;

//! Byte ranges: reading a `Range` header and deciding what part of a
//! resource to send.
//!
//! Only `bytes=<start>-<end>` and the open form `bytes=<start>-` are
//! understood. A header that is malformed, or that asks for bytes the
//! resource does not have, is not an error: the whole resource is sent.

use vstd::prelude::*;
use vstd::string::StringExecFns;
use crate::decimal::{decimal, format_u64, parse_u64, parsed_u64};
use crate::text::{chars_of, find_char, first_index, matches_at, slice_chars};

verus! {

/// What part of a resource is sent.
#[derive(Debug, Clone, Copy, PartialEq, Eq, Structural)]
pub enum ByteRange {
    /// The whole resource.
    Full,
    /// The bytes from `start` to `end`, both included.
    Partial { start: u64, end: u64 },
}

/// The byte range that a `Range` header asks for on a resource of
/// `file_size` bytes: first and last byte, both included.
///
/// The header reads `bytes=`, a start, one dash, and an end that may be
/// missing, in which case the range runs to the last byte. A range is only
/// given where `start <= end < file_size`.
pub open spec fn range_of(header: Seq<char>, file_size: u64) -> Option<(u64, u64)> {
    let fields = header.skip(6);
    let dash = first_index(fields, '-');
    if !"bytes="@.is_prefix_of(header) || dash >= fields.len() {
        None
    } else {
        let first = fields.take(dash);
        let last = fields.skip(dash + 1);
        if last.contains('-') {
            None
        } else {
            match parsed_u64(first) {
                None => None,
                Some(start) => {
                    let end: Option<int> = if last.len() == 0 {
                        Some(file_size - 1)
                    } else {
                        match parsed_u64(last) {
                            Some(e) => Some(e as int),
                            None => None,
                        }
                    };
                    match end {
                        Some(e) if start <= e < file_size => Some((start, e as u64)),
                        _ => None,
                    }
                },
            }
        }
    }
}

/// What is sent of a resource of `total_size` bytes for a request with the
/// given `Range` header, if it has one.
pub open spec fn negotiated(header: Option<Seq<char>>, total_size: u64) -> ByteRange {
    match header {
        None => ByteRange::Full,
        Some(h) => match range_of(h, total_size) {
            Some((start, end)) => ByteRange::Partial { start, end },
            None => ByteRange::Full,
        },
    }
}

/// The value of the `Content-Range` header of a partial response.
pub open spec fn content_range_text(start: u64, end: u64, total_size: u64) -> Seq<char> {
    "bytes "@ + decimal(start as nat) + "-"@ + decimal(end as nat) + "/"@ + decimal(
        total_size as nat,
    )
}

/// A range that a header yields lies inside the resource.
pub proof fn lemma_range_within(header: Seq<char>, file_size: u64)
    ensures
        match range_of(header, file_size) {
            Some((start, end)) => start <= end < file_size,
            None => true,
        },
{
}

/// A partial range is only ever negotiated inside the resource, and never
/// for an empty resource or a request without a header.
pub proof fn lemma_negotiated_within(header: Option<Seq<char>>, total_size: u64)
    ensures
        match negotiated(header, total_size) {
            ByteRange::Partial { start, end } => header is Some && start <= end < total_size,
            ByteRange::Full => true,
        },
{
    if let Some(h) = header {
        lemma_range_within(h, total_size);
    }
}

/// Reads a `Range` header against a resource of `file_size` bytes.
pub fn parse_range_header(range_str: &str, file_size: u64) -> (range: Option<(u64, u64)>)
    ensures
        range == range_of(range_str@, file_size),
{
    let header = chars_of(range_str);
    let prefix = chars_of("bytes=");
    proof {
        reveal_strlit("bytes=");
    }
    if !matches_at(&header, &prefix, 0) {
        return None;
    }
    let fields = slice_chars(&header, 6, header.len());
    let dash = find_char(&fields, '-');
    if dash >= fields.len() {
        return None;
    }
    let first = slice_chars(&fields, 0, dash);
    let last = slice_chars(&fields, dash + 1, fields.len());
    if find_char(&last, '-') < last.len() {
        return None;
    }
    assert(!last@.contains('-'));
    let start = match parse_u64(&first) {
        Some(start) => start,
        None => {
            return None;
        },
    };
    let end = if last.len() == 0 {
        if file_size == 0 {
            return None;
        }
        file_size - 1
    } else {
        match parse_u64(&last) {
            Some(end) => end,
            None => {
                return None;
            },
        }
    };
    if start > end || end >= file_size {
        return None;
    }
    Some((start, end))
}

/// Decides what to send of a resource of `total_size` bytes.
pub fn negotiate(range_header: Option<&str>, total_size: u64) -> (range: ByteRange)
    ensures
        range == negotiated(
            match range_header {
                Some(h) => Some(h@),
                None => None,
            },
            total_size,
        ),
{
    match range_header {
        None => ByteRange::Full,
        Some(h) => match parse_range_header(h, total_size) {
            Some((start, end)) => ByteRange::Partial { start, end },
            None => ByteRange::Full,
        },
    }
}

/// The `Content-Range` header of a partial response.
pub fn content_range(start: u64, end: u64, total_size: u64) -> (text: String)
    ensures
        text@ == content_range_text(start, end, total_size),
{
    let mut text = "bytes ".to_owned();
    text.append(format_u64(start).as_str());
    text.append("-");
    text.append(format_u64(end).as_str());
    text.append("/");
    text.append(format_u64(total_size).as_str());
    text
}

} // verus!

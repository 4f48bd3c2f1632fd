//! Path confinement: from what a client asks for to a place under the
//! media root, or a refusal.
//!
//! A request is percent-decoded here; the caller joins it onto the media
//! root and asks the filesystem for the canonical form; request and
//! canonical form are then confined here. The request must name no hidden
//! segment, whatever it resolves to. The canonical form must lie under the
//! root segment by segment, and none of its segments below the root may be
//! hidden. Every entry point that takes a path goes through this one
//! routine, and so does every directory that a search visits.

use vstd::prelude::*;
use vstd::utf8::{decode_utf8, valid_utf8};
use crate::error::AppError;
use crate::filetypes::{is_hidden_member, is_hidden_name, is_hidden_path};
use crate::text::{chars_of, contains_seq, occurs_at};

verus! {

/// The value of a hexadecimal digit in ASCII, upper or lower case.
pub open spec fn hex_value(b: u8) -> Option<int> {
    if 0x30 <= b <= 0x39 {
        Some(b - 0x30)
    } else if 0x61 <= b <= 0x66 {
        Some(b - 0x61 + 10)
    } else if 0x41 <= b <= 0x46 {
        Some(b - 0x41 + 10)
    } else {
        None
    }
}

/// The bytes that percent-decoding makes of `bytes`: a percent sign with
/// two hexadecimal digits after it becomes the byte they write; every
/// other byte stays.
pub open spec fn percent_decoded(bytes: Seq<u8>) -> Seq<u8>
    decreases bytes.len(),
{
    if bytes.len() == 0 {
        bytes
    } else if bytes[0] == 0x25 && bytes.len() >= 3 && hex_value(bytes[1]) is Some && hex_value(
        bytes[2],
    ) is Some {
        seq![(hex_value(bytes[1])->0 * 16 + hex_value(bytes[2])->0) as u8] + percent_decoded(
            bytes.skip(3),
        )
    } else {
        seq![bytes[0]] + percent_decoded(bytes.skip(1))
    }
}

/// The text that a percent-encoded request stands for, `None` where the
/// decoded bytes are not UTF-8.
pub open spec fn decoded_request(requested: Seq<char>) -> Option<Seq<char>> {
    let bytes = percent_decoded(vstd::utf8::encode_utf8(requested));
    if valid_utf8(bytes) {
        Some(decode_utf8(bytes))
    } else {
        None
    }
}

/// Calls `percent_encoding::percent_decode_str` and `decode_utf8` on the
/// outcome. Trusted: the bytes are decoded as `percent_decoded` says, and
/// the call succeeds exactly where they are UTF-8, with the text they
/// encode.
#[verifier::external_body]
fn percent_decode_utf8(input: &str) -> (decoded: Option<String>)
    ensures
        match decoded {
            Some(text) => decoded_request(input@) == Some(text@),
            None => decoded_request(input@) is None,
        },
{
    percent_encoding::percent_decode_str(input).decode_utf8().ok().map(|text| text.into_owned())
}

/// The segments of a slash-separated path after `current`, the characters
/// of the segment that is being read.
pub open spec fn segments_after(current: Seq<char>, rest: Seq<char>) -> Seq<Seq<char>>
    decreases rest.len(),
{
    let done = if current.len() == 0 {
        Seq::<Seq<char>>::empty()
    } else {
        seq![current]
    };
    if rest.len() == 0 {
        done
    } else if rest[0] == '/' {
        done + segments_after(Seq::empty(), rest.drop_first())
    } else {
        segments_after(current.push(rest[0]), rest.drop_first())
    }
}

/// The segments of a slash-separated path: its non-empty stretches between
/// slashes.
pub open spec fn segments(path: Seq<char>) -> Seq<Seq<char>> {
    segments_after(Seq::empty(), path)
}

/// `path` lies at or under `root`, segment by segment. A path that merely
/// begins with the characters of `root` does not.
pub open spec fn is_within(root: Seq<char>, path: Seq<char>) -> bool {
    segments(root).is_prefix_of(segments(path))
}

/// Some segment among `segs`, from index `start` on, is hidden.
pub open spec fn hidden_from(segs: Seq<Seq<char>>, start: int) -> bool {
    exists|i: int| start <= i < segs.len() && is_hidden_name(#[trigger] segs[i])
}

/// Some segment of `path` below `root` is hidden.
pub open spec fn has_hidden_segment(root: Seq<char>, path: Seq<char>) -> bool {
    hidden_from(segments(path), segments(root).len() as int)
}

/// What confinement answers for the decoded request `requested` and the
/// canonical form that the filesystem gave for it, `None` where it has no
/// such entry.
///
/// A request that names a hidden segment is refused whatever it resolves
/// to, by the predicate that hides archive members; `.` and `..` are such
/// segments. Else a request without an entry is not found, and one whose
/// canonical form lies outside the root, or under a hidden segment below
/// it, is refused.
pub open spec fn confined(
    root: Seq<char>,
    requested: Seq<char>,
    canonical: Option<Seq<char>>,
) -> Result<Seq<char>, AppError> {
    if is_hidden_path(requested) {
        Err(AppError::Forbidden)
    } else {
        match canonical {
            None => Err(AppError::NotFound),
            Some(path) => if !is_within(root, path) || has_hidden_segment(root, path) {
                Err(AppError::Forbidden)
            } else {
                Ok(path)
            },
        }
    }
}

/// A hidden segment shows at the start of the segment being read, at the
/// start of the rest where no segment is being read, or after a slash.
spec fn shows_hidden(current: Seq<char>, rest: Seq<char>) -> bool {
    (current.len() > 0 && current[0] == '.') || (current.len() == 0 && rest.len() > 0 && rest[0]
        == '.') || contains_seq(rest, seq!['/', '.'])
}

/// A dot after a slash occurs in a text at its start or in what follows
/// its first character.
proof fn lemma_dot_after_slash(rest: Seq<char>)
    requires
        rest.len() > 0,
    ensures
        contains_seq(rest, seq!['/', '.']) == ((rest.len() >= 2 && rest[0] == '/' && rest[1] == '.')
            || contains_seq(rest.drop_first(), seq!['/', '.'])),
{
    let sep = seq!['/', '.'];
    let tail = rest.drop_first();
    if contains_seq(rest, sep) {
        let i = choose|i: int| occurs_at(rest, sep, i);
        assert(rest.subrange(i, i + 2)[0] == sep[0] && rest.subrange(i, i + 2)[1] == sep[1]);
        if i > 0 {
            assert(tail.subrange(i - 1, i + 1) =~= rest.subrange(i, i + 2));
            assert(occurs_at(tail, sep, i - 1));
        }
    }
    if rest.len() >= 2 && rest[0] == '/' && rest[1] == '.' {
        assert(rest.subrange(0, 2) =~= sep);
        assert(occurs_at(rest, sep, 0));
    }
    if contains_seq(tail, sep) {
        let i = choose|i: int| occurs_at(tail, sep, i);
        assert(rest.subrange(i + 1, i + 3) =~= tail.subrange(i, i + 2));
        assert(occurs_at(rest, sep, i + 1));
    }
}

/// A hidden segment among two runs of segments is among one of them.
proof fn lemma_hidden_from_concat(a: Seq<Seq<char>>, b: Seq<Seq<char>>)
    ensures
        hidden_from(a + b, 0) == (hidden_from(a, 0) || hidden_from(b, 0)),
{
    if hidden_from(a + b, 0) {
        let i = choose|i: int| 0 <= i < (a + b).len() && is_hidden_name(#[trigger] (a + b)[i]);
        if i < a.len() {
            assert(a[i] == (a + b)[i]);
        } else {
            assert(b[i - a.len()] == (a + b)[i]);
        }
    }
    if hidden_from(a, 0) {
        let i = choose|i: int| 0 <= i < a.len() && is_hidden_name(#[trigger] a[i]);
        assert((a + b)[i] == a[i]);
    }
    if hidden_from(b, 0) {
        let i = choose|i: int| 0 <= i < b.len() && is_hidden_name(#[trigger] b[i]);
        assert((a + b)[i + a.len()] == b[i]);
    }
}

/// The segments read from a text hold a hidden one exactly where the text
/// shows one.
proof fn lemma_hidden_segments_after(current: Seq<char>, rest: Seq<char>)
    ensures
        hidden_from(segments_after(current, rest), 0) == shows_hidden(current, rest),
    decreases rest.len(),
{
    let done = if current.len() == 0 {
        Seq::<Seq<char>>::empty()
    } else {
        seq![current]
    };
    assert(hidden_from(done, 0) == (current.len() > 0 && current[0] == '.')) by {
        if current.len() > 0 {
            assert(done[0] == current);
        }
    }
    if rest.len() == 0 {
        if contains_seq(rest, seq!['/', '.']) {
            let i = choose|i: int| occurs_at(rest, seq!['/', '.'], i);
        }
    } else {
        let tail = rest.drop_first();
        lemma_dot_after_slash(rest);
        if rest[0] == '/' {
            lemma_hidden_segments_after(Seq::empty(), tail);
            lemma_hidden_from_concat(done, segments_after(Seq::empty(), tail));
        } else {
            lemma_hidden_segments_after(current.push(rest[0]), tail);
            assert(current.push(rest[0])[0] == if current.len() > 0 {
                current[0]
            } else {
                rest[0]
            });
        }
    }
}

/// One predicate hides archive members and requested paths: a path is
/// hidden exactly where one of its segments is a hidden name.
pub proof fn lemma_hidden_path_has_hidden_segment(path: Seq<char>)
    ensures
        is_hidden_path(path) <==> hidden_from(segments(path), 0),
        is_hidden_path(path) <==> exists|i: int|
            0 <= i < segments(path).len() && is_hidden_name(#[trigger] segments(path)[i]),
{
    lemma_hidden_segments_after(Seq::empty(), path);
    let segs = segments(path);
    if hidden_from(segs, 0) {
        let i = choose|i: int| 0 <= i < segs.len() && is_hidden_name(#[trigger] segs[i]);
        assert(0 <= i < segments(path).len() && is_hidden_name(segments(path)[i]));
    }
    if exists|i: int| 0 <= i < segments(path).len() && is_hidden_name(#[trigger] segments(path)[i]) {
        let i = choose|i: int|
            0 <= i < segments(path).len() && is_hidden_name(#[trigger] segments(path)[i]);
        assert(is_hidden_name(segs[i]));
    }
}

/// What a vector of segments stands for.
pub open spec fn parts_view(parts: Seq<Vec<char>>) -> Seq<Seq<char>> {
    parts.map_values(|p: Vec<char>| p@)
}

/// The segments of `path`.
pub fn split_segments(path: &str) -> (parts: Vec<Vec<char>>)
    ensures
        parts_view(parts@) == segments(path@),
{
    let chars = chars_of(path);
    let mut parts: Vec<Vec<char>> = Vec::new();
    let mut current: Vec<char> = Vec::new();
    let mut i: usize = 0;
    proof {
        assert(chars@.skip(0) =~= chars@);
        assert(parts_view(parts@) + segments_after(current@, chars@)
            =~= segments(path@));
    }
    while i < chars.len()
        invariant
            i <= chars.len(),
            chars@ == path@,
            segments(path@) == parts_view(parts@) + segments_after(
                current@,
                chars@.skip(i as int),
            ),
        decreases chars.len() - i,
    {
        let c = chars[i];
        let ghost old_parts = parts_view(parts@);
        let ghost old_current = current@;
        let ghost rest = chars@.skip(i as int);
        proof {
            assert(rest[0] == c);
            assert(chars@.skip(i as int).drop_first() =~= chars@.skip(i + 1));
        }
        if c == '/' {
            if current.len() > 0 {
                parts.push(current);
                current = Vec::new();
                assert(parts_view(parts@) =~= old_parts + seq![old_current]);
            } else {
                assert(old_current =~= Seq::<char>::empty());
            }
            assert(current@ =~= Seq::<char>::empty());
            assert(segments_after(old_current, rest) == (if old_current.len() == 0 {
                Seq::<Seq<char>>::empty()
            } else {
                seq![old_current]
            }) + segments_after(Seq::empty(), rest.drop_first()));
            assert(segments(path@) =~= parts_view(parts@) + segments_after(
                current@,
                chars@.skip(i + 1),
            ));
        } else {
            current.push(c);
        }
        i += 1;
    }
    let ghost old_parts = parts_view(parts@);
    if current.len() > 0 {
        parts.push(current);
        assert(parts_view(parts@) =~= old_parts + seq![current@]);
    }
    assert(parts_view(parts@) =~= segments(path@));
    parts
}

/// Whether two character vectors are equal.
fn same_chars(a: &Vec<char>, b: &Vec<char>) -> (r: bool)
    ensures
        r == (a@ == b@),
{
    if a.len() != b.len() {
        return false;
    }
    let same = crate::text::matches_at(a, b, 0);
    proof {
        if same {
            assert(a@ =~= a@.subrange(0, b@.len() as int));
        }
    }
    same
}

/// Percent-decodes a requested path. A request whose decoded bytes are not
/// UTF-8 is an invalid path.
pub fn decode_request_path(requested: &str) -> (decoded: Result<String, AppError>)
    ensures
        match decoded {
            Ok(text) => decoded_request(requested@) == Some(text@),
            Err(e) => e == AppError::InvalidPath && decoded_request(requested@) is None,
        },
{
    match percent_decode_utf8(requested) {
        Some(text) => Ok(text),
        None => Err(AppError::InvalidPath),
    }
}

/// What a path that may be missing stands for.
pub open spec fn path_view(path: Option<&str>) -> Option<Seq<char>> {
    match path {
        Some(p) => Some(p@),
        None => None,
    }
}

/// Confines a request to the media root.
///
/// `requested` is the decoded request, relative to the root. `canonical`
/// is what the filesystem gave as the canonical form of the request joined
/// onto the root, `None` where it has no such entry. The answer is the
/// canonical path where the request names no hidden segment, and the path
/// lies at or under `media_dir` segment by segment with no hidden segment
/// below the root: whatever the request held, a path that is answered lies
/// inside the root.
pub fn validate_media_path(media_dir: &str, requested: &str, canonical: Option<&str>) -> (resolved:
    Result<String, AppError>)
    ensures
        match resolved {
            Ok(path) => confined(media_dir@, requested@, path_view(canonical)) == Ok::<
                Seq<char>,
                AppError,
            >(path@),
            Err(e) => confined(media_dir@, requested@, path_view(canonical)) == Err::<
                Seq<char>,
                AppError,
            >(e),
        },
        resolved is Ok ==> canonical is Some && resolved->Ok_0@ == canonical->0@ && is_within(
            media_dir@,
            resolved->Ok_0@,
        ) && !has_hidden_segment(media_dir@, resolved->Ok_0@) && !is_hidden_path(requested@),
{
    if is_hidden_member(requested) {
        return Err(AppError::Forbidden);
    }
    let path = match canonical {
        Some(path) => path,
        None => {
            return Err(AppError::NotFound);
        },
    };
    let root_parts = split_segments(media_dir);
    let path_parts = split_segments(path);
    let ghost root_segs = segments(media_dir@);
    let ghost path_segs = segments(path@);
    assert(root_segs.len() == root_parts.len() && path_segs.len() == path_parts.len());
    if root_parts.len() > path_parts.len() {
        return Err(AppError::Forbidden);
    }
    let mut i: usize = 0;
    while i < root_parts.len()
        invariant
            i <= root_parts.len() <= path_parts.len(),
            parts_view(root_parts@) == root_segs,
            parts_view(path_parts@) == path_segs,
            root_segs == segments(media_dir@),
            path_segs == segments(path@),
            root_segs.len() == root_parts.len(),
            path_segs.len() == path_parts.len(),
            canonical == Some(path),
            !is_hidden_path(requested@),
            forall|j: int| 0 <= j < i ==> root_segs[j] == path_segs[j],
        decreases root_parts.len() - i,
    {
        proof {
            assert(root_segs[i as int] == root_parts@[i as int]@);
            assert(path_segs[i as int] == path_parts@[i as int]@);
        }
        if !same_chars(&root_parts[i], &path_parts[i]) {
            proof {
                assert(path_segs.subrange(0, root_segs.len() as int)[i as int] == path_segs[i as int]);
            }
            return Err(AppError::Forbidden);
        }
        i += 1;
    }
    proof {
        assert(root_segs =~= path_segs.subrange(0, root_segs.len() as int));
    }
    let mut k: usize = root_parts.len();
    while k < path_parts.len()
        invariant
            root_parts.len() <= k <= path_parts.len(),
            parts_view(root_parts@) == root_segs,
            parts_view(path_parts@) == path_segs,
            root_segs == segments(media_dir@),
            path_segs == segments(path@),
            root_segs.len() == root_parts.len(),
            path_segs.len() == path_parts.len(),
            canonical == Some(path),
            !is_hidden_path(requested@),
            is_within(media_dir@, path@),
            forall|j: int| root_parts.len() <= j < k ==> !is_hidden_name(#[trigger] path_segs[j]),
        decreases path_parts.len() - k,
    {
        proof {
            assert(path_segs[k as int] == path_parts@[k as int]@);
        }
        if path_parts[k].len() > 0 && path_parts[k][0] == '.' {
            assert(is_hidden_name(segments(path@)[k as int]));
            return Err(AppError::Forbidden);
        }
        k += 1;
    }
    Ok(path.to_owned())
}

} // verus!

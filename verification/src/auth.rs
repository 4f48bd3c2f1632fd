//! The authentication guard: HTTP Basic credentials behind the failed-login
//! throttle.
//!
//! A client that is limited is turned away before its credentials are
//! looked at. Credentials are compared in constant time, user name and
//! password each on its own, and the two answers are joined bit by bit. A
//! match clears the client's failures; anything else records one.

use vstd::prelude::*;
use vstd::string::StringSliceAdditionalSpecFns;
use vstd::utf8::{decode_utf8, encode_utf8, valid_utf8};
use crate::rate_limiter::{
    after_check, after_clear, after_failure, limited, AuthRateLimiter, LimiterModel,
};
use crate::text::{chars_of, find_char, first_index, str_starts_with};

verus! {

/// The credentials that are accepted, and the throttle in front of them.
pub struct AuthConfig {
    pub username: String,
    pub password: String,
    pub rate_limiter: AuthRateLimiter,
}

/// What the guard decides for a request.
#[derive(Debug, Clone, Copy, PartialEq, Eq, Structural)]
pub enum AuthOutcome {
    /// The credentials match: the request goes on.
    Allowed,
    /// The client is limited: status 429, credentials not looked at.
    RateLimited,
    /// No credentials, or wrong ones: status 401 with a challenge.
    Unauthorized,
}

/// A header of a request as the guard sees it.
#[derive(Debug, Clone, Copy)]
pub enum HeaderField<'a> {
    /// The request has no such header.
    Absent,
    /// The header is there, but its value is not text.
    Unreadable,
    /// The header's value.
    Text(&'a str),
}

/// What the guard sends when it turns a request away.
#[derive(Debug, Clone, Copy)]
pub struct AuthRefusal {
    pub status: u16,
    /// The `WWW-Authenticate` header.
    pub challenge: &'static str,
    /// The `Retry-After` header, in seconds, of a limited client.
    pub retry_after: Option<&'static str>,
    pub body: &'static str,
}

/// The bytes that the standard base64 alphabet with padding decodes `text`
/// to, `None` where `text` is no such encoding.
pub uninterp spec fn base64_decoded(text: Seq<u8>) -> Option<Seq<u8>>;

/// Calls `decode` on `base64::prelude::BASE64_STANDARD`. Trusted: the
/// result is the crate's decoding of the text, which depends on the text
/// alone.
#[verifier::external_body]
fn base64_decode(text: &str) -> (decoded: Option<Vec<u8>>)
    ensures
        match decoded {
            Some(bytes) => base64_decoded(text.spec_bytes()) == Some(bytes@),
            None => base64_decoded(text.spec_bytes()) is None,
        },
{
    base64::Engine::decode(&base64::prelude::BASE64_STANDARD, text).ok()
}

/// Calls `String::from_utf8`. Trusted: it succeeds exactly on UTF-8, with
/// the text that the bytes encode.
#[verifier::external_body]
fn text_from_utf8(bytes: Vec<u8>) -> (text: Option<String>)
    ensures
        match text {
            Some(t) => valid_utf8(bytes@) && t@ == decode_utf8(bytes@),
            None => !valid_utf8(bytes@),
        },
{
    String::from_utf8(bytes).ok()
}

/// Calls `subtle::ConstantTimeEq::ct_eq` on two byte slices and unwraps the
/// choice. Trusted: the result is 1 where the slices are equal and 0 where
/// they are not.
#[verifier::external_body]
fn constant_time_eq(a: &[u8], b: &[u8]) -> (same: u8)
    ensures
        same == if a@ == b@ { 1u8 } else { 0u8 },
{
    subtle::ConstantTimeEq::ct_eq(a, b).unwrap_u8()
}

/// The user name and password that decoded credentials hold: the text
/// before the first colon, and the text after it. Bytes that are not text,
/// or text without a colon, hold none.
pub open spec fn credentials_in(decoded: Seq<u8>) -> Option<(Seq<char>, Seq<char>)> {
    if !valid_utf8(decoded) {
        None
    } else {
        let text = decode_utf8(decoded);
        let colon = first_index(text, ':');
        if colon >= text.len() {
            None
        } else {
            Some((text.take(colon), text.skip(colon + 1)))
        }
    }
}

/// The user name and password that an `Authorization` header offers: the
/// header reads `Basic `, then the base64 encoding of the two joined by a
/// colon.
pub open spec fn offered_credentials(authorization: Option<Seq<char>>) -> Option<
    (Seq<char>, Seq<char>),
> {
    match authorization {
        None => None,
        Some(header) => if !"Basic "@.is_prefix_of(header) {
            None
        } else {
            match base64_decoded(encode_utf8(header.skip(6))) {
                Some(decoded) => credentials_in(decoded),
                None => None,
            }
        },
    }
}

/// Whether the header offers exactly the accepted credentials.
pub open spec fn is_authentic(
    username: Seq<char>,
    password: Seq<char>,
    authorization: Option<Seq<char>>,
) -> bool {
    offered_credentials(authorization) == Some((username, password))
}

/// What the guard decides, given the failures on record.
pub open spec fn guard_outcome(
    m: LimiterModel,
    window: u64,
    max_attempts: usize,
    username: Seq<char>,
    password: Seq<char>,
    client: Seq<char>,
    authorization: Option<Seq<char>>,
    now: u64,
) -> AuthOutcome {
    if limited(m, client, now, window, max_attempts) {
        AuthOutcome::RateLimited
    } else if is_authentic(username, password, authorization) {
        AuthOutcome::Allowed
    } else {
        AuthOutcome::Unauthorized
    }
}

/// The failures on record after the guard has decided.
pub open spec fn guard_records(
    m: LimiterModel,
    window: u64,
    outcome: AuthOutcome,
    client: Seq<char>,
    now: u64,
) -> LimiterModel {
    let checked = after_check(m, client, now, window);
    match outcome {
        AuthOutcome::RateLimited => checked,
        AuthOutcome::Allowed => after_clear(checked, client),
        AuthOutcome::Unauthorized => after_failure(checked, client, now),
    }
}

/// What an `Authorization` header that may be missing stands for.
pub open spec fn header_text(header: Option<&str>) -> Option<Seq<char>> {
    match header {
        Some(h) => Some(h@),
        None => None,
    }
}

/// The name under which a client is throttled: the value of its
/// forwarded-for header where the request has one that is text, else the
/// address of the peer that the connection comes from.
pub open spec fn client_name(forwarded_for: HeaderField, peer: Seq<char>) -> Seq<char> {
    match forwarded_for {
        HeaderField::Text(t) => t@,
        _ => peer,
    }
}

/// The name under which a client is throttled, given its forwarded-for
/// header and the address of its peer.
pub fn client_identifier(forwarded_for: HeaderField, peer: &str) -> (name: String)
    ensures
        name@ == client_name(forwarded_for, peer@),
        name@ == match forwarded_for {
            HeaderField::Text(t) => t@,
            _ => peer@,
        },
{
    match forwarded_for {
        HeaderField::Text(t) => t.to_owned(),
        _ => peer.to_owned(),
    }
}

/// Reads the user name and password out of decoded credentials.
pub fn parse_credentials(decoded: Vec<u8>) -> (parsed: Option<(String, String)>)
    ensures
        match parsed {
            Some((user, pass)) => credentials_in(decoded@) == Some((user@, pass@)),
            None => credentials_in(decoded@) is None,
        },
{
    let text = match text_from_utf8(decoded) {
        Some(text) => text,
        None => {
            return None;
        },
    };
    let chars = chars_of(text.as_str());
    let colon = find_char(&chars, ':');
    if colon >= chars.len() {
        return None;
    }
    let user = vstd::string::StrSliceExecFns::substring_char(text.as_str(), 0, colon).to_owned();
    let pass = vstd::string::StrSliceExecFns::substring_char(
        text.as_str(),
        colon + 1,
        chars.len(),
    ).to_owned();
    proof {
        assert(user@ =~= text@.take(colon as int));
        assert(pass@ =~= text@.skip(colon + 1));
    }
    Some((user, pass))
}

/// Text is equal where its UTF-8 bytes are.
proof fn lemma_same_bytes_same_text(a: Seq<char>, b: Seq<char>)
    requires
        encode_utf8(a) == encode_utf8(b),
    ensures
        a == b,
{
    vstd::utf8::encode_utf8_decode_utf8(a);
    vstd::utf8::encode_utf8_decode_utf8(b);
}

/// Whether the offered user name and password are the accepted ones. Both
/// are compared in constant time, and both comparisons are always made.
pub fn credentials_match(username: &str, password: &str, offered_user: &str, offered_pass: &str) -> (
    same: bool)
    ensures
        same == (offered_user@ == username@ && offered_pass@ == password@),
{
    let user_same = constant_time_eq(offered_user.as_bytes(), username.as_bytes());
    let pass_same = constant_time_eq(offered_pass.as_bytes(), password.as_bytes());
    let both = user_same & pass_same;
    proof {
        assert((user_same & pass_same) == 1u8 <==> (user_same == 1u8 && pass_same == 1u8)) by (bit_vector)
            requires
                user_same == 0u8 || user_same == 1u8,
                pass_same == 0u8 || pass_same == 1u8,
        ;
        if offered_user.spec_bytes() == username.spec_bytes() {
            lemma_same_bytes_same_text(offered_user@, username@);
        }
        if offered_pass.spec_bytes() == password.spec_bytes() {
            lemma_same_bytes_same_text(offered_pass@, password@);
        }
    }
    both == 1
}

/// Whether the `Authorization` header offers the accepted credentials.
pub fn check_authorization(username: &str, password: &str, authorization: Option<&str>) -> (ok: bool)
    ensures
        ok == is_authentic(
            username@,
            password@,
            match authorization {
                Some(h) => Some(h@),
                None => None,
            },
        ),
{
    let header = match authorization {
        Some(header) => header,
        None => {
            return false;
        },
    };
    if !str_starts_with(header, "Basic ") {
        return false;
    }
    proof {
        reveal_strlit("Basic ");
    }
    let length = vstd::string::StrSliceExecFns::unicode_len(header);
    let encoded = vstd::string::StrSliceExecFns::substring_char(header, 6, length);
    assert(encoded@ =~= header@.skip(6));
    let decoded = match base64_decode(encoded) {
        Some(decoded) => decoded,
        None => {
            return false;
        },
    };
    match parse_credentials(decoded) {
        Some((user, pass)) => credentials_match(username, password, user.as_str(), pass.as_str()),
        None => false,
    }
}

/// Decides a request of the client named `client_ip` at time `now`, with
/// its `Authorization` header if it has one.
///
/// A limited client is turned away without a look at its credentials.
/// Otherwise matching credentials clear the client's failures and let the
/// request pass; anything else records one failure.
pub fn authenticate(
    auth_config: &mut AuthConfig,
    client_ip: &str,
    authorization: Option<&str>,
    now: u64,
) -> (outcome: AuthOutcome)
    ensures
        outcome == guard_outcome(
            old(auth_config).rate_limiter@,
            old(auth_config).rate_limiter.spec_window(),
            old(auth_config).rate_limiter.spec_max_attempts(),
            old(auth_config).username@,
            old(auth_config).password@,
            client_ip@,
            header_text(authorization),
            now,
        ),
        final(auth_config).rate_limiter@ == guard_records(
            old(auth_config).rate_limiter@,
            old(auth_config).rate_limiter.spec_window(),
            outcome,
            client_ip@,
            now,
        ),
        final(auth_config).username == old(auth_config).username,
        final(auth_config).password == old(auth_config).password,
        final(auth_config).rate_limiter.spec_window() == old(auth_config).rate_limiter.spec_window(),
        final(auth_config).rate_limiter.spec_max_attempts() == old(
            auth_config,
        ).rate_limiter.spec_max_attempts(),
{
    if auth_config.rate_limiter.is_rate_limited(client_ip, now) {
        return AuthOutcome::RateLimited;
    }
    if check_authorization(
        auth_config.username.as_str(),
        auth_config.password.as_str(),
        authorization,
    ) {
        auth_config.rate_limiter.clear(client_ip);
        AuthOutcome::Allowed
    } else {
        auth_config.rate_limiter.record_failure(client_ip, now);
        AuthOutcome::Unauthorized
    }
}

/// Decides a request at time `now`, given its forwarded-for header, the
/// address of the peer it comes from, and its `Authorization` header if it
/// has one.
///
/// The client is named by its forwarded-for header, else by the address
/// of its peer; it is under that name that it is checked, cleared, and its
/// failure recorded. A limited client is turned away without a look at its
/// credentials. Otherwise matching credentials clear the client's failures
/// and let the request pass; anything else records one failure.
pub fn basic_auth_middleware(
    auth_config: &mut AuthConfig,
    forwarded_for: HeaderField,
    peer: &str,
    authorization: Option<&str>,
    now: u64,
) -> (outcome: AuthOutcome)
    ensures
        outcome == guard_outcome(
            old(auth_config).rate_limiter@,
            old(auth_config).rate_limiter.spec_window(),
            old(auth_config).rate_limiter.spec_max_attempts(),
            old(auth_config).username@,
            old(auth_config).password@,
            client_name(forwarded_for, peer@),
            header_text(authorization),
            now,
        ),
        final(auth_config).rate_limiter@ == guard_records(
            old(auth_config).rate_limiter@,
            old(auth_config).rate_limiter.spec_window(),
            outcome,
            client_name(forwarded_for, peer@),
            now,
        ),
        final(auth_config).username == old(auth_config).username,
        final(auth_config).password == old(auth_config).password,
        final(auth_config).rate_limiter.spec_window() == old(auth_config).rate_limiter.spec_window(),
        final(auth_config).rate_limiter.spec_max_attempts() == old(
            auth_config,
        ).rate_limiter.spec_max_attempts(),
{
    let client = client_identifier(forwarded_for, peer);
    authenticate(auth_config, client.as_str(), authorization, now)
}

/// The challenge that asks a client for Basic credentials.
pub open spec fn challenge_text() -> Seq<char> {
    "Basic realm=\"DoggyGallery\", charset=\"UTF-8\""@
}

/// What is sent to a client that `outcome` turns away.
pub open spec fn refusal_of(outcome: AuthOutcome) -> Option<(u16, Option<Seq<char>>, Seq<char>)> {
    match outcome {
        AuthOutcome::Allowed => None,
        AuthOutcome::RateLimited => Some(
            (
                429u16,
                Some("60"@),
                "Too many failed authentication attempts. Try again later."@,
            ),
        ),
        AuthOutcome::Unauthorized => Some((401u16, None, "Authentication required"@)),
    }
}

/// What is sent to a client that is turned away, nothing where the request
/// goes on: the status, the challenge, for a limited client the seconds to
/// wait, and a short body.
pub fn refusal(outcome: AuthOutcome) -> (sent: Option<AuthRefusal>)
    ensures
        match sent {
            None => refusal_of(outcome) is None,
            Some(r) => refusal_of(outcome) == Some(
                (
                    r.status,
                    match r.retry_after {
                        Some(s) => Some(s@),
                        None => None,
                    },
                    r.body@,
                ),
            ) && r.challenge@ == challenge_text(),
        },
{
    match outcome {
        AuthOutcome::Allowed => None,
        AuthOutcome::RateLimited => Some(
            AuthRefusal {
                status: 429,
                challenge: "Basic realm=\"DoggyGallery\", charset=\"UTF-8\"",
                retry_after: Some("60"),
                body: "Too many failed authentication attempts. Try again later.",
            },
        ),
        AuthOutcome::Unauthorized => Some(
            AuthRefusal {
                status: 401,
                challenge: "Basic realm=\"DoggyGallery\", charset=\"UTF-8\"",
                retry_after: None,
                body: "Authentication required",
            },
        ),
    }
}

} // verus!

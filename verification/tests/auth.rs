use doggygallery::auth::{
    authenticate, basic_auth_middleware, check_authorization, client_identifier, credentials_match,
    parse_credentials, refusal, AuthConfig, AuthOutcome, HeaderField,
};
use doggygallery::rate_limiter::AuthRateLimiter;

fn config() -> AuthConfig {
    AuthConfig {
        username: "admin".to_string(),
        password: "secret".to_string(),
        rate_limiter: AuthRateLimiter::new(10, 60_000),
    }
}

// "admin:secret"
const GOOD: &str = "Basic YWRtaW46c2VjcmV0";
// "admin:wrong"
const WRONG_PASSWORD: &str = "Basic YWRtaW46d3Jvbmc=";
// "root:secret"
const WRONG_USER: &str = "Basic cm9vdDpzZWNyZXQ=";

#[test]
fn matching_credentials_are_allowed() {
    let mut cfg = config();
    assert_eq!(basic_auth_middleware(&mut cfg, HeaderField::Absent, "1.2.3.4", Some(GOOD), 100), AuthOutcome::Allowed);
}

#[test]
fn wrong_credentials_are_unauthorized() {
    let mut cfg = config();
    assert_eq!(
        basic_auth_middleware(&mut cfg, HeaderField::Absent, "1.2.3.4", Some(WRONG_PASSWORD), 100),
        AuthOutcome::Unauthorized
    );
    assert_eq!(
        basic_auth_middleware(&mut cfg, HeaderField::Absent, "1.2.3.4", Some(WRONG_USER), 101),
        AuthOutcome::Unauthorized
    );
    assert_eq!(basic_auth_middleware(&mut cfg, HeaderField::Absent, "1.2.3.4", None, 102), AuthOutcome::Unauthorized);
}

#[test]
fn malformed_headers_are_unauthorized() {
    assert!(!check_authorization("admin", "secret", Some("Bearer YWRtaW46c2VjcmV0")));
    assert!(!check_authorization("admin", "secret", Some("basic YWRtaW46c2VjcmV0")));
    assert!(!check_authorization("admin", "secret", Some("Basic")));
    assert!(!check_authorization("admin", "secret", Some("Basic !!!")));
    assert!(!check_authorization("admin", "secret", Some("Basic  YWRtaW46c2VjcmV0")));
    // "adminsecret": no colon
    assert!(!check_authorization("admin", "secret", Some("Basic YWRtaW5zZWNyZXQ=")));
    // bytes ff fe: not text
    assert!(!check_authorization("admin", "secret", Some("Basic //4=")));
    assert!(check_authorization("admin", "secret", Some(GOOD)));
}

#[test]
fn password_may_hold_colons() {
    // "admin:se:cret"
    assert!(check_authorization("admin", "se:cret", Some("Basic YWRtaW46c2U6Y3JldA==")));
    assert_eq!(
        parse_credentials(b"admin:se:cret".to_vec()),
        Some(("admin".to_string(), "se:cret".to_string()))
    );
    assert_eq!(parse_credentials(b":".to_vec()), Some((String::new(), String::new())));
    assert_eq!(parse_credentials(b"nocolon".to_vec()), None);
    assert_eq!(parse_credentials(vec![0xff, b':', b'a']), None);
}

#[test]
fn both_fields_have_to_match() {
    assert!(credentials_match("admin", "secret", "admin", "secret"));
    assert!(!credentials_match("admin", "secret", "admin", "Secret"));
    assert!(!credentials_match("admin", "secret", "admi", "secret"));
    assert!(!credentials_match("admin", "secret", "secret", "admin"));
    assert!(!credentials_match("admin", "secret", "", ""));
    assert!(credentials_match("", "", "", ""));
    assert!(credentials_match("ädmin", "pässwörd", "ädmin", "pässwörd"));
}

#[test]
fn ten_failures_limit_the_client() {
    let mut cfg = config();
    for i in 0..10 {
        assert_eq!(
            basic_auth_middleware(&mut cfg, HeaderField::Absent, "1.2.3.4", Some(WRONG_PASSWORD), 100 + i),
            AuthOutcome::Unauthorized
        );
    }
    // limited now: even the right credentials are not looked at
    assert_eq!(
        basic_auth_middleware(&mut cfg, HeaderField::Absent, "1.2.3.4", Some(GOOD), 200),
        AuthOutcome::RateLimited
    );
    // another client is not affected
    assert_eq!(basic_auth_middleware(&mut cfg, HeaderField::Absent, "5.6.7.8", Some(GOOD), 200), AuthOutcome::Allowed);
    // once the window has passed the client may log in again
    assert_eq!(
        basic_auth_middleware(&mut cfg, HeaderField::Absent, "1.2.3.4", Some(GOOD), 100 + 60_000),
        AuthOutcome::Allowed
    );
}

#[test]
fn one_failure_is_recorded_for_each_refused_request() {
    let mut cfg = AuthConfig {
        username: "admin".to_string(),
        password: "secret".to_string(),
        rate_limiter: AuthRateLimiter::new(2, 60_000),
    };
    assert_eq!(
        basic_auth_middleware(&mut cfg, HeaderField::Absent, "c", Some(WRONG_PASSWORD), 1),
        AuthOutcome::Unauthorized
    );
    // one failure so far: not limited yet
    assert_eq!(basic_auth_middleware(&mut cfg, HeaderField::Absent, "c", None, 2), AuthOutcome::Unauthorized);
    assert_eq!(basic_auth_middleware(&mut cfg, HeaderField::Absent, "c", Some(GOOD), 3), AuthOutcome::RateLimited);
}

#[test]
fn success_clears_earlier_failures() {
    let mut cfg = config();
    for i in 0..9 {
        basic_auth_middleware(&mut cfg, HeaderField::Absent, "c", Some(WRONG_PASSWORD), i);
    }
    assert_eq!(basic_auth_middleware(&mut cfg, HeaderField::Absent, "c", Some(GOOD), 20), AuthOutcome::Allowed);
    for i in 0..9 {
        assert_eq!(
            basic_auth_middleware(&mut cfg, HeaderField::Absent, "c", Some(WRONG_PASSWORD), 30 + i),
            AuthOutcome::Unauthorized
        );
    }
    assert_eq!(basic_auth_middleware(&mut cfg, HeaderField::Absent, "c", Some(GOOD), 50), AuthOutcome::Allowed);
}

#[test]
fn refusals_carry_status_and_headers() {
    assert!(refusal(AuthOutcome::Allowed).is_none());
    let limited = refusal(AuthOutcome::RateLimited).unwrap();
    assert_eq!(limited.status, 429);
    assert_eq!(limited.retry_after, Some("60"));
    assert_eq!(limited.challenge, "Basic realm=\"DoggyGallery\", charset=\"UTF-8\"");
    let unauthorized = refusal(AuthOutcome::Unauthorized).unwrap();
    assert_eq!(unauthorized.status, 401);
    assert_eq!(unauthorized.retry_after, None);
    assert_eq!(unauthorized.challenge, "Basic realm=\"DoggyGallery\", charset=\"UTF-8\"");
    assert_eq!(unauthorized.body, "Authentication required");
}

#[test]
fn client_is_named_by_its_forwarded_address() {
    assert_eq!(client_identifier(HeaderField::Text("9.9.9.9"), "10.0.0.7"), "9.9.9.9");
    assert_eq!(client_identifier(HeaderField::Text(""), "10.0.0.7"), "");
}

#[test]
fn client_without_forwarded_address_is_named_by_its_peer() {
    assert_eq!(client_identifier(HeaderField::Absent, "10.0.0.7"), "10.0.0.7");
    assert_eq!(client_identifier(HeaderField::Unreadable, "10.0.0.7"), "10.0.0.7");
    assert_eq!(client_identifier(HeaderField::Absent, "::1"), "::1");
}

#[test]
fn direct_clients_are_throttled_apart() {
    let mut cfg = AuthConfig {
        username: "admin".to_string(),
        password: "secret".to_string(),
        rate_limiter: AuthRateLimiter::new(2, 60_000),
    };
    let absent = HeaderField::Absent;
    assert_eq!(basic_auth_middleware(&mut cfg, absent, "10.0.0.7", None, 1), AuthOutcome::Unauthorized);
    assert_eq!(
        basic_auth_middleware(&mut cfg, HeaderField::Unreadable, "10.0.0.7", None, 2),
        AuthOutcome::Unauthorized
    );
    assert_eq!(
        basic_auth_middleware(&mut cfg, absent, "10.0.0.7", Some(GOOD), 3),
        AuthOutcome::RateLimited
    );
    assert_eq!(basic_auth_middleware(&mut cfg, absent, "10.0.0.8", Some(GOOD), 3), AuthOutcome::Allowed);
    assert!(cfg.rate_limiter.is_rate_limited("10.0.0.7", 4));
    assert!(!cfg.rate_limiter.is_rate_limited("unknown", 4));
}

#[test]
fn forwarded_clients_are_throttled_by_the_forwarded_address() {
    let mut cfg = AuthConfig {
        username: "admin".to_string(),
        password: "secret".to_string(),
        rate_limiter: AuthRateLimiter::new(1, 60_000),
    };
    // two clients behind one proxy
    let proxy = "10.0.0.1";
    assert_eq!(
        basic_auth_middleware(&mut cfg, HeaderField::Text("203.0.113.5"), proxy, None, 1),
        AuthOutcome::Unauthorized
    );
    assert_eq!(
        basic_auth_middleware(&mut cfg, HeaderField::Text("203.0.113.5"), proxy, Some(GOOD), 2),
        AuthOutcome::RateLimited
    );
    assert_eq!(
        basic_auth_middleware(&mut cfg, HeaderField::Text("203.0.113.6"), proxy, Some(GOOD), 2),
        AuthOutcome::Allowed
    );
    assert!(cfg.rate_limiter.is_rate_limited("203.0.113.5", 3));
    assert!(!cfg.rate_limiter.is_rate_limited("10.0.0.1", 3));
}

#[test]
fn named_clients_are_decided_directly() {
    let mut cfg = config();
    assert_eq!(authenticate(&mut cfg, "c", Some(GOOD), 1), AuthOutcome::Allowed);
    assert_eq!(authenticate(&mut cfg, "c", Some(WRONG_USER), 2), AuthOutcome::Unauthorized);
    assert_eq!(authenticate(&mut cfg, "c", None, 3), AuthOutcome::Unauthorized);
}

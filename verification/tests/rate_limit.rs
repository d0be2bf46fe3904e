use omnifs_sdk::rate_limit::{
    authority_from, authority_of, clear_breaker, note_rate_limited, parse_retry_after_secs,
    RateLimitBreaker, UrlParts, DEFAULT_COOLDOWN_SECS, MAX_COOLDOWN_SECS,
};
use omnifs_sdk::time::Duration;

fn start() -> Duration {
    Duration::from_secs(1_000)
}

fn after(nanos: u32) -> Duration {
    Duration::new(1_000, nanos).unwrap()
}

#[test]
fn open_breaker_reports_remaining() {
    let mut breaker = RateLimitBreaker::new();
    let auth = "https://a.test";

    breaker.record_429(auth, Some(Duration::from_secs(3)), start());
    let remaining = breaker
        .check(auth, after(500))
        .expect("breaker should be open");

    assert!(remaining <= Duration::from_secs(3));
    assert!(remaining > Duration::from_secs(2));
}

#[test]
fn success_closes_the_breaker() {
    let mut breaker = RateLimitBreaker::new();
    let auth = "https://success-closes.test";

    breaker.record_429(auth, Some(Duration::from_secs(3)), start());
    breaker.record_success(auth);

    assert_eq!(breaker.check(auth, start()), None);
}

#[test]
fn missing_retry_after_uses_default_cooldown() {
    let mut breaker = RateLimitBreaker::new();
    let auth = "https://missing-retry-after.test";

    breaker.record_429(auth, None, start());
    let remaining = breaker.check(auth, start()).expect("breaker should be open");

    assert!(remaining <= Duration::from_secs(DEFAULT_COOLDOWN_SECS));
    assert_eq!(remaining, Duration::from_secs(5));
}

#[test]
fn huge_retry_after_is_clamped_not_panicking() {
    let mut breaker = RateLimitBreaker::new();
    let auth = "https://huge-retry.test";

    breaker.record_429(auth, Some(Duration::from_secs(u64::MAX)), start());
    let remaining = breaker.check(auth, start()).expect("breaker should be open");

    assert!(remaining <= Duration::from_secs(MAX_COOLDOWN_SECS));
    assert_eq!(remaining, Duration::from_secs(3_600));
}

#[test]
fn authority_keys_isolate_hosts() {
    let mut breaker = RateLimitBreaker::new();
    let auth_a = "https://a-isolated.test";
    let auth_b = "https://b-isolated.test";

    breaker.record_429(auth_a, Some(Duration::from_secs(3)), start());

    assert_eq!(breaker.check(auth_b, start()), None);
}

#[test]
fn note_rate_limited_arms_breaker() {
    let mut breaker = RateLimitBreaker::new();

    note_rate_limited(
        &mut breaker,
        "https://hook.test/x",
        Some(Duration::from_secs(3)),
        start(),
    );
    let remaining = breaker
        .check("https://hook.test", start())
        .expect("breaker should be open");

    assert!(remaining <= Duration::from_secs(3));
}

#[test]
fn authority_of_includes_explicit_port_only() {
    assert_eq!(
        authority_of("https://x.test/p?q=1"),
        Some("https://x.test".into())
    );
    assert_eq!(
        authority_of("http://x.test:8080/p"),
        Some("http://x.test:8080".into())
    );
}

#[test]
fn parse_retry_after_secs_handles_int_and_rejects_date() {
    assert_eq!(parse_retry_after_secs("3"), Some(Duration::from_secs(3)));
    assert_eq!(
        parse_retry_after_secs("Wed, 21 Oct 2099 07:28:00 GMT"),
        None
    );
}

#[test]
fn retry_after_tolerates_white_space_and_a_plus_sign() {
    assert_eq!(parse_retry_after_secs(" 12\t"), Some(Duration::from_secs(12)));
    assert_eq!(parse_retry_after_secs("+7"), Some(Duration::from_secs(7)));
    assert_eq!(
        parse_retry_after_secs("18446744073709551615"),
        Some(Duration::from_secs(u64::MAX))
    );
    assert_eq!(parse_retry_after_secs("18446744073709551616"), None);
    assert_eq!(parse_retry_after_secs("-1"), None);
    assert_eq!(parse_retry_after_secs(""), None);
}

#[test]
fn the_window_closes_at_its_end() {
    let mut breaker = RateLimitBreaker::new();
    breaker.record_429("https://w.test", Some(Duration::from_secs(3)), start());

    assert_eq!(
        breaker.check("https://w.test", Duration::from_secs(1_001)),
        Some(Duration::from_secs(2))
    );
    assert_eq!(
        breaker.check("https://w.test", Duration::from_secs(1_003)),
        None
    );
    assert_eq!(
        breaker.check("https://w.test", Duration::from_secs(1_002)),
        None,
        "an expired window is forgotten"
    );
}

#[test]
fn a_later_429_replaces_the_window() {
    let mut breaker = RateLimitBreaker::default();
    breaker.record_429("https://r.test", Some(Duration::from_secs(30)), start());
    breaker.record_429("https://r.test", Some(Duration::from_secs(2)), start());
    assert_eq!(
        breaker.check("https://r.test", start()),
        Some(Duration::from_secs(2))
    );
    clear_breaker(&mut breaker);
    assert_eq!(breaker.check("https://r.test", start()), None);
}

#[test]
fn authorities_are_normalized() {
    assert_eq!(
        authority_of("HTTPS://API.Example.COM:443/x"),
        Some("https://api.example.com".into())
    );
    assert_eq!(authority_of("not a url"), None);
    assert_eq!(authority_of("mailto:someone@example.com"), None);
    assert_eq!(
        authority_of("unix://2f746d70/path"),
        Some("unix://2f746d70".into())
    );
}

#[test]
fn authorities_come_from_the_parts() {
    assert_eq!(authority_from(None), None);
    assert_eq!(
        authority_from(Some(UrlParts {
            scheme: "https".into(),
            host: None,
            port: Some(1),
        })),
        None
    );
    assert_eq!(
        authority_from(Some(UrlParts {
            scheme: "https".into(),
            host: Some("h".into()),
            port: Some(65535),
        })),
        Some("https://h:65535".into())
    );
}

#[test]
fn a_url_without_authority_arms_nothing() {
    let mut breaker = RateLimitBreaker::new();
    note_rate_limited(&mut breaker, "not a url", None, start());
    assert_eq!(breaker.check("not a url", start()), None);
}

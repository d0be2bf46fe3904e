use omnifs_sdk::cx::{CalloutTask, Cx, Polled};
use omnifs_sdk::endpoint::{
    json_decoded, BlobHandle, Endpoint, RateLimitPolicy, Revalidate,
};
use omnifs_sdk::blob::{BlobId, BlobRef};
use omnifs_sdk::error::{ProviderErrorKind, Result};
use omnifs_sdk::fetch::Response;
use omnifs_sdk::file_attrs::VersionToken;
use omnifs_sdk::object::Load;
use omnifs_sdk::rate_limit::RateLimitBreaker;
use omnifs_sdk::time::Duration;
use omnifs_sdk::wire::{Callout, CalloutResult, Header, HttpResponse};

struct TestEp;

impl Endpoint for TestEp {
    fn base() -> &'static str {
        "https://breaker.test"
    }

    fn default_headers() -> Vec<(&'static str, &'static str)> {
        vec![("User-Agent", "omnifs"), ("accept", "text/plain")]
    }

    fn rate_limit_policy() -> RateLimitPolicy {
        RateLimitPolicy::Default
    }
}

struct TestEpOff;

impl Endpoint for TestEpOff {
    fn base() -> &'static str {
        "https://off-policy.test"
    }

    fn default_headers() -> Vec<(&'static str, &'static str)> {
        Vec::new()
    }

    fn rate_limit_policy() -> RateLimitPolicy {
        RateLimitPolicy::Off
    }
}

struct TestEpCooldown;

impl Endpoint for TestEpCooldown {
    fn base() -> &'static str {
        "https://cooldown-policy.test"
    }

    fn default_headers() -> Vec<(&'static str, &'static str)> {
        Vec::new()
    }

    fn rate_limit_policy() -> RateLimitPolicy {
        RateLimitPolicy::Cooldown(Duration::from_secs(45))
    }
}

fn now() -> Duration {
    Duration::from_secs(100)
}

fn wire_response(status: u16, headers: &[(&str, &str)], body: &[u8]) -> HttpResponse {
    HttpResponse {
        status,
        headers: headers
            .iter()
            .map(|(name, value)| Header {
                name: (*name).to_string(),
                value: (*value).to_string(),
            })
            .collect(),
        body: body.to_vec(),
    }
}

fn reply(status: u16, headers: &[(&str, &str)], body: &[u8]) -> Response {
    Response::from_wire(wire_response(status, headers, body)).unwrap()
}

fn deliver_response<S>(cx: &mut Cx<S>, status: u16, headers: &[(&str, &str)]) {
    cx.erase_state()
        .push_delivered(CalloutResult::HttpResponse(wire_response(
            status,
            headers,
            b"",
        )));
}

fn number(body: &[u8]) -> Result<u64> {
    json_decoded(serde_json::from_slice::<u64>(body).map_err(|error| error.to_string()))
}

#[test]
fn open_endpoint_breaker_fast_fails_without_callout() {
    let mut breaker = RateLimitBreaker::new();
    breaker.record_429("https://breaker.test", Some(Duration::from_secs(30)), now());

    let mut cx = Cx::new(1, ());
    let (_exchange, mut fut) = cx
        .endpoint::<TestEp>()
        .get("/x".to_string())
        .start(&mut breaker, now())
        .unwrap();

    let Polled::Ready(Err(error)) = fut.poll(cx.erase_state()) else {
        panic!("expected open breaker to fail immediately");
    };

    assert_eq!(error.kind(), ProviderErrorKind::RateLimited);
    assert!(
        cx.erase_state().take_yielded_callouts().is_empty(),
        "open breaker must not issue a fetch callout"
    );
}

#[test]
fn endpoint_off_policy_does_not_arm() {
    let mut breaker = RateLimitBreaker::new();

    let mut cx = Cx::new(1, ());
    let (exchange, mut fut) = cx
        .endpoint::<TestEpOff>()
        .get("/x".to_string())
        .start(&mut breaker, now())
        .unwrap();

    assert!(matches!(fut.poll(cx.erase_state()), Polled::Pending));
    assert_eq!(cx.erase_state().take_yielded_callouts().len(), 1);
    deliver_response(&mut cx, 429, &[]);

    let Polled::Ready(Ok(resp)) = fut.poll(cx.erase_state()) else {
        panic!("expected the response");
    };
    let Err(error) = exchange.send_checked(resp, &mut breaker, now()) else {
        panic!("expected 429 response to surface as an error");
    };

    assert_eq!(error.kind(), ProviderErrorKind::RateLimited);
    assert_eq!(breaker.check("https://off-policy.test", now()), None);
}

#[test]
fn endpoint_cooldown_policy_overrides_default() {
    let mut breaker = RateLimitBreaker::new();

    let mut cx = Cx::new(1, ());
    let (exchange, mut fut) = cx
        .endpoint::<TestEpCooldown>()
        .get("/x".to_string())
        .start(&mut breaker, now())
        .unwrap();

    assert!(matches!(fut.poll(cx.erase_state()), Polled::Pending));
    assert_eq!(cx.erase_state().take_yielded_callouts().len(), 1);
    deliver_response(&mut cx, 429, &[]);

    let Polled::Ready(Ok(resp)) = fut.poll(cx.erase_state()) else {
        panic!("expected the response");
    };
    let Err(error) = exchange.send_checked(resp, &mut breaker, now()) else {
        panic!("expected 429 response to surface as an error");
    };

    assert_eq!(error.kind(), ProviderErrorKind::RateLimited);
    let remaining = breaker
        .check("https://cooldown-policy.test", now())
        .expect("breaker should be open");
    assert!(remaining <= Duration::from_secs(45));
    assert!(remaining > Duration::from_secs(30));
}

#[test]
fn requests_carry_query_headers_body_and_validator() {
    let mut breaker = RateLimitBreaker::new();
    let mut cx = Cx::new(1, ());
    let token = VersionToken::new("\"etag\"");
    let (_exchange, mut fut) = cx
        .endpoint::<TestEp>()
        .post("items".to_string())
        .query("q", "a b")
        .query("page", "2")
        .header("Accept", "application/json")
        .body_json(Ok(b"{}".to_vec()))
        .maybe_if_none_match(Some(&token))
        .start(&mut breaker, now())
        .unwrap();
    assert!(matches!(fut.poll(cx.erase_state()), Polled::Pending));
    let mut yielded = cx.erase_state().take_yielded_callouts();
    let Callout::Fetch(req) = yielded.remove(0) else {
        panic!("expected a fetch");
    };
    assert_eq!(req.method, "POST");
    assert_eq!(req.url, "https://breaker.test/items?q=a+b&page=2");
    assert_eq!(req.body, Some(b"{}".to_vec()));
    let mut lines: Vec<(&str, &str)> = req
        .headers
        .iter()
        .map(|h| (h.name.as_str(), h.value.as_str()))
        .collect();
    lines.sort();
    assert_eq!(
        lines,
        vec![
            ("accept", "application/json"),
            ("content-type", "application/json"),
            ("if-none-match", "\"etag\""),
            ("user-agent", "omnifs"),
        ]
    );
}

#[test]
fn builder_errors_surface_before_any_callout() {
    let mut breaker = RateLimitBreaker::new();
    let cx = Cx::new(1, ());
    let Err(error) = cx
        .endpoint::<TestEp>()
        .post("/items".to_string())
        .body_json(Err("no encoding".to_string()))
        .header("bad name", "v")
        .start(&mut breaker, now())
    else {
        panic!("expected the first builder error");
    };
    assert_eq!(error.kind(), ProviderErrorKind::InvalidInput);
    assert!(error.message().contains("no encoding"));
}

fn exchange() -> omnifs_sdk::endpoint::Exchange<TestEp> {
    let mut breaker = RateLimitBreaker::new();
    let cx = Cx::new(1, ());
    cx.endpoint::<TestEp>()
        .get("/x".to_string())
        .start(&mut breaker, now())
        .unwrap()
        .0
}

#[test]
fn load_with_maps_statuses() {
    let mut breaker = RateLimitBreaker::new();
    let fresh = exchange()
        .load_with(
            reply(200, &[("etag", "\"v\"")], b"42"),
            number,
            &mut breaker,
            now(),
        )
        .unwrap();
    let Load::Fresh { value, canonical } = fresh else {
        panic!("expected a fresh object");
    };
    assert_eq!(value, 42);
    assert_eq!(canonical.bytes, b"42".to_vec());
    assert_eq!(canonical.validator, Some(VersionToken::new("\"v\"")));

    let gone = exchange().load_with(reply(404, &[], b""), number, &mut breaker, now());
    assert!(matches!(gone, Ok(Load::NotFound)));
    let same = exchange().load_with(reply(304, &[], b""), number, &mut breaker, now());
    assert!(matches!(same, Ok(Load::Unchanged)));
    let Err(error) = exchange().load_with(reply(503, &[], b""), number, &mut breaker, now()) else {
        panic!("expected an error");
    };
    assert_eq!(error.kind(), ProviderErrorKind::Network);
    let Err(error) = exchange().load_with(reply(200, &[], b"x"), number, &mut breaker, now()) else {
        panic!("expected a decoding error");
    };
    assert_eq!(error.kind(), ProviderErrorKind::InvalidInput);
}

#[test]
fn structural_terminals_parse_the_body() {
    let mut breaker = RateLimitBreaker::new();
    assert_eq!(
        exchange()
            .json(reply(200, &[], b"7"), number, &mut breaker, now())
            .unwrap(),
        7
    );
    let fresh = exchange()
        .conditional_json(
            reply(200, &[("ETag", "w")], b"9"),
            number,
            &mut breaker,
            now(),
        )
        .unwrap();
    let Revalidate::Fresh { value, validator } = fresh else {
        panic!("expected a fresh value");
    };
    assert_eq!((value, validator), (9, Some(VersionToken::new("w"))));
    assert!(matches!(
        exchange().conditional_json(reply(304, &[], b""), number, &mut breaker, now()),
        Ok(Revalidate::Unchanged)
    ));
    let checked = exchange()
        .send_checked(reply(204, &[("x-a", "1")], b"z"), &mut breaker, now())
        .unwrap();
    assert_eq!(checked.status(), 204);
    assert_eq!(checked.header("X-A"), Some("1".to_string()));
    assert_eq!(checked.body(), b"z");
}

#[test]
fn a_success_closes_the_authority_and_an_error_leaves_it() {
    let mut breaker = RateLimitBreaker::new();
    let throttled = exchange().send_checked(
        reply(429, &[("Retry-After", "20")], b""),
        &mut breaker,
        now(),
    );
    assert!(throttled.is_err());
    assert_eq!(
        breaker.check("https://breaker.test", now()),
        Some(Duration::from_secs(20))
    );
    exchange().settle(&reply(500, &[], b""), &mut breaker, now());
    assert_eq!(
        breaker.check("https://breaker.test", now()),
        Some(Duration::from_secs(20))
    );
    exchange().settle(&reply(200, &[], b""), &mut breaker, now());
    assert_eq!(breaker.check("https://breaker.test", now()), None);
}

#[test]
fn blob_builders_send_the_keyed_request() {
    let mut breaker = RateLimitBreaker::new();
    let mut cx = Cx::new(1, ());
    let mut fut = cx
        .endpoint::<TestEp>()
        .get("/file".to_string())
        .accept("image/png")
        .into_blob()
        .cache_key("file:1".to_string())
        .start(&mut breaker, now())
        .unwrap();
    assert!(matches!(fut.poll(cx.erase_state()), Polled::Pending));
    let mut yielded = cx.erase_state().take_yielded_callouts();
    let Callout::FetchBlob(req) = yielded.remove(0) else {
        panic!("expected a blob fetch");
    };
    assert_eq!(req.cache_key, "file:1");
    assert_eq!(req.url, "https://breaker.test/file");

    let blob = |status: u16| BlobRef {
        id: BlobId(5),
        size: 10,
        content_type: None,
        etag: None,
        status,
        response_headers: Vec::new(),
    };
    assert_eq!(
        BlobHandle::from_reply(blob(200)).unwrap(),
        BlobHandle {
            id: BlobId(5),
            size: 10
        }
    );
    assert_eq!(
        BlobHandle::from_reply(blob(404)).unwrap_err().kind(),
        ProviderErrorKind::NotFound
    );
}

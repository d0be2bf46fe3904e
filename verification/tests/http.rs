use omnifs_sdk::cx::{CalloutTask, Cx, Polled};
use omnifs_sdk::error::ProviderErrorKind;
use omnifs_sdk::fetch::{CalloutFuture, FetchReply, Method, Response, ResponseExt};
use omnifs_sdk::http_endpoint::HttpEndpoint;
use omnifs_sdk::rate_limit::RateLimitBreaker;
use omnifs_sdk::time::Duration;
use omnifs_sdk::wire::{
    BlobFetchRequest, Callout, CalloutError, CalloutResult, ErrorKind, Header, HttpRequest,
    HttpResponse,
};

fn now() -> Duration {
    Duration::from_secs(100)
}

fn take_single_fetch<S>(cx: &mut Cx<S>) -> HttpRequest {
    let mut yielded = cx.erase_state().take_yielded_callouts();
    assert_eq!(yielded.len(), 1, "expected exactly one yielded callout");
    match yielded.remove(0) {
        Callout::Fetch(req) => req,
        _ => panic!("expected Callout::Fetch"),
    }
}

fn take_single_blob<S>(cx: &mut Cx<S>) -> BlobFetchRequest {
    let mut yielded = cx.erase_state().take_yielded_callouts();
    assert_eq!(yielded.len(), 1);
    match yielded.remove(0) {
        Callout::FetchBlob(req) => req,
        _ => panic!("expected Callout::FetchBlob"),
    }
}

fn response(status: u16, headers: &[(&str, &str)], body: &[u8]) -> HttpResponse {
    HttpResponse {
        status,
        headers: headers
            .iter()
            .map(|(name, value)| Header {
                name: name.to_string(),
                value: value.to_string(),
            })
            .collect(),
        body: body.to_vec(),
    }
}

fn pairs(headers: &[Header]) -> Vec<(&str, &str)> {
    headers
        .iter()
        .map(|h| (h.name.as_str(), h.value.as_str()))
        .collect()
}

fn encoded(value: &serde_json::Value) -> Result<Vec<u8>, String> {
    serde_json::to_vec(value).map_err(|error| error.to_string())
}

#[test]
fn json_serializes_value_and_sets_content_type_exactly_once() {
    let mut breaker = RateLimitBreaker::new();
    let mut cx = Cx::new(1, ());

    let payload = {
        let name = serde_json::to_string("alice").unwrap();
        let count = serde_json::to_string(&3u32).unwrap();
        format!("{{\"name\":{name},\"count\":{count}}}").into_bytes()
    };
    let mut fut = cx
        .http()
        .post("https://example.test/api".to_string())
        .json(Ok(payload))
        .send(&mut breaker, now());
    assert!(matches!(fut.poll(cx.erase_state()), Polled::Pending));

    let req = take_single_fetch(&mut cx);
    assert_eq!(req.method, "POST");
    let body = req.body.expect("json() must set a body");
    assert_eq!(body, br#"{"name":"alice","count":3}"#.to_vec());

    let ct_headers: Vec<&Header> = req
        .headers
        .iter()
        .filter(|h| h.name.eq_ignore_ascii_case("content-type"))
        .collect();
    assert_eq!(ct_headers.len(), 1, "Content-Type must be set exactly once");
    assert_eq!(ct_headers[0].value, "application/json");
}

#[test]
fn json_respects_caller_set_content_type() {
    let mut breaker = RateLimitBreaker::new();
    let mut cx = Cx::new(1, ());

    let mut map = serde_json::Map::new();
    map.insert("k".to_string(), serde_json::Value::from("v"));
    let mut fut = cx
        .http()
        .post("https://example.test/api".to_string())
        .header("content-type", "application/vnd.custom+json")
        .json(encoded(&serde_json::Value::Object(map)))
        .send(&mut breaker, now());
    assert!(matches!(fut.poll(cx.erase_state()), Polled::Pending));

    let req = take_single_fetch(&mut cx);
    let ct_headers: Vec<&Header> = req
        .headers
        .iter()
        .filter(|h| h.name.eq_ignore_ascii_case("content-type"))
        .collect();
    assert_eq!(ct_headers.len(), 1, "Content-Type must not be duplicated");
    assert_eq!(ct_headers[0].value, "application/vnd.custom+json");
}

#[test]
fn invalid_header_name_surfaces_at_send() {
    let mut breaker = RateLimitBreaker::new();
    let mut cx = Cx::new(1, ());

    let mut fut = cx
        .http()
        .get("https://example.test/api".to_string())
        .header("invalid name with space", "v")
        .send(&mut breaker, now());

    match fut.poll(cx.erase_state()) {
        Polled::Ready(Err(_)) => {}
        _ => panic!("expected immediate error"),
    }
    assert!(
        cx.erase_state().take_yielded_callouts().is_empty(),
        "no callout should be issued when builder failed"
    );
}

#[test]
fn first_sticky_error_wins() {
    let mut breaker = RateLimitBreaker::new();
    let mut cx = Cx::new(1, ());

    let mut fut = cx
        .http()
        .post("https://example.test/api".to_string())
        .header("invalid name with space", "v")
        .header("X-Bad", "value\nwith newline")
        .send(&mut breaker, now());

    let Polled::Ready(Err(error)) = fut.poll(cx.erase_state()) else {
        panic!("expected immediate error");
    };
    assert_eq!(error.kind(), ProviderErrorKind::InvalidInput);
    assert!(
        error.to_string().contains("invalid header name"),
        "expected first failure (header name), got {}",
        error.to_string()
    );
}

#[test]
fn raw_http_send_fast_fails_when_breaker_open() {
    let mut breaker = RateLimitBreaker::new();
    breaker.record_429("https://raw.test", Some(Duration::from_secs(30)), now());

    let mut cx = Cx::new(1, ());
    let mut fut = cx
        .http()
        .get("https://raw.test/x".to_string())
        .send(&mut breaker, now());

    let Polled::Ready(Err(error)) = fut.poll(cx.erase_state()) else {
        panic!("expected open breaker to fail immediately");
    };

    assert_eq!(error.kind(), ProviderErrorKind::RateLimited);
    assert!(
        cx.erase_state().take_yielded_callouts().is_empty(),
        "open breaker must not issue a fetch callout"
    );
    assert_eq!(error.retry_after(), Some(Duration::from_secs(30)));
}

#[test]
fn response_ext_maps_429_to_retryable_rate_limit() {
    let resp =
        Response::from_wire(response(429, &[("retry-after", "3")], b"")).expect("response builder");

    let error = resp.error_for_status_ref().unwrap_err();

    assert_eq!(error.kind(), ProviderErrorKind::RateLimited);
    assert!(error.is_retryable());
    assert_eq!(error.message(), "HTTP 429; retry_after=3");
    assert_eq!(error.retry_after(), Some(Duration::from_secs(3)));
}

#[test]
fn rate_limit_without_retry_after_has_no_structured_hint() {
    let resp = Response::from_wire(response(429, &[], b"")).expect("response builder");

    let error = resp.error_for_status_ref().unwrap_err();

    assert_eq!(error.kind(), ProviderErrorKind::RateLimited);
    assert_eq!(error.retry_after(), None);
}

#[test]
fn unix_endpoint_hex_encodes_socket_in_host_segment() {
    let ep = HttpEndpoint::parse("unix:///var/run/docker.sock");
    let url = ep.build_url("/v1.43/containers/json", &[("all", "true")]);
    assert!(
        url.starts_with("unix://"),
        "url should keep unix scheme: {url}"
    );
    let after = &url["unix://".len()..];
    let (host, rest) = after.split_once('/').expect("host and path");
    let path_bytes = hex::decode(host).expect("unix URL host must be hex-decodable");
    let path = String::from_utf8(path_bytes).expect("socket path should be UTF-8");
    assert_eq!(path, "/var/run/docker.sock");
    assert_eq!(rest, "v1.43/containers/json?all=true");
}

#[test]
fn tcp_endpoint_joins_base_path_and_query() {
    let ep = HttpEndpoint::parse("https://api.example.com//");
    assert_eq!(ep.build_url("/a", &[]), "https://api.example.com/a");
    assert_eq!(ep.build_url("a", &[]), "https://api.example.com/a");
    assert_eq!(
        ep.build_url("/s", &[("q", "a b&c=d"), ("x", "~*-._\u{e9}")]),
        "https://api.example.com/s?q=a+b%26c%3Dd&x=%7E*-._%C3%A9"
    );
    assert_eq!(
        HttpEndpoint::parse("unix:///ab").build_url("x", &[("k", "")]),
        "unix://2f6162/x?k="
    );
}

#[test]
fn only_absolute_socket_paths_are_unix_endpoints() {
    assert_eq!(
        HttpEndpoint::parse("unix:///var/run/docker.sock"),
        HttpEndpoint::Unix("/var/run/docker.sock".to_string())
    );
    assert_eq!(
        HttpEndpoint::parse("https://api.example.com"),
        HttpEndpoint::Tcp("https://api.example.com".to_string())
    );
    for text in ["unix://run/docker.sock", "unix://", "unix:/run/docker.sock", ""] {
        assert_eq!(
            HttpEndpoint::parse(text),
            HttpEndpoint::Tcp(text.to_string())
        );
    }
    assert_eq!(
        HttpEndpoint::parse("unix://run/docker.sock").build_url("/v1", &[]),
        "unix://run/docker.sock/v1"
    );
}

#[test]
fn header_names_are_lowered_and_repeated_values_kept() {
    let mut breaker = RateLimitBreaker::new();
    let mut cx = Cx::new(1, ());
    let mut fut = cx
        .http()
        .get("https://example.test/api".to_string())
        .header("X-One", "1")
        .header("x-two", "2")
        .header("x-oNe", "3")
        .body(b"raw".to_vec())
        .send(&mut breaker, now());
    assert!(matches!(fut.poll(cx.erase_state()), Polled::Pending));
    let req = take_single_fetch(&mut cx);
    assert_eq!(req.method, Method::Get.as_str());
    assert_eq!(req.url, "https://example.test/api");
    assert_eq!(req.body, Some(b"raw".to_vec()));
    let mut lines = pairs(&req.headers);
    lines.sort();
    assert_eq!(lines, vec![("x-one", "1"), ("x-one", "3"), ("x-two", "2")]);
}

#[test]
fn an_invalid_header_value_is_reported() {
    let mut breaker = RateLimitBreaker::new();
    let mut cx = Cx::new(1, ());
    let mut fut = cx
        .http()
        .get("https://example.test/".to_string())
        .header("x-bad", "a\nb")
        .send(&mut breaker, now());
    let Polled::Ready(Err(error)) = fut.poll(cx.erase_state()) else {
        panic!("expected immediate error");
    };
    assert_eq!(error.kind(), ProviderErrorKind::InvalidInput);
    assert!(error.message().starts_with("invalid header value"));
}

#[test]
fn a_failed_encoding_is_sticky() {
    let mut breaker = RateLimitBreaker::new();
    let mut cx = Cx::new(1, ());
    let mut fut = cx
        .http()
        .post("https://example.test/".to_string())
        .json(Err("boom".to_string()))
        .header("invalid name with space", "v")
        .send(&mut breaker, now());
    let Polled::Ready(Err(error)) = fut.poll(cx.erase_state()) else {
        panic!("expected immediate error");
    };
    assert!(error.message().contains("boom"));
}

#[test]
fn responses_are_read_from_the_wire() {
    let resp = Response::from_wire(response(
        201,
        &[("ETag", "\"v1\""), ("x-a", "1"), ("X-A", "2")],
        b"body",
    ))
    .unwrap();
    assert_eq!(resp.status(), 201);
    assert_eq!(resp.header("etag"), Some("\"v1\"".to_string()));
    assert_eq!(resp.header("X-a"), Some("1".to_string()));
    assert_eq!(resp.header("missing"), None);
    assert_eq!(resp.body(), b"body");
    let resp = resp.error_for_status().unwrap();
    assert_eq!(resp.into_body(), b"body".to_vec());
}

#[test]
fn malformed_statuses_are_internal_errors() {
    for status in [0, 99, 1000, u16::MAX] {
        let Err(error) = Response::from_wire(response(status, &[], b"")) else {
            panic!("expected a rejected response");
        };
        assert_eq!(error.kind(), ProviderErrorKind::Internal);
        assert_eq!(
            error.message(),
            "invalid response status: invalid status code"
        );
    }
    assert!(Response::from_wire(response(100, &[], b"")).is_ok());
    assert!(Response::from_wire(response(999, &[], b"")).is_ok());
}

#[test]
fn malformed_response_headers_are_dropped() {
    let resp = Response::from_wire(response(
        200,
        &[("bad name", "v"), ("name", "bad\nvalue"), ("name", "good")],
        b"",
    ))
    .unwrap();
    assert_eq!(resp.header("name"), Some("good".to_string()));
}

#[test]
fn statuses_map_to_errors() {
    for (status, kind) in [
        (400, ProviderErrorKind::InvalidInput),
        (401, ProviderErrorKind::PermissionDenied),
        (403, ProviderErrorKind::Denied),
        (404, ProviderErrorKind::NotFound),
        (408, ProviderErrorKind::Timeout),
        (418, ProviderErrorKind::InvalidInput),
        (429, ProviderErrorKind::RateLimited),
        (500, ProviderErrorKind::Network),
        (599, ProviderErrorKind::Network),
    ] {
        let error = Response::from_wire(response(status, &[], b""))
            .unwrap()
            .error_for_status_ref()
            .unwrap_err();
        assert_eq!(error.kind(), kind, "{status}");
    }
    for status in [399, 600] {
        let fine = Response::from_wire(response(status, &[], b"")).unwrap();
        assert!(fine.error_for_status_ref().is_ok());
    }
}

#[test]
fn callouts_resolve_to_their_replies() {
    let mut breaker = RateLimitBreaker::new();
    let mut cx = Cx::new(1, ());
    let mut sent = cx
        .http()
        .get("https://example.test/".to_string())
        .send(&mut breaker, now());
    assert!(matches!(sent.poll(cx.erase_state()), Polled::Pending));
    cx.erase_state()
        .push_delivered(CalloutResult::CalloutError(CalloutError {
            kind: ErrorKind::Timeout,
            message: "slow".to_string(),
            retryable: true,
        }));
    let Polled::Ready(Err(error)) = sent.poll(cx.erase_state()) else {
        panic!("expected the callout error");
    };
    assert_eq!(error.kind(), ProviderErrorKind::Timeout);
    assert_eq!(error.message(), "callout error: slow");

    let mut sent: CalloutFuture<Response, FetchReply> = cx
        .http()
        .get("https://example.test/".to_string())
        .send(&mut breaker, now());
    assert!(matches!(sent.poll(cx.erase_state()), Polled::Pending));
    cx.erase_state()
        .push_delivered(CalloutResult::BlobRead(Vec::new()));
    let Polled::Ready(Err(error)) = sent.poll(cx.erase_state()) else {
        panic!("expected a mismatch");
    };
    assert_eq!(error.kind(), ProviderErrorKind::Internal);
}

#[test]
fn blob_requests_need_a_cache_key() {
    let mut breaker = RateLimitBreaker::new();
    let mut cx = Cx::new(1, ());
    let mut unkeyed = cx
        .http()
        .get("https://blob.test/f".to_string())
        .into_blob()
        .send(&mut breaker, now());
    let Polled::Ready(Err(error)) = unkeyed.poll(cx.erase_state()) else {
        panic!("expected a missing key");
    };
    assert_eq!(error.kind(), ProviderErrorKind::InvalidInput);

    let mut keyed = cx
        .http()
        .get("https://blob.test/f".to_string())
        .into_blob()
        .header("Accept", "*/*")
        .body(b"b".to_vec())
        .with_cache_key("k1".to_string())
        .send(&mut breaker, now());
    assert!(matches!(keyed.poll(cx.erase_state()), Polled::Pending));
    let req = take_single_blob(&mut cx);
    assert_eq!(req.cache_key, "k1");
    assert_eq!(req.url, "https://blob.test/f");
    assert_eq!(pairs(&req.headers), vec![("accept", "*/*")]);
    assert_eq!(req.body, Some(b"b".to_vec()));
}

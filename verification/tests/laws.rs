use omnifs_sdk::browse;
use omnifs_sdk::browse::Effects;
use omnifs_sdk::captures::{Capture, Captures, FromCaptures};
use omnifs_sdk::cx::{CalloutTask, Cx, Polled};
use omnifs_sdk::endpoint::{Endpoint, RateLimitPolicy};
use omnifs_sdk::error::{ProviderError, ProviderErrorKind, Result};
use omnifs_sdk::fetch::Response;
use omnifs_sdk::file_attrs::{FileProj, Stability};
use omnifs_sdk::handler::{MemoryRangeReader, RangeReader};
use omnifs_sdk::http_endpoint::HttpEndpoint;
use omnifs_sdk::object::{FacetAxis, FacetMetadata};
use omnifs_sdk::path::Path;
use omnifs_sdk::projection::{DirProjection, Entry};
use omnifs_sdk::rate_limit::RateLimitBreaker;
use omnifs_sdk::router::dispatch::list::ListStep;
use omnifs_sdk::router::dispatch::lookup::LookupStep;
use omnifs_sdk::router::facets::FacetExpansion;
use omnifs_sdk::router::handlers::{accept_validator, captures_validator};
use omnifs_sdk::router::pattern::Pattern;
use omnifs_sdk::router::projection::merge_entries;
use omnifs_sdk::router::register::Router;
use omnifs_sdk::time::Duration;
use omnifs_sdk::wire;

fn path(text: &str) -> Path {
    Path::parse(text).unwrap()
}

fn pattern(template: &str) -> Pattern {
    Pattern::parse(template).unwrap()
}

struct TwoFacets;

impl FacetMetadata for TwoFacets {
    fn facet_axes() -> Vec<FacetAxis> {
        vec![
            FacetAxis {
                capture_name: "state",
                choices: &["open", "all"],
            },
            FacetAxis {
                capture_name: "version",
                choices: &["1", "2", "3"],
            },
        ]
    }
}

struct NoChoice;

impl FacetMetadata for NoChoice {
    fn facet_axes() -> Vec<FacetAxis> {
        vec![FacetAxis {
            capture_name: "state",
            choices: &[],
        }]
    }
}

#[test]
fn facet_expansion_is_the_cross_product() {
    let route = pattern("/{owner}/{state}/v{version}");
    let expansion = FacetExpansion::for_pattern::<TwoFacets>(&route).unwrap();
    let paths = expansion
        .expand_view_leaves("/acme/open/v2/title")
        .unwrap();
    assert_eq!(
        paths,
        vec![
            "/acme/open/v1/title",
            "/acme/open/v2/title",
            "/acme/open/v3/title",
            "/acme/all/v1/title",
            "/acme/all/v2/title",
            "/acme/all/v3/title",
        ]
    );
    let leaf = pattern("/{owner}/{state}/v{version}/{leaf}");
    for written in &paths {
        let matched = leaf.match_path(&path(written)).unwrap();
        assert_eq!(matched.get("owner"), Some("acme"));
        assert_eq!(matched.get("leaf"), Some("title"));
    }
}

#[test]
fn every_combination_occurs_and_aliases_expand_alike() {
    let route = pattern("/{owner}/{state}/v{version}");
    let expansion = FacetExpansion::for_pattern::<TwoFacets>(&route).unwrap();
    let all = expansion
        .expand_view_leaves("/acme/elsewhere/v9/title")
        .unwrap();
    assert_eq!(all.len(), 6);
    for state in ["open", "all"] {
        for version in ["1", "2", "3"] {
            assert!(all.contains(&format!("/acme/{state}/v{version}/title")));
        }
    }
    for alias in &all {
        assert_eq!(expansion.expand_view_leaves(alias).unwrap(), all);
    }
    assert_ne!(
        expansion.expand_view_leaves("/other/open/v1/title").unwrap(),
        all
    );
}

#[test]
fn static_siblings_are_merged_in_any_order() {
    let merged = merge_entries(
        &vec![Entry::file("m"), Entry::dir("b"), Entry::dir("m")],
        vec![
            browse::Entry::dir("z"),
            browse::Entry::dir("m"),
            browse::Entry::dir("a"),
            browse::Entry::dir("z"),
        ],
    );
    let shown: Vec<(&str, bool)> = merged
        .iter()
        .map(|e| (e.name(), e.kind() == browse::EntryKind::Directory))
        .collect();
    assert_eq!(
        shown,
        vec![("a", true), ("b", true), ("m", false), ("z", true)]
    );
    let twice = merge_entries(
        &vec![],
        vec![
            browse::Entry::dir("x"),
            browse::Entry::file("x", FileProj::listing_shape()),
        ],
    );
    assert_eq!(twice.len(), 1);
    assert_eq!(twice[0].kind(), browse::EntryKind::File);
}

#[test]
fn a_facet_without_choices_expands_to_the_path_itself() {
    let route = pattern("/{owner}/{state}");
    let expansion = FacetExpansion::for_pattern::<NoChoice>(&route).unwrap();
    assert_eq!(
        expansion.expand_view_leaves("/acme/open/x").unwrap(),
        vec!["/acme/open/x"]
    );
}

#[test]
fn a_path_without_the_facet_segment_is_an_internal_error() {
    let route = pattern("/{owner}/{state}/v{version}");
    let expansion = FacetExpansion::for_pattern::<TwoFacets>(&route).unwrap();
    let error = expansion.expand_view_leaves("/acme").unwrap_err();
    assert_eq!(error.kind(), ProviderErrorKind::Internal);
    assert_eq!(
        error.message(),
        "path \"/acme\" is missing facet segment at index 1"
    );
}

#[test]
fn templates_determine_patterns() {
    assert_eq!(pattern("/a/{b}/v{c}"), pattern("/a/{b}/v{c}"));
    assert_ne!(pattern("/a/{b}"), pattern("/a/{c}"));
    assert_ne!(pattern("/a/{*b}"), pattern("/a/{b}"));
}

#[test]
fn ambiguous_patterns_match_a_common_path() {
    let left = pattern("/{a}/x");
    let right = pattern("/y/{b}");
    assert!(left.is_ambiguous_with(&right) && right.is_ambiguous_with(&left));
    assert!(left.matches_path(&path("/y/x")) && right.matches_path(&path("/y/x")));
    assert!(!left.loses_to(&right) && !right.loses_to(&left));
}

#[test]
fn capture_values_render_back() {
    let route = pattern("/@{resolver}/{domain}");
    let matched = route.match_path(&path("/@google/example.com")).unwrap();
    let location = route.capture_location("resolver").unwrap();
    assert_eq!(
        location.render_segment(matched.get("resolver").unwrap()),
        "@google"
    );
    let moved = path("/@quad9/example.com");
    let matched = route.match_path(&moved).unwrap();
    assert_eq!(matched.get("resolver"), Some("quad9"));
    assert_eq!(matched.get("domain"), Some("example.com"));
}

#[test]
fn sealing_rejects_exactly_the_overlaps() {
    let mut legal = Router::<u8>::new();
    legal.dir("/{owner}").handler(1, accept_validator()).unwrap();
    legal.dir("/resolvers").handler(2, accept_validator()).unwrap();
    legal.file("/x/{*rest}").handler(3, accept_validator()).unwrap();
    legal.file("/x/{leaf}").handler(4, accept_validator()).unwrap();
    legal.seal().unwrap();
    legal.file("/{other}").handler(5, accept_validator()).unwrap();
    let error = legal.seal().unwrap_err();
    assert_eq!(error.kind(), ProviderErrorKind::InvalidInput);
}

struct Number;

impl FromCaptures for Number {
    fn from_captures(caps: &Captures) -> Result<Self> {
        caps.parse::<u64>("n").map(|_| Number)
    }

    fn validate_present_captures(caps: &Captures) -> bool {
        caps.parse_optional::<u64>("n").is_ok()
    }
}

#[test]
fn dispatch_takes_the_most_specific_route_that_accepts() {
    let mut router = Router::<&'static str>::new();
    router.file("/{*rest}").handler("rest", accept_validator()).unwrap();
    router.file("/{any}").handler("any", accept_validator()).unwrap();
    router.file("/v{n}").handler("number", captures_validator::<Number>()).unwrap();
    router.file("/v1").handler("one", accept_validator()).unwrap();
    let chosen = |at: &str| router.file_route(&path(at)).map(|r| r.entry.handler);
    assert_eq!(chosen("/v1"), Some("one"));
    assert_eq!(chosen("/v2"), Some("number"));
    assert_eq!(chosen("/vx"), Some("any"));
    assert_eq!(chosen("/a/b"), Some("rest"));
}

#[test]
fn the_first_route_of_a_name_decides_its_entry() {
    let mut router = Router::<u8>::new();
    router.file("/a").handler(1, accept_validator()).unwrap();
    router.dir("/a/b").handler(2, accept_validator()).unwrap();
    let entries = router.static_entries_for_parent(&Path::root());
    assert_eq!(entries.len(), 1);
    assert_eq!(
        entries[0].kind(),
        omnifs_sdk::browse::EntryKind::Directory,
        "directory routes contribute first"
    );
}

#[test]
fn literal_prefixes_need_no_handler() {
    let mut router = Router::<u8>::new();
    router.file("/a/b/{c}/d").handler(1, accept_validator()).unwrap();
    for (parent, name) in [("/", "a"), ("/a", "b")] {
        assert!(matches!(
            router.lookup_child(parent, name),
            Ok(LookupStep::Answered(found)) if found.is_found()
        ));
    }
    assert!(router.is_implicit_prefix_dir(&path("/a/b")));
    assert!(!router.is_implicit_prefix_dir(&path("/a/b/x")));
    assert!(router.has_capture_child_under(&path("/a/b")));
    for at in ["/", "/a", "/a/b"] {
        assert!(matches!(
            router.list_children(at, None, None),
            Ok(ListStep::Answered(_))
        ));
    }
}

#[test]
fn enumeration_order_does_not_change_a_listing() {
    let mut router = Router::<u8>::new();
    router.dir("/d").handler(1, accept_validator()).unwrap();
    router.file("/d/m").handler(2, accept_validator()).unwrap();
    let listed = |children: Vec<Entry>| {
        router
            .dir_projection_into_list(
                &path("/d"),
                &DirProjection::<MemoryRangeReader>::exhaustive(children),
            )
            .unwrap()
            .into_result_and_effects()
            .0
    };
    let one = listed(vec![Entry::file("z"), Entry::dir("a")]);
    let two = listed(vec![Entry::dir("a"), Entry::file("z")]);
    assert_eq!(one, two);
}

#[test]
fn wire_kinds_round_trip() {
    for kind in [
        wire::ErrorKind::NotFound,
        wire::ErrorKind::NotADirectory,
        wire::ErrorKind::NotAFile,
        wire::ErrorKind::PermissionDenied,
        wire::ErrorKind::Network,
        wire::ErrorKind::Timeout,
        wire::ErrorKind::Denied,
        wire::ErrorKind::RateLimited,
        wire::ErrorKind::InvalidInput,
        wire::ErrorKind::TooLarge,
        wire::ErrorKind::VersionMismatch,
        wire::ErrorKind::Internal,
    ] {
        let raised = ProviderError::from_callout_error(wire::CalloutError {
            kind,
            message: "m".to_string(),
            retryable: false,
        });
        assert_eq!(raised.message(), "callout error: m");
        assert_eq!(raised.into_wire().kind, kind);
    }
}

#[test]
fn retryable_statuses() {
    for status in 400..600 {
        let expected = status == 408 || status == 429 || status >= 500;
        assert_eq!(
            ProviderError::from_http_status(status).is_retryable(),
            expected,
            "{status}"
        );
    }
}

#[test]
fn staged_paths_are_normalized_once() {
    let mut effects = Effects::new();
    effects.project_dir("a/b").unwrap();
    let first = effects.into_wit().fs[0].path.clone();
    let mut effects = Effects::new();
    effects.project_dir(&first).unwrap();
    assert_eq!(effects.into_wit().fs[0].path, first);
}

#[test]
fn extended_effects_come_behind() {
    let file = || FileProj::inline(Vec::new(), Stability::Immutable, None);
    let mut left = Effects::new();
    left.project_file("/l", file()).unwrap();
    let mut right = Effects::new();
    right.project_file("/r", file()).unwrap();
    left.extend(right);
    let paths: Vec<String> = left.into_wit().fs.into_iter().map(|w| w.path).collect();
    assert_eq!(paths, vec!["/l", "/r"]);
}

#[test]
fn sockets_have_distinct_hosts() {
    let url = |socket: &str| HttpEndpoint::parse(socket).build_url("/", &[]);
    assert_eq!(url("unix:///a"), "unix://2f61/");
    assert_ne!(url("unix:///a"), url("unix:///b"));
    assert_ne!(url("unix:///ab"), url("unix:///a"));
}

#[test]
fn chunks_concatenate_to_the_content() {
    let content: Vec<u8> = (0..=255).collect();
    let reader = MemoryRangeReader::new(content.clone());
    let mut read: Vec<u8> = Vec::new();
    loop {
        let chunk = reader.read_chunk(read.len() as u64, 100).unwrap();
        read.extend(&chunk.content);
        if chunk.eof {
            break;
        }
    }
    assert_eq!(read, content);
}

struct Api;

impl Endpoint for Api {
    fn base() -> &'static str {
        "https://api.test"
    }

    fn default_headers() -> Vec<(&'static str, &'static str)> {
        Vec::new()
    }

    fn rate_limit_policy() -> RateLimitPolicy {
        RateLimitPolicy::Default
    }
}

fn reply(status: u16, headers: Vec<wire::Header>) -> Response {
    Response::from_wire(wire::HttpResponse {
        status,
        headers,
        body: Vec::new(),
    })
    .unwrap()
}

#[test]
fn a_throttled_authority_fails_fast_until_the_cooldown_is_over() {
    let mut breaker = RateLimitBreaker::new();
    let mut cx = Cx::new(1, ());
    let at = Duration::from_secs;
    let (exchange, _sent) = cx
        .endpoint::<Api>()
        .get("/a".to_string())
        .start(&mut breaker, at(10))
        .unwrap();
    exchange.settle(&reply(429, Vec::new()), &mut breaker, at(10));

    let mut early = cx
        .http()
        .get("https://api.test/b".to_string())
        .send(&mut breaker, at(12));
    let Polled::Ready(Err(error)) = early.poll(cx.erase_state()) else {
        panic!("expected a fast failure");
    };
    assert_eq!(error.kind(), ProviderErrorKind::RateLimited);
    assert_eq!(error.message(), "endpoint breaker open for https://api.test");
    assert_eq!(error.retry_after(), Some(at(3)));

    let mut elsewhere = cx
        .http()
        .get("https://other.test/b".to_string())
        .send(&mut breaker, at(12));
    assert!(matches!(elsewhere.poll(cx.erase_state()), Polled::Pending));
    let mut late = cx
        .http()
        .get("https://api.test/b".to_string())
        .send(&mut breaker, at(15));
    assert!(matches!(late.poll(cx.erase_state()), Polled::Pending));
}

#[test]
fn a_success_lets_sends_through_again() {
    let mut breaker = RateLimitBreaker::new();
    let mut cx = Cx::new(1, ());
    let at = Duration::from_secs;
    let (exchange, _sent) = cx
        .endpoint::<Api>()
        .get("/a".to_string())
        .start(&mut breaker, at(10))
        .unwrap();
    exchange.settle(&reply(429, Vec::new()), &mut breaker, at(10));
    exchange.settle(&reply(204, Vec::new()), &mut breaker, at(11));
    let mut sent = cx
        .http()
        .get("https://api.test/b".to_string())
        .send(&mut breaker, at(11));
    assert!(matches!(sent.poll(cx.erase_state()), Polled::Pending));
}

#[test]
fn captures_keep_template_order() {
    let caps = Captures::from_match(&pattern("/{b}/{a}").match_path(&path("/1/2")).unwrap());
    assert_eq!(
        caps.items(),
        &[
            Capture {
                name: "b".to_string(),
                value: "1".to_string()
            },
            Capture {
                name: "a".to_string(),
                value: "2".to_string()
            },
        ]
    );
}

use omnifs_sdk::path::Path;
use omnifs_sdk::router::pattern::Pattern;

fn path(text: &str) -> Path {
    Path::parse(text).unwrap()
}

fn pattern(template: &str) -> Pattern {
    Pattern::parse(template).unwrap()
}

fn owned(segments: &[&str]) -> Vec<String> {
    segments.iter().map(|s| s.to_string()).collect()
}

#[test]
fn pattern_matches_and_prefers_literals() {
    let repo = Pattern::parse("/{owner}/{repo}").unwrap();
    let issue = Pattern::parse("/{owner}/{repo}/issues/open/{number}").unwrap();
    let resolver = Pattern::parse("/@{resolver}/{segment}").unwrap();
    let literal = Pattern::parse("/resolvers").unwrap();
    let capture = Pattern::parse("/{segment}").unwrap();
    let concrete = Path::parse("/openai/gvfs/issues/open/7").unwrap();

    assert_eq!(
        repo.concrete_path_for(&concrete),
        Some(Path::parse("/openai/gvfs").unwrap())
    );
    assert_eq!(
        issue.concrete_path_for(&Path::parse("/openai/gvfs/issues/open/7/comments/1").unwrap()),
        Some(Path::parse("/openai/gvfs/issues/open/7").unwrap())
    );
    assert_eq!(
        resolver.concrete_path_for(&Path::parse("/@google/example.com").unwrap()),
        Some(Path::parse("/@google/example.com").unwrap())
    );
    assert_eq!(
        resolver.concrete_path_for(&Path::parse("/@google").unwrap()),
        None
    );
    assert!(literal.specificity() > capture.specificity());
}

#[test]
fn match_path_decodes_captures() {
    let pattern = Pattern::parse("/@{resolver}/{segment}/{*tail}").unwrap();
    let matched = pattern
        .match_path(&Path::parse("/@google/example.com/a/b").unwrap())
        .unwrap();

    assert_eq!(matched.path().as_str(), "/@google/example.com/a/b");
    assert_eq!(matched.get("resolver"), Some("google"));
    assert_eq!(matched.get("segment"), Some("example.com"));
    assert_eq!(matched.get("tail"), Some("a/b"));
    assert_eq!(
        matched
            .captures()
            .iter()
            .map(|capture| (capture.name.as_str(), capture.value.as_str()))
            .collect::<Vec<_>>(),
        vec![
            ("resolver", "google"),
            ("segment", "example.com"),
            ("tail", "a/b")
        ]
    );
}

#[test]
fn capture_location_preserves_segment_prefix() {
    let pattern = Pattern::parse("/@{resolver}/{domain}/{record}").unwrap();
    let resolver = pattern.capture_location("resolver").unwrap();
    let domain = pattern.capture_location("domain").unwrap();

    assert_eq!(resolver.segment_index(), 0);
    assert_eq!(resolver.render_segment("google"), "@google");
    assert_eq!(domain.segment_index(), 1);
    assert_eq!(domain.render_segment("example.com"), "example.com");
    assert!(pattern.capture_location("missing").is_none());
}

#[test]
fn rest_capture_matches_zero_or_more_trailing_segments() {
    let pat = Pattern::parse("/ipfs/{cid}/{*path}").unwrap();
    assert!(pat.matches_path(&Path::parse("/ipfs/Qm123").unwrap()));
    assert!(pat.matches_path(&Path::parse("/ipfs/Qm123/a").unwrap()));
    assert!(pat.matches_path(&Path::parse("/ipfs/Qm123/a/b/c").unwrap()));
    assert!(!pat.matches_path(&Path::parse("/ipfs").unwrap()));
    assert!(!pat.matches_path(&Path::parse("/other/Qm123").unwrap()));

    assert_eq!(
        pat.rest_of(&Path::parse("/ipfs/Qm123").unwrap()),
        Some(String::new())
    );
    assert_eq!(
        pat.rest_of(&Path::parse("/ipfs/Qm123/a").unwrap()),
        Some("a".to_string())
    );
    assert_eq!(
        pat.rest_of(&Path::parse("/ipfs/Qm123/a/b/c").unwrap()),
        Some("a/b/c".to_string())
    );
}

#[test]
fn rest_capture_has_no_static_child_and_lowest_precedence() {
    let rest = Pattern::parse("/ipfs/{cid}/{*path}").unwrap();
    let bare = Pattern::parse("/ipfs/{cid}/{leaf}").unwrap();
    let prefix = Pattern::parse("/ipfs/{cid}/v{version}").unwrap();
    let exact = Pattern::parse("/ipfs/{cid}/versions").unwrap();

    assert!(rest.static_child().is_none());
    assert!(exact.precedence_key() > prefix.precedence_key());
    assert!(prefix.precedence_key() > bare.precedence_key());
    assert!(bare.precedence_key() > rest.precedence_key());
}

#[test]
fn rest_capture_ambiguity_rules() {
    let rest_a = Pattern::parse("/ipfs/{cid}/{*path}").unwrap();
    let rest_b = Pattern::parse("/ipfs/{cid}/{*tail}").unwrap();
    let bare = Pattern::parse("/ipfs/{cid}/{leaf}").unwrap();
    let exact = Pattern::parse("/ipfs/{cid}/versions").unwrap();
    let other_rest = Pattern::parse("/other/{id}/{*rest}").unwrap();

    assert!(rest_a.is_ambiguous_with(&rest_b));
    assert!(rest_b.is_ambiguous_with(&rest_a));
    assert!(!rest_a.is_ambiguous_with(&bare));
    assert!(!bare.is_ambiguous_with(&rest_a));
    assert!(!rest_a.is_ambiguous_with(&exact));
    assert!(!rest_a.is_ambiguous_with(&other_rest));
}

#[test]
fn parent_child_helpers_hide_segment_representation() {
    let pattern = Pattern::parse("/owners/{owner}/repos/settings").unwrap();
    let parent = owned(&["owners", "rust-lang", "repos"]);
    assert_eq!(
        pattern.literal_child_after(&parent),
        Some(("settings", false))
    );
    assert!(!pattern.has_dynamic_child_after(&parent));

    let dynamic = Pattern::parse("/owners/{owner}/repos/{repo}").unwrap();
    assert!(dynamic.has_dynamic_child_after(&parent));
    assert_eq!(dynamic.literal_child_after(&parent), None);
}

#[test]
fn malformed_templates_are_rejected() {
    for template in [
        "",
        "items",
        "/items/",
        "//items",
        "/items//x",
        "/{}",
        "/{*}",
        "/{*rest}/tail",
        "/a{b}c",
        "/{bad-name}",
        "/{1st}",
        "/}{",
    ] {
        assert!(Pattern::parse(template).is_err(), "{template:?}");
    }
}

#[test]
fn the_root_template_binds_the_root_alone() {
    let root = pattern("/");
    assert_eq!(root.pattern_len(), 0);
    assert!(root.matches_path(&Path::root()));
    assert!(!root.matches_path(&path("/a")));
}

#[test]
fn precedence_counts_fixed_then_literals_then_prefixes() {
    assert_eq!(pattern("/a/b").precedence_key(), (1, 2, 0, 2));
    assert_eq!(pattern("/a/v{b}/{c}").precedence_key(), (1, 1, 1, 3));
    assert_eq!(pattern("/a/{*rest}").precedence_key(), (0, 1, 0, 2));
    assert!(pattern("/a/{*rest}").loses_to(&pattern("/{x}")));
    assert!(!pattern("/{x}").loses_to(&pattern("/{y}")));
}

#[test]
fn equal_precedence_overlap_is_ambiguous() {
    assert!(pattern("/{a}/x").is_ambiguous_with(&pattern("/y/{b}")));
    assert!(pattern("/v{a}").is_ambiguous_with(&pattern("/ve{b}")));
    assert!(!pattern("/v{a}").is_ambiguous_with(&pattern("/w{b}")));
    assert!(!pattern("/a").is_ambiguous_with(&pattern("/{b}")));
}

#[test]
fn prefix_captures_need_a_value() {
    let pat = pattern("/v{version}");
    assert!(pat.matches_path(&path("/v1")));
    assert!(!pat.matches_path(&path("/v")));
    assert!(!pat.matches_path(&path("/w1")));
    let error = pat.match_path(&path("/v")).unwrap_err();
    assert!(!error.message().is_empty());
}

#[test]
fn strict_ancestors_and_children() {
    let pat = pattern("/owners/{owner}/repos");
    assert!(pat.accepts_as_strict_ancestor(&owned(&[])));
    assert!(pat.accepts_as_strict_ancestor(&owned(&["owners", "x"])));
    assert!(!pat.accepts_as_strict_ancestor(&owned(&["owners", "x", "repos"])));
    assert!(!pat.accepts_as_strict_ancestor(&owned(&["other"])));
    assert!(pat.matches_parent_path(&path("/owners/x")));
    assert!(!pat.matches_parent_path(&path("/owners")));
    assert_eq!(pat.static_child(), Some("repos"));
    assert_eq!(
        pat.literal_child_after(&owned(&[])),
        Some(("owners", true))
    );
    assert_eq!(pat.pattern_len(), 3);
    assert!(pat.matches_exact_path(&path("/owners/x/repos")));
    assert!(!pat.matches_exact_path(&path("/owners/x/repos/y")));
    assert!(!pat.has_rest());
    assert_eq!(pattern("/ipfs/{cid}/{*path}").fixed_prefix_len(), 2);
}

#[test]
fn match_prefix_binds_the_captures_of_a_prefix() {
    let pat = pattern("/{owner}/{repo}/issues");
    let matched = pat.match_prefix(&path("/acme/widgets")).unwrap();
    assert_eq!(matched.get("owner"), Some("acme"));
    assert_eq!(matched.get("repo"), Some("widgets"));
    assert_eq!(matched.get("issues"), None);
    assert!(pat.match_prefix(&path("/acme/widgets/pulls")).is_err());
    assert_eq!(matched.into_path().as_str(), "/acme/widgets");
}

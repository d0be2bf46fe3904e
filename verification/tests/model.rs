use omnifs_sdk::browse::{
    Effects, Entry, EntryKind, FileContent, List, Listing, Lookup, ReadOutcome,
};
use omnifs_sdk::blob::{BlobId, BlobRef};
use omnifs_sdk::captures::{find_capture, Capture, Captures, PathSegment};
use omnifs_sdk::content_type::ContentType;
use omnifs_sdk::error::{ProviderError, ProviderErrorKind};
use omnifs_sdk::file_attrs::{
    FileAttrs, FileProj, ProjBytes, ReadFileBytes, ReadMode, Size, Stability, VersionToken, MAX_PROJECTED_BYTES,
    MAX_VERSION_TOKEN_BYTES,
};
use omnifs_sdk::handler::{
    Cursor, DirCx, DirIntent, FileChunk, MemoryRangeReader, OpenedFile, RangeReader, TreeRef,
};
use omnifs_sdk::http_endpoint::HttpEndpoint;
use omnifs_sdk::identity::LogicalId;
use omnifs_sdk::object::{Load, ObjectKind};
use omnifs_sdk::path::{Path, Segment};
use omnifs_sdk::projection::{DirProjection, FileProjection, FileSource};
use omnifs_sdk::projection::Entry as Child;
use omnifs_sdk::router::pattern::Pattern;
use omnifs_sdk::text;
use omnifs_sdk::time::Duration;
use omnifs_sdk::wire;

type Memory = MemoryRangeReader;

fn note_id(id: &str) -> LogicalId {
    LogicalId::new(ObjectKind("demo.note"), vec![("id", id.to_string())])
}

#[test]
fn error_kinds_decide_retryability() {
    for (error, kind, retryable) in [
        (ProviderError::not_found("m"), ProviderErrorKind::NotFound, false),
        (ProviderError::not_a_directory("m"), ProviderErrorKind::NotADirectory, false),
        (ProviderError::not_a_file("m"), ProviderErrorKind::NotAFile, false),
        (ProviderError::permission_denied("m"), ProviderErrorKind::PermissionDenied, false),
        (ProviderError::network("m"), ProviderErrorKind::Network, true),
        (ProviderError::timeout("m"), ProviderErrorKind::Timeout, true),
        (ProviderError::denied("m"), ProviderErrorKind::Denied, false),
        (ProviderError::invalid_input("m"), ProviderErrorKind::InvalidInput, false),
        (ProviderError::too_large("m"), ProviderErrorKind::TooLarge, false),
        (ProviderError::rate_limited("m"), ProviderErrorKind::RateLimited, true),
        (ProviderError::version_mismatch("m"), ProviderErrorKind::VersionMismatch, false),
        (ProviderError::unimplemented("m"), ProviderErrorKind::Unimplemented, false),
        (ProviderError::internal("m"), ProviderErrorKind::Internal, false),
    ] {
        assert_eq!(error.kind(), kind);
        assert_eq!(error.is_retryable(), retryable);
        assert_eq!(error.message(), "m");
        assert_eq!(error.clone().into_wire().retryable, retryable);
    }
    assert_eq!(ProviderError::not_found("gone").to_string(), "[not-found; retryable=false] gone");
    assert_eq!(ProviderError::from_http_status(503).message(), "HTTP 503");
}

#[test]
fn errors_lower_their_kind_and_hint() {
    let lowered = ProviderError::rate_limited("slow down")
        .with_retry_after(Some(Duration::new(2, 1).unwrap()))
        .into_wire();
    assert_eq!(lowered.kind, wire::ErrorKind::RateLimited);
    assert_eq!(lowered.message, "slow down");
    assert_eq!(
        ProviderError::unimplemented("x").into_wire().kind,
        wire::ErrorKind::Internal
    );
    let raised = ProviderError::from_callout_error(wire::CalloutError {
        kind: wire::ErrorKind::TooLarge,
        message: "big".to_string(),
        retryable: false,
    });
    assert_eq!(raised.kind(), ProviderErrorKind::TooLarge);
}

#[test]
fn paths_round_trip() {
    let path = Path::parse("/a/b.c").unwrap();
    assert_eq!(path.as_str(), "/a/b.c");
    assert_eq!(path.name(), "b.c");
    assert_eq!(path.segments(), &["a".to_string(), "b.c".to_string()]);
    let (parent, name) = path.parent_and_name().unwrap();
    assert_eq!((parent.as_str(), name.as_str()), ("/a", "b.c"));
    assert!(parent.join(&name).unwrap().same(&path));
    assert!(Path::root().is_root());
    assert!(Path::root().parent_and_name().is_none());
    assert_eq!(
        Path::root().join_segment(&Segment::parse("x").unwrap()).as_str(),
        "/x"
    );
    for bad in ["", "a", "/a/", "//", "/a//b", "/./a", "/a/.."] {
        assert!(Path::parse(bad).is_err(), "{bad:?}");
    }
    assert!(Segment::parse("a/b").is_err());
    assert!(Segment::parse("").is_err());
}

#[test]
fn content_types_round_trip_their_mime() {
    for ct in [
        ContentType::Json,
        ContentType::Markdown,
        ContentType::Octet,
        ContentType::Atom,
    ] {
        assert_eq!(ContentType::from_mime(ct.as_mime()), Some(ct));
    }
    assert_eq!(ContentType::from_mime("text/html"), None);
    assert_eq!(ContentType::Markdown.extension(), Some("md"));
    assert_eq!(ContentType::Octet.leaf_extension(), "raw");
    assert_eq!(
        ContentType::Custom("a\"b").debug(),
        format!("{:?}", ContentType::Custom("a\"b"))
    );
}

#[test]
fn captures_parse_their_segments() {
    let caps = Captures::new(vec![
        Capture { name: "id".to_string(), value: "42".to_string() },
        Capture { name: "who".to_string(), value: "x\"y".to_string() },
    ]);
    assert_eq!(caps.len(), 2);
    assert_eq!(caps.nth(1), Some("x\"y"));
    assert_eq!(caps.parse::<u64>("id").unwrap(), 42);
    assert_eq!(caps.parse::<String>("who").unwrap(), "x\"y");
    assert_eq!(caps.parse_optional::<u64>("none").unwrap(), None);
    let error = caps.parse::<u64>("who").unwrap_err();
    assert_eq!(error.kind(), ProviderErrorKind::InvalidInput);
    assert!(error.message().contains("who"));
    assert!(caps.parse::<u64>("none").is_err());
    assert_eq!(find_capture(caps.items(), "id"), Some("42"));
    assert_eq!(42u64.to_segment(), "42");
    assert_eq!(u64::from_segment("042"), Some(42));
    assert!(Captures::default().is_empty());
    let pattern = Pattern::parse("/n/{id}").unwrap();
    assert_eq!(
        Captures::from_pattern_match(&pattern, "/n/9").get("id"),
        Some("9")
    );
    assert!(Captures::from_pattern_match(&pattern, "/m/9").is_empty());
}

#[test]
fn identities_compare_by_kind_and_captures() {
    let id = note_id("1");
    assert!(id.matches_wire(&id.to_wire()));
    assert!(!id.matches_wire(&note_id("2").to_wire()));
    assert_eq!(id.clone(), id);
}

#[test]
fn file_projections_are_validated() {
    let inline = FileProj::inline(b"abc".to_vec(), Stability::Mutable, None);
    assert!(inline.validate().is_ok());
    assert_eq!(inline.attrs.st_size(), 3);
    assert_eq!(inline.inline_bytes(), Some(b"abc".as_slice()));
    let big = FileProj::inline(vec![0; MAX_PROJECTED_BYTES + 1], Stability::Mutable, None);
    assert!(big.validate().is_err());
    let volatile = FileProj::deferred(Size::Unknown, ReadMode::Full, Stability::Volatile);
    assert!(volatile.validate().is_err());
    let ranged = FileProj::deferred(Size::Unknown, ReadMode::Ranged, Stability::Volatile);
    assert!(ranged.validate().is_ok());
    let long = "x".repeat(MAX_VERSION_TOKEN_BYTES + 1);
    assert!(VersionToken::new(&long).validate().is_err());
    assert!(FileAttrs::new(Size::Exact(1), Stability::Immutable)
        .with_version(VersionToken::new(&long))
        .validate()
        .is_err());
    assert!(VersionToken::from("v".to_string()).validate().is_ok());
}

#[test]
fn memory_readers_serve_chunks() {
    let reader = MemoryRangeReader::new(b"hello world".to_vec());
    let first = reader.read_chunk(0, 5).unwrap();
    assert_eq!((first.content.as_slice(), first.eof), (b"hello".as_slice(), false));
    let last = reader.read_chunk(5, 100).unwrap();
    assert_eq!((last.content.as_slice(), last.eof), (b" world".as_slice(), true));
    let past = reader.read_chunk(u64::MAX, u32::MAX).unwrap();
    assert_eq!((past.content.len(), past.eof), (0, true));
    let opened = OpenedFile::new(FileAttrs::new(Size::Exact(11), Stability::Mutable), reader);
    assert_eq!(opened.attrs.st_size(), 11);
    assert_eq!(TreeRef::new(4).tree_ref, 4);
}

#[test]
fn directory_contexts_expose_their_cursor() {
    let list = DirCx::new((), DirIntent::List { cursor: Some(Cursor::Page(4)) });
    assert_eq!(list.page_cursor(1), 4);
    assert_eq!(list.cursor(), Some(&Cursor::Page(4)));
    let opaque = DirCx::new((), DirIntent::List { cursor: Some(Cursor::Opaque("c".to_string())) });
    assert_eq!(opaque.page_cursor(1), 1);
    let lookup = DirCx::new(7u8, DirIntent::Lookup { child: "x".to_string() });
    assert_eq!(lookup.page_cursor(9), 9);
    assert_eq!(*lookup.cx(), 7);
}

#[test]
fn effects_accumulate_in_order() {
    let mut effects = Effects::new();
    assert!(effects.is_empty());
    effects.project_dir("/a").unwrap();
    effects
        .project_file("/a/f", FileProj::inline(b"x".to_vec(), Stability::Mutable, None))
        .unwrap();
    effects.invalidate_object(&note_id("1"));
    effects.invalidate_listing_path("/a");
    effects.invalidate_listing_prefix("/b");
    assert!(effects.project_dir("/a/../b").is_err());
    let mut more = Effects::new();
    more.project_dir_exhaustive("/c").unwrap();
    effects.extend(more);
    let wire = effects.into_wit();
    let written: Vec<&str> = wire.fs.iter().map(|w| w.path.as_str()).collect();
    assert_eq!(written, vec!["/a", "/a/f", "/c"]);
    assert!(matches!(wire.fs[2].kind, wire::FsKind::Directory(true)));
    assert_eq!(wire.invalidations.len(), 3);
}

#[test]
fn lookups_lower_to_the_wire() {
    let found = Lookup::entry(Entry::dir("d").with_id(note_id("1")))
        .with_siblings(vec![Entry::dir("e")])
        .exhaustive(true);
    assert!(found.is_found());
    let (result, effects) = found.into_result_and_effects();
    let wire::LookupChildResult::Entry(entry) = result else {
        panic!("expected an entry");
    };
    assert_eq!(entry.target.name, "d");
    assert!(entry.target.id.is_some());
    assert_eq!(entry.siblings.len(), 1);
    assert!(entry.exhaustive && effects.is_empty());
    let (result, _) = Lookup::not_found_id(note_id("2")).into_result_and_effects();
    assert!(matches!(result, wire::LookupChildResult::NotFound(Some(_))));
    let (result, _) = Lookup::subtree(9).into_result_and_effects();
    assert!(matches!(result, wire::LookupChildResult::Subtree(9)));
    let file = Lookup::file("f", b"z".to_vec());
    assert_eq!(file.target().map(|e| e.kind()), Some(EntryKind::File));
    assert!(!Lookup::not_found().is_found());
}

#[test]
fn listings_lower_to_the_wire() {
    let listing = Listing::partial(vec![Entry::dir("a")])
        .with_validator("v".to_string())
        .with_cursor(Cursor::Opaque("c".to_string()));
    let (result, _) = List::entries(listing).into_result_and_effects();
    let wire::ListChildrenResult::Entries(listing) = result else {
        panic!("expected entries");
    };
    assert!(!listing.exhaustive);
    assert_eq!(listing.validator, Some("v".to_string()));
    assert_eq!(listing.next_cursor, Some(Cursor::Opaque("c".to_string())));
    assert!(Listing::empty_complete().exhaustive());
    let (result, _) = List::unchanged().into_result_and_effects();
    assert!(matches!(result, wire::ListChildrenResult::Unchanged));
}

#[test]
fn file_contents_lower_to_the_wire() {
    let content = FileContent::new(b"abc".to_vec()).with_content_type(ContentType::Markdown);
    assert_eq!(content.attrs().st_size(), 3);
    let (outcome, _) = content.into_read_outcome_and_effects();
    let wire::ReadFileOutcome::Found(found) = outcome else {
        panic!("expected content");
    };
    assert_eq!(found.content_type, Some("text/markdown".to_string()));
    assert_eq!(found.bytes, wire::ByteSource::Inline(b"abc".to_vec()));
    assert_eq!(FileContent::blob(BlobId(3)).content(), None);
}

#[test]
fn projections_carry_their_preloads() {
    let file = FileProjection::<Memory>::inline(b"x".to_vec())
        .immutable()
        .preload_file(
            "/p/extra".to_string(),
            FileProjection::<Memory>::inline(b"y".to_vec()).build(),
        )
        .build();
    let effects = file.project_effects().unwrap().into_wit();
    assert_eq!(effects.fs.len(), 1);
    assert_eq!(effects.fs[0].path, "/p/extra");
    let deferred = FileProjection::<Memory>::deferred(Size::Exact(4)).full().build();
    assert!(deferred.into_browse_content().is_err());

    let dir = DirProjection::<Memory>::exhaustive(vec![Child::dir("sub")]).preload_dir(
        "/p/sub".to_string(),
        DirProjection::exhaustive(vec![Child::file("leaf").content_type(ContentType::Json)]),
    );
    let effects = dir.project_effects().unwrap().into_wit();
    assert!(effects.fs.iter().any(|w| w.path == "/p/sub"));
    let Some(listing) = dir.to_listing() else {
        panic!("expected a listing");
    };
    assert!(listing.exhaustive());
    assert!(DirProjection::<Memory>::unchanged().to_listing().is_none());
}

#[test]
fn durations_are_exact() {
    let d = Duration::new(1, 999_999_999).unwrap();
    assert!(Duration::new(1, 1_000_000_000).is_none());
    let sum = d.checked_sum(Duration::new(0, 2).unwrap()).unwrap();
    assert_eq!((sum.as_secs(), sum.subsec_nanos()), (2, 1));
    assert!(Duration::from_secs(u64::MAX).checked_sum(Duration::from_secs(1)).is_none());
    assert_eq!(sum.minus(d), Duration::new(0, 2).unwrap());
    assert!(d.shorter(&sum));
    assert_eq!(d.shortest(sum), d);
}

#[test]
fn text_helpers() {
    assert_eq!(text::decimal_of(0), "0");
    assert_eq!(text::decimal_of(u64::MAX), "18446744073709551615");
    assert_eq!(text::parse_u64("18446744073709551615"), Some(u64::MAX));
    assert_eq!(text::parse_u64("+"), None);
    assert_eq!(text::split("a//b", '/'), vec!["a", "", "b"]);
    assert_eq!(text::join(&text::split("a/b", '/'), "-"), "a-b");
    assert_eq!(text::trim("\u{3000} x\n"), "x");
    assert_eq!(text::trim_end_slashes("a//"), "a");
    assert_eq!(text::strip_prefix("unix://x", "unix://"), Some("x".to_string()));
    assert!(text::less("a", "b") && !text::less("b", "a") && text::less("a", "ab"));
    assert!(text::less("\u{ffff}", "\u{10000}"));
}

#[test]
fn a_fresh_value_without_canonical_bytes_is_empty() {
    let Load::Fresh { value, canonical } = Load::fresh(5) else {
        panic!("expected a fresh value");
    };
    assert_eq!(value, 5);
    assert!(canonical.bytes.is_empty() && canonical.validator.is_none());
}

#[test]
fn copies_say_the_same() {
    let mut effects = Effects::new();
    effects
        .canonical_store(
            &note_id("7"),
            Some(VersionToken::new("v")),
            b"raw".to_vec(),
            vec!["/a".to_string()],
        )
        .invalidate_object(&note_id("8"))
        .invalidate_listing_path("/p")
        .invalidate_listing_prefix("/q");
    effects
        .project_file(
            "/f",
            FileProj::inline(b"x".to_vec(), Stability::Mutable, None)
                .with_content_type(ContentType::Json),
        )
        .unwrap()
        .project_dir("/d")
        .unwrap();
    assert_eq!(effects.clone(), effects);
    assert_ne!(effects.clone(), Effects::new());

    let listing = Listing::partial(vec![Entry::dir("a").with_id(note_id("1"))])
        .with_effects(effects.clone())
        .with_validator("v".to_string())
        .with_cursor(Cursor::Page(3));
    assert_eq!(listing.clone(), listing);
    assert_eq!(List::entries(listing.clone()).clone(), List::entries(listing));
    assert_eq!(List::subtree(4).clone(), List::subtree(4));

    let lookup = Lookup::file("f", b"bytes".to_vec())
        .with_siblings(vec![Entry::dir("s")])
        .with_effects(effects.clone())
        .exhaustive(false);
    assert_eq!(lookup.clone(), lookup);
    let missing = Lookup::not_found_id(note_id("2"));
    assert_eq!(missing.clone(), missing);

    let content = FileContent::new(b"body".to_vec()).with_effects(effects);
    assert_eq!(content.clone(), content);
    let blob = FileContent::blob(BlobId(5));
    assert_eq!(blob.clone(), blob);
    let outcome = ReadOutcome::Found(content);
    assert_eq!(outcome.clone(), outcome);

    let inline = ProjBytes::Inline(b"b".to_vec());
    assert_eq!(inline.clone(), inline);
    let read = ReadFileBytes::Inline(b"b".to_vec());
    assert_eq!(read.clone(), read);
    let intent = DirIntent::List {
        cursor: Some(Cursor::Opaque("t".to_string())),
    };
    assert_eq!(intent.clone(), intent);
    let chunk = FileChunk::new(b"c".to_vec(), true);
    assert_eq!(chunk.clone(), chunk);
    let endpoint = HttpEndpoint::parse("unix:///s");
    assert_eq!(endpoint.clone(), endpoint);
    let error = Pattern::parse("x").unwrap_err();
    assert_eq!(error.clone(), error);
    let matched = Pattern::parse("/{a}")
        .unwrap()
        .match_path(&Path::parse("/b").unwrap())
        .unwrap();
    assert_eq!(matched.clone(), matched);

    let fetched = BlobRef {
        id: BlobId(1),
        size: 2,
        content_type: Some("text/plain".to_string()),
        etag: None,
        status: 200,
        response_headers: vec![("A".to_string(), "b".to_string())],
    };
    let copy = fetched.clone();
    assert_eq!(copy.id, fetched.id);
    assert_eq!(copy.content_type, fetched.content_type);
    assert_eq!(copy.header("a"), Some("b"));
    let opened = OpenedFile::new(
        FileAttrs::new(Size::Unknown, Stability::Volatile),
        Memory::new(b"live".to_vec()),
    );
    let copy = opened.clone();
    assert_eq!(copy.attrs, opened.attrs);
    assert_eq!(copy.reader.read_chunk(0, 9).unwrap().content, b"live");
}

#[test]
fn volatile_projections_are_ranged() {
    let live = FileProjection::ranged(Memory::new(b"x".to_vec()))
        .volatile()
        .build();
    assert_eq!(live.attrs().stability, Stability::Volatile);
    assert!(matches!(live.source(), FileSource::Ranged(_)));
    let later = FileProjection::<Memory>::deferred(Size::Unknown)
        .mutable()
        .ranged()
        .volatile()
        .build();
    assert!(matches!(
        later.source(),
        FileSource::Deferred(ReadMode::Ranged)
    ));
    assert!(later.as_file_proj().unwrap().validate().is_ok());
    let whole = FileProjection::<Memory>::deferred(Size::NonZero).full().build();
    assert!(matches!(whole.source(), FileSource::Deferred(ReadMode::Full)));
    assert_eq!(whole.attrs().stability, Stability::Immutable);
}

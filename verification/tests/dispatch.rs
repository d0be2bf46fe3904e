use omnifs_sdk::browse::{CachedCanonical, EntryKind, FileContent, Lookup, List, ReadOutcome};
use omnifs_sdk::captures::{Capture, Captures, FromCaptures};
use omnifs_sdk::content_type::ContentType;
use omnifs_sdk::error::{ProviderError, ProviderErrorKind, Result};
use omnifs_sdk::file_attrs::{Size, Stability, VersionToken};
use omnifs_sdk::handler::{Cursor, DirIntent, MemoryRangeReader, RangeReader};
use omnifs_sdk::identity::IdentityCaptures;
use omnifs_sdk::object::{Canonical, FacetAxis, FacetMetadata, Key, Load, Object, ObjectKind};
use omnifs_sdk::path::Path;
use omnifs_sdk::projection::{DirProjection, Entry, FileProjection};
use omnifs_sdk::repr::{render, Markdown, Representable};
use omnifs_sdk::router::dispatch::list::ListStep;
use omnifs_sdk::router::dispatch::lookup::LookupStep;
use omnifs_sdk::router::dispatch::read::{finish_open_file, finish_read_file};
use omnifs_sdk::router::dispatch::route_shape::ReadRoute;
use omnifs_sdk::router::handlers::{accept_validator, captures_validator};
use omnifs_sdk::router::object::{DirObjectBlock, FileObjectBlock};
use omnifs_sdk::router::object_route::{ObjectReadTarget, ObjectRoute, ReadStep};
use omnifs_sdk::router::register::Router;
use omnifs_sdk::wire;

/// A note: its canonical bytes are its title.
struct Note {
    title: String,
}

impl Object for Note {
    fn kind() -> ObjectKind {
        ObjectKind("demo.note")
    }

    fn canonical_content_type() -> ContentType {
        ContentType::Json
    }

    fn default_stability() -> Stability {
        Stability::Mutable
    }

    fn parse_canonical(bytes: &[u8]) -> Result<Self> {
        match std::str::from_utf8(bytes) {
            Ok(title) => Ok(Note {
                title: title.to_string(),
            }),
            Err(_) => Err(ProviderError::invalid_input("not text")),
        }
    }
}

impl Representable<Markdown> for Note {
    fn represent(&self) -> Vec<u8> {
        format!("# {}", self.title).into_bytes()
    }
}

fn title(note: &Note) -> Result<FileContent> {
    Ok(FileContent::new(note.title.clone().into_bytes()))
}

fn loud(note: &Note) -> Result<FileContent> {
    Ok(FileContent::new(note.title.to_uppercase().into_bytes()))
}

struct NoteKey {
    id: u64,
}

impl FromCaptures for NoteKey {
    fn from_captures(caps: &Captures) -> Result<Self> {
        Ok(NoteKey {
            id: caps.parse("id")?,
        })
    }

    fn validate_present_captures(caps: &Captures) -> bool {
        caps.parse_optional::<u64>("id").is_ok()
    }
}

impl IdentityCaptures for NoteKey {
    fn identity_captures(&self) -> Vec<(&'static str, String)> {
        vec![("id", format!("{}", self.id))]
    }
}

impl FacetMetadata for NoteKey {
    fn facet_axes() -> Vec<FacetAxis> {
        vec![FacetAxis {
            capture_name: "state",
            choices: &["open", "all"],
        }]
    }
}

impl Key for NoteKey {
    type Object = Note;
}

fn not_thirteen(key: &NoteKey) -> bool {
    key.id != 13
}

type When = fn(&NoteKey) -> bool;
type Project = fn(&Note) -> Result<FileContent>;
type Render = fn(&[u8]) -> Result<Vec<u8>>;
type Route = ObjectRoute<When, Project, Render, &'static str>;

fn path(text: &str) -> Path {
    Path::parse(text).unwrap()
}

fn captures(pairs: &[(&str, &str)]) -> Captures {
    Captures::new(
        pairs
            .iter()
            .map(|(name, value)| Capture {
                name: name.to_string(),
                value: value.to_string(),
            })
            .collect(),
    )
}

fn renders() -> Vec<(ContentType, Render)> {
    vec![(ContentType::Markdown, render::<Note, Markdown> as Render)]
}

fn provider() -> (Router<&'static str>, Route) {
    let mut router = Router::<&'static str>::new();
    let mut block =
        DirObjectBlock::<Note, When, Project, Render, &'static str>::new("/notes/{state}/{id}")
            .unwrap();
    block.representations("note", renders()).unwrap();
    block.file("title").project(title as Project).unwrap();
    block.file("loud").lazy().project(loud as Project).unwrap();
    block
        .dir("comments")
        .handler("comments", accept_validator())
        .unwrap();
    block.when(not_thirteen as When).unwrap();
    let route = router
        .object::<Note, When, Project, Render, NoteKey>(block, "note")
        .unwrap();
    router
        .dir("/feeds/{name}")
        .handler("feed", accept_validator())
        .unwrap();
    router
        .file("/feeds/{name}/about")
        .handler("about", accept_validator())
        .unwrap();
    router
        .file("/readme")
        .handler("readme", accept_validator())
        .unwrap();
    router
        .treeref("/trees/{tree}")
        .handler("tree", accept_validator())
        .unwrap();
    router
        .file("/numbers/{id}")
        .handler("number", captures_validator::<NoteKey>())
        .unwrap();
    router.seal().unwrap();
    (router, route)
}

fn names(lookup: &Lookup) -> Vec<String> {
    match lookup {
        Lookup::Entry(entry) => entry
            .siblings()
            .iter()
            .map(|e| e.name().to_string())
            .collect(),
        _ => panic!("expected an entry"),
    }
}

fn answered(step: Result<LookupStep<'_, &'static str>>) -> Lookup {
    match step {
        Ok(LookupStep::Answered(lookup)) => lookup,
        Ok(_) => panic!("expected an answer"),
        Err(e) => panic!("{}", e.to_string()),
    }
}

#[test]
fn literal_prefixes_resolve_and_list() {
    let (router, _) = provider();
    let notes = answered(router.lookup_child("/", "notes"));
    assert!(notes.is_found());
    assert_eq!(notes.target().map(|e| e.kind()), Some(EntryKind::Directory));
    assert_eq!(names(&notes), vec!["feeds", "numbers", "readme", "trees"]);

    let readme = answered(router.lookup_child("/", "readme"));
    assert_eq!(readme.target().map(|e| e.kind()), Some(EntryKind::File));
    assert!(!answered(router.lookup_child("/", "missing")).is_found());

    let Ok(ListStep::Answered(List::Entries(listing))) = router.list_children("/", None, None)
    else {
        panic!("expected a listing");
    };
    let listed: Vec<&str> = listing.entries().iter().map(|e| e.name()).collect();
    assert_eq!(listed, vec!["feeds", "notes", "numbers", "readme", "trees"]);
    assert!(listing.exhaustive());
    let Ok(ListStep::Answered(List::Entries(feeds))) = router.list_children("/feeds", None, None)
    else {
        panic!("expected a listing");
    };
    assert!(feeds.entries().is_empty());
    assert!(!feeds.exhaustive(), "a capture may bind more names");
}

#[test]
fn handlers_are_handed_their_captures() {
    let (router, _) = provider();
    let Ok(LookupStep::TreeRef { handler, captures }) = router.lookup_child("/trees", "t1") else {
        panic!("expected a handoff");
    };
    assert_eq!(*handler, "tree");
    assert_eq!(captures.get("tree"), Some("t1"));

    let Ok(LookupStep::Enumerate {
        handler,
        captures,
        parent,
        intent,
    }) = router.lookup_child("/feeds/rust", "entry")
    else {
        panic!("expected an enumeration");
    };
    assert_eq!(*handler, "feed");
    assert_eq!(captures.get("name"), Some("rust"));
    assert_eq!(parent.as_str(), "/feeds/rust");
    assert!(matches!(intent, DirIntent::Lookup { child } if child == "entry"));

    let Ok(ListStep::Enumerate {
        handler, intent, ..
    }) = router.list_children("/feeds/rust", None, Some(Cursor::Page(3)))
    else {
        panic!("expected an enumeration");
    };
    assert_eq!(*handler, "feed");
    assert!(matches!(
        intent,
        DirIntent::List {
            cursor: Some(Cursor::Page(3))
        }
    ));
    let Ok(ListStep::TreeRef { handler, .. }) = router.list_children("/trees/t2", None, None)
    else {
        panic!("expected a handoff");
    };
    assert_eq!(*handler, "tree");
}

#[test]
fn projections_are_merged_with_static_siblings() {
    let (router, _) = provider();
    let projection = DirProjection::<MemoryRangeReader>::paged(
        vec![Entry::file("zed"), Entry::dir("about"), Entry::dir("b")],
        Cursor::Page(2),
    )
    .with_validator(VersionToken::new("v"));
    let list = router
        .dir_projection_into_list(&path("/feeds/rust"), &projection)
        .unwrap();
    let (wire::ListChildrenResult::Entries(listing), effects) = list.into_result_and_effects()
    else {
        panic!("expected entries");
    };
    let shown: Vec<(&str, bool)> = listing
        .entries
        .iter()
        .map(|e| {
            (
                e.name.as_str(),
                matches!(e.kind, wire::EntryKind::Directory),
            )
        })
        .collect();
    assert_eq!(shown, vec![("about", true), ("b", true), ("zed", false)]);
    assert!(!listing.exhaustive);
    assert_eq!(listing.validator, Some("v".to_string()));
    assert_eq!(listing.next_cursor, Some(Cursor::Page(2)));
    assert!(effects.is_empty());

    let found = router
        .projection_lookup(&path("/feeds/rust"), "b", &projection)
        .unwrap();
    assert_eq!(found.target().map(|e| e.name()), Some("b"));
    assert_eq!(names(&found), vec!["about", "zed"]);
    let unchanged = DirProjection::<MemoryRangeReader>::unchanged();
    assert!(!router
        .projection_lookup(&path("/feeds/rust"), "b", &unchanged)
        .unwrap()
        .is_found());
    assert!(matches!(
        router.dir_projection_into_list(&path("/feeds/rust"), &unchanged),
        Ok(List::Unchanged)
    ));
}

#[test]
fn declared_content_types_survive_the_merge() {
    let (router, _) = provider();
    let projection = DirProjection::<MemoryRangeReader>::exhaustive(vec![
        Entry::file("diff").content_type(ContentType::Markdown),
        Entry::file("plain"),
    ]);
    let list = router
        .dir_projection_into_list(&path("/feeds/rust"), &projection)
        .unwrap();
    let (wire::ListChildrenResult::Entries(listing), _) = list.into_result_and_effects() else {
        panic!("expected entries");
    };
    let typed: Vec<(&str, Option<&str>)> = listing
        .entries
        .iter()
        .map(|e| match &e.kind {
            wire::EntryKind::File(file) => (e.name.as_str(), file.content_type.as_deref()),
            wire::EntryKind::Directory => panic!("expected files"),
        })
        .collect();
    assert_eq!(
        typed,
        vec![
            ("about", None),
            ("diff", Some("text/markdown")),
            ("plain", None)
        ]
    );
    let found = router
        .projection_lookup(&path("/feeds/rust"), "diff", &projection)
        .unwrap();
    let file = found.target().and_then(|e| e.file_proj()).unwrap();
    assert_eq!(file.content_type, Some(ContentType::Markdown));
    assert!(file.validate().is_ok());
    let lowered = projection.to_listing().unwrap();
    assert_eq!(lowered.entries()[0].name(), "diff");
    let dropped = lowered.entries()[0].file_proj().unwrap();
    assert_eq!(dropped.content_type, None);
}

#[test]
fn anchors_list_their_leaves() {
    let (router, route) = provider();
    let Ok(ListStep::Object { route: found, path: at }) =
        router.list_children("/notes/open/7", None, None)
    else {
        panic!("expected an object");
    };
    assert_eq!(found.entry.handler, "note");
    assert_eq!(at.as_str(), "/notes/open/7");
    let version = VersionToken::new("e0");
    let (key, since): (NoteKey, _) = route
        .begin_list(&found.captures, at.as_str(), Some(&version))
        .unwrap();
    assert_eq!(since, Some(VersionToken::new("e0")));
    let effects = route
        .finish_list(&key, at.as_str(), fresh("seven"))
        .unwrap();
    let list = router.finish_object_list(found.entry, &at, effects);
    let (wire::ListChildrenResult::Entries(listing), effects) = list.into_result_and_effects()
    else {
        panic!("expected entries");
    };
    let shown: Vec<&str> = listing.entries.iter().map(|e| e.name.as_str()).collect();
    assert_eq!(
        shown,
        vec!["comments", "loud", "note.json", "note.md", "title"]
    );
    assert!(listing.exhaustive);
    let effects = effects.into_wit();
    assert_eq!(effects.canonical.len(), 1);
    assert_eq!(effects.canonical[0].bytes, b"seven".to_vec());
    assert_eq!(effects.canonical[0].validator, Some("e1".to_string()));
    let mut leaves = effects.canonical[0].view_leaves.clone();
    leaves.sort();
    assert_eq!(
        leaves,
        vec![
            "/notes/all/7/loud",
            "/notes/all/7/note.json",
            "/notes/all/7/note.md",
            "/notes/all/7/title",
            "/notes/open/7/loud",
            "/notes/open/7/note.json",
            "/notes/open/7/note.md",
            "/notes/open/7/title",
        ]
    );
    let written: Vec<&str> = effects.fs.iter().map(|w| w.path.as_str()).collect();
    assert_eq!(written, vec!["/notes/open/7/title"], "lazy fields stay out");

    assert!(route
        .finish_list(&key, "/notes/open/7", Load::Unchanged)
        .unwrap()
        .is_empty());
    let Err(error) = route.finish_list(&key, "/notes/open/7", Load::NotFound) else {
        panic!("expected not found");
    };
    assert_eq!(error.message(), "object not found: /notes/open/7");
}

#[test]
fn refused_keys_are_not_found() {
    let (_, route) = provider();
    let thirteen = captures(&[("state", "open"), ("id", "13")]);
    let Err(error) = route.begin_list::<NoteKey>(&thirteen, "/notes/open/13", None) else {
        panic!("expected not found");
    };
    assert_eq!(error.kind(), ProviderErrorKind::NotFound);
    let step = route
        .begin_read::<NoteKey>(
            &thirteen,
            &ObjectReadTarget::Representation(ContentType::Json),
            &None,
        )
        .unwrap();
    assert!(matches!(step, ReadStep::Done(ReadOutcome::NotFound(None))));
    let bad = captures(&[("state", "open"), ("id", "x")]);
    let Err(error) = route.begin_list::<NoteKey>(&bad, "/notes/open/x", None) else {
        panic!("expected an invalid capture");
    };
    assert_eq!(error.kind(), ProviderErrorKind::InvalidInput);
}

fn fresh(text: &str) -> Load<Note> {
    Load::Fresh {
        value: Note {
            title: text.to_string(),
        },
        canonical: Canonical {
            bytes: text.as_bytes().to_vec(),
            validator: Some(VersionToken::new("e1")),
        },
    }
}

fn pushed(id: &str, bytes: &[u8]) -> Option<CachedCanonical> {
    Some(CachedCanonical::from_wit(wire::CanonicalInput {
        id: wire::LogicalId {
            kind: "demo.note".to_string(),
            captures: vec![Capture {
                name: "id".to_string(),
                value: id.to_string(),
            }],
        },
        bytes: bytes.to_vec(),
        validator: Some("e0".to_string()),
    }))
}

fn content(outcome: Result<ReadOutcome>) -> (Vec<u8>, bool) {
    match outcome {
        Ok(ReadOutcome::Found(content)) => (
            content.content().unwrap().to_vec(),
            content.effects().is_empty(),
        ),
        Ok(ReadOutcome::NotFound(_)) => panic!("expected content"),
        Err(e) => panic!("{}", e.to_string()),
    }
}

#[test]
fn pushed_canonicals_are_served_without_a_load() {
    let (router, route) = provider();
    let Ok(ReadRoute::Object { route: found, target }) =
        router.read_file("/notes/open/7/note.md", "text/markdown")
    else {
        panic!("expected an object read");
    };
    assert_eq!(
        target,
        ObjectReadTarget::Representation(ContentType::Markdown)
    );
    let step = route
        .begin_read::<NoteKey>(&found.captures, &target, &pushed("7", b"seven"))
        .unwrap();
    let ReadStep::Done(outcome) = step else {
        panic!("expected a warm answer");
    };
    assert_eq!(content(Ok(outcome)), (b"# seven".to_vec(), true));

    let other = pushed("8", b"eight");
    let step = route
        .begin_read::<NoteKey>(&found.captures, &target, &other)
        .unwrap();
    let ReadStep::Load { key, since } = step else {
        panic!("another object's bytes are not served");
    };
    assert_eq!(key.id, 7);
    assert_eq!(since, Some(VersionToken::new("e0")));
}

#[test]
fn fresh_loads_store_and_serve() {
    let (router, route) = provider();
    let Ok(ReadRoute::Object { route: found, target }) =
        router.read_file("/notes/all/7/loud", "text/plain")
    else {
        panic!("expected an object read");
    };
    assert_eq!(target, ObjectReadTarget::Projected("loud".to_string()));
    let step = route
        .begin_read::<NoteKey>(&found.captures, &target, &None)
        .unwrap();
    let ReadStep::Load { key, since } = step else {
        panic!("expected a load");
    };
    assert_eq!(since, None);
    let outcome = route.finish_read(&key, &target, &None, "/notes/all/7/loud", fresh("hi"));
    assert_eq!(content(outcome), (b"HI".to_vec(), false));

    let Ok(ReadOutcome::NotFound(Some(id))) =
        route.finish_read(&key, &target, &None, "/notes/all/7/loud", Load::NotFound)
    else {
        panic!("expected a tagged not-found");
    };
    assert_eq!(id, key.anchor());
    let Err(error) = route.finish_read(&key, &target, &None, "/notes/all/7/loud", Load::Unchanged)
    else {
        panic!("nothing to be unchanged against");
    };
    assert_eq!(error.kind(), ProviderErrorKind::Internal);
    let again = route.finish_read(
        &key,
        &target,
        &pushed("7", b"old"),
        "/notes/all/7/loud",
        Load::Unchanged,
    );
    assert_eq!(content(again), (b"OLD".to_vec(), true));
}

#[test]
fn reads_resolve_files_anchors_and_leaves() {
    let (router, _) = provider();
    assert!(matches!(
        router.read_file("/readme", "text/plain"),
        Ok(ReadRoute::File(found)) if found.entry.handler == "readme"
    ));
    assert!(matches!(
        router.read_file("/notes/open/7", "application/json"),
        Ok(ReadRoute::Object { target: ObjectReadTarget::Representation(ContentType::Json), .. })
    ));
    assert!(matches!(
        router.read_file("/notes/open/7", "x/unknown"),
        Ok(ReadRoute::Object { target: ObjectReadTarget::Representation(ContentType::Octet), .. })
    ));
    let Err(error) = router.read_file("/nothing/here", "text/plain") else {
        panic!("expected not found");
    };
    assert_eq!(error.message(), "path not found: /nothing/here");
    let Err(error) = router.read_file("relative", "text/plain") else {
        panic!("expected an invalid path");
    };
    assert_eq!(error.kind(), ProviderErrorKind::InvalidInput);
}

#[test]
fn files_are_not_directories() {
    let (router, _) = provider();
    let Err(error) = router.list_children("/readme", None, None) else {
        panic!("expected not-a-directory");
    };
    assert_eq!(error.kind(), ProviderErrorKind::NotADirectory);
    assert_eq!(error.message(), "/readme is a file");
    let Err(error) = router.list_children("/none", None, None) else {
        panic!("expected not found");
    };
    assert_eq!(error.kind(), ProviderErrorKind::NotFound);
}

#[test]
fn a_rejected_capture_is_no_candidate() {
    let (router, _) = provider();
    assert!(router.file_route(&path("/numbers/12")).is_some());
    assert!(router.file_route(&path("/numbers/x")).is_none());
}

#[test]
fn ranged_projections_open_sessions() {
    let (router, _) = provider();
    assert_eq!(
        router.open_file("/readme").ok().map(|r| r.entry.handler),
        Some("readme")
    );
    assert!(router.open_file("/notes/open/7/title").is_err());

    let ranged = FileProjection::ranged(MemoryRangeReader::new(b"abcdef".to_vec()))
        .size(Size::Exact(6))
        .build();
    let opened = finish_open_file("/readme", ranged).unwrap();
    assert_eq!(opened.attrs.st_size(), 6);
    let chunk = opened.reader.read_chunk(4, 10).unwrap();
    assert_eq!((chunk.content, chunk.eof), (b"ef".to_vec(), true));

    let inline = FileProjection::<MemoryRangeReader>::inline(b"x".to_vec()).build();
    assert_eq!(
        content(finish_read_file(&inline)),
        (b"x".to_vec(), true)
    );
    let Err(error) = finish_open_file("/a\"b", inline) else {
        panic!("expected a refusal");
    };
    assert_eq!(
        error.message(),
        "open_file requires a ranged projection; path \"/a\\\"b\" returned a non-ranged source"
    );
}

#[test]
fn file_objects_present_as_files() {
    let mut router = Router::<&'static str>::new();
    let mut block =
        FileObjectBlock::<Note, When, Project, Render, &'static str>::new("/n/{state}/{id}")
            .unwrap();
    block.representations("note", renders()).unwrap();
    router
        .file_object::<Note, When, Project, Render, NoteKey>(block, "note")
        .unwrap();
    let Err(error) = router.list_children("/n/open/1", None, None) else {
        panic!("expected not-a-directory");
    };
    assert_eq!(error.kind(), ProviderErrorKind::NotADirectory);
    let found = answered(router.lookup_child("/n/open", "1"));
    assert_eq!(found.target().map(|e| e.name()), Some("1"));
    assert_eq!(found.target().map(|e| e.kind()), Some(EntryKind::File));
    let read = router.read_file("/n/open/1", "text/markdown");
    assert!(matches!(
        read,
        Ok(ReadRoute::Object { target: ObjectReadTarget::Representation(ContentType::Markdown), .. })
    ));
}

#[test]
fn declared_leaves_resolve_under_the_anchor() {
    let (router, _) = provider();
    for leaf in ["note.json", "note.md", "title", "loud"] {
        let found = answered(router.lookup_child("/notes/open/7", leaf));
        assert_eq!(found.target().map(|e| e.kind()), Some(EntryKind::File));
        assert!(router
            .read_file(&format!("/notes/open/7/{leaf}"), "text/plain")
            .is_ok());
    }
    let anchor = answered(router.lookup_child("/notes/open", "7"));
    assert_eq!(anchor.target().map(|e| e.kind()), Some(EntryKind::Directory));
}

#[test]
fn attach_prefixes_the_template() {
    let mut router = Router::<&'static str>::new();
    let mut block =
        DirObjectBlock::<Note, When, Project, Render, &'static str>::new("/{state}/{id}").unwrap();
    block.representations("note", renders()).unwrap();
    let handle = omnifs_sdk::router::object::object(block).unwrap();
    router
        .attach::<When, Project, Render, NoteKey>("/mine//", &handle, "mine")
        .unwrap();
    let Ok(ListStep::Object { route, .. }) = router.list_children("/mine/open/3", None, None) else {
        panic!("expected an object");
    };
    assert_eq!(route.entry.handler, "mine");
    assert_eq!(route.captures.get("id"), Some("3"));
    assert!(router.list_children("/open/3", None, None).is_err());
}

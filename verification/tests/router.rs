use omnifs_sdk::browse::{EntryKind, FileContent};
use omnifs_sdk::captures::{Capture, Captures, FromCaptures};
use omnifs_sdk::content_type::ContentType;
use omnifs_sdk::error::{ProviderError, ProviderErrorKind, Result};
use omnifs_sdk::file_attrs::Stability;
use omnifs_sdk::identity::{Facet, IdentityCaptures, LogicalId};
use omnifs_sdk::object::{
    canonical_parse_error, FacetAxis, FacetMetadata, Key, Object, ObjectKind, ObjectShape,
};
use omnifs_sdk::path::Path;
use omnifs_sdk::repr::{render, Markdown, Representable};
use omnifs_sdk::router::facets::FacetExpansion;
use omnifs_sdk::router::handlers::{accept_validator, captures_validator};
use omnifs_sdk::router::mount::mount_object;
use omnifs_sdk::router::object::{object, DirObjectBlock, ObjectHandle, ObjectLeaf};
use omnifs_sdk::router::pattern::Pattern;
use omnifs_sdk::router::register::Router;

struct DemoObj {
    title: String,
}

impl Object for DemoObj {
    fn kind() -> ObjectKind {
        ObjectKind("demo.obj")
    }

    fn canonical_content_type() -> ContentType {
        ContentType::Json
    }

    fn default_stability() -> Stability {
        Stability::Mutable
    }

    fn parse_canonical(bytes: &[u8]) -> Result<Self> {
        let value: serde_json::Value = serde_json::from_slice(bytes)
            .map_err(|error| canonical_parse_error(&error.to_string()))?;
        match value.get("title").and_then(|title| title.as_str()) {
            Some(title) => Ok(DemoObj {
                title: title.to_string(),
            }),
            None => Err(canonical_parse_error("missing field `title`")),
        }
    }
}

impl Representable<Markdown> for DemoObj {
    fn represent(&self) -> Vec<u8> {
        format!("# {}", self.title).into_bytes()
    }
}

impl DemoObj {
    fn title(&self) -> Result<FileContent> {
        Ok(FileContent::new(self.title.clone().into_bytes()))
    }

    fn body(&self) -> Result<FileContent> {
        Ok(FileContent::new(
            format!("body: {}", self.title).into_bytes(),
        ))
    }

    fn state(&self) -> Result<FileContent> {
        Ok(FileContent::new(b"open".to_vec()))
    }
}

struct DemoKey {
    id: String,
}

impl FromCaptures for DemoKey {
    fn from_captures(caps: &Captures) -> Result<Self> {
        Ok(Self {
            id: caps
                .get("id")
                .ok_or_else(|| ProviderError::invalid_input("missing id"))?
                .to_string(),
        })
    }

    fn validate_present_captures(caps: &Captures) -> bool {
        Self::from_captures(caps).is_ok()
    }
}

impl IdentityCaptures for DemoKey {
    fn identity_captures(&self) -> Vec<(&'static str, String)> {
        vec![("id", self.id.clone())]
    }
}

impl FacetMetadata for DemoKey {
    fn facet_axes() -> Vec<FacetAxis> {
        Vec::new()
    }
}

impl Key for DemoKey {
    type Object = DemoObj;
}

#[derive(Clone, Copy, Debug, PartialEq, Eq)]
enum Filter {
    Open,
    All,
}

struct FacetedKey {
    owner: String,
    number: String,
    filter: Facet<Filter>,
}

impl IdentityCaptures for FacetedKey {
    fn identity_captures(&self) -> Vec<(&'static str, String)> {
        vec![
            ("owner", self.owner.clone()),
            ("number", self.number.clone()),
        ]
    }
}

impl FacetMetadata for FacetedKey {
    fn facet_axes() -> Vec<FacetAxis> {
        vec![FacetAxis {
            capture_name: "filter",
            choices: &["open", "all"],
        }]
    }
}

impl FacetedKey {
    fn anchor(&self) -> LogicalId {
        LogicalId::new(ObjectKind("github.issue"), self.identity_captures())
    }
}

type When = fn(&DemoKey) -> bool;
type Project = fn(&DemoObj) -> Result<FileContent>;
type Render = fn(&[u8]) -> Result<Vec<u8>>;
type Block = DirObjectBlock<DemoObj, When, Project, Render, &'static str>;
type Handle = ObjectHandle<When, Project, Render, &'static str>;

fn demo_block() -> Block {
    let mut block = Block::new("/items/{id}").unwrap();
    block
        .representations(
            "item",
            vec![(
                ContentType::Markdown,
                render::<DemoObj, Markdown> as Render,
            )],
        )
        .unwrap();
    block
}

fn demo_handle() -> Result<Handle> {
    object(demo_block())
}

fn block_with_handlers() -> Block {
    let mut block = demo_block();
    block
        .file("summary")
        .handler("summary", accept_validator())
        .unwrap();
    block
        .dir("comments")
        .handler("comments", accept_validator())
        .unwrap();
    block
        .file("comments/{idx}")
        .handler("comment", accept_validator())
        .unwrap();
    block
}

#[test]
fn representation_dispatch() {
    let handle = demo_handle().unwrap();
    let table = handle.spec.render_table();
    let canonical = br#"{"title":"hello"}"#;

    assert_eq!(
        table.serve(ContentType::Json, canonical).unwrap(),
        canonical.to_vec(),
        "source content type must be served verbatim"
    );

    assert_eq!(
        table.serve(ContentType::Markdown, canonical).unwrap(),
        b"# hello".as_slice(),
        "declared render must dispatch through RenderTable"
    );

    let err = table
        .serve(ContentType::Custom("text/html"), canonical)
        .unwrap_err();
    assert_eq!(err.kind(), ProviderErrorKind::NotFound);
}

#[test]
fn attach_symmetry_one_identity() {
    let handle = demo_handle().unwrap();

    let mut router = Router::<&'static str>::new();
    router
        .attach::<When, Project, Render, DemoKey>("/open", &handle, "open")
        .unwrap();
    router
        .attach::<When, Project, Render, DemoKey>("/all", &handle, "all")
        .unwrap();
    router.seal().unwrap();

    let caps = Captures::new(vec![Capture {
        name: "id".into(),
        value: "42".into(),
    }]);
    let key = DemoKey::from_captures(&caps).unwrap();
    let id = key.anchor();

    assert_eq!(
        id,
        LogicalId::new(DemoObj::kind(), vec![("id", "42".into())]),
        "logical id must depend only on identity captures, not attach prefix"
    );
    assert!(
        id.captures
            .iter()
            .all(|(name, _)| *name != "open" && *name != "all"),
        "attach prefix must not appear in identity captures"
    );
}

#[test]
fn seal_rejects_overlapping_routes() {
    let mut router = Router::<&'static str>::new();
    router
        .file("/items/{id}")
        .handler("dup", accept_validator())
        .unwrap();
    router
        .object::<DemoObj, When, Project, Render, DemoKey>(demo_block(), "item")
        .unwrap();

    let err = router.seal().unwrap_err();
    assert_eq!(err.kind(), ProviderErrorKind::InvalidInput);
}

#[test]
fn object_listing_includes_top_level_handler_leaves_only() {
    let handle = object(block_with_handlers()).unwrap();
    let pattern = Pattern::parse("/items/{id}").unwrap();

    let mounted = mount_object::<When, Project, Render, &'static str, DemoKey>(
        &pattern,
        ObjectShape::Dir,
        &handle.spec,
        "/items/{id}",
        "item",
    )
    .unwrap();
    let leaf_names: Vec<&str> = mounted
        .entry
        .leaves
        .iter()
        .map(|leaf| leaf.name.as_str())
        .collect();

    assert_eq!(
        leaf_names,
        vec!["item.md", "item.json", "summary", "comments"]
    );
    assert_eq!(mounted.handler_files.len(), 2);
    assert_eq!(mounted.handler_dirs.len(), 1);
}

#[test]
fn projected_leaf_modifiers_apply_to_pending_leaf() {
    let mut block = demo_block();
    block.file("title").project(DemoObj::title).unwrap();
    block.file("body").lazy().project(DemoObj::body).unwrap();
    block
        .file("state")
        .immutable()
        .project(DemoObj::state)
        .unwrap();
    let handle = object(block).unwrap();

    let projected: Vec<(&str, bool, Stability)> = handle
        .spec
        .leaves()
        .iter()
        .filter_map(|leaf| match leaf {
            ObjectLeaf::Projected {
                leaf_name,
                lazy,
                stability,
                ..
            } => Some((leaf_name.as_str(), *lazy, *stability)),
            _ => None,
        })
        .collect();

    assert_eq!(
        projected,
        vec![
            ("title", false, Stability::Mutable),
            ("body", true, Stability::Mutable),
            ("state", false, Stability::Immutable),
        ],
        "file leaf modifiers must apply to the pending leaf, not the prior projection"
    );
}

#[test]
fn route_shape_tracks_object_handler_leaves() {
    let mut router = Router::<&'static str>::new();
    router
        .object::<DemoObj, When, Project, Render, DemoKey>(block_with_handlers(), "item")
        .unwrap();

    let item = Path::parse("/items/42").unwrap();
    let mut entries = router.static_entries_for_parent(&item);
    entries.sort_by(|a, b| a.name().cmp(b.name()));

    assert_eq!(entries.len(), 2);
    assert_eq!(entries[0].name(), "comments");
    assert_eq!(entries[0].kind(), EntryKind::Directory);
    assert_eq!(entries[1].name(), "summary");
    assert_eq!(entries[1].kind(), EntryKind::File);
    assert!(
        router
            .list_dir_route(&Path::parse("/items/42/comments").unwrap())
            .is_some(),
        "handler dir should be a list route"
    );
    assert!(
        router
            .file_route(&Path::parse("/items/42/comments/1").unwrap())
            .is_some(),
        "handler file should be a read route"
    );
}

#[test]
fn facet_excluded_from_identity() {
    let open = FacetedKey {
        owner: "acme".into(),
        number: "7".into(),
        filter: Facet(Filter::Open),
    };
    let all = FacetedKey {
        owner: "acme".into(),
        number: "7".into(),
        filter: Facet(Filter::All),
    };

    assert_eq!(open.filter.0, Filter::Open);
    assert_eq!(all.filter.0, Filter::All);
    assert_ne!(open.filter, all.filter);

    assert_eq!(open.identity_captures(), all.identity_captures());
    assert_eq!(open.anchor(), all.anchor());
    assert!(
        open.identity_captures()
            .iter()
            .all(|(name, _)| *name != "filter"),
        "facet capture must be excluded from identity"
    );
}

#[test]
fn facet_view_leaves_expand_across_aliases() {
    let pattern = Pattern::parse("/{owner}/issues/{filter}/{number}").unwrap();
    let expansion = FacetExpansion::for_pattern::<FacetedKey>(&pattern).unwrap();

    let leaves = expansion
        .expand_view_leaves("/acme/issues/open/7/title")
        .unwrap();

    assert_eq!(
        leaves,
        vec![
            "/acme/issues/open/7/title".to_string(),
            "/acme/issues/all/7/title".to_string(),
        ],
        "canonical-store leaves must cover every finite facet alias for the same object"
    );
}

#[test]
fn facets_must_be_captured_by_the_pattern() {
    let pattern = Pattern::parse("/{owner}/issues/{number}").unwrap();
    let error = FacetExpansion::for_pattern::<FacetedKey>(&pattern).unwrap_err();
    assert_eq!(error.kind(), ProviderErrorKind::InvalidInput);
}

#[test]
fn a_key_validator_rejects_captures_without_the_key() {
    let validator = captures_validator::<DemoKey>();
    let with_id = Captures::new(vec![Capture {
        name: "id".into(),
        value: "1".into(),
    }]);
    assert!(validator.accepts(&with_id));
    assert!(!validator.accepts(&Captures::new(Vec::new())));
    assert!(!validator.accepts_present(&Captures::new(Vec::new())));
}

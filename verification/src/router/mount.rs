//! Mounting an object definition at a concrete template.

use vstd::prelude::*;
use vstd::string::*;

use crate::browse::EntryKind;
use crate::captures::FromCaptures;
use crate::content_type::ContentType;
use crate::error;
use crate::error::{Failure, ProviderErrorKind, Result};
use crate::object::{FacetMetadata, ObjectShape};
use crate::repr;
use crate::router::facets;
use crate::router::handlers;
use crate::router::handlers::{DirEntry, FileEntry, RouteFacts, RouteValidator, RoutedEntry};
use crate::router::object;
use crate::router::object::{LeafModel, ObjectLeaf, ObjectSpec, SpecModel};
use crate::router::object_route;
use crate::router::object_route::ObjectRoute;
use crate::router::pattern;
use crate::router::pattern::{Pattern, Shape};
use crate::text;

verus! {

/// A child name an object anchor lists, precomputed at mount time.
#[derive(Debug, PartialEq, Eq)]
pub struct ListingLeaf {
    pub name: String,
    pub is_dir: bool,
}

impl View for ListingLeaf {
    type V = (Seq<char>, bool);

    open spec fn view(&self) -> (Seq<char>, bool) {
        (self.name@, self.is_dir)
    }
}

/// The models of listed leaves.
pub open spec fn listing_models(leaves: Seq<ListingLeaf>) -> Seq<(Seq<char>, bool)> {
    leaves.map_values(|l: ListingLeaf| l@)
}

/// The name that a handler leaf is listed under.
pub open spec fn handler_listing(suffix: Seq<char>, is_dir: bool) -> Option<(Seq<char>, bool)> {
    match pattern::template_of("/"@ + suffix) {
        Ok(shapes) => match pattern::literal_child(shapes, Seq::empty()) {
            Some((name, continues)) => if continues {
                None
            } else {
                Some((name, is_dir))
            },
            None => None,
        },
        Err(_) => None,
    }
}

/// The name that a leaf is listed under.
pub open spec fn listing_of<P, H>(leaf: LeafModel<P, H>) -> Option<(Seq<char>, bool)> {
    match leaf {
        LeafModel::Representation { name, .. } => Some((name, false)),
        LeafModel::Projected { name, .. } => Some((name, false)),
        LeafModel::HandlerFile { suffix, .. } => handler_listing(suffix, false),
        LeafModel::HandlerDir { suffix, .. } => handler_listing(suffix, true),
    }
}

/// The names that the first `n` leaves are listed under.
pub open spec fn listings<P, H>(leaves: Seq<LeafModel<P, H>>, n: nat) -> Seq<(Seq<char>, bool)>
    decreases n,
{
    if n == 0 {
        Seq::empty()
    } else {
        let head = listings(leaves, (n - 1) as nat);
        match listing_of(leaves[n - 1]) {
            Some(leaf) => head.push(leaf),
            None => head,
        }
    }
}

impl ListingLeaf {
    /// A handler leaf contributes a listing name only when its suffix is a
    /// single literal segment (`"diff"` qualifies; `"comments/{idx}"` does
    /// not). Deeper suffixes are not lost: their literal intermediates
    /// (`comments`) still surface through the static-entry merge at listing
    /// time.
    fn handler(suffix: &str, is_dir: bool) -> (r: Option<Self>)
        ensures
            match handler_listing(suffix@, is_dir) {
                Some(leaf) => r matches Some(l) && l@ == leaf,
                None => r is None,
            },
    {
        let template = text::concat("/", suffix);
        let pattern = match handlers::parse_pattern(template.as_str()) {
            Ok(pattern) => pattern,
            Err(_) => {
                return None;
            },
        };
        let none: Vec<String> = Vec::new();
        assert(text::views(none@) =~= Seq::<Seq<char>>::empty());
        match pattern.literal_child_after(none.as_slice()) {
            Some((name, has_child)) => if has_child {
                None
            } else {
                Some(ListingLeaf { name: name.to_owned(), is_dir })
            },
            None => None,
        }
    }

    /// The listing name of a leaf, if it has one.
    fn of<P, H>(leaf: &ObjectLeaf<P, H>) -> (r: Option<Self>)
        ensures
            match listing_of(leaf@) {
                Some(listed) => r matches Some(l) && l@ == listed,
                None => r is None,
            },
    {
        match leaf {
            ObjectLeaf::Representation { leaf_name, .. } => Some(
                ListingLeaf { name: leaf_name.clone(), is_dir: false },
            ),
            ObjectLeaf::Projected { leaf_name, .. } => Some(
                ListingLeaf { name: leaf_name.clone(), is_dir: false },
            ),
            ObjectLeaf::HandlerFile { suffix, .. } => Self::handler(suffix.as_str(), false),
            ObjectLeaf::HandlerDir { suffix, .. } => Self::handler(suffix.as_str(), true),
        }
    }
}

/// The mounted object route the dispatch tables hold: the anchor pattern, the
/// representation names and types, and the leaf names to list.
pub struct ObjectEntry<H> {
    pub pattern: Pattern,
    pub shape: ObjectShape,
    pub source_ct: ContentType,
    pub render_cts: Vec<ContentType>,
    pub source_stem: String,
    pub source_ext: String,
    pub leaves: Vec<ListingLeaf>,
    pub handler: H,
    pub validator: RouteValidator,
}

impl<H> RoutedEntry for ObjectEntry<H> {
    open spec fn facts(&self) -> RouteFacts {
        RouteFacts {
            shapes: self.pattern@,
            validator: self.validator,
            is_dir: self.shape is Dir,
        }
    }

    fn route_pattern(&self) -> (r: &Pattern) {
        &self.pattern
    }

    fn route_validator(&self) -> (r: &RouteValidator) {
        &self.validator
    }

    fn route_kind(&self) -> (r: EntryKind) {
        match self.shape {
            ObjectShape::Dir => EntryKind::Directory,
            ObjectShape::File => EntryKind::File,
        }
    }
}

/// The shapes of patterns.
pub open spec fn pattern_shapes(patterns: Seq<Pattern>) -> Seq<Seq<Shape>> {
    patterns.map_values(|p: Pattern| p@)
}

/// The name of a leaf that is served from the canonical bytes.
pub open spec fn canonical_leaf<P, H>(leaf: LeafModel<P, H>) -> Option<Seq<char>> {
    match leaf {
        LeafModel::Representation { name, .. } => Some(name),
        LeafModel::Projected { name, .. } => Some(name),
        _ => None,
    }
}

/// The claims of the first `n` leaves that are served from the canonical
/// bytes, or the failure of the first one whose template is rejected.
pub open spec fn canonical_claims<P, H>(
    leaves: Seq<LeafModel<P, H>>,
    mount: Seq<char>,
    n: nat,
) -> core::result::Result<Seq<Seq<Shape>>, Failure>
    decreases n,
{
    if n == 0 {
        Ok(Seq::empty())
    } else {
        match canonical_claims(leaves, mount, (n - 1) as nat) {
            Err(f) => Err(f),
            Ok(claims) => match canonical_leaf(leaves[n - 1]) {
                None => Ok(claims),
                Some(name) => match pattern::template_of(object::child_template(mount, name)) {
                    Ok(shapes) => Ok(claims.push(shapes)),
                    Err(message) => Err(
                        error::failure(ProviderErrorKind::InvalidInput, message),
                    ),
                },
            },
        }
    }
}

proof fn lemma_canonical_claims_error<P, H>(
    leaves: Seq<LeafModel<P, H>>,
    mount: Seq<char>,
    n: nat,
    m: nat,
)
    requires
        n <= m,
        canonical_claims(leaves, mount, n) is Err,
    ensures
        canonical_claims(leaves, mount, m) == canonical_claims(leaves, mount, n),
    decreases m,
{
    if n < m {
        lemma_canonical_claims_error(leaves, mount, n, (m - 1) as nat);
    }
}

/// A route that a handler leaf becomes.
pub struct HandlerRow<H> {
    pub shapes: Seq<Shape>,
    pub handler: H,
    pub validator: RouteValidator,
    pub is_dir: bool,
}

/// The route that a leaf becomes, if it is a handler leaf and its template
/// compiles.
pub open spec fn handler_row<P, H>(leaf: LeafModel<P, H>, combined: Seq<char>) -> Option<
    HandlerRow<H>,
> {
    match leaf {
        LeafModel::HandlerFile { suffix, handler, validator } => {
            match pattern::template_of(combined + "/"@ + suffix) {
                Ok(shapes) => Some(HandlerRow { shapes, handler, validator, is_dir: false }),
                Err(_) => None,
            }
        },
        LeafModel::HandlerDir { suffix, handler, validator } => {
            match pattern::template_of(combined + "/"@ + suffix) {
                Ok(shapes) => Some(HandlerRow { shapes, handler, validator, is_dir: true }),
                Err(_) => None,
            }
        },
        _ => None,
    }
}

/// The routes that the first `n` leaves become.
pub open spec fn handler_rows<P, H>(
    leaves: Seq<LeafModel<P, H>>,
    combined: Seq<char>,
    n: nat,
) -> Seq<HandlerRow<H>>
    decreases n,
{
    if n == 0 {
        Seq::empty()
    } else {
        let head = handler_rows(leaves, combined, (n - 1) as nat);
        match handler_row(leaves[n - 1], combined) {
            Some(row) => head.push(row),
            None => head,
        }
    }
}

/// The shapes of routes.
pub open spec fn row_shapes<H>(rows: Seq<HandlerRow<H>>) -> Seq<Seq<Shape>> {
    rows.map_values(|r: HandlerRow<H>| r.shapes)
}

/// The file routes among them.
pub open spec fn file_rows<H>(rows: Seq<HandlerRow<H>>) -> Seq<HandlerRow<H>> {
    rows.filter(|r: HandlerRow<H>| !r.is_dir)
}

/// The directory routes among them.
pub open spec fn dir_rows<H>(rows: Seq<HandlerRow<H>>) -> Seq<HandlerRow<H>> {
    rows.filter(|r: HandlerRow<H>| r.is_dir)
}

/// File table rows are these routes, with their handlers cloned.
pub open spec fn files_are<H: Clone>(entries: Seq<FileEntry<H>>, rows: Seq<HandlerRow<H>>) -> bool {
    entries.len() == rows.len() && forall|i: int|
        0 <= i < rows.len() ==> {
            &&& (#[trigger] entries[i]).pattern@ == (#[trigger] rows[i]).shapes
            &&& entries[i].validator == rows[i].validator
            &&& cloned(rows[i].handler, entries[i].handler)
        }
}

/// Directory table rows are these routes, with their handlers cloned.
pub open spec fn dirs_are<H: Clone>(entries: Seq<DirEntry<H>>, rows: Seq<HandlerRow<H>>) -> bool {
    entries.len() == rows.len() && forall|i: int|
        0 <= i < rows.len() ==> {
            &&& (#[trigger] entries[i]).pattern@ == (#[trigger] rows[i]).shapes
            &&& entries[i].validator == rows[i].validator
            &&& cloned(rows[i].handler, entries[i].handler)
        }
}

/// What mounting an object spec yields: the dispatchable entry, the leaf
/// claims to feed the seal check, the handler leaves promoted to ordinary
/// file/dir routes, and the runtime side of the object.
pub struct MountedObject<W, P, R, H> {
    pub entry: ObjectEntry<H>,
    pub claims: Vec<Pattern>,
    pub handler_files: Vec<FileEntry<H>>,
    pub handler_dirs: Vec<DirEntry<H>>,
    pub route: ObjectRoute<W, P, R, H>,
}

/// Why an object cannot be mounted, if it cannot: the template of a leaf, or
/// a facet that the anchor template does not have.
pub open spec fn mount_failure<W, P, R, H, K: FacetMetadata>(
    spec_model: SpecModel<W, P, R, H>,
    anchor: Seq<Shape>,
    combined: Seq<char>,
) -> Option<Failure> {
    match canonical_claims(spec_model.leaves, combined, spec_model.leaves.len()) {
        Err(f) => Some(f),
        Ok(_) => match facets::placed(anchor, K::axes(), K::axes().len()) {
            Err(f) => Some(f),
            Ok(_) => None,
        },
    }
}

/// All claims of a mounted object: its canonical leaves, its anchor, its
/// handler leaves.
pub open spec fn mount_claims<W, P, R, H>(
    spec_model: SpecModel<W, P, R, H>,
    anchor: Seq<Shape>,
    combined: Seq<char>,
) -> Seq<Seq<Shape>> {
    canonical_claims(spec_model.leaves, combined, spec_model.leaves.len())->Ok_0.push(anchor)
        + row_shapes(handler_rows(spec_model.leaves, combined, spec_model.leaves.len()))
}

/// An entry describes the mounted object.
pub open spec fn entry_describes<W, P, R, H, K: FromCaptures>(
    entry: ObjectEntry<H>,
    spec_model: SpecModel<W, P, R, H>,
    anchor: Seq<Shape>,
    shape: ObjectShape,
    handler: H,
) -> bool {
    &&& entry.pattern@ == anchor
    &&& entry.shape == shape
    &&& entry.source_ct@ == spec_model.table.source
    &&& object_route::types_of(entry.render_cts@) == repr::render_types(spec_model.table.renders)
    &&& entry.source_stem@ == spec_model.stem
    &&& entry.source_ext@ == spec_model.ext
    &&& listing_models(entry.leaves@) == listings(spec_model.leaves, spec_model.leaves.len())
    &&& entry.handler == handler
    &&& forall|b: crate::captures::Bindings| #[trigger] entry.validator.full(b) == K::accepts(b)
    &&& forall|b: crate::captures::Bindings| #[trigger]
        entry.validator.present(b) == K::accepts_present(b)
}

fn mounted_leaf_claims<P, H>(
    leaves: &[ObjectLeaf<P, H>],
    mount_template: &str,
) -> (r: Result<Vec<Pattern>>)
    ensures
        match canonical_claims(object::leaf_models(leaves@), mount_template@, leaves@.len()) {
            Ok(claims) => r matches Ok(v) && pattern_shapes(v@) == claims,
            Err(f) => r matches Err(e) && e@ == f,
        },
{
    let mount = text::trim_end_slashes(mount_template);
    let ghost models = object::leaf_models(leaves@);
    let mut claims: Vec<Pattern> = Vec::new();
    let mut i: usize = 0;
    assert(pattern_shapes(claims@) =~= Seq::<Seq<Shape>>::empty());
    while i < leaves.len()
        invariant
            i <= leaves@.len(),
            models == object::leaf_models(leaves@),
            mount@ == text::without_end_slashes(mount_template@),
            canonical_claims(models, mount_template@, i as nat) == Ok::<
                Seq<Seq<Shape>>,
                Failure,
            >(pattern_shapes(claims@)),
        decreases leaves@.len() - i,
    {
        assert(models[i as int] == leaves@[i as int]@);
        // Handler leaves get their leaf claim where their table row is built;
        // claiming them here too would self-overlap.
        let suffix = match &leaves[i] {
            ObjectLeaf::Representation { leaf_name, .. } => Some(leaf_name.as_str()),
            ObjectLeaf::Projected { leaf_name, .. } => Some(leaf_name.as_str()),
            _ => None,
        };
        if let Some(suffix) = suffix {
            let template = text::concat3(mount.as_str(), "/", suffix);
            match handlers::parse_pattern(template.as_str()) {
                Ok(claim) => {
                    let ghost before = pattern_shapes(claims@);
                    let ghost shape = claim@;
                    claims.push(claim);
                    assert(pattern_shapes(claims@) =~= before.push(shape));
                },
                Err(e) => {
                    proof {
                        lemma_canonical_claims_error(
                            models,
                            mount_template@,
                            (i + 1) as nat,
                            models.len(),
                        );
                    }
                    return Err(e);
                },
            }
        }
        i = i + 1;
    }
    Ok(claims)
}

/// Specialize an [`ObjectSpec`] at a concrete mount pattern: precompute the
/// listing names, build the per-mount facet expansion, promote handler
/// leaves to real routes, and collect every leaf claim (anchor,
/// representation and projected leaves, handler leaves) for the seal check.
pub fn mount_object<W: Copy, P: Copy, R: Copy, H: Clone, K: FromCaptures + FacetMetadata + 'static>(
    pattern: &Pattern,
    shape: ObjectShape,
    spec_of: &ObjectSpec<W, P, R, H>,
    combined_template: &str,
    handler: H,
) -> (r: Result<MountedObject<W, P, R, H>>)
    ensures
        match mount_failure::<W, P, R, H, K>(spec_of@, pattern@, combined_template@) {
            Some(f) => r matches Err(e) && e@ == f,
            None => r matches Ok(m) && {
                &&& entry_describes::<W, P, R, H, K>(m.entry, spec_of@, pattern@, shape, handler)
                &&& pattern_shapes(m.claims@) == mount_claims(
                    spec_of@,
                    pattern@,
                    combined_template@,
                )
                &&& files_are(
                    m.handler_files@,
                    file_rows(
                        handler_rows(spec_of@.leaves, combined_template@, spec_of@.leaves.len()),
                    ),
                )
                &&& dirs_are(
                    m.handler_dirs@,
                    dir_rows(
                        handler_rows(spec_of@.leaves, combined_template@, spec_of@.leaves.len()),
                    ),
                )
                &&& object_route::route_runs(
                    m.route@,
                    spec_of@,
                    facets::placed(pattern@, K::axes(), K::axes().len())->Ok_0,
                )
            },
        },
{
    let leaves = spec_of.leaves();
    let ghost models = spec_of@.leaves;
    let ghost combined = combined_template@;
    let listing_leaves = list_leaves(leaves);

    let mut claims = match mounted_leaf_claims(leaves, combined_template) {
        Ok(claims) => claims,
        Err(e) => {
            return Err(e);
        },
    };
    let ghost canonical = pattern_shapes(claims@);
    claims.push(pattern.clone());
    let ghost base = canonical.push(pattern@);
    assert(pattern_shapes(claims@) =~= base);

    let mut handler_files: Vec<FileEntry<H>> = Vec::new();
    let mut handler_dirs: Vec<DirEntry<H>> = Vec::new();
    let mut i: usize = 0;
    let ghost none = handler_rows(models, combined, 0);
    proof {
        reveal(Seq::filter);
        assert(base + row_shapes(none) =~= base);
    }
    while i < leaves.len()
        invariant
            i <= leaves@.len(),
            models == object::leaf_models(leaves@),
            combined == combined_template@,
            pattern_shapes(claims@) == base + row_shapes(
                handler_rows(models, combined, i as nat),
            ),
            files_are(handler_files@, file_rows(handler_rows(models, combined, i as nat))),
            dirs_are(handler_dirs@, dir_rows(handler_rows(models, combined, i as nat))),
        decreases leaves@.len() - i,
    {
        assert(models[i as int] == leaves@[i as int]@);
        let ghost rows = handler_rows(models, combined, i as nat);
        let ghost next = handler_rows(models, combined, (i + 1) as nat);
        let ghost files = handler_files@;
        let ghost dirs = handler_dirs@;
        match &leaves[i] {
            ObjectLeaf::HandlerFile { suffix, handler, validator } => {
                let template = text::concat3(combined_template, "/", suffix.as_str());
                if let Ok(child_pattern) = handlers::parse_pattern(template.as_str()) {
                    let ghost row = HandlerRow {
                        shapes: child_pattern@,
                        handler: *handler,
                        validator: *validator,
                        is_dir: false,
                    };
                    assert(next == rows.push(row));
                    push_claim(&mut claims, &child_pattern);
                    let entry = FileEntry {
                        pattern: child_pattern,
                        handler: handler.clone(),
                        validator: validator.clone(),
                    };
                    handler_files.push(entry);
                    proof {
                        lemma_rows_push(rows, row);
                        assert(base + row_shapes(next) =~= (base + row_shapes(rows)).push(
                            row.shapes,
                        ));
                    }
                }
            },
            ObjectLeaf::HandlerDir { suffix, handler, validator } => {
                let template = text::concat3(combined_template, "/", suffix.as_str());
                if let Ok(child_pattern) = handlers::parse_pattern(template.as_str()) {
                    let ghost row = HandlerRow {
                        shapes: child_pattern@,
                        handler: *handler,
                        validator: *validator,
                        is_dir: true,
                    };
                    assert(next == rows.push(row));
                    push_claim(&mut claims, &child_pattern);
                    let entry = DirEntry {
                        pattern: child_pattern,
                        handler: handler.clone(),
                        validator: validator.clone(),
                    };
                    handler_dirs.push(entry);
                    proof {
                        lemma_rows_push(rows, row);
                        assert(base + row_shapes(next) =~= (base + row_shapes(rows)).push(
                            row.shapes,
                        ));
                    }
                }
            },
            _ => {},
        }
        i = i + 1;
    }

    let route = match ObjectRoute::for_mount::<K>(spec_of, pattern) {
        Ok(route) => route,
        Err(e) => {
            return Err(e);
        },
    };
    let table = spec_of.render_table();
    let entry = ObjectEntry {
        pattern: pattern.clone(),
        shape,
        source_ct: table.source_ct(),
        render_cts: object_route::types(table.renders()),
        source_stem: spec_of.source_stem().to_owned(),
        source_ext: spec_of.source_ext().to_owned(),
        leaves: listing_leaves,
        handler,
        validator: handlers::captures_validator::<K>(),
    };
    Ok(MountedObject { entry, claims, handler_files, handler_dirs, route })
}

/// The names that leaves are listed under.
fn list_leaves<P, H>(leaves: &[ObjectLeaf<P, H>]) -> (r: Vec<ListingLeaf>)
    ensures
        listing_models(r@) == listings(object::leaf_models(leaves@), leaves@.len()),
{
    let ghost models = object::leaf_models(leaves@);
    let mut out: Vec<ListingLeaf> = Vec::new();
    let mut i: usize = 0;
    assert(listing_models(out@) =~= Seq::<(Seq<char>, bool)>::empty());
    while i < leaves.len()
        invariant
            i <= leaves@.len(),
            models == object::leaf_models(leaves@),
            listing_models(out@) == listings(models, i as nat),
        decreases leaves@.len() - i,
    {
        assert(models[i as int] == leaves@[i as int]@);
        if let Some(leaf) = ListingLeaf::of(&leaves[i]) {
            let ghost before = listing_models(out@);
            let ghost listed = leaf@;
            out.push(leaf);
            assert(listing_models(out@) =~= before.push(listed));
        }
        i = i + 1;
    }
    out
}

fn push_claim(claims: &mut Vec<Pattern>, claim: &Pattern)
    ensures
        pattern_shapes(final(claims)@) == pattern_shapes(old(claims)@).push(claim@),
{
    claims.push(claim.clone());
    assert(pattern_shapes(claims@) =~= pattern_shapes(old(claims)@).push(claim@));
}

/// One more route is one more file route or one more directory route.
proof fn lemma_rows_push<H>(rows: Seq<HandlerRow<H>>, row: HandlerRow<H>)
    ensures
        row.is_dir ==> dir_rows(rows.push(row)) == dir_rows(rows).push(row) && file_rows(
            rows.push(row),
        ) == file_rows(rows),
        !row.is_dir ==> file_rows(rows.push(row)) == file_rows(rows).push(row) && dir_rows(
            rows.push(row),
        ) == dir_rows(rows),
{
    reveal(Seq::filter);
    assert(rows.push(row).drop_last() =~= rows);
}

} // verus!

//! Route registration and object mounting.
//!
//! Everything here runs once, when a provider starts. The route table is
//! append-only and immutable after [`Router::seal`]; dispatch reads it on
//! every host browse call.

use vstd::prelude::*;
use vstd::string::*;

use crate::captures::{Bindings, FromCaptures};
use crate::content_type::ContentModel;
use crate::error;
use crate::error::{Failure, ProviderError, ProviderErrorKind, Result};
use crate::object::{FacetMetadata, Object, ObjectShape};
use crate::repr;
use crate::router::facets;
use crate::router::handlers;
use crate::router::handlers::{DirEntry, FileEntry, RouteValidator, TreeRefEntry};
use crate::router::mount;
use crate::router::mount::{HandlerRow, ObjectEntry};
use crate::router::object;
use crate::router::object::{BlockModel, DirObjectBlock, FileObjectBlock, ObjectHandle, SpecModel};
use crate::router::object_route;
use crate::router::object_route::ObjectRoute;
use crate::router::pattern;
use crate::router::pattern::{Pattern, Shape};
use crate::router::pattern_laws;
use crate::text;

verus! {

/// One registered route.
pub struct Row<H> {
    pub shapes: Seq<Shape>,
    pub handler: H,
    pub validator: RouteValidator,
}

/// One mounted object.
pub struct ObjectRow<H> {
    pub shapes: Seq<Shape>,
    pub handler: H,
    pub validator: RouteValidator,
    pub shape: ObjectShape,
    pub source: ContentModel,
    pub renders: Seq<ContentModel>,
    pub stem: Seq<char>,
    pub ext: Seq<char>,
    pub leaves: Seq<(Seq<char>, bool)>,
}

/// The rows of a dir table.
pub open spec fn dir_rows<H>(entries: Seq<DirEntry<H>>) -> Seq<Row<H>> {
    entries.map_values(
        |e: DirEntry<H>|
            Row { shapes: e.pattern@, handler: e.handler, validator: e.validator },
    )
}

/// The rows of a file table.
pub open spec fn file_rows<H>(entries: Seq<FileEntry<H>>) -> Seq<Row<H>> {
    entries.map_values(
        |e: FileEntry<H>|
            Row { shapes: e.pattern@, handler: e.handler, validator: e.validator },
    )
}

/// The rows of a treeref table.
pub open spec fn treeref_rows<H>(entries: Seq<TreeRefEntry<H>>) -> Seq<Row<H>> {
    entries.map_values(
        |e: TreeRefEntry<H>|
            Row { shapes: e.pattern@, handler: e.handler, validator: e.validator },
    )
}

/// What a mounted entry says.
pub open spec fn object_row<H>(e: ObjectEntry<H>) -> ObjectRow<H> {
    ObjectRow {
        shapes: e.pattern@,
        handler: e.handler,
        validator: e.validator,
        shape: e.shape,
        source: e.source_ct@,
        renders: object_route::types_of(e.render_cts@),
        stem: e.source_stem@,
        ext: e.source_ext@,
        leaves: mount::listing_models(e.leaves@),
    }
}

/// The rows of an object table.
pub open spec fn object_rows<H>(entries: Seq<ObjectEntry<H>>) -> Seq<ObjectRow<H>> {
    entries.map_values(|e: ObjectEntry<H>| object_row(e))
}

/// The registered routes, table by table, and the claimed leaves.
pub struct RouterModel<H> {
    pub dirs: Seq<Row<H>>,
    pub files: Seq<Row<H>>,
    pub treerefs: Seq<Row<H>>,
    pub objects: Seq<ObjectRow<H>>,
    pub handler_files: Seq<Row<H>>,
    pub handler_dirs: Seq<Row<H>>,
    pub claims: Seq<Seq<Shape>>,
}

/// The registration and dispatch surface; `H` is what a route runs.
///
/// Routes live in per-kind tables (dirs, files, treerefs, objects, plus the
/// file/dir handler leaves objects contribute). Separately, the leaf claims
/// hold one pattern per leaf so [`Self::seal`] can enforce one-path-one-route
/// across all kinds at once.
pub struct Router<H> {
    pub(crate) dirs: Vec<DirEntry<H>>,
    pub(crate) files: Vec<FileEntry<H>>,
    pub(crate) treerefs: Vec<TreeRefEntry<H>>,
    pub(crate) objects: Vec<ObjectEntry<H>>,
    pub(crate) handler_files: Vec<FileEntry<H>>,
    pub(crate) handler_dirs: Vec<DirEntry<H>>,
    pub(crate) leaf_claims: Vec<Pattern>,
}

impl<H> View for Router<H> {
    type V = RouterModel<H>;

    closed spec fn view(&self) -> RouterModel<H> {
        RouterModel {
            dirs: dir_rows(self.dirs@),
            files: file_rows(self.files@),
            treerefs: treeref_rows(self.treerefs@),
            objects: object_rows(self.objects@),
            handler_files: file_rows(self.handler_files@),
            handler_dirs: dir_rows(self.handler_dirs@),
            claims: mount::pattern_shapes(self.leaf_claims@),
        }
    }
}

impl<H> Router<H> {
    /// The tables that the view is read from.
    pub(crate) proof fn lemma_tables(&self)
        ensures
            self@.dirs == dir_rows(self.dirs@),
            self@.files == file_rows(self.files@),
            self@.treerefs == treeref_rows(self.treerefs@),
            self@.objects == object_rows(self.objects@),
            self@.handler_files == file_rows(self.handler_files@),
            self@.handler_dirs == dir_rows(self.handler_dirs@),
    {
    }
}

/// No routes.
pub open spec fn no_routes<H>() -> RouterModel<H> {
    RouterModel {
        dirs: Seq::empty(),
        files: Seq::empty(),
        treerefs: Seq::empty(),
        objects: Seq::empty(),
        handler_files: Seq::empty(),
        handler_dirs: Seq::empty(),
        claims: Seq::empty(),
    }
}

impl<H> Default for Router<H> {
    fn default() -> (r: Self)
        ensures
            r@ == no_routes::<H>(),
    {
        let r = Router {
            dirs: Vec::new(),
            files: Vec::new(),
            treerefs: Vec::new(),
            objects: Vec::new(),
            handler_files: Vec::new(),
            handler_dirs: Vec::new(),
            leaf_claims: Vec::new(),
        };
        assert(r@.dirs =~= Seq::<Row<H>>::empty());
        assert(r@.files =~= Seq::<Row<H>>::empty());
        assert(r@.treerefs =~= Seq::<Row<H>>::empty());
        assert(r@.objects =~= Seq::<ObjectRow<H>>::empty());
        assert(r@.handler_files =~= Seq::<Row<H>>::empty());
        assert(r@.handler_dirs =~= Seq::<Row<H>>::empty());
        assert(r@.claims =~= Seq::<Seq<Shape>>::empty());
        r
    }
}

/// An attach prefix joined with an object's absolute template.
pub open spec fn combined_template(prefix: Seq<char>, template: Seq<char>) -> core::result::Result<
    Seq<char>,
    Failure,
> {
    if template.len() == 0 || template[0] != '/' {
        Err(
            error::failure(
                ProviderErrorKind::InvalidInput,
                "object template must be absolute: "@ + template,
            ),
        )
    } else if text::without_end_slashes(prefix).len() == 0 {
        Ok(template)
    } else {
        Ok(text::without_end_slashes(prefix) + template)
    }
}

/// Join an attach prefix with an object's absolute template. The template
/// must stay absolute so a handle reads identically whether attached at the
/// root (empty prefix) or under a deeper prefix.
fn combine_template(prefix: &str, template: &str) -> (r: Result<String>)
    ensures
        match combined_template(prefix@, template@) {
            Ok(combined) => r matches Ok(s) && s@ == combined,
            Err(f) => r matches Err(e) && e@ == f,
        },
{
    if !text::starts_with_slash(template) {
        let message = text::concat("object template must be absolute: ", template);
        return Err(ProviderError::invalid_input(message.as_str()));
    }
    let prefix = text::trim_end_slashes(prefix);
    let length: usize = prefix.as_str().unicode_len();
    if length == 0 {
        return Ok(template.to_owned());
    }
    Ok(text::concat(prefix.as_str(), template))
}

/// Why an object cannot be attached, if it cannot.
pub open spec fn attach_failure<W, P, R, H, K: FacetMetadata>(
    prefix: Seq<char>,
    template: Seq<char>,
    spec_model: SpecModel<W, P, R, H>,
) -> Option<Failure> {
    match combined_template(prefix, template) {
        Err(f) => Some(f),
        Ok(combined) => match pattern::template_of(combined) {
            Err(message) => Some(error::failure(ProviderErrorKind::InvalidInput, message)),
            Ok(anchor) => mount::mount_failure::<W, P, R, H, K>(spec_model, anchor, combined),
        },
    }
}

/// Rows were added that are these routes, with their handlers cloned.
pub open spec fn rows_added<H: Clone>(
    before: Seq<Row<H>>,
    after: Seq<Row<H>>,
    rows: Seq<HandlerRow<H>>,
) -> bool {
    &&& after.len() == before.len() + rows.len()
    &&& after.take(before.len() as int) == before
    &&& forall|i: int|
        0 <= i < rows.len() ==> {
            let row = #[trigger] rows[i];
            let added = after[before.len() + i];
            &&& added.shapes == row.shapes
            &&& added.validator == row.validator
            &&& cloned(row.handler, added.handler)
        }
}

/// An object was attached: its entry, its claims and its handler leaves were
/// added, and nothing else changed.
pub open spec fn attached<W, P, R, H: Clone, K: FromCaptures>(
    before: RouterModel<H>,
    after: RouterModel<H>,
    spec_model: SpecModel<W, P, R, H>,
    shape: ObjectShape,
    combined: Seq<char>,
    handler: H,
) -> bool {
    let anchor = pattern::template_of(combined)->Ok_0;
    let rows = mount::handler_rows(spec_model.leaves, combined, spec_model.leaves.len());
    &&& after.dirs == before.dirs
    &&& after.files == before.files
    &&& after.treerefs == before.treerefs
    &&& after.objects.len() == before.objects.len() + 1
    &&& after.objects.drop_last() == before.objects
    &&& object_described::<W, P, R, H, K>(after.objects.last(), spec_model, anchor, shape, handler)
    &&& after.claims == before.claims + mount::mount_claims(spec_model, anchor, combined)
    &&& rows_added(before.handler_files, after.handler_files, mount::file_rows(rows))
    &&& rows_added(before.handler_dirs, after.handler_dirs, mount::dir_rows(rows))
}

/// A row describes a mounted object.
pub open spec fn object_described<W, P, R, H, K: FromCaptures>(
    row: ObjectRow<H>,
    spec_model: SpecModel<W, P, R, H>,
    anchor: Seq<Shape>,
    shape: ObjectShape,
    handler: H,
) -> bool {
    &&& row.shapes == anchor
    &&& row.handler == handler
    &&& row.shape == shape
    &&& row.source == spec_model.table.source
    &&& row.renders == repr::render_types(spec_model.table.renders)
    &&& row.stem == spec_model.stem
    &&& row.ext == spec_model.ext
    &&& row.leaves == mount::listings(spec_model.leaves, spec_model.leaves.len())
    &&& forall|b: Bindings| #[trigger] row.validator.full(b) == K::accepts(b)
    &&& forall|b: Bindings| #[trigger] row.validator.present(b) == K::accepts_present(b)
}

/// The result of attaching: an error and nothing changed, or the object is
/// attached and its runtime side returned.
pub open spec fn attach_result<
    W,
    P,
    R,
    H: Clone,
    K: FromCaptures + FacetMetadata,
>(
    before: RouterModel<H>,
    after: RouterModel<H>,
    prefix: Seq<char>,
    template: Seq<char>,
    shape: ObjectShape,
    spec_model: SpecModel<W, P, R, H>,
    handler: H,
    r: Result<ObjectRoute<W, P, R, H>>,
) -> bool {
    match attach_failure::<W, P, R, H, K>(prefix, template, spec_model) {
        Some(f) => (r matches Err(e) && e@ == f) && after == before,
        None => {
            let combined = combined_template(prefix, template)->Ok_0;
            let anchor = pattern::template_of(combined)->Ok_0;
            &&& attached::<W, P, R, H, K>(before, after, spec_model, shape, combined, handler)
            &&& r matches Ok(route)
            &&& object_route::route_runs(
                route@,
                spec_model,
                facets::placed(anchor, K::axes(), K::axes().len())->Ok_0,
            )
        },
    }
}

/// The first pair of claims, from `i`, `j` on, that overlap.
pub open spec fn first_overlap(claims: Seq<Seq<Shape>>, i: int, j: int) -> Option<(int, int)>
    decreases claims.len() - i, claims.len() - j,
{
    if i < 0 || i >= claims.len() {
        None
    } else if j <= i || j >= claims.len() {
        if j <= i {
            None
        } else {
            first_overlap(claims, i + 1, i + 2)
        }
    } else if pattern::ambiguous(claims[i], claims[j]) {
        Some((i, j))
    } else {
        first_overlap(claims, i, j + 1)
    }
}

/// The failure that reports an overlap.
pub open spec fn overlap_failure(left: Seq<Shape>, right: Seq<Shape>) -> Failure {
    error::failure(
        ProviderErrorKind::InvalidInput,
        "overlapping routes: "@ + pattern::signature(left) + " vs "@ + pattern::signature(right),
    )
}

impl<H> Router<H> {
    pub fn new() -> (r: Self)
        ensures
            r@ == no_routes::<H>(),
    {
        Self::default()
    }

    /// Begin a directory route at `template`; finish with
    /// [`DirRoute::handler`]. The handler answers both listing and
    /// child-lookup intents and returns a directory projection.
    pub fn dir(&mut self, template: &'static str) -> (r: DirRoute<'_, H>)
        ensures
            *r.router == *old(self),
            *final(r.router) == *final(self),
            r.template == template,
    {
        DirRoute { router: self, template }
    }

    /// Begin a file route at `template`; finish with [`FileRoute::handler`].
    /// The handler returns a file projection.
    pub fn file(&mut self, template: &'static str) -> (r: FileRoute<'_, H>)
        ensures
            *r.router == *old(self),
            *final(r.router) == *final(self),
            r.template == template,
    {
        FileRoute { router: self, template }
    }

    /// Begin a subtree-handoff route at `template`; finish with
    /// [`TreeRefRoute::handler`]. The handler returns a tree reference and
    /// the host takes over the whole subtree; provider dispatch never sees
    /// paths below it.
    pub fn treeref(&mut self, template: &'static str) -> (r: TreeRefRoute<'_, H>)
        ensures
            *r.router == *old(self),
            *final(r.router) == *final(self),
            r.template == template,
    {
        TreeRefRoute { router: self, template }
    }

    /// Bind a dir-shaped object: define and attach in one call. The anchor
    /// path becomes a directory whose children are the representations and
    /// leaves declared in `block`. `K` is parsed from the template's
    /// captures. The runtime side of the object is returned.
    pub fn object<
        O: Object,
        W: Copy,
        P: Copy,
        R: Copy,
        K: FromCaptures + FacetMetadata + 'static,
    >(&mut self, block: DirObjectBlock<O, W, P, R, H>, handler: H) -> (r: Result<
        ObjectRoute<W, P, R, H>,
    >) where H: Clone
        ensures
            block_attached::<O, W, P, R, H, K>(
                old(self)@,
                final(self)@,
                block@,
                ObjectShape::Dir,
                handler,
                r,
            ),
    {
        match object::object(block) {
            Ok(handle) => self.attach::<W, P, R, K>("", &handle, handler),
            Err(e) => Err(e),
        }
    }

    /// Bind a file-shaped object. Like [`Self::object`] but the anchor
    /// presents as a file rather than a directory of leaves; the block only
    /// declares representations and an optional `when` predicate.
    pub fn file_object<
        O: Object,
        W: Copy,
        P: Copy,
        R: Copy,
        K: FromCaptures + FacetMetadata + 'static,
    >(&mut self, block: FileObjectBlock<O, W, P, R, H>, handler: H) -> (r: Result<
        ObjectRoute<W, P, R, H>,
    >) where H: Clone
        ensures
            block_attached::<O, W, P, R, H, K>(
                old(self)@,
                final(self)@,
                block@,
                ObjectShape::File,
                handler,
                r,
            ),
    {
        match object::file_object(block) {
            Ok(handle) => self.attach::<W, P, R, K>("", &handle, handler),
            Err(e) => Err(e),
        }
    }

    /// Mount a detached [`ObjectHandle`] under `prefix`. The handle's
    /// absolute template is appended to `prefix` (trailing slashes on
    /// `prefix` are trimmed), so one object definition can be replayed at
    /// multiple attach points; each attach claims its own leaves.
    pub fn attach<W: Copy, P: Copy, R: Copy, K: FromCaptures + FacetMetadata + 'static>(
        &mut self,
        prefix: &str,
        handle: &ObjectHandle<W, P, R, H>,
        handler: H,
    ) -> (r: Result<ObjectRoute<W, P, R, H>>) where H: Clone
        ensures
            attach_result::<W, P, R, H, K>(
                old(self)@,
                final(self)@,
                prefix@,
                handle.template@,
                handle.shape,
                (*handle.spec)@,
                handler,
                r,
            ),
    {
        let combined = match combine_template(prefix, handle.template) {
            Ok(combined) => combined,
            Err(e) => {
                return Err(e);
            },
        };
        let anchor = match handlers::parse_pattern(combined.as_str()) {
            Ok(anchor) => anchor,
            Err(e) => {
                return Err(e);
            },
        };
        let mounted = match mount::mount_object::<W, P, R, H, K>(
            &anchor,
            handle.shape,
            &*handle.spec,
            combined.as_str(),
            handler,
        ) {
            Ok(mounted) => mounted,
            Err(e) => {
                return Err(e);
            },
        };
        let ghost before = self@;
        let ghost entry = mounted.entry;
        let ghost claims = mount::pattern_shapes(mounted.claims@);
        let ghost new_files = mounted.handler_files@;
        let ghost new_dirs = mounted.handler_dirs@;
        let mut more_claims = mounted.claims;
        let mut more_files = mounted.handler_files;
        let mut more_dirs = mounted.handler_dirs;
        self.objects.push(mounted.entry);
        self.leaf_claims.append(&mut more_claims);
        self.handler_files.append(&mut more_files);
        self.handler_dirs.append(&mut more_dirs);
        assert(self@.objects =~= before.objects.push(object_row(entry)));
        assert(self@.objects.drop_last() =~= before.objects);
        assert(self@.claims =~= before.claims + claims);
        assert(self@.handler_files =~= before.handler_files + file_rows(new_files));
        assert(self@.handler_dirs =~= before.handler_dirs + dir_rows(new_dirs));
        assert(self@.handler_files.take(before.handler_files.len() as int)
            =~= before.handler_files);
        assert(self@.handler_dirs.take(before.handler_dirs.len() as int) =~= before.handler_dirs);
        Ok(mounted.route)
    }

    /// One-path-one-route: reject overlapping leaf claims.
    ///
    /// Every registration verb records the leaf patterns it claims (a route
    /// template, an object anchor plus each representation/field/handler
    /// leaf), and this check fails when any pair is ambiguous under the
    /// pattern overlap rule: equal-precedence patterns that can bind the same
    /// concrete path. Overlap with different precedence (a literal next to a
    /// capture at the same depth) is legal and resolves by specificity at
    /// dispatch.
    pub fn seal(&self) -> (r: Result<()>)
        ensures
            match first_overlap(self@.claims, 0, 1) {
                None => r is Ok,
                Some((i, j)) => r matches Err(e) && e@ == overlap_failure(
                    self@.claims[i],
                    self@.claims[j],
                ),
            },
    {
        let ghost claims = self@.claims;
        let total: usize = self.leaf_claims.len();
        let mut i: usize = 0;
        while i < total
            invariant
                i <= total,
                total == self.leaf_claims@.len(),
                claims == mount::pattern_shapes(self.leaf_claims@),
                claims == self@.claims,
                first_overlap(claims, 0, 1) == first_overlap(claims, i as int, i as int + 1),
            decreases total - i,
        {
            let mut j: usize = i + 1;
            while j < total
                invariant
                    i < j <= total,
                    i < total,
                    total == self.leaf_claims@.len(),
                    claims == mount::pattern_shapes(self.leaf_claims@),
                    claims == self@.claims,
                    first_overlap(claims, 0, 1) == first_overlap(claims, i as int, j as int),
                decreases total - j,
            {
                let left = &self.leaf_claims[i];
                let right = &self.leaf_claims[j];
                assert(claims[i as int] == left@);
                assert(claims[j as int] == right@);
                if left.is_ambiguous_with(right) {
                    let mut message = text::concat3(
                        "overlapping routes: ",
                        left.parent_signature().as_str(),
                        " vs ",
                    );
                    message.append(right.parent_signature().as_str());
                    return Err(ProviderError::invalid_input(message.as_str()));
                }
                j = j + 1;
            }
            i = i + 1;
        }
        Ok(())
    }
}

/// The result of binding an object block: an incomplete block is rejected,
/// else the object is attached at its own template.
pub open spec fn block_attached<
    O: Object,
    W,
    P,
    R,
    H: Clone,
    K: FromCaptures + FacetMetadata,
>(
    before: RouterModel<H>,
    after: RouterModel<H>,
    block: BlockModel<W, P, R, H>,
    shape: ObjectShape,
    handler: H,
    r: Result<ObjectRoute<W, P, R, H>>,
) -> bool {
    if block.table is Some && block.stem is Some {
        attach_result::<W, P, R, H, K>(
            before,
            after,
            ""@,
            block.template,
            shape,
            SpecModel {
                when: block.when,
                table: block.table->0,
                stem: block.stem->0,
                ext: O::source_model().leaf_extension(),
                leaves: block.leaves,
            },
            handler,
            r,
        )
    } else {
        (r matches Err(e) && e@ == object::incomplete_block()) && after == before
    }
}

/// A pending [`Router::dir`] registration; nothing is recorded until
/// [`Self::handler`] runs.
pub struct DirRoute<'r, H> {
    pub router: &'r mut Router<H>,
    pub template: &'static str,
}

/// A pending [`Router::file`] registration; nothing is recorded until
/// [`Self::handler`] runs.
pub struct FileRoute<'r, H> {
    pub router: &'r mut Router<H>,
    pub template: &'static str,
}

/// A pending [`Router::treeref`] registration; nothing is recorded until
/// [`Self::handler`] runs.
pub struct TreeRefRoute<'r, H> {
    pub router: &'r mut Router<H>,
    pub template: &'static str,
}

impl<'r, H> DirRoute<'r, H> {
    /// Register the directory handler and claim the template as a leaf.
    /// Errors only on an invalid template.
    pub fn handler(self, h: H, validator: RouteValidator) -> (r: Result<&'r mut Router<H>>)
        ensures
            match pattern::template_of(self.template@) {
                Ok(shapes) => r matches Ok(t) && *final(t) == *final(self.router) && t@
                    == (RouterModel {
                    dirs: old(self.router)@.dirs.push(Row { shapes, handler: h, validator }),
                    claims: old(self.router)@.claims.push(shapes),
                    ..old(self.router)@
                }),
                Err(message) => (r matches Err(e) && e@ == error::failure(
                    ProviderErrorKind::InvalidInput,
                    message,
                )) && final(self.router)@ == old(self.router)@,
            },
    {
        let pattern = handlers::parse_pattern(self.template)?;
        let claim = pattern.clone();
        let ghost before = self.router@;
        let ghost row = Row { shapes: pattern@, handler: h, validator };
        self.router.dirs.push(DirEntry { pattern, handler: h, validator });
        self.router.leaf_claims.push(claim);
        assert(self.router@.dirs =~= before.dirs.push(row));
        assert(self.router@.claims =~= before.claims.push(row.shapes));
        Ok(self.router)
    }
}

impl<'r, H> FileRoute<'r, H> {
    /// Register the file handler and claim the template as a leaf.
    pub fn handler(self, h: H, validator: RouteValidator) -> (r: Result<&'r mut Router<H>>)
        ensures
            match pattern::template_of(self.template@) {
                Ok(shapes) => r matches Ok(t) && *final(t) == *final(self.router) && t@
                    == (RouterModel {
                    files: old(self.router)@.files.push(Row { shapes, handler: h, validator }),
                    claims: old(self.router)@.claims.push(shapes),
                    ..old(self.router)@
                }),
                Err(message) => (r matches Err(e) && e@ == error::failure(
                    ProviderErrorKind::InvalidInput,
                    message,
                )) && final(self.router)@ == old(self.router)@,
            },
    {
        let pattern = handlers::parse_pattern(self.template)?;
        let claim = pattern.clone();
        let ghost before = self.router@;
        let ghost row = Row { shapes: pattern@, handler: h, validator };
        self.router.files.push(FileEntry { pattern, handler: h, validator });
        self.router.leaf_claims.push(claim);
        assert(self.router@.files =~= before.files.push(row));
        assert(self.router@.claims =~= before.claims.push(row.shapes));
        Ok(self.router)
    }
}

impl<'r, H> TreeRefRoute<'r, H> {
    /// Register the subtree-handoff handler and claim the template as a
    /// leaf.
    pub fn handler(self, h: H, validator: RouteValidator) -> (r: Result<&'r mut Router<H>>)
        ensures
            match pattern::template_of(self.template@) {
                Ok(shapes) => r matches Ok(t) && *final(t) == *final(self.router) && t@
                    == (RouterModel {
                    treerefs: old(self.router)@.treerefs.push(
                        Row { shapes, handler: h, validator },
                    ),
                    claims: old(self.router)@.claims.push(shapes),
                    ..old(self.router)@
                }),
                Err(message) => (r matches Err(e) && e@ == error::failure(
                    ProviderErrorKind::InvalidInput,
                    message,
                )) && final(self.router)@ == old(self.router)@,
            },
    {
        let pattern = handlers::parse_pattern(self.template)?;
        let claim = pattern.clone();
        let ghost before = self.router@;
        let ghost row = Row { shapes: pattern@, handler: h, validator };
        self.router.treerefs.push(TreeRefEntry { pattern, handler: h, validator });
        self.router.leaf_claims.push(claim);
        assert(self.router@.treerefs =~= before.treerefs.push(row));
        assert(self.router@.claims =~= before.claims.push(row.shapes));
        Ok(self.router)
    }
}

/// The search for an overlap passes over no overlapping pair, and what it
/// finds is one.
proof fn lemma_first_overlap(claims: Seq<Seq<Shape>>, i: int, j: int)
    requires
        0 <= i < j,
    ensures
        match first_overlap(claims, i, j) {
            Some((a, b)) => 0 <= a < b < claims.len() && pattern::ambiguous(claims[a], claims[b]),
            None => forall|a: int, b: int|
                #![trigger claims[a], claims[b]]
                i <= a < b < claims.len() && (a == i ==> b >= j) ==> !pattern::ambiguous(
                    claims[a],
                    claims[b],
                ),
        },
    decreases claims.len() - i, claims.len() - j,
{
    if i < claims.len() {
        if j >= claims.len() {
            lemma_first_overlap(claims, i + 1, i + 2);
        } else if !pattern::ambiguous(claims[i], claims[j]) {
            lemma_first_overlap(claims, i, j + 1);
        }
    }
}

/// Sealing succeeds exactly when no two claims are ambiguous.
pub proof fn law_seal_rejects_exactly_overlaps(claims: Seq<Seq<Shape>>)
    ensures
        (first_overlap(claims, 0, 1) is None) == (forall|a: int, b: int|
            #![trigger claims[a], claims[b]]
            0 <= a < b < claims.len() ==> !pattern::ambiguous(claims[a], claims[b])),
{
    lemma_first_overlap(claims, 0, 1);
    if let Some((a, b)) = first_overlap(claims, 0, 1) {
        assert(pattern::ambiguous(claims[a], claims[b]));
    }
}

/// After a successful seal, two claims that match the same path never have
/// the same precedence: one of them wins.
pub proof fn law_sealed_claims_are_ordered(
    claims: Seq<Seq<Shape>>,
    segments: Seq<Seq<char>>,
    a: int,
    b: int,
)
    requires
        first_overlap(claims, 0, 1) is None,
        0 <= a < b < claims.len(),
        pattern::path_matches(claims[a], segments),
        pattern::path_matches(claims[b], segments),
    ensures
        pattern::precedence(claims[a]).below(pattern::precedence(claims[b]))
            || pattern::precedence(claims[b]).below(pattern::precedence(claims[a])),
{
    law_seal_rejects_exactly_overlaps(claims);
    if pattern::precedence(claims[a]) == pattern::precedence(claims[b]) {
        pattern_laws::law_equal_precedence_overlap_is_ambiguous(claims[a], claims[b], segments);
    }
}

/// Attaching an object under a prefix puts the prefix in front of its
/// pattern and changes nothing else.
pub proof fn law_attach_prefixes_the_pattern(prefix: Seq<char>, template: Seq<char>)
    requires
        pattern::template_of(prefix) matches Ok(above) && above.len() > 0 && !pattern::has_rest(
            above,
        ),
        pattern::template_of(template) matches Ok(shapes) && shapes.len() > 0,
    ensures
        combined_template(prefix, template) == Ok::<Seq<char>, Failure>(prefix + template),
        pattern::template_of(prefix + template) == Ok::<Seq<Shape>, Seq<char>>(
            pattern::template_of(prefix)->Ok_0 + pattern::template_of(template)->Ok_0,
        ),
{
    reveal_strlit("/");
    let above = pattern::template_of(prefix)->Ok_0;
    let shapes = pattern::template_of(template)->Ok_0;
    pattern_laws::law_template_unique(prefix);
    pattern_laws::law_template_unique(template);
    let both = above + shapes;
    assert(pattern::valid_shapes(both)) by {
        assert forall|i: int| 0 <= i < both.len() implies (#[trigger] both[i]).valid() && (
        both[i] is Rest ==> i == both.len() - 1) by {
            if i < above.len() {
                assert(both[i] == above[i]);
            } else {
                assert(both[i] == shapes[i - above.len()]);
            }
        }
    }
    pattern_laws::law_template_round_trip(both);
    let left = pattern_laws::templates(above);
    let right = pattern_laws::templates(shapes);
    assert(pattern_laws::templates(both) =~= left + right);
    text::lemma_joined_concat(left, right, "/"@);
    assert(pattern_laws::template_text(both) =~= prefix + template);
    if template == "/"@ {
        assert(shapes.len() == 0);
    }
    assert(template[0] == '/');
    assert(prefix != "/"@);
    assert(prefix.last() != '/');
    assert(text::without_end_slashes(prefix) == prefix);
}

/// A registration that fails leaves the router as it was.
pub proof fn law_failed_registration_changes_nothing<
    W,
    P,
    R,
    H: Clone,
    K: FromCaptures + FacetMetadata,
>(
    before: RouterModel<H>,
    after: RouterModel<H>,
    prefix: Seq<char>,
    template: Seq<char>,
    shape: ObjectShape,
    spec_model: SpecModel<W, P, R, H>,
    handler: H,
    r: Result<ObjectRoute<W, P, R, H>>,
)
    requires
        attach_result::<W, P, R, H, K>(
            before,
            after,
            prefix,
            template,
            shape,
            spec_model,
            handler,
            r,
        ),
    ensures
        r is Err ==> after == before,
        !(template.len() > 0 && template[0] == '/') ==> (r matches Err(e) && e@.kind
            == ProviderErrorKind::InvalidInput),
        r is Ok ==> {
            &&& after.objects.len() == before.objects.len() + 1
            &&& forall|i: int|
                0 <= i < before.objects.len() ==> #[trigger] after.objects[i] == before.objects[i]
            &&& after.objects.last().shape == shape
            &&& after.objects.last().handler == handler
            &&& after.objects.last().stem == spec_model.stem
            &&& after.objects.last().ext == spec_model.ext
            &&& after.objects.last().source == spec_model.table.source
            &&& after.dirs == before.dirs
            &&& after.files == before.files
            &&& after.treerefs == before.treerefs
            &&& after.claims.len() > before.claims.len()
            &&& after.claims.take(before.claims.len() as int) == before.claims
        },
{
    if r is Ok {
        assert(after.claims.take(before.claims.len() as int) =~= before.claims);
        assert forall|i: int| 0 <= i < before.objects.len() implies #[trigger] after.objects[i]
            == before.objects[i] by {
            assert(after.objects.drop_last()[i] == after.objects[i]);
        }
    }
}

} // verus!

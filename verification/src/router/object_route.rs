//! The object read path.
//!
//! The cache contract (the host owns all caching; the route only emits
//! effects): every fresh load produces a canonical-store effect carrying the
//! verbatim upstream bytes, the validator, and the expanded view-leaf paths
//! that map back to the object's logical id. On a later read the host pushes
//! those bytes back as a cached canonical and the object is rendered again
//! without an upstream call.
//!
//! Loading is the caller's work: a read or a listing begins here, tells the
//! caller whether to load, and is finished with what the load gave.

use vstd::prelude::*;
use vstd::string::*;

use crate::browse;
use crate::browse::{
    AnswerModel, CachedCanonical, Effects, EffectsModel, FileContent, OutcomeModel, ReadOutcome,
};
use crate::captures::Captures;
use crate::content_type;
use crate::content_type::{ContentModel, ContentType};
use crate::error;
use crate::error::{Failure, ProviderError, ProviderErrorKind, Result};
use crate::file_attrs;
use crate::file_attrs::{FileAttrs, FileModel, FileProj, Size, Stability};
use crate::identity::{IdModel, LogicalId};
use crate::object::{Canonical, FacetMetadata, Key, Load, Object, Validator};
use crate::repr;
use crate::repr::{RenderTable, TableModel};
use crate::router::facets;
use crate::router::facets::{FacetExpansion, PlacedAxis};
use crate::router::object;
use crate::router::object::{LeafModel, ObjectLeaf, ObjectSpec, SpecModel};
use crate::router::pattern::Pattern;
use crate::text;
use crate::wire;
use crate::wire::{KindModel, SourceModel, StoreModel};

verus! {

/// The models of content types.
pub open spec fn types_of(cts: Seq<ContentType>) -> Seq<ContentModel> {
    cts.map_values(|ct: ContentType| ct@)
}

/// The content types of renders.
pub fn types<R>(renders: &[(ContentType, R)]) -> (r: Vec<ContentType>)
    ensures
        types_of(r@) == repr::render_types(renders@),
{
    let mut out: Vec<ContentType> = Vec::new();
    let mut i: usize = 0;
    let ghost all = repr::render_types(renders@);
    while i < renders.len()
        invariant
            i <= renders@.len(),
            all == repr::render_types(renders@),
            types_of(out@) == all.take(i as int),
        decreases renders@.len() - i,
    {
        let ghost before = types_of(out@);
        out.push(renders[i].0);
        assert(types_of(out@) =~= before.push(all[i as int]));
        assert(all.take(i as int + 1) =~= all.take(i as int).push(all[i as int]));
        i = i + 1;
    }
    assert(all.take(all.len() as int) =~= all);
    out
}

/// What the runtime side of a mounted object holds.
pub struct RouteModel<W, P, R, H> {
    pub leaves: Seq<LeafModel<P, H>>,
    pub table: TableModel<R>,
    pub axes: Seq<PlacedAxis>,
    pub when: Option<W>,
}

/// The typed runtime side of a mounted object: everything a read or a listing
/// needs.
pub struct ObjectRoute<W, P, R, H> {
    leaves: Vec<ObjectLeaf<P, H>>,
    render_table: RenderTable<R>,
    facet_expansion: FacetExpansion,
    when: Option<W>,
}

impl<W, P, R, H> View for ObjectRoute<W, P, R, H> {
    type V = RouteModel<W, P, R, H>;

    closed spec fn view(&self) -> RouteModel<W, P, R, H> {
        RouteModel {
            leaves: object::leaf_models(self.leaves@),
            table: self.render_table@,
            axes: self.facet_expansion@,
            when: self.when,
        }
    }
}

/// A route runs a declared object with these facets.
pub open spec fn route_runs<W, P, R, H: Clone>(
    route: RouteModel<W, P, R, H>,
    spec_model: SpecModel<W, P, R, H>,
    axes: Seq<PlacedAxis>,
) -> bool {
    &&& object::leaves_cloned(spec_model.leaves, route.leaves)
    &&& route.table == spec_model.table
    &&& route.axes == axes
    &&& route.when == spec_model.when
}

impl<W: Copy, P: Copy, R: Copy, H: Clone> ObjectRoute<W, P, R, H> {
    /// Specializes a definition for a mount: resolves the facets in the
    /// anchor template.
    pub fn for_mount<K: FacetMetadata>(
        spec_of: &ObjectSpec<W, P, R, H>,
        pattern: &Pattern,
    ) -> (r: Result<Self>)
        ensures
            match facets::placed(pattern@, K::axes(), K::axes().len()) {
                Ok(axes) => r matches Ok(route) && route_runs(route@, spec_of@, axes),
                Err(f) => r matches Err(e) && e@ == f,
            },
    {
        let facet_expansion = match FacetExpansion::for_pattern::<K>(pattern) {
            Ok(expansion) => expansion,
            Err(e) => {
                return Err(e);
            },
        };
        Ok(
            ObjectRoute {
                leaves: object::clone_leaves(spec_of.leaves()),
                render_table: spec_of.render_table().clone(),
                facet_expansion,
                when: spec_of.when(),
            },
        )
    }
}

/// Which child of the anchor a read addresses: a representation by content
/// type, or a projected field by leaf name.
#[derive(Debug, PartialEq, Eq)]
pub enum ObjectReadTarget {
    Representation(ContentType),
    Projected(String),
}

/// What an [`ObjectReadTarget`] addresses.
pub enum TargetModel {
    Representation(ContentModel),
    Projected(Seq<char>),
}

impl View for ObjectReadTarget {
    type V = TargetModel;

    open spec fn view(&self) -> TargetModel {
        match self {
            ObjectReadTarget::Representation(ct) => TargetModel::Representation(ct@),
            ObjectReadTarget::Projected(name) => TargetModel::Projected(name@),
        }
    }
}

/// Attributes of the identity answer: the size is unknown because the host
/// serves the stored bytes directly.
pub open spec fn identity_attrs() -> FileAttrs {
    FileAttrs { size: Size::Unknown, stability: Stability::Immutable, version: None }
}

fn canonical_attrs() -> (r: FileAttrs)
    ensures
        r == identity_attrs(),
{
    FileAttrs::new(Size::Unknown, Stability::Immutable)
}

fn body_file_content(bytes: Vec<u8>, ct: ContentType) -> (r: FileContent)
    ensures
        r@ == (AnswerModel { content_type: Some(ct@), ..browse::inline_answer(bytes@) }),
{
    FileContent::new(bytes).with_content_type(ct)
}

/// The number of inline bytes.
pub open spec fn inline_size(answer: AnswerModel) -> u64 {
    match answer.bytes {
        SourceModel::Inline(bytes) => bytes.len() as u64,
        _ => 0,
    }
}

fn content_size(content: &FileContent) -> (r: u64)
    ensures
        r == inline_size(content@),
{
    match content.content() {
        Some(bytes) => bytes.len() as u64,
        None => 0,
    }
}

/// The position of the first projected leaf of that name, from `i` on.
pub open spec fn field_index<P, H>(
    leaves: Seq<LeafModel<P, H>>,
    name: Seq<char>,
    i: int,
) -> Option<int>
    decreases leaves.len() - i,
{
    if i < 0 || i >= leaves.len() {
        None
    } else {
        match leaves[i] {
            LeafModel::Projected { name: found, .. } => if found == name {
                Some(i)
            } else {
                field_index(leaves, name, i + 1)
            },
            _ => field_index(leaves, name, i + 1),
        }
    }
}

/// The failure for a field that is not there.
pub open spec fn missing_field(name: Seq<char>) -> Failure {
    error::failure(ProviderErrorKind::NotFound, "field "@ + name + " not found"@)
}

/// The answer that a projected field becomes: typed and sized, with the
/// leaf's stability, and with these effects staged too.
pub open spec fn field_answer(
    content: AnswerModel,
    ct: ContentModel,
    stability: Stability,
    effects: EffectsModel,
) -> AnswerModel {
    AnswerModel {
        content_type: Some(ct),
        attrs: FileAttrs { size: Size::Exact(inline_size(content)), stability, version: None },
        bytes: content.bytes,
        effects: content.effects.then_also(effects),
    }
}

/// `r` serves a projected field from a value.
pub open spec fn field_served<O, P: Fn(&O) -> Result<FileContent>, H>(
    leaves: Seq<LeafModel<P, H>>,
    value: O,
    name: Seq<char>,
    effects: EffectsModel,
    r: Result<ReadOutcome>,
) -> bool {
    match field_index(leaves, name, 0) {
        None => r matches Err(e) && e@ == missing_field(name),
        Some(i) => match leaves[i] {
            LeafModel::Projected { project, content_type, stability, .. } => exists|
                projected: Result<FileContent>,
            |
                #![trigger call_ensures(project, (&value,), projected)]
                call_ensures(project, (&value,), projected) && match projected {
                    Err(e) => r matches Err(e2) && e2@ == e@,
                    Ok(content) => r matches Ok(outcome) && outcome@ == OutcomeModel::Found(
                        field_answer(content@, content_type, stability, effects),
                    ),
                },
            _ => true,
        },
    }
}

/// `r` serves a target from canonical bytes. The source content type answers
/// with the identity reference; other representations are rendered; a
/// projected field parses the canonical again and runs its projection.
pub open spec fn canonical_served<
    O: Object,
    P: Fn(&O) -> Result<FileContent>,
    R: Fn(&[u8]) -> Result<Vec<u8>>,
    H,
>(
    leaves: Seq<LeafModel<P, H>>,
    table: TableModel<R>,
    target: TargetModel,
    bytes: &[u8],
    effects: EffectsModel,
    r: Result<ReadOutcome>,
) -> bool {
    match target {
        TargetModel::Representation(ct) => if ct == table.source {
            r matches Ok(outcome) && outcome@ == OutcomeModel::Found(
                AnswerModel {
                    content_type: None,
                    attrs: identity_attrs(),
                    bytes: SourceModel::Canonical,
                    effects: browse::no_effects().then_also(effects),
                },
            )
        } else {
            exists|rendered: Result<Vec<u8>>|
                #![trigger repr::served(table, ct, bytes, rendered)]
                repr::served(table, ct, bytes, rendered) && match rendered {
                    Err(e) => r matches Err(e2) && e2@ == e@,
                    Ok(body) => r matches Ok(outcome) && outcome@ == OutcomeModel::Found(
                        AnswerModel {
                            content_type: Some(ct),
                            effects: browse::no_effects().then_also(effects),
                            ..browse::inline_answer(body@)
                        },
                    ),
                }
        },
        TargetModel::Projected(name) => match O::parse_failure(bytes@) {
            Some(f) => r matches Err(e) && e@ == f,
            None => exists|value: O|
                #![trigger O::parsed(bytes@, value)]
                O::parsed(bytes@, value) && field_served(leaves, value, name, effects, r),
        },
    }
}

/// `r` serves a target right after a fresh load. A projected target uses the
/// value that was loaded; representations come from the canonical bytes.
pub open spec fn fresh_served<
    O: Object,
    P: Fn(&O) -> Result<FileContent>,
    R: Fn(&[u8]) -> Result<Vec<u8>>,
    H,
>(
    leaves: Seq<LeafModel<P, H>>,
    table: TableModel<R>,
    value: O,
    target: TargetModel,
    bytes: &[u8],
    effects: EffectsModel,
    r: Result<ReadOutcome>,
) -> bool {
    match target {
        TargetModel::Projected(name) => field_served(leaves, value, name, effects, r),
        TargetModel::Representation(_) => canonical_served::<O, P, R, H>(
            leaves,
            table,
            target,
            bytes,
            effects,
            r,
        ),
    }
}

/// Every projection can be called with any value.
pub open spec fn projectable<O, P: Fn(&O) -> Result<FileContent>, H>(
    leaves: Seq<LeafModel<P, H>>,
) -> bool {
    forall|i: int, value: &O|
        #![trigger leaves[i], call_requires(leaves[i]->project, (value,))]
        0 <= i < leaves.len() && leaves[i] is Projected ==> call_requires(
            leaves[i]->project,
            (value,),
        )
}

/// Serves a projected field from a value.
fn serve_field<O, P: Fn(&O) -> Result<FileContent>, H>(
    value: &O,
    name: &str,
    leaves: &[ObjectLeaf<P, H>],
    effects: Effects,
) -> (r: Result<ReadOutcome>)
    requires
        projectable::<O, P, H>(object::leaf_models(leaves@)),
    ensures
        field_served(object::leaf_models(leaves@), *value, name@, effects@, r),
{
    let ghost models = object::leaf_models(leaves@);
    let mut i: usize = 0;
    while i < leaves.len()
        invariant
            i <= leaves@.len(),
            models == object::leaf_models(leaves@),
            projectable::<O, P, H>(models),
            field_index(models, name@, 0) == field_index(models, name@, i as int),
        decreases leaves@.len() - i,
    {
        assert(models[i as int] == leaves@[i as int]@);
        if let ObjectLeaf::Projected { leaf_name, project, content_type, stability, .. }
            = &leaves[i] {
            if text::same(leaf_name.as_str(), name) {
                assert(call_requires(models[i as int]->project, (value,)));
                let projected = project(value);
                match projected {
                    Ok(content) => {
                        let size: u64 = content_size(&content);
                        let answer = content.with_content_type(*content_type).with_attrs(
                            FileAttrs::new(Size::Exact(size), *stability),
                        );
                        let r: Result<ReadOutcome> = Ok(
                            ReadOutcome::Found(answer.with_effects(effects)),
                        );
                        assert(call_ensures(*project, (value,), Ok(content)));
                        return r;
                    },
                    Err(e) => {
                        assert(call_ensures(*project, (value,), Err(e)));
                        return Err(e);
                    },
                }
            }
        }
        i = i + 1;
    }
    let message = text::concat3("field ", name, " not found");
    Err(ProviderError::not_found(message.as_str()))
}

/// Serve from host-pushed canonical bytes with no effects: the host already
/// owns these bytes, so re-storing them would be redundant.
fn serve_warm<
    O: Object,
    P: Fn(&O) -> Result<FileContent>,
    R: Fn(&[u8]) -> Result<Vec<u8>>,
    H,
>(
    target: &ObjectReadTarget,
    bytes: &[u8],
    render_table: &RenderTable<R>,
    leaves: &[ObjectLeaf<P, H>],
) -> (r: Result<ReadOutcome>)
    requires
        repr::callable(render_table@.renders),
        projectable::<O, P, H>(object::leaf_models(leaves@)),
    ensures
        canonical_served::<O, P, R, H>(
            object::leaf_models(leaves@),
            render_table@,
            target@,
            bytes,
            browse::no_effects(),
            r,
        ),
{
    serve_from_canonical::<O, P, R, H>(target, bytes, render_table, leaves, Effects::new())
}

/// Serve right after a fresh load, attaching the canonical-store effects.
/// A projected target uses the already-parsed value (no re-parse of the
/// bytes); representations render from the canonical bytes.
fn serve_fresh<
    O: Object,
    P: Fn(&O) -> Result<FileContent>,
    R: Fn(&[u8]) -> Result<Vec<u8>>,
    H,
>(
    value: &O,
    target: &ObjectReadTarget,
    bytes: &[u8],
    render_table: &RenderTable<R>,
    leaves: &[ObjectLeaf<P, H>],
    effects: Effects,
) -> (r: Result<ReadOutcome>)
    requires
        repr::callable(render_table@.renders),
        projectable::<O, P, H>(object::leaf_models(leaves@)),
    ensures
        fresh_served::<O, P, R, H>(
            object::leaf_models(leaves@),
            render_table@,
            *value,
            target@,
            bytes,
            effects@,
            r,
        ),
{
    match target {
        ObjectReadTarget::Projected(name) => serve_field(value, name.as_str(), leaves, effects),
        ObjectReadTarget::Representation(_) => serve_from_canonical::<O, P, R, H>(
            target,
            bytes,
            render_table,
            leaves,
            effects,
        ),
    }
}

/// Serve any target from canonical bytes. The source content type answers
/// with the identity reference (the host already holds the bytes; they are
/// not echoed back); other representations render through the table; a
/// projected field re-parses the canonical and runs its projection.
fn serve_from_canonical<
    O: Object,
    P: Fn(&O) -> Result<FileContent>,
    R: Fn(&[u8]) -> Result<Vec<u8>>,
    H,
>(
    target: &ObjectReadTarget,
    bytes: &[u8],
    render_table: &RenderTable<R>,
    leaves: &[ObjectLeaf<P, H>],
    effects: Effects,
) -> (r: Result<ReadOutcome>)
    requires
        repr::callable(render_table@.renders),
        projectable::<O, P, H>(object::leaf_models(leaves@)),
    ensures
        canonical_served::<O, P, R, H>(
            object::leaf_models(leaves@),
            render_table@,
            target@,
            bytes,
            effects@,
            r,
        ),
{
    match target {
        ObjectReadTarget::Representation(ct) => {
            if ct.same(render_table.source_ct()) {
                return Ok(
                    ReadOutcome::Found(
                        FileContent::canonical(canonical_attrs()).with_effects(effects),
                    ),
                );
            }
            let rendered = render_table.serve(*ct, bytes);
            assert(repr::served(render_table@, ct@, bytes, rendered));
            match rendered {
                Ok(body) => Ok(
                    ReadOutcome::Found(body_file_content(body, *ct).with_effects(effects)),
                ),
                Err(e) => Err(e),
            }
        },
        ObjectReadTarget::Projected(name) => {
            let value = match O::parse_canonical(bytes) {
                Ok(value) => value,
                Err(e) => {
                    return Err(e);
                },
            };
            let r = serve_field(&value, name.as_str(), leaves, effects);
            assert(O::parsed(bytes@, value));
            r
        },
    }
}

/// The id that host-pushed bytes belong to.
pub open spec fn pushed_id(cached: Option<CachedCanonical>) -> Option<IdModel> {
    match cached {
        Some(push) => Some(push.id@),
        None => None,
    }
}

/// The id that a key anchors to.
pub open spec fn anchor<K: Key>(key: K) -> IdModel {
    crate::object::anchor_of(&key)
}

/// The validator of host-pushed bytes.
pub open spec fn pushed_validator(cached: Option<CachedCanonical>) -> Option<Validator> {
    match cached {
        Some(push) => push.validator,
        None => None,
    }
}

/// The predicate, if there is one, says yes or no for a key.
pub open spec fn gate<K, W: Fn(&K) -> bool>(when: Option<W>, key: K, open: bool) -> bool {
    match when {
        Some(pred) => call_ensures(pred, (&key,), open),
        None => open,
    }
}

/// The predicate can be asked about any key.
pub open spec fn gateable<K, W: Fn(&K) -> bool>(when: Option<W>) -> bool {
    when matches Some(pred) ==> forall|key: &K| #[trigger] call_requires(pred, (key,))
}

/// A load is conditional on this validator.
pub open spec fn since_is(since: Option<Validator>, version: Option<&Validator>) -> bool {
    match version {
        Some(token) => since matches Some(given) && given == *token,
        None => since is None,
    }
}

/// What a read does next.
pub enum ReadStep<K> {
    /// The read is answered.
    Done(ReadOutcome),
    /// The object has to be loaded, conditionally on `since`.
    Load { key: K, since: Option<Validator> },
}

/// `step` is what a read does with a key: a key that the predicate refuses is
/// not found, pushed bytes of the key's own object are served, and everything
/// else is loaded.
pub open spec fn read_begun<
    K: Key,
    W: Fn(&K) -> bool,
    P: Fn(&K::Object) -> Result<FileContent>,
    R: Fn(&[u8]) -> Result<Vec<u8>>,
    H,
>(
    route: RouteModel<W, P, R, H>,
    key: K,
    target: TargetModel,
    cached: Option<CachedCanonical>,
    step: Result<ReadStep<K>>,
) -> bool {
    ||| gate(route.when, key, false) && (step matches Ok(ReadStep::Done(outcome)) && outcome@
        == OutcomeModel::NotFound(None))
    ||| gate(route.when, key, true) && pushed_id(cached) == Some(anchor(key)) && exists|
        r: Result<ReadOutcome>,
        bytes: &[u8],
    |
        #![trigger canonical_served::<K::Object, P, R, H>(
            route.leaves,
            route.table,
            target,
            bytes,
            browse::no_effects(),
            r,
        )]
        bytes@ == cached->0.bytes@ && canonical_served::<K::Object, P, R, H>(
            route.leaves,
            route.table,
            target,
            bytes,
            browse::no_effects(),
            r,
        ) && match r {
            Ok(outcome) => step == Ok::<ReadStep<K>, ProviderError>(ReadStep::Done(outcome)),
            Err(e) => step == Err::<ReadStep<K>, ProviderError>(e),
        }
    ||| gate(route.when, key, true) && pushed_id(cached) != Some(anchor(key)) && step == Ok::<
        ReadStep<K>,
        ProviderError,
    >(ReadStep::Load { key, since: pushed_validator(cached) })
}

/// The effect of a fresh load: the verbatim bytes are stored for the object,
/// with the paths that are views of them.
pub open spec fn stored(id: IdModel, canonical: Canonical, leaves: Seq<Seq<char>>) -> EffectsModel {
    browse::no_effects().with_store(
        StoreModel {
            id,
            validator: browse::token_text(canonical.validator),
            bytes: canonical.bytes@,
            view_leaves: leaves,
        },
    )
}

/// `r` is what a read answers when the load gave `load`.
pub open spec fn read_finished<
    K: Key,
    W,
    P: Fn(&K::Object) -> Result<FileContent>,
    R: Fn(&[u8]) -> Result<Vec<u8>>,
    H,
>(
    route: RouteModel<W, P, R, H>,
    key: K,
    target: TargetModel,
    cached: Option<CachedCanonical>,
    read_path: Seq<char>,
    load: Load<K::Object>,
    r: Result<ReadOutcome>,
) -> bool {
    match load {
        Load::Fresh { value, canonical } => match facets::expanded(
            route.axes,
            read_path,
            route.axes.len(),
        ) {
            Err(f) => r matches Err(e) && e@ == f,
            Ok(leaves) => exists|bytes: &[u8]|
                #![trigger fresh_served::<K::Object, P, R, H>(
                    route.leaves,
                    route.table,
                    value,
                    target,
                    bytes,
                    stored(anchor(key), canonical, leaves),
                    r,
                )]
                bytes@ == canonical.bytes@ && fresh_served::<K::Object, P, R, H>(
                    route.leaves,
                    route.table,
                    value,
                    target,
                    bytes,
                    stored(anchor(key), canonical, leaves),
                    r,
                ),
        },
        Load::Unchanged => match cached {
            None => r matches Err(e) && e@ == error::failure(
                ProviderErrorKind::Internal,
                "Load::Unchanged returned without a host-pushed canonical"@,
            ),
            Some(push) => exists|bytes: &[u8]|
                #![trigger canonical_served::<K::Object, P, R, H>(
                    route.leaves,
                    route.table,
                    target,
                    bytes,
                    browse::no_effects(),
                    r,
                )]
                bytes@ == push.bytes@ && canonical_served::<K::Object, P, R, H>(
                    route.leaves,
                    route.table,
                    target,
                    bytes,
                    browse::no_effects(),
                    r,
                ),
        },
        Load::NotFound => r matches Ok(outcome) && outcome@ == OutcomeModel::NotFound(
            Some(anchor(key)),
        ),
    }
}

/// A path one leaf below.
pub open spec fn leaf_path(path: Seq<char>, name: Seq<char>) -> Seq<char> {
    path + "/"@ + name
}

/// The paths that are views of the canonical bytes: the first `n` leaves that
/// are served from them, each across all facets.
pub open spec fn views_below<P, H>(
    leaves: Seq<LeafModel<P, H>>,
    axes: Seq<PlacedAxis>,
    path: Seq<char>,
    n: nat,
) -> core::result::Result<Seq<Seq<char>>, Failure>
    decreases n,
{
    if n == 0 {
        Ok(Seq::empty())
    } else {
        match views_below(leaves, axes, path, (n - 1) as nat) {
            Err(f) => Err(f),
            Ok(done) => match crate::router::mount::canonical_leaf(leaves[n - 1]) {
                None => Ok(done),
                Some(name) => match facets::expanded(axes, leaf_path(path, name), axes.len()) {
                    Err(f) => Err(f),
                    Ok(more) => Ok(done + more),
                },
            },
        }
    }
}

proof fn lemma_views_below_error<P, H>(
    leaves: Seq<LeafModel<P, H>>,
    axes: Seq<PlacedAxis>,
    path: Seq<char>,
    n: nat,
    m: nat,
)
    requires
        n <= m,
        views_below(leaves, axes, path, n) is Err,
    ensures
        views_below(leaves, axes, path, m) == views_below(leaves, axes, path, n),
    decreases m,
{
    if n < m {
        lemma_views_below_error(leaves, axes, path, n, (m - 1) as nat);
    }
}

/// A field leaf that is preloaded when the anchor is listed.
pub open spec fn eager<P, H>(leaf: LeafModel<P, H>) -> bool {
    leaf matches LeafModel::Projected { lazy, .. } && !lazy
}

/// The file that a projected field is preloaded as.
pub open spec fn preloaded(content: AnswerModel, stability: Stability) -> FileModel {
    FileModel {
        content_type: content.content_type,
        ..file_attrs::inline_file(content.bytes->Inline_0, stability, None)
    }
}

/// The effects after preloading the eager fields among the first `n` leaves,
/// whose projections gave `results`, or the first failure.
pub open spec fn preloads<P, H>(
    leaves: Seq<LeafModel<P, H>>,
    id: IdModel,
    path: Seq<char>,
    before: EffectsModel,
    results: Seq<Result<FileContent>>,
    n: nat,
) -> core::result::Result<EffectsModel, Failure>
    decreases n,
{
    if n == 0 {
        Ok(before)
    } else {
        match preloads(leaves, id, path, before, results, (n - 1) as nat) {
            Err(f) => Err(f),
            Ok(staged) => match leaves[n - 1] {
                LeafModel::Projected { name, lazy, stability, .. } => if lazy {
                    Ok(staged)
                } else {
                    match results[n - 1] {
                        Err(e) => Err(e@),
                        Ok(content) => if content@.bytes is Inline {
                            browse::staged_write(
                                staged,
                                leaf_path(path, name),
                                file_attrs::file_failure(preloaded(content@, stability)),
                                Some(id),
                                KindModel::File(
                                    wire::lowered_file(preloaded(content@, stability)),
                                ),
                            )
                        } else {
                            Err(
                                error::failure(
                                    ProviderErrorKind::Internal,
                                    "projected object leaf "@ + text::quoted(name)
                                        + " cannot preload non-inline bytes"@,
                                ),
                            )
                        },
                    }
                },
                _ => Ok(staged),
            },
        }
    }
}

/// `results` are what the eager projections among the first `n` leaves gave.
pub open spec fn projections_gave<O, P: Fn(&O) -> Result<FileContent>, H>(
    leaves: Seq<LeafModel<P, H>>,
    value: O,
    results: Seq<Result<FileContent>>,
    n: nat,
) -> bool {
    forall|i: int|
        #![trigger results[i]]
        0 <= i < n && eager(leaves[i]) ==> call_ensures(
            leaves[i]->project,
            (&value,),
            results[i],
        )
}

/// The eager fields were preloaded one after the other, up to the first
/// failure.
pub open spec fn eagerly_preloaded<O, P: Fn(&O) -> Result<FileContent>, H>(
    leaves: Seq<LeafModel<P, H>>,
    value: O,
    id: IdModel,
    path: Seq<char>,
    before: EffectsModel,
    outcome: core::result::Result<EffectsModel, Failure>,
) -> bool {
    exists|results: Seq<Result<FileContent>>|
        #![trigger preloads(leaves, id, path, before, results, results.len())]
        {
            &&& results.len() <= leaves.len()
            &&& projections_gave(leaves, value, results, results.len())
            &&& preloads(leaves, id, path, before, results, results.len()) == outcome
            &&& outcome is Ok ==> results.len() == leaves.len()
        }
}

/// What is projected later does not change what was preloaded before.
proof fn lemma_preloads_prefix<P, H>(
    leaves: Seq<LeafModel<P, H>>,
    id: IdModel,
    path: Seq<char>,
    before: EffectsModel,
    results: Seq<Result<FileContent>>,
    more: Seq<Result<FileContent>>,
    n: nat,
)
    requires
        n <= results.len(),
        n <= more.len(),
        forall|i: int| 0 <= i < n ==> results[i] == more[i],
    ensures
        preloads(leaves, id, path, before, results, n) == preloads(
            leaves,
            id,
            path,
            before,
            more,
            n,
        ),
    decreases n,
{
    if n > 0 {
        lemma_preloads_prefix(leaves, id, path, before, results, more, (n - 1) as nat);
    }
}

/// `r` is what an anchor listing stages when the load gave `load`.
pub open spec fn list_finished<K: Key, W, P: Fn(&K::Object) -> Result<FileContent>, R, H>(
    route: RouteModel<W, P, R, H>,
    key: K,
    list_path: Seq<char>,
    load: Load<K::Object>,
    r: Result<Effects>,
) -> bool {
    match load {
        Load::Fresh { value, canonical } => match views_below(
            route.leaves,
            route.axes,
            list_path,
            route.leaves.len(),
        ) {
            Err(f) => r matches Err(e) && e@ == f,
            Ok(leaves) => eagerly_preloaded(
                route.leaves,
                value,
                anchor(key),
                list_path,
                stored(anchor(key), canonical, leaves),
                match r {
                    Ok(effects) => Ok(effects@),
                    Err(e) => Err(e@),
                },
            ),
        },
        Load::Unchanged => r matches Ok(effects) && effects@ == browse::no_effects(),
        Load::NotFound => r matches Err(e) && e@ == object_missing(list_path),
    }
}

/// The failure for an object that is not there.
pub open spec fn object_missing(path: Seq<char>) -> Failure {
    error::failure(ProviderErrorKind::NotFound, "object not found: "@ + path)
}

fn object_not_found(path: &str) -> (r: ProviderError)
    ensures
        r@ == object_missing(path@),
{
    ProviderError::not_found(text::concat("object not found: ", path).as_str())
}

impl<W, P, R, H> ObjectRoute<W, P, R, H> {
    /// Every full path that maps to this object's canonical bytes: each
    /// representation and projected leaf under the anchor, multiplied across
    /// facet choices. Handler leaves are excluded; they are not derived from
    /// the canonical.
    pub fn view_leaves(&self, list_path: &str) -> (r: Result<Vec<String>>)
        ensures
            match views_below(self@.leaves, self@.axes, list_path@, self@.leaves.len()) {
                Ok(leaves) => r matches Ok(v) && text::views(v@) == leaves,
                Err(f) => r matches Err(e) && e@ == f,
            },
    {
        let ghost models = self@.leaves;
        let ghost axes = self@.axes;
        let mut out: Vec<String> = Vec::new();
        let mut i: usize = 0;
        assert(text::views(out@) =~= Seq::<Seq<char>>::empty());
        while i < self.leaves.len()
            invariant
                i <= self.leaves@.len(),
                models == object::leaf_models(self.leaves@),
                axes == self.facet_expansion@,
                views_below(models, axes, list_path@, i as nat) == Ok::<
                    Seq<Seq<char>>,
                    Failure,
                >(text::views(out@)),
            decreases self.leaves@.len() - i,
        {
            assert(models[i as int] == self.leaves@[i as int]@);
            let name = match &self.leaves[i] {
                ObjectLeaf::Representation { leaf_name, .. } => Some(leaf_name.as_str()),
                ObjectLeaf::Projected { leaf_name, .. } => Some(leaf_name.as_str()),
                _ => None,
            };
            if let Some(name) = name {
                let path = text::concat3(list_path, "/", name);
                match self.facet_expansion.expand_view_leaves(path.as_str()) {
                    Ok(mut more) => {
                        let ghost before = text::views(out@);
                        let ghost added = text::views(more@);
                        out.append(&mut more);
                        assert(text::views(out@) =~= before + added);
                    },
                    Err(e) => {
                        proof {
                            lemma_views_below_error(
                                models,
                                axes,
                                list_path@,
                                (i + 1) as nat,
                                models.len(),
                            );
                        }
                        return Err(e);
                    },
                }
            }
            i = i + 1;
        }
        Ok(out)
    }

    /// Materialize every non-lazy projected leaf into `fs` effects at listing
    /// time, tagged with the object id so leaf invalidation cascades. This is
    /// the preload discipline applied to objects: the value is already in
    /// hand, so its cheap fields ship now instead of forcing per-leaf reads.
    /// Errors when a projection yields non-inline bytes; eager preloads must
    /// be inline.
    fn project_eager_fields<O>(
        &self,
        effects: &mut Effects,
        id: &LogicalId,
        value: &O,
        list_path: &str,
    ) -> (r: Result<()>) where P: Fn(&O) -> Result<FileContent>
        requires
            projectable::<O, P, H>(self@.leaves),
        ensures
            eagerly_preloaded(
                self@.leaves,
                *value,
                id@,
                list_path@,
                old(effects)@,
                match r {
                    Ok(_) => Ok(final(effects)@),
                    Err(e) => Err(e@),
                },
            ),
    {
        let ghost models = self@.leaves;
        let ghost before = effects@;
        let ghost mut results: Seq<Result<FileContent>> = Seq::empty();
        let mut i: usize = 0;
        while i < self.leaves.len()
            invariant
                i <= self.leaves@.len(),
                models == object::leaf_models(self.leaves@),
                models == self@.leaves,
                projectable::<O, P, H>(models),
                before == old(effects)@,
                results.len() == i,
                projections_gave(models, *value, results, i as nat),
                preloads(models, id@, list_path@, before, results, i as nat) == Ok::<
                    EffectsModel,
                    Failure,
                >(effects@),
            decreases self.leaves@.len() - i,
        {
            assert(models[i as int] == self.leaves@[i as int]@);
            let ghost earlier = results;
            let mut failed: Option<ProviderError> = None;
            if let ObjectLeaf::Projected { leaf_name, project, lazy, stability, .. }
                = &self.leaves[i] {
                if !*lazy {
                    assert(call_requires(models[i as int]->project, (value,)));
                    let projected = project(value);
                    proof {
                        results = earlier.push(projected);
                        lemma_preloads_prefix(
                            models,
                            id@,
                            list_path@,
                            before,
                            earlier,
                            results,
                            i as nat,
                        );
                        assert(call_ensures(models[i as int]->project, (value,), projected));
                        assert(projections_gave(models, *value, results, (i + 1) as nat)) by {
                            assert forall|k: int|
                                0 <= k < i + 1 && eager(models[k]) implies call_ensures(
                                models[k]->project,
                                (value,),
                                #[trigger] results[k],
                            ) by {
                                if k < i {
                                    assert(results[k] == earlier[k]);
                                }
                            }
                        }
                    }
                    match projected {
                        Ok(content) => match content.content() {
                            Some(bytes) => {
                                let file = FileProj::inline(
                                    file_attrs::copy_bytes(bytes),
                                    *stability,
                                    None,
                                );
                                let file = match content.content_type() {
                                    Some(ct) => file.with_content_type(ct),
                                    None => file,
                                };
                                assert(file@ == preloaded(content@, *stability));
                                let path = text::concat3(list_path, "/", leaf_name.as_str());
                                match effects.project_file_with_id(
                                    path.as_str(),
                                    Some(id),
                                    file,
                                ) {
                                    Ok(_) => {},
                                    Err(e) => {
                                        failed = Some(e);
                                    },
                                }
                            },
                            None => {
                                let message = text::concat3(
                                    "projected object leaf ",
                                    text::debug_quoted(leaf_name.as_str()).as_str(),
                                    " cannot preload non-inline bytes",
                                );
                                failed = Some(ProviderError::internal(message.as_str()));
                            },
                        },
                        Err(e) => {
                            failed = Some(e);
                        },
                    }
                }
            }
            proof {
                if results == earlier {
                    results = earlier.push(arbitrary());
                    lemma_preloads_prefix(
                        models,
                        id@,
                        list_path@,
                        before,
                        earlier,
                        results,
                        i as nat,
                    );
                    assert forall|k: int| 0 <= k < i + 1 && eager(models[k]) implies call_ensures(
                        models[k]->project,
                        (value,),
                        #[trigger] results[k],
                    ) by {
                        assert(results[k] == earlier[k]);
                    }
                }
            }
            if let Some(e) = failed {
                assert(preloads(models, id@, list_path@, before, results, results.len()) == Err::<
                    EffectsModel,
                    Failure,
                >(e@));
                return Err(e);
            }
            i = i + 1;
        }
        Ok(())
    }

    /// Whether the predicate lets a key through.
    fn admits<K>(&self, key: &K) -> (r: bool) where W: Fn(&K) -> bool
        requires
            gateable::<K, W>(self@.when),
        ensures
            gate(self@.when, *key, r),
    {
        match &self.when {
            Some(pred) => pred(key),
            None => true,
        }
    }

    /// Begins an anchor listing: reads the key that has to be loaded,
    /// conditionally on `version`, the validator that the host pushed for the
    /// listing. A key that the predicate refuses is not found.
    pub fn begin_list<K: Key>(
        &self,
        caps: &Captures,
        list_path: &str,
        version: Option<&Validator>,
    ) -> (r: Result<(K, Option<Validator>)>) where W: Fn(&K) -> bool
        requires
            gateable::<K, W>(self@.when),
        ensures
            !K::accepts(caps@) ==> (r matches Err(e) && e@ == K::refusal(caps@)),
            K::accepts(caps@) ==> exists|key: K|
                #![trigger K::reads(caps@, key)]
                K::reads(caps@, key) && {
                    ||| gate(self@.when, key, true) && (r matches Ok((k, since)) && k == key
                        && since_is(since, version))
                    ||| gate(self@.when, key, false) && (r matches Err(e) && e@ == object_missing(
                        list_path@,
                    ))
                },
    {
        let key = match K::from_captures(caps) {
            Ok(key) => key,
            Err(e) => {
                return Err(e);
            },
        };
        assert(K::reads(caps@, key));
        if !self.admits(&key) {
            return Err(object_not_found(list_path));
        }
        let since = match version {
            Some(token) => Some(token.clone()),
            None => None,
        };
        Ok((key, since))
    }

    /// Finishes an anchor listing. Listing entries come from the precomputed
    /// leaf names; this emits the canonical-store effect plus eager field
    /// preloads. A fresh load teaches the host every view leaf; `Unchanged`
    /// emits nothing; `NotFound` makes the whole anchor not-found.
    pub fn finish_list<K: Key>(
        &self,
        key: &K,
        list_path: &str,
        load: Load<K::Object>,
    ) -> (r: Result<Effects>) where P: Fn(&K::Object) -> Result<FileContent>
        requires
            projectable::<K::Object, P, H>(self@.leaves),
        ensures
            list_finished(self@, *key, list_path@, load, r),
    {
        match load {
            Load::Fresh { value, canonical } => {
                let id = key.anchor();
                let leaves = match self.view_leaves(list_path) {
                    Ok(leaves) => leaves,
                    Err(e) => {
                        return Err(e);
                    },
                };
                let mut effects = Effects::new();
                effects.canonical_store(&id, canonical.validator, canonical.bytes, leaves);
                match self.project_eager_fields(&mut effects, &id, &value, list_path) {
                    Ok(_) => Ok(effects),
                    Err(e) => Err(e),
                }
            },
            Load::Unchanged => Ok(Effects::new()),
            Load::NotFound => Err(object_not_found(list_path)),
        }
    }

    /// Begins a read.
    ///
    /// Warm: the host pushed cached canonical bytes and the pushed id is the
    /// route-derived anchor; they are rendered with no upstream call and no
    /// new effects. A mismatched push is not served warm; the object is
    /// loaded with the pushed validator as `since`.
    pub fn begin_read<K: Key>(
        &self,
        caps: &Captures,
        target: &ObjectReadTarget,
        cached: &Option<CachedCanonical>,
    ) -> (r: Result<ReadStep<K>>) where
        W: Fn(&K) -> bool,
        P: Fn(&K::Object) -> Result<FileContent>,
        R: Fn(&[u8]) -> Result<Vec<u8>>,

        requires
            gateable::<K, W>(self@.when),
            repr::callable(self@.table.renders),
            projectable::<K::Object, P, H>(self@.leaves),
        ensures
            !K::accepts(caps@) ==> (r matches Err(e) && e@ == K::refusal(caps@)),
            K::accepts(caps@) ==> exists|key: K|
                #![trigger K::reads(caps@, key)]
                K::reads(caps@, key) && read_begun(self@, key, target@, *cached, r),
    {
        let key = match K::from_captures(caps) {
            Ok(key) => key,
            Err(e) => {
                return Err(e);
            },
        };
        assert(K::reads(caps@, key));
        if !self.admits(&key) {
            return Ok(ReadStep::Done(ReadOutcome::NotFound(None)));
        }
        if let Some(push) = cached {
            if push.matches_anchor(&key.anchor()) {
                let bytes = push.bytes.as_slice();
                let served = serve_warm::<K::Object, P, R, H>(
                    target,
                    bytes,
                    &self.render_table,
                    self.leaves.as_slice(),
                );
                assert(canonical_served::<K::Object, P, R, H>(
                    self@.leaves,
                    self@.table,
                    target@,
                    bytes,
                    browse::no_effects(),
                    served,
                ));
                return match served {
                    Ok(outcome) => Ok(ReadStep::Done(outcome)),
                    Err(e) => Err(e),
                };
            }
        }
        let since = match cached {
            Some(push) => file_attrs::copy_token(&push.validator),
            None => None,
        };
        Ok(ReadStep::Load { key, since })
    }

    /// Finishes a read with what the load gave.
    ///
    /// - `Fresh`: emits a canonical-store effect with facet-expanded view
    ///   leaves for the read path, then serves the requested representation
    ///   or field.
    /// - `Unchanged`: re-renders from the pushed bytes; it is an internal
    ///   error for a load to claim unchanged when the host pushed nothing to
    ///   be unchanged against.
    /// - `NotFound`: reports not-found tagged with the anchor id, so the host
    ///   can key the negative entry to the object and clear it on the
    ///   object's next invalidation.
    pub fn finish_read<K: Key>(
        &self,
        key: &K,
        target: &ObjectReadTarget,
        cached: &Option<CachedCanonical>,
        read_path: &str,
        load: Load<K::Object>,
    ) -> (r: Result<ReadOutcome>) where
        P: Fn(&K::Object) -> Result<FileContent>,
        R: Fn(&[u8]) -> Result<Vec<u8>>,

        requires
            repr::callable(self@.table.renders),
            projectable::<K::Object, P, H>(self@.leaves),
        ensures
            read_finished(self@, *key, target@, *cached, read_path@, load, r),
    {
        match load {
            Load::Fresh { value, canonical } => {
                let id = key.anchor();
                let view_leaves = match self.facet_expansion.expand_view_leaves(read_path) {
                    Ok(leaves) => leaves,
                    Err(e) => {
                        return Err(e);
                    },
                };
                let mut effects = Effects::new();
                let bytes = canonical.bytes.as_slice();
                effects.canonical_store(
                    &id,
                    file_attrs::copy_token(&canonical.validator),
                    file_attrs::copy_bytes(bytes),
                    view_leaves,
                );
                let r = serve_fresh::<K::Object, P, R, H>(
                    &value,
                    target,
                    bytes,
                    &self.render_table,
                    self.leaves.as_slice(),
                    effects,
                );
                assert(fresh_served::<K::Object, P, R, H>(
                    self@.leaves,
                    self@.table,
                    value,
                    target@,
                    bytes,
                    stored(anchor(*key), canonical, text::views(view_leaves@)),
                    r,
                ));
                r
            },
            Load::Unchanged => match cached {
                Some(push) => serve_warm::<K::Object, P, R, H>(
                    target,
                    push.bytes.as_slice(),
                    &self.render_table,
                    self.leaves.as_slice(),
                ),
                None => Err(
                    ProviderError::internal(
                        "Load::Unchanged returned without a host-pushed canonical",
                    ),
                ),
            },
            Load::NotFound => Ok(ReadOutcome::NotFound(Some(key.anchor()))),
        }
    }
}

/// A read with pushed bytes of the key's own object never loads: it is
/// answered without an upstream call.
pub proof fn law_pushed_canonical_needs_no_load<
    K: Key,
    W: Fn(&K) -> bool,
    P: Fn(&K::Object) -> Result<FileContent>,
    R: Fn(&[u8]) -> Result<Vec<u8>>,
    H,
>(
    route: RouteModel<W, P, R, H>,
    key: K,
    target: TargetModel,
    cached: Option<CachedCanonical>,
    step: Result<ReadStep<K>>,
)
    requires
        read_begun(route, key, target, cached, step),
        pushed_id(cached) == Some(anchor(key)),
    ensures
        !(step matches Ok(ReadStep::Load { .. })),
{
}

/// A representation that is served from pushed bytes stages no effects.
pub proof fn law_warm_representation_has_no_effects<
    O: Object,
    P: Fn(&O) -> Result<FileContent>,
    R: Fn(&[u8]) -> Result<Vec<u8>>,
    H,
>(
    leaves: Seq<LeafModel<P, H>>,
    table: TableModel<R>,
    ct: ContentModel,
    bytes: &[u8],
    r: Result<ReadOutcome>,
)
    requires
        canonical_served::<O, P, R, H>(
            leaves,
            table,
            TargetModel::Representation(ct),
            bytes,
            browse::no_effects(),
            r,
        ),
    ensures
        r matches Ok(outcome) ==> outcome@ matches OutcomeModel::Found(answer) && answer.effects
            == browse::no_effects(),
{
    browse::law_effects_extend(
        browse::no_effects(),
        browse::no_effects(),
        browse::no_effects(),
    );
}

/// A representation that is served right after a fresh load stages one
/// effect: the verbatim bytes are stored for the key's object, with every
/// path that is a view of them.
pub proof fn law_fresh_representation_stores_the_canonical<
    K: Key,
    W,
    P: Fn(&K::Object) -> Result<FileContent>,
    R: Fn(&[u8]) -> Result<Vec<u8>>,
    H,
>(
    route: RouteModel<W, P, R, H>,
    key: K,
    ct: ContentModel,
    cached: Option<CachedCanonical>,
    read_path: Seq<char>,
    value: K::Object,
    canonical: Canonical,
    r: Result<ReadOutcome>,
)
    requires
        read_finished(
            route,
            key,
            TargetModel::Representation(ct),
            cached,
            read_path,
            Load::Fresh { value, canonical },
            r,
        ),
    ensures
        r matches Ok(outcome) ==> {
            &&& facets::expanded(route.axes, read_path, route.axes.len()) matches Ok(leaves)
            &&& outcome@ matches OutcomeModel::Found(answer)
            &&& answer.effects == stored(anchor(key), canonical, leaves)
        },
{
    if let Ok(leaves) = facets::expanded(route.axes, read_path, route.axes.len()) {
        let effects = stored(anchor(key), canonical, leaves);
        browse::law_effects_extend(effects, effects, effects);
    }
}

} // verus!

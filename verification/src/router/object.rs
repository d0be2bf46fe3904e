//! Object route registration.
//!
//! An object route binds a typed [`Object`] to a template. The block declares
//! what the anchor directory contains:
//!
//! - [`DirObjectBlock::representations`]: the canonical source leaf plus one
//!   rendered leaf per render (`item.json`, `item.md`); mandatory.
//! - [`DirObjectBlock::file`] with [`FileLeafBuilder::project`]: a field leaf
//!   computed from the loaded value (`title`, `state`).
//! - [`DirObjectBlock::file`] / [`DirObjectBlock::dir`] with `.handler(..)`:
//!   ordinary handler leaves nested under the anchor; these become real
//!   file/dir routes and bypass the object read path.
//!
//! The functions of an object are opaque values here: `W` decides whether a
//! key is served at all, `P` projects a field, `R` renders the canonical
//! bytes, and `H` is what a handler leaf runs.

use core::marker::PhantomData;
use std::rc::Rc;
use vstd::prelude::*;
use vstd::string::*;

use crate::content_type;
use crate::content_type::{ContentModel, ContentType};
use crate::error;
use crate::error::{Failure, ProviderError, ProviderErrorKind, Result};
use crate::file_attrs::Stability;
use crate::object::{Object, ObjectShape};
use crate::repr;
use crate::repr::{RenderTable, TableModel};
use crate::router::handlers;
use crate::router::handlers::RouteValidator;
use crate::router::pattern;
use crate::text;

verus! {

/// One declared child of an object anchor.
///
/// `Representation` and `Projected` leaves are served through the object
/// read path (rendered or projected from canonical bytes) and contribute
/// view leaves to the canonical-store effect. `HandlerFile`/`HandlerDir`
/// leaves are ordinary routes that merely live under the anchor template;
/// they never touch the canonical bytes.
pub enum ObjectLeaf<P, H> {
    /// A `stem.ext` leaf: the canonical bytes themselves or a registered
    /// render of them.
    Representation { leaf_name: String, ct: ContentType, stability: Stability },
    /// A field leaf computed from the parsed object value. `lazy` excludes it
    /// from listing-time eager preloads; reads still serve it.
    Projected {
        leaf_name: String,
        project: P,
        content_type: ContentType,
        lazy: bool,
        stability: Stability,
    },
    HandlerFile { suffix: String, handler: H, validator: RouteValidator },
    HandlerDir { suffix: String, handler: H, validator: RouteValidator },
}

/// What an [`ObjectLeaf`] declares.
pub enum LeafModel<P, H> {
    Representation { name: Seq<char>, ct: ContentModel, stability: Stability },
    Projected {
        name: Seq<char>,
        project: P,
        content_type: ContentModel,
        lazy: bool,
        stability: Stability,
    },
    HandlerFile { suffix: Seq<char>, handler: H, validator: RouteValidator },
    HandlerDir { suffix: Seq<char>, handler: H, validator: RouteValidator },
}

impl<P, H> View for ObjectLeaf<P, H> {
    type V = LeafModel<P, H>;

    open spec fn view(&self) -> LeafModel<P, H> {
        match self {
            ObjectLeaf::Representation { leaf_name, ct, stability } => {
                LeafModel::Representation { name: leaf_name@, ct: ct@, stability: *stability }
            },
            ObjectLeaf::Projected { leaf_name, project, content_type, lazy, stability } => {
                LeafModel::Projected {
                    name: leaf_name@,
                    project: *project,
                    content_type: content_type@,
                    lazy: *lazy,
                    stability: *stability,
                }
            },
            ObjectLeaf::HandlerFile { suffix, handler, validator } => LeafModel::HandlerFile {
                suffix: suffix@,
                handler: *handler,
                validator: *validator,
            },
            ObjectLeaf::HandlerDir { suffix, handler, validator } => LeafModel::HandlerDir {
                suffix: suffix@,
                handler: *handler,
                validator: *validator,
            },
        }
    }
}

/// The models of leaves.
pub open spec fn leaf_models<P, H>(leaves: Seq<ObjectLeaf<P, H>>) -> Seq<LeafModel<P, H>> {
    leaves.map_values(|l: ObjectLeaf<P, H>| l@)
}

/// The same leaf, with its handler cloned.
pub open spec fn leaf_cloned<P, H: Clone>(a: LeafModel<P, H>, b: LeafModel<P, H>) -> bool {
    match (a, b) {
        (
            LeafModel::HandlerFile { suffix, handler, validator },
            LeafModel::HandlerFile { suffix: s, handler: h, validator: v },
        ) => suffix == s && validator == v && cloned(handler, h),
        (
            LeafModel::HandlerDir { suffix, handler, validator },
            LeafModel::HandlerDir { suffix: s, handler: h, validator: v },
        ) => suffix == s && validator == v && cloned(handler, h),
        (LeafModel::HandlerFile { .. }, _) | (LeafModel::HandlerDir { .. }, _) => false,
        _ => a == b,
    }
}

impl<P: Copy, H: Clone> Clone for ObjectLeaf<P, H> {
    fn clone(&self) -> (r: Self)
        ensures
            leaf_cloned(self@, r@),
    {
        match self {
            ObjectLeaf::Representation { leaf_name, ct, stability } => {
                ObjectLeaf::Representation {
                    leaf_name: leaf_name.clone(),
                    ct: *ct,
                    stability: *stability,
                }
            },
            ObjectLeaf::Projected { leaf_name, project, content_type, lazy, stability } => {
                ObjectLeaf::Projected {
                    leaf_name: leaf_name.clone(),
                    project: *project,
                    content_type: *content_type,
                    lazy: *lazy,
                    stability: *stability,
                }
            },
            ObjectLeaf::HandlerFile { suffix, handler, validator } => ObjectLeaf::HandlerFile {
                suffix: suffix.clone(),
                handler: handler.clone(),
                validator: validator.clone(),
            },
            ObjectLeaf::HandlerDir { suffix, handler, validator } => ObjectLeaf::HandlerDir {
                suffix: suffix.clone(),
                handler: handler.clone(),
                validator: validator.clone(),
            },
        }
    }
}

/// The leaves one by one the same, with their handlers cloned.
pub open spec fn leaves_cloned<P, H: Clone>(
    a: Seq<LeafModel<P, H>>,
    b: Seq<LeafModel<P, H>>,
) -> bool {
    a.len() == b.len() && forall|i: int|
        0 <= i < a.len() ==> leaf_cloned(#[trigger] a[i], #[trigger] b[i])
}

/// A copy of leaves, with their handlers cloned.
pub fn clone_leaves<P: Copy, H: Clone>(leaves: &[ObjectLeaf<P, H>]) -> (r: Vec<ObjectLeaf<P, H>>)
    ensures
        leaves_cloned(leaf_models(leaves@), leaf_models(r@)),
{
    let mut out: Vec<ObjectLeaf<P, H>> = Vec::new();
    let mut i: usize = 0;
    while i < leaves.len()
        invariant
            i <= leaves@.len(),
            out@.len() == i,
            forall|k: int|
                0 <= k < i ==> leaf_cloned(
                    #[trigger] leaf_models(leaves@)[k],
                    #[trigger] leaf_models(out@)[k],
                ),
        decreases leaves@.len() - i,
    {
        let ghost before = leaf_models(out@);
        let copy = leaves[i].clone();
        let ghost model = copy@;
        out.push(copy);
        assert(leaf_models(out@) =~= before.push(model));
        i = i + 1;
    }
    out
}

/// A child of a template.
pub open spec fn child_template(template: Seq<char>, name: Seq<char>) -> Seq<char> {
    text::without_end_slashes(template) + "/"@ + name
}

/// Why a template is rejected, if it is.
pub open spec fn template_failure(template: Seq<char>) -> Option<Failure> {
    match pattern::template_of(template) {
        Ok(_) => None,
        Err(message) => Some(error::failure(ProviderErrorKind::InvalidInput, message)),
    }
}

/// Checks that a child of a template is a template.
fn check_child(template: &str, name: &str) -> (r: Result<()>)
    ensures
        match template_failure(child_template(template@, name@)) {
            None => r is Ok,
            Some(f) => r matches Err(e) && e@ == f,
        },
{
    let base = text::trim_end_slashes(template);
    let child = text::concat3(base.as_str(), "/", name);
    match handlers::parse_pattern(child.as_str()) {
        Ok(_) => Ok(()),
        Err(e) => Err(e),
    }
}

/// The name of a representation leaf.
pub open spec fn representation_name(stem: Seq<char>, ct: ContentModel) -> Seq<char> {
    stem + "."@ + ct.leaf_extension()
}

fn representation_leaf(stem: &str, ct: ContentType) -> (r: String)
    ensures
        r@ == representation_name(stem@, ct@),
{
    text::concat3(stem, ".", ct.leaf_extension())
}

/// The first failure among the templates of the first `n` rendered leaves.
pub open spec fn renders_failure(
    template: Seq<char>,
    stem: Seq<char>,
    cts: Seq<ContentModel>,
    n: nat,
) -> Option<Failure>
    decreases n,
{
    if n == 0 {
        None
    } else {
        match renders_failure(template, stem, cts, (n - 1) as nat) {
            Some(f) => Some(f),
            None => template_failure(
                child_template(template, representation_name(stem, cts[n - 1])),
            ),
        }
    }
}

proof fn lemma_renders_failure(
    template: Seq<char>,
    stem: Seq<char>,
    cts: Seq<ContentModel>,
    n: nat,
    m: nat,
)
    requires
        n <= m,
        renders_failure(template, stem, cts, n) is Some,
    ensures
        renders_failure(template, stem, cts, m) == renders_failure(template, stem, cts, n),
    decreases m,
{
    if n < m {
        lemma_renders_failure(template, stem, cts, n, (m - 1) as nat);
    }
}

/// Why representations are rejected, if they are: the source leaf's template,
/// a clash of content types, or a rendered leaf's template.
pub open spec fn representations_failure<R>(
    template: Seq<char>,
    stem: Seq<char>,
    source: ContentModel,
    renders: Seq<(ContentType, R)>,
) -> Option<Failure> {
    match template_failure(child_template(template, representation_name(stem, source))) {
        Some(f) => Some(f),
        None => match repr::first_clash(
            repr::all_types(source, renders),
            (renders.len() + 1) as nat,
        ) {
            Some(f) => Some(f),
            None => renders_failure(
                template,
                stem,
                repr::render_types(renders),
                renders.len(),
            ),
        },
    }
}

/// The leaves of representations: the rendered ones, then the source.
pub open spec fn representation_leaves<P, H>(
    stem: Seq<char>,
    source: ContentModel,
    cts: Seq<ContentModel>,
    stability: Stability,
) -> Seq<LeafModel<P, H>> {
    cts.push(source).map_values(
        |ct: ContentModel|
            LeafModel::<P, H>::Representation {
                name: representation_name(stem, ct),
                ct,
                stability,
            },
    )
}

/// What a block holds so far.
pub struct BlockModel<W, P, R, H> {
    pub template: Seq<char>,
    pub when: Option<W>,
    pub table: Option<TableModel<R>>,
    pub stem: Option<Seq<char>>,
    pub leaves: Seq<LeafModel<P, H>>,
}

/// Dir-shaped object block builder: the anchor is a directory whose children
/// are the declared representations, projected fields, and handler leaves.
/// [`Self::representations`] must be called or the block fails to finish.
#[verifier::reject_recursive_types(O)]
pub struct DirObjectBlock<O, W, P, R, H> {
    template: &'static str,
    when: Option<W>,
    render_table: Option<RenderTable<R>>,
    source_stem: Option<&'static str>,
    leaves: Vec<ObjectLeaf<P, H>>,
    _marker: PhantomData<O>,
}

/// The model of an optional table.
pub open spec fn table_of<R>(table: Option<RenderTable<R>>) -> Option<TableModel<R>> {
    match table {
        Some(table) => Some(table@),
        None => None,
    }
}

/// The text of an optional string slice.
pub open spec fn str_of(s: Option<&'static str>) -> Option<Seq<char>> {
    match s {
        Some(s) => Some(s@),
        None => None,
    }
}

impl<O, W, P, R, H> View for DirObjectBlock<O, W, P, R, H> {
    type V = BlockModel<W, P, R, H>;

    closed spec fn view(&self) -> BlockModel<W, P, R, H> {
        BlockModel {
            template: self.template@,
            when: self.when,
            table: table_of(self.render_table),
            stem: str_of(self.source_stem),
            leaves: leaf_models(self.leaves@),
        }
    }
}

impl<O: Object, W, P, R, H> DirObjectBlock<O, W, P, R, H> {
    /// Begin a block for an object at `template`.
    pub fn new(template: &'static str) -> (r: Result<Self>)
        ensures
            match template_failure(template@) {
                Some(f) => r matches Err(e) && e@ == f,
                None => r matches Ok(block) && block@ == (BlockModel::<W, P, R, H> {
                    template: template@,
                    when: None,
                    table: None,
                    stem: None,
                    leaves: Seq::empty(),
                }),
            },
    {
        match handlers::parse_pattern(template) {
            Ok(_) => {},
            Err(e) => {
                return Err(e);
            },
        }
        let leaves: Vec<ObjectLeaf<P, H>> = Vec::new();
        assert(leaf_models(leaves@) =~= Seq::<LeafModel<P, H>>::empty());
        Ok(
            DirObjectBlock {
                template,
                when: None,
                render_table: None,
                source_stem: None,
                leaves,
                _marker: PhantomData,
            },
        )
    }

    /// Declare the anchor's representation leaves; mandatory, once per block.
    ///
    /// Registers `stem.<ext>` for the canonical content type (e.g.
    /// `item.json` when [`Object::canonical_content_type`] is JSON) plus one
    /// `stem.<ext>` per render (e.g. a markdown render adds `item.md`). All
    /// representation leaves share [`Object::default_stability`]; renders are
    /// recomputed from cached canonical bytes, never fetched separately.
    pub fn representations(
        &mut self,
        stem: &'static str,
        renders: Vec<(ContentType, R)>,
    ) -> (r: Result<&mut Self>)
        ensures
            match representations_failure(old(self)@.template, stem@, O::source_model(), renders@) {
                Some(f) => r matches Err(e) && e@ == f && final(self)@ == old(self)@,
                None => r matches Ok(s) && *final(s) == *final(self) && s@ == (BlockModel {
                    table: Some(
                        TableModel { source: O::source_model(), renders: renders@ },
                    ),
                    stem: Some(stem@),
                    leaves: old(self)@.leaves + representation_leaves(
                        stem@,
                        O::source_model(),
                        repr::render_types(renders@),
                        O::stability(),
                    ),
                    ..old(self)@
                }),
            },
    {
        let source_ct = O::canonical_content_type();
        let ghost source = O::source_model();
        let ghost cts = repr::render_types(renders@);
        let ghost given = renders@;
        let source_leaf = representation_leaf(stem, source_ct);
        check_child(self.template, source_leaf.as_str())?;

        let table = RenderTable::build(source_ct, renders)?;
        let declared = table.renders();
        let mut added: Vec<ObjectLeaf<P, H>> = Vec::new();
        let ghost wanted = representation_leaves::<P, H>(stem@, source, cts, O::stability());
        let mut i: usize = 0;
        while i < declared.len()
            invariant
                i <= declared@.len(),
                cts == repr::render_types(declared@),
                declared@ == given,
                given == renders@,
                source == O::source_model(),
                representations_failure(old(self)@.template, stem@, source, given)
                    == renders_failure(self.template@, stem@, cts, cts.len()),
                self@ == old(self)@,
                self@.template == self.template@,
                wanted == representation_leaves::<P, H>(stem@, source, cts, O::stability()),
                renders_failure(self.template@, stem@, cts, i as nat) is None,
                leaf_models(added@) == wanted.take(i as int),
            decreases declared@.len() - i,
        {
            let ct = declared[i].0;
            assert(cts[i as int] == ct@);
            let leaf_name = representation_leaf(stem, ct);
            match check_child(self.template, leaf_name.as_str()) {
                Ok(_) => {},
                Err(e) => {
                    proof {
                        lemma_renders_failure(
                            self.template@,
                            stem@,
                            cts,
                            (i + 1) as nat,
                            cts.len(),
                        );
                    }
                    return Err(e);
                },
            }
            let ghost before = leaf_models(added@);
            let leaf: ObjectLeaf<P, H> = ObjectLeaf::Representation {
                leaf_name,
                ct,
                stability: O::default_stability(),
            };
            let ghost model = leaf@;
            added.push(leaf);
            assert(leaf_models(added@) =~= before.push(model));
            assert(wanted.take(i as int + 1) =~= wanted.take(i as int).push(wanted[i as int]));
            i = i + 1;
        }
        let ghost before = leaf_models(added@);
        let leaf: ObjectLeaf<P, H> = ObjectLeaf::Representation {
            leaf_name: source_leaf,
            ct: source_ct,
            stability: O::default_stability(),
        };
        let ghost model = leaf@;
        added.push(leaf);
        assert(leaf_models(added@) =~= before.push(model));
        assert(leaf_models(added@) =~= wanted);
        self.render_table = Some(table);
        self.source_stem = Some(stem);
        self.leaves.append(&mut added);
        assert(self@.leaves =~= old(self)@.leaves + wanted);
        Ok(self)
    }

    /// Begin a file leaf under the anchor. `name` may be a multi-segment
    /// suffix with captures (`"comments/{idx}"`) when finished with
    /// `.handler(..)`; projected leaves use a single literal name.
    pub fn file(&mut self, name: &'static str) -> (r: FileLeafBuilder<'_, O, W, P, R, H>)
        ensures
            *r.block == *old(self),
            *final(r.block) == *final(self),
            r.name == name,
            !r.lazy,
            r.stability is None,
    {
        FileLeafBuilder { block: self, name, lazy: false, stability: None }
    }

    /// Begin a directory leaf under the anchor; finished with `.handler(..)`
    /// (there is no projected-dir form).
    pub fn dir(&mut self, name: &'static str) -> (r: DirLeafBuilder<'_, O, W, P, R, H>)
        ensures
            *r.block == *old(self),
            *final(r.block) == *final(self),
            r.name == name,
    {
        DirLeafBuilder { block: self, name }
    }

    /// Gate the whole object on a key predicate. A key that fails the
    /// predicate behaves as not-found for both listing and reads; no load is
    /// attempted.
    pub fn when(&mut self, pred: W) -> (r: Result<&mut Self>)
        ensures
            r matches Ok(block) && {
                &&& *final(block) == *final(self)
                &&& block@ == (BlockModel { when: Some(pred), ..old(self)@ })
            },
    {
        self.when = Some(pred);
        Ok(self)
    }

    fn push_leaf(&mut self, leaf: ObjectLeaf<P, H>)
        ensures
            final(self)@ == (BlockModel { leaves: old(self)@.leaves.push(leaf@), ..old(self)@ }),
    {
        self.leaves.push(leaf);
        assert(self@.leaves =~= old(self)@.leaves.push(leaf@));
    }

    fn finish(self) -> (r: Result<ObjectSpec<W, P, R, H>>)
        ensures
            match self@.table {
                None => r matches Err(e) && e@ == incomplete_block(),
                Some(table) => match self@.stem {
                    None => r matches Err(e) && e@ == incomplete_block(),
                    Some(stem) => r matches Ok(spec) && spec@ == (SpecModel {
                        when: self@.when,
                        table,
                        stem,
                        ext: O::source_model().leaf_extension(),
                        leaves: self@.leaves,
                    }),
                },
            },
    {
        match (self.render_table, self.source_stem) {
            (Some(render_table), Some(source_stem)) => Ok(
                ObjectSpec {
                    when: self.when,
                    render_table,
                    source_stem,
                    source_ext: O::canonical_content_type().leaf_extension(),
                    leaves: self.leaves,
                },
            ),
            _ => Err(
                ProviderError::invalid_input("object block requires representations(stem, ..)"),
            ),
        }
    }
}

/// The failure of a block without representations.
pub open spec fn incomplete_block() -> Failure {
    error::failure(
        ProviderErrorKind::InvalidInput,
        "object block requires representations(stem, ..)"@,
    )
}

/// File-shaped object block builder: the anchor presents as a file. Only
/// representations and a `when` predicate may be declared; there is no
/// `file()`/`dir()` surface because a file anchor has no children.
#[verifier::reject_recursive_types(O)]
pub struct FileObjectBlock<O, W, P, R, H> {
    inner: DirObjectBlock<O, W, P, R, H>,
}

impl<O, W, P, R, H> View for FileObjectBlock<O, W, P, R, H> {
    type V = BlockModel<W, P, R, H>;

    closed spec fn view(&self) -> BlockModel<W, P, R, H> {
        self.inner@
    }
}

impl<O: Object, W, P, R, H> FileObjectBlock<O, W, P, R, H> {
    /// Begin a block for an object at `template`.
    pub fn new(template: &'static str) -> (r: Result<Self>)
        ensures
            match template_failure(template@) {
                Some(f) => r matches Err(e) && e@ == f,
                None => r matches Ok(block) && block@ == (BlockModel::<W, P, R, H> {
                    template: template@,
                    when: None,
                    table: None,
                    stem: None,
                    leaves: Seq::empty(),
                }),
            },
    {
        match DirObjectBlock::new(template) {
            Ok(inner) => Ok(FileObjectBlock { inner }),
            Err(e) => Err(e),
        }
    }

    /// Declare the representations; see [`DirObjectBlock::representations`].
    pub fn representations(
        &mut self,
        stem: &'static str,
        renders: Vec<(ContentType, R)>,
    ) -> (r: Result<&mut Self>)
        ensures
            match representations_failure(old(self)@.template, stem@, O::source_model(), renders@) {
                Some(f) => r matches Err(e) && e@ == f && final(self)@ == old(self)@,
                None => r matches Ok(s) && *final(s) == *final(self) && s@ == (BlockModel {
                    table: Some(
                        TableModel { source: O::source_model(), renders: renders@ },
                    ),
                    stem: Some(stem@),
                    leaves: old(self)@.leaves + representation_leaves(
                        stem@,
                        O::source_model(),
                        repr::render_types(renders@),
                        O::stability(),
                    ),
                    ..old(self)@
                }),
            },
    {
        match self.inner.representations(stem, renders) {
            Ok(_) => {},
            Err(e) => {
                return Err(e);
            },
        }
        Ok(self)
    }

    /// Gate the whole object on a key predicate.
    pub fn when(&mut self, pred: W) -> (r: Result<&mut Self>)
        ensures
            r matches Ok(block) && {
                &&& *final(block) == *final(self)
                &&& block@ == (BlockModel { when: Some(pred), ..old(self)@ })
            },
    {
        match self.inner.when(pred) {
            Ok(_) => Ok(self),
            Err(e) => Err(e),
        }
    }
}

/// A pending file leaf named in [`DirObjectBlock::file`]; finish with
/// [`Self::project`] (a field computed from the object value) or
/// [`Self::handler`] (an ordinary file route under the anchor).
#[verifier::reject_recursive_types(O)]
pub struct FileLeafBuilder<'a, O, W, P, R, H> {
    pub block: &'a mut DirObjectBlock<O, W, P, R, H>,
    pub name: &'static str,
    pub lazy: bool,
    pub stability: Option<Stability>,
}

impl<'a, O: Object, W, P, R, H> FileLeafBuilder<'a, O, W, P, R, H> {
    /// Register a projected field leaf: `method` maps the loaded object value
    /// to the leaf's bytes, so reads can be served from cached canonical bytes
    /// with no upstream call. The default content type is `text/plain`;
    /// default stability is [`Object::default_stability`]; the leaf is eager
    /// (preloaded into the view cache when the anchor is listed) unless
    /// flagged lazy. Eager projections must produce inline bytes; listing
    /// fails otherwise.
    pub fn project(self, method: P) -> (r: Result<&'a mut DirObjectBlock<O, W, P, R, H>>)
        ensures
            match template_failure(child_template(old(self.block)@.template, self.name@)) {
                Some(f) => r matches Err(e) && e@ == f && final(self.block)@ == old(self.block)@,
                None => r matches Ok(b) && *final(b) == *final(self.block) && b@ == (BlockModel {
                    leaves: old(self.block)@.leaves.push(
                        LeafModel::Projected {
                            name: self.name@,
                            project: method,
                            content_type: ContentModel::Custom("text/plain"@),
                            lazy: self.lazy,
                            stability: (match self.stability {
                                Some(stability) => stability,
                                None => O::stability(),
                            }),
                        },
                    ),
                    ..old(self.block)@
                }),
            },
    {
        check_child(self.block.template, self.name)?;
        let stability = match self.stability {
            Some(stability) => stability,
            None => O::default_stability(),
        };
        self.block.push_leaf(
            ObjectLeaf::Projected {
                leaf_name: self.name.to_owned(),
                project: method,
                content_type: ContentType::Custom("text/plain"),
                lazy: self.lazy,
                stability,
            },
        );
        Ok(self.block)
    }

    /// Register an ordinary file handler under the anchor (e.g. a comment
    /// leaf `"comments/{idx}"`, a diff served from a separate fetch). The
    /// leaf is mounted as a real file route at `<anchor>/<name>`, dispatched
    /// through the plain file tables, and never touches the object's
    /// canonical bytes. The handler's captures contain the anchor's captures
    /// plus any in `name`.
    pub fn handler(
        self,
        handler: H,
        validator: RouteValidator,
    ) -> (r: Result<&'a mut DirObjectBlock<O, W, P, R, H>>)
        ensures
            match template_failure(child_template(old(self.block)@.template, self.name@)) {
                Some(f) => r matches Err(e) && e@ == f && final(self.block)@ == old(self.block)@,
                None => r matches Ok(b) && *final(b) == *final(self.block) && b@ == (BlockModel {
                    leaves: old(self.block)@.leaves.push(
                        LeafModel::HandlerFile { suffix: self.name@, handler, validator },
                    ),
                    ..old(self.block)@
                }),
            },
    {
        check_child(self.block.template, self.name)?;
        self.block.push_leaf(
            ObjectLeaf::HandlerFile { suffix: self.name.to_owned(), handler, validator },
        );
        Ok(self.block)
    }

    /// Exclude this projected leaf from listing-time eager preloads; reads
    /// still serve it from canonical bytes. Use for large fields (an issue
    /// body) where preloading every list row would bloat the view cache.
    #[must_use]
    pub fn lazy(self) -> (r: Self)
        ensures
            *r.block == *old(self.block),
            *final(r.block) == *final(self.block),
            r.name == self.name,
            r.lazy,
            r.stability == self.stability,
    {
        FileLeafBuilder {
            block: self.block,
            name: self.name,
            lazy: true,
            stability: self.stability,
        }
    }

    /// Set this projected leaf's stability to immutable.
    #[must_use]
    pub fn immutable(self) -> (r: Self)
        ensures
            *r.block == *old(self.block),
            *final(r.block) == *final(self.block),
            r.name == self.name,
            r.lazy == self.lazy,
            r.stability == Some(Stability::Immutable),
    {
        FileLeafBuilder {
            block: self.block,
            name: self.name,
            lazy: self.lazy,
            stability: Some(Stability::Immutable),
        }
    }

    /// Set this projected leaf's stability to mutable.
    #[must_use]
    pub fn mutable(self) -> (r: Self)
        ensures
            *r.block == *old(self.block),
            *final(r.block) == *final(self.block),
            r.name == self.name,
            r.lazy == self.lazy,
            r.stability == Some(Stability::Mutable),
    {
        FileLeafBuilder {
            block: self.block,
            name: self.name,
            lazy: self.lazy,
            stability: Some(Stability::Mutable),
        }
    }

    /// Assert that the most recently registered leaf is a `.handler` file
    /// leaf; registers nothing itself (volatility actually comes from the
    /// handler returning a ranged projection with volatile attrs). Errors
    /// otherwise, because volatile content requires a ranged source.
    pub fn volatile(self) -> (r: Result<&'a mut DirObjectBlock<O, W, P, R, H>>)
        ensures
            ({
                let leaves = old(self.block)@.leaves;
                if leaves.len() > 0 && leaves.last() is HandlerFile {
                    r matches Ok(b) && *b == *old(self.block) && *final(b) == *final(self.block)
                } else {
                    r matches Err(e) && e@ == error::failure(
                        ProviderErrorKind::InvalidInput,
                        ".volatile() is only valid on ranged .handler leaves"@,
                    ) && final(self.block)@ == old(self.block)@
                }
            }),
    {
        let count: usize = self.block.leaves.len();
        let is_handler = count > 0 && matches!(
            self.block.leaves[count - 1],
            ObjectLeaf::HandlerFile { .. }
        );
        if !is_handler {
            return Err(
                ProviderError::invalid_input(
                    ".volatile() is only valid on ranged .handler leaves",
                ),
            );
        }
        Ok(self.block)
    }
}

/// A pending dir leaf named in [`DirObjectBlock::dir`]; finish with
/// [`Self::handler`].
#[verifier::reject_recursive_types(O)]
pub struct DirLeafBuilder<'a, O, W, P, R, H> {
    pub block: &'a mut DirObjectBlock<O, W, P, R, H>,
    pub name: &'static str,
}

impl<'a, O: Object, W, P, R, H> DirLeafBuilder<'a, O, W, P, R, H> {
    /// Register an ordinary directory handler under the anchor (e.g. a
    /// `comments` listing). Mounted as a real dir route at `<anchor>/<name>`;
    /// see [`FileLeafBuilder::handler`] for the dispatch and capture rules.
    pub fn handler(
        self,
        handler: H,
        validator: RouteValidator,
    ) -> (r: Result<&'a mut DirObjectBlock<O, W, P, R, H>>)
        ensures
            match template_failure(child_template(old(self.block)@.template, self.name@)) {
                Some(f) => r matches Err(e) && e@ == f && final(self.block)@ == old(self.block)@,
                None => r matches Ok(b) && *final(b) == *final(self.block) && b@ == (BlockModel {
                    leaves: old(self.block)@.leaves.push(
                        LeafModel::HandlerDir { suffix: self.name@, handler, validator },
                    ),
                    ..old(self.block)@
                }),
            },
    {
        check_child(self.block.template, self.name)?;
        self.block.push_leaf(
            ObjectLeaf::HandlerDir { suffix: self.name.to_owned(), handler, validator },
        );
        Ok(self.block)
    }
}

/// What an [`ObjectSpec`] declares.
pub struct SpecModel<W, P, R, H> {
    pub when: Option<W>,
    pub table: TableModel<R>,
    pub stem: Seq<char>,
    pub ext: Seq<char>,
    pub leaves: Seq<LeafModel<P, H>>,
}

/// A finished object block, independent of any attach prefix;
/// [`mount_object`] specializes it per mount.
pub struct ObjectSpec<W, P, R, H> {
    when: Option<W>,
    render_table: RenderTable<R>,
    source_stem: &'static str,
    source_ext: &'static str,
    leaves: Vec<ObjectLeaf<P, H>>,
}

impl<W, P, R, H> View for ObjectSpec<W, P, R, H> {
    type V = SpecModel<W, P, R, H>;

    closed spec fn view(&self) -> SpecModel<W, P, R, H> {
        SpecModel {
            when: self.when,
            table: self.render_table@,
            stem: self.source_stem@,
            ext: self.source_ext@,
            leaves: leaf_models(self.leaves@),
        }
    }
}

impl<W, P, R, H> ObjectSpec<W, P, R, H> {
    /// The representation dispatch of the object.
    pub fn render_table(&self) -> (r: &RenderTable<R>)
        ensures
            r@ == self@.table,
    {
        &self.render_table
    }

    /// The predicate that gates the object.
    pub fn when(&self) -> (r: Option<W>)
        where W: Copy
        ensures
            r == self@.when,
    {
        self.when
    }

    /// The stem of the representation leaves.
    pub fn source_stem(&self) -> (r: &'static str)
        ensures
            r@ == self@.stem,
    {
        self.source_stem
    }

    /// The extension of the source leaf.
    pub fn source_ext(&self) -> (r: &'static str)
        ensures
            r@ == self@.ext,
    {
        self.source_ext
    }

    /// The declared leaves in order.
    pub fn leaves(&self) -> (r: &[ObjectLeaf<P, H>])
        ensures
            leaf_models(r@) == self@.leaves,
    {
        self.leaves.as_slice()
    }
}

/// A detached object subtree, replayable at multiple attach prefixes.
///
/// Built by [`object`]; mounted with the router's `attach`. The spec is
/// shared, so attaching the same handle twice replays one definition at two
/// prefixes, each with its own leaf claims.
pub struct ObjectHandle<W, P, R, H> {
    pub template: &'static str,
    pub shape: ObjectShape,
    pub spec: Rc<ObjectSpec<W, P, R, H>>,
}

/// Define a detached dir-shaped object subtree from its block, to be mounted
/// later. The block must declare representations.
pub fn object<O: Object, W, P, R, H>(
    block: DirObjectBlock<O, W, P, R, H>,
) -> (r: Result<ObjectHandle<W, P, R, H>>)
    ensures
        handle_of::<O, W, P, R, H>(block@, ObjectShape::Dir, r),
{
    let template = block.template;
    match block.finish() {
        Ok(spec) => Ok(ObjectHandle { template, shape: ObjectShape::Dir, spec: Rc::new(spec) }),
        Err(e) => Err(e),
    }
}

/// Define a detached file-shaped object subtree from its block.
pub fn file_object<O: Object, W, P, R, H>(
    block: FileObjectBlock<O, W, P, R, H>,
) -> (r: Result<ObjectHandle<W, P, R, H>>)
    ensures
        handle_of::<O, W, P, R, H>(block@, ObjectShape::File, r),
{
    let template = block.inner.template;
    match block.inner.finish() {
        Ok(spec) => Ok(ObjectHandle { template, shape: ObjectShape::File, spec: Rc::new(spec) }),
        Err(e) => Err(e),
    }
}

/// A handle is what the block declares; a block without representations has
/// none.
pub open spec fn handle_of<O: Object, W, P, R, H>(
    block: BlockModel<W, P, R, H>,
    shape: ObjectShape,
    r: Result<ObjectHandle<W, P, R, H>>,
) -> bool {
    if block.table is Some && block.stem is Some {
        r matches Ok(handle) && handle.template@ == block.template && handle.shape == shape && (
        *handle.spec)@ == (SpecModel {
            when: block.when,
            table: block.table->0,
            stem: block.stem->0,
            ext: O::source_model().leaf_extension(),
            leaves: block.leaves,
        })
    } else {
        r matches Err(e) && e@ == incomplete_block()
    }
}

} // verus!

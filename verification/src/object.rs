//! Object model: typed canonical resources addressed by typed keys.
//!
//! An [`Object`] is a value parsed from one canonical upstream payload (a
//! GitHub issue, an arXiv paper); its [`Key`] knows what logical identity it
//! has. Register the pair on an object route and the router handles the cache
//! protocol: it emits canonical-store effects on fresh loads, re-renders from
//! host-pushed canonical bytes on warm reads, and answers conditional reloads
//! through the `since` validator.

use vstd::prelude::*;
use vstd::string::*;

use crate::captures::FromCaptures;
use crate::content_type::{ContentModel, ContentType};
use crate::error;
use crate::error::{Failure, ProviderError, ProviderErrorKind, Result};
use crate::file_attrs::{Stability, VersionToken};
use crate::identity::{IdModel, IdentityCaptures, LogicalId};
use crate::text;

verus! {

/// An object kind tag for the canonical store and diagnostics (e.g.
/// `github.issue`).
#[derive(Clone, Copy, Debug, PartialEq, Eq)]
pub struct ObjectKind(pub &'static str);

impl ObjectKind {
    pub fn as_str(self) -> (r: &'static str)
        ensures
            r == self.0,
    {
        self.0
    }
}

/// The conditional-request validator at the object layer (an `ETag`,
/// updated-at, or similar). The same type as a file-level
/// [`VersionToken`].
pub type Validator = VersionToken;

/// The canonical bytes the remote returned, captured verbatim on a load.
///
/// Verbatim means exactly that: the raw response body, not a re-encoding
/// of the parsed value. These bytes are what the host stores and later
/// pushes back through [`Object::parse_canonical`], so any normalization
/// here breaks warm re-rendering.
#[derive(Debug, PartialEq, Eq)]
pub struct Canonical {
    pub bytes: Vec<u8>,
    pub validator: Option<Validator>,
}

/// The outcome of loading an object.
///
/// - `Fresh`: a new payload was fetched; carry the parsed value plus the
///   verbatim upstream bytes and their validator (e.g. the response `ETag`).
/// - `Unchanged`: a conditional request matched the `since` validator;
///   the host's cached canonical is still current. Return this only when
///   `since` was given.
/// - `NotFound`: the upstream says the object does not exist. Lowered to
///   a not-found answer, not an error.
#[derive(Debug, PartialEq, Eq)]
pub enum Load<T> {
    Fresh { value: T, canonical: Canonical },
    Unchanged,
    NotFound,
}

impl<T> Load<T> {
    /// A fresh value with empty canonical bytes and no validator.
    ///
    /// A canonical-store effect is still emitted for the empty payload, so
    /// this effectively opts the route out of meaningful durable caching.
    /// Appropriate only when the value is synthesized rather than fetched.
    pub fn fresh(value: T) -> (r: Self)
        ensures
            r matches Load::Fresh { value: v, canonical } && v == value
                && canonical.bytes@.len() == 0 && canonical.validator is None,
    {
        Load::Fresh { value, canonical: Canonical { bytes: Vec::new(), validator: None } }
    }
}

/// A typed canonical resource.
///
/// `parse_canonical` must accept the exact bytes that a load captured in
/// [`Canonical`]: it runs again on every warm read when the host pushes
/// cached canonical bytes back.
pub trait Object: Sized {
    /// The kind tag.
    open spec fn kind_text() -> Seq<char> {
        vstd::pervasive::arbitrary()
    }

    /// The content type of the canonical bytes.
    open spec fn source_model() -> ContentModel {
        vstd::pervasive::arbitrary()
    }

    /// The stability of leaves that do not choose another.
    open spec fn stability() -> Stability {
        Stability::Mutable
    }

    /// Why canonical bytes are rejected, if they are.
    open spec fn parse_failure(bytes: Seq<u8>) -> Option<Failure> {
        vstd::pervasive::arbitrary()
    }

    /// `value` is what the canonical bytes stand for.
    open spec fn parsed(bytes: Seq<u8>, value: Self) -> bool {
        vstd::pervasive::arbitrary()
    }

    /// The stable kind tag; part of every [`LogicalId`] derived for this
    /// object, so renaming it orphans previously cached objects.
    fn kind() -> (r: ObjectKind)
        ensures
            r.0@ == Self::kind_text(),
    ;

    /// The content type of the verbatim canonical bytes. The identity
    /// representation leaf serves these bytes as-is under this type.
    fn canonical_content_type() -> (r: ContentType)
        ensures
            r@ == Self::source_model(),
    ;

    /// Default [`Stability`] for leaves projected from this object.
    /// `Mutable` is the safe choice for anything live-edited upstream.
    fn default_stability() -> (r: Stability)
        ensures
            r == Self::stability(),
    ;

    /// Parse the verbatim canonical bytes back into a value. Never normalize
    /// bytes here to make parsing easier, fix the load to store the right
    /// bytes instead.
    fn parse_canonical(bytes: &[u8]) -> (r: Result<Self>)
        ensures
            match Self::parse_failure(bytes@) {
                None => r matches Ok(value) && Self::parsed(bytes@, value),
                Some(f) => r matches Err(e) && e@ == f,
            },
    ;
}

/// The error for canonical bytes that cannot be parsed.
pub fn canonical_parse_error(why: &str) -> (r: ProviderError)
    ensures
        r@ == error::failure(ProviderErrorKind::InvalidInput, "canonical parse: "@ + why@),
{
    ProviderError::invalid_input(text::concat("canonical parse: ", why).as_str())
}

/// Filesystem shape of an object anchor: a directory of leaves, or a
/// single file.
#[derive(Clone, Copy, Debug, PartialEq, Eq, Structural)]
pub enum ObjectShape {
    Dir,
    File,
}

/// The identity side of an object: what logical id it anchors to.
pub trait Key: FromCaptures + IdentityCaptures + Sized {
    type Object: Object;

    /// The logical id this key anchors: the object kind plus the key's
    /// identity captures in declaration order. [`crate::identity::Facet`]
    /// fields are excluded, which is how multiple route aliases share one
    /// cached object.
    fn anchor(&self) -> (r: LogicalId)
        ensures
            r@ == (IdModel {
                kind: <Self::Object as Object>::kind_text(),
                captures: self.identity(),
            }),
    {
        LogicalId::new(Self::Object::kind(), self.identity_captures())
    }
}

/// The id that a key anchors to.
pub open spec fn anchor_of<K: Key>(key: &K) -> IdModel {
    IdModel { kind: <K::Object as Object>::kind_text(), captures: key.identity() }
}

/// Keys that agree on their identity captures name the same object, whatever
/// their facets are.
pub proof fn law_identity_ignores_facets<K: Key>(left: &K, right: &K)
    requires
        left.identity() == right.identity(),
    ensures
        anchor_of(left) == anchor_of(right),
{
}

/// A facet dimension: the capture name and the choices.
pub struct AxisModel {
    pub name: Seq<char>,
    pub choices: Seq<Seq<char>>,
}

/// A finite facet dimension: the template capture name and its segment
/// choices.
#[derive(Clone, Copy, Debug)]
pub struct FacetAxis {
    pub capture_name: &'static str,
    pub choices: &'static [&'static str],
}

/// The text of choices.
pub open spec fn choice_texts(choices: Seq<&'static str>) -> Seq<Seq<char>> {
    choices.map_values(|c: &'static str| c@)
}

impl View for FacetAxis {
    type V = AxisModel;

    open spec fn view(&self) -> AxisModel {
        AxisModel { name: self.capture_name@, choices: choice_texts(self.choices@) }
    }
}

/// The models of axes.
pub open spec fn axis_models(axes: Seq<FacetAxis>) -> Seq<AxisModel> {
    axes.map_values(|a: FacetAxis| a@)
}

/// Route-context capture metadata for multikey view-leaf expansion.
pub trait FacetMetadata {
    /// The facet dimensions of the key.
    open spec fn axes() -> Seq<AxisModel> {
        Seq::empty()
    }

    fn facet_axes() -> (r: Vec<FacetAxis>)
        ensures
            axis_models(r@) == Self::axes(),
    ;
}

impl FacetMetadata for () {
    open spec fn axes() -> Seq<AxisModel> {
        Seq::empty()
    }

    fn facet_axes() -> (r: Vec<FacetAxis>) {
        let axes: Vec<FacetAxis> = Vec::new();
        assert(axis_models(axes@) =~= Seq::<AxisModel>::empty());
        axes
    }
}

} // verus!

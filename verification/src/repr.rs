//! Multi-format object representations: render one canonical payload into
//! several leaf files (`item.md`, `item.json`, ...).
//!
//! The model: an object's canonical bytes are stored verbatim; each
//! representation leaf either serves those bytes as-is (the source content
//! type) or re-renders them through a render function. Renders are pure
//! functions of the canonical bytes, so the host can re-serve every
//! representation from cache with no upstream call. Leaf names come from
//! the representation stem plus each content type's extension, which is
//! why [`RenderTable::build`] rejects extension collisions.

use vstd::prelude::*;
use vstd::string::*;

use crate::content_type::{ContentModel, ContentType};
use crate::error;
use crate::error::{Failure, ProviderError, ProviderErrorKind, Result};
use crate::file_attrs;
use crate::object::Object;
use crate::text;

verus! {

/// A content-type marker (zero-size): the content type this format renders
/// to.
pub trait Format {
    open spec fn model() -> ContentModel {
        vstd::pervasive::arbitrary()
    }

    fn ct() -> (r: ContentType)
        ensures
            r@ == Self::model(),
    ;
}

pub struct Json;

impl Format for Json {
    open spec fn model() -> ContentModel {
        ContentModel::Json
    }

    fn ct() -> (r: ContentType) {
        ContentType::Json
    }
}

pub struct Markdown;

impl Format for Markdown {
    open spec fn model() -> ContentModel {
        ContentModel::Markdown
    }

    fn ct() -> (r: ContentType) {
        ContentType::Markdown
    }
}

pub struct Octet;

impl Format for Octet {
    open spec fn model() -> ContentModel {
        ContentModel::Octet
    }

    fn ct() -> (r: ContentType) {
        ContentType::Octet
    }
}

pub struct Atom;

impl Format for Atom {
    open spec fn model() -> ContentModel {
        ContentModel::Atom
    }

    fn ct() -> (r: ContentType) {
        ContentType::Atom
    }
}

pub struct Yaml;

impl Format for Yaml {
    open spec fn model() -> ContentModel {
        ContentModel::Custom("application/yaml"@)
    }

    fn ct() -> (r: ContentType) {
        ContentType::Custom("application/yaml")
    }
}

pub struct Html;

impl Format for Html {
    open spec fn model() -> ContentModel {
        ContentModel::Custom("text/html"@)
    }

    fn ct() -> (r: ContentType) {
        ContentType::Custom("text/html")
    }
}

pub struct Diff;

impl Format for Diff {
    open spec fn model() -> ContentModel {
        ContentModel::Custom("text/x-diff"@)
    }

    fn ct() -> (r: ContentType) {
        ContentType::Custom("text/x-diff")
    }
}

/// A value that can render itself into format `F`.
///
/// Rendering is infallible by design: parse failures belong to
/// `Object::parse_canonical`, and by the time `represent` runs the value
/// is already a well-formed object. Keep it a pure function of `self`; the
/// output may be served from cache long after the render ran.
pub trait Representable<F: Format> {
    /// The rendered bytes.
    open spec fn represented(&self) -> Seq<u8> {
        vstd::pervasive::arbitrary()
    }

    fn represent(&self) -> (r: Vec<u8>)
        ensures
            r@ == self.represented(),
    ;
}

/// Renders canonical bytes: parse the canonical, then
/// [`Representable::represent`].
pub fn render<O: Object + Representable<F>, F: Format>(canonical: &[u8]) -> (r: Result<Vec<u8>>)
    ensures
        match O::parse_failure(canonical@) {
            Some(f) => r matches Err(e) && e@ == f,
            None => r matches Ok(bytes) && exists|value: O|
                #![trigger O::parsed(canonical@, value)]
                O::parsed(canonical@, value) && bytes@ == <O as Representable<
                    F,
                >>::represented(&value),
        },
{
    match O::parse_canonical(canonical) {
        Ok(value) => Ok(<O as Representable<F>>::represent(&value)),
        Err(e) => Err(e),
    }
}

/// Some earlier content type has this extension.
pub open spec fn extension_taken(cts: Seq<ContentModel>, n: int, extension: Seq<char>) -> bool {
    exists|j: int| 0 <= j < n && (#[trigger] cts[j]).extension() == Some(extension)
}

/// Some earlier content type is the same.
pub open spec fn type_taken(cts: Seq<ContentModel>, n: int, ct: ContentModel) -> bool {
    exists|j: int| 0 <= j < n && #[trigger] cts[j] == ct
}

/// Why the `n`-th content type cannot join those before it, if it cannot.
pub open spec fn clash(cts: Seq<ContentModel>, n: int) -> Option<Failure> {
    if type_taken(cts, n, cts[n]) {
        Some(
            error::failure(
                ProviderErrorKind::InvalidInput,
                "duplicate representation content type "@ + cts[n].debug(),
            ),
        )
    } else {
        match cts[n].extension() {
            Some(extension) => if extension_taken(cts, n, extension) {
                Some(
                    error::failure(
                        ProviderErrorKind::InvalidInput,
                        "two representations share the leaf extension ."@ + extension,
                    ),
                )
            } else {
                None
            },
            None => None,
        }
    }
}

/// The first clash among the first `n` content types.
pub open spec fn first_clash(cts: Seq<ContentModel>, n: nat) -> Option<Failure>
    decreases n,
{
    if n == 0 {
        None
    } else {
        match first_clash(cts, (n - 1) as nat) {
            Some(f) => Some(f),
            None => clash(cts, n - 1),
        }
    }
}

/// A clash among the first types is the clash of all.
proof fn lemma_first_clash(cts: Seq<ContentModel>, n: nat, m: nat)
    requires
        n <= m,
        first_clash(cts, n) is Some,
    ensures
        first_clash(cts, m) == first_clash(cts, n),
    decreases m,
{
    if n < m {
        lemma_first_clash(cts, n, (m - 1) as nat);
    }
}

/// Without a clash, the content types are pairwise different and no two share
/// an extension.
pub proof fn law_no_clash_is_distinct(cts: Seq<ContentModel>, n: nat, i: int, j: int)
    requires
        n <= cts.len(),
        first_clash(cts, n) is None,
        0 <= i < j < n,
    ensures
        cts[i] != cts[j],
        cts[i].extension() is Some ==> cts[i].extension() != cts[j].extension(),
    decreases n,
{
    if j < n - 1 {
        law_no_clash_is_distinct(cts, (n - 1) as nat, i, j);
    } else {
        assert(clash(cts, j) is None);
    }
}

/// The content types of renders.
pub open spec fn render_types<R>(renders: Seq<(ContentType, R)>) -> Seq<ContentModel> {
    renders.map_values(|r: (ContentType, R)| r.0@)
}

/// The source content type followed by those of the renders.
pub open spec fn all_types<R>(source: ContentModel, renders: Seq<(ContentType, R)>) -> Seq<
    ContentModel,
> {
    seq![source] + render_types(renders)
}

/// The position of the first render of that type, from `i` on.
pub open spec fn render_index<R>(
    renders: Seq<(ContentType, R)>,
    ct: ContentModel,
    i: int,
) -> Option<int>
    decreases renders.len() - i,
{
    if i < 0 || i >= renders.len() {
        None
    } else if renders[i].0@ == ct {
        Some(i)
    } else {
        render_index(renders, ct, i + 1)
    }
}

/// Per-route representation dispatch: one verbatim source (canonical) content
/// type plus a set of renders keyed by content type. Built once at
/// registration; consulted on each read.
pub struct RenderTable<R> {
    source_ct: ContentType,
    renders: Vec<(ContentType, R)>,
}

/// What a [`RenderTable`] holds.
pub struct TableModel<R> {
    pub source: ContentModel,
    pub renders: Seq<(ContentType, R)>,
}

impl<R> View for RenderTable<R> {
    type V = TableModel<R>;

    closed spec fn view(&self) -> TableModel<R> {
        TableModel { source: self.source_ct@, renders: self.renders@ }
    }
}

impl<R: Copy> Clone for RenderTable<R> {
    fn clone(&self) -> (r: Self)
        ensures
            r@ == self@,
    {
        proof {
            use_type_invariant(self);
        }
        let mut renders: Vec<(ContentType, R)> = Vec::new();
        let mut i: usize = 0;
        while i < self.renders.len()
            invariant
                i <= self.renders@.len(),
                renders@ == self.renders@.take(i as int),
            decreases self.renders@.len() - i,
        {
            renders.push(self.renders[i]);
            i = i + 1;
        }
        assert(renders@ =~= self.renders@);
        RenderTable { source_ct: self.source_ct, renders }
    }
}

/// Every render can be called with any bytes.
pub open spec fn callable<R: Fn(&[u8]) -> Result<Vec<u8>>>(renders: Seq<(ContentType, R)>) -> bool {
    forall|i: int, bytes: &[u8]|
        0 <= i < renders.len() ==> #[trigger] call_requires(renders[i].1, (bytes,))
}

impl<R> RenderTable<R> {
    #[verifier::type_invariant]
    spec fn inv(self) -> bool {
        first_clash(
            all_types(self.source_ct@, self.renders@),
            (self.renders@.len() + 1) as nat,
        ) is None
    }

    /// Build from the canonical/source CT and the derived renders. Rejects
    /// (with an invalid-input error) any of: a render whose CT equals
    /// `source_ct`; a duplicate render CT; or two CTs (source or render) that
    /// share the same extension (an ambiguous leaf extension).
    pub fn build(source_ct: ContentType, renders: Vec<(ContentType, R)>) -> (r: Result<Self>)
        ensures
            match first_clash(
                all_types(source_ct@, renders@),
                (renders@.len() + 1) as nat,
            ) {
                Some(f) => r matches Err(e) && e@ == f,
                None => r matches Ok(table) && table@ == (TableModel {
                    source: source_ct@,
                    renders: renders@,
                }),
            },
    {
        let ghost cts = all_types(source_ct@, renders@);
        let ghost total = (renders@.len() + 1) as nat;
        assert(first_clash(cts, 1) is None) by {
            reveal_with_fuel(first_clash, 2);
            assert(cts[0] == source_ct@);
        }
        let mut i: usize = 0;
        while i < renders.len()
            invariant
                i <= renders@.len(),
                cts == all_types(source_ct@, renders@),
                total == renders@.len() + 1,
                first_clash(cts, (i + 1) as nat) is None,
            decreases renders@.len() - i,
        {
            let ct = renders[i].0;
            let ghost n = i as int + 1;
            assert(cts[n] == ct@);
            if Self::taken(source_ct, &renders, i, ct) {
                proof {
                    lemma_first_clash(cts, (n + 1) as nat, total);
                }
                let shown = ct.debug();
                let message = text::concat(
                    "duplicate representation content type ",
                    shown.as_str(),
                );
                return Err(ProviderError::invalid_input(message.as_str()));
            }
            if let Some(ext) = ct.extension() {
                if Self::shares(source_ct, &renders, i, ext) {
                    proof {
                        lemma_first_clash(cts, (n + 1) as nat, total);
                    }
                    let message = text::concat(
                        "two representations share the leaf extension .",
                        ext,
                    );
                    return Err(ProviderError::invalid_input(message.as_str()));
                }
            }
            i = i + 1;
        }
        Ok(RenderTable { source_ct, renders })
    }

    /// Whether the source or one of the first `n` renders has this type.
    fn taken(
        source_ct: ContentType,
        renders: &Vec<(ContentType, R)>,
        n: usize,
        ct: ContentType,
    ) -> (r: bool)
        requires
            n <= renders@.len(),
        ensures
            r == type_taken(all_types(source_ct@, renders@), n + 1, ct@),
    {
        let ghost cts = all_types(source_ct@, renders@);
        assert(cts[0] == source_ct@);
        if source_ct.same(ct) {
            return true;
        }
        let mut i: usize = 0;
        while i < n
            invariant
                i <= n <= renders@.len(),
                cts == all_types(source_ct@, renders@),
                forall|j: int| 0 <= j < i + 1 ==> #[trigger] cts[j] != ct@,
            decreases n - i,
        {
            assert(cts[i + 1] == renders@[i as int].0@);
            if renders[i].0.same(ct) {
                return true;
            }
            i = i + 1;
        }
        false
    }

    /// Whether the source or one of the first `n` renders has this extension.
    fn shares(
        source_ct: ContentType,
        renders: &Vec<(ContentType, R)>,
        n: usize,
        ext: &str,
    ) -> (r: bool)
        requires
            n <= renders@.len(),
        ensures
            r == extension_taken(all_types(source_ct@, renders@), n + 1, ext@),
    {
        let ghost cts = all_types(source_ct@, renders@);
        assert(cts[0] == source_ct@);
        if let Some(taken) = source_ct.extension() {
            if text::same(taken, ext) {
                return true;
            }
        }
        let mut i: usize = 0;
        while i < n
            invariant
                i <= n <= renders@.len(),
                cts == all_types(source_ct@, renders@),
                forall|j: int|
                    0 <= j < i + 1 ==> (#[trigger] cts[j]).extension() != Some(ext@),
            decreases n - i,
        {
            assert(cts[i + 1] == renders@[i as int].0@);
            if let Some(taken) = renders[i].0.extension() {
                if text::same(taken, ext) {
                    return true;
                }
            }
            i = i + 1;
        }
        false
    }

    /// The content type of the canonical bytes.
    pub fn source_ct(&self) -> (r: ContentType)
        ensures
            r@ == self@.source,
    {
        self.source_ct
    }

    /// The renders with their content types.
    pub fn renders(&self) -> (r: &[(ContentType, R)])
        ensures
            r@ == self@.renders,
    {
        self.renders.as_slice()
    }
}

/// The answer of a render table: the canonical bytes themselves, what the
/// matching render makes of them, or a miss.
pub open spec fn served<R: Fn(&[u8]) -> Result<Vec<u8>>>(
    table: TableModel<R>,
    ct: ContentModel,
    canonical: &[u8],
    r: Result<Vec<u8>>,
) -> bool {
    if ct == table.source {
        r matches Ok(bytes) && bytes@ == canonical@
    } else {
        match render_index(table.renders, ct, 0) {
            Some(i) => call_ensures(table.renders[i].1, (canonical,), r),
            None => r matches Err(e) && e@ == error::failure(
                ProviderErrorKind::NotFound,
                "no render registered for content type "@ + ct.debug(),
            ),
        }
    }
}

impl<R: Fn(&[u8]) -> Result<Vec<u8>>> RenderTable<R> {
    /// Serve content type `ct` from `canonical`: if `ct` is the source type,
    /// return the canonical bytes verbatim (no parse); otherwise invoke the
    /// matching render. If `ct` is neither the source nor a registered
    /// render, return a not-found error.
    pub fn serve(&self, ct: ContentType, canonical: &[u8]) -> (r: Result<Vec<u8>>)
        requires
            callable(self@.renders),
        ensures
            served(self@, ct@, canonical, r),
    {
        if ct.same(self.source_ct) {
            return Ok(file_attrs::copy_bytes(canonical));
        }
        let mut i: usize = 0;
        while i < self.renders.len()
            invariant
                i <= self.renders@.len(),
                self@.renders == self.renders@,
                callable(self@.renders),
                ct@ != self@.source,
                render_index(self@.renders, ct@, 0) == render_index(
                    self@.renders,
                    ct@,
                    i as int,
                ),
            decreases self.renders@.len() - i,
        {
            if self.renders[i].0.same(ct) {
                assert(call_requires(self@.renders[i as int].1, (canonical,)));
                return (self.renders[i].1)(canonical);
            }
            i = i + 1;
        }
        let shown = ct.debug();
        let message = text::concat("no render registered for content type ", shown.as_str());
        Err(ProviderError::not_found(message.as_str()))
    }
}

/// A table is rejected only for a reason: types that all differ, and of which
/// no two share an extension, clash nowhere.
pub proof fn law_distinct_types_do_not_clash(cts: Seq<ContentModel>, n: nat)
    requires
        n <= cts.len(),
        forall|i: int, j: int|
            #![trigger cts[i], cts[j]]
            0 <= i < j < n ==> cts[i] != cts[j] && (cts[i].extension() is None
                || cts[i].extension() != cts[j].extension()),
    ensures
        first_clash(cts, n) is None,
    decreases n,
{
    if n > 0 {
        law_distinct_types_do_not_clash(cts, (n - 1) as nat);
        let last = n - 1;
        if type_taken(cts, last, cts[last]) {
            let j = choose|j: int| 0 <= j < last && #[trigger] cts[j] == cts[last];
            assert(cts[j] != cts[last]);
        }
        if let Some(extension) = cts[last].extension() {
            if extension_taken(cts, last, extension) {
                let j = choose|j: int|
                    0 <= j < last && (#[trigger] cts[j]).extension() == Some(extension);
                assert(cts[j].extension() != cts[last].extension());
            }
        }
    }
}

} // verus!

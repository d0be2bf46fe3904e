//! Typestate projections: what handlers return.
//!
//! [`FileProjection`] is the author-facing file projection. Its byte-source
//! constructor fixes a typestate marker (`Inline`/`Body`/`Full`/`Ranged`/
//! `Blob`/`Deferred`) that gates which finishers are legal: `.volatile()`
//! exists only on a `Ranged` source, and a `Deferred` source cannot `.build()`
//! until its read mode is chosen. The illegal combinations are therefore
//! unrepresentable: see [`source_fits`], which holds of every projection.
//!
//! [`DirProjection`] is the author-facing directory listing. The router
//! applies the carried validator, cursor, and extra-file preloads when it
//! forms the answer.
//!
//! Projections describe; the host stores. A handler never caches: it attaches
//! preloads and the host decides what to keep, evict, and invalidate.

use core::marker::PhantomData;
use vstd::prelude::*;
use vstd::string::*;

use crate::blob::BlobId;
use crate::browse;
use crate::browse::{AnswerModel, Effects, EffectsModel, FileContent, Listing};
use crate::content_type;
use crate::content_type::{ContentModel, ContentType};
use crate::error;
use crate::error::{Failure, ProviderError, ProviderErrorKind, Result};
use crate::file_attrs;
use crate::file_attrs::{
    BytesModel, FileAttrs, FileModel, FileProj, ProjBytes, ReadMode, Size, Stability,
    VersionToken,
};
use crate::handler::Cursor;
use crate::identity::LogicalId;
use crate::text;
use crate::wire;
use crate::wire::{KindModel, SourceModel, StoreModel};

verus! {

/// The byte source backing a [`FileProjection`]. `R` is what serves ranged
/// reads.
pub enum FileSource<R> {
    /// Capped inline preload bytes, suitable for a dir entry or a preload.
    Inline(Vec<u8>),
    /// Uncapped read response body.
    Body(Vec<u8>),
    /// Read on demand with the chosen read mode.
    Deferred(ReadMode),
    /// Served by a range reader.
    Ranged(R),
    /// Served by the host from a blob handle.
    Blob(BlobId),
}

/// A file projection: byte attributes plus an optional content type and
/// sibling preload files. Built through [`FileProjBuilder`].
pub struct FileProjection<R> {
    source: FileSource<R>,
    attrs: FileAttrs,
    content_type: Option<ContentType>,
    extra_files: Vec<(String, FileProjection<R>)>,
}

/// A source that is read in ranges.
pub open spec fn ranged_source<R>(source: FileSource<R>) -> bool {
    source is Ranged || source == FileSource::<R>::Deferred(ReadMode::Ranged)
}

/// Bytes that may change while they are read come from a ranged source.
pub open spec fn source_fits<R>(p: ProjModel<R>) -> bool {
    p.attrs.stability is Volatile ==> ranged_source(p.source)
}

/// No projection is rejected as a preload for being volatile without a ranged
/// read.
pub proof fn law_projections_are_volatile_only_in_ranges<R>(p: ProjModel<R>)
    requires
        source_fits(p),
    ensures
        file_of(p) matches Some(file) ==> (file.attrs.stability is Volatile ==> file.bytes
            == BytesModel::Deferred(ReadMode::Ranged)),
        file_of(p) is None && p.attrs.stability is Volatile ==> p.source is Ranged,
{
}

/// What a [`FileProjection`] or its builder holds.
pub struct ProjModel<R> {
    pub source: FileSource<R>,
    pub attrs: FileAttrs,
    pub content_type: Option<ContentModel>,
    pub extra_files: Seq<(Seq<char>, FileProjection<R>)>,
}

/// Preloads with their paths as text.
pub open spec fn named_files<R>(files: Seq<(String, FileProjection<R>)>) -> Seq<
    (Seq<char>, FileProjection<R>),
> {
    files.map_values(|f: (String, FileProjection<R>)| (f.0@, f.1))
}

impl<R> View for FileProjection<R> {
    type V = ProjModel<R>;

    closed spec fn view(&self) -> ProjModel<R> {
        ProjModel {
            source: self.source,
            attrs: self.attrs,
            content_type: content_type::content_of(self.content_type),
            extra_files: named_files(self.extra_files@),
        }
    }
}

/// The projected file that a projection lowers to: `Inline` and `Deferred`
/// sources have one, the others are served through their own answers.
pub open spec fn file_of<R>(p: ProjModel<R>) -> Option<FileModel> {
    match p.source {
        FileSource::Inline(bytes) => Some(
            FileModel {
                attrs: p.attrs,
                bytes: BytesModel::Inline(bytes@),
                content_type: p.content_type,
            },
        ),
        FileSource::Deferred(read) => Some(
            FileModel {
                attrs: p.attrs,
                bytes: BytesModel::Deferred(read),
                content_type: p.content_type,
            },
        ),
        _ => None,
    }
}

/// The effects after staging the first `n` preloaded files that can be
/// lowered, or the failure of the first one that is rejected.
pub open spec fn stage_files<R>(
    before: EffectsModel,
    files: Seq<(Seq<char>, FileProjection<R>)>,
    n: nat,
) -> core::result::Result<EffectsModel, Failure>
    decreases n,
{
    if n == 0 {
        Ok(before)
    } else {
        match stage_files(before, files, (n - 1) as nat) {
            Err(f) => Err(f),
            Ok(staged) => match file_of(files[n - 1].1@) {
                None => Ok(staged),
                Some(file) => browse::staged_write(
                    staged,
                    files[n - 1].0,
                    file_attrs::file_failure(file),
                    None,
                    KindModel::File(wire::lowered_file(file)),
                ),
            },
        }
    }
}

/// A failed preload is the failure of the whole.
proof fn lemma_stage_files_error<R>(
    before: EffectsModel,
    files: Seq<(Seq<char>, FileProjection<R>)>,
    n: nat,
    m: nat,
)
    requires
        n <= m,
        stage_files(before, files, n) is Err,
    ensures
        stage_files(before, files, m) == stage_files(before, files, n),
    decreases m,
{
    if n < m {
        lemma_stage_files_error(before, files, n, (m - 1) as nat);
    }
}

/// Stages preloaded files one after the other.
fn project_files<R>(
    effects: &mut Effects,
    files: &Vec<(String, FileProjection<R>)>,
) -> (r: Result<()>)
    ensures
        match stage_files(old(effects)@, named_files(files@), files@.len()) {
            Ok(after) => r is Ok && final(effects)@ == after,
            Err(f) => r matches Err(e) && e@ == f,
        },
{
    let ghost named = named_files(files@);
    let ghost before = effects@;
    let mut i: usize = 0;
    while i < files.len()
        invariant
            i <= files@.len(),
            named == named_files(files@),
            before == old(effects)@,
            stage_files(before, named, i as nat) == Ok::<EffectsModel, Failure>(effects@),
        decreases files@.len() - i,
    {
        assert(named[i as int] == (files@[i as int].0@, files@[i as int].1));
        if let Some(proj) = files[i].1.as_file_proj() {
            match effects.project_file(files[i].0.as_str(), proj) {
                Ok(_) => {},
                Err(e) => {
                    proof {
                        lemma_stage_files_error(before, named, (i + 1) as nat, named.len());
                    }
                    return Err(e);
                },
            }
        }
        i = i + 1;
    }
    Ok(())
}

/// The read answer that a projection gives, or why it gives none.
pub open spec fn answer_of<R>(p: ProjModel<R>) -> core::result::Result<AnswerModel, Failure> {
    let bytes = match p.source {
        FileSource::Inline(bytes) => Ok(SourceModel::Inline(bytes@)),
        FileSource::Body(bytes) => Ok(SourceModel::Inline(bytes@)),
        FileSource::Blob(blob) => Ok(SourceModel::Blob(blob.0)),
        FileSource::Deferred(_) => Err(
            error::failure(
                ProviderErrorKind::NotFound,
                "deferred file source cannot answer a read directly"@,
            ),
        ),
        FileSource::Ranged(_) => Err(
            error::failure(
                ProviderErrorKind::Unimplemented,
                "ranged read-file is reserved but not wired through the router"@,
            ),
        ),
    };
    match bytes {
        Err(f) => Err(f),
        Ok(bytes) => match stage_files(
            browse::no_effects(),
            p.extra_files,
            p.extra_files.len(),
        ) {
            Err(f) => Err(f),
            Ok(effects) => Ok(
                AnswerModel { content_type: p.content_type, attrs: p.attrs, bytes, effects },
            ),
        },
    }
}

/// Why content cannot be preloaded as a file, if it cannot.
pub open spec fn preload_failure(content: AnswerModel) -> Option<Failure> {
    if !(content.bytes is Inline) {
        Some(
            error::failure(
                ProviderErrorKind::Internal,
                "list preload cannot project non-inline bytes"@,
            ),
        )
    } else if content.attrs.stability is Volatile {
        Some(
            error::failure(
                ProviderErrorKind::Internal,
                "list preload cannot project volatile inline bytes"@,
            ),
        )
    } else {
        None
    }
}

impl<R> FileProjection<R> {
    #[verifier::type_invariant]
    spec fn inv(self) -> bool {
        self.attrs.stability is Volatile ==> ranged_source(self.source)
    }

    /// Carried bytes, capped at 64 KiB. The implied size is the byte length.
    /// Suitable for a dir entry or a preload.
    pub fn inline(bytes: Vec<u8>) -> (r: FileProjBuilder<Inline, R>)
        ensures
            r@ == fresh(
                FileSource::<R>::Inline(bytes),
                Size::Exact(bytes@.len() as u64),
            ),
    {
        let size = Size::Exact(bytes.len() as u64);
        FileProjBuilder::new(FileSource::Inline(bytes), size)
    }

    /// The uncapped read response body. Unlike [`Self::inline`] this is
    /// not subject to the 64 KiB preload cap, because it is the materialized
    /// answer to a read rather than a preload.
    pub fn body(bytes: Vec<u8>) -> (r: FileProjBuilder<Body, R>)
        ensures
            r@ == fresh(FileSource::<R>::Body(bytes), Size::Exact(bytes@.len() as u64)),
    {
        let size = Size::Exact(bytes.len() as u64);
        FileProjBuilder::new(FileSource::Body(bytes), size)
    }

    /// Read on demand; resolve the read mode with `.full()` or `.ranged()`
    /// before `.build()`.
    pub fn deferred(size: Size) -> (r: FileProjBuilder<Deferred, R>)
        ensures
            r@ == fresh(FileSource::<R>::Deferred(ReadMode::Full), size),
    {
        FileProjBuilder::new(FileSource::Deferred(ReadMode::Full), size)
    }

    /// Live or large; served by the ranged session path. The only source that
    /// may be `.volatile()`.
    pub fn ranged(reader: R) -> (r: FileProjBuilder<Ranged, R>)
        ensures
            r@ == fresh(FileSource::Ranged(reader), Size::Unknown),
    {
        FileProjBuilder::new(FileSource::Ranged(reader), Size::Unknown)
    }

    /// Host-served by handle.
    pub fn blob(blob: BlobId) -> (r: FileProjBuilder<Blob, R>)
        ensures
            r@ == fresh(FileSource::<R>::Blob(blob), Size::Unknown),
    {
        FileProjBuilder::new(FileSource::Blob(blob), Size::Unknown)
    }

    pub fn source(&self) -> (r: &FileSource<R>)
        ensures
            *r == self@.source,
            source_fits(self@),
    {
        proof {
            use_type_invariant(self);
        }
        &self.source
    }

    pub fn attrs(&self) -> (r: &FileAttrs)
        ensures
            *r == self@.attrs,
            source_fits(self@),
    {
        proof {
            use_type_invariant(self);
        }
        &self.attrs
    }

    pub fn content_type(&self) -> (r: Option<ContentType>)
        ensures
            content_type::content_of(r) == self@.content_type,
    {
        self.content_type
    }

    pub fn extra_files(&self) -> (r: &[(String, FileProjection<R>)])
        ensures
            named_files(r@) == self@.extra_files,
    {
        self.extra_files.as_slice()
    }

    /// The attributes and the byte source, taken out of the projection.
    pub fn into_source(self) -> (r: (FileAttrs, FileSource<R>))
        ensures
            r.0 == self@.attrs,
            r.1 == self@.source,
            source_fits(self@),
    {
        proof {
            use_type_invariant(&self);
        }
        (self.attrs, self.source)
    }

    /// Stage the carried sibling preloads, so they are cached alongside the
    /// read. A sibling whose source has no `FileProj` lowering (`Body`/
    /// `Ranged`/`Blob`) is skipped; the host serves those through their own
    /// read.
    pub fn project_effects(&self) -> (r: Result<Effects>)
        ensures
            match stage_files(
                browse::no_effects(),
                self@.extra_files,
                self@.extra_files.len(),
            ) {
                Ok(staged) => r matches Ok(effects) && effects@ == staged,
                Err(f) => r matches Err(e) && e@ == f,
            },
    {
        let mut effects = Effects::new();
        project_files(&mut effects, &self.extra_files)?;
        Ok(effects)
    }

    /// The capped inline/deferred `FileProj` for sources the dir-entry and
    /// preload channels accept (`Inline`, `Deferred`). `Body`, `Ranged`, and
    /// `Blob` have no `FileProj` lowering.
    pub fn as_file_proj(&self) -> (r: Option<FileProj>)
        ensures
            match file_of(self@) {
                Some(file) => r matches Some(f) && f@ == file,
                None => r is None,
            },
            source_fits(self@),
    {
        proof {
            use_type_invariant(self);
        }
        let bytes = match &self.source {
            FileSource::Inline(bytes) => ProjBytes::Inline(
                file_attrs::copy_bytes(bytes.as_slice()),
            ),
            FileSource::Deferred(read) => ProjBytes::Deferred { read: *read },
            _ => {
                return None;
            },
        };
        Some(FileProj { attrs: self.attrs.clone(), bytes, content_type: self.content_type })
    }

    /// Inline projection assembled from a [`FileContent`]'s size, stability,
    /// version evidence, and content type. Errors when the content bytes are
    /// not inline or when the stability is `Volatile` (volatile requires a
    /// ranged source, not an inline one).
    pub fn from_content(content: &FileContent) -> (r: Result<FileProjection<R>>)
        ensures
            match preload_failure(content@) {
                Some(f) => r matches Err(e) && e@ == f,
                None => r matches Ok(p) && {
                    &&& p@.source matches FileSource::Inline(bytes)
                    &&& bytes@ == content@.bytes->Inline_0
                    &&& p@.attrs == content@.attrs
                    &&& p@.content_type == content@.content_type
                    &&& p@.extra_files.len() == 0
                },
            },
    {
        let attrs = content.attrs().clone();
        let bytes = match content.content() {
            Some(bytes) => file_attrs::copy_bytes(bytes),
            None => {
                return Err(
                    ProviderError::internal("list preload cannot project non-inline bytes"),
                );
            },
        };
        let builder = FileProjection::<R>::inline(bytes).size(attrs.size);
        let builder = match attrs.stability {
            Stability::Immutable => builder.immutable(),
            Stability::Mutable => builder.mutable(),
            Stability::Volatile => {
                return Err(
                    ProviderError::internal("list preload cannot project volatile inline bytes"),
                );
            },
        };
        let builder = match attrs.version {
            Some(version) => builder.version(version),
            None => builder,
        };
        let builder = match content.content_type() {
            Some(ct) => builder.content_type(ct),
            None => builder,
        };
        Ok(builder.build())
    }

    /// Lower this projection to a read answer.
    pub fn into_browse_content(&self) -> (r: Result<FileContent>)
        ensures
            match answer_of(self@) {
                Ok(answer) => r matches Ok(content) && content@ == answer,
                Err(f) => r matches Err(e) && e@ == f,
            },
    {
        let attrs = self.attrs.clone();
        let content = match &self.source {
            FileSource::Inline(bytes) | FileSource::Body(bytes) => FileContent::new(
                file_attrs::copy_bytes(bytes.as_slice()),
            ).with_attrs(attrs),
            FileSource::Blob(blob) => FileContent::blob(*blob).with_attrs(attrs),
            FileSource::Deferred(_) => {
                return Err(
                    ProviderError::not_found("deferred file source cannot answer a read directly"),
                );
            },
            FileSource::Ranged(_) => {
                return Err(
                    ProviderError::unimplemented(
                        "ranged read-file is reserved but not wired through the router",
                    ),
                );
            },
        };
        let content = match self.content_type {
            Some(ct) => content.with_content_type(ct),
            None => content,
        };
        let effects = self.project_effects()?;
        proof {
            browse::law_effects_extend(effects@, effects@, effects@);
        }
        Ok(content.with_effects(effects))
    }
}

/// Byte-source typestate marker: carried bytes.
pub struct Inline;

/// Byte-source typestate marker: a read response body.
pub struct Body;

/// Byte-source typestate marker: read on demand as a whole.
pub struct Full;

/// Byte-source typestate marker: read on demand in ranges. Only this one is
/// `Volatile`-eligible.
pub struct Ranged;

/// Byte-source typestate marker: served by the host from a blob.
pub struct Blob;

/// Byte-source typestate marker: read on demand, the mode still open.
pub struct Deferred;

/// The byte-source states.
pub enum SourceState {
    Inline,
    Body,
    Full,
    Ranged,
    Blob,
    Deferred,
}

/// A builder in that state may hold the source.
pub open spec fn state_holds<R>(state: SourceState, source: FileSource<R>) -> bool {
    match state {
        SourceState::Inline => source is Inline,
        SourceState::Body => source is Body,
        SourceState::Full => source == FileSource::<R>::Deferred(ReadMode::Full),
        SourceState::Ranged => ranged_source(source),
        SourceState::Blob => source is Blob,
        SourceState::Deferred => source is Deferred,
    }
}

/// A byte-source typestate marker.
pub trait ByteState {
    /// The state that the marker stands for.
    spec fn state() -> SourceState;
}

impl ByteState for Inline {
    open spec fn state() -> SourceState {
        SourceState::Inline
    }
}

impl ByteState for Body {
    open spec fn state() -> SourceState {
        SourceState::Body
    }
}

impl ByteState for Full {
    open spec fn state() -> SourceState {
        SourceState::Full
    }
}

impl ByteState for Ranged {
    open spec fn state() -> SourceState {
        SourceState::Ranged
    }
}

impl ByteState for Blob {
    open spec fn state() -> SourceState {
        SourceState::Blob
    }
}

impl ByteState for Deferred {
    open spec fn state() -> SourceState {
        SourceState::Deferred
    }
}

/// Source states that may be finished with `.build()`. `Deferred` is absent: a
/// deferred source must resolve its read mode first.
pub trait Buildable: ByteState {

}

impl Buildable for Inline {

}

impl Buildable for Body {

}

impl Buildable for Full {

}

impl Buildable for Ranged {

}

impl Buildable for Blob {

}

/// Typestate builder for a [`FileProjection`]. `Src` fixes the byte-source
/// state and thereby the legal finishers.
#[verifier::reject_recursive_types(Src)]
pub struct FileProjBuilder<Src: ByteState, R> {
    source: FileSource<R>,
    attrs: FileAttrs,
    content_type: Option<ContentType>,
    extra_files: Vec<(String, FileProjection<R>)>,
    _src: PhantomData<Src>,
}

/// An immutable projection without content type and preloads.
pub open spec fn fresh<R>(source: FileSource<R>, size: Size) -> ProjModel<R> {
    ProjModel {
        source,
        attrs: FileAttrs { size, stability: Stability::Immutable, version: None },
        content_type: None,
        extra_files: Seq::empty(),
    }
}

impl<Src: ByteState, R> View for FileProjBuilder<Src, R> {
    type V = ProjModel<R>;

    closed spec fn view(&self) -> ProjModel<R> {
        ProjModel {
            source: self.source,
            attrs: self.attrs,
            content_type: content_type::content_of(self.content_type),
            extra_files: named_files(self.extra_files@),
        }
    }
}

impl<Src: ByteState, R> FileProjBuilder<Src, R> {
    #[verifier::type_invariant]
    spec fn inv(self) -> bool {
        &&& state_holds(Src::state(), self.source)
        &&& self.attrs.stability is Volatile ==> Src::state() is Ranged
    }

    fn new(source: FileSource<R>, size: Size) -> (r: Self)
        requires
            state_holds(Src::state(), source),
        ensures
            r@ == fresh(source, size),
    {
        let r = FileProjBuilder {
            source,
            attrs: FileAttrs::new(size, Stability::Immutable),
            content_type: None,
            extra_files: Vec::new(),
            _src: PhantomData,
        };
        assert(r@.extra_files =~= fresh(source, size).extra_files);
        r
    }

    fn retag<New: ByteState>(self) -> (r: FileProjBuilder<New, R>)
        requires
            state_holds(New::state(), self@.source),
            self@.attrs.stability is Volatile ==> New::state() is Ranged,
        ensures
            r@ == self@,
    {
        proof {
            use_type_invariant(&self);
        }
        FileProjBuilder {
            source: self.source,
            attrs: self.attrs,
            content_type: self.content_type,
            extra_files: self.extra_files,
            _src: PhantomData,
        }
    }

    fn with_attrs(self, attrs: FileAttrs) -> (r: Self)
        requires
            attrs.stability is Volatile ==> Src::state() is Ranged,
        ensures
            r@ == (ProjModel { attrs, ..self@ }),
    {
        proof {
            use_type_invariant(&self);
        }
        FileProjBuilder {
            source: self.source,
            attrs,
            content_type: self.content_type,
            extra_files: self.extra_files,
            _src: PhantomData,
        }
    }

    #[must_use]
    pub fn size(self, size: Size) -> (r: Self)
        ensures
            r@ == (ProjModel { attrs: FileAttrs { size, ..self@.attrs }, ..self@ }),
    {
        proof {
            use_type_invariant(&self);
        }
        let attrs = FileAttrs { size, ..self.attrs.clone() };
        self.with_attrs(attrs)
    }

    #[must_use]
    pub fn immutable(self) -> (r: Self)
        ensures
            r@ == (ProjModel {
                attrs: FileAttrs { stability: Stability::Immutable, ..self@.attrs },
                ..self@
            }),
    {
        let attrs = FileAttrs { stability: Stability::Immutable, ..self.attrs.clone() };
        self.with_attrs(attrs)
    }

    #[must_use]
    pub fn mutable(self) -> (r: Self)
        ensures
            r@ == (ProjModel {
                attrs: FileAttrs { stability: Stability::Mutable, ..self@.attrs },
                ..self@
            }),
    {
        let attrs = FileAttrs { stability: Stability::Mutable, ..self.attrs.clone() };
        self.with_attrs(attrs)
    }

    #[must_use]
    pub fn version(self, v: VersionToken) -> (r: Self)
        ensures
            r@ == (ProjModel {
                attrs: FileAttrs { version: Some(v), ..self@.attrs },
                ..self@
            }),
    {
        proof {
            use_type_invariant(&self);
        }
        let attrs = FileAttrs { version: Some(v), ..self.attrs.clone() };
        self.with_attrs(attrs)
    }

    /// Content type for a bare-name leaf the host suffix map cannot type.
    #[must_use]
    pub fn content_type(self, ct: ContentType) -> (r: Self)
        ensures
            r@ == (ProjModel { content_type: Some(ct@), ..self@ }),
    {
        proof {
            use_type_invariant(&self);
        }
        FileProjBuilder {
            source: self.source,
            attrs: self.attrs,
            content_type: Some(ct),
            extra_files: self.extra_files,
            _src: PhantomData,
        }
    }

    /// Preload a sibling file alongside this projection.
    #[must_use]
    pub fn preload_file(self, path: String, file: FileProjection<R>) -> (r: Self)
        ensures
            r@ == (ProjModel { extra_files: self@.extra_files.push((path@, file)), ..self@ }),
    {
        proof {
            use_type_invariant(&self);
        }
        let mut extra_files = self.extra_files;
        let ghost before = named_files(extra_files@);
        extra_files.push((path, file));
        assert(named_files(extra_files@) =~= before.push((path@, file)));
        FileProjBuilder {
            source: self.source,
            attrs: self.attrs,
            content_type: self.content_type,
            extra_files,
            _src: PhantomData,
        }
    }
}

impl<R> FileProjBuilder<Deferred, R> {
    fn with_read(self, read: ReadMode) -> (r: Self)
        requires
            !(self@.attrs.stability is Volatile),
        ensures
            r@ == (ProjModel { source: FileSource::Deferred(read), ..self@ }),
    {
        FileProjBuilder {
            source: FileSource::Deferred(read),
            attrs: self.attrs,
            content_type: self.content_type,
            extra_files: self.extra_files,
            _src: PhantomData,
        }
    }

    /// Read on demand as a whole.
    pub fn full(self) -> (r: FileProjBuilder<Full, R>)
        ensures
            r@ == (ProjModel { source: FileSource::Deferred(ReadMode::Full), ..self@ }),
    {
        proof {
            use_type_invariant(&self);
        }
        self.with_read(ReadMode::Full).retag()
    }

    /// Read on demand in ranges.
    pub fn ranged(self) -> (r: FileProjBuilder<Ranged, R>)
        ensures
            r@ == (ProjModel { source: FileSource::Deferred(ReadMode::Ranged), ..self@ }),
    {
        proof {
            use_type_invariant(&self);
        }
        self.with_read(ReadMode::Ranged).retag()
    }
}

impl<R> FileProjBuilder<Ranged, R> {
    /// Mark the projection live: its bytes may change between reads. Only a
    /// ranged source is `Volatile`-eligible; `.volatile()` does not exist on
    /// any other.
    #[must_use]
    pub fn volatile(self) -> (r: Self)
        ensures
            r@ == (ProjModel {
                attrs: FileAttrs { stability: Stability::Volatile, ..self@.attrs },
                ..self@
            }),
    {
        proof {
            use_type_invariant(&self);
        }
        let attrs = FileAttrs { stability: Stability::Volatile, ..self.attrs.clone() };
        self.with_attrs(attrs)
    }
}

impl<Src: Buildable, R> FileProjBuilder<Src, R> {
    pub fn build(self) -> (r: FileProjection<R>)
        ensures
            r@ == self@,
            state_holds(Src::state(), r@.source),
            source_fits(r@),
    {
        proof {
            use_type_invariant(&self);
        }
        FileProjection {
            source: self.source,
            attrs: self.attrs,
            content_type: self.content_type,
            extra_files: self.extra_files,
        }
    }
}

/// The kind of an [`Entry`].
#[derive(Clone, Copy, Debug, PartialEq, Eq, Structural)]
pub enum EntryKind {
    Dir,
    File,
}

/// A directory entry: a bare name plus a kind. A file entry carries no
/// projection; it lowers to a default deferred projection. An optional content
/// type types a bare-name leaf the host suffix map cannot.
#[derive(Debug, PartialEq, Eq)]
pub struct Entry {
    name: String,
    kind: EntryKind,
    content_type: Option<ContentType>,
}

/// What an [`Entry`] says.
pub struct ChildModel {
    pub name: Seq<char>,
    pub kind: EntryKind,
    pub content_type: Option<ContentModel>,
}

impl View for Entry {
    type V = ChildModel;

    closed spec fn view(&self) -> ChildModel {
        ChildModel {
            name: self.name@,
            kind: self.kind,
            content_type: content_type::content_of(self.content_type),
        }
    }
}

/// The models of children.
pub open spec fn children(entries: Seq<Entry>) -> Seq<ChildModel> {
    entries.map_values(|e: Entry| e@)
}

/// The dirent that an enumerated child is listed as.
pub open spec fn child_entry(child: ChildModel) -> browse::EntryModel {
    match child.kind {
        EntryKind::Dir => browse::dir_entry(child.name),
        EntryKind::File => browse::file_entry(child.name, file_attrs::listing_file()),
    }
}

/// The dirents that enumerated children are listed as.
pub open spec fn child_entries(entries: Seq<ChildModel>) -> Seq<browse::EntryModel> {
    entries.map_values(|c: ChildModel| child_entry(c))
}

impl Entry {
    /// A directory child; its contents come from whatever route matches the
    /// child path when it is later listed.
    pub fn dir(name: &str) -> (r: Self)
        ensures
            r@ == (ChildModel { name: name@, kind: EntryKind::Dir, content_type: None }),
    {
        Entry { name: name.to_owned(), kind: EntryKind::Dir, content_type: None }
    }

    /// A file child with the default deferred projection: `stat` works
    /// immediately, bytes load on the first read through the child's own
    /// route. To ship the bytes along with the listing, pair the entry with
    /// [`DirProjection::preload_file`] for the same name.
    pub fn file(name: &str) -> (r: Self)
        ensures
            r@ == (ChildModel { name: name@, kind: EntryKind::File, content_type: None }),
    {
        Entry { name: name.to_owned(), kind: EntryKind::File, content_type: None }
    }

    /// Type a leaf so the host echoes its content type opaquely.
    #[must_use]
    pub fn content_type(self, ct: ContentType) -> (r: Self)
        ensures
            r@ == (ChildModel { content_type: Some(ct@), ..self@ }),
    {
        Entry { name: self.name, kind: self.kind, content_type: Some(ct) }
    }

    pub fn name(&self) -> (r: &str)
        ensures
            r@ == self@.name,
    {
        self.name.as_str()
    }

    pub fn kind(&self) -> (r: EntryKind)
        ensures
            r == self@.kind,
    {
        self.kind
    }

    pub fn declared_content_type(&self) -> (r: Option<ContentType>)
        ensures
            content_type::content_of(r) == self@.content_type,
    {
        self.content_type
    }

    /// Lower to a dirent. A file lowers to the default deferred projection;
    /// the content type does not survive this lowering, so the router reads
    /// it from [`Self::declared_content_type`].
    pub fn to_browse_entry(&self) -> (r: browse::Entry)
        ensures
            r@ == child_entry(self@),
    {
        match self.kind {
            EntryKind::Dir => browse::Entry::dir(self.name.as_str()),
            EntryKind::File => browse::Entry::file(
                self.name.as_str(),
                FileProj::listing_shape(),
            ),
        }
    }
}

/// The listing outcome a [`DirProjection`] carries. `Unchanged` is a
/// sentinel; the `Entries` variant carries the entries, an exhaustiveness
/// flag, and an optional resume cursor.
#[derive(Debug, PartialEq, Eq)]
pub enum DirOutcome {
    Entries { entries: Vec<Entry>, exhaustive: bool, cursor: Option<Cursor> },
    Unchanged,
}

/// What a [`DirOutcome`] says.
pub enum DirOutcomeModel {
    Entries { entries: Seq<ChildModel>, exhaustive: bool, cursor: Option<Cursor> },
    Unchanged,
}

impl View for DirOutcome {
    type V = DirOutcomeModel;

    open spec fn view(&self) -> DirOutcomeModel {
        match self {
            DirOutcome::Entries { entries, exhaustive, cursor } => DirOutcomeModel::Entries {
                entries: children(entries@),
                exhaustive: *exhaustive,
                cursor: *cursor,
            },
            DirOutcome::Unchanged => DirOutcomeModel::Unchanged,
        }
    }
}

/// A canonical-store entry a directory listing carries for an object it
/// preloaded: the logical id, validator, canonical bytes, and full view
/// leaves.
struct ExtraCanonical {
    id: LogicalId,
    validator: Option<VersionToken>,
    bytes: Vec<u8>,
    leaves: Vec<String>,
}

impl View for ExtraCanonical {
    type V = StoreModel;

    closed spec fn view(&self) -> StoreModel {
        StoreModel {
            id: self.id@,
            validator: browse::token_text(self.validator),
            bytes: self.bytes@,
            view_leaves: text::views(self.leaves@),
        }
    }
}

spec fn stores(items: Seq<ExtraCanonical>) -> Seq<StoreModel> {
    items.map_values(|e: ExtraCanonical| e@)
}

/// Preloaded directories with their paths as text.
spec fn named_dirs(dirs: Seq<(String, bool)>) -> Seq<(Seq<char>, bool)> {
    dirs.map_values(|d: (String, bool)| (d.0@, d.1))
}

/// A directory listing. `exhaustive` enumerates every child; `open` is
/// capped/non-exhaustive with no cursor; `paged` is resumable; `unchanged`
/// says that the cached validator matched, so the host serves its cached
/// dirents.
pub struct DirProjection<R> {
    outcome: DirOutcome,
    validator: Option<VersionToken>,
    extra_files: Vec<(String, FileProjection<R>)>,
    extra_dirs: Vec<(String, bool)>,
    extra_canonical: Vec<ExtraCanonical>,
}

/// What a [`DirProjection`] holds.
pub struct DirModel<R> {
    pub outcome: DirOutcomeModel,
    pub validator: Option<VersionToken>,
    pub extra_files: Seq<(Seq<char>, FileProjection<R>)>,
    pub extra_dirs: Seq<(Seq<char>, bool)>,
    pub extra_canonical: Seq<StoreModel>,
}

impl<R> View for DirProjection<R> {
    type V = DirModel<R>;

    closed spec fn view(&self) -> DirModel<R> {
        DirModel {
            outcome: self.outcome@,
            validator: self.validator,
            extra_files: named_files(self.extra_files@),
            extra_dirs: named_dirs(self.extra_dirs@),
            extra_canonical: stores(self.extra_canonical@),
        }
    }
}

/// A projection with that outcome and nothing else.
pub open spec fn plain_dir<R>(outcome: DirOutcomeModel) -> DirModel<R> {
    DirModel {
        outcome,
        validator: None,
        extra_files: Seq::empty(),
        extra_dirs: Seq::empty(),
        extra_canonical: Seq::empty(),
    }
}

/// Join a parent preload path with a child path. Absolute child paths pass
/// through.
pub open spec fn joined_path(base: Seq<char>, leaf: Seq<char>) -> Seq<char> {
    if leaf.len() > 0 && leaf[0] == '/' {
        leaf
    } else {
        text::without_end_slashes(base) + "/"@ + leaf
    }
}

fn join_preload_path(base: &str, leaf: &str) -> (r: String)
    ensures
        r@ == joined_path(base@, leaf@),
{
    if text::starts_with_slash(leaf) {
        return leaf.to_owned();
    }
    let base = text::trim_end_slashes(base);
    text::concat3(base.as_str(), "/", leaf)
}

/// Preloads moved below a path.
pub open spec fn files_below<R>(
    base: Seq<char>,
    files: Seq<(Seq<char>, FileProjection<R>)>,
) -> Seq<(Seq<char>, FileProjection<R>)> {
    files.map_values(
        |f: (Seq<char>, FileProjection<R>)| (joined_path(base, f.0), f.1),
    )
}

/// Preloaded directories moved below a path.
pub open spec fn dirs_below(base: Seq<char>, dirs: Seq<(Seq<char>, bool)>) -> Seq<
    (Seq<char>, bool),
> {
    dirs.map_values(|d: (Seq<char>, bool)| (joined_path(base, d.0), d.1))
}

/// Whether an outcome enumerates every child.
pub open spec fn claims_all(outcome: DirOutcomeModel) -> bool {
    outcome matches DirOutcomeModel::Entries { exhaustive, .. } && exhaustive
}

/// The effects after staging the first `n` preloaded directories, or the
/// failure of the first one that is rejected.
pub open spec fn stage_dirs(
    before: EffectsModel,
    dirs: Seq<(Seq<char>, bool)>,
    n: nat,
) -> core::result::Result<EffectsModel, Failure>
    decreases n,
{
    if n == 0 {
        Ok(before)
    } else {
        match stage_dirs(before, dirs, (n - 1) as nat) {
            Err(f) => Err(f),
            Ok(staged) => browse::staged_write(
                staged,
                dirs[n - 1].0,
                None,
                None,
                KindModel::Directory(dirs[n - 1].1),
            ),
        }
    }
}

/// A failed directory is the failure of the whole.
proof fn lemma_stage_dirs_error(
    before: EffectsModel,
    dirs: Seq<(Seq<char>, bool)>,
    n: nat,
    m: nat,
)
    requires
        n <= m,
        stage_dirs(before, dirs, n) is Err,
    ensures
        stage_dirs(before, dirs, m) == stage_dirs(before, dirs, n),
    decreases m,
{
    if n < m {
        lemma_stage_dirs_error(before, dirs, n, (m - 1) as nat);
    }
}

/// The effects that a directory projection carries: its directories, then
/// its files, then its canonicals.
pub open spec fn effects_of<R>(p: DirModel<R>) -> core::result::Result<EffectsModel, Failure> {
    match stage_dirs(browse::no_effects(), p.extra_dirs, p.extra_dirs.len()) {
        Err(f) => Err(f),
        Ok(dirs) => match stage_files(dirs, p.extra_files, p.extra_files.len()) {
            Err(f) => Err(f),
            Ok(staged) => Ok(
                EffectsModel { canonical: staged.canonical + p.extra_canonical, ..staged },
            ),
        },
    }
}

/// A preload reaches the host only if its combination of bytes, size and
/// stability is legal: an illegal one fails the whole projection.
pub proof fn law_staged_preloads_are_legal<R>(
    before: EffectsModel,
    files: Seq<(Seq<char>, FileProjection<R>)>,
    i: int,
)
    requires
        0 <= i < files.len(),
        stage_files(before, files, files.len()) is Ok,
    ensures
        file_of(files[i].1@) matches Some(file) ==> file_attrs::file_failure(file) is None,
{
    if stage_files(before, files, (i + 1) as nat) is Err {
        lemma_stage_files_error(before, files, (i + 1) as nat, files.len());
    }
}

impl<R> DirProjection<R> {
    /// Every child enumerated: "these are all the names I am aware of."
    /// Even so, lookup remains the authoritative name oracle and may
    /// resolve names this listing omitted; exhaustive is a claim about the
    /// enumeration, not a promise of future misses.
    pub fn exhaustive(entries: Vec<Entry>) -> (r: Self)
        ensures
            r@ == plain_dir::<R>(
                DirOutcomeModel::Entries {
                    entries: children(entries@),
                    exhaustive: true,
                    cursor: None,
                },
            ),
    {
        Self::with_outcome(DirOutcome::Entries { entries, exhaustive: true, cursor: None })
    }

    /// Deliberately partial with no cursor: the directory is unbounded or
    /// expensive to enumerate and the caller navigates by lookup rather than
    /// by listing. Use [`Self::paged`] instead when the rest is reachable and
    /// worth fetching.
    pub fn open(entries: Vec<Entry>) -> (r: Self)
        ensures
            r@ == plain_dir::<R>(
                DirOutcomeModel::Entries {
                    entries: children(entries@),
                    exhaustive: false,
                    cursor: None,
                },
            ),
    {
        Self::with_outcome(DirOutcome::Entries { entries, exhaustive: false, cursor: None })
    }

    /// Resumable: a partial page plus an opaque cursor. The host echoes the
    /// cursor back on the next listing of this path; the handler decodes it
    /// and continues until a page comes back without one.
    pub fn paged(entries: Vec<Entry>, cursor: Cursor) -> (r: Self)
        ensures
            r@ == plain_dir::<R>(
                DirOutcomeModel::Entries {
                    entries: children(entries@),
                    exhaustive: false,
                    cursor: Some(cursor),
                },
            ),
    {
        Self::with_outcome(
            DirOutcome::Entries { entries, exhaustive: false, cursor: Some(cursor) },
        )
    }

    /// The cached validator matched: the host serves its cached dirents and
    /// the handler enumerated nothing.
    pub fn unchanged() -> (r: Self)
        ensures
            r@ == plain_dir::<R>(DirOutcomeModel::Unchanged),
    {
        Self::with_outcome(DirOutcome::Unchanged)
    }

    fn with_outcome(outcome: DirOutcome) -> (r: Self)
        ensures
            r@ == plain_dir::<R>(outcome@),
    {
        let r = DirProjection {
            outcome,
            validator: None,
            extra_files: Vec::new(),
            extra_dirs: Vec::new(),
            extra_canonical: Vec::new(),
        };
        assert(r@.extra_files =~= Seq::<(Seq<char>, FileProjection<R>)>::empty());
        assert(r@.extra_dirs =~= Seq::<(Seq<char>, bool)>::empty());
        assert(r@.extra_canonical =~= Seq::<StoreModel>::empty());
        r
    }

    /// Record the validator the host echoes on the next listing for a cheap
    /// re-list.
    #[must_use]
    pub fn with_validator(self, validator: VersionToken) -> (r: Self)
        ensures
            r@ == (DirModel { validator: Some(validator), ..self@ }),
    {
        DirProjection {
            outcome: self.outcome,
            validator: Some(validator),
            extra_files: self.extra_files,
            extra_dirs: self.extra_dirs,
            extra_canonical: self.extra_canonical,
        }
    }

    /// Preload a child file alongside the listing. `path` may be
    /// mount-relative or absolute.
    #[must_use]
    pub fn preload_file(self, path: String, file: FileProjection<R>) -> (r: Self)
        ensures
            r@ == (DirModel { extra_files: self@.extra_files.push((path@, file)), ..self@ }),
    {
        let mut extra_files = self.extra_files;
        let ghost before = named_files(extra_files@);
        extra_files.push((path, file));
        assert(named_files(extra_files@) =~= before.push((path@, file)));
        DirProjection {
            outcome: self.outcome,
            validator: self.validator,
            extra_files,
            extra_dirs: self.extra_dirs,
            extra_canonical: self.extra_canonical,
        }
    }

    /// Preload a child directory and merge `child`'s listing-time effects under
    /// `path`. Relative paths on `child` are joined to `path`; absolute paths
    /// are left unchanged. The child's exhaustiveness selects whether the
    /// directory is projected as complete. Enumerated entries on `child` are
    /// not merged into this listing.
    #[must_use]
    pub fn preload_dir(self, path: String, child: DirProjection<R>) -> (r: Self)
        ensures
            r@ == (DirModel {
                extra_dirs: self@.extra_dirs.push((path@, claims_all(child@.outcome)))
                    + dirs_below(path@, child@.extra_dirs),
                extra_files: self@.extra_files + files_below(path@, child@.extra_files),
                extra_canonical: self@.extra_canonical + child@.extra_canonical,
                ..self@
            }),
    {
        let exhaustive = match &child.outcome {
            DirOutcome::Entries { exhaustive, .. } => *exhaustive,
            DirOutcome::Unchanged => false,
        };
        let ghost model = child@;
        let mut extra_dirs = self.extra_dirs;
        let ghost dirs0 = named_dirs(extra_dirs@);
        extra_dirs.push((path.clone(), exhaustive));
        let ghost dirs1 = dirs0.push((path@, exhaustive));
        assert(named_dirs(extra_dirs@) =~= dirs1);
        let ghost below = dirs_below(path@, model.extra_dirs);
        let child_dirs = child.extra_dirs;
        assert(dirs1 + below.take(0) =~= dirs1);
        for dir in it: child_dirs
            invariant
                model.extra_dirs == named_dirs(it.seq()),
                below == dirs_below(path@, model.extra_dirs),
                named_dirs(extra_dirs@) == dirs1 + below.take(it.index() as int),
        {
            let ghost i = it.index() as int;
            let ghost before = extra_dirs@;
            assert(model.extra_dirs[i] == (dir.0@, dir.1));
            extra_dirs.push((join_preload_path(path.as_str(), dir.0.as_str()), dir.1));
            assert(named_dirs(extra_dirs@) =~= named_dirs(before).push(below[i]));
            assert(dirs1 + below.take(i + 1) =~= (dirs1 + below.take(i)).push(below[i]));
        }
        assert(below.take(below.len() as int) =~= below);

        let mut extra_files = self.extra_files;
        let ghost files0 = named_files(extra_files@);
        let ghost moved = files_below(path@, model.extra_files);
        let child_files = child.extra_files;
        assert(files0 + moved.take(0) =~= files0);
        for file in it: child_files
            invariant
                model.extra_files == named_files(it.seq()),
                moved == files_below(path@, model.extra_files),
                named_files(extra_files@) == files0 + moved.take(it.index() as int),
        {
            let ghost i = it.index() as int;
            let ghost before = extra_files@;
            assert(model.extra_files[i] == (file.0@, file.1));
            extra_files.push((join_preload_path(path.as_str(), file.0.as_str()), file.1));
            assert(named_files(extra_files@) =~= named_files(before).push(moved[i]));
            assert(files0 + moved.take(i + 1) =~= (files0 + moved.take(i)).push(moved[i]));
        }
        assert(moved.take(moved.len() as int) =~= moved);

        let mut extra_canonical = self.extra_canonical;
        let ghost stored = stores(extra_canonical@);
        let mut child_canonical = child.extra_canonical;
        extra_canonical.append(&mut child_canonical);
        assert(stores(extra_canonical@) =~= stored + model.extra_canonical);
        DirProjection {
            outcome: self.outcome,
            validator: self.validator,
            extra_files,
            extra_dirs,
            extra_canonical,
        }
    }

    /// Store canonical bytes at an object anchor so later reads of identity or
    /// rendered representations can reuse the listing fetch.
    #[must_use]
    pub fn store_canonical(
        self,
        id: LogicalId,
        validator: Option<VersionToken>,
        bytes: Vec<u8>,
        leaves: Vec<String>,
    ) -> (r: Self)
        ensures
            r@ == (DirModel {
                extra_canonical: self@.extra_canonical.push(
                    StoreModel {
                        id: id@,
                        validator: browse::token_text(validator),
                        bytes: bytes@,
                        view_leaves: text::views(leaves@),
                    },
                ),
                ..self@
            }),
    {
        let mut extra_canonical = self.extra_canonical;
        let ghost before = stores(extra_canonical@);
        let extra = ExtraCanonical { id, validator, bytes, leaves };
        let ghost model = extra@;
        extra_canonical.push(extra);
        assert(stores(extra_canonical@) =~= before.push(model));
        DirProjection {
            outcome: self.outcome,
            validator: self.validator,
            extra_files: self.extra_files,
            extra_dirs: self.extra_dirs,
            extra_canonical,
        }
    }

    pub fn outcome(&self) -> (r: &DirOutcome)
        ensures
            r@ == self@.outcome,
    {
        &self.outcome
    }

    pub fn validator(&self) -> (r: Option<&VersionToken>)
        ensures
            match self@.validator {
                Some(token) => r matches Some(t) && *t == token,
                None => r is None,
            },
    {
        match &self.validator {
            Some(token) => Some(token),
            None => None,
        }
    }

    pub fn extra_files(&self) -> (r: &[(String, FileProjection<R>)])
        ensures
            named_files(r@) == self@.extra_files,
    {
        self.extra_files.as_slice()
    }

    /// Lower the enumerated entries onto a [`Listing`]. `None` for the
    /// unchanged sentinel (no entries to lower). The content type of an entry
    /// is dropped in this lowering; the router lists entries with theirs.
    pub fn to_listing(&self) -> (r: Option<Listing>)
        ensures
            match self@.outcome {
                DirOutcomeModel::Entries { entries, exhaustive, .. } => r matches Some(listing)
                    && listing@ == browse::plain_listing(child_entries(entries), exhaustive),
                DirOutcomeModel::Unchanged => r is None,
            },
    {
        match &self.outcome {
            DirOutcome::Entries { entries, exhaustive, .. } => {
                let lowered = lower_children(entries);
                Some(
                    if *exhaustive {
                        Listing::complete(lowered)
                    } else {
                        Listing::partial(lowered)
                    },
                )
            },
            DirOutcome::Unchanged => None,
        }
    }

    /// Stage the carried preloads: directories, then files, then canonicals.
    /// Sources without a `FileProj` lowering (`Body`, `Ranged`, `Blob`) are
    /// skipped; the router serves them through their own answers.
    pub fn project_effects(&self) -> (r: Result<Effects>)
        ensures
            match effects_of(self@) {
                Ok(staged) => r matches Ok(effects) && effects@ == staged,
                Err(f) => r matches Err(e) && e@ == f,
            },
    {
        let mut effects = Effects::new();
        let ghost dirs = self@.extra_dirs;
        let mut i: usize = 0;
        while i < self.extra_dirs.len()
            invariant
                i <= self.extra_dirs@.len(),
                dirs == named_dirs(self.extra_dirs@),
                dirs == self@.extra_dirs,
                stage_dirs(browse::no_effects(), dirs, i as nat) == Ok::<EffectsModel, Failure>(
                    effects@,
                ),
            decreases self.extra_dirs@.len() - i,
        {
            assert(dirs[i as int] == (self.extra_dirs@[i as int].0@, self.extra_dirs@[i as int].1));
            let path = self.extra_dirs[i].0.as_str();
            let staged = if self.extra_dirs[i].1 {
                effects.project_dir_exhaustive(path)
            } else {
                effects.project_dir(path)
            };
            match staged {
                Ok(_) => {},
                Err(e) => {
                    proof {
                        lemma_stage_dirs_error(
                            browse::no_effects(),
                            dirs,
                            (i + 1) as nat,
                            dirs.len(),
                        );
                    }
                    return Err(e);
                },
            }
            i = i + 1;
        }
        project_files(&mut effects, &self.extra_files)?;
        let ghost staged = effects@;
        let ghost more = self@.extra_canonical;
        let mut k: usize = 0;
        assert(staged.canonical + more.take(0) =~= staged.canonical);
        while k < self.extra_canonical.len()
            invariant
                k <= self.extra_canonical@.len(),
                more == stores(self.extra_canonical@),
                effects@ == (EffectsModel {
                    canonical: staged.canonical + more.take(k as int),
                    ..staged
                }),
            decreases self.extra_canonical@.len() - k,
        {
            let extra = &self.extra_canonical[k];
            assert(more[k as int] == extra@);
            effects.canonical_store(
                &extra.id,
                file_attrs::copy_token(&extra.validator),
                file_attrs::copy_bytes(extra.bytes.as_slice()),
                text::copied(extra.leaves.as_slice()),
            );
            assert(staged.canonical + more.take(k as int + 1) =~= (staged.canonical + more.take(
                k as int,
            )).push(more[k as int]));
            k = k + 1;
        }
        assert(more.take(more.len() as int) =~= more);
        Ok(effects)
    }
}

/// Lowers enumerated children one by one.
fn lower_children(entries: &Vec<Entry>) -> (r: Vec<browse::Entry>)
    ensures
        browse::models(r@) == child_entries(children(entries@)),
{
    let mut out: Vec<browse::Entry> = Vec::new();
    let mut i: usize = 0;
    let ghost all = child_entries(children(entries@));
    while i < entries.len()
        invariant
            i <= entries@.len(),
            all == child_entries(children(entries@)),
            browse::models(out@) == all.take(i as int),
        decreases entries@.len() - i,
    {
        let ghost before = out@;
        out.push(entries[i].to_browse_entry());
        assert(browse::models(out@) =~= browse::models(before).push(all[i as int]));
        assert(all.take(i as int + 1) =~= all.take(i as int).push(all[i as int]));
        i = i + 1;
    }
    assert(all.take(all.len() as int) =~= all);
    out
}

} // verus!

//! Browse results and the [`Effects`] channel.
//!
//! These types sit between the provider-facing projection layer and the wire;
//! the router lowers handler returns onto them.
//!
//! [`Effects`] is the only channel through which a provider mutates host
//! state. Everything else here is a terminal answer to the one operation in
//! flight.

use vstd::prelude::*;
use vstd::string::*;

use crate::blob::BlobId;
use crate::content_type;
use crate::content_type::{ContentModel, ContentType};
use crate::error;
use crate::error::{Failure, ProviderError, ProviderErrorKind, Result};
use crate::file_attrs;
use crate::file_attrs::{FileAttrs, FileModel, FileProj, ReadFileBytes, Size, Stability, VersionToken};
use crate::handler::{copy_cursor, Cursor};
use crate::identity;
use crate::identity::{IdModel, LogicalId};
use crate::path;
use crate::path::Path;
use crate::text;
use crate::wire;
use crate::wire::{EvictModel, KindModel, SourceModel, StoreModel, WriteModel};

verus! {

/// A host-pushed canonical object on the read path. The host resolves a
/// view miss to its anchor and pushes the cached canonical bytes so the
/// object renders without an upstream call. `id` is compared structurally
/// against the route-derived anchor via [`LogicalId::matches_wire`].
pub struct CachedCanonical {
    pub id: wire::LogicalId,
    pub bytes: Vec<u8>,
    pub validator: Option<VersionToken>,
}

impl CachedCanonical {
    pub fn from_wit(input: wire::CanonicalInput) -> (r: Self)
        ensures
            r.id == input.id,
            r.bytes == input.bytes,
            r.validator == (match input.validator {
                Some(token) => Some(VersionToken(token)),
                None => None::<VersionToken>,
            }),
    {
        CachedCanonical {
            id: input.id,
            bytes: input.bytes,
            validator: match input.validator {
                Some(token) => Some(VersionToken(token)),
                None => None,
            },
        }
    }

    pub fn matches_anchor(&self, anchor: &LogicalId) -> (r: bool)
        ensures
            r == (anchor@ == self.id@),
    {
        anchor.matches_wire(&self.id)
    }
}

/// Lightweight entry classification used by route tables.
#[derive(Clone, Copy, Debug, PartialEq, Eq, Structural)]
pub enum EntryKind {
    Directory,
    File,
}

/// What an [`Entry`] says; a directory has no file.
pub struct EntryModel {
    pub name: Seq<char>,
    pub file: Option<FileModel>,
    pub id: Option<IdModel>,
}

/// A directory entry of that name.
pub open spec fn dir_entry(name: Seq<char>) -> EntryModel {
    EntryModel { name, file: None, id: None }
}

/// A file entry of that name.
pub open spec fn file_entry(name: Seq<char>, file: FileModel) -> EntryModel {
    EntryModel { name, file: Some(file), id: None }
}

/// A dirent: a named file or directory, where file entries carry a
/// [`FileProj`].
#[derive(Debug, PartialEq, Eq)]
pub struct Entry {
    name: String,
    kind: EntryKind,
    file: Option<FileProj>,
    logical_id: Option<LogicalId>,
}

impl View for Entry {
    type V = EntryModel;

    closed spec fn view(&self) -> EntryModel {
        EntryModel {
            name: self.name@,
            file: match self.file {
                Some(file) => Some(file@),
                None => None,
            },
            id: identity::id_of(self.logical_id),
        }
    }
}

impl Clone for Entry {
    fn clone(&self) -> (r: Self)
        ensures
            r@ == self@,
    {
        proof {
            use_type_invariant(self);
        }
        Entry {
            name: self.name.clone(),
            kind: self.kind,
            file: match &self.file {
                Some(file) => Some(file.clone()),
                None => None,
            },
            logical_id: match &self.logical_id {
                Some(id) => Some(id.clone()),
                None => None,
            },
        }
    }
}

/// The models of entries.
pub open spec fn models(entries: Seq<Entry>) -> Seq<EntryModel> {
    entries.map_values(|e: Entry| e@)
}

/// An entry on the wire.
pub open spec fn lowered_entry(entry: EntryModel) -> wire::DirEntryModel {
    wire::DirEntryModel {
        name: entry.name,
        file: match entry.file {
            Some(file) => Some(wire::lowered_file(file)),
            None => None,
        },
        id: entry.id,
    }
}

/// Entries on the wire.
pub open spec fn lowered_entries(entries: Seq<EntryModel>) -> Seq<wire::DirEntryModel> {
    entries.map_values(|e: EntryModel| lowered_entry(e))
}

fn lower_id(id: Option<LogicalId>) -> (r: Option<wire::LogicalId>)
    ensures
        wire::id_of(r) == identity::id_of(id),
{
    match id {
        Some(id) => Some(id.to_wire()),
        None => None,
    }
}

/// A copy of an optional id.
fn copy_id(id: &Option<LogicalId>) -> (r: Option<LogicalId>)
    ensures
        identity::id_of(r) == identity::id_of(*id),
{
    match id {
        Some(id) => Some(id.clone()),
        None => None,
    }
}

impl Entry {
    #[verifier::type_invariant]
    spec fn inv(self) -> bool {
        (self.kind is File) == (self.file is Some)
    }

    pub fn dir(name: &str) -> (r: Self)
        ensures
            r@ == dir_entry(name@),
    {
        Entry { name: name.to_owned(), kind: EntryKind::Directory, file: None, logical_id: None }
    }

    pub fn file(name: &str, file: FileProj) -> (r: Self)
        ensures
            r@ == file_entry(name@, file@),
    {
        Entry {
            name: name.to_owned(),
            kind: EntryKind::File,
            file: Some(file),
            logical_id: None,
        }
    }

    pub fn name(&self) -> (r: &str)
        ensures
            r@ == self@.name,
    {
        self.name.as_str()
    }

    pub fn kind(&self) -> (r: EntryKind)
        ensures
            r == (if self@.file is Some {
                EntryKind::File
            } else {
                EntryKind::Directory
            }),
    {
        proof {
            use_type_invariant(self);
        }
        self.kind
    }

    pub fn file_proj(&self) -> (r: Option<&FileProj>)
        ensures
            match self@.file {
                Some(file) => r matches Some(f) && f@ == file,
                None => r is None,
            },
    {
        match &self.file {
            Some(file) => Some(file),
            None => None,
        }
    }

    pub fn attrs(&self) -> (r: Option<&FileAttrs>)
        ensures
            match self@.file {
                Some(file) => r matches Some(attrs) && *attrs == file.attrs,
                None => r is None,
            },
    {
        match &self.file {
            Some(file) => Some(&file.attrs),
            None => None,
        }
    }

    #[must_use]
    pub fn with_id(self, id: LogicalId) -> (r: Self)
        ensures
            r@ == (EntryModel { id: Some(id@), ..self@ }),
    {
        proof {
            use_type_invariant(&self);
        }
        Entry { name: self.name, kind: self.kind, file: self.file, logical_id: Some(id) }
    }

    /// Lowers the entry onto the wire.
    pub fn into_wire(self) -> (r: wire::DirEntry)
        ensures
            r@ == lowered_entry(self@),
    {
        proof {
            use_type_invariant(&self);
        }
        wire::DirEntry {
            name: self.name,
            kind: match self.file {
                Some(file) => wire::EntryKind::File(file.into_wire()),
                None => wire::EntryKind::Directory,
            },
            id: lower_id(self.logical_id),
        }
    }
}

fn lower_entries(entries: Vec<Entry>) -> (r: Vec<wire::DirEntry>)
    ensures
        wire::dir_entries(r@) == lowered_entries(models(entries@)),
{
    let ghost all = entries@;
    let mut out: Vec<wire::DirEntry> = Vec::new();
    for entry in it: entries
        invariant
            it.seq() == all,
            wire::dir_entries(out@) == lowered_entries(models(all.take(it.index() as int))),
    {
        let ghost done = out@;
        let ghost i = it.index() as int;
        assert(entry == all[i]);
        let lowered = entry.into_wire();
        let ghost model = lowered@;
        out.push(lowered);
        assert(wire::dir_entries(out@) =~= wire::dir_entries(done).push(model));
        assert(models(all.take(i + 1)) =~= models(all.take(i)).push(entry@));
        assert(wire::dir_entries(out@) =~= lowered_entries(models(all.take(i + 1))));
    }
    assert(all.take(all.len() as int) =~= all);
    out
}

/// Staged host mutations, channel by channel.
pub struct EffectsModel {
    pub canonical: Seq<StoreModel>,
    pub fs: Seq<WriteModel>,
    pub invalidations: Seq<EvictModel>,
}

/// No staged mutations.
pub open spec fn no_effects() -> EffectsModel {
    EffectsModel { canonical: Seq::empty(), fs: Seq::empty(), invalidations: Seq::empty() }
}

impl EffectsModel {
    /// These mutations and then the others, channel by channel.
    pub open spec fn then_also(self, other: EffectsModel) -> EffectsModel {
        EffectsModel {
            canonical: self.canonical + other.canonical,
            fs: self.fs + other.fs,
            invalidations: self.invalidations + other.invalidations,
        }
    }

    /// One more file or directory.
    pub open spec fn with_write(self, write: WriteModel) -> EffectsModel {
        EffectsModel { fs: self.fs.push(write), ..self }
    }

    /// One more stored canonical.
    pub open spec fn with_store(self, store: StoreModel) -> EffectsModel {
        EffectsModel { canonical: self.canonical.push(store), ..self }
    }

    /// One more eviction.
    pub open spec fn with_eviction(self, evict: EvictModel) -> EffectsModel {
        EffectsModel { invalidations: self.invalidations.push(evict), ..self }
    }
}

/// A path with a leading slash.
pub open spec fn absolute(s: Seq<char>) -> Seq<char> {
    if s.len() > 0 && s[0] == '/' {
        s
    } else {
        "/"@ + s
    }
}

/// The protocol form of an effect path, or why it is rejected.
pub open spec fn wire_path_of(s: Seq<char>) -> core::result::Result<Seq<char>, Failure> {
    if path::path_of(absolute(s)) is Some {
        Ok(absolute(s))
    } else {
        Err(error::failure(ProviderErrorKind::InvalidInput, path::path_error(absolute(s))))
    }
}

/// Normalizing an effect path twice is normalizing it once.
pub proof fn law_wire_path_idempotent(s: Seq<char>)
    requires
        wire_path_of(s) is Ok,
    ensures
        wire_path_of(wire_path_of(s)->Ok_0) == wire_path_of(s),
        wire_path_of(s)->Ok_0[0] == '/',
{
    reveal_strlit("/");
    assert(absolute(absolute(s)) == absolute(s));
}

/// Normalize an effect path to protocol form: tolerate a missing leading
/// slash, then validate, so malformed paths surface as invalid-input here
/// instead of corrupting the view cache.
fn wire_path(s: &str) -> (r: Result<String>)
    ensures
        match wire_path_of(s@) {
            Ok(path) => r matches Ok(p) && p@ == path,
            Err(f) => r matches Err(e) && e@ == f,
        },
{
    let absolute = if text::starts_with_slash(s) {
        s.to_owned()
    } else {
        text::concat("/", s)
    };
    match Path::parse(absolute.as_str()) {
        Ok(parsed) => {
            proof {
                path::law_path_text_unique(absolute@);
            }
            Ok(parsed.as_str().to_owned())
        },
        Err(error) => Err(ProviderError::invalid_input(error.message())),
    }
}

/// What a checked write leads to: the write is staged, or nothing is and the
/// failure is returned.
pub open spec fn staged_write(
    before: EffectsModel,
    path: Seq<char>,
    failure: Option<Failure>,
    id: Option<IdModel>,
    kind: KindModel,
) -> core::result::Result<EffectsModel, Failure> {
    match failure {
        Some(f) => Err(f),
        None => match wire_path_of(path) {
            Ok(path) => Ok(before.with_write(WriteModel { id, path, kind })),
            Err(f) => Err(f),
        },
    }
}

/// Terminal host mutations staged with an accepted provider return: the
/// only way a provider writes host state.
///
/// Three channels, applied only if the operation succeeds:
///
/// - `canonical` ([`Self::canonical_store`]): store verbatim upstream bytes
///   against a logical object id, durable across restarts.
/// - `fs` ([`Self::project_file`], [`Self::project_dir`]): materialize
///   rendered files and directories into the view cache so later reads are
///   served without re-invoking the provider.
/// - `invalidations` ([`Self::invalidate_object`],
///   [`Self::invalidate_listing_path`], [`Self::invalidate_listing_prefix`]):
///   evict stale state, typically from event handlers. This is the
///   freshness mechanism; there are no TTLs.
///
/// The three channels are kept as separate typed vecs so they never alias.
#[derive(Debug, PartialEq, Eq)]
pub struct Effects {
    canonical: Vec<wire::CanonicalStore>,
    fs: Vec<wire::FsWrite>,
    invalidations: Vec<wire::Invalidation>,
}

/// What staged mutations say on the wire.
pub open spec fn effects_model(
    canonical: Seq<wire::CanonicalStore>,
    fs: Seq<wire::FsWrite>,
    invalidations: Seq<wire::Invalidation>,
) -> EffectsModel {
    EffectsModel {
        canonical: canonical.map_values(|c: wire::CanonicalStore| c@),
        fs: fs.map_values(|w: wire::FsWrite| w@),
        invalidations: invalidations.map_values(|i: wire::Invalidation| i@),
    }
}

impl View for Effects {
    type V = EffectsModel;

    closed spec fn view(&self) -> EffectsModel {
        effects_model(self.canonical@, self.fs@, self.invalidations@)
    }
}

impl Clone for Effects {
    fn clone(&self) -> (r: Self)
        ensures
            r@ == self@,
    {
        let r = Effects {
            canonical: self.canonical.clone(),
            fs: self.fs.clone(),
            invalidations: self.invalidations.clone(),
        };
        assert(r@.canonical =~= self@.canonical);
        assert(r@.fs =~= self@.fs);
        assert(r@.invalidations =~= self@.invalidations);
        r
    }
}

impl Default for Effects {
    fn default() -> (r: Self)
        ensures
            r@ == no_effects(),
    {
        let effects = Effects {
            canonical: Vec::new(),
            fs: Vec::new(),
            invalidations: Vec::new(),
        };
        assert(effects@.canonical =~= no_effects().canonical);
        assert(effects@.fs =~= no_effects().fs);
        assert(effects@.invalidations =~= no_effects().invalidations);
        effects
    }
}

impl Effects {
    pub fn new() -> (r: Self)
        ensures
            r@ == no_effects(),
    {
        Self::default()
    }

    fn push_write(&mut self, write: wire::FsWrite)
        ensures
            final(self)@ == old(self)@.with_write(write@),
    {
        self.fs.push(write);
        assert(self@.fs =~= old(self)@.fs.push(write@));
    }

    /// Materialize a directory into the view cache without claiming its
    /// listing is complete; later readdirs may still invoke the provider.
    /// Paths here and on every other `project_*` method are
    /// mount-absolute; a missing leading `/` is tolerated and prefixed.
    pub fn project_dir(&mut self, path: &str) -> (r: Result<&mut Self>)
        ensures
            match staged_write(old(self)@, path@, None, None, KindModel::Directory(false)) {
                Ok(after) => r matches Ok(s) && s@ == after && *final(s) == *final(self),
                Err(f) => r matches Err(e) && e@ == f && final(self)@ == old(self)@,
            },
    {
        let path = wire_path(path)?;
        self.push_write(
            wire::FsWrite { id: None, path, kind: wire::FsKind::Directory(false) },
        );
        Ok(self)
    }

    /// Project a directory whose children appearing in the same effects
    /// batch constitute the authoritative listing. The host marks the
    /// resulting dirents record exhaustive so subsequent readdirs serve
    /// from cache without re-invoking the provider.
    pub fn project_dir_exhaustive(&mut self, path: &str) -> (r: Result<&mut Self>)
        ensures
            match staged_write(old(self)@, path@, None, None, KindModel::Directory(true)) {
                Ok(after) => r matches Ok(s) && s@ == after && *final(s) == *final(self),
                Err(f) => r matches Err(e) && e@ == f && final(self)@ == old(self)@,
            },
    {
        let path = wire_path(path)?;
        self.push_write(wire::FsWrite { id: None, path, kind: wire::FsKind::Directory(true) });
        Ok(self)
    }

    /// Materialize a file into the view cache. Validates the projection
    /// ([`FileProj::validate`]) before staging, so an illegal shape fails
    /// here rather than at the host boundary.
    pub fn project_file(&mut self, path: &str, file: FileProj) -> (r: Result<&mut Self>)
        ensures
            match staged_write(
                old(self)@,
                path@,
                file_attrs::file_failure(file@),
                None,
                KindModel::File(wire::lowered_file(file@)),
            ) {
                Ok(after) => r matches Ok(s) && s@ == after && *final(s) == *final(self),
                Err(f) => r matches Err(e) && e@ == f && final(self)@ == old(self)@,
            },
    {
        self.project_file_with_id(path, None, file)
    }

    /// Store verbatim upstream bytes against a logical object id in the
    /// durable object cache.
    ///
    /// `view_leaves` teaches the host the exact full paths that map to this
    /// id: on a later view miss at one of those paths, the host pushes
    /// these bytes back as the cached canonical, and the object is rendered
    /// again with no upstream call. The host resolves paths by exact map
    /// lookup, never prefix probing, so every leaf path must be listed
    /// explicitly.
    pub fn canonical_store(
        &mut self,
        id: &LogicalId,
        validator: Option<VersionToken>,
        bytes: Vec<u8>,
        view_leaves: Vec<String>,
    ) -> (r: &mut Self)
        ensures
            *final(r) == *final(self),
            r@ == old(self)@.with_store(
                StoreModel {
                    id: id@,
                    validator: token_text(validator),
                    bytes: bytes@,
                    view_leaves: text::views(view_leaves@),
                },
            ),
    {
        let store = wire::CanonicalStore {
            id: id.to_wire(),
            validator: match validator {
                Some(token) => Some(token.0),
                None => None,
            },
            bytes,
            view_leaves,
        };
        let ghost model = store@;
        self.canonical.push(store);
        assert(self@.canonical =~= old(self)@.canonical.push(model));
        self
    }

    /// Like [`Self::project_file`], with the file tagged as a view leaf of
    /// logical object `id`, so object-level invalidation cascades to it.
    pub fn project_file_with_id(
        &mut self,
        path: &str,
        id: Option<&LogicalId>,
        file: FileProj,
    ) -> (r: Result<&mut Self>)
        ensures
            match staged_write(
                old(self)@,
                path@,
                file_attrs::file_failure(file@),
                (match id {
                    Some(id) => Some(id@),
                    None => None,
                }),
                KindModel::File(wire::lowered_file(file@)),
            ) {
                Ok(after) => r matches Ok(s) && s@ == after && *final(s) == *final(self),
                Err(f) => r matches Err(e) && e@ == f && final(self)@ == old(self)@,
            },
    {
        file.validate()?;
        let path = wire_path(path)?;
        let id = match id {
            Some(id) => Some(id.to_wire()),
            None => None,
        };
        self.push_write(wire::FsWrite { id, path, kind: wire::FsKind::File(file.into_wire()) });
        Ok(self)
    }

    fn push_eviction(&mut self, evict: wire::Invalidation)
        ensures
            final(self)@ == old(self)@.with_eviction(evict@),
    {
        self.invalidations.push(evict);
        assert(self@.invalidations =~= old(self)@.invalidations.push(evict@));
    }

    /// Evict an object's canonical bytes and every view leaf derived from
    /// it.
    pub fn invalidate_object(&mut self, id: &LogicalId) -> (r: &mut Self)
        ensures
            *final(r) == *final(self),
            r@ == old(self)@.with_eviction(EvictModel::Object(id@)),
    {
        self.push_eviction(wire::Invalidation::Object(id.to_wire()));
        self
    }

    /// Evict the cached listing at exactly `path`, which must be a protocol
    /// path; invalidation targets are provider-authored constants, not user
    /// input.
    pub fn invalidate_listing_path(&mut self, path: &str) -> (r: &mut Self)
        requires
            wire_path_of(path@) is Ok,
        ensures
            *final(r) == *final(self),
            r@ == old(self)@.with_eviction(
                EvictModel::ListingPath(absolute(path@)),
            ),
    {
        if let Ok(path) = wire_path(path) {
            self.push_eviction(wire::Invalidation::Listing(wire::PathOrPrefix::Path(path)));
        }
        self
    }

    /// Evict every cached listing under `prefix` (inclusive), which must be a
    /// protocol path, like in [`Self::invalidate_listing_path`].
    pub fn invalidate_listing_prefix(&mut self, prefix: &str) -> (r: &mut Self)
        requires
            wire_path_of(prefix@) is Ok,
        ensures
            *final(r) == *final(self),
            r@ == old(self)@.with_eviction(
                EvictModel::ListingPrefix(absolute(prefix@)),
            ),
    {
        if let Ok(prefix) = wire_path(prefix) {
            self.push_eviction(wire::Invalidation::Listing(wire::PathOrPrefix::Prefix(prefix)));
        }
        self
    }

    /// Stage everything that `other` stages, too.
    pub fn extend(&mut self, other: Effects) -> (r: &mut Self)
        ensures
            *final(r) == *final(self),
            r@ == old(self)@.then_also(other@),
    {
        let mut other = other;
        let ghost more = other@;
        self.canonical.append(&mut other.canonical);
        self.fs.append(&mut other.fs);
        self.invalidations.append(&mut other.invalidations);
        assert(self@.canonical =~= old(self)@.canonical + more.canonical);
        assert(self@.fs =~= old(self)@.fs + more.fs);
        assert(self@.invalidations =~= old(self)@.invalidations + more.invalidations);
        self
    }

    pub fn is_empty(&self) -> (r: bool)
        ensures
            r == (self@ == no_effects()),
    {
        let r = self.canonical.len() == 0 && self.fs.len() == 0 && self.invalidations.len() == 0;
        proof {
            if r {
                assert(self@.canonical =~= no_effects().canonical);
                assert(self@.fs =~= no_effects().fs);
                assert(self@.invalidations =~= no_effects().invalidations);
            } else {
                assert(self@.canonical.len() == self.canonical@.len());
                assert(self@.fs.len() == self.fs@.len());
                assert(self@.invalidations.len() == self.invalidations@.len());
            }
        }
        r
    }

    /// Lowers the effects onto the wire.
    pub fn into_wit(self) -> (r: wire::Effects)
        ensures
            effects_model(r.canonical@, r.fs@, r.invalidations@) == self@,
    {
        wire::Effects {
            canonical: self.canonical,
            fs: self.fs,
            invalidations: self.invalidations,
        }
    }
}

/// The text of an optional token.
pub open spec fn token_text(token: Option<VersionToken>) -> Option<Seq<char>> {
    match token {
        Some(token) => Some(token.0@),
        None => None,
    }
}

/// Staging nothing more changes nothing, and staging is associative.
pub proof fn law_effects_extend(a: EffectsModel, b: EffectsModel, c: EffectsModel)
    ensures
        a.then_also(no_effects()) == a,
        no_effects().then_also(a) == a,
        a.then_also(b).then_also(c) == a.then_also(b.then_also(c)),
{
    assert(a.canonical + Seq::empty() =~= a.canonical);
    assert(a.fs + Seq::empty() =~= a.fs);
    assert(a.invalidations + Seq::empty() =~= a.invalidations);
    assert(Seq::empty() + a.canonical =~= a.canonical);
    assert(Seq::empty() + a.fs =~= a.fs);
    assert(Seq::empty() + a.invalidations =~= a.invalidations);
    assert((a.canonical + b.canonical) + c.canonical =~= a.canonical + (b.canonical
        + c.canonical));
    assert((a.fs + b.fs) + c.fs =~= a.fs + (b.fs + c.fs));
    assert((a.invalidations + b.invalidations) + c.invalidations =~= a.invalidations + (
    b.invalidations + c.invalidations));
}

/// What a [`Listing`] says.
pub struct ListingModel {
    pub entries: Seq<EntryModel>,
    pub exhaustive: bool,
    pub effects: EffectsModel,
    pub validator: Option<Seq<char>>,
    pub next_cursor: Option<Cursor>,
}

/// A listing of these entries without effects, validator and cursor.
pub open spec fn plain_listing(entries: Seq<EntryModel>, exhaustive: bool) -> ListingModel {
    ListingModel {
        entries,
        exhaustive,
        effects: no_effects(),
        validator: None,
        next_cursor: None,
    }
}

/// A directory listing with entries, exhaustiveness, and accepted-return
/// projection effects for adjacent or nested paths.
///
/// `exhaustive` means "these are all the names I know", not "no other name
/// can resolve": lookup remains the authoritative name oracle and may
/// resolve names absent from the latest listing.
#[derive(Debug, PartialEq, Eq)]
pub struct Listing {
    entries: Vec<Entry>,
    exhaustive: bool,
    effects: Effects,
    validator: Option<String>,
    next_cursor: Option<Cursor>,
}

impl View for Listing {
    type V = ListingModel;

    closed spec fn view(&self) -> ListingModel {
        ListingModel {
            entries: models(self.entries@),
            exhaustive: self.exhaustive,
            effects: self.effects@,
            validator: text::text_of(self.validator),
            next_cursor: self.next_cursor,
        }
    }
}

impl Clone for Listing {
    fn clone(&self) -> (r: Self)
        ensures
            r@ == self@,
    {
        let r = Listing {
            entries: self.entries.clone(),
            exhaustive: self.exhaustive,
            effects: self.effects.clone(),
            validator: text::copied_option(&self.validator),
            next_cursor: copy_cursor(&self.next_cursor),
        };
        assert(r@.entries =~= self@.entries);
        r
    }
}

impl Listing {
    /// An exhaustive listing: the host may serve later readdirs from cache
    /// without re-invoking the provider.
    pub fn complete(entries: Vec<Entry>) -> (r: Self)
        ensures
            r@ == plain_listing(models(entries@), true),
    {
        Listing {
            entries,
            exhaustive: true,
            effects: Effects::new(),
            validator: None,
            next_cursor: None,
        }
    }

    /// A non-exhaustive listing: more names may exist than were
    /// enumerated (open namespaces, paged results). Pair with
    /// [`Self::with_cursor`] when the next page is reachable.
    pub fn partial(entries: Vec<Entry>) -> (r: Self)
        ensures
            r@ == plain_listing(models(entries@), false),
    {
        Listing {
            entries,
            exhaustive: false,
            effects: Effects::new(),
            validator: None,
            next_cursor: None,
        }
    }

    pub fn empty_complete() -> (r: Self)
        ensures
            r@ == plain_listing(Seq::empty(), true),
    {
        let entries: Vec<Entry> = Vec::new();
        assert(models(entries@) =~= Seq::<EntryModel>::empty());
        Self::complete(entries)
    }

    pub fn empty_partial() -> (r: Self)
        ensures
            r@ == plain_listing(Seq::empty(), false),
    {
        let entries: Vec<Entry> = Vec::new();
        assert(models(entries@) =~= Seq::<EntryModel>::empty());
        Self::partial(entries)
    }

    #[must_use]
    pub fn with_effects(self, effects: Effects) -> (r: Self)
        ensures
            r@ == (ListingModel { effects: self@.effects.then_also(effects@), ..self@ }),
    {
        let mut staged = self.effects;
        staged.extend(effects);
        Listing {
            entries: self.entries,
            exhaustive: self.exhaustive,
            effects: staged,
            validator: self.validator,
            next_cursor: self.next_cursor,
        }
    }

    /// Carry the opaque listing validator (e.g. an `ETag`) the host echoes
    /// on the next listing for a cheap re-list.
    #[must_use]
    pub fn with_validator(self, validator: String) -> (r: Self)
        ensures
            r@ == (ListingModel { validator: Some(validator@), ..self@ }),
    {
        Listing {
            entries: self.entries,
            exhaustive: self.exhaustive,
            effects: self.effects,
            validator: Some(validator),
            next_cursor: self.next_cursor,
        }
    }

    /// Carry the resume cursor for a paged (non-exhaustive) listing; the host
    /// echoes it back as the `cursor` argument to continue.
    #[must_use]
    pub fn with_cursor(self, cursor: Cursor) -> (r: Self)
        ensures
            r@ == (ListingModel { next_cursor: Some(cursor), ..self@ }),
    {
        Listing {
            entries: self.entries,
            exhaustive: self.exhaustive,
            effects: self.effects,
            validator: self.validator,
            next_cursor: Some(cursor),
        }
    }

    pub fn entries(&self) -> (r: &[Entry])
        ensures
            models(r@) == self@.entries,
    {
        self.entries.as_slice()
    }

    pub fn exhaustive(&self) -> (r: bool)
        ensures
            r == self@.exhaustive,
    {
        self.exhaustive
    }

    pub fn effects(&self) -> (r: &Effects)
        ensures
            r@ == self@.effects,
    {
        &self.effects
    }

    fn into_parts(self) -> (r: (wire::DirListing, Effects))
        ensures
            listing_lowered(self@, r.0),
            r.1@ == self@.effects,
    {
        (
            wire::DirListing {
                entries: lower_entries(self.entries),
                exhaustive: self.exhaustive,
                validator: self.validator,
                next_cursor: self.next_cursor,
            },
            self.effects,
        )
    }
}

/// A listing on the wire says what the listing says.
pub open spec fn listing_lowered(listing: ListingModel, r: wire::DirListing) -> bool {
    &&& wire::dir_entries(r.entries@) == lowered_entries(listing.entries)
    &&& r.exhaustive == listing.exhaustive
    &&& text::text_of(r.validator) == listing.validator
    &&& r.next_cursor == listing.next_cursor
}

/// What a [`Lookup`] says.
pub enum LookupModel {
    Entry {
        target: EntryModel,
        siblings: Seq<EntryModel>,
        exhaustive: bool,
        effects: EffectsModel,
    },
    Subtree(u64),
    NotFound(Option<IdModel>),
}

/// A found entry without siblings and effects.
pub open spec fn found(target: EntryModel) -> LookupModel {
    LookupModel::Entry {
        target,
        siblings: Seq::empty(),
        exhaustive: true,
        effects: no_effects(),
    }
}

/// The non-subtree, non-miss shape of a lookup: the found entry plus
/// cache-adjacent sibling data.
#[derive(Debug, PartialEq, Eq)]
pub struct LookupEntry {
    target: Entry,
    siblings: Vec<Entry>,
    exhaustive: bool,
    effects: Effects,
}

impl View for LookupEntry {
    type V = LookupModel;

    closed spec fn view(&self) -> LookupModel {
        LookupModel::Entry {
            target: self.target@,
            siblings: models(self.siblings@),
            exhaustive: self.exhaustive,
            effects: self.effects@,
        }
    }
}

impl Clone for LookupEntry {
    fn clone(&self) -> (r: Self)
        ensures
            r@ == self@,
    {
        let r = LookupEntry {
            target: self.target.clone(),
            siblings: self.siblings.clone(),
            exhaustive: self.exhaustive,
            effects: self.effects.clone(),
        };
        assert(models(r.siblings@) =~= models(self.siblings@));
        r
    }
}

impl LookupEntry {
    pub fn target(&self) -> (r: &Entry)
        ensures
            self@ is Entry,
            r@ == self@->target,
    {
        &self.target
    }

    pub fn siblings(&self) -> (r: &[Entry])
        ensures
            models(r@) == self@->siblings,
    {
        self.siblings.as_slice()
    }

    pub fn is_exhaustive(&self) -> (r: bool)
        ensures
            r == self@->exhaustive,
    {
        self.exhaustive
    }

    pub fn effects(&self) -> (r: &Effects)
        ensures
            r@ == self@->effects,
    {
        &self.effects
    }
}

/// A lookup result: a found entry with cache-adjacent sibling data, a
/// subtree handoff, or a miss.
///
/// Lookup is the authoritative name oracle: the host trusts a `NotFound`
/// here as a cacheable negative, so return it only when the name truly
/// does not exist, not on transient failure (return an error for those).
#[derive(Debug, PartialEq, Eq)]
pub enum Lookup {
    Entry(LookupEntry),
    Subtree { tree: u64 },
    NotFound { id: Option<LogicalId> },
}

impl View for Lookup {
    type V = LookupModel;

    open spec fn view(&self) -> LookupModel {
        match self {
            Lookup::Entry(entry) => entry@,
            Lookup::Subtree { tree } => LookupModel::Subtree(*tree),
            Lookup::NotFound { id } => LookupModel::NotFound(identity::id_of(*id)),
        }
    }
}

impl Clone for Lookup {
    fn clone(&self) -> (r: Self)
        ensures
            r@ == self@,
    {
        match self {
            Lookup::Entry(entry) => Lookup::Entry(entry.clone()),
            Lookup::Subtree { tree } => Lookup::Subtree { tree: *tree },
            Lookup::NotFound { id } => Lookup::NotFound { id: copy_id(id) },
        }
    }
}

impl Lookup {
    pub fn entry(target: Entry) -> (r: Self)
        ensures
            r@ == found(target@),
    {
        let siblings: Vec<Entry> = Vec::new();
        assert(models(siblings@) =~= Seq::<EntryModel>::empty());
        Lookup::Entry(
            LookupEntry { target, siblings, exhaustive: true, effects: Effects::new() },
        )
    }

    /// A found file with inline bytes, defaulting to
    /// `Stability::Immutable` and no version token; build the [`Entry`]
    /// yourself when the content can change.
    pub fn file(name: &str, content: Vec<u8>) -> (r: Self)
        ensures
            r@ == found(
                file_entry(
                    name@,
                    file_attrs::inline_file(content@, Stability::Immutable, None),
                ),
            ),
    {
        Self::entry(Entry::file(name, FileProj::inline(content, Stability::Immutable, None)))
    }

    pub fn dir(name: &str) -> (r: Self)
        ensures
            r@ == found(dir_entry(name@)),
    {
        Self::entry(Entry::dir(name))
    }

    /// Hand the child off as a host-resolved subtree (a git clone, an
    /// extracted archive). `tree` is the handle a tree-opening callout
    /// returned; dispatch below this point belongs to the host.
    pub fn subtree(tree: u64) -> (r: Self)
        ensures
            r@ == LookupModel::Subtree(tree),
    {
        Lookup::Subtree { tree }
    }

    pub fn not_found() -> (r: Self)
        ensures
            r@ == LookupModel::NotFound(None),
    {
        Lookup::NotFound { id: None }
    }

    /// A miss tied to a logical object id, so the host keys the cached
    /// negative to that object and a later invalidation of the object also
    /// clears the miss.
    pub fn not_found_id(id: LogicalId) -> (r: Self)
        ensures
            r@ == LookupModel::NotFound(Some(id@)),
    {
        Lookup::NotFound { id: Some(id) }
    }

    pub fn is_found(&self) -> (r: bool)
        ensures
            r == !(self@ is NotFound),
    {
        proof {
            if let Lookup::Entry(entry) = self {
                assert(entry@ is Entry);
            }
        }
        match self {
            Lookup::NotFound { .. } => false,
            _ => true,
        }
    }

    /// Stage effects with a found entry. No-op on subtree and not-found
    /// results.
    #[must_use]
    pub fn with_effects(self, effects: Effects) -> (r: Self)
        ensures
            r@ == (match self@ {
                LookupModel::Entry { target, siblings, exhaustive, effects: staged } => {
                    LookupModel::Entry {
                        target,
                        siblings,
                        exhaustive,
                        effects: staged.then_also(effects@),
                    }
                },
                other => other,
            }),
    {
        match self {
            Lookup::Entry(entry) => {
                let mut staged = entry.effects;
                staged.extend(effects);
                Lookup::Entry(
                    LookupEntry {
                        target: entry.target,
                        siblings: entry.siblings,
                        exhaustive: entry.exhaustive,
                        effects: staged,
                    },
                )
            },
            other => other,
        }
    }

    /// Attach sibling entries the answering payload already contained, so
    /// the host caches them alongside the target. No-op on subtree and
    /// not-found results.
    #[must_use]
    pub fn with_siblings(self, entries: Vec<Entry>) -> (r: Self)
        ensures
            r@ == (match self@ {
                LookupModel::Entry { target, siblings, exhaustive, effects } => {
                    LookupModel::Entry {
                        target,
                        siblings: siblings + models(entries@),
                        exhaustive,
                        effects,
                    }
                },
                other => other,
            }),
    {
        match self {
            Lookup::Entry(entry) => {
                let mut entries = entries;
                let mut siblings = entry.siblings;
                let ghost known = models(siblings@);
                let ghost more = models(entries@);
                siblings.append(&mut entries);
                assert(models(siblings@) =~= known + more);
                Lookup::Entry(
                    LookupEntry {
                        target: entry.target,
                        siblings,
                        exhaustive: entry.exhaustive,
                        effects: entry.effects,
                    },
                )
            },
            other => other,
        }
    }

    /// Set whether the sibling set is exhaustive.
    ///
    /// When true (the default), the host treats absence from `siblings`
    /// as authoritative negative. Only meaningful for directory targets;
    /// ignored on subtree and not-found results.
    #[must_use]
    pub fn exhaustive(self, exhaustive: bool) -> (r: Self)
        ensures
            r@ == (match self@ {
                LookupModel::Entry { target, siblings, exhaustive: _, effects } => {
                    LookupModel::Entry { target, siblings, exhaustive, effects }
                },
                other => other,
            }),
    {
        match self {
            Lookup::Entry(entry) => Lookup::Entry(
                LookupEntry {
                    target: entry.target,
                    siblings: entry.siblings,
                    exhaustive,
                    effects: entry.effects,
                },
            ),
            other => other,
        }
    }

    pub fn target(&self) -> (r: Option<&Entry>)
        ensures
            match self@ {
                LookupModel::Entry { target, .. } => r matches Some(e) && e@ == target,
                _ => r is None,
            },
    {
        match self {
            Lookup::Entry(entry) => Some(&entry.target),
            _ => None,
        }
    }

    /// Lowers the lookup onto the wire.
    pub fn into_result_and_effects(self) -> (r: (wire::LookupChildResult, Effects))
        ensures
            match self@ {
                LookupModel::Entry { target, siblings, exhaustive, effects } => {
                    &&& r.0 matches wire::LookupChildResult::Entry(entry)
                    &&& entry.target@ == lowered_entry(target)
                    &&& wire::dir_entries(entry.siblings@) == lowered_entries(siblings)
                    &&& entry.exhaustive == exhaustive
                    &&& r.1@ == effects
                },
                LookupModel::Subtree(tree) => r.0 == wire::LookupChildResult::Subtree(tree)
                    && r.1@ == no_effects(),
                LookupModel::NotFound(id) => (r.0 matches wire::LookupChildResult::NotFound(
                    found,
                ) && wire::id_of(found) == id) && r.1@ == no_effects(),
            },
    {
        match self {
            Lookup::Entry(entry) => (
                wire::LookupChildResult::Entry(
                    wire::LookupEntry {
                        target: entry.target.into_wire(),
                        siblings: lower_entries(entry.siblings),
                        exhaustive: entry.exhaustive,
                    },
                ),
                entry.effects,
            ),
            Lookup::Subtree { tree } => (wire::LookupChildResult::Subtree(tree), Effects::new()),
            Lookup::NotFound { id } => (
                wire::LookupChildResult::NotFound(lower_id(id)),
                Effects::new(),
            ),
        }
    }
}

/// A list result: a listing, a subtree handoff, or an unchanged sentinel.
#[derive(Debug, PartialEq, Eq)]
pub enum List {
    Entries(Listing),
    Subtree { tree: u64 },
    /// The cached validator still matched: the host serves its cached
    /// dirents and the provider enumerated nothing.
    Unchanged,
}

/// What a [`List`] says.
pub enum ListModel {
    Entries(ListingModel),
    Subtree(u64),
    Unchanged,
}

impl View for List {
    type V = ListModel;

    open spec fn view(&self) -> ListModel {
        match self {
            List::Entries(listing) => ListModel::Entries(listing@),
            List::Subtree { tree } => ListModel::Subtree(*tree),
            List::Unchanged => ListModel::Unchanged,
        }
    }
}

impl Clone for List {
    fn clone(&self) -> (r: Self)
        ensures
            r@ == self@,
    {
        match self {
            List::Entries(listing) => List::Entries(listing.clone()),
            List::Subtree { tree } => List::Subtree { tree: *tree },
            List::Unchanged => List::Unchanged,
        }
    }
}

impl List {
    pub fn entries(listing: Listing) -> (r: Self)
        ensures
            r@ == ListModel::Entries(listing@),
    {
        List::Entries(listing)
    }

    pub fn subtree(tree: u64) -> (r: Self)
        ensures
            r@ == ListModel::Subtree(tree),
    {
        List::Subtree { tree }
    }

    /// The cached-validator-matched sentinel: the host reuses its cached
    /// dirents and the provider enumerated nothing.
    pub fn unchanged() -> (r: Self)
        ensures
            r@ == ListModel::Unchanged,
    {
        List::Unchanged
    }

    /// Lowers the list onto the wire.
    pub fn into_result_and_effects(self) -> (r: (wire::ListChildrenResult, Effects))
        ensures
            match self@ {
                ListModel::Entries(listing) => (r.0 matches wire::ListChildrenResult::Entries(
                    lowered,
                ) && listing_lowered(listing, lowered)) && r.1@ == listing.effects,
                ListModel::Subtree(tree) => r.0 == wire::ListChildrenResult::Subtree(tree)
                    && r.1@ == no_effects(),
                ListModel::Unchanged => r.0 == wire::ListChildrenResult::Unchanged && r.1@
                    == no_effects(),
            },
    {
        match self {
            List::Entries(listing) => {
                let (listing, effects) = listing.into_parts();
                (wire::ListChildrenResult::Entries(listing), effects)
            },
            List::Subtree { tree } => (wire::ListChildrenResult::Subtree(tree), Effects::new()),
            List::Unchanged => (wire::ListChildrenResult::Unchanged, Effects::new()),
        }
    }
}

/// The byte source backing a [`FileContent`] read answer: an inline payload,
/// a host-resident blob handle, or a `canonical` reference (serve the
/// canonical store at the read path without copying bytes). `deferred` is
/// deliberately absent: a read must answer with concrete bytes.
#[derive(Debug, PartialEq, Eq)]
enum ContentBytes {
    Read(ReadFileBytes),
    Canonical,
}

impl View for ContentBytes {
    type V = SourceModel;

    closed spec fn view(&self) -> SourceModel {
        match *self {
            ContentBytes::Read(ReadFileBytes::Inline(content)) => SourceModel::Inline(content@),
            ContentBytes::Read(ReadFileBytes::Blob(blob)) => SourceModel::Blob(blob.0),
            ContentBytes::Canonical => SourceModel::Canonical,
        }
    }
}

impl Clone for ContentBytes {
    fn clone(&self) -> (r: Self)
        ensures
            r@ == self@,
    {
        match self {
            ContentBytes::Read(bytes) => ContentBytes::Read(bytes.clone()),
            ContentBytes::Canonical => ContentBytes::Canonical,
        }
    }
}

/// What a [`FileContent`] says.
pub struct AnswerModel {
    pub content_type: Option<ContentModel>,
    pub attrs: FileAttrs,
    pub bytes: SourceModel,
    pub effects: EffectsModel,
}

/// Full-read file content. Bytes are read data; adjacent projected paths must
/// be staged as effects.
#[derive(Debug, PartialEq, Eq)]
pub struct FileContent {
    content_type: Option<ContentType>,
    attrs: FileAttrs,
    bytes: ContentBytes,
    effects: Effects,
}

impl View for FileContent {
    type V = AnswerModel;

    closed spec fn view(&self) -> AnswerModel {
        AnswerModel {
            content_type: content_type::content_of(self.content_type),
            attrs: self.attrs,
            bytes: self.bytes@,
            effects: self.effects@,
        }
    }
}

impl Clone for FileContent {
    fn clone(&self) -> (r: Self)
        ensures
            r@ == self@,
    {
        FileContent {
            content_type: self.content_type,
            attrs: self.attrs.clone(),
            bytes: self.bytes.clone(),
            effects: self.effects.clone(),
        }
    }
}

/// Inline bytes that never change.
pub open spec fn inline_answer(content: Seq<u8>) -> AnswerModel {
    AnswerModel {
        content_type: None,
        attrs: FileAttrs {
            size: Size::Exact(content.len() as u64),
            stability: Stability::Immutable,
            version: None,
        },
        bytes: SourceModel::Inline(content),
        effects: no_effects(),
    }
}

impl FileContent {
    /// Inline bytes with default attrs `Size::Exact(len)` plus
    /// `Stability::Immutable`. Override with [`Self::with_attrs`] when the
    /// content can change; the immutable default licenses the host to
    /// cache it indefinitely.
    pub fn new(content: Vec<u8>) -> (r: Self)
        ensures
            r@ == inline_answer(content@),
    {
        let size: u64 = content.len() as u64;
        FileContent {
            content_type: None,
            attrs: FileAttrs::new(Size::Exact(size), Stability::Immutable),
            bytes: ContentBytes::Read(ReadFileBytes::Inline(content)),
            effects: Effects::new(),
        }
    }

    /// Serve from a host-resident blob. Attrs default to `Size::Unknown` plus
    /// `Stability::Immutable`: set the real size via [`Self::with_attrs`]
    /// when the blob fetch reported one, so `stat` is honest before the first
    /// read.
    pub fn blob(blob: BlobId) -> (r: Self)
        ensures
            r@ == (AnswerModel {
                content_type: None,
                attrs: FileAttrs {
                    size: Size::Unknown,
                    stability: Stability::Immutable,
                    version: None,
                },
                bytes: SourceModel::Blob(blob.0),
                effects: no_effects(),
            }),
    {
        FileContent {
            content_type: None,
            attrs: FileAttrs::new(Size::Unknown, Stability::Immutable),
            bytes: ContentBytes::Read(ReadFileBytes::Blob(blob)),
            effects: Effects::new(),
        }
    }

    /// Reference the canonical store at the read path: the host serves the
    /// stored canonical bytes verbatim. Used when the requested
    /// representation IS the canonical.
    pub fn canonical(attrs: FileAttrs) -> (r: Self)
        ensures
            r@ == (AnswerModel {
                content_type: None,
                attrs,
                bytes: SourceModel::Canonical,
                effects: no_effects(),
            }),
    {
        FileContent {
            content_type: None,
            attrs,
            bytes: ContentBytes::Canonical,
            effects: Effects::new(),
        }
    }

    #[must_use]
    pub fn with_attrs(self, attrs: FileAttrs) -> (r: Self)
        ensures
            r@ == (AnswerModel { attrs, ..self@ }),
    {
        FileContent {
            content_type: self.content_type,
            attrs,
            bytes: self.bytes,
            effects: self.effects,
        }
    }

    #[must_use]
    pub fn with_content_type(self, content_type: ContentType) -> (r: Self)
        ensures
            r@ == (AnswerModel { content_type: Some(content_type@), ..self@ }),
    {
        FileContent {
            content_type: Some(content_type),
            attrs: self.attrs,
            bytes: self.bytes,
            effects: self.effects,
        }
    }

    #[must_use]
    pub fn with_effects(self, effects: Effects) -> (r: Self)
        ensures
            r@ == (AnswerModel { effects: self@.effects.then_also(effects@), ..self@ }),
    {
        let mut staged = self.effects;
        staged.extend(effects);
        FileContent {
            content_type: self.content_type,
            attrs: self.attrs,
            bytes: self.bytes,
            effects: staged,
        }
    }

    pub fn attrs(&self) -> (r: &FileAttrs)
        ensures
            *r == self@.attrs,
    {
        &self.attrs
    }

    pub fn content_type(&self) -> (r: Option<ContentType>)
        ensures
            content_type::content_of(r) == self@.content_type,
    {
        self.content_type
    }

    /// The staged effects.
    pub fn effects(&self) -> (r: &Effects)
        ensures
            r@ == self@.effects,
    {
        &self.effects
    }

    /// The inline bytes, if there are any.
    pub fn content(&self) -> (r: Option<&[u8]>)
        ensures
            match self@.bytes {
                SourceModel::Inline(bytes) => r matches Some(b) && b@ == bytes,
                _ => r is None,
            },
    {
        match &self.bytes {
            ContentBytes::Read(ReadFileBytes::Inline(content)) => Some(content.as_slice()),
            ContentBytes::Read(ReadFileBytes::Blob(_)) => None,
            ContentBytes::Canonical => None,
        }
    }

    /// Lowers the content onto the wire.
    pub fn into_read_outcome_and_effects(self) -> (r: (wire::ReadFileOutcome, Effects))
        ensures
            r.0 matches wire::ReadFileOutcome::Found(result) && answer_lowered(self@, result),
            r.1@ == self@.effects,
    {
        (
            wire::ReadFileOutcome::Found(
                wire::ReadFileResult {
                    content_type: match self.content_type {
                        Some(ct) => Some(ct.as_mime().to_owned()),
                        None => None,
                    },
                    attrs: self.attrs.into_wire(),
                    bytes: match self.bytes {
                        ContentBytes::Read(ReadFileBytes::Inline(content)) => {
                            wire::ByteSource::Inline(content)
                        },
                        ContentBytes::Read(ReadFileBytes::Blob(blob)) => wire::ByteSource::Blob(
                            blob.raw(),
                        ),
                        ContentBytes::Canonical => wire::ByteSource::Canonical,
                    },
                },
            ),
            self.effects,
        )
    }
}

/// Content on the wire says what the content says.
pub open spec fn answer_lowered(answer: AnswerModel, r: wire::ReadFileResult) -> bool {
    &&& text::text_of(r.content_type) == wire::lowered_content(answer.content_type)
    &&& r.attrs == wire::lowered_attrs(answer.attrs)
    &&& r.bytes@ == answer.bytes
}

/// A completed read: found content, or a not-found optionally keyed to the
/// logical object whose absence was established (so object invalidation
/// clears the cached miss).
#[derive(Debug, PartialEq, Eq)]
pub enum ReadOutcome {
    Found(FileContent),
    NotFound(Option<LogicalId>),
}

/// What a [`ReadOutcome`] says.
pub enum OutcomeModel {
    Found(AnswerModel),
    NotFound(Option<IdModel>),
}

impl View for ReadOutcome {
    type V = OutcomeModel;

    open spec fn view(&self) -> OutcomeModel {
        match self {
            ReadOutcome::Found(content) => OutcomeModel::Found(content@),
            ReadOutcome::NotFound(id) => OutcomeModel::NotFound(identity::id_of(*id)),
        }
    }
}

impl Clone for ReadOutcome {
    fn clone(&self) -> (r: Self)
        ensures
            r@ == self@,
    {
        match self {
            ReadOutcome::Found(content) => ReadOutcome::Found(content.clone()),
            ReadOutcome::NotFound(id) => ReadOutcome::NotFound(copy_id(id)),
        }
    }
}

impl ReadOutcome {
    /// Lowers the outcome onto the wire.
    pub fn into_result_and_effects(self) -> (r: (wire::ReadFileOutcome, Effects))
        ensures
            match self@ {
                OutcomeModel::Found(answer) => (r.0 matches wire::ReadFileOutcome::Found(
                    result,
                ) && answer_lowered(answer, result)) && r.1@ == answer.effects,
                OutcomeModel::NotFound(id) => (r.0 matches wire::ReadFileOutcome::NotFound(
                    found,
                ) && wire::id_of(found) == id) && r.1@ == no_effects(),
            },
    {
        match self {
            ReadOutcome::Found(content) => content.into_read_outcome_and_effects(),
            ReadOutcome::NotFound(id) => (
                wire::ReadFileOutcome::NotFound(lower_id(id)),
                Effects::new(),
            ),
        }
    }
}

} // verus!

//! The records that cross the provider boundary.

use vstd::prelude::*;

use crate::captures;
use crate::captures::Capture;
use crate::content_type::ContentModel;
use crate::file_attrs;
use crate::file_attrs::{BytesModel, FileModel, ReadMode, Size, Stability};
use crate::handler::Cursor;
use crate::identity::IdModel;
use crate::text;

verus! {

/// Error kinds on the wire.
#[derive(Copy, Clone, Debug, Eq, PartialEq, Structural)]
pub enum ErrorKind {
    NotFound,
    NotADirectory,
    NotAFile,
    PermissionDenied,
    Network,
    Timeout,
    Denied,
    InvalidInput,
    TooLarge,
    RateLimited,
    VersionMismatch,
    Internal,
}

/// A provider error on the wire. The backoff hint is in seconds.
#[derive(Debug, PartialEq, Eq)]
pub struct WireError {
    pub kind: ErrorKind,
    pub message: String,
    pub retryable: bool,
    pub retry_after: Option<u32>,
}

/// A failed callout.
#[derive(Debug, PartialEq, Eq)]
pub struct CalloutError {
    pub kind: ErrorKind,
    pub message: String,
    pub retryable: bool,
}

/// A logical object id on the wire.
#[derive(Debug, PartialEq, Eq)]
pub struct LogicalId {
    pub kind: String,
    pub captures: Vec<Capture>,
}

impl View for LogicalId {
    type V = IdModel;

    open spec fn view(&self) -> IdModel {
        IdModel { kind: self.kind@, captures: captures::bindings_of(self.captures@) }
    }
}

impl Clone for LogicalId {
    fn clone(&self) -> (r: Self)
        ensures
            r@ == self@,
    {
        LogicalId {
            kind: self.kind.clone(),
            captures: captures::copy_captures(self.captures.as_slice()),
        }
    }
}

/// A copy of an optional id.
fn copy_id(id: &Option<LogicalId>) -> (r: Option<LogicalId>)
    ensures
        id_of(r) == id_of(*id),
{
    match id {
        Some(id) => Some(id.clone()),
        None => None,
    }
}

/// File attributes on the wire.
#[derive(Debug, PartialEq, Eq)]
pub struct FileAttrs {
    pub size: Size,
    pub stability: Stability,
    pub version_token: Option<String>,
}

impl Clone for FileAttrs {
    fn clone(&self) -> (r: Self)
        ensures
            r == *self,
    {
        FileAttrs {
            size: self.size,
            stability: self.stability,
            version_token: text::copied_option(&self.version_token),
        }
    }
}

/// Where the bytes of a file come from: carried along, read on demand, held
/// by the host as a blob, or the stored canonical.
#[derive(Debug, PartialEq, Eq)]
pub enum ByteSource {
    Inline(Vec<u8>),
    Deferred(ReadMode),
    Blob(u64),
    Canonical,
}

/// What a [`ByteSource`] holds.
pub enum SourceModel {
    Inline(Seq<u8>),
    Deferred(ReadMode),
    Blob(u64),
    Canonical,
}

impl View for ByteSource {
    type V = SourceModel;

    open spec fn view(&self) -> SourceModel {
        match self {
            ByteSource::Inline(bytes) => SourceModel::Inline(bytes@),
            ByteSource::Deferred(read) => SourceModel::Deferred(*read),
            ByteSource::Blob(blob) => SourceModel::Blob(*blob),
            ByteSource::Canonical => SourceModel::Canonical,
        }
    }
}

impl Clone for ByteSource {
    fn clone(&self) -> (r: Self)
        ensures
            r@ == self@,
    {
        match self {
            ByteSource::Inline(bytes) => ByteSource::Inline(
                file_attrs::copy_bytes(bytes.as_slice()),
            ),
            ByteSource::Deferred(read) => ByteSource::Deferred(*read),
            ByteSource::Blob(blob) => ByteSource::Blob(*blob),
            ByteSource::Canonical => ByteSource::Canonical,
        }
    }
}

/// A projected file on the wire.
#[derive(Debug, PartialEq, Eq)]
pub struct FileOut {
    pub content_type: Option<String>,
    pub attrs: FileAttrs,
    pub bytes: ByteSource,
}

/// What a [`FileOut`] says.
pub struct OutModel {
    pub content_type: Option<Seq<char>>,
    pub attrs: FileAttrs,
    pub bytes: SourceModel,
}

impl View for FileOut {
    type V = OutModel;

    open spec fn view(&self) -> OutModel {
        OutModel {
            content_type: text::text_of(self.content_type),
            attrs: self.attrs,
            bytes: self.bytes@,
        }
    }
}

impl Clone for FileOut {
    fn clone(&self) -> (r: Self)
        ensures
            r@ == self@,
    {
        FileOut {
            content_type: text::copied_option(&self.content_type),
            attrs: self.attrs.clone(),
            bytes: self.bytes.clone(),
        }
    }
}

/// The mime type of an optional content type.
pub open spec fn lowered_content(ct: Option<ContentModel>) -> Option<Seq<char>> {
    match ct {
        Some(ct) => Some(ct.mime()),
        None => None,
    }
}

/// Attributes on the wire.
pub open spec fn lowered_attrs(attrs: file_attrs::FileAttrs) -> FileAttrs {
    FileAttrs {
        size: attrs.size,
        stability: attrs.stability,
        version_token: match attrs.version {
            Some(version) => Some(version.0),
            None => None,
        },
    }
}

/// A projected file on the wire.
pub open spec fn lowered_file(file: FileModel) -> OutModel {
    OutModel {
        content_type: lowered_content(file.content_type),
        attrs: lowered_attrs(file.attrs),
        bytes: match file.bytes {
            BytesModel::Inline(bytes) => SourceModel::Inline(bytes),
            BytesModel::Deferred(read) => SourceModel::Deferred(read),
        },
    }
}

/// The model of an optional id.
pub open spec fn id_of(id: Option<LogicalId>) -> Option<IdModel> {
    match id {
        Some(id) => Some(id@),
        None => None,
    }
}

/// Canonical bytes to be stored for an object, and the paths that are views
/// of them.
#[derive(Debug, PartialEq, Eq)]
pub struct CanonicalStore {
    pub id: LogicalId,
    pub validator: Option<String>,
    pub bytes: Vec<u8>,
    pub view_leaves: Vec<String>,
}

/// What a [`CanonicalStore`] says.
pub struct StoreModel {
    pub id: IdModel,
    pub validator: Option<Seq<char>>,
    pub bytes: Seq<u8>,
    pub view_leaves: Seq<Seq<char>>,
}

impl View for CanonicalStore {
    type V = StoreModel;

    open spec fn view(&self) -> StoreModel {
        StoreModel {
            id: self.id@,
            validator: text::text_of(self.validator),
            bytes: self.bytes@,
            view_leaves: text::views(self.view_leaves@),
        }
    }
}

impl Clone for CanonicalStore {
    fn clone(&self) -> (r: Self)
        ensures
            r@ == self@,
    {
        CanonicalStore {
            id: self.id.clone(),
            validator: text::copied_option(&self.validator),
            bytes: file_attrs::copy_bytes(self.bytes.as_slice()),
            view_leaves: text::copied(self.view_leaves.as_slice()),
        }
    }
}

/// A directory, with its children complete or not, or a file.
#[derive(Debug, PartialEq, Eq)]
pub enum FsKind {
    Directory(bool),
    File(FileOut),
}

/// What a [`FsKind`] says.
pub enum KindModel {
    Directory(bool),
    File(OutModel),
}

impl View for FsKind {
    type V = KindModel;

    open spec fn view(&self) -> KindModel {
        match self {
            FsKind::Directory(exhaustive) => KindModel::Directory(*exhaustive),
            FsKind::File(file) => KindModel::File(file@),
        }
    }
}

impl Clone for FsKind {
    fn clone(&self) -> (r: Self)
        ensures
            r@ == self@,
    {
        match self {
            FsKind::Directory(exhaustive) => FsKind::Directory(*exhaustive),
            FsKind::File(file) => FsKind::File(file.clone()),
        }
    }
}

/// A file or directory to be materialized in the view cache.
#[derive(Debug, PartialEq, Eq)]
pub struct FsWrite {
    pub id: Option<LogicalId>,
    pub path: String,
    pub kind: FsKind,
}

/// What a [`FsWrite`] says.
pub struct WriteModel {
    pub id: Option<IdModel>,
    pub path: Seq<char>,
    pub kind: KindModel,
}

impl View for FsWrite {
    type V = WriteModel;

    open spec fn view(&self) -> WriteModel {
        WriteModel { id: id_of(self.id), path: self.path@, kind: self.kind@ }
    }
}

impl Clone for FsWrite {
    fn clone(&self) -> (r: Self)
        ensures
            r@ == self@,
    {
        FsWrite { id: copy_id(&self.id), path: self.path.clone(), kind: self.kind.clone() }
    }
}

/// One path, or everything under a prefix.
#[derive(Debug, PartialEq, Eq)]
pub enum PathOrPrefix {
    Path(String),
    Prefix(String),
}

impl Clone for PathOrPrefix {
    fn clone(&self) -> (r: Self)
        ensures
            r == *self,
    {
        match self {
            PathOrPrefix::Path(path) => PathOrPrefix::Path(path.clone()),
            PathOrPrefix::Prefix(prefix) => PathOrPrefix::Prefix(prefix.clone()),
        }
    }
}

/// Stale state to be evicted: an object, or cached listings.
#[derive(Debug, PartialEq, Eq)]
pub enum Invalidation {
    Object(LogicalId),
    Listing(PathOrPrefix),
}

/// What an [`Invalidation`] says.
pub enum EvictModel {
    Object(IdModel),
    ListingPath(Seq<char>),
    ListingPrefix(Seq<char>),
}

impl View for Invalidation {
    type V = EvictModel;

    open spec fn view(&self) -> EvictModel {
        match self {
            Invalidation::Object(id) => EvictModel::Object(id@),
            Invalidation::Listing(PathOrPrefix::Path(path)) => EvictModel::ListingPath(path@),
            Invalidation::Listing(PathOrPrefix::Prefix(prefix)) => EvictModel::ListingPrefix(
                prefix@,
            ),
        }
    }
}

impl Clone for Invalidation {
    fn clone(&self) -> (r: Self)
        ensures
            r@ == self@,
    {
        match self {
            Invalidation::Object(id) => Invalidation::Object(id.clone()),
            Invalidation::Listing(target) => Invalidation::Listing(target.clone()),
        }
    }
}

/// Staged host mutations on the wire.
#[derive(Debug, PartialEq, Eq)]
pub struct Effects {
    pub canonical: Vec<CanonicalStore>,
    pub fs: Vec<FsWrite>,
    pub invalidations: Vec<Invalidation>,
}

/// What kind of entry it is on the wire.
#[derive(Debug, PartialEq, Eq)]
pub enum EntryKind {
    Directory,
    File(FileOut),
}

/// A directory entry on the wire.
#[derive(Debug, PartialEq, Eq)]
pub struct DirEntry {
    pub name: String,
    pub kind: EntryKind,
    pub id: Option<LogicalId>,
}

/// What a [`DirEntry`] says; a directory has no file.
pub struct DirEntryModel {
    pub name: Seq<char>,
    pub file: Option<OutModel>,
    pub id: Option<IdModel>,
}

impl View for DirEntry {
    type V = DirEntryModel;

    open spec fn view(&self) -> DirEntryModel {
        DirEntryModel {
            name: self.name@,
            file: match self.kind {
                EntryKind::Directory => None,
                EntryKind::File(file) => Some(file@),
            },
            id: id_of(self.id),
        }
    }
}

/// The models of entries.
pub open spec fn dir_entries(entries: Seq<DirEntry>) -> Seq<DirEntryModel> {
    entries.map_values(|e: DirEntry| e@)
}

/// A listing on the wire.
#[derive(Debug, PartialEq, Eq)]
pub struct DirListing {
    pub entries: Vec<DirEntry>,
    pub exhaustive: bool,
    pub validator: Option<String>,
    pub next_cursor: Option<Cursor>,
}

/// A found entry on the wire.
#[derive(Debug, PartialEq, Eq)]
pub struct LookupEntry {
    pub target: DirEntry,
    pub siblings: Vec<DirEntry>,
    pub exhaustive: bool,
}

/// The answer to a lookup on the wire.
#[derive(Debug, PartialEq, Eq)]
pub enum LookupChildResult {
    Entry(LookupEntry),
    Subtree(u64),
    NotFound(Option<LogicalId>),
}

/// The answer to a listing on the wire.
#[derive(Debug, PartialEq, Eq)]
pub enum ListChildrenResult {
    Entries(DirListing),
    Subtree(u64),
    Unchanged,
}

/// The content of a file on the wire.
#[derive(Debug, PartialEq, Eq)]
pub struct ReadFileResult {
    pub content_type: Option<String>,
    pub attrs: FileAttrs,
    pub bytes: ByteSource,
}

/// The answer to a read on the wire.
#[derive(Debug, PartialEq, Eq)]
pub enum ReadFileOutcome {
    Found(ReadFileResult),
    NotFound(Option<LogicalId>),
}

/// A canonical that the host pushes with a read.
#[derive(Debug, PartialEq, Eq)]
pub struct CanonicalInput {
    pub id: LogicalId,
    pub bytes: Vec<u8>,
    pub validator: Option<String>,
}

/// One HTTP header line.
#[derive(Debug, PartialEq, Eq)]
pub struct Header {
    pub name: String,
    pub value: String,
}

/// The header lines as text.
pub open spec fn header_lines(headers: Seq<Header>) -> Seq<(Seq<char>, Seq<char>)> {
    headers.map_values(|h: Header| (h.name@, h.value@))
}

/// An HTTP request that the host runs.
#[derive(Debug, PartialEq, Eq)]
pub struct HttpRequest {
    pub method: String,
    pub url: String,
    pub headers: Vec<Header>,
    pub body: Option<Vec<u8>>,
}

/// An HTTP response that the host received.
#[derive(Debug, PartialEq, Eq)]
pub struct HttpResponse {
    pub status: u16,
    pub headers: Vec<Header>,
    pub body: Vec<u8>,
}

/// An HTTP request whose response body stays in the host's blob cache.
#[derive(Debug, PartialEq, Eq)]
pub struct BlobFetchRequest {
    pub method: String,
    pub url: String,
    pub headers: Vec<Header>,
    pub body: Option<Vec<u8>>,
    pub cache_key: String,
}

/// What the host says of a fetched blob.
#[derive(Debug, PartialEq, Eq)]
pub struct BlobFetched {
    pub blob: u64,
    pub size: u64,
    pub content_type: Option<String>,
    pub etag: Option<String>,
    pub status: u16,
    pub response_headers: Vec<Header>,
}

/// A read of cached blob bytes; to the end when no length is given.
#[derive(Debug, PartialEq, Eq)]
pub struct ReadBlobRequest {
    pub blob: u64,
    pub offset: u64,
    pub len: Option<u32>,
}

/// A repository to open, cloning it if needed.
#[derive(Debug, PartialEq, Eq)]
pub struct GitOpenRequest {
    pub cache_key: String,
    pub clone_url: String,
}

/// An opened repository; `tree` is the handle of its root.
#[derive(Clone, Copy, Debug, PartialEq, Eq, Structural)]
pub struct GitRepoInfo {
    pub tree: u64,
}

/// Work that the host runs for the provider.
#[derive(Debug, PartialEq, Eq)]
pub enum Callout {
    Fetch(HttpRequest),
    FetchBlob(BlobFetchRequest),
    ReadBlob(ReadBlobRequest),
    GitOpenRepo(GitOpenRequest),
}

/// What the host answers to a [`Callout`].
#[derive(Debug, PartialEq, Eq)]
pub enum CalloutResult {
    HttpResponse(HttpResponse),
    BlobFetched(BlobFetched),
    BlobRead(Vec<u8>),
    GitRepoOpened(GitRepoInfo),
    CalloutError(CalloutError),
}

/// A provider's name, version and description.
#[derive(Debug, PartialEq, Eq)]
pub struct ProviderInfo {
    pub name: String,
    pub version: String,
    pub description: String,
}

/// The result of an operation.
#[derive(Debug, PartialEq, Eq)]
pub enum OpResult {
    LookupChild(LookupChildResult),
    ListChildren(ListChildrenResult),
    ReadFile(ReadFileOutcome),
    Error(WireError),
}

/// A finished operation: its result and its effects.
#[derive(Debug, PartialEq, Eq)]
pub struct ProviderReturn {
    pub result: OpResult,
    pub effects: Effects,
}

/// Where an operation stands after it ran: finished, or waiting for a batch
/// of callouts.
#[derive(Debug, PartialEq, Eq)]
pub enum ProviderStep {
    Returned(ProviderReturn),
    Suspended(Vec<Callout>),
}

} // verus!

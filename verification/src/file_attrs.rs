//! Projected file attributes: declared size, stability, and version
//! evidence, plus the validation rules that keep projections honest.
//!
//! These attributes are the contract the host derives filesystem behavior
//! from: the `st_size` reported before any read, kernel attribute/content
//! caching policy, direct I/O and the ranged live path for volatile files,
//! and version-keyed durable content caching. Declare only what you actually
//! know; the host learns the rest.

use vstd::prelude::*;
use vstd::string::*;

use crate::blob::BlobId;
use crate::content_type;
use crate::content_type::{ContentModel, ContentType};
use crate::error;
use crate::error::{Failure, ProviderError, ProviderErrorKind, Result};
use crate::text;
use crate::wire;

verus! {

/// Per-projection inline byte cap (64 KiB), enforced by
/// [`FileProj::validate`]. Content larger than this must be a deferred
/// projection or a blob; it cannot ride inline in a terminal.
pub const MAX_PROJECTED_BYTES: usize = 65536;

/// Aggregate eager byte cap (512 KiB) the host enforces across all inline
/// payloads of one terminal response.
pub const MAX_EAGER_RESPONSE_BYTES: usize = 524288;

/// Maximum [`VersionToken`] length in bytes, enforced by
/// [`VersionToken::validate`].
pub const MAX_VERSION_TOKEN_BYTES: usize = 256;

/// Declared file size: the truthful byte length, "non-empty but length
/// unknown", or nothing known at all.
#[derive(Clone, Copy, Debug, PartialEq, Eq, Structural)]
pub enum Size {
    Exact(u64),
    NonZero,
    Unknown,
}

impl Size {
    /// The `st_size` to report before any read.
    pub open spec fn reported(self) -> u64 {
        match self {
            Size::Exact(size) => size,
            Size::NonZero | Size::Unknown => 1,
        }
    }

    /// The `st_size` to report before any read: the exact length, or the
    /// placeholder `1` for `NonZero` and `Unknown`.
    ///
    /// The placeholder is deliberately tiny and non-zero: zero would make
    /// size-checking tools skip the file as empty, and a large fake value
    /// breaks `tail -n` and friends.
    pub fn st_size(&self) -> (r: u64)
        ensures
            r == self.reported(),
    {
        match self {
            Size::Exact(size) => *size,
            Size::NonZero | Size::Unknown => 1,
        }
    }
}

/// How deferred content is read: one whole-file read, or arbitrary
/// `(offset, length)` chunks through an open session.
#[derive(Clone, Copy, Debug, PartialEq, Eq, Structural)]
pub enum ReadMode {
    Full,
    Ranged,
}

/// How the bytes behave over time for one logical identity; the host
/// derives its caching policy from this.
///
/// - `Immutable`: the bytes never change for this path identity.
/// - `Mutable`: bytes may change between reads but not during one.
/// - `Volatile`: bytes may change while being observed (`tail -f` shapes).
///   Structurally requires a deferred ranged projection
///   ([`FileProj::validate`]).
#[derive(Clone, Copy, Debug, PartialEq, Eq, Structural)]
pub enum Stability {
    Immutable,
    Mutable,
    Volatile,
}

/// Opaque version evidence for a file or object: an `ETag`, commit SHA,
/// updated-at timestamp, or any string that changes when the content does.
///
/// Must be non-empty and at most [`MAX_VERSION_TOKEN_BYTES`] bytes
/// ([`Self::validate`]).
#[derive(Debug, PartialEq, Eq)]
pub struct VersionToken(pub String);

impl Clone for VersionToken {
    fn clone(&self) -> (r: Self)
        ensures
            r == *self,
    {
        VersionToken(self.0.clone())
    }
}

impl From<String> for VersionToken {
    fn from(value: String) -> Self {
        VersionToken(value)
    }
}

impl vstd::std_specs::convert::FromSpecImpl<String> for VersionToken {
    open spec fn obeys_from_spec() -> bool {
        true
    }

    open spec fn from_spec(value: String) -> Self {
        VersionToken(value)
    }
}

/// Why a version token is rejected, if it is.
pub open spec fn token_failure(token: Seq<char>) -> Option<Failure> {
    if token.len() == 0 {
        Some(
            error::failure(
                ProviderErrorKind::InvalidInput,
                "version token must not be empty"@,
            ),
        )
    } else if text::byte_len(token) > MAX_VERSION_TOKEN_BYTES {
        Some(
            error::failure(
                ProviderErrorKind::InvalidInput,
                "version token exceeds 256 bytes"@,
            ),
        )
    } else {
        None
    }
}

/// The outcome of a check: no failure, or that failure.
pub open spec fn checked(r: Result<()>, failure: Option<Failure>) -> bool {
    match failure {
        None => r is Ok,
        Some(f) => r matches Err(e) && e@ == f,
    }
}

impl VersionToken {
    /// A token with this text.
    pub fn new(value: &str) -> (r: Self)
        ensures
            r.0@ == value@,
    {
        VersionToken(value.to_owned())
    }

    pub fn as_str(&self) -> (r: &str)
        ensures
            r@ == self.0@,
    {
        self.0.as_str()
    }

    /// Whether the token is neither empty nor too long.
    pub fn validate(&self) -> (r: Result<()>)
        ensures
            checked(r, token_failure(self.0@)),
    {
        if self.0.as_str().is_empty() {
            return Err(ProviderError::invalid_input("version token must not be empty"));
        }
        if self.0.as_str().len() > MAX_VERSION_TOKEN_BYTES {
            return Err(ProviderError::invalid_input("version token exceeds 256 bytes"));
        }
        Ok(())
    }
}

/// Declared metadata for a projected file: size, stability, and optional
/// version evidence.
#[derive(Debug, PartialEq, Eq)]
pub struct FileAttrs {
    pub size: Size,
    pub stability: Stability,
    pub version: Option<VersionToken>,
}

/// A copy of an optional token.
pub fn copy_token(token: &Option<VersionToken>) -> (r: Option<VersionToken>)
    ensures
        r == *token,
{
    match token {
        Some(token) => Some(token.clone()),
        None => None,
    }
}

impl Clone for FileAttrs {
    fn clone(&self) -> (r: Self)
        ensures
            r == *self,
    {
        FileAttrs {
            size: self.size,
            stability: self.stability,
            version: copy_token(&self.version),
        }
    }
}

/// Why attributes are rejected, if they are.
pub open spec fn attrs_failure(attrs: FileAttrs) -> Option<Failure> {
    match attrs.version {
        Some(version) => token_failure(version.0@),
        None => None,
    }
}

impl FileAttrs {
    pub fn new(size: Size, stability: Stability) -> (r: Self)
        ensures
            r == (FileAttrs { size, stability, version: None }),
    {
        FileAttrs { size, stability, version: None }
    }

    #[must_use]
    pub fn with_version(self, version: VersionToken) -> (r: Self)
        ensures
            r == (FileAttrs { version: Some(version), ..self }),
    {
        FileAttrs { size: self.size, stability: self.stability, version: Some(version) }
    }

    /// The `st_size` value implied by the declared size; see
    /// [`Size::st_size`] for the placeholder rule.
    pub fn st_size(&self) -> (r: u64)
        ensures
            r == self.size.reported(),
    {
        self.size.st_size()
    }

    pub fn validate(&self) -> (r: Result<()>)
        ensures
            checked(r, attrs_failure(*self)),
    {
        if let Some(version) = &self.version {
            return version.validate();
        }
        Ok(())
    }

    /// Lowers the attributes onto the wire.
    pub fn into_wire(self) -> (r: wire::FileAttrs)
        ensures
            r == (wire::FileAttrs {
                size: self.size,
                stability: self.stability,
                version_token: (match self.version {
                    Some(version) => Some(version.0),
                    None => None::<String>,
                }),
            }),
    {
        wire::FileAttrs {
            size: self.size,
            stability: self.stability,
            version_token: match self.version {
                Some(version) => Some(version.0),
                None => None,
            },
        }
    }
}

/// Byte source for a projected file: bytes carried now, or a promise to
/// serve them on demand in the given [`ReadMode`].
#[derive(Debug, PartialEq, Eq)]
pub enum ProjBytes {
    Inline(Vec<u8>),
    Deferred { read: ReadMode },
}

/// What a [`ProjBytes`] holds.
pub enum BytesModel {
    Inline(Seq<u8>),
    Deferred(ReadMode),
}

impl View for ProjBytes {
    type V = BytesModel;

    open spec fn view(&self) -> BytesModel {
        match self {
            ProjBytes::Inline(bytes) => BytesModel::Inline(bytes@),
            ProjBytes::Deferred { read } => BytesModel::Deferred(*read),
        }
    }
}

impl Clone for ProjBytes {
    fn clone(&self) -> (r: Self)
        ensures
            r@ == self@,
    {
        match self {
            ProjBytes::Inline(bytes) => ProjBytes::Inline(copy_bytes(bytes.as_slice())),
            ProjBytes::Deferred { read } => ProjBytes::Deferred { read: *read },
        }
    }
}

/// Byte source for a completed read answer: inline bytes, or a handle to a
/// host-resident blob. Deferred is deliberately not an option here: a read
/// must answer with concrete bytes.
#[derive(Debug, PartialEq, Eq)]
pub enum ReadFileBytes {
    Inline(Vec<u8>),
    Blob(BlobId),
}

/// Two byte sources hold the same.
pub open spec fn same_source(a: ReadFileBytes, b: ReadFileBytes) -> bool {
    match a {
        ReadFileBytes::Inline(bytes) => b matches ReadFileBytes::Inline(other) && other@ == bytes@,
        ReadFileBytes::Blob(blob) => b == ReadFileBytes::Blob(blob),
    }
}

impl Clone for ReadFileBytes {
    fn clone(&self) -> (r: Self)
        ensures
            same_source(*self, r),
    {
        match self {
            ReadFileBytes::Inline(bytes) => ReadFileBytes::Inline(copy_bytes(bytes.as_slice())),
            ReadFileBytes::Blob(blob) => ReadFileBytes::Blob(*blob),
        }
    }
}

/// A projected file: attributes plus a byte source, as it appears in
/// directory entries and `fs` effects.
#[derive(Debug, PartialEq, Eq)]
pub struct FileProj {
    pub attrs: FileAttrs,
    pub bytes: ProjBytes,
    pub content_type: Option<ContentType>,
}

/// What a [`FileProj`] declares.
pub struct FileModel {
    pub attrs: FileAttrs,
    pub bytes: BytesModel,
    pub content_type: Option<ContentModel>,
}

impl View for FileProj {
    type V = FileModel;

    open spec fn view(&self) -> FileModel {
        FileModel {
            attrs: self.attrs,
            bytes: self.bytes@,
            content_type: content_type::content_of(self.content_type),
        }
    }
}

/// A copy of some bytes.
pub fn copy_bytes(bytes: &[u8]) -> (r: Vec<u8>)
    ensures
        r@ == bytes@,
{
    vstd::slice::slice_to_vec(bytes)
}

impl Clone for FileProj {
    fn clone(&self) -> (r: Self)
        ensures
            r@ == self@,
    {
        FileProj {
            attrs: self.attrs.clone(),
            bytes: self.bytes.clone(),
            content_type: self.content_type,
        }
    }
}

/// A file that carries its bytes.
pub open spec fn inline_file(
    bytes: Seq<u8>,
    stability: Stability,
    version: Option<VersionToken>,
) -> FileModel {
    FileModel {
        attrs: FileAttrs { size: Size::Exact(bytes.len() as u64), stability, version },
        bytes: BytesModel::Inline(bytes),
        content_type: None,
    }
}

/// The file that stands for an entry of a listing.
pub open spec fn listing_file() -> FileModel {
    FileModel {
        attrs: FileAttrs {
            size: Size::Unknown,
            stability: Stability::Immutable,
            version: None,
        },
        bytes: BytesModel::Deferred(ReadMode::Full),
        content_type: None,
    }
}

/// Why a projected file is rejected, if it is: the first of a bad version
/// token, volatile bytes that are not read in ranges, and inline bytes that
/// are too many or whose declared size is not their number.
pub open spec fn file_failure(file: FileModel) -> Option<Failure> {
    if attrs_failure(file.attrs) is Some {
        attrs_failure(file.attrs)
    } else if file.attrs.stability is Volatile && file.bytes != BytesModel::Deferred(
        ReadMode::Ranged,
    ) {
        Some(
            error::failure(
                ProviderErrorKind::InvalidInput,
                "Stability::Volatile requires ProjBytes::Deferred { read: ReadMode::Ranged }"@,
            ),
        )
    } else {
        match (file.bytes, file.attrs.size) {
            (BytesModel::Inline(bytes), Size::Exact(size)) => if size != bytes.len() {
                Some(
                    error::failure(
                        ProviderErrorKind::InvalidInput,
                        "inline projection declares size "@ + text::decimal(size as nat)
                            + " but carries "@ + text::decimal(bytes.len()) + " bytes"@,
                    ),
                )
            } else if bytes.len() > MAX_PROJECTED_BYTES {
                Some(
                    error::failure(
                        ProviderErrorKind::TooLarge,
                        "inline projection exceeds eager byte limit of 65536 bytes"@,
                    ),
                )
            } else {
                None
            },
            (BytesModel::Inline(bytes), _) => Some(
                error::failure(
                    ProviderErrorKind::InvalidInput,
                    "inline projection bytes require Size::Exact(bytes.len())"@,
                ),
            ),
            (BytesModel::Deferred(_), _) => None,
        }
    }
}

impl FileProj {
    /// Carry the bytes now. Size is set to the exact byte length, which is
    /// the only legal size for inline content.
    pub fn inline(
        bytes: Vec<u8>,
        stability: Stability,
        version: Option<VersionToken>,
    ) -> (r: Self)
        ensures
            r@ == inline_file(bytes@, stability, version),
    {
        FileProj {
            attrs: FileAttrs { size: Size::Exact(bytes.len() as u64), stability, version },
            bytes: ProjBytes::Inline(bytes),
            content_type: None,
        }
    }

    /// Declare the file without carrying bytes; content is served later.
    /// Declare honest attrs: this is the correct shape when a listing payload
    /// does not contain the leaf's full content.
    pub fn deferred(size: Size, read: ReadMode, stability: Stability) -> (r: Self)
        ensures
            r@ == (FileModel {
                attrs: FileAttrs { size, stability, version: None },
                bytes: BytesModel::Deferred(read),
                content_type: None,
            }),
    {
        FileProj {
            attrs: FileAttrs::new(size, stability),
            bytes: ProjBytes::Deferred { read },
            content_type: None,
        }
    }

    /// Directory listing entry: attrs for `stat`/`ls` without inline bytes.
    pub fn listing_shape() -> (r: Self)
        ensures
            r@ == listing_file(),
    {
        Self::deferred(Size::Unknown, ReadMode::Full, Stability::Immutable)
    }

    #[must_use]
    pub fn with_version(self, version: VersionToken) -> (r: Self)
        ensures
            r@ == (FileModel {
                attrs: FileAttrs { version: Some(version), ..self@.attrs },
                ..self@
            }),
    {
        FileProj {
            attrs: self.attrs.with_version(version),
            bytes: self.bytes,
            content_type: self.content_type,
        }
    }

    #[must_use]
    pub fn with_content_type(self, content_type: ContentType) -> (r: Self)
        ensures
            r@ == (FileModel { content_type: Some(content_type@), ..self@ }),
    {
        FileProj {
            attrs: self.attrs,
            bytes: self.bytes,
            content_type: Some(content_type),
        }
    }

    /// Enforce the structural legality rules:
    ///
    /// - `Stability::Volatile` requires `ProjBytes::Deferred { read:
    ///   ReadMode::Ranged }`: bytes that can change mid-read may only be
    ///   served through the ranged live path, never inline or full-read.
    /// - Inline bytes require `Size::Exact` equal to the actual byte
    ///   length, and at most [`MAX_PROJECTED_BYTES`].
    /// - A version token, when present, must be non-empty and within
    ///   [`MAX_VERSION_TOKEN_BYTES`].
    pub fn validate(&self) -> (r: Result<()>)
        ensures
            checked(r, file_failure(self@)),
    {
        self.attrs.validate()?;

        let ranged = matches!(self.bytes, ProjBytes::Deferred { read: ReadMode::Ranged });
        if self.attrs.stability == Stability::Volatile && !ranged {
            return Err(
                ProviderError::invalid_input(
                    "Stability::Volatile requires ProjBytes::Deferred { read: ReadMode::Ranged }",
                ),
            );
        }
        match (&self.bytes, &self.attrs.size) {
            (ProjBytes::Inline(bytes), Size::Exact(size)) => {
                let len: u64 = bytes.len() as u64;
                if *size != len {
                    let mut message = text::concat3(
                        "inline projection declares size ",
                        text::decimal_of(*size).as_str(),
                        " but carries ",
                    );
                    message.append(text::decimal_of(len).as_str());
                    message.append(" bytes");
                    return Err(ProviderError::invalid_input(message.as_str()));
                }
                if bytes.len() > MAX_PROJECTED_BYTES {
                    return Err(
                        ProviderError::too_large(
                            "inline projection exceeds eager byte limit of 65536 bytes",
                        ),
                    );
                }
            },
            (ProjBytes::Inline(_), Size::NonZero | Size::Unknown) => {
                return Err(
                    ProviderError::invalid_input(
                        "inline projection bytes require Size::Exact(bytes.len())",
                    ),
                );
            },
            (ProjBytes::Deferred { .. }, _) => {},
        }
        Ok(())
    }

    /// The bytes that are carried now.
    pub fn inline_bytes(&self) -> (r: Option<&[u8]>)
        ensures
            match self@.bytes {
                BytesModel::Inline(bytes) => r matches Some(b) && b@ == bytes,
                BytesModel::Deferred(_) => r is None,
            },
    {
        match &self.bytes {
            ProjBytes::Inline(bytes) => Some(bytes.as_slice()),
            ProjBytes::Deferred { .. } => None,
        }
    }

    /// Lowers the file onto the wire.
    pub fn into_wire(self) -> (r: wire::FileOut)
        ensures
            r@ == wire::lowered_file(self@),
    {
        wire::FileOut {
            content_type: match self.content_type {
                Some(content_type) => Some(content_type.as_mime().to_owned()),
                None => None,
            },
            attrs: self.attrs.into_wire(),
            bytes: match self.bytes {
                ProjBytes::Inline(bytes) => wire::ByteSource::Inline(bytes),
                ProjBytes::Deferred { read } => wire::ByteSource::Deferred(read),
            },
        }
    }
}

/// Inline files of a legal size without a version token are never rejected,
/// unless they claim to be volatile.
pub proof fn law_inline_is_legal(bytes: Seq<u8>, stability: Stability)
    requires
        bytes.len() <= MAX_PROJECTED_BYTES,
        !(stability is Volatile),
    ensures
        file_failure(inline_file(bytes, stability, None)) is None,
{
}

/// A file that passes validation and is volatile is read in ranges.
pub proof fn law_volatile_is_ranged(file: FileModel)
    requires
        file_failure(file) is None,
        file.attrs.stability is Volatile,
    ensures
        file.bytes == BytesModel::Deferred(ReadMode::Ranged),
{
}

/// A file that passes validation and carries its bytes declares their number
/// as its size, and they are within the cap.
pub proof fn law_inline_size_is_exact(file: FileModel)
    requires
        file_failure(file) is None,
        file.bytes is Inline,
    ensures
        file.attrs.size matches Size::Exact(size) && size == file.bytes->Inline_0.len() && size
            <= MAX_PROJECTED_BYTES,
{
}

} // verus!

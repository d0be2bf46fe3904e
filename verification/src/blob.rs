//! Typed blob callout builders.
//!
//! Blobs keep large bodies host-side by design. A blob fetch (see
//! [`crate::fetch::Request::into_blob`] or
//! [`crate::endpoint::RequestBuilder::into_blob`]) lands the response body in
//! the host's blob cache and returns a [`BlobRef`] carrying metadata only.
//! The cache key is provider-scoped: reusing a key from the same provider
//! deduplicates the fetch, and two providers never collide on a key.
//!
//! A stored blob is consumed by
//! [`crate::projection::FileProjection::blob`], which serves the bytes
//! verbatim from a file route, or by [`BlobReader`], which brings (a range
//! of) the bytes into guest memory. Use the latter sparingly; each response
//! is capped by host policy because those bytes cross into the guest.

use vstd::prelude::*;

use crate::error;
use crate::error::{Failure, ProviderError, Result};
use crate::headers;
use crate::fetch;
use crate::fetch::{CalloutFuture, Extract};
use crate::text;
use crate::wire;
use crate::wire::{BlobFetched, Callout, CalloutResult, ReadBlobRequest};

verus! {

/// Runtime-local handle for a blob stored in the host cache. Valid only for
/// the current provider instance; do not persist it or derive paths from it.
/// The cache key, not this id, is the stable name for re-resolving a blob.
#[derive(Clone, Copy, Debug, PartialEq, Eq, Hash, Structural)]
pub struct BlobId(pub u64);

impl BlobId {
    /// The raw handle.
    pub fn raw(self) -> (r: u64)
        ensures
            r == self.0,
    {
        self.0
    }
}

/// Metadata returned by a blob fetch.
///
/// The response body stays in the host cache. Use [`Self::id`] when passing
/// the blob to [`crate::projection::FileProjection::blob`] or
/// [`BlobReader`]. The fetch resolves for any upstream status; check
/// [`Self::error_for_status`] before treating the blob as valid content.
#[derive(Debug)]
pub struct BlobRef {
    /// Runtime-local id of the cached blob.
    pub id: BlobId,
    /// Cached blob size in bytes.
    pub size: u64,
    /// Response `Content-Type`, when present.
    pub content_type: Option<String>,
    /// Response `ETag`, when present.
    pub etag: Option<String>,
    /// HTTP status returned by the upstream fetch.
    pub status: u16,
    /// Response headers preserved for provider inspection.
    pub response_headers: Vec<(String, String)>,
}

impl Clone for BlobRef {
    fn clone(&self) -> (r: Self)
        ensures
            r.id == self.id,
            r.size == self.size,
            r.content_type == self.content_type,
            r.etag == self.etag,
            r.status == self.status,
            r.response_headers@ == self.response_headers@,
    {
        let mut response_headers: Vec<(String, String)> = Vec::new();
        let mut i: usize = 0;
        while i < self.response_headers.len()
            invariant
                i <= self.response_headers@.len(),
                response_headers@ == self.response_headers@.take(i as int),
            decreases self.response_headers@.len() - i,
        {
            let line = &self.response_headers[i];
            response_headers.push((line.0.clone(), line.1.clone()));
            i = i + 1;
        }
        assert(response_headers@ =~= self.response_headers@);
        BlobRef {
            id: self.id,
            size: self.size,
            content_type: text::copied_option(&self.content_type),
            etag: text::copied_option(&self.etag),
            status: self.status,
            response_headers,
        }
    }
}

/// The error that a fetch's status stands for, if it is one.
pub open spec fn blob_failure(status: u16) -> Option<Failure> {
    if 400 <= status < 600 {
        Some(
            error::failure(
                error::status_kind(status),
                "HTTP "@ + text::decimal(status as nat),
            ),
        )
    } else {
        None
    }
}

/// The value of the first header line, from the `i`-th on, of that name, the
/// case of ASCII letters aside.
pub open spec fn line_named(lines: Seq<(Seq<char>, Seq<char>)>, name: Seq<char>, i: nat) -> Option<
    Seq<char>,
>
    decreases lines.len() - i,
{
    if i >= lines.len() {
        None
    } else if headers::lowered(lines[i as int].0) == headers::lowered(name) {
        Some(lines[i as int].1)
    } else {
        line_named(lines, name, i + 1)
    }
}

impl BlobRef {
    /// Runtime-local id of the cached blob.
    pub fn id(&self) -> (r: BlobId)
        ensures
            r == self.id,
    {
        self.id
    }

    /// Default 4xx/5xx mapping. Mirrors the inline-HTTP `error_for_status`
    /// so blob fetches participate in the same error flow.
    pub fn error_for_status(self) -> (r: Result<Self>)
        ensures
            match blob_failure(self.status) {
                Some(f) => r matches Err(e) && e@ == f,
                None => r == Ok::<BlobRef, ProviderError>(self),
            },
    {
        if 400 <= self.status && self.status < 600 {
            Err(ProviderError::from_http_status(self.status))
        } else {
            Ok(self)
        }
    }

    /// Return a response header value by case-insensitive name.
    pub fn header(&self, name: &str) -> (r: Option<&str>)
        ensures
            match line_named(headers::text_pairs(self.response_headers@), name@, 0) {
                Some(value) => r matches Some(v) && v@ == value,
                None => r is None,
            },
    {
        let ghost lines = headers::text_pairs(self.response_headers@);
        let mut i: usize = 0;
        while i < self.response_headers.len()
            invariant
                i <= self.response_headers@.len(),
                lines == headers::text_pairs(self.response_headers@),
                line_named(lines, name@, 0) == line_named(lines, name@, i as nat),
            decreases self.response_headers@.len() - i,
        {
            let line = &self.response_headers[i];
            assert(lines[i as int] == (line.0@, line.1@));
            if headers::same_ignoring_case(line.0.as_str(), name) {
                return Some(line.1.as_str());
            }
            i = i + 1;
        }
        None
    }

    /// Reads what the host says of a fetched blob.
    pub fn from_fetched(fetched: BlobFetched) -> (r: Self)
        ensures
            blob_read(fetched, r),
    {
        let ghost lines = wire::header_lines(fetched.response_headers@);
        let ghost given = fetched.response_headers@;
        let mut response_headers: Vec<(String, String)> = Vec::new();
        for line in it: fetched.response_headers
            invariant
                it.seq() == given,
                lines == wire::header_lines(given),
                headers::text_pairs(response_headers@) == lines.take(it.index() as int),
        {
            let ghost i = it.index() as int;
            let ghost before = response_headers@;
            assert(line == given[i]);
            assert(lines[i] == (line.name@, line.value@));
            response_headers.push((line.name, line.value));
            assert(headers::text_pairs(response_headers@) =~= headers::text_pairs(before).push(
                lines[i],
            ));
            assert(lines.take(i + 1) =~= lines.take(i).push(lines[i]));
        }
        assert(lines.take(lines.len() as int) =~= lines);
        BlobRef {
            id: BlobId(fetched.blob),
            size: fetched.size,
            content_type: fetched.content_type,
            etag: fetched.etag,
            status: fetched.status,
            response_headers,
        }
    }
}

/// A reference says what the host said.
pub open spec fn blob_read(fetched: BlobFetched, r: BlobRef) -> bool {
    &&& r.id == BlobId(fetched.blob)
    &&& r.size == fetched.size
    &&& r.content_type == fetched.content_type
    &&& r.etag == fetched.etag
    &&& r.status == fetched.status
    &&& headers::text_pairs(r.response_headers@) == wire::header_lines(
        fetched.response_headers@,
    )
}

/// Reads the result of a blob fetch.
pub struct BlobReply;

impl Extract<BlobRef> for BlobReply {
    open spec fn extracted(result: CalloutResult, r: Result<BlobRef>) -> bool {
        match result {
            CalloutResult::CalloutError(e) => r matches Err(e2) && e2@ == fetch::callout_failure(e),
            CalloutResult::BlobFetched(fetched) => r matches Ok(blob) && blob_read(fetched, blob),
            _ => r matches Err(e) && e@ == fetch::unexpected("fetch-blob"@),
        }
    }

    fn extract(&self, result: CalloutResult) -> (r: Result<BlobRef>) {
        match result {
            CalloutResult::CalloutError(e) => Err(ProviderError::from_callout_error(e)),
            CalloutResult::BlobFetched(fetched) => Ok(BlobRef::from_fetched(fetched)),
            _ => Err(fetch::unexpected_result("fetch-blob")),
        }
    }
}

/// Reads the result of a blob read.
pub struct BlobBytes;

impl Extract<Vec<u8>> for BlobBytes {
    open spec fn extracted(result: CalloutResult, r: Result<Vec<u8>>) -> bool {
        match result {
            CalloutResult::CalloutError(e) => r matches Err(e2) && e2@ == fetch::callout_failure(e),
            CalloutResult::BlobRead(bytes) => r == Ok::<Vec<u8>, ProviderError>(bytes),
            _ => r matches Err(e) && e@ == fetch::unexpected("read-blob"@),
        }
    }

    fn extract(&self, result: CalloutResult) -> (r: Result<Vec<u8>>) {
        match result {
            CalloutResult::CalloutError(e) => Err(ProviderError::from_callout_error(e)),
            CalloutResult::BlobRead(bytes) => Ok(bytes),
            _ => Err(fetch::unexpected_result("read-blob")),
        }
    }
}

/// Reader for a blob already stored host-side.
///
/// Reads copy cached bytes back into guest memory, so each response is
/// capped by host policy. Serve large files with
/// [`crate::projection::FileProjection::blob`] when the provider does not
/// need the bytes in memory; reach for a read only when the provider must
/// parse the content itself.
pub struct BlobReader {
    pub blob: BlobId,
}

/// A read of a blob that waits with one callout to yield.
pub open spec fn reading(blob: BlobId, offset: u64, len: Option<u32>) -> CalloutFuture<
    Vec<u8>,
    BlobBytes,
> {
    CalloutFuture::Pending {
        callout: Some(Callout::ReadBlob(ReadBlobRequest { blob: blob.0, offset, len })),
        extract: BlobBytes,
    }
}

impl BlobReader {
    pub fn new(blob: BlobId) -> (r: Self)
        ensures
            r.blob == blob,
    {
        BlobReader { blob }
    }

    /// Read the whole blob from offset zero to EOF.
    ///
    /// This is only suitable for blobs small enough to fit under the
    /// host's `read-blob` cap.
    pub fn read(self) -> (r: CalloutFuture<Vec<u8>, BlobBytes>)
        ensures
            r == reading(self.blob, 0, None),
    {
        CalloutFuture::new(
            Callout::ReadBlob(ReadBlobRequest { blob: self.blob.0, offset: 0, len: None }),
            BlobBytes,
        )
    }

    /// Read at most `len` bytes starting at `offset`.
    ///
    /// Offsets past EOF return an empty byte vector. The host cap
    /// applies to the returned byte count, not to the absolute offset.
    pub fn read_range(self, offset: u64, len: u32) -> (r: CalloutFuture<Vec<u8>, BlobBytes>)
        ensures
            r == reading(self.blob, offset, Some(len)),
    {
        CalloutFuture::new(
            Callout::ReadBlob(ReadBlobRequest { blob: self.blob.0, offset, len: Some(len) }),
            BlobBytes,
        )
    }
}

} // verus!

//! Raw HTTP callout builders and the callout future protocol.
//!
//! [`Builder`] is the untyped layer beneath [`crate::endpoint`]; prefer typed
//! endpoints for upstream APIs and reach for this layer only when the URL is
//! fully dynamic. A sent request resolves to a [`Response`] with no status
//! mapping: use [`ResponseExt::error_for_status`] for the default 4xx/5xx
//! mapping or inspect the response directly.
//!
//! Sending never performs I/O in the guest. [`CalloutFuture`] yields the
//! request onto the operation's queue on its first poll; the runtime suspends
//! the operation and hands the queued batch to the host, which runs it and
//! resumes the operation with results in batch order. The future then
//! consumes exactly one delivered result. That one-callout-per-suspension
//! shape is what keeps results aligned when [`crate::cx::join_all`] batches
//! siblings.
//!
//! The per-authority rate-limit breaker is checked here, at the lowest
//! layer, so raw sends and blob fetches inherit it as well as typed
//! endpoints: an open 429 window fast-fails in-guest without issuing a
//! callout. Arming is not symmetric, though: only typed endpoint sends arm
//! the breaker from a 429 response. A raw send surfaces the 429 as an error
//! without opening a window; call [`crate::rate_limit::note_rate_limited`] if
//! a raw path should arm it.

use vstd::prelude::*;
use vstd::string::*;

use crate::blob::BlobReply;
use crate::cx;
use crate::cx::{CalloutTask, Child, CxModel, CxShared, Polled};
use crate::error;
use crate::error::{Failure, ProviderError, ProviderErrorKind, Result};
use crate::headers;
use crate::rate_limit;
use crate::rate_limit::RateLimitBreaker;
use crate::text;
use crate::time::Duration;
use crate::wire;
use crate::wire::{BlobFetchRequest, Callout, CalloutResult, Header, HttpRequest};

verus! {

/// The request methods that are used.
#[derive(Clone, Copy, Debug, PartialEq, Eq, Structural)]
pub enum Method {
    Get,
    Post,
}

impl Method {
    /// The method as it is written in a request.
    pub open spec fn text(self) -> Seq<char> {
        match self {
            Method::Get => "GET"@,
            Method::Post => "POST"@,
        }
    }

    pub fn as_str(self) -> (r: &'static str)
        ensures
            r@ == self.text(),
    {
        match self {
            Method::Get => "GET",
            Method::Post => "POST",
        }
    }
}

/// Starts a request against a fully formed URL; there is no base-URL
/// resolution at this layer.
pub struct Builder;

impl Builder {
    pub fn new() -> (r: Self) {
        Builder
    }

    pub fn get(self, url: String) -> (r: Request)
        ensures
            r@ == blank_request(Method::Get, url@),
    {
        Request::new(Method::Get, url)
    }

    pub fn post(self, url: String) -> (r: Request)
        ensures
            r@ == blank_request(Method::Post, url@),
    {
        Request::new(Method::Post, url)
    }
}

/// One raw HTTP request under construction. Builder methods are infallible
/// by design: validation failures are recorded as a sticky first error and
/// surfaced by `send`, so chains never need intermediate `?`.
pub struct Request {
    method: Method,
    url: String,
    headers: http::HeaderMap,
    body: Option<Vec<u8>>,
    error: Option<ProviderError>,
}

/// What a [`Request`] says.
#[verifier::ext_equal]
pub struct RequestModel {
    pub method: Method,
    pub url: Seq<char>,
    pub headers: Map<Seq<char>, Seq<Seq<char>>>,
    pub body: Option<Seq<u8>>,
    pub error: Option<Failure>,
}

/// Bytes that may be there.
pub open spec fn bytes_of(body: Option<Vec<u8>>) -> Option<Seq<u8>> {
    match body {
        Some(bytes) => Some(bytes@),
        None => None,
    }
}

/// A failure that may be there.
pub open spec fn failure_of(error: Option<ProviderError>) -> Option<Failure> {
    match error {
        Some(error) => Some(error@),
        None => None,
    }
}

impl View for Request {
    type V = RequestModel;

    closed spec fn view(&self) -> RequestModel {
        RequestModel {
            method: self.method,
            url: self.url@,
            headers: headers::header_contents(self.headers),
            body: bytes_of(self.body),
            error: failure_of(self.error),
        }
    }
}

/// A request without headers and body.
pub open spec fn blank_request(method: Method, url: Seq<char>) -> RequestModel {
    RequestModel { method, url, headers: headers::no_headers(), body: None, error: None }
}

/// Why a header is rejected, if it is.
pub open spec fn header_failure(name: Seq<char>, value: Seq<char>) -> Option<Failure> {
    if headers::header_name(name) is None {
        Some(
            error::failure(
                ProviderErrorKind::InvalidInput,
                "invalid header name: "@ + "invalid HTTP header name"@,
            ),
        )
    } else if !headers::header_value(value) {
        Some(
            error::failure(
                ProviderErrorKind::InvalidInput,
                "invalid header value: "@ + "failed to parse header value"@,
            ),
        )
    } else {
        None
    }
}

/// A request with one more header, or with the first error it met.
pub open spec fn with_header(
    request: RequestModel,
    name: Seq<char>,
    value: Seq<char>,
) -> RequestModel {
    if request.error is Some {
        request
    } else {
        match header_failure(name, value) {
            Some(f) => RequestModel { error: Some(f), ..request },
            None => RequestModel {
                headers: headers::appended(
                    request.headers,
                    headers::header_name(name)->0,
                    value,
                ),
                ..request
            },
        }
    }
}

/// The headers with the content type of JSON, unless they have one.
pub open spec fn json_headers(map: Map<Seq<char>, Seq<Seq<char>>>) -> Map<
    Seq<char>,
    Seq<Seq<char>>,
> {
    if map.dom().contains("content-type"@) {
        map
    } else {
        map.insert("content-type"@, seq!["application/json"@])
    }
}

/// A request with a JSON body, or with the first error it met.
pub open spec fn with_json(
    request: RequestModel,
    encoded: core::result::Result<Seq<u8>, Seq<char>>,
) -> RequestModel {
    if request.error is Some {
        request
    } else {
        match encoded {
            Ok(bytes) => RequestModel {
                body: Some(bytes),
                headers: json_headers(request.headers),
                ..request
            },
            Err(why) => RequestModel {
                error: Some(
                    error::failure(
                        ProviderErrorKind::InvalidInput,
                        "failed to serialize json body: "@ + why,
                    ),
                ),
                ..request
            },
        }
    }
}

/// What a serializer gave, as text.
pub open spec fn encoded_of(encoded: core::result::Result<Vec<u8>, String>) -> core::result::Result<
    Seq<u8>,
    Seq<char>,
> {
    match encoded {
        Ok(bytes) => Ok(bytes@),
        Err(why) => Err(why@),
    }
}

/// Checks a header and gives its name in lower case.
pub(crate) fn checked_name(name: &str, value: &str) -> (r: Result<String>)
    ensures
        match header_failure(name@, value@) {
            Some(f) => r matches Err(e) && e@ == f,
            None => r matches Ok(lower) && headers::header_name(name@) == Some(lower@)
                && headers::header_name(lower@) == Some(lower@),
        },
{
    let lower = match headers::parse_name(name) {
        Ok(lower) => lower,
        Err(why) => {
            let message = text::concat("invalid header name: ", why.as_str());
            return Err(ProviderError::invalid_input(message.as_str()));
        },
    };
    proof {
        headers::lemma_name_is_lower(name@);
    }
    match headers::parse_value(value) {
        Ok(_) => Ok(lower),
        Err(why) => {
            let message = text::concat("invalid header value: ", why.as_str());
            Err(ProviderError::invalid_input(message.as_str()))
        },
    }
}

/// The name of the content type header is one.
pub(crate) proof fn lemma_content_type_name()
    ensures
        headers::header_name("content-type"@) == Some("content-type"@),
        headers::header_value("application/json"@),
{
    reveal_strlit("content-type");
    reveal_strlit("application/json");
    let name = "content-type"@;
    assert forall|i: int| 0 <= i < name.len() implies headers::token_char(#[trigger] name[i])
        && headers::lower_char(name[i]) == name[i] by {}
    assert(headers::lowered(name) =~= name);
}

impl Request {
    fn new(method: Method, url: String) -> (r: Self)
        ensures
            r@ == blank_request(method, url@),
    {
        Request { method, url, headers: headers::empty(), body: None, error: None }
    }

    /// Append a header. Invalid names or values are recorded as a sticky
    /// error so the chainable builder stays infallible; the error is
    /// surfaced from `send`.
    #[must_use]
    pub fn header(self, name: &str, value: &str) -> (r: Self)
        requires
            self@.error is None ==> headers::roomy(self@.headers, 1),
        ensures
            r@ == with_header(self@, name@, value@),
    {
        let mut request = self;
        if request.error.is_some() {
            return request;
        }
        match checked_name(name, value) {
            Ok(lower) => {
                let mut map = request.headers;
                let _ = headers::try_append(&mut map, lower.as_str(), value);
                request.headers = map;
            },
            Err(error) => {
                request.error = Some(error);
            },
        }
        request
    }

    /// Set the raw request body bytes.
    #[must_use]
    pub fn body(self, bytes: Vec<u8>) -> (r: Self)
        ensures
            r@ == (RequestModel { body: Some(bytes@), ..self@ }),
    {
        let mut request = self;
        request.body = Some(bytes);
        request
    }

    /// Use a value that was serialized as JSON as the body, and set
    /// `Content-Type: application/json` unless the caller has already set
    /// a `Content-Type` header. A serialization failure is stored as a
    /// sticky error and surfaced from `send`.
    #[must_use]
    pub fn json(self, encoded: core::result::Result<Vec<u8>, String>) -> (r: Self)
        requires
            self@.error is None ==> headers::roomy(self@.headers, 1),
        ensures
            r@ == with_json(self@, encoded_of(encoded)),
    {
        let mut request = self;
        if request.error.is_some() {
            return request;
        }
        match encoded {
            Ok(bytes) => {
                proof {
                    lemma_content_type_name();
                }
                request.body = Some(bytes);
                let mut map = request.headers;
                if !headers::contains(&map, "content-type") {
                    headers::insert(&mut map, "content-type", "application/json");
                }
                request.headers = map;
            },
            Err(why) => {
                let message = text::concat("failed to serialize json body: ", why.as_str());
                request.error = Some(ProviderError::invalid_input(message.as_str()));
            },
        }
        request
    }

    /// Merge pre-validated headers into this request: they take the place of
    /// those of the same name.
    pub(crate) fn extend_headers(self, more: http::HeaderMap) -> (r: Self)
        requires
            self@.error is None ==> headers::roomy(
                self@.headers,
                headers::header_contents(more).dom().len(),
            ),
        ensures
            r@ == (if self@.error is Some {
                self@
            } else {
                RequestModel {
                    headers: self@.headers.union_prefer_right(headers::header_contents(more)),
                    ..self@
                }
            }),
    {
        let mut request = self;
        if request.error.is_some() {
            return request;
        }
        let mut map = request.headers;
        headers::extend(&mut map, more);
        request.headers = map;
        request
    }

    /// Convert this request into a blob fetch. The response body lands in
    /// the host's blob cache rather than crossing the boundary, and the
    /// returned [`crate::blob::BlobRef`] can be handed to
    /// [`crate::projection::FileProjection::blob`]. A cache key is mandatory;
    /// chain [`BlobRequest::with_cache_key`] before `send`.
    pub fn into_blob(self) -> (r: BlobRequest)
        ensures
            r.request() == self@,
            r.key() is None,
    {
        BlobRequest { inner: self, cache_key: None }
    }
}

/// The failure that reports an open window.
pub open spec fn breaker_failure(key: Seq<char>, left: nat) -> Failure {
    Failure {
        retry_after: Some(left),
        ..error::failure(ProviderErrorKind::RateLimited, "endpoint breaker open for "@ + key)
    }
}

/// Why the breaker stops a send to an authority, if it does.
pub open spec fn breaker_stops(
    open: Map<Seq<char>, nat>,
    key: Option<Seq<char>>,
    now: nat,
) -> Option<Failure> {
    match key {
        Some(key) => match rate_limit::remaining(open, key, now) {
            Some(left) => Some(breaker_failure(key, left)),
            None => None,
        },
        None => None,
    }
}

/// The windows after the breaker was asked about an authority.
pub open spec fn asked(open: Map<Seq<char>, nat>, key: Option<Seq<char>>, now: nat) -> Map<
    Seq<char>,
    nat,
> {
    match key {
        Some(key) => rate_limit::checked(open, key, now),
        None => open,
    }
}

/// The failure of an open window for that authority.
fn open_breaker_error(
    key: &Option<String>,
    breaker: &mut RateLimitBreaker,
    now: Duration,
) -> (r: Option<ProviderError>)
    ensures
        failure_of(r) == breaker_stops(old(breaker)@, text::text_of(*key), now@),
        final(breaker)@ == asked(old(breaker)@, text::text_of(*key), now@),
{
    match key {
        Some(key) => match breaker.check(key.as_str(), now) {
            Some(left) => {
                let message = text::concat("endpoint breaker open for ", key.as_str());
                Some(ProviderError::rate_limited(message.as_str()).with_retry_after(Some(left)))
            },
            None => None,
        },
        None => None,
    }
}

/// The header lines of a map.
fn lower_headers(map: &http::HeaderMap) -> (r: Vec<Header>)
    requires
        headers::all_visible(headers::header_contents(*map)),
    ensures
        headers::lines_list(wire::header_lines(r@), headers::header_contents(*map)),
{
    let pairs = headers::lines(map);
    let ghost all = headers::text_pairs(pairs@);
    let ghost given = pairs@;
    let mut out: Vec<Header> = Vec::new();
    for pair in it: pairs
        invariant
            it.seq() == given,
            all == headers::text_pairs(given),
            wire::header_lines(out@) == all.take(it.index() as int),
    {
        let ghost i = it.index() as int;
        let ghost before = out@;
        assert(pair == given[i]);
        assert(all[i] == (pair.0@, pair.1@));
        let line = Header { name: pair.0, value: pair.1 };
        out.push(line);
        assert(wire::header_lines(out@) =~= wire::header_lines(before).push(all[i]));
        assert(all.take(i + 1) =~= all.take(i).push(all[i]));
    }
    assert(all.take(all.len() as int) =~= all);
    out
}

/// A request on the wire says what the request says.
pub open spec fn request_lowered(request: RequestModel, r: HttpRequest) -> bool {
    &&& r.method@ == request.method.text()
    &&& r.url@ == request.url
    &&& headers::lines_list(wire::header_lines(r.headers@), request.headers)
    &&& bytes_of(r.body) == request.body
}

/// A blob fetch on the wire says what the request says.
pub open spec fn blob_lowered(
    request: RequestModel,
    cache_key: Seq<char>,
    r: BlobFetchRequest,
) -> bool {
    &&& r.method@ == request.method.text()
    &&& r.url@ == request.url
    &&& headers::lines_list(wire::header_lines(r.headers@), request.headers)
    &&& bytes_of(r.body) == request.body
    &&& r.cache_key@ == cache_key
}

/// Why a send fails without a callout, if it does.
pub open spec fn send_failure(
    request: RequestModel,
    open: Map<Seq<char>, nat>,
    key: Option<Seq<char>>,
    now: nat,
) -> Option<Failure> {
    match request.error {
        Some(f) => Some(f),
        None => breaker_stops(open, key, now),
    }
}

/// A request that can be sent: it failed already, or all its header values
/// are visible ASCII.
pub open spec fn sendable(request: RequestModel) -> bool {
    request.error is None ==> headers::all_visible(request.headers)
}

/// What a send does: it fails at once, or it waits with one fetch to yield.
pub open spec fn sent<X>(
    request: RequestModel,
    open: Map<Seq<char>, nat>,
    key: Option<Seq<char>>,
    now: nat,
    r: CalloutFuture<Response, X>,
) -> bool {
    match send_failure(request, open, key, now) {
        Some(f) => r matches CalloutFuture::Ready(Some(Err(e))) && e@ == f,
        None => r matches CalloutFuture::Pending { callout: Some(Callout::Fetch(fetch)), .. }
            && request_lowered(request, fetch),
    }
}

impl Request {
    /// Lower the request into a `fetch` callout. Polling the returned
    /// future suspends the operation; the host executes the fetch and the
    /// resumed future yields the full response (any status, body buffered in
    /// guest memory). For large bodies use [`Self::into_blob`] so the bytes
    /// stay host-side. Fails immediately, without a callout, on a sticky
    /// builder error or an open rate-limit window for the URL's authority.
    pub fn send(self, breaker: &mut RateLimitBreaker, now: Duration) -> (r: CalloutFuture<
        Response,
        FetchReply,
    >)
        requires
            sendable(self@),
        ensures
            sent(self@, old(breaker)@, rate_limit::authority(self@.url), now@, r),
            final(breaker)@ == (if self@.error is Some {
                old(breaker)@
            } else {
                asked(old(breaker)@, rate_limit::authority(self@.url), now@)
            }),
    {
        let key = rate_limit::authority_of(self.url.as_str());
        self.send_to(key, breaker, now)
    }

    /// Like [`Self::send`], for a URL whose authority is known.
    pub fn send_to(
        self,
        key: Option<String>,
        breaker: &mut RateLimitBreaker,
        now: Duration,
    ) -> (r: CalloutFuture<Response, FetchReply>)
        requires
            sendable(self@),
        ensures
            sent(self@, old(breaker)@, text::text_of(key), now@, r),
            final(breaker)@ == (if self@.error is Some {
                old(breaker)@
            } else {
                asked(old(breaker)@, text::text_of(key), now@)
            }),
    {
        if let Some(error) = self.error {
            return CalloutFuture::ready_error(error);
        }
        // Proactive breaker: if this authority is in an open 429 window,
        // fast-fail without issuing the callout. This lives at the lowest
        // HTTP layer so raw sends inherit it, not only typed endpoints.
        if let Some(error) = open_breaker_error(&key, breaker, now) {
            return CalloutFuture::ready_error(error);
        }
        let request = HttpRequest {
            method: self.method.as_str().to_owned(),
            url: self.url,
            headers: lower_headers(&self.headers),
            body: self.body,
        };
        CalloutFuture::new(Callout::Fetch(request), FetchReply)
    }
}

/// A `fetch-blob` callout under construction: an HTTP fetch whose response
/// body stays in the host blob cache. Created via [`Request::into_blob`].
#[must_use]
pub struct BlobRequest {
    inner: Request,
    cache_key: Option<String>,
}

/// Why a blob fetch fails without a callout, if it does.
pub open spec fn blob_send_failure(
    request: RequestModel,
    cache_key: Option<Seq<char>>,
    open: Map<Seq<char>, nat>,
    key: Option<Seq<char>>,
    now: nat,
) -> Option<Failure> {
    match request.error {
        Some(f) => Some(f),
        None => if cache_key is None {
            Some(
                error::failure(
                    ProviderErrorKind::InvalidInput,
                    "blob fetch requires a cache key (call .with_cache_key)"@,
                ),
            )
        } else {
            breaker_stops(open, key, now)
        },
    }
}

/// What a blob fetch does: it fails at once, or it waits with one fetch to
/// yield.
pub open spec fn blob_sent<T, X>(
    request: RequestModel,
    cache_key: Option<Seq<char>>,
    open: Map<Seq<char>, nat>,
    key: Option<Seq<char>>,
    now: nat,
    r: CalloutFuture<T, X>,
) -> bool {
    match blob_send_failure(request, cache_key, open, key, now) {
        Some(f) => r matches CalloutFuture::Ready(Some(Err(e))) && e@ == f,
        None => r matches CalloutFuture::Pending { callout: Some(Callout::FetchBlob(fetch)), .. }
            && blob_lowered(request, cache_key->0, fetch),
    }
}

impl BlobRequest {
    /// The request that fetches the blob.
    pub closed spec fn request(&self) -> RequestModel {
        self.inner@
    }

    /// The deduplication key, if one was set.
    pub closed spec fn key(&self) -> Option<Seq<char>> {
        text::text_of(self.cache_key)
    }

    pub fn header(self, name: &str, value: &str) -> (r: Self)
        requires
            self.request().error is None ==> headers::roomy(self.request().headers, 1),
        ensures
            r.request() == with_header(self.request(), name@, value@),
            r.key() == self.key(),
    {
        BlobRequest { inner: self.inner.header(name, value), cache_key: self.cache_key }
    }

    pub fn body(self, bytes: Vec<u8>) -> (r: Self)
        ensures
            r.request() == (RequestModel { body: Some(bytes@), ..self.request() }),
            r.key() == self.key(),
    {
        BlobRequest { inner: self.inner.body(bytes), cache_key: self.cache_key }
    }

    /// Provider-scoped deduplication key, required before `send`. Two
    /// requests from the same provider using the same key share one blob and
    /// one upstream fetch; different providers never collide on a key. Embed
    /// everything that distinguishes the content (id, version, variant) in
    /// the key, or stale bytes will be served for the colliding request.
    pub fn with_cache_key(self, key: String) -> (r: Self)
        ensures
            r.request() == self.request(),
            r.key() == Some(key@),
    {
        BlobRequest { inner: self.inner, cache_key: Some(key) }
    }

    /// Lower into a `fetch-blob` callout. Resolves to a
    /// [`crate::blob::BlobRef`] carrying metadata only; the body is on the
    /// host's disk. Fails immediately when no cache key was set, on a sticky
    /// builder error, or when the authority's rate-limit window is open.
    /// Note the `BlobRef` carries the upstream status: chain
    /// [`crate::blob::BlobRef::error_for_status`] for the default mapping.
    pub fn send(self, breaker: &mut RateLimitBreaker, now: Duration) -> (r: CalloutFuture<
        crate::blob::BlobRef,
        BlobReply,
    >)
        requires
            self.key() is Some ==> sendable(self.request()),
        ensures
            blob_sent(
                self.request(),
                self.key(),
                old(breaker)@,
                rate_limit::authority(self.request().url),
                now@,
                r,
            ),
            final(breaker)@ == (if self.request().error is Some || self.key() is None {
                old(breaker)@
            } else {
                asked(old(breaker)@, rate_limit::authority(self.request().url), now@)
            }),
    {
        let key = rate_limit::authority_of(self.inner.url.as_str());
        self.send_to(key, breaker, now)
    }

    /// Like [`Self::send`], for a URL whose authority is known.
    pub fn send_to(
        self,
        key: Option<String>,
        breaker: &mut RateLimitBreaker,
        now: Duration,
    ) -> (r: CalloutFuture<crate::blob::BlobRef, BlobReply>)
        requires
            self.key() is Some ==> sendable(self.request()),
        ensures
            blob_sent(
                self.request(),
                self.key(),
                old(breaker)@,
                text::text_of(key),
                now@,
                r,
            ),
            final(breaker)@ == (if self.request().error is Some || self.key() is None {
                old(breaker)@
            } else {
                asked(old(breaker)@, text::text_of(key), now@)
            }),
    {
        let inner = self.inner;
        if let Some(error) = inner.error {
            return CalloutFuture::ready_error(error);
        }
        let cache_key = match self.cache_key {
            Some(cache_key) => cache_key,
            None => {
                return CalloutFuture::ready_error(
                    ProviderError::invalid_input(
                        "blob fetch requires a cache key (call .with_cache_key)",
                    ),
                );
            },
        };
        // Blob fetches are HTTP callouts too, so the endpoint breaker must
        // short-circuit before the host starts fetching bytes into the cache.
        if let Some(error) = open_breaker_error(&key, breaker, now) {
            return CalloutFuture::ready_error(error);
        }
        let request = BlobFetchRequest {
            method: inner.method.as_str().to_owned(),
            url: inner.url,
            headers: lower_headers(&inner.headers),
            body: inner.body,
            cache_key,
        };
        CalloutFuture::new(Callout::FetchBlob(request), BlobReply)
    }
}

/// An HTTP response.
pub struct Response {
    status: u16,
    headers: http::HeaderMap,
    body: Vec<u8>,
}

/// What a [`Response`] says.
pub struct ResponseModel {
    pub status: u16,
    pub headers: Map<Seq<char>, Seq<Seq<char>>>,
    pub body: Seq<u8>,
}

impl View for Response {
    type V = ResponseModel;

    closed spec fn view(&self) -> ResponseModel {
        ResponseModel {
            status: self.status,
            headers: headers::header_contents(self.headers),
            body: self.body@,
        }
    }
}

/// `http::StatusCode::from_u16`: the codes from 100 to 999 are accepted,
/// anything else rejected with a fixed message.
#[verifier::external_body]
fn check_status(code: u16) -> (r: core::result::Result<(), String>)
    ensures
        r is Ok == (100 <= code <= 999),
        r matches Err(e) ==> e@ == "invalid status code"@,
{
    match http::StatusCode::from_u16(code) {
        Ok(_) => Ok(()),
        Err(e) => Err(e.to_string()),
    }
}

/// The headers that the first `n` lines give; malformed lines are dropped.
pub open spec fn headers_read(lines: Seq<(Seq<char>, Seq<char>)>, n: nat) -> Map<
    Seq<char>,
    Seq<Seq<char>>,
>
    decreases n,
{
    if n == 0 {
        headers::no_headers()
    } else {
        let before = headers_read(lines, (n - 1) as nat);
        let (name, value) = lines[n - 1];
        match headers::header_name(name) {
            Some(lower) => if headers::header_value(value) {
                headers::appended(before, lower, value)
            } else {
                before
            },
            None => before,
        }
    }
}

proof fn lemma_headers_read_room(lines: Seq<(Seq<char>, Seq<char>)>, n: nat)
    ensures
        headers_read(lines, n).dom().finite(),
        headers_read(lines, n).dom().len() <= n,
    decreases n,
{
    if n > 0 {
        lemma_headers_read_room(lines, (n - 1) as nat);
    }
}

/// What reading a host's response gives: malformed headers are dropped rather
/// than failing the whole response, since status and body are the
/// load-bearing fields. Only a response with more header lines than a map is
/// sure to hold may fail for them.
pub open spec fn response_read(resp: wire::HttpResponse, r: Result<Response>) -> bool {
    let lines = wire::header_lines(resp.headers@);
    if !(100 <= resp.status <= 999) {
        r matches Err(e) && e@ == error::failure(
            ProviderErrorKind::Internal,
            "invalid response status: "@ + "invalid status code"@,
        )
    } else {
        match r {
            Ok(out) => out@ == (ResponseModel {
                status: resp.status,
                headers: headers_read(lines, lines.len()),
                body: resp.body@,
            }),
            Err(e) => lines.len() > 6554 && e@ == error::failure(
                ProviderErrorKind::Internal,
                "response builder: "@ + "max size reached"@,
            ),
        }
    }
}

impl Response {
    /// Reads a response that the host received.
    pub fn from_wire(resp: wire::HttpResponse) -> (r: Result<Self>)
        ensures
            response_read(resp, r),
    {
        let ghost lines = wire::header_lines(resp.headers@);
        if let Err(why) = check_status(resp.status) {
            let message = text::concat("invalid response status: ", why.as_str());
            return Err(ProviderError::internal(message.as_str()));
        }
        let mut map = headers::empty();
        let mut i: usize = 0;
        while i < resp.headers.len()
            invariant
                i <= resp.headers@.len(),
                100 <= resp.status <= 999,
                lines == wire::header_lines(resp.headers@),
                headers::header_contents(map) == headers_read(lines, i as nat),
            decreases resp.headers@.len() - i,
        {
            let line = &resp.headers[i];
            assert(lines[i as int] == (line.name@, line.value@));
            if let Ok(lower) = checked_name(line.name.as_str(), line.value.as_str()) {
                proof {
                    lemma_headers_read_room(lines, i as nat);
                }
                if let Err(why) = headers::try_append(
                    &mut map,
                    lower.as_str(),
                    line.value.as_str(),
                ) {
                    let message = text::concat("response builder: ", why.as_str());
                    return Err(ProviderError::internal(message.as_str()));
                }
            }
            i = i + 1;
        }
        Ok(Response { status: resp.status, headers: map, body: resp.body })
    }

    pub fn status(&self) -> (r: u16)
        ensures
            r == self@.status,
    {
        self.status
    }

    /// The first value of a header, if it is visible ASCII.
    pub fn header(&self, name: &str) -> (r: Option<String>)
        ensures
            text::text_of(r) == headers::named_text(self@.headers, name@),
    {
        headers::get(&self.headers, name)
    }

    pub fn body(&self) -> (r: &[u8])
        ensures
            r@ == self@.body,
    {
        self.body.as_slice()
    }

    pub fn into_body(self) -> (r: Vec<u8>)
        ensures
            r@ == self@.body,
    {
        self.body
    }
}

/// The error that a response's status stands for, if it is one. A 429 carries
/// its `Retry-After`: the delta-seconds form as structured backoff too, while
/// an HTTP-date stays in the message only.
pub open spec fn status_failure(resp: ResponseModel) -> Option<Failure> {
    if !(400 <= resp.status < 600) {
        None
    } else if resp.status != 429 {
        Some(
            error::failure(
                error::status_kind(resp.status),
                "HTTP "@ + text::decimal(resp.status as nat),
            ),
        )
    } else {
        match headers::named_text(resp.headers, "retry-after"@) {
            Some(value) => Some(
                Failure {
                    retry_after: rate_limit::retry_span(value),
                    ..error::failure(
                        ProviderErrorKind::RateLimited,
                        "HTTP 429; retry_after="@ + value,
                    )
                },
            ),
            None => Some(error::failure(ProviderErrorKind::RateLimited, "HTTP 429"@)),
        }
    }
}

/// Default 4xx/5xx mapping to `ProviderError`.
pub trait ResponseExt: Sized {
    /// The error that the status stands for, if it is one.
    spec fn failing(&self) -> Option<Failure>;

    fn error_for_status(self) -> (r: Result<Self>)
        ensures
            match self.failing() {
                Some(f) => r matches Err(e) && e@ == f,
                None => r == Ok::<Self, ProviderError>(self),
            },
    ;

    /// Same check as `error_for_status` without consuming the response.
    /// Use when custom mapping (rate-limit detection, retry signals)
    /// needs to inspect the body or headers on the error path.
    fn error_for_status_ref(&self) -> (r: Result<()>)
        ensures
            match self.failing() {
                Some(f) => r matches Err(e) && e@ == f,
                None => r is Ok,
            },
    ;
}

impl ResponseExt for Response {
    open spec fn failing(&self) -> Option<Failure> {
        status_failure(self@)
    }

    fn error_for_status(self) -> (r: Result<Self>) {
        match self.error_for_status_ref() {
            Ok(_) => Ok(self),
            Err(e) => Err(e),
        }
    }

    fn error_for_status_ref(&self) -> (r: Result<()>) {
        if self.status < 400 || self.status >= 600 {
            return Ok(());
        }
        if self.status != 429 {
            return Err(ProviderError::from_http_status(self.status));
        }
        match headers::get(&self.headers, "retry-after") {
            Some(value) => {
                let message = text::concat("HTTP 429; retry_after=", value.as_str());
                let span = rate_limit::parse_retry_after_secs(value.as_str());
                Err(ProviderError::rate_limited(message.as_str()).with_retry_after(span))
            },
            None => Err(ProviderError::rate_limited("HTTP 429").with_retry_after(None)),
        }
    }
}

/// The failure that reports a result of another kind.
pub open spec fn unexpected(kind: Seq<char>) -> Failure {
    error::failure(ProviderErrorKind::Internal, "unexpected callout result for "@ + kind)
}

/// The failure that a failed callout stands for.
pub open spec fn callout_failure(e: wire::CalloutError) -> Failure {
    error::failure(ProviderErrorKind::raised(e.kind), "callout error: "@ + e.message@)
}

pub(crate) fn unexpected_result(kind: &str) -> (r: ProviderError)
    ensures
        r@ == unexpected(kind@),
{
    ProviderError::internal(text::concat("unexpected callout result for ", kind).as_str())
}

/// Reads the result of one kind of callout. A failed callout is its error,
/// and a result of another kind an error that names the kind.
pub trait Extract<T>: Sized {
    /// What reading a result gives.
    spec fn extracted(result: CalloutResult, r: Result<T>) -> bool;

    fn extract(&self, result: CalloutResult) -> (r: Result<T>)
        ensures
            Self::extracted(result, r),
    ;
}

/// Reads the result of a fetch.
pub struct FetchReply;

impl Extract<Response> for FetchReply {
    open spec fn extracted(result: CalloutResult, r: Result<Response>) -> bool {
        match result {
            CalloutResult::CalloutError(e) => r matches Err(e2) && e2@ == callout_failure(e),
            CalloutResult::HttpResponse(resp) => response_read(resp, r),
            _ => r matches Err(e) && e@ == unexpected("fetch"@),
        }
    }

    fn extract(&self, result: CalloutResult) -> (r: Result<Response>) {
        match result {
            CalloutResult::CalloutError(e) => Err(ProviderError::from_callout_error(e)),
            CalloutResult::HttpResponse(resp) => Response::from_wire(resp),
            _ => Err(unexpected_result("fetch")),
        }
    }
}

/// The future shape of every callout (fetch, fetch-blob, read-blob,
/// git-open-repo).
///
/// Protocol: the first poll pushes the callout onto the operation's yield
/// queue and returns `Pending`; the runtime suspends the operation and hands
/// the queued batch to the host. After the host resumes the operation with
/// results in batch order, the next poll pops exactly one result from the
/// delivery queue and maps it through `extract`.
///
/// Invariant: one callout yielded, one result consumed, per suspension.
/// Results carry no correlation ids, so alignment is purely positional;
/// this is the contract [`crate::cx::join_all`] relies on to fan out
/// siblings in a single suspension round. `Ready` short-circuits builder
/// and breaker errors without touching the queues.
pub enum CalloutFuture<T, X> {
    Pending { callout: Option<Callout>, extract: X },
    Ready(Option<Result<T>>),
}

impl<T, X> CalloutFuture<T, X> {
    pub fn new(callout: Callout, extract: X) -> (r: Self)
        ensures
            r == (CalloutFuture::<T, X>::Pending { callout: Some(callout), extract }),
    {
        CalloutFuture::Pending { callout: Some(callout), extract }
    }

    pub fn ready_error(error: ProviderError) -> (r: Self)
        ensures
            r == CalloutFuture::<T, X>::Ready(Some(Err(error))),
    {
        CalloutFuture::Ready(Some(Err(error)))
    }
}

impl<T, X: Extract<T>> CalloutTask for CalloutFuture<T, X> {
    type Output = Result<T>;

    open spec fn finishes(
        before: Self,
        cx: CxModel,
        cx_after: CxModel,
        output: Result<T>,
    ) -> bool {
        match before {
            CalloutFuture::Ready(Some(result)) => output == result && cx_after == cx,
            CalloutFuture::Pending { callout: None, extract } => {
                &&& cx.delivered.len() > 0
                &&& cx_after == (CxModel { delivered: cx.delivered.drop_first(), ..cx })
                &&& X::extracted(cx.delivered[0], output)
            },
            _ => false,
        }
    }

    open spec fn suspends(before: Self, cx: CxModel, after: Self, cx_after: CxModel) -> bool {
        match before {
            CalloutFuture::Ready(Some(_)) => false,
            CalloutFuture::Ready(None) => after == before && cx_after == cx,
            CalloutFuture::Pending { callout: Some(callout), extract } => {
                &&& after == (CalloutFuture::<T, X>::Pending { callout: None, extract })
                &&& cx_after == (CxModel { yielded: cx.yielded.push(callout), ..cx })
            },
            CalloutFuture::Pending { callout: None, extract } => {
                &&& cx.delivered.len() == 0
                &&& after == before
                &&& cx_after == cx
            },
        }
    }

    fn poll(&mut self, cx: &mut CxShared) -> (r: Polled<Result<T>>) {
        match self {
            CalloutFuture::Ready(slot) => match slot.take() {
                Some(result) => Polled::Ready(result),
                None => Polled::Pending,
            },
            CalloutFuture::Pending { callout, extract } => {
                if let Some(callout) = callout.take() {
                    cx.push_yielded(callout);
                    return Polled::Pending;
                }
                match cx.pop_delivered() {
                    Some(result) => Polled::Ready(extract.extract(result)),
                    None => Polled::Pending,
                }
            },
        }
    }
}

/// The future waits with this callout to yield.
pub open spec fn waits_with<T, X>(future: CalloutFuture<T, X>, callout: Callout) -> bool {
    future matches CalloutFuture::Pending { callout: Some(c), .. } && c == callout
}

/// The future has yielded its callout and waits for the result.
pub open spec fn awaits<T, X>(child: Child<CalloutFuture<T, X>, Result<T>>) -> bool {
    child matches Child::Running(CalloutFuture::Pending { callout: None, .. })
}

/// The first poll of a fan-out yields the callouts of all children in one
/// batch, in input order, and every child then waits for its result.
pub proof fn law_fan_out_yields_one_batch<T, X: Extract<T>>(
    futures: Seq<CalloutFuture<T, X>>,
    callouts: Seq<Callout>,
    cx: CxModel,
    after: Seq<Child<CalloutFuture<T, X>, Result<T>>>,
    cx_after: CxModel,
    r: Polled<Seq<Result<T>>>,
    polled: Seq<Child<CalloutFuture<T, X>, Result<T>>>,
    queues: Seq<CxModel>,
)
    requires
        futures.len() > 0,
        callouts.len() == futures.len(),
        forall|i: int|
            0 <= i < futures.len() ==> waits_with(#[trigger] futures[i], callouts[i]),
        cx::join_polled(cx::running(futures), cx, after, cx_after, r, polled, queues),
    ensures
        r is Pending,
        cx_after == (CxModel { yielded: cx.yielded + callouts, ..cx }),
        after.len() == futures.len(),
        forall|i: int| 0 <= i < after.len() ==> awaits(#[trigger] after[i]),
{
    let before = cx::running(futures);
    lemma_batch(futures, callouts, cx, polled, queues, futures.len());
    assert(callouts.take(callouts.len() as int) =~= callouts);
    assert forall|i: int| 0 <= i < polled.len() implies awaits(#[trigger] polled[i]) by {
        assert(waits_with(futures[i], callouts[i]));
        assert(before[i] == Child::<CalloutFuture<T, X>, Result<T>>::Running(futures[i]));
        assert(cx::child_polled(before[i], queues[i], polled[i], queues[i + 1]));
    }
    assert(awaits(polled[0]));
}

/// The queues after the first `n` children of a fan-out were polled first.
proof fn lemma_batch<T, X: Extract<T>>(
    futures: Seq<CalloutFuture<T, X>>,
    callouts: Seq<Callout>,
    cx: CxModel,
    polled: Seq<Child<CalloutFuture<T, X>, Result<T>>>,
    queues: Seq<CxModel>,
    n: nat,
)
    requires
        n <= futures.len(),
        callouts.len() == futures.len(),
        forall|i: int|
            0 <= i < futures.len() ==> waits_with(#[trigger] futures[i], callouts[i]),
        queues[0] == cx,
        polled.len() == futures.len(),
        cx::round(cx::running(futures), polled, queues, futures.len() as int),
    ensures
        queues[n as int] == (CxModel { yielded: cx.yielded + callouts.take(n as int), ..cx }),
    decreases n,
{
    if n == 0 {
        assert(cx.yielded + callouts.take(0) =~= cx.yielded);
    } else {
        let i = n - 1;
        lemma_batch(futures, callouts, cx, polled, queues, i as nat);
        let before = cx::running(futures);
        assert(waits_with(futures[i], callouts[i]));
        assert(before[i] == Child::<CalloutFuture<T, X>, Result<T>>::Running(futures[i]));
        assert(cx::child_polled(before[i], queues[i], polled[i], queues[i + 1]));
        assert(cx.yielded + callouts.take(n as int) =~= (cx.yielded + callouts.take(i)).push(
            callouts[i],
        ));
    }
}

/// Once the host has delivered a result for each child, the next poll of a
/// fan-out hands over what each child reads from the result in its own
/// position, and takes exactly those results from the queue.
pub proof fn law_fan_out_results_in_order<T, X: Extract<T>>(
    children: Seq<Child<CalloutFuture<T, X>, Result<T>>>,
    cx: CxModel,
    after: Seq<Child<CalloutFuture<T, X>, Result<T>>>,
    cx_after: CxModel,
    r: Polled<Seq<Result<T>>>,
    polled: Seq<Child<CalloutFuture<T, X>, Result<T>>>,
    queues: Seq<CxModel>,
)
    requires
        forall|i: int| 0 <= i < children.len() ==> awaits(#[trigger] children[i]),
        cx.delivered.len() >= children.len(),
        cx::join_polled(children, cx, after, cx_after, r, polled, queues),
    ensures
        r matches Polled::Ready(values) && values.len() == children.len() && forall|i: int|
            0 <= i < values.len() ==> X::extracted(cx.delivered[i], #[trigger] values[i]),
        cx_after == (CxModel { delivered: cx.delivered.skip(children.len() as int), ..cx }),
{
    lemma_deliveries(children, cx, polled, queues, children.len());
    assert forall|i: int| 0 <= i < polled.len() implies (#[trigger] polled[i]) is Finished
        && X::extracted(cx.delivered[i], polled[i]->Finished_0) by {
        lemma_deliveries(children, cx, polled, queues, i as nat);
        assert(awaits(children[i]));
        assert(cx::child_polled(children[i], queues[i], polled[i], queues[i + 1]));
        assert(cx.delivered.skip(i)[0] == cx.delivered[i]);
    }
    assert(cx::all_finished(polled));
}

/// The queues after the first `n` waiting children were polled.
proof fn lemma_deliveries<T, X: Extract<T>>(
    children: Seq<Child<CalloutFuture<T, X>, Result<T>>>,
    cx: CxModel,
    polled: Seq<Child<CalloutFuture<T, X>, Result<T>>>,
    queues: Seq<CxModel>,
    n: nat,
)
    requires
        n <= children.len(),
        forall|i: int| 0 <= i < children.len() ==> awaits(#[trigger] children[i]),
        cx.delivered.len() >= children.len(),
        queues[0] == cx,
        polled.len() == children.len(),
        cx::round(children, polled, queues, children.len() as int),
    ensures
        queues[n as int] == (CxModel { delivered: cx.delivered.skip(n as int), ..cx }),
    decreases n,
{
    if n == 0 {
        assert(cx.delivered.skip(0) =~= cx.delivered);
    } else {
        let i = n - 1;
        lemma_deliveries(children, cx, polled, queues, i as nat);
        assert(awaits(children[i]));
        assert(cx::child_polled(children[i], queues[i], polled[i], queues[i + 1]));
        assert(cx.delivered.skip(i).drop_first() =~= cx.delivered.skip(n as int));
    }
}

} // verus!

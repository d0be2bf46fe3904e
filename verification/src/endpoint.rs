//! Typed outbound endpoints.
//!
//! A provider declares each upstream host once as an [`Endpoint`] and reaches
//! it through an [`EndpointHandle`]. The handle builds requests whose `path`
//! is relative to [`Endpoint::base`]; the URL is formed via
//! [`crate::http_endpoint::HttpEndpoint`] and the request lowered onto the
//! [`crate::fetch`] callout machinery, so the handler is suspended while the
//! host runs the fetch. [`RequestBuilder::start`] gives the future to poll
//! and an [`Exchange`], which turns the response into an answer.
//!
//! Pick the terminal by what the response status means for the route:
//!
//! - Object layer, 3-state: [`Exchange::load_with`] maps 200 to
//!   [`Load::Fresh`], 304 to [`Load::Unchanged`], and 404 to
//!   [`Load::NotFound`]. Pair it with
//!   [`RequestBuilder::maybe_if_none_match`] so the host-pushed validator
//!   becomes `If-None-Match` and an unchanged object costs no body transfer.
//!   [`Exchange::conditional_json`] is the listing-revalidation analogue (no
//!   `NotFound` arm).
//! - Structural layer, 2-state: [`Exchange::json`] and
//!   [`Exchange::send_checked`] return the value or error on any 4xx/5xx,
//!   including 404. Use these when "missing" is not a meaningful outcome for
//!   the route.
//!
//! Never set `Authorization` or any other credential header here. Auth is
//! host-managed: the host materializes the header into matching requests
//! after the callout leaves the guest. Default headers are for static
//! metadata such as `User-Agent` and `Accept`.
//!
//! Every send participates in the per-authority rate-limit breaker: a 429
//! arms a cooldown for the URL's authority (honoring `Retry-After`, else the
//! endpoint's [`RateLimitPolicy`]), and later sends to that authority
//! fast-fail in-guest until the window passes.

use core::marker::PhantomData;
use vstd::prelude::*;
use vstd::string::*;

use crate::blob;
use crate::blob::{BlobId, BlobRef, BlobReply};
use crate::error;
use crate::error::{Failure, ProviderError, ProviderErrorKind, Result};
use crate::fetch;
use crate::fetch::{Builder, CalloutFuture, FetchReply, Method, Request, RequestModel, Response, ResponseExt, ResponseModel};
use crate::file_attrs::VersionToken;
use crate::headers;
use crate::http_endpoint;
use crate::http_endpoint::HttpEndpoint;
use crate::object::{Canonical, Load};
use crate::rate_limit;
use crate::rate_limit::RateLimitBreaker;
use crate::text;
use crate::time::Duration;

verus! {

/// Per-endpoint rate-limit policy. `Default` uses the breaker's default
/// cooldown when a 429 carries no `Retry-After`; `Cooldown` overrides that
/// default; `Off` opts the endpoint out of arming the breaker entirely. The
/// pre-send check still runs under `Off`, so a window armed by another
/// endpoint on the same authority still fast-fails this one.
#[derive(Clone, Copy, Debug)]
pub enum RateLimitPolicy {
    Default,
    Cooldown(Duration),
    Off,
}

/// An outbound host a provider talks to over HTTP. Credential headers are
/// never declared here; the host injects them (see the module docs).
pub trait Endpoint {
    /// The base URL as text.
    open spec fn base_text() -> Seq<char> {
        vstd::pervasive::arbitrary()
    }

    /// The default headers as text.
    open spec fn header_defaults() -> Seq<(Seq<char>, Seq<char>)> {
        Seq::empty()
    }

    /// The rate-limit policy.
    open spec fn policy() -> RateLimitPolicy {
        RateLimitPolicy::Default
    }

    /// Base URL request paths resolve against, such as
    /// `https://api.example.com`. A `unix:///absolute/socket/path` base
    /// routes through the host's Unix-socket HTTP executor (see
    /// [`crate::http_endpoint::HttpEndpoint`]).
    fn base() -> (r: &'static str)
        ensures
            r@ == Self::base_text(),
    ;

    /// Headers applied to every request to this endpoint before any
    /// per-request header, so a builder's `.header(..)` can still override.
    fn default_headers() -> (r: Vec<(&'static str, &'static str)>)
        ensures
            http_endpoint::query_pairs(r@) == Self::header_defaults(),
    ;

    /// How a 429 from this endpoint arms the per-authority breaker.
    fn rate_limit_policy() -> (r: RateLimitPolicy)
        ensures
            r == Self::policy(),
    ;
}

/// A typed handle to a declared [`Endpoint`].
#[verifier::reject_recursive_types(E)]
pub struct EndpointHandle<E> {
    endpoint: PhantomData<E>,
}

impl<E: Endpoint> EndpointHandle<E> {
    pub fn new() -> (r: Self) {
        EndpointHandle { endpoint: PhantomData }
    }

    /// Begin a GET request to `path` (relative to `E::base()`).
    pub fn get(&self, path: String) -> (r: RequestBuilder<E>)
        ensures
            r@ == blank_builder(Method::Get, path@),
    {
        RequestBuilder::new(Method::Get, path)
    }

    /// Begin a POST request to `path` (relative to `E::base()`).
    pub fn post(&self, path: String) -> (r: RequestBuilder<E>)
        ensures
            r@ == blank_builder(Method::Post, path@),
    {
        RequestBuilder::new(Method::Post, path)
    }
}

/// A builder for one request against an [`Endpoint`]. The URL is formed when
/// the request is started by combining `E::base()`, the relative `path`, and
/// the collected query pairs through [`HttpEndpoint::build_url`].
#[verifier::reject_recursive_types(E)]
pub struct RequestBuilder<E> {
    method: Method,
    path: String,
    query: Vec<(String, String)>,
    headers: http::HeaderMap,
    body: Option<Vec<u8>>,
    body_is_json: bool,
    /// Deferred header- or body-serialization failure. Neither `.header(..)`
    /// nor `.body_json(..)` can return `Result` without breaking the builder
    /// chain, so they record the first error here and the start surfaces it
    /// instead of sending a malformed request.
    body_error: Option<ProviderError>,
    if_none_match: Option<String>,
    endpoint: PhantomData<E>,
}

/// What a [`RequestBuilder`] has collected.
#[verifier::ext_equal]
pub struct BuilderModel {
    pub method: Method,
    pub path: Seq<char>,
    pub query: Seq<(Seq<char>, Seq<char>)>,
    pub headers: Map<Seq<char>, Seq<Seq<char>>>,
    pub body: Option<Seq<u8>>,
    pub body_is_json: bool,
    pub error: Option<Failure>,
    pub if_none_match: Option<Seq<char>>,
}

impl<E> View for RequestBuilder<E> {
    type V = BuilderModel;

    closed spec fn view(&self) -> BuilderModel {
        BuilderModel {
            method: self.method,
            path: self.path@,
            query: headers::text_pairs(self.query@),
            headers: headers::header_contents(self.headers),
            body: fetch::bytes_of(self.body),
            body_is_json: self.body_is_json,
            error: fetch::failure_of(self.body_error),
            if_none_match: text::text_of(self.if_none_match),
        }
    }
}

/// A builder that has collected nothing.
pub open spec fn blank_builder(method: Method, path: Seq<char>) -> BuilderModel {
    BuilderModel {
        method,
        path,
        query: Seq::empty(),
        headers: headers::no_headers(),
        body: None,
        body_is_json: false,
        error: None,
        if_none_match: None,
    }
}

/// A builder with one more header, or with the first error it met.
pub open spec fn builder_header(
    builder: BuilderModel,
    name: Seq<char>,
    value: Seq<char>,
) -> BuilderModel {
    if builder.error is Some {
        builder
    } else {
        match fetch::header_failure(name, value) {
            Some(f) => BuilderModel { error: Some(f), ..builder },
            None => BuilderModel {
                headers: headers::appended(
                    builder.headers,
                    headers::header_name(name)->0,
                    value,
                ),
                ..builder
            },
        }
    }
}

/// A builder with a JSON body, or with the first error it met.
pub open spec fn builder_json(
    builder: BuilderModel,
    encoded: core::result::Result<Seq<u8>, Seq<char>>,
) -> BuilderModel {
    match encoded {
        Ok(bytes) => BuilderModel { body: Some(bytes), body_is_json: true, ..builder },
        Err(why) => if builder.error is Some {
            builder
        } else {
            BuilderModel {
                error: Some(
                    error::failure(
                        ProviderErrorKind::InvalidInput,
                        "json body serialize: "@ + why,
                    ),
                ),
                ..builder
            }
        },
    }
}

/// The URL that a request goes to.
pub open spec fn request_url<E: Endpoint>(builder: BuilderModel) -> Seq<char> {
    http_endpoint::url_head(http_endpoint::endpoint_of(E::base_text())) + http_endpoint::url_tail(
        builder.path,
        http_endpoint::query_text(builder.query),
    )
}

/// A request with the first `n` default headers.
pub open spec fn with_defaults(
    request: RequestModel,
    defaults: Seq<(Seq<char>, Seq<char>)>,
    n: nat,
) -> RequestModel
    decreases n,
{
    if n == 0 {
        request
    } else {
        fetch::with_header(
            with_defaults(request, defaults, (n - 1) as nat),
            defaults[n - 1].0,
            defaults[n - 1].1,
        )
    }
}

/// A request with the builder's own headers in place of those of the same
/// name.
pub open spec fn with_own_headers(
    request: RequestModel,
    own: Map<Seq<char>, Seq<Seq<char>>>,
) -> RequestModel {
    if request.error is Some {
        request
    } else {
        RequestModel { headers: request.headers.union_prefer_right(own), ..request }
    }
}

/// A request with the validator to compare with.
pub open spec fn with_condition(request: RequestModel, token: Option<Seq<char>>) -> RequestModel {
    match token {
        Some(token) => fetch::with_header(request, "if-none-match"@, token),
        None => request,
    }
}

/// A request with the builder's body.
pub open spec fn with_body(
    request: RequestModel,
    body: Option<Seq<u8>>,
    is_json: bool,
) -> RequestModel {
    match body {
        Some(bytes) => {
            let typed = if is_json {
                fetch::with_header(request, "content-type"@, "application/json"@)
            } else {
                request
            };
            RequestModel { body: Some(bytes), ..typed }
        },
        None => request,
    }
}

/// The raw request that a builder becomes: endpoint defaults first, so a
/// per-request header overrides, then the condition and the body.
pub open spec fn raw_request<E: Endpoint>(builder: BuilderModel) -> RequestModel {
    with_body(
        with_condition(
            with_own_headers(
                with_defaults(
                    fetch::blank_request(builder.method, request_url::<E>(builder)),
                    E::header_defaults(),
                    E::header_defaults().len(),
                ),
                builder.headers,
            ),
            builder.if_none_match,
        ),
        builder.body,
        builder.body_is_json,
    )
}

/// There is room for all the headers of the raw request.
pub open spec fn fits<E: Endpoint>(builder: BuilderModel) -> bool {
    headers::roomy(builder.headers, E::header_defaults().len() + 2)
}

/// Default headers take at most one place each.
proof fn lemma_defaults_room(
    request: RequestModel,
    defaults: Seq<(Seq<char>, Seq<char>)>,
    n: nat,
    more: nat,
)
    requires
        headers::roomy(request.headers, n + more),
    ensures
        headers::roomy(with_defaults(request, defaults, n).headers, more),
    decreases n,
{
    if n > 0 {
        lemma_defaults_room(request, defaults, (n - 1) as nat, more + 1);
        let before = with_defaults(request, defaults, (n - 1) as nat);
        let (name, value) = defaults[n - 1];
        if before.error is None && fetch::header_failure(name, value) is None {
            headers::lemma_appended_room(
                before.headers,
                headers::header_name(name)->0,
                value,
                more,
            );
        }
    }
}

/// A header takes at most one place.
proof fn lemma_header_room(request: RequestModel, name: Seq<char>, value: Seq<char>, more: nat)
    requires
        headers::roomy(request.headers, more + 1),
    ensures
        headers::roomy(fetch::with_header(request, name, value).headers, more),
{
    if request.error is None && fetch::header_failure(name, value) is None {
        headers::lemma_appended_room(
            request.headers,
            headers::header_name(name)->0,
            value,
            more,
        );
    }
}

/// Merged headers take at most the places of both.
proof fn lemma_own_room(request: RequestModel, own: Map<Seq<char>, Seq<Seq<char>>>, more: nat)
    requires
        own.dom().finite(),
        headers::roomy(request.headers, own.dom().len() + more),
    ensures
        headers::roomy(with_own_headers(request, own).headers, more),
{
    let merged = request.headers.union_prefer_right(own);
    assert(merged.dom() =~= request.headers.dom().union(own.dom()));
    vstd::set_lib::lemma_set_union_finite_iff(request.headers.dom(), own.dom());
    vstd::set_lib::lemma_len_union(request.headers.dom(), own.dom());
}

impl<E: Endpoint> RequestBuilder<E> {
    fn new(method: Method, path: String) -> (r: Self)
        ensures
            r@ == blank_builder(method, path@),
    {
        let r = RequestBuilder {
            method,
            path,
            query: Vec::new(),
            headers: headers::empty(),
            body: None,
            body_is_json: false,
            body_error: None,
            if_none_match: None,
            endpoint: PhantomData,
        };
        assert(r@ =~= blank_builder(method, path@));
        r
    }

    /// Append a query pair.
    #[must_use]
    pub fn query(self, key: &str, value: &str) -> (r: Self)
        ensures
            r@ == (BuilderModel { query: self@.query.push((key@, value@)), ..self@ }),
    {
        let mut builder = self;
        builder.query.push((key.to_owned(), value.to_owned()));
        assert(builder@.query =~= self@.query.push((key@, value@)));
        builder
    }

    /// Append a request header. Invalid names or values are recorded as a
    /// sticky error so the chainable builder stays infallible; the error is
    /// surfaced by the start.
    #[must_use]
    pub fn header(self, key: &str, value: &str) -> (r: Self)
        requires
            self@.error is None ==> headers::roomy(self@.headers, 1),
        ensures
            r@ == builder_header(self@, key@, value@),
    {
        let mut builder = self;
        if builder.body_error.is_some() {
            return builder;
        }
        match fetch::checked_name(key, value) {
            Ok(lower) => {
                let mut map = builder.headers;
                let _ = headers::try_append(&mut map, lower.as_str(), value);
                builder.headers = map;
            },
            Err(error) => {
                builder.body_error = Some(error);
            },
        }
        builder
    }

    /// Set the `Accept` header. Invalid values follow the same sticky-error
    /// path as `.header(..)`.
    #[must_use]
    pub fn accept(self, content_type: &str) -> (r: Self)
        requires
            self@.error is None ==> headers::roomy(self@.headers, 1),
        ensures
            r@ == builder_header(self@, "accept"@, content_type@),
    {
        self.header("accept", content_type)
    }

    /// Use a value that was serialized as JSON as the request body and set
    /// `Content-Type: application/json`. A serialization failure is recorded
    /// and surfaced by the start (no request is sent), rather than smuggled
    /// through a header.
    #[must_use]
    pub fn body_json(self, encoded: core::result::Result<Vec<u8>, String>) -> (r: Self)
        ensures
            r@ == builder_json(self@, fetch::encoded_of(encoded)),
    {
        let mut builder = self;
        match encoded {
            Ok(bytes) => {
                builder.body = Some(bytes);
                builder.body_is_json = true;
            },
            Err(why) => {
                if builder.body_error.is_none() {
                    let message = text::concat("json body serialize: ", why.as_str());
                    builder.body_error = Some(ProviderError::invalid_input(message.as_str()));
                }
            },
        }
        builder
    }

    /// Map the host-pushed validator to `If-None-Match` when present, so a 304
    /// short-circuits to [`Load::Unchanged`] / [`Revalidate::Unchanged`].
    /// Passing `None` is a plain unconditional fetch.
    #[must_use]
    pub fn maybe_if_none_match(self, version: Option<&VersionToken>) -> (r: Self)
        ensures
            r@ == (match version {
                Some(token) => BuilderModel { if_none_match: Some(token.0@), ..self@ },
                None => self@,
            }),
    {
        let mut builder = self;
        if let Some(token) = version {
            builder.if_none_match = Some(token.0.clone());
        }
        builder
    }

    fn url(&self) -> (r: String)
        ensures
            r@ == request_url::<E>(self@),
    {
        let mut query: Vec<(&str, &str)> = Vec::new();
        let mut i: usize = 0;
        while i < self.query.len()
            invariant
                i <= self.query@.len(),
                http_endpoint::query_pairs(query@) == headers::text_pairs(self.query@).take(
                    i as int,
                ),
            decreases self.query@.len() - i,
        {
            let ghost all = headers::text_pairs(self.query@);
            let ghost before = query@;
            let pair = &self.query[i];
            query.push((pair.0.as_str(), pair.1.as_str()));
            assert(http_endpoint::query_pairs(query@) =~= http_endpoint::query_pairs(before).push(
                all[i as int],
            ));
            assert(all.take(i as int + 1) =~= all.take(i as int).push(all[i as int]));
            i = i + 1;
        }
        assert(headers::text_pairs(self.query@).take(i as int) =~= headers::text_pairs(
            self.query@,
        ));
        HttpEndpoint::parse(E::base()).build_url(self.path.as_str(), query.as_slice())
    }

    fn into_http_request(self) -> (r: Result<Request>)
        requires
            self@.error is None ==> fits::<E>(self@),
        ensures
            match self@.error {
                Some(f) => r matches Err(e) && e@ == f,
                None => r matches Ok(request) && request@ == raw_request::<E>(self@),
            },
    {
        let url = self.url();
        let builder = self;
        if let Some(error) = builder.body_error {
            return Err(error);
        }
        let ghost own = headers::header_contents(builder.headers);
        let mut req = match builder.method {
            Method::Post => Builder::new().post(url),
            Method::Get => Builder::new().get(url),
        };
        let ghost blank = req@;
        let defaults = E::default_headers();
        let ghost pairs = E::header_defaults();
        assert(blank.headers.dom() =~= Set::<Seq<char>>::empty());
        // Endpoint defaults first, so a per-request header overrides.
        let mut i: usize = 0;
        while i < defaults.len()
            invariant
                i <= defaults@.len(),
                pairs == http_endpoint::query_pairs(defaults@),
                req@ == with_defaults(blank, pairs, i as nat),
                blank.headers.dom() == Set::<Seq<char>>::empty(),
                pairs.len() <= 6554,
            decreases defaults@.len() - i,
        {
            let pair = defaults[i];
            assert(pairs[i as int] == (pair.0@, pair.1@));
            proof {
                lemma_defaults_room(blank, pairs, i as nat, (pairs.len() - i) as nat);
            }
            req = req.header(pair.0, pair.1);
            i = i + 1;
        }
        proof {
            lemma_defaults_room(blank, pairs, pairs.len(), own.dom().len() + 2);
            lemma_own_room(req@, own, 2);
        }
        // Merge the already validated headers.
        req = req.extend_headers(builder.headers);
        if let Some(token) = builder.if_none_match {
            proof {
                lemma_header_room(req@, "if-none-match"@, token@, 1);
            }
            req = req.header("if-none-match", token.as_str());
        }
        if let Some(body) = builder.body {
            if builder.body_is_json {
                req = req.header("content-type", "application/json");
            }
            req = req.body(body);
        }
        Ok(req)
    }

    /// Send through the breaker: an open window for the URL's authority
    /// fails without a callout. The response, once the future gives it, goes
    /// to the [`Exchange`].
    pub fn start(self, breaker: &mut RateLimitBreaker, now: Duration) -> (r: Result<
        (Exchange<E>, CalloutFuture<Response, FetchReply>),
    >)
        requires
            self@.error is None ==> fits::<E>(self@) && fetch::sendable(raw_request::<E>(self@)),
        ensures
            match self@.error {
                Some(f) => (r matches Err(e) && e@ == f) && final(breaker)@ == old(breaker)@,
                None => {
                    &&& r matches Ok((exchange, future))
                    &&& exchange@ == rate_limit::authority(request_url::<E>(self@))
                    &&& fetch::sent(
                        raw_request::<E>(self@),
                        old(breaker)@,
                        rate_limit::authority(raw_request::<E>(self@).url),
                        now@,
                        future,
                    )
                    &&& final(breaker)@ == (if raw_request::<E>(self@).error is Some {
                        old(breaker)@
                    } else {
                        fetch::asked(
                            old(breaker)@,
                            rate_limit::authority(raw_request::<E>(self@).url),
                            now@,
                        )
                    })
                },
            },
    {
        let url = self.url();
        let authority = rate_limit::authority_of(url.as_str());
        let request = match self.into_http_request() {
            Ok(request) => request,
            Err(e) => {
                return Err(e);
            },
        };
        let future = request.send(breaker, now);
        Ok((Exchange { authority, endpoint: PhantomData }, future))
    }

    /// Convert into a blob fetch: the response body lands in the host's
    /// blob cache and only a [`BlobHandle`] crosses back. A cache key is
    /// mandatory; chain [`BlobRequestBuilder::cache_key`] before
    /// [`BlobRequestBuilder::start`].
    pub fn into_blob(self) -> (r: BlobRequestBuilder<E>)
        ensures
            r.builder() == self@,
            r.key() is None,
    {
        BlobRequestBuilder { inner: self, cache_key: None }
    }
}

/// One request that was sent, waiting for its response.
#[verifier::reject_recursive_types(E)]
pub struct Exchange<E> {
    authority: Option<String>,
    endpoint: PhantomData<E>,
}

impl<E> View for Exchange<E> {
    type V = Option<Seq<char>>;

    /// The authority that the request went to.
    closed spec fn view(&self) -> Option<Seq<char>> {
        text::text_of(self.authority)
    }
}

/// How long a 429 closes the authority, if the response or the policy says
/// so.
pub open spec fn asked_cooldown(policy: RateLimitPolicy, resp: ResponseModel) -> Option<nat> {
    let parsed = match headers::named_text(resp.headers, "retry-after"@) {
        Some(value) => rate_limit::retry_span(value),
        None => None,
    };
    match parsed {
        Some(span) => Some(span),
        None => match policy {
            RateLimitPolicy::Cooldown(span) => Some(span@),
            _ => None,
        },
    }
}

/// The windows after a response: a 429 arms its authority and a success
/// closes it, unless the policy opts out.
pub open spec fn settled(
    open: Map<Seq<char>, nat>,
    policy: RateLimitPolicy,
    authority: Option<Seq<char>>,
    resp: ResponseModel,
    now: nat,
) -> Map<Seq<char>, nat> {
    match authority {
        Some(key) => if policy is Off {
            open
        } else if resp.status == 429 {
            rate_limit::armed(open, key, asked_cooldown(policy, resp), now)
        } else if resp.status < 400 {
            open.remove(key)
        } else {
            open
        },
        None => open,
    }
}

impl<E: Endpoint> Exchange<E> {
    /// Arm the breaker on a 429 and close it on a `status < 400` response so
    /// the next request to a throttled authority fast-fails instead of
    /// calling out.
    pub fn settle(&self, resp: &Response, breaker: &mut RateLimitBreaker, now: Duration)
        requires
            rate_limit::before_the_end(now@),
        ensures
            final(breaker)@ == settled(old(breaker)@, E::policy(), self@, resp@, now@),
    {
        let authority = match &self.authority {
            Some(authority) => authority.as_str(),
            None => {
                return;
            },
        };
        let policy = E::rate_limit_policy();
        if matches!(policy, RateLimitPolicy::Off) {
            return;
        }
        if resp.status() == 429 {
            let parsed = match resp.header("retry-after") {
                Some(value) => rate_limit::parse_retry_after_secs(value.as_str()),
                None => None,
            };
            let cooldown = match parsed {
                Some(span) => Some(span),
                None => match policy {
                    RateLimitPolicy::Cooldown(span) => Some(span),
                    _ => None,
                },
            };
            breaker.record_429(authority, cooldown, now);
        } else if resp.status() < 400 {
            breaker.record_success(authority);
        }
    }

    /// Object/revalidation terminal: 200 -> `Fresh(parse(body))`, 404 ->
    /// `NotFound`, 304 -> `Unchanged`, other 4xx/5xx -> `Err`. On `Fresh` the
    /// stored [`Canonical`] is the raw response body verbatim with the
    /// response `ETag` as its validator; parsing only produces the in-memory
    /// value.
    pub fn load_with<T, F: Fn(&[u8]) -> Result<T>>(
        self,
        resp: Response,
        parse: F,
        breaker: &mut RateLimitBreaker,
        now: Duration,
    ) -> (r: Result<Load<T>>)
        requires
            rate_limit::before_the_end(now@),
            parses(parse, resp@.body),
        ensures
            final(breaker)@ == settled(old(breaker)@, E::policy(), self@, resp@, now@),
            loaded(resp@, parse, r),
    {
        self.settle(&resp, breaker, now);
        load_from_response(resp, parse)
    }

    /// Structural terminal: parse the body. 4xx/5xx -> `Err`; there is no
    /// `Load` wrapper.
    pub fn json<T, F: Fn(&[u8]) -> Result<T>>(
        self,
        resp: Response,
        parse: F,
        breaker: &mut RateLimitBreaker,
        now: Duration,
    ) -> (r: Result<T>)
        requires
            rate_limit::before_the_end(now@),
            parses(parse, resp@.body),
        ensures
            final(breaker)@ == settled(old(breaker)@, E::policy(), self@, resp@, now@),
            match fetch::status_failure(resp@) {
                Some(f) => r matches Err(e) && e@ == f,
                None => parsed_as(parse, resp@.body, r),
            },
    {
        self.settle(&resp, breaker, now);
        match resp.error_for_status_ref() {
            Ok(_) => {
                let body = resp.body();
                let r = parse(body);
                assert(body@ == resp@.body && call_ensures(parse, (body,), r));
                r
            },
            Err(e) => Err(e),
        }
    }

    /// Listing-revalidation terminal: 304 -> `Unchanged`, 200 ->
    /// `Fresh { value, validator }` where the validator is the response `ETag`.
    pub fn conditional_json<T, F: Fn(&[u8]) -> Result<T>>(
        self,
        resp: Response,
        parse: F,
        breaker: &mut RateLimitBreaker,
        now: Duration,
    ) -> (r: Result<Revalidate<T>>)
        requires
            rate_limit::before_the_end(now@),
            parses(parse, resp@.body),
        ensures
            final(breaker)@ == settled(old(breaker)@, E::policy(), self@, resp@, now@),
            revalidated(resp@, parse, r),
    {
        self.settle(&resp, breaker, now);
        if resp.status() == 304 {
            return Ok(Revalidate::Unchanged);
        }
        match resp.error_for_status_ref() {
            Ok(_) => {},
            Err(e) => {
                return Err(e);
            },
        }
        let validator = etag(&resp);
        let body = resp.body();
        let given = parse(body);
        assert(body@ == resp@.body && call_ensures(parse, (body,), given));
        match given {
            Ok(value) => Ok(Revalidate::Fresh { value, validator }),
            Err(e) => Err(e),
        }
    }

    /// A checked structural fetch returning the raw body.
    pub fn send_checked(
        self,
        resp: Response,
        breaker: &mut RateLimitBreaker,
        now: Duration,
    ) -> (r: Result<HttpResponse>)
        requires
            rate_limit::before_the_end(now@),
        ensures
            final(breaker)@ == settled(old(breaker)@, E::policy(), self@, resp@, now@),
            match fetch::status_failure(resp@) {
                Some(f) => r matches Err(e) && e@ == f,
                None => r matches Ok(checked) && checked@ == resp@,
            },
    {
        self.settle(&resp, breaker, now);
        match resp.error_for_status() {
            Ok(resp) => Ok(HttpResponse { inner: resp }),
            Err(e) => Err(e),
        }
    }
}

/// The parser can be called with these bytes.
pub open spec fn parses<T, F: Fn(&[u8]) -> Result<T>>(parse: F, body: Seq<u8>) -> bool {
    forall|bytes: &[u8]| bytes@ == body ==> #[trigger] call_requires(parse, (bytes,))
}

/// `r` is what the parser gave for these bytes.
pub open spec fn parsed_as<T, F: Fn(&[u8]) -> Result<T>>(
    parse: F,
    body: Seq<u8>,
    r: Result<T>,
) -> bool {
    exists|bytes: &[u8]| bytes@ == body && #[trigger] call_ensures(parse, (bytes,), r)
}

/// The listing-revalidation outcome of [`Exchange::conditional_json`].
pub enum Revalidate<T> {
    Unchanged,
    Fresh { value: T, validator: Option<VersionToken> },
}

/// The text of the entity tag of a response.
pub open spec fn tag_of(resp: ResponseModel) -> Option<Seq<char>> {
    headers::named_text(resp.headers, "etag"@)
}

/// `r` is the outcome of a listing revalidation.
pub open spec fn revalidated<T, F: Fn(&[u8]) -> Result<T>>(
    resp: ResponseModel,
    parse: F,
    r: Result<Revalidate<T>>,
) -> bool {
    if resp.status == 304 {
        r matches Ok(Revalidate::Unchanged)
    } else {
        match fetch::status_failure(resp) {
            Some(f) => r matches Err(e) && e@ == f,
            None => match r {
                Ok(Revalidate::Fresh { value, validator }) => parsed_as(
                    parse,
                    resp.body,
                    Ok(value),
                ) && crate::browse::token_text(validator) == tag_of(resp),
                Ok(Revalidate::Unchanged) => false,
                Err(e) => parsed_as(parse, resp.body, Err(e)),
            },
        }
    }
}

/// `r` is the outcome of a load: the canonical is the raw response body
/// verbatim, with the entity tag as its validator.
pub open spec fn loaded<T, F: Fn(&[u8]) -> Result<T>>(
    resp: ResponseModel,
    parse: F,
    r: Result<Load<T>>,
) -> bool {
    if resp.status == 304 {
        r == Ok::<Load<T>, ProviderError>(Load::Unchanged)
    } else if resp.status == 404 {
        r == Ok::<Load<T>, ProviderError>(Load::NotFound)
    } else {
        match fetch::status_failure(resp) {
            Some(f) => r matches Err(e) && e@ == f,
            None => match r {
                Ok(Load::Fresh { value, canonical }) => {
                    &&& parsed_as(parse, resp.body, Ok(value))
                    &&& canonical.bytes@ == resp.body
                    &&& crate::browse::token_text(canonical.validator) == tag_of(resp)
                },
                Ok(_) => false,
                Err(e) => parsed_as(parse, resp.body, Err(e)),
            },
        }
    }
}

fn etag(resp: &Response) -> (r: Option<VersionToken>)
    ensures
        crate::browse::token_text(r) == tag_of(resp@),
{
    match resp.header("etag") {
        Some(value) => Some(VersionToken(value)),
        None => None,
    }
}

fn load_from_response<T, F: Fn(&[u8]) -> Result<T>>(resp: Response, parse: F) -> (r: Result<
    Load<T>,
>)
    requires
        parses(parse, resp@.body),
    ensures
        loaded(resp@, parse, r),
{
    if resp.status() == 304 {
        return Ok(Load::Unchanged);
    }
    if resp.status() == 404 {
        return Ok(Load::NotFound);
    }
    match resp.error_for_status_ref() {
        Ok(_) => {},
        Err(e) => {
            return Err(e);
        },
    }
    // The canonical is the raw response body verbatim (JSON, Atom, XML, or
    // opaque). `parse` only produces the in-memory value for rendering; it
    // does not define the stored bytes.
    let validator = etag(&resp);
    let body = resp.body();
    let given = parse(body);
    assert(body@ == resp@.body && call_ensures(parse, (body,), given));
    match given {
        Ok(value) => Ok(
            Load::Fresh { value, canonical: Canonical { bytes: resp.into_body(), validator } },
        ),
        Err(e) => Err(e),
    }
}

/// The error of a body that does not decode.
pub fn json_decoded<T>(decoded: core::result::Result<T, String>) -> (r: Result<T>)
    ensures
        match decoded {
            Ok(value) => r == Ok::<T, ProviderError>(value),
            Err(why) => r matches Err(e) && e@ == error::failure(
                ProviderErrorKind::InvalidInput,
                "json decode: "@ + why@,
            ),
        },
{
    match decoded {
        Ok(value) => Ok(value),
        Err(why) => {
            let message = text::concat("json decode: ", why.as_str());
            Err(ProviderError::invalid_input(message.as_str()))
        },
    }
}

/// A provider-facing wrapper over a raw HTTP response.
pub struct HttpResponse {
    inner: Response,
}

impl View for HttpResponse {
    type V = ResponseModel;

    closed spec fn view(&self) -> ResponseModel {
        self.inner@
    }
}

impl HttpResponse {
    pub fn status(&self) -> (r: u16)
        ensures
            r == self@.status,
    {
        self.inner.status()
    }

    pub fn header(&self, name: &str) -> (r: Option<String>)
        ensures
            text::text_of(r) == headers::named_text(self@.headers, name@),
    {
        self.inner.header(name)
    }

    pub fn body(&self) -> (r: &[u8])
        ensures
            r@ == self@.body,
    {
        self.inner.body()
    }
}

/// A builder for a blob fetch against an [`Endpoint`], lowering onto
/// [`crate::fetch::BlobRequest`].
#[verifier::reject_recursive_types(E)]
pub struct BlobRequestBuilder<E> {
    inner: RequestBuilder<E>,
    cache_key: Option<String>,
}

impl<E: Endpoint> BlobRequestBuilder<E> {
    /// The request that fetches the blob.
    pub closed spec fn builder(&self) -> BuilderModel {
        self.inner@
    }

    /// The deduplication key, if one was set.
    pub closed spec fn key(&self) -> Option<Seq<char>> {
        text::text_of(self.cache_key)
    }

    /// Set the provider-scoped deduplication key. Required: the fetch errors
    /// without one. Repeating the key from the same provider returns the
    /// cached blob instead of refetching, so embed everything that
    /// distinguishes the content (id, version, variant) in the key.
    #[must_use]
    pub fn cache_key(self, key: String) -> (r: Self)
        ensures
            r.builder() == self.builder(),
            r.key() == Some(key@),
    {
        BlobRequestBuilder { inner: self.inner, cache_key: Some(key) }
    }

    /// Fetch the URL into the blob store. The reply goes to
    /// [`BlobHandle::from_reply`].
    pub fn start(self, breaker: &mut RateLimitBreaker, now: Duration) -> (r: Result<
        CalloutFuture<BlobRef, BlobReply>,
    >)
        requires
            self.builder().error is None ==> fits::<E>(self.builder()),
            self.builder().error is None && self.key() is Some ==> fetch::sendable(
                raw_request::<E>(self.builder()),
            ),
        ensures
            match self.builder().error {
                Some(f) => (r matches Err(e) && e@ == f) && final(breaker)@ == old(breaker)@,
                None => {
                    let request = raw_request::<E>(self.builder());
                    &&& r matches Ok(future)
                    &&& fetch::blob_sent(
                        request,
                        self.key(),
                        old(breaker)@,
                        rate_limit::authority(request.url),
                        now@,
                        future,
                    )
                    &&& final(breaker)@ == (if request.error is Some || self.key() is None {
                        old(breaker)@
                    } else {
                        fetch::asked(old(breaker)@, rate_limit::authority(request.url), now@)
                    })
                },
            },
    {
        let cache_key = self.cache_key;
        let request = match self.inner.into_http_request() {
            Ok(request) => request,
            Err(e) => {
                return Err(e);
            },
        };
        let mut blob = request.into_blob();
        if let Some(key) = cache_key {
            blob = blob.with_cache_key(key);
        }
        Ok(blob.send(breaker, now))
    }
}

/// A handle to a host-resident blob fetched through an [`Endpoint`]. Hand
/// `id` to `FileProjection::blob` (with `size` as the exact size) or to a
/// blob reader; the bytes themselves stay host-side.
#[derive(Clone, Copy, Debug, PartialEq, Eq, Structural)]
pub struct BlobHandle {
    pub id: BlobId,
    pub size: u64,
}

impl BlobHandle {
    /// Applies the same 4xx/5xx mapping as the structural terminals, so a
    /// `BlobHandle` always refers to a successful response body.
    pub fn from_reply(reply: BlobRef) -> (r: Result<Self>)
        ensures
            match blob::blob_failure(reply.status) {
                Some(f) => r matches Err(e) && e@ == f,
                None => r == Ok::<BlobHandle, ProviderError>(
                    BlobHandle { id: reply.id, size: reply.size },
                ),
            },
    {
        match reply.error_for_status() {
            Ok(reply) => Ok(BlobHandle { id: reply.id, size: reply.size }),
            Err(e) => Err(e),
        }
    }
}

/// A 429 makes every send to its authority fail without a callout, with what
/// is left of the cooldown as the hint, until the cooldown is over.
pub proof fn law_throttled_authority_fails_fast(
    open: Map<Seq<char>, nat>,
    policy: RateLimitPolicy,
    resp: ResponseModel,
    request: RequestModel,
    key: Seq<char>,
    now: nat,
    later: nat,
)
    requires
        !(policy is Off),
        resp.status == 429,
        request.error is None,
        now <= later < now + rate_limit::cooldown(asked_cooldown(policy, resp)),
    ensures
        fetch::send_failure(
            request,
            settled(open, policy, Some(key), resp, now),
            Some(key),
            later,
        ) == Some(
            fetch::breaker_failure(
                key,
                (now + rate_limit::cooldown(asked_cooldown(policy, resp)) - later) as nat,
            ),
        ),
        fetch::breaker_failure(key, later).kind == ProviderErrorKind::RateLimited,
{
    rate_limit::law_cooldown_window(open, key, asked_cooldown(policy, resp), now, key, later);
}

/// The first response below 400 lets sends to its authority through again.
pub proof fn law_success_lets_sends_through(
    open: Map<Seq<char>, nat>,
    policy: RateLimitPolicy,
    resp: ResponseModel,
    request: RequestModel,
    key: Seq<char>,
    now: nat,
    later: nat,
)
    requires
        !(policy is Off),
        resp.status < 400,
        request.error is None,
    ensures
        fetch::send_failure(
            request,
            settled(open, policy, Some(key), resp, now),
            Some(key),
            later,
        ) is None,
{
    rate_limit::law_success_closes_the_window(open, key, later);
}

/// An endpoint that opts out never changes a window, but a window that is
/// open still stops its sends.
pub proof fn law_opted_out_endpoint_changes_no_window(
    open: Map<Seq<char>, nat>,
    authority: Option<Seq<char>>,
    resp: ResponseModel,
    request: RequestModel,
    now: nat,
)
    requires
        request.error is None,
    ensures
        settled(open, RateLimitPolicy::Off, authority, resp, now) == open,
        fetch::send_failure(request, open, authority, now) == fetch::breaker_stops(
            open,
            authority,
            now,
        ),
{
}

/// A header of the request takes the place of the endpoint's default of the
/// same name. (The condition and the content type of a JSON body are added
/// behind what there is.)
pub proof fn law_own_header_overrides_default<E: Endpoint>(builder: BuilderModel, name: Seq<char>)
    requires
        raw_request::<E>(builder).error is None,
        builder.headers.dom().contains(name),
        name != "if-none-match"@,
        name != "content-type"@,
    ensures
        raw_request::<E>(builder).headers.dom().contains(name),
        raw_request::<E>(builder).headers[name] == builder.headers[name],
{
    reveal_strlit("if-none-match");
    reveal_strlit("content-type");
    assert(headers::lowered("if-none-match"@) =~= "if-none-match"@);
    assert(headers::lowered("content-type"@) =~= "content-type"@);
}

} // verus!

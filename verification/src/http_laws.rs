//! What a provider may rely on between a request and what its response
//! becomes: statuses, validators, headers, URLs and cooldowns.

use vstd::prelude::*;

use crate::endpoint;
use crate::endpoint::{BuilderModel, Endpoint, RateLimitPolicy, Revalidate};
use crate::error;
use crate::error::{ProviderError, ProviderErrorKind, Result};
use crate::fetch;
use crate::fetch::{RequestModel, Response, ResponseModel};
use crate::headers;
use crate::http_endpoint;
use crate::object::Load;
use crate::rate_limit;
use crate::text;
use crate::time;
use crate::wire;

verus! {

/// The kind of error that a response status stands for.
pub proof fn law_status_decides_the_kind(status: u16)
    ensures
        error::status_kind(status) is PermissionDenied <==> status == 401,
        error::status_kind(status) is Denied <==> status == 403,
        error::status_kind(status) is NotFound <==> status == 404,
        error::status_kind(status) is Timeout <==> status == 408,
        error::status_kind(status) is RateLimited <==> status == 429,
        error::status_kind(status) is Network <==> 500 <= status < 600,
        error::status_kind(status) is InvalidInput <==> 400 <= status < 500 && status != 401
            && status != 403 && status != 404 && status != 408 && status != 429,
        error::status_kind(status) is Internal <==> !(400 <= status < 600),
{
}

/// A response fails exactly for a client or a server error status, with the
/// kind that the status stands for; only a throttled one carries a backoff,
/// the one that its `Retry-After` header gives in seconds.
pub proof fn law_only_error_statuses_fail(resp: ResponseModel)
    ensures
        fetch::status_failure(resp) is Some <==> 400 <= resp.status < 600,
        fetch::status_failure(resp) matches Some(f) ==> {
            &&& f.kind == error::status_kind(resp.status)
            &&& f.retry_after == (if resp.status == 429 {
                match headers::named_text(resp.headers, "retry-after"@) {
                    Some(value) => rate_limit::retry_span(value),
                    None => None,
                }
            } else {
                None
            })
        },
{
}

/// What a load makes of a response. It is not found exactly on 404 and
/// unchanged exactly on 304; every other client or server error is an error
/// of the kind that the status stands for. Anything else is parsed, and a
/// fresh value comes with the body as it is for its canonical and with the
/// entity tag for its validator.
pub proof fn law_load_follows_the_status<T, F: Fn(&[u8]) -> Result<T>>(
    resp: ResponseModel,
    parse: F,
    r: Result<Load<T>>,
)
    requires
        endpoint::loaded(resp, parse, r),
    ensures
        (r matches Ok(Load::NotFound)) <==> resp.status == 404,
        (r matches Ok(Load::Unchanged)) <==> resp.status == 304,
        400 <= resp.status < 600 && resp.status != 404 ==> (r matches Err(e) && e@.kind
            == error::status_kind(resp.status)),
        r matches Ok(Load::Fresh { value, canonical }) ==> {
            &&& !(400 <= resp.status < 600)
            &&& resp.status != 304
            &&& canonical.bytes@ == resp.body
            &&& exists|bytes: &[u8]|
                bytes@ == resp.body && #[trigger] call_ensures(
                    parse,
                    (bytes,),
                    Ok::<T, ProviderError>(value),
                )
            &&& match canonical.validator {
                Some(token) => headers::named_text(resp.headers, "etag"@) == Some(token.0@),
                None => headers::named_text(resp.headers, "etag"@) is None,
            }
        },
        !(400 <= resp.status < 600) && resp.status != 304 ==> match r {
            Ok(load) => load is Fresh,
            Err(e) => exists|bytes: &[u8]|
                bytes@ == resp.body && #[trigger] call_ensures(
                    parse,
                    (bytes,),
                    Err::<T, ProviderError>(e),
                ),
        },
{
}

/// What a revalidation makes of a response: unchanged exactly on 304, an error
/// of the status's kind on every client or server error, and else the parsed
/// body with the entity tag for its validator.
pub proof fn law_revalidation_follows_the_status<T, F: Fn(&[u8]) -> Result<T>>(
    resp: ResponseModel,
    parse: F,
    r: Result<Revalidate<T>>,
)
    requires
        endpoint::revalidated(resp, parse, r),
    ensures
        (r matches Ok(Revalidate::Unchanged)) <==> resp.status == 304,
        400 <= resp.status < 600 ==> (r matches Err(e) && e@.kind == error::status_kind(
            resp.status,
        )),
        r matches Ok(Revalidate::Fresh { value, validator }) ==> {
            &&& exists|bytes: &[u8]|
                bytes@ == resp.body && #[trigger] call_ensures(
                    parse,
                    (bytes,),
                    Ok::<T, ProviderError>(value),
                )
            &&& match validator {
                Some(token) => headers::named_text(resp.headers, "etag"@) == Some(token.0@),
                None => headers::named_text(resp.headers, "etag"@) is None,
            }
        },
{
}

/// A header is found under its name in any letter case, and the first of its
/// values is the one that counts.
pub proof fn law_header_names_have_no_case(
    map: Map<Seq<char>, Seq<Seq<char>>>,
    a: Seq<char>,
    b: Seq<char>,
)
    requires
        headers::header_name(a) is Some,
        headers::header_name(b) is Some,
        a.len() == b.len(),
        forall|i: int|
            0 <= i < a.len() ==> ((#[trigger] a[i]) == b[i] || ('A' <= a[i] <= 'Z' && b[i] as u32
                == a[i] as u32 + 32)),
    ensures
        headers::named_text(map, a) == headers::named_text(map, b),
        headers::named_text(map, a) matches Some(value) ==> map.dom().contains(
            headers::header_name(a)->0,
        ) && map[headers::header_name(a)->0].len() > 0 && map[headers::header_name(a)->0][0]
            == value,
{
    assert forall|i: int| 0 <= i < a.len() implies #[trigger] headers::lower_char(a[i])
        == headers::lower_char(b[i]) by {
        if a[i] != b[i] {
            let c = a[i];
            let d = b[i];
            assert('A' as u32 <= c as u32 <= 'Z' as u32);
            assert((c as u32 + 32) as char == d);
            assert(!('A' <= d <= 'Z'));
        }
    }
    assert(headers::lowered(a) =~= headers::lowered(b));
}

/// A throttled response closes its authority for what its `Retry-After` header
/// asks for, else for what the policy sets, else for five seconds, and never
/// for more than an hour.
pub proof fn law_cooldown_comes_from_the_response_first(
    open: Map<Seq<char>, nat>,
    policy: RateLimitPolicy,
    resp: ResponseModel,
    key: Seq<char>,
    now: nat,
)
    requires
        resp.status == 429,
        !(policy is Off),
    ensures
        ({
            let header = headers::named_text(resp.headers, "retry-after"@);
            let asked = if header is Some && rate_limit::retry_span(header->0) is Some {
                rate_limit::retry_span(header->0)->0
            } else if let RateLimitPolicy::Cooldown(span) = policy {
                span@
            } else {
                5_000_000_000nat
            };
            let after = endpoint::settled(open, policy, Some(key), resp, now);
            &&& after.dom().contains(key)
            &&& after[key] == now + if asked < 3_600_000_000_000nat {
                asked
            } else {
                3_600_000_000_000nat
            }
        }),
{
    assert(time::secs_to_nanos(5) == 5_000_000_000nat);
    assert(time::secs_to_nanos(3600) == 3_600_000_000_000nat);
}

/// A response touches no window but that of its own authority, opens one only
/// when it is throttled, and closes one only below 400.
pub proof fn law_response_touches_only_its_authority(
    open: Map<Seq<char>, nat>,
    policy: RateLimitPolicy,
    authority: Option<Seq<char>>,
    resp: ResponseModel,
    now: nat,
    other: Seq<char>,
)
    requires
        authority != Some(other) || (resp.status >= 400 && resp.status != 429),
    ensures
        ({
            let after = endpoint::settled(open, policy, authority, resp, now);
            &&& after.dom().contains(other) == open.dom().contains(other)
            &&& open.dom().contains(other) ==> after[other] == open[other]
        }),
{
}

/// A delay in seconds is read as that many seconds, with blanks around it
/// ignored; anything that is not a decimal number gives none.
pub proof fn law_retry_after_is_seconds(value: Seq<char>)
    ensures
        match rate_limit::retry_span(value) {
            Some(span) => text::u64_of(text::trimmed(value)) matches Some(secs) && span == secs
                * 1_000_000_000,
            None => text::u64_of(text::trimmed(value)) is None,
        },
{
}

/// A send that fails before it leaves says why: what went wrong first while
/// the request was built, else the window that is open for its authority, with
/// the time that it stays open.
pub proof fn law_send_fails_by_the_request_first(
    request: RequestModel,
    open: Map<Seq<char>, nat>,
    key: Seq<char>,
    now: nat,
)
    ensures
        request.error matches Some(f) ==> fetch::send_failure(request, open, Some(key), now)
            == Some(f),
        request.error is None ==> (fetch::send_failure(request, open, Some(key), now) is Some <==>
            open.dom().contains(key) && open[key] > now),
        request.error is None ==> (fetch::send_failure(request, open, Some(key), now) matches Some(
            f,
        ) ==> f.kind == ProviderErrorKind::RateLimited && f.retry_after == Some(
            (open[key] - now) as nat,
        )),
        request.error is None ==> fetch::send_failure(request, open, None, now) is None,
{
}

/// The first thing that goes wrong while a request is built stays what went
/// wrong, whatever is added to the request later.
pub proof fn law_first_build_error_stays(
    request: RequestModel,
    builder: BuilderModel,
    name: Seq<char>,
    value: Seq<char>,
    encoded: core::result::Result<Seq<u8>, Seq<char>>,
)
    ensures
        request.error is Some ==> fetch::with_header(request, name, value).error == request.error
            && fetch::with_json(request, encoded).error == request.error,
        builder.error is Some ==> endpoint::builder_header(builder, name, value).error
            == builder.error && endpoint::builder_json(builder, encoded).error == builder.error,
        request.error is None ==> (fetch::with_header(request, name, value).error is Some <==>
            headers::header_name(name) is None || !headers::header_value(value)),
        request.error is None ==> (fetch::with_json(request, encoded).error is Some <==>
            encoded is Err),
{
}

/// A JSON body is sent as encoded, as `application/json` unless the request
/// already has a content type, and changes nothing else.
pub proof fn law_json_keeps_a_content_type(request: RequestModel, bytes: Seq<u8>, name: Seq<char>)
    requires
        request.error is None,
    ensures
        ({
            let after = fetch::with_json(request, Ok(bytes));
            &&& after.body == Some(bytes)
            &&& after.error is None
            &&& after.method == request.method
            &&& after.url == request.url
            &&& headers::values_of(after.headers, name) == (if name == "content-type"@
                && !request.headers.dom().contains("content-type"@) {
                seq!["application/json"@]
            } else {
                headers::values_of(request.headers, name)
            })
        }),
{
}

/// Adding a header appends its value behind those of its name and leaves every
/// other name as it was.
pub proof fn law_header_is_added_behind(
    request: RequestModel,
    name: Seq<char>,
    value: Seq<char>,
    other: Seq<char>,
)
    requires
        request.error is None,
        headers::header_name(name) is Some,
        headers::header_value(value),
    ensures
        ({
            let after = fetch::with_header(request, name, value);
            &&& after.error is None
            &&& after.method == request.method
            &&& after.url == request.url
            &&& after.body == request.body
            &&& headers::values_of(after.headers, other) == (if other == headers::header_name(
                name,
            )->0 {
                headers::values_of(request.headers, other).push(value)
            } else {
                headers::values_of(request.headers, other)
            })
        }),
{
}

proof fn lemma_defaults_keep(
    request: RequestModel,
    defaults: Seq<(Seq<char>, Seq<char>)>,
    n: nat,
)
    requires
        n <= defaults.len(),
    ensures
        endpoint::with_defaults(request, defaults, n).method == request.method,
        endpoint::with_defaults(request, defaults, n).url == request.url,
        endpoint::with_defaults(request, defaults, n).body == request.body,
        endpoint::with_defaults(request, defaults, n).error is None ==> request.error is None,
    decreases n,
{
    if n > 0 {
        lemma_defaults_keep(request, defaults, (n - 1) as nat);
    }
}

/// A built request asks for what its builder says: the method, the URL under
/// the endpoint's base, and the body.
pub proof fn law_request_asks_for_what_was_built<E: Endpoint>(builder: BuilderModel)
    ensures
        endpoint::raw_request::<E>(builder).method == builder.method,
        endpoint::raw_request::<E>(builder).url == http_endpoint::url_head(
            http_endpoint::endpoint_of(E::base_text()),
        ) + http_endpoint::url_tail(builder.path, http_endpoint::query_text(builder.query)),
        endpoint::raw_request::<E>(builder).body == builder.body,
{
    lemma_defaults_keep(
        fetch::blank_request(builder.method, endpoint::request_url::<E>(builder)),
        E::header_defaults(),
        E::header_defaults().len(),
    );
}

/// A validator is sent as the condition of the request: the last value of its
/// `If-None-Match` header is the validator.
pub proof fn law_validator_is_sent_as_condition<E: Endpoint>(
    builder: BuilderModel,
    token: Seq<char>,
)
    requires
        builder.if_none_match == Some(token),
        endpoint::raw_request::<E>(builder).error is None,
    ensures
        headers::values_of(
            endpoint::raw_request::<E>(builder).headers,
            "if-none-match"@,
        ).len() > 0,
        headers::values_of(
            endpoint::raw_request::<E>(builder).headers,
            "if-none-match"@,
        ).last() == token,
{
    reveal_strlit("if-none-match");
    reveal_strlit("content-type");
    assert(headers::lowered("if-none-match"@) =~= "if-none-match"@);
    assert(headers::lowered("content-type"@) =~= "content-type"@);
    assert("if-none-match"@.len() != "content-type"@.len());
}

/// A JSON body is sent as JSON: the last value of the request's content type
/// is `application/json`.
pub proof fn law_json_body_is_sent_as_json<E: Endpoint>(builder: BuilderModel, bytes: Seq<u8>)
    requires
        builder.body == Some(bytes),
        builder.body_is_json,
        endpoint::raw_request::<E>(builder).error is None,
    ensures
        headers::values_of(
            endpoint::raw_request::<E>(builder).headers,
            "content-type"@,
        ).len() > 0,
        headers::values_of(
            endpoint::raw_request::<E>(builder).headers,
            "content-type"@,
        ).last() == "application/json"@,
{
    reveal_strlit("content-type");
    assert(headers::lowered("content-type"@) =~= "content-type"@);
}

proof fn lemma_default_sent(
    request: RequestModel,
    defaults: Seq<(Seq<char>, Seq<char>)>,
    n: nat,
    i: int,
)
    requires
        0 <= i < n <= defaults.len(),
        endpoint::with_defaults(request, defaults, n).error is None,
    ensures
        headers::header_name(defaults[i].0) is Some,
        headers::values_of(
            endpoint::with_defaults(request, defaults, n).headers,
            headers::header_name(defaults[i].0)->0,
        ).contains(defaults[i].1),
    decreases n,
{
    let name = headers::header_name(defaults[i].0)->0;
    let head = endpoint::with_defaults(request, defaults, (n - 1) as nat);
    let all = endpoint::with_defaults(request, defaults, n);
    if i < n - 1 {
        lemma_default_sent(request, defaults, (n - 1) as nat, i);
        let values = headers::values_of(head.headers, name);
        let k = choose|k: int| 0 <= k < values.len() && values[k] == defaults[i].1;
        assert(headers::values_of(all.headers, name)[k] == defaults[i].1);
    } else {
        let values = headers::values_of(all.headers, name);
        assert(values.last() == defaults[i].1);
    }
}

/// Every default header of the endpoint is sent, unless the caller set a
/// header of that name.
pub proof fn law_default_header_is_sent<E: Endpoint>(builder: BuilderModel, i: int)
    requires
        0 <= i < E::header_defaults().len(),
        endpoint::raw_request::<E>(builder).error is None,
        headers::header_name(E::header_defaults()[i].0) matches Some(name)
            && !builder.headers.dom().contains(name),
    ensures
        headers::values_of(
            endpoint::raw_request::<E>(builder).headers,
            headers::header_name(E::header_defaults()[i].0)->0,
        ).contains(E::header_defaults()[i].1),
{
    reveal_strlit("if-none-match");
    reveal_strlit("content-type");
    assert(headers::lowered("if-none-match"@) =~= "if-none-match"@);
    assert(headers::lowered("content-type"@) =~= "content-type"@);
    let defaults = E::header_defaults();
    let name = headers::header_name(defaults[i].0)->0;
    let blank = fetch::blank_request(builder.method, endpoint::request_url::<E>(builder));
    let first = endpoint::with_defaults(blank, defaults, defaults.len());
    let second = endpoint::with_own_headers(first, builder.headers);
    let third = endpoint::with_condition(second, builder.if_none_match);
    let last = endpoint::raw_request::<E>(builder);
    lemma_default_sent(blank, defaults, defaults.len(), i);
    let values = headers::values_of(first.headers, name);
    let k = choose|k: int| 0 <= k < values.len() && values[k] == defaults[i].1;
    assert(headers::values_of(second.headers, name)[k] == defaults[i].1);
    assert(headers::values_of(third.headers, name)[k] == defaults[i].1);
    assert(headers::values_of(last.headers, name)[k] == defaults[i].1);
}

/// The URL of a request starts with the endpoint's base without its trailing
/// slashes, goes on with the path behind one slash at least, and ends in the
/// query behind a question mark where there is one.
pub proof fn law_url_is_base_path_and_query(
    base: Seq<char>,
    path: Seq<char>,
    query: Seq<char>,
)
    requires
        !text::has_prefix(base, "unix:///"@),
    ensures
        ({
            let url = http_endpoint::url_head(http_endpoint::endpoint_of(base))
                + http_endpoint::url_tail(path, query);
            let head = text::without_end_slashes(base);
            &&& text::has_prefix(url, head)
            &&& url[head.len() as int] == '/'
            &&& query.len() == 0 && path.len() > 0 && path[0] == '/' ==> url == head + path
            &&& query.len() > 0 && path.len() > 0 && path[0] == '/' ==> url == head + path + "?"@
                + query
            &&& query.len() == 0 && !(path.len() > 0 && path[0] == '/') ==> url == head + "/"@
                + path
        }),
{
    reveal_strlit("/");
    let head = text::without_end_slashes(base);
    let tail = http_endpoint::url_tail(path, query);
    let url = http_endpoint::url_head(http_endpoint::endpoint_of(base)) + tail;
    assert(url == head + tail);
    assert(url.take(head.len() as int) =~= head);
    if path.len() > 0 && path[0] == '/' {
        assert(path.take(1) =~= "/"@);
        assert(text::has_prefix(path, "/"@));
    } else if text::has_prefix(path, "/"@) {
        assert(path.take(1)[0] == '/');
    }
    assert(tail[0] == '/');
    if query.len() == 0 {
        assert(path + Seq::<char>::empty() =~= path);
        assert("/"@ + path + Seq::<char>::empty() =~= "/"@ + path);
        assert(head + ("/"@ + path) =~= head + "/"@ + path);
    } else {
        assert(head + (path + ("?"@ + query)) =~= head + path + "?"@ + query);
    }
}

/// A response keeps its status and its body as they came, whatever its header
/// lines are.
pub proof fn law_response_keeps_status_and_body(resp: wire::HttpResponse, r: Result<Response>)
    requires
        fetch::response_read(resp, r),
    ensures
        r matches Ok(out) ==> out@.status == resp.status && out@.body == resp.body@,
        !(100 <= resp.status <= 999) ==> (r matches Err(e) && e@.kind
            == ProviderErrorKind::Internal),
        100 <= resp.status <= 999 && resp.headers@.len() <= 6554 ==> r is Ok,
{
}

/// The values of a response's header are those of its well-formed lines of
/// that name, in order; ill-formed lines are dropped.
pub open spec fn line_texts(lines: Seq<(Seq<char>, Seq<char>)>, name: Seq<char>) -> Seq<Seq<char>>
    decreases lines.len(),
{
    if lines.len() == 0 {
        Seq::empty()
    } else {
        let rest = line_texts(lines.drop_last(), name);
        if headers::header_name(lines.last().0) == Some(name) && headers::header_value(
            lines.last().1,
        ) {
            rest.push(lines.last().1)
        } else {
            rest
        }
    }
}

/// A response has exactly its well-formed header lines, those of one name in
/// the order in which they came.
pub proof fn law_response_headers_are_its_lines(
    lines: Seq<(Seq<char>, Seq<char>)>,
    name: Seq<char>,
)
    ensures
        headers::values_of(fetch::headers_read(lines, lines.len()), name) == line_texts(
            lines,
            name,
        ),
{
    lemma_headers_read(lines, lines.len(), name);
    assert(lines.take(lines.len() as int) =~= lines);
}

proof fn lemma_headers_read(lines: Seq<(Seq<char>, Seq<char>)>, n: nat, name: Seq<char>)
    requires
        n <= lines.len(),
    ensures
        headers::values_of(fetch::headers_read(lines, n), name) == line_texts(
            lines.take(n as int),
            name,
        ),
    decreases n,
{
    if n > 0 {
        lemma_headers_read(lines, (n - 1) as nat, name);
        let head = lines.take(n as int);
        assert(head.drop_last() =~= lines.take(n - 1));
        assert(head.last() == lines[n - 1]);
    }
}

/// A callout that the host failed fails with the kind that the host gave, and
/// a result of another callout is an internal error.
pub proof fn law_callout_errors_keep_their_kind(e: wire::CalloutError, what: Seq<char>)
    ensures
        fetch::callout_failure(e).kind.lowered() == e.kind,
        fetch::unexpected(what).kind == ProviderErrorKind::Internal,
{
    error::law_wire_kind_round_trip(e.kind);
}

/// A blob fetch needs a cache key: without one it fails as invalid input, and
/// with one it fails as a plain send does.
pub proof fn law_blob_fetch_needs_a_cache_key(
    request: RequestModel,
    cache_key: Option<Seq<char>>,
    open: Map<Seq<char>, nat>,
    key: Option<Seq<char>>,
    now: nat,
)
    requires
        request.error is None,
    ensures
        cache_key is None ==> (fetch::blob_send_failure(request, cache_key, open, key, now)
            matches Some(f) && f.kind == ProviderErrorKind::InvalidInput),
        cache_key is Some ==> fetch::blob_send_failure(request, cache_key, open, key, now)
            == fetch::send_failure(request, open, key, now),
{
}

/// The value of a hexadecimal digit in the letter case that is written.
pub open spec fn digit_value(c: char, upper: bool) -> int {
    if '0' <= c <= '9' {
        c as int - '0' as int
    } else if upper && 'A' <= c <= 'F' {
        c as int - 'A' as int + 10
    } else if !upper && 'a' <= c <= 'f' {
        c as int - 'a' as int + 10
    } else {
        -1
    }
}

proof fn lemma_digit(d: int, upper: bool)
    requires
        0 <= d < 16,
    ensures
        digit_value(http_endpoint::hex_digit(d, upper), upper) == d,
{
    if d <= 9 {
        assert(('0' as u32 + d) as char as int == '0' as int + d);
    } else if upper {
        assert(('A' as u32 + d - 10) as char as int == 'A' as int + d - 10);
    } else {
        assert(('a' as u32 + d - 10) as char as int == 'a' as int + d - 10);
    }
}

/// How a byte stands in a query: a letter, a digit or one of `*-._` as itself,
/// a blank as a plus sign, and anything else as a percent sign and its two
/// digits in base 16, in capitals.
pub proof fn law_query_bytes_are_form_encoded(b: u8)
    ensures
        ({
            let c = b as char;
            let text = http_endpoint::form_byte(b);
            if 'a' <= c <= 'z' || 'A' <= c <= 'Z' || '0' <= c <= '9' || c == '*' || c == '-' || c
                == '.' || c == '_' {
                text == seq![c]
            } else if c == ' ' {
                text == seq!['+']
            } else {
                &&& text.len() == 3
                &&& text[0] == '%'
                &&& digit_value(text[1], true) * 16 + digit_value(text[2], true) == b
            }
        }),
{
    lemma_digit(b as int / 16, true);
    lemma_digit(b as int % 16, true);
}

/// A query text is encoded byte by byte.
pub proof fn law_query_text_is_encoded_bytewise(a: Seq<u8>, b: Seq<u8>)
    ensures
        http_endpoint::form_bytes(a + b) == http_endpoint::form_bytes(a)
            + http_endpoint::form_bytes(b),
        a.len() == 1 ==> http_endpoint::form_bytes(a) == http_endpoint::form_byte(a[0]),
    decreases b.len(),
{
    if a.len() == 1 {
        assert(a.drop_last() =~= Seq::<u8>::empty());
        assert(http_endpoint::form_bytes(a.drop_last()) == Seq::<char>::empty());
        assert(http_endpoint::form_bytes(a) =~= http_endpoint::form_byte(a[0]));
    }
    let both = a + b;
    if b.len() == 0 {
        assert(both =~= a);
        assert(http_endpoint::form_bytes(a) + Seq::<char>::empty() =~= http_endpoint::form_bytes(
            a,
        ));
    } else {
        assert(both.drop_last() =~= a + b.drop_last());
        law_query_text_is_encoded_bytewise(a, b.drop_last());
        assert(http_endpoint::form_bytes(both) =~= http_endpoint::form_bytes(a)
            + http_endpoint::form_bytes(b));
    }
}

/// A query holds its pairs in order, joined by ampersands, each name before
/// its value with an equals sign between them.
pub proof fn law_query_joins_its_pairs(
    pairs: Seq<(Seq<char>, Seq<char>)>,
    name: Seq<char>,
    value: Seq<char>,
)
    ensures
        http_endpoint::query_text(pairs.push((name, value))) == (if pairs.len() == 0 {
            Seq::empty()
        } else {
            http_endpoint::query_text(pairs) + "&"@
        }) + http_endpoint::form_text(name) + "="@ + http_endpoint::form_text(value),
{
    let form = |p: (Seq<char>, Seq<char>)| http_endpoint::form_pair(p);
    let more = pairs.push((name, value)).map_values(form);
    let pair = http_endpoint::form_pair((name, value));
    assert(more.drop_last() =~= pairs.map_values(form));
    assert(more.last() == pair);
    if pairs.len() == 0 {
        assert(http_endpoint::query_text(pairs.push((name, value))) == more[0]);
        assert(pair =~= Seq::<char>::empty() + http_endpoint::form_text(name) + "="@
            + http_endpoint::form_text(value));
    } else {
        assert(http_endpoint::query_text(pairs) + "&"@ + pair =~= http_endpoint::query_text(pairs)
            + "&"@ + http_endpoint::form_text(name) + "="@ + http_endpoint::form_text(value));
    }
}

/// A Unix socket stands in the URL as the base 16 of its path, two small
/// digits for each byte.
pub proof fn law_socket_path_is_written_in_hex(socket: Seq<char>, i: int)
    requires
        0 <= i < vstd::utf8::encode_utf8(socket).len(),
        text::has_prefix("unix://"@ + socket, "unix:///"@),
    ensures
        ({
            let bytes = vstd::utf8::encode_utf8(socket);
            let head = http_endpoint::url_head(http_endpoint::endpoint_of("unix://"@ + socket));
            let at = 7 + 2 * i;
            &&& head.len() == 7 + 2 * bytes.len()
            &&& head.take(7) == "unix://"@
            &&& digit_value(head[at], false) * 16 + digit_value(head[at + 1], false) == bytes[i]
        }),
{
    reveal_strlit("unix://");
    let bytes = vstd::utf8::encode_utf8(socket);
    let given = "unix://"@ + socket;
    assert(text::after_prefix(given, "unix://"@) =~= socket);
    let hex = http_endpoint::hex_text(bytes);
    lemma_hex_at(bytes, i);
    let head = "unix://"@ + hex;
    assert(head.take(7) =~= "unix://"@);
    assert(head[7 + 2 * i] == hex[2 * i]);
    assert(head[7 + 2 * i + 1] == hex[2 * i + 1]);
}

proof fn lemma_hex_at(bytes: Seq<u8>, i: int)
    requires
        0 <= i < bytes.len(),
    ensures
        http_endpoint::hex_text(bytes).len() == 2 * bytes.len(),
        digit_value(http_endpoint::hex_text(bytes)[2 * i], false) * 16 + digit_value(
            http_endpoint::hex_text(bytes)[2 * i + 1],
            false,
        ) == bytes[i],
    decreases bytes.len(),
{
    let rest = bytes.drop_last();
    let last = bytes.last();
    lemma_digit(last as int / 16, false);
    lemma_digit(last as int % 16, false);
    if rest.len() > 0 {
        lemma_hex_at(
            rest,
            if i < rest.len() {
                i
            } else {
                0
            },
        );
    }
    let hex = http_endpoint::hex_text(bytes);
    let head = http_endpoint::hex_text(rest);
    assert(head.len() == 2 * rest.len());
    if i < rest.len() {
        assert(hex[2 * i] == head[2 * i]);
        assert(hex[2 * i + 1] == head[2 * i + 1]);
        assert(rest[i] == bytes[i]);
    } else {
        assert(hex[2 * i] == http_endpoint::hex_digit(last as int / 16, false));
        assert(hex[2 * i + 1] == http_endpoint::hex_digit(last as int % 16, false));
    }
}

/// An authority is the scheme and the host of a URL, and its port where one is
/// given; a URL without a host has none.
pub proof fn law_authority_is_scheme_host_and_port(
    scheme: Seq<char>,
    host: Seq<char>,
    port: Option<u16>,
)
    ensures
        rate_limit::authority_text(Some((scheme, Some(host), None))) == Some(
            scheme + "://"@ + host,
        ),
        port matches Some(number) ==> rate_limit::authority_text(Some((scheme, Some(host), port)))
            == Some(scheme + "://"@ + host + ":"@ + text::decimal(number as nat)),
        rate_limit::authority_text(Some((scheme, None, port))) is None,
        rate_limit::authority_text(None) is None,
{
}

/// A send either fails at once, as the request or the open window says, or
/// hands the host exactly the request: its method, its URL, its body and the
/// values of each of its headers in order.
pub proof fn law_send_hands_over_the_request<X>(
    request: RequestModel,
    open: Map<Seq<char>, nat>,
    key: Option<Seq<char>>,
    now: nat,
    r: fetch::CalloutFuture<Response, X>,
    name: Seq<char>,
)
    requires
        fetch::sent(request, open, key, now, r),
    ensures
        match fetch::send_failure(request, open, key, now) {
            Some(f) => r matches fetch::CalloutFuture::Ready(Some(Err(e))) && e@ == f,
            None => r matches fetch::CalloutFuture::Pending {
                callout: Some(wire::Callout::Fetch(out)),
                ..
            } && {
                &&& out.method@ == request.method.text()
                &&& out.url@ == request.url
                &&& headers::line_values(wire::header_lines(out.headers@), name)
                    == headers::values_of(request.headers, name)
                &&& match request.body {
                    Some(bytes) => out.body matches Some(given) && given@ == bytes,
                    None => out.body is None,
                }
            },
        },
{
}

/// A blob fetch hands the host the request and the cache key that it was
/// given.
pub proof fn law_blob_send_hands_over_the_request<T, X>(
    request: RequestModel,
    cache_key: Seq<char>,
    open: Map<Seq<char>, nat>,
    key: Option<Seq<char>>,
    now: nat,
    r: fetch::CalloutFuture<T, X>,
    name: Seq<char>,
)
    requires
        fetch::blob_sent(request, Some(cache_key), open, key, now, r),
    ensures
        match fetch::send_failure(request, open, key, now) {
            Some(f) => r matches fetch::CalloutFuture::Ready(Some(Err(e))) && e@ == f,
            None => r matches fetch::CalloutFuture::Pending {
                callout: Some(wire::Callout::FetchBlob(out)),
                ..
            } && {
                &&& out.method@ == request.method.text()
                &&& out.url@ == request.url
                &&& out.cache_key@ == cache_key
                &&& headers::line_values(wire::header_lines(out.headers@), name)
                    == headers::values_of(request.headers, name)
                &&& match request.body {
                    Some(bytes) => out.body matches Some(given) && given@ == bytes,
                    None => out.body is None,
                }
            },
        },
{
}

/// A header that is set while a request is built is added behind those of its
/// name; a JSON body is kept as encoded and marked as JSON; and neither
/// changes anything else.
pub proof fn law_builder_keeps_what_is_set(
    builder: BuilderModel,
    name: Seq<char>,
    value: Seq<char>,
    bytes: Seq<u8>,
    other: Seq<char>,
)
    requires
        builder.error is None,
        headers::header_name(name) is Some,
        headers::header_value(value),
    ensures
        ({
            let after = endpoint::builder_header(builder, name, value);
            &&& headers::values_of(after.headers, other) == (if other == headers::header_name(
                name,
            )->0 {
                headers::values_of(builder.headers, other).push(value)
            } else {
                headers::values_of(builder.headers, other)
            })
            &&& after == (BuilderModel { headers: after.headers, ..builder })
        }),
        ({
            let after = endpoint::builder_json(builder, Ok(bytes));
            &&& after.body == Some(bytes)
            &&& after.body_is_json
            &&& after == (BuilderModel { body: after.body, body_is_json: true, ..builder })
        }),
{
}

} // verus!

//! What a suspended operation keeps, and what a callout gets back.

use vstd::prelude::*;

use crate::async_runtime;
use crate::blob;
use crate::browse;
use crate::cx;
use crate::cx::{CalloutTask, Cx, CxModel};
use crate::error;
use crate::error::{Failure, ProviderErrorKind, Result};
use crate::fetch::{CalloutFuture, Extract};
use crate::file_attrs::VersionToken;
use crate::git;
use crate::handler;
use crate::headers;
use crate::helpers;
use crate::range_handles;
use crate::wire;
use crate::wire::{Callout, CalloutResult, GitRepoInfo, OpResult, ProviderReturn, ProviderStep};

verus! {

/// Resuming an operation that is not parked answers nothing and changes
/// nothing.
pub proof fn law_unknown_operation_is_not_resumed<F: CalloutTask<Output = ProviderReturn>, S>(
    before: Map<u64, (F, Cx<S>)>,
    after: Map<u64, (F, Cx<S>)>,
    id: u64,
    outcomes: Seq<CalloutResult>,
    r: Option<ProviderStep>,
)
    requires
        async_runtime::resumed(before, after, id, outcomes, r),
    ensures
        r is None <==> !before.dom().contains(id),
        r is None ==> after == before,
{
}

/// Resuming a parked operation without a result ends it with an internal
/// error that stages nothing; it is no longer parked, and nothing else
/// changes.
pub proof fn law_resume_needs_a_result<F: CalloutTask<Output = ProviderReturn>, S>(
    before: Map<u64, (F, Cx<S>)>,
    after: Map<u64, (F, Cx<S>)>,
    id: u64,
    r: Option<ProviderStep>,
)
    requires
        before.dom().contains(id),
        async_runtime::resumed(before, after, id, Seq::empty(), r),
    ensures
        r matches Some(ProviderStep::Returned(returned)) && {
            &&& returned.result matches OpResult::Error(e) && e.kind == wire::ErrorKind::Internal
            &&& returned.effects.canonical@.len() == 0
            &&& returned.effects.fs@.len() == 0
            &&& returned.effects.invalidations@.len() == 0
        },
        !after.dom().contains(id),
        forall|other: u64|
            other != id && #[trigger] before.dom().contains(other) ==> after.dom().contains(other)
                && after[other] == before[other],
{
    let returned = r->0->Returned_0;
    let effects = browse::effects_model(
        returned.effects.canonical@,
        returned.effects.fs@,
        returned.effects.invalidations@,
    );
    assert(effects == browse::no_effects());
    assert(effects.canonical.len() == returned.effects.canonical@.len());
    assert(effects.fs.len() == returned.effects.fs@.len());
    assert(effects.invalidations.len() == returned.effects.invalidations@.len());
}

/// Driving one operation leaves every other parked operation as it was.
pub proof fn law_operations_are_independent<F: CalloutTask<Output = ProviderReturn>, S>(
    before: Map<u64, (F, Cx<S>)>,
    after: Map<u64, (F, Cx<S>)>,
    id: u64,
    outcomes: Seq<CalloutResult>,
    r: Option<ProviderStep>,
    other: u64,
)
    requires
        async_runtime::resumed(before, after, id, outcomes, r),
        other != id,
        before.dom().contains(other),
    ensures
        after.dom().contains(other),
        after[other] == before[other],
{
    assert(before.remove(id).dom().contains(other));
    assert(before.remove(id)[other] == before[other]);
}

/// A suspended step hands the host exactly the callouts that its task yielded,
/// in order; the task is parked with its state, keeps what was delivered and
/// not yet used, and has nothing left to yield.
pub proof fn law_suspension_hands_over_the_batch<F: CalloutTask<Output = ProviderReturn>, S>(
    before: Map<u64, (F, Cx<S>)>,
    after: Map<u64, (F, Cx<S>)>,
    id: u64,
    state: S,
    rest: F,
    cx_after: CxModel,
    step: ProviderStep,
)
    requires
        async_runtime::suspended(before, after, id, state, rest, cx_after, step),
    ensures
        step is Suspended <==> cx_after.yielded.len() > 0,
        step matches ProviderStep::Suspended(batch) ==> {
            &&& batch@ == cx_after.yielded
            &&& after.dom().contains(id)
            &&& after[id].0 == rest
            &&& after[id].1.held() == state
            &&& after[id].1.machinery().yielded.len() == 0
            &&& after[id].1.machinery().delivered == cx_after.delivered
            &&& after[id].1.machinery().id == cx_after.id
            &&& after[id].1.machinery().version == cx_after.version
        },
        step matches ProviderStep::Returned(returned) ==> (returned.result matches OpResult::Error(
            e,
        ) && e.kind == wire::ErrorKind::Internal) && after == before,
{
}

/// A task that returns ends its operation with what it returned, unless it
/// still yields callouts: then the operation ends with an internal error.
pub proof fn law_return_is_handed_over<F, S>(
    before: Map<u64, (F, Cx<S>)>,
    after: Map<u64, (F, Cx<S>)>,
    cx_after: CxModel,
    response: ProviderReturn,
    step: ProviderStep,
)
    requires
        async_runtime::returned(before, after, cx_after, response, step),
    ensures
        after == before,
        cx_after.yielded.len() == 0 ==> step == ProviderStep::Returned(response),
        cx_after.yielded.len() > 0 ==> (step matches ProviderStep::Returned(returned)
            && returned.result matches OpResult::Error(e) && e.kind
            == wire::ErrorKind::Internal),
{
}

/// A callout is yielded once and then waits; it ends with what is made of the
/// first result that was delivered, and takes no other.
pub proof fn law_callout_takes_one_result<T, X: Extract<T>>(
    callout: Callout,
    extract: X,
    cx: CxModel,
    waiting: CalloutFuture<T, X>,
    cx_after: CxModel,
    result: CalloutResult,
    rest: Seq<CalloutResult>,
    cx_end: CxModel,
    output: Result<T>,
)
    requires
        CalloutTask::suspends(
            CalloutFuture::<T, X>::Pending { callout: Some(callout), extract },
            cx,
            waiting,
            cx_after,
        ),
        CalloutTask::finishes(
            waiting,
            CxModel { delivered: seq![result] + rest, ..cx_after },
            cx_end,
            output,
        ),
    ensures
        cx_after.yielded == cx.yielded.push(callout),
        cx_after.delivered == cx.delivered,
        X::extracted(result, output),
        cx_end.delivered == rest,
        cx_end.yielded == cx_after.yielded,
{
    assert((seq![result] + rest).drop_first() =~= rest);
}

/// A chunk holds the bytes of the file from its offset on, as many as were
/// asked for and are there, and it is the last exactly when it reaches the
/// end.
pub proof fn law_chunk_is_the_file_at_its_offset(bytes: Seq<u8>, offset: nat, length: nat)
    ensures
        ({
            let chunk = handler::chunk_bytes(bytes, offset, length);
            &&& offset + length <= bytes.len() ==> chunk.len() == length
            &&& offset <= bytes.len() < offset + length ==> chunk.len() == bytes.len() - offset
            &&& bytes.len() < offset ==> chunk.len() == 0
            &&& forall|i: int| 0 <= i < chunk.len() ==> #[trigger] chunk[i] == bytes[offset + i]
        }),
        handler::chunk_eof(bytes, offset, length) <==> offset + length >= bytes.len(),
{
}

/// A new handle is not zero, is not open, and is the only one that the search
/// from its start can give; the search gives none exactly when all are open.
pub proof fn law_new_handle_is_free<R>(open: Map<u64, R>, start: u64, a: u64, b: u64)
    requires
        start != 0,
        range_handles::first_free(open, start, a),
    ensures
        a != 0,
        !open.dom().contains(a),
        range_handles::first_free(open, start, b) ==> a == b,
        !open.dom().contains(start) ==> a == start,
        !range_handles::exhausted(open),
        range_handles::successor(start) != 0,
        range_handles::successor(start) != start,
{
    if range_handles::first_free(open, start, b) {
        if range_handles::distance(start, a) < range_handles::distance(start, b) {
            assert(open.dom().contains(a));
        } else if range_handles::distance(start, b) < range_handles::distance(start, a) {
            assert(open.dom().contains(b));
        }
    }
    if !open.dom().contains(start) && a != start {
        assert(range_handles::distance(start, start) < range_handles::distance(start, a));
        assert(open.dom().contains(start));
    }
}

/// An error reaches the wire with its kind, its message and its retryability;
/// a backoff is given in whole seconds, rounded down and at most the largest
/// number that fits.
pub proof fn law_error_reaches_the_wire(f: Failure, r: wire::WireError)
    requires
        error::lowered_failure(f, r),
    ensures
        f.kind != ProviderErrorKind::Unimplemented ==> ProviderErrorKind::raised(r.kind) == f.kind,
        r.message@ == f.message,
        r.retryable <==> f.kind == ProviderErrorKind::Network || f.kind
            == ProviderErrorKind::Timeout || f.kind == ProviderErrorKind::RateLimited,
        r.retry_after is Some <==> f.retry_after is Some,
        r.retry_after matches Some(secs) ==> {
            &&& secs * 1_000_000_000 <= f.retry_after->0
            &&& secs < u32::MAX ==> f.retry_after->0 < (secs + 1) * 1_000_000_000
        },
{
    error::law_kind_round_trip(f.kind);
}

/// An operation that fails returns its error and stages nothing.
pub proof fn law_failed_operation_stages_nothing(f: Failure, r: ProviderReturn)
    requires
        helpers::failed(f, r),
    ensures
        r.result matches OpResult::Error(e) && e.message@ == f.message && e.kind
            == f.kind.lowered(),
        r.effects.canonical@.len() == 0,
        r.effects.fs@.len() == 0,
        r.effects.invalidations@.len() == 0,
{
    let effects = browse::effects_model(
        r.effects.canonical@,
        r.effects.fs@,
        r.effects.invalidations@,
    );
    assert(effects.canonical.len() == r.effects.canonical@.len());
    assert(effects.fs.len() == r.effects.fs@.len());
    assert(effects.invalidations.len() == r.effects.invalidations@.len());
}

/// A fetched blob fails exactly on a client or a server error status, with the
/// kind that the status stands for.
pub proof fn law_blob_fails_by_its_status(status: u16)
    ensures
        blob::blob_failure(status) is Some <==> 400 <= status < 600,
        blob::blob_failure(status) matches Some(f) ==> f.kind == error::status_kind(status),
{
}

/// A header of a blob is the first of its lines with that name, in any letter
/// case.
pub proof fn law_blob_header_is_its_first_line(
    lines: Seq<(Seq<char>, Seq<char>)>,
    name: Seq<char>,
    i: int,
)
    requires
        0 <= i < lines.len(),
        headers::lowered(lines[i].0) == headers::lowered(name),
        forall|k: int|
            0 <= k < i ==> headers::lowered((#[trigger] lines[k]).0) != headers::lowered(name),
    ensures
        blob::line_named(lines, name, 0) == Some(lines[i].1),
{
    lemma_line_named(lines, name, 0, i);
}

proof fn lemma_line_named(
    lines: Seq<(Seq<char>, Seq<char>)>,
    name: Seq<char>,
    from: nat,
    i: int,
)
    requires
        from <= i < lines.len(),
        headers::lowered(lines[i].0) == headers::lowered(name),
        forall|k: int|
            0 <= k < i ==> headers::lowered((#[trigger] lines[k]).0) != headers::lowered(name),
    ensures
        blob::line_named(lines, name, from) == Some(lines[i].1),
    decreases i - from,
{
    if from < i {
        assert(headers::lowered(lines[from as int].0) != headers::lowered(name));
        lemma_line_named(lines, name, from + 1, i);
    }
}

/// A header that no line of a blob has is missing.
pub proof fn law_blob_header_without_a_line(
    lines: Seq<(Seq<char>, Seq<char>)>,
    name: Seq<char>,
)
    requires
        forall|k: int|
            0 <= k < lines.len() ==> headers::lowered((#[trigger] lines[k]).0) != headers::lowered(
                name,
            ),
    ensures
        blob::line_named(lines, name, 0) is None,
{
    lemma_no_line_named(lines, name, 0);
}

proof fn lemma_no_line_named(lines: Seq<(Seq<char>, Seq<char>)>, name: Seq<char>, from: nat)
    requires
        from <= lines.len(),
        forall|k: int|
            0 <= k < lines.len() ==> headers::lowered((#[trigger] lines[k]).0) != headers::lowered(
                name,
            ),
    ensures
        blob::line_named(lines, name, from) is None,
    decreases lines.len() - from,
{
    if from < lines.len() {
        assert(headers::lowered(lines[from as int].0) != headers::lowered(name));
        lemma_no_line_named(lines, name, from + 1);
    }
}

/// A parked task is polled with the results behind those that it has not used
/// yet, in the order in which they came. It ends the operation with what it
/// returns, or waits on with what it yields.
pub proof fn law_resume_delivers_the_results<F: CalloutTask<Output = ProviderReturn>, S>(
    before: Map<u64, (F, Cx<S>)>,
    after: Map<u64, (F, Cx<S>)>,
    id: u64,
    outcomes: Seq<CalloutResult>,
    r: Option<ProviderStep>,
    polled: CxModel,
)
    requires
        async_runtime::resumed(before, after, id, outcomes, r),
        before.dom().contains(id),
        outcomes.len() > 0,
        polled.id == before[id].1.machinery().id,
        polled.version == before[id].1.machinery().version,
        polled.yielded == before[id].1.machinery().yielded,
        polled.delivered == before[id].1.machinery().delivered + outcomes,
    ensures
        ({
            ||| exists|cx_after: CxModel, response: ProviderReturn| #[trigger]
                F::finishes(before[id].0, polled, cx_after, response) && (cx_after.yielded.len()
                    == 0 ==> r == Some(ProviderStep::Returned(response)))
            ||| exists|rest: F, cx_after: CxModel| #[trigger]
                F::suspends(before[id].0, polled, rest, cx_after) && (cx_after.yielded.len() > 0
                    ==> (r matches Some(ProviderStep::Suspended(batch)) && batch@
                    == cx_after.yielded && after[id].0 == rest && after[id].1.held()
                    == before[id].1.held()))
        }),
{
    let (future, cx) = before[id];
    let given = CxModel { delivered: cx.machinery().delivered + outcomes, ..cx.machinery() };
    assert(given == polled);
    let step = r->0;
    let kept = before.remove(id);
    if exists|cx_after: CxModel, response: ProviderReturn|
        #![trigger async_runtime::returned(kept, after, cx_after, response, step)]
        F::finishes(future, given, cx_after, response) && async_runtime::returned(
            kept,
            after,
            cx_after,
            response,
            step,
        ) {
        let (cx_after, response) = choose|cx_after: CxModel, response: ProviderReturn|
            #![trigger async_runtime::returned(kept, after, cx_after, response, step)]
            F::finishes(future, given, cx_after, response) && async_runtime::returned(
                kept,
                after,
                cx_after,
                response,
                step,
            );
        assert(F::finishes(before[id].0, polled, cx_after, response));
    } else {
        let (rest, cx_after) = choose|rest: F, cx_after: CxModel|
            #![trigger async_runtime::suspended(kept, after, id, cx.held(), rest, cx_after, step)]
            F::suspends(future, given, rest, cx_after) && async_runtime::suspended(
                kept,
                after,
                id,
                cx.held(),
                rest,
                cx_after,
                step,
            );
        assert(F::suspends(before[id].0, polled, rest, cx_after));
    }
}

/// An operation starts with nothing yielded and nothing delivered.
pub proof fn law_operation_starts_fresh(
    id: u64,
    version: Option<VersionToken>,
)
    ensures
        cx::fresh(id, version).id == id,
        cx::fresh(id, version).version == version,
        cx::fresh(id, version).yielded.len() == 0,
        cx::fresh(id, version).delivered.len() == 0,
{
}

/// What the host answers to a callout is handed over as it is: the bytes of a
/// blob, an opened repository, a fetched blob. A failed callout fails with the
/// host's kind, and the answer to another callout is an internal error.
pub proof fn law_replies_are_handed_over(
    result: CalloutResult,
    bytes: Result<Vec<u8>>,
    repo: Result<GitRepoInfo>,
    fetched: Result<blob::BlobRef>,
)
    requires
        blob::BlobBytes::extracted(result, bytes),
        git::RepoReply::extracted(result, repo),
        blob::BlobReply::extracted(result, fetched),
    ensures
        match result {
            CalloutResult::CalloutError(e) => {
                &&& bytes matches Err(f) && f@.kind.lowered() == e.kind
                &&& repo matches Err(f) && f@.kind.lowered() == e.kind
                &&& fetched matches Err(f) && f@.kind.lowered() == e.kind
            },
            CalloutResult::BlobRead(given) => {
                &&& bytes matches Ok(got) && got == given
                &&& repo matches Err(f) && f@.kind == ProviderErrorKind::Internal
                &&& fetched matches Err(f) && f@.kind == ProviderErrorKind::Internal
            },
            CalloutResult::GitRepoOpened(info) => {
                &&& repo matches Ok(got) && got == info
                &&& bytes matches Err(f) && f@.kind == ProviderErrorKind::Internal
                &&& fetched matches Err(f) && f@.kind == ProviderErrorKind::Internal
            },
            CalloutResult::BlobFetched(given) => {
                &&& fetched matches Ok(got) && got.id == blob::BlobId(given.blob) && got.size
                    == given.size && got.status == given.status && got.etag == given.etag
                    && got.content_type == given.content_type
                &&& bytes matches Err(f) && f@.kind == ProviderErrorKind::Internal
                &&& repo matches Err(f) && f@.kind == ProviderErrorKind::Internal
            },
            _ => {
                &&& bytes matches Err(f) && f@.kind == ProviderErrorKind::Internal
                &&& repo matches Err(f) && f@.kind == ProviderErrorKind::Internal
                &&& fetched matches Err(f) && f@.kind == ProviderErrorKind::Internal
            },
        },
{
    if let CalloutResult::CalloutError(e) = result {
        error::law_wire_kind_round_trip(e.kind);
    }
}

/// A read of a blob asks the host for that blob, from that offset and for that
/// length; opening a repository asks for that URL under that cache key.
pub proof fn law_callouts_ask_for_what_was_given(
    id: blob::BlobId,
    offset: u64,
    len: Option<u32>,
    cache_key: String,
    clone_url: String,
)
    ensures
        blob::reading(id, offset, len) matches CalloutFuture::Pending {
            callout: Some(Callout::ReadBlob(request)),
            ..
        } && request.blob == id.0 && request.offset == offset && request.len == len,
        git::opening(cache_key, clone_url) matches CalloutFuture::Pending {
            callout: Some(Callout::GitOpenRepo(request)),
            ..
        } && request.cache_key == cache_key && request.clone_url == clone_url,
{
}

} // verus!

//! Handler execution context and callout batching.
//!
//! [`Cx`] is what a handler holds: typed provider state plus the operation's
//! callout machinery. Polling a callout future pushes the callout onto the
//! yield queue and suspends; the runtime drains the queue after every poll
//! and hands the batch to the host, which runs it concurrently and resumes
//! the operation with results in batch order. Every callout is strictly
//! request/response: each one yielded expects exactly one typed result back,
//! matched positionally, not by id.
//!
//! [`join_all`] exploits that protocol to fan out N callout futures in one
//! suspension round instead of N sequential round trips. The positional
//! matching is also its sharp edge: every child must belong to the same
//! context and yield exactly one callout per suspension, or sibling results
//! silently misalign (see [`join_all`]).

use std::collections::VecDeque;
use vstd::prelude::*;

use crate::blob::{BlobId, BlobReader};
use crate::endpoint::{Endpoint, EndpointHandle};
use crate::fetch;
use crate::file_attrs::VersionToken;
use crate::git;
use crate::wire::{Callout, CalloutResult};

verus! {

/// Op-level callout machinery, independent of the provider state type.
pub struct CxShared {
    id: u64,
    yielded: Vec<Callout>,
    delivered: VecDeque<CalloutResult>,
    /// The host-pushed validator for this path's anchor, if held.
    version: Option<VersionToken>,
}

/// What a [`CxShared`] holds.
#[verifier::ext_equal]
pub struct CxModel {
    pub id: u64,
    pub yielded: Seq<Callout>,
    pub delivered: Seq<CalloutResult>,
    pub version: Option<VersionToken>,
}

impl View for CxShared {
    type V = CxModel;

    closed spec fn view(&self) -> CxModel {
        CxModel {
            id: self.id,
            yielded: self.yielded@,
            delivered: self.delivered@,
            version: self.version,
        }
    }
}

/// The machinery of an operation that has not run yet.
pub open spec fn fresh(id: u64, version: Option<VersionToken>) -> CxModel {
    CxModel { id, yielded: Seq::empty(), delivered: Seq::empty(), version }
}

impl CxShared {
    pub fn new(id: u64, version: Option<VersionToken>) -> (r: Self)
        ensures
            r@ == fresh(id, version),
    {
        let r = CxShared { id, yielded: Vec::new(), delivered: VecDeque::new(), version };
        assert(r@ =~= fresh(id, version));
        r
    }

    /// The host-assigned operation id; the correlation key the host uses to
    /// resume this operation after a callout batch.
    pub fn id(&self) -> (r: u64)
        ensures
            r == self@.id,
    {
        self.id
    }

    /// The host-pushed validator for this path's anchor, if held. A handler
    /// maps it to `If-None-Match` through
    /// [`crate::endpoint::RequestBuilder::maybe_if_none_match`].
    pub fn version(&self) -> (r: Option<&VersionToken>)
        ensures
            match self@.version {
                Some(token) => r matches Some(t) && *t == token,
                None => r is None,
            },
    {
        match &self.version {
            Some(token) => Some(token),
            None => None,
        }
    }

    /// Drain the batch of callouts that were yielded since the last time.
    pub fn take_yielded_callouts(&mut self) -> (r: Vec<Callout>)
        ensures
            r@ == old(self)@.yielded,
            final(self)@ == (CxModel { yielded: Seq::empty(), ..old(self)@ }),
    {
        let mut batch: Vec<Callout> = Vec::new();
        core::mem::swap(&mut batch, &mut self.yielded);
        batch
    }

    /// Queue a result that the host delivered.
    pub fn push_delivered(&mut self, outcome: CalloutResult)
        ensures
            final(self)@ == (CxModel {
                delivered: old(self)@.delivered.push(outcome),
                ..old(self)@
            }),
    {
        self.delivered.push_back(outcome);
    }

    /// Yield a callout.
    pub fn push_yielded(&mut self, callout: Callout)
        ensures
            final(self)@ == (CxModel { yielded: old(self)@.yielded.push(callout), ..old(self)@ }),
    {
        self.yielded.push(callout);
    }

    /// Take the next result that the host delivered.
    pub fn pop_delivered(&mut self) -> (r: Option<CalloutResult>)
        ensures
            old(self)@.delivered.len() == 0 ==> r is None && final(self)@ == old(self)@,
            old(self)@.delivered.len() > 0 ==> r == Some(old(self)@.delivered[0]) && final(self)@
                == (CxModel { delivered: old(self)@.delivered.drop_first(), ..old(self)@ }),
    {
        let r = self.delivered.pop_front();
        assert(old(self)@.delivered.len() > 0 ==> self.delivered@ =~= old(
            self,
        )@.delivered.drop_first());
        r
    }
}

/// Execution context for provider handlers: the op-level callout machinery
/// and the typed provider state.
pub struct Cx<S> {
    shared: CxShared,
    state: S,
}

impl<S> Cx<S> {
    /// The callout machinery.
    pub closed spec fn machinery(&self) -> CxModel {
        self.shared@
    }

    /// The provider state.
    pub closed spec fn held(&self) -> S {
        self.state
    }

    /// Create a new context for the given operation id and state.
    pub fn new(id: u64, state: S) -> (r: Self)
        ensures
            r.machinery() == fresh(id, None),
            r.held() == state,
    {
        Cx { shared: CxShared::new(id, None), state }
    }

    /// Attach the host-pushed validator for this anchor. Called before a
    /// handler or a load runs; the validator is read back via
    /// [`CxShared::version`]. Starts with fresh queues because the validator
    /// is fixed for the lifetime of a single operation.
    #[must_use]
    pub fn with_version(self, version: Option<VersionToken>) -> (r: Self)
        ensures
            r.machinery() == fresh(self.machinery().id, version),
            r.held() == self.held(),
    {
        Cx { shared: CxShared::new(self.shared.id, version), state: self.state }
    }

    /// The state-erased part of this operation: loads yield and take results
    /// on the same queues as the operation the runtime is driving.
    pub fn erase_state(&mut self) -> (r: &mut CxShared)
        ensures
            r@ == old(self).machinery(),
            final(r)@ == final(self).machinery(),
            final(self).held() == old(self).held(),
    {
        &mut self.shared
    }

    /// Create a new context for a provider event. The event carries nothing
    /// the context needs, so this is equivalent to [`Cx::new`].
    pub fn from_event(id: u64, state: S) -> (r: Self)
        ensures
            r.machinery() == fresh(id, None),
            r.held() == state,
    {
        Self::new(id, state)
    }

    /// A typed handle to a declared outbound [`Endpoint`].
    pub fn endpoint<E: Endpoint>(&self) -> (r: EndpointHandle<E>) {
        EndpointHandle::new()
    }

    /// Raw HTTP callout builder against a fully formed URL. Prefer
    /// [`Self::endpoint`] for declared upstream hosts.
    pub fn http(&self) -> (r: fetch::Builder) {
        fetch::Builder::new()
    }

    /// Git callout builder; see [`crate::git`] for the open/clone contract.
    pub fn git(&self) -> (r: git::Builder) {
        git::Builder::new()
    }

    /// Reader for a blob already stored host-side. Each read copies bytes
    /// into guest memory under a host policy cap.
    pub fn blob(&self, id: BlobId) -> (r: BlobReader)
        ensures
            r.blob == id,
    {
        BlobReader::new(id)
    }

    pub fn version(&self) -> (r: Option<&VersionToken>)
        ensures
            match self.machinery().version {
                Some(token) => r matches Some(t) && *t == token,
                None => r is None,
            },
    {
        self.shared.version()
    }

    pub fn id(&self) -> (r: u64)
        ensures
            r == self.machinery().id,
    {
        self.shared.id
    }

    /// The provider state.
    pub fn state(&self) -> (r: &S)
        ensures
            *r == self.held(),
    {
        &self.state
    }

    /// The provider state, to be changed.
    pub fn state_mut(&mut self) -> (r: &mut S)
        ensures
            *r == old(self).held(),
            *final(r) == final(self).held(),
            final(self).machinery() == old(self).machinery(),
    {
        &mut self.state
    }
}

/// Whether something that was polled has finished.
#[derive(Debug, PartialEq, Eq)]
pub enum Polled<T> {
    Ready(T),
    Pending,
}

/// Something that runs on an operation's queues until it is ready.
pub trait CalloutTask: Sized {
    type Output;

    /// A poll may finish the task with that output: the task and the
    /// machinery before it, and the machinery after it.
    open spec fn finishes(before: Self, cx: CxModel, cx_after: CxModel, output: Self::Output) -> bool {
        vstd::pervasive::arbitrary()
    }

    /// A poll may leave the task unfinished: the task and the machinery
    /// before and after it.
    open spec fn suspends(before: Self, cx: CxModel, after: Self, cx_after: CxModel) -> bool {
        vstd::pervasive::arbitrary()
    }

    fn poll(&mut self, cx: &mut CxShared) -> (r: Polled<Self::Output>)
        ensures
            match r {
                Polled::Ready(output) => Self::finishes(
                    *old(self),
                    old(cx)@,
                    final(cx)@,
                    output,
                ),
                Polled::Pending => Self::suspends(
                    *old(self),
                    old(cx)@,
                    *final(self),
                    final(cx)@,
                ),
            },
    ;
}

/// A child of a fan-out: still running, or finished with its output.
pub enum Child<F, T> {
    Running(F),
    Finished(T),
}

/// Future returned by [`join_all`]. Polls children in index order, which is
/// what keeps yield order (and therefore delivery order) aligned with input
/// order across suspension rounds; children finish independently and the
/// output preserves input positions.
pub struct JoinAll<F: CalloutTask> {
    pub children: Vec<Child<F, F::Output>>,
    /// The outputs have been handed over.
    pub drained: bool,
}

/// Every child is still running.
pub open spec fn running<F: CalloutTask>(futures: Seq<F>) -> Seq<Child<F, F::Output>> {
    futures.map_values(|f: F| Child::Running(f))
}

/// What one round does to a child: a finished one stays, a running one is
/// polled once.
pub open spec fn child_polled<F: CalloutTask>(
    before: Child<F, F::Output>,
    cx: CxModel,
    after: Child<F, F::Output>,
    cx_after: CxModel,
) -> bool {
    match before {
        Child::Finished(_) => after == before && cx_after == cx,
        Child::Running(task) => match after {
            Child::Finished(output) => F::finishes(task, cx, cx_after, output),
            Child::Running(rest) => F::suspends(task, cx, rest, cx_after),
        },
    }
}

/// One round over the first `n` children, in index order: `queues` is the
/// machinery before each one and after the last.
pub open spec fn round<F: CalloutTask>(
    before: Seq<Child<F, F::Output>>,
    after: Seq<Child<F, F::Output>>,
    queues: Seq<CxModel>,
    n: int,
) -> bool {
    forall|i: int|
        #![trigger before[i]]
        #![trigger after[i]]
        0 <= i < n ==> child_polled(before[i], queues[i], after[i], queues[i + 1])
}

/// Every child has finished.
pub open spec fn all_finished<F: CalloutTask>(children: Seq<Child<F, F::Output>>) -> bool {
    forall|i: int| 0 <= i < children.len() ==> (#[trigger] children[i]) is Finished
}

/// The outputs of finished children.
pub open spec fn outputs<F: CalloutTask>(children: Seq<Child<F, F::Output>>) -> Seq<F::Output> {
    children.map_values(|c: Child<F, F::Output>| c->Finished_0)
}

/// A poll runs one round; when every child has finished, the outputs are
/// handed over in input order and no child is left.
pub open spec fn join_polled<F: CalloutTask>(
    before: Seq<Child<F, F::Output>>,
    cx: CxModel,
    after: Seq<Child<F, F::Output>>,
    cx_after: CxModel,
    r: Polled<Seq<F::Output>>,
    polled: Seq<Child<F, F::Output>>,
    queues: Seq<CxModel>,
) -> bool {
    &&& polled.len() == before.len()
    &&& queues.len() == before.len() + 1
    &&& queues[0] == cx
    &&& queues[before.len() as int] == cx_after
    &&& round(before, polled, queues, before.len() as int)
    &&& match r {
        Polled::Ready(values) => all_finished(polled) && values == outputs(polled) && after
            == Seq::<Child<F, F::Output>>::empty(),
        Polled::Pending => !all_finished(polled) && after == polled,
    }
}

/// What a poll gave, as a sequence.
pub open spec fn joined_outputs<T>(r: Polled<Vec<T>>) -> Polled<Seq<T>> {
    match r {
        Polled::Ready(values) => Polled::Ready(values@),
        Polled::Pending => Polled::Pending,
    }
}

/// Run a collection of callout futures concurrently and collect their
/// outputs in input order. All queued callouts are yielded in a single
/// batch, so the host runs them in parallel and the whole fan-out costs one
/// suspension round instead of one per child; on resume each child consumes
/// its result from the delivery queue in FIFO order.
///
/// Correctness rests on positional alignment, and violations are NOT
/// detected; they surface as siblings receiving each other's results (or a
/// type-mismatch error at best). Every child future MUST:
///
/// - belong to the same context as its siblings (results are delivered to
///   one operation queue), and
/// - yield exactly one callout per suspension, the
///   [`crate::fetch::CalloutFuture`] shape. A child that yields two callouts
///   from one poll, or polls `Pending` without yielding, shifts every later
///   sibling's result.
pub fn join_all<F: CalloutTask>(futures: Vec<F>) -> (r: JoinAll<F>)
    ensures
        r.children@ == running(futures@),
        !r.drained,
{
    let ghost all = futures@;
    let mut children: Vec<Child<F, F::Output>> = Vec::new();
    assert(running(all.take(0)) =~= Seq::<Child<F, F::Output>>::empty());
    for future in it: futures
        invariant
            it.seq() == all,
            children@ == running(all.take(it.index() as int)),
    {
        let ghost i = it.index() as int;
        assert(future == all[i]);
        children.push(Child::Running(future));
        assert(running(all.take(i + 1)) =~= running(all.take(i)).push(Child::Running(all[i])));
    }
    assert(all.take(all.len() as int) =~= all);
    JoinAll { children, drained: false }
}

impl<F: CalloutTask> JoinAll<F> {
    /// Poll every child that is still running once, in index order. Outputs
    /// are handed over once.
    pub fn poll(&mut self, cx: &mut CxShared) -> (r: Polled<Vec<F::Output>>)
        requires
            !old(self).drained,
        ensures
            final(self).drained == (r is Ready && old(self).children@.len() > 0),
            exists|polled: Seq<Child<F, F::Output>>, queues: Seq<CxModel>| #[trigger]
                join_polled(
                    old(self).children@,
                    old(cx)@,
                    final(self).children@,
                    final(cx)@,
                    joined_outputs(r),
                    polled,
                    queues,
                ),
    {
        let ghost before = self.children@;
        let ghost mut queues: Seq<CxModel> = seq![cx@];
        let mut children: Vec<Child<F, F::Output>> = Vec::new();
        core::mem::swap(&mut children, &mut self.children);
        let mut polled: Vec<Child<F, F::Output>> = Vec::new();
        let mut all_ready = true;
        for child in it: children
            invariant
                it.seq() == before,
                polled@.len() == it.index(),
                queues.len() == it.index() + 1,
                queues[0] == old(cx)@,
                queues[it.index() as int] == cx@,
                round(before, polled@, queues, it.index() as int),
                all_ready == all_finished(polled@),
        {
            let ghost i = it.index() as int;
            let ghost done = polled@;
            let ghost known = queues;
            let ghost start = cx@;
            assert(child == before[i]);
            let next = match child {
                Child::Finished(output) => Child::Finished(output),
                Child::Running(task) => {
                    let mut task = task;
                    match task.poll(cx) {
                        Polled::Ready(output) => Child::Finished(output),
                        Polled::Pending => Child::Running(task),
                    }
                },
            };
            let finished = matches!(next, Child::Finished(_));
            let ghost shown = next;
            polled.push(next);
            proof {
                assert(child_polled(before[i], start, shown, cx@));
                queues = queues.push(cx@);
                assert forall|k: int|
                    #![trigger before[k]]
                    #![trigger polled@[k]]
                    0 <= k < i + 1 implies child_polled(
                    before[k],
                    queues[k],
                    polled@[k],
                    queues[k + 1],
                ) by {
                    if k < i {
                        assert(polled@[k] == done[k]);
                        assert(child_polled(before[k], known[k], done[k], known[k + 1]));
                    }
                }
                assert(polled@[i] == shown);
                assert forall|k: int| 0 <= k < done.len() implies #[trigger] done[k]
                    == polled@[k] by {}
                if all_finished(polled@) {
                    assert forall|k: int| 0 <= k < done.len() implies (
                    #[trigger] done[k]) is Finished by {
                        assert(polled@[k] is Finished);
                    }
                }
            }
            all_ready = all_ready && finished;
        }
        let ghost all = polled@;
        if !all_ready {
            self.children = polled;
            proof {
                assert(join_polled(
                    before,
                    old(cx)@,
                    self.children@,
                    cx@,
                    Polled::<Seq<F::Output>>::Pending,
                    all,
                    queues,
                ));
            }
            return Polled::Pending;
        }
        self.drained = polled.len() > 0;
        let values = collect_outputs(polled);
        proof {
            assert(self.children@ =~= Seq::<Child<F, F::Output>>::empty());
            assert(join_polled(
                before,
                old(cx)@,
                self.children@,
                cx@,
                Polled::Ready(values@),
                all,
                queues,
            ));
        }
        Polled::Ready(values)
    }
}

/// The outputs of finished children.
fn collect_outputs<F: CalloutTask>(children: Vec<Child<F, F::Output>>) -> (r: Vec<F::Output>)
    requires
        all_finished(children@),
    ensures
        r@ == outputs(children@),
{
    let ghost all = children@;
    let mut values: Vec<F::Output> = Vec::new();
    assert(outputs(all.take(0)) =~= Seq::<F::Output>::empty());
    for child in it: children
        invariant
            it.seq() == all,
            all_finished(all),
            values@ == outputs(all.take(it.index() as int)),
    {
        let ghost i = it.index() as int;
        assert(child == all[i]);
        assert(all[i] is Finished);
        if let Child::Finished(value) = child {
            values.push(value);
        }
        assert(outputs(all.take(i + 1)) =~= outputs(all.take(i)).push(all[i]->Finished_0));
    }
    assert(all.take(all.len() as int) =~= all);
    values
}

} // verus!

//! The per-operation future table behind suspend/resume.
//!
//! One runtime per provider drives handler futures from the entry points:
//! each browse operation starts a handler future here, and a resumption
//! re-enters it with the host's callout results.
//!
//! Lifecycle per operation id: [`AsyncRuntime::start`] polls the future
//! once. `Pending` with yielded callouts parks the future and its [`Cx`]
//! under the id and returns a suspend step carrying the batch; `Ready`
//! returns the terminal. On [`AsyncRuntime::resume`] the host's results,
//! positionally ordered against the yielded batch, are pushed FIFO into the
//! delivery queue before the future is re-polled; the parked entry is
//! removed first, so a second resume for the same id is an error, not a
//! re-poll. Dropping a parked future ([`AsyncRuntime::cancel`] or
//! [`AsyncRuntime::clear`]) is cancellation.
//!
//! Two states are rejected as internal errors instead of being parked,
//! because each would otherwise wedge the host's view of the operation:
//! `Pending` with no yielded callouts (a stalled future nothing will ever
//! wake) and `Ready` with callouts still queued (a terminal racing staged
//! work).

use vstd::prelude::*;
use vstd::string::*;

use crate::cx::{CalloutTask, Cx, CxModel, Polled};
use crate::error;
use crate::error::{Failure, ProviderError, ProviderErrorKind};
use crate::helpers;
use crate::wire::{CalloutResult, ProviderReturn, ProviderStep};

verus! {

/// Where each parked operation is kept, by operation id.
#[verifier::external_body]
pub struct SlotTable {
    map: hashbrown::HashMap<u64, usize>,
}

/// What a [`SlotTable`] holds.
pub uninterp spec fn slots(table: SlotTable) -> Map<u64, usize>;

/// No slot is taken.
pub open spec fn no_slots() -> Map<u64, usize> {
    Map::empty()
}

impl SlotTable {
    /// `hashbrown::HashMap::new`: the map holds nothing.
    #[verifier::external_body]
    fn new() -> (r: Self)
        ensures
            slots(r) == no_slots(),
    {
        SlotTable { map: hashbrown::HashMap::new() }
    }

    /// `hashbrown::HashMap::insert`: the key stands for the value, whatever
    /// it stood for before, and every other key for what it did.
    #[verifier::external_body]
    fn insert(&mut self, id: u64, slot: usize)
        ensures
            slots(*final(self)) == slots(*old(self)).insert(id, slot),
    {
        self.map.insert(id, slot);
    }

    /// `hashbrown::HashMap::remove`: the value at the key is handed over, if
    /// there is one; the key stands for nothing afterwards, and every other
    /// key for what it did.
    #[verifier::external_body]
    fn remove(&mut self, id: u64) -> (r: Option<usize>)
        ensures
            slots(*final(self)) == slots(*old(self)).remove(id),
            r == (if slots(*old(self)).dom().contains(id) {
                Some(slots(*old(self))[id])
            } else {
                None::<usize>
            }),
    {
        self.map.remove(&id)
    }
}

/// Table of suspended handler futures keyed by operation id. See the module
/// docs for the lifecycle contract.
pub struct AsyncRuntime<F, S> {
    pending: SlotTable,
    parked: Vec<Option<(F, Cx<S>)>>,
}

/// Every id has a filled slot of its own.
spec fn slotted<V>(table: Map<u64, usize>, parked: Seq<Option<V>>) -> bool {
    &&& forall|id: u64| #[trigger]
        table.dom().contains(id) ==> table[id] < parked.len() && parked[table[id] as int] is Some
    &&& forall|a: u64, b: u64|
        #![trigger table[a], table[b]]
        table.dom().contains(a) && table.dom().contains(b) && table[a] == table[b] ==> a == b
}

/// The parked futures and contexts by operation id.
spec fn kept<V>(table: Map<u64, usize>, parked: Seq<Option<V>>) -> Map<u64, V> {
    table.map_values(|slot: usize| parked[slot as int]->0)
}

impl<F, S> View for AsyncRuntime<F, S> {
    type V = Map<u64, (F, Cx<S>)>;

    closed spec fn view(&self) -> Map<u64, (F, Cx<S>)> {
        kept(slots(self.pending), self.parked@)
    }
}

/// The failure of a stalled future.
pub open spec fn stalled() -> Failure {
    error::failure(
        ProviderErrorKind::Internal,
        "future polled Pending without yielding callouts"@,
    )
}

/// The failure of a future that is done while callouts are queued.
pub open spec fn racing() -> Failure {
    error::failure(ProviderErrorKind::Internal, "future returned while yielding callouts"@)
}

/// What one poll of an operation's future leads to when the future is ready.
pub open spec fn returned<F, S>(
    before: Map<u64, (F, Cx<S>)>,
    after: Map<u64, (F, Cx<S>)>,
    cx_after: CxModel,
    response: ProviderReturn,
    step: ProviderStep,
) -> bool {
    &&& after == before
    &&& if cx_after.yielded.len() > 0 {
        helpers::failed_step(racing(), step)
    } else {
        step == ProviderStep::Returned(response)
    }
}

/// What one poll of an operation's future leads to when the future is
/// pending: a stalled one is dropped, another parked with its queues, from
/// which the batch was taken.
pub open spec fn suspended<F, S>(
    before: Map<u64, (F, Cx<S>)>,
    after: Map<u64, (F, Cx<S>)>,
    id: u64,
    state: S,
    rest: F,
    cx_after: CxModel,
    step: ProviderStep,
) -> bool {
    if cx_after.yielded.len() == 0 {
        helpers::failed_step(stalled(), step) && after == before
    } else {
        &&& step matches ProviderStep::Suspended(batch)
        &&& batch@ == cx_after.yielded
        &&& after.dom() == before.dom().insert(id)
        &&& forall|other: u64|
            other != id && #[trigger] before.dom().contains(other) ==> after[other]
                == before[other]
        &&& after[id].0 == rest
        &&& after[id].1.held() == state
        &&& after[id].1.machinery() == (CxModel { yielded: Seq::empty(), ..cx_after })
    }
}

/// What driving an operation's future once leads to.
pub open spec fn driven<F: CalloutTask<Output = ProviderReturn>, S>(
    before: Map<u64, (F, Cx<S>)>,
    after: Map<u64, (F, Cx<S>)>,
    id: u64,
    future: F,
    cx: CxModel,
    state: S,
    step: ProviderStep,
) -> bool {
    ||| exists|cx_after: CxModel, response: ProviderReturn|
        #![trigger returned(before, after, cx_after, response, step)]
        F::finishes(future, cx, cx_after, response) && returned(
            before,
            after,
            cx_after,
            response,
            step,
        )
    ||| exists|rest: F, cx_after: CxModel|
        #![trigger suspended(before, after, id, state, rest, cx_after, step)]
        F::suspends(future, cx, rest, cx_after) && suspended(
            before,
            after,
            id,
            state,
            rest,
            cx_after,
            step,
        )
}

impl<F, S> Default for AsyncRuntime<F, S> {
    fn default() -> (r: Self)
        ensures
            r@ == Map::<u64, (F, Cx<S>)>::empty(),
    {
        Self::new()
    }
}

impl<F, S> AsyncRuntime<F, S> {
    #[verifier::type_invariant]
    spec fn inv(self) -> bool {
        slotted(slots(self.pending), self.parked@)
    }

    pub fn new() -> (r: Self)
        ensures
            r@ == Map::<u64, (F, Cx<S>)>::empty(),
    {
        let r = AsyncRuntime { pending: SlotTable::new(), parked: Vec::new() };
        assert(r@ =~= Map::<u64, (F, Cx<S>)>::empty());
        r
    }

    /// Drop every parked future. Called on provider shutdown so suspended
    /// operations do not outlive the instance.
    pub fn clear(&mut self)
        ensures
            final(self)@ == Map::<u64, (F, Cx<S>)>::empty(),
    {
        *self = Self::new();
    }

    /// Drop one parked future; dropping is the cancellation mechanism. A
    /// later `resume` for the id finds nothing and reports the missing
    /// operation.
    pub fn cancel(&mut self, id: u64)
        ensures
            final(self)@ == old(self)@.remove(id),
    {
        let _ = self.take(id);
    }

    /// Take a parked future out.
    fn take(&mut self, id: u64) -> (r: Option<(F, Cx<S>)>)
        ensures
            final(self)@ == old(self)@.remove(id),
            r == (if old(self)@.dom().contains(id) {
                Some(old(self)@[id])
            } else {
                None::<(F, Cx<S>)>
            }),
    {
        proof {
            use_type_invariant(&*self);
        }
        let ghost before = self@;
        let ghost table = slots(self.pending);
        let ghost all = self.parked@;
        let mut pending = SlotTable::new();
        let mut parked: Vec<Option<(F, Cx<S>)>> = Vec::new();
        core::mem::swap(&mut pending, &mut self.pending);
        core::mem::swap(&mut parked, &mut self.parked);
        let r = match pending.remove(id) {
            Some(slot) => {
                let mut entry: Option<(F, Cx<S>)> = None;
                core::mem::swap(&mut entry, &mut parked[slot]);
                entry
            },
            None => None,
        };
        proof {
            let rest = slots(pending);
            assert forall|other: u64| #[trigger] rest.dom().contains(other) implies rest[other]
                < parked@.len() && parked@[rest[other] as int] is Some && parked@[rest[other] as int]
                == all[rest[other] as int] by {
                assert(table.dom().contains(other));
                if table.dom().contains(id) {
                    assert(table[other] != table[id]);
                }
            }
            assert forall|a: u64, b: u64|
                #![trigger rest[a], rest[b]]
                rest.dom().contains(a) && rest.dom().contains(b) && rest[a] == rest[b] implies a
                == b by {
                assert(table[a] == table[b]);
            }
            assert(kept(rest, parked@) =~= before.remove(id));
        }
        *self = AsyncRuntime { pending, parked };
        r
    }

    /// Park a future under an id that has none.
    fn park(&mut self, id: u64, future: F, cx: Cx<S>)
        requires
            !old(self)@.dom().contains(id),
        ensures
            final(self)@ == old(self)@.insert(id, (future, cx)),
    {
        proof {
            use_type_invariant(&*self);
        }
        let ghost before = self@;
        let ghost table = slots(self.pending);
        let ghost all = self.parked@;
        let mut pending = SlotTable::new();
        let mut parked: Vec<Option<(F, Cx<S>)>> = Vec::new();
        core::mem::swap(&mut pending, &mut self.pending);
        core::mem::swap(&mut parked, &mut self.parked);
        // The first free slot, or a new one.
        let mut slot: usize = 0;
        while slot < parked.len() && parked[slot].is_some()
            invariant
                slot <= parked@.len(),
            decreases parked@.len() - slot,
        {
            slot = slot + 1;
        }
        let ghost entry = (future, cx);
        if slot < parked.len() {
            parked.set(slot, Some((future, cx)));
        } else {
            parked.push(Some((future, cx)));
        }
        pending.insert(id, slot);
        proof {
            let more = slots(pending);
            assert forall|other: u64| #[trigger] table.dom().contains(other) implies table[other]
                != slot && parked@[table[other] as int] == all[table[other] as int] by {}
            assert forall|a: u64, b: u64|
                #![trigger more[a], more[b]]
                more.dom().contains(a) && more.dom().contains(b) && more[a] == more[b] implies a
                == b by {
                if a != id {
                    assert(table.dom().contains(a));
                }
                if b != id {
                    assert(table.dom().contains(b));
                }
                if a != id && b != id {
                    assert(table[a] == table[b]);
                }
            }
            assert forall|other: u64| #[trigger] more.dom().contains(other) implies more[other]
                < parked@.len() && parked@[more[other] as int] is Some by {
                if other != id {
                    assert(table.dom().contains(other));
                }
            }
            assert(kept(more, parked@) =~= before.insert(id, entry));
        }
        *self = AsyncRuntime { pending, parked };
    }
}

/// What resuming an operation leads to.
pub open spec fn resumed<F: CalloutTask<Output = ProviderReturn>, S>(
    before: Map<u64, (F, Cx<S>)>,
    after: Map<u64, (F, Cx<S>)>,
    id: u64,
    outcomes: Seq<CalloutResult>,
    r: Option<ProviderStep>,
) -> bool {
    if !before.dom().contains(id) {
        r is None && after == before
    } else if outcomes.len() == 0 {
        &&& r matches Some(step)
        &&& helpers::failed_step(
            error::failure(
                ProviderErrorKind::Internal,
                "expected at least one callout result"@,
            ),
            step,
        )
        &&& after == before.remove(id)
    } else {
        let (future, cx) = before[id];
        &&& r matches Some(step)
        &&& driven(
            before.remove(id),
            after,
            id,
            future,
            CxModel { delivered: cx.machinery().delivered + outcomes, ..cx.machinery() },
            cx.held(),
            step,
        )
    }
}

impl<F: CalloutTask<Output = ProviderReturn>, S> AsyncRuntime<F, S> {
    /// Begin driving a handler future for operation `id`. Returns either a
    /// terminal step or a suspension carrying the first callout batch.
    pub fn start(&mut self, id: u64, cx: Cx<S>, future: F) -> (r: ProviderStep)
        ensures
            driven(old(self)@, final(self)@, id, future, cx.machinery(), cx.held(), r),
    {
        self.poll(id, future, cx)
    }

    /// Re-enter a parked operation with the host's callout results. The
    /// results must be positionally ordered against the batch the operation
    /// last yielded; they are queued FIFO before the re-poll so awaiting
    /// futures consume them in yield order. Returns `None` when no future is
    /// parked under `id` (never started, already finished, or cancelled);
    /// an empty result list is rejected because a suspension always awaits
    /// at least one result.
    pub fn resume(&mut self, id: u64, outcomes: Vec<CalloutResult>) -> (r: Option<ProviderStep>)
        ensures
            resumed(old(self)@, final(self)@, id, outcomes@, r),
    {
        let ghost before = self@;
        let (future, cx) = match self.take(id) {
            Some(entry) => entry,
            None => {
                assert(before.remove(id) =~= before);
                return None;
            },
        };
        if outcomes.len() == 0 {
            return Some(
                helpers::err_step(ProviderError::internal("expected at least one callout result")),
            );
        }
        let mut cx = cx;
        let ghost start = cx.machinery();
        let ghost state = cx.held();
        let ghost all = outcomes@;
        assert(start.delivered + all.take(0) =~= start.delivered);
        for outcome in it: outcomes
            invariant
                it.seq() == all,
                cx.held() == state,
                cx.machinery() == (CxModel {
                    delivered: start.delivered + all.take(it.index() as int),
                    ..start
                }),
        {
            let ghost i = it.index() as int;
            assert(outcome == all[i]);
            cx.erase_state().push_delivered(outcome);
            assert(start.delivered + all.take(i + 1) =~= (start.delivered + all.take(i)).push(
                all[i],
            ));
        }
        assert(all.take(all.len() as int) =~= all);
        Some(self.poll(id, future, cx))
    }

    fn poll(&mut self, id: u64, future: F, cx: Cx<S>) -> (r: ProviderStep)
        ensures
            driven(old(self)@, final(self)@, id, future, cx.machinery(), cx.held(), r),
    {
        let ghost before = self@;
        let ghost state = cx.held();
        let mut future = future;
        let mut cx = cx;
        match future.poll(cx.erase_state()) {
            Polled::Ready(response) => {
                let ghost cx_after = cx.machinery();
                let callouts = cx.erase_state().take_yielded_callouts();
                let step = if callouts.len() > 0 {
                    helpers::err_step(
                        ProviderError::internal("future returned while yielding callouts"),
                    )
                } else {
                    ProviderStep::Returned(response)
                };
                assert(returned(before, self@, cx_after, response, step));
                step
            },
            Polled::Pending => {
                let ghost cx_after = cx.machinery();
                let callouts = cx.erase_state().take_yielded_callouts();
                if callouts.len() == 0 {
                    // Stalled future with no staged work: cancel and surface
                    // an internal error rather than wedging the host.
                    let step = helpers::err_step(
                        ProviderError::internal("future polled Pending without yielding callouts"),
                    );
                    assert(suspended(before, self@, id, state, future, cx_after, step));
                    return step;
                }
                let ghost rest = future;
                self.cancel(id);
                self.park(id, future, cx);
                let step = ProviderStep::Suspended(callouts);
                assert(self@.dom() =~= before.dom().insert(id));
                assert(suspended(before, self@, id, state, rest, cx_after, step));
                step
            },
        }
    }
}

/// A second resumption of an operation that was not suspended again finds
/// nothing: the parked entry is gone before the future is polled.
pub proof fn law_resume_takes_the_parked_entry<F: CalloutTask<Output = ProviderReturn>, S>(
    before: Map<u64, (F, Cx<S>)>,
    after: Map<u64, (F, Cx<S>)>,
    id: u64,
    outcomes: Seq<CalloutResult>,
    r: Option<ProviderStep>,
)
    requires
        resumed(before, after, id, outcomes, r),
        r matches Some(step) ==> !(step is Suspended),
    ensures
        !after.dom().contains(id),
        forall|other: u64|
            other != id ==> (#[trigger] after.dom().contains(other) == before.dom().contains(
                other,
            )),
{
}

/// An operation is parked exactly when its step says that it is suspended,
/// and then its batch is not empty.
pub proof fn law_suspended_operations_are_parked<F: CalloutTask<Output = ProviderReturn>, S>(
    before: Map<u64, (F, Cx<S>)>,
    after: Map<u64, (F, Cx<S>)>,
    id: u64,
    future: F,
    cx: CxModel,
    state: S,
    step: ProviderStep,
)
    requires
        driven(before, after, id, future, cx, state, step),
        !before.dom().contains(id),
    ensures
        after.dom().contains(id) == (step is Suspended),
        step matches ProviderStep::Suspended(batch) ==> batch@.len() > 0 && after.dom().contains(
            id,
        ),
        step is Returned ==> after == before,
{
}

} // verus!

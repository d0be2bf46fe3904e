//! The handle table behind streamed/ranged file reads.
//!
//! Opening a file allocates a handle for the range reader the route produced,
//! a chunk read looks the handle up and drives the reader, and closing
//! removes it. Handles are never zero, so zero stays an invalid value on the
//! wire.

use std::collections::BTreeMap;
use vstd::prelude::*;

verus! {

/// Open ranged-read handles for one provider instance.
pub struct RangeReaders<R> {
    next: u64,
    readers: BTreeMap<u64, R>,
}

/// The handle behind a handle, with wraparound past zero.
pub open spec fn successor(handle: u64) -> u64 {
    if handle == u64::MAX {
        1
    } else {
        (handle + 1) as u64
    }
}

/// How many steps a handle lies behind another, with wraparound past zero.
pub open spec fn distance(start: u64, handle: u64) -> int {
    if handle >= start {
        handle - start
    } else {
        handle - start + u64::MAX
    }
}

/// The handle is the first free one from `start` on.
pub open spec fn first_free<R>(open: Map<u64, R>, start: u64, handle: u64) -> bool {
    &&& handle != 0
    &&& !open.dom().contains(handle)
    &&& forall|h: u64|
        h != 0 && distance(start, h) < distance(start, handle) ==> #[trigger] open.dom().contains(
            h,
        )
}

/// Every handle is taken.
pub open spec fn exhausted<R>(open: Map<u64, R>) -> bool {
    forall|h: u64| h != 0 ==> #[trigger] open.dom().contains(h)
}

fn following(handle: u64) -> (r: u64)
    ensures
        r == successor(handle),
{
    if handle == u64::MAX {
        1
    } else {
        handle + 1
    }
}

impl<R> RangeReaders<R> {
    /// The open readers by handle.
    pub closed spec fn open(&self) -> Map<u64, R> {
        self.readers@
    }

    /// The handle where the search for a free one starts.
    pub closed spec fn cursor(&self) -> u64 {
        self.next
    }

    #[verifier::type_invariant]
    spec fn inv(self) -> bool {
        self.next != 0
    }

    #[must_use]
    pub fn new() -> (r: Self)
        ensures
            r.open() == Map::<u64, R>::empty(),
            r.cursor() == 1,
    {
        RangeReaders { next: 1, readers: BTreeMap::new() }
    }

    /// Insert a reader under the next free handle. Allocation scans forward
    /// with wraparound from a monotonic cursor, so handles are not reused
    /// until the space wraps; `None` (every handle simultaneously occupied)
    /// is unreachable in practice.
    pub fn allocate(&mut self, reader: R) -> (r: Option<u64>)
        ensures
            match r {
                Some(handle) => {
                    &&& first_free(old(self).open(), old(self).cursor(), handle)
                    &&& final(self).open() == old(self).open().insert(handle, reader)
                    &&& final(self).cursor() == successor(handle)
                },
                None => {
                    &&& exhausted(old(self).open())
                    &&& final(self).open() == old(self).open()
                    &&& final(self).cursor() == old(self).cursor()
                },
            },
    {
        proof {
            use_type_invariant(&*self);
        }
        let start: u64 = self.next;
        let ghost open = self.open();
        let mut handle: u64 = start;
        while self.readers.contains_key(&handle)
            invariant
                start != 0,
                handle != 0,
                start == self.next,
                open == self.readers@,
                open == old(self).open(),
                start == old(self).cursor(),
                forall|h: u64|
                    h != 0 && distance(start, h) < distance(start, handle)
                        ==> #[trigger] open.dom().contains(h),
            decreases u64::MAX - distance(start, handle),
        {
            let next: u64 = following(handle);
            proof {
                assert(open.dom().contains(handle));
                assert forall|h: u64|
                    h != 0 && (next == start || distance(start, h) < distance(
                        start,
                        next,
                    )) implies #[trigger] open.dom().contains(h) by {
                    if h != handle {
                        assert(distance(start, h) < distance(start, handle));
                    }
                }
            }
            if next == start {
                return None;
            }
            handle = next;
        }
        let next: u64 = following(handle);
        let mut readers: BTreeMap<u64, R> = BTreeMap::new();
        core::mem::swap(&mut readers, &mut self.readers);
        readers.insert(handle, reader);
        self.readers = readers;
        self.next = next;
        Some(handle)
    }

    /// Look up a reader.
    pub fn get(&self, handle: u64) -> (r: Option<&R>)
        ensures
            if self.open().dom().contains(handle) {
                r matches Some(reader) && *reader == self.open()[handle]
            } else {
                r is None
            },
    {
        self.readers.get(&handle)
    }

    /// Drop a handle when its file is closed. Removing an unknown handle is a
    /// no-op because close must be idempotent.
    pub fn remove(&mut self, handle: u64)
        ensures
            final(self).open() == old(self).open().remove(handle),
            final(self).cursor() == old(self).cursor(),
    {
        proof {
            use_type_invariant(&*self);
        }
        let mut readers: BTreeMap<u64, R> = BTreeMap::new();
        core::mem::swap(&mut readers, &mut self.readers);
        readers.remove(&handle);
        self.readers = readers;
    }

    /// Drop every open range handle and reset the allocator. Called on provider
    /// shutdown so readers left open by an aborted open/read/close sequence (or
    /// an open whose return the host rejected) do not outlive the instance.
    pub fn clear(&mut self)
        ensures
            final(self).open() == Map::<u64, R>::empty(),
            final(self).cursor() == 1,
    {
        self.next = 1;
        self.readers = BTreeMap::new();
    }
}

impl<R> Default for RangeReaders<R> {
    fn default() -> (r: Self)
        ensures
            r.open() == Map::<u64, R>::empty(),
            r.cursor() == 1,
    {
        Self::new()
    }
}

/// A handle that was closed again right after it was opened is not given out
/// next unless every other handle is taken.
pub proof fn law_handle_is_not_reused_at_once<R>(open: Map<u64, R>, handle: u64, next: u64)
    requires
        handle != 0,
        first_free(open.remove(handle), successor(handle), next),
    ensures
        next == handle ==> forall|h: u64|
            h != 0 && h != handle ==> #[trigger] open.dom().contains(h),
{
    if next == handle {
        assert forall|h: u64| h != 0 && h != handle implies #[trigger] open.dom().contains(h) by {
            let start = successor(handle);
            assert(distance(start, h) < distance(start, handle));
            assert(open.remove(handle).dom().contains(h));
        }
    }
}

} // verus!

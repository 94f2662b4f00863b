//! Request correlation: ids for outbound requests and the completion
//! handles that wait for their replies.

use vstd::prelude::*;
use std::collections::HashMap;

verus! {

broadcast use vstd::std_specs::hash::group_hash_axioms;

/// The handles of the requests in flight, by id, and the id the next request
/// gets. Ids start at 1 and each request takes the next one.
pub struct PendingRequests<H> {
    next_id: u64,
    pending: HashMap<u64, H>,
}

impl<H> PendingRequests<H> {
    /// The id the next request will get.
    pub closed spec fn next_id(&self) -> u64 {
        self.next_id
    }

    /// The handles in flight, by request id.
    pub closed spec fn waiting(&self) -> Map<u64, H> {
        self.pending@
    }

    /// Every id in flight was issued before: it lies below the next id.
    pub open spec fn wf(&self) -> bool {
        &&& self.next_id() >= 1
        &&& forall|id: u64| #[trigger] self.waiting().contains_key(id) ==> 1 <= id < self.next_id()
    }

    pub fn new() -> (r: Self)
        ensures
            r.wf(),
            r.next_id() == 1,
            r.waiting() == Map::<u64, H>::empty(),
    {
        PendingRequests { next_id: 1, pending: HashMap::new() }
    }

    /// Issues the next id and parks `handle` under it. Ids run out only when
    /// the counter would overflow; then nothing changes and `None` comes back.
    pub fn register(&mut self, handle: H) -> (r: Option<u64>)
        requires
            old(self).wf(),
        ensures
            final(self).wf(),
            old(self).next_id() < u64::MAX ==> r == Some(old(self).next_id()) && final(self).next_id()
                == old(self).next_id() + 1,
            old(self).next_id() == u64::MAX ==> r is None && *final(self) == *old(self),
            r matches Some(id) ==> {
                &&& !old(self).waiting().contains_key(id)
                &&& final(self).next_id() == id + 1
                &&& final(self).waiting() == old(self).waiting().insert(id, handle)
            },
    {
        if self.next_id == u64::MAX {
            return None;
        }
        let id = self.next_id;
        self.pending.insert(id, handle);
        self.next_id = id + 1;
        assert forall|k: u64| #[trigger] self.waiting().contains_key(k) implies 1 <= k < self.next_id() by {
            if k != id {
                assert(old(self).waiting().contains_key(k));
            }
        }
        Some(id)
    }

    /// Removes and returns the handle waiting under `id`, if any.
    pub fn take(&mut self, id: u64) -> (r: Option<H>)
        requires
            old(self).wf(),
        ensures
            final(self).wf(),
            final(self).next_id() == old(self).next_id(),
            final(self).waiting() == old(self).waiting().remove(id),
            match r {
                Some(h) => old(self).waiting().contains_key(id) && h == old(self).waiting()[id],
                None => !old(self).waiting().contains_key(id),
            },
    {
        let r = self.pending.remove(&id);
        assert forall|k: u64| #[trigger] self.waiting().contains_key(k) implies 1 <= k < self.next_id() by {
            assert(old(self).waiting().contains_key(k));
        }
        r
    }

    /// Whether a request with this id is waiting.
    pub fn is_waiting(&self, id: u64) -> (r: bool)
        requires
            self.wf(),
        ensures
            r == self.waiting().contains_key(id),
    {
        self.pending.contains_key(&id)
    }

    /// Hands out every waiting handle, for cancellation once the process is
    /// gone; the ids stay used.
    pub fn cancel_all(&mut self) -> (r: HashMap<u64, H>)
        requires
            old(self).wf(),
        ensures
            final(self).wf(),
            final(self).next_id() == old(self).next_id(),
            final(self).waiting() == Map::<u64, H>::empty(),
            r@ == old(self).waiting(),
    {
        let mut drained: HashMap<u64, H> = HashMap::new();
        std::mem::swap(&mut self.pending, &mut drained);
        drained
    }
}

/// Ids are never reused: two requests issued one after the other get
/// consecutive ids, and an issued id is never one that is still waiting.
pub proof fn law_ids_consecutive<H>(p: PendingRequests<H>)
    requires
        p.wf(),
    ensures
        !p.waiting().contains_key(p.next_id()),
        forall|id: u64| #[trigger] p.waiting().contains_key(id) ==> id < p.next_id(),
{
}

} // verus!

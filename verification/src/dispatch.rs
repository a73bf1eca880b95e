//! Bounded-concurrency dispatcher for inference work.
//!
//! Work items queue without bound; at most `cap` of them are in flight at a
//! time.  Starting is strictly first-in first-out, and completing an item
//! frees its slot and yields exactly one reply carrying its request id.

use vstd::prelude::*;

use crate::codec::bytes_eq;
use crate::msg::{ChatMsg, ChatMsgV, ChatResp, ChatRespV, ClientMessage, ClientMessageV};

verus! {

/// One unit of inference work assigned by the service.
#[derive(Clone)]
pub struct WorkItem {
    pub request_id: Vec<u8>,
    pub model: Vec<u8>,
    pub messages: Vec<ChatMsg>,
}

/// Ghost mirror of [`WorkItem`].
pub struct WorkItemV {
    pub request_id: Seq<u8>,
    pub model: Seq<u8>,
    pub messages: Seq<ChatMsgV>,
}

impl View for WorkItem {
    type V = WorkItemV;

    open spec fn view(&self) -> WorkItemV {
        WorkItemV {
            request_id: self.request_id@,
            model: self.model@,
            messages: self.messages@.map_values(|m: ChatMsg| m@),
        }
    }
}

/// Ghost view of a backend call outcome.
pub open spec fn outcome_view(o: Result<ChatResp, Vec<u8>>) -> Result<ChatRespV, Seq<u8>> {
    match o {
        Result::Ok(r) => Result::Ok(r@),
        Result::Err(e) => Result::Err(e@),
    }
}

/// The one reply owed for a completed work item: a response on success, an
/// error on failure, either way carrying the work item's request id.
pub open spec fn reply_for(id: Seq<u8>, outcome: Result<ChatRespV, Seq<u8>>) -> ClientMessageV {
    match outcome {
        Result::Ok(r) => ClientMessageV::InferenceResponse { request_id: id, result: r },
        Result::Err(e) => ClientMessageV::InferenceError { request_id: id, error: e },
    }
}

/// Index of the first occurrence of `id` in `ids`.
pub open spec fn first_index(ids: Seq<Seq<u8>>, id: Seq<u8>) -> int
    decreases ids.len(),
{
    if ids.len() == 0 {
        0
    } else if ids.first() == id {
        0
    } else {
        1 + first_index(ids.drop_first(), id)
    }
}

/// Bounded-concurrency dispatcher state.
pub struct Dispatcher {
    pub limit: usize,
    pub queue: Vec<WorkItem>,
    pub executing: Vec<Vec<u8>>,
}

impl Dispatcher {
    /// Number of slots: the cap on concurrently executing calls.
    pub open spec fn cap(&self) -> int {
        self.limit as int
    }

    /// Submitted work not yet started, oldest first.
    pub open spec fn queued(&self) -> Seq<WorkItemV> {
        self.queue@.map_values(|w: WorkItem| w@)
    }

    /// Request ids of the calls currently in flight.
    pub open spec fn in_flight(&self) -> Seq<Seq<u8>> {
        self.executing@.map_values(|v: Vec<u8>| v@)
    }

    /// A dispatcher never holds more in-flight calls than slots.
    pub open spec fn wf(&self) -> bool {
        &&& self.limit >= 1
        &&& self.executing@.len() <= self.limit
    }

    /// A call may start when a slot is free and work is queued.
    pub open spec fn can_start(&self) -> bool {
        self.queued().len() > 0 && self.in_flight().len() < self.cap()
    }

    /// Creates a dispatcher with `limit` slots.
    pub fn new(limit: usize) -> (r: Dispatcher)
        requires
            limit >= 1,
        ensures
            r.wf(),
            r.cap() == limit,
            r.queued() == Seq::<WorkItemV>::empty(),
            r.in_flight() == Seq::<Seq<u8>>::empty(),
    {
        let r = Dispatcher { limit, queue: Vec::new(), executing: Vec::new() };
        proof {
            assert(r.queued() =~= Seq::<WorkItemV>::empty());
            assert(r.in_flight() =~= Seq::<Seq<u8>>::empty());
        }
        r
    }

    /// Accepts one work item; never blocks and never drops work.
    pub fn submit(&mut self, item: WorkItem)
        requires
            old(self).wf(),
        ensures
            final(self).wf(),
            final(self).cap() == old(self).cap(),
            final(self).queued() == old(self).queued().push(item@),
            final(self).in_flight() == old(self).in_flight(),
    {
        let ghost iv = item@;
        self.queue.push(item);
        proof {
            assert(self.queued() =~= old(self).queued().push(iv));
        }
    }

    /// Starts the oldest queued item if a slot is free; returns the item to
    /// run, or nothing when the queue is empty or all slots are taken.
    pub fn try_start(&mut self) -> (r: Option<WorkItem>)
        requires
            old(self).wf(),
        ensures
            final(self).wf(),
            final(self).cap() == old(self).cap(),
            match r {
                Option::Some(item) => {
                    &&& old(self).can_start()
                    &&& item@ == old(self).queued().first()
                    &&& final(self).queued() == old(self).queued().drop_first()
                    &&& final(self).in_flight() == old(self).in_flight().push(
                        item@.request_id,
                    )
                },
                Option::None => {
                    &&& !old(self).can_start()
                    &&& final(self).queued() == old(self).queued()
                    &&& final(self).in_flight() == old(self).in_flight()
                },
            },
    {
        if self.queue.len() > 0 && self.executing.len() < self.limit {
            let item = self.queue.remove(0);
            let mut id: Vec<u8> = Vec::new();
            crate::codec::push_bytes(&mut id, item.request_id.as_slice());
            self.executing.push(id);
            proof {
                assert(self.queued() =~= old(self).queued().drop_first());
                assert(self.in_flight() =~= old(self).in_flight().push(item@.request_id));
            }
            Option::Some(item)
        } else {
            Option::None
        }
    }

    /// Frees the slot of the named in-flight call and returns the one reply
    /// owed for it.
    pub fn complete(&mut self, request_id: &[u8], outcome: Result<ChatResp, Vec<u8>>) -> (r:
        ClientMessage)
        requires
            old(self).wf(),
            old(self).in_flight().contains(request_id@),
        ensures
            final(self).wf(),
            final(self).cap() == old(self).cap(),
            final(self).queued() == old(self).queued(),
            final(self).in_flight() == old(self).in_flight().remove(
                first_index(old(self).in_flight(), request_id@),
            ),
            r@ == reply_for(request_id@, outcome_view(outcome)),
    {
        let ghost ids = self.in_flight();
        let idx = position_of(&self.executing, request_id);
        self.executing.remove(idx);
        proof {
            assert(self.in_flight() =~= ids.remove(first_index(ids, request_id@)));
        }
        let mut id: Vec<u8> = Vec::new();
        crate::codec::push_bytes(&mut id, request_id);
        match outcome {
            Result::Ok(resp) => ClientMessage::InferenceResponse { request_id: id, result: resp },
            Result::Err(e) => ClientMessage::InferenceError { request_id: id, error: e },
        }
    }
}

/// Finds the first occurrence of `id` in a list of ids known to hold it.
fn position_of(ids: &Vec<Vec<u8>>, id: &[u8]) -> (r: usize)
    requires
        ids@.map_values(|v: Vec<u8>| v@).contains(id@),
    ensures
        r < ids@.len(),
        r == first_index(ids@.map_values(|v: Vec<u8>| v@), id@),
        ids@.map_values(|v: Vec<u8>| v@)[r as int] == id@,
{
    let ghost iv = ids@.map_values(|v: Vec<u8>| v@);
    let n = ids.len();
    let mut i: usize = 0;
    while i < n
        invariant
            n == ids@.len(),
            iv == ids@.map_values(|v: Vec<u8>| v@),
            iv.contains(id@),
            i <= n,
            forall|k: int| 0 <= k < i ==> iv[k] != id@,
        decreases n - i,
    {
        if bytes_eq(ids[i].as_slice(), id) {
            proof {
                lemma_first_index(iv, id@, i as int);
            }
            return i;
        }
        i = i + 1;
    }
    proof {
        let w = choose|w: int| 0 <= w < iv.len() && iv[w] == id@;
        assert(false);
    }
    0
}

/// If nothing before `i` matches and `ids[i]` matches, the first occurrence
/// is at `i`.
proof fn lemma_first_index(ids: Seq<Seq<u8>>, id: Seq<u8>, i: int)
    requires
        0 <= i < ids.len(),
        ids[i] == id,
        forall|k: int| 0 <= k < i ==> ids[k] != id,
    ensures
        first_index(ids, id) == i,
    decreases i,
{
    if i == 0 {
    } else {
        assert(ids.first() != id);
        lemma_first_index(ids.drop_first(), id, i - 1);
        assert(forall|k: int| 0 <= k < i - 1 ==> ids.drop_first()[k] == ids[k + 1]);
    }
}

/// The first occurrence of a held id is a valid index and holds the id.
pub proof fn lemma_first_index_bounds(ids: Seq<Seq<u8>>, id: Seq<u8>)
    requires
        ids.contains(id),
    ensures
        0 <= first_index(ids, id) < ids.len(),
        ids[first_index(ids, id)] == id,
    decreases ids.len(),
{
    if ids.first() == id {
    } else {
        assert(ids.drop_first().contains(id)) by {
            let w = choose|w: int| 0 <= w < ids.len() && ids[w] == id;
            assert(ids.drop_first()[w - 1] == id);
        }
        lemma_first_index_bounds(ids.drop_first(), id);
    }
}

/// Law: the dispatcher never has more calls in flight than its size allows.
pub proof fn lemma_bounded_concurrency(d: Dispatcher)
    requires
        d.wf(),
    ensures
        d.in_flight().len() <= d.cap(),
{
}

/// Law: with a single slot, no further call can start while one is in
/// flight, so replies under saturation follow submission order.
pub proof fn lemma_serial_when_single(d: Dispatcher)
    requires
        d.wf(),
        d.cap() == 1,
        d.in_flight().len() >= 1,
    ensures
        !d.can_start(),
{
}

/// Law: whatever the backend outcome, a completed work item is answered by
/// exactly one reply — a response on success, an error on failure — and the
/// reply carries the work item's own request id.
pub proof fn lemma_one_reply_per_request(id: Seq<u8>, outcome: Result<ChatRespV, Seq<u8>>)
    ensures
        outcome is Ok ==> reply_for(id, outcome) == (ClientMessageV::InferenceResponse {
            request_id: id,
            result: outcome->Ok_0,
        }),
        outcome is Err ==> reply_for(id, outcome) == (ClientMessageV::InferenceError {
            request_id: id,
            error: outcome->Err_0,
        }),
{
}

} // verus!

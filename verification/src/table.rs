//! The table of admitted requests, the queue that mirrors its queued part,
//! and what keeps the two matched.

use vstd::prelude::*;
use crate::constraint::GrammarState;
use crate::correlator::Correlator;
use crate::queue::{
    holds_request, in_service_order, lemma_position_of, lemma_slot_for, position_of, slot_for,
    QueueEntry,
};
use crate::request::{EngineHandle, RequestState};

verus! {

/// An admitted request as the scheduler keeps it.
#[derive(Debug)]
pub struct Request {
    pub id: u64,
    pub priority: u32,
    pub streaming: bool,
    pub max_tokens: u32,
    pub enqueue_time: u64,
    /// Moment at which the request is timed out if it is still active.
    pub deadline: u64,
    pub state: RequestState,
    /// Set while the engine may still report on the request.
    pub handle: Option<EngineHandle>,
    /// Moment at which a handle that outlived its request is forgotten.
    pub release_by: u64,
    pub grammar: GrammarState,
    pub correlator: Correlator,
}

impl Request {
    /// The parts of a request agree with its state: a queued request has no
    /// handle, a running one has the handle issued for it, both have an open
    /// channel; a request in a terminal state has a channel closed with an
    /// ending of that state.
    pub open spec fn wf(&self) -> bool {
        &&& self.grammar.wf()
        &&& self.correlator.wf()
        &&& self.correlator.streaming() == self.streaming
        &&& match self.state {
            RequestState::Queued => self.handle is None && self.correlator.terminal() is None,
            RequestState::Running => self.handle == Some(EngineHandle(self.id))
                && self.correlator.terminal() is None,
            _ => {
                &&& self.correlator.terminal() matches Some(t) && t.state() == self.state
                &&& self.handle matches Some(h) ==> h == EngineHandle(self.id)
            },
        }
    }

    /// The queue entry under which the request waits.
    pub open spec fn entry(&self) -> QueueEntry {
        QueueEntry { request_id: self.id, priority: self.priority, enqueue_time: self.enqueue_time }
    }
}

/// Number of requests of `s` that are in state `state`.
pub open spec fn count_state(s: Seq<Request>, state: RequestState) -> nat
    decreases s.len(),
{
    if s.len() == 0 {
        0
    } else {
        count_state(s.drop_last(), state) + if s.last().state == state {
            1nat
        } else {
            0nat
        }
    }
}

/// First position at or after `from` that holds request `id`; the length
/// where there is none.
pub open spec fn index_from(s: Seq<Request>, id: u64, from: int) -> int
    decreases s.len() - from,
{
    if from >= s.len() || s[from].id == id {
        from
    } else {
        index_from(s, id, from + 1)
    }
}

/// Position of request `id` in the table; the length where it is unknown.
pub open spec fn index_of(s: Seq<Request>, id: u64) -> int {
    index_from(s, id, 0)
}

/// Some request of the table has identifier `id`.
pub open spec fn knows(s: Seq<Request>, id: u64) -> bool {
    exists|i: int| 0 <= i < s.len() && (#[trigger] s[i]).id == id
}

/// Identifiers grow along the table, so none occurs twice.
pub open spec fn ids_increasing(s: Seq<Request>) -> bool {
    forall|i: int, j: int| 0 <= i < j < s.len() ==> (#[trigger] s[i]).id < (#[trigger] s[j]).id
}

/// `e` is the queue entry of a queued request of the table.
pub open spec fn entry_of_queued(s: Seq<Request>, e: QueueEntry) -> bool {
    exists|i: int| 0 <= i < s.len() && (#[trigger] s[i]).state is Queued && s[i].entry() == e
}

/// The queue holds exactly the queued requests of the table, each once.
pub open spec fn queue_matches(s: Seq<Request>, queue: Seq<QueueEntry>) -> bool {
    &&& forall|k: int| 0 <= k < queue.len() ==> entry_of_queued(s, #[trigger] queue[k])
    &&& forall|i: int|
        0 <= i < s.len() && (#[trigger] s[i]).state is Queued ==> holds_request(queue, s[i].id)
    &&& forall|k: int, l: int|
        0 <= k < l < queue.len() ==> (#[trigger] queue[k]).request_id != (#[trigger] queue[l]).request_id
}

/// `index_from` lands between `from` and the length; nothing it skipped has
/// identifier `id`, and where it stops short of the end the request there has.
pub proof fn lemma_index_from(s: Seq<Request>, id: u64, from: int)
    requires
        0 <= from <= s.len(),
    ensures
        from <= index_from(s, id, from) <= s.len(),
        forall|i: int| from <= i < index_from(s, id, from) ==> (#[trigger] s[i]).id != id,
        index_from(s, id, from) < s.len() ==> s[index_from(s, id, from)].id == id,
    decreases s.len() - from,
{
    if from >= s.len() || s[from].id == id {
    } else {
        lemma_index_from(s, id, from + 1);
    }
}

/// The index of `id` is short of the length exactly where `id` is known.
pub proof fn lemma_index_of(s: Seq<Request>, id: u64)
    ensures
        0 <= index_of(s, id) <= s.len(),
        index_of(s, id) < s.len() <==> knows(s, id),
        index_of(s, id) < s.len() ==> s[index_of(s, id)].id == id,
        forall|i: int| 0 <= i < index_of(s, id) ==> (#[trigger] s[i]).id != id,
{
    lemma_index_from(s, id, 0);
}

/// With identifiers that do not repeat, a request is found at its own place.
pub proof fn lemma_index_of_unique(s: Seq<Request>, i: int)
    requires
        ids_increasing(s),
        0 <= i < s.len(),
    ensures
        index_of(s, s[i].id) == i,
{
    lemma_index_of(s, s[i].id);
    let k = index_of(s, s[i].id);
    if k < i {
        assert(s[k].id < s[i].id);
    }
}

/// Counting after one more request was appended.
pub proof fn lemma_count_push(s: Seq<Request>, r: Request, state: RequestState)
    ensures
        count_state(s.push(r), state) == count_state(s, state) + if r.state == state {
            1nat
        } else {
            0nat
        },
{
    assert(s.push(r).drop_last() =~= s);
}

/// Counting after the request at `i` was replaced: the count of a state
/// loses one if the old request was in it and gains one if the new one is.
pub proof fn lemma_count_update(s: Seq<Request>, t: Seq<Request>, i: int, state: RequestState)
    requires
        0 <= i < s.len(),
        t.len() == s.len(),
        forall|k: int| 0 <= k < s.len() && k != i ==> (#[trigger] t[k]).state == s[k].state,
    ensures
        count_state(t, state) + (if s[i].state == state {
            1nat
        } else {
            0nat
        }) == count_state(s, state) + (if t[i].state == state {
            1nat
        } else {
            0nat
        }),
    decreases s.len(),
{
    if i == s.len() - 1 {
        lemma_count_same(s.drop_last(), t.drop_last(), state);
    } else {
        lemma_count_update(s.drop_last(), t.drop_last(), i, state);
    }
}

/// Tables whose requests agree in state place by place count alike.
pub proof fn lemma_count_same(s: Seq<Request>, t: Seq<Request>, state: RequestState)
    requires
        t.len() == s.len(),
        forall|k: int| 0 <= k < s.len() ==> (#[trigger] t[k]).state == s[k].state,
    ensures
        count_state(t, state) == count_state(s, state),
    decreases s.len(),
{
    if s.len() > 0 {
        lemma_count_same(s.drop_last(), t.drop_last(), state);
    }
}

/// Counting after the request at `i` was taken out.
pub proof fn lemma_count_remove(s: Seq<Request>, i: int, state: RequestState)
    requires
        0 <= i < s.len(),
    ensures
        count_state(s.remove(i), state) + (if s[i].state == state {
            1nat
        } else {
            0nat
        }) == count_state(s, state),
    decreases s.len(),
{
    if i == s.len() - 1 {
        assert(s.remove(i) =~= s.drop_last());
    } else {
        assert(s.remove(i).drop_last() =~= s.drop_last().remove(i));
        assert(s.remove(i).last() == s.last());
        lemma_count_remove(s.drop_last(), i, state);
    }
}

/// Appending a queued request with a fresh identifier, and putting its
/// entry into the queue at its slot, keeps table and queue matched.
pub proof fn lemma_admit_keeps_match(s: Seq<Request>, q: Seq<QueueEntry>, r: Request)
    requires
        in_service_order(q),
        ids_increasing(s),
        queue_matches(s, q),
        r.state is Queued,
        forall|i: int| 0 <= i < s.len() ==> (#[trigger] s[i]).id < r.id,
    ensures
        ids_increasing(s.push(r)),
        queue_matches(s.push(r), q.insert(slot_for(q, r.entry()), r.entry())),
{
    let id = r.id;
    let entry = r.entry();
    let t = s.push(r);
    let p = slot_for(q, entry);
    lemma_slot_for(q, entry);
    let q2 = q.insert(p, entry);
    assert forall|k: int| 0 <= k < q.len() implies (#[trigger] q[k]).request_id != id by {
        assert(entry_of_queued(s, q[k]));
    }
    assert forall|k: int| 0 <= k < q2.len() implies entry_of_queued(t, #[trigger] q2[k]) by {
        if k == p {
            assert(t[s.len() as int].entry() == entry);
        } else {
            let e = q2[k];
            let ko = if k < p { k } else { k - 1 };
            assert(e == q[ko]);
            assert(entry_of_queued(s, q[ko]));
            let i = choose|i: int|
                0 <= i < s.len() && (#[trigger] s[i]).state is Queued && s[i].entry() == e;
            assert(t[i] == s[i]);
        }
    }
    assert forall|i: int| 0 <= i < t.len() && (#[trigger] t[i]).state is Queued implies holds_request(
        q2,
        t[i].id,
    ) by {
        if i == s.len() {
            assert(q2[p].request_id == id);
        } else {
            assert(t[i] == s[i]);
            assert(holds_request(q, s[i].id));
            let k = choose|k: int| 0 <= k < q.len() && (#[trigger] q[k]).request_id == s[i].id;
            let kn = if k < p { k } else { k + 1 };
            assert(q2[kn] == q[k]);
        }
    }
    assert forall|k: int, l: int| 0 <= k < l < q2.len() implies (#[trigger] q2[k]).request_id != (
    #[trigger] q2[l]).request_id by {
        let ko = if k < p { k } else { k - 1 };
        let lo = if l < p { l } else { l - 1 };
        if k == p {
            assert(q2[l] == q[lo]);
        } else if l == p {
            assert(q2[k] == q[ko]);
        } else {
            assert(q2[k] == q[ko] && q2[l] == q[lo]);
        }
    }
}

/// Tables `s` and `t` have the same length and differ at most at `i`.
pub open spec fn changed_only_at(s: Seq<Request>, t: Seq<Request>, i: int) -> bool {
    &&& t.len() == s.len()
    &&& forall|k: int| 0 <= k < s.len() && k != i ==> #[trigger] t[k] == s[k]
}

/// `b` is the request `a` at a later moment: what it was admitted with is
/// the same.
pub open spec fn same_request(a: Request, b: Request) -> bool {
    &&& b.id == a.id
    &&& b.priority == a.priority
    &&& b.streaming == a.streaming
    &&& b.max_tokens == a.max_tokens
    &&& b.enqueue_time == a.enqueue_time
    &&& b.deadline == a.deadline
    &&& b.grammar.automaton() == a.grammar.automaton()
    &&& b.correlator.streaming() == a.correlator.streaming()
    &&& b.correlator.capacity() == a.correlator.capacity()
}

/// A table that holds a request in `state` counts at least one.
pub proof fn lemma_count_positive(s: Seq<Request>, i: int, state: RequestState)
    requires
        0 <= i < s.len(),
        s[i].state == state,
    ensures
        count_state(s, state) >= 1,
    decreases s.len(),
{
    if i < s.len() - 1 {
        lemma_count_positive(s.drop_last(), i, state);
    }
}

/// When the request at `i` leaves state `Queued` and its entry at `k`
/// leaves the queue, table and queue stay matched.
pub proof fn lemma_leave_queue(s: Seq<Request>, t: Seq<Request>, q: Seq<QueueEntry>, k: int, i: int)
    requires
        queue_matches(s, q),
        ids_increasing(s),
        0 <= k < q.len(),
        0 <= i < s.len(),
        q[k].request_id == s[i].id,
        changed_only_at(s, t, i),
        t[i].id == s[i].id,
        !(t[i].state is Queued),
    ensures
        queue_matches(t, q.remove(k)),
        ids_increasing(t),
{
    let q2 = q.remove(k);
    assert forall|a: int, b: int| 0 <= a < b < t.len() implies (#[trigger] t[a]).id < (#[trigger] t[b]).id by {
        assert(s[a].id < s[b].id);
    }
    assert forall|n: int| 0 <= n < q2.len() implies entry_of_queued(t, #[trigger] q2[n]) by {
        let no = if n < k { n } else { n + 1 };
        assert(q2[n] == q[no]);
        assert(entry_of_queued(s, q[no]));
        let j = choose|j: int|
            0 <= j < s.len() && (#[trigger] s[j]).state is Queued && s[j].entry() == q[no];
        if no < k {
            assert(q[no].request_id != q[k].request_id);
        } else {
            assert(q[k].request_id != q[no].request_id);
        }
        assert(j != i);
        assert(t[j] == s[j]);
    }
    assert forall|j: int| 0 <= j < t.len() && (#[trigger] t[j]).state is Queued implies holds_request(
        q2,
        t[j].id,
    ) by {
        assert(j != i);
        assert(t[j] == s[j]);
        assert(holds_request(q, s[j].id));
        let n = choose|n: int| 0 <= n < q.len() && (#[trigger] q[n]).request_id == s[j].id;
        if j < i {
            assert(s[j].id < s[i].id);
        } else {
            assert(s[i].id < s[j].id);
        }
        assert(n != k);
        let nn = if n < k { n } else { n - 1 };
        assert(q2[nn] == q[n]);
    }
    assert forall|a: int, b: int| 0 <= a < b < q2.len() implies (#[trigger] q2[a]).request_id != (
    #[trigger] q2[b]).request_id by {
        let ao = if a < k { a } else { a + 1 };
        let bo = if b < k { b } else { b + 1 };
        assert(q2[a] == q[ao] && q2[b] == q[bo]);
    }
}

/// A change to the request at `i` that keeps its queue entry, and keeps it
/// queued or not queued as it was, keeps table and queue matched.
pub proof fn lemma_update_keeps_match(s: Seq<Request>, t: Seq<Request>, q: Seq<QueueEntry>, i: int)
    requires
        queue_matches(s, q),
        ids_increasing(s),
        0 <= i < s.len(),
        changed_only_at(s, t, i),
        t[i].entry() == s[i].entry(),
        (t[i].state is Queued) == (s[i].state is Queued),
    ensures
        queue_matches(t, q),
        ids_increasing(t),
{
    assert forall|a: int, b: int| 0 <= a < b < t.len() implies (#[trigger] t[a]).id < (#[trigger] t[b]).id by {
        assert(s[a].id < s[b].id);
    }
    assert forall|n: int| 0 <= n < q.len() implies entry_of_queued(t, #[trigger] q[n]) by {
        assert(entry_of_queued(s, q[n]));
        let j = choose|j: int|
            0 <= j < s.len() && (#[trigger] s[j]).state is Queued && s[j].entry() == q[n];
        assert(t[j].state is Queued && t[j].entry() == q[n]);
    }
    assert forall|j: int| 0 <= j < t.len() && (#[trigger] t[j]).state is Queued implies holds_request(
        q,
        t[j].id,
    ) by {
        assert(s[j].state is Queued);
        assert(holds_request(q, s[j].id));
    }
}

/// The queue entry of a queued request stands at the position of its
/// identifier, and it is the request's own entry.
pub proof fn lemma_entry_position(s: Seq<Request>, q: Seq<QueueEntry>, i: int)
    requires
        queue_matches(s, q),
        ids_increasing(s),
        0 <= i < s.len(),
        s[i].state is Queued,
    ensures
        0 <= position_of(q, s[i].id) < q.len(),
        q[position_of(q, s[i].id)] == s[i].entry(),
{
    lemma_position_of(q, s[i].id);
    let k = position_of(q, s[i].id);
    assert(holds_request(q, s[i].id));
    assert(entry_of_queued(s, q[k]));
    let j = choose|j: int| 0 <= j < s.len() && (#[trigger] s[j]).state is Queued && s[j].entry() == q[k];
    if j < i {
        assert(s[j].id < s[i].id);
    } else if i < j {
        assert(s[i].id < s[j].id);
    }
}

/// The request that a queue entry belongs to is queued, and the entry is
/// its own.
pub proof fn lemma_entry_owner(s: Seq<Request>, q: Seq<QueueEntry>, k: int)
    requires
        queue_matches(s, q),
        ids_increasing(s),
        0 <= k < q.len(),
    ensures
        0 <= index_of(s, q[k].request_id) < s.len(),
        s[index_of(s, q[k].request_id)].state is Queued,
        s[index_of(s, q[k].request_id)].entry() == q[k],
{
    assert(entry_of_queued(s, q[k]));
    let j = choose|j: int| 0 <= j < s.len() && (#[trigger] s[j]).state is Queued && s[j].entry() == q[k];
    lemma_index_of_unique(s, j);
}

/// Every entry of `after` is an entry of `before`, and entries stand in
/// `after` in the order in which they stand in `before`.
pub open spec fn keeps_order(before: Seq<QueueEntry>, after: Seq<QueueEntry>) -> bool {
    &&& forall|k: int|
        0 <= k < after.len() ==> {
            &&& 0 <= position_of(before, (#[trigger] after[k]).request_id) < before.len()
            &&& before[position_of(before, after[k].request_id)] == after[k]
        }
    &&& forall|k: int, l: int|
        0 <= k < l < after.len() ==> position_of(before, (#[trigger] after[k]).request_id)
            < position_of(before, (#[trigger] after[l]).request_id)
}

/// A queue whose identifiers do not repeat keeps its own order.
pub proof fn lemma_keeps_order_refl(q: Seq<QueueEntry>)
    requires
        forall|k: int, l: int|
            0 <= k < l < q.len() ==> (#[trigger] q[k]).request_id != (#[trigger] q[l]).request_id,
    ensures
        keeps_order(q, q),
{
    assert forall|k: int| 0 <= k < q.len() implies position_of(q, (#[trigger] q[k]).request_id)
        == k by {
        lemma_position_of(q, q[k].request_id);
        let p = position_of(q, q[k].request_id);
        if p < k {
            assert(q[p].request_id != q[k].request_id);
        }
    }
}

/// Taking an entry out of the later queue keeps the order.
pub proof fn lemma_keeps_order_remove(before: Seq<QueueEntry>, after: Seq<QueueEntry>, p: int)
    requires
        keeps_order(before, after),
        0 <= p < after.len(),
    ensures
        keeps_order(before, after.remove(p)),
{
    let shorter = after.remove(p);
    assert forall|k: int| 0 <= k < shorter.len() implies {
        &&& 0 <= position_of(before, (#[trigger] shorter[k]).request_id) < before.len()
        &&& before[position_of(before, shorter[k].request_id)] == shorter[k]
    } by {
        let ko = if k < p { k } else { k + 1 };
        assert(shorter[k] == after[ko]);
    }
    assert forall|k: int, l: int| 0 <= k < l < shorter.len() implies position_of(
        before,
        (#[trigger] shorter[k]).request_id,
    ) < position_of(before, (#[trigger] shorter[l]).request_id) by {
        let ko = if k < p { k } else { k + 1 };
        let lo = if l < p { l } else { l + 1 };
        assert(shorter[k] == after[ko] && shorter[l] == after[lo]);
    }
}

/// Taking a request that is not queued out of the table keeps table and
/// queue matched.
pub proof fn lemma_forget_keeps_match(s: Seq<Request>, q: Seq<QueueEntry>, i: int)
    requires
        queue_matches(s, q),
        ids_increasing(s),
        0 <= i < s.len(),
        !(s[i].state is Queued),
    ensures
        queue_matches(s.remove(i), q),
        ids_increasing(s.remove(i)),
{
    let t = s.remove(i);
    assert forall|a: int, b: int| 0 <= a < b < t.len() implies (#[trigger] t[a]).id < (#[trigger] t[b]).id by {
        let ao = if a < i { a } else { a + 1 };
        let bo = if b < i { b } else { b + 1 };
        assert(t[a] == s[ao] && t[b] == s[bo]);
        assert(s[ao].id < s[bo].id);
    }
    assert forall|n: int| 0 <= n < q.len() implies entry_of_queued(t, #[trigger] q[n]) by {
        assert(entry_of_queued(s, q[n]));
        let j = choose|j: int|
            0 <= j < s.len() && (#[trigger] s[j]).state is Queued && s[j].entry() == q[n];
        let jn = if j < i { j } else { j - 1 };
        assert(t[jn] == s[j]);
    }
    assert forall|j: int| 0 <= j < t.len() && (#[trigger] t[j]).state is Queued implies holds_request(
        q,
        t[j].id,
    ) by {
        let jo = if j < i { j } else { j + 1 };
        assert(t[j] == s[jo]);
        assert(holds_request(q, s[jo].id));
    }
}

} // verus!

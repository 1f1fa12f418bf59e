//! Pending requests in service order: highest priority first, and among
//! equal priorities the one that was enqueued first.

use vstd::prelude::*;

verus! {

/// One pending request as the queue sees it.
#[derive(Clone, Copy, Debug, PartialEq, Eq, Structural)]
pub struct QueueEntry {
    pub request_id: u64,
    pub priority: u32,
    pub enqueue_time: u64,
}

/// `a` must be served before `b`: it has the higher priority, or the same
/// priority and the earlier enqueue time.
pub open spec fn outranks(a: QueueEntry, b: QueueEntry) -> bool {
    a.priority > b.priority || (a.priority == b.priority && a.enqueue_time < b.enqueue_time)
}

/// No entry stands behind one that it outranks.
pub open spec fn in_service_order(s: Seq<QueueEntry>) -> bool {
    forall|i: int, j: int| 0 <= i < j < s.len() ==> !outranks(#[trigger] s[j], #[trigger] s[i])
}

/// First position at or after `from` whose entry `e` outranks; the length
/// where there is none.
pub open spec fn slot_from(s: Seq<QueueEntry>, e: QueueEntry, from: int) -> int
    decreases s.len() - from,
{
    if from >= s.len() || outranks(e, s[from]) {
        from
    } else {
        slot_from(s, e, from + 1)
    }
}

/// Where a new entry `e` goes: behind every entry that it does not outrank,
/// so behind those it ties with.
pub open spec fn slot_for(s: Seq<QueueEntry>, e: QueueEntry) -> int {
    slot_from(s, e, 0)
}

/// First position at or after `from` that holds request `id`; the length
/// where there is none.
pub open spec fn position_from(s: Seq<QueueEntry>, id: u64, from: int) -> int
    decreases s.len() - from,
{
    if from >= s.len() || s[from].request_id == id {
        from
    } else {
        position_from(s, id, from + 1)
    }
}

/// Position of the first entry of request `id`; the length where the
/// request is not queued.
pub open spec fn position_of(s: Seq<QueueEntry>, id: u64) -> int {
    position_from(s, id, 0)
}

/// Some entry of `s` belongs to request `id`.
pub open spec fn holds_request(s: Seq<QueueEntry>, id: u64) -> bool {
    exists|i: int| 0 <= i < s.len() && (#[trigger] s[i]).request_id == id
}

/// `slot_from` lands between `from` and the length; everything it skipped is
/// not outranked by `e`, and where it stops short of the end `e` outranks
/// the entry there.
pub proof fn lemma_slot_from(s: Seq<QueueEntry>, e: QueueEntry, from: int)
    requires
        0 <= from <= s.len(),
    ensures
        from <= slot_from(s, e, from) <= s.len(),
        forall|i: int| from <= i < slot_from(s, e, from) ==> !outranks(e, #[trigger] s[i]),
        slot_from(s, e, from) < s.len() ==> outranks(e, s[slot_from(s, e, from)]),
    decreases s.len() - from,
{
    if from >= s.len() || outranks(e, s[from]) {
    } else {
        lemma_slot_from(s, e, from + 1);
    }
}

/// In a queue in service order the slot of `e` splits it: `e` outranks
/// nothing before the slot and everything from the slot on, and the queue
/// with `e` put there is in service order again.
pub proof fn lemma_slot_for(s: Seq<QueueEntry>, e: QueueEntry)
    requires
        in_service_order(s),
    ensures
        0 <= slot_for(s, e) <= s.len(),
        forall|i: int| 0 <= i < slot_for(s, e) ==> !outranks(e, #[trigger] s[i]),
        forall|i: int| slot_for(s, e) <= i < s.len() ==> outranks(e, #[trigger] s[i]),
        in_service_order(s.insert(slot_for(s, e), e)),
{
    lemma_slot_from(s, e, 0);
    let p = slot_for(s, e);
    assert forall|i: int| p <= i < s.len() implies outranks(e, #[trigger] s[i]) by {
        if i > p {
            assert(!outranks(s[i], s[p]));
        }
    }
    let t = s.insert(p, e);
    assert forall|i: int, j: int| 0 <= i < j < t.len() implies !outranks(
        #[trigger] t[j],
        #[trigger] t[i],
    ) by {
        if j < p {
            assert(t[i] == s[i] && t[j] == s[j]);
        } else if j == p {
            assert(t[i] == s[i]);
        } else if i < p {
            assert(t[i] == s[i] && t[j] == s[j - 1]);
            if i < j - 1 {
                assert(!outranks(s[j - 1], s[i]));
            }
        } else if i == p {
            assert(t[j] == s[j - 1]);
        } else {
            assert(t[i] == s[i - 1] && t[j] == s[j - 1]);
        }
    }
}

/// `position_from` lands between `from` and the length; nothing it skipped
/// belongs to `id`, and where it stops short of the end the entry there does.
pub proof fn lemma_position_from(s: Seq<QueueEntry>, id: u64, from: int)
    requires
        0 <= from <= s.len(),
    ensures
        from <= position_from(s, id, from) <= s.len(),
        forall|i: int| from <= i < position_from(s, id, from) ==> (#[trigger] s[i]).request_id != id,
        position_from(s, id, from) < s.len() ==> s[position_from(s, id, from)].request_id == id,
    decreases s.len() - from,
{
    if from >= s.len() || s[from].request_id == id {
    } else {
        lemma_position_from(s, id, from + 1);
    }
}

/// The position of `id` is short of the length exactly where `id` is queued.
pub proof fn lemma_position_of(s: Seq<QueueEntry>, id: u64)
    ensures
        0 <= position_of(s, id) <= s.len(),
        position_of(s, id) < s.len() <==> holds_request(s, id),
        position_of(s, id) < s.len() ==> s[position_of(s, id)].request_id == id,
        forall|i: int| 0 <= i < position_of(s, id) ==> (#[trigger] s[i]).request_id != id,
{
    lemma_position_from(s, id, 0);
}

/// Taking an entry out of a queue in service order leaves it in service order.
pub proof fn lemma_remove_keeps_order(s: Seq<QueueEntry>, k: int)
    requires
        in_service_order(s),
        0 <= k < s.len(),
    ensures
        in_service_order(s.remove(k)),
{
    let t = s.remove(k);
    assert forall|i: int, j: int| 0 <= i < j < t.len() implies !outranks(
        #[trigger] t[j],
        #[trigger] t[i],
    ) by {
        let si = if i < k { i } else { i + 1 };
        let sj = if j < k { j } else { j + 1 };
        assert(t[i] == s[si] && t[j] == s[sj]);
        assert(!outranks(s[sj], s[si]));
    }
}

impl QueueEntry {
    /// Whether this entry must be served before `other`.
    pub fn served_before(&self, other: &QueueEntry) -> (b: bool)
        ensures
            b == outranks(*self, *other),
    {
        self.priority > other.priority || (self.priority == other.priority && self.enqueue_time
            < other.enqueue_time)
    }
}

/// The pending requests, kept in service order.
#[derive(Debug)]
pub struct PriorityQueue {
    entries: Vec<QueueEntry>,
}

impl View for PriorityQueue {
    type V = Seq<QueueEntry>;

    closed spec fn view(&self) -> Seq<QueueEntry> {
        self.entries@
    }
}

impl PriorityQueue {
    /// The entries are in service order.
    pub open spec fn wf(&self) -> bool {
        in_service_order(self@)
    }

    pub fn new() -> (q: PriorityQueue)
        ensures
            q@ == Seq::<QueueEntry>::empty(),
            q.wf(),
    {
        PriorityQueue { entries: Vec::new() }
    }

    pub fn len(&self) -> (n: usize)
        ensures
            n == self@.len(),
    {
        self.entries.len()
    }

    pub fn is_empty(&self) -> (b: bool)
        ensures
            b == (self@.len() == 0),
    {
        self.entries.len() == 0
    }

    /// The entry at `index`, counted from the head.
    pub fn get(&self, index: usize) -> (e: Option<QueueEntry>)
        ensures
            e == (if index < self@.len() {
                Some(self@[index as int])
            } else {
                None
            }),
    {
        if index < self.entries.len() {
            Some(self.entries[index])
        } else {
            None
        }
    }

    /// The entry that `pop` would hand out.
    pub fn peek(&self) -> (e: Option<QueueEntry>)
        ensures
            e == (if self@.len() > 0 {
                Some(self@[0])
            } else {
                None
            }),
    {
        self.get(0)
    }

    /// Whether request `id` is queued.
    pub fn contains(&self, id: u64) -> (b: bool)
        ensures
            b == holds_request(self@, id),
    {
        let k = self.find(id);
        k < self.entries.len()
    }

    /// Position of the first entry of request `id`, or the length.
    pub fn find(&self, id: u64) -> (k: usize)
        ensures
            k == position_of(self@, id),
            k <= self@.len(),
            k < self@.len() <==> holds_request(self@, id),
    {
        let mut k: usize = 0;
        while k < self.entries.len() && self.entries[k].request_id != id
            invariant
                k <= self.entries@.len(),
                position_of(self.entries@, id) == position_from(self.entries@, id, k as int),
            decreases self.entries@.len() - k,
        {
            k += 1;
        }
        proof {
            lemma_position_of(self@, id);
        }
        k
    }

    /// Puts `entry` behind every queued entry that it does not outrank.
    pub fn push(&mut self, entry: QueueEntry)
        requires
            old(self).wf(),
        ensures
            final(self).wf(),
            final(self)@ == old(self)@.insert(slot_for(old(self)@, entry), entry),
            0 <= slot_for(old(self)@, entry) <= old(self)@.len(),
            forall|i: int|
                0 <= i < slot_for(old(self)@, entry) ==> !outranks(entry, #[trigger] old(self)@[i]),
            forall|i: int|
                slot_for(old(self)@, entry) <= i < old(self)@.len() ==> outranks(
                    entry,
                    #[trigger] old(self)@[i],
                ),
    {
        let mut k: usize = 0;
        while k < self.entries.len() && !entry.served_before(&self.entries[k])
            invariant
                k <= self.entries@.len(),
                slot_for(self.entries@, entry) == slot_from(self.entries@, entry, k as int),
            decreases self.entries@.len() - k,
        {
            k += 1;
        }
        proof {
            lemma_slot_for(self@, entry);
        }
        self.entries.insert(k, entry);
    }

    /// Takes the head: the entry that no queued entry outranks.
    pub fn pop(&mut self) -> (e: Option<QueueEntry>)
        requires
            old(self).wf(),
        ensures
            final(self).wf(),
            old(self)@.len() == 0 ==> e is None && final(self)@ == old(self)@,
            old(self)@.len() > 0 ==> e == Some(old(self)@[0]) && final(self)@ == old(self)@.remove(0),
            e matches Some(head) ==> forall|i: int|
                0 <= i < old(self)@.len() ==> !outranks(#[trigger] old(self)@[i], head),
    {
        if self.entries.len() == 0 {
            None
        } else {
            proof {
                lemma_remove_keeps_order(self@, 0);
            }
            let head = self.entries.remove(0);
            Some(head)
        }
    }

    /// Takes the first entry of request `id` out of the queue.
    pub fn remove(&mut self, id: u64) -> (e: Option<QueueEntry>)
        requires
            old(self).wf(),
        ensures
            final(self).wf(),
            !holds_request(old(self)@, id) ==> e is None && final(self)@ == old(self)@,
            holds_request(old(self)@, id) ==> e == Some(old(self)@[position_of(old(self)@, id)])
                && final(self)@ == old(self)@.remove(position_of(old(self)@, id)),
            e matches Some(found) ==> found.request_id == id,
    {
        let k = self.find(id);
        if k < self.entries.len() {
            proof {
                lemma_position_of(self@, id);
                lemma_remove_keeps_order(self@, k as int);
            }
            let found = self.entries.remove(k);
            Some(found)
        } else {
            None
        }
    }
}

} // verus!

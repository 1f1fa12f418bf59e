//! What holds of the scheduler in every state it can reach, and of its
//! operations taken together.

use vstd::prelude::*;
use crate::constraint::{ConstraintViolation, GrammarState, TokenMask};
use crate::correlator::Delivery;
use crate::executor::{Admission, CancelOutcome, Scheduler};
use crate::request::{EngineHandle, RequestParams, Terminal, TokenEvent};
use crate::table::{
    changed_only_at, entry_of_queued, index_of, knows, lemma_count_push, lemma_count_update,
    lemma_index_of, lemma_index_of_unique, Request,
};
use crate::queue::{
    holds_request, in_service_order, lemma_slot_for, outranks, slot_for, QueueEntry,
};
use crate::request::RequestState;

verus! {

/// Admission capacity: in every state of the scheduler the queued and the
/// running requests together are no more than `max_queue_depth`, and the
/// running ones no more than `max_concurrent`.
pub proof fn capacity_is_never_exceeded(s: Scheduler)
    requires
        s.wf(),
    ensures
        s.load() <= s.config().max_queue_depth,
        s.count(RequestState::Running) <= s.config().max_concurrent,
{
}

/// `next` is what some admission made of `now`.
pub open spec fn admitted_next(now: Scheduler, next: Scheduler) -> bool {
    exists|params: RequestParams, at: u64, r: Admission| #[trigger]
        Scheduler::admit_step(now, next, params, at, r)
}

/// Each state of `states` but the first is what an admission made of the
/// state before it.
pub open spec fn run_of_admissions(states: Seq<Scheduler>) -> bool {
    forall|i: int| 1 <= i < states.len() ==> admitted_next(states[i - 1], #[trigger] states[i])
}

/// One admission adds one to the load where it admits and nothing where it
/// rejects, never takes the load beyond the limit, and leaves the running
/// requests as many as they were.
pub proof fn admission_respects_capacity(
    before: Scheduler,
    after: Scheduler,
    params: RequestParams,
    now: u64,
    r: Admission,
)
    requires
        Scheduler::admit_step(before, after, params, now, r),
        before.load() <= before.config().max_queue_depth,
    ensures
        after.config() == before.config(),
        after.load() <= after.config().max_queue_depth,
        r is Admitted ==> after.load() == before.load() + 1,
        r is Rejected ==> after.load() == before.load(),
        after.count(RequestState::Running) == before.count(RequestState::Running),
{
    if r is Admitted {
        let added = after.requests().last();
        assert(after.requests() =~= before.requests().push(added));
        lemma_count_push(before.requests(), added, RequestState::Queued);
        lemma_count_push(before.requests(), added, RequestState::Running);
    }
}

/// For every sequence of admissions: if the first state is within the
/// limits, so is every state that follows, under the same configuration.
pub proof fn admissions_never_exceed_capacity(states: Seq<Scheduler>, k: int)
    requires
        states.len() > 0,
        run_of_admissions(states),
        states[0].load() <= states[0].config().max_queue_depth,
        states[0].count(RequestState::Running) <= states[0].config().max_concurrent,
        0 <= k < states.len(),
    ensures
        states[k].config() == states[0].config(),
        states[k].load() <= states[k].config().max_queue_depth,
        states[k].count(RequestState::Running) <= states[k].config().max_concurrent,
    decreases k,
{
    if k > 0 {
        admissions_never_exceed_capacity(states, k - 1);
        assert(admitted_next(states[k - 1], states[k]));
        let (params, at, r) = choose|params: RequestParams, at: u64, r: Admission| #[trigger]
            Scheduler::admit_step(states[k - 1], states[k], params, at, r);
        admission_respects_capacity(states[k - 1], states[k], params, at, r);
    }
}

/// The capacity probe answers by load alone: in every state of the
/// scheduler there is room exactly while the load is below the limit, and
/// none exactly when the load has reached it.
pub proof fn room_is_decided_by_load(s: Scheduler)
    requires
        s.wf(),
    ensures
        s.load() <= s.config().max_queue_depth,
        s.has_room() <==> s.load() < s.config().max_queue_depth,
        !s.has_room() <==> s.load() == s.config().max_queue_depth,
{
}

/// Service order follows the keys: of two queued entries, one that outranks
/// the other (higher priority, or equal priority and earlier enqueue time)
/// stands before it, so it is dispatched first.
pub proof fn service_order_follows_keys(q: Seq<QueueEntry>, i: int, j: int)
    requires
        in_service_order(q),
        0 <= i < q.len(),
        0 <= j < q.len(),
        outranks(q[i], q[j]),
    ensures
        i < j,
{
    if j < i {
        assert(!outranks(q[i], q[j]));
    }
}

/// Equal priorities are served in enqueue order: an entry that is pushed
/// goes behind every queued entry of its priority that was not enqueued
/// later, and that entry keeps its place.
pub proof fn equal_priority_is_first_come_first_served(q: Seq<QueueEntry>, e: QueueEntry, k: int)
    requires
        in_service_order(q),
        0 <= k < q.len(),
        q[k].priority == e.priority,
        q[k].enqueue_time <= e.enqueue_time,
    ensures
        k < slot_for(q, e),
        q.insert(slot_for(q, e), e)[k] == q[k],
{
    lemma_slot_for(q, e);
    if slot_for(q, e) <= k {
        assert(outranks(e, q[k]));
    }
}

/// No starvation among equals: a request admitted at moment `now` with
/// priority `priority` is queued behind every request that is already
/// queued with that priority or a higher one.
pub proof fn admission_queues_behind_its_equals(s: Scheduler, now: u64, priority: u32, k: int)
    requires
        s.wf(),
        0 <= k < s.queue().len(),
        s.queue()[k].priority >= priority,
    ensures
        k < slot_for(
            s.queue(),
            QueueEntry { request_id: s.next_id(), priority, enqueue_time: s.clock_at(now) },
        ),
{
    let q = s.queue();
    let e = QueueEntry { request_id: s.next_id(), priority, enqueue_time: s.clock_at(now) };
    lemma_slot_for(q, e);
    assert(entry_of_queued(s.requests(), q[k]));
    let i = choose|i: int|
        0 <= i < s.requests().len() && (#[trigger] s.requests()[i]).state is Queued
            && s.requests()[i].entry() == q[k];
    assert(s.requests()[i].enqueue_time <= s.clock());
    if slot_for(q, e) <= k {
        assert(outranks(e, q[k]));
    }
}

/// A token outside the mask is a violation: where the mask that a state
/// hands out does not hold `token`, committing `token` to that state fails
/// and leaves the state as it was.
pub proof fn token_outside_mask_is_a_violation(
    before: GrammarState,
    asked: GrammarState,
    mask: TokenMask,
    token: u32,
    after: GrammarState,
    r: Result<(), ConstraintViolation>,
)
    requires
        GrammarState::masked(before, asked, mask),
        GrammarState::advanced(asked, after, token, r),
        !mask@.contains(token),
    ensures
        r is Err,
        after == asked,
        after.position() == before.position(),
{
    assert(asked.legal() == before.legal());
}

/// Conversely, a token inside the mask is committed.
pub proof fn token_inside_mask_is_committed(
    before: GrammarState,
    asked: GrammarState,
    mask: TokenMask,
    token: u32,
    after: GrammarState,
    r: Result<(), ConstraintViolation>,
)
    requires
        GrammarState::masked(before, asked, mask),
        GrammarState::advanced(asked, after, token, r),
        mask@.contains(token),
    ensures
        r is Ok,
        after.position() == before.successor(token),
{
    assert(asked.legal() == before.legal());
}

/// Without a grammar the mask is the universal one, and asking for it
/// touches nothing: no automaton is consulted.
pub proof fn unconstrained_mask_is_universal(before: GrammarState, after: GrammarState, mask: TokenMask)
    requires
        GrammarState::masked(before, after, mask),
        before.automaton() is None,
    ensures
        mask is All,
        forall|t: u32| mask@.contains(t),
        after == before,
{
}

/// A cancellation reaches the engine exactly when the request was running.
/// Cancelling a queued request takes it out of the queue and out of the
/// admitted set, and asks nothing of the engine. Cancelling a running
/// request frees its slot and asks the engine once, for that request's
/// handle. Either way the request ends as `Cancelled`.
pub proof fn cancel_reaches_engine_only_when_running(
    before: Scheduler,
    after: Scheduler,
    id: u64,
    r: CancelOutcome,
)
    requires
        before.wf(),
        after.wf(),
        Scheduler::cancel_step(before, after, id, r),
    ensures
        before.state_of(id) == Some(RequestState::Queued) ==> {
            &&& r.engine_cancels() == Seq::<EngineHandle>::empty()
            &&& after.state_of(id) == Some(RequestState::Cancelled)
            &&& !holds_request(after.queue(), id)
            &&& after.count(RequestState::Queued) == before.count(RequestState::Queued) - 1
            &&& after.count(RequestState::Running) == before.count(RequestState::Running)
        },
        before.state_of(id) == Some(RequestState::Running) ==> {
            &&& r.engine_cancels() == seq![EngineHandle(id)]
            &&& after.state_of(id) == Some(RequestState::Cancelled)
            &&& after.count(RequestState::Queued) == before.count(RequestState::Queued)
            &&& after.count(RequestState::Running) == before.count(RequestState::Running) - 1
        },
{
    let s = before.requests();
    let t = after.requests();
    lemma_index_of(s, id);
    if before.state_of(id) == Some(RequestState::Queued) || before.state_of(id) == Some(
        RequestState::Running,
    ) {
        let i = index_of(s, id);
        assert(t[i].id == id);
        lemma_index_of_unique(t, i);
        assert(knows(t, id));
        lemma_count_update(s, t, i, RequestState::Queued);
        lemma_count_update(s, t, i, RequestState::Running);
        if holds_request(after.queue(), id) {
            let k = choose|k: int|
                0 <= k < after.queue().len() && (#[trigger] after.queue()[k]).request_id == id;
            assert(entry_of_queued(t, after.queue()[k]));
            let j = choose|j: int|
                0 <= j < t.len() && (#[trigger] t[j]).state is Queued && t[j].entry()
                    == after.queue()[k];
            if j < i {
                assert(t[j].id < t[i].id);
            } else if i < j {
                assert(t[i].id < t[j].id);
            }
        }
    }
}

/// Cancelling is idempotent: a second cancellation of the same request
/// changes nothing. The request stays in the state the first one left it
/// in, its channel keeps the one terminal event it has, and the engine is
/// not asked again.
pub proof fn cancel_is_idempotent(
    start: Scheduler,
    once: Scheduler,
    twice: Scheduler,
    id: u64,
    first: CancelOutcome,
    second: CancelOutcome,
)
    requires
        start.wf(),
        once.wf(),
        Scheduler::cancel_step(start, once, id, first),
        Scheduler::cancel_step(once, twice, id, second),
    ensures
        twice == once,
        twice.state_of(id) == once.state_of(id),
        second is Unknown || second is AlreadyTerminal,
        second.engine_cancels() == Seq::<EngineHandle>::empty(),
        second matches CancelOutcome::AlreadyTerminal(state) ==> once.state_of(id) == Some(state),
{
    let s = start.requests();
    let t = once.requests();
    lemma_index_of(s, id);
    if first is Dequeued || first is Interrupted {
        let i = index_of(s, id);
        assert(t[i].id == id);
        lemma_index_of_unique(t, i);
        assert(knows(t, id));
        assert(once.state_of(id) == Some(RequestState::Cancelled));
    }
}

/// A cancellation changes no other request: every request but `id` is in
/// `after` exactly what it was in `before`.
pub proof fn cancel_leaves_the_others(
    before: Scheduler,
    after: Scheduler,
    id: u64,
    r: CancelOutcome,
    other: int,
)
    requires
        before.wf(),
        Scheduler::cancel_step(before, after, id, r),
        0 <= other < before.requests().len(),
        before.requests()[other].id != id,
    ensures
        after.requests().len() == before.requests().len(),
        after.requests()[other] == before.requests()[other],
{
    lemma_index_of(before.requests(), id);
    if r is Dequeued || r is Interrupted {
        assert(changed_only_at(before.requests(), after.requests(), index_of(before.requests(), id)));
    }
}

/// The lifecycle only moves forward. Whatever an operation does to a
/// request, it keeps the request's identifier, it moves the state along the
/// transition relation or leaves it, and it leaves a terminal state alone.
pub proof fn lifecycle_only_moves_forward(
    a: Request,
    b: Request,
    ending: Terminal,
    event: TokenEvent,
    d: Delivery,
    clock: u64,
    release_by: u64,
)
    requires
        ({
            ||| a.state is Queued && Scheduler::started(a, b)
            ||| (a.state is Running || a.state is Queued && ending is Cancelled) && Scheduler::stopped(
                a,
                b,
                ending,
                release_by,
            )
            ||| a.state is Running && Scheduler::finished(a, b, ending)
            ||| a.state is Running && Scheduler::committed(a, b, event)
            ||| Scheduler::released(a, b)
            ||| Scheduler::ticked(a, b, clock, release_by)
            ||| Scheduler::served(a, b, d)
        }),
    ensures
        b.id == a.id,
        b.state == a.state || a.state.can_become(b.state),
        a.state.is_terminal() ==> b.state == a.state,
{
}

/// A handle names one request: in every state of the scheduler, two
/// requests that have a handle have different ones.
pub proof fn handle_names_one_request(s: Scheduler, i: int, j: int)
    requires
        s.wf(),
        0 <= i < s.requests().len(),
        0 <= j < s.requests().len(),
        s.requests()[i].handle is Some,
        s.requests()[i].handle == s.requests()[j].handle,
    ensures
        i == j,
{
    let t = s.requests();
    assert(t[i].wf() && t[j].wf());
    if i < j {
        assert(t[i].id < t[j].id);
    } else if j < i {
        assert(t[j].id < t[i].id);
    }
}

} // verus!

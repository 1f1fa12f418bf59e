//! The scheduler: admission, priority dispatch, the lifecycle of every
//! admitted request, and what the engine's callbacks do to it.

use vstd::prelude::*;
use crate::config::{add_ticks, clamp_priority, moment_after, SchedulerConfig};
use crate::constraint::{GrammarState, TokenMask};
use crate::correlator::{Correlator, Delivery};
use crate::queue::{in_service_order, outranks, position_of, slot_for, PriorityQueue, QueueEntry};
use crate::request::{
    CancelReason, CompletionReason, EngineHandle, FailureReason, RejectReason, RequestParams,
    RequestState, Terminal, TokenEvent,
};
use crate::table::{
    changed_only_at, count_state, index_from, index_of, keeps_order, knows, ids_increasing,
    lemma_admit_keeps_match, lemma_count_positive, lemma_count_push, lemma_count_remove,
    lemma_count_update, lemma_entry_owner, lemma_entry_position, lemma_forget_keeps_match,
    lemma_index_of, lemma_keeps_order_refl, lemma_keeps_order_remove, lemma_leave_queue,
    lemma_update_keeps_match, queue_matches, same_request, Request,
};

verus! {

/// What admission answers.
#[derive(Clone, Copy, Debug, PartialEq, Eq, Structural)]
pub enum Admission {
    /// The request is queued under this identifier.
    Admitted(u64),
    Rejected(RejectReason),
}

/// A request that has just started running, with what the engine needs to
/// take it on.
#[derive(Debug, PartialEq, Eq)]
pub struct Dispatch {
    pub request_id: u64,
    pub handle: EngineHandle,
    pub max_tokens: u32,
    pub streaming: bool,
    /// The tokens the request may begin with.
    pub mask: TokenMask,
}

/// What a cancellation found and did.
#[derive(Clone, Copy, Debug, PartialEq, Eq, Structural)]
pub enum CancelOutcome {
    /// The scheduler knows no such request.
    Unknown,
    /// The request had ended before, in this state; nothing was done.
    AlreadyTerminal(RequestState),
    /// The request was queued and has left the queue; the engine never saw it.
    Dequeued,
    /// The request was running; the engine must be told once to drop this handle.
    Interrupted(EngineHandle),
}

impl CancelOutcome {
    /// The handles that the engine must be told to drop after a
    /// cancellation with this outcome, one call each.
    pub open spec fn engine_cancels(self) -> Seq<EngineHandle> {
        match self {
            CancelOutcome::Interrupted(h) => seq![h],
            _ => Seq::empty(),
        }
    }

    /// The handle to cancel at the engine, if the outcome asks for it.
    pub fn engine_cancel(&self) -> (h: Option<EngineHandle>)
        ensures
            h matches Some(handle) ==> self.engine_cancels() == seq![handle],
            h is None ==> self.engine_cancels() == Seq::<EngineHandle>::empty(),
    {
        match self {
            CancelOutcome::Interrupted(h) => Some(*h),
            _ => None,
        }
    }
}

/// What the scheduler answers to a token that the engine produced.
#[derive(Debug, PartialEq, Eq)]
pub enum TokenDecision {
    /// The token is committed; any token may follow.
    Accept,
    /// The token is committed; the next one must come from this mask.
    Constrain(TokenMask),
    /// The request ended on this token, in the way given; the engine must
    /// drop the handle.
    Veto(Terminal),
    /// The handle names no running request; the event was ignored.
    Discard,
}

/// What the scheduler made of the engine's report that it is done.
#[derive(Clone, Copy, Debug, PartialEq, Eq, Structural)]
pub enum CompletionOutcome {
    /// The running request ended in the way given.
    Finished(Terminal),
    /// The request had ended before; its handle is forgotten now.
    Released,
    /// The handle is not in use; the report was ignored.
    Discarded,
}

/// The scheduling state of the process.
#[derive(Debug)]
pub struct Scheduler {
    config: SchedulerConfig,
    requests: Vec<Request>,
    queue: PriorityQueue,
    running: usize,
    shutting_down: bool,
    next_id: u64,
    clock: u64,
}

impl Scheduler {
    pub closed spec fn config(&self) -> SchedulerConfig {
        self.config
    }

    /// Every request that was admitted and not yet forgotten, in the order
    /// of admission.
    pub closed spec fn requests(&self) -> Seq<Request> {
        self.requests@
    }

    /// The queued requests in service order.
    pub closed spec fn queue(&self) -> Seq<QueueEntry> {
        self.queue@
    }

    /// The running-request counter.
    pub closed spec fn running(&self) -> nat {
        self.running as nat
    }

    /// Whether new work is turned away because the process is draining.
    pub closed spec fn shutting_down(&self) -> bool {
        self.shutting_down
    }

    /// Identifier that the next admitted request gets.
    pub closed spec fn next_id(&self) -> u64 {
        self.next_id
    }

    /// Latest moment the scheduler was told of.
    pub closed spec fn clock(&self) -> u64 {
        self.clock
    }

    /// The scheduler's invariant.
    pub open spec fn wf(&self) -> bool {
        &&& in_service_order(self.queue())
        &&& ids_increasing(self.requests())
        &&& forall|i: int|
            0 <= i < self.requests().len() ==> {
                &&& (#[trigger] self.requests()[i]).wf()
                &&& self.requests()[i].id < self.next_id()
                &&& self.requests()[i].enqueue_time <= self.clock()
            }
        &&& queue_matches(self.requests(), self.queue())
        &&& count_state(self.requests(), RequestState::Queued) == self.queue().len()
        &&& count_state(self.requests(), RequestState::Running) == self.running()
        &&& self.running() <= self.config().max_concurrent
        &&& self.queue().len() + self.running() <= self.config().max_queue_depth
        &&& self.next_id() < u64::MAX || self.shutting_down()
    }

    /// Number of requests in state `state`.
    pub open spec fn count(&self, state: RequestState) -> nat {
        count_state(self.requests(), state)
    }

    /// State of request `id`, or `None` where the scheduler does not know it.
    pub open spec fn state_of(&self, id: u64) -> Option<RequestState> {
        if knows(self.requests(), id) {
            Some(self.requests()[index_of(self.requests(), id)].state)
        } else {
            None
        }
    }

    /// Number of requests that take up admission capacity: the queued and
    /// the running ones.
    pub open spec fn load(&self) -> nat {
        self.count(RequestState::Queued) + self.count(RequestState::Running)
    }

    /// There is room for one more request: queued and running requests
    /// together are below the admission limit.
    pub open spec fn has_room(&self) -> bool {
        self.load() < self.config().max_queue_depth
    }

    /// Admitting one more request uses up the last identifier.
    pub open spec fn on_last_id(&self) -> bool {
        self.next_id() == u64::MAX - 1
    }

    /// A scheduler without requests.
    pub fn new(config: SchedulerConfig) -> (s: Scheduler)
        ensures
            s.wf(),
            s.config() == config,
            s.requests() == Seq::<Request>::empty(),
            s.queue() == Seq::<QueueEntry>::empty(),
            s.running() == 0,
            !s.shutting_down(),
            s.next_id() == 0,
            s.clock() == 0,
    {
        Scheduler {
            config,
            requests: Vec::new(),
            queue: PriorityQueue::new(),
            running: 0,
            shutting_down: false,
            next_id: 0,
            clock: 0,
        }
    }

    pub fn configuration(&self) -> (c: SchedulerConfig)
        ensures
            c == self.config(),
    {
        self.config
    }

    /// Number of queued requests.
    pub fn queued_len(&self) -> (n: usize)
        requires
            self.wf(),
        ensures
            n == self.count(RequestState::Queued),
    {
        self.queue.len()
    }

    /// Number of running requests.
    pub fn running_len(&self) -> (n: usize)
        requires
            self.wf(),
        ensures
            n == self.count(RequestState::Running),
    {
        self.running
    }

    pub fn is_shutting_down(&self) -> (b: bool)
        ensures
            b == self.shutting_down(),
    {
        self.shutting_down
    }

    /// The identifiers of the queued requests, in service order.
    pub fn queued_ids(&self) -> (ids: Vec<u64>)
        ensures
            ids@.len() == self.queue().len(),
            forall|k: int| 0 <= k < ids@.len() ==> ids@[k] == self.queue()[k].request_id,
    {
        let mut ids: Vec<u64> = Vec::new();
        let mut k: usize = 0;
        while k < self.queue.len()
            invariant
                k <= self.queue@.len(),
                ids@.len() == k,
                forall|j: int| 0 <= j < k ==> ids@[j] == self.queue@[j].request_id,
            decreases self.queue@.len() - k,
        {
            match self.queue.get(k) {
                Some(e) => ids.push(e.request_id),
                None => {},
            }
            k += 1;
        }
        ids
    }

    /// Capacity probe: whether one more request fits.
    pub fn can_enqueue_request(&self) -> (b: bool)
        requires
            self.wf(),
        ensures
            b == self.has_room(),
    {
        self.queue.len() + self.running < self.config.max_queue_depth
    }

    /// Position of request `id` in the table, or the length.
    fn find(&self, id: u64) -> (i: usize)
        ensures
            i == index_of(self.requests(), id),
            i <= self.requests().len(),
            i < self.requests().len() <==> knows(self.requests(), id),
            i < self.requests().len() ==> self.requests()[i as int].id == id,
    {
        let mut i: usize = 0;
        while i < self.requests.len() && self.requests[i].id != id
            invariant
                i <= self.requests@.len(),
                index_of(self.requests@, id) == index_from(self.requests@, id, i as int),
            decreases self.requests@.len() - i,
        {
            i += 1;
        }
        proof {
            lemma_index_of(self.requests@, id);
        }
        i
    }

    /// State of request `id`.
    pub fn state(&self, id: u64) -> (s: Option<RequestState>)
        ensures
            s == self.state_of(id),
    {
        let i = self.find(id);
        if i < self.requests.len() {
            Some(self.requests[i].state)
        } else {
            None
        }
    }

    /// The moment the scheduler's clock shows once it is told of `now`: time
    /// does not run backwards.
    pub open spec fn clock_at(&self, now: u64) -> u64 {
        if now > self.clock() {
            now
        } else {
            self.clock()
        }
    }

    /// The request that admitting `params` at `now` adds to the table, as
    /// far as plain values describe it.
    pub open spec fn admits(&self, params: RequestParams, now: u64, r: Request) -> bool {
        &&& r.id == self.next_id()
        &&& r.priority == clamp_priority(
            params.priority,
            self.config().default_priority,
            self.config().priority_bound,
        )
        &&& r.streaming == params.streaming
        &&& r.max_tokens == params.max_tokens
        &&& r.enqueue_time == self.clock_at(now)
        &&& r.deadline == moment_after(self.clock_at(now), self.config().request_timeout)
        &&& r.state is Queued
        &&& r.handle is None
        &&& r.grammar.position() == 0
        &&& r.grammar.automaton() == (match params.grammar {
            Some(g) => Some(g@),
            None => None,
        })
        &&& r.correlator.streaming() == params.streaming
        &&& r.correlator.pending() == Seq::<TokenEvent>::empty()
        &&& r.correlator.capacity() == self.config().stream_buffer
        &&& r.correlator.terminal() is None
        &&& !r.correlator.delivered()
    }

    /// `after` and `r` are what admitting `params` at `now` in `before` leaves
    /// and answers. A draining scheduler rejects with `ShuttingDown`, a full
    /// one with `AtCapacity`, and neither changes anything. Otherwise the
    /// request is appended to the table in state `Queued` under the next
    /// identifier and put into the queue behind every entry that it does not
    /// outrank. Identifiers are never issued twice: the admission that takes
    /// the last one starts draining.
    pub open spec fn admit_step(
        before: Scheduler,
        after: Scheduler,
        params: RequestParams,
        now: u64,
        r: Admission,
    ) -> bool {
        &&& after.config() == before.config()
        &&& after.shutting_down() == (before.shutting_down() || (r is Admitted
            && before.on_last_id()))
        &&& after.running() == before.running()
        &&& before.shutting_down() ==> r == Admission::Rejected(RejectReason::ShuttingDown)
        &&& !before.shutting_down() && !before.has_room() ==> r == Admission::Rejected(
            RejectReason::AtCapacity,
        )
        &&& !before.shutting_down() && before.has_room() ==> r == Admission::Admitted(
            before.next_id(),
        )
        &&& r is Rejected ==> after == before
        &&& r is Admitted ==> {
            &&& after.requests().len() == before.requests().len() + 1
            &&& after.requests().drop_last() == before.requests()
            &&& before.admits(params, now, after.requests().last())
            &&& after.queue() == before.queue().insert(
                slot_for(before.queue(), after.requests().last().entry()),
                after.requests().last().entry(),
            )
            &&& after.next_id() == before.next_id() + 1
            &&& after.clock() == before.clock_at(now)
        }
    }

    /// Admission: see `admit_step`.
    pub fn try_admit(&mut self, params: RequestParams, now: u64) -> (r: Admission)
        requires
            old(self).wf(),
        ensures
            final(self).wf(),
            Self::admit_step(*old(self), *final(self), params, now, r),
    {
        if self.shutting_down {
            return Admission::Rejected(RejectReason::ShuttingDown);
        }
        if !self.can_enqueue_request() {
            return Admission::Rejected(RejectReason::AtCapacity);
        }
        let id = self.next_id;
        let at = if now > self.clock {
            now
        } else {
            self.clock
        };
        let priority = self.config.effective_priority(params.priority);
        let grammar = match params.grammar {
            Some(g) => GrammarState::start(g),
            None => GrammarState::unconstrained(),
        };
        let request = Request {
            id,
            priority,
            streaming: params.streaming,
            max_tokens: params.max_tokens,
            enqueue_time: at,
            deadline: add_ticks(at, self.config.request_timeout),
            state: RequestState::Queued,
            handle: None,
            release_by: 0,
            grammar,
            correlator: Correlator::new(params.streaming, self.config.stream_buffer),
        };
        let entry = QueueEntry { request_id: id, priority, enqueue_time: at };
        proof {
            lemma_admit_keeps_match(self.requests@, self.queue@, request);
            lemma_count_push(self.requests@, request, RequestState::Queued);
            lemma_count_push(self.requests@, request, RequestState::Running);
            assert(self.requests@.push(request).drop_last() =~= self.requests@);
        }
        self.requests.push(request);
        self.queue.push(entry);
        self.next_id = id + 1;
        self.clock = at;
        if self.next_id == u64::MAX {
            self.shutting_down = true;
        }
        Admission::Admitted(id)
    }
    /// A request can start: one is queued and a concurrency slot is free.
    pub open spec fn can_dispatch(&self) -> bool {
        self.queue().len() > 0 && self.running() < self.config().max_concurrent
    }

    /// `b` is the queued request `a` after it started running.
    pub open spec fn started(a: Request, b: Request) -> bool {
        &&& same_request(a, b)
        &&& b.state is Running
        &&& b.handle == Some(EngineHandle(a.id))
        &&& b.grammar.position() == a.grammar.position()
        &&& b.correlator == a.correlator
    }

    /// Starts the request at the head of the queue if a concurrency slot is
    /// free: it becomes `Running` under the handle issued for it. Without a
    /// queued request or a free slot nothing changes.
    pub fn dispatch(&mut self) -> (r: Option<Dispatch>)
        requires
            old(self).wf(),
        ensures
            final(self).wf(),
            final(self).config() == old(self).config(),
            final(self).shutting_down() == old(self).shutting_down(),
            final(self).next_id() == old(self).next_id(),
            final(self).clock() == old(self).clock(),
            r is Some <==> old(self).can_dispatch(),
            r is None ==> *final(self) == *old(self),
            r matches Some(d) ==> {
                let i = index_of(old(self).requests(), d.request_id);
                &&& d.request_id == old(self).queue()[0].request_id
                &&& d.handle == EngineHandle(d.request_id)
                &&& final(self).queue() == old(self).queue().remove(0)
                &&& final(self).running() == old(self).running() + 1
                &&& 0 <= i < old(self).requests().len()
                &&& old(self).requests()[i].state is Queued
                &&& changed_only_at(old(self).requests(), final(self).requests(), i)
                &&& Self::started(old(self).requests()[i], final(self).requests()[i])
                &&& d.max_tokens == old(self).requests()[i].max_tokens
                &&& d.streaming == old(self).requests()[i].streaming
                &&& d.mask@ == old(self).requests()[i].grammar.legal()
                &&& forall|k: int|
                    0 <= k < old(self).queue().len() ==> !outranks(
                        #[trigger] old(self).queue()[k],
                        old(self).queue()[0],
                    )
            },
    {
        if self.queue.is_empty() || self.running >= self.config.max_concurrent {
            return None;
        }
        proof {
            lemma_entry_owner(self.requests@, self.queue@, 0);
        }
        match self.queue.pop() {
            None => None,
            Some(head) => {
                let id = head.request_id;
                let i = self.find(id);
                let handle = EngineHandle(id);
                self.requests[i].state = RequestState::Running;
                self.requests[i].handle = Some(handle);
                let mask = self.requests[i].grammar.mask_for();
                self.running = self.running + 1;
                proof {
                    let s = old(self).requests@;
                    let t = self.requests@;
                    lemma_leave_queue(s, t, old(self).queue@, 0, i as int);
                    lemma_count_update(s, t, i as int, RequestState::Queued);
                    lemma_count_update(s, t, i as int, RequestState::Running);
                }
                Some(
                    Dispatch {
                        request_id: id,
                        handle,
                        max_tokens: self.requests[i].max_tokens,
                        streaming: self.requests[i].streaming,
                        mask,
                    },
                )
            },
        }
    }

    /// `b` is the active request `a` after it was ended with `ending`: its
    /// channel is closed with that ending, what waits in it still waits, and
    /// a handle it had is kept until `release_by`.
    pub open spec fn stopped(a: Request, b: Request, ending: Terminal, release_by: u64) -> bool {
        &&& same_request(a, b)
        &&& b.state == ending.state()
        &&& b.handle == a.handle
        &&& a.state is Running ==> b.release_by == release_by
        &&& b.grammar == a.grammar
        &&& b.correlator.terminal() == Some(ending)
        &&& b.correlator.pending() == a.correlator.pending()
        &&& b.correlator.delivered() == a.correlator.delivered()
    }

    /// Ends the active request at `i` with `ending`; a queued request can
    /// only be cancelled. A queued request leaves the queue; a running one
    /// frees its slot and keeps its handle for the grace period. Returns the
    /// handle the request had.
    fn stop_active(&mut self, i: usize, ending: Terminal) -> (h: Option<EngineHandle>)
        requires
            old(self).wf(),
            i < old(self).requests().len(),
            old(self).requests()[i as int].state.is_active(),
            old(self).requests()[i as int].state is Queued ==> ending is Cancelled,
        ensures
            final(self).wf(),
            final(self).config() == old(self).config(),
            final(self).shutting_down() == old(self).shutting_down(),
            final(self).next_id() == old(self).next_id(),
            final(self).clock() == old(self).clock(),
            changed_only_at(old(self).requests(), final(self).requests(), i as int),
            Self::stopped(
                old(self).requests()[i as int],
                final(self).requests()[i as int],
                ending,
                moment_after(old(self).clock(), old(self).config().cancel_grace),
            ),
            h == old(self).requests()[i as int].handle,
            old(self).requests()[i as int].state is Queued ==> h is None && final(self).running()
                == old(self).running() && final(self).queue() == old(self).queue().remove(
                position_of(old(self).queue(), old(self).requests()[i as int].id),
            ),
            old(self).requests()[i as int].state is Running ==> h == Some(
                EngineHandle(old(self).requests()[i as int].id),
            ) && final(self).running() == old(self).running() - 1 && final(self).queue() == old(self).queue(),
    {
        let id = self.requests[i].id;
        let was_running = match self.requests[i].state {
            RequestState::Running => true,
            _ => false,
        };
        let h = self.requests[i].handle;
        if was_running {
            proof {
                lemma_count_positive(self.requests@, i as int, RequestState::Running);
            }
            self.running = self.running - 1;
            self.requests[i].release_by = add_ticks(self.clock, self.config.cancel_grace);
        } else {
            proof {
                lemma_entry_position(self.requests@, self.queue@, i as int);
            }
            let _ = self.queue.remove(id);
        }
        self.requests[i].state = ending.final_state();
        let _ = self.requests[i].correlator.close(ending);
        proof {
            let s = old(self).requests@;
            let t = self.requests@;
            if was_running {
                lemma_update_keeps_match(s, t, old(self).queue@, i as int);
            } else {
                lemma_leave_queue(
                    s,
                    t,
                    old(self).queue@,
                    position_of(old(self).queue@, id),
                    i as int,
                );
            }
            lemma_count_update(s, t, i as int, RequestState::Queued);
            lemma_count_update(s, t, i as int, RequestState::Running);
        }
        h
    }

    /// What `cancel` answers for request `id`, given the scheduler as it is.
    pub open spec fn cancel_outcome(&self, id: u64) -> CancelOutcome {
        match self.state_of(id) {
            None => CancelOutcome::Unknown,
            Some(RequestState::Queued) => CancelOutcome::Dequeued,
            Some(RequestState::Running) => CancelOutcome::Interrupted(EngineHandle(id)),
            Some(state) => CancelOutcome::AlreadyTerminal(state),
        }
    }

    /// `after` and `r` are what cancelling request `id` in `before` leaves
    /// and answers. The answer follows from the state the request is in. An
    /// unknown or ended request changes nothing. An active one ends as
    /// `Cancelled` by its client: queued, it leaves the queue at its
    /// position; running, it frees its slot.
    pub open spec fn cancel_step(before: Scheduler, after: Scheduler, id: u64, r: CancelOutcome) -> bool {
        &&& after.config() == before.config()
        &&& after.shutting_down() == before.shutting_down()
        &&& after.next_id() == before.next_id()
        &&& after.clock() == before.clock()
        &&& r == before.cancel_outcome(id)
        &&& r is Unknown || r is AlreadyTerminal ==> after == before
        &&& r is Dequeued || r is Interrupted ==> {
            let i = index_of(before.requests(), id);
            &&& 0 <= i < before.requests().len()
            &&& changed_only_at(before.requests(), after.requests(), i)
            &&& Self::stopped(
                before.requests()[i],
                after.requests()[i],
                Terminal::Cancelled(CancelReason::ClientCancelled),
                moment_after(before.clock(), before.config().cancel_grace),
            )
        }
        &&& r is Dequeued ==> after.running() == before.running() && after.queue()
            == before.queue().remove(position_of(before.queue(), id))
        &&& r is Interrupted ==> after.running() == before.running() - 1 && after.queue()
            == before.queue()
    }

    /// Cancels request `id` on behalf of its client. A queued request leaves
    /// the queue and a running one frees its slot at once; both end as
    /// `Cancelled`. A request that had ended, or that is unknown, is left
    /// alone, and so is everything else.
    pub fn cancel(&mut self, id: u64) -> (r: CancelOutcome)
        requires
            old(self).wf(),
        ensures
            final(self).wf(),
            Self::cancel_step(*old(self), *final(self), id, r),
    {
        let i = self.find(id);
        if i >= self.requests.len() {
            return CancelOutcome::Unknown;
        }
        let state = self.requests[i].state;
        if state.terminal() {
            return CancelOutcome::AlreadyTerminal(state);
        }
        match self.stop_active(i, Terminal::Cancelled(CancelReason::ClientCancelled)) {
            Some(handle) => CancelOutcome::Interrupted(handle),
            None => CancelOutcome::Dequeued,
        }
    }
    /// `handle` names a running request.
    pub open spec fn is_live(&self, handle: EngineHandle) -> bool {
        self.state_of(handle.0) == Some(RequestState::Running)
    }

    /// The engine may still report under `handle`.
    pub open spec fn holds_handle(&self, handle: EngineHandle) -> bool {
        knows(self.requests(), handle.0) && self.requests()[index_of(
            self.requests(),
            handle.0,
        )].handle == Some(handle)
    }

    /// `b` is the request `a` with its handle forgotten.
    pub open spec fn released(a: Request, b: Request) -> bool {
        &&& same_request(a, b)
        &&& b.state == a.state
        &&& b.handle is None
        &&& b.release_by == a.release_by
        &&& b.grammar == a.grammar
        &&& b.correlator == a.correlator
    }

    /// Forgets the handle of the ended request at `i`.
    fn release_handle(&mut self, i: usize)
        requires
            old(self).wf(),
            i < old(self).requests().len(),
            old(self).requests()[i as int].state.is_terminal(),
        ensures
            final(self).wf(),
            final(self).config() == old(self).config(),
            final(self).shutting_down() == old(self).shutting_down(),
            final(self).next_id() == old(self).next_id(),
            final(self).clock() == old(self).clock(),
            final(self).queue() == old(self).queue(),
            final(self).running() == old(self).running(),
            changed_only_at(old(self).requests(), final(self).requests(), i as int),
            Self::released(old(self).requests()[i as int], final(self).requests()[i as int]),
    {
        self.requests[i].handle = None;
        proof {
            let s = old(self).requests@;
            let t = self.requests@;
            lemma_update_keeps_match(s, t, old(self).queue@, i as int);
            lemma_count_update(s, t, i as int, RequestState::Queued);
            lemma_count_update(s, t, i as int, RequestState::Running);
        }
    }

    /// `b` is the running request `a` after `event` was committed: the
    /// automaton has moved along the token and the event waits behind those
    /// that waited before.
    pub open spec fn committed(a: Request, b: Request, event: TokenEvent) -> bool {
        &&& same_request(a, b)
        &&& b.state is Running
        &&& b.handle == a.handle
        &&& b.release_by == a.release_by
        &&& b.grammar.position() == a.grammar.successor(event.token_id)
        &&& b.correlator.pending() == a.correlator.pending().push(event)
        &&& b.correlator.terminal() is None
        &&& b.correlator.delivered() == a.correlator.delivered()
    }

    /// The engine produced a token under `handle`. A handle that names no
    /// running request is ignored. A token that the request's grammar
    /// forbids fails the request; a token for which a streaming buffer has
    /// no room cancels it; both free the slot. Otherwise the token is
    /// forwarded to the request's channel, the automaton moves, and the
    /// answer carries the mask for the next token where there is a grammar.
    pub fn on_token(
        &mut self,
        handle: EngineHandle,
        token_id: u32,
        is_final: bool,
        logprob: Option<i64>,
    ) -> (r: TokenDecision)
        requires
            old(self).wf(),
        ensures
            final(self).wf(),
            final(self).config() == old(self).config(),
            final(self).shutting_down() == old(self).shutting_down(),
            final(self).next_id() == old(self).next_id(),
            final(self).clock() == old(self).clock(),
            final(self).queue() == old(self).queue(),
            !old(self).is_live(handle) ==> r is Discard && *final(self) == *old(self),
            old(self).is_live(handle) ==> {
                let i = index_of(old(self).requests(), handle.0);
                let a = old(self).requests()[i];
                let b = final(self).requests()[i];
                let release_by = moment_after(old(self).clock(), old(self).config().cancel_grace);
                let event = TokenEvent { request_id: handle.0, token_id, is_final, logprob };
                &&& 0 <= i < old(self).requests().len()
                &&& changed_only_at(old(self).requests(), final(self).requests(), i)
                &&& if !a.grammar.legal().contains(token_id) {
                    let ending = Terminal::Failed(FailureReason::ConstraintViolation);
                    &&& r == TokenDecision::Veto(ending)
                    &&& Self::stopped(a, b, ending, release_by)
                    &&& final(self).running() == old(self).running() - 1
                } else if !(a.correlator.publish_outcome() is Accepted) {
                    let ending = Terminal::Cancelled(CancelReason::Backpressure);
                    &&& r == TokenDecision::Veto(ending)
                    &&& Self::stopped(a, b, ending, release_by)
                    &&& final(self).running() == old(self).running() - 1
                } else {
                    &&& Self::committed(a, b, event)
                    &&& final(self).running() == old(self).running()
                    &&& a.grammar.automaton() is None ==> r is Accept
                    &&& a.grammar.automaton() is Some ==> (r matches TokenDecision::Constrain(m)
                        && m@ == b.grammar.legal())
                }
            },
    {
        let id = handle.0;
        let i = self.find(id);
        if i >= self.requests.len() {
            return TokenDecision::Discard;
        }
        match self.requests[i].state {
            RequestState::Running => {},
            _ => {
                return TokenDecision::Discard;
            },
        }
        if !self.requests[i].grammar.allows(token_id) {
            let ending = Terminal::Failed(FailureReason::ConstraintViolation);
            let _ = self.stop_active(i, ending);
            return TokenDecision::Veto(ending);
        }
        if !self.requests[i].correlator.has_room() {
            let ending = Terminal::Cancelled(CancelReason::Backpressure);
            let _ = self.stop_active(i, ending);
            return TokenDecision::Veto(ending);
        }
        let event = TokenEvent { request_id: id, token_id, is_final, logprob };
        let _ = self.requests[i].correlator.publish(event);
        let _ = self.requests[i].grammar.advance(token_id);
        let decision = if self.requests[i].grammar.is_constrained() {
            TokenDecision::Constrain(self.requests[i].grammar.mask_for())
        } else {
            TokenDecision::Accept
        };
        proof {
            let s = old(self).requests@;
            let t = self.requests@;
            lemma_update_keeps_match(s, t, old(self).queue@, i as int);
            lemma_count_update(s, t, i as int, RequestState::Queued);
            lemma_count_update(s, t, i as int, RequestState::Running);
        }
        decision
    }

    /// `b` is the running request `a` after the engine reported that it is
    /// done with it: ended with `ending`, its handle forgotten.
    pub open spec fn finished(a: Request, b: Request, ending: Terminal) -> bool {
        &&& same_request(a, b)
        &&& b.state == ending.state()
        &&& b.handle is None
        &&& b.grammar == a.grammar
        &&& b.correlator.terminal() == Some(ending)
        &&& b.correlator.pending() == a.correlator.pending()
        &&& b.correlator.delivered() == a.correlator.delivered()
    }

    /// The engine reports that it is done with `handle`. A running request
    /// ends as the report says: `Completed` on a normal stop, `Failed` on an
    /// engine error. A request that had ended before only has its handle
    /// forgotten. A handle that is not in use is ignored.
    pub fn on_complete(&mut self, handle: EngineHandle, reason: CompletionReason) -> (r:
        CompletionOutcome)
        requires
            old(self).wf(),
        ensures
            final(self).wf(),
            final(self).config() == old(self).config(),
            final(self).shutting_down() == old(self).shutting_down(),
            final(self).next_id() == old(self).next_id(),
            final(self).clock() == old(self).clock(),
            final(self).queue() == old(self).queue(),
            !old(self).holds_handle(handle) ==> r is Discarded && *final(self) == *old(self),
            old(self).holds_handle(handle) ==> {
                let i = index_of(old(self).requests(), handle.0);
                let a = old(self).requests()[i];
                let b = final(self).requests()[i];
                &&& 0 <= i < old(self).requests().len()
                &&& changed_only_at(old(self).requests(), final(self).requests(), i)
                &&& if a.state is Running {
                    &&& r == CompletionOutcome::Finished(reason.ending())
                    &&& Self::finished(a, b, reason.ending())
                    &&& final(self).running() == old(self).running() - 1
                } else {
                    &&& r is Released
                    &&& Self::released(a, b)
                    &&& final(self).running() == old(self).running()
                }
            },
    {
        let i = self.find(handle.0);
        if i >= self.requests.len() {
            return CompletionOutcome::Discarded;
        }
        if self.requests[i].handle.is_none() {
            return CompletionOutcome::Discarded;
        }
        let running = match self.requests[i].state {
            RequestState::Running => true,
            _ => false,
        };
        if running {
            let ending = reason.to_terminal();
            let _ = self.stop_active(i, ending);
            self.release_handle(i);
            CompletionOutcome::Finished(ending)
        } else {
            self.release_handle(i);
            CompletionOutcome::Released
        }
    }
    /// The request is active and its deadline has come.
    pub open spec fn is_expired(r: Request, clock: u64) -> bool {
        r.state.is_active() && r.deadline <= clock
    }

    /// The request has ended, and the grace period of the handle it still
    /// has is over.
    pub open spec fn is_lapsed(r: Request, clock: u64) -> bool {
        r.state.is_terminal() && r.handle is Some && r.release_by < clock
    }

    /// `b` is the request `a` after a tick at `clock`: timed out where it
    /// had expired, without its handle where that had lapsed, and untouched
    /// otherwise.
    pub open spec fn ticked(a: Request, b: Request, clock: u64, release_by: u64) -> bool {
        if Self::is_expired(a, clock) {
            Self::stopped(a, b, Terminal::Cancelled(CancelReason::Timeout), release_by)
        } else if Self::is_lapsed(a, clock) {
            Self::released(a, b)
        } else {
            b == a
        }
    }

    /// `h` is the handle of one of the first `upto` requests of `s` that is
    /// running with its deadline come.
    pub open spec fn timed_out_running(s: Seq<Request>, h: EngineHandle, upto: int, clock: u64) -> bool {
        exists|k: int|
            0 <= k < upto && (#[trigger] s[k]).state is Running && Self::is_expired(s[k], clock) && h
                == EngineHandle(s[k].id)
    }

    /// The handles listed are those of the first `upto` requests of `s`
    /// that are running with their deadline come: each of them once, in the
    /// order of the table, and no other.
    pub open spec fn lists_timed_out(
        s: Seq<Request>,
        handles: Seq<EngineHandle>,
        upto: int,
        clock: u64,
    ) -> bool {
        &&& forall|a: int, b: int|
            0 <= a < b < handles.len() ==> (#[trigger] handles[a]).0 < (#[trigger] handles[b]).0
        &&& forall|a: int|
            0 <= a < handles.len() ==> Self::timed_out_running(s, #[trigger] handles[a], upto, clock)
        &&& forall|k: int|
            0 <= k < upto && (#[trigger] s[k]).state is Running && Self::is_expired(s[k], clock)
                ==> handles.contains(EngineHandle(s[k].id))
    }

    /// One request's share of a tick: the request at `i` is timed out where
    /// it has expired, loses its handle where that has lapsed, and is left
    /// alone otherwise. Returns the handle of a request that was running
    /// when it timed out.
    fn tick_one(&mut self, i: usize) -> (h: Option<EngineHandle>)
        requires
            old(self).wf(),
            i < old(self).requests().len(),
        ensures
            final(self).wf(),
            final(self).config() == old(self).config(),
            final(self).shutting_down() == old(self).shutting_down(),
            final(self).next_id() == old(self).next_id(),
            final(self).clock() == old(self).clock(),
            changed_only_at(old(self).requests(), final(self).requests(), i as int),
            Self::ticked(
                old(self).requests()[i as int],
                final(self).requests()[i as int],
                old(self).clock(),
                moment_after(old(self).clock(), old(self).config().cancel_grace),
            ),
            keeps_order(old(self).queue(), final(self).queue()),
            h == (if old(self).requests()[i as int].state is Running && Self::is_expired(
                old(self).requests()[i as int],
                old(self).clock(),
            ) {
                Some(EngineHandle(old(self).requests()[i as int].id))
            } else {
                None
            }),
    {
        let at = self.clock;
        let state = self.requests[i].state;
        proof {
            lemma_keeps_order_refl(self.queue@);
        }
        if state.active() && self.requests[i].deadline <= at {
            proof {
                if state is Queued {
                    lemma_entry_position(self.requests@, self.queue@, i as int);
                    lemma_keeps_order_remove(
                        self.queue@,
                        self.queue@,
                        position_of(self.queue@, self.requests@[i as int].id),
                    );
                }
            }
            self.stop_active(i, Terminal::Cancelled(CancelReason::Timeout))
        } else if state.terminal() && self.requests[i].handle.is_some() && self.requests[i].release_by
            < at {
            self.release_handle(i);
            None
        } else {
            None
        }
    }

    /// Tells the scheduler of the moment `now`. Every active request whose
    /// deadline has come is cancelled with `Timeout`, and every handle whose
    /// grace period is over is forgotten. Returns the handles of the
    /// requests that were running when they timed out, in the order of
    /// their admission: the engine must be told once to drop each.
    pub fn tick(&mut self, now: u64) -> (handles: Vec<EngineHandle>)
        requires
            old(self).wf(),
        ensures
            final(self).wf(),
            final(self).config() == old(self).config(),
            final(self).shutting_down() == old(self).shutting_down(),
            final(self).next_id() == old(self).next_id(),
            final(self).clock() == old(self).clock_at(now),
            final(self).requests().len() == old(self).requests().len(),
            forall|i: int|
                0 <= i < old(self).requests().len() ==> Self::ticked(
                    (#[trigger] old(self).requests()[i]),
                    final(self).requests()[i],
                    final(self).clock(),
                    moment_after(final(self).clock(), old(self).config().cancel_grace),
                ),
            keeps_order(old(self).queue(), final(self).queue()),
            forall|a: int, b: int|
                0 <= a < b < handles@.len() ==> (#[trigger] handles@[a]).0 < (#[trigger] handles@[b]).0,
            forall|h: EngineHandle|
                handles@.contains(h) <==> Self::timed_out_running(
                    old(self).requests(),
                    h,
                    old(self).requests().len() as int,
                    final(self).clock(),
                ),
    {
        let at = if now > self.clock {
            now
        } else {
            self.clock
        };
        self.clock = at;
        let n = self.requests.len();
        let mut handles: Vec<EngineHandle> = Vec::new();
        let mut i: usize = 0;
        let ghost release_by = moment_after(at, self.config.cancel_grace);
        proof {
            lemma_keeps_order_refl(self.queue@);
        }
        while i < n
            invariant
                self.wf(),
                i <= n,
                n == self.requests().len(),
                n == old(self).requests().len(),
                ids_increasing(old(self).requests()),
                self.config() == old(self).config(),
                self.shutting_down() == old(self).shutting_down(),
                self.next_id() == old(self).next_id(),
                self.clock() == at,
                release_by == moment_after(at, self.config().cancel_grace),
                ticked_upto(old(self).requests(), self.requests(), i as int, at, release_by),
                keeps_order(old(self).queue(), self.queue()),
                Self::lists_timed_out(old(self).requests(), handles@, i as int, at),
            decreases n - i,
        {
            let ghost before = self.requests();
            let ghost queue_before = self.queue();
            let ghost listed = handles@;
            let stopped = self.tick_one(i);
            proof {
                lemma_ticked_extend(
                    old(self).requests(),
                    before,
                    self.requests(),
                    i as int,
                    at,
                    release_by,
                );
                lemma_keeps_order_trans(old(self).queue(), queue_before, self.queue());
            }
            match stopped {
                Some(handle) => {
                    handles.push(handle);
                    proof {
                        lemma_list_push(old(self).requests(), listed, i as int, at);
                    }
                },
                None => {
                    proof {
                        lemma_list_skip(old(self).requests(), listed, i as int, at);
                    }
                },
            }
            i += 1;
        }
        proof {
            lemma_list_complete(old(self).requests(), handles@, at);
        }
        handles
    }

    /// `b` is the request `a` after its consumer asked for one item and got `d`.
    pub open spec fn served(a: Request, b: Request, d: Delivery) -> bool {
        &&& same_request(a, b)
        &&& b.state == a.state
        &&& b.handle == a.handle
        &&& b.release_by == a.release_by
        &&& b.grammar == a.grammar
        &&& Correlator::polled(a.correlator, b.correlator, d)
    }

    /// Hands the consumer of request `id` the next item of its response, or
    /// `None` where the scheduler does not know the request.
    pub fn poll(&mut self, id: u64) -> (r: Option<Delivery>)
        requires
            old(self).wf(),
        ensures
            final(self).wf(),
            final(self).config() == old(self).config(),
            final(self).shutting_down() == old(self).shutting_down(),
            final(self).next_id() == old(self).next_id(),
            final(self).clock() == old(self).clock(),
            final(self).queue() == old(self).queue(),
            final(self).running() == old(self).running(),
            r is Some <==> knows(old(self).requests(), id),
            r is None ==> *final(self) == *old(self),
            r matches Some(d) ==> {
                let i = index_of(old(self).requests(), id);
                &&& changed_only_at(old(self).requests(), final(self).requests(), i)
                &&& Self::served(old(self).requests()[i], final(self).requests()[i], d)
            },
    {
        let i = self.find(id);
        if i >= self.requests.len() {
            return None;
        }
        let d = self.requests[i].correlator.poll();
        proof {
            let s = old(self).requests@;
            let t = self.requests@;
            lemma_update_keeps_match(s, t, old(self).queue@, i as int);
            lemma_count_update(s, t, i as int, RequestState::Queued);
            lemma_count_update(s, t, i as int, RequestState::Running);
        }
        Some(d)
    }

    /// Request `id` has ended and the engine is done with it.
    pub open spec fn can_forget(&self, id: u64) -> bool {
        &&& knows(self.requests(), id)
        &&& self.requests()[index_of(self.requests(), id)].state.is_terminal()
        &&& self.requests()[index_of(self.requests(), id)].handle is None
    }

    /// Drops the record of request `id` once it has ended and its handle is
    /// forgotten. Any other request stays, and `false` is returned.
    pub fn forget(&mut self, id: u64) -> (dropped: bool)
        requires
            old(self).wf(),
        ensures
            final(self).wf(),
            final(self).config() == old(self).config(),
            final(self).shutting_down() == old(self).shutting_down(),
            final(self).next_id() == old(self).next_id(),
            final(self).clock() == old(self).clock(),
            final(self).queue() == old(self).queue(),
            final(self).running() == old(self).running(),
            dropped == old(self).can_forget(id),
            !dropped ==> *final(self) == *old(self),
            dropped ==> final(self).requests() == old(self).requests().remove(
                index_of(old(self).requests(), id),
            ),
    {
        let i = self.find(id);
        if i >= self.requests.len() {
            return false;
        }
        if !self.requests[i].state.terminal() || self.requests[i].handle.is_some() {
            return false;
        }
        proof {
            lemma_forget_keeps_match(self.requests@, self.queue@, i as int);
            lemma_count_remove(self.requests@, i as int, RequestState::Queued);
            lemma_count_remove(self.requests@, i as int, RequestState::Running);
        }
        let _ = self.requests.remove(i);
        true
    }

    /// Starts draining: from now on admission answers `ShuttingDown`.
    /// Requests that were admitted before run on.
    pub fn begin_shutdown(&mut self)
        requires
            old(self).wf(),
        ensures
            final(self).wf(),
            final(self).shutting_down(),
            final(self).config() == old(self).config(),
            final(self).requests() == old(self).requests(),
            final(self).queue() == old(self).queue(),
            final(self).running() == old(self).running(),
            final(self).next_id() == old(self).next_id(),
            final(self).clock() == old(self).clock(),
    {
        self.shutting_down = true;
    }

    /// The scheduler is draining, no request is queued or running, and the
    /// engine holds no handle: the engine can be let go.
    pub open spec fn drained(&self) -> bool {
        &&& self.shutting_down()
        &&& self.count(RequestState::Queued) == 0
        &&& self.count(RequestState::Running) == 0
        &&& forall|i: int| 0 <= i < self.requests().len() ==> (#[trigger] self.requests()[i]).handle is None
    }

    /// Whether draining is done.
    pub fn is_drained(&self) -> (b: bool)
        requires
            self.wf(),
        ensures
            b == self.drained(),
    {
        if !self.shutting_down || self.queue.len() > 0 || self.running > 0 {
            return false;
        }
        let mut i: usize = 0;
        while i < self.requests.len()
            invariant
                i <= self.requests@.len(),
                forall|k: int| 0 <= k < i ==> (#[trigger] self.requests@[k]).handle is None,
            decreases self.requests@.len() - i,
        {
            if self.requests[i].handle.is_some() {
                return false;
            }
            i += 1;
        }
        true
    }
}

/// The first `upto` requests of `now` are those of `then` after a tick at
/// `clock`, and the rest are as they were.
pub open spec fn ticked_upto(
    then: Seq<Request>,
    now: Seq<Request>,
    upto: int,
    clock: u64,
    release_by: u64,
) -> bool {
    &&& now.len() == then.len()
    &&& forall|k: int|
        0 <= k < upto ==> Scheduler::ticked(#[trigger] then[k], now[k], clock, release_by)
    &&& forall|k: int| upto <= k < then.len() ==> #[trigger] now[k] == then[k]
}

/// A tick that has dealt with the first `i` requests and now deals with
/// the request at `i` has dealt with the first `i + 1`.
pub proof fn lemma_ticked_extend(
    then: Seq<Request>,
    before: Seq<Request>,
    after: Seq<Request>,
    i: int,
    clock: u64,
    release_by: u64,
)
    requires
        0 <= i < then.len(),
        ticked_upto(then, before, i, clock, release_by),
        changed_only_at(before, after, i),
        Scheduler::ticked(before[i], after[i], clock, release_by),
    ensures
        ticked_upto(then, after, i + 1, clock, release_by),
{
    assert forall|k: int| 0 <= k < i + 1 implies Scheduler::ticked(
        #[trigger] then[k],
        after[k],
        clock,
        release_by,
    ) by {
        if k < i {
            assert(after[k] == before[k]);
        } else {
            assert(before[i] == then[i]);
        }
    }
    assert forall|k: int| i + 1 <= k < then.len() implies #[trigger] after[k] == then[k] by {
        assert(after[k] == before[k]);
    }
}

/// Keeping the order carries over two steps.
pub proof fn lemma_keeps_order_trans(
    first: Seq<QueueEntry>,
    second: Seq<QueueEntry>,
    third: Seq<QueueEntry>,
)
    requires
        keeps_order(first, second),
        keeps_order(second, third),
    ensures
        keeps_order(first, third),
{
    assert forall|k: int| 0 <= k < third.len() implies {
        &&& 0 <= position_of(first, (#[trigger] third[k]).request_id) < first.len()
        &&& first[position_of(first, third[k].request_id)] == third[k]
    } by {
        let m = position_of(second, third[k].request_id);
        assert(second[m] == third[k]);
    }
    assert forall|k: int, l: int| 0 <= k < l < third.len() implies position_of(
        first,
        (#[trigger] third[k]).request_id,
    ) < position_of(first, (#[trigger] third[l]).request_id) by {
        let m = position_of(second, third[k].request_id);
        let n = position_of(second, third[l].request_id);
        assert(second[m] == third[k] && second[n] == third[l]);
        assert(m < n);
    }
}

/// A request that did not time out while running adds no handle.
pub proof fn lemma_list_skip(s: Seq<Request>, handles: Seq<EngineHandle>, i: int, clock: u64)
    requires
        0 <= i < s.len(),
        Scheduler::lists_timed_out(s, handles, i, clock),
        !(s[i].state is Running && Scheduler::is_expired(s[i], clock)),
    ensures
        Scheduler::lists_timed_out(s, handles, i + 1, clock),
{
    assert forall|a: int| 0 <= a < handles.len() implies Scheduler::timed_out_running(
        s,
        #[trigger] handles[a],
        i + 1,
        clock,
    ) by {
        assert(Scheduler::timed_out_running(s, handles[a], i, clock));
        let k = choose|k: int|
            0 <= k < i && (#[trigger] s[k]).state is Running && Scheduler::is_expired(s[k], clock)
                && handles[a] == EngineHandle(s[k].id);
        assert(0 <= k < i + 1);
    }
}

/// A request that timed out while running adds its handle behind those
/// listed, all of which are smaller.
pub proof fn lemma_list_push(s: Seq<Request>, handles: Seq<EngineHandle>, i: int, clock: u64)
    requires
        0 <= i < s.len(),
        ids_increasing(s),
        Scheduler::lists_timed_out(s, handles, i, clock),
        s[i].state is Running,
        Scheduler::is_expired(s[i], clock),
    ensures
        Scheduler::lists_timed_out(s, handles.push(EngineHandle(s[i].id)), i + 1, clock),
{
    let h = EngineHandle(s[i].id);
    let longer = handles.push(h);
    assert forall|a: int| 0 <= a < handles.len() implies (#[trigger] handles[a]).0 < h.0 by {
        assert(Scheduler::timed_out_running(s, handles[a], i, clock));
        let k = choose|k: int|
            0 <= k < i && (#[trigger] s[k]).state is Running && Scheduler::is_expired(s[k], clock)
                && handles[a] == EngineHandle(s[k].id);
        assert(s[k].id < s[i].id);
    }
    assert forall|a: int, b: int| 0 <= a < b < longer.len() implies (#[trigger] longer[a]).0 < (
    #[trigger] longer[b]).0 by {
        assert(longer[a] == handles[a]);
        if b < handles.len() {
            assert(longer[b] == handles[b]);
        }
    }
    assert forall|a: int| 0 <= a < longer.len() implies Scheduler::timed_out_running(
        s,
        #[trigger] longer[a],
        i + 1,
        clock,
    ) by {
        if a < handles.len() {
            assert(longer[a] == handles[a]);
            assert(Scheduler::timed_out_running(s, handles[a], i, clock));
            let k = choose|k: int|
                0 <= k < i && (#[trigger] s[k]).state is Running && Scheduler::is_expired(
                    s[k],
                    clock,
                ) && handles[a] == EngineHandle(s[k].id);
            assert(0 <= k < i + 1);
        } else {
            assert(s[i].state is Running);
        }
    }
    assert forall|k: int|
        0 <= k < i + 1 && (#[trigger] s[k]).state is Running && Scheduler::is_expired(
            s[k],
            clock,
        ) implies longer.contains(EngineHandle(s[k].id)) by {
        if k < i {
            let g = EngineHandle(s[k].id);
            assert(handles.contains(g));
            let a = choose|a: int| 0 <= a < handles.len() && handles[a] == g;
            assert(longer[a] == g);
        } else {
            assert(longer[handles.len() as int] == h);
        }
    }
}

/// A list that covers the whole table holds exactly the handles of the
/// requests that timed out while running.
pub proof fn lemma_list_complete(s: Seq<Request>, handles: Seq<EngineHandle>, clock: u64)
    requires
        Scheduler::lists_timed_out(s, handles, s.len() as int, clock),
    ensures
        forall|h: EngineHandle|
            handles.contains(h) <==> Scheduler::timed_out_running(s, h, s.len() as int, clock),
{
    assert forall|h: EngineHandle| handles.contains(h) implies Scheduler::timed_out_running(
        s,
        h,
        s.len() as int,
        clock,
    ) by {
        let a = choose|a: int| 0 <= a < handles.len() && handles[a] == h;
        assert(Scheduler::timed_out_running(s, handles[a], s.len() as int, clock));
    }
}

} // verus!

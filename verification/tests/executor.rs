use llgtrt::config::SchedulerConfig;
use llgtrt::constraint::TokenMask;
use llgtrt::correlator::Delivery;
use llgtrt::executor::{Admission, CancelOutcome, CompletionOutcome, Scheduler, TokenDecision};
use llgtrt::grammar::{CompiledGrammar, Edge};
use llgtrt::request::{
    CancelReason, CompletionReason, EngineHandle, FailureReason, RejectReason, RequestParams,
    RequestState, StopReason, Terminal, TokenEvent,
};

fn config(max_queue_depth: usize, max_concurrent: usize) -> SchedulerConfig {
    SchedulerConfig {
        max_queue_depth,
        max_concurrent,
        default_priority: 5,
        priority_bound: 10,
        request_timeout: 100,
        cancel_grace: 10,
        stream_buffer: 3,
    }
}

fn plain(priority: u32) -> RequestParams {
    RequestParams { priority: Some(priority), streaming: false, max_tokens: 16, grammar: None }
}

fn streaming(priority: u32) -> RequestParams {
    RequestParams { priority: Some(priority), streaming: true, max_tokens: 16, grammar: None }
}

fn constrained() -> RequestParams {
    let table = vec![
        vec![Edge { token: 10, target: 1 }, Edge { token: 20, target: 0 }],
        vec![Edge { token: 30, target: 0 }],
    ];
    RequestParams {
        priority: None,
        streaming: true,
        max_tokens: 16,
        grammar: Some(CompiledGrammar::new(table).expect("a valid table")),
    }
}

fn enqueue(s: &mut Scheduler, params: RequestParams, now: u64) -> u64 {
    match s.try_admit(params, now) {
        Admission::Admitted(id) => id,
        Admission::Rejected(why) => panic!("rejected: {:?}", why),
    }
}

fn event(request_id: u64, token_id: u32) -> TokenEvent {
    TokenEvent { request_id, token_id, is_final: false, logprob: None }
}

#[test]
fn run_order_is_priority_then_submission() {
    let mut s = Scheduler::new(config(8, 1));
    let low_a = enqueue(&mut s, plain(1), 0);
    let high = enqueue(&mut s, plain(5), 1);
    let low_b = enqueue(&mut s, plain(1), 2);
    assert_eq!(s.queued_ids(), vec![high, low_a, low_b]);
    let mut order = Vec::new();
    for _ in 0..3 {
        let d = s.dispatch().expect("a queued request and a free slot");
        assert!(s.dispatch().is_none());
        assert_eq!(s.running_len(), 1);
        order.push(d.request_id);
        assert_eq!(
            s.on_complete(d.handle, CompletionReason::Stopped(StopReason::EndOfText)),
            CompletionOutcome::Finished(Terminal::Completed(StopReason::EndOfText))
        );
    }
    assert_eq!(order, vec![high, low_a, low_b]);
    assert!(s.dispatch().is_none());
}

#[test]
fn third_request_is_rejected_at_capacity() {
    let mut s = Scheduler::new(config(2, 1));
    assert!(s.can_enqueue_request());
    assert_eq!(s.try_admit(plain(1), 0), Admission::Admitted(0));
    assert!(s.can_enqueue_request());
    assert_eq!(s.try_admit(plain(1), 0), Admission::Admitted(1));
    assert!(!s.can_enqueue_request());
    assert_eq!(s.try_admit(plain(9), 0), Admission::Rejected(RejectReason::AtCapacity));
    assert_eq!(s.queued_len(), 2);
    assert_eq!(s.state(2), None);
}

#[test]
fn running_requests_count_towards_capacity() {
    let mut s = Scheduler::new(config(2, 2));
    enqueue(&mut s, plain(1), 0);
    enqueue(&mut s, plain(1), 0);
    let d = s.dispatch().expect("dispatch");
    assert_eq!(s.queued_len(), 1);
    assert_eq!(s.running_len(), 1);
    assert_eq!(s.try_admit(plain(1), 0), Admission::Rejected(RejectReason::AtCapacity));
    s.on_complete(d.handle, CompletionReason::Stopped(StopReason::MaxTokens));
    assert_eq!(s.try_admit(plain(1), 0), Admission::Admitted(2));
}

#[test]
fn counts_stay_within_limits_over_a_long_run() {
    let mut s = Scheduler::new(config(4, 2));
    let mut handles: Vec<EngineHandle> = Vec::new();
    for step in 0..200u64 {
        let _ = s.try_admit(plain((step % 7) as u32), step);
        if let Some(d) = s.dispatch() {
            handles.push(d.handle);
        }
        if step % 3 == 0 && !handles.is_empty() {
            let h = handles.remove(0);
            s.on_complete(h, CompletionReason::Stopped(StopReason::EndOfText));
        }
        if step % 5 == 0 {
            let _ = s.cancel(step / 2);
        }
        assert!(s.queued_len() + s.running_len() <= 4);
        assert!(s.running_len() <= 2);
    }
}

#[test]
fn slow_streaming_consumer_gets_the_request_cancelled() {
    let mut s = Scheduler::new(config(4, 1));
    let id = enqueue(&mut s, streaming(5), 0);
    let d = s.dispatch().expect("dispatch");
    assert_eq!(d.mask, TokenMask::All);
    assert!(d.streaming);
    assert_eq!(s.on_token(d.handle, 100, false, None), TokenDecision::Accept);
    assert_eq!(s.poll(id), Some(Delivery::Chunk(event(id, 100))));
    // the consumer stops reading; the buffer holds three chunks
    assert_eq!(s.on_token(d.handle, 101, false, None), TokenDecision::Accept);
    assert_eq!(s.on_token(d.handle, 102, false, None), TokenDecision::Accept);
    assert_eq!(s.on_token(d.handle, 103, false, None), TokenDecision::Accept);
    assert_eq!(
        s.on_token(d.handle, 104, false, None),
        TokenDecision::Veto(Terminal::Cancelled(CancelReason::Backpressure))
    );
    assert_eq!(s.state(id), Some(RequestState::Cancelled));
    assert_eq!(s.running_len(), 0);
    // the engine may still deliver; such events are dropped
    assert_eq!(s.on_token(d.handle, 105, false, None), TokenDecision::Discard);
    assert_eq!(s.poll(id), Some(Delivery::Chunk(event(id, 101))));
    assert_eq!(s.poll(id), Some(Delivery::Chunk(event(id, 102))));
    assert_eq!(s.poll(id), Some(Delivery::Chunk(event(id, 103))));
    assert_eq!(
        s.poll(id),
        Some(Delivery::End(Terminal::Cancelled(CancelReason::Backpressure)))
    );
    assert_eq!(s.poll(id), Some(Delivery::Finished));
}

#[test]
fn cancel_twice_gives_the_same_terminal_state_and_one_terminal_event() {
    let mut s = Scheduler::new(config(4, 1));
    let running = enqueue(&mut s, streaming(5), 0);
    let queued = enqueue(&mut s, streaming(5), 0);
    let d = s.dispatch().expect("dispatch");
    assert_eq!(d.request_id, running);

    assert_eq!(s.cancel(queued), CancelOutcome::Dequeued);
    assert_eq!(s.state(queued), Some(RequestState::Cancelled));
    assert_eq!(s.cancel(queued), CancelOutcome::AlreadyTerminal(RequestState::Cancelled));
    assert_eq!(s.state(queued), Some(RequestState::Cancelled));

    assert_eq!(s.cancel(running), CancelOutcome::Interrupted(d.handle));
    assert_eq!(s.cancel(running), CancelOutcome::AlreadyTerminal(RequestState::Cancelled));
    assert_eq!(s.state(running), Some(RequestState::Cancelled));

    for id in [queued, running] {
        assert_eq!(
            s.poll(id),
            Some(Delivery::End(Terminal::Cancelled(CancelReason::ClientCancelled)))
        );
        assert_eq!(s.poll(id), Some(Delivery::Finished));
    }
    assert_eq!(s.cancel(99), CancelOutcome::Unknown);
}

#[test]
fn cancelling_a_queued_request_never_reaches_the_engine() {
    let mut s = Scheduler::new(config(4, 1));
    let first = enqueue(&mut s, plain(5), 0);
    let second = enqueue(&mut s, plain(5), 0);
    let outcome = s.cancel(second);
    assert_eq!(outcome, CancelOutcome::Dequeued);
    assert_eq!(outcome.engine_cancel(), None);
    assert_eq!(s.queued_ids(), vec![first]);
    assert_eq!(s.queued_len(), 1);
    let d = s.dispatch().expect("dispatch");
    assert_eq!(d.request_id, first);
    assert!(s.dispatch().is_none());
}

#[test]
fn cancelling_a_running_request_asks_the_engine_once() {
    let mut s = Scheduler::new(config(4, 1));
    let id = enqueue(&mut s, plain(5), 0);
    let waiting = enqueue(&mut s, plain(5), 0);
    let d = s.dispatch().expect("dispatch");
    assert_eq!(d.handle, EngineHandle(id));
    let outcome = s.cancel(id);
    assert_eq!(outcome.engine_cancel(), Some(d.handle));
    assert_eq!(s.cancel(id).engine_cancel(), None);
    // the slot is free at once
    assert_eq!(s.running_len(), 0);
    assert_eq!(s.dispatch().map(|d| d.request_id), Some(waiting));
    // the engine's late reports are dropped, its acknowledgement releases the handle
    assert_eq!(s.on_token(d.handle, 1, false, None), TokenDecision::Discard);
    assert!(!s.forget(id));
    assert_eq!(
        s.on_complete(d.handle, CompletionReason::Stopped(StopReason::EndOfText)),
        CompletionOutcome::Released
    );
    assert_eq!(s.state(id), Some(RequestState::Cancelled));
    assert_eq!(
        s.on_complete(d.handle, CompletionReason::EngineError),
        CompletionOutcome::Discarded
    );
    assert!(s.forget(id));
    assert_eq!(s.state(id), None);
}

#[test]
fn priority_is_defaulted_and_clamped() {
    let mut s = Scheduler::new(config(8, 1));
    let unset = enqueue(
        &mut s,
        RequestParams { priority: None, streaming: false, max_tokens: 1, grammar: None },
        0,
    );
    let huge = enqueue(&mut s, plain(1_000_000), 0);
    let ten = enqueue(&mut s, plain(10), 0);
    let six = enqueue(&mut s, plain(6), 0);
    // the huge one is capped at 10 and ties with the ten that came later
    assert_eq!(s.queued_ids(), vec![huge, ten, six, unset]);
}

#[test]
fn constrained_request_is_masked_step_by_step() {
    let mut s = Scheduler::new(config(4, 1));
    let id = enqueue(&mut s, constrained(), 0);
    let d = s.dispatch().expect("dispatch");
    assert_eq!(d.mask, TokenMask::Only(vec![10, 20]));
    assert_eq!(
        s.on_token(d.handle, 10, false, Some(-1500)),
        TokenDecision::Constrain(TokenMask::Only(vec![30]))
    );
    assert_eq!(
        s.on_token(d.handle, 30, false, None),
        TokenDecision::Constrain(TokenMask::Only(vec![10, 20]))
    );
    assert_eq!(
        s.poll(id),
        Some(Delivery::Chunk(TokenEvent {
            request_id: id,
            token_id: 10,
            is_final: false,
            logprob: Some(-1500),
        }))
    );
    assert_eq!(s.poll(id), Some(Delivery::Chunk(event(id, 30))));
    assert_eq!(s.state(id), Some(RequestState::Running));
}

#[test]
fn token_outside_the_mask_fails_the_request() {
    let mut s = Scheduler::new(config(4, 1));
    let id = enqueue(&mut s, constrained(), 0);
    let sibling = enqueue(&mut s, plain(1), 0);
    let d = s.dispatch().expect("dispatch");
    assert_eq!(
        s.on_token(d.handle, 30, false, None),
        TokenDecision::Veto(Terminal::Failed(FailureReason::ConstraintViolation))
    );
    assert_eq!(s.state(id), Some(RequestState::Failed));
    assert_eq!(
        s.poll(id),
        Some(Delivery::End(Terminal::Failed(FailureReason::ConstraintViolation)))
    );
    // the sibling is untouched and takes the freed slot
    assert_eq!(s.state(sibling), Some(RequestState::Queued));
    assert_eq!(s.dispatch().map(|d| d.request_id), Some(sibling));
}

#[test]
fn engine_reports_decide_between_completed_and_failed() {
    let mut s = Scheduler::new(config(4, 2));
    let a = enqueue(&mut s, plain(5), 0);
    let b = enqueue(&mut s, plain(5), 0);
    let da = s.dispatch().expect("dispatch");
    let db = s.dispatch().expect("dispatch");
    assert_eq!(s.on_token(da.handle, 1, false, None), TokenDecision::Accept);
    assert_eq!(s.on_token(da.handle, 2, true, None), TokenDecision::Accept);
    assert_eq!(s.poll(a), Some(Delivery::Pending));
    assert_eq!(
        s.on_complete(da.handle, CompletionReason::Stopped(StopReason::StopSequence)),
        CompletionOutcome::Finished(Terminal::Completed(StopReason::StopSequence))
    );
    assert_eq!(
        s.on_complete(db.handle, CompletionReason::EngineError),
        CompletionOutcome::Finished(Terminal::Failed(FailureReason::EngineError))
    );
    assert_eq!(s.state(a), Some(RequestState::Completed));
    assert_eq!(s.state(b), Some(RequestState::Failed));
    assert_eq!(
        s.poll(a),
        Some(Delivery::Aggregate {
            tokens: vec![1, 2],
            terminal: Terminal::Completed(StopReason::StopSequence),
        })
    );
    assert_eq!(
        s.poll(b),
        Some(Delivery::Aggregate {
            tokens: vec![],
            terminal: Terminal::Failed(FailureReason::EngineError),
        })
    );
    // a report for a handle that is gone is dropped
    assert_eq!(
        s.on_complete(da.handle, CompletionReason::EngineError),
        CompletionOutcome::Discarded
    );
    assert_eq!(s.on_token(EngineHandle(77), 1, false, None), TokenDecision::Discard);
    assert_eq!(s.poll(77), None);
}

#[test]
fn tick_times_out_queued_and_running_requests() {
    let mut s = Scheduler::new(config(8, 1));
    let running = enqueue(&mut s, plain(5), 10);
    let queued = enqueue(&mut s, plain(5), 20);
    let late = enqueue(&mut s, plain(5), 60);
    let d = s.dispatch().expect("dispatch");
    assert_eq!(d.request_id, running);
    assert_eq!(s.tick(109), Vec::<EngineHandle>::new());
    assert_eq!(s.state(running), Some(RequestState::Running));
    assert_eq!(s.tick(110), vec![d.handle]);
    assert_eq!(s.state(running), Some(RequestState::Cancelled));
    assert_eq!(s.state(queued), Some(RequestState::Queued));
    assert_eq!(s.tick(125), Vec::<EngineHandle>::new());
    assert_eq!(s.state(queued), Some(RequestState::Cancelled));
    assert_eq!(s.state(late), Some(RequestState::Queued));
    assert_eq!(s.queued_ids(), vec![late]);
    assert_eq!(
        s.poll(queued),
        Some(Delivery::Aggregate {
            tokens: vec![],
            terminal: Terminal::Cancelled(CancelReason::Timeout),
        })
    );
    assert!(Terminal::Cancelled(CancelReason::Timeout).surfaces_error());
    assert!(!Terminal::Cancelled(CancelReason::ClientCancelled).surfaces_error());
}

#[test]
fn tick_forgets_a_handle_after_the_grace_period() {
    let mut s = Scheduler::new(config(8, 1));
    let id = enqueue(&mut s, plain(5), 0);
    let d = s.dispatch().expect("dispatch");
    s.tick(50);
    assert_eq!(s.cancel(id), CancelOutcome::Interrupted(d.handle));
    assert!(!s.forget(id));
    s.tick(60);
    assert!(!s.forget(id));
    s.tick(61);
    assert_eq!(
        s.on_complete(d.handle, CompletionReason::Stopped(StopReason::EndOfText)),
        CompletionOutcome::Discarded
    );
    assert!(s.forget(id));
}

#[test]
fn clock_does_not_run_backwards() {
    let mut s = Scheduler::new(config(8, 1));
    let first = enqueue(&mut s, plain(5), 500);
    let second = enqueue(&mut s, plain(5), 3);
    assert_eq!(s.queued_ids(), vec![first, second]);
    assert_eq!(s.tick(599), Vec::<EngineHandle>::new());
    assert_eq!(s.state(second), Some(RequestState::Queued));
    assert_eq!(s.tick(0), Vec::<EngineHandle>::new());
    assert_eq!(s.state(first), Some(RequestState::Queued));
    s.tick(600);
    assert_eq!(s.state(first), Some(RequestState::Cancelled));
    assert_eq!(s.state(second), Some(RequestState::Cancelled));
}

#[test]
fn shutdown_rejects_new_work_and_drains_the_rest() {
    let mut s = Scheduler::new(config(8, 1));
    let a = enqueue(&mut s, plain(5), 0);
    let b = enqueue(&mut s, plain(5), 0);
    assert!(!s.is_shutting_down());
    assert!(!s.is_drained());
    s.begin_shutdown();
    assert!(s.is_shutting_down());
    assert_eq!(s.try_admit(plain(9), 0), Admission::Rejected(RejectReason::ShuttingDown));
    assert!(!s.is_drained());
    let da = s.dispatch().expect("dispatch");
    assert_eq!(da.request_id, a);
    s.on_complete(da.handle, CompletionReason::Stopped(StopReason::EndOfText));
    let db = s.dispatch().expect("dispatch");
    assert_eq!(db.request_id, b);
    assert_eq!(s.cancel(b), CancelOutcome::Interrupted(db.handle));
    // the engine still holds the cancelled handle
    assert!(!s.is_drained());
    assert_eq!(
        s.on_complete(db.handle, CompletionReason::Stopped(StopReason::EndOfText)),
        CompletionOutcome::Released
    );
    assert!(s.is_drained());
}

#[test]
fn forget_only_drops_requests_that_have_ended() {
    let mut s = Scheduler::new(config(8, 1));
    let a = enqueue(&mut s, plain(5), 0);
    let b = enqueue(&mut s, plain(5), 0);
    assert!(!s.forget(a));
    let d = s.dispatch().expect("dispatch");
    assert!(!s.forget(a));
    s.on_complete(d.handle, CompletionReason::Stopped(StopReason::EndOfText));
    assert!(s.forget(a));
    assert!(!s.forget(a));
    assert_eq!(s.state(a), None);
    assert_eq!(s.state(b), Some(RequestState::Queued));
    assert_eq!(s.dispatch().map(|d| d.request_id), Some(b));
    assert_eq!(s.configuration(), config(8, 1));
}

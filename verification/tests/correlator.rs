use llgtrt::correlator::{Correlator, Delivery, Publish};
use llgtrt::request::{CancelReason, FailureReason, StopReason, Terminal, TokenEvent};

fn event(token_id: u32) -> TokenEvent {
    TokenEvent { request_id: 1, token_id, is_final: false, logprob: None }
}

#[test]
fn streaming_chunks_come_out_one_by_one_in_arrival_order() {
    let mut c = Correlator::new(true, 8);
    assert_eq!(c.poll(), Delivery::Pending);
    for t in [5u32, 3, 9] {
        assert_eq!(c.publish(event(t)), Publish::Accepted);
    }
    assert_eq!(c.backlog(), 3);
    assert_eq!(c.poll(), Delivery::Chunk(event(5)));
    assert_eq!(c.publish(event(7)), Publish::Accepted);
    assert_eq!(c.poll(), Delivery::Chunk(event(3)));
    assert_eq!(c.poll(), Delivery::Chunk(event(9)));
    assert_eq!(c.poll(), Delivery::Chunk(event(7)));
    assert_eq!(c.poll(), Delivery::Pending);
    assert!(c.close(Terminal::Completed(StopReason::EndOfText)));
    assert_eq!(c.poll(), Delivery::End(Terminal::Completed(StopReason::EndOfText)));
    assert_eq!(c.poll(), Delivery::Finished);
    assert_eq!(c.poll(), Delivery::Finished);
}

#[test]
fn streaming_buffer_overflows_at_its_bound() {
    let mut c = Correlator::new(true, 2);
    assert!(c.has_room());
    assert_eq!(c.publish(event(1)), Publish::Accepted);
    assert_eq!(c.publish(event(2)), Publish::Accepted);
    assert!(!c.has_room());
    assert_eq!(c.publish(event(3)), Publish::Overflow);
    assert_eq!(c.backlog(), 2);
    assert_eq!(c.poll(), Delivery::Chunk(event(1)));
    assert_eq!(c.publish(event(4)), Publish::Accepted);
    assert_eq!(c.poll(), Delivery::Chunk(event(2)));
    assert_eq!(c.poll(), Delivery::Chunk(event(4)));
}

#[test]
fn streaming_buffer_of_zero_takes_nothing() {
    let mut c = Correlator::new(true, 0);
    assert_eq!(c.publish(event(1)), Publish::Overflow);
    assert_eq!(c.backlog(), 0);
}

#[test]
fn buffered_response_comes_out_whole_after_the_end() {
    let mut c = Correlator::new(false, 1);
    for t in [4u32, 8, 15, 16] {
        assert_eq!(c.publish(event(t)), Publish::Accepted);
        assert_eq!(c.poll(), Delivery::Pending);
    }
    assert_eq!(c.backlog(), 4);
    assert!(c.close(Terminal::Completed(StopReason::MaxTokens)));
    assert_eq!(
        c.poll(),
        Delivery::Aggregate {
            tokens: vec![4, 8, 15, 16],
            terminal: Terminal::Completed(StopReason::MaxTokens),
        }
    );
    assert_eq!(c.backlog(), 0);
    assert_eq!(c.poll(), Delivery::Finished);
}

#[test]
fn closed_channel_drops_events_and_keeps_its_first_terminal() {
    let mut c = Correlator::new(true, 4);
    assert_eq!(c.publish(event(1)), Publish::Accepted);
    assert!(!c.closed());
    assert_eq!(c.ending(), None);
    assert!(c.close(Terminal::Cancelled(CancelReason::ClientCancelled)));
    assert!(c.closed());
    assert!(!c.close(Terminal::Failed(FailureReason::EngineError)));
    assert_eq!(c.ending(), Some(Terminal::Cancelled(CancelReason::ClientCancelled)));
    assert_eq!(c.publish(event(2)), Publish::Closed);
    assert_eq!(c.backlog(), 1);
    assert_eq!(c.poll(), Delivery::Chunk(event(1)));
    assert_eq!(c.poll(), Delivery::End(Terminal::Cancelled(CancelReason::ClientCancelled)));
    assert_eq!(c.poll(), Delivery::Finished);
}

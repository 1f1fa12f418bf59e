//! The per-request channel between the engine's events and the consumer of
//! the response.

use vstd::prelude::*;
use crate::request::{Terminal, TokenEvent};

verus! {

/// What became of a published token event.
#[derive(Clone, Copy, Debug, PartialEq, Eq, Structural)]
pub enum Publish {
    /// The event is buffered for the consumer.
    Accepted,
    /// The buffer of a streaming request is full; the event was not taken.
    Overflow,
    /// The channel is closed; the event was dropped.
    Closed,
}

/// What the consumer gets when it asks for the next item.
#[derive(Debug, PartialEq, Eq)]
pub enum Delivery {
    /// Nothing to hand out yet.
    Pending,
    /// The next token of a streaming response.
    Chunk(TokenEvent),
    /// The whole of a buffered response: its tokens in arrival order and how
    /// the request ended.
    Aggregate { tokens: Vec<u32>, terminal: Terminal },
    /// The end of a streaming response.
    End(Terminal),
    /// The terminal item was handed out before; nothing follows it.
    Finished,
}

/// The token ids of a sequence of events, in order.
pub open spec fn token_ids(events: Seq<TokenEvent>) -> Seq<u32> {
    Seq::new(events.len(), |i: int| events[i].token_id)
}

/// Channel of one request.
#[derive(Debug)]
pub struct Correlator {
    streaming: bool,
    capacity: usize,
    pending: Vec<TokenEvent>,
    terminal: Option<Terminal>,
    delivered: bool,
}

impl Correlator {
    /// Whether events are handed out one by one as they arrive.
    pub closed spec fn streaming(&self) -> bool {
        self.streaming
    }

    /// Bound on the undelivered events of a streaming request.
    pub closed spec fn capacity(&self) -> nat {
        self.capacity as nat
    }

    /// The events that were accepted and not yet handed out, oldest first.
    pub closed spec fn pending(&self) -> Seq<TokenEvent> {
        self.pending@
    }

    /// The terminal event, once the channel is closed.
    pub closed spec fn terminal(&self) -> Option<Terminal> {
        self.terminal
    }

    /// Whether the terminal item was handed out.
    pub closed spec fn delivered(&self) -> bool {
        self.delivered
    }

    /// A streaming buffer stays within its bound, and only a closed channel
    /// has delivered its terminal item, after which nothing is pending.
    pub closed spec fn wf(&self) -> bool {
        &&& self.streaming ==> self.pending@.len() <= self.capacity
        &&& self.delivered ==> self.terminal is Some && self.pending@.len() == 0
    }

    /// The channel takes no further events.
    pub open spec fn is_closed(&self) -> bool {
        self.terminal() is Some
    }

    /// An open, empty channel.
    pub fn new(streaming: bool, capacity: usize) -> (c: Correlator)
        ensures
            c.wf(),
            c.streaming() == streaming,
            c.capacity() == capacity,
            c.pending() == Seq::<TokenEvent>::empty(),
            c.terminal() is None,
            !c.delivered(),
    {
        Correlator { streaming, capacity, pending: Vec::new(), terminal: None, delivered: false }
    }

    pub fn closed(&self) -> (b: bool)
        ensures
            b == self.is_closed(),
    {
        self.terminal.is_some()
    }

    /// Number of events waiting for the consumer.
    pub fn backlog(&self) -> (n: usize)
        ensures
            n == self.pending().len(),
    {
        self.pending.len()
    }

    /// How the request ended, once it has.
    pub fn ending(&self) -> (t: Option<Terminal>)
        ensures
            t == self.terminal(),
    {
        self.terminal
    }

    /// What `publish` answers to an event, given the channel as it is.
    pub open spec fn publish_outcome(&self) -> Publish {
        if self.is_closed() {
            Publish::Closed
        } else if self.streaming() && self.pending().len() >= self.capacity() {
            Publish::Overflow
        } else {
            Publish::Accepted
        }
    }

    /// Whether `publish` would take an event.
    pub fn has_room(&self) -> (b: bool)
        ensures
            b == (self.publish_outcome() is Accepted),
    {
        self.terminal.is_none() && !(self.streaming && self.pending.len() >= self.capacity)
    }

    /// Offers a token event. An open channel with room appends it behind the
    /// events already waiting; a closed channel, or a full streaming buffer,
    /// is left exactly as it was.
    pub fn publish(&mut self, event: TokenEvent) -> (r: Publish)
        requires
            old(self).wf(),
        ensures
            final(self).wf(),
            r == old(self).publish_outcome(),
            final(self).streaming() == old(self).streaming(),
            final(self).capacity() == old(self).capacity(),
            final(self).terminal() == old(self).terminal(),
            final(self).delivered() == old(self).delivered(),
            r is Accepted ==> final(self).pending() == old(self).pending().push(event),
            !(r is Accepted) ==> final(self).pending() == old(self).pending(),
    {
        if self.terminal.is_some() {
            Publish::Closed
        } else if self.streaming && self.pending.len() >= self.capacity {
            Publish::Overflow
        } else {
            self.pending.push(event);
            Publish::Accepted
        }
    }

    /// Closes the channel with `terminal`. Only the first close takes
    /// effect: a closed channel keeps the terminal event it has.
    pub fn close(&mut self, terminal: Terminal) -> (closed_now: bool)
        requires
            old(self).wf(),
        ensures
            final(self).wf(),
            closed_now == !old(self).is_closed(),
            final(self).terminal() == (if old(self).is_closed() {
                old(self).terminal()
            } else {
                Some(terminal)
            }),
            final(self).streaming() == old(self).streaming(),
            final(self).capacity() == old(self).capacity(),
            final(self).pending() == old(self).pending(),
            final(self).delivered() == old(self).delivered(),
    {
        if self.terminal.is_some() {
            false
        } else {
            self.terminal = Some(terminal);
            true
        }
    }

    /// `after` and `d` are what polling the channel `before` leaves and
    /// hands out.
    pub open spec fn polled(before: Correlator, after: Correlator, d: Delivery) -> bool {
        &&& after.streaming() == before.streaming()
        &&& after.capacity() == before.capacity()
        &&& after.terminal() == before.terminal()
        &&& if before.delivered() {
            d is Finished && after.pending() == before.pending() && after.delivered()
        } else if before.streaming() && before.pending().len() > 0 {
            &&& d == Delivery::Chunk(before.pending()[0])
            &&& after.pending() == before.pending().remove(0)
            &&& !after.delivered()
        } else if before.streaming() {
            &&& after.pending() == before.pending()
            &&& match before.terminal() {
                Some(t) => d == Delivery::End(t) && after.delivered(),
                None => d is Pending && !after.delivered(),
            }
        } else {
            match before.terminal() {
                Some(t) => {
                    &&& d matches Delivery::Aggregate { tokens, terminal }
                    &&& tokens@ == token_ids(before.pending())
                    &&& terminal == t
                    &&& after.delivered()
                    &&& after.pending().len() == 0
                },
                None => d is Pending && !after.delivered() && after.pending() == before.pending(),
            }
        }
    }

    /// Hands the consumer its next item. A streaming channel gives the
    /// waiting events one by one, oldest first, and after them the end. A
    /// buffered one gives nothing until it is closed, then everything at
    /// once. After the terminal item every call answers `Finished`.
    pub fn poll(&mut self) -> (d: Delivery)
        requires
            old(self).wf(),
        ensures
            final(self).wf(),
            Self::polled(*old(self), *final(self), d),
    {
        if self.delivered {
            return Delivery::Finished;
        }
        if self.streaming {
            if self.pending.len() > 0 {
                let event = self.pending.remove(0);
                Delivery::Chunk(event)
            } else {
                match self.terminal {
                    Some(t) => {
                        self.delivered = true;
                        Delivery::End(t)
                    },
                    None => Delivery::Pending,
                }
            }
        } else {
            match self.terminal {
                Some(t) => {
                    let tokens = self.collect_tokens();
                    self.pending.clear();
                    self.delivered = true;
                    Delivery::Aggregate { tokens, terminal: t }
                },
                None => Delivery::Pending,
            }
        }
    }

    /// The token ids of the waiting events, oldest first.
    fn collect_tokens(&self) -> (tokens: Vec<u32>)
        ensures
            tokens@ == token_ids(self.pending()),
    {
        let mut tokens: Vec<u32> = Vec::new();
        let mut i: usize = 0;
        while i < self.pending.len()
            invariant
                i <= self.pending@.len(),
                tokens@.len() == i,
                forall|k: int| 0 <= k < i ==> tokens@[k] == self.pending@[k].token_id,
            decreases self.pending@.len() - i,
        {
            tokens.push(self.pending[i].token_id);
            i += 1;
        }
        assert(tokens@ =~= token_ids(self.pending@));
        tokens
    }
}

} // verus!

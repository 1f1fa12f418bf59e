//! Limits and defaults that the scheduler is constructed with.

use vstd::prelude::*;

verus! {

/// Static limits of one scheduler instance.
#[derive(Clone, Copy, Debug, PartialEq, Eq, Structural)]
pub struct SchedulerConfig {
    /// Upper bound on the number of requests that are queued or running.
    pub max_queue_depth: usize,
    /// Upper bound on the number of requests that are running.
    pub max_concurrent: usize,
    /// Priority given to a request that names none.
    pub default_priority: u32,
    /// Largest priority a request can be served at.
    pub priority_bound: u32,
    /// Ticks a request may stay admitted before it is timed out.
    pub request_timeout: u64,
    /// Ticks the engine is given to acknowledge that it dropped a request;
    /// after them its handle is forgotten.
    pub cancel_grace: u64,
    /// Bound on the undelivered chunks of one streaming response.
    pub stream_buffer: usize,
}

/// The moment `span` ticks after `start`, or the last moment there is where
/// that lies beyond it.
pub open spec fn moment_after(start: u64, span: u64) -> u64 {
    if start + span > u64::MAX {
        u64::MAX
    } else {
        (start + span) as u64
    }
}

/// Computes `moment_after`.
pub fn add_ticks(start: u64, span: u64) -> (t: u64)
    ensures
        t == moment_after(start, span),
{
    if span > u64::MAX - start {
        u64::MAX
    } else {
        start + span
    }
}

/// The priority a request is served at: the requested one, or the default
/// where none was requested, capped at the bound.
pub open spec fn clamp_priority(requested: Option<u32>, default: u32, bound: u32) -> u32 {
    let wanted = match requested {
        Some(p) => p,
        None => default,
    };
    if wanted > bound {
        bound
    } else {
        wanted
    }
}

impl SchedulerConfig {
    /// Priority under which a request asking for `requested` is queued.
    pub fn effective_priority(&self, requested: Option<u32>) -> (p: u32)
        ensures
            p == clamp_priority(requested, self.default_priority, self.priority_bound),
            p <= self.priority_bound,
    {
        let wanted: u32 = match requested {
            Some(p) => p,
            None => self.default_priority,
        };
        if wanted > self.priority_bound {
            self.priority_bound
        } else {
            wanted
        }
    }
}

} // verus!

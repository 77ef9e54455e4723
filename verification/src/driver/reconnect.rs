//! What follows an attempt to connect again.

use vstd::prelude::*;

use crate::driver::types::{AppEvent, Cmd};
use crate::text::cat;

verus! {

/// How long the first attempt waits, in milliseconds.
pub const RETRY_MIN_MS: u64 = 500;

/// How long an attempt waits at most.
pub const RETRY_MAX_MS: u64 = 10_000;

/// How the connection stands: how long the next attempt waits, and the number
/// of the connection, by which streams of an earlier one are told apart.
#[derive(Debug, Clone, Copy, PartialEq, Eq, Structural)]
pub struct Retry {
    pub delay_ms: u64,
    pub generation: u64,
}

impl Retry {
    /// Whether the wait is within its limits.
    pub open spec fn wf(self) -> bool {
        RETRY_MIN_MS <= self.delay_ms <= RETRY_MAX_MS
    }

    /// The first connection.
    pub fn new() -> (r: Retry)
        ensures
            r == (Retry { delay_ms: RETRY_MIN_MS, generation: 0 }),
            r.wf(),
    {
        Retry { delay_ms: RETRY_MIN_MS, generation: 0 }
    }
}

/// What follows an attempt.
#[derive(Debug, PartialEq, Eq)]
pub enum Attempted {
    /// There is a connection: the state is told, and then a command is carried
    /// out.
    Connected { then: Cmd },
    /// There is none: the state is told why.
    Failed { event: AppEvent },
}

/// The wait after an attempt that failed: twice as long, up to the longest.
pub open spec fn next_delay(delay_ms: u64) -> u64 {
    if 2 * delay_ms < RETRY_MAX_MS {
        (2 * delay_ms) as u64
    } else {
        RETRY_MAX_MS
    }
}

/// What follows an attempt to connect; `fault` is why it failed. A connection
/// has a new number, is retried from the shortest wait on, and follows the
/// workspaces anew. After a failure the wait is longer.
pub fn reconnect_step(state: Retry, fault: Option<&str>) -> (r: (Retry, Attempted))
    ensures
        match fault {
            None => {
                &&& r.0 == (Retry {
                    delay_ms: RETRY_MIN_MS,
                    generation: state.generation.wrapping_add(1),
                })
                &&& r.1 == (Attempted::Connected { then: Cmd::OpenWorkspaceFollow })
            },
            Some(why) => {
                &&& r.0 == (Retry { delay_ms: next_delay(state.delay_ms), ..state })
                &&& r.1 is Failed && r.1->event is Disconnected
                &&& r.1->event->Disconnected_0@ == "重连失败: "@ + why@
            },
        },
{
    match fault {
        None => (
            Retry { delay_ms: RETRY_MIN_MS, generation: state.generation.wrapping_add(1) },
            Attempted::Connected { then: Cmd::OpenWorkspaceFollow },
        ),
        Some(why) => {
            let delay_ms: u64 = if state.delay_ms < RETRY_MAX_MS / 2 {
                state.delay_ms * 2
            } else {
                RETRY_MAX_MS
            };
            let event = AppEvent::Disconnected(cat("重连失败: ", why));
            (Retry { delay_ms, generation: state.generation }, Attempted::Failed { event })
        },
    }
}

/// Waits stay within their limits, and a connection never has the number of the
/// one before it.
pub proof fn law_waits_stay_within_limits(state: Retry)
    requires
        state.wf(),
    ensures
        state.delay_ms <= next_delay(state.delay_ms),
        (Retry { delay_ms: next_delay(state.delay_ms), ..state }).wf(),
        state.generation.wrapping_add(1) != state.generation,
{
}

/// A wait doubles, until it is the longest, and stays that from there on.
pub proof fn law_waits_double(delay_ms: u64)
    ensures
        2 * delay_ms <= 10_000 ==> next_delay(delay_ms) == 2 * delay_ms,
        2 * delay_ms >= 10_000 ==> next_delay(delay_ms) == 10_000,
{
}

} // verus!

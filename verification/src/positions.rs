//! Waiting for the balance snapshot after subscribing to balances.

use vstd::prelude::*;

verus! {

/// How many receptions (messages, errors or timeouts) the wait takes at most.
pub const BALANCE_MAX_ATTEMPTS: u32 = 10;

/// What the private stream gave while waiting for balances.
#[derive(PartialEq, Eq, Structural, Clone, Copy, Debug)]
pub enum BalanceEvent {
    /// A message; `is_balance` tells whether it carries balances.
    Message { is_balance: bool },
    /// The stream reported an error.
    ReceiveError,
    /// The stream ended.
    StreamEnded,
    /// Nothing arrived in time.
    TimedOut,
}

/// What to do after an event.
#[derive(PartialEq, Eq, Structural, Clone, Copy, Debug)]
pub enum BalanceStep {
    /// Take the balances from the message, and stop waiting.
    Apply,
    /// Keep waiting.
    KeepWaiting,
    /// Stop waiting without balances.
    Stop,
}

/// A balance message ends the wait with its balances, using no attempt; any
/// other message, an error or a timeout uses one attempt and keeps the wait
/// going until ten attempts are used, when it stops; the end of the stream
/// stops it.
pub open spec fn balance_step(attempts: u32, e: BalanceEvent) -> (u32, BalanceStep) {
    match e {
        BalanceEvent::Message { is_balance: true } => (attempts, BalanceStep::Apply),
        BalanceEvent::StreamEnded => (attempts, BalanceStep::Stop),
        _ => if attempts + 1 >= BALANCE_MAX_ATTEMPTS {
            ((attempts + 1) as u32, BalanceStep::Stop)
        } else {
            ((attempts + 1) as u32, BalanceStep::KeepWaiting)
        },
    }
}

/// Where waiting through `events` (one per reception, in order) ends,
/// starting with `attempts` used: `Some` of the last step once it applies or
/// stops, `None` while it is still open.
pub open spec fn balance_wait_run(attempts: u32, events: Seq<BalanceEvent>) -> Option<BalanceStep>
    decreases events.len(),
{
    if events.len() == 0 || attempts >= BALANCE_MAX_ATTEMPTS {
        None
    } else {
        let (next, step) = balance_step(attempts, events[0]);
        if step == BalanceStep::KeepWaiting {
            balance_wait_run(next, events.drop_first())
        } else {
            Some(step)
        }
    }
}

/// The wait for the balance snapshot.
pub struct BalanceWait {
    attempts: u32,
}

impl BalanceWait {
    /// Attempts used so far.
    pub closed spec fn attempts(&self) -> u32 {
        self.attempts
    }

    /// A wait with no reception yet.
    pub fn new() -> (w: Self)
        ensures
            w.attempts() == 0,
    {
        BalanceWait { attempts: 0 }
    }

    /// Attempts are left.
    pub fn is_open(&self) -> (r: bool)
        ensures
            r == (self.attempts() < BALANCE_MAX_ATTEMPTS),
    {
        self.attempts < BALANCE_MAX_ATTEMPTS
    }

    /// Takes in one event and tells what to do next.
    pub fn observe(&mut self, e: BalanceEvent) -> (r: BalanceStep)
        requires
            old(self).attempts() < BALANCE_MAX_ATTEMPTS,
        ensures
            (final(self).attempts(), r) == balance_step(old(self).attempts(), e),
            final(self).attempts() <= BALANCE_MAX_ATTEMPTS,
    {
        match e {
            BalanceEvent::Message { is_balance: true } => BalanceStep::Apply,
            BalanceEvent::StreamEnded => BalanceStep::Stop,
            _ => {
                self.attempts = self.attempts + 1;
                if self.attempts >= BALANCE_MAX_ATTEMPTS {
                    BalanceStep::Stop
                } else {
                    BalanceStep::KeepWaiting
                }
            },
        }
    }

    /// Every attempt was used.
    pub fn gave_up(&self) -> (r: bool)
        ensures
            r == (self.attempts() >= BALANCE_MAX_ATTEMPTS),
    {
        self.attempts >= BALANCE_MAX_ATTEMPTS
    }
}

/// Law: the wait never needs more than ten receptions, whatever they are
/// (heartbeats included): it has applied balances or stopped by then; and
/// only a balance message makes it apply balances.
pub proof fn law_balance_wait_bounded(attempts: u32, events: Seq<BalanceEvent>)
    requires
        attempts < BALANCE_MAX_ATTEMPTS,
        events.len() >= BALANCE_MAX_ATTEMPTS - attempts,
    ensures
        balance_wait_run(attempts, events) is Some,
        balance_step(attempts, events[0]).1 == BalanceStep::Apply <==> events[0] == (
        BalanceEvent::Message { is_balance: true }),
    decreases events.len(),
{
    let (next, step) = balance_step(attempts, events[0]);
    if step == BalanceStep::KeepWaiting {
        law_balance_wait_bounded(next, events.drop_first());
    }
}

} // verus!

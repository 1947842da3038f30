//! A player's patience with the connection: when to connect, when to send,
//! and when to give up.
//!
//! One exchange is a request sent and an answer read. The caller does the
//! work on the wire and reports how each step ended; this module decides
//! what to do next. Every step that fails costs one retry and a pause, and
//! an exchange that fails drops the connection. With no retry left the
//! exchange is given up.

use vstd::prelude::*;

verus! {

/// What to do next.
#[derive(Clone, Copy, Debug, PartialEq, Eq, Structural)]
pub enum NextStep {
    /// No retry is left: report failure.
    GiveUp,
    /// There is no connection: open one.
    Connect,
    /// There is a connection: send the request and read the answer.
    Exchange,
}

/// How a step ended.
#[derive(Clone, Copy, Debug, PartialEq, Eq, Structural)]
pub enum StepOutcome {
    /// The connection is open.
    Connected,
    /// The connection could not be opened.
    ConnectFailed,
    /// The answer has arrived.
    Answered,
    /// The request could not be sent, or no answer came.
    Lost,
}

/// The milliseconds to wait after a step that failed.
pub const RETRY_PAUSE_MILLIS: u64 = 500;

/// Where one exchange stands.
#[derive(Clone, Copy, Debug, PartialEq, Eq, Structural)]
pub struct Attempt {
    /// Whether a connection is open.
    pub connected: bool,
    /// The steps that have failed in this exchange.
    pub retries: u32,
    /// The steps that may fail before the exchange is given up.
    pub max_retries: u32,
}

impl Attempt {
    /// What to do next.
    pub open spec fn next(self) -> NextStep {
        if self.retries >= self.max_retries {
            NextStep::GiveUp
        } else if !self.connected {
            NextStep::Connect
        } else {
            NextStep::Exchange
        }
    }

    /// The exchange once the step that was due has ended in `outcome`. An
    /// outcome that does not belong to the step that was due changes
    /// nothing.
    pub open spec fn after(self, outcome: StepOutcome) -> Attempt {
        match (self.next(), outcome) {
            (NextStep::Connect, StepOutcome::Connected) => Attempt { connected: true, ..self },
            (NextStep::Connect, StepOutcome::ConnectFailed) => Attempt {
                retries: (self.retries + 1) as u32,
                ..self
            },
            (NextStep::Exchange, StepOutcome::Lost) => Attempt {
                connected: false,
                retries: (self.retries + 1) as u32,
                ..self
            },
            _ => self,
        }
    }

    /// An upper bound on the steps that the exchange can still take.
    pub open spec fn steps_left(self) -> nat {
        if self.retries >= self.max_retries {
            0
        } else {
            (2 * (self.max_retries - self.retries) - if self.connected {
                1int
            } else {
                0int
            }) as nat
        }
    }

    /// Whether a pause is due after `outcome`.
    pub open spec fn pause_after(outcome: StepOutcome) -> bool {
        outcome == StepOutcome::ConnectFailed || outcome == StepOutcome::Lost
    }

    /// A new exchange that may fail `max_retries` times, with or without a
    /// connection left open by the one before.
    pub fn begin(max_retries: u32, connected: bool) -> (attempt: Attempt)
        ensures
            attempt == (Attempt { connected, retries: 0, max_retries }),
    {
        Attempt { connected, retries: 0, max_retries }
    }

    /// What to do next.
    pub fn next_step(&self) -> (step: NextStep)
        ensures
            step == self.next(),
    {
        if self.retries >= self.max_retries {
            NextStep::GiveUp
        } else if !self.connected {
            NextStep::Connect
        } else {
            NextStep::Exchange
        }
    }

    /// Takes note of how the step that was due has ended, and says whether
    /// to pause before the next one.
    pub fn record(&mut self, outcome: StepOutcome) -> (pause: bool)
        ensures
            *final(self) == old(self).after(outcome),
            pause == (*final(self) != *old(self) && Self::pause_after(outcome)),
    {
        match (self.next_step(), outcome) {
            (NextStep::Connect, StepOutcome::Connected) => {
                self.connected = true;
                false
            },
            (NextStep::Connect, StepOutcome::ConnectFailed) => {
                self.retries = self.retries + 1;
                true
            },
            (NextStep::Exchange, StepOutcome::Lost) => {
                self.connected = false;
                self.retries = self.retries + 1;
                true
            },
            _ => false,
        }
    }
}

/// Every step that does not end the exchange brings it closer to its end:
/// an exchange takes at most twice as many steps as it has retries.
pub proof fn lemma_attempt_ends(attempt: Attempt, outcome: StepOutcome)
    ensures
        attempt.after(outcome).max_retries == attempt.max_retries,
        attempt.after(outcome).retries >= attempt.retries,
        attempt.after(outcome) != attempt ==> attempt.after(outcome).steps_left()
            < attempt.steps_left(),
        attempt.steps_left() == 0 <==> attempt.next() == NextStep::GiveUp,
        attempt.steps_left() <= 2 * attempt.max_retries,
{
}

/// An exchange is given up exactly when as many steps have failed as it has
/// retries, and never before.
pub proof fn lemma_give_up_after_max_retries(attempt: Attempt)
    ensures
        attempt.next() == NextStep::GiveUp <==> attempt.retries >= attempt.max_retries,
        attempt.next() == NextStep::Connect ==> !attempt.connected,
        attempt.next() == NextStep::Exchange ==> attempt.connected,
{
}

} // verus!

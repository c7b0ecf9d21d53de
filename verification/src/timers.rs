//! The Retransmission Task's decision engine.
//!
//! A `RetransmitTask` is the state of one retransmission run: the payload and
//! destination it captured at spawn time, its Delay Schedule, and how far it
//! has come. The unverified shell drives it in a loop: it samples the shared
//! Pause/Stop Signal, asks `next_action` what to do, performs the send and the
//! sleep, and reports the outcome back. Every decision — when to send, which
//! delay to sleep, and when to stop — is made and proved here.

use vstd::prelude::*;

verus! {

/// A Delay Schedule: the finite, ordered list of waits (in milliseconds)
/// driving a single retransmission run.
#[derive(Clone, Debug)]
pub struct Timers {
    pub delays: Vec<u64>,
}

/// What the driver of a retransmission task must do next.
#[derive(Clone, Copy, Debug, PartialEq, Eq, Structural)]
pub enum TimerAction {
    /// Send the captured payload to the captured destination now, then sleep
    /// for `delay_ms` milliseconds before checking back.
    Transmit { delay_ms: u64 },
    /// The run is over: stop without sending again.
    Finished,
}

/// The state of one retransmission run.
#[derive(Debug)]
pub struct RetransmitTask {
    /// The payload, captured when the task was spawned.
    pub payload: Vec<u8>,
    /// The destination, captured when the task was spawned: later changes to
    /// the handle's destination do not reach a running task.
    pub destination: crate::config::Address,
    /// The Delay Schedule, consumed front to back.
    pub delays: Vec<u64>,
    /// How many delays have been taken from the schedule.
    pub taken: usize,
    /// How many sends have succeeded.
    pub sent: usize,
    /// Whether the run has reached its terminal state.
    pub stopped: bool,
}

impl RetransmitTask {
    /// The task state `send_with_timer` spawns from a handle: payload,
    /// destination and schedule captured, nothing taken, nothing sent.
    pub open spec fn spawned(p: crate::Polygon, data: Vec<u8>, timers: Timers) -> RetransmitTask {
        RetransmitTask {
            payload: data,
            destination: p.destination->0,
            delays: timers.delays,
            taken: 0,
            sent: 0,
            stopped: false,
        }
    }

    /// A check point ends the run when the run is already over, when the
    /// Signal asks to stop and at least one send has occurred (a signal that
    /// was set before the first attempt does not cancel it), or when the
    /// schedule is exhausted.
    pub open spec fn halts(self, paused: bool) -> bool {
        self.stopped || (paused && self.sent >= 1) || self.taken >= self.delays@.len()
    }

    /// One check point of the run. `paused` is the Pause/Stop Signal as
    /// sampled by the driver at this moment — the signal is consulted here and
    /// only here, never mid-send or mid-sleep.
    pub fn next_action(&mut self, paused: bool) -> (r: TimerAction)
        ensures
            final(self).payload == old(self).payload,
            final(self).destination == old(self).destination,
            final(self).delays == old(self).delays,
            final(self).sent == old(self).sent,
            old(self).halts(paused) ==> {
                &&& r == TimerAction::Finished
                &&& final(self).stopped
                &&& final(self).taken == old(self).taken
            },
            !old(self).halts(paused) ==> {
                &&& r == (TimerAction::Transmit { delay_ms: old(self).delays@[old(self).taken as int] })
                &&& final(self).taken == old(self).taken + 1
                &&& !final(self).stopped
            },
    {
        if self.stopped {
            TimerAction::Finished
        } else if paused && self.sent >= 1 {
            self.stopped = true;
            TimerAction::Finished
        } else if self.taken >= self.delays.len() {
            self.stopped = true;
            TimerAction::Finished
        } else {
            let delay_ms = self.delays[self.taken];
            self.taken = self.taken + 1;
            TimerAction::Transmit { delay_ms }
        }
    }

    /// The driver reports one successful send. Counted only while a taken
    /// delay is outstanding, so the count never outruns the schedule.
    pub fn record_send(&mut self)
        ensures
            old(self).sent < old(self).taken ==> *final(self) == (RetransmitTask {
                sent: (old(self).sent + 1) as usize,
                ..*old(self)
            }),
            old(self).sent >= old(self).taken ==> *final(self) == *old(self),
    {
        if self.sent < self.taken {
            self.sent = self.sent + 1;
        }
    }

    /// The driver reports that the operating system refused a send: fatal for
    /// this run (not for the handle), the run is over.
    pub fn record_send_error(&mut self)
        ensures
            *final(self) == (RetransmitTask { stopped: true, ..*old(self) }),
    {
        self.stopped = true;
    }
}

/// How many sends a failure-free run makes from a state that has taken
/// `taken` delays and sent `sent` payloads, when the Pause/Stop Signal is
/// sampled as `pauses[0]`, `pauses[1]`, ... at the coming check points.
pub open spec fn sends_from(len: nat, taken: nat, sent: nat, pauses: Seq<bool>) -> nat
    decreases pauses.len(),
{
    if pauses.len() == 0 {
        sent
    } else if (pauses[0] && sent >= 1) || taken >= len {
        sent
    } else {
        sends_from(len, taken + 1, sent + 1, pauses.drop_first())
    }
}

/// How many sends a freshly spawned, failure-free run over `delays` makes
/// when the Signal is sampled as `pauses[j]` at its `j`-th check point.
pub open spec fn run_sends(delays: Seq<u64>, pauses: Seq<bool>) -> nat {
    sends_from(delays.len(), 0, 0, pauses)
}

/// One driver iteration agrees with `sends_from`: where the next check point
/// halts (`next_action` returns `Finished`), the run's count is the sends so
/// far; where it transmits, the run continues from one more delay taken and
/// one more send recorded — exactly the step `next_action` and `record_send`
/// make together.
pub proof fn lemma_driver_step_matches_run(t: RetransmitTask, pauses: Seq<bool>)
    requires
        !t.stopped,
        t.sent == t.taken,
        pauses.len() > 0,
    ensures
        t.halts(pauses[0]) ==> sends_from(t.delays@.len(), t.taken as nat, t.sent as nat, pauses)
            == t.sent,
        !t.halts(pauses[0]) ==> sends_from(t.delays@.len(), t.taken as nat, t.sent as nat, pauses)
            == sends_from(t.delays@.len(), t.taken as nat + 1, t.sent as nat + 1, pauses.drop_first()),
{
}

/// An empty Delay Schedule results in zero sends, whatever the Signal does.
pub proof fn lemma_empty_schedule_sends_nothing(pauses: Seq<bool>)
    ensures
        run_sends(Seq::<u64>::empty(), pauses) == 0,
{
}

proof fn lemma_sends_from_all_clear(len: nat, taken: nat, sent: nat, pauses: Seq<bool>)
    requires
        taken <= len,
        pauses.len() >= len - taken,
        forall|i: int| 0 <= i < pauses.len() ==> !pauses[i],
    ensures
        sends_from(len, taken, sent, pauses) == sent + (len - taken),
    decreases pauses.len(),
{
    if pauses.len() == 0 {
    } else if taken >= len {
    } else {
        lemma_sends_from_all_clear(len, taken + 1, sent + 1, pauses.drop_first());
    }
}

/// With the Signal never set, a run sends once for every delay in the
/// schedule and then stops: a schedule of four delays yields exactly four
/// sends.
pub proof fn lemma_full_schedule_runs_to_completion(delays: Seq<u64>, pauses: Seq<bool>)
    requires
        pauses.len() >= delays.len(),
        forall|i: int| 0 <= i < pauses.len() ==> !pauses[i],
    ensures
        run_sends(delays, pauses) == delays.len(),
{
    lemma_sends_from_all_clear(delays.len(), 0, 0, pauses);
}

proof fn lemma_sends_from_first_pause(len: nat, start: nat, pauses: Seq<bool>, k: int)
    requires
        0 <= k < pauses.len(),
        start + k <= len,
        start + k >= 1,
        pauses[k],
        forall|i: int| 0 <= i < k ==> !pauses[i],
    ensures
        sends_from(len, start, start, pauses) == start + k,
    decreases k,
{
    if k == 0 {
    } else {
        lemma_sends_from_first_pause(len, start + 1, pauses.drop_first(), k - 1);
    }
}

/// Pausing stops the run at the next check point and consumes no further
/// delays: if the Signal first reads `true` at the `k`-th check (after at
/// least one send), exactly `k` sends occur.
pub proof fn lemma_pause_stops_after_current_attempt(delays: Seq<u64>, pauses: Seq<bool>, k: int)
    requires
        1 <= k <= delays.len(),
        k < pauses.len(),
        pauses[k],
        forall|i: int| 0 <= i < k ==> !pauses[i],
    ensures
        run_sends(delays, pauses) == k,
{
    lemma_sends_from_first_pause(delays.len(), 0, pauses, k);
}

} // verus!

//! Point-to-point UDP datagram transceiver core.
//!
//! A `Polygon` is the state of one bound endpoint: an optional fixed
//! destination and the shared Pause/Stop Signal. Around it stand the two
//! long-running loops' decision engines: a retransmission task that resends a
//! payload along a delay schedule until the schedule is exhausted, a send
//! fails, or the signal asks it to stop after the current attempt, and a
//! receive task that forwards every inbound datagram to a result queue and
//! exits when the queue's consumer is gone. The operating-system socket, the
//! timers and the queue itself are the unverified shell's concern: this crate
//! decides, the shell performs.

use vstd::prelude::*;

pub mod config;
pub mod receive;
pub mod timers;

use crate::config::{Address, Config};
use crate::receive::ReceiveTask;
use crate::timers::{RetransmitTask, Timers};

verus! {

/// A datagram ready to hand to the operating system: the payload as given,
/// addressed to the destination the handle held at the moment of the call.
#[derive(Clone, Debug, PartialEq, Eq)]
pub struct Datagram {
    pub destination: Address,
    pub payload: Vec<u8>,
}

/// Why an operation on a `Polygon` was refused.
#[derive(Clone, Copy, Debug, PartialEq, Eq, Structural)]
pub enum PolygonError {
    /// The local address list could not be bound.
    Bind,
    /// A send was attempted while no destination was configured.
    NotConnected,
}

/// The state of one bound UDP endpoint handle.
#[derive(Debug, Clone, PartialEq)]
pub struct Polygon {
    /// The fixed destination of plain sends, if one is configured.
    pub destination: Option<Address>,
    /// The Pause/Stop Signal as last set through this handle.
    pub paused: bool,
}

impl Polygon {
    /// The handle state after `change_destination(new_destination)`.
    pub open spec fn with_destination(self, new_destination: Address) -> Polygon {
        Polygon { destination: Some(new_destination), paused: self.paused }
    }

    /// Build the handle state for a configuration: the destination is taken
    /// over, the Pause/Stop Signal starts out `false`. An empty bind list can
    /// never be bound and is refused outright.
    pub fn configure(config: Config) -> (r: Result<Polygon, PolygonError>)
        ensures
            r is Err <==> config.bind_addresses@.len() == 0,
            r is Err ==> r == Err::<Polygon, PolygonError>(PolygonError::Bind),
            r matches Ok(p) ==> p.destination == config.destination_address && !p.paused,
    {
        if config.bind_addresses.len() == 0 {
            Err(PolygonError::Bind)
        } else {
            Ok(Polygon { destination: config.destination_address, paused: false })
        }
    }

    /// A fire-and-forget send: with no destination configured it fails with
    /// `NotConnected` and produces nothing for the operating system to do;
    /// with one, it yields exactly the given payload addressed to it.
    pub fn send(&mut self, data: Vec<u8>) -> (r: Result<Datagram, PolygonError>)
        ensures
            *final(self) == *old(self),
            r is Err <==> old(self).destination is None,
            r is Err ==> r == Err::<Datagram, PolygonError>(PolygonError::NotConnected),
            old(self).destination matches Some(dest) ==> r matches Ok(d)
                && d.destination == dest
                && d.payload@ == data@,
    {
        match self.destination {
            None => Err(PolygonError::NotConnected),
            Some(destination) => Ok(Datagram { destination, payload: data }),
        }
    }

    /// Replace the fixed destination: only sends issued after this call are
    /// affected, a retransmission task already spawned keeps the destination
    /// it captured.
    pub fn change_destination(&mut self, new_destination: Address)
        ensures
            *final(self) == old(self).with_destination(new_destination),
    {
        self.destination = Some(new_destination);
    }

    /// Set the Pause/Stop Signal: every running retransmission task stops at
    /// its next check point, once it has sent at least once.
    pub fn pause_timer_send(&mut self)
        ensures
            final(self).paused,
            final(self).destination == old(self).destination,
    {
        self.paused = true;
    }

    /// Clear the Pause/Stop Signal.
    pub fn resume_timer_send(&mut self)
        ensures
            !final(self).paused,
            final(self).destination == old(self).destination,
    {
        self.paused = false;
    }

    /// An older name for `pause_timer_send`, kept for callers that still use
    /// it; sets the same Signal.
    pub fn cancel_timer_receive(&mut self)
        ensures
            final(self).paused,
            final(self).destination == old(self).destination,
    {
        self.pause_timer_send();
    }

    /// Start the state of one receive loop. Each call stands for an
    /// independent task with its own Result Queue; the handle itself is left
    /// alone.
    pub fn receive(&mut self) -> (t: ReceiveTask)
        ensures
            *final(self) == *old(self),
            t.running,
            t.forwarded@ == Seq::<Seq<u8>>::empty(),
    {
        ReceiveTask::start()
    }

    /// Spawn the state of one retransmission run: payload, destination and
    /// schedule are captured now, the run has sent nothing yet. A destination
    /// must be configured.
    pub fn send_with_timer(&mut self, data: Vec<u8>, timers: Timers) -> (t: RetransmitTask)
        requires
            old(self).destination is Some,
        ensures
            *final(self) == *old(self),
            t == RetransmitTask::spawned(*old(self), data, timers),
    {
        let destination = self.destination.unwrap();
        RetransmitTask {
            payload: data,
            destination,
            delays: timers.delays,
            taken: 0,
            sent: 0,
            stopped: false,
        }
    }
}

/// `change_destination` affects only subsequent sends, never a retransmission
/// task already spawned: the task's target is the destination captured at
/// spawn time, and stays so after the handle's destination moves on, while a
/// send issued after the change is addressed to the new destination.
pub proof fn lemma_change_destination_spares_running_tasks(
    p: Polygon,
    data: Vec<u8>,
    timers: Timers,
    new_destination: Address,
)
    requires
        p.destination is Some,
    ensures
        RetransmitTask::spawned(p, data, timers).destination == p.destination->0,
        p.with_destination(new_destination).destination == Some(new_destination),
        RetransmitTask::spawned(p.with_destination(new_destination), data, timers).destination
            == new_destination,
{
}

} // verus!

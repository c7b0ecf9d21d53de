//! The Receive Task's decision engine.
//!
//! The unverified shell runs the polling loop: it awaits socket readability,
//! reads a datagram, offers a copy to the Result Queue, and reports back.
//! `ReceiveTask` decides what follows: forwarded datagrams are appended to the
//! queue in arrival order, a read error is recoverable noise, and the loss of
//! the queue's consumer — the one failed enqueue — ends the task.

use vstd::prelude::*;

verus! {

/// The state of one receive loop. The ghost log `forwarded` records every
/// datagram handed to the Result Queue, oldest first.
pub struct ReceiveTask {
    /// Whether the loop keeps polling the socket.
    pub running: bool,
    /// The datagrams enqueued so far, in arrival order.
    pub forwarded: Ghost<Seq<Seq<u8>>>,
}

impl ReceiveTask {
    /// A freshly started receive loop: polling, nothing forwarded yet.
    pub fn start() -> (t: ReceiveTask)
        ensures
            t.running,
            t.forwarded@ == Seq::<Seq<u8>>::empty(),
    {
        ReceiveTask { running: true, forwarded: Ghost(Seq::empty()) }
    }

    /// One datagram was read and its copy offered to the Result Queue;
    /// `enqueued` reports whether the consumer end still existed. A delivered
    /// datagram is appended to the log — exactly once, in arrival order — and
    /// the loop goes on; a failed enqueue means the consumer is gone, and the
    /// task exits.
    pub fn on_datagram(&mut self, data: &Vec<u8>, enqueued: bool) -> (keep_running: bool)
        requires
            old(self).running,
        ensures
            keep_running == final(self).running,
            enqueued ==> final(self).running
                && final(self).forwarded@ == old(self).forwarded@.push(data@),
            !enqueued ==> !final(self).running
                && final(self).forwarded@ == old(self).forwarded@,
    {
        if enqueued {
            self.forwarded = Ghost(self.forwarded@.push(data@));
            true
        } else {
            self.running = false;
            false
        }
    }

    /// A transient read error: noise, never fatal. Nothing is forwarded and
    /// the loop goes on.
    pub fn on_read_error(&mut self) -> (keep_running: bool)
        requires
            old(self).running,
        ensures
            *final(self) == *old(self),
            keep_running,
    {
        true
    }
}

/// Copy the first `len` bytes of the read buffer into an owned payload: the
/// value handed to the Result Queue.
pub fn take_datagram(buffer: &[u8], len: usize) -> (data: Vec<u8>)
    requires
        len <= buffer.len(),
    ensures
        data@ == buffer@.subrange(0, len as int),
{
    let mut data: Vec<u8> = Vec::new();
    let mut i: usize = 0;
    while i < len
        invariant
            i <= len,
            len <= buffer@.len(),
            data@ == buffer@.subrange(0, i as int),
        decreases len - i,
    {
        data.push(buffer[i]);
        proof {
            assert(data@ =~= buffer@.subrange(0, i + 1 as int));
        }
        i = i + 1;
    }
    data
}

/// The queue log after a run of successful deliveries of `datagrams`, oldest
/// first, starting from `log`.
pub open spec fn forwarded_after(log: Seq<Seq<u8>>, datagrams: Seq<Seq<u8>>) -> Seq<Seq<u8>>
    decreases datagrams.len(),
{
    if datagrams.len() == 0 {
        log
    } else {
        forwarded_after(log.push(datagrams[0]), datagrams.drop_first())
    }
}

/// Delivered datagrams reach the Result Queue exactly once each and in
/// arrival order: a run of deliveries extends the log by precisely the
/// delivered sequence — nothing lost, nothing duplicated, nothing reordered.
pub proof fn lemma_receive_preserves_order(log: Seq<Seq<u8>>, datagrams: Seq<Seq<u8>>)
    ensures
        forwarded_after(log, datagrams) == log + datagrams,
    decreases datagrams.len(),
{
    if datagrams.len() == 0 {
        assert(log + datagrams =~= log);
    } else {
        lemma_receive_preserves_order(log.push(datagrams[0]), datagrams.drop_first());
        assert(log.push(datagrams[0]) + datagrams.drop_first() =~= log + datagrams);
    }
}

} // verus!

//! The signal channel pair: two bounded FIFO queues of session-control
//! messages, cross-wired so that each role of a session sends on one queue and
//! receives on the other.
//!
//! The queues here are the sequential model of the per-session channels: a
//! send appends at the tail, a receive takes from the head, and a send to a
//! queue whose receiver is gone fails. A send models the completion of a
//! waiting send, so it requires room in the bounded queue.

use vstd::prelude::*;

use crate::messages::{MessageEnRoute, MsgError, Signal};

verus! {

/// How many signals one direction of a channel pair can hold.
pub const CHANNEL_CAPACITY: usize = 16;

/// Mathematical view of one direction of a signal channel pair.
#[verifier::ext_equal]
pub struct QueueView {
    /// Signals sent and not yet received, oldest first.
    pub items: Seq<Signal>,
    /// Whether the receiving side still holds its end.
    pub receiver_live: bool,
}

/// One direction of a signal channel pair.
pub struct SigQueue {
    items: Vec<MessageEnRoute>,
    receiver_live: bool,
}

impl View for SigQueue {
    type V = QueueView;

    closed spec fn view(&self) -> QueueView {
        QueueView {
            items: self.items@.map_values(|m: MessageEnRoute| m@),
            receiver_live: self.receiver_live,
        }
    }
}

/// What a completed send does to a queue: fail if the receiver is gone,
/// otherwise append the signal at the tail.
pub open spec fn send_v(q: QueueView, s: Signal) -> (QueueView, Result<(), MsgError>) {
    if !q.receiver_live {
        (q, Err(MsgError::Channel))
    } else {
        (QueueView { items: q.items.push(s), ..q }, Ok(()))
    }
}

/// What a receive does to a queue: take the oldest signal, or nothing if the
/// queue is empty.
pub open spec fn recv_v(q: QueueView) -> (QueueView, Option<Signal>) {
    if q.items.len() == 0 {
        (q, None)
    } else {
        (QueueView { items: q.items.drop_first(), ..q }, Some(q.items.first()))
    }
}

/// View of an optionally received message.
pub open spec fn opt_signal(r: Option<MessageEnRoute>) -> Option<Signal> {
    match r {
        Some(m) => Some(m@),
        None => None,
    }
}

impl SigQueue {
    /// A fresh, empty queue whose receiver is live.
    pub fn new() -> (q: SigQueue)
        ensures
            q@.items == Seq::<Signal>::empty(),
            q@.receiver_live,
    {
        SigQueue { items: Vec::new(), receiver_live: true }
    }

    /// Send one signal; models the completion of an awaited send, so the
    /// queue must have room.
    pub fn send(&mut self, m: MessageEnRoute) -> (r: Result<(), MsgError>)
        requires
            old(self)@.items.len() < CHANNEL_CAPACITY,
        ensures
            final(self)@ == send_v(old(self)@, m@).0,
            r == send_v(old(self)@, m@).1,
    {
        if !self.receiver_live {
            return Err(MsgError::Channel);
        }
        let ghost q0 = self@;
        self.items.push(m);
        proof {
            assert(self@.items =~= q0.items.push(m@));
            assert(self@ == send_v(q0, m@).0);
        }
        Ok(())
    }

    /// Receive the oldest pending signal, if any.
    pub fn recv(&mut self) -> (r: Option<MessageEnRoute>)
        ensures
            final(self)@ == recv_v(old(self)@).0,
            opt_signal(r) == recv_v(old(self)@).1,
    {
        if self.items.len() == 0 {
            return None;
        }
        let ghost q0 = self@;
        let m = self.items.remove(0);
        proof {
            assert(self@.items =~= q0.items.drop_first());
            assert(self@ == recv_v(q0).0);
        }
        Some(m)
    }

    /// Drop the receiving end: later sends fail with a channel error.
    pub fn close(&mut self)
        ensures
            final(self)@ == (QueueView { receiver_live: false, ..old(self)@ }),
    {
        self.receiver_live = false;
    }

    /// How many signals are pending.
    pub fn len(&self) -> (n: usize)
        ensures
            n == self@.items.len(),
    {
        self.items.len()
    }

    /// Whether the receiving side still holds its end.
    pub fn is_receiver_live(&self) -> (r: bool)
        ensures
            r == self@.receiver_live,
    {
        self.receiver_live
    }
}

/// Mathematical view of a signal channel pair.
#[verifier::ext_equal]
pub struct ChannelView {
    pub to_conductor: QueueView,
    pub to_attendee: QueueView,
}

/// The signal channel pair of one session: one queue per direction, created
/// together by whichever connection arrives first.
pub struct SigChannel {
    pub to_conductor: SigQueue,
    pub to_attendee: SigQueue,
}

impl View for SigChannel {
    type V = ChannelView;

    open spec fn view(&self) -> ChannelView {
        ChannelView { to_conductor: self.to_conductor@, to_attendee: self.to_attendee@ }
    }
}

impl SigChannel {
    /// A fresh pair of empty queues, both receivers live.
    pub fn new() -> (c: SigChannel)
        ensures
            c@.to_conductor.items == Seq::<Signal>::empty(),
            c@.to_conductor.receiver_live,
            c@.to_attendee.items == Seq::<Signal>::empty(),
            c@.to_attendee.receiver_live,
    {
        SigChannel { to_conductor: SigQueue::new(), to_attendee: SigQueue::new() }
    }
}

} // verus!

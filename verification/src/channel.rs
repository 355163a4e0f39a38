//! The bounded backpressure medium between route stages, and the per-event
//! acknowledgement. The channel is a queue with a fixed capacity shared
//! between the events it buffers and the envelopes its consumer still holds:
//! a producer that cannot take a slot must suspend, which is what throttles
//! a route end to end. The asynchronous runtime drives these operations; the
//! accounting and its guarantees are all here.

use vstd::prelude::*;

use crate::event::Event;
use crate::num_text::dec_digits;

verus! {

/// The single-shot acknowledgement an input attaches to each event. For the
/// file tailer it names the byte offset that becomes durable when the
/// event has been handed off; an input with no durable position uses an
/// empty one.
#[derive(Debug)]
pub struct Callback {
    target: Option<u64>,
}

/// What a callback does to the persisted state file when invoked: it
/// rewrites the whole file with its offset, or leaves it alone when empty.
pub open spec fn apply_ack(state_file: Seq<u8>, target: Option<u64>) -> Seq<u8> {
    match target {
        Some(offset) => dec_digits(offset as nat),
        None => state_file,
    }
}

impl Callback {
    /// The offset this callback persists, if any.
    pub closed spec fn spec_target(&self) -> Option<u64> {
        self.target
    }

    /// Creates a callback that persists `offset` when called.
    pub fn new(offset: u64) -> (r: Self)
        ensures
            r.spec_target() == Some(offset),
    {
        Callback { target: Some(offset) }
    }

    /// Creates an empty no-op callback.
    pub fn empty() -> (r: Self)
        ensures
            r.spec_target() is None,
    {
        Callback { target: None }
    }

    /// Calls the callback: yields the offset the caller must persist, or
    /// nothing. Every call yields the same value.
    pub fn call(&self) -> (r: Option<u64>)
        ensures
            r == self.spec_target(),
    {
        match self.target {
            Some(offset) => Some(offset),
            None => None,
        }
    }
}

/// Idempotent acknowledgement: invoking an ack a second time leaves the
/// persisted state exactly as the first invocation left it.
pub proof fn lemma_ack_idempotent(state_file: Seq<u8>, cb: Callback)
    ensures
        apply_ack(apply_ack(state_file, cb.spec_target()), cb.spec_target()) == apply_ack(
            state_file,
            cb.spec_target(),
        ),
{
}

/// The unit that traverses the channel: the event and its acknowledgement.
/// An envelope occupies one capacity slot from the moment its producer took
/// the slot until the consumer releases it.
#[derive(Debug)]
pub struct Envelope {
    pub event: Event,
    pub ack: Callback,
}

/// The outcome of a send attempt.
#[derive(Debug, PartialEq, Eq, Structural)]
pub enum SendOutcome {
    /// The event took a slot and was queued.
    Sent,
    /// No slot is free: the producer must suspend and retry once the
    /// consumer releases an envelope.
    WouldBlock,
    /// The channel was closed by cancellation: the producer must return.
    Closed,
}

/// A bounded channel of capacity `capacity`: `queue` holds the events sent
/// and not yet received, in send order, and `held` counts the envelopes the
/// consumer has received and not yet released. Queue plus held never exceed
/// the capacity.
#[derive(Debug)]
pub struct BoundedChannel {
    capacity: usize,
    queue: Vec<Envelope>,
    held: usize,
    closed: bool,
}

impl BoundedChannel {
    /// The fixed capacity.
    pub closed spec fn spec_capacity(&self) -> int {
        self.capacity as int
    }

    /// The envelopes sent and not yet received, in send order.
    pub closed spec fn queued(&self) -> Seq<Envelope> {
        self.queue@
    }

    /// How many envelopes the consumer holds unreleased.
    pub closed spec fn held(&self) -> int {
        self.held as int
    }

    /// Whether cancellation has closed the channel.
    pub closed spec fn is_closed(&self) -> bool {
        self.closed
    }

    /// The slots still free for producers.
    pub open spec fn free_slots(&self) -> int {
        self.spec_capacity() - self.queued().len() - self.held()
    }

    /// The accounting invariant: buffered events and held envelopes share
    /// the fixed capacity.
    pub open spec fn wf(&self) -> bool {
        self.queued().len() + self.held() <= self.spec_capacity()
    }

    /// A fresh channel with every slot free.
    pub fn new(capacity: usize) -> (r: Self)
        ensures
            r.wf(),
            r.spec_capacity() == capacity,
            r.queued().len() == 0,
            r.held() == 0,
            !r.is_closed(),
    {
        BoundedChannel { capacity, queue: Vec::new(), held: 0, closed: false }
    }

    /// A producer's send attempt. It takes a free slot and queues the event,
    /// tells the producer to suspend when no slot is free, or tells it to
    /// return when the channel is closed.
    pub fn try_send(&mut self, event: Event, ack: Callback) -> (r: SendOutcome)
        requires
            old(self).wf(),
        ensures
            final(self).wf(),
            final(self).spec_capacity() == old(self).spec_capacity(),
            final(self).held() == old(self).held(),
            old(self).is_closed() ==> r == SendOutcome::Closed && *final(self) == *old(self),
            !old(self).is_closed() && old(self).free_slots() == 0 ==> r == SendOutcome::WouldBlock
                && *final(self) == *old(self),
            !old(self).is_closed() && old(self).free_slots() > 0 ==> {
                &&& r == SendOutcome::Sent
                &&& final(self).queued().len() == old(self).queued().len() + 1
                &&& final(self).queued().drop_last() == old(self).queued()
                &&& final(self).queued().last().event == event
                &&& final(self).queued().last().ack == ack
                &&& !final(self).is_closed()
            },
    {
        if self.closed {
            return SendOutcome::Closed;
        }
        if self.queue.len() >= self.capacity - self.held {
            return SendOutcome::WouldBlock;
        }
        self.queue.push(Envelope { event, ack });
        proof {
            assert(self.queue@.drop_last() =~= old(self).queue@);
        }
        SendOutcome::Sent
    }

    /// The consumer's receive: takes the oldest queued envelope — delivery
    /// is first-in, first-out — and holds its slot until `release`.
    pub fn recv(&mut self) -> (r: Option<Envelope>)
        requires
            old(self).wf(),
        ensures
            final(self).wf(),
            final(self).spec_capacity() == old(self).spec_capacity(),
            final(self).is_closed() == old(self).is_closed(),
            old(self).queued().len() == 0 ==> r is None && *final(self) == *old(self),
            old(self).queued().len() > 0 ==> {
                &&& r == Some(old(self).queued().first())
                &&& final(self).queued() == old(self).queued().drop_first()
                &&& final(self).held() == old(self).held() + 1
            },
    {
        if self.queue.len() == 0 {
            return None;
        }
        let env = self.queue.remove(0);
        self.held = self.held + 1;
        proof {
            assert(self.queue@ =~= old(self).queue@.drop_first());
        }
        Some(env)
    }

    /// The consumer is done with an envelope: its slot becomes free again,
    /// which is what lets a suspended producer proceed.
    pub fn release(&mut self, env: Envelope) -> (r: Callback)
        requires
            old(self).wf(),
            old(self).held() > 0,
        ensures
            final(self).wf(),
            final(self).spec_capacity() == old(self).spec_capacity(),
            final(self).queued() == old(self).queued(),
            final(self).held() == old(self).held() - 1,
            final(self).is_closed() == old(self).is_closed(),
            final(self).free_slots() == old(self).free_slots() + 1,
            r == env.ack,
    {
        self.held = self.held - 1;
        let Envelope { event: _, ack } = env;
        ack
    }

    /// Cancellation: closes the channel, unblocking every producer with
    /// `Closed` from then on. What is already queued stays for the consumer
    /// to drain.
    pub fn close(&mut self)
        requires
            old(self).wf(),
        ensures
            final(self).wf(),
            final(self).is_closed(),
            final(self).spec_capacity() == old(self).spec_capacity(),
            final(self).queued() == old(self).queued(),
            final(self).held() == old(self).held(),
    {
        self.closed = true;
    }

    /// Shutdown drain: takes everything still queued, in order, so the
    /// consumer can acknowledge and release it.
    pub fn drain(&mut self) -> (r: Vec<Envelope>)
        requires
            old(self).wf(),
        ensures
            final(self).wf(),
            final(self).spec_capacity() == old(self).spec_capacity(),
            final(self).is_closed() == old(self).is_closed(),
            r@ == old(self).queued(),
            final(self).queued().len() == 0,
            final(self).held() == old(self).held() + old(self).queued().len(),
    {
        let mut rest = Vec::new();
        core::mem::swap(&mut self.queue, &mut rest);
        let new_held = self.held + rest.len();
        self.held = new_held;
        rest
    }
}

/// Backpressure: however the producers and the consumer interleave, a
/// channel of capacity `C` never holds more than `C` events awaiting or
/// undergoing processing; once `C` events are in flight, `try_send` answers
/// `WouldBlock` and the producer suspends.
pub proof fn lemma_backpressure(c: BoundedChannel)
    requires
        c.wf(),
    ensures
        c.queued().len() + c.held() <= c.spec_capacity(),
        c.free_slots() == 0 && !c.is_closed() ==> c.queued().len() + c.held()
            == c.spec_capacity(),
{
}

/// Ordering: a send appends at the tail and never disturbs the events
/// already queued, and a receive takes the head; so the consumer sees the
/// events of a route in exactly the order its producer sent them.
pub proof fn lemma_send_keeps_order(before: Seq<Envelope>, after: Seq<Envelope>, i: int)
    requires
        after.len() == before.len() + 1,
        after.drop_last() == before,
        0 <= i < before.len(),
    ensures
        after[i] == before[i],
{
    assert(after.drop_last()[i] == after[i]);
}

/// Clean shutdown leaks nothing: once the consumer has drained the queue
/// and released every envelope it held, every capacity slot is free again.
pub proof fn lemma_no_slot_leaked(c: BoundedChannel)
    requires
        c.wf(),
        c.queued().len() == 0,
        c.held() == 0,
    ensures
        c.free_slots() == c.spec_capacity(),
{
}

} // verus!

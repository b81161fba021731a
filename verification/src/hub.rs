//! Distribution hub: a single producer broadcasts classified chunks to any
//! number of independent consumers through a bounded history.
//!
//! Every consumer that keeps pace receives every chunk in emission order. A
//! consumer that falls more than the hub's capacity behind is told it lagged
//! and is resynchronized to the oldest retained chunk instead of silently
//! losing data; the producer is never blocked by a slow consumer.
use vstd::prelude::*;

use crate::ChunkModel;
use crate::ParsedBuffer;
use crate::classifier::chunk_models;
use crate::classifier::clone_bytes;

verus! {

/// The distribution hub. It retains the last `capacity` chunks; the ghost
/// history records every chunk ever emitted, in order.
pub struct Hub {
    capacity: usize,
    buffer: Vec<ParsedBuffer>,
    sent: u64,
    history: Ghost<Seq<ChunkModel>>,
}

impl Hub {
    /// Every chunk ever emitted through this hub, in emission order.
    pub closed spec fn history(self) -> Seq<ChunkModel> {
        self.history@
    }

    /// The bound on retained chunks, fixed at construction.
    pub closed spec fn spec_capacity(self) -> usize {
        self.capacity
    }

    /// The hub retains exactly the most recent chunks of its history, up to
    /// its capacity.
    pub closed spec fn wf(self) -> bool {
        &&& self.capacity >= 1
        &&& self.sent == self.history@.len()
        &&& self.buffer@.len() == if self.history@.len() <= self.capacity {
            self.history@.len() as int
        } else {
            self.capacity as int
        }
        &&& chunk_models(self.buffer@) == self.history@.skip(
            self.history@.len() - self.buffer@.len(),
        )
    }

    /// A hub that retains at most `capacity` chunks.
    pub fn new(capacity: usize) -> (r: Hub)
        requires
            capacity >= 1,
        ensures
            r.wf(),
            r.history() == Seq::<ChunkModel>::empty(),
            r.spec_capacity() == capacity,
    {
        let r = Hub { capacity, buffer: Vec::new(), sent: 0, history: Ghost(Seq::empty()) };
        proof {
            assert(chunk_models(r.buffer@) =~= Seq::<ChunkModel>::empty());
            assert(r.history@.skip(0) =~= Seq::<ChunkModel>::empty());
        }
        r
    }

    /// Broadcast one chunk: it is appended to the history, and the oldest
    /// retained chunk is evicted if the hub is full. The producer never
    /// waits.
    pub fn send(&mut self, chunk: ParsedBuffer)
        requires
            old(self).wf(),
            old(self).history().len() < u64::MAX,
        ensures
            final(self).wf(),
            final(self).history() == old(self).history().push(chunk@),
            final(self).spec_capacity() == old(self).spec_capacity(),
    {
        let ghost old_buf = self.buffer@;
        if self.buffer.len() == self.capacity {
            self.buffer.remove(0);
            proof {
                assert(chunk_models(self.buffer@) =~= chunk_models(old_buf).skip(1));
            }
        }
        let ghost mid_buf = self.buffer@;
        self.buffer.push(chunk);
        self.sent = self.sent + 1;
        proof {
            let h = self.history@.push(chunk@);
            self.history@ = h;
            assert(chunk_models(self.buffer@) =~= chunk_models(mid_buf).push(chunk@));
            assert(chunk_models(self.buffer@) =~= h.skip(h.len() - self.buffer@.len()));
        }
    }

    /// The bound on retained chunks.
    pub fn capacity(&self) -> (r: usize)
        ensures
            r == self.spec_capacity(),
    {
        self.capacity
    }

    /// How many chunks were ever emitted.
    pub fn sent_count(&self) -> (r: u64)
        requires
            self.wf(),
        ensures
            r == self.history().len(),
    {
        self.sent
    }

    /// Register a new consumer. It will see only chunks emitted after this
    /// point.
    pub fn subscribe(&self) -> (r: Subscriber)
        requires
            self.wf(),
        ensures
            r.cursor() == self.history().len(),
    {
        Subscriber { cursor: self.sent }
    }
}

/// What one receive attempt yields.
pub enum RecvOutcome {
    /// The next chunk, in emission order.
    Received(ParsedBuffer),
    /// The consumer fell more than the hub's capacity behind; it was
    /// resynchronized to the oldest retained chunk and must re-fetch the
    /// bootstrap header.
    Lagged,
    /// No chunk is pending.
    Empty,
}

/// One consumer's position in the hub's emission history.
pub struct Subscriber {
    cursor: u64,
}

impl Subscriber {
    /// How many of the hub's chunks this consumer has consumed or skipped.
    pub closed spec fn cursor(self) -> u64 {
        self.cursor
    }

    /// Receive the next chunk, if any.
    ///
    /// A consumer within the retained window gets exactly the next chunk of
    /// the emission order. One that fell behind the window is told so and
    /// moved to the oldest retained chunk, never handed data out of order.
    pub fn recv(&mut self, hub: &Hub) -> (r: RecvOutcome)
        requires
            hub.wf(),
            old(self).cursor() <= hub.history().len(),
        ensures
            final(self).cursor() <= hub.history().len(),
            old(self).cursor() == hub.history().len() ==> r is Empty && final(self).cursor()
                == old(self).cursor(),
            hub.history().len() - old(self).cursor() > hub.spec_capacity() ==> r is Lagged
                && final(self).cursor() == hub.history().len() - hub.spec_capacity(),
            old(self).cursor() < hub.history().len() && hub.history().len() - old(self).cursor()
                <= hub.spec_capacity() ==> final(self).cursor() == old(self).cursor() + 1 && (r
                matches RecvOutcome::Received(c) && c@ == hub.history()[old(self).cursor() as int]),
    {
        if self.cursor == hub.sent {
            return RecvOutcome::Empty;
        }
        let oldest: u64 = hub.sent - (hub.buffer.len() as u64);
        if self.cursor < oldest {
            self.cursor = oldest;
            return RecvOutcome::Lagged;
        }
        let idx: usize = (self.cursor - oldest) as usize;
        let chunk = clone_chunk(&hub.buffer[idx]);
        proof {
            assert(chunk_models(hub.buffer@)[idx as int] == hub.history()[self.cursor as int]);
        }
        self.cursor = self.cursor + 1;
        RecvOutcome::Received(chunk)
    }
}

/// A consumer that kept pace — it is at most the hub's capacity behind —
/// receives every chunk it has not yet seen, in emission order, with no gap
/// and no lag notice.
pub fn drain(sub: &mut Subscriber, hub: &Hub) -> (r: Vec<ParsedBuffer>)
    requires
        hub.wf(),
        old(sub).cursor() <= hub.history().len(),
        hub.history().len() - old(sub).cursor() <= hub.spec_capacity(),
    ensures
        final(sub).cursor() == hub.history().len(),
        chunk_models(r@) == hub.history().skip(old(sub).cursor() as int),
{
    let mut r: Vec<ParsedBuffer> = Vec::new();
    proof {
        assert(chunk_models(r@) =~= Seq::<ChunkModel>::empty());
        assert(hub.history().subrange(old(sub).cursor() as int, old(sub).cursor() as int)
            =~= Seq::<ChunkModel>::empty());
    }
    loop
        invariant
            hub.wf(),
            hub.history().len() - old(sub).cursor() <= hub.spec_capacity(),
            old(sub).cursor() <= sub.cursor() <= hub.history().len(),
            chunk_models(r@) == hub.history().subrange(
                old(sub).cursor() as int,
                sub.cursor() as int,
            ),
        ensures
            sub.cursor() == hub.history().len(),
            chunk_models(r@) == hub.history().subrange(
                old(sub).cursor() as int,
                sub.cursor() as int,
            ),
        decreases hub.history().len() - sub.cursor(),
    {
        let ghost prior = r@;
        let ghost at = sub.cursor();
        match sub.recv(hub) {
            RecvOutcome::Received(c) => {
                r.push(c);
                proof {
                    assert(chunk_models(r@) =~= chunk_models(prior).push(r@.last()@));
                    assert(hub.history().subrange(old(sub).cursor() as int, at + 1)
                        =~= hub.history().subrange(old(sub).cursor() as int, at as int).push(
                        hub.history()[at as int],
                    ));
                }
            },
            _ => {
                break ;
            },
        }
    }
    proof {
        assert(hub.history().subrange(old(sub).cursor() as int, hub.history().len() as int)
            =~= hub.history().skip(old(sub).cursor() as int));
    }
    r
}

/// A copy of a classified chunk with the same payload, kind, and timestamp.
pub fn clone_chunk(c: &ParsedBuffer) -> (r: ParsedBuffer)
    ensures
        r@ == c@,
{
    ParsedBuffer {
        data: clone_bytes(&c.data),
        message_type: c.message_type,
        timestamp: c.timestamp,
    }
}

} // verus!

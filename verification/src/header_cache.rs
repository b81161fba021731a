//! Bootstrap header cache: keeps the initialization chunks (`FirstFrame` and
//! `MoovPacket`) of the current capture-engine incarnation so that late
//! joiners can be handed a decodable prefix.
//!
//! The cache collects header chunks until the first chunk of another kind
//! arrives, then holds them for replay. A new `FirstFrame` signals a new
//! incarnation whose header is incompatible with the old one: the old
//! contents are discarded in the same step, so no reader can ever observe a
//! mix of two incarnations' headers.
use vstd::prelude::*;

use crate::MessageType;
use crate::ParsedBuffer;
use crate::classifier::clone_bytes;

verus! {

/// Abstract cache state: whether the cache is still collecting header chunks,
/// and the header payloads collected so far, in arrival order.
pub ghost struct CacheModel {
    pub collecting: bool,
    pub headers: Seq<Seq<u8>>,
}

impl CacheModel {
    /// State at pipeline start: collecting, nothing gathered.
    pub open spec fn init() -> CacheModel {
        CacheModel { collecting: true, headers: Seq::empty() }
    }

    /// How one classified chunk changes the cache.
    pub open spec fn step(self, kind: MessageType, data: Seq<u8>) -> CacheModel {
        if kind == MessageType::FirstFrame {
            CacheModel { collecting: true, headers: seq![data] }
        } else if self.collecting {
            if kind == MessageType::MoovPacket {
                CacheModel { collecting: true, headers: self.headers.push(data) }
            } else {
                CacheModel { collecting: false, headers: self.headers }
            }
        } else {
            self
        }
    }
}

/// The bootstrap header cache.
pub struct HeaderCache {
    collecting: bool,
    headers: Vec<Vec<u8>>,
}

/// Abstract value of a gathered header sequence.
pub open spec fn headers_model(headers: Seq<Vec<u8>>) -> Seq<Seq<u8>> {
    headers.map_values(|v: Vec<u8>| v@)
}

impl View for HeaderCache {
    type V = CacheModel;

    closed spec fn view(&self) -> CacheModel {
        CacheModel { collecting: self.collecting, headers: headers_model(self.headers@) }
    }
}

impl HeaderCache {
    /// An empty cache, as at pipeline start.
    pub fn new() -> (r: HeaderCache)
        ensures
            r@ == CacheModel::init(),
    {
        let r = HeaderCache { collecting: true, headers: Vec::new() };
        proof {
            assert(headers_model(r.headers@) =~= Seq::<Seq<u8>>::empty());
        }
        r
    }

    /// Observe one classified chunk.
    ///
    /// A `FirstFrame` discards the old incarnation's header and starts the
    /// new one in the same step; a `MoovPacket` while collecting is appended;
    /// the first chunk of any other kind freezes the collected header.
    pub fn on_chunk(&mut self, chunk: &ParsedBuffer)
        ensures
            final(self)@ == old(self)@.step(chunk@.kind, chunk@.data),
    {
        match chunk.message_type {
            MessageType::FirstFrame => {
                self.headers.clear();
                self.headers.push(clone_bytes(&chunk.data));
                self.collecting = true;
                proof {
                    assert(headers_model(self.headers@) =~= seq![chunk.data@]);
                }
            },
            MessageType::MoovPacket => {
                if self.collecting {
                    let ghost prior = self.headers@;
                    self.headers.push(clone_bytes(&chunk.data));
                    proof {
                        assert(headers_model(self.headers@) =~= headers_model(prior).push(
                            chunk.data@,
                        ));
                    }
                }
            },
            _ => {
                if self.collecting {
                    self.collecting = false;
                }
            },
        }
    }

    /// A consistent snapshot of the collected header payloads for a new
    /// subscriber: the full sequence as of subscription time.
    pub fn snapshot(&self) -> (r: Vec<Vec<u8>>)
        ensures
            headers_model(r@) == self@.headers,
    {
        let mut r: Vec<Vec<u8>> = Vec::new();
        let mut i: usize = 0;
        proof {
            assert(headers_model(r@) =~= Seq::<Seq<u8>>::empty());
            assert(self@.headers.take(0) =~= Seq::<Seq<u8>>::empty());
        }
        while i < self.headers.len()
            invariant
                i <= self.headers@.len(),
                headers_model(r@) == self@.headers.take(i as int),
            decreases self.headers@.len() - i,
        {
            let ghost prior = r@;
            r.push(clone_bytes(&self.headers[i]));
            proof {
                assert(headers_model(r@) =~= headers_model(prior).push(self.headers@[i as int]@));
                assert(self@.headers.take(i + 1) =~= self@.headers.take(i as int).push(
                    self@.headers[i as int],
                ));
            }
            i = i + 1;
        }
        proof {
            assert(self@.headers.take(self.headers@.len() as int) =~= self@.headers);
        }
        r
    }

    /// Whether the cache is still collecting header chunks.
    pub fn is_collecting(&self) -> (r: bool)
        ensures
            r == self@.collecting,
    {
        self.collecting
    }
}

/// A `FirstFrame` arriving in any state resets the cache to exactly that
/// chunk: the old incarnation's header is gone and re-collection has begun, in
/// one atomic step, so no reader observes a mix of old and new header chunks.
pub proof fn lemma_restart_resets_cache(m: CacheModel, data: Seq<u8>)
    ensures
        m.step(MessageType::FirstFrame, data).headers == seq![data],
        m.step(MessageType::FirstFrame, data).collecting,
{
}

} // verus!

//! Fragment classifier: segments the raw byte stream pushed by the capture
//! engine into classified chunks.
//!
//! The first two buffers of an incarnation are emitted individually as
//! `FirstFrame` and `MoovPacket`. Every later buffer is accumulated; a buffer
//! whose payload carries the four ASCII bytes `moof` at offset 4 closes the
//! accumulated chunk and starts the next one. A closed chunk is a `KeyFrame`
//! exactly when none of its constituent buffers carried the delta flag, and
//! its timestamp is the last presentation timestamp observed among its
//! constituents.
use vstd::prelude::*;

use crate::ChunkModel;
use crate::MessageType;
use crate::ParsedBuffer;

verus! {

/// One raw buffer handed over by the capture engine: payload bytes, the
/// engine's delta-unit flag, and an optional presentation timestamp in
/// nanoseconds.
pub struct InputBuffer {
    pub data: Vec<u8>,
    pub is_delta: bool,
    pub pts: Option<u64>,
}

/// Abstract value of one input buffer.
pub ghost struct BufModel {
    pub data: Seq<u8>,
    pub is_delta: bool,
    pub pts: Option<u64>,
}

impl View for InputBuffer {
    type V = BufModel;

    open spec fn view(&self) -> BufModel {
        BufModel { data: self.data@, is_delta: self.is_delta, pts: self.pts }
    }
}

/// A buffer opens a new fragment exactly when it is long enough to be tested
/// and carries the ASCII signature `moof` at byte offset 4.
pub open spec fn is_boundary(data: Seq<u8>) -> bool {
    &&& data.len() >= 8
    &&& data[4] == 0x6du8
    &&& data[5] == 0x6fu8
    &&& data[6] == 0x6fu8
    &&& data[7] == 0x66u8
}

/// The bytes of a chunk are the payloads of its constituent buffers, in order.
pub open spec fn concat_data(bufs: Seq<BufModel>) -> Seq<u8>
    decreases bufs.len(),
{
    if bufs.len() == 0 {
        Seq::empty()
    } else {
        concat_data(bufs.drop_last()) + bufs.last().data
    }
}

/// No constituent buffer carried the delta flag.
pub open spec fn all_nondelta(bufs: Seq<BufModel>) -> bool {
    forall|i: int| 0 <= i < bufs.len() ==> !bufs[i].is_delta
}

/// The last presentation timestamp observed among the constituents, if any.
pub open spec fn last_pts(bufs: Seq<BufModel>) -> Option<u64>
    decreases bufs.len(),
{
    if bufs.len() == 0 {
        None
    } else if bufs.last().pts is Some {
        bufs.last().pts
    } else {
        last_pts(bufs.drop_last())
    }
}

/// The kind of a chunk built from the given constituents.
pub open spec fn chunk_kind(bufs: Seq<BufModel>) -> MessageType {
    if all_nondelta(bufs) {
        MessageType::KeyFrame
    } else {
        MessageType::Fragment
    }
}

/// The chunk that closing the current accumulation would emit.
pub open spec fn pending_chunk(bufs: Seq<BufModel>) -> ChunkModel {
    ChunkModel { data: concat_data(bufs), kind: chunk_kind(bufs), timestamp: last_pts(bufs) }
}

/// Abstract classifier state: how many header chunks were already emitted for
/// this incarnation, and the constituents of the chunk being accumulated.
pub ghost struct ClassifierModel {
    pub emitted_headers: nat,
    pub pending: Seq<BufModel>,
}

impl ClassifierModel {
    /// State at the start of an incarnation.
    pub open spec fn init() -> ClassifierModel {
        ClassifierModel { emitted_headers: 0, pending: Seq::empty() }
    }

    /// One classification step: the successor state and the chunk emitted for
    /// this input buffer, if any.
    pub open spec fn step(self, b: BufModel) -> (ClassifierModel, Option<ChunkModel>) {
        if self.emitted_headers == 0 {
            (
                ClassifierModel { emitted_headers: 1, pending: Seq::empty() },
                Some(ChunkModel { data: b.data, kind: MessageType::FirstFrame, timestamp: None }),
            )
        } else if self.emitted_headers == 1 {
            (
                ClassifierModel { emitted_headers: 2, pending: Seq::empty() },
                Some(ChunkModel { data: b.data, kind: MessageType::MoovPacket, timestamp: None }),
            )
        } else if is_boundary(b.data) {
            (
                ClassifierModel { emitted_headers: self.emitted_headers, pending: seq![b] },
                Some(pending_chunk(self.pending)),
            )
        } else {
            (
                ClassifierModel {
                    emitted_headers: self.emitted_headers,
                    pending: self.pending.push(b),
                },
                None,
            )
        }
    }
}

/// The classifier state after consuming a whole input sequence from the start
/// of an incarnation.
pub open spec fn run_state(inputs: Seq<BufModel>) -> ClassifierModel
    decreases inputs.len(),
{
    if inputs.len() == 0 {
        ClassifierModel::init()
    } else {
        run_state(inputs.drop_last()).step(inputs.last()).0
    }
}

/// All chunks emitted while consuming a whole input sequence from the start of
/// an incarnation, in emission order.
pub open spec fn run_output(inputs: Seq<BufModel>) -> Seq<ChunkModel>
    decreases inputs.len(),
{
    if inputs.len() == 0 {
        Seq::empty()
    } else {
        run_output(inputs.drop_last()) + match run_state(inputs.drop_last()).step(
            inputs.last(),
        ).1 {
            Some(c) => seq![c],
            None => Seq::empty(),
        }
    }
}

/// Abstract value of an emitted chunk, if one was emitted.
pub open spec fn out_model(r: Option<ParsedBuffer>) -> Option<ChunkModel> {
    match r {
        Some(p) => Some(p@),
        None => None,
    }
}

/// The fragment classifier. Feed it the engine's buffers in arrival order;
/// it hands back at most one classified chunk per buffer.
pub struct Classifier {
    emitted_headers: u8,
    acc: Vec<u8>,
    key_frame: bool,
    timestamp: Option<u64>,
    pending: Ghost<Seq<BufModel>>,
}

impl View for Classifier {
    type V = ClassifierModel;

    closed spec fn view(&self) -> ClassifierModel {
        ClassifierModel { emitted_headers: self.emitted_headers as nat, pending: self.pending@ }
    }
}

impl Classifier {
    /// The concrete fields agree with the abstract state.
    pub closed spec fn wf(self) -> bool {
        &&& self.emitted_headers <= 2
        &&& self.acc@ == concat_data(self.pending@)
        &&& self.key_frame == all_nondelta(self.pending@)
        &&& self.timestamp == last_pts(self.pending@)
        &&& self.emitted_headers < 2 ==> self.pending@ == Seq::<BufModel>::empty()
    }

    /// A classifier at the start of an incarnation.
    pub fn new() -> (r: Classifier)
        ensures
            r.wf(),
            r@ == ClassifierModel::init(),
    {
        Classifier {
            emitted_headers: 0,
            acc: Vec::new(),
            key_frame: true,
            timestamp: None,
            pending: Ghost(Seq::empty()),
        }
    }

    /// Consume one buffer from the capture engine; return the chunk this
    /// buffer caused to be emitted, if any.
    pub fn push_buffer(&mut self, buf: &InputBuffer) -> (r: Option<ParsedBuffer>)
        requires
            old(self).wf(),
        ensures
            final(self).wf(),
            final(self)@ == old(self)@.step(buf@).0,
            out_model(r) == old(self)@.step(buf@).1,
    {
        if self.emitted_headers == 0 {
            self.emitted_headers = 1;
            return Some(
                ParsedBuffer {
                    data: clone_bytes(&buf.data),
                    message_type: MessageType::FirstFrame,
                    timestamp: None,
                },
            );
        }
        if self.emitted_headers == 1 {
            self.emitted_headers = 2;
            return Some(
                ParsedBuffer {
                    data: clone_bytes(&buf.data),
                    message_type: MessageType::MoovPacket,
                    timestamp: None,
                },
            );
        }
        let boundary = buf.data.len() >= 8 && buf.data[4] == 0x6du8 && buf.data[5] == 0x6fu8
            && buf.data[6] == 0x6fu8 && buf.data[7] == 0x66u8;
        if boundary {
            let mut closed = clone_bytes(&buf.data);
            core::mem::swap(&mut self.acc, &mut closed);
            let out = ParsedBuffer {
                data: closed,
                message_type: if self.key_frame {
                    MessageType::KeyFrame
                } else {
                    MessageType::Fragment
                },
                timestamp: self.timestamp,
            };
            self.key_frame = !buf.is_delta;
            self.timestamp = buf.pts;
            proof {
                self.pending@ = seq![buf@];
                assert(seq![buf@].last() == buf@);
                assert(seq![buf@].drop_last() =~= Seq::<BufModel>::empty());
                assert(concat_data(Seq::<BufModel>::empty()) == Seq::<u8>::empty());
                assert(last_pts(Seq::<BufModel>::empty()) is None);
                assert(concat_data(seq![buf@]) =~= buf.data@);
                assert(last_pts(seq![buf@]) == buf@.pts);
                assert(all_nondelta(seq![buf@]) == !buf@.is_delta) by {
                    if !buf@.is_delta {
                        assert(forall|i: int|
                            0 <= i < seq![buf@].len() ==> !seq![buf@][i].is_delta);
                    } else {
                        assert(seq![buf@][0].is_delta);
                    }
                };
            }
            Some(out)
        } else {
            let mut added = clone_bytes(&buf.data);
            self.acc.append(&mut added);
            self.key_frame = self.key_frame && !buf.is_delta;
            if buf.pts.is_some() {
                self.timestamp = buf.pts;
            }
            proof {
                let prior = self.pending@;
                self.pending@ = prior.push(buf@);
                assert(prior.push(buf@).drop_last() =~= prior);
                assert(all_nondelta(prior.push(buf@)) == (all_nondelta(prior) && !buf.is_delta))
                    by {
                    if all_nondelta(prior) && !buf.is_delta {
                        assert(forall|i: int|
                            0 <= i < prior.push(buf@).len() ==> !prior.push(buf@)[i].is_delta);
                    }
                    if all_nondelta(prior.push(buf@)) {
                        assert(forall|i: int| 0 <= i < prior.len() ==> !prior[i].is_delta);
                        assert(!prior.push(buf@).last().is_delta);
                    }
                };
            }
            None
        }
    }
}

/// A copy of a byte buffer with the same contents.
pub fn clone_bytes(v: &Vec<u8>) -> (r: Vec<u8>)
    ensures
        r@ == v@,
{
    vstd::slice::slice_to_vec(v.as_slice())
}

/// Abstract values of a sequence of input buffers.
pub open spec fn buf_models(bufs: Seq<InputBuffer>) -> Seq<BufModel> {
    bufs.map_values(|b: InputBuffer| b@)
}

/// Abstract values of a sequence of emitted chunks.
pub open spec fn chunk_models(chunks: Seq<ParsedBuffer>) -> Seq<ChunkModel> {
    chunks.map_values(|c: ParsedBuffer| c@)
}

/// Classify a whole recorded input sequence from the start of an incarnation.
/// The chunks that come out are exactly the ones the abstract run emits.
pub fn classify_sequence(bufs: &Vec<InputBuffer>) -> (chunks: Vec<ParsedBuffer>)
    ensures
        chunk_models(chunks@) == run_output(buf_models(bufs@)),
{
    let ghost models = buf_models(bufs@);
    let mut classifier = Classifier::new();
    let mut chunks: Vec<ParsedBuffer> = Vec::new();
    let mut i: usize = 0;
    proof {
        assert(models.take(0) =~= Seq::<BufModel>::empty());
        assert(chunk_models(chunks@) =~= Seq::<ChunkModel>::empty());
    }
    while i < bufs.len()
        invariant
            i <= bufs.len(),
            models == buf_models(bufs@),
            classifier.wf(),
            classifier@ == run_state(models.take(i as int)),
            chunk_models(chunks@) == run_output(models.take(i as int)),
        decreases bufs.len() - i,
    {
        let ghost prior_chunks = chunks@;
        let out = classifier.push_buffer(&bufs[i]);
        let ghost emitted = out_model(out);
        match out {
            Some(c) => chunks.push(c),
            None => {},
        }
        proof {
            assert(models.take(i + 1).drop_last() =~= models.take(i as int));
            assert(models.take(i + 1).last() == bufs@[i as int]@);
            if emitted is Some {
                assert(chunks@ == prior_chunks.push(chunks@.last()));
                assert(chunk_models(chunks@) =~= chunk_models(prior_chunks).push(
                    chunks@.last()@,
                ));
                assert(chunk_models(chunks@) =~= run_output(models.take(i + 1)));
            } else {
                assert(chunk_models(chunks@) =~= run_output(models.take(i + 1)));
            }
        }
        i = i + 1;
    }
    proof {
        assert(models.take(bufs@.len() as int) =~= models);
    }
    chunks
}

/// After two buffers, both header chunks are out.
pub proof fn lemma_emitted_headers(inputs: Seq<BufModel>)
    ensures
        run_state(inputs).emitted_headers == if inputs.len() >= 2 {
            2nat
        } else {
            inputs.len()
        },
    decreases inputs.len(),
{
    if inputs.len() > 0 {
        lemma_emitted_headers(inputs.drop_last());
    }
}

/// Whatever bytes the engine pushes, the first two emitted chunks of an
/// incarnation are the first two buffers, tagged `FirstFrame` then
/// `MoovPacket`, regardless of their content.
pub proof fn lemma_first_two_chunks(inputs: Seq<BufModel>)
    requires
        inputs.len() >= 2,
    ensures
        run_output(inputs).len() >= 2,
        run_output(inputs)[0] == (ChunkModel {
            data: inputs[0].data,
            kind: MessageType::FirstFrame,
            timestamp: None,
        }),
        run_output(inputs)[1] == (ChunkModel {
            data: inputs[1].data,
            kind: MessageType::MoovPacket,
            timestamp: None,
        }),
    decreases inputs.len(),
{
    if inputs.len() == 2 {
        let first = inputs.drop_last();
        assert(first.drop_last() =~= Seq::<BufModel>::empty());
        assert(run_state(first.drop_last()) == ClassifierModel::init());
        assert(run_output(first.drop_last()) == Seq::<ChunkModel>::empty());
        assert(run_output(first) == seq![
            ChunkModel { data: inputs[0].data, kind: MessageType::FirstFrame, timestamp: None },
        ]);
        lemma_emitted_headers(first);
    } else {
        lemma_first_two_chunks(inputs.drop_last());
    }
}

/// A chunk is a `KeyFrame` exactly when none of its constituent buffers
/// carried the delta flag; otherwise it is a `Fragment`.
pub proof fn lemma_key_frame_iff_all_nondelta(bufs: Seq<BufModel>)
    ensures
        pending_chunk(bufs).kind == MessageType::KeyFrame <==> (forall|i: int|
            0 <= i < bufs.len() ==> !bufs[i].is_delta),
        pending_chunk(bufs).kind == MessageType::KeyFrame || pending_chunk(bufs).kind
            == MessageType::Fragment,
{
}

/// Once the two header chunks are out, a buffer with the `moof` signature at
/// offset 4 closes exactly the chunk accumulated so far and itself opens the
/// next chunk; a buffer without the signature only extends the accumulation.
pub proof fn lemma_boundary_closes_one_chunk(s: ClassifierModel, b: BufModel)
    requires
        s.emitted_headers == 2,
    ensures
        is_boundary(b.data) ==> s.step(b).1 == Some(pending_chunk(s.pending)) && s.step(b).0.pending
            == seq![b],
        !is_boundary(b.data) ==> s.step(b).1 is None && s.step(b).0.pending == s.pending.push(b),
{
}

/// Classification is deterministic: replaying the same capture yields the
/// same chunk boundaries, kinds, and timestamps.
pub proof fn lemma_classification_deterministic(a: Seq<BufModel>, b: Seq<BufModel>)
    requires
        a == b,
    ensures
        run_output(a) == run_output(b),
{
}

} // verus!

//! Core logic of a camera streaming and recording service: classification of
//! an encoded byte stream into decodable chunks, a bootstrap-header cache for
//! late joiners, a broadcast hub with bounded history, per-viewer streaming
//! sessions, recording-file rotation, capture-engine supervision, and
//! device/configuration resolution.
use vstd::prelude::*;

pub mod api_handlers;
pub mod classifier;
pub mod config;
pub mod frontend;
pub mod header_cache;
pub mod hub;
pub mod models;
pub mod storage;
pub mod sys;
pub mod users;
pub mod video;
pub mod watchdog;
pub mod file_sink;
pub mod session;

verus! {

/// The semantic kind of one classified chunk of the encoded stream.
#[derive(Clone, Copy, Debug, PartialEq, Eq, Structural)]
pub enum MessageType {
    /// A fully self-decodable frame: the entry point for a new viewer.
    KeyFrame,
    /// The very first buffer of a capture-engine incarnation; signals a
    /// (re)start to every consumer.
    FirstFrame,
    /// The stream's self-describing header packet, sent right after
    /// `FirstFrame`.
    MoovPacket,
    /// An encoded unit that depends on a prior key frame.
    Fragment,
}

/// One classified, delimited unit of the encoded stream.
///
/// Immutable once produced: every consumer reads the same bytes.
pub struct ParsedBuffer {
    pub data: Vec<u8>,
    pub message_type: MessageType,
    /// Presentation time in nanoseconds, if any constituent buffer carried one.
    pub timestamp: Option<u64>,
}

/// Abstract value of one classified chunk: its bytes, kind, and timestamp.
pub ghost struct ChunkModel {
    pub data: Seq<u8>,
    pub kind: MessageType,
    pub timestamp: Option<u64>,
}

impl View for ParsedBuffer {
    type V = ChunkModel;

    open spec fn view(&self) -> ChunkModel {
        ChunkModel { data: self.data@, kind: self.message_type, timestamp: self.timestamp }
    }
}

} // verus!

//! Live stream session: the per-viewer state machine that decides, for each
//! chunk coming out of the distribution hub, whether it is forwarded to the
//! viewer, silently discarded, or terminates the connection.
//!
//! A fresh session first replays the bootstrap header snapshot, then waits for
//! a key frame: until the first `KeyFrame` arrives, non-key chunks are
//! discarded so the viewer always starts on a decodable boundary. A
//! `FirstFrame` in any state means the capture engine restarted and the
//! replayed header is stale: the session terminates instead of forwarding an
//! undecodable stream.
use vstd::prelude::*;

use crate::MessageType;

verus! {

/// What the transport should do with one chunk.
#[derive(Clone, Copy, Debug, PartialEq, Eq, Structural)]
pub enum SessionAction {
    /// Send the chunk's payload to the viewer.
    Forward,
    /// Drop the chunk; the viewer cannot decode it yet.
    Discard,
    /// Close the connection; the stream restarted and the session is stale.
    Terminate,
}

/// What a session does with a chunk of the given kind when a key frame has
/// (`started == true`) or has not yet been forwarded.
pub open spec fn session_action(started: bool, kind: MessageType) -> SessionAction {
    if kind == MessageType::FirstFrame {
        SessionAction::Terminate
    } else if kind == MessageType::KeyFrame || started {
        SessionAction::Forward
    } else {
        SessionAction::Discard
    }
}

/// Whether handling a chunk of the given kind starts the streaming phase.
pub open spec fn session_started_after(started: bool, kind: MessageType) -> bool {
    started || kind == MessageType::KeyFrame
}

/// Per-viewer session state: `iframe_sent` is false while the session is
/// still awaiting the first key frame, true once it is streaming.
pub struct Session {
    iframe_sent: bool,
}

impl View for Session {
    type V = bool;

    closed spec fn view(&self) -> bool {
        self.iframe_sent
    }
}

impl Session {
    /// A fresh session, right after the bootstrap header replay: awaiting a
    /// key frame.
    pub fn new() -> (r: Session)
        ensures
            !r@,
    {
        Session { iframe_sent: false }
    }

    /// Decide what to do with the next hub chunk of the given kind.
    pub fn on_chunk(&mut self, kind: MessageType) -> (r: SessionAction)
        ensures
            r == session_action(old(self)@, kind),
            final(self)@ == session_started_after(old(self)@, kind),
    {
        match kind {
            MessageType::FirstFrame => SessionAction::Terminate,
            MessageType::KeyFrame => {
                self.iframe_sent = true;
                SessionAction::Forward
            },
            _ => {
                if self.iframe_sent {
                    SessionAction::Forward
                } else {
                    SessionAction::Discard
                }
            },
        }
    }
}

/// The session state after handling a sequence of chunk kinds, starting from
/// a fresh session.
pub open spec fn session_run(kinds: Seq<MessageType>) -> bool
    decreases kinds.len(),
{
    if kinds.len() == 0 {
        false
    } else {
        session_started_after(session_run(kinds.drop_last()), kinds.last())
    }
}

/// The action taken on chunk `i` of a sequence handled by a fresh session.
pub open spec fn session_run_action(kinds: Seq<MessageType>, i: int) -> SessionAction {
    session_action(session_run(kinds.take(i)), kinds[i])
}

/// A session is streaming exactly when some key frame already arrived.
pub proof fn lemma_session_started_iff_key_frame_seen(kinds: Seq<MessageType>)
    ensures
        session_run(kinds) <==> exists|j: int|
            0 <= j < kinds.len() && kinds[j] == MessageType::KeyFrame,
    decreases kinds.len(),
{
    if kinds.len() > 0 {
        lemma_session_started_iff_key_frame_seen(kinds.drop_last());
        if session_run(kinds.drop_last()) {
            let j = choose|j: int|
                0 <= j < kinds.drop_last().len() && kinds.drop_last()[j] == MessageType::KeyFrame;
            assert(kinds[j] == MessageType::KeyFrame);
        }
        if kinds.last() == MessageType::KeyFrame {
            assert(kinds[kinds.len() - 1] == MessageType::KeyFrame);
        }
        if session_run(kinds) && !session_run(kinds.drop_last()) && kinds.last()
            != MessageType::KeyFrame {
            assert(false);
        }
        if exists|j: int| 0 <= j < kinds.len() && kinds[j] == MessageType::KeyFrame {
            let j = choose|j: int| 0 <= j < kinds.len() && kinds[j] == MessageType::KeyFrame;
            if j < kinds.len() - 1 {
                assert(kinds.drop_last()[j] == MessageType::KeyFrame);
            }
        }
    }
}

/// A newly subscribed session never forwards a non-key chunk before its first
/// `KeyFrame`: if chunk `i` is forwarded and is not itself a key frame, some
/// earlier chunk was a key frame.
pub proof fn lemma_no_forward_before_key_frame(kinds: Seq<MessageType>, i: int)
    requires
        0 <= i < kinds.len(),
        session_run_action(kinds, i) == SessionAction::Forward,
        kinds[i] != MessageType::KeyFrame,
    ensures
        exists|j: int| 0 <= j < i && kinds[j] == MessageType::KeyFrame,
{
    lemma_session_started_iff_key_frame_seen(kinds.take(i));
    assert(session_run(kinds.take(i)));
    let j = choose|j: int|
        0 <= j < kinds.take(i).len() && kinds.take(i)[j] == MessageType::KeyFrame;
    assert(kinds[j] == MessageType::KeyFrame);
}

} // verus!

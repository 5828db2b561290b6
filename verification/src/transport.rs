//! The stream transport, server side: stop-and-wait chunked delivery.
//!
//! One TCP connection delivers the left buffer then the right buffer as a
//! single unframed byte stream; both sides know the total length from the
//! fixed panel dimensions. The payload goes out in bounded chunks, and the
//! sender waits for a two-byte acknowledgment after every chunk before the
//! next may leave. The chunk size is fixed here at 500 bytes.

use vstd::prelude::*;

use crate::encode::ProccessedImage;
use crate::errors::DeliveryError;

verus! {

/// Payload bytes per chunk. Earlier revisions of the protocol wavered
/// between 500 and 1024; this implementation fixes 500.
pub const CHUNK_SIZE: usize = 500;

/// Length of an acknowledgment. Its content is unconstrained; the length
/// is the contract.
pub const ACK_LEN: usize = 2;

/// What the sender must do next.
#[derive(Copy, Clone, Debug, PartialEq, Eq, Structural)]
pub enum SendStep {
    /// Write the payload bytes in `[start, end)` to the socket.
    Send(usize, usize),
    /// Block until an acknowledgment arrives.
    WaitAck,
    /// Every byte is out and acknowledged.
    Done,
}

/// The sender's per-connection state: how much of the payload is out and
/// whether the last chunk still awaits its acknowledgment.
pub struct StreamSession {
    /// Total payload length in bytes.
    pub total: usize,
    /// Bytes already written to the socket.
    pub sent: usize,
    /// True while the last chunk's acknowledgment is outstanding.
    pub awaiting_ack: bool,
}

impl StreamSession {
    /// The state is reachable: never more than the total out, and the
    /// write position always at a chunk boundary or at the end.
    pub open spec fn wf(self) -> bool {
        &&& self.sent <= self.total
        &&& self.sent % CHUNK_SIZE == 0 || self.sent == self.total
    }

    /// Opens a session that must deliver `total` bytes.
    pub fn new(total: usize) -> (s: Self)
        ensures
            s.wf(),
            s.total == total,
            s.sent == 0,
            !s.awaiting_ack,
    {
        StreamSession { total, sent: 0, awaiting_ack: false }
    }

    /// What the sender must do next: wait while a chunk is unacknowledged,
    /// otherwise send the next chunk, or stop when all bytes are out.
    pub fn next_step(&self) -> (r: SendStep)
        requires
            self.wf(),
        ensures
            r == spec_next_step(*self),
            self.awaiting_ack ==> r == SendStep::WaitAck,
            !self.awaiting_ack && self.sent == self.total ==> r == SendStep::Done,
            !self.awaiting_ack && self.sent < self.total ==> r == SendStep::Send(
                self.sent,
                if self.sent + CHUNK_SIZE <= self.total {
                    (self.sent + CHUNK_SIZE) as usize
                } else {
                    self.total
                },
            ),
    {
        if self.awaiting_ack {
            SendStep::WaitAck
        } else if self.sent == self.total {
            SendStep::Done
        } else if self.total - self.sent >= CHUNK_SIZE {
            SendStep::Send(self.sent, self.sent + CHUNK_SIZE)
        } else {
            SendStep::Send(self.sent, self.total)
        }
    }

    /// Records that the chunk `[start, end)` named by `next_step` went out
    /// whole; from here on the session waits for its acknowledgment.
    pub fn note_sent(&mut self)
        requires
            old(self).wf(),
            !old(self).awaiting_ack,
            old(self).sent < old(self).total,
        ensures
            final (self).wf(),
            final (self).total == old(self).total,
            final (self).awaiting_ack,
            spec_next_step(*old(self)) matches SendStep::Send(start, end) && final (self).sent
                == end,
    {
        if self.total - self.sent >= CHUNK_SIZE {
            let ghost s0 = old(self).sent as int;
            self.sent = self.sent + CHUNK_SIZE;
            proof {
                assert((s0 + CHUNK_SIZE) % (CHUNK_SIZE as int) == 0) by (nonlinear_arith)
                    requires
                        s0 % (CHUNK_SIZE as int) == 0,
                ;
            }
        } else {
            self.sent = self.total;
        }
        self.awaiting_ack = true;
    }

    /// Consumes the acknowledgment read from the socket: exactly `ACK_LEN`
    /// bytes clear the wait; any other length is a protocol violation and
    /// aborts the session.
    pub fn note_ack(&mut self, n: usize) -> (r: Result<(), DeliveryError>)
        requires
            old(self).wf(),
            old(self).awaiting_ack,
        ensures
            final (self).wf(),
            final (self).total == old(self).total,
            final (self).sent == old(self).sent,
            r is Ok <==> n == ACK_LEN,
            r matches Err(e) ==> e == DeliveryError::ProtocolViolation,
            r is Ok ==> !final (self).awaiting_ack,
            r is Err ==> final (self).awaiting_ack == old(self).awaiting_ack,
    {
        if n == ACK_LEN {
            self.awaiting_ack = false;
            Ok(())
        } else {
            Err(DeliveryError::ProtocolViolation)
        }
    }
}

/// The sender's next obligation, as a function of its state.
pub open spec fn spec_next_step(s: StreamSession) -> SendStep {
    if s.awaiting_ack {
        SendStep::WaitAck
    } else if s.sent == s.total {
        SendStep::Done
    } else {
        SendStep::Send(
            s.sent,
            if s.sent + CHUNK_SIZE <= s.total {
                (s.sent + CHUNK_SIZE) as usize
            } else {
                s.total
            },
        )
    }
}

/// One observable transport event, for stating the acknowledgment
/// discipline over whole sessions.
pub enum TransportEvent {
    /// A chunk left the sender.
    ChunkSent,
    /// A well-formed acknowledgment was consumed.
    AckConsumed,
}

/// Replays a trace of events against the transition rules: a chunk may
/// leave only when no acknowledgment is outstanding, and an
/// acknowledgment may be consumed only when one is. Yields whether an
/// acknowledgment is outstanding afterwards, or nothing if the trace
/// breaks the rules.
pub open spec fn replay(t: Seq<TransportEvent>) -> Option<bool>
    decreases t.len(),
{
    if t.len() == 0 {
        Some(false)
    } else {
        match replay(t.drop_last()) {
            None => None,
            Some(awaiting) => match t.last() {
                TransportEvent::ChunkSent => if awaiting {
                    None
                } else {
                    Some(true)
                },
                TransportEvent::AckConsumed => if awaiting {
                    Some(false)
                } else {
                    None
                },
            },
        }
    }
}

/// After a chunk leaves, the acknowledgment stays outstanding until one
/// is consumed.
proof fn lemma_awaiting_persists(t: Seq<TransportEvent>, i: int, m: int)
    requires
        replay(t) is Some,
        0 <= i < m <= t.len(),
        t[i] is ChunkSent,
        forall|k: int| i < k < m ==> !(#[trigger] t[k] is AckConsumed),
    ensures
        replay(t.take(m)) == Some(true),
    decreases m,
{
    assert(replay(t.take(m)) is Some) by {
        lemma_replay_prefix(t, m);
    }
    if m == i + 1 {
        assert(t.take(m).last() == t[i]);
        assert(replay(t.take(m)) == Some(true));
    } else {
        lemma_awaiting_persists(t, i, m - 1);
        assert(t.take(m).drop_last() =~= t.take(m - 1));
        assert(t.take(m).last() == t[m - 1]);
        assert(!(t[m - 1] is AckConsumed));
        assert(replay(t.take(m)) == Some(true));
    }
}

/// A legal trace stays legal when cut short.
proof fn lemma_replay_prefix(t: Seq<TransportEvent>, m: int)
    requires
        replay(t) is Some,
        0 <= m <= t.len(),
    ensures
        replay(t.take(m)) is Some,
    decreases t.len(),
{
    if m == t.len() {
        assert(t.take(m) =~= t);
    } else {
        assert(t.drop_last().take(m) =~= t.take(m));
        lemma_replay_prefix(t.drop_last(), m);
    }
}

/// The acknowledgment discipline: in any legal session trace, chunk N+1
/// never leaves before the acknowledgment for chunk N was consumed --
/// between any two sends there is an acknowledgment.
pub proof fn lemma_ack_discipline(t: Seq<TransportEvent>, i: int, j: int)
    requires
        replay(t) is Some,
        0 <= i < j < t.len(),
        t[i] is ChunkSent,
        t[j] is ChunkSent,
    ensures
        exists|k: int| i < k < j && (#[trigger] t[k]) is AckConsumed,
{
    if forall|k: int| i < k < j ==> !(#[trigger] t[k] is AckConsumed) {
        lemma_awaiting_persists(t, i, j);
        lemma_replay_prefix(t, j + 1);
        assert(t.take(j + 1).drop_last() =~= t.take(j));
        assert(t.take(j + 1).last() == t[j]);
        assert(replay(t.take(j + 1)) is None);
        assert(false);
    }
}

/// The whole wire payload of one frame: the left buffer then the right
/// buffer, back to back, with no framing header.
pub fn frame_stream(frame: &ProccessedImage) -> (r: Vec<u8>)
    ensures
        r@ == frame.left@ + frame.right@,
{
    let mut out: Vec<u8> = Vec::new();
    let mut i: usize = 0;
    while i < frame.left.len()
        invariant
            i <= frame.left@.len(),
            out@ =~= frame.left@.take(i as int),
        decreases frame.left@.len() - i,
    {
        out.push(frame.left[i]);
        i = i + 1;
    }
    let mut j: usize = 0;
    while j < frame.right.len()
        invariant
            j <= frame.right@.len(),
            out@ =~= frame.left@ + frame.right@.take(j as int),
        decreases frame.right@.len() - j,
    {
        out.push(frame.right[j]);
        j = j + 1;
    }
    proof {
        assert(out@ =~= frame.left@ + frame.right@);
    }
    out
}

} // verus!

//! The stream transport, device side: boundary detection and routing.
//!
//! The device consumes a byte stream whose chunk boundaries it does not
//! control; it only knows the total length and the half-point at which
//! pixel data crosses from the left controller to the right one. Each
//! incoming chunk is routed by comparing the cumulative byte count with
//! the half-point: wholly before (or already past), ending exactly on it,
//! or straddling it.

use vstd::prelude::*;

use crate::epd::{spec_cs_both, spec_data_run, spec_select_ops, spec_turn_on_ops, DriverOp,
    DriverPhase, EPD13in3e};
use crate::errors::DeliveryError;

verus! {

/// Which half-panel controller bytes are currently directed to.
#[derive(Copy, Clone, Debug, PartialEq, Eq, Structural)]
pub enum Panel {
    /// The left half-panel's controller.
    Left,
    /// The right half-panel's controller.
    Right,
}

/// How one incoming chunk must be routed.
#[derive(Copy, Clone, Debug, PartialEq, Eq, Structural)]
pub enum ChunkRouting {
    /// The whole chunk belongs to the current panel.
    AllToCurrent,
    /// The whole chunk belongs to the current panel, and it ends exactly
    /// on the half-point: the next chunk starts on the other panel.
    CurrentThenSwitch,
    /// The chunk straddles the half-point: its first so-many bytes belong
    /// to the current panel, the rest to the other one.
    SplitAt(usize),
}

/// Routes a chunk of `len` bytes arriving when `received` bytes are
/// already in, against the half-point `half`: the three boundary cases.
pub fn route_chunk(received: usize, half: usize, len: usize) -> (r: ChunkRouting)
    requires
        len >= 1,
        half <= usize::MAX / 2,
        received + len <= 2 * half,
    ensures
        received + len < half || received >= half ==> r == ChunkRouting::AllToCurrent,
        received < half && received + len == half ==> r == ChunkRouting::CurrentThenSwitch,
        received < half && half < received + len ==> r == ChunkRouting::SplitAt(
            (half - received) as usize,
        ),
{
    if received >= half {
        ChunkRouting::AllToCurrent
    } else if received + len < half {
        ChunkRouting::AllToCurrent
    } else if received + len == half {
        ChunkRouting::CurrentThenSwitch
    } else {
        ChunkRouting::SplitAt(half - received)
    }
}

/// The device-side view of one frame delivery: how many bytes are in,
/// which panel is selected, and the bytes routed to each panel so far.
pub struct StreamReassembler {
    /// The half-point: the left panel's byte count; the total is twice
    /// this.
    pub half: usize,
    /// Bytes consumed so far.
    pub received: usize,
    /// The panel bytes are currently directed to.
    pub current: Panel,
    /// Bytes routed to the left controller so far.
    pub left: Vec<u8>,
    /// Bytes routed to the right controller so far.
    pub right: Vec<u8>,
}

/// Everything routed so far, in arrival order.
pub open spec fn consumed(s: StreamReassembler) -> Seq<u8> {
    s.left@ + s.right@
}

impl StreamReassembler {
    /// The reassembler's invariant: the left buffer is the stream prefix
    /// up to the half-point, the right buffer the rest, and the selected
    /// panel switches exactly when the half-point is reached.
    pub open spec fn wf(self) -> bool {
        &&& self.half >= 1
        &&& self.half <= usize::MAX / 2
        &&& self.received <= 2 * self.half
        &&& self.received == self.left@.len() + self.right@.len()
        &&& self.left@.len() == if self.received < self.half {
            self.received as int
        } else {
            self.half as int
        }
        &&& (self.current is Left <==> self.received < self.half)
    }

    /// All bytes are in.
    pub open spec fn complete(self) -> bool {
        self.received == 2 * self.half
    }

    /// Starts an empty reassembly for a frame whose halves are `half`
    /// bytes each.
    pub fn new(half: usize) -> (s: Self)
        requires
            half >= 1,
            half <= usize::MAX / 2,
        ensures
            s.wf(),
            s.half == half,
            s.received == 0,
            s.current is Left,
            consumed(s) == Seq::<u8>::empty(),
    {
        let s = StreamReassembler {
            half,
            received: 0,
            current: Panel::Left,
            left: Vec::new(),
            right: Vec::new(),
        };
        proof {
            assert(consumed(s) =~= Seq::<u8>::empty());
        }
        s
    }

    /// Consumes one incoming chunk, routing it by the three boundary
    /// cases; afterwards everything consumed so far is, in order, exactly
    /// what arrived.
    pub fn consume(&mut self, chunk: &Vec<u8>)
        requires
            old(self).wf(),
            chunk@.len() >= 1,
            old(self).received + chunk@.len() <= 2 * old(self).half,
        ensures
            final (self).wf(),
            final (self).half == old(self).half,
            final (self).received == old(self).received + chunk@.len(),
            consumed(*final (self)) == consumed(*old(self)) + chunk@,
    {
        let routing = route_chunk(self.received, self.half, chunk.len());
        match routing {
            ChunkRouting::AllToCurrent => {
                match self.current {
                    Panel::Left => {
                        append_range(&mut self.left, chunk, 0, chunk.len());
                        proof {
                            assert(old(self).right@.len() == 0);
                            assert(consumed(*self) =~= consumed(*old(self)) + chunk@);
                        }
                    },
                    Panel::Right => {
                        append_range(&mut self.right, chunk, 0, chunk.len());
                        proof {
                            assert(consumed(*self) =~= consumed(*old(self)) + chunk@);
                        }
                    },
                }
            },
            ChunkRouting::CurrentThenSwitch => {
                append_range(&mut self.left, chunk, 0, chunk.len());
                self.current = Panel::Right;
                proof {
                    assert(old(self).right@.len() == 0);
                    assert(consumed(*self) =~= consumed(*old(self)) + chunk@);
                }
            },
            ChunkRouting::SplitAt(k) => {
                append_range(&mut self.left, chunk, 0, k);
                self.current = Panel::Right;
                append_range(&mut self.right, chunk, k, chunk.len());
                proof {
                    assert(old(self).right@.len() == 0);
                    assert(chunk@.subrange(0, k as int) + chunk@.subrange(
                        k as int, chunk@.len() as int,
                    ) =~= chunk@);
                    assert(consumed(*self) =~= consumed(*old(self)) + chunk@);
                }
            },
        }
        self.received = self.received + chunk.len();
    }

    /// One protocol step of the device loop: a read of `chunk` while the
    /// frame is incomplete. A zero-length read is a premature end of
    /// stream, and more bytes than the frame has left is an overrun; both
    /// violate the protocol and abort. Otherwise the chunk is consumed
    /// and exactly one acknowledgment is owed, completing the frame when
    /// the total is reached.
    pub fn on_read(&mut self, chunk: &Vec<u8>) -> (r: Result<DeviceAction, DeliveryError>)
        requires
            old(self).wf(),
            !old(self).complete(),
        ensures
            final (self).wf(),
            final (self).half == old(self).half,
            chunk@.len() == 0 ==> r == Result::<DeviceAction, DeliveryError>::Err(
                DeliveryError::ProtocolViolation,
            ),
            old(self).received + chunk@.len() > 2 * old(self).half ==> r
                == Result::<DeviceAction, DeliveryError>::Err(DeliveryError::ProtocolViolation),
            r is Err ==> *final (self) == *old(self),
            r is Ok <==> 1 <= chunk@.len() && old(self).received + chunk@.len() <= 2 * old(
                self,
            ).half,
            r is Ok ==> {
                &&& final (self).received == old(self).received + chunk@.len()
                &&& consumed(*final (self)) == consumed(*old(self)) + chunk@
            },
            r matches Ok(a) ==> (a is AckThenComplete <==> final (self).complete()),
    {
        if chunk.len() == 0 {
            return Err(DeliveryError::ProtocolViolation);
        }
        if chunk.len() > 2 * self.half - self.received {
            return Err(DeliveryError::ProtocolViolation);
        }
        self.consume(chunk);
        if self.received == 2 * self.half {
            Ok(DeviceAction::AckThenComplete)
        } else {
            Ok(DeviceAction::Ack)
        }
    }
}

/// How the device is operated.
#[derive(Copy, Clone, Debug, PartialEq, Eq, Structural)]
pub enum OperatingMode {
    /// Mains-powered: loop back and await the next frame.
    Continuous,
    /// Battery-powered: sleep between scheduled wakes.
    Battery,
}

/// What the device does when a delivery session ends, well or badly.
#[derive(Copy, Clone, Debug, PartialEq, Eq, Structural)]
pub enum SessionOutcomeAction {
    /// Close the socket and retry the whole connection; a retried
    /// session starts the frame over from byte zero.
    RetryConnection,
    /// Enter deep sleep until the next scheduled wake.
    DeepSleep,
}

/// Decides what follows an aborted or finished session: a continuously
/// powered frame goes back to waiting for the next delivery, a
/// battery-powered one sleeps until its scheduled wake. There is no
/// partial-frame recovery in either mode.
pub fn session_outcome_action(mode: OperatingMode) -> (a: SessionOutcomeAction)
    ensures
        a is RetryConnection <==> mode is Continuous,
        a is DeepSleep <==> mode is Battery,
{
    match mode {
        OperatingMode::Continuous => SessionOutcomeAction::RetryConnection,
        OperatingMode::Battery => SessionOutcomeAction::DeepSleep,
    }
}

/// What the device owes after a successful read.
#[derive(Copy, Clone, Debug, PartialEq, Eq, Structural)]
pub enum DeviceAction {
    /// Send one acknowledgment, then read again.
    Ack,
    /// Send one acknowledgment; the frame is complete.
    AckThenComplete,
}

/// The driver operations that forwarding one chunk produces, by the
/// three boundary cases: the bytes for the current controller; or all
/// bytes then the switch to the right controller; or the prefix up to
/// the half-point, the switch, and the remainder to the new controller.
pub open spec fn spec_feed_ops(received: int, half: int, chunk: Seq<u8>) -> Seq<DriverOp> {
    if received + chunk.len() < half || received >= half {
        spec_data_run(chunk)
    } else if received + chunk.len() == half {
        spec_data_run(chunk) + spec_select_ops(false)
    } else {
        let k = half - received;
        spec_data_run(chunk.take(k)) + spec_select_ops(false) + spec_data_run(chunk.skip(k))
    }
}

/// A frame delivery running directly against the display driver: the
/// incoming byte stream is forwarded verbatim, and the moment the
/// cumulative count crosses the half-point the load switches to the
/// right controller, reissuing its data-transfer command first.
pub struct PanelStream {
    /// The driver being loaded.
    pub epd: EPD13in3e,
    /// Bytes forwarded so far.
    pub received: usize,
    /// The half-point: the left controller's byte count.
    pub half: usize,
}

impl PanelStream {
    /// The load's invariant: the selected controller is determined by
    /// how many bytes are in -- the left one strictly before the
    /// half-point, the right one from there on.
    pub open spec fn wf(self) -> bool {
        &&& self.half >= 1
        &&& self.half <= usize::MAX / 2
        &&& self.received <= 2 * self.half
        &&& self.epd.wf()
        &&& self.epd.phase == (if self.received < self.half {
            DriverPhase::LoadingLeft
        } else {
            DriverPhase::LoadingRight
        })
    }

    /// All bytes are in.
    pub open spec fn complete(self) -> bool {
        self.received == 2 * self.half
    }

    /// Starts a load on an initialized driver: the left controller is
    /// selected and given its data-transfer command.
    pub fn begin(mut epd: EPD13in3e, half: usize) -> (s: Self)
        requires
            epd.phase is Idle,
            half >= 1,
            half <= usize::MAX / 2,
        ensures
            s.wf(),
            s.half == half,
            s.received == 0,
            s.epd.ops@ == epd.ops@ + spec_select_ops(true),
    {
        epd.set_left_panel();
        PanelStream { epd, received: 0, half }
    }

    /// One protocol step of the device loop: a read of `chunk` while the
    /// frame is incomplete. A zero-length read is a premature end of
    /// stream, an overrun a protocol violation; both abort and leave the
    /// driver untouched. Otherwise the chunk is forwarded by the three
    /// boundary cases and exactly one acknowledgment is owed.
    pub fn on_read(&mut self, chunk: &Vec<u8>) -> (r: Result<DeviceAction, DeliveryError>)
        requires
            old(self).wf(),
            !old(self).complete(),
        ensures
            final (self).wf(),
            final (self).half == old(self).half,
            chunk@.len() == 0 ==> r == Result::<DeviceAction, DeliveryError>::Err(
                DeliveryError::ProtocolViolation,
            ),
            old(self).received + chunk@.len() > 2 * old(self).half ==> r
                == Result::<DeviceAction, DeliveryError>::Err(DeliveryError::ProtocolViolation),
            r is Err ==> *final (self) == *old(self),
            r is Ok <==> 1 <= chunk@.len() && old(self).received + chunk@.len() <= 2 * old(
                self,
            ).half,
            r is Ok ==> {
                &&& final (self).received == old(self).received + chunk@.len()
                &&& final (self).epd.ops@ == old(self).epd.ops@ + spec_feed_ops(
                    old(self).received as int, old(self).half as int, chunk@,
                )
            },
            r matches Ok(a) ==> (a is AckThenComplete <==> final (self).complete()),
    {
        if chunk.len() == 0 {
            return Err(DeliveryError::ProtocolViolation);
        }
        if chunk.len() > 2 * self.half - self.received {
            return Err(DeliveryError::ProtocolViolation);
        }
        let routing = route_chunk(self.received, self.half, chunk.len());
        match routing {
            ChunkRouting::AllToCurrent => {
                self.epd.send_data_bytes(chunk);
            },
            ChunkRouting::CurrentThenSwitch => {
                self.epd.send_data_bytes(chunk);
                self.epd.set_right_panel();
            },
            ChunkRouting::SplitAt(k) => {
                let head = take_range(chunk, 0, k);
                let tail = take_range(chunk, k, chunk.len());
                self.epd.send_data_bytes(&head);
                self.epd.set_right_panel();
                self.epd.send_data_bytes(&tail);
                proof {
                    assert(chunk@.take(k as int) == head@);
                    assert(chunk@.skip(k as int) == tail@);
                }
            },
        }
        self.received = self.received + chunk.len();
        if self.received == 2 * self.half {
            Ok(DeviceAction::AckThenComplete)
        } else {
            Ok(DeviceAction::Ack)
        }
    }

    /// Ends a completed load and refreshes the display: both controllers
    /// are deselected, then the refresh sequence runs -- so the refresh
    /// happens only after full frame receipt.
    pub fn finish(self) -> (epd: EPD13in3e)
        requires
            self.wf(),
            self.complete(),
        ensures
            epd.wf(),
            epd.phase is Idle,
            epd.ops@ == self.epd.ops@ + spec_cs_both(true) + spec_turn_on_ops(),
    {
        let PanelStream { mut epd, received: _, half: _ } = self;
        epd.end_load();
        epd.turn_on_display();
        proof {
            assert(epd.ops@ =~= self.epd.ops@ + spec_cs_both(true) + spec_turn_on_ops());
        }
        epd
    }
}

/// Copies bytes `[from, to)` of `src` into a fresh buffer.
fn take_range(src: &Vec<u8>, from: usize, to: usize) -> (r: Vec<u8>)
    requires
        from <= to,
        to <= src@.len(),
    ensures
        r@ == src@.subrange(from as int, to as int),
{
    let mut r: Vec<u8> = Vec::new();
    append_range(&mut r, src, from, to);
    proof {
        assert(r@ =~= src@.subrange(from as int, to as int));
    }
    r
}

/// Appends bytes `[from, to)` of `src` to `dst`.
fn append_range(dst: &mut Vec<u8>, src: &Vec<u8>, from: usize, to: usize)
    requires
        from <= to,
        to <= src@.len(),
    ensures
        final (dst)@ == old(dst)@ + src@.subrange(from as int, to as int),
{
    let mut i: usize = from;
    while i < to
        invariant
            from <= i <= to,
            to <= src@.len(),
            dst@ =~= old(dst)@ + src@.subrange(from as int, i as int),
        decreases to - i,
    {
        dst.push(src[i]);
        proof {
            assert(src@.subrange(from as int, i + 1) =~= src@.subrange(from as int, i as int)
                + seq![src@[i as int]]);
        }
        i = i + 1;
    }
    proof {
        assert(dst@ =~= old(dst)@ + src@.subrange(from as int, to as int));
    }
}

/// Boundary-crossing reconstruction: once a delivery is complete, the two
/// reassembled buffers are byte-identical to the two halves of the
/// original stream -- whatever chunk sizes and alignments carried it.
pub proof fn lemma_boundary_reconstruction(s: StreamReassembler, stream: Seq<u8>)
    requires
        s.wf(),
        s.complete(),
        consumed(s) == stream,
    ensures
        s.left@ == stream.take(s.half as int),
        s.right@ == stream.skip(s.half as int),
{
    assert(s.left@.len() == s.half);
    assert(s.left@ =~= stream.take(s.half as int));
    assert(s.right@ =~= stream.skip(s.half as int));
}

} // verus!

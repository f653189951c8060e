//! The bridge loop's decisions.
//!
//! The send path is a state machine over "no pending batch" and "batch
//! pending, timer armed": every observed event — a frame read, the
//! force-flush timer firing, a failed read — maps to at most one batch to
//! send and an instruction for the timer. The receive path reduces one
//! inbound datagram to the frames to replay onto the CAN sink, after
//! self-loop suppression and the version gate. The caller performs the
//! waiting, sending and timing around these decisions.

use vstd::prelude::*;

use crate::codec::{encoded_size, spec_encoded_size};
use crate::endpoint::SocketAddress;
use crate::frame::{frame_views, CanFrame, FrameView};
use crate::proto::{
    all_wf, batch_bytes, drain_frames, spec_batch_size, spec_try_read, wrap_inc, Finalizer,
    MessageReader, MessageSerializer, IMPLEMENTED_VERSION, OPCODE_DATA,
};

verus! {

/// Ceiling on one datagram payload: common path MTU minus the IP and UDP
/// headers, so a batch is never fragmented.
pub const UDP_NO_FRAGMENT_MAX_PAYLOAD_SIZE: usize = 508;

/// The batch would outgrow the no-fragmentation budget if a frame of the
/// given encoded size were appended to it.
pub open spec fn spec_over_budget(current: int, addition: int) -> bool {
    current + addition > UDP_NO_FRAGMENT_MAX_PAYLOAD_SIZE
}

/// The budget check of the send path, free of overflow for any inputs.
pub fn over_budget(current: usize, addition: usize) -> (r: bool)
    ensures
        r == spec_over_budget(current as int, addition as int),
{
    current > UDP_NO_FRAGMENT_MAX_PAYLOAD_SIZE || addition > UDP_NO_FRAGMENT_MAX_PAYLOAD_SIZE
        - current
}

/// What the send path observed while waiting.
pub enum SendEvent {
    /// One frame was read from the CAN bus.
    FrameRead(CanFrame),
    /// The force-flush timer fired.
    TimerFired,
    /// A CAN read failed: a recoverable gap, nothing is pushed and the
    /// batch and timer stand as they were.
    ReadFailed,
}

/// What the caller must do with its force-flush timer after a step.
#[derive(Clone, Copy, Debug, PartialEq, Eq, Structural)]
pub enum TimerCommand {
    /// Arm a fresh timer.
    Arm,
    /// Leave the timer as it stands.
    Keep,
    /// Disarm the timer.
    Disarm,
}

/// The outcome of one send-path step: at most one finalized batch to send
/// as a datagram, and the instruction for the force-flush timer.
pub struct SendStep {
    /// A batch to send, if this step flushed one.
    pub datagram: Option<Finalizer>,
    /// What to do with the force-flush timer.
    pub timer: TimerCommand,
}

/// The send path of the bridge: the batching encoder together with the
/// byte-budget-or-timer flush policy.
pub struct BridgeSender {
    serializer: MessageSerializer,
    timer_armed: bool,
}

impl BridgeSender {
    /// The frames of the in-progress batch, in order.
    pub closed spec fn batch(self) -> Seq<FrameView> {
        self.serializer.frames_view()
    }

    /// The sequence number the next flushed batch will carry.
    pub closed spec fn seqno(self) -> u8 {
        self.serializer.seqno()
    }

    /// Whether a force-flush timer is armed.
    pub closed spec fn armed(self) -> bool {
        self.timer_armed
    }

    /// The in-progress batch always fits the datagram budget, and a timer
    /// is armed exactly while the batch is non-empty.
    pub closed spec fn wf(self) -> bool {
        &&& self.serializer.wf()
        &&& spec_batch_size(self.serializer.frames_view()) <= UDP_NO_FRAGMENT_MAX_PAYLOAD_SIZE
        &&& self.timer_armed <==> self.serializer.frames_view().len() > 0
    }

    /// A fresh send path: empty batch, sequence number zero, no timer.
    pub fn new() -> (r: BridgeSender)
        ensures
            r.wf(),
            r.batch() == Seq::<FrameView>::empty(),
            r.seqno() == 0,
            !r.armed(),
    {
        let serializer = MessageSerializer::new();
        proof {
            assert(spec_batch_size(Seq::<FrameView>::empty()) == 5);
        }
        BridgeSender { serializer, timer_armed: false }
    }

    /// One step of the send path.
    ///
    /// A frame that would outgrow the budget flushes the pending batch
    /// first and then starts a fresh batch — and a fresh timer — with that
    /// frame; one that fits is simply appended, arming a timer if none
    /// ran. The timer firing flushes the pending batch, non-empty by
    /// construction, and disarms. A failed read changes nothing. No batch
    /// this step hands out ever exceeds the datagram budget.
    pub fn on_event(&mut self, event: SendEvent) -> (r: SendStep)
        requires
            old(self).wf(),
            event matches SendEvent::FrameRead(f) ==> f@.wf(),
            event is TimerFired ==> old(self).armed(),
        ensures
            final(self).wf(),
            r.datagram matches Some(fin) ==> fin@.len() <= UDP_NO_FRAGMENT_MAX_PAYLOAD_SIZE,
            match event {
                SendEvent::FrameRead(f) => {
                    let cur = spec_batch_size(old(self).batch());
                    let sz = spec_encoded_size(f@);
                    &&& final(self).armed()
                    &&& spec_over_budget(cur, sz) ==> (r.datagram matches Some(fin) && fin@
                        == batch_bytes(old(self).seqno(), old(self).batch()) && final(self).batch()
                        == seq![f@] && final(self).seqno() == wrap_inc(old(self).seqno())
                        && r.timer == TimerCommand::Arm)
                    &&& !spec_over_budget(cur, sz) ==> (r.datagram is None && final(self).batch()
                        == old(self).batch().push(f@) && final(self).seqno() == old(self).seqno()
                        && r.timer == (if old(self).armed() {
                        TimerCommand::Keep
                    } else {
                        TimerCommand::Arm
                    }))
                },
                SendEvent::TimerFired => {
                    &&& old(self).batch().len() > 0
                    &&& r.datagram matches Some(fin) && fin@ == batch_bytes(
                        old(self).seqno(),
                        old(self).batch(),
                    )
                    &&& final(self).batch() == Seq::<FrameView>::empty()
                    &&& final(self).seqno() == wrap_inc(old(self).seqno())
                    &&& r.timer == TimerCommand::Disarm && !final(self).armed()
                },
                SendEvent::ReadFailed => {
                    &&& r.datagram is None && r.timer == TimerCommand::Keep
                    &&& final(self).batch() == old(self).batch()
                    &&& final(self).seqno() == old(self).seqno()
                    &&& final(self).armed() == old(self).armed()
                },
            },
    {
        match event {
            SendEvent::FrameRead(f) => {
                proof {
                    crate::proto::lemma_encode_frames_lower_bound(self.serializer.frames_view());
                    assert(spec_encoded_size(f@) <= 70);
                }
                let sz = encoded_size(&f);
                let cur = self.serializer.len();
                let mut datagram: Option<Finalizer> = None;
                let mut timer = if self.timer_armed {
                    TimerCommand::Keep
                } else {
                    TimerCommand::Arm
                };
                if over_budget(cur, sz) {
                    datagram = Some(self.serializer.finalize());
                    timer = TimerCommand::Arm;
                }
                proof {
                    crate::proto::lemma_encode_frames_push(self.serializer.frames_view(), f@);
                    crate::codec::lemma_frame_round_trip(f@, Seq::empty());
                }
                self.serializer.push_frame(f);
                self.timer_armed = true;
                SendStep { datagram, timer }
            },
            SendEvent::TimerFired => {
                let fin = self.serializer.finalize();
                self.timer_armed = false;
                SendStep { datagram: Some(fin), timer: TimerCommand::Disarm }
            },
            SendEvent::ReadFailed => SendStep { datagram: None, timer: TimerCommand::Keep },
        }
    }
}

/// What the receive path replays from one datagram: nothing when the
/// sender address equals this endpoint's own send address (self-loop
/// suppression for multicast) or when the header's version or opcode does
/// not match; otherwise every frame that decodes before the first
/// corruption, up to the declared count.
pub open spec fn spec_replay(b: Seq<u8>, peer: SocketAddress, local: SocketAddress) -> Seq<
    FrameView,
> {
    if peer == local {
        Seq::empty()
    } else {
        match spec_try_read(b) {
            Ok(Some((s, c))) => drain_frames(b.skip(5), c as nat),
            _ => Seq::empty(),
        }
    }
}

/// The receive path's handling of one inbound datagram: the frames to
/// replay onto the CAN sink, in order.
pub fn frames_to_replay(datagram: Vec<u8>, peer: SocketAddress, local: SocketAddress) -> (r: Vec<
    CanFrame,
>)
    ensures
        frame_views(r@) == spec_replay(datagram@, peer, local),
        forall|i: int| 0 <= i < r@.len() ==> (#[trigger] r@[i])@.wf(),
        peer == local ==> r@.len() == 0,
        datagram@.len() >= 2 && (datagram@[0] != IMPLEMENTED_VERSION || datagram@[1]
            != OPCODE_DATA) ==> r@.len() == 0,
{
    proof {
        assert(frame_views(Seq::<CanFrame>::empty()) =~= Seq::<FrameView>::empty());
    }
    if peer == local {
        return Vec::new();
    }
    match MessageReader::try_read(datagram) {
        Ok(Some(rd)) => rd.into_frames(),
        _ => Vec::new(),
    }
}

} // verus!

//! The batch message: one datagram payload packing several encoded frames.
//!
//! A batch is a fixed 5-byte header — protocol version, opcode, a wrapping
//! 8-bit sequence number, and a big-endian 16-bit frame count — followed by
//! that many encoded frames back to back. `MessageSerializer` accumulates
//! frames into one in-progress batch, `MessageReader` walks the frames of a
//! received batch and stops at the first corruption.

use vstd::prelude::*;

use crate::codec::{
    decode_frame, encode_frame_into, spec_decode, spec_encode, spec_encoded_size, spec_u16_be,
    spec_u16_from_be, u16_from_be, DecodeError,
};
use crate::frame::{frame_views, CanFrame, FrameView};

verus! {

/// Protocol version implemented by this crate.
pub const IMPLEMENTED_VERSION: u8 = 2;

/// Opcode of a data batch, the only opcode implemented.
pub const OPCODE_DATA: u8 = 0;

/// The 5-byte batch header with the given sequence number and frame count.
pub open spec fn spec_header(seqno: u8, count: u16) -> Seq<u8> {
    seq![IMPLEMENTED_VERSION, OPCODE_DATA, seqno] + spec_u16_be(count)
}

/// The encodings of a sequence of frames, back to back.
pub open spec fn encode_frames(frames: Seq<FrameView>) -> Seq<u8>
    decreases frames.len(),
{
    if frames.len() == 0 {
        Seq::empty()
    } else {
        spec_encode(frames[0]) + encode_frames(frames.drop_first())
    }
}

/// The complete wire form of a finalized batch.
pub open spec fn batch_bytes(seqno: u8, frames: Seq<FrameView>) -> Seq<u8> {
    spec_header(seqno, frames.len() as u16) + encode_frames(frames)
}

/// Byte size of a batch holding these frames: header plus every encoding.
pub open spec fn spec_batch_size(frames: Seq<FrameView>) -> int {
    5 + encode_frames(frames).len() as int
}

/// An 8-bit sequence number incremented by one, wrapping past 255 to 0.
pub open spec fn wrap_inc(seqno: u8) -> u8 {
    if seqno == 255 {
        0
    } else {
        (seqno + 1) as u8
    }
}

/// The sequence number after `n` increments from zero.
pub open spec fn iter_wrap_inc(n: nat) -> u8
    decreases n,
{
    if n == 0 {
        0
    } else {
        wrap_inc(iter_wrap_inc((n - 1) as nat))
    }
}

/// A fresh encoder starts at sequence number zero and every finalize (or
/// reset) applies `wrap_inc` once, so after `n` of them the sequence
/// counter equals `n` modulo 256.
pub proof fn lemma_sequence_counter(n: nat)
    ensures
        iter_wrap_inc(n) == n % 256,
    decreases n,
{
    if n > 0 {
        lemma_sequence_counter((n - 1) as nat);
        assert(n % 256 == ((n - 1) % 256 + 1) % 256) by (nonlinear_arith);
        if (n - 1) % 256 == 255 {
            assert((255int + 1) % 256 == 0);
        } else {
            assert(((n - 1) % 256 + 1) % 256 == (n - 1) % 256 + 1);
        }
    }
}

/// Every frame of the sequence is well formed.
pub open spec fn all_wf(frames: Seq<FrameView>) -> bool {
    forall|i: int| 0 <= i < frames.len() ==> (#[trigger] frames[i]).wf()
}

/// Reading the batch header: the sequence number and frame count when the
/// version and opcode match, `None` when they do not, an error when fewer
/// bytes remain than the check needs.
pub open spec fn spec_try_read(b: Seq<u8>) -> Result<Option<(u8, u16)>, DecodeError> {
    if b.len() < 2 {
        Err(DecodeError::TruncatedInput)
    } else if b[0] != IMPLEMENTED_VERSION || b[1] != OPCODE_DATA {
        Ok(None)
    } else if b.len() < 5 {
        Err(DecodeError::TruncatedInput)
    } else {
        Ok(Some((b[2], spec_u16_from_be(b[3], b[4]))))
    }
}

/// The frames obtained by decoding up to `count` frames from the front of
/// `b`, stopping early at the first decode failure.
pub open spec fn drain_frames(b: Seq<u8>, count: nat) -> Seq<FrameView>
    decreases count,
{
    if count == 0 {
        Seq::empty()
    } else {
        match spec_decode(b) {
            Ok((f, n)) => seq![f] + drain_frames(b.skip(n), (count - 1) as nat),
            Err(_) => Seq::empty(),
        }
    }
}

/// Appending one frame appends exactly its encoding.
pub(crate) proof fn lemma_encode_frames_push(frames: Seq<FrameView>, f: FrameView)
    ensures
        encode_frames(frames.push(f)) == encode_frames(frames) + spec_encode(f),
    decreases frames.len(),
{
    if frames.len() == 0 {
        let p = frames.push(f);
        assert(p[0] == f);
        assert(p.drop_first() =~= Seq::<FrameView>::empty());
        assert(encode_frames(Seq::<FrameView>::empty()) == Seq::<u8>::empty());
        assert(encode_frames(p) =~= spec_encode(f) + Seq::<u8>::empty());
        assert(encode_frames(frames) == Seq::<u8>::empty());
        assert(encode_frames(p) =~= encode_frames(frames) + spec_encode(f));
    } else {
        assert(frames.push(f).drop_first() =~= frames.drop_first().push(f));
        lemma_encode_frames_push(frames.drop_first(), f);
        assert(encode_frames(frames.push(f)) =~= encode_frames(frames) + spec_encode(f));
    }
}

/// Every frame occupies at least five bytes on the wire, so a batch of `n`
/// frames occupies at least `5 * n` bytes beyond the header.
pub(crate) proof fn lemma_encode_frames_lower_bound(frames: Seq<FrameView>)
    ensures
        encode_frames(frames).len() >= 5 * frames.len(),
    decreases frames.len(),
{
    if frames.len() > 0 {
        lemma_encode_frames_lower_bound(frames.drop_first());
    }
}

/// Decoding from the encodings of well-formed frames gives the frames back
/// in order: all of them when at least their number is asked for, the
/// first `count` when fewer are.
pub proof fn lemma_drain_encoded(frames: Seq<FrameView>, count: nat)
    requires
        all_wf(frames),
    ensures
        count <= frames.len() ==> drain_frames(encode_frames(frames), count) == frames.take(
            count as int,
        ),
        count > frames.len() ==> drain_frames(encode_frames(frames), count) == frames,
    decreases count,
{
    if count == 0 {
        assert(frames.take(0) =~= Seq::<FrameView>::empty());
    } else if frames.len() == 0 {
        assert(encode_frames(frames).len() < 5);
    } else {
        let f = frames[0];
        let rest = frames.drop_first();
        assert(f.wf());
        assert(all_wf(rest)) by {
            assert(forall|i: int|
                0 <= i < rest.len() ==> (#[trigger] rest[i]) == frames[i + 1]);
        }
        crate::codec::lemma_frame_round_trip(f, encode_frames(rest));
        let b = encode_frames(frames);
        assert(b =~= spec_encode(f) + encode_frames(rest));
        assert(b.skip(spec_encoded_size(f)) =~= encode_frames(rest));
        lemma_drain_encoded(rest, (count - 1) as nat);
        if count <= frames.len() {
            assert(frames.take(count as int) =~= seq![f] + rest.take(count - 1));
        } else {
            assert(frames =~= seq![f] + rest);
        }
    }
}

/// Header invariant of the batch format: a finalized batch carries the
/// version, the opcode, the sequence number the encoder held before
/// finalizing, and a frame count equal to the number of frames pushed
/// since the last reset; and draining it gives back exactly those frames.
pub proof fn lemma_header_invariant(seqno: u8, frames: Seq<FrameView>)
    requires
        all_wf(frames),
        frames.len() <= u16::MAX,
    ensures
        spec_try_read(batch_bytes(seqno, frames)) == Ok::<Option<(u8, u16)>, DecodeError>(
            Some((seqno, frames.len() as u16)),
        ),
        drain_frames(batch_bytes(seqno, frames).skip(5), frames.len() as nat) == frames,
{
    let b = batch_bytes(seqno, frames);
    let count = frames.len() as u16;
    crate::codec::lemma_u16_be_inverse(count);
    assert(b[0] == IMPLEMENTED_VERSION && b[1] == OPCODE_DATA && b[2] == seqno);
    assert(b[3] == (count >> 8) as u8 && b[4] == count as u8);
    assert(b.skip(5) =~= encode_frames(frames));
    lemma_drain_encoded(frames, frames.len() as nat);
}

/// Corruption containment: a batch message that declares its full frame
/// count but is truncated to hold only the encodings of the first `k`
/// frames still reads as a valid header, and draining it yields exactly
/// those `k` frames — no error and nothing beyond them.
pub proof fn lemma_corruption_containment(seqno: u8, frames: Seq<FrameView>, k: int)
    requires
        all_wf(frames),
        frames.len() <= u16::MAX,
        0 <= k <= frames.len(),
    ensures
        ({
            let truncated = spec_header(seqno, frames.len() as u16) + encode_frames(
                frames.take(k),
            );
            &&& spec_try_read(truncated) == Ok::<Option<(u8, u16)>, DecodeError>(
                Some((seqno, frames.len() as u16)),
            )
            &&& drain_frames(truncated.skip(5), frames.len() as nat) == frames.take(k)
        }),
{
    let truncated = spec_header(seqno, frames.len() as u16) + encode_frames(frames.take(k));
    let count = frames.len() as u16;
    crate::codec::lemma_u16_be_inverse(count);
    assert(truncated[0] == IMPLEMENTED_VERSION && truncated[1] == OPCODE_DATA && truncated[2]
        == seqno);
    assert(truncated[3] == (count >> 8) as u8 && truncated[4] == count as u8);
    assert(truncated.skip(5) =~= encode_frames(frames.take(k)));
    assert(all_wf(frames.take(k))) by {
        assert(forall|i: int|
            0 <= i < k ==> (#[trigger] frames.take(k)[i]) == frames[i]);
    }
    lemma_drain_encoded(frames.take(k), frames.len() as nat);
    if frames.len() as nat <= frames.take(k).len() {
        assert(frames.take(k) =~= frames.take(k).take(frames.len() as int));
    }
}

/// Accumulates frames into one in-progress batch buffer.
///
/// The buffer always starts with a header whose count field is a
/// placeholder; `finalize` patches the true count in, hands the completed
/// buffer out, and resets the encoder for the next batch, advancing the
/// wrapping sequence number.
pub struct MessageSerializer {
    sequence_number: u8,
    frames: Vec<u8>,
    count: u16,
    pushed: Ghost<Seq<FrameView>>,
}

/// A finalized batch: an owned, immutable snapshot of one complete wire
/// message, ready to be sent as a single datagram payload.
pub struct Finalizer {
    bytes: Vec<u8>,
}

impl View for Finalizer {
    type V = Seq<u8>;

    closed spec fn view(&self) -> Seq<u8> {
        self.bytes@
    }
}

impl Finalizer {
    /// The bytes of the finalized batch.
    pub fn data(&self) -> (r: &[u8])
        ensures
            r@ == self@,
    {
        self.bytes.as_slice()
    }
}

impl MessageSerializer {
    /// The frames pushed since the last reset, in order.
    pub closed spec fn frames_view(self) -> Seq<FrameView> {
        self.pushed@
    }

    /// The sequence number the next finalized batch will carry.
    pub closed spec fn seqno(self) -> u8 {
        self.sequence_number
    }

    /// The buffer holds exactly a placeholder header followed by the
    /// encodings of the pushed frames, and the count matches.
    pub closed spec fn wf(self) -> bool {
        &&& self.count as int == self.pushed@.len()
        &&& self.pushed@.len() <= u16::MAX
        &&& self.frames@ == spec_header(self.sequence_number, 0) + encode_frames(self.pushed@)
        &&& all_wf(self.pushed@)
    }

    /// Appends a fresh placeholder header carrying the current sequence
    /// number and the given count field.
    fn write_header(&mut self, length: u16)
        ensures
            final(self).frames@ == old(self).frames@ + spec_header(
                old(self).sequence_number,
                length,
            ),
            final(self).sequence_number == old(self).sequence_number,
            final(self).count == old(self).count,
            final(self).pushed == old(self).pushed,
    {
        self.frames.push(IMPLEMENTED_VERSION);
        self.frames.push(OPCODE_DATA);
        self.frames.push(self.sequence_number);
        self.frames.push((length >> 8u16) as u8);
        self.frames.push(length as u8);
        assert(self.frames@ =~= old(self).frames@ + spec_header(
            old(self).sequence_number,
            length,
        ));
    }

    /// A fresh encoder: empty batch, sequence number zero.
    pub fn new() -> (r: MessageSerializer)
        ensures
            r.wf(),
            r.frames_view() == Seq::<FrameView>::empty(),
            r.seqno() == 0,
    {
        let mut value = MessageSerializer {
            sequence_number: 0,
            frames: Vec::new(),
            count: 0,
            pushed: Ghost(Seq::empty()),
        };
        value.write_header(0);
        proof {
            assert(encode_frames(Seq::<FrameView>::empty()) == Seq::<u8>::empty());
            assert(value.frames@ =~= spec_header(0, 0) + encode_frames(Seq::<FrameView>::empty()));
        }
        value
    }

    /// The sequence number the next finalized batch will carry: it equals
    /// the number of batches finalized so far, modulo 256.
    pub fn sequence_number(&self) -> (r: u8)
        ensures
            r == self.seqno(),
    {
        self.sequence_number
    }

    /// Clears the batch, advances the sequence number and writes a fresh
    /// placeholder header.
    pub fn reset(&mut self)
        ensures
            final(self).wf(),
            final(self).frames_view() == Seq::<FrameView>::empty(),
            final(self).seqno() == wrap_inc(old(self).seqno()),
    {
        self.frames.clear();
        self.sequence_number = if self.sequence_number == 255 {
            0
        } else {
            self.sequence_number + 1
        };
        self.count = 0;
        self.pushed = Ghost(Seq::empty());
        self.write_header(0);
        proof {
            assert(encode_frames(Seq::<FrameView>::empty()) == Seq::<u8>::empty());
            assert(self.frames@ =~= spec_header(self.sequence_number, 0) + encode_frames(
                Seq::<FrameView>::empty(),
            ));
        }
    }

    /// Appends the frame's encoding to the batch and counts it. No byte
    /// budget is checked here: that policy belongs to the caller, which
    /// must flush first when the batch would grow too large.
    pub fn push_frame(&mut self, frame: CanFrame)
        requires
            old(self).wf(),
            frame@.wf(),
            old(self).frames_view().len() < u16::MAX,
            spec_batch_size(old(self).frames_view()) + spec_encoded_size(frame@) <= usize::MAX,
        ensures
            final(self).wf(),
            final(self).frames_view() == old(self).frames_view().push(frame@),
            final(self).seqno() == old(self).seqno(),
    {
        encode_frame_into(&mut self.frames, &frame);
        self.count = self.count + 1;
        proof {
            lemma_encode_frames_push(self.pushed@, frame@);
        }
        self.pushed = Ghost(self.pushed@.push(frame@));
        assert(self.frames@ =~= spec_header(self.sequence_number, 0) + encode_frames(
            self.pushed@,
        ));
    }

    /// Byte size of the batch as it stands: the header plus every pushed
    /// frame's encoding.
    pub fn len(&self) -> (r: usize)
        requires
            self.wf(),
        ensures
            r == spec_batch_size(self.frames_view()),
    {
        self.frames.len()
    }

    /// Patches the true frame count into the header and hands the
    /// completed batch out as an owned snapshot; the encoder itself is
    /// reset at once — buffer cleared, fresh placeholder header written,
    /// sequence number advanced by one, wrapping past 255 back to 0.
    pub fn finalize(&mut self) -> (r: Finalizer)
        requires
            old(self).wf(),
        ensures
            r@ == batch_bytes(old(self).seqno(), old(self).frames_view()),
            r@.len() == spec_batch_size(old(self).frames_view()),
            final(self).wf(),
            final(self).frames_view() == Seq::<FrameView>::empty(),
            final(self).seqno() == wrap_inc(old(self).seqno()),
    {
        let count = self.count;
        proof {
            assert(self.frames@.len() >= 5);
        }
        self.frames.set(3, (count >> 8u16) as u8);
        self.frames.set(4, count as u8);
        let mut bytes: Vec<u8> = Vec::new();
        core::mem::swap(&mut bytes, &mut self.frames);
        assert(bytes@ =~= batch_bytes(old(self).seqno(), old(self).frames_view()));
        self.count = 0;
        self.sequence_number = if self.sequence_number == 255 {
            0
        } else {
            self.sequence_number + 1
        };
        self.pushed = Ghost(Seq::empty());
        self.write_header(0);
        proof {
            assert(encode_frames(Seq::<FrameView>::empty()) == Seq::<u8>::empty());
            assert(self.frames@ =~= spec_header(self.sequence_number, 0) + encode_frames(
                Seq::<FrameView>::empty(),
            ));
        }
        Finalizer { bytes }
    }
}

/// Walks the frames of one received batch message.
///
/// Constructed fresh per datagram by `try_read`; yields a lazy, finite,
/// non-restartable sequence of frames. The first frame that fails to
/// decode exhausts the reader: with the per-frame length as the only
/// framing anchor, nothing after a corrupt length is recoverable.
pub struct MessageReader {
    buffer: Vec<u8>,
    pos: usize,
    remaining: u16,
    sequence_number: u8,
}

impl MessageReader {
    /// The bytes of the datagram the reader was built from.
    pub closed spec fn buf_view(self) -> Seq<u8> {
        self.buffer@
    }

    /// The cursor: how many bytes have been consumed.
    pub closed spec fn pos_view(self) -> int {
        self.pos as int
    }

    /// How many frames the reader will still try to decode.
    pub closed spec fn remaining_view(self) -> u16 {
        self.remaining
    }

    /// The sequence number carried by the batch header.
    pub closed spec fn seqno(self) -> u8 {
        self.sequence_number
    }

    /// The cursor never passes the end of the buffer.
    pub closed spec fn wf(self) -> bool {
        self.pos <= self.buffer@.len()
    }

    /// Reads the 5-byte batch header. A version or opcode byte that does
    /// not match the implemented protocol yields no reader — not an error —
    /// so unrelated or future-version traffic can be ignored silently. On a
    /// match, the reader captures the sequence number and frame count and
    /// stands at the first frame.
    pub fn try_read(buffer: Vec<u8>) -> (r: Result<Option<MessageReader>, DecodeError>)
        ensures
            match spec_try_read(buffer@) {
                Ok(Some((s, c))) => r matches Ok(rr) && rr matches Some(rd) && rd.wf()
                    && rd.buf_view() == buffer@ && rd.pos_view() == 5 && rd.remaining_view() == c
                    && rd.seqno() == s,
                Ok(None) => r matches Ok(rr) && rr is None,
                Err(e) => r matches Err(e2) && e2 == e,
            },
    {
        if buffer.len() < 2 {
            return Err(DecodeError::TruncatedInput);
        }
        if buffer[0] != IMPLEMENTED_VERSION || buffer[1] != OPCODE_DATA {
            return Ok(None);
        }
        if buffer.len() < 5 {
            return Err(DecodeError::TruncatedInput);
        }
        let sequence_number = buffer[2];
        let remaining = u16_from_be(buffer[3], buffer[4]);
        Ok(Some(MessageReader { buffer, pos: 5, remaining, sequence_number }))
    }

    /// How many frames the reader will still try to decode.
    pub fn remaining(&self) -> (r: u16)
        ensures
            r == self.remaining_view(),
    {
        self.remaining
    }

    /// The sequence number carried by the batch header.
    pub fn sequence_number(&self) -> (r: u8)
        ensures
            r == self.seqno(),
    {
        self.sequence_number
    }

    /// Decodes the next frame, advancing past it. Exhausted either when
    /// the declared count has been delivered or, at the first frame that
    /// fails to decode, by dropping the rest of the batch.
    pub fn next_frame(&mut self) -> (r: Option<CanFrame>)
        requires
            old(self).wf(),
        ensures
            final(self).wf(),
            final(self).buf_view() == old(self).buf_view(),
            final(self).seqno() == old(self).seqno(),
            old(self).remaining_view() == 0 ==> r is None && final(self).pos_view() == old(
                self,
            ).pos_view() && final(self).remaining_view() == 0,
            old(self).remaining_view() > 0 ==> match spec_decode(
                old(self).buf_view().skip(old(self).pos_view()),
            ) {
                Ok((fv, n)) => r matches Some(f) && f@ == fv && f@.wf() && final(self).pos_view()
                    == old(self).pos_view() + n && final(self).remaining_view() == old(
                    self,
                ).remaining_view() - 1,
                Err(_) => r is None && final(self).remaining_view() == 0 && final(self).pos_view()
                    == old(self).pos_view(),
            },
    {
        if self.remaining == 0 {
            return None;
        }
        match decode_frame(&self.buffer, &mut self.pos) {
            Ok(f) => {
                self.remaining = self.remaining - 1;
                Some(f)
            },
            Err(_) => {
                self.remaining = 0;
                None
            },
        }
    }

    /// Decodes every frame the reader will yield, in order: the declared
    /// count of them, or as many as decode before the first corruption.
    pub fn into_frames(self) -> (r: Vec<CanFrame>)
        requires
            self.wf(),
        ensures
            frame_views(r@) == drain_frames(
                self.buf_view().skip(self.pos_view()),
                self.remaining_view() as nat,
            ),
            forall|i: int| 0 <= i < r@.len() ==> (#[trigger] r@[i])@.wf(),
    {
        let mut rd = self;
        let mut out: Vec<CanFrame> = Vec::new();
        proof {
            assert(frame_views(out@) =~= Seq::<FrameView>::empty());
        }
        while rd.remaining() > 0
            invariant
                rd.wf(),
                forall|i: int| 0 <= i < out@.len() ==> (#[trigger] out@[i])@.wf(),
                frame_views(out@) + drain_frames(
                    rd.buf_view().skip(rd.pos_view()),
                    rd.remaining_view() as nat,
                ) == drain_frames(
                    self.buf_view().skip(self.pos_view()),
                    self.remaining_view() as nat,
                ),
            decreases rd.remaining_view(),
        {
            let ghost pre = rd;
            let ghost out_pre = out@;
            match rd.next_frame() {
                Some(f) => {
                    out.push(f);
                    proof {
                        assert(frame_views(out@) =~= frame_views(out_pre).push(f@));
                        assert(frame_views(out_pre).push(f@) =~= frame_views(out_pre) + seq![f@]);
                    }
                },
                None => {},
            }
            proof {
                if pre.remaining_view() > 0 {
                    match spec_decode(pre.buf_view().skip(pre.pos_view())) {
                        Ok((fv, n)) => {
                            assert(rd.buf_view().skip(rd.pos_view()) =~= pre.buf_view().skip(
                                pre.pos_view(),
                            ).skip(n));
                            assert(frame_views(out@) + drain_frames(
                                rd.buf_view().skip(rd.pos_view()),
                                rd.remaining_view() as nat,
                            ) =~= drain_frames(
                                self.buf_view().skip(self.pos_view()),
                                self.remaining_view() as nat,
                            ));
                        },
                        Err(_) => {
                            assert(drain_frames(
                                pre.buf_view().skip(pre.pos_view()),
                                pre.remaining_view() as nat,
                            ) =~= Seq::<FrameView>::empty());
                            assert(frame_views(out@) + drain_frames(
                                rd.buf_view().skip(rd.pos_view()),
                                rd.remaining_view() as nat,
                            ) =~= drain_frames(
                                self.buf_view().skip(self.pos_view()),
                                self.remaining_view() as nat,
                            ));
                        },
                    }
                }
            }
        }
        proof {
            assert(drain_frames(rd.buf_view().skip(rd.pos_view()), 0) == Seq::<FrameView>::empty());
            assert(frame_views(out@) =~= frame_views(out@) + Seq::<FrameView>::empty());
        }
        out
    }
}

} // verus!

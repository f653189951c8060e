//! The wire codec: binary layout of one encoded CAN frame.
//!
//! On the wire a frame is a 4-byte big-endian identifier, one length byte,
//! and the payload. A flexible-data-rate frame sets a reserved high marker
//! bit in the length byte and inserts one flags byte before the payload;
//! that marker bit is what tells the two encodings apart on decode.

use vstd::prelude::*;

use crate::frame::{CanFrame, FrameView, CAN_ERR_FLAG, CAN_MAX_DLEN, CANFD_MAX_DLEN, CAN_RTR_FLAG};

verus! {

/// Reserved high bit of the wire length byte that marks a
/// flexible-data-rate encoding.
pub const CANFD_FRAME_MARKER: u8 = 0x80;

/// Why a frame could not be decoded from a byte buffer.
#[derive(Clone, Copy, Debug, PartialEq, Eq, Structural)]
pub enum DecodeError {
    /// Fewer bytes remain than the frame occupies.
    TruncatedInput,
    /// The length byte exceeds the maximum for the frame kind that the
    /// marker bit implies.
    MalformedLength,
    /// A flexible-data-rate identifier carries the remote-request or error
    /// bit, which have no meaning for that frame kind.
    MalformedId,
}

/// The four big-endian bytes of a 32-bit value.
pub open spec fn spec_u32_be(x: u32) -> Seq<u8> {
    seq![(x >> 24) as u8, (x >> 16) as u8, (x >> 8) as u8, x as u8]
}

/// The two big-endian bytes of a 16-bit value.
pub open spec fn spec_u16_be(x: u16) -> Seq<u8> {
    seq![(x >> 8) as u8, x as u8]
}

/// The 32-bit value read big-endian from four bytes.
pub open spec fn spec_u32_from_be(b0: u8, b1: u8, b2: u8, b3: u8) -> u32 {
    (((b0 as u32) << 24) | ((b1 as u32) << 16) | ((b2 as u32) << 8) | (b3 as u32))
}

/// The 16-bit value read big-endian from two bytes.
pub open spec fn spec_u16_from_be(b0: u8, b1: u8) -> u16 {
    (((b0 as u16) << 8) | (b1 as u16))
}

/// Exact byte length of the encoding of a frame: identifier and length
/// byte plus the payload, and one flags byte more for a
/// flexible-data-rate frame.
pub open spec fn spec_encoded_size(f: FrameView) -> int {
    match f {
        FrameView::Classic { data, .. } => 5 + data.len() as int,
        FrameView::Fd { data, .. } => 6 + data.len() as int,
    }
}

/// The encoding of one frame.
pub open spec fn spec_encode(f: FrameView) -> Seq<u8> {
    match f {
        FrameView::Classic { id, data } => spec_u32_be(id) + seq![data.len() as u8] + data,
        FrameView::Fd { id, flags, data } => spec_u32_be(id) + seq![
            ((data.len() as u8) | CANFD_FRAME_MARKER),
        ] + seq![flags] + data,
    }
}

/// Decoding one frame from the front of a byte sequence: the frame and the
/// number of bytes it occupies, or the error that stops the decode.
pub open spec fn spec_decode(b: Seq<u8>) -> Result<(FrameView, int), DecodeError> {
    if b.len() < 5 {
        Err(DecodeError::TruncatedInput)
    } else {
        let id = spec_u32_from_be(b[0], b[1], b[2], b[3]);
        let lb = b[4];
        if lb & CANFD_FRAME_MARKER == 0 {
            if lb > CAN_MAX_DLEN as u8 {
                Err(DecodeError::MalformedLength)
            } else if b.len() < 5 + lb {
                Err(DecodeError::TruncatedInput)
            } else {
                Ok((FrameView::Classic { id, data: b.subrange(5, 5 + lb) }, 5 + lb))
            }
        } else {
            let len = lb & 0x7f;
            if len > CANFD_MAX_DLEN as u8 {
                Err(DecodeError::MalformedLength)
            } else if b.len() < 6 + len {
                Err(DecodeError::TruncatedInput)
            } else if id & CAN_RTR_FLAG != 0 || id & CAN_ERR_FLAG != 0 {
                Err(DecodeError::MalformedId)
            } else {
                Ok((FrameView::Fd { id, flags: b[5], data: b.subrange(6, 6 + len) }, 6 + len))
            }
        }
    }
}

/// Reading four big-endian bytes back gives the value they were made from.
proof fn lemma_u32_be_inverse(x: u32)
    by (bit_vector)
    ensures
        spec_u32_from_be((x >> 24) as u8, (x >> 16) as u8, (x >> 8) as u8, x as u8) == x,
{
}

/// Reading two big-endian bytes back gives the value they were made from.
pub(crate) proof fn lemma_u16_be_inverse(x: u16)
    by (bit_vector)
    ensures
        spec_u16_from_be((x >> 8) as u8, x as u8) == x,
{
}

/// A classic length byte never carries the marker bit.
proof fn lemma_classic_length_byte(dlc: u8)
    by (bit_vector)
    requires
        dlc <= 8,
    ensures
        dlc & 0x80 == 0,
{
}

/// The marker bit and the payload length are both recoverable from a
/// flexible-data-rate length byte.
proof fn lemma_fd_length_byte(len: u8)
    by (bit_vector)
    requires
        len <= 64,
    ensures
        (len | 0x80) & 0x80 != 0,
        (len | 0x80) & 0x7f == len,
{
}

/// Round trip of the wire codec: decoding the encoding of any well-formed
/// frame, whatever bytes follow it, gives back exactly that frame and
/// consumes exactly its encoded size; and the encoded size equals the
/// length of the encoding.
pub proof fn lemma_frame_round_trip(f: FrameView, rest: Seq<u8>)
    requires
        f.wf(),
    ensures
        spec_encode(f).len() == spec_encoded_size(f),
        spec_decode(spec_encode(f) + rest) == Ok::<(FrameView, int), DecodeError>(
            (f, spec_encoded_size(f)),
        ),
{
    let b = spec_encode(f) + rest;
    match f {
        FrameView::Classic { id, data } => {
            lemma_u32_be_inverse(id);
            assert(b[0] == (id >> 24) as u8);
            assert(b[1] == (id >> 16) as u8);
            assert(b[2] == (id >> 8) as u8);
            assert(b[3] == id as u8);
            let lb = data.len() as u8;
            assert(b[4] == lb);
            lemma_classic_length_byte(lb);
            assert(b.subrange(5, 5 + lb) =~= data);
        },
        FrameView::Fd { id, flags, data } => {
            lemma_u32_be_inverse(id);
            assert(b[0] == (id >> 24) as u8);
            assert(b[1] == (id >> 16) as u8);
            assert(b[2] == (id >> 8) as u8);
            assert(b[3] == id as u8);
            let len = data.len() as u8;
            assert(b[4] == (len | CANFD_FRAME_MARKER));
            lemma_fd_length_byte(len);
            assert(b[5] == flags);
            assert(b.subrange(6, 6 + len) =~= data);
        },
    }
}

/// The value read big-endian from four bytes.
fn u32_from_be(b0: u8, b1: u8, b2: u8, b3: u8) -> (r: u32)
    ensures
        r == spec_u32_from_be(b0, b1, b2, b3),
{
    ((b0 as u32) << 24u32) | ((b1 as u32) << 16u32) | ((b2 as u32) << 8u32) | (b3 as u32)
}

/// The value read big-endian from two bytes.
pub(crate) fn u16_from_be(b0: u8, b1: u8) -> (r: u16)
    ensures
        r == spec_u16_from_be(b0, b1),
{
    ((b0 as u16) << 8u16) | (b1 as u16)
}

/// Appends the four big-endian bytes of a 32-bit value.
pub(crate) fn push_u32_be(out: &mut Vec<u8>, x: u32)
    requires
        old(out)@.len() + 4 <= usize::MAX,
    ensures
        final(out)@ == old(out)@ + spec_u32_be(x),
{
    out.push((x >> 24u32) as u8);
    out.push((x >> 16u32) as u8);
    out.push((x >> 8u32) as u8);
    out.push(x as u8);
    assert(out@ =~= old(out)@ + spec_u32_be(x));
}

/// Appends a copy of all bytes of `data`.
pub(crate) fn push_all(out: &mut Vec<u8>, data: &Vec<u8>)
    requires
        old(out)@.len() + data@.len() <= usize::MAX,
    ensures
        final(out)@ == old(out)@ + data@,
{
    let mut i: usize = 0;
    while i < data.len()
        invariant
            i <= data@.len(),
            old(out)@.len() + data@.len() <= usize::MAX,
            out@ == old(out)@ + data@.subrange(0, i as int),
        decreases data@.len() - i,
    {
        out.push(data[i]);
        assert(out@ =~= old(out)@ + data@.subrange(0, i + 1));
        i = i + 1;
    }
    assert(data@.subrange(0, data@.len() as int) =~= data@);
}

/// Exact byte length that `encode_frame` produces for this frame, computed
/// without encoding.
pub fn encoded_size(frame: &CanFrame) -> (n: usize)
    requires
        frame@.wf(),
    ensures
        n == spec_encoded_size(frame@),
{
    match frame {
        CanFrame::Classic { data, .. } => 4 + 1 + data.len(),
        CanFrame::Fd { data, .. } => 4 + 1 + 1 + data.len(),
    }
}

/// Appends the encoding of one frame to a byte buffer.
pub fn encode_frame_into(out: &mut Vec<u8>, frame: &CanFrame)
    requires
        frame@.wf(),
        old(out)@.len() + spec_encoded_size(frame@) <= usize::MAX,
    ensures
        final(out)@ == old(out)@ + spec_encode(frame@),
{
    match frame {
        CanFrame::Classic { id, data } => {
            push_u32_be(out, *id);
            out.push(data.len() as u8);
            push_all(out, data);
        },
        CanFrame::Fd { id, flags, data } => {
            push_u32_be(out, *id);
            out.push((data.len() as u8) | CANFD_FRAME_MARKER);
            out.push(*flags);
            push_all(out, data);
        },
    }
    assert(out@ =~= old(out)@ + spec_encode(frame@));
}

/// The encoding of one frame as an owned buffer.
pub fn encode_frame(frame: &CanFrame) -> (r: Vec<u8>)
    requires
        frame@.wf(),
    ensures
        r@ == spec_encode(frame@),
{
    let mut out: Vec<u8> = Vec::new();
    encode_frame_into(&mut out, frame);
    out
}

/// Decodes one frame from `buf` starting at `*pos`. On success the cursor
/// advances past exactly the bytes the frame occupies; on failure it is
/// left where it was.
pub fn decode_frame(buf: &Vec<u8>, pos: &mut usize) -> (r: Result<CanFrame, DecodeError>)
    requires
        *old(pos) <= buf@.len(),
    ensures
        *final(pos) <= buf@.len(),
        ({
            let b = buf@.skip(*old(pos) as int);
            match spec_decode(b) {
                Ok((fv, n)) => r matches Ok(f) && f@ == fv && f@.wf() && *final(pos) == *old(pos)
                    + n,
                Err(e) => r matches Err(e2) && e2 == e && *final(pos) == *old(pos),
            }
        }),
{
    let ghost b = buf@.skip(*old(pos) as int);
    let start = *pos;
    if buf.len() - start < 5 {
        return Err(DecodeError::TruncatedInput);
    }
    let id = u32_from_be(buf[start], buf[start + 1], buf[start + 2], buf[start + 3]);
    let lb = buf[start + 4];
    assert(b[0] == buf@[start as int] && b[1] == buf@[start + 1] && b[2] == buf@[start + 2] && b[3]
        == buf@[start + 3] && b[4] == buf@[start + 4]);
    if lb & CANFD_FRAME_MARKER == 0 {
        if lb > 8 {
            return Err(DecodeError::MalformedLength);
        }
        let dlc = lb as usize;
        if buf.len() - start < 5 + dlc {
            return Err(DecodeError::TruncatedInput);
        }
        let mut data: Vec<u8> = Vec::new();
        let mut i: usize = 0;
        while i < dlc
            invariant
                i <= dlc,
                dlc <= 8,
                start + 5 + dlc <= buf@.len(),
                buf@.len() <= usize::MAX,
                data@ == buf@.subrange(start + 5, start + 5 + i),
            decreases dlc - i,
        {
            data.push(buf[start + 5 + i]);
            assert(data@ =~= buf@.subrange(start + 5, start + 5 + i + 1));
            i = i + 1;
        }
        *pos = start + 5 + dlc;
        let f = CanFrame::Classic { id, data };
        assert(f@.data() =~= b.subrange(5, 5 + lb));
        Ok(f)
    } else {
        let len = (lb & 0x7f) as usize;
        assert(len <= 0x7f) by (bit_vector)
            requires
                len == (lb & 0x7fu8) as usize,
        ;
        if len > 64 {
            return Err(DecodeError::MalformedLength);
        }
        if buf.len() - start < 6 + len {
            return Err(DecodeError::TruncatedInput);
        }
        if id & CAN_RTR_FLAG != 0 || id & CAN_ERR_FLAG != 0 {
            return Err(DecodeError::MalformedId);
        }
        let flags = buf[start + 5];
        assert(b[5] == buf@[start + 5]);
        let mut data: Vec<u8> = Vec::new();
        let mut i: usize = 0;
        while i < len
            invariant
                i <= len,
                len <= 64,
                start + 6 + len <= buf@.len(),
                buf@.len() <= usize::MAX,
                data@ == buf@.subrange(start + 6, start + 6 + i),
            decreases len - i,
        {
            data.push(buf[start + 6 + i]);
            assert(data@ =~= buf@.subrange(start + 6, start + 6 + i + 1));
            i = i + 1;
        }
        *pos = start + 6 + len;
        let f = CanFrame::Fd { id, flags, data };
        assert(f@.data() =~= b.subrange(6, 6 + (lb & 0x7f)));
        Ok(f)
    }
}

} // verus!

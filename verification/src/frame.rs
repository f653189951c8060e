//! The CAN frame data model.
//!
//! A frame is either classic (up to 8 payload bytes) or flexible-data-rate
//! (up to 64 payload bytes plus one flags byte). The 32-bit identifier
//! carries the extended/remote/error status folded into its high bits, as
//! the raw CAN identifier convention has it.

use vstd::prelude::*;

verus! {

/// Largest payload of a classic frame, in bytes.
pub const CAN_MAX_DLEN: usize = 8;

/// Largest payload of a flexible-data-rate frame, in bytes.
pub const CANFD_MAX_DLEN: usize = 64;

/// Extended-frame-format (29-bit identifier) bit of a raw CAN identifier.
pub const CAN_EFF_FLAG: u32 = 0x8000_0000;

/// Remote-transmission-request bit of a raw CAN identifier.
pub const CAN_RTR_FLAG: u32 = 0x4000_0000;

/// Error-frame bit of a raw CAN identifier.
pub const CAN_ERR_FLAG: u32 = 0x2000_0000;

/// Mathematical model of a single CAN frame: what the contracts of the
/// codec, the batch encoder and the batch decoder speak about.
pub enum FrameView {
    Classic { id: u32, data: Seq<u8> },
    Fd { id: u32, flags: u8, data: Seq<u8> },
}

impl FrameView {
    /// A frame is well formed when its payload fits the bound of its kind
    /// and, for a flexible-data-rate frame, the identifier carries neither
    /// the remote-request nor the error bit: those have no meaning there.
    pub open spec fn wf(self) -> bool {
        match self {
            FrameView::Classic { id, data } => data.len() <= CAN_MAX_DLEN,
            FrameView::Fd { id, flags, data } => data.len() <= CANFD_MAX_DLEN
                && id & CAN_RTR_FLAG == 0
                && id & CAN_ERR_FLAG == 0,
        }
    }

    /// The raw 32-bit identifier, flag bits included.
    pub open spec fn id(self) -> u32 {
        match self {
            FrameView::Classic { id, .. } => id,
            FrameView::Fd { id, .. } => id,
        }
    }

    /// The payload bytes.
    pub open spec fn data(self) -> Seq<u8> {
        match self {
            FrameView::Classic { data, .. } => data,
            FrameView::Fd { data, .. } => data,
        }
    }

    /// Whether this is a flexible-data-rate frame.
    pub open spec fn is_fd(self) -> bool {
        self is Fd
    }

    /// The flags byte of a flexible-data-rate frame; zero for a classic one.
    pub open spec fn flags(self) -> u8 {
        match self {
            FrameView::Classic { .. } => 0,
            FrameView::Fd { flags, .. } => flags,
        }
    }
}

/// The models of a sequence of frames, in order.
pub open spec fn frame_views(s: Seq<CanFrame>) -> Seq<FrameView> {
    s.map_values(|f: CanFrame| f@)
}

/// A single CAN frame, immutable once constructed.
#[derive(Clone, Debug)]
pub enum CanFrame {
    Classic { id: u32, data: Vec<u8> },
    Fd { id: u32, flags: u8, data: Vec<u8> },
}

impl View for CanFrame {
    type V = FrameView;

    open spec fn view(&self) -> FrameView {
        match self {
            CanFrame::Classic { id, data } => FrameView::Classic { id: *id, data: data@ },
            CanFrame::Fd { id, flags, data } => FrameView::Fd {
                id: *id,
                flags: *flags,
                data: data@,
            },
        }
    }
}

impl CanFrame {
    /// Builds a classic frame; rejects a payload longer than 8 bytes.
    pub fn classic(id: u32, data: Vec<u8>) -> (r: Option<CanFrame>)
        ensures
            data@.len() <= CAN_MAX_DLEN ==> (r matches Some(f) && f@ == (FrameView::Classic {
                id,
                data: data@,
            }) && f@.wf()),
            data@.len() > CAN_MAX_DLEN ==> r is None,
    {
        if data.len() <= CAN_MAX_DLEN {
            Some(CanFrame::Classic { id, data })
        } else {
            None
        }
    }

    /// Builds a flexible-data-rate frame; rejects a payload longer than 64
    /// bytes and an identifier carrying the remote-request or error bit.
    pub fn fd(id: u32, flags: u8, data: Vec<u8>) -> (r: Option<CanFrame>)
        ensures
            (FrameView::Fd { id, flags, data: data@ }).wf() ==> (r matches Some(f) && f@
                == (FrameView::Fd { id, flags, data: data@ })),
            !(FrameView::Fd { id, flags, data: data@ }).wf() ==> r is None,
    {
        if data.len() <= CANFD_MAX_DLEN && id & CAN_RTR_FLAG == 0 && id & CAN_ERR_FLAG == 0 {
            Some(CanFrame::Fd { id, flags, data })
        } else {
            None
        }
    }

    /// The raw 32-bit identifier, flag bits included.
    pub fn id(&self) -> (r: u32)
        ensures
            r == self@.id(),
    {
        match self {
            CanFrame::Classic { id, .. } => *id,
            CanFrame::Fd { id, .. } => *id,
        }
    }

    /// The payload bytes.
    pub fn data(&self) -> (r: &Vec<u8>)
        ensures
            r@ == self@.data(),
    {
        match self {
            CanFrame::Classic { data, .. } => data,
            CanFrame::Fd { data, .. } => data,
        }
    }

    /// Whether this is a flexible-data-rate frame.
    pub fn is_fd(&self) -> (r: bool)
        ensures
            r == self@.is_fd(),
    {
        match self {
            CanFrame::Classic { .. } => false,
            CanFrame::Fd { .. } => true,
        }
    }

    /// The flags byte of a flexible-data-rate frame; zero for a classic one.
    pub fn flags(&self) -> (r: u8)
        ensures
            r == self@.flags(),
    {
        match self {
            CanFrame::Classic { .. } => 0,
            CanFrame::Fd { flags, .. } => *flags,
        }
    }

    /// Run-time check of the well-formedness that the codec contracts need.
    pub fn valid(&self) -> (r: bool)
        ensures
            r == self@.wf(),
    {
        match self {
            CanFrame::Classic { data, .. } => data.len() <= CAN_MAX_DLEN,
            CanFrame::Fd { id, data, .. } => data.len() <= CANFD_MAX_DLEN && *id & CAN_RTR_FLAG
                == 0 && *id & CAN_ERR_FLAG == 0,
        }
    }
}

} // verus!

//! A verified protocol engine for bridging a CAN bus over UDP datagrams.
//!
//! The crate covers the pure core of such a bridge: the binary wire format
//! that packs several CAN frames into one datagram payload, the batching
//! encoder and decoder around it, the send-path batching state machine with
//! its byte budget and force-flush timer, and the addressing decisions for
//! unicast and multicast endpoints. Socket and timer plumbing stays outside.

pub mod bridge;
pub mod codec;
pub mod endpoint;
pub mod frame;
pub mod proto;

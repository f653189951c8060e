//! Send-path batching policy and receive-path replay decisions.

use can_udp_bridge::bridge::{
    frames_to_replay, over_budget, BridgeSender, SendEvent, TimerCommand,
    UDP_NO_FRAGMENT_MAX_PAYLOAD_SIZE,
};
use can_udp_bridge::frame::CanFrame;
use can_udp_bridge::proto::{MessageReader, MessageSerializer};
use can_udp_bridge::endpoint::SocketAddress;

fn max_fd_frame(id: u32) -> CanFrame {
    // 4 id + 1 length + 1 flags + 64 data: 70 bytes on the wire.
    CanFrame::fd(id, 0, vec![0xaa; 64]).unwrap()
}

fn v4(ip: u64, port: u16) -> SocketAddress {
    SocketAddress {
        is_v6: false,
        ip_hi: 0,
        ip_lo: ip,
        port,
        flowinfo: 0,
        scope_id: 0,
    }
}

#[test]
fn budget_check_is_exact() {
    assert_eq!(UDP_NO_FRAGMENT_MAX_PAYLOAD_SIZE, 508);
    assert!(over_budget(500, 100));
    assert!(over_budget(409, 100));
    assert!(!over_budget(408, 100));
    assert!(!over_budget(0, 508));
    assert!(over_budget(0, 509));
    assert!(over_budget(usize::MAX, 1));
}

#[test]
fn overflowing_frame_flushes_before_push() {
    let mut sender = BridgeSender::new();

    // Seven maximal frames fill the batch to 5 + 7 * 70 = 495 bytes.
    for i in 0..7u32 {
        let step = sender.on_event(SendEvent::FrameRead(max_fd_frame(i)));
        assert!(step.datagram.is_none());
        let want = if i == 0 {
            TimerCommand::Arm
        } else {
            TimerCommand::Keep
        };
        assert_eq!(step.timer, want);
    }

    // The eighth would reach 565 bytes: the seven must be flushed first.
    let step = sender.on_event(SendEvent::FrameRead(max_fd_frame(7)));
    let datagram = step.datagram.expect("the pending batch must be flushed");
    assert!(datagram.data().len() <= UDP_NO_FRAGMENT_MAX_PAYLOAD_SIZE);
    assert_eq!(datagram.data().len(), 495);
    assert_eq!(step.timer, TimerCommand::Arm);

    let reader = MessageReader::try_read(datagram.data().to_vec())
        .unwrap()
        .unwrap();
    assert_eq!(reader.sequence_number(), 0);
    assert_eq!(reader.remaining(), 7);
    let frames = reader.into_frames();
    assert_eq!(frames.len(), 7);
    for (i, f) in frames.iter().enumerate() {
        assert_eq!(f.id(), i as u32);
    }
}

#[test]
fn timer_flushes_the_pending_batch() {
    let mut sender = BridgeSender::new();
    let step = sender.on_event(SendEvent::FrameRead(
        CanFrame::classic(0x42, vec![1, 2, 3]).unwrap(),
    ));
    assert!(step.datagram.is_none());
    assert_eq!(step.timer, TimerCommand::Arm);

    let step = sender.on_event(SendEvent::TimerFired);
    assert_eq!(step.timer, TimerCommand::Disarm);
    let datagram = step.datagram.expect("the timer must flush the batch");
    let mut reader = MessageReader::try_read(datagram.data().to_vec())
        .unwrap()
        .unwrap();
    assert_eq!(reader.sequence_number(), 0);
    assert_eq!(reader.remaining(), 1);
    let frame = reader.next_frame().unwrap();
    assert_eq!(frame.id(), 0x42);
    assert_eq!(frame.data(), &vec![1, 2, 3]);

    // The next flush carries the next sequence number.
    sender.on_event(SendEvent::FrameRead(CanFrame::classic(1, vec![]).unwrap()));
    let step = sender.on_event(SendEvent::TimerFired);
    let reader = MessageReader::try_read(step.datagram.unwrap().data().to_vec())
        .unwrap()
        .unwrap();
    assert_eq!(reader.sequence_number(), 1);
}

#[test]
fn failed_read_changes_nothing() {
    let mut sender = BridgeSender::new();
    sender.on_event(SendEvent::FrameRead(CanFrame::classic(9, vec![7]).unwrap()));

    let step = sender.on_event(SendEvent::ReadFailed);
    assert!(step.datagram.is_none());
    assert_eq!(step.timer, TimerCommand::Keep);

    // The batch is still there, with its one frame.
    let step = sender.on_event(SendEvent::TimerFired);
    let reader = MessageReader::try_read(step.datagram.unwrap().data().to_vec())
        .unwrap()
        .unwrap();
    assert_eq!(reader.remaining(), 1);
}

#[test]
fn own_datagrams_are_never_replayed() {
    let mut serializer = MessageSerializer::new();
    serializer.push_frame(CanFrame::classic(0x10, vec![1, 2]).unwrap());
    let batch = serializer.finalize().data().to_vec();

    let local = v4(0xc0a8_0001, 9000);
    let other = v4(0xc0a8_0002, 9000);

    assert!(frames_to_replay(batch.clone(), local, local).is_empty());
    let replayed = frames_to_replay(batch, other, local);
    assert_eq!(replayed.len(), 1);
    assert_eq!(replayed[0].id(), 0x10);
}

#[test]
fn same_ip_different_port_is_not_the_local_endpoint() {
    let mut serializer = MessageSerializer::new();
    serializer.push_frame(CanFrame::classic(0x10, vec![]).unwrap());
    let batch = serializer.finalize().data().to_vec();

    let local = v4(0xc0a8_0001, 9000);
    let peer = v4(0xc0a8_0001, 9001);
    assert_eq!(frames_to_replay(batch, peer, local).len(), 1);
}

#[test]
fn unrelated_traffic_is_silently_dropped() {
    let local = v4(1, 1);
    let peer = v4(2, 1);

    // Wrong version, wrong opcode, and garbage: nothing is replayed.
    assert!(frames_to_replay(vec![1, 0, 0, 0, 1, 0, 0, 0, 0x10, 0], peer, local).is_empty());
    assert!(frames_to_replay(vec![2, 1, 0, 0, 1, 0, 0, 0, 0x10, 0], peer, local).is_empty());
    assert!(frames_to_replay(vec![0xde, 0xad], peer, local).is_empty());
    assert!(frames_to_replay(vec![], peer, local).is_empty());
}

#[test]
fn replay_stops_at_corruption() {
    let mut serializer = MessageSerializer::new();
    serializer.push_frame(CanFrame::classic(0x1, vec![5]).unwrap());
    serializer.push_frame(CanFrame::classic(0x2, vec![6]).unwrap());
    serializer.push_frame(CanFrame::classic(0x3, vec![7]).unwrap());
    let mut batch = serializer.finalize().data().to_vec();

    // Corrupt the second frame's length byte.
    batch[5 + 6 + 4] = 0x7f;
    let local = v4(1, 1);
    let peer = v4(2, 1);
    let replayed = frames_to_replay(batch, peer, local);
    assert_eq!(replayed.len(), 1);
    assert_eq!(replayed[0].id(), 0x1);
}

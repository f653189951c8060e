//! Batch encoder and decoder behaviour.

use can_udp_bridge::frame::CanFrame;
use can_udp_bridge::proto::{MessageReader, MessageSerializer};

#[test]
fn empty() {
    let mut serializer = MessageSerializer::new();
    for i in 0..10u8 {
        let result = serializer.finalize();
        let result = result.data();

        let deserializer = MessageReader::try_read(result.to_vec()).unwrap().unwrap();

        assert_eq!(i, deserializer.sequence_number());
        assert_eq!(0, deserializer.remaining());
    }
}

#[test]
fn single_frame() {
    let mut serializer = MessageSerializer::new();
    let frame = CanFrame::classic(0x14, vec![0, 1, 2, 3, 4]).unwrap();
    serializer.push_frame(frame.clone());

    let result = serializer.finalize();
    let result = result.data();

    let deserialized = MessageReader::try_read(result.to_vec()).unwrap().unwrap();

    assert_eq!(0, deserialized.sequence_number());
    assert_eq!(1, deserialized.remaining());

    let mut decoder = deserialized;
    let deserialized_frame = decoder
        .next_frame()
        .expect("Must contain at least one frame!");
    if deserialized_frame.is_fd() {
        panic!("Got a different frame type than originally inserted into the stream!");
    }
    assert_eq!(frame.id(), deserialized_frame.id());
    assert_eq!(frame.data(), deserialized_frame.data());
}

#[test]
fn empty_finalize_is_minimal_message() {
    let mut serializer = MessageSerializer::new();
    assert_eq!(serializer.len(), 5);
    let result = serializer.finalize();
    assert_eq!(result.data(), &[2, 0, 0, 0, 0]);

    let result = serializer.finalize();
    assert_eq!(result.data(), &[2, 0, 1, 0, 0]);
}

#[test]
fn header_count_equals_pushes() {
    let mut serializer = MessageSerializer::new();
    let pushed: Vec<CanFrame> = vec![
        CanFrame::classic(0x1, vec![]).unwrap(),
        CanFrame::classic(0x2, vec![9, 8, 7]).unwrap(),
        CanFrame::fd(0x3, 0x1, vec![1; 12]).unwrap(),
    ];
    for f in &pushed {
        serializer.push_frame(f.clone());
    }
    let result = serializer.finalize();

    let mut reader = MessageReader::try_read(result.data().to_vec())
        .unwrap()
        .unwrap();
    assert_eq!(reader.sequence_number(), 0);
    assert_eq!(reader.remaining(), 3);
    for f in &pushed {
        let got = reader.next_frame().unwrap();
        assert_eq!(got.id(), f.id());
        assert_eq!(got.data(), f.data());
        assert_eq!(got.is_fd(), f.is_fd());
        assert_eq!(got.flags(), f.flags());
    }
    assert!(reader.next_frame().is_none());
    assert_eq!(reader.remaining(), 0);
}

#[test]
fn sequence_number_wraps_past_255() {
    let mut serializer = MessageSerializer::new();
    for _ in 0..255u16 {
        serializer.finalize();
    }
    assert_eq!(serializer.sequence_number(), 255);
    let result = serializer.finalize();
    assert_eq!(result.data()[2], 255);
    assert_eq!(serializer.sequence_number(), 0);
}

#[test]
fn reset_clears_batch_and_advances_sequence() {
    let mut serializer = MessageSerializer::new();
    serializer.push_frame(CanFrame::classic(0x7, vec![1, 2]).unwrap());
    assert_eq!(serializer.len(), 5 + 4 + 1 + 2);
    serializer.reset();
    assert_eq!(serializer.len(), 5);
    assert_eq!(serializer.sequence_number(), 1);
    let result = serializer.finalize();
    assert_eq!(result.data(), &[2, 0, 1, 0, 0]);
}

#[test]
fn truncated_batch_yields_frames_before_the_cut() {
    let mut serializer = MessageSerializer::new();
    serializer.push_frame(CanFrame::classic(0x10, vec![1, 2, 3]).unwrap());
    serializer.push_frame(CanFrame::classic(0x11, vec![4, 5]).unwrap());
    serializer.push_frame(CanFrame::classic(0x12, vec![6]).unwrap());
    let result = serializer.finalize();
    let bytes = result.data();

    // Keep the header and the first two frames: 5 + 8 + 7 bytes.
    let truncated = bytes[..5 + 8 + 7].to_vec();
    let reader = MessageReader::try_read(truncated).unwrap().unwrap();
    assert_eq!(reader.remaining(), 3);
    let frames = reader.into_frames();
    assert_eq!(frames.len(), 2);
    assert_eq!(frames[0].id(), 0x10);
    assert_eq!(frames[1].id(), 0x11);
}

#[test]
fn corrupt_length_stops_the_decode() {
    let mut serializer = MessageSerializer::new();
    serializer.push_frame(CanFrame::classic(0x10, vec![1, 2, 3]).unwrap());
    serializer.push_frame(CanFrame::classic(0x11, vec![4, 5]).unwrap());
    let result = serializer.finalize();
    let mut bytes = result.data().to_vec();

    // A classic length byte above 8 is malformed; everything after it is lost.
    bytes[5 + 4] = 9;
    let mut reader = MessageReader::try_read(bytes).unwrap().unwrap();
    assert_eq!(reader.remaining(), 2);
    assert!(reader.next_frame().is_none());
    assert_eq!(reader.remaining(), 0);
    assert!(reader.next_frame().is_none());
}

#[test]
fn mismatched_version_yields_no_reader() {
    let mut serializer = MessageSerializer::new();
    serializer.push_frame(CanFrame::classic(0x10, vec![1]).unwrap());
    let result = serializer.finalize();
    let mut bytes = result.data().to_vec();

    bytes[0] = 3;
    assert!(MessageReader::try_read(bytes).unwrap().is_none());
}

#[test]
fn mismatched_opcode_yields_no_reader() {
    let mut serializer = MessageSerializer::new();
    serializer.push_frame(CanFrame::classic(0x10, vec![1]).unwrap());
    let result = serializer.finalize();
    let mut bytes = result.data().to_vec();

    bytes[1] = 1;
    assert!(MessageReader::try_read(bytes).unwrap().is_none());
}

#[test]
fn short_header_is_an_error() {
    assert!(MessageReader::try_read(vec![]).is_err());
    assert!(MessageReader::try_read(vec![2]).is_err());
    assert!(MessageReader::try_read(vec![2, 0]).is_err());
    assert!(MessageReader::try_read(vec![2, 0, 0, 0]).is_err());
    assert!(MessageReader::try_read(vec![2, 0, 0, 0, 0]).unwrap().is_some());
}

//! Messages that carry their length.
use networked_filesystem::length_delimited::{
    FileReceiver, FileReceiverState, FileSender, FileSenderResult, Malformed, MessageKind,
    ReceiverAction, MAX_DATA_SIZE,
};
use networked_filesystem::little_endian::{from_le_bytes, to_le_bytes};

fn message(sender: &mut FileSender, data: &[u8]) -> Vec<u8> {
    match sender.fill_chunk(Ok(data.to_vec())) {
        FileSenderResult::Chunk(bytes) => bytes.to_vec(),
        _ => panic!("no message"),
    }
}

/// Gives bytes to a receiver, and says whether the file is whole then.
fn receive(receiver: &mut FileReceiver, data: &[u8], written: &mut Vec<u8>) -> bool {
    let mut offset = 0;
    loop {
        assert_eq!(receiver.check(data, offset), None);
        match receiver.receive_chunk(data, &mut offset) {
            ReceiverAction::AllRead => return false,
            ReceiverAction::Finished => return true,
            ReceiverAction::Write { from, to } => {
                assert_eq!(from, offset);
                written.extend(&data[from..to]);
                receiver.written(to - from);
                offset = to;
            }
        }
    }
}

#[test]
fn kinds_have_codes() {
    assert_eq!(MessageKind::from(1), MessageKind::FileChunk);
    assert_eq!(MessageKind::from(2), MessageKind::Eof);
    assert_eq!(MessageKind::FileChunk.to_byte(), 1);
    assert_eq!(MessageKind::Eof.to_byte(), 2);
}

#[test]
fn numbers_are_written_with_the_lowest_byte_first() {
    assert_eq!(to_le_bytes(0x0102), vec![2, 1, 0, 0, 0, 0, 0, 0]);
    assert_eq!(to_le_bytes(u64::MAX), vec![255; 8]);
    assert_eq!(from_le_bytes(&[2, 1, 0, 0, 0, 0, 0, 0]), 0x0102);
    assert_eq!(from_le_bytes(&[255; 8]), u64::MAX);
    assert_eq!(from_le_bytes(&to_le_bytes(1 << 40)), 1 << 40);
}

#[test]
fn a_sender_frames_what_was_read() {
    let mut sender = FileSender::new();
    assert!(sender.get_chunk(Ok(true)).is_none());
    assert_eq!(message(&mut sender, b"ab"), b"\x01\x02\x00\x00\x00\x00\x00\x00\x00ab".to_vec());
    assert!(matches!(sender.fill_chunk(Ok(Vec::new())), FileSenderResult::NoData));
    assert_eq!(message(&mut sender, &[7; MAX_DATA_SIZE]).len(), 4076);
}

#[test]
fn a_sender_tells_the_end_once() {
    let mut sender = FileSender::new();
    match sender.get_chunk(Ok(false)) {
        Some(FileSenderResult::Chunk(bytes)) => assert_eq!(bytes, &[2]),
        _ => panic!("no message"),
    }
    assert!(sender.reached_eof);
    assert!(matches!(sender.get_chunk(Ok(false)), Some(FileSenderResult::Eof)));
    assert!(matches!(sender.get_chunk(Ok(false)), Some(FileSenderResult::Eof)));
}

#[test]
fn a_sender_hands_failures_on() {
    let failure = || std::io::Error::other("gone");
    let mut sender = FileSender::new();
    match sender.get_chunk(Err(failure())) {
        Some(FileSenderResult::Failed(error)) => assert_eq!(error.to_string(), "gone"),
        _ => panic!("no failure"),
    }
    match sender.fill_chunk(Err(failure())) {
        FileSenderResult::Failed(error) => assert_eq!(error.to_string(), "gone"),
        _ => panic!("no failure"),
    }
    assert!(!sender.reached_eof);
}

#[test]
fn a_file_arrives_however_it_is_cut() {
    let content: Vec<u8> = (0..10000u32).map(|i| i as u8).collect();
    let mut sender = FileSender::new();
    let mut stream = Vec::new();
    for chunk in content.chunks(MAX_DATA_SIZE) {
        stream.extend(message(&mut sender, chunk));
    }
    stream.push(2);
    for size in [stream.len(), 4076, 100, 3, 1] {
        let mut receiver = FileReceiver::new();
        let mut written = Vec::new();
        let mut finished = false;
        for fragment in stream.chunks(size) {
            assert!(!finished);
            finished = receive(&mut receiver, fragment, &mut written);
        }
        assert!(finished);
        assert_eq!(written, content);
        assert!(matches!(receiver.state, FileReceiverState::Done));
    }
}

#[test]
fn nothing_follows_the_end() {
    let mut receiver = FileReceiver::new();
    let mut written = Vec::new();
    assert!(receive(&mut receiver, &[2, 9, 9], &mut written));
    assert!(receive(&mut receiver, &[9], &mut written));
    assert!(!receive(&mut receiver, &[], &mut written));
    assert!(written.is_empty());
}

#[test]
fn an_empty_chunk_writes_nothing() {
    let mut receiver = FileReceiver::new();
    let mut written = Vec::new();
    assert!(!receive(&mut receiver, &[1, 0, 0, 0, 0, 0, 0, 0, 0], &mut written));
    assert!(matches!(receiver.state, FileReceiverState::ReadingChunkData(0)));
    assert!(receive(&mut receiver, &[2], &mut written));
    assert!(written.is_empty());
}

#[test]
fn data_that_was_not_written_is_still_to_come() {
    let mut receiver = FileReceiver::new();
    let data = b"\x01\x03\x00\x00\x00\x00\x00\x00\x00abc";
    let mut offset = 0;
    let action = receiver.receive_chunk(data, &mut offset);
    assert_eq!(action, ReceiverAction::Write { from: 9, to: 12 });
    assert!(matches!(receiver.state, FileReceiverState::ReadingChunkData(3)));
    receiver.written(1);
    assert!(matches!(receiver.state, FileReceiverState::ReadingChunkData(2)));
    receiver.written(2);
    assert!(matches!(receiver.state, FileReceiverState::ReadingKind));
}

#[test]
fn malformed_messages_are_told_of() {
    let mut receiver = FileReceiver::new();
    assert_eq!(receiver.check(&[3], 0), Some(Malformed::Kind(3)));
    assert_eq!(receiver.check(&[3], 1), None);
    let size = to_le_bytes(MAX_DATA_SIZE as u64 + 1);
    let mut bytes = vec![1];
    bytes.extend(&size);
    assert_eq!(receiver.check(&bytes, 0), Some(Malformed::Size(4068)));
    assert_eq!(receiver.check(&bytes[..8], 0), None);
    let mut written = Vec::new();
    assert!(!receive(&mut receiver, &bytes[..5], &mut written));
    assert_eq!(receiver.check(&bytes, 5), Some(Malformed::Size(4068)));
}

//! The two ends of a connection, and files fed through a channel.
use networked_filesystem::{
    ChunkingStatus, Codec, Direction, FileFrame, FileSender, FileStreamError, FlumeFile, FrameHandler,
    Operation, StreamReceiver, StreamSender, TcpFsReceiver, TcpFsSender, TransportRecvError, WithDelims,
};

fn file(stream: Option<flume::Receiver<Vec<u8>>>) -> FlumeFile {
    FlumeFile {
        original_location: Some("here".to_string()),
        final_location: "there".to_string(),
        content_stream: stream,
    }
}

#[test]
fn a_default_receiver_holds_a_limited_channel() {
    let receiver = TcpFsReceiver::default();
    assert_eq!(receiver.tx.capacity(), Some(32));
    receiver.tx.send(vec![1, 2]).unwrap();
    assert_eq!(receiver.rx.try_recv(), Ok(vec![1, 2]));
    assert!(receiver.start_delimiter.is_none());
    assert!(receiver.end_delimiter.is_none());
    assert!(receiver.escape_byte.is_none());
}

#[test]
fn a_default_sender_holds_an_unlimited_channel() {
    let sender = TcpFsSender::default();
    assert_eq!(sender.tx.capacity(), None);
    sender.tx.send(vec![3]).unwrap();
    assert_eq!(sender.rx.try_recv(), Ok(vec![3]));
    assert!(sender.byte_array.is_empty());
}

#[test]
fn copies_belong_to_the_same_channel() {
    let mut receiver = TcpFsReceiver::default();
    receiver.set_start_delimiter(vec![1]);
    receiver.set_end_delimiter(vec![2]);
    receiver.set_escape_byte(3);
    let copy = receiver.clone();
    assert!(copy.tx.same_channel(&receiver.tx));
    assert!(copy.rx.same_channel(&receiver.rx));
    assert_eq!(copy.start_delimiter, Some(vec![1]));
    assert_eq!(copy.end_delimiter, Some(vec![2]));
    assert_eq!(copy.escape_byte, Some(3));
    let mut sender = TcpFsSender::default();
    sender.feed_bytes(vec![4]);
    sender.feed_bytes(vec![5, 6]);
    sender.set_escape_byte(7);
    let copy = sender.clone();
    assert!(copy.tx.same_channel(&sender.tx));
    assert!(copy.rx.same_channel(&sender.rx));
    assert_eq!(copy.byte_array, vec![4, 5, 6]);
    assert_eq!(copy.escape_byte, Some(7));
}

#[test]
fn new_ends_keep_their_channel() {
    let (tx, rx) = flume::bounded::<Vec<u8>>(1);
    let receiver = TcpFsReceiver::new(tx.clone(), rx.clone());
    assert!(receiver.tx.same_channel(&tx));
    let sender = TcpFsSender::new(rx.clone(), tx);
    assert!(sender.rx.same_channel(&rx));
}

#[test]
fn a_receiver_makes_handlers_with_its_delimiters() {
    let mut receiver = TcpFsReceiver::default();
    receiver.set_start_delimiter(b"<".to_vec());
    receiver.set_end_delimiter(b">".to_vec());
    let mut handler = receiver.create_frame_handler();
    let frames = handler.append_bytes_recv(&b"x<a>".to_vec(), &mut 0).unwrap();
    assert_eq!(frames.len(), 1);
    assert_eq!(frames[0].get_chunks(), b"a".to_vec());
}

#[test]
fn a_sender_encodes_with_its_delimiters() {
    let mut sender = TcpFsSender::default();
    sender.set_start_delimiter(b"<<".to_vec());
    sender.set_end_delimiter(b">>".to_vec());
    sender.set_escape_byte(b'!');
    let mut frame = FileFrame::new(
        Direction::Local,
        Operation::Move,
        Codec::Raw,
        ChunkingStatus::Continues,
    );
    frame.append_bytes_send(b"a>".to_vec());
    let bytes = sender.encode_frame::<FileFrame, WithDelims>(frame).unwrap();
    assert_eq!(bytes, b"<<\x00\x00\x00\x00a!>>>".to_vec());
}

#[test]
fn a_receiver_tells_what_it_can_look_through() {
    let nothing = Vec::new();
    let mut receiver = TcpFsReceiver::default();
    assert!(!receiver.accepts(&nothing, &nothing));
    receiver.set_end_delimiter(Vec::new());
    assert!(!receiver.accepts(&nothing, &nothing));
    receiver.set_end_delimiter(b">".to_vec());
    assert!(receiver.accepts(&nothing, &nothing));
    receiver.set_start_delimiter(Vec::new());
    assert!(!receiver.accepts(&nothing, &nothing));
    receiver.set_start_delimiter(b"<".to_vec());
    assert!(receiver.accepts(&nothing, &b"<".to_vec()));
    receiver.set_end_delimiter(Vec::new());
    assert!(receiver.accepts(&b"a".to_vec(), &b"b".to_vec()));
    assert!(!receiver.accepts(&b"a".to_vec(), &b"<".to_vec()));
    receiver.end_delimiter = None;
    assert!(receiver.accepts(&b"a".to_vec(), &b"<".to_vec()));
}

#[test]
fn a_sender_tells_whether_it_can_build_frames() {
    let mut sender = TcpFsSender::default();
    assert!(sender.can_build());
    sender.set_start_delimiter(Vec::new());
    sender.set_end_delimiter(b">".to_vec());
    assert!(sender.can_build());
    sender.set_escape_byte(1);
    assert!(!sender.can_build());
    sender.set_start_delimiter(b"<".to_vec());
    assert!(sender.can_build());
}

#[test]
fn content_of_a_file_arrives_until_its_channel_is_gone() {
    let (tx, rx) = flume::unbounded();
    tx.send(b"one".to_vec()).unwrap();
    drop(tx);
    let mut sent = file(Some(rx));
    let stream = sent.begin_chunk().unwrap();
    assert!(sent.content_stream.is_none());
    let received = stream.recv();
    assert_eq!(sent.end_chunk(stream, received), Ok(b"one".to_vec()));
    assert!(sent.content_stream.is_some());
    let stream = sent.begin_chunk().unwrap();
    let received = stream.recv();
    assert_eq!(sent.end_chunk(stream, received), Err(TransportRecvError::Disconnected));
    assert!(sent.content_stream.is_none());
    assert!(matches!(sent.begin_chunk(), Err(TransportRecvError::NoStream)));
    assert_eq!(sent.get_location(), "there");
}

#[test]
fn copies_of_a_file_share_its_channel() {
    let (tx, rx) = flume::unbounded::<Vec<u8>>();
    let sent = file(Some(rx));
    let copy = sent.clone();
    assert_eq!(copy.original_location, Some("here".to_string()));
    assert_eq!(copy.final_location, "there");
    tx.send(vec![1]).unwrap();
    assert_eq!(copy.content_stream.unwrap().try_recv(), Ok(vec![1]));
    assert!(sent.content_stream.unwrap().is_empty());
    assert!(file(None).clone().content_stream.is_none());
}

#[test]
fn a_stream_that_ends_is_told_of() {
    let (tx, rx) = flume::unbounded::<Vec<u8>>();
    tx.send(vec![1]).unwrap();
    drop(tx);
    assert_eq!(TcpFsReceiver::chunk_received(rx.recv()), Ok(vec![1]));
    assert_eq!(TcpFsReceiver::chunk_received(rx.recv()), Err(FileStreamError::Disconnect));
}

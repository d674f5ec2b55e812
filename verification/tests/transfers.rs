//! Operations: what is announced, sent and read, step by step.
use networked_filesystem::transfer::Stage;
use networked_filesystem::{
    Codec, Direction, FileAction, FlumeFile, LocalState, Operation, RemoteFileSystem,
    StreamableFileSystemErrors, TcpFsReceiver, TcpFsSender, Transfer, TransferAction, TransferEvent,
    TransportRecvError,
};

type Sending = RemoteFileSystem<TcpFsSender, FlumeFile>;

fn sending(codec: Codec) -> Sending {
    let mut stream = TcpFsSender::default();
    stream.set_start_delimiter(b"<<".to_vec());
    stream.set_end_delimiter(b">>".to_vec());
    let mut fs = Sending::new(stream);
    fs.set_direction(Direction::Local);
    fs.set_codec(codec);
    fs.create_state(1, LocalState { location: "/".to_string() });
    fs
}

fn file(location: &str) -> FlumeFile {
    FlumeFile {
        original_location: None,
        final_location: location.to_string(),
        content_stream: None,
    }
}

/// Carries out an operation. `reads` is what reading comes to, one after the other.
fn carry_out(
    fs: &mut Sending,
    state_id: u8,
    reads: Vec<Result<Vec<u8>, TransportRecvError>>,
) -> (Vec<Operation>, Vec<Vec<u8>>, Result<(), StreamableFileSystemErrors>) {
    let mut announced = Vec::new();
    let mut sent = Vec::new();
    let mut reads = reads.into_iter();
    let (mut transfer, mut action): (Transfer<FlumeFile>, TransferAction) =
        fs.execute_operation(state_id);
    loop {
        let event = match action {
            TransferAction::Announce(operation) => {
                announced.push(operation);
                TransferEvent::Done
            }
            TransferAction::Send(frames) => {
                sent.extend(frames);
                TransferEvent::Done
            }
            TransferAction::ReadChunk => {
                assert!(transfer.current.is_some());
                TransferEvent::Chunk(reads.next().unwrap())
            }
            TransferAction::Finish(result) => {
                assert_eq!(transfer.stage, Stage::Finished);
                assert!(transfer.current.is_none());
                assert!(transfer.waiting.is_empty());
                assert!(reads.next().is_none());
                return (announced, sent, result);
            }
        };
        action = fs.resume_operation(&mut transfer, event);
    }
}

#[test]
fn files_are_sent_in_order() {
    let mut fs = sending(Codec::RawContinues);
    fs.append_files(file("a"));
    fs.append_files(file("b"));
    fs.set_operation(Operation::Move).unwrap();
    let (announced, sent, result) = carry_out(
        &mut fs,
        1,
        vec![
            Ok(b"one".to_vec()),
            Ok(b"two".to_vec()),
            Err(TransportRecvError::Disconnected),
            Err(TransportRecvError::Disconnected),
        ],
    );
    assert_eq!(
        announced,
        vec![
            Operation::Move,
            Operation::SetLocation,
            Operation::Eof,
            Operation::SetLocation,
            Operation::Eof,
        ]
    );
    assert_eq!(
        sent,
        vec![
            b"<<\x00\x01\x01a>>".to_vec(),
            b"<<\x00\x00\x01\x00one>>".to_vec(),
            b"<<\x00\x00\x01\x00two>>".to_vec(),
            b"<<\x00\x03>>".to_vec(),
            b"<<\x00\x01\x01b>>".to_vec(),
            b"<<\x00\x03>>".to_vec(),
        ]
    );
    assert_eq!(result, Ok(()));
    assert_eq!(fs.operation, Operation::Eof);
    assert!(fs.files.is_empty());
    assert_eq!(fs.local_state[&1].location, "b");
}

#[test]
fn long_chunks_are_sent_in_pieces() {
    let mut fs = sending(Codec::Raw);
    let bytes: Vec<u8> = (0..9000).map(|i| (i % 40) as u8).collect();
    let frames = fs.send_chunk(Ok(bytes.clone())).unwrap();
    let lengths: Vec<usize> = frames.iter().map(|frame| frame.len() - 8).collect();
    assert_eq!(lengths, vec![4096, 4096, 808]);
    let joined: Vec<u8> =
        frames.iter().flat_map(|frame| frame[6..frame.len() - 2].to_vec()).collect();
    assert_eq!(joined, bytes);
    assert_eq!(fs.send_chunk(Ok(vec![0; 4096])).unwrap().len(), 1);
    assert_eq!(fs.send_chunk(Ok(Vec::new())).unwrap().len(), 0);
    assert_eq!(
        fs.send_chunk(Err(TransportRecvError::Lagged(3))),
        Err(StreamableFileSystemErrors::TransportRecvError(TransportRecvError::Lagged(3)))
    );
    assert_eq!(fs.send_file(), Ok(()));
    fs.set_codec(Codec::Unknown);
    assert_eq!(fs.send_file(), Err(StreamableFileSystemErrors::NoOperation));
}

#[test]
fn a_file_without_a_stream_has_no_end() {
    let mut fs = sending(Codec::Raw);
    fs.append_files(file("a"));
    fs.set_operation(Operation::Move).unwrap();
    let (announced, sent, result) = carry_out(&mut fs, 1, vec![Err(TransportRecvError::NoStream)]);
    assert_eq!(announced, vec![Operation::Move, Operation::SetLocation]);
    assert_eq!(sent, vec![b"<<\x00\x01\x01a>>".to_vec()]);
    assert_eq!(result, Ok(()));
    assert_eq!(fs.operation, Operation::Move);
}

#[test]
fn without_a_codec_only_locations_are_sent() {
    let mut fs = sending(Codec::Unknown);
    fs.append_files(file("a"));
    fs.append_files(file("b"));
    fs.set_operation(Operation::Move).unwrap();
    let (_, sent, result) = carry_out(&mut fs, 1, Vec::new());
    assert_eq!(sent, vec![b"<<\x00\x01\x01a>>".to_vec(), b"<<\x00\x01\x01b>>".to_vec()]);
    assert_eq!(result, Ok(()));
}

#[test]
fn moving_needs_a_state() {
    let mut fs = sending(Codec::Raw);
    fs.append_files(file("a"));
    fs.set_operation(Operation::Move).unwrap();
    let (announced, sent, result) = carry_out(&mut fs, 2, Vec::new());
    assert_eq!(announced, vec![Operation::Move]);
    assert!(sent.is_empty());
    assert_eq!(result, Err(StreamableFileSystemErrors::NoStateGiven));
    assert_eq!(fs.operation, Operation::SetLocation);
    assert!(fs.files.is_empty());
    fs.set_operation(Operation::Move).unwrap();
    assert_eq!(carry_out(&mut fs, 2, Vec::new()).2, Ok(()));
}

#[test]
fn a_location_can_be_sent_alone() {
    let mut fs = sending(Codec::Raw);
    fs.set_operation(Operation::SetLocation).unwrap();
    let (announced, sent, result) = carry_out(&mut fs, 1, Vec::new());
    assert_eq!(announced, vec![Operation::SetLocation]);
    assert_eq!(sent, vec![b"<<\x00\x01\x01/>>".to_vec()]);
    assert_eq!(result, Ok(()));
    assert_eq!(
        carry_out(&mut fs, 9, Vec::new()).2,
        Err(StreamableFileSystemErrors::NoStateGiven)
    );
}

#[test]
fn other_operations_come_to_nothing() {
    let mut fs = sending(Codec::Raw);
    fs.set_operation(Operation::Eof).unwrap();
    let (_, sent, result) = carry_out(&mut fs, 1, Vec::new());
    assert_eq!(sent, vec![b"<<\x00\x03>>".to_vec()]);
    assert_eq!(result, Ok(()));
    for operation in [Operation::Ls, Operation::NoOperation] {
        fs.set_operation(operation).unwrap();
        let (announced, sent, result) = carry_out(&mut fs, 1, Vec::new());
        assert_eq!(announced, vec![operation]);
        assert!(sent.is_empty());
        assert_eq!(result, Err(StreamableFileSystemErrors::NoOperation));
    }
}

#[test]
fn a_file_is_delivered() {
    let mut fs = sending(Codec::Raw);
    fs.append_files(file("/out"));
    fs.set_operation(Operation::Move).unwrap();
    let content: Vec<u8> = (0..10000u32).map(|i| (i % 50) as u8).collect();
    let (_, sent, _) = carry_out(
        &mut fs,
        1,
        vec![
            Ok(content[..6000].to_vec()),
            Ok(content[6000..].to_vec()),
            Err(TransportRecvError::Disconnected),
        ],
    );
    let stream: Vec<u8> = sent.concat();
    for size in [stream.len(), 4096, 100, 7] {
        let mut end = TcpFsReceiver::default();
        end.set_start_delimiter(b"<<".to_vec());
        end.set_end_delimiter(b">>".to_vec());
        let mut receiver: RemoteFileSystem<TcpFsReceiver, FlumeFile> = RemoteFileSystem::new(end);
        receiver.create_state(8, LocalState::default());
        let mut written = Vec::new();
        let mut opened = Vec::new();
        for fragment in stream.chunks(size) {
            let progress = receiver.receive_operation(8, Ok(fragment.to_vec()));
            assert!(progress.outcome.is_none());
            for action in progress.actions {
                if let FileAction::Write { open, bytes } = action {
                    opened.extend(open);
                    written.extend(bytes);
                }
            }
        }
        assert_eq!(opened, vec!["/out".to_string()]);
        assert_eq!(written, content);
        assert_eq!(receiver.local_state[&8].location, "/out");
    }
}

#[test]
fn what_can_be_gone_on_with_is_told() {
    let mut fs = sending(Codec::Multipart);
    fs.inner_mut().set_start_delimiter(Vec::new());
    fs.inner_mut().set_escape_byte(1);
    let nothing: Result<Vec<u8>, TransportRecvError> = Ok(Vec::new());
    assert!(fs.can_send_chunk(&nothing));
    assert!(fs.can_send_chunk(&Err(TransportRecvError::NoStream)));
    assert!(!fs.can_send_chunk(&Ok(vec![1])));
    for (operation, state_id, can) in [
        (Operation::Ls, 1, true),
        (Operation::NoOperation, 1, true),
        (Operation::Move, 1, true),
        (Operation::SetLocation, 1, false),
        (Operation::SetLocation, 2, true),
        (Operation::Eof, 1, false),
    ] {
        fs.set_operation(operation).unwrap();
        let (transfer, _) = fs.execute_operation(state_id);
        assert_eq!(fs.can_go_on(&transfer, &TransferEvent::Done), can);
        assert!(!fs.can_go_on(&transfer, &TransferEvent::Chunk(Ok(Vec::new()))));
    }
    let mut transfer = Transfer {
        state_id: 1,
        stage: Stage::Reading,
        current: Some(file("a")),
        waiting: std::collections::VecDeque::new(),
    };
    let gone = TransferEvent::Chunk(Err(TransportRecvError::Disconnected));
    assert!(fs.can_go_on(&transfer, &gone));
    assert!(!fs.can_go_on(&transfer, &TransferEvent::Chunk(Ok(vec![1]))));
    assert!(!fs.can_go_on(&transfer, &TransferEvent::Done));
    for (stage, can) in [
        (Stage::LocationAnnounced, false),
        (Stage::LocationSent, false),
        (Stage::PiecesSent, true),
        (Stage::EndSent, false),
    ] {
        transfer.stage = stage;
        assert_eq!(fs.can_go_on(&transfer, &TransferEvent::Done), can);
    }
    transfer.current = None;
    for (stage, can) in [
        (Stage::OnlyFrameSent, true),
        (Stage::EndAnnounced, false),
        (Stage::EndSent, true),
        (Stage::PiecesSent, false),
        (Stage::Finished, false),
    ] {
        transfer.stage = stage;
        assert_eq!(fs.can_go_on(&transfer, &TransferEvent::Done), can);
    }
}

#[test]
fn only_settings_decide_what_is_sent() {
    let one = sending(Codec::Raw);
    let mut other = sending(Codec::Raw);
    other.append_files(file("x"));
    other.create_state(7, LocalState { location: "y".to_string() });
    other.set_operation(Operation::Eof).unwrap();
    let bytes = b"content".to_vec();
    assert_eq!(one.send_chunk(Ok(bytes.clone())), other.send_chunk(Ok(bytes)));
}

/// What a receiver with these delimiters opens, writes, and takes for its location.
fn received(stream: &[u8], escape: Option<u8>) -> (Vec<String>, Vec<u8>, String) {
    let mut end = TcpFsReceiver::default();
    end.set_start_delimiter(b"<<".to_vec());
    end.set_end_delimiter(b">>".to_vec());
    end.escape_byte = escape;
    let mut receiver: RemoteFileSystem<TcpFsReceiver, FlumeFile> = RemoteFileSystem::new(end);
    receiver.create_state(8, LocalState::default());
    let progress = receiver.receive_operation(8, Ok(stream.to_vec()));
    assert!(progress.outcome.is_none());
    assert_eq!(receiver.remainder, b">>".to_vec());
    let mut opened = Vec::new();
    let mut written = Vec::new();
    for action in progress.actions {
        if let FileAction::Write { open, bytes } = action {
            opened.extend(open);
            written.extend(bytes);
        }
    }
    (opened, written, receiver.local_state[&8].location.clone())
}

#[test]
fn several_files_are_written_to_the_first_one() {
    let mut fs = sending(Codec::Raw);
    fs.append_files(file("a"));
    fs.append_files(file("b"));
    fs.set_operation(Operation::Move).unwrap();
    let gone = Err(TransportRecvError::Disconnected);
    let reads = vec![Ok(b"one".to_vec()), gone.clone(), Ok(b"two".to_vec()), gone];
    let (_, sent, result) = carry_out(&mut fs, 1, reads);
    assert_eq!(result, Ok(()));
    assert_eq!(
        received(&sent.concat(), None),
        (vec!["a".to_string()], b"onetwo".to_vec(), "b".to_string())
    );
}

#[test]
fn escaped_content_is_written_as_it_was_sent() {
    let mut fs = sending(Codec::Raw);
    fs.inner_mut().set_escape_byte(b'!');
    fs.append_files(file("a>b"));
    fs.set_operation(Operation::Move).unwrap();
    let reads = vec![Ok(b"1<2".to_vec()), Err(TransportRecvError::Disconnected)];
    let (_, sent, _) = carry_out(&mut fs, 1, reads);
    assert_eq!(
        received(&sent.concat(), Some(b'!')),
        (vec!["a!>b".to_string()], b"1!<2".to_vec(), "a!>b".to_string())
    );
}

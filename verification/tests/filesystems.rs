//! Filesystems: their settings, and what the frames that arrive do to them.
use networked_filesystem::chain::{ChainBuilder, HCons, HNil, Here, InsertOrReplace, There};
use networked_filesystem::client::{request_of, Request};
use networked_filesystem::{
    Codec, Direction, EofFrame, FileAction, FileFrame, FileHandleStatus, FileStreamError, FlumeFile,
    FrameCommons, LocalState, Operation, RemoteFileSystem, SetFrame, StreamableFileSystemErrors,
    TcpFsReceiver, TcpFsSender,
};
use std::marker::PhantomData;

type Receiving = RemoteFileSystem<TcpFsReceiver, FlumeFile>;
type Sending = RemoteFileSystem<TcpFsSender, FlumeFile>;

fn receiving() -> Receiving {
    let mut stream = TcpFsReceiver::default();
    stream.set_start_delimiter(b"\\\\f".to_vec());
    stream.set_end_delimiter(b"//f".to_vec());
    let mut fs = Receiving::new(stream);
    fs.create_state(1, LocalState { location: "/".to_string() });
    fs
}

fn file() -> FlumeFile {
    FlumeFile { original_location: None, final_location: "f".to_string(), content_stream: None }
}

fn written(actions: &[FileAction]) -> Vec<(Option<String>, Vec<u8>)> {
    actions
        .iter()
        .map(|action| match action {
            FileAction::Write { open, bytes } => (open.clone(), bytes.clone()),
            FileAction::Close => panic!("closed"),
        })
        .collect()
}

#[test]
fn a_new_filesystem_has_nothing_set() {
    let fs = Sending::default();
    assert_eq!(fs.direction, Direction::Unknown);
    assert_eq!(fs.operation, Operation::NoOperation);
    assert_eq!(fs.codec, Codec::Unknown);
    assert!(fs.local_state.is_empty());
    assert!(fs.files.is_empty());
    assert!(fs.remainder.is_empty());
    assert!(!fs.file_open);
    assert_eq!(*fs.get_operation_event().borrow(), Operation::NoOperation);
}

#[test]
fn settings_are_kept() {
    let mut fs = Sending::new(TcpFsSender::default());
    fs.set_codec(Codec::Raw);
    fs.set_direction(Direction::Server);
    assert_eq!(fs.set_operation(Operation::Ls), Ok(()));
    fs.create_state(3, LocalState { location: "a".to_string() });
    fs.create_state(3, LocalState { location: "b".to_string() });
    fs.create_state(4, LocalState::default());
    fs.remove_state(5);
    fs.append_files(file());
    fs.append_files(file());
    fs.inner_mut().set_escape_byte(9);
    assert_eq!(fs.codec, Codec::Raw);
    assert_eq!(fs.direction, Direction::Server);
    assert_eq!(fs.operation, Operation::Ls);
    assert_eq!(fs.local_state[&3].location, "b");
    assert_eq!(fs.local_state[&4].location, "");
    assert_eq!(fs.files.len(), 2);
    assert_eq!(fs.state.escape_byte, Some(9));
    fs.remove_state(3);
    fs.clear_files();
    assert!(!fs.local_state.contains_key(&3));
    assert!(fs.files.is_empty());
}

#[test]
fn a_copy_is_watched_by_itself_and_has_no_file_open() {
    let mut fs = receiving();
    fs.file_open = true;
    fs.remainder = vec![1];
    fs.append_files(file());
    let _ = fs.unique_operation_event.0.send(Operation::Eof);
    assert_eq!(*fs.get_operation_event().borrow(), Operation::Eof);
    let copy = fs.clone();
    assert_eq!(*copy.get_operation_event().borrow(), Operation::NoOperation);
    assert!(!copy.file_open);
    assert_eq!(copy.remainder, vec![1]);
    assert_eq!(copy.local_state[&1].location, "/");
    assert_eq!(copy.files.len(), 1);
    assert!(copy.state.tx.same_channel(&fs.state.tx));
}

#[test]
fn a_location_and_pieces_are_received() {
    let mut fs = receiving();
    let stream = b"\\\\f\x00\x01\x09/out//f\\\\f\x00\x00\x01\x00one//f\\\\f\x00\x00\x01\x00two//f\\\\f\x00\x03//f";
    let progress = fs.receive_operation(1, Ok(stream.to_vec()));
    assert!(progress.outcome.is_none());
    assert_eq!(
        written(&progress.actions),
        vec![(Some("/out".to_string()), b"one".to_vec()), (None, b"two".to_vec())]
    );
    assert_eq!(fs.local_state[&1].location, "/out");
    assert!(fs.file_open);
    assert_eq!(fs.remainder, b"//f".to_vec());
}

#[test]
fn frames_may_arrive_in_fragments() {
    let stream = b"\\\\f\x00\x01\x09/out//f\\\\f\x00\x00\x01\x00one//f\\\\f\x00\x00\x01\x00two//f";
    for cut in 3..stream.len() {
        let mut fs = receiving();
        let first = fs.receive_operation(1, Ok(stream[..cut].to_vec()));
        let second = fs.receive_operation(1, Ok(stream[cut..].to_vec()));
        let mut actions = written(&first.actions);
        actions.extend(written(&second.actions));
        assert_eq!(
            actions,
            vec![(Some("/out".to_string()), b"one".to_vec()), (None, b"two".to_vec())]
        );
        assert_eq!(fs.local_state[&1].location, "/out");
    }
}

#[test]
fn a_fragment_without_a_starting_delimiter_is_thrown_away() {
    let mut fs = receiving();
    let first = fs.receive_operation(1, Ok(b"\\".to_vec()));
    assert!(first.outcome.is_none());
    assert!(fs.remainder.is_empty());
    let second = fs.receive_operation(1, Ok(b"\\f\x00\x00\x01\x00one//f".to_vec()));
    assert!(second.actions.is_empty());
    assert!(fs.remainder.is_empty());
}

#[test]
fn an_unfinished_frame_is_kept() {
    let mut fs = receiving();
    let progress = fs.receive_operation(1, Ok(b"x\\\\f\x00\x00".to_vec()));
    assert!(progress.outcome.is_none());
    assert_eq!(fs.remainder, b"x\\\\f\x00\x00".to_vec());
}

#[test]
fn receiving_ends_with_the_stream() {
    let mut fs = receiving();
    fs.remainder = vec![7];
    let progress = fs.receive_operation(1, Err(FileStreamError::Disconnect));
    assert_eq!(progress.outcome, Some(Ok(())));
    assert!(progress.actions.is_empty());
    assert_eq!(fs.remainder, vec![7]);
}

#[test]
fn a_piece_for_an_unknown_state_fails() {
    let mut fs = receiving();
    let progress = fs.receive_operation(2, Ok(b"\\\\f\x00\x00\x01\x00one//f".to_vec()));
    assert_eq!(progress.outcome, Some(Err(StreamableFileSystemErrors::NoStateGiven)));
    assert!(progress.actions.is_empty());
    assert!(fs.remainder.is_empty());
}

#[test]
fn a_location_for_an_unknown_state_fails() {
    let mut fs = receiving();
    let progress = fs.receive_operation(2, Ok(b"\\\\f\x00\x01\x02/out//f".to_vec()));
    assert_eq!(progress.outcome, Some(Err(StreamableFileSystemErrors::IncorrectStateAsked)));
}

#[test]
fn a_location_that_is_no_text_fails_and_stops() {
    let mut fs = receiving();
    let stream = b"\\\\f\x00\x00\x01\x00one//f\\\\f\x00\x01\x01\xff//f\\\\f\x00\x00\x01\x00two//f";
    let progress = fs.receive_operation(1, Ok(stream.to_vec()));
    assert_eq!(progress.outcome, Some(Err(StreamableFileSystemErrors::IncorrectData)));
    assert_eq!(written(&progress.actions), vec![(Some("/".to_string()), b"one".to_vec())]);
    assert_eq!(fs.local_state[&1].location, "/");
    assert!(fs.remainder.is_empty());
}

#[test]
fn a_location_may_hold_any_text() {
    let mut fs = receiving();
    let frame = SetFrame::new(None, 0, "/tmp/\u{e4}\u{1f980}".as_bytes().to_vec());
    assert!(matches!(SetFrame::handle(frame, 1, &mut fs), Ok(None)));
    assert_eq!(fs.local_state[&1].location, "/tmp/\u{e4}\u{1f980}");
}

#[test]
fn the_end_of_a_file_closes_it() {
    let mut fs = receiving();
    fs.file_open = true;
    let action = EofFrame::handle(EofFrame::new(None), 1, &mut fs);
    assert!(matches!(action, Ok(Some(FileAction::Close))));
    assert!(!fs.file_open);
}

#[test]
fn a_piece_asks_for_its_file_to_be_opened_once() {
    let mut fs = receiving();
    let mut frame = FileFrame::default();
    frame.append_bytes_send(vec![1]);
    let first = frame.write_at_location(&mut fs, "a".to_string()).unwrap();
    let second = frame.write_at_location(&mut fs, "b".to_string()).unwrap();
    assert_eq!(
        written(&[first, second]),
        vec![(Some("a".to_string()), vec![1]), (None, vec![1])]
    );
    assert_eq!(frame.chunks, vec![1]);
}

#[test]
fn a_chain_hands_out_frames() {
    let mut fs = receiving();
    {
        let mut builder = ChainBuilder::new(&mut fs);
        let mut chained = builder.chain::<FileFrame, u8, Here>(5);
        assert_eq!(chained.list.f, 5);
        let batch = chained.run(Ok(b"\\\\fone//f\\\\ftwo//f\\\\fth".to_vec())).unwrap();
        assert_eq!(batch.frames, vec![b"one".to_vec(), b"two".to_vec()]);
        assert!(chained.fs.remainder.is_empty());
        chained.fs.keep_rest(batch.rest);
        let batch = chained.run(Ok(b"ree//f".to_vec())).unwrap();
        assert_eq!(batch.frames, vec![b"three".to_vec()]);
        assert_eq!(batch.rest, b"//f".to_vec());
        assert!(matches!(
            chained.run(Err(FileStreamError::Disconnect)),
            Err(StreamableFileSystemErrors::Unknown)
        ));
    }
    assert!(fs.remainder.is_empty());
}

#[test]
fn handlers_are_inserted_behind_others() {
    let end: HNil<u8, u8> = HNil { _marker2: PhantomData };
    let one: HCons<FileFrame, u8, HNil<u8, u8>, u8, u8> = end.insert_or_replace(1u8);
    let two = InsertOrReplace::<SetFrame, u8, There<Here>, u8, u8>::insert_or_replace(&one, 2u8);
    assert_eq!(two.f, 1);
    assert_eq!(two.tail.f, 2);
}

#[test]
fn a_chain_stops_at_what_it_cannot_read_or_handle() {
    type Chain = HCons<SetFrame, u8, HNil<u8, u8>, u8, u8>;
    let chain: Chain = HCons {
        _marker: PhantomData,
        _marker2: PhantomData,
        f: 0,
        tail: HNil { _marker2: PhantomData },
    };
    assert_eq!(chain.decode_frame(b"\x00\x01\x05x".to_vec()).unwrap().state_id, 5);
    assert!(matches!(
        chain.decode_frame(b"\x00\x00".to_vec()),
        Err(StreamableFileSystemErrors::Unknown)
    ));
    assert_eq!(Chain::after_handler(Ok(())), Ok(()));
    assert_eq!(
        Chain::after_handler(Err(FileHandleStatus::IncorrectData)),
        Err(StreamableFileSystemErrors::IncorrectData)
    );
}

#[test]
fn requests_go_by_how_they_begin() {
    assert_eq!(request_of("send"), Request::SendFile);
    assert_eq!(request_of("sender"), Request::SendFile);
    assert_eq!(request_of("ls -l"), Request::List);
    assert_eq!(request_of(" send"), Request::Unknown);
    assert_eq!(request_of("sen"), Request::Unknown);
    assert_eq!(request_of(""), Request::Unknown);
}

#[test]
fn a_filesystem_is_made_ready() {
    let mut fs = Sending::default();
    fs.append_files(file());
    fs.prepare_send(2, "/".to_string(), file());
    assert_eq!(fs.operation, Operation::Move);
    assert_eq!(fs.files.len(), 1);
    assert_eq!(fs.local_state[&2].location, "/");
    fs.prepare_list(2, "/home".to_string());
    assert_eq!(fs.operation, Operation::Ls);
    assert_eq!(fs.files.len(), 1);
    assert_eq!(fs.local_state[&2].location, "/home");
}

#[test]
fn fragments_in_which_no_frame_begins_may_be_thrown_away() {
    let frame = b"\\\\f\x00\x00\x01\x00one//f".to_vec();
    for before in [Vec::new(), b"noise".to_vec()] {
        let mut fs = receiving();
        let first = fs.receive_operation(1, Ok(before));
        assert!(first.outcome.is_none());
        assert!(first.actions.is_empty());
        assert!(fs.remainder.is_empty());
        let second = fs.receive_operation(1, Ok(frame.clone()));
        assert_eq!(written(&second.actions), vec![(Some("/".to_string()), b"one".to_vec())]);
    }
}

#[test]
fn an_open_file_is_written_on() {
    let mut fs = receiving();
    fs.file_open = true;
    let stream = b"\\\\f\x00\x01\x09/out//f\\\\f\x00\x00\x01\x00one//f\\\\f\x00\x03//f";
    let progress = fs.receive_operation(1, Ok(stream.to_vec()));
    assert_eq!(written(&progress.actions), vec![(None, b"one".to_vec())]);
    assert_eq!(fs.local_state[&1].location, "/out");
    assert!(fs.file_open);
}

//! The frames of the protocol.
use networked_filesystem::{
    ChunkingStatus, Codec, Direction, EofFrame, FileFrame, FileFrameStatus, FrameCommons,
    HandleWithDelims, Operation, SetFrame,
};

fn bytes_of(frame: &impl HandleWithDelims) -> Result<Vec<u8>, FileFrameStatus> {
    HandleWithDelims::to_bytes(frame, None, Some(b"<".to_vec()), Some(b">".to_vec()))
}

#[test]
fn a_piece_is_laid_out_and_read_back() {
    let mut frame = FileFrame::new(
        Direction::Server,
        Operation::Move,
        Codec::RawContinues,
        ChunkingStatus::End,
    );
    frame.append_bytes_send(b"ab".to_vec());
    frame.append_bytes_send(b"c".to_vec());
    assert_eq!(bytes_of(&frame), Ok(b"<\x01\x00\x01\x01abc>".to_vec()));
    let read = FileFrame::decode(b"\x01\x00\x01\x01abc".to_vec()).unwrap();
    assert_eq!(read.direction, Some(Direction::Server));
    assert_eq!(read.operation, Some(Operation::Move));
    assert_eq!(read.codec, Some(Codec::RawContinues));
    assert_eq!(read.chunking_status, Some(ChunkingStatus::End));
    assert_eq!(read.chunks, b"abc".to_vec());
    frame.flush();
    assert_eq!(bytes_of(&frame), Ok(b"<\x01\x00\x01\x01>".to_vec()));
}

#[test]
fn a_piece_without_a_header_is_not_laid_out() {
    assert_eq!(bytes_of(&FileFrame::default()), Err(FileFrameStatus::NotValidFrame));
    let mut frame = FileFrame::new(
        Direction::Local,
        Operation::Move,
        Codec::Raw,
        ChunkingStatus::Continues,
    );
    frame.chunking_status = None;
    assert_eq!(bytes_of(&frame.clone()), Err(FileFrameStatus::NotValidFrame));
}

#[test]
fn bytes_that_are_no_piece_are_refused() {
    let status = |bytes: &[u8]| FileFrame::decode(bytes.to_vec()).map(|_| ()).unwrap_err();
    assert_eq!(status(b""), FileFrameStatus::NotValidFrame);
    assert_eq!(status(b"\x03\x00\x00\x00"), FileFrameStatus::NotValidFrame);
    assert_eq!(status(b"\x00"), FileFrameStatus::NotValidFrame);
    assert_eq!(status(b"\x00\x05\x00\x00"), FileFrameStatus::NotValidFrame);
    assert_eq!(status(b"\x00\x01"), FileFrameStatus::NotCorrectFrame);
    assert_eq!(status(b"\x00\x00"), FileFrameStatus::NotValidFrame);
    assert_eq!(status(b"\x00\x00\x03\x00"), FileFrameStatus::NotValidFrame);
    assert_eq!(status(b"\x00\x00\x00"), FileFrameStatus::NotValidFrame);
    assert_eq!(status(b"\x00\x00\x00\x02"), FileFrameStatus::NotValidFrame);
}

#[test]
fn a_location_is_laid_out_and_read_back() {
    let frame = SetFrame::new(Some(Direction::Local), 7, b"/tmp".to_vec());
    assert_eq!(bytes_of(&frame), Ok(b"<\x00\x01\x07/tmp>".to_vec()));
    let read = SetFrame::decode(b"\x00\x01\x07/tmp".to_vec()).unwrap();
    assert_eq!(read.direction, Some(Direction::Local));
    assert_eq!(read.operation, Some(Operation::SetLocation));
    assert_eq!(read.state_id, 7);
    assert_eq!(read.chunks, b"/tmp".to_vec());
    assert_eq!(bytes_of(&SetFrame::default().clone()), Err(FileFrameStatus::NotValidFrame));
}

#[test]
fn bytes_that_are_no_location_are_refused() {
    let status = |bytes: &[u8]| SetFrame::decode(bytes.to_vec()).map(|_| ()).unwrap_err();
    assert_eq!(status(b""), FileFrameStatus::NotValidFrame);
    assert_eq!(status(b"\x00\x09"), FileFrameStatus::NotValidFrame);
    assert_eq!(status(b"\x00\x00\x00\x00"), FileFrameStatus::NotCorrectFrame);
    assert_eq!(status(b"\x00\x01"), FileFrameStatus::NotValidFrame);
}

#[test]
fn an_end_is_laid_out_and_read_back() {
    let frame = EofFrame::new(Some(Direction::Unknown));
    assert_eq!(bytes_of(&frame.clone()), Ok(b"<\x02\x03>".to_vec()));
    let read = EofFrame::decode(b"\x02\x03whatever".to_vec()).unwrap();
    assert_eq!(read.direction, Some(Direction::Unknown));
    assert_eq!(read.operation, Some(Operation::Eof));
    assert_eq!(bytes_of(&EofFrame::default()), Err(FileFrameStatus::NotValidFrame));
    assert_eq!(
        EofFrame::decode(b"\x02\x00".to_vec()).map(|_| ()).unwrap_err(),
        FileFrameStatus::NotCorrectFrame
    );
    assert_eq!(
        EofFrame::decode(b"\x02".to_vec()).map(|_| ()).unwrap_err(),
        FileFrameStatus::NotValidFrame
    );
}

#[test]
fn no_bytes_are_two_kinds_of_frames() {
    for bytes in [b"\x00\x00\x00\x00a".to_vec(), b"\x00\x01\x00a".to_vec(), b"\x00\x03".to_vec()] {
        let kinds = [
            FileFrame::decode(bytes.clone()).is_ok(),
            SetFrame::decode(bytes.clone()).is_ok(),
            EofFrame::decode(bytes).is_ok(),
        ];
        assert_eq!(kinds.iter().filter(|read| **read).count(), 1);
    }
}

//! One-byte codes and the failures they are read with.
use networked_filesystem::protocol::{failure_of_handling, TryFromPrimitiveError};
use networked_filesystem::{
    ChunkingStatus, Codec, Direction, FileHandleStatus, Operation, StreamableFileSystemErrors,
};

#[test]
fn directions_have_codes() {
    let all = [Direction::Local, Direction::Server, Direction::Unknown];
    for (code, direction) in all.iter().enumerate() {
        assert_eq!(direction.to_byte(), code as u8);
        assert_eq!(Direction::try_from_primitive(code as u8), Ok(*direction));
    }
    assert_eq!(Direction::try_from_primitive(3), Err(TryFromPrimitiveError { number: 3 }));
}

#[test]
fn operations_have_codes() {
    let all = [
        Operation::Move,
        Operation::SetLocation,
        Operation::Ls,
        Operation::Eof,
        Operation::NoOperation,
    ];
    for (code, operation) in all.iter().enumerate() {
        assert_eq!(operation.to_byte(), code as u8);
        assert_eq!(Operation::try_from_primitive(code as u8), Ok(*operation));
    }
    assert_eq!(Operation::try_from_primitive(5), Err(TryFromPrimitiveError { number: 5 }));
}

#[test]
fn codecs_skip_a_code() {
    let all = [(Codec::Raw, 0), (Codec::RawContinues, 1), (Codec::Multipart, 2), (Codec::Unknown, 4)];
    for (codec, code) in all {
        assert_eq!(codec.to_byte(), code);
        assert_eq!(Codec::try_from_primitive(code), Ok(codec));
    }
    assert_eq!(Codec::try_from_primitive(3), Err(TryFromPrimitiveError { number: 3 }));
    assert_eq!(Codec::try_from_primitive(5), Err(TryFromPrimitiveError { number: 5 }));
}

#[test]
fn chunking_statuses_have_codes() {
    assert_eq!(ChunkingStatus::Continues.to_byte(), 0);
    assert_eq!(ChunkingStatus::End.to_byte(), 1);
    assert_eq!(ChunkingStatus::try_from_primitive(0), Ok(ChunkingStatus::Continues));
    assert_eq!(ChunkingStatus::try_from_primitive(1), Ok(ChunkingStatus::End));
    assert_eq!(
        ChunkingStatus::try_from_primitive(255),
        Err(TryFromPrimitiveError { number: 255 })
    );
}

#[test]
fn failures_of_handling_keep_their_names() {
    assert_eq!(
        failure_of_handling(FileHandleStatus::NoStateGiven),
        StreamableFileSystemErrors::NoStateGiven
    );
    assert_eq!(
        failure_of_handling(FileHandleStatus::IncorrectData),
        StreamableFileSystemErrors::IncorrectData
    );
    assert_eq!(
        failure_of_handling(FileHandleStatus::IncorrectStateAsked),
        StreamableFileSystemErrors::IncorrectStateAsked
    );
}

#[test]
fn codes_can_be_converted() {
    assert_eq!(Direction::try_from(1), Ok(Direction::Server));
    assert_eq!(Direction::try_from(9), Err(TryFromPrimitiveError { number: 9 }));
    assert_eq!(Operation::try_from(3), Ok(Operation::Eof));
    assert_eq!(Operation::try_from(5), Err(TryFromPrimitiveError { number: 5 }));
    assert_eq!(Codec::try_from(4), Ok(Codec::Unknown));
    assert_eq!(Codec::try_from(3), Err(TryFromPrimitiveError { number: 3 }));
    assert_eq!(ChunkingStatus::try_from(0), Ok(ChunkingStatus::Continues));
    assert_eq!(ChunkingStatus::try_from(2), Err(TryFromPrimitiveError { number: 2 }));
}

//! Codes that are written and read back.
use crate::protocol::{
    failure_of_handling, ChunkingStatus, Codec, Direction, FileHandleStatus, Operation,
    StreamableFileSystemErrors, TryFromPrimitiveError,
};
use vstd::prelude::*;

verus! {

/// Directions are numbered from zero on, in the order local, server, unknown: a byte is read as a
/// direction exactly when that direction is written as it, and no byte above two is read as any.
pub proof fn law_directions(
    direction: Direction,
    written: u8,
    byte: u8,
    read: Result<Direction, TryFromPrimitiveError>,
)
    requires
        call_ensures(Direction::to_byte, (direction,), written),
        call_ensures(Direction::try_from_primitive, (byte,), read),
    ensures
        written <= 2,
        direction == Direction::Local <==> written == 0,
        direction == Direction::Server <==> written == 1,
        read is Ok <==> byte <= 2,
        read == Ok::<Direction, TryFromPrimitiveError>(direction) <==> byte == written,
        read matches Err(error) ==> error.number == byte,
{
}

/// Operations are numbered from zero on, in the order move, set location, list, end, none: a byte is read
/// as an operation exactly when that operation is written as it, and no byte above four is read as any.
pub proof fn law_operations(
    operation: Operation,
    written: u8,
    byte: u8,
    read: Result<Operation, TryFromPrimitiveError>,
)
    requires
        call_ensures(Operation::to_byte, (operation,), written),
        call_ensures(Operation::try_from_primitive, (byte,), read),
    ensures
        written <= 4,
        operation == Operation::Move <==> written == 0,
        operation == Operation::SetLocation <==> written == 1,
        operation == Operation::Ls <==> written == 2,
        operation == Operation::Eof <==> written == 3,
        read is Ok <==> byte <= 4,
        read == Ok::<Operation, TryFromPrimitiveError>(operation) <==> byte == written,
        read matches Err(error) ==> error.number == byte,
{
}

/// Codecs are numbered zero, one, two and four, in the order raw, raw with more to follow, multipart,
/// unknown: a byte is read as a codec exactly when that codec is written as it, and no other byte is read
/// as any.
pub proof fn law_codecs(
    codec: Codec,
    written: u8,
    byte: u8,
    read: Result<Codec, TryFromPrimitiveError>,
)
    requires
        call_ensures(Codec::to_byte, (codec,), written),
        call_ensures(Codec::try_from_primitive, (byte,), read),
    ensures
        written <= 4 && written != 3,
        codec == Codec::Raw <==> written == 0,
        codec == Codec::RawContinues <==> written == 1,
        codec == Codec::Multipart <==> written == 2,
        read is Ok <==> byte <= 4 && byte != 3,
        read == Ok::<Codec, TryFromPrimitiveError>(codec) <==> byte == written,
        read matches Err(error) ==> error.number == byte,
{
}

/// That more of a file follows is written as zero, that nothing does as one: a byte is read as what is
/// written as it, and no other byte is read as either.
pub proof fn law_chunking_statuses(
    status: ChunkingStatus,
    written: u8,
    byte: u8,
    read: Result<ChunkingStatus, TryFromPrimitiveError>,
)
    requires
        call_ensures(ChunkingStatus::to_byte, (status,), written),
        call_ensures(ChunkingStatus::try_from_primitive, (byte,), read),
    ensures
        written <= 1,
        status == ChunkingStatus::Continues <==> written == 0,
        read is Ok <==> byte <= 1,
        read == Ok::<ChunkingStatus, TryFromPrimitiveError>(status) <==> byte == written,
        read matches Err(error) ==> error.number == byte,
{
}

/// Converting a byte is reading it.
pub proof fn law_conversions_read(
    byte: u8,
    direction: Result<Direction, TryFromPrimitiveError>,
    operation: Result<Operation, TryFromPrimitiveError>,
    codec: Result<Codec, TryFromPrimitiveError>,
    status: Result<ChunkingStatus, TryFromPrimitiveError>,
)
    requires
        call_ensures(Direction::try_from, (byte,), direction),
        call_ensures(Operation::try_from, (byte,), operation),
        call_ensures(Codec::try_from, (byte,), codec),
        call_ensures(ChunkingStatus::try_from, (byte,), status),
    ensures
        forall|read: Result<Direction, TryFromPrimitiveError>| #[trigger]
            call_ensures(Direction::try_from_primitive, (byte,), read) ==> direction == read,
        forall|read: Result<Operation, TryFromPrimitiveError>| #[trigger]
            call_ensures(Operation::try_from_primitive, (byte,), read) ==> operation == read,
        forall|read: Result<Codec, TryFromPrimitiveError>| #[trigger]
            call_ensures(Codec::try_from_primitive, (byte,), read) ==> codec == read,
        forall|read: Result<ChunkingStatus, TryFromPrimitiveError>| #[trigger]
            call_ensures(ChunkingStatus::try_from_primitive, (byte,), read) ==> status == read,
{
}

/// Different reasons for not handling a frame end an operation with different errors, of the same names.
pub proof fn law_failures(status: FileHandleStatus, failure: StreamableFileSystemErrors)
    requires
        call_ensures(failure_of_handling, (status,), failure),
    ensures
        status is NoStateGiven <==> failure is NoStateGiven,
        status is IncorrectData <==> failure is IncorrectData,
        status is IncorrectStateAsked <==> failure is IncorrectStateAsked,
{
}

} // verus!

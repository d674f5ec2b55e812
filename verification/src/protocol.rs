//! The vocabulary of the protocol: one-byte codes that head a frame, and the ways in which a frame,
//! a stream or an operation can fail.
use vstd::prelude::*;
use vstd::std_specs::convert::TryFromSpecImpl;

verus! {

/// A byte that stands for no value of the code it was read as.
#[derive(Clone, Copy, Debug, PartialEq, Eq, Structural)]
pub struct TryFromPrimitiveError {
    pub number: u8,
}

/// Which side a frame is meant for.
#[derive(Clone, Copy, Debug, PartialEq, Eq, Structural)]
pub enum Direction {
    Local,
    Server,
    Unknown,
}

impl Direction {
    /// The byte that stands for this direction in a frame.
    pub open spec fn code(self) -> u8 {
        match self {
            Direction::Local => 0,
            Direction::Server => 1,
            Direction::Unknown => 2,
        }
    }

    /// The byte that stands for this direction in a frame.
    pub fn to_byte(self) -> (byte: u8)
        ensures
            byte == self.code(),
    {
        match self {
            Direction::Local => 0,
            Direction::Server => 1,
            Direction::Unknown => 2,
        }
    }

    /// The direction that a byte stands for.
    pub open spec fn of_code(number: u8) -> Option<Direction> {
        match number {
            0 => Some(Direction::Local),
            1 => Some(Direction::Server),
            2 => Some(Direction::Unknown),
            _ => None,
        }
    }

    /// The direction that a byte stands for.
    pub fn try_from_primitive(number: u8) -> (direction: Result<Direction, TryFromPrimitiveError>)
        ensures
            direction == match Direction::of_code(number) {
                Some(meant) => Ok::<Direction, TryFromPrimitiveError>(meant),
                None => Err::<Direction, TryFromPrimitiveError>(TryFromPrimitiveError { number }),
            },
    {
        match number {
            0 => Ok(Direction::Local),
            1 => Ok(Direction::Server),
            2 => Ok(Direction::Unknown),
            _ => Err(TryFromPrimitiveError { number }),
        }
    }
}

impl TryFrom<u8> for Direction {
    type Error = TryFromPrimitiveError;

    fn try_from(number: u8) -> (read: Result<Direction, TryFromPrimitiveError>) {
        Direction::try_from_primitive(number)
    }
}

impl TryFromSpecImpl<u8> for Direction {
    open spec fn obeys_try_from_spec() -> bool {
        true
    }

    open spec fn try_from_spec(number: u8) -> Result<Direction, TryFromPrimitiveError> {
        match Direction::of_code(number) {
            Some(meant) => Ok(meant),
            None => Err(TryFromPrimitiveError { number }),
        }
    }
}

/// What a filesystem does next, and what a frame asks of its receiver.
#[derive(Clone, Copy, Debug, PartialEq, Eq, Structural)]
pub enum Operation {
    Move,
    SetLocation,
    Ls,
    Eof,
    NoOperation,
}

impl Operation {
    /// The byte that stands for this operation in a frame.
    pub open spec fn code(self) -> u8 {
        match self {
            Operation::Move => 0,
            Operation::SetLocation => 1,
            Operation::Ls => 2,
            Operation::Eof => 3,
            Operation::NoOperation => 4,
        }
    }

    /// The byte that stands for this operation in a frame.
    pub fn to_byte(self) -> (byte: u8)
        ensures
            byte == self.code(),
    {
        match self {
            Operation::Move => 0,
            Operation::SetLocation => 1,
            Operation::Ls => 2,
            Operation::Eof => 3,
            Operation::NoOperation => 4,
        }
    }

    /// The operation that a byte stands for.
    pub open spec fn of_code(number: u8) -> Option<Operation> {
        match number {
            0 => Some(Operation::Move),
            1 => Some(Operation::SetLocation),
            2 => Some(Operation::Ls),
            3 => Some(Operation::Eof),
            4 => Some(Operation::NoOperation),
            _ => None,
        }
    }

    /// The operation that a byte stands for.
    pub fn try_from_primitive(number: u8) -> (operation: Result<Operation, TryFromPrimitiveError>)
        ensures
            operation == match Operation::of_code(number) {
                Some(meant) => Ok::<Operation, TryFromPrimitiveError>(meant),
                None => Err::<Operation, TryFromPrimitiveError>(TryFromPrimitiveError { number }),
            },
    {
        match number {
            0 => Ok(Operation::Move),
            1 => Ok(Operation::SetLocation),
            2 => Ok(Operation::Ls),
            3 => Ok(Operation::Eof),
            4 => Ok(Operation::NoOperation),
            _ => Err(TryFromPrimitiveError { number }),
        }
    }
}

impl TryFrom<u8> for Operation {
    type Error = TryFromPrimitiveError;

    fn try_from(number: u8) -> (read: Result<Operation, TryFromPrimitiveError>) {
        Operation::try_from_primitive(number)
    }
}

impl TryFromSpecImpl<u8> for Operation {
    open spec fn obeys_try_from_spec() -> bool {
        true
    }

    open spec fn try_from_spec(number: u8) -> Result<Operation, TryFromPrimitiveError> {
        match Operation::of_code(number) {
            Some(meant) => Ok(meant),
            None => Err(TryFromPrimitiveError { number }),
        }
    }
}

/// How the content of a file is laid out in frames.
#[derive(Clone, Copy, Debug, PartialEq, Eq, Structural)]
pub enum Codec {
    Raw,
    RawContinues,
    Multipart,
    Unknown,
}

impl Codec {
    /// The byte that stands for this codec in a frame. The byte between those of `Multipart` and
    /// `Unknown` stands for no codec.
    pub open spec fn code(self) -> u8 {
        match self {
            Codec::Raw => 0,
            Codec::RawContinues => 1,
            Codec::Multipart => 2,
            Codec::Unknown => 4,
        }
    }

    /// The byte that stands for this codec in a frame.
    pub fn to_byte(self) -> (byte: u8)
        ensures
            byte == self.code(),
    {
        match self {
            Codec::Raw => 0,
            Codec::RawContinues => 1,
            Codec::Multipart => 2,
            Codec::Unknown => 4,
        }
    }

    /// Files are sent with this codec as they are.
    pub open spec fn raw(self) -> bool {
        self == Codec::Raw || self == Codec::RawContinues
    }

    /// The codec that a byte stands for.
    pub open spec fn of_code(number: u8) -> Option<Codec> {
        match number {
            0 => Some(Codec::Raw),
            1 => Some(Codec::RawContinues),
            2 => Some(Codec::Multipart),
            4 => Some(Codec::Unknown),
            _ => None,
        }
    }

    /// The codec that a byte stands for.
    pub fn try_from_primitive(number: u8) -> (codec: Result<Codec, TryFromPrimitiveError>)
        ensures
            codec == match Codec::of_code(number) {
                Some(meant) => Ok::<Codec, TryFromPrimitiveError>(meant),
                None => Err::<Codec, TryFromPrimitiveError>(TryFromPrimitiveError { number }),
            },
    {
        match number {
            0 => Ok(Codec::Raw),
            1 => Ok(Codec::RawContinues),
            2 => Ok(Codec::Multipart),
            4 => Ok(Codec::Unknown),
            _ => Err(TryFromPrimitiveError { number }),
        }
    }
}

impl TryFrom<u8> for Codec {
    type Error = TryFromPrimitiveError;

    fn try_from(number: u8) -> (read: Result<Codec, TryFromPrimitiveError>) {
        Codec::try_from_primitive(number)
    }
}

impl TryFromSpecImpl<u8> for Codec {
    open spec fn obeys_try_from_spec() -> bool {
        true
    }

    open spec fn try_from_spec(number: u8) -> Result<Codec, TryFromPrimitiveError> {
        match Codec::of_code(number) {
            Some(meant) => Ok(meant),
            None => Err(TryFromPrimitiveError { number }),
        }
    }
}

/// Whether more of the file follows a frame.
#[derive(Clone, Copy, Debug, PartialEq, Eq, Structural)]
pub enum ChunkingStatus {
    Continues,
    End,
}

impl ChunkingStatus {
    /// The byte that stands for this status in a frame.
    pub open spec fn code(self) -> u8 {
        match self {
            ChunkingStatus::Continues => 0,
            ChunkingStatus::End => 1,
        }
    }

    /// The byte that stands for this status in a frame.
    pub fn to_byte(self) -> (byte: u8)
        ensures
            byte == self.code(),
    {
        match self {
            ChunkingStatus::Continues => 0,
            ChunkingStatus::End => 1,
        }
    }

    /// The status that a byte stands for.
    pub open spec fn of_code(number: u8) -> Option<ChunkingStatus> {
        match number {
            0 => Some(ChunkingStatus::Continues),
            1 => Some(ChunkingStatus::End),
            _ => None,
        }
    }

    /// The status that a byte stands for.
    pub fn try_from_primitive(number: u8) -> (status: Result<ChunkingStatus, TryFromPrimitiveError>)
        ensures
            status == match ChunkingStatus::of_code(number) {
                Some(meant) => Ok::<ChunkingStatus, TryFromPrimitiveError>(meant),
                None => Err::<ChunkingStatus, TryFromPrimitiveError>(TryFromPrimitiveError { number }),
            },
    {
        match number {
            0 => Ok(ChunkingStatus::Continues),
            1 => Ok(ChunkingStatus::End),
            _ => Err(TryFromPrimitiveError { number }),
        }
    }
}

impl TryFrom<u8> for ChunkingStatus {
    type Error = TryFromPrimitiveError;

    fn try_from(number: u8) -> (read: Result<ChunkingStatus, TryFromPrimitiveError>) {
        ChunkingStatus::try_from_primitive(number)
    }
}

impl TryFromSpecImpl<u8> for ChunkingStatus {
    open spec fn obeys_try_from_spec() -> bool {
        true
    }

    open spec fn try_from_spec(number: u8) -> Result<ChunkingStatus, TryFromPrimitiveError> {
        match ChunkingStatus::of_code(number) {
            Some(meant) => Ok(meant),
            None => Err(TryFromPrimitiveError { number }),
        }
    }
}

/// Why no more content of a file can be had.
#[derive(Clone, Copy, Debug, PartialEq, Eq, Structural)]
pub enum TransportRecvError {
    Disconnected,
    Lagged(usize),
    NoStream,
}

/// Why a decoded frame could not be acted upon.
#[derive(Clone, Copy, Debug, PartialEq, Eq, Structural)]
pub enum FileHandleStatus {
    NoStateGiven,
    IncorrectData,
    IncorrectStateAsked,
}

/// Why bytes are not, or not yet, a frame.
#[derive(Clone, Copy, Debug, PartialEq, Eq, Structural)]
pub enum FileFrameStatus {
    FrameNoBegins,
    FrameNoEnds,
    NotValidFrame,
    NotCorrectFrame,
    NoFrameDecoding,
}

/// Why a stream of bytes ended.
#[derive(Clone, Copy, Debug, PartialEq, Eq, Structural)]
pub enum FileStreamError {
    Disconnect,
}

/// Why an operation of a filesystem did not succeed.
#[derive(Debug, PartialEq, Eq)]
pub enum StreamableFileSystemErrors {
    NoOperation,
    NoStateGiven,
    IncorrectStateAsked,
    IncorrectData,
    Unknown,
    TransportRecvError(TransportRecvError),
    /// Any other failure, by its message.
    Any(String),
}

/// What a frame that could not be acted upon means for the operation it came in.
pub open spec fn handling_failure(status: FileHandleStatus) -> StreamableFileSystemErrors {
    match status {
        FileHandleStatus::NoStateGiven => StreamableFileSystemErrors::NoStateGiven,
        FileHandleStatus::IncorrectData => StreamableFileSystemErrors::IncorrectData,
        FileHandleStatus::IncorrectStateAsked => StreamableFileSystemErrors::IncorrectStateAsked,
    }
}

/// What a frame that could not be acted upon means for the operation it came in.
pub fn failure_of_handling(status: FileHandleStatus) -> (failure: StreamableFileSystemErrors)
    ensures
        failure == handling_failure(status),
{
    match status {
        FileHandleStatus::NoStateGiven => StreamableFileSystemErrors::NoStateGiven,
        FileHandleStatus::IncorrectData => StreamableFileSystemErrors::IncorrectData,
        FileHandleStatus::IncorrectStateAsked => StreamableFileSystemErrors::IncorrectStateAsked,
    }
}

/// A code is read back as what it was written for, and only from the byte that it was written as:
/// of every direction, operation, codec and chunking status.
pub proof fn law_codes_round_trip()
    ensures
        forall|d: Direction, byte: u8|
            #![trigger d.code(), Direction::of_code(byte)]
            Direction::of_code(byte) == Some(d) <==> byte == d.code(),
        forall|o: Operation, byte: u8|
            #![trigger o.code(), Operation::of_code(byte)]
            Operation::of_code(byte) == Some(o) <==> byte == o.code(),
        forall|c: Codec, byte: u8|
            #![trigger c.code(), Codec::of_code(byte)]
            Codec::of_code(byte) == Some(c) <==> byte == c.code(),
        forall|s: ChunkingStatus, byte: u8|
            #![trigger s.code(), ChunkingStatus::of_code(byte)]
            ChunkingStatus::of_code(byte) == Some(s) <==> byte == s.code(),
{
}

} // verus!

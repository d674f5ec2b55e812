//! The frames of the protocol: a piece of a file, a location to write to, and the end of a file.
use crate::encoder::FrameEncoder;
use crate::framing::{FrameHandler, Framing, HandleWithDelims};
use crate::protocol::{ChunkingStatus, Codec, Direction, FileFrameStatus, Operation};
use vstd::prelude::*;

verus! {

/// A piece of a file.
#[derive(Debug)]
pub struct FileFrame {
    pub direction: Option<Direction>,
    pub operation: Option<Operation>,
    pub codec: Option<Codec>,
    pub chunking_status: Option<ChunkingStatus>,
    pub chunks: Vec<u8>,
}

/// What a `FileFrame` holds.
#[verifier::ext_equal]
pub struct FileFrameView {
    pub direction: Option<Direction>,
    pub operation: Option<Operation>,
    pub codec: Option<Codec>,
    pub chunking_status: Option<ChunkingStatus>,
    pub chunks: Seq<u8>,
}

impl View for FileFrame {
    type V = FileFrameView;

    open spec fn view(&self) -> FileFrameView {
        FileFrameView {
            direction: self.direction,
            operation: self.operation,
            codec: self.codec,
            chunking_status: self.chunking_status,
            chunks: self.chunks@,
        }
    }
}

impl FileFrameView {
    /// Every header of the frame is set.
    pub open spec fn complete(self) -> bool {
        self.direction is Some && self.operation is Some && self.codec is Some
            && self.chunking_status is Some
    }

    /// The headers of a complete frame.
    pub open spec fn headers(self) -> Seq<u8> {
        seq![
            self.direction->0.code(),
            self.operation->0.code(),
            self.codec->0.code(),
            self.chunking_status->0.code(),
        ]
    }

    /// The frame as it is sent.
    pub open spec fn layout(self, framing: Framing) -> Result<Seq<u8>, FileFrameStatus> {
        if self.complete() {
            Ok(framing.encoded(self.headers(), self.chunks))
        } else {
            Err(FileFrameStatus::NotValidFrame)
        }
    }

    /// The frame that bytes stand for: four headers, the second of which is that of a move, and the
    /// piece of the file.
    pub open spec fn decoded(bytes: Seq<u8>) -> Result<FileFrameView, FileFrameStatus> {
        if bytes.len() < 2 || Direction::of_code(bytes[0]) is None || Operation::of_code(bytes[1])
            is None {
            Err(FileFrameStatus::NotValidFrame)
        } else if Operation::of_code(bytes[1]) != Some(Operation::Move) {
            Err(FileFrameStatus::NotCorrectFrame)
        } else if bytes.len() < 4 || Codec::of_code(bytes[2]) is None || ChunkingStatus::of_code(
            bytes[3],
        ) is None {
            Err(FileFrameStatus::NotValidFrame)
        } else {
            Ok(
                FileFrameView {
                    direction: Direction::of_code(bytes[0]),
                    operation: Operation::of_code(bytes[1]),
                    codec: Codec::of_code(bytes[2]),
                    chunking_status: ChunkingStatus::of_code(bytes[3]),
                    chunks: bytes.skip(4),
                },
            )
        }
    }
}

impl Clone for FileFrame {
    fn clone(&self) -> (copy: Self)
        ensures
            copy@ == self@,
    {
        FileFrame {
            direction: self.direction,
            operation: self.operation,
            codec: self.codec,
            chunking_status: self.chunking_status,
            chunks: self.chunks.clone(),
        }
    }
}

impl Default for FileFrame {
    fn default() -> (frame: Self)
        ensures
            frame@ == (FileFrameView {
                direction: None,
                operation: None,
                codec: None,
                chunking_status: None,
                chunks: Seq::empty(),
            }),
    {
        FileFrame {
            direction: None,
            operation: None,
            codec: None,
            chunking_status: None,
            chunks: Vec::new(),
        }
    }
}

impl FileFrame {
    /// A frame with these headers that carries nothing yet.
    pub fn new(
        direction: Direction,
        operation: Operation,
        codec: Codec,
        chunking_status: ChunkingStatus,
    ) -> (frame: Self)
        ensures
            frame@ == (FileFrameView {
                direction: Some(direction),
                operation: Some(operation),
                codec: Some(codec),
                chunking_status: Some(chunking_status),
                chunks: Seq::empty(),
            }),
    {
        FileFrame {
            direction: Some(direction),
            operation: Some(operation),
            codec: Some(codec),
            chunking_status: Some(chunking_status),
            chunks: Vec::new(),
        }
    }

    /// Adds to what the frame carries.
    pub fn append_bytes_send(&mut self, bytes: Vec<u8>)
        ensures
            final(self)@ == (FileFrameView { chunks: old(self)@.chunks + bytes@, ..old(self)@ }),
    {
        let mut added = bytes;
        self.chunks.append(&mut added);
    }

    /// Empties the frame.
    pub fn flush(&mut self)
        ensures
            final(self)@ == (FileFrameView { chunks: Seq::empty(), ..old(self)@ }),
    {
        self.chunks = Vec::new();
    }
}

impl HandleWithDelims for FileFrame {
    open spec fn fits(&self, framing: Framing) -> bool {
        self@.complete() ==> framing.can_encode()
    }

    open spec fn layout(&self, framing: Framing) -> Result<Seq<u8>, FileFrameStatus> {
        self@.layout(framing)
    }

    fn to_bytes(
        &self,
        escape_byte: Option<u8>,
        starting_delimiter: Option<Vec<u8>>,
        ending_delimiter: Option<Vec<u8>>,
    ) -> Result<Vec<u8>, FileFrameStatus> {
        let mut headers: Vec<u8> = Vec::new();
        match (self.direction, self.operation, self.codec, self.chunking_status) {
            (Some(direction), Some(operation), Some(codec), Some(chunking_status)) => {
                headers.push(direction.to_byte());
                headers.push(operation.to_byte());
                headers.push(codec.to_byte());
                headers.push(chunking_status.to_byte());
            },
            _ => {
                return Err(FileFrameStatus::NotValidFrame);
            },
        }
        assert(headers@ =~= self@.headers());
        let encoder = FrameEncoder::new(starting_delimiter, ending_delimiter, escape_byte);
        Ok(encoder.encode_bytes(headers, self.chunks.clone()))
    }
}

/// Tells the receiver where the files that follow are to be written.
#[derive(Debug)]
pub struct SetFrame {
    pub direction: Option<Direction>,
    pub operation: Option<Operation>,
    pub state_id: u8,
    pub chunks: Vec<u8>,
}

/// What a `SetFrame` holds.
#[verifier::ext_equal]
pub struct SetFrameView {
    pub direction: Option<Direction>,
    pub operation: Option<Operation>,
    pub state_id: u8,
    pub chunks: Seq<u8>,
}

impl View for SetFrame {
    type V = SetFrameView;

    open spec fn view(&self) -> SetFrameView {
        SetFrameView {
            direction: self.direction,
            operation: self.operation,
            state_id: self.state_id,
            chunks: self.chunks@,
        }
    }
}

impl SetFrameView {
    /// Every header of the frame is set.
    pub open spec fn complete(self) -> bool {
        self.direction is Some && self.operation is Some
    }

    /// The headers of a complete frame.
    pub open spec fn headers(self) -> Seq<u8> {
        seq![self.direction->0.code(), self.operation->0.code()]
    }

    /// What follows the headers.
    pub open spec fn content(self) -> Seq<u8> {
        seq![self.state_id] + self.chunks
    }

    /// The frame as it is sent.
    pub open spec fn layout(self, framing: Framing) -> Result<Seq<u8>, FileFrameStatus> {
        if self.complete() {
            Ok(framing.encoded(self.headers(), self.content()))
        } else {
            Err(FileFrameStatus::NotValidFrame)
        }
    }

    /// The frame that bytes stand for: two headers, the second of which is that of setting a
    /// location, the state that is meant, and the location.
    pub open spec fn decoded(bytes: Seq<u8>) -> Result<SetFrameView, FileFrameStatus> {
        if bytes.len() < 2 || Direction::of_code(bytes[0]) is None || Operation::of_code(bytes[1])
            is None {
            Err(FileFrameStatus::NotValidFrame)
        } else if Operation::of_code(bytes[1]) != Some(Operation::SetLocation) {
            Err(FileFrameStatus::NotCorrectFrame)
        } else if bytes.len() < 3 {
            Err(FileFrameStatus::NotValidFrame)
        } else {
            Ok(
                SetFrameView {
                    direction: Direction::of_code(bytes[0]),
                    operation: Operation::of_code(bytes[1]),
                    state_id: bytes[2],
                    chunks: bytes.skip(3),
                },
            )
        }
    }
}

impl Clone for SetFrame {
    fn clone(&self) -> (copy: Self)
        ensures
            copy@ == self@,
    {
        SetFrame {
            direction: self.direction,
            operation: self.operation,
            state_id: self.state_id,
            chunks: self.chunks.clone(),
        }
    }
}

impl Default for SetFrame {
    fn default() -> (frame: Self)
        ensures
            frame@ == (SetFrameView {
                direction: None,
                operation: None,
                state_id: 0,
                chunks: Seq::empty(),
            }),
    {
        SetFrame { direction: None, operation: None, state_id: 0, chunks: Vec::new() }
    }
}

impl SetFrame {
    /// A frame that sets the location of a state.
    pub fn new(direction: Option<Direction>, state_id: u8, chunks: Vec<u8>) -> (frame: SetFrame)
        ensures
            frame@ == (SetFrameView {
                direction,
                operation: Some(Operation::SetLocation),
                state_id,
                chunks: chunks@,
            }),
    {
        SetFrame { direction, operation: Some(Operation::SetLocation), state_id, chunks }
    }
}

impl HandleWithDelims for SetFrame {
    open spec fn fits(&self, framing: Framing) -> bool {
        self@.complete() ==> framing.can_encode()
    }

    open spec fn layout(&self, framing: Framing) -> Result<Seq<u8>, FileFrameStatus> {
        self@.layout(framing)
    }

    fn to_bytes(
        &self,
        escape_byte: Option<u8>,
        starting_delimiter: Option<Vec<u8>>,
        ending_delimiter: Option<Vec<u8>>,
    ) -> Result<Vec<u8>, FileFrameStatus> {
        let mut headers: Vec<u8> = Vec::new();
        match (self.direction, self.operation) {
            (Some(direction), Some(operation)) => {
                headers.push(direction.to_byte());
                headers.push(operation.to_byte());
            },
            _ => {
                return Err(FileFrameStatus::NotValidFrame);
            },
        }
        assert(headers@ =~= self@.headers());
        let mut chunks_with_state: Vec<u8> = Vec::new();
        chunks_with_state.push(self.state_id);
        chunks_with_state.extend_from_slice(self.chunks.as_slice());
        assert(chunks_with_state@ =~= self@.content());
        let encoder = FrameEncoder::new(starting_delimiter, ending_delimiter, escape_byte);
        Ok(encoder.encode_bytes(headers, chunks_with_state))
    }
}

/// Tells the receiver that a file has been sent whole.
#[derive(Debug)]
pub struct EofFrame {
    pub direction: Option<Direction>,
    pub operation: Option<Operation>,
}

impl EofFrame {
    /// Every header of the frame is set.
    pub open spec fn complete(self) -> bool {
        self.direction is Some && self.operation is Some
    }

    /// The headers of a complete frame.
    pub open spec fn headers(self) -> Seq<u8> {
        seq![self.direction->0.code(), self.operation->0.code()]
    }

    /// The frame as it is sent.
    pub open spec fn wire(self, framing: Framing) -> Result<Seq<u8>, FileFrameStatus> {
        if self.complete() {
            Ok(framing.encoded(self.headers(), Seq::empty()))
        } else {
            Err(FileFrameStatus::NotValidFrame)
        }
    }

    /// The frame that bytes stand for: two headers, the second of which is that of the end of a
    /// file, whatever follows them.
    pub open spec fn decoded(bytes: Seq<u8>) -> Result<EofFrame, FileFrameStatus> {
        if bytes.len() < 2 || Direction::of_code(bytes[0]) is None || Operation::of_code(bytes[1])
            is None {
            Err(FileFrameStatus::NotValidFrame)
        } else if Operation::of_code(bytes[1]) != Some(Operation::Eof) {
            Err(FileFrameStatus::NotCorrectFrame)
        } else {
            Ok(
                EofFrame {
                    direction: Direction::of_code(bytes[0]),
                    operation: Operation::of_code(bytes[1]),
                },
            )
        }
    }

    /// A frame that ends a file.
    pub fn new(direction: Option<Direction>) -> (frame: EofFrame)
        ensures
            frame == (EofFrame { direction, operation: Some(Operation::Eof) }),
    {
        EofFrame { direction, operation: Some(Operation::Eof) }
    }
}

impl Clone for EofFrame {
    fn clone(&self) -> (copy: Self)
        ensures
            copy == *self,
    {
        EofFrame { direction: self.direction, operation: self.operation }
    }
}

impl Default for EofFrame {
    fn default() -> (frame: Self)
        ensures
            frame == (EofFrame { direction: None, operation: None }),
    {
        EofFrame { direction: None, operation: None }
    }
}

impl HandleWithDelims for EofFrame {
    open spec fn fits(&self, framing: Framing) -> bool {
        self.complete() ==> framing.can_encode()
    }

    open spec fn layout(&self, framing: Framing) -> Result<Seq<u8>, FileFrameStatus> {
        self.wire(framing)
    }

    fn to_bytes(
        &self,
        escape_byte: Option<u8>,
        starting_delimiter: Option<Vec<u8>>,
        ending_delimiter: Option<Vec<u8>>,
    ) -> Result<Vec<u8>, FileFrameStatus> {
        let mut headers: Vec<u8> = Vec::new();
        match (self.direction, self.operation) {
            (Some(direction), Some(operation)) => {
                headers.push(direction.to_byte());
                headers.push(operation.to_byte());
            },
            _ => {
                return Err(FileFrameStatus::NotValidFrame);
            },
        }
        assert(headers@ =~= self.headers());
        let encoder = FrameEncoder::new(starting_delimiter, ending_delimiter, escape_byte);
        Ok(encoder.encode_bytes(headers, Vec::new()))
    }
}

} // verus!

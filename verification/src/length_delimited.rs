//! A file as a sequence of messages that carry their length, and the receiver that puts it together
//! again.
use crate::little_endian::{
    bytes_of, from_le_bytes, lemma_eight_bytes, lemma_value_of_bytes, to_le_bytes, value_of,
};
use crate::matching::part;
use crate::size_bytes::{
    as_slice, is_full, no_bytes, remaining_capacity, stored, try_extend_from_slice,
};
use arrayvec::ArrayVec;
use vstd::prelude::*;
use vstd::slice::slice_subrange;

verus! {

/// The longest message.
pub const MAX_CHUNK_SIZE: usize = 4076;

/// Where the length stands in a message: behind its kind.
pub const LENGTH_OFFSET: usize = 1;

/// How many bytes the length takes.
pub const LENGTH_SIZE: usize = 8;

/// Where the data stands in a message.
pub const DATA_OFFSET: usize = LENGTH_OFFSET + LENGTH_SIZE;

/// The most data that fits into a message.
pub const MAX_DATA_SIZE: usize = MAX_CHUNK_SIZE - DATA_OFFSET;

/// `std::io::Error`, which reading and writing can end in.
#[verifier::external_type_specification]
#[verifier::external_body]
pub struct ExIoError(std::io::Error);

/// What a message is.
#[derive(Clone, Copy, Debug, PartialEq, Eq, Structural)]
pub enum MessageKind {
    /// A length and that much of the file.
    FileChunk,
    /// The end of the file.
    Eof,
}

impl MessageKind {
    /// The byte that stands for this kind.
    pub open spec fn code(self) -> u8 {
        match self {
            MessageKind::FileChunk => 1,
            MessageKind::Eof => 2,
        }
    }

    /// The byte that stands for this kind.
    pub fn to_byte(self) -> (byte: u8)
        ensures
            byte == self.code(),
    {
        match self {
            MessageKind::FileChunk => 1,
            MessageKind::Eof => 2,
        }
    }

    /// The kind that a byte stands for.
    pub fn from(val: u8) -> (kind: MessageKind)
        requires
            val == MessageKind::FileChunk.code() || val == MessageKind::Eof.code(),
        ensures
            kind.code() == val,
    {
        if val == 1 {
            MessageKind::FileChunk
        } else {
            MessageKind::Eof
        }
    }
}

/// The message that carries `data`.
pub open spec fn chunk_message(data: Seq<u8>) -> Seq<u8> {
    seq![MessageKind::FileChunk.code()] + bytes_of(data.len(), LENGTH_SIZE as nat) + data
}

/// The message that ends a file.
pub open spec fn eof_message() -> Seq<u8> {
    seq![MessageKind::Eof.code()]
}

/// What asking a sender for a message comes to.
pub enum FileSenderResult<'a> {
    /// This message is to be sent.
    Chunk(&'a [u8]),
    /// Nothing is to be sent now.
    NoData,
    /// Everything has been sent.
    Eof,
    /// The file could not be read.
    Failed(std::io::Error),
}

/// Cuts a file into messages.
pub struct FileSender {
    pub buf: Vec<u8>,
    pub reached_eof: bool,
}

impl FileSender {
    /// A message fits into the buffer.
    pub open spec fn wf(&self) -> bool {
        self.buf@.len() == MAX_CHUNK_SIZE
    }

    /// A sender that has sent nothing.
    pub fn new() -> (sender: Self)
        ensures
            sender.wf(),
            forall|i: int| 0 <= i < MAX_CHUNK_SIZE ==> sender.buf@[i] == 0,
            !sender.reached_eof,
    {
        let mut buf: Vec<u8> = Vec::new();
        while buf.len() < MAX_CHUNK_SIZE
            invariant
                buf@.len() <= MAX_CHUNK_SIZE,
                forall|i: int| 0 <= i < buf@.len() ==> buf@[i] == 0,
            decreases MAX_CHUNK_SIZE - buf@.len(),
        {
            buf.push(0);
        }
        FileSender { buf, reached_eof: false }
    }

    /// The next message, given whether the file has more data: the end of the file, once, when it has
    /// not. Otherwise data is to be read, and given to `fill_chunk`.
    pub fn get_chunk(&mut self, has_data_left: Result<bool, std::io::Error>) -> (message: Option<
        FileSenderResult<'_>,
    >)
        requires
            old(self).wf(),
        ensures
            final(self).wf(),
            match has_data_left {
                Ok(true) => message is None && *final(self) == *old(self),
                Ok(false) => if old(self).reached_eof {
                    message == Some(FileSenderResult::Eof) && *final(self) == *old(self)
                } else {
                    &&& message matches Some(FileSenderResult::Chunk(bytes))
                    &&& bytes@ == eof_message()
                    &&& final(self).reached_eof
                    &&& final(self).buf@ == eof_message() + old(self).buf@.skip(
                        LENGTH_OFFSET as int,
                    )
                },
                Err(error) => message == Some(FileSenderResult::Failed(error)) && *final(self)
                    == *old(self),
            },
    {
        match has_data_left {
            Err(error) => Some(FileSenderResult::Failed(error)),
            Ok(true) => None,
            Ok(false) => {
                if self.reached_eof {
                    return Some(FileSenderResult::Eof);
                }
                self.reached_eof = true;
                self.buf[0] = MessageKind::Eof.to_byte();
                assert(self.buf@ =~= eof_message() + old(self).buf@.skip(LENGTH_OFFSET as int));
                let message = slice_subrange(self.buf.as_slice(), 0, LENGTH_OFFSET);
                assert(message@ =~= eof_message());
                Some(FileSenderResult::Chunk(message))
            },
        }
    }

    /// The message for data that has been read.
    pub fn fill_chunk(&mut self, read: Result<Vec<u8>, std::io::Error>) -> (message:
        FileSenderResult<'_>)
        requires
            old(self).wf(),
            read matches Ok(data) ==> data@.len() <= MAX_DATA_SIZE,
        ensures
            final(self).wf(),
            final(self).reached_eof == old(self).reached_eof,
            match read {
                Ok(data) => if data@.len() == 0 {
                    message == FileSenderResult::NoData && *final(self) == *old(self)
                } else {
                    &&& message matches FileSenderResult::Chunk(bytes)
                    &&& bytes@ == chunk_message(data@)
                    &&& final(self).buf@ == chunk_message(data@) + old(self).buf@.skip(
                        DATA_OFFSET + data@.len(),
                    )
                },
                Err(error) => message == FileSenderResult::Failed(error) && *final(self)
                    == *old(self),
            },
    {
        let data = match read {
            Ok(data) => data,
            Err(error) => {
                return FileSenderResult::Failed(error);
            },
        };
        if data.len() == 0 {
            return FileSenderResult::NoData;
        }
        self.buf[0] = MessageKind::FileChunk.to_byte();
        let length = to_le_bytes(data.len() as u64);
        let mut i: usize = 0;
        while i < LENGTH_SIZE
            invariant
                i <= LENGTH_SIZE,
                self.wf(),
                self.reached_eof == old(self).reached_eof,
                length@.len() == LENGTH_SIZE,
                self.buf@[0] == MessageKind::FileChunk.code(),
                forall|k: int| 0 <= k < i ==> self.buf@[LENGTH_OFFSET + k] == length@[k],
                forall|k: int|
                    LENGTH_OFFSET + i <= k < MAX_CHUNK_SIZE ==> self.buf@[k] == old(self).buf@[k],
            decreases LENGTH_SIZE - i,
        {
            self.buf[LENGTH_OFFSET + i] = length[i];
            i += 1;
        }
        let mut j: usize = 0;
        while j < data.len()
            invariant
                j <= data@.len() <= MAX_DATA_SIZE,
                self.wf(),
                self.reached_eof == old(self).reached_eof,
                length@.len() == LENGTH_SIZE,
                self.buf@[0] == MessageKind::FileChunk.code(),
                forall|k: int|
                    0 <= k < LENGTH_SIZE ==> self.buf@[LENGTH_OFFSET + k] == #[trigger] length@[k],
                forall|k: int| 0 <= k < j ==> self.buf@[DATA_OFFSET + k] == #[trigger] data@[k],
                forall|k: int|
                    DATA_OFFSET + j <= k < MAX_CHUNK_SIZE ==> self.buf@[k] == old(self).buf@[k],
            decreases data@.len() - j,
        {
            self.buf[DATA_OFFSET + j] = data[j];
            j += 1;
        }
        let message = slice_subrange(self.buf.as_slice(), 0, DATA_OFFSET + data.len());
        proof {
            assert forall|k: int| 0 <= k < message@.len() implies message@[k] == chunk_message(
                data@,
            )[k] by {
                if LENGTH_OFFSET <= k < DATA_OFFSET {
                    assert(self.buf@[LENGTH_OFFSET + (k - LENGTH_OFFSET)] == length@[k
                        - LENGTH_OFFSET]);
                } else if DATA_OFFSET <= k {
                    assert(self.buf@[DATA_OFFSET + (k - DATA_OFFSET)] == data@[k - DATA_OFFSET]);
                }
            }
            assert(message@ =~= chunk_message(data@));
            assert(self.buf@ =~= message@ + old(self).buf@.skip(DATA_OFFSET + data@.len()));
        }
        FileSenderResult::Chunk(message)
    }
}

/// Where a receiver stands in the message that is arriving.
pub enum FileReceiverState {
    /// A message is about to begin.
    ReadingKind,
    /// These bytes of the length have arrived, and more are to come.
    ReadingSize(ArrayVec<u8, 8>),
    /// So much of the data is still to come.
    ReadingChunkData(u64),
    /// The end of the file has arrived.
    Done,
}

/// Where a receiver stands in the message that is arriving.
#[verifier::ext_equal]
pub enum ReceiverView {
    ReadingKind,
    ReadingSize(Seq<u8>),
    ReadingChunkData(nat),
    Done,
}

impl View for FileReceiverState {
    type V = ReceiverView;

    open spec fn view(&self) -> ReceiverView {
        match *self {
            FileReceiverState::ReadingKind => ReceiverView::ReadingKind,
            FileReceiverState::ReadingSize(bytes) => ReceiverView::ReadingSize(stored(bytes)),
            FileReceiverState::ReadingChunkData(left) => ReceiverView::ReadingChunkData(
                left as nat,
            ),
            FileReceiverState::Done => ReceiverView::Done,
        }
    }
}

/// What is wrong with bytes that are no messages.
#[derive(Clone, Copy, Debug, PartialEq, Eq, Structural)]
pub enum Malformed {
    /// No kind of message has this byte.
    Kind(u8),
    /// No message has this much data.
    Size(u64),
}

impl ReceiverView {
    /// A length that is not whole yet has fewer bytes than a whole one, and no message has more data
    /// than fits into it.
    pub open spec fn wf(self) -> bool {
        match self {
            ReceiverView::ReadingSize(bytes) => bytes.len() < LENGTH_SIZE,
            ReceiverView::ReadingChunkData(left) => left <= MAX_DATA_SIZE,
            _ => true,
        }
    }

    /// The receiver after more bytes of a length have arrived.
    pub open spec fn with_size(bytes: Seq<u8>) -> ReceiverView {
        if bytes.len() < LENGTH_SIZE {
            ReceiverView::ReadingSize(bytes)
        } else {
            ReceiverView::ReadingChunkData(value_of(bytes))
        }
    }

    /// The receiver after so much of the data has been written.
    pub open spec fn after_writing(self, count: nat) -> ReceiverView {
        if self->ReadingChunkData_0 == count {
            ReceiverView::ReadingKind
        } else {
            ReceiverView::ReadingChunkData((self->ReadingChunkData_0 - count) as nat)
        }
    }

    /// How many of `bytes` belong to the length.
    pub open spec fn size_bytes_in(self, bytes: Seq<u8>) -> int {
        let missing = LENGTH_SIZE - self->ReadingSize_0.len();
        if missing <= bytes.len() {
            missing
        } else {
            bytes.len() as int
        }
    }

    /// How the receiver stands when it has read on in `bytes` until data is to be written, the file
    /// has ended, or there are no more bytes; and how many bytes it has read.
    pub open spec fn read_on(self, bytes: Seq<u8>) -> (ReceiverView, int)
        decreases
                (if self is ReadingKind {
                    1nat
                } else {
                    0nat
                }),
    {
        match self {
            ReceiverView::ReadingKind => if bytes.len() == 0 {
                (self, 0)
            } else if bytes[0] == MessageKind::Eof.code() {
                (ReceiverView::Done, 0)
            } else {
                let sized = ReceiverView::ReadingSize(Seq::empty()).read_on(bytes.skip(1));
                (sized.0, sized.1 + 1)
            },
            ReceiverView::ReadingSize(size_bytes) => {
                let count = self.size_bytes_in(bytes);
                (ReceiverView::with_size(size_bytes + bytes.take(count)), count)
            },
            _ => (self, 0),
        }
    }

    /// What is wrong with the first thing that is read of `bytes`, if anything is.
    pub open spec fn malformed(self, bytes: Seq<u8>) -> Option<Malformed>
        decreases
                (if self is ReadingKind {
                    1nat
                } else {
                    0nat
                }),
    {
        match self {
            ReceiverView::ReadingKind => if bytes.len() == 0 || bytes[0] == MessageKind::Eof.code() {
                None
            } else if bytes[0] != MessageKind::FileChunk.code() {
                Some(Malformed::Kind(bytes[0]))
            } else {
                ReceiverView::ReadingSize(Seq::empty()).malformed(bytes.skip(1))
            },
            ReceiverView::ReadingSize(size_bytes) => {
                let whole = size_bytes + bytes.take(self.size_bytes_in(bytes));
                if whole.len() < LENGTH_SIZE || value_of(whole) <= MAX_DATA_SIZE {
                    None
                } else {
                    Some(Malformed::Size(value_of(whole) as u64))
                }
            },
            _ => None,
        }
    }
}

/// What is to be done with the bytes that a receiver was given.
#[derive(Clone, Copy, Debug, PartialEq, Eq, Structural)]
pub enum ReceiverAction {
    /// Nothing more: all of them have been read.
    AllRead,
    /// Write the bytes from position `from` up to position `to`.
    Write { from: usize, to: usize },
    /// Nothing: the file is whole.
    Finished,
}

/// How many of the bytes that are there can be written.
pub open spec fn writable(left: nat, there: nat) -> nat {
    if there <= left {
        there
    } else {
        left
    }
}

/// Puts a file together again.
pub struct FileReceiver {
    pub state: FileReceiverState,
}

impl View for FileReceiver {
    type V = ReceiverView;

    open spec fn view(&self) -> ReceiverView {
        self.state@
    }
}

impl FileReceiver {
    /// A receiver that nothing has arrived at.
    pub fn new() -> (receiver: Self)
        ensures
            receiver@ == ReceiverView::ReadingKind,
    {
        FileReceiver { state: FileReceiverState::ReadingKind }
    }

    /// Whether the first thing that would be read of `data`, from position `offset` on, is no part of
    /// a message.
    pub fn check(&self, data: &[u8], offset: usize) -> (problem: Option<Malformed>)
        requires
            self@.wf(),
            offset <= data@.len(),
        ensures
            problem == self@.malformed(data@.skip(offset as int)),
    {
        let ghost ahead = data@.skip(offset as int);
        let mut from: usize = offset;
        let mut size: Vec<u8> = Vec::new();
        match &self.state {
            FileReceiverState::ReadingKind => {
                if from == data.len() || data[from] == MessageKind::Eof.to_byte() {
                    return None;
                }
                if data[from] != MessageKind::FileChunk.to_byte() {
                    return Some(Malformed::Kind(data[from]));
                }
                from += 1;
            },
            FileReceiverState::ReadingSize(size_bytes) => {
                let there = as_slice(size_bytes);
                size = part(there, 0, there.len());
                assert(size@ =~= stored(*size_bytes));
            },
            _ => {
                return None;
            },
        }
        let ghost sizing = ReceiverView::ReadingSize(size@);
        let ghost begun = size@;
        let ghost size_ahead = data@.skip(from as int);
        proof {
            if self@ is ReadingKind {
                assert(size_ahead =~= ahead.skip(1));
                assert(size@ =~= Seq::empty());
            }
        }
        assert(self@.malformed(ahead) == sizing.malformed(size_ahead));
        let ghost before = from;
        let length = data.len();
        assert(begun + size_ahead.take(0) =~= begun);
        while from < length && size.len() < LENGTH_SIZE
            invariant
                before <= from <= length == data@.len(),
                begun.len() < LENGTH_SIZE,
                size@.len() == begun.len() + (from - before) <= LENGTH_SIZE,
                size_ahead == data@.skip(before as int),
                size@ == begun + size_ahead.take(from - before),
            decreases length - from,
        {
            size.push(data[from]);
            from += 1;
            assert(size@ =~= begun + size_ahead.take(from - before));
        }
        assert(from - before == sizing.size_bytes_in(size_ahead));
        if size.len() < LENGTH_SIZE {
            return None;
        }
        let chunk_size = from_le_bytes(size.as_slice());
        if chunk_size <= MAX_DATA_SIZE as u64 {
            None
        } else {
            Some(Malformed::Size(chunk_size))
        }
    }

    /// Reads on in `data` from position `offset`, until something is to be written, the file has
    /// ended, or there is no more. Reading goes on when `written` has been told of what was written.
    pub fn receive_chunk(&mut self, data: &[u8], offset: &mut usize) -> (action: ReceiverAction)
        requires
            old(self)@.wf(),
            *old(offset) <= data@.len(),
            old(self)@.malformed(data@.skip(*old(offset) as int)) is None,
        ensures
            final(self)@.wf(),
            ({
                let reached = old(self)@.read_on(data@.skip(*old(offset) as int));
                let there = data@.len() - *final(offset);
                &&& final(self)@ == reached.0
                &&& *final(offset) == *old(offset) + reached.1
                &&& *final(offset) <= data@.len()
                &&& action == if there == 0 {
                    ReceiverAction::AllRead
                } else if reached.0 is Done {
                    ReceiverAction::Finished
                } else {
                    ReceiverAction::Write {
                        from: *final(offset),
                        to: (*final(offset) + writable(
                            reached.0->ReadingChunkData_0,
                            there as nat,
                        )) as usize,
                    }
                }
                &&& there > 0 ==> reached.0 is Done || reached.0 is ReadingChunkData
            }),
    {
        let ghost start = *offset as int;
        let ghost ahead = data@.skip(start);
        let length = data.len();
        if *offset == length {
            assert(ahead.take(0) =~= Seq::empty());
            assert(forall|bytes: Seq<u8>| bytes + ahead.take(0) =~= bytes);
            return ReceiverAction::AllRead;
        }
        if let FileReceiverState::ReadingKind = &self.state {
            match MessageKind::from(data[*offset]) {
                MessageKind::Eof => {
                    self.state = FileReceiverState::Done;
                },
                MessageKind::FileChunk => {
                    *offset += 1;
                    self.state = FileReceiverState::ReadingSize(no_bytes());
                    assert(ahead.skip(1) =~= data@.skip(*offset as int));
                },
            }
        }
        let ghost sizing = self@;
        let ghost size_start = *offset as int;
        let ghost size_ahead = data@.skip(size_start);
        assert(old(self)@.malformed(ahead) == sizing.malformed(size_ahead));
        assert(old(self)@.read_on(ahead).0 == sizing.read_on(size_ahead).0);
        assert(start + old(self)@.read_on(ahead).1 == size_start + sizing.read_on(size_ahead).1);
        let mut whole: Option<u64> = None;
        if let FileReceiverState::ReadingSize(size_bytes) = &mut self.state {
            let room = remaining_capacity(size_bytes);
            let read_bytes = if room <= length - *offset {
                room
            } else {
                length - *offset
            };
            let more = slice_subrange(data, *offset, *offset + read_bytes);
            assert(more@ =~= size_ahead.take(read_bytes as int));
            try_extend_from_slice(size_bytes, more);
            *offset += read_bytes;
            if is_full(size_bytes) {
                whole = Some(from_le_bytes(as_slice(size_bytes)));
            }
        }
        if let Some(chunk_size) = whole {
            self.state = FileReceiverState::ReadingChunkData(chunk_size);
        }
        assert(self@ == sizing.read_on(size_ahead).0);
        if *offset == length {
            return ReceiverAction::AllRead;
        }
        match &self.state {
            FileReceiverState::ReadingChunkData(remaining_bytes) => {
                let there = length - *offset;
                let read_bytes = if there as u64 <= *remaining_bytes {
                    there
                } else {
                    *remaining_bytes as usize
                };
                ReceiverAction::Write { from: *offset, to: *offset + read_bytes }
            },
            _ => ReceiverAction::Finished,
        }
    }

    /// Takes in that `count` bytes of the data have been written.
    pub fn written(&mut self, count: usize)
        requires
            old(self)@ is ReadingChunkData,
            old(self)@.wf(),
            count <= old(self)@->ReadingChunkData_0,
        ensures
            final(self)@ == old(self)@.after_writing(count as nat),
            final(self)@.wf(),
    {
        if let FileReceiverState::ReadingChunkData(remaining_bytes) = &self.state {
            let left = *remaining_bytes - count as u64;
            self.state = if left == 0 {
                FileReceiverState::ReadingKind
            } else {
                FileReceiverState::ReadingChunkData(left)
            };
        }
    }
}

impl ReceiverView {
    /// The receiver after one more byte, and what is written of it. A byte that makes no message is
    /// not taken.
    pub open spec fn after_byte(self, byte: u8) -> Option<(ReceiverView, Seq<u8>)>
        decreases
                (if self is ReadingKind {
                    0nat
                } else {
                    1nat
                }),
    {
        match self {
            ReceiverView::ReadingKind => if byte == MessageKind::FileChunk.code() {
                Some((ReceiverView::ReadingSize(Seq::empty()), Seq::empty()))
            } else if byte == MessageKind::Eof.code() {
                Some((ReceiverView::Done, Seq::empty()))
            } else {
                None
            },
            ReceiverView::ReadingSize(size_bytes) => {
                let more = size_bytes.push(byte);
                if more.len() < LENGTH_SIZE || value_of(more) <= MAX_DATA_SIZE {
                    Some((ReceiverView::with_size(more), Seq::empty()))
                } else {
                    None
                }
            },
            ReceiverView::ReadingChunkData(left) => if left == 0 {
                ReceiverView::ReadingKind.after_byte(byte)
            } else {
                Some((self.after_writing(1), seq![byte]))
            },
            ReceiverView::Done => Some((ReceiverView::Done, Seq::empty())),
        }
    }

    /// The receiver after these bytes, and what is written of them; nothing where they are no messages.
    pub open spec fn run(self, bytes: Seq<u8>) -> Option<(ReceiverView, Seq<u8>)>
        decreases bytes.len(),
    {
        if bytes.len() == 0 {
            Some((self, Seq::empty()))
        } else {
            match self.after_byte(bytes[0]) {
                Some((next, wrote)) => match next.run(bytes.drop_first()) {
                    Some((last, more)) => Some((last, wrote + more)),
                    None => None,
                },
                None => None,
            }
        }
    }
}

/// It does not matter how the bytes are cut when they arrive: those of `first` and then those of
/// `second` leave the receiver, and the file, as all of them at once do.
pub proof fn law_fragments_add_up(receiver: ReceiverView, first: Seq<u8>, second: Seq<u8>)
    ensures
        receiver.run(first + second) == match receiver.run(first) {
            Some((between, wrote)) => match between.run(second) {
                Some((last, more)) => Some((last, wrote + more)),
                None => None,
            },
            None => None,
        },
    decreases first.len(),
{
    let all = first + second;
    if first.len() == 0 {
        assert(all =~= second);
        if let Some((last, more)) = receiver.run(second) {
            assert(Seq::<u8>::empty() + more =~= more);
        }
    } else {
        assert(all.drop_first() =~= first.drop_first() + second);
        if let Some((next, wrote)) = receiver.after_byte(first[0]) {
            law_fragments_add_up(next, first.drop_first(), second);
            if let Some((between, more)) = next.run(first.drop_first()) {
                if let Some((last, rest)) = between.run(second) {
                    assert(wrote + (more + rest) =~= (wrote + more) + rest);
                }
            }
        }
    }
}

/// Once the file has ended, nothing that arrives is written or changes the receiver.
pub proof fn law_nothing_follows_the_end(bytes: Seq<u8>)
    ensures
        ReceiverView::Done.run(bytes) == Some((ReceiverView::Done, Seq::<u8>::empty())),
    decreases bytes.len(),
{
    if bytes.len() > 0 {
        law_nothing_follows_the_end(bytes.drop_first());
        assert(Seq::<u8>::empty() + Seq::<u8>::empty() =~= Seq::<u8>::empty());
    }
}

/// Bytes of a length are gathered without anything being written.
proof fn lemma_size_gathers(size_bytes: Seq<u8>, bytes: Seq<u8>)
    requires
        size_bytes.len() < LENGTH_SIZE,
        ReceiverView::ReadingSize(size_bytes).malformed(bytes) is None,
    ensures
        ({
            let sizing = ReceiverView::ReadingSize(size_bytes);
            let count = sizing.size_bytes_in(bytes);
            sizing.run(bytes) == ReceiverView::with_size(size_bytes + bytes.take(count)).run(
                bytes.skip(count),
            )
        }),
    decreases bytes.len(),
{
    let sizing = ReceiverView::ReadingSize(size_bytes);
    let count = sizing.size_bytes_in(bytes);
    if bytes.len() == 0 {
        assert(size_bytes + bytes.take(0) =~= size_bytes);
        assert(bytes.skip(0) =~= bytes);
    } else {
        let more = size_bytes.push(bytes[0]);
        let rest = bytes.drop_first();
        if more.len() < LENGTH_SIZE {
            let next = ReceiverView::ReadingSize(more);
            let then = next.size_bytes_in(rest);
            assert(then == count - 1);
            assert(more + rest.take(then) =~= size_bytes + bytes.take(count));
            lemma_size_gathers(more, rest);
            assert(rest.skip(then) =~= bytes.skip(count));
        } else {
            assert(size_bytes + bytes.take(1) =~= more);
            assert(bytes.skip(1) =~= rest);
        }
        assert(sizing.after_byte(bytes[0]) == Some(
            (ReceiverView::with_size(more), Seq::<u8>::empty()),
        ));
        if let Some((last, wrote)) = ReceiverView::with_size(more).run(rest) {
            assert(Seq::<u8>::empty() + wrote =~= wrote);
        }
    }
}

/// A length that is too large is not taken.
proof fn lemma_size_refused(size_bytes: Seq<u8>, bytes: Seq<u8>)
    requires
        size_bytes.len() < LENGTH_SIZE,
        ReceiverView::ReadingSize(size_bytes).malformed(bytes) is Some,
    ensures
        ReceiverView::ReadingSize(size_bytes).run(bytes) is None,
    decreases bytes.len(),
{
    let sizing = ReceiverView::ReadingSize(size_bytes);
    let count = sizing.size_bytes_in(bytes);
    let more = size_bytes.push(bytes[0]);
    let rest = bytes.drop_first();
    if more.len() < LENGTH_SIZE {
        let then = ReceiverView::ReadingSize(more).size_bytes_in(rest);
        assert(more + rest.take(then) =~= size_bytes + bytes.take(count));
        lemma_size_refused(more, rest);
    } else {
        assert(size_bytes + bytes.take(1) =~= more);
    }
}

/// Bytes in which something malformed is found are no messages.
pub proof fn law_malformed_bytes_are_refused(receiver: ReceiverView, bytes: Seq<u8>)
    requires
        receiver.wf(),
        receiver.malformed(bytes) is Some,
    ensures
        receiver.run(bytes) is None,
{
    match receiver {
        ReceiverView::ReadingSize(size_bytes) => {
            lemma_size_refused(size_bytes, bytes);
        },
        _ => {
            let sizing = ReceiverView::ReadingSize(Seq::empty());
            assert(bytes.skip(1) =~= bytes.drop_first());
            if bytes[0] == MessageKind::FileChunk.code() {
                assert(receiver.malformed(bytes) == sizing.malformed(bytes.skip(1)));
                lemma_size_refused(Seq::empty(), bytes.skip(1));
            }
        },
    }
}

/// A receiver that reads on until something is to be done passes over bytes of which nothing is
/// written, and then stands as if it had taken them one by one. It only stops before the last byte where
/// data is to be written or the file has ended.
pub proof fn law_reading_on_takes_each_byte(receiver: ReceiverView, bytes: Seq<u8>)
    requires
        receiver.wf(),
        receiver.malformed(bytes) is None,
    ensures
        ({
            let reached = receiver.read_on(bytes);
            &&& 0 <= reached.1 <= bytes.len()
            &&& reached.0.wf()
            &&& reached.1 < bytes.len() ==> reached.0 is Done || reached.0 is ReadingChunkData
            &&& reached.0 is Done ==> reached.1 == 0
            &&& reached.0 is ReadingChunkData && reached.1 == 0 ==> reached.0 == receiver
            &&& receiver.run(bytes) == reached.0.run(bytes.skip(reached.1))
        }),
{
    match receiver {
        ReceiverView::ReadingSize(size_bytes) => {
            lemma_size_gathers(size_bytes, bytes);
        },
        ReceiverView::ReadingKind if bytes.len() > 0 => {
            let rest = bytes.skip(1);
            assert(bytes.drop_first() =~= rest);
            if bytes[0] == MessageKind::Eof.code() {
                law_nothing_follows_the_end(bytes);
                law_nothing_follows_the_end(rest);
                assert(bytes.skip(0) =~= bytes);
                assert(Seq::<u8>::empty() + Seq::<u8>::empty() =~= Seq::<u8>::empty());
            } else {
                let sizing = ReceiverView::ReadingSize(Seq::empty());
                assert(receiver.malformed(bytes) == sizing.malformed(rest));
                assert(receiver.read_on(bytes).0 == sizing.read_on(rest).0);
                lemma_size_gathers(Seq::empty(), rest);
                let count = sizing.size_bytes_in(rest);
                assert(rest.skip(count) =~= bytes.skip(count + 1));
                if let Some((last, wrote)) = sizing.run(rest) {
                    assert(Seq::<u8>::empty() + wrote =~= wrote);
                }
            }
        },
        _ => {
            assert(bytes.skip(0) =~= bytes);
        },
    }
}

/// A receiver that is told of data that was written stands as if it had taken its bytes one by one:
/// they are what was written.
pub proof fn law_writing_takes_each_byte(left: nat, bytes: Seq<u8>)
    requires
        bytes.len() > 0,
    ensures
        ({
            let receiver = ReceiverView::ReadingChunkData(left);
            let count = writable(left, bytes.len());
            receiver.run(bytes) == match receiver.after_writing(count).run(
                bytes.skip(count as int),
            ) {
                Some((last, more)) => Some((last, bytes.take(count as int) + more)),
                None => None,
            }
        }),
    decreases bytes.len(),
{
    let receiver = ReceiverView::ReadingChunkData(left);
    let count = writable(left, bytes.len());
    if left == 0 {
        assert(bytes.skip(0) =~= bytes);
        if let Some((last, more)) = ReceiverView::ReadingKind.run(bytes) {
            assert(bytes.take(0) + more =~= more);
        }
    } else {
        let rest = bytes.drop_first();
        let next = receiver.after_writing(1);
        if left == 1 || rest.len() == 0 {
            assert(bytes.skip(1) =~= rest);
            assert(bytes.take(1) =~= seq![bytes[0]]);
        } else {
            let then = writable((left - 1) as nat, rest.len());
            law_writing_takes_each_byte((left - 1) as nat, rest);
            assert(rest.skip(then as int) =~= bytes.skip(count as int));
            if let Some((last, more)) = next.after_writing(then).run(rest.skip(then as int)) {
                assert(seq![bytes[0]] + (rest.take(then as int) + more) =~= bytes.take(
                    count as int,
                ) + more);
            }
        }
    }
}

impl ReceiverView {
    /// How the receiver stands when it has read on in these bytes, step by step, and been told of each
    /// write; what was written; and whether it said that the file is whole. Nothing where something
    /// malformed is found before a step.
    pub open spec fn in_steps(self, bytes: Seq<u8>) -> Option<(ReceiverView, Seq<u8>, bool)>
        decreases
                bytes.len(),
                (if self == ReceiverView::ReadingChunkData(0) {
                    1nat
                } else {
                    0nat
                }),
        when self.wf()
        via Self::steps_end
    {
        let (reached, count) = self.read_on(bytes);
        let ahead = bytes.skip(count);
        if self.malformed(bytes) is Some {
            None
        } else if ahead.len() == 0 {
            Some((reached, Seq::empty(), false))
        } else if reached is Done {
            Some((reached, Seq::empty(), true))
        } else {
            let room = writable(reached->ReadingChunkData_0, ahead.len());
            match reached.after_writing(room).in_steps(ahead.skip(room as int)) {
                Some((last, more, finished)) => Some(
                    (last, ahead.take(room as int) + more, finished),
                ),
                None => None,
            }
        }
    }

    #[via_fn]
    proof fn steps_end(self, bytes: Seq<u8>) {
        if self.malformed(bytes) is None {
            law_reading_on_takes_each_byte(self, bytes);
        }
    }
}

/// A receiver that reads on step by step, and is told of each write, takes its bytes one by one: it ends
/// up in the same place and the same is written. It says that the file is whole exactly when there were
/// bytes and its end is among them, or was before.
pub proof fn law_steps_take_each_byte(receiver: ReceiverView, bytes: Seq<u8>)
    requires
        receiver.wf(),
    ensures
        match receiver.in_steps(bytes) {
            Some((last, wrote, finished)) => receiver.run(bytes) == Some((last, wrote)) && finished
                == (bytes.len() > 0 && last is Done),
            None => receiver.run(bytes) is None,
        },
    decreases
            bytes.len(),
            (if receiver == ReceiverView::ReadingChunkData(0) {
                1nat
            } else {
                0nat
            }),
{
    if receiver.malformed(bytes) is Some {
        law_malformed_bytes_are_refused(receiver, bytes);
    } else {
        law_reading_on_takes_each_byte(receiver, bytes);
        let (reached, count) = receiver.read_on(bytes);
        let ahead = bytes.skip(count);
        if ahead.len() == 0 {
        } else if reached is Done {
            law_nothing_follows_the_end(ahead);
        } else {
            let left = reached->ReadingChunkData_0;
            let room = writable(left, ahead.len());
            law_writing_takes_each_byte(left, ahead);
            law_steps_take_each_byte(reached.after_writing(room), ahead.skip(room as int));
        }
    }
}

/// A message that a sender made of data is written as that data, and leaves the receiver ready for
/// the next one.
pub proof fn law_chunk_arrives(data: Seq<u8>)
    requires
        0 < data.len() <= MAX_DATA_SIZE,
    ensures
        ReceiverView::ReadingKind.run(chunk_message(data)) == Some(
            (ReceiverView::ReadingKind, data),
        ),
{
    let message = chunk_message(data);
    let size = bytes_of(data.len(), 8);
    lemma_eight_bytes();
    lemma_value_of_bytes(data.len(), 8);
    let ready = ReceiverView::ReadingKind;
    let sizing = ReceiverView::ReadingSize(Seq::empty());
    assert(message.skip(1) =~= size + data);
    assert((size + data).take(8) =~= size);
    assert(Seq::<u8>::empty() + size =~= size);
    assert(ready.malformed(message) == sizing.malformed(size + data));
    assert(ready.read_on(message).0 == sizing.read_on(size + data).0);
    law_reading_on_takes_each_byte(ready, message);
    assert(message.skip(9) =~= data);
    law_writing_takes_each_byte(data.len(), data);
    assert(data.skip(data.len() as int) =~= Seq::empty());
    assert(data.take(data.len() as int) + Seq::<u8>::empty() =~= data);
}

/// The messages that a file is sent in when it was read in these chunks.
pub open spec fn file_messages(chunks: Seq<Seq<u8>>) -> Seq<u8>
    decreases chunks.len(),
{
    if chunks.len() == 0 {
        eof_message()
    } else {
        chunk_message(chunks[0]) + file_messages(chunks.drop_first())
    }
}

/// A file arrives as it was read, whatever the chunks it was read in, and the receiver knows that it
/// is whole.
pub proof fn law_file_arrives(chunks: Seq<Seq<u8>>)
    requires
        forall|i: int| 0 <= i < chunks.len() ==> 0 < (#[trigger] chunks[i]).len() <= MAX_DATA_SIZE,
    ensures
        ReceiverView::ReadingKind.run(file_messages(chunks)) == Some(
            (ReceiverView::Done, chunks.flatten()),
        ),
    decreases chunks.len(),
{
    let ready = ReceiverView::ReadingKind;
    if chunks.len() == 0 {
        assert(eof_message().drop_first() =~= Seq::empty());
        assert(ReceiverView::Done.run(Seq::empty()) == Some(
            (ReceiverView::Done, Seq::<u8>::empty()),
        ));
        assert(Seq::<u8>::empty() + Seq::<u8>::empty() =~= Seq::<u8>::empty());
    } else {
        law_file_arrives(chunks.drop_first());
        law_chunk_arrives(chunks[0]);
        law_fragments_add_up(ready, chunk_message(chunks[0]), file_messages(chunks.drop_first()));
    }
}

} // verus!

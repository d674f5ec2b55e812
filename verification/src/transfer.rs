//! Carrying out an operation: which frames are sent, in which order, and when more of a file is read.
use crate::filesystem::{LocalState, RemoteFileSystem};
use crate::frames::{EofFrame, FileFrame, FileFrameView, SetFrame, SetFrameView};
use crate::framing::{layout_of, FrameLayout, Framing, WithDelims};
use crate::matching::part;
use crate::protocol::{
    ChunkingStatus, Codec, Direction, FileFrameStatus, Operation, StreamableFileSystemErrors,
    TransportRecvError,
};
use crate::receiving::contents_of;
use crate::streams::{FileSender, StreamSender};
use std::collections::VecDeque;
use vstd::prelude::*;
use vstd::utf8::encode_utf8;

verus! {

broadcast use vstd::std_specs::hash::group_hash_axioms;

/// How much of a file goes into one frame.
pub const PIECE_SIZE: usize = 4096;

/// The pieces that bytes are sent in: each as long as a piece can be, but for the last.
pub open spec fn pieces(bytes: Seq<u8>) -> Seq<Seq<u8>> {
    Seq::new(
        ((bytes.len() + PIECE_SIZE - 1) / (PIECE_SIZE as int)) as nat,
        |i: int| bytes.subrange(i * PIECE_SIZE, piece_end(bytes, i)),
    )
}

/// Where a piece ends.
pub open spec fn piece_end(bytes: Seq<u8>, i: int) -> int {
    if (i + 1) * PIECE_SIZE <= bytes.len() {
        (i + 1) * PIECE_SIZE
    } else {
        bytes.len() as int
    }
}

/// How a piece of a file is put into bytes, whatever the framing.
pub open spec fn file_layout(frame: FileFrameView) -> FrameLayout {
    FrameLayout {
        fits: |framing: Framing| frame.complete() ==> framing.can_encode(),
        layout: |framing: Framing| frame.layout(framing),
    }
}

/// How a location is put into bytes, whatever the framing.
pub open spec fn set_layout(frame: SetFrameView) -> FrameLayout {
    FrameLayout {
        fits: |framing: Framing| frame.complete() ==> framing.can_encode(),
        layout: |framing: Framing| frame.layout(framing),
    }
}

/// How the end of a file is put into bytes, whatever the framing.
pub open spec fn eof_layout(frame: EofFrame) -> FrameLayout {
    FrameLayout {
        fits: |framing: Framing| frame.complete() ==> framing.can_encode(),
        layout: |framing: Framing| frame.wire(framing),
    }
}

/// The frame that carries a piece of a file.
pub open spec fn piece_frame(direction: Direction, codec: Codec, piece: Seq<u8>) -> FileFrameView {
    FileFrameView {
        direction: Some(direction),
        operation: Some(Operation::Move),
        codec: Some(codec),
        chunking_status: Some(ChunkingStatus::Continues),
        chunks: piece,
    }
}

/// The frame that tells where files are to be written.
pub open spec fn location_frame(direction: Direction, state_id: u8, location: Seq<char>) -> SetFrameView {
    SetFrameView {
        direction: Some(direction),
        operation: Some(Operation::SetLocation),
        state_id,
        chunks: encode_utf8(location),
    }
}

/// The frame that tells that a file has been sent whole.
pub open spec fn end_frame(direction: Direction) -> EofFrame {
    EofFrame { direction: Some(direction), operation: Some(Operation::Eof) }
}

/// What is sent of a frame: nothing where it cannot be put into bytes.
pub open spec fn sent(bytes: Result<Seq<u8>, FileFrameStatus>) -> Seq<Seq<u8>> {
    match bytes {
        Ok(frame) => seq![frame],
        Err(_) => Seq::empty(),
    }
}

impl<S: StreamSender + Default, F: FileSender> RemoteFileSystem<S, F> {
    /// What is sent of these pieces of a file.
    pub open spec fn pieces_sent(&self, pieces: Seq<Seq<u8>>) -> Seq<Seq<u8>>
        decreases pieces.len(),
    {
        if pieces.len() == 0 {
            Seq::empty()
        } else {
            self.pieces_sent(pieces.drop_last()) + sent(
                self.state.encoded_frame(
                    file_layout(piece_frame(self.direction, self.codec, pieces.last())),
                ),
            )
        }
    }

    /// The stream can put each piece of these bytes into a frame.
    pub open spec fn can_send_pieces(&self, bytes: Seq<u8>) -> bool {
        forall|i: int|
            0 <= i < pieces(bytes).len() ==> self.state.can_encode_frame(
                file_layout(piece_frame(self.direction, self.codec, #[trigger] pieces(bytes)[i])),
            )
    }

    /// Whether files can be sent at all with the codec that is set.
    pub fn send_file(&self) -> (begun: Result<(), StreamableFileSystemErrors>)
        requires
            self.codec != Codec::Multipart,
        ensures
            begun == match self.codec {
                Codec::Raw | Codec::RawContinues => Ok::<(), StreamableFileSystemErrors>(()),
                _ => Err::<(), StreamableFileSystemErrors>(StreamableFileSystemErrors::NoOperation),
            },
    {
        match self.codec {
            Codec::Raw | Codec::RawContinues => Ok(()),
            _ => Err(StreamableFileSystemErrors::NoOperation),
        }
    }

    /// Takes in what reading a file came to, and says what is to be sent of it. When no more can be
    /// read, sending the file is over.
    pub fn send_chunk(&self, received: Result<Vec<u8>, TransportRecvError>) -> (outgoing: Result<
        Vec<Vec<u8>>,
        StreamableFileSystemErrors,
    >)
        requires
            received matches Ok(bytes) ==> self.can_send_pieces(bytes@),
        ensures
            match received {
                Ok(bytes) => outgoing is Ok && contents_of(outgoing->Ok_0@) == self.pieces_sent(
                    pieces(bytes@),
                ),
                Err(error) => outgoing == Err::<Vec<Vec<u8>>, StreamableFileSystemErrors>(
                    StreamableFileSystemErrors::TransportRecvError(error),
                ),
            },
    {
        let bytes = match received {
            Ok(bytes) => bytes,
            Err(error) => {
                return Err(StreamableFileSystemErrors::TransportRecvError(error));
            },
        };
        let mut outgoing: Vec<Vec<u8>> = Vec::new();
        let ghost all = pieces(bytes@);
        let ghost mut count: int = 0;
        let mut from: usize = 0;
        assert(all.take(0) =~= Seq::empty());
        assert(contents_of(outgoing@) =~= Seq::empty());
        while from < bytes.len()
            invariant
                0 <= count <= all.len(),
                all == pieces(bytes@),
                from <= bytes@.len(),
                from == count * PIECE_SIZE || (from == bytes@.len() && count == all.len()),
                contents_of(outgoing@) == self.pieces_sent(all.take(count)),
                self.can_send_pieces(bytes@),
            decreases bytes@.len() - from,
        {
            let to = if bytes.len() - from <= PIECE_SIZE {
                bytes.len()
            } else {
                from + PIECE_SIZE
            };
            let mut frame = FileFrame::new(
                self.direction,
                Operation::Move,
                self.codec,
                ChunkingStatus::Continues,
            );
            frame.append_bytes_send(part(bytes.as_slice(), from, to));
            let ghost layout = file_layout(piece_frame(self.direction, self.codec, all[count]));
            proof {
                assert(frame@ =~= piece_frame(self.direction, self.codec, all[count]));
                assert(layout_of::<FileFrame, WithDelims>(frame).fits =~= layout.fits);
                assert(layout_of::<FileFrame, WithDelims>(frame).layout =~= layout.layout);
                assert(all.take(count + 1).drop_last() =~= all.take(count));
            }
            let ghost before = outgoing@;
            if let Ok(encoded) = self.state.encode_frame::<FileFrame, WithDelims>(frame) {
                outgoing.push(encoded);
                assert(contents_of(outgoing@) =~= contents_of(before) + seq![encoded@]);
            }
            proof {
                assert(contents_of(outgoing@) =~= self.pieces_sent(all.take(count + 1)));
                count = count + 1;
            }
            from = to;
        }
        assert(all.take(count) =~= all);
        Ok(outgoing)
    }
}

/// How far an operation has come, by what was asked for last.
#[derive(Clone, Copy, Debug, PartialEq, Eq, Structural)]
pub enum Stage {
    /// The operation was to be announced.
    Announced,
    /// The only frame of the operation was to be sent.
    OnlyFrameSent,
    /// It was to be announced that a location is set.
    LocationAnnounced,
    /// The location of the current file was to be sent.
    LocationSent,
    /// More of the current file was to be read.
    Reading,
    /// A part of the current file was to be sent.
    PiecesSent,
    /// It was to be announced that a file has ended.
    EndAnnounced,
    /// The end of a file was to be sent.
    EndSent,
    /// The operation is over.
    Finished,
}

/// An operation that is being carried out.
pub struct Transfer<F> {
    pub state_id: u8,
    pub stage: Stage,
    /// The file that is being sent.
    pub current: Option<F>,
    /// The files that are sent after it, in order.
    pub waiting: VecDeque<F>,
}

/// What became of the last thing that was asked for.
pub enum TransferEvent {
    /// It has been announced or sent.
    Done,
    /// This was read, or could not be.
    Chunk(Result<Vec<u8>, TransportRecvError>),
}

/// What a `TransferEvent` tells.
#[verifier::ext_equal]
pub enum TransferEventView {
    Done,
    Chunk(Result<Seq<u8>, TransportRecvError>),
}

impl View for TransferEvent {
    type V = TransferEventView;

    open spec fn view(&self) -> TransferEventView {
        match *self {
            TransferEvent::Done => TransferEventView::Done,
            TransferEvent::Chunk(Ok(bytes)) => TransferEventView::Chunk(Ok(bytes@)),
            TransferEvent::Chunk(Err(error)) => TransferEventView::Chunk(Err(error)),
        }
    }
}

/// What is to be done next for an operation.
pub enum TransferAction {
    /// Tell those who watch the filesystem that this is being carried out.
    Announce(Operation),
    /// Send these frames, in order.
    Send(Vec<Vec<u8>>),
    /// Read more of the current file.
    ReadChunk,
    /// Nothing: the operation came to this.
    Finish(Result<(), StreamableFileSystemErrors>),
}

/// What a `TransferAction` asks for.
#[verifier::ext_equal]
pub enum TransferActionView {
    Announce(Operation),
    Send(Seq<Seq<u8>>),
    ReadChunk,
    Finish(Result<(), StreamableFileSystemErrors>),
}

impl View for TransferAction {
    type V = TransferActionView;

    open spec fn view(&self) -> TransferActionView {
        match *self {
            TransferAction::Announce(operation) => TransferActionView::Announce(operation),
            TransferAction::Send(frames) => TransferActionView::Send(contents_of(frames@)),
            TransferAction::ReadChunk => TransferActionView::ReadChunk,
            TransferAction::Finish(result) => TransferActionView::Finish(result),
        }
    }
}

/// All that carrying out an operation changes.
#[verifier::ext_equal]
pub struct Progress<F> {
    pub operation: Operation,
    pub locations: Map<u8, Seq<char>>,
    pub files: Seq<F>,
    pub stage: Stage,
    pub current: Option<F>,
    pub waiting: Seq<F>,
}

impl<F> Progress<F> {
    /// A file is being sent.
    pub open spec fn sending(self) -> bool {
        match self.stage {
            Stage::LocationAnnounced | Stage::LocationSent | Stage::Reading | Stage::PiecesSent => true,
            _ => false,
        }
    }

    /// A file is held exactly while it is being sent, and then the state has a location.
    pub open spec fn wf(self, state_id: u8) -> bool {
        &&& self.sending() <==> self.current is Some
        &&& self.sending() ==> self.locations.contains_key(state_id)
    }

    /// The operation is over, and no file is held for it any more.
    pub open spec fn finished(self, result: Result<(), StreamableFileSystemErrors>) -> (
        Progress<F>,
        TransferActionView,
    ) {
        (
            Progress { stage: Stage::Finished, current: None, waiting: Seq::empty(), ..self },
            TransferActionView::Finish(result),
        )
    }

    /// Something is asked for.
    pub open spec fn asks(self, stage: Stage, action: TransferActionView) -> (
        Progress<F>,
        TransferActionView,
    ) {
        (Progress { stage, ..self }, action)
    }
}

impl<F: FileSender> Progress<F> {
    /// The next file is turned to: its location becomes that of the state, which is announced. There
    /// has to be such a state; otherwise the files that are left are dropped.
    pub open spec fn next_file(self, state_id: u8) -> (Progress<F>, TransferActionView) {
        if self.waiting.len() == 0 {
            self.finished(Ok(()))
        } else if !self.locations.contains_key(state_id) {
            Progress { operation: Operation::SetLocation, ..self }.finished(
                Err(StreamableFileSystemErrors::NoStateGiven),
            )
        } else {
            Progress {
                operation: Operation::SetLocation,
                locations: self.locations.insert(state_id, self.waiting[0].location()),
                current: Some(self.waiting[0]),
                waiting: self.waiting.drop_first(),
                ..self
            }.asks(
                Stage::LocationAnnounced,
                TransferActionView::Announce(Operation::SetLocation),
            )
        }
    }
}

impl<S: StreamSender + Default, F: FileSender> RemoteFileSystem<S, F> {
    /// What is sent to tell a location.
    pub open spec fn location_sent(&self, state_id: u8, location: Seq<char>) -> Seq<Seq<u8>> {
        sent(
            self.state.encoded_frame(
                set_layout(location_frame(self.direction, state_id, location)),
            ),
        )
    }

    /// What is sent to tell that a file has ended.
    pub open spec fn end_sent(&self) -> Seq<Seq<u8>> {
        sent(self.state.encoded_frame(eof_layout(end_frame(self.direction))))
    }

    /// The stream can put a location into a frame.
    pub open spec fn can_send_location(&self, state_id: u8, location: Seq<char>) -> bool {
        self.state.can_encode_frame(set_layout(location_frame(self.direction, state_id, location)))
    }

    /// The stream can put the end of a file into a frame.
    pub open spec fn can_send_end(&self) -> bool {
        self.state.can_encode_frame(eof_layout(end_frame(self.direction)))
    }

    /// Where an operation stands.
    pub open spec fn progress(&self, transfer: Transfer<F>) -> Progress<F> {
        Progress {
            operation: self.operation,
            locations: self.locations(),
            files: self.files@,
            stage: transfer.stage,
            current: transfer.current,
            waiting: transfer.waiting@,
        }
    }

    /// `event` is what can become of what was asked for last, and the stream can put what it leads to
    /// into frames.
    pub open spec fn can_resume(
        &self,
        now: Progress<F>,
        state_id: u8,
        event: TransferEventView,
    ) -> bool {
        &&& now.wf(state_id)
        &&& event is Chunk <==> now.stage == Stage::Reading
        &&& match now.stage {
            Stage::Announced => {
                &&& now.operation == Operation::SetLocation && now.locations.contains_key(state_id)
                    ==> self.can_send_location(state_id, now.locations[state_id])
                &&& now.operation == Operation::Eof ==> self.can_send_end()
            },
            Stage::LocationAnnounced => self.can_send_location(state_id, now.locations[state_id]),
            Stage::LocationSent => self.codec != Codec::Multipart,
            Stage::Reading => event matches TransferEventView::Chunk(Ok(bytes))
                ==> self.can_send_pieces(bytes),
            Stage::EndAnnounced => self.can_send_end(),
            Stage::Finished => false,
            _ => true,
        }
    }

    /// Where an operation stands after `event`, and what is to be done next.
    pub open spec fn progress_after(
        &self,
        now: Progress<F>,
        state_id: u8,
        event: TransferEventView,
    ) -> (Progress<F>, TransferActionView) {
        match now.stage {
            Stage::Announced => match now.operation {
                Operation::Move => Progress {
                    files: Seq::empty(),
                    waiting: now.files,
                    ..now
                }.next_file(state_id),
                Operation::SetLocation => if now.locations.contains_key(state_id) {
                    now.asks(
                        Stage::OnlyFrameSent,
                        TransferActionView::Send(
                            self.location_sent(state_id, now.locations[state_id]),
                        ),
                    )
                } else {
                    now.finished(Err(StreamableFileSystemErrors::NoStateGiven))
                },
                Operation::Eof => now.asks(
                    Stage::OnlyFrameSent,
                    TransferActionView::Send(self.end_sent()),
                ),
                _ => now.finished(Err(StreamableFileSystemErrors::NoOperation)),
            },
            Stage::OnlyFrameSent => now.finished(Ok(())),
            Stage::LocationAnnounced => now.asks(
                Stage::LocationSent,
                TransferActionView::Send(self.location_sent(state_id, now.locations[state_id])),
            ),
            Stage::LocationSent => {
                let moving = Progress { operation: Operation::Move, ..now };
                match self.codec {
                    Codec::Raw | Codec::RawContinues => moving.asks(
                        Stage::Reading,
                        TransferActionView::ReadChunk,
                    ),
                    _ => Progress { current: None, ..moving }.next_file(state_id),
                }
            },
            Stage::Reading => match event {
                TransferEventView::Chunk(Ok(bytes)) => now.asks(
                    Stage::PiecesSent,
                    TransferActionView::Send(self.pieces_sent(pieces(bytes))),
                ),
                TransferEventView::Chunk(Err(TransportRecvError::Disconnected)) => Progress {
                    operation: Operation::Eof,
                    current: None,
                    ..now
                }.asks(Stage::EndAnnounced, TransferActionView::Announce(Operation::Eof)),
                _ => Progress { current: None, ..now }.next_file(state_id),
            },
            Stage::PiecesSent => now.asks(Stage::Reading, TransferActionView::ReadChunk),
            Stage::EndAnnounced => now.asks(
                Stage::EndSent,
                TransferActionView::Send(self.end_sent()),
            ),
            _ => now.next_file(state_id),
        }
    }

    /// Going on with an operation after `event` leads to `after` and `later`, and asks for `action`.
    pub open spec fn resumes_to(
        &self,
        transfer: Transfer<F>,
        event: TransferEventView,
        after: RemoteFileSystem<S, F>,
        later: Transfer<F>,
        action: TransferActionView,
    ) -> bool {
        &&& (after.progress(later), action) == self.progress_after(
            self.progress(transfer),
            transfer.state_id,
            event,
        )
        &&& after.progress(later).wf(transfer.state_id)
        &&& later.state_id == transfer.state_id
        &&& after == (RemoteFileSystem {
            operation: after.operation,
            local_state: after.local_state,
            files: after.files,
            ..*self
        })
    }

    /// Begins to carry out the operation that is set, by announcing it.
    pub fn execute_operation(&self, state_id: u8) -> (begun: (Transfer<F>, TransferAction))
        ensures
            begun.0.state_id == state_id,
            begun.0.stage == Stage::Announced,
            begun.0.current is None,
            begun.0.waiting@ == Seq::<F>::empty(),
            begun.1@ == TransferActionView::Announce(self.operation),
            self.progress(begun.0).wf(state_id),
    {
        (
            Transfer {
                state_id,
                stage: Stage::Announced,
                current: None,
                waiting: VecDeque::new(),
            },
            TransferAction::Announce(self.operation),
        )
    }

    /// The location of a state, in a frame.
    fn encode_location(&self, state_id: u8) -> (frames: Vec<Vec<u8>>)
        requires
            self.locations().contains_key(state_id),
            self.can_send_location(state_id, self.locations()[state_id]),
        ensures
            contents_of(frames@) == self.location_sent(state_id, self.locations()[state_id]),
    {
        let mut frames: Vec<Vec<u8>> = Vec::new();
        if let Some(state) = self.local_state.get(&state_id) {
            let text = state.location.as_str().as_bytes();
            let frame = SetFrame::new(Some(self.direction), state_id, part(text, 0, text.len()));
            proof {
                let view = location_frame(self.direction, state_id, self.locations()[state_id]);
                assert(frame@ =~= view);
                assert(layout_of::<SetFrame, WithDelims>(frame).fits =~= set_layout(view).fits);
                assert(layout_of::<SetFrame, WithDelims>(frame).layout =~= set_layout(view).layout);
            }
            if let Ok(bytes) = self.state.encode_frame::<SetFrame, WithDelims>(frame) {
                frames.push(bytes);
            }
        }
        assert(contents_of(frames@) =~= self.location_sent(state_id, self.locations()[state_id]));
        frames
    }

    /// The end of a file, in a frame.
    fn encode_end(&self) -> (frames: Vec<Vec<u8>>)
        requires
            self.can_send_end(),
        ensures
            contents_of(frames@) == self.end_sent(),
    {
        let mut frames: Vec<Vec<u8>> = Vec::new();
        let frame = EofFrame::new(Some(self.direction));
        proof {
            let view = end_frame(self.direction);
            assert(layout_of::<EofFrame, WithDelims>(frame).fits =~= eof_layout(view).fits);
            assert(layout_of::<EofFrame, WithDelims>(frame).layout =~= eof_layout(view).layout);
        }
        if let Ok(bytes) = self.state.encode_frame::<EofFrame, WithDelims>(frame) {
            frames.push(bytes);
        }
        assert(contents_of(frames@) =~= self.end_sent());
        frames
    }

    /// Ends an operation.
    fn finish(transfer: &mut Transfer<F>, result: Result<(), StreamableFileSystemErrors>) -> (action:
        TransferAction)
        ensures
            action@ == TransferActionView::Finish(result),
            final(transfer).state_id == old(transfer).state_id,
            final(transfer).stage == Stage::Finished,
            final(transfer).current is None,
            final(transfer).waiting@ == Seq::<F>::empty(),
    {
        transfer.stage = Stage::Finished;
        transfer.current = None;
        transfer.waiting = VecDeque::new();
        TransferAction::Finish(result)
    }

    /// Turns to the next file.
    fn next_file(&mut self, transfer: &mut Transfer<F>) -> (action: TransferAction)
        ensures
            (final(self).progress(*final(transfer)), action@) == old(self).progress(
                *old(transfer),
            ).next_file(old(transfer).state_id),
            final(transfer).state_id == old(transfer).state_id,
            *final(self) == (RemoteFileSystem {
                operation: final(self).operation,
                local_state: final(self).local_state,
                ..*old(self)
            }),
    {
        let file = match transfer.waiting.pop_front() {
            Some(file) => file,
            None => {
                return Self::finish(transfer, Ok(()));
            },
        };
        self.operation = Operation::SetLocation;
        if !self.local_state.contains_key(&transfer.state_id) {
            return Self::finish(transfer, Err(StreamableFileSystemErrors::NoStateGiven));
        }
        let location = file.get_location();
        self.local_state.insert(transfer.state_id, LocalState { location });
        assert(self.locations() =~= old(self).locations().insert(transfer.state_id, location@));
        transfer.current = Some(file);
        transfer.stage = Stage::LocationAnnounced;
        assert(transfer.waiting@ =~= old(transfer).waiting@.drop_first());
        TransferAction::Announce(Operation::SetLocation)
    }

    /// Goes on with an operation when what was asked for last has been done.
    pub fn resume_operation(&mut self, transfer: &mut Transfer<F>, event: TransferEvent) -> (action:
        TransferAction)
        requires
            old(self).can_resume(
                old(self).progress(*old(transfer)),
                old(transfer).state_id,
                event@,
            ),
        ensures
            old(self).resumes_to(
                *old(transfer),
                event@,
                *final(self),
                *final(transfer),
                action@,
            ),
    {
        match transfer.stage {
            Stage::Announced => match self.operation {
                Operation::Move => {
                    let mut waiting: VecDeque<F> = VecDeque::new();
                    let mut files: Vec<F> = Vec::new();
                    files.append(&mut self.files);
                    self.files = Vec::new();
                    while files.len() > 0
                        invariant
                            files@ + waiting@ == old(self).files@,
                        decreases files@.len(),
                    {
                        if let Some(file) = files.pop() {
                            waiting.push_front(file);
                            assert(files@ + waiting@ =~= old(self).files@);
                        }
                    }
                    assert(waiting@ =~= old(self).files@);
                    transfer.waiting = waiting;
                    assert(self.files@ =~= Seq::empty());
                    self.next_file(transfer)
                },
                Operation::SetLocation => {
                    if self.local_state.contains_key(&transfer.state_id) {
                        transfer.stage = Stage::OnlyFrameSent;
                        TransferAction::Send(self.encode_location(transfer.state_id))
                    } else {
                        Self::finish(transfer, Err(StreamableFileSystemErrors::NoStateGiven))
                    }
                },
                Operation::Eof => {
                    transfer.stage = Stage::OnlyFrameSent;
                    TransferAction::Send(self.encode_end())
                },
                _ => Self::finish(transfer, Err(StreamableFileSystemErrors::NoOperation)),
            },
            Stage::OnlyFrameSent => Self::finish(transfer, Ok(())),
            Stage::LocationAnnounced => {
                transfer.stage = Stage::LocationSent;
                TransferAction::Send(self.encode_location(transfer.state_id))
            },
            Stage::LocationSent => {
                self.operation = Operation::Move;
                match self.send_file() {
                    Ok(_) => {
                        transfer.stage = Stage::Reading;
                        TransferAction::ReadChunk
                    },
                    Err(_) => {
                        transfer.current = None;
                        self.next_file(transfer)
                    },
                }
            },
            Stage::Reading => {
                let received = match event {
                    TransferEvent::Chunk(received) => received,
                    TransferEvent::Done => Err(TransportRecvError::NoStream),
                };
                match self.send_chunk(received) {
                    Ok(frames) => {
                        transfer.stage = Stage::PiecesSent;
                        TransferAction::Send(frames)
                    },
                    Err(error) => {
                        transfer.current = None;
                        let disconnected = match error {
                            StreamableFileSystemErrors::TransportRecvError(
                                TransportRecvError::Disconnected,
                            ) => true,
                            _ => false,
                        };
                        if disconnected {
                            self.operation = Operation::Eof;
                            transfer.stage = Stage::EndAnnounced;
                            TransferAction::Announce(Operation::Eof)
                        } else {
                            self.next_file(transfer)
                        }
                    },
                }
            },
            Stage::PiecesSent => {
                transfer.stage = Stage::Reading;
                TransferAction::ReadChunk
            },
            Stage::EndAnnounced => {
                transfer.stage = Stage::EndSent;
                TransferAction::Send(self.encode_end())
            },
            _ => self.next_file(transfer),
        }
    }
}

} // verus!

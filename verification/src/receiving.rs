//! What the frames that arrive do to a filesystem.
use crate::filesystem::{
    actions_of, asks_for, file_handled, set_handled, write_of, FileAction, FileActionView, Handled,
    LocalState, RemoteFileSystem,
};
use crate::frames::{EofFrame, FileFrame, FileFrameView, SetFrame, SetFrameView};
use crate::framing::{found, parts_of, FrameHandler, Parts};
use crate::matching::part;
use crate::protocol::{
    failure_of_handling, handling_failure, ChunkingStatus, Codec, Direction, FileFrameStatus,
    FileHandleStatus, FileStreamError, Operation, StreamableFileSystemErrors,
};
use crate::streams::StreamReceiver;
use crate::text::text_from_utf8;
use vstd::prelude::*;

verus! {

broadcast use vstd::std_specs::hash::group_hash_axioms;

/// A kind of frame: how it is read from bytes, and what it does to a filesystem.
pub trait FrameCommons {
    type Output;

    /// `decoded` is what these bytes stand for.
    spec fn decodes(bytes: Seq<u8>, decoded: Result<Self::Output, FileFrameStatus>) -> bool;

    /// A frame can be acted upon.
    spec fn can_handle(file_open: bool) -> bool;

    /// What acting upon a frame comes to.
    spec fn handled(
        output: Self::Output,
        state_id: u8,
        locations: Map<u8, Seq<char>>,
        file_open: bool,
    ) -> Handled;

    /// Reads a frame from bytes.
    fn decode(bytes: Vec<u8>) -> (decoded: Result<Self::Output, FileFrameStatus>)
        ensures
            Self::decodes(bytes@, decoded),
    ;

    /// Acts upon a frame, and says what is to be done with the file that is being written.
    fn handle<S, F>(
        output: Self::Output,
        state_id: u8,
        fs: &mut RemoteFileSystem<S, F>,
    ) -> (action: Result<Option<FileAction>, FileHandleStatus>)
        requires
            Self::can_handle(old(fs).file_open),
        ensures
            ({
                let handled = Self::handled(
                    output,
                    state_id,
                    old(fs).locations(),
                    old(fs).file_open,
                );
                &&& final(fs).locations() == handled.locations
                &&& final(fs).file_open == handled.file_open
                &&& asks_for(action, handled.action)
                &&& *final(fs) == (RemoteFileSystem {
                    local_state: final(fs).local_state,
                    file_open: final(fs).file_open,
                    ..*old(fs)
                })
            }),
    ;
}

impl FileFrame {
    /// Asks for what the frame carries to be written at `location`, or to the file that is open
    /// already.
    pub fn write_at_location<S, F>(
        &mut self,
        fs: &mut RemoteFileSystem<S, F>,
        location: String,
    ) -> (action: Result<FileAction, FileHandleStatus>)
        ensures
            action is Ok,
            action->Ok_0@ == write_of(location@, old(fs).file_open, old(self)@.chunks),
            *final(self) == *old(self),
            *final(fs) == (RemoteFileSystem { file_open: true, ..*old(fs) }),
    {
        let open = if fs.file_open {
            None
        } else {
            Some(location)
        };
        fs.file_open = true;
        Ok(FileAction::Write { open, bytes: self.chunks.clone() })
    }
}

impl FrameCommons for FileFrame {
    type Output = FileFrame;

    open spec fn decodes(bytes: Seq<u8>, decoded: Result<FileFrame, FileFrameStatus>) -> bool {
        match decoded {
            Ok(frame) => FileFrameView::decoded(bytes) == Ok::<FileFrameView, FileFrameStatus>(
                frame@,
            ),
            Err(status) => FileFrameView::decoded(bytes) == Err::<FileFrameView, FileFrameStatus>(
                status,
            ),
        }
    }

    open spec fn can_handle(file_open: bool) -> bool {
        true
    }

    open spec fn handled(
        output: FileFrame,
        state_id: u8,
        locations: Map<u8, Seq<char>>,
        file_open: bool,
    ) -> Handled {
        file_handled(output@, state_id, locations, file_open)
    }

    fn decode(bytes: Vec<u8>) -> Result<FileFrame, FileFrameStatus> {
        let mut frame = FileFrame::default();
        if bytes.len() < 1 {
            return Err(FileFrameStatus::NotValidFrame);
        }
        if let Ok(direction) = Direction::try_from_primitive(bytes[0]) {
            frame.direction = Some(direction);
        } else {
            return Err(FileFrameStatus::NotValidFrame);
        }
        if bytes.len() < 2 {
            return Err(FileFrameStatus::NotValidFrame);
        }
        if let Ok(operation) = Operation::try_from_primitive(bytes[1]) {
            if operation != Operation::Move {
                return Err(FileFrameStatus::NotCorrectFrame);
            }
            frame.operation = Some(operation);
        } else {
            return Err(FileFrameStatus::NotValidFrame);
        }
        if bytes.len() < 3 {
            return Err(FileFrameStatus::NotValidFrame);
        }
        if let Ok(codec) = Codec::try_from_primitive(bytes[2]) {
            frame.codec = Some(codec);
        } else {
            return Err(FileFrameStatus::NotValidFrame);
        }
        if bytes.len() < 4 {
            return Err(FileFrameStatus::NotValidFrame);
        }
        if let Ok(continues) = ChunkingStatus::try_from_primitive(bytes[3]) {
            frame.chunking_status = Some(continues);
        } else {
            return Err(FileFrameStatus::NotValidFrame);
        }
        frame.chunks = part(bytes.as_slice(), 4, bytes.len());
        assert(frame@ =~= FileFrameView::decoded(bytes@)->Ok_0);
        Ok(frame)
    }

    fn handle<S, F>(
        output: FileFrame,
        state_id: u8,
        fs: &mut RemoteFileSystem<S, F>,
    ) -> Result<Option<FileAction>, FileHandleStatus> {
        let location = match fs.local_state.get(&state_id) {
            Some(state) => state.location.clone(),
            None => {
                return Err(FileHandleStatus::NoStateGiven);
            },
        };
        let mut frame = output;
        match frame.write_at_location(fs, location) {
            Ok(action) => Ok(Some(action)),
            Err(status) => Err(status),
        }
    }
}

impl FrameCommons for SetFrame {
    type Output = SetFrame;

    open spec fn decodes(bytes: Seq<u8>, decoded: Result<SetFrame, FileFrameStatus>) -> bool {
        match decoded {
            Ok(frame) => SetFrameView::decoded(bytes) == Ok::<SetFrameView, FileFrameStatus>(frame@),
            Err(status) => SetFrameView::decoded(bytes) == Err::<SetFrameView, FileFrameStatus>(
                status,
            ),
        }
    }

    open spec fn can_handle(file_open: bool) -> bool {
        true
    }

    open spec fn handled(
        output: SetFrame,
        state_id: u8,
        locations: Map<u8, Seq<char>>,
        file_open: bool,
    ) -> Handled {
        set_handled(output@, state_id, locations, file_open)
    }

    fn decode(bytes: Vec<u8>) -> Result<SetFrame, FileFrameStatus> {
        let mut frame = SetFrame::default();
        if bytes.len() < 1 {
            return Err(FileFrameStatus::NotValidFrame);
        }
        if let Ok(direction) = Direction::try_from_primitive(bytes[0]) {
            frame.direction = Some(direction);
        } else {
            return Err(FileFrameStatus::NotValidFrame);
        }
        if bytes.len() < 2 {
            return Err(FileFrameStatus::NotValidFrame);
        }
        if let Ok(operation) = Operation::try_from_primitive(bytes[1]) {
            if operation != Operation::SetLocation {
                return Err(FileFrameStatus::NotCorrectFrame);
            }
            frame.operation = Some(operation);
        } else {
            return Err(FileFrameStatus::NotValidFrame);
        }
        if bytes.len() < 3 {
            return Err(FileFrameStatus::NotValidFrame);
        }
        frame.state_id = bytes[2];
        frame.chunks = part(bytes.as_slice(), 3, bytes.len());
        assert(frame@ =~= SetFrameView::decoded(bytes@)->Ok_0);
        Ok(frame)
    }

    fn handle<S, F>(
        output: SetFrame,
        state_id: u8,
        fs: &mut RemoteFileSystem<S, F>,
    ) -> Result<Option<FileAction>, FileHandleStatus> {
        if !fs.local_state.contains_key(&state_id) {
            return Err(FileHandleStatus::IncorrectStateAsked);
        }
        match text_from_utf8(output.chunks) {
            Some(location) => {
                fs.local_state.insert(state_id, LocalState { location });
                assert(fs.locations() =~= old(fs).locations().insert(state_id, location@));
                Ok(None)
            },
            None => Err(FileHandleStatus::IncorrectData),
        }
    }
}

impl FrameCommons for EofFrame {
    type Output = EofFrame;

    open spec fn decodes(bytes: Seq<u8>, decoded: Result<EofFrame, FileFrameStatus>) -> bool {
        decoded == EofFrame::decoded(bytes)
    }

    open spec fn can_handle(file_open: bool) -> bool {
        file_open
    }

    open spec fn handled(
        output: EofFrame,
        state_id: u8,
        locations: Map<u8, Seq<char>>,
        file_open: bool,
    ) -> Handled {
        Handled { locations, file_open: false, action: Ok(Some(FileActionView::Close)) }
    }

    fn decode(bytes: Vec<u8>) -> Result<EofFrame, FileFrameStatus> {
        let mut frame = EofFrame::default();
        if bytes.len() < 1 {
            return Err(FileFrameStatus::NotValidFrame);
        }
        if let Ok(direction) = Direction::try_from_primitive(bytes[0]) {
            frame.direction = Some(direction);
        } else {
            return Err(FileFrameStatus::NotValidFrame);
        }
        if bytes.len() < 2 {
            return Err(FileFrameStatus::NotValidFrame);
        }
        if let Ok(operation) = Operation::try_from_primitive(bytes[1]) {
            if operation != Operation::Eof {
                return Err(FileFrameStatus::NotCorrectFrame);
            }
            frame.operation = Some(operation);
        } else {
            return Err(FileFrameStatus::NotValidFrame);
        }
        Ok(frame)
    }

    fn handle<S, F>(
        output: EofFrame,
        state_id: u8,
        fs: &mut RemoteFileSystem<S, F>,
    ) -> Result<Option<FileAction>, FileHandleStatus> {
        fs.file_open = false;
        Ok(Some(FileAction::Close))
    }
}

/// What the frames that arrived so far have come to: the locations, whether a file is open, what is to
/// be done with the file, and the failure that stopped it, if there was one.
#[verifier::ext_equal]
pub struct Receipt {
    pub locations: Map<u8, Seq<char>>,
    pub file_open: bool,
    pub actions: Seq<FileActionView>,
    pub failure: Option<FileHandleStatus>,
}

impl Receipt {
    /// This receipt after one more frame has been acted upon.
    pub open spec fn with(self, handled: Handled) -> Receipt {
        Receipt {
            locations: handled.locations,
            file_open: handled.file_open,
            actions: match handled.action {
                Ok(Some(action)) => self.actions.push(action),
                _ => self.actions,
            },
            failure: match handled.action {
                Ok(_) => None,
                Err(status) => Some(status),
            },
        }
    }

    /// This receipt after one more frame has arrived. Pieces of files and locations are acted upon,
    /// anything else is passed over, and so is everything after a failure.
    pub open spec fn after_frame(self, state_id: u8, chunks: Seq<u8>) -> Receipt {
        if self.failure is Some {
            self
        } else if let Ok(frame) = FileFrameView::decoded(chunks) {
            self.with(file_handled(frame, state_id, self.locations, self.file_open))
        } else if let Ok(frame) = SetFrameView::decoded(chunks) {
            self.with(set_handled(frame, state_id, self.locations, self.file_open))
        } else {
            self
        }
    }

    /// The result of the operation where a failure has ended it.
    pub open spec fn outcome(self) -> Option<Result<(), StreamableFileSystemErrors>> {
        match self.failure {
            Some(status) => Some(Err(handling_failure(status))),
            None => None,
        }
    }

    /// This receipt after these frames have arrived.
    pub open spec fn after_frames(self, state_id: u8, frames: Seq<Seq<u8>>) -> Receipt
        decreases frames.len(),
    {
        if frames.len() == 0 {
            self
        } else {
            self.after_frames(state_id, frames.drop_last()).after_frame(state_id, frames.last())
        }
    }
}

impl<S, F> RemoteFileSystem<S, F> {
    /// What no frames at all come to.
    pub open spec fn starting_receipt(&self) -> Receipt {
        Receipt {
            locations: self.locations(),
            file_open: self.file_open,
            actions: Seq::empty(),
            failure: None,
        }
    }
}

/// The frames that were found in a stream, and what is left of it.
pub struct FrameBatch {
    pub frames: Vec<Vec<u8>>,
    pub rest: Vec<u8>,
}

/// What stands between the delimiters of each of these frames.
pub open spec fn chunks_of(parts: Seq<Parts>) -> Seq<Seq<u8>> {
    Seq::new(parts.len(), |i: int| parts[i].0)
}

/// What is left behind the last of these frames.
pub open spec fn rest_of(parts: Seq<Parts>) -> Seq<u8> {
    if parts.len() == 0 {
        Seq::empty()
    } else {
        parts.last().1
    }
}

/// What each of these vectors holds.
pub open spec fn contents_of(vectors: Seq<Vec<u8>>) -> Seq<Seq<u8>> {
    Seq::new(vectors.len(), |i: int| vectors[i]@)
}

/// What is kept of a stream until its frames have been acted upon: all of it where a frame has begun
/// and not ended, and nothing otherwise.
pub open spec fn kept(splits: Result<Seq<Parts>, FileFrameStatus>, stream: Seq<u8>) -> Seq<u8> {
    if splits == Err::<Seq<Parts>, FileFrameStatus>(FileFrameStatus::FrameNoEnds) {
        stream
    } else {
        Seq::empty()
    }
}

/// How far receiving has come: what is to be done with the file, and the result of the operation
/// where it is over.
pub struct ReceiveProgress {
    pub actions: Vec<FileAction>,
    pub outcome: Option<Result<(), StreamableFileSystemErrors>>,
}

impl<S: StreamReceiver, F> RemoteFileSystem<S, F> {
    /// What is kept of the stream, and what has just arrived.
    pub open spec fn stream_with(&self, bytes: Seq<u8>) -> Seq<u8> {
        self.remainder@ + bytes
    }

    /// Looks for frames in what is kept of the stream and `bytes`. What is left behind the last of
    /// them is handed out, to be given back with `keep_rest` when they have been acted upon.
    pub fn take_frames(&mut self, bytes: Vec<u8>) -> (batch: FrameBatch)
        requires
            old(self).state.can_split(old(self).stream_with(bytes@)),
        ensures
            ({
                let stream = old(self).stream_with(bytes@);
                let splits = old(self).state.splits(stream);
                &&& contents_of(batch.frames@) == chunks_of(found(splits))
                &&& batch.rest@ == rest_of(found(splits))
                &&& final(self).remainder@ == kept(splits, stream)
            }),
            *final(self) == (RemoteFileSystem { remainder: final(self).remainder, ..*old(self) }),
    {
        let mut total_bytes: Vec<u8> = Vec::new();
        total_bytes.append(&mut self.remainder);
        self.remainder = Vec::new();
        let mut arrived = bytes;
        total_bytes.append(&mut arrived);
        assert(total_bytes@ =~= old(self).stream_with(bytes@));
        let mut frame = self.state.create_frame_handler();
        frame.set_chunks(self.remainder.clone());
        let mut counter: u64 = 0;
        let mut frames: Vec<Vec<u8>> = Vec::new();
        let mut rest: Vec<u8> = Vec::new();
        match frame.append_bytes_recv(&total_bytes, &mut counter) {
            Ok(handlers) => {
                let ghost parts = parts_of(handlers@);
                let mut i: usize = 0;
                while i < handlers.len()
                    invariant
                        i <= handlers@.len(),
                        parts == parts_of(handlers@),
                        frames@.len() == i,
                        forall|k: int| 0 <= k < i ==> (#[trigger] frames@[k])@ == parts[k].0,
                    decreases handlers@.len() - i,
                {
                    frames.push(handlers[i].get_chunks());
                    i += 1;
                }
                if handlers.len() > 0 {
                    rest = handlers[handlers.len() - 1].get_remainder();
                }
                assert(contents_of(frames@) =~= chunks_of(parts));
            },
            Err(status) => {
                if status == FileFrameStatus::FrameNoEnds {
                    self.remainder = total_bytes;
                }
                assert(contents_of(frames@) =~= Seq::empty());
                assert(chunks_of(Seq::empty()) =~= Seq::empty());
            },
        }
        FrameBatch { frames, rest }
    }

    /// Keeps what is left of the stream behind frames that have been acted upon.
    pub fn keep_rest(&mut self, rest: Vec<u8>)
        ensures
            final(self).remainder@ == old(self).remainder@ + rest@,
            *final(self) == (RemoteFileSystem { remainder: final(self).remainder, ..*old(self) }),
    {
        let mut left = rest;
        self.remainder.append(&mut left);
    }

    /// What these frames come to.
    pub open spec fn receipt(&self, state_id: u8, frames: Seq<Seq<u8>>) -> Receipt {
        self.starting_receipt().after_frames(state_id, frames)
    }

    /// Taking in these bytes leads to `after`, and asks for `actions`; `outcome` is the result of the
    /// operation where it is over.
    pub open spec fn receives(
        &self,
        state_id: u8,
        bytes: Seq<u8>,
        after: RemoteFileSystem<S, F>,
        actions: Seq<FileActionView>,
        outcome: Option<Result<(), StreamableFileSystemErrors>>,
    ) -> bool {
        let stream = self.stream_with(bytes);
        let splits = self.state.splits(stream);
        let parts = found(splits);
        let receipt = self.receipt(state_id, chunks_of(parts));
        &&& actions == receipt.actions
        &&& outcome == receipt.outcome()
        &&& after.locations() == receipt.locations
        &&& after.file_open == receipt.file_open
        &&& after.remainder@ == match receipt.failure {
            Some(_) => Seq::<u8>::empty(),
            None => kept(splits, stream) + rest_of(parts),
        }
        &&& after == (RemoteFileSystem {
            local_state: after.local_state,
            file_open: after.file_open,
            remainder: after.remainder,
            ..*self
        })
    }

    /// Acts upon one frame.
    fn receive_frame(&mut self, state_id: u8, chunks: Vec<u8>) -> (action: Result<
        Option<FileAction>,
        FileHandleStatus,
    >)
        ensures
            forall|before: Receipt|
                before.locations == old(self).locations() && before.file_open == old(self).file_open
                    && before.failure is None ==> {
                    let after = #[trigger] before.after_frame(state_id, chunks@);
                    &&& final(self).locations() == after.locations
                    &&& final(self).file_open == after.file_open
                    &&& match action {
                        Ok(Some(wanted)) => after.actions == before.actions.push(wanted@)
                            && after.failure is None,
                        Ok(None) => after.actions == before.actions && after.failure is None,
                        Err(status) => after.actions == before.actions && after.failure == Some(
                            status,
                        ),
                    }
                },
            *final(self) == (RemoteFileSystem {
                local_state: final(self).local_state,
                file_open: final(self).file_open,
                ..*old(self)
            }),
    {
        if let Ok(file_frame) = FileFrame::decode(chunks.clone()) {
            FileFrame::handle(file_frame, state_id, self)
        } else if let Ok(set_frame) = SetFrame::decode(chunks) {
            SetFrame::handle(set_frame, state_id, self)
        } else {
            Ok(None)
        }
    }

    /// Takes in what waiting for bytes came to, and says what is to be done with the file. Receiving
    /// goes on until the stream ends or a frame cannot be acted upon; in that case what is left of
    /// the stream is dropped.
    pub fn receive_operation(
        &mut self,
        fs_state_id: u8,
        received: Result<Vec<u8>, FileStreamError>,
    ) -> (progress: ReceiveProgress)
        requires
            received matches Ok(bytes) ==> old(self).state.can_split(old(self).stream_with(bytes@)),
        ensures
            match received {
                Ok(bytes) => old(self).receives(
                    fs_state_id,
                    bytes@,
                    *final(self),
                    actions_of(progress.actions@),
                    progress.outcome,
                ),
                Err(_) => {
                    &&& progress.actions@ == Seq::<FileAction>::empty()
                    &&& progress.outcome == Some(Ok::<(), StreamableFileSystemErrors>(()))
                    &&& *final(self) == *old(self)
                },
            },
    {
        let bytes = match received {
            Ok(bytes) => bytes,
            Err(_) => {
                return ReceiveProgress { actions: Vec::new(), outcome: Some(Ok(())) };
            },
        };
        let ghost stream = self.stream_with(bytes@);
        let ghost splits = self.state.splits(stream);
        let batch = self.take_frames(bytes);
        let ghost taken = *self;
        let ghost chunks = contents_of(batch.frames@);
        let ghost start = old(self).starting_receipt();
        let mut actions: Vec<FileAction> = Vec::new();
        let mut i: usize = 0;
        assert(actions_of(actions@) =~= Seq::empty());
        assert(chunks.take(0) =~= Seq::empty());
        while i < batch.frames.len()
            invariant
                i <= batch.frames@.len(),
                chunks == contents_of(batch.frames@),
                ({
                    let so_far = start.after_frames(fs_state_id, chunks.take(i as int));
                    &&& self.locations() == so_far.locations
                    &&& self.file_open == so_far.file_open
                    &&& actions_of(actions@) == so_far.actions
                    &&& so_far.failure is None
                }),
                *self == (RemoteFileSystem {
                    local_state: self.local_state,
                    file_open: self.file_open,
                    ..taken
                }),
                taken == (RemoteFileSystem { remainder: taken.remainder, ..*old(self) }),
                taken.remainder@ == kept(splits, stream),
                chunks == chunks_of(found(splits)),
                received is Ok,
                stream == old(self).stream_with(received->Ok_0@),
                splits == old(self).state.splits(stream),
                start == old(self).starting_receipt(),
            decreases batch.frames@.len() - i,
        {
            let ghost so_far = start.after_frames(fs_state_id, chunks.take(i as int));
            let ghost next = so_far.after_frame(fs_state_id, chunks[i as int]);
            let ghost done = actions@;
            assert(chunks.take(i + 1).drop_last() =~= chunks.take(i as int));
            match self.receive_frame(fs_state_id, batch.frames[i].clone()) {
                Ok(action) => {
                    if let Some(wanted) = action {
                        actions.push(wanted);
                        assert(actions_of(actions@) =~= actions_of(done).push(wanted@));
                    }
                    assert(actions_of(actions@) =~= next.actions);
                },
                Err(status) => {
                    proof {
                        law_nothing_follows_a_failure(start, fs_state_id, chunks, i + 1);
                    }
                    return ReceiveProgress {
                        actions,
                        outcome: Some(Err(failure_of_handling(status))),
                    };
                },
            }
            i += 1;
        }
        assert(chunks.take(i as int) =~= chunks);
        self.keep_rest(batch.rest);
        ReceiveProgress { actions, outcome: None }
    }
}

/// Once a frame has failed, the frames after it change nothing.
pub proof fn law_nothing_follows_a_failure(start: Receipt, state_id: u8, frames: Seq<Seq<u8>>, count: int)
    requires
        0 <= count <= frames.len(),
        start.after_frames(state_id, frames.take(count)).failure is Some,
    ensures
        start.after_frames(state_id, frames) == start.after_frames(state_id, frames.take(count)),
    decreases frames.len() - count,
{
    if count < frames.len() {
        assert(frames.take(count + 1).drop_last() =~= frames.take(count));
        law_nothing_follows_a_failure(start, state_id, frames, count + 1);
    } else {
        assert(frames.take(count) =~= frames);
    }
}

} // verus!

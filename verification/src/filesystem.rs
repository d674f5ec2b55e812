//! A filesystem at one end of a connection: its settings, and what the frames that arrive do to it.
use crate::channels::{operation_channel, watch_channel};
use crate::frames::{FileFrameView, SetFrameView};
use crate::protocol::{
    Codec, Direction, FileHandleStatus, Operation, StreamableFileSystemErrors,
};
use std::collections::HashMap;
use vstd::prelude::*;
use vstd::utf8::{decode_utf8, valid_utf8};

verus! {

broadcast use vstd::std_specs::hash::group_hash_axioms;

/// Where the files of a state are written.
#[derive(Debug)]
pub struct LocalState {
    pub location: String,
}

impl Clone for LocalState {
    fn clone(&self) -> (copy: Self)
        ensures
            copy == *self,
    {
        LocalState { location: self.location.clone() }
    }
}

impl Default for LocalState {
    fn default() -> (state: Self)
        ensures
            state.location@ == Seq::<char>::empty(),
    {
        LocalState { location: String::new() }
    }
}

/// What is to be done with the file that is being written.
#[derive(Debug)]
pub enum FileAction {
    /// Append `bytes`. Where `open` is set no file is open yet, and the one at that location is to be
    /// emptied, or made, and opened first.
    Write { open: Option<String>, bytes: Vec<u8> },
    /// See that everything is written, and close the file.
    Close,
}

/// What a `FileAction` asks for.
#[verifier::ext_equal]
pub enum FileActionView {
    Write { open: Option<Seq<char>>, bytes: Seq<u8> },
    Close,
}

impl View for FileAction {
    type V = FileActionView;

    open spec fn view(&self) -> FileActionView {
        match *self {
            FileAction::Write { open, bytes } => FileActionView::Write {
                open: match open {
                    Some(location) => Some(location@),
                    None => None,
                },
                bytes: bytes@,
            },
            FileAction::Close => FileActionView::Close,
        }
    }
}

/// What these actions ask for.
pub open spec fn actions_of(actions: Seq<FileAction>) -> Seq<FileActionView> {
    Seq::new(actions.len(), |i: int| actions[i]@)
}

/// What acting upon a frame comes to: the locations from then on, whether a file is open from then
/// on, and what is to be done with the file.
#[verifier::ext_equal]
pub struct Handled {
    pub locations: Map<u8, Seq<char>>,
    pub file_open: bool,
    pub action: Result<Option<FileActionView>, FileHandleStatus>,
}

/// Writing `bytes` to the file at `location`, or to the one that is open already.
pub open spec fn write_of(location: Seq<char>, file_open: bool, bytes: Seq<u8>) -> FileActionView {
    FileActionView::Write {
        open: if file_open {
            None
        } else {
            Some(location)
        },
        bytes,
    }
}

/// A piece of a file is written at the location of the state that is being received for.
pub open spec fn file_handled(
    frame: FileFrameView,
    state_id: u8,
    locations: Map<u8, Seq<char>>,
    file_open: bool,
) -> Handled {
    if locations.contains_key(state_id) {
        Handled {
            locations,
            file_open: true,
            action: Ok(Some(write_of(locations[state_id], file_open, frame.chunks))),
        }
    } else {
        Handled { locations, file_open, action: Err(FileHandleStatus::NoStateGiven) }
    }
}

/// A location becomes that of the state that is being received for, whichever state it names.
pub open spec fn set_handled(
    frame: SetFrameView,
    state_id: u8,
    locations: Map<u8, Seq<char>>,
    file_open: bool,
) -> Handled {
    if !locations.contains_key(state_id) {
        Handled { locations, file_open, action: Err(FileHandleStatus::IncorrectStateAsked) }
    } else if !valid_utf8(frame.chunks) {
        Handled { locations, file_open, action: Err(FileHandleStatus::IncorrectData) }
    } else {
        Handled {
            locations: locations.insert(state_id, decode_utf8(frame.chunks)),
            file_open,
            action: Ok(None),
        }
    }
}

/// `action` is what was expected.
pub open spec fn asks_for(
    action: Result<Option<FileAction>, FileHandleStatus>,
    expected: Result<Option<FileActionView>, FileHandleStatus>,
) -> bool {
    match action {
        Ok(Some(wanted)) => expected == Ok::<Option<FileActionView>, FileHandleStatus>(Some(wanted@)),
        Ok(None) => expected == Ok::<Option<FileActionView>, FileHandleStatus>(None),
        Err(status) => expected == Err::<Option<FileActionView>, FileHandleStatus>(status),
    }
}

/// A filesystem at one end of a connection. `S` is the stream to the other end, and `F` the files
/// that are to be sent.
pub struct RemoteFileSystem<S, F> {
    pub state: S,
    pub local_state: HashMap<u8, LocalState>,
    pub direction: Direction,
    pub operation: Operation,
    pub unique_operation_event: (
        tokio::sync::watch::Sender<Operation>,
        tokio::sync::watch::Receiver<Operation>,
    ),
    pub codec: Codec,
    pub files: Vec<F>,
    /// A file is open, and what arrives is appended to it.
    pub file_open: bool,
    /// What has arrived and is not a whole frame yet.
    pub remainder: Vec<u8>,
}

/// The location of each of these states.
pub open spec fn locations_of(states: Map<u8, LocalState>) -> Map<u8, Seq<char>> {
    states.map_values(|state: LocalState| state.location@)
}

impl<S, F> RemoteFileSystem<S, F> {
    /// The location of each state.
    pub open spec fn locations(&self) -> Map<u8, Seq<char>> {
        locations_of(self.local_state@)
    }
}

impl<S: Default, F> Default for RemoteFileSystem<S, F> {
    fn default() -> (fs: Self)
        ensures
            call_ensures(S::default, (), fs.state),
            fs.local_state@ == Map::<u8, LocalState>::empty(),
            fs.direction == Direction::Unknown,
            fs.operation == Operation::NoOperation,
            watch_channel(fs.unique_operation_event.0, fs.unique_operation_event.1) == Some(
                Operation::NoOperation,
            ),
            fs.codec == Codec::Unknown,
            fs.files@ == Seq::<F>::empty(),
            !fs.file_open,
            fs.remainder@ == Seq::<u8>::empty(),
    {
        RemoteFileSystem::new(S::default())
    }
}

impl<S: Clone, F: Clone> Clone for RemoteFileSystem<S, F> {
    fn clone(&self) -> (copy: Self)
        ensures
            cloned(self.state, copy.state),
            copy.local_state@ == self.local_state@,
            copy.direction == self.direction,
            copy.operation == self.operation,
            watch_channel(copy.unique_operation_event.0, copy.unique_operation_event.1) == Some(
                Operation::NoOperation,
            ),
            copy.codec == self.codec,
            copy.files@.len() == self.files@.len(),
            forall|i: int|
                0 <= i < self.files@.len() ==> cloned(#[trigger] self.files@[i], copy.files@[i]),
            !copy.file_open,
            copy.remainder@ == self.remainder@,
    {
        RemoteFileSystem {
            state: self.state.clone(),
            local_state: self.local_state.clone(),
            direction: self.direction,
            operation: self.operation,
            unique_operation_event: operation_channel(Operation::NoOperation),
            codec: self.codec,
            files: self.files.clone(),
            file_open: false,
            remainder: self.remainder.clone(),
        }
    }
}

impl<S: Default, F> RemoteFileSystem<S, F> {
    /// A filesystem at the end of this stream, with nothing else set.
    pub fn new(state: S) -> (fs: Self)
        ensures
            fs.state == state,
            fs.local_state@ == Map::<u8, LocalState>::empty(),
            fs.direction == Direction::Unknown,
            fs.operation == Operation::NoOperation,
            watch_channel(fs.unique_operation_event.0, fs.unique_operation_event.1) == Some(
                Operation::NoOperation,
            ),
            fs.codec == Codec::Unknown,
            fs.files@ == Seq::<F>::empty(),
            !fs.file_open,
            fs.remainder@ == Seq::<u8>::empty(),
    {
        RemoteFileSystem {
            state,
            local_state: HashMap::new(),
            direction: Direction::Unknown,
            operation: Operation::NoOperation,
            unique_operation_event: operation_channel(Operation::NoOperation),
            codec: Codec::Unknown,
            files: Vec::new(),
            file_open: false,
            remainder: Vec::new(),
        }
    }

    /// The stream to the other end.
    pub fn inner_mut(&mut self) -> (state: &mut S)
        ensures
            *state == old(self).state,
            *final(self) == (RemoteFileSystem { state: *final(state), ..*old(self) }),
    {
        &mut self.state
    }

    /// Sets how files are sent.
    pub fn set_codec(&mut self, codec: Codec)
        ensures
            *final(self) == (RemoteFileSystem { codec, ..*old(self) }),
    {
        self.codec = codec;
    }

    /// Sets which side the frames that are sent are meant for.
    pub fn set_direction(&mut self, direction: Direction)
        ensures
            *final(self) == (RemoteFileSystem { direction, ..*old(self) }),
    {
        self.direction = direction;
    }

    /// Adds a state, in place of the one that had this id.
    pub fn create_state(&mut self, state_id: u8, state: LocalState)
        ensures
            final(self).local_state@ == old(self).local_state@.insert(state_id, state),
            *final(self) == (RemoteFileSystem {
                local_state: final(self).local_state,
                ..*old(self)
            }),
    {
        self.local_state.insert(state_id, state);
    }

    /// Removes a state.
    pub fn remove_state(&mut self, state_id: u8)
        ensures
            final(self).local_state@ == old(self).local_state@.remove(state_id),
            *final(self) == (RemoteFileSystem {
                local_state: final(self).local_state,
                ..*old(self)
            }),
    {
        self.local_state.remove(&state_id);
    }

    /// Sets what is to be carried out next.
    pub fn set_operation(&mut self, operation: Operation) -> (result: Result<
        (),
        StreamableFileSystemErrors,
    >)
        ensures
            result is Ok,
            *final(self) == (RemoteFileSystem { operation, ..*old(self) }),
    {
        self.operation = operation;
        Ok(())
    }

    /// Forgets the files that were to be sent.
    pub fn clear_files(&mut self)
        ensures
            final(self).files@ == Seq::<F>::empty(),
            *final(self) == (RemoteFileSystem { files: final(self).files, ..*old(self) }),
    {
        self.files = Vec::new();
    }

    /// Adds a file to those that are to be sent.
    pub fn append_files(&mut self, file: F)
        ensures
            final(self).files@ == old(self).files@.push(file),
            *final(self) == (RemoteFileSystem { files: final(self).files, ..*old(self) }),
    {
        self.files.push(file);
    }

    /// A handle with which the operation that is being carried out can be watched.
    pub fn get_operation_event(&self) -> (events: tokio::sync::watch::Receiver<Operation>)
        ensures
            events == self.unique_operation_event.1,
    {
        self.unique_operation_event.1.clone()
    }
}

} // verus!

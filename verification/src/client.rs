//! What someone asks of the sending end, and how the filesystem is made ready for it.
use crate::filesystem::{LocalState, RemoteFileSystem};
use crate::protocol::Operation;
use crate::text::starts_with;
use vstd::prelude::*;

verus! {

/// What is asked for.
#[derive(Clone, Copy, Debug, PartialEq, Eq, Structural)]
pub enum Request {
    /// That a file is sent.
    SendFile,
    /// That a directory is listed.
    List,
    /// Nothing that is known.
    Unknown,
}

/// What a line of input asks for, by the word that it begins with.
pub fn request_of(input: &str) -> (request: Request)
    ensures
        request == (if "send"@.is_prefix_of(input@) {
            Request::SendFile
        } else if "ls"@.is_prefix_of(input@) {
            Request::List
        } else {
            Request::Unknown
        }),
{
    if starts_with(input, "send") {
        Request::SendFile
    } else if starts_with(input, "ls") {
        Request::List
    } else {
        Request::Unknown
    }
}

impl<S: Default, F> RemoteFileSystem<S, F> {
    /// Makes ready to send `file`, and no other, for a state that begins at `location`.
    pub fn prepare_send(&mut self, state_id: u8, location: String, file: F)
        ensures
            final(self).local_state@ == old(self).local_state@.insert(
                state_id,
                LocalState { location },
            ),
            final(self).operation == Operation::Move,
            final(self).files@ == seq![file],
            *final(self) == (RemoteFileSystem {
                local_state: final(self).local_state,
                operation: final(self).operation,
                files: final(self).files,
                ..*old(self)
            }),
    {
        self.create_state(state_id, LocalState { location });
        let _ = self.set_operation(Operation::Move);
        self.clear_files();
        self.append_files(file);
        assert(self.files@ =~= seq![file]);
    }

    /// Makes ready to list the directory at `location`.
    pub fn prepare_list(&mut self, state_id: u8, location: String)
        ensures
            final(self).local_state@ == old(self).local_state@.insert(
                state_id,
                LocalState { location },
            ),
            final(self).operation == Operation::Ls,
            *final(self) == (RemoteFileSystem {
                local_state: final(self).local_state,
                operation: final(self).operation,
                ..*old(self)
            }),
    {
        self.create_state(state_id, LocalState { location });
        let _ = self.set_operation(Operation::Ls);
    }
}

} // verus!

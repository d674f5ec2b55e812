//! What frames that arrive do to a filesystem and to the files that it writes.
use crate::filesystem::{FileAction, RemoteFileSystem};
use crate::frames::{EofFrame, FileFrame, SetFrame};
use crate::protocol::{FileHandleStatus, Operation};
use crate::receiving::FrameCommons;
use vstd::prelude::*;
use vstd::utf8::{decode_utf8, valid_utf8};

verus! {

broadcast use vstd::std_specs::hash::group_hash_axioms;

/// A disk: what the file at each location holds, and at which of them the file that is open is.
#[verifier::ext_equal]
pub struct Disk {
    pub files: Map<Seq<char>, Seq<u8>>,
    pub open: Option<Seq<char>>,
}

impl Disk {
    /// The disk after an action has been carried out: opening a file empties it, writing appends to the
    /// one that is open, and closing leaves none open.
    pub open spec fn after(self, action: FileAction) -> Disk {
        match action {
            FileAction::Write { open: Some(location), bytes } => Disk {
                files: self.files.insert(location@, bytes@),
                open: Some(location@),
            },
            FileAction::Write { open: None, bytes } => match self.open {
                Some(location) => Disk {
                    files: self.files.insert(location, self.files[location] + bytes@),
                    open: self.open,
                },
                None => self,
            },
            FileAction::Close => Disk { open: None, ..self },
        }
    }

    /// The disk after these actions have been carried out, in order.
    pub open spec fn after_all(self, actions: Seq<FileAction>) -> Disk
        decreases actions.len(),
    {
        if actions.len() == 0 {
            self
        } else {
            self.after_all(actions.drop_last()).after(actions.last())
        }
    }
}

/// All but the states, what is left of the stream and whether a file is open is the same.
pub open spec fn otherwise_same<S, F>(one: RemoteFileSystem<S, F>, other: RemoteFileSystem<S, F>) -> bool {
    &&& one.state == other.state
    &&& one.direction == other.direction
    &&& one.operation == other.operation
    &&& one.unique_operation_event == other.unique_operation_event
    &&& one.codec == other.codec
    &&& one.files == other.files
}

/// Writing a piece asks for a file to be opened exactly where none is open, and then for the one at the
/// given location; the bytes are those of the piece, and from then on a file is open. Nothing else changes.
pub proof fn law_write_opens_once<S, F>(
    frame: &mut FileFrame,
    fs: &mut RemoteFileSystem<S, F>,
    location: String,
    action: Result<FileAction, FileHandleStatus>,
)
    requires
        call_ensures(FileFrame::write_at_location::<S, F>, (frame, fs, location), action),
    ensures
        action matches Ok(FileAction::Write { open, bytes }) && {
            &&& open is None <==> old(fs).file_open
            &&& open matches Some(opened) ==> opened@ == location@
            &&& bytes@ == old(frame).chunks@
        },
        final(fs).file_open,
        final(fs).local_state@ == old(fs).local_state@,
        final(fs).remainder@ == old(fs).remainder@,
        otherwise_same(*final(fs), *old(fs)),
        *final(frame) == *old(frame),
{
}

/// A piece that arrives is written exactly where the state that is received for is there: at its location
/// where no file is open, and to the open file otherwise. The states stay as they are, a file is open
/// afterwards, and where there is no such state nothing changes.
pub proof fn law_piece_is_written<S, F>(
    frame: FileFrame,
    state_id: u8,
    fs: &mut RemoteFileSystem<S, F>,
    action: Result<Option<FileAction>, FileHandleStatus>,
)
    requires
        call_ensures(<FileFrame as FrameCommons>::handle::<S, F>, (frame, state_id, fs), action),
    ensures
        if old(fs).local_state@.contains_key(state_id) {
            &&& action matches Ok(Some(FileAction::Write { open, bytes })) && {
                &&& open is None <==> old(fs).file_open
                &&& open matches Some(opened) ==> opened@ == old(fs).local_state@[state_id].location@
                &&& bytes@ == frame.chunks@
            }
            &&& final(fs).file_open
        } else {
            &&& action == Err::<Option<FileAction>, FileHandleStatus>(
                FileHandleStatus::NoStateGiven,
            )
            &&& final(fs).file_open == old(fs).file_open
        },
        forall|id: u8| #[trigger]
            final(fs).local_state@.contains_key(id) <==> old(fs).local_state@.contains_key(id),
        forall|id: u8| #[trigger]
            old(fs).local_state@.contains_key(id)
                ==> final(fs).local_state@[id].location@ == old(fs).local_state@[id].location@,
        final(fs).remainder@ == old(fs).remainder@,
        otherwise_same(*final(fs), *old(fs)),
{
    let before = old(fs).locations();
    let after = final(fs).locations();
    assert forall|id: u8| #[trigger] final(fs).local_state@.contains_key(id)
        <==> old(fs).local_state@.contains_key(id) by {
        assert(after.contains_key(id) == before.contains_key(id));
    }
    assert forall|id: u8| #[trigger] old(fs).local_state@.contains_key(id)
        implies final(fs).local_state@[id].location@ == old(fs).local_state@[id].location@ by {
        assert(after[id] == before[id]);
        assert(final(fs).local_state@.contains_key(id));
    }
}

/// A location that arrives becomes that of the state that is received for, whichever state it names, where
/// that state is there and the bytes are text; no other state changes, and no file is opened or closed.
/// Otherwise the frame is refused and nothing changes at all.
pub proof fn law_location_is_set<S, F>(
    frame: SetFrame,
    state_id: u8,
    fs: &mut RemoteFileSystem<S, F>,
    action: Result<Option<FileAction>, FileHandleStatus>,
)
    requires
        call_ensures(<SetFrame as FrameCommons>::handle::<S, F>, (frame, state_id, fs), action),
    ensures
        action == if !old(fs).local_state@.contains_key(state_id) {
            Err::<Option<FileAction>, FileHandleStatus>(FileHandleStatus::IncorrectStateAsked)
        } else if !valid_utf8(frame.chunks@) {
            Err(FileHandleStatus::IncorrectData)
        } else {
            Ok(None)
        },
        forall|id: u8| #[trigger]
            final(fs).local_state@.contains_key(id) <==> old(fs).local_state@.contains_key(id),
        forall|id: u8| #[trigger]
            old(fs).local_state@.contains_key(id) ==> final(fs).local_state@[id].location@ == if id
                == state_id && action is Ok {
                decode_utf8(frame.chunks@)
            } else {
                old(fs).local_state@[id].location@
            },
        final(fs).file_open == old(fs).file_open,
        final(fs).remainder@ == old(fs).remainder@,
        otherwise_same(*final(fs), *old(fs)),
{
    let before = old(fs).locations();
    let after = final(fs).locations();
    assert forall|id: u8| #[trigger] final(fs).local_state@.contains_key(id)
        <==> old(fs).local_state@.contains_key(id) by {
        assert(after.contains_key(id) == before.contains_key(id));
    }
    assert forall|id: u8| #[trigger] old(fs).local_state@.contains_key(id)
        implies final(fs).local_state@[id].location@ == if id == state_id && action is Ok {
        decode_utf8(frame.chunks@)
    } else {
        old(fs).local_state@[id].location@
    } by {
        assert(final(fs).local_state@.contains_key(id));
        assert(after[id] == final(fs).local_state@[id].location@);
        assert(before[id] == old(fs).local_state@[id].location@);
    }
}

/// The end of a file closes it, and changes nothing but that no file is open any more: every state stays,
/// at its location.
pub proof fn law_end_closes<S, F>(
    frame: EofFrame,
    state_id: u8,
    fs: &mut RemoteFileSystem<S, F>,
    action: Result<Option<FileAction>, FileHandleStatus>,
)
    requires
        call_ensures(<EofFrame as FrameCommons>::handle::<S, F>, (frame, state_id, fs), action),
    ensures
        action == Ok::<Option<FileAction>, FileHandleStatus>(Some(FileAction::Close)),
        !final(fs).file_open,
        forall|id: u8| #[trigger]
            final(fs).local_state@.contains_key(id) <==> old(fs).local_state@.contains_key(id),
        forall|id: u8| #[trigger]
            old(fs).local_state@.contains_key(id)
                ==> final(fs).local_state@[id].location@ == old(fs).local_state@[id].location@,
        final(fs).locations() == old(fs).locations(),
        final(fs).remainder@ == old(fs).remainder@,
        otherwise_same(*final(fs), *old(fs)),
{
    let before = old(fs).locations();
    let after = final(fs).locations();
    assert forall|id: u8| #[trigger] final(fs).local_state@.contains_key(id)
        <==> old(fs).local_state@.contains_key(id) by {
        assert(after.contains_key(id) == before.contains_key(id));
    }
    assert forall|id: u8| #[trigger] old(fs).local_state@.contains_key(id)
        implies final(fs).local_state@[id].location@ == old(fs).local_state@[id].location@ by {
        assert(after[id] == before[id]);
        assert(final(fs).local_state@.contains_key(id));
    }
}

/// The locations of a filesystem are those of its states.
pub proof fn law_locations_are_those_of_the_states<S, F>(fs: RemoteFileSystem<S, F>, id: u8)
    ensures
        fs.locations().contains_key(id) <==> fs.local_state@.contains_key(id),
        fs.local_state@.contains_key(id) ==> fs.locations()[id] == fs.local_state@[id].location@,
{
}

/// What these pieces carry, one behind the other.
pub open spec fn carried(frames: Seq<FileFrame>) -> Seq<u8>
    decreases frames.len(),
{
    if frames.len() == 0 {
        seq![]
    } else {
        carried(frames.drop_last()) + frames.last().chunks@
    }
}

/// When the pieces of a file arrive one after the other at a filesystem that has no file open, and what
/// they ask for is carried out, the file at the location of the state holds what they carry, and nothing
/// that it held before; every other file holds what it held, and the file is left open.
pub proof fn law_pieces_make_up_the_file<S, F>(
    frames: Seq<FileFrame>,
    state_id: u8,
    calls: Seq<&mut RemoteFileSystem<S, F>>,
    actions: Seq<FileAction>,
    disk: Disk,
)
    requires
        0 < frames.len() == calls.len() == actions.len(),
        forall|i: int|
            0 <= i < frames.len() ==> #[trigger] call_ensures(
                <FileFrame as FrameCommons>::handle::<S, F>,
                (frames[i], state_id, calls[i]),
                Ok(Some(actions[i])),
            ),
        forall|i: int| 1 <= i < calls.len() ==> *#[trigger] calls[i] == *final(calls[i - 1]),
        calls[0].local_state@.contains_key(state_id),
        !calls[0].file_open,
    ensures
        ({
            let location = calls[0].local_state@[state_id].location@;
            disk.after_all(actions) == (Disk {
                files: disk.files.insert(location, carried(frames)),
                open: Some(location),
            })
        }),
        final(calls.last()).file_open,
        final(calls.last()).locations() == calls[0].locations(),
    decreases frames.len(),
{
    let last = frames.len() - 1;
    let location = calls[0].local_state@[state_id].location@;
    assert(calls[0].locations()[state_id] == location);
    assert(call_ensures(
        <FileFrame as FrameCommons>::handle::<S, F>,
        (frames[last], state_id, calls[last]),
        Ok(Some(actions[last])),
    ));
    if last == 0 {
        assert(actions.drop_last() =~= Seq::empty());
        assert(frames.drop_last() =~= Seq::empty());
        assert(disk.after_all(actions.drop_last()) == disk);
        assert(carried(frames.drop_last()) =~= Seq::empty());
        assert(carried(frames) =~= frames[0].chunks@);
    } else {
        let before = calls.drop_last();
        assert forall|i: int| 0 <= i < last implies #[trigger] call_ensures(
            <FileFrame as FrameCommons>::handle::<S, F>,
            (frames.drop_last()[i], state_id, before[i]),
            Ok(Some(actions.drop_last()[i])),
        ) by {
            assert(call_ensures(
                <FileFrame as FrameCommons>::handle::<S, F>,
                (frames[i], state_id, calls[i]),
                Ok(Some(actions[i])),
            ));
        }
        law_pieces_make_up_the_file(frames.drop_last(), state_id, before, actions.drop_last(), disk);
        assert(*calls[last] == *final(calls[last - 1]));
        assert(calls[last].locations()[state_id] == location);
        let so_far = disk.after_all(actions.drop_last());
        assert(so_far.files[location] == carried(frames.drop_last()));
        assert(disk.after_all(actions).files =~= disk.files.insert(location, carried(frames)));
    }
}

/// When a file has ended, a location and the pieces of a next file that arrive are written at that
/// location: the file there holds what they carry, and the file before it is what it was.
pub proof fn law_next_file_is_written<S, F>(
    end: EofFrame,
    set: SetFrame,
    frames: Seq<FileFrame>,
    state_id: u8,
    ending: &mut RemoteFileSystem<S, F>,
    setting: &mut RemoteFileSystem<S, F>,
    calls: Seq<&mut RemoteFileSystem<S, F>>,
    closing: Result<Option<FileAction>, FileHandleStatus>,
    located: Result<Option<FileAction>, FileHandleStatus>,
    actions: Seq<FileAction>,
    disk: Disk,
)
    requires
        call_ensures(<EofFrame as FrameCommons>::handle::<S, F>, (end, state_id, ending), closing),
        call_ensures(<SetFrame as FrameCommons>::handle::<S, F>, (set, state_id, setting), located),
        0 < frames.len() == calls.len() == actions.len(),
        forall|i: int|
            0 <= i < frames.len() ==> #[trigger] call_ensures(
                <FileFrame as FrameCommons>::handle::<S, F>,
                (frames[i], state_id, calls[i]),
                Ok(Some(actions[i])),
            ),
        *old(setting) == *final(ending),
        *calls[0] == *final(setting),
        forall|i: int| 1 <= i < calls.len() ==> *#[trigger] calls[i] == *final(calls[i - 1]),
        old(ending).local_state@.contains_key(state_id),
        valid_utf8(set.chunks@),
    ensures
        closing matches Ok(Some(action)) && {
            let location = decode_utf8(set.chunks@);
            disk.after(action).after_all(actions) == (Disk {
                files: disk.files.insert(location, carried(frames)),
                open: Some(location),
            })
        },
        located matches Ok(None),
{
    let location = decode_utf8(set.chunks@);
    assert(old(ending).locations().contains_key(state_id));
    assert(old(setting).locations().contains_key(state_id));
    assert(final(setting).locations()[state_id] == location);
    assert(final(setting).locations().contains_key(state_id));
    assert(calls[0].local_state@.contains_key(state_id));
    assert(calls[0].local_state@[state_id].location@ == location);
    law_pieces_make_up_the_file(
        frames,
        state_id,
        calls,
        actions,
        disk.after(closing->Ok_0->0),
    );
}

} // verus!

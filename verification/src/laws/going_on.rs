//! How an operation goes on, call by call.
use crate::filesystem::RemoteFileSystem;
use crate::frames::{EofFrame, SetFrame};
use crate::framing::WithDelims;
use crate::laws::transferring::{is_end, is_location, only_what_came};
use crate::protocol::{
    Codec, FileFrameStatus, Operation, StreamableFileSystemErrors, TransportRecvError,
};
use crate::receiving::contents_of;
use crate::streams::{FileSender, StreamSender};
use crate::transfer::{
    end_frame, eof_layout, location_frame, set_layout, Stage, Transfer, TransferAction,
    TransferEvent,
};
use vstd::prelude::*;

verus! {

broadcast use vstd::std_specs::hash::group_hash_axioms;

/// The same states are there, each at the same location.
pub open spec fn same_places<S, F>(one: RemoteFileSystem<S, F>, other: RemoteFileSystem<S, F>) -> bool {
    &&& forall|id: u8| #[trigger]
        one.local_state@.contains_key(id) <==> other.local_state@.contains_key(id)
    &&& forall|id: u8| #[trigger]
        one.local_state@.contains_key(id) ==> one.local_state@[id].location@
            == other.local_state@[id].location@
}

/// An operation is over: no file is held for it any more, and this is what it came to.
pub open spec fn is_over<F>(
    transfer: Transfer<F>,
    action: TransferAction,
    result: Result<(), StreamableFileSystemErrors>,
) -> bool {
    &&& action matches TransferAction::Finish(came_to) && came_to == result
    &&& transfer.stage == Stage::Finished
    &&& transfer.current is None
    &&& transfer.waiting@.len() == 0
}

/// From `before` the first of the files that wait has been turned to. With none the operation is over;
/// without a state for it, the operation fails. Otherwise its location is that of the state, it is the
/// current file, the others wait in the same order, and that a location is set is to be announced.
pub open spec fn next_is_turned_to<S, F: FileSender>(
    before: RemoteFileSystem<S, F>,
    operation: Operation,
    waiting: Seq<F>,
    state_id: u8,
    after: RemoteFileSystem<S, F>,
    transfer: Transfer<F>,
    action: TransferAction,
) -> bool {
    if waiting.len() == 0 {
        &&& is_over(transfer, action, Ok(()))
        &&& after.operation == operation
        &&& same_places(after, before)
    } else if !before.local_state@.contains_key(state_id) {
        &&& is_over(transfer, action, Err(StreamableFileSystemErrors::NoStateGiven))
        &&& after.operation == Operation::SetLocation
        &&& same_places(after, before)
    } else {
        &&& action matches TransferAction::Announce(announced) && announced
            == Operation::SetLocation
        &&& transfer.stage == Stage::LocationAnnounced
        &&& transfer.current == Some(waiting[0])
        &&& transfer.waiting@.len() == waiting.len() - 1
        &&& forall|i: int|
            0 <= i < transfer.waiting@.len() ==> #[trigger] transfer.waiting@[i] == waiting[i + 1]
        &&& after.operation == Operation::SetLocation
        &&& forall|id: u8| #[trigger]
            after.local_state@.contains_key(id) <==> before.local_state@.contains_key(id)
        &&& forall|id: u8| #[trigger]
            after.local_state@.contains_key(id) ==> after.local_state@[id].location@ == if id
                == state_id {
                waiting[0].location()
            } else {
                before.local_state@[id].location@
            }
    }
}

proof fn lemma_same_places<S, F>(one: RemoteFileSystem<S, F>, other: RemoteFileSystem<S, F>)
    requires
        one.locations() == other.locations(),
    ensures
        same_places(one, other),
{
    let a = one.locations();
    let b = other.locations();
    assert forall|id: u8| #[trigger] one.local_state@.contains_key(id)
        <==> other.local_state@.contains_key(id) by {
        assert(a.contains_key(id) == b.contains_key(id));
    }
    assert forall|id: u8| #[trigger] one.local_state@.contains_key(id) implies
        one.local_state@[id].location@ == other.local_state@[id].location@ by {
        assert(other.local_state@.contains_key(id));
        assert(a[id] == b[id]);
    }
}

proof fn lemma_next_is_turned_to<S: StreamSender + Default, F: FileSender>(
    before: RemoteFileSystem<S, F>,
    operation: Operation,
    waiting: Seq<F>,
    now: crate::transfer::Progress<F>,
    state_id: u8,
    after: RemoteFileSystem<S, F>,
    transfer: Transfer<F>,
    action: TransferAction,
)
    requires
        now.operation == operation,
        now.locations == before.locations(),
        now.waiting == waiting,
        now.current is None,
        (after.progress(transfer), action@) == now.next_file(state_id),
    ensures
        next_is_turned_to(before, operation, waiting, state_id, after, transfer, action),
{
    assert(before.locations().contains_key(state_id) <==> before.local_state@.contains_key(
        state_id,
    ));
    if waiting.len() == 0 || !before.local_state@.contains_key(state_id) {
        lemma_same_places(after, before);
    } else {
        let a = after.locations();
        let b = before.locations();
        assert(a == b.insert(state_id, waiting[0].location()));
        assert forall|id: u8| #[trigger] after.local_state@.contains_key(id)
            <==> before.local_state@.contains_key(id) by {
            assert(a.contains_key(id) <==> b.contains_key(id));
        }
        assert forall|id: u8| #[trigger] after.local_state@.contains_key(id) implies
            after.local_state@[id].location@ == if id == state_id {
            waiting[0].location()
        } else {
            before.local_state@[id].location@
        } by {
            assert(a[id] == after.local_state@[id].location@);
            assert(before.local_state@.contains_key(id));
            assert(b[id] == before.local_state@[id].location@);
        }
    }
}

/// An operation begins with its announcement, for the given state, with no file turned to.
pub proof fn law_operation_begins<S: StreamSender + Default, F: FileSender>(
    fs: &RemoteFileSystem<S, F>,
    state_id: u8,
    begun: (Transfer<F>, TransferAction),
)
    requires
        call_ensures(RemoteFileSystem::<S, F>::execute_operation, (fs, state_id), begun),
    ensures
        begun.0.state_id == state_id,
        begun.0.stage == Stage::Announced,
        begun.0.current is None,
        begun.0.waiting@.len() == 0,
        begun.1 matches TransferAction::Announce(operation) && operation == fs.operation,
{
}

/// Whatever is gone on with, the stream, the direction, the codec, what is left of the stream, whether a
/// file is open and the state that is meant stay. The files that are to be sent stay too, but for a move
/// that begins, which takes them all. No state comes or goes, and no other state changes.
pub proof fn law_going_on_keeps<S: StreamSender + Default, F: FileSender>(
    fs: &mut RemoteFileSystem<S, F>,
    transfer: &mut Transfer<F>,
    event: TransferEvent,
    action: TransferAction,
)
    requires
        call_ensures(RemoteFileSystem::<S, F>::resume_operation, (fs, transfer, event), action),
    ensures
        final(transfer).state_id == old(transfer).state_id,
        final(fs).state == old(fs).state,
        final(fs).direction == old(fs).direction,
        final(fs).codec == old(fs).codec,
        final(fs).remainder == old(fs).remainder,
        final(fs).file_open == old(fs).file_open,
        final(fs).unique_operation_event == old(fs).unique_operation_event,
        final(fs).files@ == if old(transfer).stage == Stage::Announced && old(fs).operation
            == Operation::Move {
            seq![]
        } else {
            old(fs).files@
        },
        forall|id: u8| #[trigger]
            final(fs).local_state@.contains_key(id) <==> old(fs).local_state@.contains_key(id),
        forall|id: u8| #[trigger]
            final(fs).local_state@.contains_key(id)
                && id != old(transfer).state_id
                ==> final(fs).local_state@[id].location@ == old(fs).local_state@[id].location@,
{
    let a = final(fs).locations();
    let b = old(fs).locations();
    assert forall|id: u8| #[trigger] final(fs).local_state@.contains_key(id)
        <==> old(fs).local_state@.contains_key(id) by {
        assert(a.contains_key(id) <==> b.contains_key(id));
    }
    assert forall|id: u8| #[trigger] final(fs).local_state@.contains_key(id)
        && id != old(transfer).state_id
        implies final(fs).local_state@[id].location@ == old(fs).local_state@[id].location@ by {
        assert(a[id] == b[id]);
        assert(old(fs).local_state@.contains_key(id));
    }
}

/// Setting a location, once announced, sends what the stream makes of the location of the state, whatever
/// files are to be sent. Nothing about the filesystem changes.
pub proof fn law_announced_location_is_sent<S: StreamSender + Default, F: FileSender>(
    fs: &mut RemoteFileSystem<S, F>,
    transfer: &mut Transfer<F>,
    event: TransferEvent,
    action: TransferAction,
    frame: SetFrame,
    encoded: Result<Vec<u8>, FileFrameStatus>,
)
    requires
        call_ensures(RemoteFileSystem::<S, F>::resume_operation, (fs, transfer, event), action),
        old(transfer).stage == Stage::Announced,
        old(fs).operation == Operation::SetLocation,
        old(fs).local_state@.contains_key(old(transfer).state_id),
        is_location(frame, *old(fs), old(transfer).state_id),
        call_ensures(S::encode_frame::<SetFrame, WithDelims>, (&old(fs).state, frame), encoded),
    ensures
        action matches TransferAction::Send(frames) && only_what_came(frames@, encoded),
        final(transfer).stage == Stage::OnlyFrameSent,
        final(transfer).current == old(transfer).current,
        final(transfer).waiting@ == old(transfer).waiting@,
        final(fs).operation == Operation::SetLocation,
        final(fs).files@ == old(fs).files@,
        same_places(*final(fs), *old(fs)),
{
    lemma_same_places(*final(fs), *old(fs));
    let state_id = old(transfer).state_id;
    assert(old(fs).locations().contains_key(state_id));
    lemma_location_frames(*old(fs), state_id, action, frame, encoded);
}

/// Setting a location fails, once announced, where the state that is meant is not there, and nothing about
/// the filesystem changes.
pub proof fn law_location_needs_a_state<S: StreamSender + Default, F: FileSender>(
    fs: &mut RemoteFileSystem<S, F>,
    transfer: &mut Transfer<F>,
    event: TransferEvent,
    action: TransferAction,
)
    requires
        call_ensures(RemoteFileSystem::<S, F>::resume_operation, (fs, transfer, event), action),
        old(transfer).stage == Stage::Announced,
        old(fs).operation == Operation::SetLocation,
        !old(fs).local_state@.contains_key(old(transfer).state_id),
    ensures
        is_over(*final(transfer), action, Err(StreamableFileSystemErrors::NoStateGiven)),
        final(fs).operation == Operation::SetLocation,
        final(fs).files@ == old(fs).files@,
        same_places(*final(fs), *old(fs)),
{
    lemma_same_places(*final(fs), *old(fs));
    assert(!old(fs).locations().contains_key(old(transfer).state_id));
}

proof fn lemma_location_frames<S: StreamSender + Default, F: FileSender>(
    fs: RemoteFileSystem<S, F>,
    state_id: u8,
    action: TransferAction,
    frame: SetFrame,
    encoded: Result<Vec<u8>, FileFrameStatus>,
)
    requires
        fs.local_state@.contains_key(state_id),
        is_location(frame, fs, state_id),
        call_ensures(S::encode_frame::<SetFrame, WithDelims>, (&fs.state, frame), encoded),
        action@ == crate::transfer::TransferActionView::Send(
            fs.location_sent(state_id, fs.locations()[state_id]),
        ),
    ensures
        action matches TransferAction::Send(frames) && only_what_came(frames@, encoded),
{
    let location = fs.local_state@[state_id].location@;
    assert(fs.locations()[state_id] == location);
    let view = location_frame(fs.direction, state_id, location);
    assert(frame@ =~= view);
    assert(crate::framing::layout_of::<SetFrame, WithDelims>(frame).fits =~= set_layout(view).fits);
    assert(crate::framing::layout_of::<SetFrame, WithDelims>(frame).layout =~= set_layout(
        view,
    ).layout);
    if let TransferAction::Send(frames) = action {
        let contents = contents_of(frames@);
        assert(contents.len() == frames@.len());
        if let Ok(bytes) = encoded {
            assert(contents =~= seq![bytes@]);
            assert(contents[0] == frames@[0]@);
        } else {
            assert(contents =~= Seq::empty());
        }
    }
}

proof fn lemma_end_frames<S: StreamSender + Default, F: FileSender>(
    fs: RemoteFileSystem<S, F>,
    action: TransferAction,
    frame: EofFrame,
    encoded: Result<Vec<u8>, FileFrameStatus>,
)
    requires
        is_end(frame, fs),
        call_ensures(S::encode_frame::<EofFrame, WithDelims>, (&fs.state, frame), encoded),
        action@ == crate::transfer::TransferActionView::Send(fs.end_sent()),
    ensures
        action matches TransferAction::Send(frames) && only_what_came(frames@, encoded),
{
    let view = end_frame(fs.direction);
    assert(frame == view);
    assert(crate::framing::layout_of::<EofFrame, WithDelims>(frame).fits =~= eof_layout(view).fits);
    assert(crate::framing::layout_of::<EofFrame, WithDelims>(frame).layout =~= eof_layout(
        view,
    ).layout);
    if let TransferAction::Send(frames) = action {
        let contents = contents_of(frames@);
        assert(contents.len() == frames@.len());
        if let Ok(bytes) = encoded {
            assert(contents =~= seq![bytes@]);
            assert(contents[0] == frames@[0]@);
        } else {
            assert(contents =~= Seq::empty());
        }
    }
}

/// An end, once announced, sends what the stream makes of the end of a file, be it an operation of its own,
/// whatever files are to be sent, or the end of a file that was moved. Nothing about the filesystem changes.
pub proof fn law_announced_end_is_sent<S: StreamSender + Default, F: FileSender>(
    fs: &mut RemoteFileSystem<S, F>,
    transfer: &mut Transfer<F>,
    event: TransferEvent,
    action: TransferAction,
    frame: EofFrame,
    encoded: Result<Vec<u8>, FileFrameStatus>,
)
    requires
        call_ensures(RemoteFileSystem::<S, F>::resume_operation, (fs, transfer, event), action),
        (old(transfer).stage == Stage::Announced
            && old(fs).operation == Operation::Eof) || old(transfer).stage == Stage::EndAnnounced,
        is_end(frame, *old(fs)),
        call_ensures(S::encode_frame::<EofFrame, WithDelims>, (&old(fs).state, frame), encoded),
    ensures
        action matches TransferAction::Send(frames) && only_what_came(frames@, encoded),
        final(transfer).stage == if old(transfer).stage == Stage::Announced {
            Stage::OnlyFrameSent
        } else {
            Stage::EndSent
        },
        final(transfer).current == old(transfer).current,
        final(transfer).waiting@ == old(transfer).waiting@,
        final(fs).operation == old(fs).operation,
        final(fs).files@ == old(fs).files@,
        same_places(*final(fs), *old(fs)),
{
    lemma_same_places(*final(fs), *old(fs));
    lemma_end_frames(*old(fs), action, frame, encoded);
}

/// What is no operation that sends anything is refused, and nothing about the filesystem changes.
pub proof fn law_other_operations_are_refused<S: StreamSender + Default, F: FileSender>(
    fs: &mut RemoteFileSystem<S, F>,
    transfer: &mut Transfer<F>,
    event: TransferEvent,
    action: TransferAction,
)
    requires
        call_ensures(RemoteFileSystem::<S, F>::resume_operation, (fs, transfer, event), action),
        old(transfer).stage == Stage::Announced,
        old(fs).operation == Operation::Ls || old(fs).operation == Operation::NoOperation,
    ensures
        is_over(*final(transfer), action, Err(StreamableFileSystemErrors::NoOperation)),
        final(fs).operation == old(fs).operation,
        final(fs).files@ == old(fs).files@,
        same_places(*final(fs), *old(fs)),
{
    lemma_same_places(*final(fs), *old(fs));
}

/// When the only frame of an operation has been sent, the operation has succeeded, and nothing about the
/// filesystem changes.
pub proof fn law_only_frame_ends_the_operation<S: StreamSender + Default, F: FileSender>(
    fs: &mut RemoteFileSystem<S, F>,
    transfer: &mut Transfer<F>,
    event: TransferEvent,
    action: TransferAction,
)
    requires
        call_ensures(RemoteFileSystem::<S, F>::resume_operation, (fs, transfer, event), action),
        old(transfer).stage == Stage::OnlyFrameSent,
    ensures
        is_over(*final(transfer), action, Ok(())),
        final(fs).operation == old(fs).operation,
        final(fs).files@ == old(fs).files@,
        same_places(*final(fs), *old(fs)),
{
    lemma_same_places(*final(fs), *old(fs));
}

/// A move, once announced, turns to the first of the files that are to be sent; none of them is to be sent
/// another time.
pub proof fn law_move_turns_to_the_first_file<S: StreamSender + Default, F: FileSender>(
    fs: &mut RemoteFileSystem<S, F>,
    transfer: &mut Transfer<F>,
    event: TransferEvent,
    action: TransferAction,
)
    requires
        call_ensures(RemoteFileSystem::<S, F>::resume_operation, (fs, transfer, event), action),
        old(transfer).stage == Stage::Announced,
        old(transfer).current is None,
        old(fs).operation == Operation::Move,
    ensures
        next_is_turned_to(
            *old(fs),
            Operation::Move,
            old(fs).files@,
            old(transfer).state_id,
            *final(fs),
            *final(transfer),
            action,
        ),
        final(fs).files@.len() == 0,
{
    lemma_next_is_turned_to(
        *old(fs),
        Operation::Move,
        old(fs).files@,
        (crate::transfer::Progress {
            files: Seq::empty(),
            waiting: old(fs).files@,
            ..old(fs).progress(*old(transfer))
        }),
        old(transfer).state_id,
        *final(fs),
        *final(transfer),
        action,
    );
}

/// When it has been announced that the location of a file is set, what the stream makes of the location is
/// sent; nothing else changes.
pub proof fn law_location_of_a_file_is_sent<S: StreamSender + Default, F: FileSender>(
    fs: &mut RemoteFileSystem<S, F>,
    transfer: &mut Transfer<F>,
    event: TransferEvent,
    action: TransferAction,
    frame: SetFrame,
    encoded: Result<Vec<u8>, FileFrameStatus>,
)
    requires
        call_ensures(RemoteFileSystem::<S, F>::resume_operation, (fs, transfer, event), action),
        old(transfer).stage == Stage::LocationAnnounced,
        old(fs).local_state@.contains_key(old(transfer).state_id),
        is_location(frame, *old(fs), old(transfer).state_id),
        call_ensures(S::encode_frame::<SetFrame, WithDelims>, (&old(fs).state, frame), encoded),
    ensures
        action matches TransferAction::Send(frames) && only_what_came(frames@, encoded),
        final(transfer).stage == Stage::LocationSent,
        final(transfer).current == old(transfer).current,
        final(transfer).waiting@ == old(transfer).waiting@,
        final(fs).operation == old(fs).operation,
        final(fs).files@ == old(fs).files@,
        same_places(*final(fs), *old(fs)),
{
    lemma_same_places(*final(fs), *old(fs));
    lemma_location_frames(*old(fs), old(transfer).state_id, action, frame, encoded);
}

/// When the location of a file has been sent, the file is moved: read where the codec is a raw one, and
/// passed over for the next one otherwise.
pub proof fn law_located_file_is_read<S: StreamSender + Default, F: FileSender>(
    fs: &mut RemoteFileSystem<S, F>,
    transfer: &mut Transfer<F>,
    event: TransferEvent,
    action: TransferAction,
)
    requires
        call_ensures(RemoteFileSystem::<S, F>::resume_operation, (fs, transfer, event), action),
        old(transfer).stage == Stage::LocationSent,
    ensures
        if old(fs).codec == Codec::Raw || old(fs).codec == Codec::RawContinues {
            &&& action is ReadChunk
            &&& final(transfer).stage == Stage::Reading
            &&& final(transfer).current == old(transfer).current
            &&& final(transfer).waiting@ == old(transfer).waiting@
            &&& final(fs).operation == Operation::Move
            &&& same_places(*final(fs), *old(fs))
        } else {
            next_is_turned_to(
                *old(fs),
                Operation::Move,
                old(transfer).waiting@,
                old(transfer).state_id,
                *final(fs),
                *final(transfer),
                action,
            )
        },
        final(fs).files@ == old(fs).files@,
{
    if old(fs).codec == Codec::Raw || old(fs).codec == Codec::RawContinues {
        lemma_same_places(*final(fs), *old(fs));
    } else {
        lemma_next_is_turned_to(
            *old(fs),
            Operation::Move,
            old(transfer).waiting@,
            (crate::transfer::Progress {
                operation: Operation::Move,
                current: None,
                ..old(fs).progress(*old(transfer))
            }),
            old(transfer).state_id,
            *final(fs),
            *final(transfer),
            action,
        );
    }
}

/// What has been read of a file is sent in the frames that sending it comes to; the file stays the current
/// one, and nothing about the filesystem changes.
pub proof fn law_read_bytes_are_sent<S: StreamSender + Default, F: FileSender>(
    fs: &mut RemoteFileSystem<S, F>,
    transfer: &mut Transfer<F>,
    bytes: Vec<u8>,
    action: TransferAction,
    same: &RemoteFileSystem<S, F>,
    outgoing: Result<Vec<Vec<u8>>, StreamableFileSystemErrors>,
)
    requires
        call_ensures(
            RemoteFileSystem::<S, F>::resume_operation,
            (fs, transfer, TransferEvent::Chunk(Ok(bytes))),
            action,
        ),
        old(transfer).stage == Stage::Reading,
        *same == *old(fs),
        call_ensures(RemoteFileSystem::<S, F>::send_chunk, (same, Ok(bytes)), outgoing),
    ensures
        action matches TransferAction::Send(frames) && {
            &&& outgoing is Ok
            &&& frames@.len() == outgoing->Ok_0@.len()
            &&& forall|i: int|
                0 <= i < frames@.len() ==> (#[trigger] frames@[i])@ == outgoing->Ok_0@[i]@
        },
        final(transfer).stage == Stage::PiecesSent,
        final(transfer).current == old(transfer).current,
        final(transfer).waiting@ == old(transfer).waiting@,
        final(fs).operation == old(fs).operation,
        final(fs).files@ == old(fs).files@,
        same_places(*final(fs), *old(fs)),
{
    lemma_same_places(*final(fs), *old(fs));
    if let TransferAction::Send(frames) = action {
        let a = contents_of(frames@);
        let b = contents_of(outgoing->Ok_0@);
        assert(a == b);
        assert(a.len() == frames@.len() && b.len() == outgoing->Ok_0@.len());
        assert forall|i: int| 0 <= i < frames@.len() implies (#[trigger] frames@[i])@
            == outgoing->Ok_0@[i]@ by {
            assert(a[i] == b[i]);
        }
    }
}

/// When nothing will come of a file any more, it has ended, which is to be announced. When it could not be
/// read for another reason, the next file is turned to at once.
pub proof fn law_file_ends_with_its_content<S: StreamSender + Default, F: FileSender>(
    fs: &mut RemoteFileSystem<S, F>,
    transfer: &mut Transfer<F>,
    error: TransportRecvError,
    action: TransferAction,
)
    requires
        call_ensures(
            RemoteFileSystem::<S, F>::resume_operation,
            (fs, transfer, TransferEvent::Chunk(Err(error))),
            action,
        ),
        old(transfer).stage == Stage::Reading,
    ensures
        if error == TransportRecvError::Disconnected {
            &&& action matches TransferAction::Announce(announced) && announced == Operation::Eof
            &&& final(transfer).stage == Stage::EndAnnounced
            &&& final(transfer).current is None
            &&& final(transfer).waiting@ == old(transfer).waiting@
            &&& final(fs).operation == Operation::Eof
            &&& same_places(*final(fs), *old(fs))
        } else {
            next_is_turned_to(
                *old(fs),
                old(fs).operation,
                old(transfer).waiting@,
                old(transfer).state_id,
                *final(fs),
                *final(transfer),
                action,
            )
        },
        final(fs).files@ == old(fs).files@,
{
    if error == TransportRecvError::Disconnected {
        lemma_same_places(*final(fs), *old(fs));
    } else {
        lemma_next_is_turned_to(
            *old(fs),
            old(fs).operation,
            old(transfer).waiting@,
            (crate::transfer::Progress { current: None, ..old(fs).progress(*old(transfer)) }),
            old(transfer).state_id,
            *final(fs),
            *final(transfer),
            action,
        );
    }
}

/// When a part of a file has been sent, more of it is read; nothing about the filesystem changes.
pub proof fn law_reading_goes_on<S: StreamSender + Default, F: FileSender>(
    fs: &mut RemoteFileSystem<S, F>,
    transfer: &mut Transfer<F>,
    event: TransferEvent,
    action: TransferAction,
)
    requires
        call_ensures(RemoteFileSystem::<S, F>::resume_operation, (fs, transfer, event), action),
        old(transfer).stage == Stage::PiecesSent,
    ensures
        action is ReadChunk,
        final(transfer).stage == Stage::Reading,
        final(transfer).current == old(transfer).current,
        final(transfer).waiting@ == old(transfer).waiting@,
        final(fs).operation == old(fs).operation,
        final(fs).files@ == old(fs).files@,
        same_places(*final(fs), *old(fs)),
{
    lemma_same_places(*final(fs), *old(fs));
}

/// When the end of a file has been sent, the next file is turned to.
pub proof fn law_next_file_follows_an_end<S: StreamSender + Default, F: FileSender>(
    fs: &mut RemoteFileSystem<S, F>,
    transfer: &mut Transfer<F>,
    event: TransferEvent,
    action: TransferAction,
)
    requires
        call_ensures(RemoteFileSystem::<S, F>::resume_operation, (fs, transfer, event), action),
        old(transfer).stage == Stage::EndSent,
        old(transfer).current is None,
    ensures
        next_is_turned_to(
            *old(fs),
            old(fs).operation,
            old(transfer).waiting@,
            old(transfer).state_id,
            *final(fs),
            *final(transfer),
            action,
        ),
        final(fs).files@ == old(fs).files@,
{
    lemma_next_is_turned_to(
        *old(fs),
        old(fs).operation,
        old(transfer).waiting@,
        old(fs).progress(*old(transfer)),
        old(transfer).state_id,
        *final(fs),
        *final(transfer),
        action,
    );
}

/// Setting a location is one frame: begun, announced, sent and gone on with once more, it has succeeded.
/// Whatever files are to be sent, the one frame between is what the stream makes of the location of the
/// state, and the operation, the files and the locations are what they were.
pub proof fn law_setting_a_location_is_one_frame<S: StreamSender + Default, F: FileSender>(
    start: &RemoteFileSystem<S, F>,
    state_id: u8,
    begun: (Transfer<F>, TransferAction),
    fs: (&mut RemoteFileSystem<S, F>, &mut RemoteFileSystem<S, F>),
    transfers: (&mut Transfer<F>, &mut Transfer<F>),
    actions: (TransferAction, TransferAction),
    frame: SetFrame,
    encoded: Result<Vec<u8>, FileFrameStatus>,
)
    requires
        start.operation == Operation::SetLocation,
        start.local_state@.contains_key(state_id),
        call_ensures(RemoteFileSystem::<S, F>::execute_operation, (start, state_id), begun),
        *fs.0 == *start,
        *transfers.0 == begun.0,
        call_ensures(
            RemoteFileSystem::<S, F>::resume_operation,
            (fs.0, transfers.0, TransferEvent::Done),
            actions.0,
        ),
        *fs.1 == *final(fs.0),
        *transfers.1 == *final(transfers.0),
        call_ensures(
            RemoteFileSystem::<S, F>::resume_operation,
            (fs.1, transfers.1, TransferEvent::Done),
            actions.1,
        ),
        is_location(frame, *start, state_id),
        call_ensures(S::encode_frame::<SetFrame, WithDelims>, (&start.state, frame), encoded),
    ensures
        begun.1 matches TransferAction::Announce(operation) && operation == Operation::SetLocation,
        actions.0 matches TransferAction::Send(frames) && only_what_came(frames@, encoded),
        is_over(*final(transfers.1), actions.1, Ok(())),
        final(fs.1).operation == Operation::SetLocation,
        final(fs.1).files@ == start.files@,
        same_places(*final(fs.1), *start),
{
    assert(start.locations().contains_key(state_id));
    lemma_location_frames(*start, state_id, actions.0, frame, encoded);
    assert(final(fs.0).locations() == start.locations());
    assert(final(fs.1).locations() == start.locations());
    lemma_same_places(*final(fs.1), *start);
}

/// Telling an end is one frame: begun, announced, sent and gone on with once more, it has succeeded.
/// Whatever files are to be sent, the one frame between is what the stream makes of the end of a file, and
/// the operation, the files and the locations are what they were.
pub proof fn law_telling_an_end_is_one_frame<S: StreamSender + Default, F: FileSender>(
    start: &RemoteFileSystem<S, F>,
    state_id: u8,
    begun: (Transfer<F>, TransferAction),
    fs: (&mut RemoteFileSystem<S, F>, &mut RemoteFileSystem<S, F>),
    transfers: (&mut Transfer<F>, &mut Transfer<F>),
    actions: (TransferAction, TransferAction),
    frame: EofFrame,
    encoded: Result<Vec<u8>, FileFrameStatus>,
)
    requires
        start.operation == Operation::Eof,
        call_ensures(RemoteFileSystem::<S, F>::execute_operation, (start, state_id), begun),
        *fs.0 == *start,
        *transfers.0 == begun.0,
        call_ensures(
            RemoteFileSystem::<S, F>::resume_operation,
            (fs.0, transfers.0, TransferEvent::Done),
            actions.0,
        ),
        *fs.1 == *final(fs.0),
        *transfers.1 == *final(transfers.0),
        call_ensures(
            RemoteFileSystem::<S, F>::resume_operation,
            (fs.1, transfers.1, TransferEvent::Done),
            actions.1,
        ),
        is_end(frame, *start),
        call_ensures(S::encode_frame::<EofFrame, WithDelims>, (&start.state, frame), encoded),
    ensures
        begun.1 matches TransferAction::Announce(operation) && operation == Operation::Eof,
        actions.0 matches TransferAction::Send(frames) && only_what_came(frames@, encoded),
        is_over(*final(transfers.1), actions.1, Ok(())),
        final(fs.1).operation == Operation::Eof,
        final(fs.1).files@ == start.files@,
        same_places(*final(fs.1), *start),
{
    lemma_end_frames(*start, actions.0, frame, encoded);
    assert(final(fs.0).locations() == start.locations());
    assert(final(fs.1).locations() == start.locations());
    lemma_same_places(*final(fs.1), *start);
}

} // verus!

//! Bytes that arrive at a filesystem, and the frames in them.
use crate::chain::{ChainBuilder, HCons};
use crate::filesystem::{actions_of, FileAction, FileActionView, RemoteFileSystem};
use crate::frames::{EofFrame, FileFrame, SetFrame};
use crate::laws::writing::{otherwise_same, Disk};
use crate::protocol::{
    FileFrameStatus, FileHandleStatus, FileStreamError, Operation, StreamableFileSystemErrors,
};
use crate::receiving::{contents_of, FrameBatch, ReceiveProgress, Receipt};
use crate::streams::StreamReceiver;
use vstd::prelude::*;
use vstd::utf8::{decode_utf8, valid_utf8};

verus! {

/// Bytes begin with the headers of a piece of a file.
pub open spec fn heads_piece(bytes: Seq<u8>) -> bool {
    &&& bytes.len() >= 4
    &&& bytes[0] <= 2
    &&& bytes[1] == 0
    &&& bytes[2] <= 2 || bytes[2] == 4
    &&& bytes[3] <= 1
}

/// Bytes begin with the headers of a location.
pub open spec fn heads_location(bytes: Seq<u8>) -> bool {
    &&& bytes.len() >= 3
    &&& bytes[0] <= 2
    &&& bytes[1] == 1
}

/// Frames are taken from what was left of the stream followed by what has just arrived, in order; what is
/// left behind the last is handed out with them. A frame that has begun and not ended is kept whole, and
/// where no frame begins nothing is kept. Nothing else changes.
pub proof fn law_frames_are_taken<S: StreamReceiver, F>(
    fs: &mut RemoteFileSystem<S, F>,
    bytes: Vec<u8>,
    batch: FrameBatch,
)
    requires
        call_ensures(RemoteFileSystem::<S, F>::take_frames, (fs, bytes), batch),
    ensures
        match old(fs).state.splits(old(fs).remainder@ + bytes@) {
            Ok(parts) => {
                &&& batch.frames@.len() == parts.len()
                &&& forall|i: int|
                    0 <= i < parts.len() ==> (#[trigger] batch.frames@[i])@ == parts[i].0
                &&& parts.len() > 0 ==> batch.rest@ == parts[parts.len() - 1].1
                &&& parts.len() == 0 ==> batch.rest@.len() == 0
                &&& final(fs).remainder@.len() == 0
            },
            Err(status) => {
                &&& batch.frames@.len() == 0
                &&& batch.rest@.len() == 0
                &&& final(fs).remainder@ == if status == FileFrameStatus::FrameNoEnds {
                    old(fs).remainder@ + bytes@
                } else {
                    seq![]
                }
            },
        },
        final(fs).local_state == old(fs).local_state,
        final(fs).file_open == old(fs).file_open,
        otherwise_same(*final(fs), *old(fs)),
{
    let contents = contents_of(batch.frames@);
    assert(contents.len() == batch.frames@.len());
    match old(fs).state.splits(old(fs).remainder@ + bytes@) {
        Ok(parts) => {
            assert forall|i: int| 0 <= i < parts.len() implies (#[trigger] batch.frames@[i])@
                == parts[i].0 by {
                assert(contents[i] == batch.frames@[i]@);
            }
        },
        Err(_) => {},
    }
}

/// What is given back is kept behind what is kept already, and nothing else changes.
pub proof fn law_rest_is_kept<S: StreamReceiver, F>(fs: &mut RemoteFileSystem<S, F>, rest: Vec<u8>)
    requires
        call_ensures(RemoteFileSystem::<S, F>::keep_rest, (fs, rest), ()),
    ensures
        final(fs).remainder@ == old(fs).remainder@ + rest@,
        final(fs).local_state == old(fs).local_state,
        final(fs).file_open == old(fs).file_open,
        otherwise_same(*final(fs), *old(fs)),
{
}

/// A chain takes the frames of what arrived as the filesystem does, keeps its handlers, and fails with
/// nothing changed where waiting for bytes failed.
pub proof fn law_chains_take_frames<H, S: StreamReceiver, F>(
    builder: &mut ChainBuilder<'_, H, S, F>,
    received: Result<Vec<u8>, FileStreamError>,
    batch: Result<FrameBatch, StreamableFileSystemErrors>,
)
    requires
        call_ensures(ChainBuilder::<'_, H, S, F>::run, (builder, received), batch),
    ensures
        match received {
            Ok(bytes) => batch is Ok && match old(builder).fs.state.splits(
                old(builder).fs.remainder@ + bytes@,
            ) {
                Ok(parts) => {
                    &&& batch->Ok_0.frames@.len() == parts.len()
                    &&& forall|i: int|
                        0 <= i < parts.len() ==> (#[trigger] batch->Ok_0.frames@[i])@ == parts[i].0
                    &&& parts.len() > 0 ==> batch->Ok_0.rest@ == parts[parts.len() - 1].1
                    &&& parts.len() == 0 ==> batch->Ok_0.rest@.len() == 0
                    &&& final(builder).fs.remainder@.len() == 0
                },
                Err(status) => {
                    &&& batch->Ok_0.frames@.len() == 0
                    &&& batch->Ok_0.rest@.len() == 0
                    &&& final(builder).fs.remainder@ == if status == FileFrameStatus::FrameNoEnds {
                        old(builder).fs.remainder@ + bytes@
                    } else {
                        seq![]
                    }
                },
            },
            Err(_) => {
                &&& batch == Err::<FrameBatch, StreamableFileSystemErrors>(
                    StreamableFileSystemErrors::Unknown,
                )
                &&& final(builder).fs.remainder@ == old(builder).fs.remainder@
            },
        },
        final(builder).fs.local_state == old(builder).fs.local_state,
        final(builder).fs.file_open == old(builder).fs.file_open,
        otherwise_same(*final(builder).fs, *old(builder).fs),
        final(builder).list == old(builder).list,
{
    if let Ok(bytes) = received {
        let contents = contents_of(batch->Ok_0.frames@);
        assert(contents.len() == batch->Ok_0.frames@.len());
        match old(builder).fs.state.splits(old(builder).fs.remainder@ + bytes@) {
            Ok(parts) => {
                assert forall|i: int| 0 <= i < parts.len() implies (
                #[trigger] batch->Ok_0.frames@[i])@ == parts[i].0 by {
                    assert(contents[i] == batch->Ok_0.frames@[i]@);
                }
            },
            Err(_) => {},
        }
    }
}

/// A chain's handler is handed a frame exactly where the bytes begin with the headers of its kind, and the
/// frame is what stands behind them.
pub proof fn law_chains_hand_on_frames<F, Tail, S, FT>(
    chains: (
        &HCons<FileFrame, F, Tail, S, FT>,
        &HCons<SetFrame, F, Tail, S, FT>,
        &HCons<EofFrame, F, Tail, S, FT>,
    ),
    bytes: Vec<u8>,
    piece: Result<FileFrame, StreamableFileSystemErrors>,
    location: Result<SetFrame, StreamableFileSystemErrors>,
    end: Result<EofFrame, StreamableFileSystemErrors>,
)
    requires
        call_ensures(HCons::<FileFrame, F, Tail, S, FT>::decode_frame, (chains.0, bytes), piece),
        call_ensures(HCons::<SetFrame, F, Tail, S, FT>::decode_frame, (chains.1, bytes), location),
        call_ensures(HCons::<EofFrame, F, Tail, S, FT>::decode_frame, (chains.2, bytes), end),
    ensures
        piece is Ok <==> heads_piece(bytes@),
        piece matches Ok(frame) ==> frame.chunks@ == bytes@.skip(4) && frame.direction is Some
            && frame.direction->0.code() == bytes@[0] && frame.operation == Some(Operation::Move)
            && frame.codec is Some && frame.codec->0.code() == bytes@[2] && frame.chunking_status
            is Some && frame.chunking_status->0.code() == bytes@[3],
        piece matches Err(error) ==> error == StreamableFileSystemErrors::Unknown,
        location is Ok <==> heads_location(bytes@),
        location matches Ok(frame) ==> frame.chunks@ == bytes@.skip(3) && frame.state_id
            == bytes@[2] && frame.direction is Some && frame.direction->0.code() == bytes@[0]
            && frame.operation == Some(Operation::SetLocation),
        location matches Err(error) ==> error == StreamableFileSystemErrors::Unknown,
        end is Ok <==> bytes@.len() >= 2 && bytes@[0] <= 2 && bytes@[1] == 3,
        end matches Ok(frame) ==> frame.direction is Some && frame.direction->0.code() == bytes@[0]
            && frame.operation == Some(Operation::Eof),
        end matches Err(error) ==> error == StreamableFileSystemErrors::Unknown,
{
}

/// What one frame does. A piece is written at the location of the state that is received for, or to the
/// file that is open, and fails where there is no such state. A location becomes that of the state, and
/// fails where there is no such state or the bytes are no text. Other frames do nothing, and no frame does
/// anything after a failure.
pub proof fn law_one_frame_arrives(before: Receipt, state_id: u8, frame: Seq<u8>)
    ensures
        ({
            let after = before.after_frame(state_id, frame);
            let there = before.locations.contains_key(state_id);
            if before.failure is Some || !(heads_piece(frame) || heads_location(frame)) {
                after == before
            } else if heads_piece(frame) && there {
                &&& after.locations == before.locations
                &&& after.file_open
                &&& after.failure is None
                &&& after.actions.len() == before.actions.len() + 1
                &&& after.actions.drop_last() == before.actions
                &&& after.actions.last() matches FileActionView::Write { open, bytes } && open
                    == if before.file_open {
                    None
                } else {
                    Some(before.locations[state_id])
                } && bytes == frame.skip(4)
            } else {
                &&& after.actions == before.actions
                &&& after.file_open == before.file_open
                &&& after.failure == if heads_piece(frame) {
                    Some(FileHandleStatus::NoStateGiven)
                } else if !there {
                    Some(FileHandleStatus::IncorrectStateAsked)
                } else if !valid_utf8(frame.skip(3)) {
                    Some(FileHandleStatus::IncorrectData)
                } else {
                    None
                }
                &&& after.locations == if after.failure is None {
                    before.locations.insert(state_id, decode_utf8(frame.skip(3)))
                } else {
                    before.locations
                }
            }
        }),
{
    let after = before.after_frame(state_id, frame);
    if before.failure is None && heads_piece(frame) && before.locations.contains_key(state_id) {
        assert(after.actions.drop_last() =~= before.actions);
    }
}

/// Frames that arrive are acted upon one after the other.
pub proof fn law_frames_arrive_one_by_one(before: Receipt, state_id: u8, frames: Seq<Seq<u8>>, frame: Seq<u8>)
    ensures
        before.after_frames(state_id, seq![]) == before,
        before.after_frames(state_id, frames.push(frame)) == before.after_frames(
            state_id,
            frames,
        ).after_frame(state_id, frame),
{
    assert(frames.push(frame).drop_last() =~= frames);
}

/// Among the writes that frames ask for at most the first opens a file, and does exactly where none was
/// open; nothing is ever closed. A file is open afterwards exactly where one was before or something is
/// written, and no state comes or goes.
pub proof fn law_only_the_first_write_opens(before: Receipt, state_id: u8, frames: Seq<Seq<u8>>, i: int)
    requires
        before.actions.len() == 0,
    ensures
        ({
            let after = before.after_frames(state_id, frames);
            &&& 0 <= i < after.actions.len() ==> (after.actions[i] matches FileActionView::Write {
                open,
                ..
            } && (open is Some <==> i == 0 && !before.file_open))
            &&& after.file_open <==> before.file_open || after.actions.len() > 0
            &&& forall|id: u8| #[trigger]
                after.locations.contains_key(id) <==> before.locations.contains_key(id)
            &&& forall|id: u8|
                #![trigger after.locations[id]]
                id != state_id ==> after.locations[id] == before.locations[id]
            &&& after.actions.len() > 0 ==> before.locations.contains_key(state_id)
        }),
    decreases frames.len(),
{
    if frames.len() > 0 {
        let most = frames.drop_last();
        law_only_the_first_write_opens(before, state_id, most, i);
        law_only_the_first_write_opens(before, state_id, most, 0);
        let middle = before.after_frames(state_id, most);
        law_one_frame_arrives(middle, state_id, frames.last());
        let after = before.after_frames(state_id, frames);
        if after.actions.len() > middle.actions.len() {
            if 0 <= i < middle.actions.len() {
                assert(after.actions.drop_last()[i] == middle.actions[i]);
            }
        }
    }
}

/// What taking in bytes comes to: the frames that are found are acted upon in order, up to the first that
/// fails, from the states and the open file that there were. The failure ends the operation, and what is
/// left of the stream is dropped then; otherwise the operation goes on, and what is left is kept.
pub proof fn law_bytes_are_received<S: StreamReceiver, F>(
    fs: &mut RemoteFileSystem<S, F>,
    state_id: u8,
    bytes: Vec<u8>,
    progress: ReceiveProgress,
    frames: Seq<Seq<u8>>,
    after: Receipt,
    i: int,
)
    requires
        call_ensures(
            RemoteFileSystem::<S, F>::receive_operation,
            (fs, state_id, Ok(bytes)),
            progress,
        ),
        ({
            let splits = old(fs).state.splits(old(fs).remainder@ + bytes@);
            &&& splits is Err ==> frames.len() == 0
            &&& splits is Ok ==> frames.len() == splits->Ok_0.len() && forall|k: int|
                0 <= k < frames.len() ==> #[trigger] frames[k] == splits->Ok_0[k].0
        }),
        after == (Receipt {
            locations: Map::new(
                |id: u8| old(fs).local_state@.contains_key(id),
                |id: u8| old(fs).local_state@[id].location@,
            ),
            file_open: old(fs).file_open,
            actions: seq![],
            failure: None,
        }).after_frames(state_id, frames),
    ensures
        progress.actions@.len() == after.actions.len(),
        0 <= i < progress.actions@.len() ==> (progress.actions@[i] matches FileAction::Write {
            open,
            bytes: written,
        } && (after.actions[i] matches FileActionView::Write { open: location, bytes: piece }
            && written@ == piece && (open is Some <==> location is Some) && (open is Some
            ==> open->0@ == location->0) && (open is Some <==> i == 0 && !old(fs).file_open))),
        match after.failure {
            None => progress.outcome is None,
            Some(FileHandleStatus::NoStateGiven) => progress.outcome == Some(
                Err::<(), StreamableFileSystemErrors>(StreamableFileSystemErrors::NoStateGiven),
            ),
            Some(FileHandleStatus::IncorrectData) => progress.outcome == Some(
                Err::<(), StreamableFileSystemErrors>(StreamableFileSystemErrors::IncorrectData),
            ),
            Some(FileHandleStatus::IncorrectStateAsked) => progress.outcome == Some(
                Err::<(), StreamableFileSystemErrors>(
                    StreamableFileSystemErrors::IncorrectStateAsked,
                ),
            ),
        },
        final(fs).file_open == after.file_open,
        final(fs).file_open <==> old(fs).file_open || progress.actions@.len() > 0,
        forall|id: u8| #[trigger]
            final(fs).local_state@.contains_key(id) <==> old(fs).local_state@.contains_key(id),
        forall|id: u8| #[trigger]
            final(fs).local_state@.contains_key(id) ==> final(fs).local_state@[id].location@
                == after.locations[id],
        ({
            let stream = old(fs).remainder@ + bytes@;
            final(fs).remainder@ == match (after.failure, old(fs).state.splits(stream)) {
                (Some(_), _) => seq![],
                (None, Ok(parts)) => if parts.len() > 0 {
                    parts[parts.len() - 1].1
                } else {
                    seq![]
                },
                (None, Err(FileFrameStatus::FrameNoEnds)) => stream,
                (None, Err(_)) => seq![],
            }
        }),
        otherwise_same(*final(fs), *old(fs)),
{
    let stream = old(fs).remainder@ + bytes@;
    let splits = old(fs).state.splits(stream);
    let start = Receipt {
        locations: Map::new(
            |id: u8| old(fs).local_state@.contains_key(id),
            |id: u8| old(fs).local_state@[id].location@,
        ),
        file_open: old(fs).file_open,
        actions: seq![],
        failure: None,
    };
    assert(start.locations =~= old(fs).locations());
    assert(start =~= old(fs).starting_receipt());
    assert(frames =~= crate::receiving::chunks_of(crate::framing::found(splits)));
    law_only_the_first_write_opens(start, state_id, frames, i);
    let views = actions_of(progress.actions@);
    assert(views == after.actions);
    assert(views.len() == progress.actions@.len());
    if 0 <= i < views.len() {
        assert(views[i] == progress.actions@[i]@);
    }
    let locations = final(fs).locations();
    assert forall|id: u8| #[trigger] final(fs).local_state@.contains_key(id)
        <==> old(fs).local_state@.contains_key(id) by {
        assert(locations.contains_key(id) <==> start.locations.contains_key(id));
    }
    assert forall|id: u8| #[trigger] final(fs).local_state@.contains_key(id)
        implies final(fs).local_state@[id].location@ == after.locations[id] by {
        assert(locations[id] == final(fs).local_state@[id].location@);
    }
}

/// When waiting for bytes fails, receiving is over and has come to its end: nothing is to be done, and
/// nothing changes.
pub proof fn law_receiving_ends_with_the_stream<S: StreamReceiver, F>(
    fs: &mut RemoteFileSystem<S, F>,
    state_id: u8,
    error: FileStreamError,
    progress: ReceiveProgress,
)
    requires
        call_ensures(
            RemoteFileSystem::<S, F>::receive_operation,
            (fs, state_id, Err(error)),
            progress,
        ),
    ensures
        progress.actions@.len() == 0,
        progress.outcome == Some(Ok::<(), StreamableFileSystemErrors>(())),
        *final(fs) == *old(fs),
{
}

/// What pieces carry behind their headers, one behind the other.
pub open spec fn content_of(frames: Seq<Seq<u8>>) -> Seq<u8>
    decreases frames.len(),
{
    if frames.len() == 0 {
        seq![]
    } else {
        content_of(frames.drop_last()) + frames.last().skip(4)
    }
}

proof fn lemma_pieces_arrive(before: Receipt, state_id: u8, frames: Seq<Seq<u8>>, i: int)
    requires
        before.actions.len() == 0,
        before.failure is None,
        before.locations.contains_key(state_id),
        forall|k: int| 0 <= k < frames.len() ==> heads_piece(#[trigger] frames[k]),
    ensures
        ({
            let after = before.after_frames(state_id, frames);
            &&& after.failure is None
            &&& after.locations == before.locations
            &&& after.actions.len() == frames.len()
            &&& 0 <= i < frames.len() ==> (after.actions[i] matches FileActionView::Write {
                open,
                bytes,
            } && bytes == frames[i].skip(4) && (open is Some ==> open->0
                == before.locations[state_id]))
        }),
    decreases frames.len(),
{
    if frames.len() > 0 {
        let most = frames.drop_last();
        lemma_pieces_arrive(before, state_id, most, i);
        let middle = before.after_frames(state_id, most);
        let after = before.after_frames(state_id, frames);
        assert(heads_piece(frames[frames.len() - 1]));
        law_one_frame_arrives(middle, state_id, frames.last());
        if 0 <= i < most.len() {
            assert(after.actions.drop_last()[i] == middle.actions[i]);
        }
    }
}

proof fn lemma_writes_make_up_the_file(
    actions: Seq<FileAction>,
    frames: Seq<Seq<u8>>,
    location: Seq<char>,
    file_open: bool,
    disk: Disk,
)
    requires
        0 < actions.len() == frames.len(),
        file_open ==> disk.open == Some(location),
        forall|i: int|
            0 <= i < actions.len() ==> ((#[trigger] actions[i]) matches FileAction::Write {
                open,
                bytes,
            } && bytes@ == frames[i].skip(4) && (open is Some <==> i == 0 && !file_open) && (open
                is Some ==> open->0@ == location)),
    ensures
        disk.after_all(actions) == (Disk {
            files: disk.files.insert(
                location,
                if file_open {
                    disk.files[location] + content_of(frames)
                } else {
                    content_of(frames)
                },
            ),
            open: Some(location),
        }),
    decreases actions.len(),
{
    let most = actions.drop_last();
    let last = actions.len() - 1;
    assert(actions[last] is Write);
    if last == 0 {
        assert(most =~= Seq::empty());
        assert(disk.after_all(most) == disk);
        assert(content_of(frames.drop_last()) =~= Seq::empty());
        assert(content_of(frames) =~= frames[0].skip(4));
        assert(disk.after_all(actions) == disk.after(actions[0]));
    } else {
        assert forall|i: int| 0 <= i < most.len() implies ((#[trigger] most[i]) matches
            FileAction::Write { open, bytes } && bytes@ == frames.drop_last()[i].skip(4) && (open is Some
            <==> i == 0 && !file_open) && (open is Some ==> open->0@ == location)) by {
            assert(most[i] == actions[i]);
        }
        lemma_writes_make_up_the_file(most, frames.drop_last(), location, file_open, disk);
        let so_far = disk.after_all(most);
        assert(disk.after_all(actions) == so_far.after(actions[last]));
        assert(disk.files[location] + content_of(frames) =~= disk.files[location] + content_of(
            frames.drop_last(),
        ) + frames.last().skip(4));
        assert(disk.after_all(actions).files =~= disk.files.insert(
            location,
            if file_open {
                disk.files[location] + content_of(frames)
            } else {
                content_of(frames)
            },
        ));
    }
}

/// When bytes arrive whose frames are pieces of a file, and what is asked for is carried out, what the
/// pieces carry is the content of the file at the location of the state where none was open, and stands
/// behind what the open file holds otherwise. No other file changes, and the operation goes on.
pub proof fn law_received_pieces_make_up_the_file<S: StreamReceiver, F>(
    fs: &mut RemoteFileSystem<S, F>,
    state_id: u8,
    bytes: Vec<u8>,
    progress: ReceiveProgress,
    frames: Seq<Seq<u8>>,
    location: Seq<char>,
    disk: Disk,
)
    requires
        call_ensures(
            RemoteFileSystem::<S, F>::receive_operation,
            (fs, state_id, Ok(bytes)),
            progress,
        ),
        ({
            let splits = old(fs).state.splits(old(fs).remainder@ + bytes@);
            &&& splits is Ok
            &&& 0 < frames.len() == splits->Ok_0.len()
            &&& forall|k: int| 0 <= k < frames.len() ==> #[trigger] frames[k] == splits->Ok_0[k].0
        }),
        forall|k: int| 0 <= k < frames.len() ==> heads_piece(#[trigger] frames[k]),
        old(fs).local_state@.contains_key(state_id),
        location == old(fs).local_state@[state_id].location@,
        old(fs).file_open ==> disk.open == Some(location),
    ensures
        disk.after_all(progress.actions@) == (Disk {
            files: disk.files.insert(
                location,
                if old(fs).file_open {
                    disk.files[location] + content_of(frames)
                } else {
                    content_of(frames)
                },
            ),
            open: Some(location),
        }),
        progress.outcome is None,
        final(fs).file_open,
        final(fs).local_state@.contains_key(state_id),
        final(fs).local_state@[state_id].location@ == location,
{
    let start = Receipt {
        locations: Map::new(
            |id: u8| old(fs).local_state@.contains_key(id),
            |id: u8| old(fs).local_state@[id].location@,
        ),
        file_open: old(fs).file_open,
        actions: seq![],
        failure: None,
    };
    let after = start.after_frames(state_id, frames);
    let stream = old(fs).remainder@ + bytes@;
    let splits = old(fs).state.splits(stream);
    assert(start.locations =~= old(fs).locations());
    assert(start =~= old(fs).starting_receipt());
    assert(frames =~= crate::receiving::chunks_of(crate::framing::found(splits)));
    let views = actions_of(progress.actions@);
    assert(views == after.actions);
    assert(views.len() == progress.actions@.len());
    lemma_pieces_arrive(start, state_id, frames, 0);
    assert forall|i: int| 0 <= i < frames.len() implies ((
    #[trigger] progress.actions@[i]) matches FileAction::Write { open, bytes: written } && written@
        == frames[i].skip(4) && (open is Some <==> i == 0 && !old(fs).file_open) && (open is Some
        ==> open->0@ == location)) by {
        lemma_pieces_arrive(start, state_id, frames, i);
        law_only_the_first_write_opens(start, state_id, frames, i);
        assert(views[i] == progress.actions@[i]@);
        assert(start.locations[state_id] == location);
    }
    lemma_writes_make_up_the_file(progress.actions@, frames, location, old(fs).file_open, disk);
    assert(final(fs).locations() == start.locations);
    assert(final(fs).locations().contains_key(state_id));
    assert(final(fs).locations()[state_id] == location);
}

} // verus!

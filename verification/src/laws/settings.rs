//! Settings: what is set is what is there afterwards, and nothing else changes.
use crate::chain::{ChainBuilder, HCons, HNil, Here, InsertOrReplace, There};
use crate::channels::{byte_channel, watch_channel};
use crate::client::{request_of, Request};
use crate::endpoints::{FlumeFile, TcpFsReceiver, TcpFsSender};
use crate::filesystem::{LocalState, RemoteFileSystem};
use crate::frames::{EofFrame, FileFrame, SetFrame};
use crate::framing::{HandleWithDelims, WithDelims};
use crate::protocol::{
    Codec, Direction, FileFrameStatus, FileHandleStatus, FileStreamError, Operation,
    StreamableFileSystemErrors, TransportRecvError,
};
use crate::receiving::FrameCommons;
use crate::streams::{FileSender, StreamReceiver, StreamSender};
use crate::transfer::{Stage, Transfer, TransferEvent};
use vstd::prelude::*;

verus! {

broadcast use vstd::std_specs::hash::group_hash_axioms;

/// Two delimiters are both not set, or the same bytes.
pub open spec fn same_delimiter(one: Option<Vec<u8>>, other: Option<Vec<u8>>) -> bool {
    match (one, other) {
        (Some(bytes), Some(others)) => bytes@ == others@,
        (None, None) => true,
        _ => false,
    }
}

proof fn lemma_same_delimiter(one: Option<Vec<u8>>, other: Option<Vec<u8>>)
    requires
        crate::framing::delimiter_bytes(one) == crate::framing::delimiter_bytes(other),
    ensures
        same_delimiter(one, other),
{
}

/// A new filesystem has the stream that it was made for, and no states, files, open file, rest of a stream,
/// known direction, known codec or operation.
pub proof fn law_new_filesystem_is_bare<S: Default, F>(state: S, fs: RemoteFileSystem<S, F>)
    requires
        call_ensures(RemoteFileSystem::<S, F>::new, (state,), fs),
    ensures
        fs.state == state,
        forall|id: u8| !#[trigger] fs.local_state@.contains_key(id),
        fs.direction == Direction::Unknown,
        fs.codec == Codec::Unknown,
        fs.operation == Operation::NoOperation,
        fs.files@.len() == 0,
        fs.remainder@.len() == 0,
        !fs.file_open,
        watch_channel(fs.unique_operation_event.0, fs.unique_operation_event.1) == Some(
            Operation::NoOperation,
        ),
{
}

/// A default filesystem has a default stream and is otherwise as a new one. A copy has what the copied one
/// has, but that it has no file open; its stream and its files are copies. A default state is nowhere.
pub proof fn law_filesystems_are_copied<S: Default + Clone, F: Clone>(
    bare: RemoteFileSystem<S, F>,
    fs: &RemoteFileSystem<S, F>,
    copy: RemoteFileSystem<S, F>,
    states: (LocalState, &LocalState, LocalState),
)
    requires
        call_ensures(<RemoteFileSystem<S, F> as Default>::default, (), bare),
        call_ensures(<RemoteFileSystem<S, F> as Clone>::clone, (fs,), copy),
        call_ensures(<LocalState as Default>::default, (), states.0),
        call_ensures(<LocalState as Clone>::clone, (states.1,), states.2),
    ensures
        call_ensures(S::default, (), bare.state),
        forall|id: u8| !#[trigger] bare.local_state@.contains_key(id),
        bare.direction == Direction::Unknown,
        bare.codec == Codec::Unknown,
        bare.operation == Operation::NoOperation,
        bare.files@.len() == 0,
        bare.remainder@.len() == 0,
        !bare.file_open,
        watch_channel(bare.unique_operation_event.0, bare.unique_operation_event.1) == Some(
            Operation::NoOperation,
        ),
        watch_channel(copy.unique_operation_event.0, copy.unique_operation_event.1) == Some(
            Operation::NoOperation,
        ),
        cloned(fs.state, copy.state),
        copy.local_state@ == fs.local_state@,
        copy.direction == fs.direction,
        copy.codec == fs.codec,
        copy.operation == fs.operation,
        copy.remainder@ == fs.remainder@,
        !copy.file_open,
        copy.files@.len() == fs.files@.len(),
        forall|i: int|
            0 <= i < fs.files@.len() ==> cloned(#[trigger] fs.files@[i], copy.files@[i]),
        states.0.location@.len() == 0,
        states.2.location@ == states.1.location@,
{
}

/// What watches the operation of a filesystem is its own receiver.
pub proof fn law_operations_are_watched<S: Default, F>(
    fs: &RemoteFileSystem<S, F>,
    events: tokio::sync::watch::Receiver<Operation>,
)
    requires
        call_ensures(RemoteFileSystem::<S, F>::get_operation_event, (fs,), events),
    ensures
        events == fs.unique_operation_event.1,
{
}

/// The stream of a filesystem is lent out as it is; what becomes of it is all that changes.
pub proof fn law_streams_are_lent<S: Default, F>(fs: &mut RemoteFileSystem<S, F>, state: &mut S)
    requires
        call_ensures(RemoteFileSystem::<S, F>::inner_mut, (fs,), state),
    ensures
        *old(state) == old(fs).state,
        *final(fs) == (RemoteFileSystem { state: *final(state), ..*old(fs) }),
{
}

/// Setting the codec, the direction or the operation sets it and nothing else.
pub proof fn law_settings_are_set<S: Default, F>(
    one: &mut RemoteFileSystem<S, F>,
    codec: Codec,
    two: &mut RemoteFileSystem<S, F>,
    direction: Direction,
    three: &mut RemoteFileSystem<S, F>,
    operation: Operation,
    result: Result<(), StreamableFileSystemErrors>,
)
    requires
        call_ensures(RemoteFileSystem::<S, F>::set_codec, (one, codec), ()),
        call_ensures(RemoteFileSystem::<S, F>::set_direction, (two, direction), ()),
        call_ensures(RemoteFileSystem::<S, F>::set_operation, (three, operation), result),
    ensures
        *final(one) == (RemoteFileSystem { codec, ..*old(one) }),
        *final(two) == (RemoteFileSystem { direction, ..*old(two) }),
        *final(three) == (RemoteFileSystem { operation, ..*old(three) }),
        result is Ok,
{
}

/// A state that is made is there, at its location, and one that is removed is not; no other state changes,
/// and nothing else does.
pub proof fn law_states_come_and_go<S: Default, F>(
    one: &mut RemoteFileSystem<S, F>,
    state_id: u8,
    state: LocalState,
    two: &mut RemoteFileSystem<S, F>,
    other_id: u8,
)
    requires
        call_ensures(RemoteFileSystem::<S, F>::create_state, (one, state_id, state), ()),
        call_ensures(RemoteFileSystem::<S, F>::remove_state, (two, state_id), ()),
    ensures
        final(one).local_state@.contains_key(state_id),
        final(one).local_state@[state_id] == state,
        !final(two).local_state@.contains_key(state_id),
        other_id != state_id ==> {
            &&& final(one).local_state@.contains_key(other_id)
                <==> old(one).local_state@.contains_key(other_id)
            &&& final(one).local_state@[other_id] == old(one).local_state@[other_id]
            &&& final(two).local_state@.contains_key(other_id)
                <==> old(two).local_state@.contains_key(other_id)
            &&& old(two).local_state@.contains_key(other_id)
                ==> final(two).local_state@[other_id] == old(two).local_state@[other_id]
        },
        *final(one) == (RemoteFileSystem { local_state: final(one).local_state, ..*old(one) }),
        *final(two) == (RemoteFileSystem { local_state: final(two).local_state, ..*old(two) }),
{
}

/// A file that is added stands behind those that are there, and clearing leaves none; nothing else changes.
pub proof fn law_files_come_and_go<S: Default, F>(
    one: &mut RemoteFileSystem<S, F>,
    file: F,
    two: &mut RemoteFileSystem<S, F>,
)
    requires
        call_ensures(RemoteFileSystem::<S, F>::append_files, (one, file), ()),
        call_ensures(RemoteFileSystem::<S, F>::clear_files, (two,), ()),
    ensures
        final(one).files@.len() == old(one).files@.len() + 1,
        final(one).files@.last() == file,
        forall|i: int|
            0 <= i < old(one).files@.len() ==> final(one).files@[i] == #[trigger] old(one).files@[i],
        final(two).files@.len() == 0,
        *final(one) == (RemoteFileSystem { files: final(one).files, ..*old(one) }),
        *final(two) == (RemoteFileSystem { files: final(two).files, ..*old(two) }),
{
}

/// Input that begins with the word for sending asks for that, input that begins with the word for listing
/// for that, and any other for nothing that is known.
pub proof fn law_requests_are_told_apart(input: &str, request: Request)
    requires
        call_ensures(request_of, (input,), request),
    ensures
        ({
            let sends = input@.len() >= 4 && input@[0] == 's' && input@[1] == 'e' && input@[2]
                == 'n' && input@[3] == 'd';
            let lists = input@.len() >= 2 && input@[0] == 'l' && input@[1] == 's';
            request == if sends {
                Request::SendFile
            } else if lists {
                Request::List
            } else {
                Request::Unknown
            }
        }),
{
    reveal_strlit("send");
    reveal_strlit("ls");
    let sends = input@.len() >= 4 && input@[0] == 's' && input@[1] == 'e' && input@[2] == 'n'
        && input@[3] == 'd';
    if sends {
        assert("send"@ =~= input@.subrange(0, 4));
    } else if "send"@.is_prefix_of(input@) {
        let head = input@.subrange(0, 4);
        assert(head == "send"@);
        assert(head[0] == 's' && head[1] == 'e' && head[2] == 'n' && head[3] == 'd');
    }
    let lists = input@.len() >= 2 && input@[0] == 'l' && input@[1] == 's';
    if lists {
        assert("ls"@ =~= input@.subrange(0, 2));
    } else if "ls"@.is_prefix_of(input@) {
        let head = input@.subrange(0, 2);
        assert(head == "ls"@);
        assert(head[0] == 'l' && head[1] == 's');
    }
}

/// Made ready to send a file, a filesystem has that file alone to move, for a state at the given location;
/// made ready to list, it has that operation and such a state. Nothing else changes.
pub proof fn law_requests_are_prepared<S: Default, F>(
    one: &mut RemoteFileSystem<S, F>,
    two: &mut RemoteFileSystem<S, F>,
    state_id: u8,
    location: String,
    file: F,
    other_id: u8,
)
    requires
        call_ensures(RemoteFileSystem::<S, F>::prepare_send, (one, state_id, location, file), ()),
        call_ensures(RemoteFileSystem::<S, F>::prepare_list, (two, state_id, location), ()),
    ensures
        final(one).operation == Operation::Move,
        final(one).files@.len() == 1,
        final(one).files@[0] == file,
        final(two).operation == Operation::Ls,
        final(one).local_state@.contains_key(state_id),
        final(one).local_state@[state_id].location@ == location@,
        final(two).local_state@.contains_key(state_id),
        final(two).local_state@[state_id].location@ == location@,
        other_id != state_id ==> {
            &&& final(one).local_state@.contains_key(other_id)
                <==> old(one).local_state@.contains_key(other_id)
            &&& final(one).local_state@[other_id] == old(one).local_state@[other_id]
            &&& final(two).local_state@.contains_key(other_id)
                <==> old(two).local_state@.contains_key(other_id)
            &&& final(two).local_state@[other_id] == old(two).local_state@[other_id]
        },
        *final(one) == (RemoteFileSystem {
            local_state: final(one).local_state,
            operation: final(one).operation,
            files: final(one).files,
            ..*old(one)
        }),
        *final(two) == (RemoteFileSystem {
            local_state: final(two).local_state,
            operation: final(two).operation,
            ..*old(two)
        }),
{
}

/// A delimiter or an escape byte that is set on a receiver is there afterwards; the others, and the ends of
/// its channel, stay.
pub proof fn law_receivers_are_set(
    one: &mut TcpFsReceiver,
    two: &mut TcpFsReceiver,
    three: &mut TcpFsReceiver,
    delimiter: Vec<u8>,
    escape: u8,
)
    requires
        call_ensures(TcpFsReceiver::set_start_delimiter, (one, delimiter), ()),
        call_ensures(TcpFsReceiver::set_end_delimiter, (two, delimiter), ()),
        call_ensures(TcpFsReceiver::set_escape_byte, (three, escape), ()),
    ensures
        same_delimiter(final(one).start_delimiter, Some(delimiter)),
        same_delimiter(final(one).end_delimiter, old(one).end_delimiter),
        final(one).escape_byte == old(one).escape_byte,
        final(one).tx == old(one).tx && final(one).rx == old(one).rx,
        same_delimiter(final(two).start_delimiter, old(two).start_delimiter),
        same_delimiter(final(two).end_delimiter, Some(delimiter)),
        final(two).escape_byte == old(two).escape_byte,
        final(two).tx == old(two).tx && final(two).rx == old(two).rx,
        same_delimiter(final(three).start_delimiter, old(three).start_delimiter),
        same_delimiter(final(three).end_delimiter, old(three).end_delimiter),
        final(three).escape_byte == Some(escape),
        final(three).tx == old(three).tx && final(three).rx == old(three).rx,
{
    let a = final(one).framing();
    let b = final(two).framing();
    let c = final(three).framing();
    assert(a.start == Some(delimiter@) && a.end == old(one).framing().end);
    assert(b.end == Some(delimiter@) && b.start == old(two).framing().start);
    assert(c.start == old(three).framing().start && c.end == old(three).framing().end);
    lemma_same_delimiter(final(one).start_delimiter, Some(delimiter));
    lemma_same_delimiter(final(one).end_delimiter, old(one).end_delimiter);
    lemma_same_delimiter(final(two).start_delimiter, old(two).start_delimiter);
    lemma_same_delimiter(final(two).end_delimiter, Some(delimiter));
    lemma_same_delimiter(final(three).start_delimiter, old(three).start_delimiter);
    lemma_same_delimiter(final(three).end_delimiter, old(three).end_delimiter);
}

/// A delimiter or an escape byte that is set on a sender is there afterwards; the others, the bytes that it
/// keeps and the ends of its channel stay. Bytes that are fed to it stand behind those that it keeps.
pub proof fn law_senders_are_set(
    one: &mut TcpFsSender,
    two: &mut TcpFsSender,
    three: &mut TcpFsSender,
    four: &mut TcpFsSender,
    bytes: Vec<u8>,
    escape: u8,
)
    requires
        call_ensures(TcpFsSender::set_start_delimiter, (one, bytes), ()),
        call_ensures(TcpFsSender::set_end_delimiter, (two, bytes), ()),
        call_ensures(TcpFsSender::set_escape_byte, (three, escape), ()),
        call_ensures(TcpFsSender::feed_bytes, (four, bytes), ()),
    ensures
        same_delimiter(final(one).start_delimiter, Some(bytes)),
        same_delimiter(final(one).end_delimiter, old(one).end_delimiter),
        final(one).escape_byte == old(one).escape_byte,
        final(one).byte_array@ == old(one).byte_array@,
        same_delimiter(final(two).start_delimiter, old(two).start_delimiter),
        same_delimiter(final(two).end_delimiter, Some(bytes)),
        final(two).escape_byte == old(two).escape_byte,
        final(two).byte_array@ == old(two).byte_array@,
        same_delimiter(final(three).start_delimiter, old(three).start_delimiter),
        same_delimiter(final(three).end_delimiter, old(three).end_delimiter),
        final(three).escape_byte == Some(escape),
        final(three).byte_array@ == old(three).byte_array@,
        same_delimiter(final(four).start_delimiter, old(four).start_delimiter),
        same_delimiter(final(four).end_delimiter, old(four).end_delimiter),
        final(four).escape_byte == old(four).escape_byte,
        final(four).byte_array@ == old(four).byte_array@ + bytes@,
        final(one).tx == old(one).tx && final(one).rx == old(one).rx,
        final(two).tx == old(two).tx && final(two).rx == old(two).rx,
        final(three).tx == old(three).tx && final(three).rx == old(three).rx,
        final(four).tx == old(four).tx && final(four).rx == old(four).rx,
{
    let a = final(one).framing();
    let b = final(two).framing();
    let c = final(three).framing();
    let d = final(four).framing();
    assert(a.start == Some(bytes@) && a.end == old(one).framing().end);
    assert(b.end == Some(bytes@) && b.start == old(two).framing().start);
    assert(c.start == old(three).framing().start && c.end == old(three).framing().end);
    assert(d.start == old(four).framing().start && d.end == old(four).framing().end);
    lemma_same_delimiter(final(one).start_delimiter, Some(bytes));
    lemma_same_delimiter(final(one).end_delimiter, old(one).end_delimiter);
    lemma_same_delimiter(final(two).start_delimiter, old(two).start_delimiter);
    lemma_same_delimiter(final(two).end_delimiter, Some(bytes));
    lemma_same_delimiter(final(three).start_delimiter, old(three).start_delimiter);
    lemma_same_delimiter(final(three).end_delimiter, old(three).end_delimiter);
    lemma_same_delimiter(final(four).start_delimiter, old(four).start_delimiter);
    lemma_same_delimiter(final(four).end_delimiter, old(four).end_delimiter);
}

/// New ends of a connection have the channel that they are given, no delimiters and no escape byte, and
/// keep no bytes; a copy has what the copied one has.
pub proof fn law_ends_are_made(
    tx: flume::Sender<Vec<u8>>,
    rx: flume::Receiver<Vec<u8>>,
    receiver: TcpFsReceiver,
    sender: TcpFsSender,
    others: (&TcpFsReceiver, &TcpFsSender),
    copies: (TcpFsReceiver, TcpFsSender),
)
    requires
        call_ensures(TcpFsReceiver::new, (tx, rx), receiver),
        call_ensures(TcpFsSender::new, (rx, tx), sender),
        call_ensures(<TcpFsReceiver as Clone>::clone, (others.0,), copies.0),
        call_ensures(<TcpFsSender as Clone>::clone, (others.1,), copies.1),
    ensures
        receiver.tx == tx && receiver.rx == rx,
        receiver.start_delimiter is None && receiver.end_delimiter is None && receiver.escape_byte
            is None,
        sender.tx == tx && sender.rx == rx,
        sender.start_delimiter is None && sender.end_delimiter is None && sender.escape_byte is None,
        sender.byte_array@.len() == 0,
        same_delimiter(copies.0.start_delimiter, others.0.start_delimiter),
        same_delimiter(copies.0.end_delimiter, others.0.end_delimiter),
        copies.0.escape_byte == others.0.escape_byte,
        copies.0.tx == others.0.tx && copies.0.rx == others.0.rx,
        same_delimiter(copies.1.start_delimiter, others.1.start_delimiter),
        same_delimiter(copies.1.end_delimiter, others.1.end_delimiter),
        copies.1.escape_byte == others.1.escape_byte,
        copies.1.tx == others.1.tx && copies.1.rx == others.1.rx,
        copies.1.byte_array@ == others.1.byte_array@,
{
    let a = receiver.framing();
    let b = sender.framing();
    assert(a.start is None && a.end is None && a.escape is None);
    assert(b.start is None && b.end is None && b.escape is None);
    let c = copies.0.framing();
    let d = copies.1.framing();
    assert(c == others.0.framing() && d == others.1.framing());
    assert(c.start == others.0.framing().start && c.end == others.0.framing().end);
    assert(d.start == others.1.framing().start && d.end == others.1.framing().end);
    assert(c.escape == others.0.escape_byte && d.escape == others.1.escape_byte);
    lemma_same_delimiter(copies.0.start_delimiter, others.0.start_delimiter);
    lemma_same_delimiter(copies.0.end_delimiter, others.0.end_delimiter);
    lemma_same_delimiter(copies.1.start_delimiter, others.1.start_delimiter);
    lemma_same_delimiter(copies.1.end_delimiter, others.1.end_delimiter);
}

/// Default ends of a connection have a channel of their own, one for thirty-two messages to arrive and one
/// without a limit to send, and no delimiters.
pub proof fn law_default_ends(receiver: TcpFsReceiver, sender: TcpFsSender)
    requires
        call_ensures(<TcpFsReceiver as Default>::default, (), receiver),
        call_ensures(<TcpFsSender as Default>::default, (), sender),
    ensures
        byte_channel(receiver.tx, receiver.rx) == Some(Some(32usize)),
        byte_channel(sender.tx, sender.rx) == Some(None::<usize>),
        receiver.start_delimiter is None && receiver.end_delimiter is None && receiver.escape_byte
            is None,
        sender.start_delimiter is None && sender.end_delimiter is None && sender.escape_byte is None,
        sender.byte_array@.len() == 0,
{
    let a = receiver.framing();
    let b = sender.framing();
    assert(a.start is None && a.end is None && a.escape is None);
    assert(b.start is None && b.end is None && b.escape is None);
}

/// A sender puts frames of each kind into the bytes that they come to with its own delimiters and escape
/// byte.
pub proof fn law_senders_use_their_settings(
    sender: &TcpFsSender,
    frames: (FileFrame, SetFrame, EofFrame),
    encoded: (
        Result<Vec<u8>, FileFrameStatus>,
        Result<Vec<u8>, FileFrameStatus>,
        Result<Vec<u8>, FileFrameStatus>,
    ),
    bytes: (
        Result<Vec<u8>, FileFrameStatus>,
        Result<Vec<u8>, FileFrameStatus>,
        Result<Vec<u8>, FileFrameStatus>,
    ),
)
    requires
        call_ensures(
            <TcpFsSender as StreamSender>::encode_frame::<FileFrame, WithDelims>,
            (sender, frames.0),
            encoded.0,
        ),
        call_ensures(
            <TcpFsSender as StreamSender>::encode_frame::<SetFrame, WithDelims>,
            (sender, frames.1),
            encoded.1,
        ),
        call_ensures(
            <TcpFsSender as StreamSender>::encode_frame::<EofFrame, WithDelims>,
            (sender, frames.2),
            encoded.2,
        ),
        call_ensures(
            <FileFrame as HandleWithDelims>::to_bytes,
            (&frames.0, sender.escape_byte, sender.start_delimiter, sender.end_delimiter),
            bytes.0,
        ),
        call_ensures(
            <SetFrame as HandleWithDelims>::to_bytes,
            (&frames.1, sender.escape_byte, sender.start_delimiter, sender.end_delimiter),
            bytes.1,
        ),
        call_ensures(
            <EofFrame as HandleWithDelims>::to_bytes,
            (&frames.2, sender.escape_byte, sender.start_delimiter, sender.end_delimiter),
            bytes.2,
        ),
    ensures
        encoded.0 is Ok <==> bytes.0 is Ok,
        encoded.0 is Ok ==> encoded.0->Ok_0@ == bytes.0->Ok_0@,
        encoded.0 is Err ==> encoded.0->Err_0 == bytes.0->Err_0,
        encoded.1 is Ok <==> bytes.1 is Ok,
        encoded.1 is Ok ==> encoded.1->Ok_0@ == bytes.1->Ok_0@,
        encoded.1 is Err ==> encoded.1->Err_0 == bytes.1->Err_0,
        encoded.2 is Ok <==> bytes.2 is Ok,
        encoded.2 is Ok ==> encoded.2->Ok_0@ == bytes.2->Ok_0@,
        encoded.2 is Err ==> encoded.2->Err_0 == bytes.2->Err_0,
{
}

/// Frames can be built exactly where no delimiter is empty, or content is not escaped.
pub proof fn law_senders_build(sender: &TcpFsSender, can: bool)
    requires
        call_ensures(TcpFsSender::can_build, (sender,), can),
    ensures
        can == match (sender.start_delimiter, sender.end_delimiter, sender.escape_byte) {
            (Some(start), Some(end), Some(_)) => start@.len() > 0 && end@.len() > 0,
            _ => true,
        },
{
}

/// What was read can be sent exactly where nothing was, reading failed, or frames can be built.
pub proof fn law_chunks_can_be_sent<F: FileSender>(
    fs: &RemoteFileSystem<TcpFsSender, F>,
    received: &Result<Vec<u8>, TransportRecvError>,
    can: bool,
    builds: bool,
)
    requires
        call_ensures(
            RemoteFileSystem::<TcpFsSender, F>::can_send_chunk,
            (fs, received),
            can,
        ),
        call_ensures(TcpFsSender::can_build, (&fs.state,), builds),
    ensures
        can == match received {
            Ok(bytes) => bytes@.len() == 0 || builds,
            Err(_) => true,
        },
{
    if let Ok(bytes) = received {
        let all = crate::transfer::pieces(bytes@);
        if bytes@.len() > 0 {
            assert(all.len() > 0);
            assert forall|i: int| 0 <= i < all.len() implies fs.state.can_encode_frame(
                crate::transfer::file_layout(
                    crate::transfer::piece_frame(fs.direction, fs.codec, #[trigger] all[i]),
                ),
            ) == builds by {
                assert(crate::transfer::piece_frame(fs.direction, fs.codec, all[i]).complete());
            }
            assert(0 <= 0 < all.len());
            assert(fs.state.can_encode_frame(
                crate::transfer::file_layout(
                    crate::transfer::piece_frame(fs.direction, fs.codec, all[0]),
                ),
            ) == builds);
        } else {
            assert(all.len() == 0);
        }
    }
}

/// An operation can be gone on with where the event answers what was asked for, a file is held exactly while
/// one is sent, the state of a file that is sent is there, files are not to be sent in parts, and frames can
/// be built where one is to be sent.
pub proof fn law_operations_can_go_on<F: FileSender>(
    fs: &RemoteFileSystem<TcpFsSender, F>,
    transfer: &Transfer<F>,
    event: &TransferEvent,
    can: bool,
    builds: bool,
)
    requires
        call_ensures(
            RemoteFileSystem::<TcpFsSender, F>::can_go_on,
            (fs, transfer, event),
            can,
        ),
        call_ensures(TcpFsSender::can_build, (&fs.state,), builds),
    ensures
        ({
            let there = fs.local_state@.contains_key(transfer.state_id);
            let held = transfer.current is Some;
            can == match (transfer.stage, event) {
                (Stage::Announced, TransferEvent::Done) => !held && (builds || !(fs.operation
                    == Operation::Eof || (fs.operation == Operation::SetLocation && there))),
                (Stage::OnlyFrameSent, TransferEvent::Done) => !held,
                (Stage::LocationAnnounced, TransferEvent::Done) => held && there && builds,
                (Stage::LocationSent, TransferEvent::Done) => held && there && fs.codec
                    != Codec::Multipart,
                (Stage::Reading, TransferEvent::Chunk(Ok(bytes))) => held && there && (
                bytes@.len() == 0 || builds),
                (Stage::Reading, TransferEvent::Chunk(Err(_))) => held && there,
                (Stage::PiecesSent, TransferEvent::Done) => held && there,
                (Stage::EndAnnounced, TransferEvent::Done) => !held && builds,
                (Stage::EndSent, TransferEvent::Done) => !held,
                _ => false,
            }
        }),
{
    let there = fs.local_state@.contains_key(transfer.state_id);
    assert(fs.locations().contains_key(transfer.state_id) <==> there);
    if let TransferEvent::Chunk(received) = event {
        if let Ok(bytes) = received {
            let all = crate::transfer::pieces(bytes@);
            if bytes@.len() > 0 {
                assert(all.len() > 0);
                assert forall|i: int| 0 <= i < all.len() implies fs.state.can_encode_frame(
                    crate::transfer::file_layout(
                        crate::transfer::piece_frame(fs.direction, fs.codec, #[trigger] all[i]),
                    ),
                ) == builds by {
                    assert(crate::transfer::piece_frame(fs.direction, fs.codec, all[i]).complete());
                }
                assert(fs.state.can_encode_frame(
                    crate::transfer::file_layout(
                        crate::transfer::piece_frame(fs.direction, fs.codec, all[0]),
                    ),
                ) == builds);
            } else {
                assert(all.len() == 0);
            }
        }
    }
}

/// The location of a file that is fed through a channel is the one that it is to have in the end.
pub proof fn law_fed_files_have_their_final_location(file: &FlumeFile, location: String)
    requires
        call_ensures(FlumeFile::get_location, (file,), location),
    ensures
        location@ == file.final_location@,
        FileSender::location(file) == file.final_location@,
{
}

/// The channel of a file is taken out while its content is waited for. It is back when content has come,
/// and gone when none will come any more.
pub proof fn law_channel_is_taken_and_put_back(
    taking: &mut FlumeFile,
    taken: Result<flume::Receiver<Vec<u8>>, TransportRecvError>,
    putting: &mut FlumeFile,
    stream: flume::Receiver<Vec<u8>>,
    received: Result<Vec<u8>, flume::RecvError>,
    chunk: Result<Vec<u8>, TransportRecvError>,
)
    requires
        call_ensures(FlumeFile::begin_chunk, (taking,), taken),
        call_ensures(FlumeFile::end_chunk, (putting, stream, received), chunk),
    ensures
        taken == match old(taking).content_stream {
            Some(channel) => Ok::<flume::Receiver<Vec<u8>>, TransportRecvError>(channel),
            None => Err(TransportRecvError::NoStream),
        },
        final(taking).content_stream is None,
        final(taking).final_location == old(taking).final_location,
        final(taking).original_location == old(taking).original_location,
        final(putting).content_stream == if received is Ok {
            Some(stream)
        } else {
            old(putting).content_stream
        },
        chunk == match received {
            Ok(bytes) => Ok::<Vec<u8>, TransportRecvError>(bytes),
            Err(_) => Err(TransportRecvError::Disconnected),
        },
        final(putting).final_location == old(putting).final_location,
        final(putting).original_location == old(putting).original_location,
{
}

/// A copy of a file that is fed through a channel has the same locations and the same channel.
pub proof fn law_fed_files_are_copied(file: &FlumeFile, copy: FlumeFile)
    requires
        call_ensures(<FlumeFile as Clone>::clone, (file,), copy),
    ensures
        copy.final_location@ == file.final_location@,
        copy.original_location is Some <==> file.original_location is Some,
        copy.original_location is Some ==> copy.original_location->0@
            == file.original_location->0@,
        copy.content_stream == file.content_stream,
{
    assert(crate::endpoints::text_of(copy.original_location) == crate::endpoints::text_of(
        file.original_location,
    ));
}

/// What a receiver has waited for is what came through its channel, or that the channel is disconnected.
pub proof fn law_receivers_tell_what_came(
    received: Result<Vec<u8>, flume::RecvError>,
    chunk: Result<Vec<u8>, FileStreamError>,
)
    requires
        call_ensures(TcpFsReceiver::chunk_received, (received,), chunk),
    ensures
        chunk == match received {
            Ok(bytes) => Ok::<Vec<u8>, FileStreamError>(bytes),
            Err(_) => Err(FileStreamError::Disconnect),
        },
{
}

/// A handler goes to the head of an empty chain, or in place of the one at the head; further behind, it
/// goes to its place in the chain behind the head, whose handler stays.
pub proof fn law_handlers_take_their_place<T, U, F, G, Tail: Clone, S, FT>(
    empty: &HNil<S, FT>,
    chain: &HCons<T, G, Tail, S, FT>,
    longer: &HCons<U, G, HNil<S, FT>, S, FT>,
    f: F,
    one: HCons<T, F, HNil<S, FT>, S, FT>,
    two: HCons<T, F, Tail, S, FT>,
    three: HCons<U, G, HCons<T, F, HNil<S, FT>, S, FT>, S, FT>,
) where G: Clone
    requires
        call_ensures(
            <HNil<S, FT> as InsertOrReplace<T, F, Here, S, FT>>::insert_or_replace,
            (empty, f),
            one,
        ),
        call_ensures(
            <HCons<T, G, Tail, S, FT> as InsertOrReplace<T, F, Here, S, FT>>::insert_or_replace,
            (chain, f),
            two,
        ),
        call_ensures(
            <HCons<U, G, HNil<S, FT>, S, FT> as InsertOrReplace<
                T,
                F,
                There<Here>,
                S,
                FT,
            >>::insert_or_replace,
            (longer, f),
            three,
        ),
    ensures
        one.f == f,
        two.f == f,
        cloned(chain.tail, two.tail),
        cloned(longer.f, three.f),
        three.tail.f == f,
{
}

/// A handler that has its place further behind goes there in the chain behind the head, however long that
/// is, and the handler at the head stays.
pub proof fn law_handlers_go_further_behind<T, U, F, G: Clone, Tail, Idx, S, FT>(
    chain: &HCons<U, G, Tail, S, FT>,
    f: F,
    longer: HCons<U, G, Tail::Output, S, FT>,
) where Tail: InsertOrReplace<T, F, Idx, S, FT>
    requires
        call_ensures(
            <HCons<U, G, Tail, S, FT> as InsertOrReplace<
                T,
                F,
                There<Idx>,
                S,
                FT,
            >>::insert_or_replace,
            (chain, f),
            longer,
        ),
    ensures
        cloned(chain.f, longer.f),
        chain.tail.holds_with(f, longer.tail),
{
}

/// A chain is begun for a filesystem as it is, and adding a handler to it puts the handler into its place;
/// neither touches the filesystem or the handlers that are there.
pub proof fn law_chains_are_built<T: FrameCommons, F, G, Tail: Clone, S: StreamReceiver, FT>(
    fs: &mut RemoteFileSystem<S, FT>,
    begun: ChainBuilder<'_, HNil<S, FT>, S, FT>,
    empty: &mut ChainBuilder<'_, HNil<S, FT>, S, FT>,
    chain: &mut ChainBuilder<'_, HCons<T, G, Tail, S, FT>, S, FT>,
    f: F,
    one: ChainBuilder<'_, HCons<T, F, HNil<S, FT>, S, FT>, S, FT>,
    two: ChainBuilder<'_, HCons<T, F, Tail, S, FT>, S, FT>,
)
    requires
        call_ensures(ChainBuilder::<'_, HNil<S, FT>, S, FT>::new, (fs,), begun),
        call_ensures(
            ChainBuilder::<'_, HNil<S, FT>, S, FT>::chain::<T, F, Here>,
            (empty, f),
            one,
        ),
        call_ensures(
            ChainBuilder::<'_, HCons<T, G, Tail, S, FT>, S, FT>::chain::<T, F, Here>,
            (chain, f),
            two,
        ),
    ensures
        *old(begun.fs) == *old(fs),
        one.list.f == f,
        *old(one.fs) == *old(empty).fs,
        final(empty).list == old(empty).list,
        two.list.f == f,
        cloned(old(chain).list.tail, two.list.tail),
        *old(two.fs) == *old(chain).fs,
        final(chain).list == old(chain).list,
{
}

/// Bytes that are no frame of its kind, or that its handler failed on, end a chain.
pub proof fn law_chains_end_with_a_failure<T: FrameCommons, F, Tail, S, FT>(
    chain: &HCons<T, F, Tail, S, FT>,
    bytes: Vec<u8>,
    output: Result<T::Output, StreamableFileSystemErrors>,
    result: Result<(), FileHandleStatus>,
    outcome: Result<(), StreamableFileSystemErrors>,
)
    requires
        call_ensures(HCons::<T, F, Tail, S, FT>::decode_frame, (chain, bytes), output),
        call_ensures(HCons::<T, F, Tail, S, FT>::after_handler, (result,), outcome),
    ensures
        match output {
            Ok(frame) => T::decodes(bytes@, Ok::<T::Output, FileFrameStatus>(frame)),
            Err(error) => error == StreamableFileSystemErrors::Unknown && exists|
                status: FileFrameStatus,
            | T::decodes(bytes@, Err::<T::Output, FileFrameStatus>(status)),
        },
        outcome is Ok <==> result is Ok,
        result == Err::<(), FileHandleStatus>(FileHandleStatus::NoStateGiven) <==> outcome
            == Err::<(), StreamableFileSystemErrors>(StreamableFileSystemErrors::NoStateGiven),
        result == Err::<(), FileHandleStatus>(FileHandleStatus::IncorrectData) <==> outcome
            == Err::<(), StreamableFileSystemErrors>(StreamableFileSystemErrors::IncorrectData),
        result == Err::<(), FileHandleStatus>(FileHandleStatus::IncorrectStateAsked) <==> outcome
            == Err::<(), StreamableFileSystemErrors>(
            StreamableFileSystemErrors::IncorrectStateAsked,
        ),
{
}

} // verus!

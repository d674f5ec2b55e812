//! What is sent in the course of a whole operation.
use crate::filesystem::RemoteFileSystem;
use crate::protocol::{Codec, Operation, StreamableFileSystemErrors, TransportRecvError};
use crate::streams::{FileSender, StreamSender};
use crate::transfer::{
    pieces, Progress, Stage, Transfer, TransferActionView, TransferEventView, PIECE_SIZE,
};
use vstd::prelude::*;

verus! {

/// Bytes are sent in pieces that make them up again, none of which is empty or longer than a piece
/// can be.
pub proof fn law_pieces_make_up_the_bytes(bytes: Seq<u8>)
    ensures
        pieces(bytes).flatten() == bytes,
        forall|i: int|
            0 <= i < pieces(bytes).len() ==> 0 < (#[trigger] pieces(bytes)[i]).len() <= PIECE_SIZE,
    decreases bytes.len(),
{
    let all = pieces(bytes);
    if bytes.len() == 0 {
        assert(all =~= Seq::empty());
        assert(all.flatten() =~= bytes);
    } else if bytes.len() <= PIECE_SIZE {
        assert(all =~= seq![bytes]) by {
            assert(bytes.subrange(0, bytes.len() as int) =~= bytes);
        }
        seq![bytes].lemma_flatten_one_element();
    } else {
        let first = bytes.take(PIECE_SIZE as int);
        let rest = bytes.skip(PIECE_SIZE as int);
        law_pieces_make_up_the_bytes(rest);
        let others = pieces(rest);
        assert(all.len() == others.len() + 1);
        assert forall|i: int| 0 <= i < others.len() implies all.drop_first()[i] == others[i] by {
            assert(all[i + 1] =~= others[i]);
        }
        assert(all.drop_first() =~= others);
        assert(all[0] =~= first);
        assert(all.flatten() =~= first + rest);
        assert(first + rest =~= bytes);
    }
}

/// The frames that are to be sent by this action.
pub open spec fn frames_of(action: TransferActionView) -> Seq<Seq<u8>> {
    match action {
        TransferActionView::Send(frames) => frames,
        _ => Seq::empty(),
    }
}

/// The frames that are to be sent by these actions.
pub open spec fn frames_in(actions: Seq<TransferActionView>) -> Seq<Seq<u8>>
    decreases actions.len(),
{
    if actions.len() == 0 {
        Seq::empty()
    } else {
        frames_of(actions[0]) + frames_in(actions.drop_first())
    }
}

/// How a file is read: in these chunks, until there is this reason for no more.
#[verifier::ext_equal]
pub struct Reading {
    pub chunks: Seq<Seq<u8>>,
    pub end: TransportRecvError,
}

impl Reading {
    /// All that there was of the file has been read.
    pub open spec fn whole(self) -> bool {
        self.end == TransportRecvError::Disconnected
    }

    /// The chunks of the file that are sent with this codec: without one that is known to be raw, the
    /// file is not read at all.
    pub open spec fn carried(self, codec: Codec) -> Seq<Seq<u8>> {
        if codec.raw() {
            self.chunks
        } else {
            Seq::empty()
        }
    }

    /// The end of the file is sent.
    pub open spec fn end_told(self, codec: Codec) -> bool {
        codec.raw() && self.whole()
    }
}

/// What happens while a file is read in these chunks, until there is no more of it; and, where all of it
/// has been read, until its end has been sent.
pub open spec fn reading_events(chunks: Seq<Seq<u8>>, end: TransportRecvError) -> Seq<
    TransferEventView,
>
    decreases chunks.len(),
{
    if chunks.len() > 0 {
        seq![TransferEventView::Chunk(Ok(chunks[0])), TransferEventView::Done] + reading_events(
            chunks.drop_first(),
            end,
        )
    } else if end == TransportRecvError::Disconnected {
        seq![
            TransferEventView::Chunk(Err(end)),
            TransferEventView::Done,
            TransferEventView::Done,
        ]
    } else {
        seq![TransferEventView::Chunk(Err(end))]
    }
}

impl<S: StreamSender + Default, F: FileSender> RemoteFileSystem<S, F> {
    /// Files can be sent with the codec that is set.
    pub open spec fn sends_raw(&self) -> bool {
        self.codec.raw()
    }

    /// What happens while a file is sent, which is read in this way: first its location is announced and
    /// sent.
    pub open spec fn one_file_events(&self, reading: Reading) -> Seq<TransferEventView> {
        let told = seq![TransferEventView::Done, TransferEventView::Done];
        if self.sends_raw() {
            told + reading_events(reading.chunks, reading.end)
        } else {
            told
        }
    }

    /// What happens while these files are sent.
    pub open spec fn file_events(&self, readings: Seq<Reading>) -> Seq<TransferEventView>
        decreases readings.len(),
    {
        if readings.len() == 0 {
            Seq::empty()
        } else {
            self.one_file_events(readings[0]) + self.file_events(readings.drop_first())
        }
    }

    /// Where an operation stands after these events, and what was asked for after each of them.
    pub open spec fn progress_through(
        &self,
        now: Progress<F>,
        state_id: u8,
        events: Seq<TransferEventView>,
    ) -> (Progress<F>, Seq<TransferActionView>)
        decreases events.len(),
    {
        if events.len() == 0 {
            (now, Seq::empty())
        } else {
            let (next, action) = self.progress_after(now, state_id, events[0]);
            let (last, actions) = self.progress_through(next, state_id, events.drop_first());
            (last, seq![action] + actions)
        }
    }

    /// What is sent of the content of a file that is read in these chunks.
    pub open spec fn chunks_sent(&self, chunks: Seq<Seq<u8>>) -> Seq<Seq<u8>>
        decreases chunks.len(),
    {
        if chunks.len() == 0 {
            Seq::empty()
        } else {
            self.pieces_sent(pieces(chunks[0])) + self.chunks_sent(chunks.drop_first())
        }
    }

    /// What is sent of a file: where it is to be written, its content, and, where all of it has been
    /// read, its end.
    pub open spec fn file_sent(
        &self,
        state_id: u8,
        location: Seq<char>,
        reading: Reading,
    ) -> Seq<Seq<u8>> {
        self.location_sent(state_id, location) + self.chunks_sent(reading.carried(self.codec))
            + if reading.end_told(self.codec) {
            self.end_sent()
        } else {
            Seq::empty()
        }
    }

    /// What is sent of these files.
    pub open spec fn files_sent(
        &self,
        state_id: u8,
        files: Seq<F>,
        readings: Seq<Reading>,
    ) -> Seq<Seq<u8>>
        decreases files.len(),
    {
        if files.len() == 0 {
            Seq::empty()
        } else {
            self.file_sent(state_id, files[0].location(), readings[0]) + self.files_sent(
                state_id,
                files.drop_first(),
                readings.drop_first(),
            )
        }
    }
}

/// The frames of two runs of actions are those of both together.
proof fn lemma_frames_in_both(first: Seq<TransferActionView>, second: Seq<TransferActionView>)
    ensures
        frames_in(first + second) == frames_in(first) + frames_in(second),
    decreases first.len(),
{
    if first.len() == 0 {
        assert(first + second =~= second);
        assert(frames_in(first) + frames_in(second) =~= frames_in(second));
    } else {
        assert((first + second).drop_first() =~= first.drop_first() + second);
        lemma_frames_in_both(first.drop_first(), second);
        assert(frames_in(first + second) =~= frames_in(first) + frames_in(second));
    }
}

/// Events that happen after others are taken in where those have led.
proof fn lemma_progress_in_two<S: StreamSender + Default, F: FileSender>(
    fs: RemoteFileSystem<S, F>,
    now: Progress<F>,
    state_id: u8,
    first: Seq<TransferEventView>,
    second: Seq<TransferEventView>,
)
    ensures
        ({
            let between = fs.progress_through(now, state_id, first);
            let last = fs.progress_through(between.0, state_id, second);
            fs.progress_through(now, state_id, first + second) == (last.0, between.1 + last.1)
        }),
    decreases first.len(),
{
    let all = first + second;
    let last = fs.progress_through(
        fs.progress_through(now, state_id, first).0,
        state_id,
        second,
    );
    if first.len() == 0 {
        assert(all =~= second);
        assert(Seq::<TransferActionView>::empty() + last.1 =~= last.1);
    } else {
        let (next, action) = fs.progress_after(now, state_id, first[0]);
        assert(all.drop_first() =~= first.drop_first() + second);
        lemma_progress_in_two(fs, next, state_id, first.drop_first(), second);
        let between = fs.progress_through(next, state_id, first.drop_first());
        assert(seq![action] + (between.1 + last.1) =~= (seq![action] + between.1) + last.1);
    }
}

/// One event, and one action.
proof fn lemma_progress_of_one<S: StreamSender + Default, F: FileSender>(
    fs: RemoteFileSystem<S, F>,
    now: Progress<F>,
    state_id: u8,
    event: TransferEventView,
)
    ensures
        ({
            let (next, action) = fs.progress_after(now, state_id, event);
            fs.progress_through(now, state_id, seq![event]) == (next, seq![action])
        }),
{
    let (next, action) = fs.progress_after(now, state_id, event);
    let none = Seq::<TransferEventView>::empty();
    assert(seq![event].drop_first() =~= none);
    assert(fs.progress_through(next, state_id, none) == (
        next,
        Seq::<TransferActionView>::empty(),
    ));
    assert(seq![action] + Seq::<TransferActionView>::empty() =~= seq![action]);
}

/// The frames of one action.
proof fn lemma_frames_of_one(action: TransferActionView)
    ensures
        frames_in(seq![action]) == frames_of(action),
{
    assert(seq![action].drop_first() =~= Seq::empty());
    assert(frames_in(Seq::empty()) =~= Seq::empty());
    assert(frames_in(seq![action]) =~= frames_of(action));
}

/// The frames of two actions, and of those after them.
proof fn lemma_frames_of_two(two: Seq<TransferActionView>, rest: Seq<TransferActionView>)
    requires
        two.len() == 2,
    ensures
        frames_in(two + rest) == frames_of(two[0]) + frames_of(two[1]) + frames_in(rest),
{
    lemma_frames_in_both(two, rest);
    lemma_frames_in_both(seq![two[0]], seq![two[1]]);
    assert(two =~= seq![two[0]] + seq![two[1]]);
    lemma_frames_of_one(two[0]);
    lemma_frames_of_one(two[1]);
}

/// Two events, and two actions.
proof fn lemma_progress_of_two<S: StreamSender + Default, F: FileSender>(
    fs: RemoteFileSystem<S, F>,
    now: Progress<F>,
    state_id: u8,
    first: TransferEventView,
    second: TransferEventView,
)
    ensures
        ({
            let (between, one) = fs.progress_after(now, state_id, first);
            let (last, two) = fs.progress_after(between, state_id, second);
            fs.progress_through(now, state_id, seq![first, second]) == (last, seq![one, two])
        }),
{
    let (between, one) = fs.progress_after(now, state_id, first);
    let (last, two) = fs.progress_after(between, state_id, second);
    lemma_progress_of_one(fs, now, state_id, first);
    lemma_progress_of_one(fs, between, state_id, second);
    lemma_progress_in_two(fs, now, state_id, seq![first], seq![second]);
    assert(seq![first] + seq![second] =~= seq![first, second]);
    assert(seq![one] + seq![two] =~= seq![one, two]);
}

/// Where an operation turns to the next file from, when it is done with one whose end was sent or was
/// not.
pub open spec fn past_file<F>(now: Progress<F>, end_told: bool) -> Progress<F> {
    Progress {
        operation: if end_told {
            Operation::Eof
        } else {
            Operation::Move
        },
        current: None,
        ..now
    }
}

/// A file that is being read is sent chunk by chunk, then its end is where all of it has been read, then
/// the next file is turned to.
proof fn lemma_content_is_sent<S: StreamSender + Default, F: FileSender>(
    fs: RemoteFileSystem<S, F>,
    now: Progress<F>,
    state_id: u8,
    chunks: Seq<Seq<u8>>,
    end: TransportRecvError,
)
    requires
        now.stage == Stage::Reading,
        now.operation == Operation::Move,
    ensures
        ({
            let (last, actions) = fs.progress_through(
                now,
                state_id,
                reading_events(chunks, end),
            );
            let whole = end == TransportRecvError::Disconnected;
            &&& actions.len() > 0
            &&& (last, actions.last()) == past_file(now, whole).next_file(state_id)
            &&& frames_in(actions) == fs.chunks_sent(chunks) + if whole {
                fs.end_sent()
            } else {
                Seq::empty()
            }
        }),
    decreases chunks.len(),
{
    let events = reading_events(chunks, end);
    let (last, actions) = fs.progress_through(now, state_id, events);
    let done = TransferEventView::Done;
    let ended = if end == TransportRecvError::Disconnected {
        fs.end_sent()
    } else {
        Seq::empty()
    };
    if chunks.len() > 0 {
        let read = TransferEventView::Chunk(Ok(chunks[0]));
        let others = chunks.drop_first();
        lemma_progress_of_two(fs, now, state_id, read, done);
        let (again, two) = fs.progress_through(now, state_id, seq![read, done]);
        assert(again =~= now);
        lemma_content_is_sent(fs, now, state_id, others, end);
        lemma_progress_in_two(fs, now, state_id, seq![read, done], reading_events(others, end));
        let rest = fs.progress_through(now, state_id, reading_events(others, end)).1;
        lemma_frames_of_two(two, rest);
        assert(frames_in(actions) =~= fs.chunks_sent(chunks) + ended);
    } else {
        let gone = TransferEventView::Chunk(Err(end));
        let past = past_file(now, end == TransportRecvError::Disconnected);
        let (after, action) = past.next_file(state_id);
        lemma_frames_of_one(action);
        if end == TransportRecvError::Disconnected {
            lemma_progress_of_two(fs, now, state_id, gone, done);
            let (told, two) = fs.progress_through(now, state_id, seq![gone, done]);
            lemma_progress_of_one(fs, told, state_id, done);
            lemma_progress_in_two(fs, now, state_id, seq![gone, done], seq![done]);
            assert(seq![gone, done] + seq![done] =~= events);
            assert(told =~= Progress { stage: Stage::EndSent, ..past });
            assert(told.next_file(state_id) == past.next_file(state_id));
            lemma_frames_of_two(two, seq![action]);
        } else {
            lemma_progress_of_one(fs, now, state_id, gone);
            assert(past =~= Progress { current: None, ..now });
        }
        assert(frames_in(actions) =~= fs.chunks_sent(chunks) + ended);
    }
}

/// Of a file that is turned to, the location is sent, then the content as it is read, then the end where
/// all of it has been read. With a codec that is not known to be raw, only the location is sent.
pub proof fn law_file_is_sent<S: StreamSender + Default, F: FileSender>(
    fs: RemoteFileSystem<S, F>,
    now: Progress<F>,
    state_id: u8,
    reading: Reading,
)
    requires
        fs.codec != Codec::Multipart,
        now.stage == Stage::LocationAnnounced,
    ensures
        ({
            let (last, actions) = fs.progress_through(
                now,
                state_id,
                fs.one_file_events(reading),
            );
            &&& actions.len() > 0
            &&& (last, actions.last()) == past_file(now, reading.end_told(fs.codec)).next_file(
                state_id,
            )
            &&& frames_in(actions) == fs.file_sent(state_id, now.locations[state_id], reading)
        }),
{
    let done = TransferEventView::Done;
    let location = now.locations[state_id];
    lemma_progress_of_two(fs, now, state_id, done, done);
    let (next, two) = fs.progress_through(now, state_id, seq![done, done]);
    let past = past_file(now, reading.end_told(fs.codec));
    if fs.sends_raw() {
        let events = reading_events(reading.chunks, reading.end);
        lemma_content_is_sent(fs, next, state_id, reading.chunks, reading.end);
        assert(past_file(next, reading.whole()).next_file(state_id) == past.next_file(state_id));
        lemma_progress_in_two(fs, now, state_id, seq![done, done], events);
        let rest = fs.progress_through(next, state_id, events).1;
        lemma_frames_of_two(two, rest);
        assert(frames_in(two + rest) =~= fs.file_sent(state_id, location, reading));
    } else {
        let none = Seq::<TransferActionView>::empty();
        assert((next, two[1]) == Progress { stage: Stage::LocationSent, ..past }.next_file(state_id));
        assert(Progress { stage: Stage::LocationSent, ..past }.next_file(state_id)
            == past.next_file(state_id));
        lemma_frames_of_two(two, none);
        assert(two + none =~= two);
        assert(frames_in(two) =~= fs.file_sent(state_id, location, reading));
    }
}

/// Where an operation stands when these files have been moved: the location of the state is that of the
/// last of them, and it is being moved, or its end was the last thing that was carried out.
pub open spec fn moved<F: FileSender>(
    before: Progress<F>,
    files: Seq<F>,
    state_id: u8,
    end_told: bool,
) -> Progress<F> {
    Progress {
        operation: if files.len() == 0 {
            before.operation
        } else if end_told {
            Operation::Eof
        } else {
            Operation::Move
        },
        locations: if files.len() == 0 {
            before.locations
        } else {
            before.locations.insert(state_id, files.last().location())
        },
        files: before.files,
        stage: Stage::Finished,
        current: None,
        waiting: Seq::empty(),
    }
}

/// The files that are left are sent in order, from the moment that the first of them is turned to.
proof fn lemma_files_are_sent<S: StreamSender + Default, F: FileSender>(
    fs: RemoteFileSystem<S, F>,
    before: Progress<F>,
    state_id: u8,
    readings: Seq<Reading>,
)
    requires
        fs.codec != Codec::Multipart,
        before.locations.contains_key(state_id),
        readings.len() == before.waiting.len(),
    ensures
        ({
            let (first, action) = before.next_file(state_id);
            let (last, actions) = fs.progress_through(first, state_id, fs.file_events(readings));
            &&& (seq![action] + actions).last() == TransferActionView::Finish(Ok(()))
            &&& frames_in(actions) == fs.files_sent(state_id, before.waiting, readings)
            &&& last == moved(
                before,
                before.waiting,
                state_id,
                readings.last().end_told(fs.codec),
            )
        }),
    decreases readings.len(),
{
    let (first, action) = before.next_file(state_id);
    if readings.len() > 0 {
        let one = fs.one_file_events(readings[0]);
        let others = readings.drop_first();
        let past = past_file(first, readings[0].end_told(fs.codec));
        law_file_is_sent(fs, first, state_id, readings[0]);
        let (second, actions) = fs.progress_through(first, state_id, one);
        lemma_files_are_sent(fs, past, state_id, others);
        let following = before.waiting.drop_first();
        assert(moved(past, following, state_id, others.last().end_told(fs.codec)) =~= moved(
            before,
            before.waiting,
            state_id,
            readings.last().end_told(fs.codec),
        )) by {
            if following.len() > 0 {
                assert(following.last() == before.waiting.last());
                assert(others.last() == readings.last());
                assert(first.locations.insert(state_id, following.last().location())
                    =~= before.locations.insert(state_id, before.waiting.last().location()));
            }
        }
        lemma_progress_in_two(fs, first, state_id, one, fs.file_events(others));
        let rest = fs.progress_through(second, state_id, fs.file_events(others)).1;
        lemma_frames_in_both(actions, rest);
        if rest.len() == 0 {
            assert(seq![actions.last()] + rest =~= seq![actions.last()]);
            assert(actions + rest =~= actions);
        } else {
            assert((seq![actions.last()] + rest).last() == rest.last());
            assert((actions + rest).last() == rest.last());
        }
        assert(frames_in(actions + rest) =~= fs.files_sent(state_id, before.waiting, readings));
    } else {
        let none = Seq::<TransferActionView>::empty();
        assert(seq![action] + none =~= seq![action]);
        assert(frames_in(none) =~= fs.files_sent(state_id, before.waiting, readings));
    }
}

/// Moving files sends each of them, in order: its location, its content, and its end where all of it has
/// been read. Then the operation has succeeded, there are no files to be sent any more, and the state has
/// the location of the last file. The operation that is set is the end of that file where it was sent,
/// and moving otherwise.
pub proof fn law_move_sends_every_file<S: StreamSender + Default, F: FileSender>(
    fs: RemoteFileSystem<S, F>,
    now: Progress<F>,
    state_id: u8,
    readings: Seq<Reading>,
)
    requires
        fs.codec != Codec::Multipart,
        now.stage == Stage::Announced,
        now.operation == Operation::Move,
        now.locations.contains_key(state_id),
        readings.len() == now.files.len(),
    ensures
        ({
            let events = seq![TransferEventView::Done] + fs.file_events(readings);
            let (last, actions) = fs.progress_through(now, state_id, events);
            &&& actions.last() == TransferActionView::Finish(Ok(()))
            &&& frames_in(actions) == fs.files_sent(state_id, now.files, readings)
            &&& last.operation == if now.files.len() > 0 && readings.last().end_told(fs.codec) {
                Operation::Eof
            } else {
                Operation::Move
            }
            &&& last.locations == if now.files.len() > 0 {
                now.locations.insert(state_id, now.files.last().location())
            } else {
                now.locations
            }
            &&& last.files.len() == 0
            &&& last.stage == Stage::Finished
            &&& last.current is None
            &&& last.waiting.len() == 0
        }),
{
    let done = TransferEventView::Done;
    let before = Progress { files: Seq::<F>::empty(), waiting: now.files, ..now };
    let (first, action) = before.next_file(state_id);
    lemma_progress_of_one(fs, now, state_id, done);
    lemma_progress_in_two(fs, now, state_id, seq![done], fs.file_events(readings));
    lemma_files_are_sent(fs, before, state_id, readings);
    let actions = fs.progress_through(first, state_id, fs.file_events(readings)).1;
    lemma_frames_in_both(seq![action], actions);
    lemma_frames_of_one(action);
    assert(frames_in(seq![action] + actions) =~= frames_in(actions));
}

/// An operation that needs a state fails where there is none: nothing is sent, and files that were to be
/// moved are dropped.
pub proof fn law_unknown_state_is_refused<S: StreamSender + Default, F: FileSender>(
    fs: RemoteFileSystem<S, F>,
    now: Progress<F>,
    state_id: u8,
)
    requires
        now.stage == Stage::Announced,
        now.operation == Operation::SetLocation || (now.operation == Operation::Move
            && now.files.len() > 0),
        !now.locations.contains_key(state_id),
    ensures
        ({
            let (after, action) = fs.progress_after(now, state_id, TransferEventView::Done);
            &&& action == TransferActionView::Finish(
                Err(StreamableFileSystemErrors::NoStateGiven),
            )
            &&& after.operation == Operation::SetLocation
            &&& after.locations == now.locations
            &&& after.files == if now.operation == Operation::Move {
                Seq::empty()
            } else {
                now.files
            }
            &&& after.stage == Stage::Finished
        }),
{
}

impl<S: StreamSender + Default, F: FileSender> RemoteFileSystem<S, F> {
    /// The other filesystem has the same stream, direction and codec.
    pub open spec fn same_settings(&self, other: RemoteFileSystem<S, F>) -> bool {
        self.state == other.state && self.direction == other.direction && self.codec == other.codec
    }
}

/// What is sent of pieces depends on the stream, the direction and the codec alone.
proof fn lemma_settings_decide_pieces<S: StreamSender + Default, F: FileSender>(
    one: RemoteFileSystem<S, F>,
    other: RemoteFileSystem<S, F>,
    pieces: Seq<Seq<u8>>,
)
    requires
        one.same_settings(other),
    ensures
        one.pieces_sent(pieces) == other.pieces_sent(pieces),
    decreases pieces.len(),
{
    if pieces.len() > 0 {
        lemma_settings_decide_pieces(one, other, pieces.drop_last());
    }
}

/// Where an operation goes after an event depends, besides on where it stands, on the stream, the
/// direction and the codec alone.
proof fn lemma_settings_decide_step<S: StreamSender + Default, F: FileSender>(
    one: RemoteFileSystem<S, F>,
    other: RemoteFileSystem<S, F>,
    now: Progress<F>,
    state_id: u8,
    event: TransferEventView,
)
    requires
        one.same_settings(other),
    ensures
        one.progress_after(now, state_id, event) == other.progress_after(now, state_id, event),
{
    if let TransferEventView::Chunk(Ok(bytes)) = event {
        lemma_settings_decide_pieces(one, other, pieces(bytes));
    }
}

/// What an operation comes to depends on the stream, the direction and the codec alone, and on where
/// it stands: two filesystems that agree on these send the same pieces, can go on after the same events,
/// and go the same way through them.
pub proof fn law_settings_decide<S: StreamSender + Default, F: FileSender>(
    one: RemoteFileSystem<S, F>,
    other: RemoteFileSystem<S, F>,
    now: Progress<F>,
    state_id: u8,
    events: Seq<TransferEventView>,
)
    requires
        one.same_settings(other),
    ensures
        forall|pieces: Seq<Seq<u8>>| #[trigger]
            one.pieces_sent(pieces) == other.pieces_sent(pieces),
        forall|event: TransferEventView| #[trigger]
            one.progress_after(now, state_id, event) == other.progress_after(now, state_id, event),
        forall|event: TransferEventView| #[trigger]
            one.can_resume(now, state_id, event) == other.can_resume(now, state_id, event),
        one.progress_through(now, state_id, events) == other.progress_through(
            now,
            state_id,
            events,
        ),
    decreases events.len(),
{
    assert forall|pieces: Seq<Seq<u8>>| #[trigger]
        one.pieces_sent(pieces) == other.pieces_sent(pieces) by {
        lemma_settings_decide_pieces(one, other, pieces);
    }
    assert forall|event: TransferEventView| #[trigger]
        one.progress_after(now, state_id, event) == other.progress_after(now, state_id, event) by {
        lemma_settings_decide_step(one, other, now, state_id, event);
    }
    if events.len() > 0 {
        let next = one.progress_after(now, state_id, events[0]).0;
        law_settings_decide(one, other, next, state_id, events.drop_first());
    }
}

/// An operation was gone on with once for each of these events: the filesystem and the transfer were
/// the first of those given, and after each call the next; and this was asked for each time.
pub open spec fn gone_through<S: StreamSender + Default, F: FileSender>(
    filesystems: Seq<RemoteFileSystem<S, F>>,
    transfers: Seq<Transfer<F>>,
    events: Seq<TransferEventView>,
    actions: Seq<TransferActionView>,
) -> bool {
    &&& filesystems.len() == events.len() + 1
    &&& transfers.len() == events.len() + 1
    &&& actions.len() == events.len()
    &&& forall|i: int|
        0 <= i < events.len() ==> filesystems[i].resumes_to(
            transfers[i],
            #[trigger] events[i],
            filesystems[i + 1],
            transfers[i + 1],
            actions[i],
        )
}

/// Going on with an operation call by call, each time with the filesystem as the call before left it,
/// leads where the events lead the filesystem as it was at first, and asks for the same.
pub proof fn law_calls_go_through_events<S: StreamSender + Default, F: FileSender>(
    filesystems: Seq<RemoteFileSystem<S, F>>,
    transfers: Seq<Transfer<F>>,
    events: Seq<TransferEventView>,
    actions: Seq<TransferActionView>,
)
    requires
        gone_through(filesystems, transfers, events, actions),
    ensures
        filesystems[0].progress_through(
            filesystems[0].progress(transfers[0]),
            transfers[0].state_id,
            events,
        ) == (filesystems.last().progress(transfers.last()), actions),
        filesystems[0].same_settings(filesystems.last()),
    decreases events.len(),
{
    if events.len() == 0 {
        assert(actions =~= Seq::empty());
    } else {
        let later_events = events.drop_first();
        let later_filesystems = filesystems.drop_first();
        let later_transfers = transfers.drop_first();
        let later_actions = actions.drop_first();
        assert(filesystems[0].resumes_to(
            transfers[0],
            events[0],
            filesystems[1],
            transfers[1],
            actions[0],
        ));
        assert forall|i: int| 0 <= i < later_events.len() implies later_filesystems[i].resumes_to(
            later_transfers[i],
            #[trigger] later_events[i],
            later_filesystems[i + 1],
            later_transfers[i + 1],
            later_actions[i],
        ) by {
            assert(later_events[i] == events[i + 1]);
        }
        law_calls_go_through_events(
            later_filesystems,
            later_transfers,
            later_events,
            later_actions,
        );
        law_settings_decide(
            filesystems[0],
            filesystems[1],
            filesystems[1].progress(transfers[1]),
            transfers[0].state_id,
            later_events,
        );
        assert(seq![actions[0]] + later_actions =~= actions);
    }
}

/// Moving files call by call sends each of them, in order, and leaves the filesystem without files to
/// be sent, at the location of the last one.
pub proof fn law_calls_move_every_file<S: StreamSender + Default, F: FileSender>(
    filesystems: Seq<RemoteFileSystem<S, F>>,
    transfers: Seq<Transfer<F>>,
    actions: Seq<TransferActionView>,
    readings: Seq<Reading>,
)
    requires
        gone_through(
            filesystems,
            transfers,
            seq![TransferEventView::Done] + filesystems[0].file_events(readings),
            actions,
        ),
        filesystems[0].codec != Codec::Multipart,
        filesystems[0].operation == Operation::Move,
        transfers[0].stage == Stage::Announced,
        filesystems[0].locations().contains_key(transfers[0].state_id),
        readings.len() == filesystems[0].files@.len(),
    ensures
        ({
            let before = filesystems[0];
            let after = filesystems.last();
            let state_id = transfers[0].state_id;
            let moving = before.files@.len() > 0;
            &&& frames_in(actions) == before.files_sent(state_id, before.files@, readings)
            &&& actions.last() == TransferActionView::Finish(Ok(()))
            &&& transfers.last().stage == Stage::Finished
            &&& after.files@.len() == 0
            &&& after.operation == if moving && readings.last().end_told(before.codec) {
                Operation::Eof
            } else {
                Operation::Move
            }
            &&& after.locations() == if moving {
                before.locations().insert(state_id, before.files@.last().location())
            } else {
                before.locations()
            }
        }),
{
    let events = seq![TransferEventView::Done] + filesystems[0].file_events(readings);
    law_calls_go_through_events(filesystems, transfers, events, actions);
    law_move_sends_every_file(
        filesystems[0],
        filesystems[0].progress(transfers[0]),
        transfers[0].state_id,
        readings,
    );
}

} // verus!

//! What the receiver makes of what the sender sends.
use crate::endpoints::{TcpFsReceiver, TcpFsSender};
use crate::filesystem::{write_of, FileActionView, RemoteFileSystem};
use crate::frames::{EofFrame, FileFrameView, SetFrameView};
use crate::framing::Framing;
use crate::protocol::{
    Codec, Direction, FileFrameStatus, FileHandleStatus, Operation, StreamableFileSystemErrors,
};
use crate::receiving::Receipt;
use crate::receipts::{
    law_calls_add_up, law_frames_add_up, lemma_failure_stays, received_in_turn,
};
use crate::sending::{
    frames_in, gone_through, law_calls_move_every_file, law_pieces_make_up_the_bytes, Reading,
};
use crate::streams::{FileSender, StreamReceiver, StreamSender};
use crate::transfer::{
    end_frame, eof_layout, file_layout, location_frame, piece_frame, pieces, sent, set_layout, Stage,
    Transfer, TransferActionView, TransferEventView,
};
use crate::wire::{
    law_frames_arrive_in_fragments, law_frames_arrive_in_order, law_parts_are_sent_as_the_whole,
    lemma_frames_joined, lemma_sent_is_no_shorter, none_lost,
};
use vstd::prelude::*;
use vstd::seq_lib::lemma_flatten_concat;
use vstd::utf8::{
    decode_utf8, encode_utf8, encode_utf8_decode_utf8, encode_utf8_valid_utf8, valid_utf8,
};

verus! {

/// A piece of a file is read back from its frame as it was sent, with the escape bytes in it; where
/// escaping changes nothing, it is the frame itself that is read back.
pub proof fn law_piece_is_read_back(framing: Framing, frame: FileFrameView)
    requires
        frame.complete(),
        frame.operation == Some(Operation::Move),
    ensures
        FileFrameView::decoded(framing.payload(frame.headers(), frame.chunks)) == Ok::<
            FileFrameView,
            FileFrameStatus,
        >(FileFrameView { chunks: framing.content_sent(frame.chunks), ..frame }),
        framing.content_sent(frame.chunks) == frame.chunks ==> FileFrameView::decoded(
            framing.payload(frame.headers(), frame.chunks),
        ) == Ok::<FileFrameView, FileFrameStatus>(frame),
{
    let payload = framing.payload(frame.headers(), frame.chunks);
    assert(payload.skip(4) =~= framing.content_sent(frame.chunks));
}

/// A location is read back from its frame as it was sent, with the escape bytes in it, the first byte
/// for the state it is meant for; where escaping changes nothing, it is the frame itself that is read
/// back.
pub proof fn law_location_is_read_back(framing: Framing, frame: SetFrameView)
    requires
        frame.complete(),
        frame.operation == Some(Operation::SetLocation),
    ensures
        ({
            let sent = framing.content_sent(frame.content());
            &&& sent.len() > 0
            &&& SetFrameView::decoded(framing.payload(frame.headers(), frame.content())) == Ok::<
                SetFrameView,
                FileFrameStatus,
            >(SetFrameView { state_id: sent[0], chunks: sent.skip(1), ..frame })
            &&& sent == frame.content() ==> SetFrameView::decoded(
                framing.payload(frame.headers(), frame.content()),
            ) == Ok::<SetFrameView, FileFrameStatus>(frame)
        }),
{
    let payload = framing.payload(frame.headers(), frame.content());
    let sent = framing.content_sent(frame.content());
    lemma_sent_is_no_shorter(framing, frame.content());
    assert(payload.skip(3) =~= sent.skip(1));
    if sent == frame.content() {
        assert(sent.skip(1) =~= frame.chunks);
    }
}

/// The end of a file is read back from its frame.
pub proof fn law_end_is_read_back(framing: Framing, frame: EofFrame)
    requires
        frame.complete(),
        frame.operation == Some(Operation::Eof),
    ensures
        EofFrame::decoded(framing.payload(frame.headers(), Seq::empty())) == Ok::<
            EofFrame,
            FileFrameStatus,
        >(frame),
{
}

/// No bytes are frames of two kinds.
pub proof fn law_kinds_are_told_apart(bytes: Seq<u8>)
    ensures
        FileFrameView::decoded(bytes) is Ok ==> SetFrameView::decoded(bytes) is Err
            && EofFrame::decoded(bytes) is Err,
        SetFrameView::decoded(bytes) is Ok ==> EofFrame::decoded(bytes) is Err,
{
}

/// What is written by these actions.
pub open spec fn bytes_written(actions: Seq<FileActionView>) -> Seq<u8>
    decreases actions.len(),
{
    if actions.len() == 0 {
        Seq::empty()
    } else {
        bytes_written(actions.drop_last()) + match actions.last() {
            FileActionView::Write { open, bytes } => bytes,
            FileActionView::Close => Seq::empty(),
        }
    }
}

/// What is written by some actions and then others is what is written by both.
proof fn lemma_bytes_written_in_turn(first: Seq<FileActionView>, second: Seq<FileActionView>)
    ensures
        bytes_written(first + second) == bytes_written(first) + bytes_written(second),
    decreases second.len(),
{
    let all = first + second;
    if second.len() == 0 {
        assert(all =~= first);
        assert(bytes_written(first) + bytes_written(second) =~= bytes_written(first));
    } else {
        assert(all.drop_last() =~= first + second.drop_last());
        lemma_bytes_written_in_turn(first, second.drop_last());
        assert(bytes_written(all) =~= bytes_written(first) + bytes_written(second));
    }
}

/// Writing these pieces: to the file that is open, or else the first of them to one that is opened at
/// `location` for it.
pub open spec fn writes_of(location: Seq<char>, file_open: bool, pieces: Seq<Seq<u8>>) -> Seq<
    FileActionView,
> {
    Seq::new(pieces.len(), |i: int| write_of(location, file_open || i > 0, pieces[i]))
}

/// Writing pieces one by one writes all that they hold.
proof fn lemma_writes_hold_pieces(location: Seq<char>, file_open: bool, pieces: Seq<Seq<u8>>)
    ensures
        bytes_written(writes_of(location, file_open, pieces)) == pieces.flatten(),
    decreases pieces.len(),
{
    let writes = writes_of(location, file_open, pieces);
    if pieces.len() == 0 {
        assert(bytes_written(writes) =~= pieces.flatten());
    } else {
        let before = pieces.drop_last();
        assert(writes.drop_last() =~= writes_of(location, file_open, before));
        lemma_writes_hold_pieces(location, file_open, before);
        pieces.lemma_flatten_and_flatten_alt_are_equivalent();
        before.lemma_flatten_and_flatten_alt_are_equivalent();
    }
}

/// These pieces as they are sent.
pub open spec fn pieces_as_sent(framing: Framing, pieces: Seq<Seq<u8>>) -> Seq<Seq<u8>> {
    Seq::new(pieces.len(), |i: int| framing.content_sent(pieces[i]))
}

/// Pieces as they are sent make up the whole as it would be sent.
proof fn lemma_pieces_as_sent_joined(framing: Framing, pieces: Seq<Seq<u8>>)
    ensures
        pieces_as_sent(framing, pieces).flatten() == framing.content_sent(pieces.flatten()),
    decreases pieces.len(),
{
    let sent = pieces_as_sent(framing, pieces);
    if pieces.len() == 0 {
        assert(sent.flatten() =~= framing.content_sent(pieces.flatten()));
    } else {
        let others = pieces.drop_first();
        assert(sent.drop_first() =~= pieces_as_sent(framing, others));
        lemma_pieces_as_sent_joined(framing, others);
        law_parts_are_sent_as_the_whole(framing, pieces[0], others.flatten());
    }
}

/// What stands between the delimiters of the frames that carry these pieces.
pub open spec fn piece_payloads(
    framing: Framing,
    direction: Direction,
    codec: Codec,
    pieces: Seq<Seq<u8>>,
) -> Seq<Seq<u8>> {
    Seq::new(
        pieces.len(),
        |i: int|
            framing.payload(
                piece_frame(direction, codec, pieces[i]).headers(),
                pieces[i],
            ),
    )
}

/// What stands between the delimiters of the frame that carries a location.
pub open spec fn location_payload(
    framing: Framing,
    direction: Direction,
    state_id: u8,
    location: Seq<char>,
) -> Seq<u8> {
    let frame = location_frame(direction, state_id, location);
    framing.payload(frame.headers(), frame.content())
}

/// What stands between the delimiters of the frame that ends a file.
pub open spec fn end_payload(framing: Framing, direction: Direction) -> Seq<u8> {
    framing.payload(end_frame(direction).headers(), Seq::empty())
}

/// The pieces that a file is sent in when it is read in these chunks.
pub open spec fn file_pieces(chunks: Seq<Seq<u8>>) -> Seq<Seq<u8>>
    decreases chunks.len(),
{
    if chunks.len() == 0 {
        Seq::empty()
    } else {
        pieces(chunks[0]) + file_pieces(chunks.drop_first())
    }
}

/// The pieces of a file make up what was read of it.
proof fn lemma_file_pieces_joined(chunks: Seq<Seq<u8>>)
    ensures
        file_pieces(chunks).flatten() == chunks.flatten(),
    decreases chunks.len(),
{
    if chunks.len() > 0 {
        let others = chunks.drop_first();
        lemma_file_pieces_joined(others);
        law_pieces_make_up_the_bytes(chunks[0]);
        lemma_flatten_concat(pieces(chunks[0]), file_pieces(others));
    }
}

/// What stands between the delimiters of the frames of a file that is read in this way.
pub open spec fn file_payloads(
    framing: Framing,
    direction: Direction,
    codec: Codec,
    state_id: u8,
    location: Seq<char>,
    reading: Reading,
) -> Seq<Seq<u8>> {
    seq![location_payload(framing, direction, state_id, location)] + piece_payloads(
        framing,
        direction,
        codec,
        file_pieces(reading.carried(codec)),
    ) + end_payloads(framing, direction, reading.end_told(codec))
}

/// What stands between the delimiters of the frame that ends a file, where it is sent.
pub open spec fn end_payloads(framing: Framing, direction: Direction, end_told: bool) -> Seq<
    Seq<u8>,
> {
    if end_told {
        seq![end_payload(framing, direction)]
    } else {
        Seq::empty()
    }
}

/// What a location is read back as: its bytes as they are sent, but for the first of those of the state
/// and the location together.
pub open spec fn location_as_sent(framing: Framing, state_id: u8, location: Seq<char>) -> Seq<u8> {
    framing.content_sent(seq![state_id] + encode_utf8(location)).skip(1)
}

impl Receipt {
    /// This receipt after the frames of a file have arrived. The location of the state that is being
    /// received for becomes that of the file, and then each piece is asked to be written there, or to
    /// the file that is open already. Without such a state, or with a location that escaping has made
    /// no text of, the first frame fails.
    pub open spec fn after_file(
        self,
        framing: Framing,
        sender_id: u8,
        location: Seq<char>,
        pieces: Seq<Seq<u8>>,
        state_id: u8,
    ) -> Receipt {
        let bytes = location_as_sent(framing, sender_id, location);
        if self.failure is Some {
            self
        } else if !self.locations.contains_key(state_id) {
            Receipt { failure: Some(FileHandleStatus::IncorrectStateAsked), ..self }
        } else if !valid_utf8(bytes) {
            Receipt { failure: Some(FileHandleStatus::IncorrectData), ..self }
        } else {
            Receipt {
                locations: self.locations.insert(state_id, decode_utf8(bytes)),
                file_open: self.file_open || pieces.len() > 0,
                actions: self.actions + writes_of(
                    decode_utf8(bytes),
                    self.file_open,
                    pieces_as_sent(framing, pieces),
                ),
                failure: None,
            }
        }
    }

    /// This receipt after the frames of these files have arrived, which were read in this way.
    pub open spec fn after_files<F: FileSender>(
        self,
        framing: Framing,
        codec: Codec,
        sender_id: u8,
        files: Seq<F>,
        readings: Seq<Reading>,
        state_id: u8,
    ) -> Receipt
        decreases files.len(),
    {
        if files.len() == 0 {
            self
        } else {
            self.after_file(
                framing,
                sender_id,
                files[0].location(),
                file_pieces(readings[0].carried(codec)),
                state_id,
            ).after_files(
                framing,
                codec,
                sender_id,
                files.drop_first(),
                readings.drop_first(),
                state_id,
            )
        }
    }
}

/// The pieces of a file are written where the state has its location: the first of them to a file
/// that is opened for it, unless one is open already.
proof fn lemma_pieces_are_written(
    framing: Framing,
    direction: Direction,
    codec: Codec,
    pieces: Seq<Seq<u8>>,
    receipt: Receipt,
    state_id: u8,
)
    requires
        receipt.failure is None,
        receipt.locations.contains_key(state_id),
    ensures
        receipt.after_frames(state_id, piece_payloads(framing, direction, codec, pieces)) == (
        Receipt {
            file_open: receipt.file_open || pieces.len() > 0,
            actions: receipt.actions + writes_of(
                receipt.locations[state_id],
                receipt.file_open,
                pieces_as_sent(framing, pieces),
            ),
            ..receipt
        }),
    decreases pieces.len(),
{
    let payloads = piece_payloads(framing, direction, codec, pieces);
    let location = receipt.locations[state_id];
    let writes = writes_of(location, receipt.file_open, pieces_as_sent(framing, pieces));
    if pieces.len() == 0 {
        assert(receipt.actions + writes =~= receipt.actions);
    } else {
        let before = pieces.drop_last();
        let last = pieces.last();
        let earlier = writes_of(location, receipt.file_open, pieces_as_sent(framing, before));
        assert(payloads.drop_last() =~= piece_payloads(framing, direction, codec, before));
        lemma_pieces_are_written(framing, direction, codec, before, receipt, state_id);
        law_piece_is_read_back(framing, piece_frame(direction, codec, last));
        assert(receipt.actions + writes =~= (receipt.actions + earlier).push(writes.last()));
    }
}

/// The end of a file is passed over.
proof fn lemma_end_changes_nothing(
    framing: Framing,
    direction: Direction,
    end_told: bool,
    receipt: Receipt,
    state_id: u8,
)
    ensures
        receipt.after_frames(state_id, end_payloads(framing, direction, end_told)) == receipt,
{
    let ended = end_payload(framing, direction);
    assert(receipt.after_frames(state_id, Seq::empty()) == receipt);
    assert(seq![ended].drop_last() =~= Seq::empty());
    assert(FileFrameView::decoded(ended) is Err);
    assert(SetFrameView::decoded(ended) is Err);
}

/// The frames of a file set the location of the state that is being received for, and then have the
/// content of the file written, piece by piece, in order and as it was sent: to a file that is opened
/// at the location, or to the one that is open already.
pub proof fn law_file_is_written(
    framing: Framing,
    direction: Direction,
    codec: Codec,
    sender_id: u8,
    location: Seq<char>,
    reading: Reading,
    receipt: Receipt,
    state_id: u8,
)
    ensures
        ({
            let pieces = file_pieces(reading.carried(codec));
            let after = receipt.after_file(framing, sender_id, location, pieces, state_id);
            &&& receipt.after_frames(
                state_id,
                file_payloads(framing, direction, codec, sender_id, location, reading),
            ) == after
            &&& after.failure is None ==> bytes_written(after.actions) == bytes_written(
                receipt.actions,
            ) + framing.content_sent(reading.carried(codec).flatten())
        }),
{
    let pieces = file_pieces(reading.carried(codec));
    let told = location_payload(framing, direction, sender_id, location);
    let carried = piece_payloads(framing, direction, codec, pieces);
    let ended = end_payloads(framing, direction, reading.end_told(codec));
    let frames = file_payloads(framing, direction, codec, sender_id, location, reading);
    let frame = location_frame(direction, sender_id, location);
    let bytes = location_as_sent(framing, sender_id, location);
    if receipt.failure is Some {
        lemma_failure_stays(receipt, state_id, frames);
    } else {
        law_location_is_read_back(framing, frame);
        let set = receipt.after_frames(state_id, seq![told]);
        assert(seq![told].drop_last() =~= Seq::empty());
        assert(receipt.after_frames(state_id, Seq::empty()) == receipt);
        assert(FileFrameView::decoded(told) is Err);
        assert(frames =~= seq![told] + (carried + ended));
        law_frames_add_up(receipt, state_id, seq![told], carried + ended);
        if set.failure is Some {
            lemma_failure_stays(set, state_id, carried + ended);
        } else {
            let place = decode_utf8(bytes);
            assert(set =~= Receipt { locations: receipt.locations.insert(state_id, place), ..receipt });
            law_frames_add_up(set, state_id, carried, ended);
            lemma_pieces_are_written(framing, direction, codec, pieces, set, state_id);
            let all = set.after_frames(state_id, carried);
            lemma_end_changes_nothing(framing, direction, reading.end_told(codec), all, state_id);
            let sent = pieces_as_sent(framing, pieces);
            lemma_writes_hold_pieces(place, receipt.file_open, sent);
            lemma_pieces_as_sent_joined(framing, pieces);
            lemma_file_pieces_joined(reading.carried(codec));
            lemma_bytes_written_in_turn(
                receipt.actions,
                writes_of(place, receipt.file_open, sent),
            );
        }
    }
}

/// Escaping leaves the location and the content of a file as they are.
pub open spec fn passes_unchanged(
    framing: Framing,
    sender_id: u8,
    location: Seq<char>,
    chunks: Seq<Seq<u8>>,
) -> bool {
    let told = seq![sender_id] + encode_utf8(location);
    let pieces = file_pieces(chunks);
    &&& framing.content_sent(told) == told
    &&& forall|i: int| 0 <= i < pieces.len() ==> framing.content_sent(#[trigger] pieces[i]) == pieces[i]
}

/// The frames of a file that escaping leaves as it is set its own location, and have its own content
/// written.
pub proof fn law_unchanged_file_is_written(
    framing: Framing,
    sender_id: u8,
    location: Seq<char>,
    chunks: Seq<Seq<u8>>,
    receipt: Receipt,
    state_id: u8,
)
    requires
        receipt.failure is None,
        receipt.locations.contains_key(state_id),
        passes_unchanged(framing, sender_id, location, chunks),
    ensures
        ({
            let pieces = file_pieces(chunks);
            let writes = writes_of(location, receipt.file_open, pieces);
            &&& receipt.after_file(framing, sender_id, location, pieces, state_id) == (Receipt {
                locations: receipt.locations.insert(state_id, location),
                file_open: receipt.file_open || pieces.len() > 0,
                actions: receipt.actions + writes,
                failure: None,
            })
            &&& bytes_written(writes) == chunks.flatten()
        }),
{
    let pieces = file_pieces(chunks);
    encode_utf8_valid_utf8(location);
    encode_utf8_decode_utf8(location);
    assert(location_as_sent(framing, sender_id, location) =~= encode_utf8(location));
    assert(pieces_as_sent(framing, pieces) =~= pieces);
    lemma_writes_hold_pieces(location, receipt.file_open, pieces);
    lemma_file_pieces_joined(chunks);
}

/// What stands between the delimiters of the frames of these files.
pub open spec fn files_payloads<F: FileSender>(
    framing: Framing,
    direction: Direction,
    codec: Codec,
    sender_id: u8,
    files: Seq<F>,
    readings: Seq<Reading>,
) -> Seq<Seq<u8>>
    decreases files.len(),
{
    if files.len() == 0 {
        Seq::empty()
    } else {
        file_payloads(
            framing,
            direction,
            codec,
            sender_id,
            files[0].location(),
            readings[0],
        ) + files_payloads(
            framing,
            direction,
            codec,
            sender_id,
            files.drop_first(),
            readings.drop_first(),
        )
    }
}

/// All that is sent of the contents of files that are read in this way.
pub open spec fn content_carried(codec: Codec, readings: Seq<Reading>) -> Seq<u8>
    decreases readings.len(),
{
    if readings.len() == 0 {
        Seq::empty()
    } else {
        readings[0].carried(codec).flatten() + content_carried(codec, readings.drop_first())
    }
}

/// The frames of several files have each of them written in turn, as it was sent. No frame ends a file
/// for the receiver, so once one is open all that follows is written behind what it holds.
pub proof fn law_files_are_written<F: FileSender>(
    framing: Framing,
    direction: Direction,
    codec: Codec,
    sender_id: u8,
    files: Seq<F>,
    readings: Seq<Reading>,
    receipt: Receipt,
    state_id: u8,
)
    requires
        readings.len() == files.len(),
    ensures
        ({
            let after = receipt.after_files(framing, codec, sender_id, files, readings, state_id);
            &&& receipt.after_frames(
                state_id,
                files_payloads(framing, direction, codec, sender_id, files, readings),
            ) == after
            &&& after.failure is None ==> bytes_written(after.actions) == bytes_written(
                receipt.actions,
            ) + framing.content_sent(content_carried(codec, readings))
        }),
    decreases files.len(),
{
    if files.len() == 0 {
        assert(framing.content_sent(Seq::empty()) =~= Seq::empty());
        assert(bytes_written(receipt.actions) + Seq::<u8>::empty() =~= bytes_written(
            receipt.actions,
        ));
    } else {
        let reading = readings[0];
        let pieces = file_pieces(reading.carried(codec));
        let location = files[0].location();
        let first = file_payloads(framing, direction, codec, sender_id, location, reading);
        let next = receipt.after_file(framing, sender_id, location, pieces, state_id);
        let others = files.drop_first();
        let later = readings.drop_first();
        law_file_is_written(
            framing,
            direction,
            codec,
            sender_id,
            location,
            reading,
            receipt,
            state_id,
        );
        law_files_are_written(
            framing,
            direction,
            codec,
            sender_id,
            others,
            later,
            next,
            state_id,
        );
        let rest = files_payloads(framing, direction, codec, sender_id, others, later);
        law_frames_add_up(receipt, state_id, first, rest);
        let after = receipt.after_files(framing, codec, sender_id, files, readings, state_id);
        if after.failure is None {
            if next.failure is Some {
                lemma_failure_stays(next, state_id, rest);
            }
            law_parts_are_sent_as_the_whole(
                framing,
                reading.carried(codec).flatten(),
                content_carried(codec, later),
            );
            assert(bytes_written(after.actions) =~= bytes_written(receipt.actions)
                + framing.content_sent(content_carried(codec, readings)));
        }
    }
}

/// Frames that a sender with delimiters sends around these payloads.
pub open spec fn framed(framing: Framing, payloads: Seq<Seq<u8>>) -> Seq<Seq<u8>> {
    Seq::new(payloads.len(), |i: int| framing.frame(payloads[i]))
}

/// Each piece is sent in a frame of its own.
proof fn lemma_pieces_are_framed<F: FileSender>(
    sender: RemoteFileSystem<TcpFsSender, F>,
    pieces: Seq<Seq<u8>>,
)
    ensures
        ({
            let framing = sender.state.framing();
            sender.pieces_sent(pieces) == framed(
                framing,
                piece_payloads(framing, sender.direction, sender.codec, pieces),
            )
        }),
    decreases pieces.len(),
{
    let framing = sender.state.framing();
    let payloads = piece_payloads(framing, sender.direction, sender.codec, pieces);
    if pieces.len() > 0 {
        let before = pieces.drop_last();
        lemma_pieces_are_framed(sender, before);
        assert(payloads.drop_last() =~= piece_payloads(
            framing,
            sender.direction,
            sender.codec,
            before,
        ));
        let frame = piece_frame(sender.direction, sender.codec, pieces.last());
        assert(sender.state.encoded_frame(file_layout(frame)) == frame.layout(framing));
        assert(framing.encoded(frame.headers(), frame.chunks) == framing.frame(payloads.last()));
        assert(sent(frame.layout(framing)) =~= seq![framing.frame(payloads.last())]);
    }
    assert(sender.pieces_sent(pieces) =~= framed(framing, payloads));
}

/// The pieces of each chunk are sent in frames of their own.
proof fn lemma_chunks_are_framed<F: FileSender>(
    sender: RemoteFileSystem<TcpFsSender, F>,
    chunks: Seq<Seq<u8>>,
)
    ensures
        ({
            let framing = sender.state.framing();
            sender.chunks_sent(chunks) == framed(
                framing,
                piece_payloads(framing, sender.direction, sender.codec, file_pieces(chunks)),
            )
        }),
    decreases chunks.len(),
{
    let framing = sender.state.framing();
    let all = file_pieces(chunks);
    let payloads = piece_payloads(framing, sender.direction, sender.codec, all);
    if chunks.len() > 0 {
        lemma_pieces_are_framed(sender, pieces(chunks[0]));
        lemma_chunks_are_framed(sender, chunks.drop_first());
    }
    assert(sender.chunks_sent(chunks) =~= framed(framing, payloads));
}

/// A file is sent as the frames of its location, its pieces and its end.
proof fn lemma_file_is_framed<F: FileSender>(
    sender: RemoteFileSystem<TcpFsSender, F>,
    sender_id: u8,
    location: Seq<char>,
    reading: Reading,
)
    ensures
        ({
            let framing = sender.state.framing();
            let payloads = file_payloads(
                framing,
                sender.direction,
                sender.codec,
                sender_id,
                location,
                reading,
            );
            &&& sender.file_sent(sender_id, location, reading) == framed(framing, payloads)
            &&& sender.file_sent(sender_id, location, reading).flatten() == framing.frames(payloads)
        }),
{
    let framing = sender.state.framing();
    let direction = sender.direction;
    let codec = sender.codec;
    let payloads = file_payloads(framing, direction, codec, sender_id, location, reading);
    let file = sender.file_sent(sender_id, location, reading);
    lemma_chunks_are_framed(sender, reading.carried(codec));
    let told = location_frame(direction, sender_id, location);
    assert(sender.state.encoded_frame(set_layout(told)) == told.layout(framing));
    assert(framing.encoded(told.headers(), told.content()) == framing.frame(payloads[0]));
    assert(sender.location_sent(sender_id, location) =~= seq![framing.frame(payloads[0])]);
    if reading.end_told(codec) {
        let end = end_frame(direction);
        assert(sender.state.encoded_frame(eof_layout(end)) == end.wire(framing));
        assert(framing.encoded(end.headers(), Seq::empty()) == framing.frame(payloads.last()));
        assert(sender.end_sent() =~= seq![framing.frame(payloads.last())]);
    }
    assert(file =~= framed(framing, payloads));
    lemma_frames_joined(framing, payloads, file);
}

/// Files are sent as the frames of each of them.
proof fn lemma_files_are_framed<F: FileSender>(
    sender: RemoteFileSystem<TcpFsSender, F>,
    sender_id: u8,
    files: Seq<F>,
    readings: Seq<Reading>,
)
    ensures
        ({
            let framing = sender.state.framing();
            let payloads = files_payloads(
                framing,
                sender.direction,
                sender.codec,
                sender_id,
                files,
                readings,
            );
            &&& sender.files_sent(sender_id, files, readings) == framed(framing, payloads)
            &&& sender.files_sent(sender_id, files, readings).flatten() == framing.frames(payloads)
        }),
    decreases files.len(),
{
    let framing = sender.state.framing();
    let payloads = files_payloads(
        framing,
        sender.direction,
        sender.codec,
        sender_id,
        files,
        readings,
    );
    let sent = sender.files_sent(sender_id, files, readings);
    if files.len() > 0 {
        lemma_file_is_framed(sender, sender_id, files[0].location(), readings[0]);
        lemma_files_are_framed(sender, sender_id, files.drop_first(), readings.drop_first());
    }
    assert(sent =~= framed(framing, payloads));
    lemma_frames_joined(framing, payloads, sent);
}

/// Frames around these payloads cannot be mistaken behind `before`: no delimiter shows up where none was
/// put.
pub open spec fn gets_through(framing: Framing, before: Seq<u8>, payloads: Seq<Seq<u8>>) -> bool {
    &&& framing.delimited()
    &&& framing.starts_after(before)
    &&& framing.starts_after(framing.end->0)
    &&& forall|i: int| 0 <= i < payloads.len() ==> framing.ends_after(#[trigger] payloads[i])
}

/// A file that is sent is delivered: when the bytes of its frames arrive in one call, its content is
/// asked to be written, as it was sent, at its location or to the file that is open already. The ending
/// delimiter of its last frame is what is left.
pub proof fn law_file_is_delivered<F: FileSender, G>(
    sender: RemoteFileSystem<TcpFsSender, F>,
    sender_id: u8,
    location: Seq<char>,
    reading: Reading,
    receiver: RemoteFileSystem<TcpFsReceiver, G>,
    state_id: u8,
    after: RemoteFileSystem<TcpFsReceiver, G>,
    actions: Seq<FileActionView>,
    outcome: Option<Result<(), StreamableFileSystemErrors>>,
)
    requires
        receiver.receives(
            state_id,
            sender.file_sent(sender_id, location, reading).flatten(),
            after,
            actions,
            outcome,
        ),
        receiver.state.framing() == sender.state.framing(),
        gets_through(
            sender.state.framing(),
            receiver.remainder@,
            file_payloads(
                sender.state.framing(),
                sender.direction,
                sender.codec,
                sender_id,
                location,
                reading,
            ),
        ),
    ensures
        ({
            let framing = sender.state.framing();
            let chunks = reading.carried(sender.codec);
            let pieces = file_pieces(chunks);
            let receipt = receiver.starting_receipt().after_file(
                framing,
                sender_id,
                location,
                pieces,
                state_id,
            );
            &&& outcome == receipt.outcome()
            &&& after.locations() == receipt.locations
            &&& after.file_open == receipt.file_open
            &&& actions == receipt.actions
            &&& outcome is None ==> bytes_written(actions) == framing.content_sent(
                chunks.flatten(),
            )
            &&& outcome is None ==> after.remainder@ == framing.end->0
            &&& receiver.locations().contains_key(state_id) && passes_unchanged(
                framing,
                sender_id,
                location,
                chunks,
            ) ==> {
                &&& outcome is None
                &&& after.locations() == receiver.locations().insert(state_id, location)
                &&& actions == writes_of(location, receiver.file_open, pieces)
                &&& bytes_written(actions) == chunks.flatten()
            }
        }),
{
    let framing = sender.state.framing();
    let chunks = reading.carried(sender.codec);
    let pieces = file_pieces(chunks);
    let start = receiver.starting_receipt();
    let direction = sender.direction;
    let codec = sender.codec;
    let payloads = file_payloads(framing, direction, codec, sender_id, location, reading);
    lemma_file_is_framed(sender, sender_id, location, reading);
    law_frames_arrive_in_order(framing, receiver.remainder@, payloads);
    law_file_is_written(framing, direction, codec, sender_id, location, reading, start, state_id);
    assert(bytes_written(start.actions) + framing.content_sent(chunks.flatten())
        =~= framing.content_sent(chunks.flatten()));
    if receiver.locations().contains_key(state_id) && passes_unchanged(
        framing,
        sender_id,
        location,
        chunks,
    ) {
        law_unchanged_file_is_written(framing, sender_id, location, chunks, start, state_id);
        let writes = writes_of(location, receiver.file_open, pieces);
        assert(start.actions + writes =~= writes);
    }
}

/// Files that are sent one after the other are delivered, in whatever fragments the bytes of their
/// frames arrive, call by call, as long as no starting delimiter is lost: all that the calls ask for
/// together is that each content is written in turn, as it was sent, and no call ends the operation
/// unless a location has become no text or the state is unknown.
pub proof fn law_files_are_delivered<F: FileSender, G>(
    sender: RemoteFileSystem<TcpFsSender, F>,
    sender_id: u8,
    files: Seq<F>,
    readings: Seq<Reading>,
    receivers: Seq<RemoteFileSystem<TcpFsReceiver, G>>,
    state_id: u8,
    fragments: Seq<Seq<u8>>,
    actions: Seq<Seq<FileActionView>>,
    outcomes: Seq<Option<Result<(), StreamableFileSystemErrors>>>,
)
    requires
        readings.len() == files.len(),
        received_in_turn(receivers, state_id, fragments, actions, outcomes),
        receivers[0].state.framing() == sender.state.framing(),
        gets_through(
            sender.state.framing(),
            receivers[0].remainder@,
            files_payloads(
                sender.state.framing(),
                sender.direction,
                sender.codec,
                sender_id,
                files,
                readings,
            ),
        ),
        fragments.flatten() == sender.files_sent(sender_id, files, readings).flatten(),
        none_lost(sender.state.framing(), receivers[0].remainder@, fragments),
    ensures
        ({
            let framing = sender.state.framing();
            let receipt = receivers[0].starting_receipt().after_files(
                framing,
                sender.codec,
                sender_id,
                files,
                readings,
                state_id,
            );
            &&& receipt.failure is None ==> {
                &&& forall|i: int| 0 <= i < outcomes.len() ==> #[trigger] outcomes[i] is None
                &&& bytes_written(actions.flatten()) == framing.content_sent(
                    content_carried(sender.codec, readings),
                )
            }
            &&& (forall|i: int| 0 <= i < outcomes.len() - 1 ==> #[trigger] outcomes[i] is None) ==> {
                &&& receivers.last().locations() == receipt.locations
                &&& receivers.last().file_open == receipt.file_open
                &&& actions.flatten() == receipt.actions
                &&& outcomes.len() > 0 ==> outcomes.last() == receipt.outcome()
            }
        }),
{
    let framing = sender.state.framing();
    let start = receivers[0].starting_receipt();
    let direction = sender.direction;
    let codec = sender.codec;
    let payloads = files_payloads(framing, direction, codec, sender_id, files, readings);
    let all = framing.content_sent(content_carried(codec, readings));
    lemma_files_are_framed(sender, sender_id, files, readings);
    law_frames_arrive_in_fragments(framing, receivers[0].remainder@, payloads, fragments);
    law_files_are_written(framing, direction, codec, sender_id, files, readings, start, state_id);
    law_calls_add_up(receivers, state_id, fragments, actions, outcomes);
    assert(bytes_written(start.actions) + all =~= all);
}

/// One file that is sent is delivered in whatever fragments the bytes of its frames arrive, call by call,
/// as long as no starting delimiter is lost.
pub proof fn law_file_is_delivered_in_fragments<F: FileSender, G>(
    sender: RemoteFileSystem<TcpFsSender, F>,
    sender_id: u8,
    location: Seq<char>,
    reading: Reading,
    receivers: Seq<RemoteFileSystem<TcpFsReceiver, G>>,
    state_id: u8,
    fragments: Seq<Seq<u8>>,
    actions: Seq<Seq<FileActionView>>,
    outcomes: Seq<Option<Result<(), StreamableFileSystemErrors>>>,
)
    requires
        received_in_turn(receivers, state_id, fragments, actions, outcomes),
        receivers[0].state.framing() == sender.state.framing(),
        gets_through(
            sender.state.framing(),
            receivers[0].remainder@,
            file_payloads(
                sender.state.framing(),
                sender.direction,
                sender.codec,
                sender_id,
                location,
                reading,
            ),
        ),
        fragments.flatten() == sender.file_sent(sender_id, location, reading).flatten(),
        none_lost(sender.state.framing(), receivers[0].remainder@, fragments),
    ensures
        ({
            let framing = sender.state.framing();
            let before = receivers[0];
            let after = receivers.last();
            let chunks = reading.carried(sender.codec);
            let pieces = file_pieces(chunks);
            let receipt = before.starting_receipt().after_file(
                framing,
                sender_id,
                location,
                pieces,
                state_id,
            );
            &&& receipt.failure is None ==> {
                &&& forall|i: int| 0 <= i < outcomes.len() ==> #[trigger] outcomes[i] is None
                &&& bytes_written(actions.flatten()) == framing.content_sent(chunks.flatten())
            }
            &&& (forall|i: int| 0 <= i < outcomes.len() - 1 ==> #[trigger] outcomes[i] is None) ==> {
                &&& after.locations() == receipt.locations
                &&& after.file_open == receipt.file_open
                &&& actions.flatten() == receipt.actions
                &&& outcomes.len() > 0 ==> outcomes.last() == receipt.outcome()
            }
            &&& before.locations().contains_key(state_id) && passes_unchanged(
                framing,
                sender_id,
                location,
                chunks,
            ) ==> {
                &&& forall|i: int| 0 <= i < outcomes.len() ==> #[trigger] outcomes[i] is None
                &&& after.locations() == before.locations().insert(state_id, location)
                &&& actions.flatten() == writes_of(location, before.file_open, pieces)
                &&& bytes_written(actions.flatten()) == chunks.flatten()
            }
        }),
{
    let framing = sender.state.framing();
    let chunks = reading.carried(sender.codec);
    let pieces = file_pieces(chunks);
    let before = receivers[0];
    let start = before.starting_receipt();
    let direction = sender.direction;
    let codec = sender.codec;
    let payloads = file_payloads(framing, direction, codec, sender_id, location, reading);
    lemma_file_is_framed(sender, sender_id, location, reading);
    law_frames_arrive_in_fragments(framing, before.remainder@, payloads, fragments);
    law_file_is_written(framing, direction, codec, sender_id, location, reading, start, state_id);
    law_calls_add_up(receivers, state_id, fragments, actions, outcomes);
    let all = framing.content_sent(chunks.flatten());
    assert(bytes_written(start.actions) + all =~= all);
    if before.locations().contains_key(state_id) && passes_unchanged(
        framing,
        sender_id,
        location,
        chunks,
    ) {
        law_unchanged_file_is_written(framing, sender_id, location, chunks, start, state_id);
        let writes = writes_of(location, before.file_open, pieces);
        assert(start.actions + writes =~= writes);
    }
}

/// Moving files from one end to the other: when the bytes of all that the calls at the sending end ask to
/// be sent have been taken in by calls at the receiving end, every file has been asked to be written
/// there, in turn and as it was sent.
pub proof fn law_move_is_delivered<F: FileSender, G>(
    senders: Seq<RemoteFileSystem<TcpFsSender, F>>,
    transfers: Seq<Transfer<F>>,
    requests: Seq<TransferActionView>,
    readings: Seq<Reading>,
    receivers: Seq<RemoteFileSystem<TcpFsReceiver, G>>,
    state_id: u8,
    fragments: Seq<Seq<u8>>,
    actions: Seq<Seq<FileActionView>>,
    outcomes: Seq<Option<Result<(), StreamableFileSystemErrors>>>,
)
    requires
        gone_through(
            senders,
            transfers,
            seq![TransferEventView::Done] + senders[0].file_events(readings),
            requests,
        ),
        senders[0].codec != Codec::Multipart,
        senders[0].operation == Operation::Move,
        transfers[0].stage == Stage::Announced,
        senders[0].locations().contains_key(transfers[0].state_id),
        readings.len() == senders[0].files@.len(),
        received_in_turn(receivers, state_id, fragments, actions, outcomes),
        receivers[0].state.framing() == senders[0].state.framing(),
        gets_through(
            senders[0].state.framing(),
            receivers[0].remainder@,
            files_payloads(
                senders[0].state.framing(),
                senders[0].direction,
                senders[0].codec,
                transfers[0].state_id,
                senders[0].files@,
                readings,
            ),
        ),
        fragments.flatten() == frames_in(requests).flatten(),
        none_lost(senders[0].state.framing(), receivers[0].remainder@, fragments),
    ensures
        ({
            let framing = senders[0].state.framing();
            let receipt = receivers[0].starting_receipt().after_files(
                framing,
                senders[0].codec,
                transfers[0].state_id,
                senders[0].files@,
                readings,
                state_id,
            );
            &&& requests.last() == TransferActionView::Finish(Ok(()))
            &&& receipt.failure is None ==> {
                &&& forall|i: int| 0 <= i < outcomes.len() ==> #[trigger] outcomes[i] is None
                &&& receivers.last().locations() == receipt.locations
                &&& receivers.last().file_open == receipt.file_open
                &&& actions.flatten() == receipt.actions
                &&& bytes_written(actions.flatten()) == framing.content_sent(
                    content_carried(senders[0].codec, readings),
                )
            }
        }),
{
    law_calls_move_every_file(senders, transfers, requests, readings);
    law_files_are_delivered(
        senders[0],
        transfers[0].state_id,
        senders[0].files@,
        readings,
        receivers,
        state_id,
        fragments,
        actions,
        outcomes,
    );
}

} // verus!

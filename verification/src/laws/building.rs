//! The bytes that a frame is sent as, and the frame that bytes are read as.
use crate::encoder::FrameEncoder;
use crate::frames::{EofFrame, FileFrame, SetFrame};
use crate::framing::{
    FrameHandler, Framing, Handle, HandleWithDelims, HandleWithLength, WithDelims, WithLength,
};
use crate::protocol::{ChunkingStatus, Codec, Direction, FileFrameStatus, Operation};
use crate::receiving::FrameCommons;
use crate::wire::law_parts_are_sent_as_the_whole;
use vstd::prelude::*;

verus! {

/// What is written of a delimiter: all of it, or nothing where none is set.
pub open spec fn written_delimiter(delimiter: Option<Vec<u8>>) -> Seq<u8> {
    if delimiter is Some {
        delimiter->0@
    } else {
        seq![]
    }
}

/// No content is sent as nothing. One byte is sent as it is, but with the escape byte in front where
/// both delimiters and an escape byte are set and it begins either delimiter, however long they are.
/// Two contents in a row are sent as the one followed by the other. No other content can be made.
pub proof fn law_bytes_are_escaped_one_by_one(framing: Framing, byte: u8, one: Seq<u8>, other: Seq<u8>)
    requires
        framing.start matches Some(start) ==> start.len() > 0,
        framing.end matches Some(end) ==> end.len() > 0,
    ensures
        framing.content_sent(seq![]).len() == 0,
        framing.content_sent(seq![byte]) == match (framing.start, framing.end, framing.escape) {
            (Some(start), Some(end), Some(escape)) => if byte == start[0] || byte == end[0] {
                seq![escape, byte]
            } else {
                seq![byte]
            },
            _ => seq![byte],
        },
        framing.content_sent(one + other) == framing.content_sent(one) + framing.content_sent(other),
{
    law_parts_are_sent_as_the_whole(framing, one, other);
    assert(seq![byte].drop_last() =~= seq![]);
    if framing.start is Some && framing.end is Some && framing.escape is Some {
        let s = framing.start->0[0];
        let e = framing.end->0[0];
        let x = framing.escape->0;
        assert(crate::framing::escaped(seq![], s, e, x) =~= seq![]);
        assert(seq![byte].last() == byte);
        assert(crate::framing::escaped(seq![byte], s, e, x) =~= if byte == s || byte == e {
            seq![x, byte]
        } else {
            seq![byte]
        });
    }
}

/// A frame that is built is its starting delimiter, its headers as they are, its content as it is sent,
/// and its ending delimiter; what is not set is left out.
pub proof fn law_built_frame(
    encoder: &FrameEncoder,
    headers: Vec<u8>,
    content: Vec<u8>,
    frame: Vec<u8>,
)
    requires
        call_ensures(FrameEncoder::encode_bytes, (encoder, headers, content), frame),
    ensures
        frame@ == written_delimiter(encoder.starting_delimiter) + headers@
            + encoder@.framing.content_sent(content@) + written_delimiter(encoder.ending_delimiter),
        encoder.starting_delimiter is None || encoder.ending_delimiter is None
            || encoder.escape_byte is None ==> frame@ == written_delimiter(
            encoder.starting_delimiter,
        ) + headers@ + content@ + written_delimiter(encoder.ending_delimiter),
        encoder.starting_delimiter matches Some(start) ==> encoder@.framing.start == Some(start@),
        encoder.ending_delimiter matches Some(end) ==> encoder@.framing.end == Some(end@),
        encoder.starting_delimiter is None ==> encoder@.framing.start is None,
        encoder.ending_delimiter is None ==> encoder@.framing.end is None,
        encoder@.framing.escape == encoder.escape_byte,
{
}

/// Between a frame's headers and its ending delimiter a single byte stands as it is, or behind the escape
/// byte where both delimiters and an escape byte are set and it begins either of them.
pub proof fn law_built_frame_of_one_byte(
    encoder: &FrameEncoder,
    headers: Vec<u8>,
    content: Vec<u8>,
    frame: Vec<u8>,
)
    requires
        call_ensures(FrameEncoder::encode_bytes, (encoder, headers, content), frame),
        encoder.starting_delimiter matches Some(start) ==> start@.len() > 0,
        encoder.ending_delimiter matches Some(end) ==> end@.len() > 0,
        content@.len() == 1,
    ensures
        frame@ == written_delimiter(encoder.starting_delimiter) + headers@ + (match (
            encoder.starting_delimiter,
            encoder.ending_delimiter,
            encoder.escape_byte,
        ) {
            (Some(start), Some(end), Some(escape)) => if content@[0] == start@[0] || content@[0]
                == end@[0] {
                seq![escape, content@[0]]
            } else {
                content@
            },
            _ => content@,
        }) + written_delimiter(encoder.ending_delimiter),
{
    law_built_frame(encoder, headers, content, frame);
    law_bytes_are_escaped_one_by_one(encoder@.framing, content@[0], seq![], seq![]);
    assert(content@ =~= seq![content@[0]]);
}

/// Building frames of two contents, and one of the first followed by the second, puts the same between
/// the headers and the ending delimiter.
pub proof fn law_built_frames_add_up(
    encoder: &FrameEncoder,
    headers: Vec<u8>,
    contents: (Vec<u8>, Vec<u8>, Vec<u8>),
    frames: (Vec<u8>, Vec<u8>, Vec<u8>),
    sent: (Seq<u8>, Seq<u8>),
)
    requires
        call_ensures(FrameEncoder::encode_bytes, (encoder, headers, contents.0), frames.0),
        call_ensures(FrameEncoder::encode_bytes, (encoder, headers, contents.1), frames.1),
        call_ensures(FrameEncoder::encode_bytes, (encoder, headers, contents.2), frames.2),
        contents.2@ == contents.0@ + contents.1@,
        frames.0@ == written_delimiter(encoder.starting_delimiter) + headers@ + sent.0
            + written_delimiter(encoder.ending_delimiter),
        frames.1@ == written_delimiter(encoder.starting_delimiter) + headers@ + sent.1
            + written_delimiter(encoder.ending_delimiter),
    ensures
        frames.2@ == written_delimiter(encoder.starting_delimiter) + headers@ + sent.0 + sent.1
            + written_delimiter(encoder.ending_delimiter),
        contents.0@.len() == 0 ==> sent.0.len() == 0,
{
    let framing = encoder@.framing;
    let before = written_delimiter(encoder.starting_delimiter) + headers@;
    let end = written_delimiter(encoder.ending_delimiter);
    law_built_frame(encoder, headers, contents.0, frames.0);
    law_built_frame(encoder, headers, contents.1, frames.1);
    law_built_frame(encoder, headers, contents.2, frames.2);
    law_parts_are_sent_as_the_whole(framing, contents.0@, contents.1@);
    let one = framing.content_sent(contents.0@);
    let other = framing.content_sent(contents.1@);
    assert(frames.0@.len() == before.len() + one.len() + end.len());
    assert(frames.1@.len() == before.len() + other.len() + end.len());
    assert(sent.0 =~= frames.0@.subrange(before.len() as int, frames.0@.len() - end.len()));
    assert(one =~= frames.0@.subrange(before.len() as int, frames.0@.len() - end.len()));
    assert(sent.1 =~= frames.1@.subrange(before.len() as int, frames.1@.len() - end.len()));
    assert(other =~= frames.1@.subrange(before.len() as int, frames.1@.len() - end.len()));
    assert(frames.2@ =~= before + sent.0 + sent.1 + end);
}

/// A piece of a file is put into bytes exactly where all its headers are set: they stand first, one byte
/// each, direction, operation, codec and whether more follows, then the piece.
pub proof fn law_piece_in_bytes(
    frame: &FileFrame,
    escape: Option<u8>,
    start: Option<Vec<u8>>,
    end: Option<Vec<u8>>,
    framing: Framing,
    bytes: Result<Vec<u8>, FileFrameStatus>,
)
    requires
        framing.start == (if start is Some { Some(start->0@) } else { None }),
        framing.end == (if end is Some { Some(end->0@) } else { None }),
        framing.escape == escape,
        call_ensures(
            <FileFrame as HandleWithDelims>::to_bytes,
            (frame, escape, start, end),
            bytes,
        ),
    ensures
        match (frame.direction, frame.operation, frame.codec, frame.chunking_status) {
            (Some(direction), Some(operation), Some(codec), Some(status)) => bytes is Ok
                && bytes->Ok_0@ == written_delimiter(start) + seq![
                direction.code(),
                operation.code(),
                codec.code(),
                status.code(),
            ] + framing.content_sent(frame.chunks@) + written_delimiter(end),
            _ => bytes == Err::<Vec<u8>, FileFrameStatus>(FileFrameStatus::NotValidFrame),
        },
{
    assert(framing =~= crate::framing::framing_of(start, end, escape));
}

/// A location is put into bytes exactly where both its headers are set: they stand first, one byte each,
/// direction and operation, then as the content the state that is meant and the text.
pub proof fn law_location_in_bytes(
    frame: &SetFrame,
    escape: Option<u8>,
    start: Option<Vec<u8>>,
    end: Option<Vec<u8>>,
    framing: Framing,
    bytes: Result<Vec<u8>, FileFrameStatus>,
)
    requires
        framing.start == (if start is Some { Some(start->0@) } else { None }),
        framing.end == (if end is Some { Some(end->0@) } else { None }),
        framing.escape == escape,
        call_ensures(<SetFrame as HandleWithDelims>::to_bytes, (frame, escape, start, end), bytes),
    ensures
        match (frame.direction, frame.operation) {
            (Some(direction), Some(operation)) => bytes is Ok && bytes->Ok_0@ == written_delimiter(
                start,
            ) + seq![direction.code(), operation.code()] + framing.content_sent(
                seq![frame.state_id] + frame.chunks@,
            ) + written_delimiter(end),
            _ => bytes == Err::<Vec<u8>, FileFrameStatus>(FileFrameStatus::NotValidFrame),
        },
{
    assert(framing =~= crate::framing::framing_of(start, end, escape));
}

/// The end of a file is put into bytes exactly where both its headers are set, and then is those two
/// bytes, direction and operation, between the delimiters.
pub proof fn law_end_in_bytes(
    frame: &EofFrame,
    escape: Option<u8>,
    start: Option<Vec<u8>>,
    end: Option<Vec<u8>>,
    bytes: Result<Vec<u8>, FileFrameStatus>,
)
    requires
        call_ensures(<EofFrame as HandleWithDelims>::to_bytes, (frame, escape, start, end), bytes),
    ensures
        match (frame.direction, frame.operation) {
            (Some(direction), Some(operation)) => bytes is Ok && bytes->Ok_0@ == written_delimiter(
                start,
            ) + seq![direction.code(), operation.code()] + written_delimiter(end),
            _ => bytes == Err::<Vec<u8>, FileFrameStatus>(FileFrameStatus::NotValidFrame),
        },
{
    let framing = crate::framing::framing_of(start, end, escape);
    assert(framing.content_sent(Seq::empty()) =~= Seq::empty());
}

/// Bytes are read as a piece of a file exactly where they begin with the codes of a direction, of a move,
/// of a codec and of whether more follows; all the bytes behind them are the piece. Where the second is
/// the code of another operation they are no such frame, and otherwise none at all.
pub proof fn law_piece_from_bytes(bytes: Vec<u8>, decoded: Result<FileFrame, FileFrameStatus>)
    requires
        call_ensures(<FileFrame as FrameCommons>::decode, (bytes,), decoded),
    ensures
        ({
            let known = bytes@.len() >= 2 && bytes@[0] <= 2 && bytes@[1] <= 4;
            &&& decoded is Ok <==> known && bytes@[1] == 0 && bytes@.len() >= 4 && bytes@[2] <= 4
                && bytes@[2] != 3 && bytes@[3] <= 1
            &&& decoded == Err::<FileFrame, FileFrameStatus>(FileFrameStatus::NotCorrectFrame)
                <==> known && bytes@[1] != 0
            &&& decoded is Err ==> decoded->Err_0 == FileFrameStatus::NotCorrectFrame
                || decoded->Err_0 == FileFrameStatus::NotValidFrame
        }),
        decoded matches Ok(frame) ==> {
            &&& frame.direction matches Some(direction) && direction.code() == bytes@[0]
            &&& frame.operation == Some(Operation::Move)
            &&& frame.codec matches Some(codec) && codec.code() == bytes@[2]
            &&& frame.chunking_status matches Some(status) && status.code() == bytes@[3]
            &&& frame.chunks@.len() == bytes@.len() - 4
            &&& forall|i: int| 0 <= i < frame.chunks@.len() ==> frame.chunks@[i] == bytes@[i + 4]
        },
{
}

/// Bytes are read as a location exactly where they begin with the codes of a direction and of setting a
/// location and a third byte, the state that is meant; all the bytes behind it are the text. Where the
/// second is the code of another operation they are no such frame, and otherwise none at all.
pub proof fn law_location_from_bytes(bytes: Vec<u8>, decoded: Result<SetFrame, FileFrameStatus>)
    requires
        call_ensures(<SetFrame as FrameCommons>::decode, (bytes,), decoded),
    ensures
        ({
            let known = bytes@.len() >= 2 && bytes@[0] <= 2 && bytes@[1] <= 4;
            &&& decoded is Ok <==> known && bytes@[1] == 1 && bytes@.len() >= 3
            &&& decoded == Err::<SetFrame, FileFrameStatus>(FileFrameStatus::NotCorrectFrame)
                <==> known && bytes@[1] != 1
            &&& decoded is Err ==> decoded->Err_0 == FileFrameStatus::NotCorrectFrame
                || decoded->Err_0 == FileFrameStatus::NotValidFrame
        }),
        decoded matches Ok(frame) ==> {
            &&& frame.direction matches Some(direction) && direction.code() == bytes@[0]
            &&& frame.operation == Some(Operation::SetLocation)
            &&& frame.state_id == bytes@[2]
            &&& frame.chunks@.len() == bytes@.len() - 3
            &&& forall|i: int| 0 <= i < frame.chunks@.len() ==> frame.chunks@[i] == bytes@[i + 3]
        },
{
}

/// Bytes are read as the end of a file exactly where they begin with the codes of a direction and of an
/// end, whatever stands behind them. Where the second is the code of another operation they are no such
/// frame, and otherwise none at all.
pub proof fn law_end_from_bytes(bytes: Vec<u8>, decoded: Result<EofFrame, FileFrameStatus>)
    requires
        call_ensures(<EofFrame as FrameCommons>::decode, (bytes,), decoded),
    ensures
        ({
            let known = bytes@.len() >= 2 && bytes@[0] <= 2 && bytes@[1] <= 4;
            &&& decoded is Ok <==> known && bytes@[1] == 3
            &&& decoded == Err::<EofFrame, FileFrameStatus>(FileFrameStatus::NotCorrectFrame)
                <==> known && bytes@[1] != 3
            &&& decoded is Err ==> decoded->Err_0 == FileFrameStatus::NotCorrectFrame
                || decoded->Err_0 == FileFrameStatus::NotValidFrame
        }),
        decoded matches Ok(frame) ==> {
            &&& frame.direction matches Some(direction) && direction.code() == bytes@[0]
            &&& frame.operation == Some(Operation::Eof)
        },
{
}

/// What a frame without delimiters is put into is read back as the frame, of each kind.
pub proof fn law_frames_are_read_back(
    frames: (&FileFrame, &SetFrame, &EofFrame),
    bytes: (Vec<u8>, Vec<u8>, Vec<u8>),
    read: (
        Result<FileFrame, FileFrameStatus>,
        Result<SetFrame, FileFrameStatus>,
        Result<EofFrame, FileFrameStatus>,
    ),
)
    requires
        call_ensures(
            <FileFrame as HandleWithDelims>::to_bytes,
            (frames.0, None, None, None),
            Ok(bytes.0),
        ),
        call_ensures(
            <SetFrame as HandleWithDelims>::to_bytes,
            (frames.1, None, None, None),
            Ok(bytes.1),
        ),
        call_ensures(
            <EofFrame as HandleWithDelims>::to_bytes,
            (frames.2, None, None, None),
            Ok(bytes.2),
        ),
        frames.0.operation == Some(Operation::Move),
        frames.1.operation == Some(Operation::SetLocation),
        frames.2.operation == Some(Operation::Eof),
        call_ensures(<FileFrame as FrameCommons>::decode, (bytes.0,), read.0),
        call_ensures(<SetFrame as FrameCommons>::decode, (bytes.1,), read.1),
        call_ensures(<EofFrame as FrameCommons>::decode, (bytes.2,), read.2),
    ensures
        read.0 matches Ok(frame) && frame.direction == frames.0.direction && frame.operation
            == frames.0.operation && frame.codec == frames.0.codec && frame.chunking_status
            == frames.0.chunking_status && frame.chunks@ == frames.0.chunks@,
        read.1 matches Ok(frame) && frame.direction == frames.1.direction && frame.operation
            == frames.1.operation && frame.state_id == frames.1.state_id && frame.chunks@
            == frames.1.chunks@,
        read.2 matches Ok(frame) && frame == *frames.2,
{
    let framing = Framing { start: None, end: None, escape: None };
    law_piece_in_bytes(frames.0, None, None, None, framing, Ok(bytes.0));
    law_location_in_bytes(frames.1, None, None, None, framing, Ok(bytes.1));
    law_end_in_bytes(frames.2, None, None, None, Ok(bytes.2));
    assert(read.0->Ok_0.chunks@ =~= frames.0.chunks@);
    assert(read.1->Ok_0.chunks@ =~= frames.1.chunks@);
}

/// A new frame holds what it was made of, a default one nothing, and a copy what the copied one holds.
pub proof fn law_pieces_are_made(
    direction: Direction,
    operation: Operation,
    codec: Codec,
    status: ChunkingStatus,
    made: FileFrame,
    bare: FileFrame,
    other: &FileFrame,
    copy: FileFrame,
)
    requires
        call_ensures(FileFrame::new, (direction, operation, codec, status), made),
        call_ensures(FileFrame::default, (), bare),
        call_ensures(<FileFrame as Clone>::clone, (other,), copy),
    ensures
        made.direction == Some(direction) && made.operation == Some(operation),
        made.codec == Some(codec) && made.chunking_status == Some(status),
        made.chunks@.len() == 0 && bare.chunks@.len() == 0,
        bare.direction is None && bare.operation is None && bare.codec is None
            && bare.chunking_status is None,
        copy.direction == other.direction && copy.operation == other.operation && copy.codec
            == other.codec && copy.chunking_status == other.chunking_status,
        copy.chunks@ == other.chunks@,
{
}

/// Bytes that are added to a piece stand behind those that it has, and flushing leaves none; the headers
/// stay.
pub proof fn law_pieces_are_filled(frame: &mut FileFrame, bytes: Vec<u8>, emptied: &mut FileFrame)
    requires
        call_ensures(FileFrame::append_bytes_send, (frame, bytes), ()),
        call_ensures(FileFrame::flush, (emptied,), ()),
    ensures
        final(frame).chunks@ == old(frame).chunks@ + bytes@,
        final(frame).direction == old(frame).direction
            && final(frame).operation == old(frame).operation
            && final(frame).codec == old(frame).codec && final(frame).chunking_status
            == old(frame).chunking_status,
        final(emptied).chunks@.len() == 0,
        final(emptied).direction == old(emptied).direction
            && final(emptied).operation == old(emptied).operation
            && final(emptied).codec == old(emptied).codec
            && final(emptied).chunking_status == old(emptied).chunking_status,
{
}

/// A new frame that tells a location, and one that tells an end, hold what they were made of; default ones
/// hold nothing, and copies what the copied ones hold.
pub proof fn law_other_frames_are_made(
    direction: Option<Direction>,
    state_id: u8,
    chunks: Vec<u8>,
    location: SetFrame,
    end: EofFrame,
    bare: (SetFrame, EofFrame),
    others: (&SetFrame, &EofFrame),
    copies: (SetFrame, EofFrame),
)
    requires
        call_ensures(SetFrame::new, (direction, state_id, chunks), location),
        call_ensures(EofFrame::new, (direction,), end),
        call_ensures(SetFrame::default, (), bare.0),
        call_ensures(EofFrame::default, (), bare.1),
        call_ensures(<SetFrame as Clone>::clone, (others.0,), copies.0),
        call_ensures(<EofFrame as Clone>::clone, (others.1,), copies.1),
    ensures
        location.direction == direction && location.operation == Some(Operation::SetLocation),
        location.state_id == state_id && location.chunks@ == chunks@,
        end.direction == direction && end.operation == Some(Operation::Eof),
        bare.0.direction is None && bare.0.operation is None && bare.0.state_id == 0
            && bare.0.chunks@.len() == 0,
        bare.1.direction is None && bare.1.operation is None,
        copies.0.direction == others.0.direction && copies.0.operation == others.0.operation,
        copies.0.state_id == others.0.state_id && copies.0.chunks@ == others.0.chunks@,
        copies.1.direction == others.1.direction && copies.1.operation == others.1.operation,
{
}

/// A frame that stands between delimiters is put into the same bytes whether or not it is asked for by the
/// way that it is marked off.
pub proof fn law_delimited_frames_are_marked<T: HandleWithDelims>(
    frame: &T,
    escape: Option<u8>,
    start: Option<Vec<u8>>,
    end: Option<Vec<u8>>,
    marked: Result<Vec<u8>, FileFrameStatus>,
    bytes: Result<Vec<u8>, FileFrameStatus>,
)
    requires
        call_ensures(<T as Handle<WithDelims>>::to_bytes, (frame, escape, start, end), marked),
        call_ensures(<T as HandleWithDelims>::to_bytes, (frame, escape, start, end), bytes),
    ensures
        marked is Ok <==> bytes is Ok,
        marked is Ok ==> marked->Ok_0@ == bytes->Ok_0@,
        marked is Err ==> marked->Err_0 == bytes->Err_0,
{
}

/// A frame that carries its length is put into the same bytes whether or not it is asked for by the way
/// that it is marked off, whatever delimiters are given.
pub proof fn law_measured_frames_are_marked<T: HandleWithLength>(
    frame: &T,
    escape: Option<u8>,
    start: Option<Vec<u8>>,
    end: Option<Vec<u8>>,
    marked: Result<Vec<u8>, FileFrameStatus>,
    bytes: Result<Vec<u8>, FileFrameStatus>,
)
    requires
        call_ensures(<T as Handle<WithLength>>::to_bytes, (frame, escape, start, end), marked),
        call_ensures(<T as HandleWithLength>::to_bytes, (frame,), bytes),
    ensures
        marked is Ok <==> bytes is Ok,
        marked is Ok ==> marked->Ok_0@ == bytes->Ok_0@,
        marked is Err ==> marked->Err_0 == bytes->Err_0,
{
}

} // verus!

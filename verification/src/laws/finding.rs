//! The frames that are found in a stream.
use crate::encoder::{encoders_of, views_of, FrameEncoder};
use crate::endpoints::TcpFsReceiver;
use crate::framing::{collected, first_frame, found, split, FrameHandler, Framing, Parts};
use crate::laws::settings::same_delimiter;
use crate::matching::{find, lemma_find};
use crate::protocol::FileFrameStatus;
use crate::streams::StreamReceiver;
use std::collections::VecDeque;
use vstd::prelude::*;

verus! {

/// `chunks` stands between a starting and an ending delimiter of `stream`: behind the first starting one,
/// and up to the first ending one behind that; `rest` is what is there from the ending one on.
pub open spec fn stands_in(
    chunks: Seq<u8>,
    rest: Seq<u8>,
    start: Seq<u8>,
    end: Seq<u8>,
    stream: Seq<u8>,
) -> bool {
    &&& find(start, stream) matches Some(at) && find(end, chunks + rest) == Some(
        chunks.len() as int,
    ) && stream == stream.take(at) + start + chunks + rest
}

/// No frame is whole in `stream`: no starting delimiter stands there, or no ending one behind the first.
pub open spec fn holds_none(start: Seq<u8>, end: Seq<u8>, stream: Seq<u8>) -> bool {
    match find(start, stream) {
        Some(at) => find(end, stream.skip(at + start.len())) is None,
        None => true,
    }
}

proof fn lemma_stands_in(start: Seq<u8>, end: Seq<u8>, stream: Seq<u8>)
    requires
        !holds_none(start, end, stream),
    ensures
        ({
            let body = stream.skip(find(start, stream)->0 + start.len());
            let at = find(end, body)->0;
            stands_in(body.take(at), body.skip(at), start, end, stream)
        }),
{
    lemma_find(start, stream);
    let from = find(start, stream)->0;
    let body = stream.skip(from + start.len());
    lemma_find(end, body);
    let at = find(end, body)->0;
    assert(body.take(at) + body.skip(at) =~= body);
    assert(stream.subrange(from, from + start.len()) == start);
    assert(stream =~= stream.take(from) + start + body.take(at) + body.skip(at));
}

/// Frames are looked for in order: the first in the stream, and each one after it in what is left behind
/// the one before. None is whole in what is left behind the last. Where there is not even one, no starting
/// delimiter stands in the stream, or no ending one behind the first.
pub proof fn law_split_follows_the_delimiters(framing: Framing, stream: Seq<u8>, i: int)
    requires
        framing.start matches Some(start) && start.len() > 0,
        framing.end matches Some(end) && end.len() > 0,
    ensures
        match split(framing, stream) {
            Ok(frames) => {
                &&& frames.len() > 0
                &&& 0 <= i < frames.len() ==> stands_in(
                    frames[i].0,
                    frames[i].1,
                    framing.start->0,
                    framing.end->0,
                    if i == 0 {
                        stream
                    } else {
                        frames[i - 1].1
                    },
                )
                &&& holds_none(framing.start->0, framing.end->0, frames.last().1)
            },
            Err(status) => {
                &&& holds_none(framing.start->0, framing.end->0, stream)
                &&& status == if find(framing.start->0, stream) is None {
                    FileFrameStatus::FrameNoBegins
                } else {
                    FileFrameStatus::FrameNoEnds
                }
            },
        },
    decreases stream.len(),
{
    let start = framing.start->0;
    let end = framing.end->0;
    lemma_find(start, stream);
    if let Some(from) = find(start, stream) {
        let body = stream.skip(from + start.len());
        lemma_find(end, body);
        if let Some(at) = find(end, body) {
            let rest = body.skip(at);
            assert(rest.len() < stream.len());
            lemma_stands_in(start, end, stream);
            law_split_follows_the_delimiters(framing, rest, i - 1);
            let frames = split(framing, stream)->Ok_0;
            let behind = found(split(framing, rest));
            assert(frames == seq![(body.take(at), rest)] + behind);
            if behind.len() > 0 {
                assert(frames.last() == behind.last());
            }
            if 1 <= i < frames.len() {
                assert(frames[i] == behind[i - 1]);
                if i > 1 {
                    assert(frames[i - 1] == behind[i - 2]);
                }
            }
        }
    }
}

/// Bytes that arrive at an encoder with both delimiters that is not collecting are looked through together
/// with what was left: frame by frame, until none is whole any more. Every frame that is handed out has the
/// encoder's settings and does not collect.
pub proof fn law_frames_are_found(
    encoder: &mut FrameEncoder,
    bytes: &Vec<u8>,
    counter: &mut u64,
    frames: Result<VecDeque<FrameEncoder>, FileFrameStatus>,
    i: int,
)
    requires
        call_ensures(FrameEncoder::append_bytes_recv, (encoder, bytes, counter), frames),
        !old(encoder).collect_buffer,
        old(encoder).starting_delimiter matches Some(start) && start@.len() > 0,
        old(encoder).ending_delimiter matches Some(end) && end@.len() > 0,
    ensures
        ({
            let start = old(encoder).starting_delimiter->0@;
            let end = old(encoder).ending_delimiter->0@;
            let stream = old(encoder).remainder@ + bytes@;
            match frames {
                Ok(held) => {
                    &&& held@.len() > 0
                    &&& 0 <= i < held@.len() ==> {
                        &&& stands_in(
                            held@[i].file_chunks@,
                            held@[i].remainder@,
                            start,
                            end,
                            if i == 0 {
                                stream
                            } else {
                                held@[i - 1].remainder@
                            },
                        )
                        &&& held@[i].starting_delimiter matches Some(own) && own@ == start
                        &&& held@[i].ending_delimiter matches Some(own) && own@ == end
                        &&& held@[i].escape_byte == old(encoder).escape_byte
                        &&& !held@[i].collect_buffer
                    }
                    &&& holds_none(start, end, held@.last().remainder@)
                },
                Err(status) => {
                    &&& holds_none(start, end, stream)
                    &&& status == if find(start, stream) is None {
                        FileFrameStatus::FrameNoBegins
                    } else {
                        FileFrameStatus::FrameNoEnds
                    }
                },
            }
        }),
        *final(counter) == *old(counter),
{
    let framing = old(encoder)@.framing;
    let stream = old(encoder).remainder@ + bytes@;
    law_split_follows_the_delimiters(framing, stream, i);
    if let Ok(held) = frames {
        let parts = split(framing, stream)->Ok_0;
        assert(views_of(held@) == encoders_of(framing, parts));
        assert(views_of(held@).len() == parts.len());
        if 0 <= i < held@.len() {
            assert(views_of(held@)[i] == encoders_of(framing, parts)[i]);
            if i > 0 {
                assert(views_of(held@)[i - 1] == encoders_of(framing, parts)[i - 1]);
            }
        }
        let last = held@.len() - 1;
        assert(views_of(held@)[last] == encoders_of(framing, parts)[last]);
    }
}

/// Where no starting delimiter stands in what is there, no frame begins and the encoder is as it was,
/// whatever its ending delimiter is.
pub proof fn law_nothing_begins_without_a_delimiter(
    encoder: &mut FrameEncoder,
    bytes: &Vec<u8>,
    counter: &mut u64,
    frames: Result<VecDeque<FrameEncoder>, FileFrameStatus>,
)
    requires
        call_ensures(FrameEncoder::append_bytes_recv, (encoder, bytes, counter), frames),
        !old(encoder).collect_buffer,
        old(encoder).starting_delimiter matches Some(start) && find(
            start@,
            old(encoder).remainder@ + bytes@,
        ) is None,
    ensures
        frames == Err::<VecDeque<FrameEncoder>, FileFrameStatus>(FileFrameStatus::FrameNoBegins),
        final(encoder).remainder@ == old(encoder).remainder@,
        final(encoder).file_chunks@ == old(encoder).file_chunks@,
        !final(encoder).collect_buffer,
        same_delimiter(final(encoder).starting_delimiter, old(encoder).starting_delimiter),
        same_delimiter(final(encoder).ending_delimiter, old(encoder).ending_delimiter),
        final(encoder).escape_byte == old(encoder).escape_byte,
{
    assert(final(encoder)@.framing.start == old(encoder)@.framing.start);
    assert(final(encoder)@.framing.end == old(encoder)@.framing.end);
    assert(final(encoder)@.framing.escape == old(encoder)@.framing.escape);
}

/// What an encoder with both delimiters that is not collecting is left with: where no frame begins, what
/// it had. Otherwise it collects, with what
/// stands before the first frame as its remainder, and what stands behind the starting delimiter as the
/// beginning of a frame; of a frame without an end that begins where the stream does, or as far from there
/// as an ending delimiter is long, the length of an ending delimiter is dropped where there is more of it.
pub proof fn law_encoder_collects_after_a_beginning(
    encoder: &mut FrameEncoder,
    bytes: &Vec<u8>,
    counter: &mut u64,
    frames: Result<VecDeque<FrameEncoder>, FileFrameStatus>,
)
    requires
        call_ensures(FrameEncoder::append_bytes_recv, (encoder, bytes, counter), frames),
        !old(encoder).collect_buffer,
        old(encoder).starting_delimiter matches Some(start) && start@.len() > 0,
        old(encoder).ending_delimiter matches Some(end) && end@.len() > 0,
    ensures
        ({
            let start = old(encoder).starting_delimiter->0@;
            let end = old(encoder).ending_delimiter->0@;
            let stream = old(encoder).remainder@ + bytes@;
            match find(start, stream) {
                None => {
                    &&& final(encoder).remainder@ == old(encoder).remainder@
                    &&& final(encoder).file_chunks@ == old(encoder).file_chunks@
                    &&& !final(encoder).collect_buffer
                },
                Some(at) => {
                    let dropped = if frames is Err && (at == 0 || at == end.len()) && stream.len()
                        > at + start.len() + end.len() {
                        end.len() as int
                    } else {
                        0
                    };
                    &&& final(encoder).collect_buffer
                    &&& final(encoder).remainder@ == stream.subrange(0, at)
                    &&& final(encoder).file_chunks@ == stream.subrange(
                        at + start.len(),
                        stream.len() - dropped,
                    )
                },
            }
        }),
        final(encoder).starting_delimiter matches Some(own) && own@ == old(encoder).starting_delimiter->0@,
        final(encoder).ending_delimiter matches Some(own) && own@ == old(encoder).ending_delimiter->0@,
        final(encoder).escape_byte == old(encoder).escape_byte,
{
    let framing = old(encoder)@.framing;
    let start = framing.start->0;
    let end = framing.end->0;
    let stream = old(encoder).remainder@ + bytes@;
    lemma_find(start, stream);
    law_split_follows_the_delimiters(framing, stream, 0);
    assert(final(encoder)@.framing == framing);
    if let Some(at) = find(start, stream) {
        let body = stream.skip(at + start.len());
        assert(final(encoder).remainder@ =~= stream.subrange(0, at));
        if frames is Err && (at == 0 || at == end.len()) && body.len() > end.len() {
            assert(final(encoder).file_chunks@ =~= stream.subrange(
                at + start.len(),
                stream.len() - end.len(),
            ));
        } else {
            assert(final(encoder).file_chunks@ =~= stream.subrange(
                at + start.len(),
                stream.len() as int,
            ));
        }
    }
}

/// With a starting delimiter alone, everything behind it is one frame, and nothing is left.
pub proof fn law_frame_without_an_end_is_found(
    encoder: &mut FrameEncoder,
    bytes: &Vec<u8>,
    counter: &mut u64,
    frames: Result<VecDeque<FrameEncoder>, FileFrameStatus>,
)
    requires
        call_ensures(FrameEncoder::append_bytes_recv, (encoder, bytes, counter), frames),
        !old(encoder).collect_buffer,
        old(encoder).starting_delimiter matches Some(start) && start@.len() > 0,
        old(encoder).ending_delimiter is None,
    ensures
        ({
            let start = old(encoder).starting_delimiter->0@;
            let stream = old(encoder).remainder@ + bytes@;
            match find(start, stream) {
                Some(at) => {
                    &&& frames matches Ok(held) && held@.len() == 1 && held@[0].file_chunks@
                        == stream.skip(at + start.len()) && held@[0].remainder@.len() == 0
                        && held@[0]@.framing == old(encoder)@.framing && !held@[0].collect_buffer
                    &&& final(encoder)@.framing == old(encoder)@.framing
                    &&& final(encoder).collect_buffer
                    &&& final(encoder).remainder@ == stream.take(at)
                    &&& final(encoder).file_chunks@ == stream.skip(at + start.len())
                },
                None => {
                    &&& frames == Err::<VecDeque<FrameEncoder>, FileFrameStatus>(
                        FileFrameStatus::FrameNoBegins,
                    )
                    &&& final(encoder)@ == old(encoder)@
                },
            }
        }),
{
    let framing = old(encoder)@.framing;
    let start = framing.start->0;
    let stream = old(encoder).remainder@ + bytes@;
    lemma_find(start, stream);
    lemma_find(start, Seq::empty());
    assert(split(framing, Seq::empty()) is Err);
    if let Some(at) = find(start, stream) {
        let body = stream.skip(at + start.len());
        let parts = split(framing, stream)->Ok_0;
        assert(parts =~= seq![(body, Seq::<u8>::empty())]);
        assert(views_of(frames->Ok_0@) == encoders_of(framing, parts));
        assert(views_of(frames->Ok_0@).len() == 1);
        assert(views_of(frames->Ok_0@)[0] == encoders_of(framing, parts)[0]);
    }
}

/// An encoder that collects, or has no starting delimiter, takes what it has for the beginning of a frame.
/// That frame ends at the first ending delimiter, or where there is none set with what is there; more
/// frames are looked for behind it. Without the ending delimiter the frame has no end yet, and the encoder
/// stops collecting.
pub proof fn law_frame_is_collected(
    encoder: &mut FrameEncoder,
    bytes: &Vec<u8>,
    counter: &mut u64,
    frames: Result<VecDeque<FrameEncoder>, FileFrameStatus>,
)
    requires
        call_ensures(FrameEncoder::append_bytes_recv, (encoder, bytes, counter), frames),
        old(encoder).collect_buffer || old(encoder).starting_delimiter is None,
    ensures
        ({
            let body = old(encoder).file_chunks@;
            let ended = old(encoder).ending_delimiter is Some;
            let at = if ended {
                find(old(encoder).ending_delimiter->0@, body)
            } else {
                Some(body.len() as int)
            };
            let rest = if ended {
                body.skip(at->0)
            } else {
                old(encoder).remainder@
            };
            &&& !final(encoder).collect_buffer
            &&& match at {
                None => {
                    &&& frames == Err::<VecDeque<FrameEncoder>, FileFrameStatus>(
                        FileFrameStatus::FrameNoEnds,
                    )
                    &&& final(encoder).file_chunks@ == body
                    &&& final(encoder).remainder@ == old(encoder).remainder@
                },
                Some(length) => {
                    &&& final(encoder).file_chunks@ == body.take(length)
                    &&& final(encoder).remainder@ == rest
                    &&& frames matches Ok(held) && held@.len() == 1 + found(
                        split(old(encoder)@.framing, rest),
                    ).len() && held@[0].file_chunks@ == body.take(length) && held@[0].remainder@
                        == rest && forall|k: int|
                        1 <= k < held@.len() ==> (#[trigger] held@[k]).file_chunks@ == found(
                            split(old(encoder)@.framing, rest),
                        )[k - 1].0 && held@[k].remainder@ == found(
                            split(old(encoder)@.framing, rest),
                        )[k - 1].1
                    &&& old(encoder).starting_delimiter is None ==> frames->Ok_0@.len() == 1
                    &&& forall|k: int|
                        0 <= k < frames->Ok_0@.len() ==> {
                            let each = #[trigger] frames->Ok_0@[k];
                            &&& same_delimiter(
                                each.starting_delimiter,
                                old(encoder).starting_delimiter,
                            )
                            &&& same_delimiter(each.ending_delimiter, old(encoder).ending_delimiter)
                            &&& each.escape_byte == old(encoder).escape_byte
                            &&& !each.collect_buffer
                        }
                },
            }
        }),
        same_delimiter(final(encoder).starting_delimiter, old(encoder).starting_delimiter),
        same_delimiter(final(encoder).ending_delimiter, old(encoder).ending_delimiter),
        final(encoder).escape_byte == old(encoder).escape_byte,
{
    let framing = old(encoder)@.framing;
    let body = old(encoder).file_chunks@;
    assert(final(encoder)@.framing.start == framing.start);
    assert(final(encoder)@.framing.end == framing.end);
    assert(final(encoder)@.framing.escape == framing.escape);
    if framing.end is None {
        assert(body.take(body.len() as int) =~= body);
    }
    if let Ok(held) = frames {
        let parts = collected(framing, body, old(encoder).remainder@)->Ok_0;
        assert(views_of(held@) == encoders_of(framing, parts));
        assert(views_of(held@).len() == parts.len());
        assert forall|k: int| 0 <= k < held@.len() implies (#[trigger] held@[k]).file_chunks@
            == parts[k].0 && held@[k].remainder@ == parts[k].1 by {
            assert(views_of(held@)[k] == encoders_of(framing, parts)[k]);
        }
        assert forall|k: int| 0 <= k < held@.len() implies {
            let each = #[trigger] held@[k];
            &&& same_delimiter(each.starting_delimiter, old(encoder).starting_delimiter)
            &&& same_delimiter(each.ending_delimiter, old(encoder).ending_delimiter)
            &&& each.escape_byte == old(encoder).escape_byte
            &&& !each.collect_buffer
        } by {
            assert(views_of(held@)[k] == encoders_of(framing, parts)[k]);
            assert(held@[k]@.framing.start == framing.start);
            assert(held@[k]@.framing.end == framing.end);
            assert(held@[k]@.framing.escape == framing.escape);
        }
    }
}

/// A new encoder has its settings and nothing else, and so has the one that a receiver makes; a default one
/// has no settings either, and a copy has what the copied one has.
pub proof fn law_encoders_are_made(
    receiver: &TcpFsReceiver,
    made: FrameEncoder,
    settings: (Option<Vec<u8>>, Option<Vec<u8>>, Option<u8>),
    set: FrameEncoder,
    bare: FrameEncoder,
    other: &FrameEncoder,
    copy: FrameEncoder,
)
    requires
        call_ensures(TcpFsReceiver::create_frame_handler, (receiver,), made),
        call_ensures(FrameEncoder::new, settings, set),
        call_ensures(<FrameEncoder as Default>::default, (), bare),
        call_ensures(<FrameEncoder as Clone>::clone, (other,), copy),
    ensures
        same_delimiter(made.starting_delimiter, receiver.start_delimiter),
        same_delimiter(made.ending_delimiter, receiver.end_delimiter),
        made.escape_byte == receiver.escape_byte,
        made.file_chunks@.len() == 0 && made.remainder@.len() == 0 && !made.collect_buffer,
        same_delimiter(set.starting_delimiter, settings.0),
        same_delimiter(set.ending_delimiter, settings.1),
        set.escape_byte == settings.2,
        set.file_chunks@.len() == 0 && set.remainder@.len() == 0 && !set.collect_buffer,
        bare.starting_delimiter is None && bare.ending_delimiter is None && bare.escape_byte is None,
        bare.file_chunks@.len() == 0 && bare.remainder@.len() == 0 && !bare.collect_buffer,
        same_delimiter(copy.starting_delimiter, other.starting_delimiter),
        same_delimiter(copy.ending_delimiter, other.ending_delimiter),
        copy.escape_byte == other.escape_byte,
        copy.file_chunks@ == other.file_chunks@ && copy.remainder@ == other.remainder@,
        copy.collect_buffer == other.collect_buffer,
{
    let framing = receiver.framing();
    assert(made@.framing.start == framing.start);
    assert(made@.framing.end == framing.end);
    assert(set@.framing.start == crate::framing::delimiter_bytes(settings.0));
    assert(set@.framing.end == crate::framing::delimiter_bytes(settings.1));
    assert(bare@.framing.start is None && bare@.framing.end is None && bare@.framing.escape is None);
    assert(copy@.framing.start == other@.framing.start);
    assert(copy@.framing.end == other@.framing.end);
}

/// What an encoder has is handed out as it is, and being told what is left of the stream changes nothing
/// else.
pub proof fn law_encoders_hold_what_they_are_given(
    encoder: &mut FrameEncoder,
    chunks: Vec<u8>,
    other: &FrameEncoder,
    held: (Vec<u8>, Vec<u8>),
)
    requires
        call_ensures(FrameEncoder::set_chunks, (encoder, chunks), ()),
        call_ensures(FrameEncoder::get_chunks, (other,), held.0),
        call_ensures(FrameEncoder::get_remainder, (other,), held.1),
    ensures
        final(encoder).remainder@ == chunks@,
        final(encoder).file_chunks@ == old(encoder).file_chunks@,
        final(encoder).collect_buffer == old(encoder).collect_buffer,
        final(encoder).escape_byte == old(encoder).escape_byte,
        same_delimiter(final(encoder).starting_delimiter, old(encoder).starting_delimiter),
        same_delimiter(final(encoder).ending_delimiter, old(encoder).ending_delimiter),
        held.0@ == other.file_chunks@,
        held.1@ == other.remainder@,
{
    assert(final(encoder)@.framing.start == old(encoder)@.framing.start);
    assert(final(encoder)@.framing.end == old(encoder)@.framing.end);
}

/// A receiver can look for frames exactly where it has a delimiter to look for and none that it has to
/// look for is empty: the ending one only has to be looked for where the starting one stands in what is
/// there.
pub proof fn law_receivers_accept(
    receiver: &TcpFsReceiver,
    before: &Vec<u8>,
    bytes: &Vec<u8>,
    can: bool,
)
    requires
        call_ensures(TcpFsReceiver::accepts, (receiver, before, bytes), can),
    ensures
        can == receiver.can_split(before@ + bytes@),
        can == match (receiver.start_delimiter, receiver.end_delimiter) {
            (Some(start), Some(end)) => start@.len() > 0 && (end@.len() > 0 || find(
                start@,
                before@ + bytes@,
            ) is None),
            (Some(start), None) => start@.len() > 0,
            (None, Some(end)) => end@.len() > 0,
            (None, None) => false,
        },
{
    if let Some(end) = receiver.end_delimiter {
        lemma_find(end@, Seq::empty());
    }
}

/// A receiver with both delimiters finds in a stream what stands between them, frame by frame; one with a
/// starting delimiter alone everything behind it; and one with an ending delimiter alone nothing.
pub proof fn law_receivers_find_frames(receiver: &TcpFsReceiver, stream: Seq<u8>, i: int)
    requires
        receiver.start_delimiter matches Some(start) ==> start@.len() > 0,
        receiver.end_delimiter matches Some(end) ==> end@.len() > 0,
    ensures
        match (receiver.start_delimiter, receiver.end_delimiter) {
            (Some(start), Some(end)) => match receiver.splits(stream) {
                Ok(frames) => {
                    &&& frames.len() > 0
                    &&& 0 <= i < frames.len() ==> stands_in(
                        frames[i].0,
                        frames[i].1,
                        start@,
                        end@,
                        if i == 0 {
                            stream
                        } else {
                            frames[i - 1].1
                        },
                    )
                    &&& holds_none(start@, end@, frames.last().1)
                },
                Err(status) => {
                    &&& holds_none(start@, end@, stream)
                    &&& status == if find(start@, stream) is None {
                        FileFrameStatus::FrameNoBegins
                    } else {
                        FileFrameStatus::FrameNoEnds
                    }
                },
            },
            (Some(start), None) => receiver.splits(stream) == match find(start@, stream) {
                Some(at) => Ok::<Seq<Parts>, FileFrameStatus>(
                    seq![(stream.skip(at + start@.len()), Seq::<u8>::empty())],
                ),
                None => Err::<Seq<Parts>, FileFrameStatus>(FileFrameStatus::FrameNoBegins),
            },
            (None, Some(end)) => receiver.splits(stream) == Err::<Seq<Parts>, FileFrameStatus>(
                FileFrameStatus::FrameNoEnds,
            ),
            (None, None) => true,
        },
{
    let framing = receiver.framing();
    match (receiver.start_delimiter, receiver.end_delimiter) {
        (Some(start), Some(end)) => {
            law_split_follows_the_delimiters(framing, stream, i);
        },
        (Some(start), None) => {
            lemma_find(start@, stream);
            lemma_find(start@, Seq::empty());
            if let Some(at) = find(start@, stream) {
                let body = stream.skip(at + start@.len());
                assert(split(framing, Seq::empty()) is Err);
                assert(first_frame(framing, body, Seq::empty()) == Some(
                    (body, Seq::<u8>::empty()),
                ));
                assert(seq![(body, Seq::<u8>::empty())] + Seq::<Parts>::empty() =~= seq![
                    (body, Seq::<u8>::empty()),
                ]);
            }
        },
        (None, Some(end)) => {
            lemma_find(end@, Seq::empty());
        },
        _ => {},
    }
}

} // verus!

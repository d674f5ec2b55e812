//! What holds of frames between the sender and the receiver: how a stream of them is taken apart again,
//! however it is cut on the way, and what escaping does for it.
use crate::framing::{delimiter_or_empty, escaped, found, split, Framing, Parts};
use crate::matching::{
    find, lemma_find, lemma_find_first, lemma_find_in_extension, occurs_at,
};
use crate::protocol::FileFrameStatus;
use crate::receiving::{chunks_of, kept, rest_of};
use vstd::prelude::*;

verus! {

impl Framing {
    /// Both delimiters are set and neither is empty.
    pub open spec fn delimited(self) -> bool {
        &&& self.start is Some && self.start->0.len() > 0
        &&& self.end is Some && self.end->0.len() > 0
    }

    /// A starting delimiter that follows `before` is the first one that there is.
    pub open spec fn starts_after(self, before: Seq<u8>) -> bool {
        find(self.start->0, before + self.start->0) == Some(before.len() as int)
    }

    /// An ending delimiter that follows `payload` is the first one that there is.
    pub open spec fn ends_after(self, payload: Seq<u8>) -> bool {
        find(self.end->0, payload + self.end->0) == Some(payload.len() as int)
    }

    /// A frame around this payload.
    pub open spec fn frame(self, payload: Seq<u8>) -> Seq<u8> {
        delimiter_or_empty(self.start) + payload + delimiter_or_empty(self.end)
    }

    /// Frames around these payloads, one behind the other.
    pub open spec fn frames(self, payloads: Seq<Seq<u8>>) -> Seq<u8>
        decreases payloads.len(),
    {
        if payloads.len() == 0 {
            Seq::empty()
        } else {
            self.frame(payloads[0]) + self.frames(payloads.drop_first())
        }
    }
}

/// Frames one behind the other are the frames, joined.
pub proof fn lemma_frames_joined(framing: Framing, payloads: Seq<Seq<u8>>, framed: Seq<Seq<u8>>)
    requires
        framed.len() == payloads.len(),
        forall|i: int|
            0 <= i < payloads.len() ==> #[trigger] framed[i] == framing.frame(payloads[i]),
    ensures
        framing.frames(payloads) == framed.flatten(),
    decreases payloads.len(),
{
    if payloads.len() > 0 {
        lemma_frames_joined(framing, payloads.drop_first(), framed.drop_first());
    }
}

/// What is left of a stream when its frames have been acted upon.
pub open spec fn left_over(framing: Framing, stream: Seq<u8>) -> Seq<u8> {
    kept(split(framing, stream), stream) + rest_of(found(split(framing, stream)))
}

/// The first frame of a stream is found behind anything that holds no starting delimiter.
proof fn lemma_first_frame_found(framing: Framing, before: Seq<u8>, payload: Seq<u8>, more: Seq<u8>)
    requires
        framing.delimited(),
        framing.starts_after(before),
        framing.ends_after(payload),
    ensures
        ({
            let rest = framing.end->0 + more;
            split(framing, before + framing.frame(payload) + more) == Ok::<
                Seq<Parts>,
                FileFrameStatus,
            >(seq![(payload, rest)] + found(split(framing, rest)))
        }),
{
    let start = framing.start->0;
    let end = framing.end->0;
    let stream = before + framing.frame(payload) + more;
    let rest = end + more;
    lemma_find_in_extension(start, before + start, payload + rest);
    assert((before + start) + (payload + rest) =~= stream);
    let body = stream.skip((before.len() + start.len()) as int);
    assert(body =~= (payload + end) + more);
    lemma_find_in_extension(end, payload + end, more);
    assert(body.take(payload.len() as int) =~= payload);
    assert(body.skip(payload.len() as int) =~= rest);
}

/// What holds no starting delimiter holds no frame.
proof fn lemma_no_frame(framing: Framing, before: Seq<u8>)
    requires
        framing.delimited(),
        framing.starts_after(before),
    ensures
        split(framing, before) == Err::<Seq<Parts>, FileFrameStatus>(FileFrameStatus::FrameNoBegins),
{
    let start = framing.start->0;
    if let Some(at) = find(start, before) {
        lemma_find(start, before);
        lemma_find_in_extension(start, before, start);
    }
}

/// A frame is found whole and alone in the bytes that it was sent as, and its ending delimiter is
/// what is left of them.
pub proof fn law_frame_arrives(framing: Framing, headers: Seq<u8>, content: Seq<u8>)
    requires
        framing.delimited(),
        framing.ends_after(framing.payload(headers, content)),
    ensures
        split(framing, framing.encoded(headers, content)) == Ok::<Seq<Parts>, FileFrameStatus>(
            seq![(framing.payload(headers, content), framing.end->0)],
        ),
{
    let start = framing.start->0;
    let end = framing.end->0;
    let payload = framing.payload(headers, content);
    let nothing = Seq::<u8>::empty();
    assert(start.subrange(0, start.len() as int) =~= start);
    assert(nothing + start =~= start);
    assert(occurs_at(start, start, 0));
    lemma_find_first(start, start, 0);
    lemma_first_frame_found(framing, nothing, payload, nothing);
    assert(nothing + framing.frame(payload) + nothing =~= framing.encoded(headers, content));
    assert(end + nothing =~= end);
    if let Some(at) = find(start, end) {
        lemma_find(start, end);
        let body = end.skip(at + start.len());
        lemma_find(end, body);
    }
    assert(found(split(framing, end)) =~= Seq::empty());
    assert(seq![(payload, end)] + Seq::<Parts>::empty() =~= seq![(payload, end)]);
}

/// Frames that are sent one behind the other are all found, in order, and nothing else is: behind
/// the ending delimiter of an earlier frame, or behind anything that holds no starting delimiter.
pub proof fn law_frames_arrive_in_order(framing: Framing, before: Seq<u8>, payloads: Seq<Seq<u8>>)
    requires
        framing.delimited(),
        framing.starts_after(before),
        framing.starts_after(framing.end->0),
        forall|i: int| 0 <= i < payloads.len() ==> framing.ends_after(#[trigger] payloads[i]),
    ensures
        ({
            let parts = found(split(framing, before + framing.frames(payloads)));
            &&& chunks_of(parts) == payloads
            &&& payloads.len() > 0 ==> rest_of(parts) == framing.end->0
        }),
    decreases payloads.len(),
{
    let stream = before + framing.frames(payloads);
    if payloads.len() == 0 {
        assert(stream =~= before);
        lemma_no_frame(framing, before);
        assert(chunks_of(found(split(framing, stream))) =~= payloads);
    } else {
        let end = framing.end->0;
        let first = payloads[0];
        let others = payloads.drop_first();
        let more = framing.frames(others);
        assert forall|i: int| 0 <= i < others.len() implies framing.ends_after(
            #[trigger] others[i],
        ) by {
            assert(others[i] == payloads[i + 1]);
        }
        assert(stream =~= before + framing.frame(first) + more);
        lemma_first_frame_found(framing, before, first, more);
        law_frames_arrive_in_order(framing, end, others);
        let parts = found(split(framing, stream));
        let behind = found(split(framing, end + more));
        assert(parts =~= seq![(first, end + more)] + behind);
        assert forall|i: int| 0 <= i < payloads.len() implies chunks_of(parts)[i] == payloads[i] by {
            if i > 0 {
                assert(parts[i] == behind[i - 1]);
                assert(chunks_of(behind)[i - 1] == others[i - 1]);
            }
        }
        assert(chunks_of(behind).len() == others.len());
        assert(chunks_of(parts) =~= payloads);
        if others.len() == 0 {
            assert(end + more =~= end);
        } else {
            assert(parts.last() == behind.last());
        }
    }
}

/// Bytes that follow a stream leave the frames that were found in it as they are; what they add is
/// found behind what was left of it.
proof fn lemma_split_extended(framing: Framing, stream: Seq<u8>, more: Seq<u8>)
    requires
        framing.delimited(),
        split(framing, stream) is Ok,
    ensures
        ({
            let parts = split(framing, stream)->Ok_0;
            let extended = split(framing, stream + more);
            let behind = split(framing, rest_of(parts) + more);
            &&& parts.len() > 0
            &&& extended is Ok
            &&& chunks_of(extended->Ok_0) == chunks_of(parts) + chunks_of(found(behind))
            &&& rest_of(extended->Ok_0) == if behind is Ok {
                rest_of(found(behind))
            } else {
                rest_of(parts) + more
            }
            &&& behind is Ok ==> found(behind).len() > 0
        }),
    decreases stream.len(),
{
    let start = framing.start->0;
    let end = framing.end->0;
    lemma_find(start, stream);
    let at = find(start, stream)->0;
    let body = stream.skip(at + start.len());
    lemma_find(end, body);
    let until = find(end, body)->0;
    let first = (body.take(until), body.skip(until));
    let all = stream + more;
    lemma_find_in_extension(start, stream, more);
    assert(all.skip(at + start.len()) =~= body + more);
    lemma_find_in_extension(end, body, more);
    assert((body + more).take(until) =~= first.0);
    assert((body + more).skip(until) =~= first.1 + more);
    let parts = split(framing, stream)->Ok_0;
    let others = found(split(framing, first.1));
    assert(parts =~= seq![first] + others);
    let extended = split(framing, all)->Ok_0;
    let others_extended = found(split(framing, first.1 + more));
    assert(extended =~= seq![(first.0, first.1 + more)] + others_extended);
    if split(framing, first.1) is Ok {
        lemma_split_extended(framing, first.1, more);
        assert(parts.last() == others.last());
        assert(rest_of(parts) == rest_of(others));
        let behind = found(split(framing, rest_of(parts) + more));
        assert(chunks_of(others_extended) == chunks_of(others) + chunks_of(behind));
        assert(chunks_of(extended) =~= chunks_of(parts) + chunks_of(behind)) by {
            assert(chunks_of(others_extended).len() == others_extended.len());
            assert forall|i: int| 0 <= i < extended.len() implies chunks_of(extended)[i] == (
            chunks_of(parts) + chunks_of(behind))[i] by {
                if i > 0 {
                    assert(extended[i] == others_extended[i - 1]);
                    assert(chunks_of(extended)[i] == chunks_of(others_extended)[i - 1]);
                    if i < parts.len() {
                        assert(parts[i] == others[i - 1]);
                    }
                }
            }
        }
        assert(others_extended.len() > 0);
        assert(extended.last() == others_extended.last());
    } else {
        assert(others =~= Seq::empty());
        assert(parts =~= seq![first]);
        assert(chunks_of(extended) =~= chunks_of(parts) + chunks_of(others_extended));
        let behind = split(framing, first.1 + more);
        if behind is Ok {
            assert(others_extended.len() > 0) by {
                let whole = first.1 + more;
                lemma_find(start, whole);
            }
            assert(extended.last() == others_extended.last());
        } else {
            assert(extended =~= seq![(first.0, first.1 + more)]);
        }
    }
}

/// Cutting a stream here loses a frame: `first` is thrown away for want of a starting delimiter, and one
/// begins in it that only `second` makes whole.
pub open spec fn cut_loses(framing: Framing, first: Seq<u8>, second: Seq<u8>) -> bool {
    &&& split(framing, first) == Err::<Seq<Parts>, FileFrameStatus>(FileFrameStatus::FrameNoBegins)
    &&& exists|at: int|
        0 <= at < first.len() && occurs_at(framing.start->0, first + second, at)
}

/// What no starting delimiter begins in can be left out in front of a stream.
proof fn lemma_nothing_in_front(framing: Framing, before: Seq<u8>, stream: Seq<u8>)
    requires
        framing.delimited(),
        forall|at: int|
            0 <= at < before.len() ==> !occurs_at(framing.start->0, before + stream, at),
    ensures
        split(framing, before + stream) == split(framing, stream),
{
    let start = framing.start->0;
    let all = before + stream;
    let shift = before.len() as int;
    assert forall|at: int| 0 <= at implies occurs_at(start, all, at + shift) == occurs_at(
        start,
        stream,
        at,
    ) by {
        if at + start.len() <= stream.len() {
            assert(all.subrange(at + shift, at + shift + start.len()) =~= stream.subrange(
                at,
                at + start.len(),
            ));
        }
    }
    lemma_find(start, stream);
    lemma_find(start, all);
    match find(start, stream) {
        Some(at) => {
            assert(occurs_at(start, all, at + shift));
            assert forall|early: int| 0 <= early < at + shift implies !occurs_at(start, all, early) by {
                if early >= shift {
                    assert(!occurs_at(start, stream, early - shift));
                    assert(occurs_at(start, all, early - shift + shift) == occurs_at(
                        start,
                        stream,
                        early - shift,
                    ));
                }
            }
            lemma_find_first(start, all, at + shift);
            assert(all.skip(at + shift + start.len()) =~= stream.skip(at + start.len()));
        },
        None => {
            if let Some(at) = find(start, all) {
                assert(occurs_at(start, all, at - shift + shift) == occurs_at(
                    start,
                    stream,
                    at - shift,
                ));
            }
        },
    }
}

/// It does not matter where a stream is cut when it arrives, as long as no starting delimiter begins in
/// a part that is thrown away for want of one: the frames of `first`, and then those of what it left
/// and `second`, are the frames of both together. What is left in the end is the same as well, unless
/// what comes last is thrown away; and where `first` was thrown away, unless its bytes are kept in
/// front of a frame that has not ended.
pub proof fn law_stream_can_be_cut(framing: Framing, first: Seq<u8>, second: Seq<u8>)
    requires
        framing.delimited(),
        !cut_loses(framing, first, second),
    ensures
        ({
            let all = found(split(framing, first + second));
            let before = split(framing, first);
            let joined = left_over(framing, first) + second;
            let after = split(framing, joined);
            let thrown = Err::<Seq<Parts>, FileFrameStatus>(FileFrameStatus::FrameNoBegins);
            &&& chunks_of(all) == chunks_of(found(before)) + chunks_of(found(after))
            &&& after is Ok || (after != thrown && before != thrown) ==> left_over(
                framing,
                first + second,
            ) == left_over(framing, joined)
        }),
{
    let thrown = Err::<Seq<Parts>, FileFrameStatus>(FileFrameStatus::FrameNoBegins);
    if split(framing, first) == thrown {
        lemma_nothing_in_front(framing, first, second);
        assert(left_over(framing, first) =~= Seq::empty());
        assert(left_over(framing, first) + second =~= second);
        let all = chunks_of(found(split(framing, first + second)));
        assert(chunks_of(found(split(framing, first))) =~= Seq::empty());
        assert(Seq::<Seq<u8>>::empty() + all =~= all);
    } else if split(framing, first) is Ok {
        let parts = split(framing, first)->Ok_0;
        lemma_split_extended(framing, first, second);
        assert(left_over(framing, first) =~= rest_of(parts));
        let joined = rest_of(parts) + second;
        let behind = split(framing, joined);
        assert(left_over(framing, first + second) =~= rest_of(
            split(framing, first + second)->Ok_0,
        ));
        if behind is Ok {
            assert(left_over(framing, joined) =~= rest_of(found(behind)));
        } else if behind == Err::<Seq<Parts>, FileFrameStatus>(FileFrameStatus::FrameNoEnds) {
            assert(left_over(framing, joined) =~= joined);
        } else {
            assert(behind == Err::<Seq<Parts>, FileFrameStatus>(FileFrameStatus::FrameNoBegins));
        }
    } else {
        assert(left_over(framing, first) =~= first);
        let all = chunks_of(found(split(framing, first + second)));
        assert(chunks_of(found(split(framing, first))) =~= Seq::empty());
        assert(Seq::<Seq<u8>>::empty() + all =~= all);
    }
}

/// The frames that are found as these fragments of a stream arrive, one after the other, when `before`
/// was left of what arrived earlier.
pub open spec fn arriving(framing: Framing, before: Seq<u8>, fragments: Seq<Seq<u8>>) -> Seq<Seq<u8>>
    decreases fragments.len(),
{
    if fragments.len() == 0 {
        Seq::empty()
    } else {
        let stream = before + fragments[0];
        chunks_of(found(split(framing, stream))) + arriving(
            framing,
            left_over(framing, stream),
            fragments.drop_first(),
        )
    }
}

/// What is left when these fragments of a stream have arrived, one after the other.
pub open spec fn left_after(framing: Framing, before: Seq<u8>, fragments: Seq<Seq<u8>>) -> Seq<u8>
    decreases fragments.len(),
{
    if fragments.len() == 0 {
        before
    } else {
        left_after(framing, left_over(framing, before + fragments[0]), fragments.drop_first())
    }
}

/// No starting delimiter begins in a fragment that is thrown away for want of one.
pub open spec fn none_lost(framing: Framing, before: Seq<u8>, fragments: Seq<Seq<u8>>) -> bool
    decreases fragments.len(),
{
    fragments.len() <= 1 || {
        let stream = before + fragments[0];
        &&& !cut_loses(framing, stream, fragments.drop_first().flatten())
        &&& none_lost(framing, left_over(framing, stream), fragments.drop_first())
    }
}

/// Cutting a stream into any number of fragments changes nothing about the frames that are found in
/// it, as long as no starting delimiter is lost.
proof fn lemma_fragments_arrive(framing: Framing, before: Seq<u8>, fragments: Seq<Seq<u8>>)
    requires
        framing.delimited(),
        fragments.len() > 0,
        none_lost(framing, before, fragments),
    ensures
        arriving(framing, before, fragments) == chunks_of(
            found(split(framing, before + fragments.flatten())),
        ),
    decreases fragments.len(),
{
    let first = fragments[0];
    let others = fragments.drop_first();
    let stream = before + first;
    assert(fragments.flatten() == first + others.flatten());
    if others.len() == 0 {
        assert(others =~= Seq::empty());
        assert(others.flatten() =~= Seq::empty());
        assert(before + fragments.flatten() =~= stream);
        assert(arriving(framing, left_over(framing, stream), others) =~= Seq::empty());
        assert(chunks_of(found(split(framing, stream))) + Seq::<Seq<u8>>::empty() =~= chunks_of(
            found(split(framing, stream)),
        ));
    } else {
        law_stream_can_be_cut(framing, stream, others.flatten());
        assert(before + fragments.flatten() =~= stream + others.flatten());
        lemma_fragments_arrive(framing, left_over(framing, stream), others);
    }
}

/// Frames that are sent one behind the other are found, all of them and in order, whatever fragments
/// they arrive in, as long as no starting delimiter is lost.
pub proof fn law_frames_arrive_in_fragments(
    framing: Framing,
    before: Seq<u8>,
    payloads: Seq<Seq<u8>>,
    fragments: Seq<Seq<u8>>,
)
    requires
        framing.delimited(),
        framing.starts_after(before),
        framing.starts_after(framing.end->0),
        forall|i: int| 0 <= i < payloads.len() ==> framing.ends_after(#[trigger] payloads[i]),
        fragments.flatten() == framing.frames(payloads),
        none_lost(framing, before, fragments),
    ensures
        arriving(framing, before, fragments) == payloads,
{
    if fragments.len() == 0 {
        assert(fragments =~= Seq::empty());
        assert(fragments.flatten() =~= Seq::empty());
        if payloads.len() > 0 {
            assert(framing.frames(payloads).len() > 0);
        }
        assert(payloads =~= Seq::empty());
    } else {
        lemma_fragments_arrive(framing, before, fragments);
        law_frames_arrive_in_order(framing, before, payloads);
    }
}

/// Escaping loses nothing: different contents are sent as different bytes.
pub proof fn law_escaping_loses_nothing(
    one: Seq<u8>,
    other: Seq<u8>,
    starting: u8,
    ending: u8,
    escape: u8,
)
    requires
        escaped(one, starting, ending, escape) == escaped(other, starting, ending, escape),
    ensures
        one == other,
    decreases one.len(),
{
    let bytes = escaped(one, starting, ending, escape);
    if one.len() > 0 && other.len() > 0 {
        let byte = one.last();
        assert(bytes.last() == byte);
        assert(bytes.last() == other.last());
        let one_before = escaped(one.drop_last(), starting, ending, escape);
        let other_before = escaped(other.drop_last(), starting, ending, escape);
        if byte == starting || byte == ending {
            assert(bytes.drop_last().drop_last() =~= one_before);
            assert(bytes.drop_last().drop_last() =~= other_before);
        } else {
            assert(bytes.drop_last() =~= one_before);
            assert(bytes.drop_last() =~= other_before);
        }
        law_escaping_loses_nothing(one.drop_last(), other.drop_last(), starting, ending, escape);
        assert(one =~= one.drop_last().push(byte));
        assert(other =~= other.drop_last().push(byte));
    } else if one.len() > 0 {
        assert(bytes.last() == one.last());
        assert(bytes.len() > 0);
    } else if other.len() > 0 {
        assert(escaped(other, starting, ending, escape).len() > 0);
    } else {
        assert(one =~= other);
    }
}

/// Escaping one content behind another escapes each.
proof fn lemma_escaped_joined(
    one: Seq<u8>,
    other: Seq<u8>,
    starting: u8,
    ending: u8,
    escape: u8,
)
    ensures
        escaped(one + other, starting, ending, escape) == escaped(one, starting, ending, escape)
            + escaped(other, starting, ending, escape),
    decreases other.len(),
{
    let all = one + other;
    if other.len() == 0 {
        assert(all =~= one);
        assert(escaped(one, starting, ending, escape) + Seq::<u8>::empty() =~= escaped(
            one,
            starting,
            ending,
            escape,
        ));
    } else {
        assert(all.drop_last() =~= one + other.drop_last());
        lemma_escaped_joined(one, other.drop_last(), starting, ending, escape);
        assert(escaped(all, starting, ending, escape) =~= escaped(one, starting, ending, escape)
            + escaped(other, starting, ending, escape));
    }
}

/// Content that is sent in parts is sent as the same bytes as the whole of it.
pub proof fn law_parts_are_sent_as_the_whole(framing: Framing, one: Seq<u8>, other: Seq<u8>)
    ensures
        framing.content_sent(one + other) == framing.content_sent(one) + framing.content_sent(other),
{
    if framing.escapes() {
        lemma_escaped_joined(
            one,
            other,
            framing.start->0[0],
            framing.end->0[0],
            framing.escape->0,
        );
    }
}

/// No content is sent as fewer bytes than it has.
pub proof fn lemma_sent_is_no_shorter(framing: Framing, content: Seq<u8>)
    ensures
        framing.content_sent(content).len() >= content.len(),
    decreases content.len(),
{
    if framing.escapes() && content.len() > 0 {
        lemma_sent_is_no_shorter(framing, content.drop_last());
    }
}

/// Content in which neither delimiter could begin is sent as it is.
pub proof fn law_plain_content_is_sent_as_it_is(framing: Framing, content: Seq<u8>)
    requires
        framing.escapes() ==> forall|i: int|
            0 <= i < content.len() ==> #[trigger] content[i] != framing.start->0[0] && content[i]
                != framing.end->0[0],
    ensures
        framing.content_sent(content) == content,
    decreases content.len(),
{
    if framing.escapes() && content.len() > 0 {
        law_plain_content_is_sent_as_it_is(framing, content.drop_last());
        assert(content.last() == content[content.len() - 1]);
        assert(content =~= content.drop_last() + seq![content.last()]);
    } else if framing.escapes() {
        assert(content =~= Seq::empty());
    }
}

/// In escaped content a byte that is escaped stands right behind an escape byte.
proof fn lemma_behind_escape(content: Seq<u8>, starting: u8, ending: u8, escape: u8, at: int)
    requires
        0 <= at < escaped(content, starting, ending, escape).len(),
        ({
            let byte = escaped(content, starting, ending, escape)[at];
            (byte == starting || byte == ending) && byte != escape
        }),
    ensures
        at > 0,
        escaped(content, starting, ending, escape)[at - 1] == escape,
    decreases content.len(),
{
    let before = escaped(content.drop_last(), starting, ending, escape);
    if at < before.len() {
        lemma_behind_escape(content.drop_last(), starting, ending, escape, at);
    }
}

/// The byte at `k` is another than the one before it.
pub open spec fn changes_at(bytes: Seq<u8>, k: int) -> bool {
    0 < k < bytes.len() && bytes[k] != bytes[k - 1]
}

impl Framing {
    /// Escaping breaks up every ending delimiter in the content: the first two bytes of an ending
    /// delimiter are both escaped where they occur, neither is the escape byte, and the delimiter is
    /// not one byte over and over.
    pub open spec fn guards(self) -> bool {
        &&& self.escapes()
        &&& self.delimited()
        &&& self.end->0.len() >= 2
        &&& self.end->0[1] == self.start->0[0] || self.end->0[1] == self.end->0[0]
        &&& self.escape->0 != self.end->0[0]
        &&& self.escape->0 != self.end->0[1]
        &&& exists|k: int| changes_at(self.end->0, k)
    }
}

/// A pattern does not occur where one of its bytes does not stand in its place.
proof fn lemma_differs(pattern: Seq<u8>, bytes: Seq<u8>, at: int, k: int)
    requires
        0 <= k < pattern.len(),
        pattern[k] != bytes[at + k],
    ensures
        !occurs_at(pattern, bytes, at),
{
    if occurs_at(pattern, bytes, at) {
        assert(bytes.subrange(at, at + pattern.len())[k] == bytes[at + k]);
    }
}

/// Where escaping breaks up ending delimiters, none begins in a frame before the one that ends it.
proof fn lemma_no_early_end(framing: Framing, headers: Seq<u8>, content: Seq<u8>, at: int)
    requires
        framing.guards(),
        forall|i: int| 0 <= i < headers.len() ==> #[trigger] headers[i] != framing.end->0[0],
        0 <= at < framing.payload(headers, content).len(),
    ensures
        !occurs_at(framing.end->0, framing.payload(headers, content) + framing.end->0, at),
{
    let starting = framing.start->0[0];
    let end = framing.end->0;
    let escape = framing.escape->0;
    let sent = escaped(content, starting, end[0], escape);
    let payload = headers + sent;
    let bytes = payload + end;
    if at < headers.len() {
        assert(bytes[at + 0] == headers[at]);
        lemma_differs(end, bytes, at, 0);
    } else if at + 1 < payload.len() {
        let inner = at + 1 - headers.len();
        assert(bytes[at + 0] == sent[inner - 1]);
        assert(bytes[at + 1] == sent[inner]);
        if sent[inner] == end[1] {
            lemma_behind_escape(content, starting, end[0], escape, inner);
            lemma_differs(end, bytes, at, 0);
        } else {
            lemma_differs(end, bytes, at, 1);
        }
    } else {
        let k = choose|k: int| changes_at(end, k);
        assert(bytes[at + k] == end[k - 1]);
        lemma_differs(end, bytes, at, k);
    }
}

/// Where escaping breaks up ending delimiters, a frame ends where it was meant to, whatever it
/// carries; only its headers must not hold the byte that an ending delimiter begins with.
pub proof fn law_escaping_guards_the_end(framing: Framing, headers: Seq<u8>, content: Seq<u8>)
    requires
        framing.guards(),
        forall|i: int| 0 <= i < headers.len() ==> #[trigger] headers[i] != framing.end->0[0],
    ensures
        framing.ends_after(framing.payload(headers, content)),
{
    let end = framing.end->0;
    let payload = framing.payload(headers, content);
    let bytes = payload + end;
    let length = payload.len() as int;
    assert(bytes.subrange(length, length + end.len()) =~= end);
    assert forall|at: int| 0 <= at < length implies !occurs_at(end, bytes, at) by {
        lemma_no_early_end(framing, headers, content, at);
    }
    lemma_find_first(end, bytes, length);
}

/// Where escaping breaks up ending delimiters, a frame is found whole and alone in the bytes that it
/// was sent as, whatever it carries.
pub proof fn law_guarded_frame_arrives(framing: Framing, headers: Seq<u8>, content: Seq<u8>)
    requires
        framing.guards(),
        forall|i: int| 0 <= i < headers.len() ==> #[trigger] headers[i] != framing.end->0[0],
    ensures
        split(framing, framing.encoded(headers, content)) == Ok::<Seq<Parts>, FileFrameStatus>(
            seq![(framing.payload(headers, content), framing.end->0)],
        ),
{
    law_escaping_guards_the_end(framing, headers, content);
    law_frame_arrives(framing, headers, content);
}

} // verus!

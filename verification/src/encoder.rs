//! Frames that stand between delimiters: building them and finding them in a stream.
use crate::framing::{
    collected, escaped, first_frame, found, framing_of, parts_of, split, FrameHandler, FrameParts,
    Framing, Parts,
};
use crate::matching::{find, lemma_find, part};
use crate::peek::look_ahead;
use crate::protocol::FileFrameStatus;
use crate::subsequence::{find_subsequence_by_windows_iter, SubsequenceStatus};
use std::collections::VecDeque;
use vstd::prelude::*;

verus! {

/// Builds frames, and holds one that was found together with what is left of the stream after it.
pub struct FrameEncoder {
    pub escape_byte: Option<u8>,
    pub starting_delimiter: Option<Vec<u8>>,
    pub ending_delimiter: Option<Vec<u8>>,
    pub file_chunks: Vec<u8>,
    pub remainder: Vec<u8>,
    /// A starting delimiter has been passed, and `file_chunks` is what came after it.
    pub collect_buffer: bool,
}

/// What a `FrameEncoder` holds.
#[verifier::ext_equal]
pub struct EncoderView {
    pub framing: Framing,
    pub file_chunks: Seq<u8>,
    pub remainder: Seq<u8>,
    pub collect_buffer: bool,
}

impl View for FrameEncoder {
    type V = EncoderView;

    open spec fn view(&self) -> EncoderView {
        EncoderView {
            framing: framing_of(self.starting_delimiter, self.ending_delimiter, self.escape_byte),
            file_chunks: self.file_chunks@,
            remainder: self.remainder@,
            collect_buffer: self.collect_buffer,
        }
    }
}

impl EncoderView {
    /// An encoder that has seen nothing.
    pub open spec fn new(framing: Framing) -> EncoderView {
        EncoderView {
            framing,
            file_chunks: Seq::empty(),
            remainder: Seq::empty(),
            collect_buffer: false,
        }
    }

    /// An encoder that holds a frame.
    pub open spec fn of_frame(framing: Framing, frame: Parts) -> EncoderView {
        EncoderView {
            framing,
            file_chunks: frame.0,
            remainder: frame.1,
            collect_buffer: false,
        }
    }

    /// The encoder takes `file_chunks` for the beginning of a frame, whatever arrives.
    pub open spec fn collects(self) -> bool {
        self.collect_buffer || self.framing.start is None
    }

    /// Every delimiter that the encoder has to look for in `stream` has at least one byte, and there
    /// is one to look for: without either, each frame would be followed by an empty one.
    pub open spec fn can_take(self, stream: Seq<u8>) -> bool {
        if self.collects() {
            match self.framing.end {
                Some(end) => end.len() > 0 && (find(end, self.file_chunks) is Some ==> (
                self.framing.start is Some ==> self.framing.start->0.len() > 0)),
                None => self.framing.start is Some && self.framing.start->0.len() > 0,
            }
        } else {
            &&& self.framing.start->0.len() > 0
            &&& find(self.framing.start->0, stream) is Some ==> (self.framing.end is Some
                ==> self.framing.end->0.len() > 0)
        }
    }

    /// The frames that are found in `stream`.
    pub open spec fn taken(self, stream: Seq<u8>) -> Result<Seq<Parts>, FileFrameStatus> {
        if self.collects() {
            collected(self.framing, self.file_chunks, self.remainder)
        } else {
            split(self.framing, stream)
        }
    }

    /// The encoder after it has looked for frames in `stream`. It then collects, unless it did before
    /// or found no starting delimiter. Of an unfinished frame that stands at the very beginning of the
    /// stream, or as far from it as an ending delimiter is long, it drops the length of an ending
    /// delimiter.
    pub open spec fn after_taking(self, stream: Seq<u8>) -> EncoderView {
        if self.collects() {
            match first_frame(self.framing, self.file_chunks, self.remainder) {
                Some(frame) => EncoderView::of_frame(self.framing, frame),
                None => EncoderView { collect_buffer: false, ..self },
            }
        } else {
            let start = self.framing.start->0;
            match find(start, stream) {
                None => self,
                Some(at) => {
                    let body = stream.skip(at + start.len());
                    EncoderView {
                        framing: self.framing,
                        file_chunks: if first_frame(self.framing, body, Seq::empty()) is None {
                            unfinished(self.framing.end->0, body, at)
                        } else {
                            body
                        },
                        remainder: stream.take(at),
                        collect_buffer: true,
                    }
                },
            }
        }
    }

    /// The encoder can look for frames when `bytes` arrive.
    pub open spec fn can_receive(self, bytes: Seq<u8>) -> bool {
        self.can_take(self.remainder + bytes)
    }

    /// The frames that are found when `bytes` arrive.
    pub open spec fn received(self, bytes: Seq<u8>) -> Result<Seq<Parts>, FileFrameStatus> {
        self.taken(self.remainder + bytes)
    }

    /// The encoder after `bytes` have arrived.
    pub open spec fn after_receiving(self, bytes: Seq<u8>) -> EncoderView {
        self.after_taking(self.remainder + bytes)
    }
}

/// What is kept of a frame that began at `at` and has no ending delimiter yet.
pub open spec fn unfinished(end: Seq<u8>, body: Seq<u8>, at: int) -> Seq<u8> {
    if (at == 0 || at == end.len()) && body.len() > end.len() {
        body.take(body.len() - end.len())
    } else {
        body
    }
}

/// What is held by each of these encoders.
pub open spec fn encoders_of(framing: Framing, frames: Seq<Parts>) -> Seq<EncoderView> {
    Seq::new(frames.len(), |i: int| EncoderView::of_frame(framing, frames[i]))
}

/// What is held by each of these encoders.
pub open spec fn views_of(encoders: Seq<FrameEncoder>) -> Seq<EncoderView> {
    Seq::new(encoders.len(), |i: int| encoders[i]@)
}

/// `encoders` hold the frames that were expected, and nothing else.
pub open spec fn holds(
    encoders: Result<VecDeque<FrameEncoder>, FileFrameStatus>,
    framing: Framing,
    expected: Result<Seq<Parts>, FileFrameStatus>,
) -> bool {
    match encoders {
        Ok(held) => expected is Ok && views_of(held@) == encoders_of(framing, expected->Ok_0),
        Err(status) => expected == Err::<Seq<Parts>, FileFrameStatus>(status),
    }
}

impl Clone for FrameEncoder {
    fn clone(&self) -> (copy: Self)
        ensures
            copy@ == self@,
    {
        FrameEncoder {
            escape_byte: self.escape_byte,
            starting_delimiter: self.starting_delimiter.clone(),
            ending_delimiter: self.ending_delimiter.clone(),
            file_chunks: self.file_chunks.clone(),
            remainder: self.remainder.clone(),
            collect_buffer: self.collect_buffer,
        }
    }
}

impl Default for FrameEncoder {
    fn default() -> (encoder: Self)
        ensures
            encoder@ == EncoderView::new(Framing { start: None, end: None, escape: None }),
    {
        FrameEncoder::new(None, None, None)
    }
}

impl FrameEncoder {
    /// An encoder that has seen nothing.
    pub fn new(
        starting_delimiter: Option<Vec<u8>>,
        ending_delimiter: Option<Vec<u8>>,
        escape_byte: Option<u8>,
    ) -> (encoder: Self)
        ensures
            encoder@ == EncoderView::new(
                framing_of(starting_delimiter, ending_delimiter, escape_byte),
            ),
    {
        FrameEncoder {
            escape_byte,
            starting_delimiter,
            ending_delimiter,
            file_chunks: Vec::new(),
            remainder: Vec::new(),
            collect_buffer: false,
        }
    }

    /// An encoder with the settings of this one that has seen nothing.
    fn fresh(&self) -> (encoder: Self)
        ensures
            encoder@ == EncoderView::new(self@.framing),
    {
        FrameEncoder::new(
            self.starting_delimiter.clone(),
            self.ending_delimiter.clone(),
            self.escape_byte,
        )
    }

    /// Finishes the frame whose beginning is in `file_chunks`, then looks for more behind it.
    fn collect(&mut self) -> (frames: Result<VecDeque<Self>, FileFrameStatus>)
        requires
            old(self)@.collects(),
            old(self)@.can_take(Seq::empty()),
        ensures
            final(self)@ == old(self)@.after_taking(Seq::empty()),
            holds(frames, old(self)@.framing, old(self)@.taken(Seq::empty())),
        decreases
                (if old(self).ending_delimiter is Some {
                    old(self).file_chunks@.len()
                } else {
                    old(self).remainder@.len()
                }),
                3nat,
    {
        self.collect_buffer = false;
        if let Some(end_delimiter) = &self.ending_delimiter {
            match find_subsequence_by_windows_iter(
                end_delimiter.as_slice(),
                look_ahead(self.file_chunks.clone()),
            ) {
                SubsequenceStatus::FoundAt(end_pos) => {
                    proof {
                        lemma_find(end_delimiter@, self.file_chunks@);
                    }
                    self.remainder =
                    part(self.file_chunks.as_slice(), end_pos, self.file_chunks.len());
                    self.file_chunks = part(self.file_chunks.as_slice(), 0, end_pos);
                },
                _ => {
                    return Err(FileFrameStatus::FrameNoEnds);
                },
            }
        }
        let ghost frame = (self.file_chunks@, self.remainder@);
        proof {
            if self.starting_delimiter is None {
                lemma_find(self.ending_delimiter->0@, Seq::empty());
            }
        }
        let mut subframes: VecDeque<FrameEncoder> = VecDeque::new();
        subframes.push_front(self.clone());
        let mut following = self.fresh();
        let ghost framing = self@.framing;
        let ghost behind = split(framing, frame.1);
        assert(following@.taken(frame.1) == behind);
        match following.take(self.remainder.clone()) {
            Ok(frames) => {
                let mut frames = frames;
                let ghost held = views_of(frames@);
                assert(held == encoders_of(framing, found(behind)));
                subframes.append(&mut frames);
                assert forall|i: int| 0 <= i < subframes@.len() implies subframes@[i]@
                    == encoders_of(framing, seq![frame] + found(behind))[i] by {
                    if i > 0 {
                        assert(subframes@[i]@ == held[i - 1]);
                    }
                }
            },
            Err(_) => {},
        }
        assert(views_of(subframes@) =~= encoders_of(framing, seq![frame] + found(behind)));
        Ok(subframes)
    }

    /// Looks for a starting delimiter in `stream`, and for frames from there on.
    fn begin(&mut self, stream: Vec<u8>) -> (frames: Result<VecDeque<Self>, FileFrameStatus>)
        requires
            !old(self)@.collects(),
            old(self)@.can_take(stream@),
        ensures
            final(self)@ == old(self)@.after_taking(stream@),
            holds(frames, old(self)@.framing, old(self)@.taken(stream@)),
        decreases stream@.len(), 1nat,
    {
        let starting_offset: usize;
        let start_length: usize;
        match &self.starting_delimiter {
            Some(starting_delimiter) => {
                match find_subsequence_by_windows_iter(
                    starting_delimiter.as_slice(),
                    look_ahead(stream.clone()),
                ) {
                    SubsequenceStatus::FoundAt(at) => {
                        proof {
                            lemma_find(starting_delimiter@, stream@);
                        }
                        starting_offset = at;
                        start_length = starting_delimiter.len();
                    },
                    _ => {
                        return Err(FileFrameStatus::FrameNoBegins);
                    },
                }
            },
            None => {
                return Err(FileFrameStatus::FrameNoBegins);
            },
        }
        self.remainder = part(stream.as_slice(), 0, starting_offset);
        self.file_chunks = part(stream.as_slice(), starting_offset + start_length, stream.len());
        self.collect_buffer = true;
        let mut collecting = self.fresh();
        collecting.file_chunks = self.file_chunks.clone();
        collecting.collect_buffer = true;
        match collecting.collect() {
            Ok(frames) => Ok(frames),
            Err(_) => {
                if let Some(ending_delimiter) = &self.ending_delimiter {
                    if stream.len() - start_length == self.file_chunks.len() || self.remainder.len()
                        == ending_delimiter.len() {
                        if self.file_chunks.len() > ending_delimiter.len() {
                            let kept = self.file_chunks.len() - ending_delimiter.len();
                            self.file_chunks = part(self.file_chunks.as_slice(), 0, kept);
                        }
                    }
                }
                Err(FileFrameStatus::FrameNoEnds)
            },
        }
    }

    /// Looks for frames in `stream`.
    fn take(&mut self, stream: Vec<u8>) -> (frames: Result<VecDeque<Self>, FileFrameStatus>)
        requires
            old(self)@.can_take(stream@),
        ensures
            final(self)@ == old(self)@.after_taking(stream@),
            holds(frames, old(self)@.framing, old(self)@.taken(stream@)),
        decreases
                (if !old(self)@.collects() {
                    stream@.len()
                } else if old(self).ending_delimiter is Some {
                    old(self).file_chunks@.len()
                } else {
                    old(self).remainder@.len()
                }),
                (if old(self)@.collects() {
                    4nat
                } else {
                    2nat
                }),
    {
        if self.collect_buffer || self.starting_delimiter.is_none() {
            self.collect()
        } else {
            self.begin(stream)
        }
    }
}

impl FrameParts for FrameEncoder {
    open spec fn chunks(&self) -> Seq<u8> {
        self.file_chunks@
    }

    open spec fn rest(&self) -> Seq<u8> {
        self.remainder@
    }
}

impl FrameHandler for FrameEncoder {
    type FrameOutput = FrameEncoder;

    open spec fn can_encode(&self) -> bool {
        self@.framing.can_encode()
    }

    open spec fn encoded(&self, headers: Seq<u8>, content: Seq<u8>) -> Seq<u8> {
        self@.framing.encoded(headers, content)
    }

    open spec fn can_receive(&self, bytes: Seq<u8>) -> bool {
        self@.can_receive(bytes)
    }

    open spec fn received(&self, bytes: Seq<u8>) -> Result<Seq<Parts>, FileFrameStatus> {
        self@.received(bytes)
    }

    open spec fn resumes_from(&self, chunks: Seq<u8>, after: Self) -> bool {
        after@ == (EncoderView { remainder: chunks, ..self@ })
    }

    fn encode_bytes(&self, headers: Vec<u8>, content: Vec<u8>) -> Vec<u8> {
        let mut bytes_frame: Vec<u8> = Vec::new();
        if let Some(starting_delimiter) = &self.starting_delimiter {
            bytes_frame.extend_from_slice(starting_delimiter.as_slice());
        }
        bytes_frame.extend_from_slice(headers.as_slice());
        let ghost before = bytes_frame@;
        assert(before =~= crate::framing::delimiter_or_empty(self@.framing.start) + headers@);
        if let (Some(ending_delims), Some(starting_delims), Some(escape_byte)) = (
            &self.ending_delimiter,
            &self.starting_delimiter,
            self.escape_byte,
        ) {
            let starting_byte_to_escape = starting_delims[0];
            let ending_byte_to_escape = ending_delims[0];
            let mut i: usize = 0;
            assert(content@.take(0) =~= Seq::empty());
            while i < content.len()
                invariant
                    i <= content@.len(),
                    bytes_frame@ == before + escaped(
                        content@.take(i as int),
                        starting_byte_to_escape,
                        ending_byte_to_escape,
                        escape_byte,
                    ),
                decreases content@.len() - i,
            {
                let byte = content[i];
                assert(content@.take(i + 1).drop_last() =~= content@.take(i as int));
                if byte == starting_byte_to_escape || byte == ending_byte_to_escape {
                    bytes_frame.push(escape_byte);
                }
                bytes_frame.push(byte);
                assert(bytes_frame@ =~= before + escaped(
                    content@.take(i + 1),
                    starting_byte_to_escape,
                    ending_byte_to_escape,
                    escape_byte,
                ));
                i += 1;
            }
            assert(content@.take(i as int) =~= content@);
        } else {
            bytes_frame.extend_from_slice(content.as_slice());
        }
        assert(bytes_frame@ =~= before + self@.framing.content_sent(content@));
        if let Some(ending_delimiter) = &self.ending_delimiter {
            bytes_frame.extend_from_slice(ending_delimiter.as_slice());
        }
        assert(bytes_frame@ =~= self@.framing.encoded(headers@, content@));
        bytes_frame
    }

    fn append_bytes_recv(&mut self, bytes: &Vec<u8>, counter: &mut u64) -> (frames: Result<
        VecDeque<Self>,
        FileFrameStatus,
    >)
        ensures
            final(self)@ == old(self)@.after_receiving(bytes@),
            holds(frames, old(self)@.framing, old(self)@.received(bytes@)),
    {
        let mut total_bytes = self.remainder.clone();
        total_bytes.extend_from_slice(bytes.as_slice());
        assert(total_bytes@ =~= self.remainder@ + bytes@);
        let frames = self.take(total_bytes);
        proof {
            if let Ok(encoders) = &frames {
                let expected = old(self)@.received(bytes@)->Ok_0;
                assert(views_of(encoders@).len() == expected.len());
                assert forall|i: int| 0 <= i < expected.len() implies parts_of(encoders@)[i]
                    == expected[i] by {
                    assert(views_of(encoders@)[i] == encoders_of(old(self)@.framing, expected)[i]);
                }
                assert(parts_of(encoders@) =~= expected);
            }
        }
        frames
    }

    fn set_chunks(&mut self, chunks: Vec<u8>) {
        self.remainder = chunks;
    }

    fn get_remainder(&self) -> Vec<u8> {
        self.remainder.clone()
    }

    fn get_chunks(&self) -> Vec<u8> {
        self.file_chunks.clone()
    }
}

} // verus!

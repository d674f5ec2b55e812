//! How messages are marked off from one another in a stream of bytes, and what the types that do so
//! have in common.
use crate::matching::find;
use crate::protocol::FileFrameStatus;
use std::collections::VecDeque;
use vstd::prelude::*;

verus! {

/// What marks a frame off: the bytes before it, the bytes after it, and the byte put in front of
/// content that could be taken for either.
#[verifier::ext_equal]
pub struct Framing {
    pub start: Option<Seq<u8>>,
    pub end: Option<Seq<u8>>,
    pub escape: Option<u8>,
}

/// The bytes of a delimiter, if one is set.
pub open spec fn delimiter_bytes(delimiter: Option<Vec<u8>>) -> Option<Seq<u8>> {
    match delimiter {
        Some(bytes) => Some(bytes@),
        None => None,
    }
}

/// The framing that these settings make.
pub open spec fn framing_of(
    starting_delimiter: Option<Vec<u8>>,
    ending_delimiter: Option<Vec<u8>>,
    escape_byte: Option<u8>,
) -> Framing {
    Framing {
        start: delimiter_bytes(starting_delimiter),
        end: delimiter_bytes(ending_delimiter),
        escape: escape_byte,
    }
}

/// `content` with `escape` in front of each byte that equals one of the two given ones.
pub open spec fn escaped(content: Seq<u8>, starting: u8, ending: u8, escape: u8) -> Seq<u8>
    decreases content.len(),
{
    if content.len() == 0 {
        Seq::empty()
    } else {
        let byte = content.last();
        let before = escaped(content.drop_last(), starting, ending, escape);
        if byte == starting || byte == ending {
            before + seq![escape, byte]
        } else {
            before + seq![byte]
        }
    }
}

/// A delimiter as it stands in the stream: its bytes, or none where it is not set.
pub open spec fn delimiter_or_empty(delimiter: Option<Seq<u8>>) -> Seq<u8> {
    match delimiter {
        Some(bytes) => bytes,
        None => Seq::empty(),
    }
}

impl Framing {
    /// Content is escaped where both delimiters and an escape byte are set.
    pub open spec fn escapes(self) -> bool {
        self.start is Some && self.end is Some && self.escape is Some
    }

    /// The delimiters whose first bytes are escaped have a first byte.
    pub open spec fn can_encode(self) -> bool {
        self.escapes() ==> self.start->0.len() > 0 && self.end->0.len() > 0
    }

    /// The content of a frame as it is sent.
    pub open spec fn content_sent(self, content: Seq<u8>) -> Seq<u8> {
        if self.escapes() {
            escaped(content, self.start->0[0], self.end->0[0], self.escape->0)
        } else {
            content
        }
    }

    /// What stands between the delimiters of a frame.
    pub open spec fn payload(self, headers: Seq<u8>, content: Seq<u8>) -> Seq<u8> {
        headers + self.content_sent(content)
    }

    /// A whole frame as it is sent.
    pub open spec fn encoded(self, headers: Seq<u8>, content: Seq<u8>) -> Seq<u8> {
        delimiter_or_empty(self.start) + self.payload(headers, content) + delimiter_or_empty(self.end)
    }
}

/// A frame found in a stream: what stands between its delimiters, and what is left of the stream
/// from its ending delimiter on.
pub type Parts = (Seq<u8>, Seq<u8>);

/// The first frame of a stream that stands after its starting delimiter. Without an ending
/// delimiter the frame is all of `body`, and `rest` is left.
pub open spec fn first_frame(framing: Framing, body: Seq<u8>, rest: Seq<u8>) -> Option<Parts> {
    match framing.end {
        Some(end) => match find(end, body) {
            Some(at) => Some((body.take(at), body.skip(at))),
            None => None,
        },
        None => Some((body, rest)),
    }
}

/// The frames there are, where failing to find any is finding none.
pub open spec fn found(frames: Result<Seq<Parts>, FileFrameStatus>) -> Seq<Parts> {
    match frames {
        Ok(parts) => parts,
        Err(_) => Seq::empty(),
    }
}

/// The frames that begin in `stream`, in order. There is no frame without a starting delimiter, and
/// no whole first frame without its ending delimiter; an unfinished later frame is left in the rest
/// of the one before it.
pub open spec fn split(framing: Framing, stream: Seq<u8>) -> Result<Seq<Parts>, FileFrameStatus>
    decreases stream.len(),
{
    match framing.start {
        None => Err(FileFrameStatus::FrameNoEnds),
        Some(start) => match find(start, stream) {
            None => Err(FileFrameStatus::FrameNoBegins),
            Some(at) => match first_frame(framing, stream.skip(at + start.len()), Seq::empty()) {
                None => Err(FileFrameStatus::FrameNoEnds),
                Some(frame) => if frame.1.len() < stream.len() {
                    Ok(seq![frame] + found(split(framing, frame.1)))
                } else {
                    Ok(seq![frame])
                },
            },
        },
    }
}

/// The frames of a stream whose first starting delimiter has been passed.
pub open spec fn collected(framing: Framing, body: Seq<u8>, rest: Seq<u8>) -> Result<
    Seq<Parts>,
    FileFrameStatus,
> {
    match first_frame(framing, body, rest) {
        None => Err(FileFrameStatus::FrameNoEnds),
        Some(frame) => Ok(seq![frame] + found(split(framing, frame.1))),
    }
}

/// The two parts that a handler of frames holds.
pub trait FrameParts {
    /// What stands between the delimiters of the frame.
    spec fn chunks(&self) -> Seq<u8>;

    /// What is left of the stream after the frame.
    spec fn rest(&self) -> Seq<u8>;
}

/// The parts of each of these frames.
pub open spec fn parts_of<P: FrameParts>(frames: Seq<P>) -> Seq<Parts> {
    Seq::new(frames.len(), |i: int| (frames[i].chunks(), frames[i].rest()))
}

/// Something that builds frames, and finds them in a stream.
pub trait FrameHandler: FrameParts + Sized {
    type FrameOutput: FrameParts;

    /// The settings of this handler allow it to build frames.
    spec fn can_encode(&self) -> bool;

    /// The frame that this handler builds.
    spec fn encoded(&self, headers: Seq<u8>, content: Seq<u8>) -> Seq<u8>;

    /// The settings of this handler allow it to look for frames in these bytes.
    spec fn can_receive(&self, bytes: Seq<u8>) -> bool;

    /// The frames that this handler finds when these bytes arrive.
    spec fn received(&self, bytes: Seq<u8>) -> Result<Seq<Parts>, FileFrameStatus>;

    /// `after` is this handler with `chunks` in place of what it had left of the stream.
    spec fn resumes_from(&self, chunks: Seq<u8>, after: Self) -> bool;

    /// Builds a frame.
    fn encode_bytes(&self, headers: Vec<u8>, content: Vec<u8>) -> (frame: Vec<u8>)
        requires
            self.can_encode(),
        ensures
            frame@ == self.encoded(headers@, content@),
    ;

    /// Looks for frames in what is left of the stream and `bytes`.
    fn append_bytes_recv(&mut self, bytes: &Vec<u8>, counter: &mut u64) -> (frames: Result<
        VecDeque<Self::FrameOutput>,
        FileFrameStatus,
    >)
        requires
            old(self).can_receive(bytes@),
        ensures
            *final(counter) == *old(counter),
            match frames {
                Ok(found) => old(self).received(bytes@) == Ok::<Seq<Parts>, FileFrameStatus>(
                    parts_of(found@),
                ),
                Err(status) => old(self).received(bytes@) == Err::<Seq<Parts>, FileFrameStatus>(status),
            },
    ;

    /// Sets what is left of the stream.
    fn set_chunks(&mut self, chunks: Vec<u8>)
        ensures
            old(self).resumes_from(chunks@, *final(self)),
    ;

    /// What is left of the stream.
    fn get_remainder(&self) -> (remainder: Vec<u8>)
        ensures
            remainder@ == self.rest(),
    ;

    /// What stands between the delimiters of the frame.
    fn get_chunks(&self) -> (chunks: Vec<u8>)
        ensures
            chunks@ == self.chunks(),
    ;
}

/// `bytes` is what was expected.
pub open spec fn laid_out(
    bytes: Result<Vec<u8>, FileFrameStatus>,
    expected: Result<Seq<u8>, FileFrameStatus>,
) -> bool {
    match bytes {
        Ok(frame) => expected == Ok::<Seq<u8>, FileFrameStatus>(frame@),
        Err(status) => expected == Err::<Seq<u8>, FileFrameStatus>(status),
    }
}

/// Marks frames that carry their length.
pub struct WithLength;

/// Marks frames that stand between delimiters.
pub struct WithDelims;

/// A frame that carries its length.
pub trait HandleWithLength {
    /// The frame can be put into bytes.
    spec fn fits(&self) -> bool;

    /// What the frame comes to.
    spec fn layout(&self) -> Result<Seq<u8>, FileFrameStatus>;

    /// The frame as bytes.
    fn to_bytes(&self) -> (bytes: Result<Vec<u8>, FileFrameStatus>)
        requires
            self.fits(),
        ensures
            laid_out(bytes, self.layout()),
    ;
}

/// A frame that stands between delimiters.
pub trait HandleWithDelims {
    /// The frame can be put into bytes with this framing.
    spec fn fits(&self, framing: Framing) -> bool;

    /// What the frame comes to with this framing.
    spec fn layout(&self, framing: Framing) -> Result<Seq<u8>, FileFrameStatus>;

    /// The frame as bytes.
    fn to_bytes(
        &self,
        escape_byte: Option<u8>,
        starting_delimiter: Option<Vec<u8>>,
        ending_delimiter: Option<Vec<u8>>,
    ) -> (bytes: Result<Vec<u8>, FileFrameStatus>)
        requires
            self.fits(framing_of(starting_delimiter, ending_delimiter, escape_byte)),
        ensures
            laid_out(
                bytes,
                self.layout(framing_of(starting_delimiter, ending_delimiter, escape_byte)),
            ),
    ;
}

/// A frame that can be put into bytes, in the way that `W` marks.
pub trait Handle<W> {
    /// The frame can be put into bytes with this framing.
    spec fn fits(&self, framing: Framing) -> bool;

    /// What the frame comes to with this framing.
    spec fn layout(&self, framing: Framing) -> Result<Seq<u8>, FileFrameStatus>;

    /// The frame as bytes.
    fn to_bytes(
        &self,
        escape_byte: Option<u8>,
        starting_delimiter: Option<Vec<u8>>,
        ending_delimiter: Option<Vec<u8>>,
    ) -> (bytes: Result<Vec<u8>, FileFrameStatus>)
        requires
            self.fits(framing_of(starting_delimiter, ending_delimiter, escape_byte)),
        ensures
            laid_out(
                bytes,
                self.layout(framing_of(starting_delimiter, ending_delimiter, escape_byte)),
            ),
    ;
}

impl<T: HandleWithLength> Handle<WithLength> for T {
    open spec fn fits(&self, framing: Framing) -> bool {
        HandleWithLength::fits(self)
    }

    open spec fn layout(&self, framing: Framing) -> Result<Seq<u8>, FileFrameStatus> {
        HandleWithLength::layout(self)
    }

    fn to_bytes(
        &self,
        escape_byte: Option<u8>,
        starting_delimiter: Option<Vec<u8>>,
        ending_delimiter: Option<Vec<u8>>,
    ) -> Result<Vec<u8>, FileFrameStatus> {
        HandleWithLength::to_bytes(self)
    }
}

impl<T: HandleWithDelims> Handle<WithDelims> for T {
    open spec fn fits(&self, framing: Framing) -> bool {
        HandleWithDelims::fits(self, framing)
    }

    open spec fn layout(&self, framing: Framing) -> Result<Seq<u8>, FileFrameStatus> {
        HandleWithDelims::layout(self, framing)
    }

    fn to_bytes(
        &self,
        escape_byte: Option<u8>,
        starting_delimiter: Option<Vec<u8>>,
        ending_delimiter: Option<Vec<u8>>,
    ) -> Result<Vec<u8>, FileFrameStatus> {
        HandleWithDelims::to_bytes(self, escape_byte, starting_delimiter, ending_delimiter)
    }
}

/// All that the bytes of a frame depend on besides the framing.
pub struct FrameLayout {
    pub fits: spec_fn(Framing) -> bool,
    pub layout: spec_fn(Framing) -> Result<Seq<u8>, FileFrameStatus>,
}

/// How a frame is put into bytes, whatever the framing.
pub open spec fn layout_of<S: Handle<W>, W>(frame: S) -> FrameLayout {
    FrameLayout {
        fits: |framing: Framing| frame.fits(framing),
        layout: |framing: Framing| frame.layout(framing),
    }
}

} // verus!

//! What a filesystem needs of the streams that it reads from and writes to.
use crate::framing::{laid_out, layout_of, FrameHandler, FrameLayout, Handle, Parts};
use crate::protocol::FileFrameStatus;
use vstd::prelude::*;

verus! {

/// A stream that frames come from.
pub trait StreamReceiver {
    type FrameOutput: FrameHandler<FrameOutput = Self::FrameOutput>;

    /// The settings of this stream allow it to look for frames in these bytes.
    spec fn can_split(&self, stream: Seq<u8>) -> bool;

    /// The frames that begin in these bytes.
    spec fn splits(&self, stream: Seq<u8>) -> Result<Seq<Parts>, FileFrameStatus>;

    /// A handler that finds the frames of this stream, once it has been told that nothing is left of
    /// earlier bytes.
    fn create_frame_handler(&self) -> (handler: Self::FrameOutput)
        ensures
            forall|after: Self::FrameOutput, stream: Seq<u8>|
                #![trigger handler.resumes_from(Seq::empty(), after), after.received(stream)]
                #![trigger handler.resumes_from(Seq::empty(), after), after.can_receive(stream)]
                handler.resumes_from(Seq::empty(), after) ==> after.can_receive(stream)
                    == self.can_split(stream) && after.received(stream) == self.splits(stream),
    ;
}

/// A stream that frames are sent to.
pub trait StreamSender {
    /// The settings of this stream allow it to put such a frame into bytes.
    spec fn can_encode_frame(&self, layout: FrameLayout) -> bool;

    /// What such a frame comes to in this stream.
    spec fn encoded_frame(&self, layout: FrameLayout) -> Result<Seq<u8>, FileFrameStatus>;

    /// Puts a frame into bytes.
    fn encode_frame<S: Handle<W>, W>(&self, frame: S) -> (bytes: Result<Vec<u8>, FileFrameStatus>)
        requires
            self.can_encode_frame(layout_of::<S, W>(frame)),
        ensures
            laid_out(bytes, self.encoded_frame(layout_of::<S, W>(frame))),
    ;
}

/// A file to be sent.
pub trait FileSender {
    /// Where the receiver is to write the file.
    spec fn location(&self) -> Seq<char>;

    /// Where the receiver is to write the file.
    fn get_location(&self) -> (location: String)
        ensures
            location@ == self.location(),
    ;
}

} // verus!

//! The two ends of a connection whose frames stand between delimiters, and a file that is fed
//! through a channel.
use crate::channels::{bounded_channel, byte_channel, unbounded_channel};
use crate::encoder::{EncoderView, FrameEncoder};
use crate::filesystem::RemoteFileSystem;
use crate::framing::{framing_of, FrameLayout, Framing, Handle, Parts};
use crate::matching::lemma_find;
use crate::peek::look_ahead;
use crate::protocol::{Codec, FileFrameStatus, FileStreamError, Operation, TransportRecvError};
use crate::streams::{FileSender, StreamReceiver, StreamSender};
use crate::subsequence::{find_subsequence_by_windows_iter, SubsequenceStatus};
use crate::transfer::{file_layout, piece_frame, pieces, Stage, Transfer, TransferEvent};
use vstd::prelude::*;

verus! {

broadcast use vstd::std_specs::hash::group_hash_axioms;

/// A file whose content arrives through a channel.
pub struct FlumeFile {
    pub original_location: Option<String>,
    pub final_location: String,
    pub content_stream: Option<flume::Receiver<Vec<u8>>>,
}

/// What is read of an optional location.
pub open spec fn text_of(location: Option<String>) -> Option<Seq<char>> {
    match location {
        Some(text) => Some(text@),
        None => None,
    }
}

impl Clone for FlumeFile {
    fn clone(&self) -> (copy: Self)
        ensures
            text_of(copy.original_location) == text_of(self.original_location),
            copy.final_location@ == self.final_location@,
            copy.content_stream == self.content_stream,
    {
        FlumeFile {
            original_location: match &self.original_location {
                Some(location) => Some(location.clone()),
                None => None,
            },
            final_location: self.final_location.clone(),
            content_stream: match &self.content_stream {
                Some(stream) => Some(stream.clone()),
                None => None,
            },
        }
    }
}

impl FileSender for FlumeFile {
    open spec fn location(&self) -> Seq<char> {
        self.final_location@
    }

    fn get_location(&self) -> String {
        self.final_location.clone()
    }
}

impl FlumeFile {
    /// Takes the channel out of the file, so that the next piece of content can be waited for.
    pub fn begin_chunk(&mut self) -> (stream: Result<flume::Receiver<Vec<u8>>, TransportRecvError>)
        ensures
            match stream {
                Ok(taken) => old(self).content_stream == Some(taken),
                Err(error) => old(self).content_stream is None && error
                    == TransportRecvError::NoStream,
            },
            final(self).content_stream is None,
            final(self).original_location == old(self).original_location,
            final(self).final_location == old(self).final_location,
    {
        match self.content_stream.take() {
            Some(stream) => Ok(stream),
            None => Err(TransportRecvError::NoStream),
        }
    }

    /// Puts the channel back once a piece of content has arrived. A channel that nothing will come
    /// from any more is not put back.
    pub fn end_chunk(
        &mut self,
        stream: flume::Receiver<Vec<u8>>,
        received: Result<Vec<u8>, flume::RecvError>,
    ) -> (chunk: Result<Vec<u8>, TransportRecvError>)
        ensures
            match received {
                Ok(bytes) => chunk == Ok::<Vec<u8>, TransportRecvError>(bytes)
                    && final(self).content_stream == Some(stream),
                Err(_) => chunk == Err::<Vec<u8>, TransportRecvError>(
                    TransportRecvError::Disconnected,
                ) && final(self).content_stream == old(self).content_stream,
            },
            final(self).original_location == old(self).original_location,
            final(self).final_location == old(self).final_location,
    {
        match received {
            Ok(bytes) => {
                self.content_stream = Some(stream);
                Ok(bytes)
            },
            Err(_) => Err(TransportRecvError::Disconnected),
        }
    }
}

/// The end of a connection that frames arrive at.
pub struct TcpFsReceiver {
    pub tx: flume::Sender<Vec<u8>>,
    pub rx: flume::Receiver<Vec<u8>>,
    pub start_delimiter: Option<Vec<u8>>,
    pub end_delimiter: Option<Vec<u8>>,
    pub escape_byte: Option<u8>,
}

impl TcpFsReceiver {
    /// What marks off the frames that arrive.
    pub open spec fn framing(&self) -> Framing {
        framing_of(self.start_delimiter, self.end_delimiter, self.escape_byte)
    }

    /// A receiver with no delimiters set.
    pub fn new(tx: flume::Sender<Vec<u8>>, rx: flume::Receiver<Vec<u8>>) -> (receiver: TcpFsReceiver)
        ensures
            receiver.tx == tx,
            receiver.rx == rx,
            receiver.framing() == (Framing { start: None, end: None, escape: None }),
    {
        TcpFsReceiver { tx, rx, start_delimiter: None, end_delimiter: None, escape_byte: None }
    }

    /// Sets what stands before each frame.
    pub fn set_start_delimiter(&mut self, delim: Vec<u8>)
        ensures
            final(self).framing() == (Framing { start: Some(delim@), ..old(self).framing() }),
            final(self).tx == old(self).tx,
            final(self).rx == old(self).rx,
    {
        self.start_delimiter = Some(delim);
    }

    /// Sets what stands after each frame.
    pub fn set_end_delimiter(&mut self, delim: Vec<u8>)
        ensures
            final(self).framing() == (Framing { end: Some(delim@), ..old(self).framing() }),
            final(self).tx == old(self).tx,
            final(self).rx == old(self).rx,
    {
        self.end_delimiter = Some(delim);
    }

    /// Sets what stands before content that could be taken for a delimiter.
    pub fn set_escape_byte(&mut self, escape_byte: u8)
        ensures
            final(self).framing() == (Framing { escape: Some(escape_byte), ..old(self).framing() }),
            final(self).tx == old(self).tx,
            final(self).rx == old(self).rx,
    {
        self.escape_byte = Some(escape_byte);
    }

    /// Whether frames can be looked for in what is kept of the stream and what has just arrived. Without
    /// any delimiter, or with an empty one to look for, they cannot.
    pub fn accepts(&self, before: &Vec<u8>, bytes: &Vec<u8>) -> (can: bool)
        ensures
            can == self.can_split(before@ + bytes@),
    {
        match (&self.start_delimiter, &self.end_delimiter) {
            (None, None) => false,
            (None, Some(end)) => {
                proof {
                    lemma_find(end@, Seq::empty());
                }
                end.len() > 0
            },
            (Some(start), None) => start.len() > 0,
            (Some(start), Some(end)) => {
                if start.len() == 0 || end.len() > 0 {
                    return start.len() > 0;
                }
                let mut stream = before.clone();
                stream.extend_from_slice(bytes.as_slice());
                assert(stream@ =~= before@ + bytes@);
                match find_subsequence_by_windows_iter(start.as_slice(), look_ahead(stream)) {
                    SubsequenceStatus::FoundAt(_) => false,
                    _ => true,
                }
            },
        }
    }

    /// What waiting for bytes on the channel came to.
    pub fn chunk_received(received: Result<Vec<u8>, flume::RecvError>) -> (chunk: Result<
        Vec<u8>,
        FileStreamError,
    >)
        ensures
            match received {
                Ok(bytes) => chunk == Ok::<Vec<u8>, FileStreamError>(bytes),
                Err(_) => chunk == Err::<Vec<u8>, FileStreamError>(FileStreamError::Disconnect),
            },
    {
        match received {
            Ok(bytes) => Ok(bytes),
            Err(_) => Err(FileStreamError::Disconnect),
        }
    }
}

impl StreamReceiver for TcpFsReceiver {
    type FrameOutput = FrameEncoder;

    open spec fn can_split(&self, stream: Seq<u8>) -> bool {
        EncoderView::new(self.framing()).can_take(stream)
    }

    open spec fn splits(&self, stream: Seq<u8>) -> Result<Seq<Parts>, FileFrameStatus> {
        EncoderView::new(self.framing()).taken(stream)
    }

    fn create_frame_handler(&self) -> (handler: FrameEncoder)
        ensures
            handler@ == EncoderView::new(self.framing()),
    {
        let handler = FrameEncoder::new(
            self.start_delimiter.clone(),
            self.end_delimiter.clone(),
            self.escape_byte,
        );
        assert forall|after: FrameEncoder, stream: Seq<u8>|
            crate::framing::FrameHandler::resumes_from(&handler, Seq::empty(), after) implies
            crate::framing::FrameHandler::can_receive(&after, stream) == self.can_split(stream)
            && crate::framing::FrameHandler::received(&after, stream) == self.splits(stream) by {
            assert(after@ =~= EncoderView::new(self.framing()));
            assert(Seq::<u8>::empty() + stream =~= stream);
        }
        handler
    }
}

impl Clone for TcpFsReceiver {
    fn clone(&self) -> (copy: Self)
        ensures
            copy.tx == self.tx,
            copy.rx == self.rx,
            copy.framing() == self.framing(),
    {
        TcpFsReceiver {
            tx: self.tx.clone(),
            rx: self.rx.clone(),
            start_delimiter: self.start_delimiter.clone(),
            end_delimiter: self.end_delimiter.clone(),
            escape_byte: self.escape_byte,
        }
    }
}

impl Default for TcpFsReceiver {
    fn default() -> (receiver: Self)
        ensures
            byte_channel(receiver.tx, receiver.rx) == Some(Some(32usize)),
            receiver.framing() == (Framing { start: None, end: None, escape: None }),
    {
        let (tx, rx) = bounded_channel(32);
        TcpFsReceiver::new(tx, rx)
    }
}

/// The end of a connection that frames are sent from.
pub struct TcpFsSender {
    pub tx: flume::Sender<Vec<u8>>,
    pub rx: flume::Receiver<Vec<u8>>,
    pub byte_array: Vec<u8>,
    pub start_delimiter: Option<Vec<u8>>,
    pub end_delimiter: Option<Vec<u8>>,
    pub escape_byte: Option<u8>,
}

impl TcpFsSender {
    /// What marks off the frames that are sent.
    pub open spec fn framing(&self) -> Framing {
        framing_of(self.start_delimiter, self.end_delimiter, self.escape_byte)
    }

    /// A sender with no delimiters set.
    pub fn new(rx: flume::Receiver<Vec<u8>>, tx: flume::Sender<Vec<u8>>) -> (sender: TcpFsSender)
        ensures
            sender.tx == tx,
            sender.rx == rx,
            sender.byte_array@ == Seq::<u8>::empty(),
            sender.framing() == (Framing { start: None, end: None, escape: None }),
    {
        TcpFsSender {
            tx,
            rx,
            byte_array: Vec::new(),
            start_delimiter: None,
            end_delimiter: None,
            escape_byte: None,
        }
    }

    /// Sets what stands before each frame.
    pub fn set_start_delimiter(&mut self, delim: Vec<u8>)
        ensures
            final(self).framing() == (Framing { start: Some(delim@), ..old(self).framing() }),
            final(self).byte_array == old(self).byte_array,
            final(self).tx == old(self).tx,
            final(self).rx == old(self).rx,
    {
        self.start_delimiter = Some(delim);
    }

    /// Sets what stands after each frame.
    pub fn set_end_delimiter(&mut self, delim: Vec<u8>)
        ensures
            final(self).framing() == (Framing { end: Some(delim@), ..old(self).framing() }),
            final(self).byte_array == old(self).byte_array,
            final(self).tx == old(self).tx,
            final(self).rx == old(self).rx,
    {
        self.end_delimiter = Some(delim);
    }

    /// Sets what stands before content that could be taken for a delimiter.
    pub fn set_escape_byte(&mut self, escape_byte: u8)
        ensures
            final(self).framing() == (Framing { escape: Some(escape_byte), ..old(self).framing() }),
            final(self).byte_array == old(self).byte_array,
            final(self).tx == old(self).tx,
            final(self).rx == old(self).rx,
    {
        self.escape_byte = Some(escape_byte);
    }

    /// Whether frames can be built: where content is to be escaped, neither delimiter may be empty.
    pub fn can_build(&self) -> (can: bool)
        ensures
            can == self.framing().can_encode(),
    {
        match (&self.start_delimiter, &self.end_delimiter, self.escape_byte) {
            (Some(start), Some(end), Some(_)) => start.len() > 0 && end.len() > 0,
            _ => true,
        }
    }

    /// Adds to the bytes that the sender keeps.
    pub fn feed_bytes(&mut self, bytes: Vec<u8>)
        ensures
            final(self).byte_array@ == old(self).byte_array@ + bytes@,
            final(self).framing() == old(self).framing(),
            final(self).tx == old(self).tx,
            final(self).rx == old(self).rx,
    {
        let mut fed = bytes;
        self.byte_array.append(&mut fed);
    }
}

impl StreamSender for TcpFsSender {
    open spec fn can_encode_frame(&self, layout: FrameLayout) -> bool {
        (layout.fits)(self.framing())
    }

    open spec fn encoded_frame(&self, layout: FrameLayout) -> Result<Seq<u8>, FileFrameStatus> {
        (layout.layout)(self.framing())
    }

    fn encode_frame<S: Handle<W>, W>(&self, frame: S) -> Result<Vec<u8>, FileFrameStatus> {
        let start_delimiter = self.start_delimiter.clone();
        let end_delimiter = self.end_delimiter.clone();
        assert(framing_of(start_delimiter, end_delimiter, self.escape_byte) =~= self.framing());
        frame.to_bytes(self.escape_byte, start_delimiter, end_delimiter)
    }
}

impl Clone for TcpFsSender {
    fn clone(&self) -> (copy: Self)
        ensures
            copy.tx == self.tx,
            copy.rx == self.rx,
            copy.byte_array@ == self.byte_array@,
            copy.framing() == self.framing(),
    {
        TcpFsSender {
            tx: self.tx.clone(),
            rx: self.rx.clone(),
            byte_array: self.byte_array.clone(),
            start_delimiter: self.start_delimiter.clone(),
            end_delimiter: self.end_delimiter.clone(),
            escape_byte: self.escape_byte,
        }
    }
}

impl Default for TcpFsSender {
    fn default() -> (sender: Self)
        ensures
            byte_channel(sender.tx, sender.rx) == Some(None::<usize>),
            sender.byte_array@ == Seq::<u8>::empty(),
            sender.framing() == (Framing { start: None, end: None, escape: None }),
    {
        let (tx, rx) = unbounded_channel();
        TcpFsSender::new(rx, tx)
    }
}

impl<F: FileSender> RemoteFileSystem<TcpFsSender, F> {
    /// Whether what was read of a file can be sent: where there is any of it, frames have to be built.
    pub fn can_send_chunk(&self, received: &Result<Vec<u8>, TransportRecvError>) -> (can: bool)
        ensures
            can == (received matches Ok(bytes) ==> self.can_send_pieces(bytes@)),
    {
        match received {
            Ok(bytes) => {
                let can = bytes.len() == 0 || self.state.can_build();
                proof {
                    let all = pieces(bytes@);
                    assert(bytes@.len() > 0 ==> all.len() > 0);
                    assert forall|i: int| 0 <= i < all.len() implies self.state.can_encode_frame(
                        file_layout(piece_frame(self.direction, self.codec, #[trigger] all[i])),
                    ) == self.state.framing().can_encode() by {
                        assert(piece_frame(self.direction, self.codec, all[i]).complete());
                    }
                    if !can {
                        assert(!self.state.can_encode_frame(
                            file_layout(piece_frame(self.direction, self.codec, all[0])),
                        ));
                    }
                }
                can
            },
            Err(_) => true,
        }
    }

    /// Whether an operation can be gone on with after `event`.
    pub fn can_go_on(&self, transfer: &Transfer<F>, event: &TransferEvent) -> (can: bool)
        ensures
            can == self.can_resume(self.progress(*transfer), transfer.state_id, event@),
    {
        let has_state = self.local_state.contains_key(&transfer.state_id);
        let sending = match transfer.stage {
            Stage::LocationAnnounced | Stage::LocationSent | Stage::Reading | Stage::PiecesSent => true,
            _ => false,
        };
        if sending != transfer.current.is_some() || (sending && !has_state) {
            return false;
        }
        let builds = self.state.can_build();
        match (transfer.stage, event) {
            (Stage::Reading, TransferEvent::Chunk(received)) => self.can_send_chunk(received),
            (Stage::Reading, _) => false,
            (_, TransferEvent::Chunk(_)) => false,
            (Stage::Announced, _) => match self.operation {
                Operation::SetLocation => !has_state || builds,
                Operation::Eof => builds,
                _ => true,
            },
            (Stage::LocationAnnounced, _) => builds,
            (Stage::LocationSent, _) => self.codec != Codec::Multipart,
            (Stage::EndAnnounced, _) => builds,
            (Stage::Finished, _) => false,
            _ => true,
        }
    }
}

} // verus!

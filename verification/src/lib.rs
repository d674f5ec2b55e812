//! Files sent over a connection, in frames that stand between delimiters or carry their length.
//!
//! `framing` says what a frame is, `encoder` builds frames and finds them in a stream, and `frames` and
//! `protocol` say what they carry. `filesystem` is one end of a connection, `receiving` and `chain` what
//! the frames that arrive do to it, and `transfer` how files are sent from it. What holds between the two
//! ends is stated in `wire`, `sending`, `receipts` and `delivery`, and what holds of every call of an operation
//! in `laws`. `length_delimited` is a protocol of its own.
//!
//! Reading, writing and waiting are left to the program around this library: where they come in, it is
//! told what to do and tells what came of it.
pub mod chain;
pub mod channels;
pub mod client;
pub mod delivery;
pub mod encoder;
pub mod endpoints;
pub mod filesystem;
pub mod frames;
pub mod framing;
pub mod laws;
pub mod length_delimited;
pub mod little_endian;
pub mod matching;
pub mod peek;
pub mod protocol;
pub mod receipts;
pub mod receiving;
pub mod sending;
pub mod size_bytes;
pub mod streams;
pub mod subsequence;
pub mod text;
pub mod transfer;
pub mod wire;

pub use crate::encoder::FrameEncoder;
pub use crate::endpoints::{FlumeFile, TcpFsReceiver, TcpFsSender};
pub use crate::filesystem::{FileAction, LocalState, RemoteFileSystem};
pub use crate::frames::{EofFrame, FileFrame, SetFrame};
pub use crate::framing::{
    FrameHandler, Handle, HandleWithDelims, HandleWithLength, WithDelims, WithLength,
};
pub use crate::protocol::{
    ChunkingStatus, Codec, Direction, FileFrameStatus, FileHandleStatus, FileStreamError, Operation,
    StreamableFileSystemErrors, TransportRecvError,
};
pub use crate::receiving::{FrameBatch, FrameCommons, ReceiveProgress};
pub use crate::streams::{FileSender, StreamReceiver, StreamSender};
pub use crate::transfer::{Transfer, TransferAction, TransferEvent};

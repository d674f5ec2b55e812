//! Handlers for the kinds of frames that arrive, chained one behind the other.
use crate::filesystem::RemoteFileSystem;
use crate::framing::found;
use crate::protocol::{
    failure_of_handling, handling_failure, FileFrameStatus, FileHandleStatus, FileStreamError,
    StreamableFileSystemErrors,
};
use crate::receiving::{chunks_of, contents_of, kept, rest_of, FrameBatch, FrameCommons};
use crate::streams::StreamReceiver;
use std::marker::PhantomData;
use vstd::prelude::*;

verus! {

/// A chain without handlers.
pub struct HNil<S, F> {
    pub _marker2: PhantomData<(S, F)>,
}

/// A handler `f` for the kind of frames `T`, and the chain behind it.
pub struct HCons<T, F, Tail, S, FT> {
    pub _marker2: PhantomData<(S, FT)>,
    pub _marker: PhantomData<T>,
    pub f: F,
    pub tail: Tail,
}

/// The place of a handler: at the head of the chain.
pub struct Here;

/// The place of a handler: at `Idx` in the chain behind the head.
pub struct There<Idx>(pub PhantomData<Idx>);

/// A chain in which the handler for the kind of frames `T` has its place at `Idx`.
pub trait InsertOrReplace<T, F, Idx, S, FT> {
    type Output;

    /// `chain` is this chain with `f` in its place.
    spec fn holds_with(&self, f: F, chain: Self::Output) -> bool;

    /// The chain with `f` in its place, be it new there or instead of another handler.
    fn insert_or_replace(&self, f: F) -> (chain: Self::Output)
        ensures
            self.holds_with(f, chain),
    ;
}

impl<T, F, S, FT> InsertOrReplace<T, F, Here, S, FT> for HNil<S, FT> {
    type Output = HCons<T, F, HNil<S, FT>, S, FT>;

    open spec fn holds_with(&self, f: F, chain: Self::Output) -> bool {
        chain.f == f && chain.tail == *self
    }

    fn insert_or_replace(&self, f: F) -> Self::Output {
        HCons {
            _marker: PhantomData,
            f,
            tail: HNil { _marker2: PhantomData },
            _marker2: PhantomData,
        }
    }
}

impl<T, F, OldF, Tail: Clone, S, FT> InsertOrReplace<T, F, Here, S, FT> for HCons<
    T,
    OldF,
    Tail,
    S,
    FT,
> {
    type Output = HCons<T, F, Tail, S, FT>;

    open spec fn holds_with(&self, f: F, chain: Self::Output) -> bool {
        chain.f == f && cloned(self.tail, chain.tail)
    }

    fn insert_or_replace(&self, f: F) -> Self::Output {
        HCons { _marker: PhantomData, f, tail: self.tail.clone(), _marker2: PhantomData }
    }
}

impl<T, F, Head, HeadF: Clone, Tail, Idx, S, FT> InsertOrReplace<
    T,
    F,
    There<Idx>,
    S,
    FT,
> for HCons<Head, HeadF, Tail, S, FT> where Tail: InsertOrReplace<T, F, Idx, S, FT> {
    type Output = HCons<Head, HeadF, Tail::Output, S, FT>;

    open spec fn holds_with(&self, f: F, chain: Self::Output) -> bool {
        cloned(self.f, chain.f) && self.tail.holds_with(f, chain.tail)
    }

    fn insert_or_replace(&self, f: F) -> Self::Output {
        HCons {
            _marker: PhantomData,
            f: self.f.clone(),
            tail: self.tail.insert_or_replace(f),
            _marker2: PhantomData,
        }
    }
}

impl<T: FrameCommons, F, Tail, S, FT> HCons<T, F, Tail, S, FT> {
    /// The frame for the handler at the head of the chain. Bytes that are no frame of its kind end the
    /// chain.
    pub fn decode_frame(&self, bytes: Vec<u8>) -> (output: Result<
        T::Output,
        StreamableFileSystemErrors,
    >)
        ensures
            match output {
                Ok(frame) => T::decodes(bytes@, Ok::<T::Output, FileFrameStatus>(frame)),
                Err(error) => error == StreamableFileSystemErrors::Unknown && exists|
                    status: FileFrameStatus,
                | T::decodes(bytes@, Err::<T::Output, FileFrameStatus>(status)),
            },
    {
        match T::decode(bytes) {
            Ok(frame) => Ok(frame),
            Err(status) => Err(StreamableFileSystemErrors::Unknown),
        }
    }

    /// What the result of the handler at the head of the chain means. Where it failed, the chain ends.
    pub fn after_handler(result: Result<(), FileHandleStatus>) -> (outcome: Result<
        (),
        StreamableFileSystemErrors,
    >)
        ensures
            outcome == match result {
                Ok(_) => Ok::<(), StreamableFileSystemErrors>(()),
                Err(status) => Err::<(), StreamableFileSystemErrors>(handling_failure(status)),
            },
    {
        match result {
            Ok(_) => Ok(()),
            Err(status) => Err(failure_of_handling(status)),
        }
    }
}

/// A chain of handlers for the frames that arrive at a filesystem.
pub struct ChainBuilder<'a, H, S, FT> {
    pub fs: &'a mut RemoteFileSystem<S, FT>,
    pub list: H,
}

impl<'a, S, FT> ChainBuilder<'a, HNil<S, FT>, S, FT> {
    /// A chain without handlers.
    pub fn new(fs: &'a mut RemoteFileSystem<S, FT>) -> (builder: Self)
        ensures
            *builder.fs == *old(fs),
            *final(builder.fs) == *final(fs),
    {
        ChainBuilder { list: HNil { _marker2: PhantomData }, fs }
    }
}

impl<'b, H, S: StreamReceiver, FT> ChainBuilder<'b, H, S, FT> {
    /// The chain with a handler for frames of the kind `T`.
    pub fn chain<T: FrameCommons, F, Idx>(&mut self, f: F) -> (builder: ChainBuilder<
        '_,
        H::Output,
        S,
        FT,
    >) where H: InsertOrReplace<T, F, Idx, S, FT>
        ensures
            old(self).list.holds_with(f, builder.list),
            *builder.fs == *old(self).fs,
            *final(builder.fs) == *final(self).fs,
            final(self).list == old(self).list,
            *final(final(self).fs) == *final(old(self).fs),
    {
        ChainBuilder { list: self.list.insert_or_replace(f), fs: &mut *self.fs }
    }

    /// Takes in what waiting for bytes came to, and hands out the frames that the chain is to be
    /// carried out for. What is left of the stream is to be given back with `keep_rest` then.
    pub fn run(&mut self, received: Result<Vec<u8>, FileStreamError>) -> (batch: Result<
        FrameBatch,
        StreamableFileSystemErrors,
    >)
        requires
            received matches Ok(bytes) ==> old(self).fs.state.can_split(
                old(self).fs.stream_with(bytes@),
            ),
        ensures
            match received {
                Ok(bytes) => {
                    let stream = old(self).fs.stream_with(bytes@);
                    let splits = old(self).fs.state.splits(stream);
                    &&& batch is Ok
                    &&& contents_of(batch->Ok_0.frames@) == chunks_of(found(splits))
                    &&& batch->Ok_0.rest@ == rest_of(found(splits))
                    &&& final(self).fs.remainder@ == kept(splits, stream)
                },
                Err(_) => {
                    &&& batch == Err::<FrameBatch, StreamableFileSystemErrors>(
                        StreamableFileSystemErrors::Unknown,
                    )
                    &&& final(self).fs.remainder == old(self).fs.remainder
                },
            },
            *final(self).fs == (RemoteFileSystem {
                remainder: final(self).fs.remainder,
                ..*old(self).fs
            }),
            final(self).list == old(self).list,
            *final(final(self).fs) == *final(old(self).fs),
    {
        match received {
            Ok(bytes) => Ok(self.fs.take_frames(bytes)),
            Err(_) => Err(StreamableFileSystemErrors::Unknown),
        }
    }
}

} // verus!

//! What is sent for an operation, and how it goes on.
use crate::endpoints::TcpFsSender;
use crate::filesystem::RemoteFileSystem;
use crate::frames::{EofFrame, FileFrame, SetFrame};
use crate::framing::{layout_of, WithDelims};
use crate::laws::building::written_delimiter;
use crate::protocol::{
    ChunkingStatus, Codec, FileFrameStatus, Operation, StreamableFileSystemErrors,
    TransportRecvError,
};
use crate::receiving::{contents_of, FrameCommons};
use crate::streams::{FileSender, StreamSender};
use crate::transfer::{file_layout, piece_frame, pieces};
use vstd::prelude::*;
use vstd::utf8::encode_utf8;

verus! {

broadcast use vstd::std_specs::hash::group_hash_axioms;

/// These frames are what putting a single frame into bytes came to: that one, or none where it failed.
pub open spec fn only_what_came(
    frames: Seq<Vec<u8>>,
    encoded: Result<Vec<u8>, FileFrameStatus>,
) -> bool {
    match encoded {
        Ok(bytes) => frames.len() == 1 && frames[0]@ == bytes@,
        Err(_) => frames.len() == 0,
    }
}

/// A frame is a piece of a file with the settings of a filesystem.
pub open spec fn is_piece<S, F>(frame: FileFrame, fs: RemoteFileSystem<S, F>, piece: Seq<u8>) -> bool {
    &&& frame.direction == Some(fs.direction)
    &&& frame.operation == Some(Operation::Move)
    &&& frame.codec == Some(fs.codec)
    &&& frame.chunking_status == Some(ChunkingStatus::Continues)
    &&& frame.chunks@ == piece
}

/// A frame tells the location of a state of a filesystem.
pub open spec fn is_location<S, F>(
    frame: SetFrame,
    fs: RemoteFileSystem<S, F>,
    state_id: u8,
) -> bool {
    &&& frame.direction == Some(fs.direction)
    &&& frame.operation == Some(Operation::SetLocation)
    &&& frame.state_id == state_id
    &&& frame.chunks@ == encode_utf8(fs.local_state@[state_id].location@)
}

/// A frame tells that a file has ended.
pub open spec fn is_end<S, F>(frame: EofFrame, fs: RemoteFileSystem<S, F>) -> bool {
    &&& frame.direction == Some(fs.direction)
    &&& frame.operation == Some(Operation::Eof)
}

proof fn lemma_piece_layout<S: StreamSender + Default, F: FileSender>(
    fs: &RemoteFileSystem<S, F>,
    frame: FileFrame,
    piece: Seq<u8>,
)
    requires
        is_piece(frame, *fs, piece),
    ensures
        layout_of::<FileFrame, WithDelims>(frame) == file_layout(
            piece_frame(fs.direction, fs.codec, piece),
        ),
{
    let layout = file_layout(piece_frame(fs.direction, fs.codec, piece));
    assert(frame@ =~= piece_frame(fs.direction, fs.codec, piece));
    assert(layout_of::<FileFrame, WithDelims>(frame).fits =~= layout.fits);
    assert(layout_of::<FileFrame, WithDelims>(frame).layout =~= layout.layout);
}

/// Where reading failed nothing is sent, and the error is handed on; where nothing was read nothing is
/// sent either.
pub proof fn law_nothing_read_is_nothing_sent<S: StreamSender + Default, F: FileSender>(
    fs: &RemoteFileSystem<S, F>,
    received: Result<Vec<u8>, TransportRecvError>,
    outgoing: Result<Vec<Vec<u8>>, StreamableFileSystemErrors>,
)
    requires
        call_ensures(RemoteFileSystem::<S, F>::send_chunk, (fs, received), outgoing),
    ensures
        match received {
            Ok(bytes) => outgoing is Ok && (bytes@.len() == 0 ==> outgoing->Ok_0@.len() == 0),
            Err(error) => outgoing == Err::<Vec<Vec<u8>>, StreamableFileSystemErrors>(
                StreamableFileSystemErrors::TransportRecvError(error),
            ),
        },
{
    if let Ok(bytes) = received {
        assert(contents_of(outgoing->Ok_0@).len() == outgoing->Ok_0@.len());
        if bytes@.len() == 0 {
            assert(pieces(bytes@) =~= Seq::empty());
        }
    }
}

/// Up to as many bytes as a piece can have are sent as one frame: what the stream makes of a piece of a
/// file with the direction and the codec of the filesystem that carries all of them.
pub proof fn law_piece_is_sent<S: StreamSender + Default, F: FileSender>(
    fs: &RemoteFileSystem<S, F>,
    bytes: Vec<u8>,
    outgoing: Result<Vec<Vec<u8>>, StreamableFileSystemErrors>,
    frame: FileFrame,
    encoded: Result<Vec<u8>, FileFrameStatus>,
)
    requires
        call_ensures(RemoteFileSystem::<S, F>::send_chunk, (fs, Ok(bytes)), outgoing),
        0 < bytes@.len() <= 4096,
        is_piece(frame, *fs, bytes@),
        call_ensures(S::encode_frame::<FileFrame, WithDelims>, (&fs.state, frame), encoded),
    ensures
        outgoing matches Ok(frames) && only_what_came(frames@, encoded),
{
    lemma_piece_layout(fs, frame, bytes@);
    let all = pieces(bytes@);
    assert(all.len() == 1);
    assert(all[0] =~= bytes@);
    assert(all.drop_last() =~= Seq::empty());
    let contents = contents_of(outgoing->Ok_0@);
    assert(fs.pieces_sent(all.drop_last()) =~= Seq::empty());
    assert(contents == fs.pieces_sent(all));
    assert(contents.len() == outgoing->Ok_0@.len());
    if let Ok(b) = encoded {
        assert(contents =~= seq![b@]);
        assert(contents[0] == outgoing->Ok_0@[0]@);
    } else {
        assert(contents =~= Seq::empty());
    }
}

/// Bytes that whole pieces can be made of and the bytes behind them are sent together as they are sent one
/// after the other.
pub proof fn law_pieces_are_sent_one_by_one<S: StreamSender + Default, F: FileSender>(
    fs: &RemoteFileSystem<S, F>,
    bytes: (Vec<u8>, Vec<u8>, Vec<u8>),
    outgoing: (
        Result<Vec<Vec<u8>>, StreamableFileSystemErrors>,
        Result<Vec<Vec<u8>>, StreamableFileSystemErrors>,
        Result<Vec<Vec<u8>>, StreamableFileSystemErrors>,
    ),
    i: int,
)
    requires
        call_ensures(RemoteFileSystem::<S, F>::send_chunk, (fs, Ok(bytes.0)), outgoing.0),
        call_ensures(RemoteFileSystem::<S, F>::send_chunk, (fs, Ok(bytes.1)), outgoing.1),
        call_ensures(RemoteFileSystem::<S, F>::send_chunk, (fs, Ok(bytes.2)), outgoing.2),
        bytes.0@.len() % 4096 == 0,
        bytes.2@ == bytes.0@ + bytes.1@,
    ensures
        ({
            let one = outgoing.0->Ok_0@;
            let other = outgoing.1->Ok_0@;
            let all = outgoing.2->Ok_0@;
            &&& all.len() == one.len() + other.len()
            &&& 0 <= i < all.len() ==> all[i]@ == if i < one.len() {
                one[i]@
            } else {
                other[i - one.len()]@
            }
        }),
{
    let one = pieces(bytes.0@);
    let other = pieces(bytes.1@);
    let all = pieces(bytes.2@);
    let k = bytes.0@.len() / 4096;
    assert(one.len() == k);
    assert(all.len() == k + other.len());
    assert forall|j: int| 0 <= j < all.len() implies all[j] == (one + other)[j] by {
        if j < k {
            assert(all[j] =~= one[j]);
        } else {
            assert(all[j] =~= other[j - k]);
        }
    }
    assert(all =~= one + other);
    lemma_pieces_sent_joined(fs, one, other);
    let a = contents_of(outgoing.0->Ok_0@);
    let b = contents_of(outgoing.1->Ok_0@);
    let c = contents_of(outgoing.2->Ok_0@);
    assert(c == a + b);
    assert(c.len() == outgoing.2->Ok_0@.len());
    assert(a.len() == outgoing.0->Ok_0@.len());
    assert(b.len() == outgoing.1->Ok_0@.len());
    if 0 <= i < c.len() {
        assert(c[i] == outgoing.2->Ok_0@[i]@);
        if i < a.len() {
            assert(a[i] == outgoing.0->Ok_0@[i]@);
        } else {
            assert(b[i - a.len()] == outgoing.1->Ok_0@[i - a.len()]@);
        }
    }
}

proof fn lemma_pieces_sent_joined<S: StreamSender + Default, F: FileSender>(
    fs: &RemoteFileSystem<S, F>,
    one: Seq<Seq<u8>>,
    other: Seq<Seq<u8>>,
)
    ensures
        fs.pieces_sent(one + other) == fs.pieces_sent(one) + fs.pieces_sent(other),
    decreases other.len(),
{
    if other.len() == 0 {
        assert(one + other =~= one);
        assert(fs.pieces_sent(one) + fs.pieces_sent(other) =~= fs.pieces_sent(one));
    } else {
        lemma_pieces_sent_joined(fs, one, other.drop_last());
        assert((one + other).drop_last() =~= one + other.drop_last());
        assert(fs.pieces_sent(one + other) =~= fs.pieces_sent(one) + fs.pieces_sent(other));
    }
}

proof fn lemma_piece_on_the_wire<F: FileSender>(
    fs: &RemoteFileSystem<TcpFsSender, F>,
    all: Seq<Seq<u8>>,
    i: int,
)
    requires
        0 <= i < all.len(),
    ensures
        fs.pieces_sent(all).len() == all.len(),
        fs.pieces_sent(all)[i] == written_delimiter(fs.state.start_delimiter) + seq![
            fs.direction.code(),
            0,
            fs.codec.code(),
            0,
        ] + fs.state.framing().content_sent(all[i]) + written_delimiter(fs.state.end_delimiter),
    decreases all.len(),
{
    let most = all.drop_last();
    let view = piece_frame(fs.direction, fs.codec, all.last());
    assert(view.complete());
    assert(fs.state.encoded_frame(file_layout(view)) == view.layout(fs.state.framing()));
    assert(view.headers() =~= seq![fs.direction.code(), 0, fs.codec.code(), 0]);
    if most.len() > 0 {
        lemma_piece_on_the_wire(fs, most, if i < most.len() {
            i
        } else {
            0
        });
    } else {
        assert(fs.pieces_sent(most) =~= Seq::empty());
    }
    let last = view.layout(fs.state.framing())->Ok_0;
    assert(fs.pieces_sent(all) == fs.pieces_sent(most) + seq![last]);
    assert(last =~= written_delimiter(fs.state.start_delimiter) + seq![
        fs.direction.code(),
        0,
        fs.codec.code(),
        0,
    ] + fs.state.framing().content_sent(all.last()) + written_delimiter(fs.state.end_delimiter));
}

/// What is read of a file goes out in frames of four thousand and ninety-six bytes each, but for the last.
/// Each is the starting delimiter, the codes of the filesystem's direction, of a move, of its codec and of
/// more to follow, the piece as it is sent, and the ending delimiter.
pub proof fn law_pieces_on_the_wire<F: FileSender>(
    fs: &RemoteFileSystem<TcpFsSender, F>,
    bytes: Vec<u8>,
    outgoing: Result<Vec<Vec<u8>>, StreamableFileSystemErrors>,
    i: int,
)
    requires
        call_ensures(RemoteFileSystem::<TcpFsSender, F>::send_chunk, (fs, Ok(bytes)), outgoing),
    ensures
        outgoing matches Ok(frames) && {
            &&& (frames@.len() - 1) * 4096 < bytes@.len() <= frames@.len() * 4096
            &&& 0 <= i < frames@.len() ==> frames@[i]@ == written_delimiter(
                fs.state.start_delimiter,
            ) + seq![fs.direction.code(), 0, fs.codec.code(), 0] + fs.state.framing().content_sent(
                bytes@.subrange(
                    i * 4096,
                    if i == frames@.len() - 1 {
                        bytes@.len() as int
                    } else {
                        i * 4096 + 4096
                    },
                ),
            ) + written_delimiter(fs.state.end_delimiter)
        },
{
    let all = pieces(bytes@);
    let contents = contents_of(outgoing->Ok_0@);
    assert(contents == fs.pieces_sent(all));
    assert(contents.len() == outgoing->Ok_0@.len());
    if all.len() > 0 {
        lemma_piece_on_the_wire(fs, all, if 0 <= i < all.len() {
            i
        } else {
            0
        });
    }
    if 0 <= i < all.len() {
        assert(contents[i] == outgoing->Ok_0@[i]@);
        assert(all[i] =~= bytes@.subrange(
            i * 4096,
            if i == all.len() - 1 {
                bytes@.len() as int
            } else {
                i * 4096 + 4096
            },
        ));
    }
}

/// What stands between the delimiters of every frame that is sent for a piece is read as a piece of a file
/// with the direction and the codec of the filesystem that sends it, of which more follows; what it carries
/// is the piece as it is sent.
pub proof fn law_sent_pieces_tell_the_settings<F: FileSender>(
    fs: &RemoteFileSystem<TcpFsSender, F>,
    bytes: Vec<u8>,
    outgoing: Vec<Vec<u8>>,
    i: int,
    payload: Vec<u8>,
    decoded: Result<FileFrame, FileFrameStatus>,
)
    requires
        call_ensures(
            RemoteFileSystem::<TcpFsSender, F>::send_chunk,
            (fs, Ok(bytes)),
            Ok(outgoing),
        ),
        0 <= i < outgoing@.len(),
        outgoing@[i]@ == written_delimiter(fs.state.start_delimiter) + payload@ + written_delimiter(
            fs.state.end_delimiter,
        ),
        call_ensures(<FileFrame as FrameCommons>::decode, (payload,), decoded),
    ensures
        decoded matches Ok(frame) && {
            &&& frame.direction == Some(fs.direction)
            &&& frame.operation == Some(Operation::Move)
            &&& frame.codec == Some(fs.codec)
            &&& frame.chunking_status == Some(ChunkingStatus::Continues)
            &&& frame.chunks@ == fs.state.framing().content_sent(
                bytes@.subrange(
                    i * 4096,
                    if i == outgoing@.len() - 1 {
                        bytes@.len() as int
                    } else {
                        i * 4096 + 4096
                    },
                ),
            )
        },
{
    law_pieces_on_the_wire(fs, bytes, Ok(outgoing), i);
    let start = written_delimiter(fs.state.start_delimiter);
    let end = written_delimiter(fs.state.end_delimiter);
    let headers = seq![fs.direction.code(), 0u8, fs.codec.code(), 0u8];
    let carried = fs.state.framing().content_sent(
        bytes@.subrange(
            i * 4096,
            if i == outgoing@.len() - 1 {
                bytes@.len() as int
            } else {
                i * 4096 + 4096
            },
        ),
    );
    let frame = outgoing@[i]@;
    assert(frame.len() == start.len() + payload@.len() + end.len());
    assert(frame.len() == start.len() + 4 + carried.len() + end.len());
    assert(payload@ =~= frame.subrange(start.len() as int, frame.len() - end.len()));
    assert(payload@ =~= headers + carried);
    assert(payload@[0] == headers[0] && payload@[1] == headers[1] && payload@[2] == headers[2]
        && payload@[3] == headers[3]);
    assert(payload@.skip(4) =~= carried);
}

/// Files can be sent raw, and otherwise sending one is no operation.
pub proof fn law_files_are_sent_raw<S: StreamSender + Default, F: FileSender>(
    fs: &RemoteFileSystem<S, F>,
    begun: Result<(), StreamableFileSystemErrors>,
)
    requires
        call_ensures(RemoteFileSystem::<S, F>::send_file, (fs,), begun),
    ensures
        begun is Ok <==> fs.codec == Codec::Raw || fs.codec == Codec::RawContinues,
        begun matches Err(error) ==> error == StreamableFileSystemErrors::NoOperation,
{
}

} // verus!

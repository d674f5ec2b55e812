//! Messages that carry their length, byte by byte.
use crate::length_delimited::{
    FileReceiver, FileReceiverState, FileSender, FileSenderResult, Malformed, MessageKind,
    ReceiverAction, ReceiverView,
};
use crate::little_endian::{bytes_of, from_le_bytes, to_le_bytes, value_of};
use crate::size_bytes::stored;
use vstd::prelude::*;

verus! {

/// The number that eight bytes stand for, the least significant byte first.
pub open spec fn number_in(bytes: Seq<u8>) -> int {
    bytes[0] + 256 * (bytes[1] + 256 * (bytes[2] + 256 * (bytes[3] + 256 * (bytes[4] + 256 * (bytes[5]
        + 256 * (bytes[6] + 256 * bytes[7]))))))
}

proof fn lemma_number_in(bytes: Seq<u8>)
    requires
        bytes.len() == 8,
    ensures
        value_of(bytes) == number_in(bytes),
{
    let b1 = bytes.drop_first();
    let b2 = b1.drop_first();
    let b3 = b2.drop_first();
    let b4 = b3.drop_first();
    let b5 = b4.drop_first();
    let b6 = b5.drop_first();
    let b7 = b6.drop_first();
    let b8 = b7.drop_first();
    assert(value_of(b8) == 0);
    assert(value_of(b7) == bytes[7]);
    assert(value_of(b6) == bytes[6] + 256 * value_of(b7));
    assert(value_of(b5) == bytes[5] + 256 * value_of(b6));
    assert(value_of(b4) == bytes[4] + 256 * value_of(b5));
    assert(value_of(b3) == bytes[3] + 256 * value_of(b4));
    assert(value_of(b2) == bytes[2] + 256 * value_of(b3));
    assert(value_of(b1) == bytes[1] + 256 * value_of(b2));
    assert(value_of(bytes) == bytes[0] + 256 * value_of(b1));
}

proof fn lemma_bytes_are_the_number(number: nat)
    requires
        number <= 18446744073709551615,
    ensures
        bytes_of(number, 8).len() == 8,
        number_in(bytes_of(number, 8)) == number,
{
    crate::little_endian::lemma_eight_bytes();
    crate::little_endian::lemma_value_of_bytes(number, 8);
    lemma_number_in(bytes_of(number, 8));
}

/// A number is eight bytes, the least significant first, and eight bytes are read as the number that they
/// stand for: what is written is read back.
pub proof fn law_numbers_are_eight_bytes(number: u64, bytes: Vec<u8>, read_from: &[u8], read: u64)
    requires
        call_ensures(to_le_bytes, (number,), bytes),
        read_from@.len() == 8,
        call_ensures(from_le_bytes, (read_from,), read),
    ensures
        bytes@.len() == 8,
        number == number_in(bytes@),
        read == number_in(read_from@),
        read_from@ == bytes@ ==> read == number,
{
    lemma_bytes_are_the_number(number as nat);
    lemma_number_in(read_from@);
}

/// Data is written as one and the end of a file as two, and each of these bytes is read as what is written
/// as it.
pub proof fn law_kinds_of_messages(kind: MessageKind, written: u8, byte: u8, read: MessageKind)
    requires
        call_ensures(MessageKind::to_byte, (kind,), written),
        call_ensures(MessageKind::from, (byte,), read),
    ensures
        written == if kind == MessageKind::FileChunk {
            1u8
        } else {
            2u8
        },
        byte == 1 ==> read == MessageKind::FileChunk,
        byte == 2 ==> read == MessageKind::Eof,
{
}

/// A new sender has room for the longest message and has not come to the end.
pub proof fn law_new_sender_has_sent_nothing(sender: FileSender)
    requires
        call_ensures(FileSender::new, (), sender),
    ensures
        sender.buf@.len() == 4076,
        forall|i: int| 0 <= i < 4076 ==> #[trigger] sender.buf@[i] == 0,
        !sender.reached_eof,
{
}

/// While a file has more data nothing is to be sent before it is read. When it has none, its end is sent
/// once, a single byte, and after that everything has been sent. An error is handed on.
pub proof fn law_end_is_sent_once(
    sender: &mut FileSender,
    has_data_left: Result<bool, std::io::Error>,
    message: Option<FileSenderResult<'_>>,
)
    requires
        call_ensures(FileSender::get_chunk, (sender, has_data_left), message),
        old(sender).buf@.len() == 4076,
    ensures
        match has_data_left {
            Ok(true) => message is None && *final(sender) == *old(sender),
            Ok(false) => if old(sender).reached_eof {
                message == Some(FileSenderResult::Eof) && *final(sender) == *old(sender)
            } else {
                message matches Some(FileSenderResult::Chunk(bytes)) && bytes@ == seq![2u8]
                    && final(sender).reached_eof && final(sender).buf@ == old(sender).buf@.update(
                    0,
                    2,
                )
            },
            Err(error) => message == Some(FileSenderResult::Failed(error)) && *final(sender)
                == *old(sender),
        },
        final(sender).buf@.len() == 4076,
{
    if has_data_left == Ok::<bool, std::io::Error>(false) && !old(sender).reached_eof {
        assert(final(sender).buf@ =~= old(sender).buf@.update(0, 2));
    }
}

/// Data that has been read is sent as a message: a one, how much there is of it as eight bytes, and all of
/// it. Without any nothing is sent, and an error is handed on.
pub proof fn law_data_is_sent_with_its_length(
    sender: &mut FileSender,
    read: Result<Vec<u8>, std::io::Error>,
    message: FileSenderResult<'_>,
)
    requires
        call_ensures(FileSender::fill_chunk, (sender, read), message),
        read matches Ok(data) ==> data@.len() <= 4067,
    ensures
        match read {
            Ok(data) => if data@.len() == 0 {
                message == FileSenderResult::NoData && *final(sender) == *old(sender)
            } else {
                message matches FileSenderResult::Chunk(bytes) && {
                    &&& bytes@.len() == 9 + data@.len()
                    &&& bytes@[0] == 1
                    &&& number_in(bytes@.subrange(1, 9)) == data@.len()
                    &&& forall|i: int| 0 <= i < data@.len() ==> #[trigger] data@[i] == bytes@[9 + i]
                }
            },
            Err(error) => message == FileSenderResult::Failed(error) && *final(sender)
                == *old(sender),
        },
        final(sender).reached_eof == old(sender).reached_eof,
        final(sender).buf@.len() == 4076,
{
    if let Ok(data) = read {
        lemma_bytes_are_the_number(data@.len());
        if let FileSenderResult::Chunk(bytes) = message {
            if data@.len() > 0 {
                assert(bytes@.subrange(1, 9) =~= bytes_of(data@.len(), 8));
            }
        }
    }
}

/// A new receiver is about to read the kind of a message.
pub proof fn law_new_receiver_has_read_nothing(receiver: FileReceiver)
    requires
        call_ensures(FileReceiver::new, (), receiver),
    ensures
        receiver.state is ReadingKind,
{
}

/// What a receiver finds wrong. Where a kind is to be read, a byte that is neither one nor two; where a
/// length is to be read, be it begun or not, one that is whole and above the four thousand and sixty-seven
/// bytes that a message has room for. Nothing else is.
pub proof fn law_malformed_messages_are_found(
    receiver: &FileReceiver,
    data: &[u8],
    offset: usize,
    problem: Option<Malformed>,
)
    requires
        call_ensures(FileReceiver::check, (receiver, data, offset), problem),
        offset <= data@.len(),
        receiver.state matches FileReceiverState::ReadingSize(bytes) ==> stored(bytes).len() < 8,
    ensures
        ({
            let ahead = data@.skip(offset as int);
            match receiver.state {
                FileReceiverState::ReadingKind => if ahead.len() == 0 || ahead[0] == 2 {
                    problem is None
                } else if ahead[0] != 1 {
                    problem == Some(Malformed::Kind(ahead[0]))
                } else if ahead.len() < 9 || number_in(ahead.subrange(1, 9)) <= 4067 {
                    problem is None
                } else {
                    problem matches Some(Malformed::Size(size)) && size == number_in(
                        ahead.subrange(1, 9),
                    )
                },
                FileReceiverState::ReadingSize(bytes) => {
                    let all = stored(bytes) + ahead;
                    if all.len() < 8 || number_in(all.subrange(0, 8)) <= 4067 {
                        problem is None
                    } else {
                        problem matches Some(Malformed::Size(size)) && size == number_in(
                            all.subrange(0, 8),
                        )
                    }
                },
                _ => problem is None,
            }
        }),
{
    let ahead = data@.skip(offset as int);
    match receiver.state {
        FileReceiverState::ReadingKind => {
            if ahead.len() > 0 && ahead[0] == 1 {
                let sizing = ReceiverView::ReadingSize(Seq::empty());
                let rest = ahead.skip(1);
                assert(receiver@.malformed(ahead) == sizing.malformed(rest));
                lemma_size_found(Seq::empty(), rest);
                if ahead.len() >= 9 {
                    assert((Seq::<u8>::empty() + rest).subrange(0, 8) =~= ahead.subrange(1, 9));
                }
            }
        },
        FileReceiverState::ReadingSize(bytes) => {
            lemma_size_found(stored(bytes), ahead);
        },
        _ => {},
    }
}

proof fn lemma_size_found(begun: Seq<u8>, ahead: Seq<u8>)
    requires
        begun.len() < 8,
    ensures
        ({
            let sizing = ReceiverView::ReadingSize(begun);
            let all = begun + ahead;
            let count = sizing.size_bytes_in(ahead);
            let whole = begun + ahead.take(count);
            &&& count == if all.len() < 8 {
                ahead.len() as int
            } else {
                8 - begun.len()
            }
            &&& all.len() < 8 ==> whole == all && sizing.malformed(ahead) is None
            &&& all.len() >= 8 ==> whole == all.subrange(0, 8) && value_of(whole) == number_in(
                all.subrange(0, 8),
            ) && sizing.malformed(ahead) == if number_in(all.subrange(0, 8)) <= 4067 {
                None
            } else {
                Some(Malformed::Size(number_in(all.subrange(0, 8)) as u64))
            } && number_in(all.subrange(0, 8)) <= 18446744073709551615
        }),
{
    let sizing = ReceiverView::ReadingSize(begun);
    let all = begun + ahead;
    let count = sizing.size_bytes_in(ahead);
    let whole = begun + ahead.take(count);
    if all.len() < 8 {
        assert(whole =~= all);
    } else {
        assert(whole =~= all.subrange(0, 8));
        lemma_number_in(whole);
        crate::little_endian::lemma_eight_bytes();
        crate::little_endian::lemma_value_bound(whole);
    }
}

/// A receiver that is about to read a kind, or a length, reads on to where data is to be written. An end is
/// left where it is, and the file is whole then. A length that is not whole yet is kept. What is there of
/// the data is to be written, as much as belongs to the message. With no more bytes all have been read.
pub proof fn law_messages_are_read(
    receiver: &mut FileReceiver,
    data: &[u8],
    offset: &mut usize,
    action: ReceiverAction,
    begun: Seq<u8>,
    from: int,
)
    requires
        call_ensures(FileReceiver::receive_chunk, (receiver, data, offset), action),
        *old(offset) < data@.len(),
        match old(receiver).state {
            FileReceiverState::ReadingKind => begun.len() == 0 && from == *old(offset) + 1
                && data@[*old(offset) as int] == 1,
            FileReceiverState::ReadingSize(bytes) => begun == stored(bytes) && begun.len() < 8
                && from == *old(offset),
            _ => false,
        },
    ensures
        ({
            let all = begun + data@.skip(from);
            if all.len() < 8 {
                &&& action is AllRead
                &&& *final(offset) == data@.len()
                &&& final(receiver).state matches FileReceiverState::ReadingSize(bytes) && stored(
                    bytes,
                ) == all
            } else {
                let left = number_in(all.subrange(0, 8));
                let there = all.len() - 8;
                &&& *final(offset) == data@.len() - there
                &&& final(receiver).state matches FileReceiverState::ReadingChunkData(size) && size
                    == left
                &&& there == 0 ==> action is AllRead
                &&& there > 0 ==> (action matches ReceiverAction::Write { from: first, to }
                    && first == *final(offset) && to - first == if there <= left {
                    there
                } else {
                    left
                })
            }
        }),
{
    assert(data.len() == data@.len());
    let ahead = data@.skip(*old(offset) as int);
    let rest = data@.skip(from);
    let sizing = ReceiverView::ReadingSize(begun);
    if old(receiver).state is ReadingKind {
        assert(begun =~= Seq::empty());
        assert(ahead[0] == 1);
        assert(ahead.skip(1) =~= rest);
        assert(old(receiver)@.read_on(ahead).0 == sizing.read_on(rest).0);
        assert(old(receiver)@.read_on(ahead).1 == sizing.read_on(rest).1 + 1);
    }
    lemma_size_found(begun, rest);
}

/// An end is left where it is, and the file is whole. A receiver that has come to it stays there. Data is
/// to be written from where it stands, as much as is there and belongs to the message.
pub proof fn law_ends_and_data_are_left_in_place(
    receiver: &mut FileReceiver,
    data: &[u8],
    offset: &mut usize,
    action: ReceiverAction,
)
    requires
        call_ensures(FileReceiver::receive_chunk, (receiver, data, offset), action),
        *old(offset) <= data@.len(),
        old(receiver).state matches FileReceiverState::ReadingSize(bytes) ==> stored(bytes).len()
            < 8,
    ensures
        *old(offset) == data@.len() ==> action is AllRead && final(receiver)@ == old(receiver)@
            && *final(offset) == *old(offset),
        *old(offset) < data@.len() ==> match old(receiver).state {
            FileReceiverState::ReadingKind => data@[*old(offset) as int] == 2 ==> action is Finished
                && final(receiver).state is Done && *final(offset) == *old(offset),
            FileReceiverState::ReadingChunkData(left) => {
                let there = data@.len() - *old(offset);
                &&& final(receiver)@ == old(receiver)@
                &&& *final(offset) == *old(offset)
                &&& action matches ReceiverAction::Write { from, to } && from == *old(offset) && to
                    - from == if there <= left {
                    there
                } else {
                    left as int
                }
            },
            FileReceiverState::Done => action is Finished && final(receiver).state is Done
                && *final(offset) == *old(offset),
            _ => true,
        },
{
    assert(data.len() == data@.len());
    let ahead = data@.skip(*old(offset) as int);
    if *old(offset) < data@.len() {
        assert(ahead[0] == data@[*old(offset) as int]);
    } else if let FileReceiverState::ReadingSize(bytes) = old(receiver).state {
        lemma_size_is_kept(stored(bytes), ahead);
    }
}

proof fn lemma_size_is_kept(begun: Seq<u8>, ahead: Seq<u8>)
    requires
        ahead.len() == 0,
    ensures
        begun.len() < 8 ==> ReceiverView::ReadingSize(begun).read_on(ahead) == (
            ReceiverView::ReadingSize(begun),
            0int,
        ),
{
    if begun.len() < 8 {
        let count = ReceiverView::ReadingSize(begun).size_bytes_in(ahead);
        assert(count == 0);
        assert(begun + ahead.take(0) =~= begun);
    }
}

/// What has been written of the data is no longer to come; with all of it written a next message is about
/// to begin.
pub proof fn law_written_data_is_counted(receiver: &mut FileReceiver, count: usize)
    requires
        call_ensures(FileReceiver::written, (receiver, count), ()),
        old(receiver).state matches FileReceiverState::ReadingChunkData(left) && count <= left,
    ensures
        ({
            let left = old(receiver).state->ReadingChunkData_0;
            if count == left {
                final(receiver).state is ReadingKind
            } else {
                final(receiver).state matches FileReceiverState::ReadingChunkData(rest) && rest
                    == left - count
            }
        }),
{
}

/// What a single byte does to a receiver, and what is written of it. A kind is one, for data, or two, for
/// the end. A length is eight bytes, at most four thousand and sixty-seven. Data is written, byte by byte,
/// until there is no more of it. After the end nothing is taken.
pub proof fn law_receivers_take_bytes_one_by_one(receiver: ReceiverView, byte: u8)
    requires
        receiver matches ReceiverView::ReadingSize(begun) ==> begun.len() < 8,
        receiver matches ReceiverView::ReadingChunkData(left) ==> left > 0,
    ensures
        receiver.run(seq![]) == Some((receiver, Seq::<u8>::empty())),
        receiver.run(seq![byte]) == match receiver {
            ReceiverView::ReadingKind => if byte == 1 {
                Some((ReceiverView::ReadingSize(seq![]), Seq::<u8>::empty()))
            } else if byte == 2 {
                Some((ReceiverView::Done, Seq::<u8>::empty()))
            } else {
                None
            },
            ReceiverView::ReadingSize(begun) => if begun.len() < 7 {
                Some((ReceiverView::ReadingSize(begun.push(byte)), Seq::<u8>::empty()))
            } else if number_in(begun.push(byte)) <= 4067 {
                Some(
                    (
                        ReceiverView::ReadingChunkData(number_in(begun.push(byte)) as nat),
                        Seq::<u8>::empty(),
                    ),
                )
            } else {
                None
            },
            ReceiverView::ReadingChunkData(left) => if left == 1 {
                Some((ReceiverView::ReadingKind, seq![byte]))
            } else {
                Some((ReceiverView::ReadingChunkData((left - 1) as nat), seq![byte]))
            },
            ReceiverView::Done => Some((ReceiverView::Done, Seq::<u8>::empty())),
        },
{
    assert(seq![byte].drop_first() =~= seq![]);
    if let ReceiverView::ReadingSize(begun) = receiver {
        if begun.len() == 7 {
            lemma_number_in(begun.push(byte));
        }
    }
    if let Some((next, wrote)) = receiver.after_byte(byte) {
        assert(next.run(seq![]) == Some((next, Seq::<u8>::empty())));
        assert(wrote + Seq::<u8>::empty() =~= wrote);
    }
}

} // verus!

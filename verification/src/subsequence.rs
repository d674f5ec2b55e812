//! Searching a stream of bytes for a delimiter.
use crate::matching::{find, first_at, lemma_find_first, matches_at, occurs_at};
use crate::peek::{collect, look_ahead, next, peek_nth, upcoming};
use multipeek::MultiPeek;
use vstd::prelude::*;

verus! {

/// How far a search has come.
#[derive(Clone, Copy, Debug, PartialEq, Eq, Structural)]
pub enum SubsequenceStatus {
    /// The delimiter stands at the cursor.
    Pending,
    /// The bytes ended before the delimiter could be matched.
    NotMatched,
    /// Something other than the delimiter stands at the cursor.
    Continue,
    /// The delimiter stands at this position.
    FoundAt(usize),
}

/// The bytes from `at` on are a beginning of the delimiter, and end before it does.
pub open spec fn runs_out_at(delimiter: Seq<u8>, bytes: Seq<u8>, at: int) -> bool {
    &&& 0 <= at <= bytes.len()
    &&& bytes.len() < at + delimiter.len()
    &&& bytes.skip(at) == delimiter.take(bytes.len() - at)
}

/// A search that moves forward byte by byte learns at `at`, if not before, how it ends.
pub open spec fn decided_at(delimiter: Seq<u8>, bytes: Seq<u8>, at: int) -> bool {
    occurs_at(delimiter, bytes, at) || runs_out_at(delimiter, bytes, at)
}

/// What stands at the cursor, compared with `delimiter`.
pub open spec fn compared(delimiter: Seq<u8>, ahead: Seq<u8>) -> SubsequenceStatus {
    if occurs_at(delimiter, ahead, 0) {
        SubsequenceStatus::Pending
    } else if runs_out_at(delimiter, ahead, 0) {
        SubsequenceStatus::NotMatched
    } else {
        SubsequenceStatus::Continue
    }
}

/// Searches the bytes that are ahead for the first place where `delimiter` stands, window by window.
pub fn find_subsequence_by_windows_iter(
    delimiter: &[u8],
    iter: MultiPeek<std::vec::IntoIter<u8>>,
) -> (status: SubsequenceStatus)
    requires
        delimiter@.len() > 0,
    ensures
        match status {
            SubsequenceStatus::FoundAt(at) => find(delimiter@, upcoming(iter)) == Some(at as int),
            SubsequenceStatus::NotMatched => find(delimiter@, upcoming(iter)) is None,
            _ => false,
        },
{
    let remaining_bytes = collect(iter);
    let length = remaining_bytes.len();
    let mut at: usize = 0;
    while at < length && delimiter.len() <= length - at
        invariant
            at <= length == remaining_bytes@.len(),
            remaining_bytes@ == upcoming(iter),
            delimiter@.len() > 0,
            forall|before: int| 0 <= before < at ==> !occurs_at(delimiter@, remaining_bytes@, before),
        decreases length - at,
    {
        if matches_at(delimiter, remaining_bytes.as_slice(), at) {
            proof {
                lemma_find_first(delimiter@, remaining_bytes@, at as int);
            }
            return SubsequenceStatus::FoundAt(at);
        }
        at += 1;
    }
    assert(forall|at: int| !first_at(delimiter@, remaining_bytes@, at));
    SubsequenceStatus::NotMatched
}

/// Compares what is ahead with `delimiter`, without moving the cursor.
fn compare_ahead(delimiter: &[u8], iter: &mut MultiPeek<std::vec::IntoIter<u8>>) -> (status:
    SubsequenceStatus)
    ensures
        status == compared(delimiter@, upcoming(*old(iter))),
        upcoming(*final(iter)) == upcoming(*old(iter)),
{
    let ghost ahead = upcoming(*iter);
    let mut position: usize = 0;
    while position < delimiter.len()
        invariant
            position <= delimiter@.len(),
            position <= ahead.len(),
            ahead == upcoming(*old(iter)),
            upcoming(*iter) == ahead,
            forall|k: int| 0 <= k < position ==> delimiter@[k] == ahead[k],
        decreases delimiter@.len() - position,
    {
        match peek_nth(iter, position) {
            Some(actual) => {
                if actual != delimiter[position] {
                    proof {
                        if occurs_at(delimiter@, ahead, 0) {
                            assert(ahead.subrange(0, delimiter@.len() as int)[position as int]
                                == ahead[position as int]);
                        }
                        if runs_out_at(delimiter@, ahead, 0) {
                            assert(ahead.skip(0)[position as int] == ahead[position as int]);
                        }
                    }
                    return SubsequenceStatus::Continue;
                }
            },
            None => {
                assert(ahead.skip(0) =~= delimiter@.take(ahead.len() as int));
                return SubsequenceStatus::NotMatched;
            },
        }
        position += 1;
    }
    assert(ahead.subrange(0, delimiter@.len() as int) =~= delimiter@);
    SubsequenceStatus::Pending
}

/// Moves forward byte by byte until the delimiter stands at the cursor or the bytes run out.
fn scan(delimiter: &[u8], bytes: Vec<u8>) -> (position: Result<u16, SubsequenceStatus>)
    requires
        bytes@.len() <= u16::MAX || exists|at: int|
            0 <= at <= u16::MAX && decided_at(delimiter@, bytes@, at),
    ensures
        match position {
            Ok(at) => find(delimiter@, bytes@) == Some(at as int),
            Err(status) => status == SubsequenceStatus::NotMatched && find(delimiter@, bytes@) is None,
        },
{
    let ghost all = bytes@;
    let mut bytes_iter = look_ahead(bytes);
    let mut final_pos: u16 = 0;
    assert(all.skip(0) =~= all);
    loop
        invariant
            all == bytes@,
            final_pos <= all.len(),
            upcoming(bytes_iter) == all.skip(final_pos as int),
            forall|before: int| 0 <= before < final_pos ==> !decided_at(delimiter@, all, before),
            all.len() <= u16::MAX || exists|at: int|
                0 <= at <= u16::MAX && decided_at(delimiter@, all, at),
        decreases all.len() - final_pos,
    {
        let ghost ahead = all.skip(final_pos as int);
        proof {
            let at = final_pos as int;
            if at + delimiter@.len() <= all.len() {
                assert(ahead.subrange(0, delimiter@.len() as int) =~= all.subrange(
                    at,
                    at + delimiter@.len(),
                ));
            }
            assert(ahead.skip(0) =~= all.skip(at));
            assert(occurs_at(delimiter@, ahead, 0) == occurs_at(delimiter@, all, at));
            assert(runs_out_at(delimiter@, ahead, 0) == runs_out_at(delimiter@, all, at));
        }
        match compare_ahead(delimiter, &mut bytes_iter) {
            SubsequenceStatus::Pending => {
                assert(forall|before: int| 0 <= before < final_pos ==> !occurs_at(delimiter@, all, before))
                    by {
                    assert(forall|before: int|
                        occurs_at(delimiter@, all, before) ==> decided_at(delimiter@, all, before));
                }
                proof {
                    lemma_find_first(delimiter@, all, final_pos as int);
                }
                return Ok(final_pos);
            },
            SubsequenceStatus::NotMatched => {
                assert forall|at: int| !first_at(delimiter@, all, at) by {
                    if 0 <= at < final_pos {
                        assert(!decided_at(delimiter@, all, at));
                    }
                }
                return Err(SubsequenceStatus::NotMatched);
            },
            _ => {
                proof {
                    assert(!decided_at(delimiter@, all, final_pos as int));
                    if all.len() == final_pos {
                        assert(all.skip(all.len() as int) =~= delimiter@.take(0));
                        assert(all.subrange(all.len() as int, all.len() as int) =~= delimiter@.take(0));
                        if delimiter@.len() == 0 {
                            assert(delimiter@ =~= delimiter@.take(0));
                        }
                        assert(decided_at(delimiter@, all, final_pos as int));
                    }
                    assert(ahead.drop_first() =~= all.skip(final_pos + 1));
                }
                next(&mut bytes_iter);
                final_pos += 1;
            },
        }
    }
}

/// The first position of `delimiter` in `bytes`.
pub fn find_subsequence_bytes_full(delimiter: Vec<u8>, bytes: Vec<u8>) -> (position: Result<
    u16,
    SubsequenceStatus,
>)
    requires
        bytes@.len() <= u16::MAX || exists|at: int|
            0 <= at <= u16::MAX && decided_at(delimiter@, bytes@, at),
    ensures
        match position {
            Ok(at) => find(delimiter@, bytes@) == Some(at as int),
            Err(status) => status == SubsequenceStatus::NotMatched && find(delimiter@, bytes@) is None,
        },
{
    scan(delimiter.as_slice(), bytes)
}

/// Compares what is ahead with `delimiter`.
pub fn find_subsequence_bytes_iter(delimiter: &[u8], iter: MultiPeek<std::vec::IntoIter<u8>>) -> (status:
    SubsequenceStatus)
    ensures
        status == compared(delimiter@, upcoming(iter)),
{
    let mut ahead = iter;
    compare_ahead(delimiter, &mut ahead)
}

/// The first position of `delimiter` in `bytes`.
pub fn find_subsequence_bytes_full_v1(delimiter: Vec<u8>, bytes: Vec<u8>) -> (position: Result<
    u16,
    SubsequenceStatus,
>)
    requires
        bytes@.len() <= u16::MAX || exists|at: int|
            0 <= at <= u16::MAX && decided_at(delimiter@, bytes@, at),
    ensures
        match position {
            Ok(at) => find(delimiter@, bytes@) == Some(at as int),
            Err(status) => status == SubsequenceStatus::NotMatched && find(delimiter@, bytes@) is None,
        },
{
    scan(delimiter.as_slice(), bytes)
}

/// Compares the byte that is `current_position` places ahead with the first of `delimiter`.
pub fn find_subsequence_bytes_minor_iter(
    current_position: usize,
    delimiter: &[u8],
    iter: MultiPeek<std::vec::IntoIter<u8>>,
) -> (status: SubsequenceStatus)
    ensures
        status == (if delimiter@.len() == 0 {
            SubsequenceStatus::Continue
        } else if upcoming(iter).len() <= current_position {
            SubsequenceStatus::NotMatched
        } else if upcoming(iter)[current_position as int] == delimiter@[0] {
            SubsequenceStatus::Pending
        } else {
            SubsequenceStatus::Continue
        }),
{
    if delimiter.len() == 0 {
        return SubsequenceStatus::Continue;
    }
    let mut ahead = iter;
    match peek_nth(&mut ahead, current_position) {
        Some(actual) => if actual == delimiter[0] {
            SubsequenceStatus::Pending
        } else {
            SubsequenceStatus::Continue
        },
        None => SubsequenceStatus::NotMatched,
    }
}

} // verus!

//! Where a search finds a delimiter.
use crate::matching::{find, lemma_find, matches_at, occurs_at, part};
use crate::peek::{collect, upcoming};
use crate::subsequence::{
    decided_at, find_subsequence_by_windows_iter, find_subsequence_bytes_full,
    find_subsequence_bytes_full_v1, find_subsequence_bytes_iter, find_subsequence_bytes_minor_iter,
    SubsequenceStatus,
};
use multipeek::MultiPeek;
use vstd::prelude::*;

verus! {

/// A pattern occurs where every one of its bytes stands in its place, and nowhere else.
pub proof fn law_occurrence_is_byte_by_byte(pattern: Seq<u8>, bytes: Seq<u8>, at: int)
    ensures
        occurs_at(pattern, bytes, at) <==> 0 <= at && at + pattern.len() <= bytes.len() && forall|
            k: int,
        |
            0 <= k < pattern.len() ==> #[trigger] pattern[k] == bytes[at + k],
{
    if 0 <= at && at + pattern.len() <= bytes.len() {
        let window = bytes.subrange(at, at + pattern.len());
        if occurs_at(pattern, bytes, at) {
            assert forall|k: int| 0 <= k < pattern.len() implies #[trigger] pattern[k] == bytes[at + k] by {
                assert(window[k] == bytes[at + k]);
            }
        } else if forall|k: int| 0 <= k < pattern.len() ==> #[trigger] pattern[k] == bytes[at + k] {
            assert(window =~= pattern);
        }
    }
}

/// What is found is an occurrence, and there is none before it; where nothing is found, there is none at
/// all.
pub proof fn law_first_occurrence_is_found(pattern: Seq<u8>, bytes: Seq<u8>, at: int)
    ensures
        match find(pattern, bytes) {
            Some(first) => {
                &&& 0 <= first && first + pattern.len() <= bytes.len()
                &&& forall|k: int|
                    0 <= k < pattern.len() ==> #[trigger] pattern[k] == bytes[first + k]
                &&& 0 <= at < first ==> exists|k: int|
                    0 <= k < pattern.len() && #[trigger] pattern[k] != bytes[at + k]
            },
            None => 0 <= at && at + pattern.len() <= bytes.len() ==> exists|k: int|
                0 <= k < pattern.len() && #[trigger] pattern[k] != bytes[at + k],
        },
{
    lemma_find(pattern, bytes);
    law_occurrence_is_byte_by_byte(pattern, bytes, at);
    if let Some(first) = find(pattern, bytes) {
        law_occurrence_is_byte_by_byte(pattern, bytes, first);
        if 0 <= at < first {
            assert(!occurs_at(pattern, bytes, at));
        }
    } else {
        assert(!occurs_at(pattern, bytes, at));
    }
}

/// Searching window by window, a position is found exactly where the delimiter stands for the first
/// time; it is never said that the search is to be gone on with.
pub proof fn law_windows_find_the_first(
    delimiter: &[u8],
    iter: MultiPeek<std::vec::IntoIter<u8>>,
    status: SubsequenceStatus,
    at: int,
)
    requires
        delimiter@.len() > 0,
        call_ensures(find_subsequence_by_windows_iter, (delimiter, iter), status),
    ensures
        match status {
            SubsequenceStatus::FoundAt(first) => {
                &&& first + delimiter@.len() <= upcoming(iter).len()
                &&& forall|k: int|
                    0 <= k < delimiter@.len() ==> #[trigger] delimiter@[k] == upcoming(iter)[first
                        + k]
                &&& 0 <= at < first ==> exists|k: int|
                    0 <= k < delimiter@.len() && #[trigger] delimiter@[k] != upcoming(iter)[at + k]
            },
            SubsequenceStatus::NotMatched => 0 <= at && at + delimiter@.len() <= upcoming(
                iter,
            ).len() ==> exists|k: int|
                0 <= k < delimiter@.len() && #[trigger] delimiter@[k] != upcoming(iter)[at + k],
            _ => false,
        },
{
    law_first_occurrence_is_found(delimiter@, upcoming(iter), at);
}

/// Both searches through whole bytes find the first place where the delimiter stands, and say that there
/// is no match exactly where it stands nowhere.
pub proof fn law_full_searches_find_the_first(
    delimiter: Vec<u8>,
    bytes: Vec<u8>,
    one: Result<u16, SubsequenceStatus>,
    other: Result<u16, SubsequenceStatus>,
    at: int,
)
    requires
        call_ensures(find_subsequence_bytes_full, (delimiter, bytes), one),
        call_ensures(find_subsequence_bytes_full_v1, (delimiter, bytes), other),
    ensures
        one == other,
        match one {
            Ok(first) => {
                &&& first + delimiter@.len() <= bytes@.len()
                &&& forall|k: int|
                    0 <= k < delimiter@.len() ==> #[trigger] delimiter@[k] == bytes@[first + k]
                &&& 0 <= at < first ==> exists|k: int|
                    0 <= k < delimiter@.len() && #[trigger] delimiter@[k] != bytes@[at + k]
            },
            Err(status) => status == SubsequenceStatus::NotMatched && (0 <= at && at
                + delimiter@.len() <= bytes@.len() ==> exists|k: int|
                0 <= k < delimiter@.len() && #[trigger] delimiter@[k] != bytes@[at + k]),
        },
{
    law_first_occurrence_is_found(delimiter@, bytes@, at);
}

/// A search that moves byte by byte is decided where all that is there of the delimiter's length agrees
/// with it.
pub proof fn law_searches_are_decided(delimiter: Vec<u8>, bytes: Vec<u8>, at: int)
    ensures
        decided_at(delimiter@, bytes@, at) <==> 0 <= at <= bytes@.len() && forall|k: int|
            0 <= k < delimiter@.len() && at + k < bytes@.len() ==> #[trigger] delimiter@[k]
                == bytes@[at + k],
{
    let d = delimiter@;
    let b = bytes@;
    law_occurrence_is_byte_by_byte(d, b, at);
    if 0 <= at <= b.len() && b.len() < at + d.len() {
        let left = b.skip(at);
        let head = d.take(b.len() - at);
        if left == head {
            assert forall|k: int| 0 <= k < d.len() && at + k < b.len() implies #[trigger] d[k] == b[at
                + k] by {
                assert(left[k] == b[at + k]);
                assert(head[k] == d[k]);
            }
        } else if forall|k: int|
            0 <= k < d.len() && at + k < b.len() ==> #[trigger] d[k] == b[at + k] {
            assert(left =~= head) by {
                assert forall|k: int| 0 <= k < left.len() implies left[k] == head[k] by {
                    assert(d[k] == b[at + k]);
                }
            }
        }
    }
}

/// Comparing with what stands at the cursor tells three things apart: all of the delimiter stands there;
/// what is there agrees and ends too early; some byte differs.
pub proof fn law_what_is_ahead_is_compared(
    delimiter: &[u8],
    iter: MultiPeek<std::vec::IntoIter<u8>>,
    status: SubsequenceStatus,
)
    requires
        call_ensures(find_subsequence_bytes_iter, (delimiter, iter), status),
    ensures
        ({
            let ahead = upcoming(iter);
            let agrees = forall|k: int|
                0 <= k < delimiter@.len() && k < ahead.len() ==> #[trigger] delimiter@[k] == ahead[k];
            status == if !agrees {
                SubsequenceStatus::Continue
            } else if ahead.len() < delimiter@.len() {
                SubsequenceStatus::NotMatched
            } else {
                SubsequenceStatus::Pending
            }
        }),
{
    let d = delimiter@;
    let ahead = upcoming(iter);
    let agrees = forall|k: int|
        0 <= k < d.len() && k < ahead.len() ==> #[trigger] d[k] == ahead[k];
    law_occurrence_is_byte_by_byte(d, ahead, 0);
    if d.len() <= ahead.len() {
        if agrees {
            assert forall|k: int| 0 <= k < d.len() implies #[trigger] d[k] == ahead[0 + k] by {}
        } else if occurs_at(d, ahead, 0) {
            assert forall|k: int| 0 <= k < d.len() && k < ahead.len() implies #[trigger] d[k]
                == ahead[k] by {
                assert(d[k] == ahead[0 + k]);
            }
        }
    } else {
        let left = ahead.skip(0);
        let head = d.take(ahead.len() as int);
        if agrees {
            assert(left =~= head);
        } else if left == head {
            assert forall|k: int| 0 <= k < d.len() && k < ahead.len() implies #[trigger] d[k]
                == ahead[k] by {
                assert(left[k] == ahead[k]);
                assert(head[k] == d[k]);
            }
        }
    }
}

/// Comparing one byte goes by the byte at the given place and the first one of the delimiter alone.
pub proof fn law_one_byte_is_compared(
    position: usize,
    delimiter: &[u8],
    iter: MultiPeek<std::vec::IntoIter<u8>>,
    status: SubsequenceStatus,
)
    requires
        call_ensures(find_subsequence_bytes_minor_iter, (position, delimiter, iter), status),
    ensures
        status is Pending <==> delimiter@.len() > 0 && position < upcoming(iter).len() && upcoming(
            iter,
        )[position as int] == delimiter@[0],
        status is NotMatched <==> delimiter@.len() > 0 && position >= upcoming(iter).len(),
        !(status is FoundAt),
{
}

/// Copies of parts, comparisons in place and collected bytes are what they say, byte by byte.
pub proof fn law_bytes_are_copied(
    bytes: &[u8],
    from: usize,
    to: usize,
    copied: Vec<u8>,
    pattern: &[u8],
    matched: bool,
    iter: MultiPeek<std::vec::IntoIter<u8>>,
    collected: Vec<u8>,
)
    requires
        from <= to <= bytes@.len(),
        from + pattern@.len() <= bytes@.len(),
        call_ensures(part, (bytes, from, to), copied),
        call_ensures(matches_at, (pattern, bytes, from), matched),
        call_ensures(collect, (iter,), collected),
    ensures
        copied@.len() == to - from,
        forall|i: int| 0 <= i < to - from ==> #[trigger] copied@[i] == bytes@[from + i],
        matched <==> forall|k: int|
            0 <= k < pattern@.len() ==> #[trigger] pattern@[k] == bytes@[from + k],
        collected@ == upcoming(iter),
{
    law_occurrence_is_byte_by_byte(pattern@, bytes@, from as int);
}

} // verus!

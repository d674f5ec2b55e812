//! Parts of byte sequences, and where a byte pattern stands in one.
use vstd::prelude::*;

verus! {

/// `pattern` stands in `bytes` at position `at`.
pub open spec fn occurs_at(pattern: Seq<u8>, bytes: Seq<u8>, at: int) -> bool {
    &&& 0 <= at
    &&& at + pattern.len() <= bytes.len()
    &&& bytes.subrange(at, at + pattern.len()) == pattern
}

/// `pattern` stands in `bytes` at position `at`, and nowhere before it.
pub open spec fn first_at(pattern: Seq<u8>, bytes: Seq<u8>, at: int) -> bool {
    &&& occurs_at(pattern, bytes, at)
    &&& forall|before: int| 0 <= before < at ==> !occurs_at(pattern, bytes, before)
}

/// The first position at which `pattern` stands in `bytes`.
pub open spec fn find(pattern: Seq<u8>, bytes: Seq<u8>) -> Option<int> {
    if exists|at: int| first_at(pattern, bytes, at) {
        Some(choose|at: int| first_at(pattern, bytes, at))
    } else {
        None
    }
}

/// A pattern that occurs at all has a first occurrence, no later than any given one.
pub proof fn lemma_first_of_occurrence(pattern: Seq<u8>, bytes: Seq<u8>, at: int) -> (first: int)
    requires
        occurs_at(pattern, bytes, at),
    ensures
        first_at(pattern, bytes, first),
        first <= at,
    decreases at,
{
    if exists|before: int| 0 <= before < at && occurs_at(pattern, bytes, before) {
        let before = choose|before: int| 0 <= before < at && occurs_at(pattern, bytes, before);
        lemma_first_of_occurrence(pattern, bytes, before)
    } else {
        at
    }
}

/// `find` yields the one first occurrence.
pub proof fn lemma_find_first(pattern: Seq<u8>, bytes: Seq<u8>, at: int)
    requires
        first_at(pattern, bytes, at),
    ensures
        find(pattern, bytes) == Some(at),
{
    let found = choose|at: int| first_at(pattern, bytes, at);
    assert(first_at(pattern, bytes, found));
    if found < at {
        assert(!occurs_at(pattern, bytes, found));
    } else if at < found {
        assert(!occurs_at(pattern, bytes, at));
    }
}

/// What `find` says, in terms of occurrences.
pub proof fn lemma_find(pattern: Seq<u8>, bytes: Seq<u8>)
    ensures
        match find(pattern, bytes) {
            Some(at) => first_at(pattern, bytes, at),
            None => forall|at: int| !occurs_at(pattern, bytes, at),
        },
{
    match find(pattern, bytes) {
        Some(at) => {},
        None => {
            assert forall|at: int| !occurs_at(pattern, bytes, at) by {
                if occurs_at(pattern, bytes, at) {
                    let first = lemma_first_of_occurrence(pattern, bytes, at);
                    assert(first_at(pattern, bytes, first));
                }
            }
        },
    }
}

/// Bytes that follow a first occurrence do not move it.
pub proof fn lemma_find_in_extension(pattern: Seq<u8>, bytes: Seq<u8>, more: Seq<u8>)
    requires
        find(pattern, bytes) is Some,
    ensures
        find(pattern, bytes + more) == find(pattern, bytes),
{
    lemma_find(pattern, bytes);
    let at = find(pattern, bytes)->0;
    let all = bytes + more;
    assert(all.subrange(at, at + pattern.len()) == bytes.subrange(at, at + pattern.len()));
    assert forall|before: int| 0 <= before < at implies !occurs_at(pattern, all, before) by {
        assert(all.subrange(before, before + pattern.len()) == bytes.subrange(
            before,
            before + pattern.len(),
        ));
        assert(!occurs_at(pattern, bytes, before));
    }
    lemma_find_first(pattern, all, at);
}

/// Whether `pattern` stands in `bytes` at position `at`.
pub fn matches_at(pattern: &[u8], bytes: &[u8], at: usize) -> (matched: bool)
    requires
        at + pattern@.len() <= bytes@.len(),
    ensures
        matched == occurs_at(pattern@, bytes@, at as int),
{
    let length = bytes.len();
    let mut i: usize = 0;
    while i < pattern.len()
        invariant
            i <= pattern@.len(),
            length == bytes@.len(),
            at + pattern@.len() <= bytes@.len(),
            forall|k: int| 0 <= k < i ==> pattern@[k] == bytes@[at + k],
        decreases pattern@.len() - i,
    {
        if pattern[i] != bytes[at + i] {
            assert(bytes@.subrange(at as int, at + pattern@.len())[i as int] != pattern@[i as int]);
            return false;
        }
        i += 1;
    }
    assert(bytes@.subrange(at as int, at + pattern@.len()) =~= pattern@);
    true
}

/// The bytes of `bytes` from position `from` up to position `to`.
pub fn part(bytes: &[u8], from: usize, to: usize) -> (bytes_between: Vec<u8>)
    requires
        from <= to <= bytes@.len(),
    ensures
        bytes_between@ == bytes@.subrange(from as int, to as int),
{
    let mut copied: Vec<u8> = Vec::new();
    let mut i: usize = from;
    while i < to
        invariant
            from <= i <= to <= bytes@.len(),
            copied@ == bytes@.subrange(from as int, i as int),
        decreases to - i,
    {
        copied.push(bytes[i]);
        assert(bytes@.subrange(from as int, i + 1) =~= bytes@.subrange(from as int, i as int).push(
            bytes@[i as int],
        ));
        i += 1;
    }
    copied
}

} // verus!

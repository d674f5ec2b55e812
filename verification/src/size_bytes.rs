//! The bytes of a length that are still arriving, held by `arrayvec::ArrayVec`.
use arrayvec::ArrayVec;
use vstd::prelude::*;

verus! {

/// `arrayvec::ArrayVec`, a vector of at most `CAP` elements.
#[verifier::external_type_specification]
#[verifier::external_body]
#[verifier::reject_recursive_types(T)]
pub struct ExArrayVec<T, const CAP: usize>(ArrayVec<T, CAP>);

/// The bytes in the vector, in order.
pub uninterp spec fn stored(bytes: ArrayVec<u8, 8>) -> Seq<u8>;

/// Calls `ArrayVec::new`: a vector with nothing in it.
#[verifier::external_body]
pub(crate) fn no_bytes() -> (bytes: ArrayVec<u8, 8>)
    ensures
        stored(bytes) == Seq::<u8>::empty(),
{
    ArrayVec::new()
}

/// Calls `ArrayVec::remaining_capacity`: how many more bytes fit.
#[verifier::external_body]
pub(crate) fn remaining_capacity(bytes: &ArrayVec<u8, 8>) -> (room: usize)
    ensures
        room + stored(*bytes).len() == 8,
{
    bytes.remaining_capacity()
}

/// Calls `ArrayVec::try_extend_from_slice`: appends all of `more` where it fits, and nothing where it
/// does not.
#[verifier::external_body]
pub(crate) fn try_extend_from_slice(bytes: &mut ArrayVec<u8, 8>, more: &[u8]) -> (fitted: bool)
    ensures
        fitted == (stored(*old(bytes)).len() + more@.len() <= 8),
        stored(*final(bytes)) == (if fitted {
            stored(*old(bytes)) + more@
        } else {
            stored(*old(bytes))
        }),
{
    bytes.try_extend_from_slice(more).is_ok()
}

/// Calls `ArrayVec::is_full`: whether no more bytes fit.
#[verifier::external_body]
pub(crate) fn is_full(bytes: &ArrayVec<u8, 8>) -> (full: bool)
    ensures
        full == (stored(*bytes).len() == 8),
{
    bytes.is_full()
}

/// Calls `ArrayVec::as_slice`: all the bytes in the vector.
#[verifier::external_body]
pub(crate) fn as_slice(bytes: &ArrayVec<u8, 8>) -> (slice: &[u8])
    ensures
        slice@ == stored(*bytes),
{
    bytes.as_slice()
}

} // verus!

//! Bytes that can be looked at ahead of the cursor, held by `multipeek::MultiPeek`.
use multipeek::IteratorExt;
use multipeek::MultiPeek;
use vstd::prelude::*;

verus! {

/// `multipeek::MultiPeek`, an iterator whose coming items can be looked at.
#[verifier::external_type_specification]
#[verifier::external_body]
#[verifier::reject_recursive_types(I)]
pub struct ExMultiPeek<I: Iterator>(MultiPeek<I>);

/// The bytes that the iterator has yet to yield, in order.
pub uninterp spec fn upcoming(iter: MultiPeek<std::vec::IntoIter<u8>>) -> Seq<u8>;

/// Calls `multipeek::IteratorExt::multipeek` on the vector's iterator: all the bytes are ahead.
#[verifier::external_body]
pub(crate) fn look_ahead(bytes: Vec<u8>) -> (iter: MultiPeek<std::vec::IntoIter<u8>>)
    ensures
        upcoming(iter) == bytes@,
{
    bytes.into_iter().multipeek()
}

/// Calls `MultiPeek::peek_nth`: yields the byte that is `n` places ahead, if there is one, and
/// leaves the cursor where it is.
#[verifier::external_body]
pub(crate) fn peek_nth(iter: &mut MultiPeek<std::vec::IntoIter<u8>>, n: usize) -> (byte: Option<u8>)
    ensures
        upcoming(*final(iter)) == upcoming(*old(iter)),
        byte == (if n < upcoming(*old(iter)).len() {
            Some(upcoming(*old(iter))[n as int])
        } else {
            None::<u8>
        }),
{
    iter.peek_nth(n).copied()
}

/// Calls `next` of `MultiPeek`: yields the first of the bytes that are ahead and moves past it; at
/// the end yields nothing.
#[verifier::external_body]
pub(crate) fn next(iter: &mut MultiPeek<std::vec::IntoIter<u8>>) -> (byte: Option<u8>)
    ensures
        match byte {
            Some(b) => upcoming(*old(iter)).len() > 0 && b == upcoming(*old(iter))[0]
                && upcoming(*final(iter)) == upcoming(*old(iter)).drop_first(),
            None => upcoming(*old(iter)).len() == 0 && upcoming(*final(iter)).len() == 0,
        },
{
    iter.next()
}

/// The bytes that are still ahead, as a vector.
pub fn collect(iter: MultiPeek<std::vec::IntoIter<u8>>) -> (bytes: Vec<u8>)
    ensures
        bytes@ == upcoming(iter),
{
    let mut ahead = iter;
    let mut bytes: Vec<u8> = Vec::new();
    loop
        invariant
            bytes@ + upcoming(ahead) == upcoming(iter),
        decreases upcoming(ahead).len(),
    {
        match next(&mut ahead) {
            Some(byte) => {
                bytes.push(byte);
            },
            None => {
                return bytes;
            },
        }
    }
}

} // verus!

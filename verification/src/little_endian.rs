//! Numbers as bytes, the least significant byte first.
use vstd::prelude::*;

verus! {

/// The number that `bytes` stand for.
pub open spec fn value_of(bytes: Seq<u8>) -> nat
    decreases bytes.len(),
{
    if bytes.len() == 0 {
        0
    } else {
        bytes[0] as nat + 256 * value_of(bytes.drop_first())
    }
}

/// The lowest `width` bytes of a number.
pub open spec fn bytes_of(number: nat, width: nat) -> Seq<u8>
    decreases width,
{
    if width == 0 {
        Seq::empty()
    } else {
        seq![(number % 256) as u8] + bytes_of(number / 256, (width - 1) as nat)
    }
}

/// How many numbers `width` bytes can stand for.
pub open spec fn numbers_of(width: nat) -> nat
    decreases width,
{
    if width == 0 {
        1
    } else {
        256 * numbers_of((width - 1) as nat)
    }
}

/// A number that fits into `width` bytes is read back from them.
pub proof fn lemma_value_of_bytes(number: nat, width: nat)
    requires
        number < numbers_of(width),
    ensures
        bytes_of(number, width).len() == width,
        value_of(bytes_of(number, width)) == number,
    decreases width,
{
    if width > 0 {
        let bytes = bytes_of(number, width);
        lemma_value_of_bytes(number / 256, (width - 1) as nat);
        assert(bytes.drop_first() =~= bytes_of(number / 256, (width - 1) as nat));
    }
}

/// What bytes stand for is bounded by how many of them there are.
pub proof fn lemma_value_bound(bytes: Seq<u8>)
    ensures
        value_of(bytes) < numbers_of(bytes.len()),
    decreases bytes.len(),
{
    if bytes.len() > 0 {
        lemma_value_bound(bytes.drop_first());
    }
}

/// Eight bytes stand for as many numbers as a `u64` has values.
pub proof fn lemma_eight_bytes()
    ensures
        numbers_of(8) == u64::MAX + 1,
{
    reveal_with_fuel(numbers_of, 9);
}

/// The bytes of a number.
pub fn to_le_bytes(number: u64) -> (bytes: Vec<u8>)
    ensures
        bytes@ == bytes_of(number as nat, 8),
        bytes@.len() == 8,
{
    let mut bytes: Vec<u8> = Vec::new();
    let mut left: u64 = number;
    let mut i: usize = 0;
    while i < 8
        invariant
            i <= 8,
            bytes@.len() == i,
            bytes@ + bytes_of(left as nat, (8 - i) as nat) == bytes_of(number as nat, 8),
        decreases 8 - i,
    {
        let ghost before = bytes@;
        bytes.push((left % 256) as u8);
        assert(bytes@ + bytes_of((left / 256) as nat, (8 - i - 1) as nat) =~= before + bytes_of(
            left as nat,
            (8 - i) as nat,
        ));
        left = left / 256;
        i += 1;
    }
    assert(bytes@ =~= bytes_of(number as nat, 8));
    bytes
}

/// The number that eight bytes stand for.
pub fn from_le_bytes(bytes: &[u8]) -> (number: u64)
    requires
        bytes@.len() == 8,
    ensures
        number == value_of(bytes@),
{
    let mut number: u64 = 0;
    let mut i: usize = 8;
    assert(bytes@.skip(8) =~= Seq::empty());
    while i > 0
        invariant
            i <= 8,
            bytes@.len() == 8,
            number == value_of(bytes@.skip(i as int)),
        decreases i,
    {
        i -= 1;
        proof {
            let high = bytes@.skip(i as int);
            assert(high.drop_first() =~= bytes@.skip(i + 1));
            lemma_value_bound(high);
            reveal_with_fuel(numbers_of, 9);
        }
        number = number * 256 + bytes[i] as u64;
    }
    assert(bytes@.skip(0) =~= bytes@);
    number
}

} // verus!

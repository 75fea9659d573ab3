use vstd::prelude::*;
use vstd::std_specs::bits::u64_leading_zeros;
use crate::varint::spec_varint;
use crate::ser::spec_ser_bytes;

verus! {

/// The number of significant bits of `n`.
pub open spec fn bit_length(n: nat) -> nat
    decreases n,
{
    if n == 0 {
        0
    } else {
        1 + bit_length(n / 2)
    }
}

/// Sixty-four minus the leading zeros of a `u64` is its number of significant bits.
pub proof fn lemma_leading_zeros_bit_length(i: u64)
    ensures
        64 - u64_leading_zeros(i) == bit_length(i as nat),
    decreases i,
{
    reveal(u64_leading_zeros);
    if i != 0 {
        lemma_leading_zeros_bit_length(i / 2);
    }
}

/// A number of at least 128 has seven bits more than its quotient by 128.
pub proof fn lemma_bit_length_shift(n: nat)
    requires
        n >= 128,
    ensures
        bit_length(n) == 7 + bit_length(n / 128),
{
    assert(n / 2 / 2 / 2 / 2 / 2 / 2 / 2 == n / 128);
    reveal_with_fuel(bit_length, 8);
}

/// A number below 128 that is not zero has between one and seven bits.
pub proof fn lemma_bit_length_small(n: nat)
    requires
        1 <= n < 128,
    ensures
        1 <= bit_length(n) <= 7,
{
    reveal_with_fuel(bit_length, 8);
}

/// The length of a varint is the number of significant bits rounded up to whole groups
/// of seven.
pub proof fn lemma_varint_len_bits(n: nat)
    requires
        n >= 1,
    ensures
        spec_varint(n).len() == (bit_length(n) + 6) / 7,
    decreases n,
{
    if n < 128 {
        lemma_bit_length_small(n);
    } else {
        lemma_bit_length_shift(n);
        lemma_varint_len_bits(n / 128);
    }
}

/// The number of bytes that a varint takes for `max_n`, the most it takes for any value
/// up to `max_n`.
pub fn varint_size(max_n: usize) -> (r: usize)
    ensures
        r == spec_varint(max_n as nat).len(),
{
    if max_n == 0 {
        return 1;
    }
    let zeros = (max_n as u64).leading_zeros();
    proof {
        lemma_leading_zeros_bit_length(max_n as u64);
        lemma_varint_len_bits(max_n as nat);
        vstd::std_specs::bits::axiom_u64_leading_zeros(max_n as u64);
    }
    let bits = 64 - zeros as usize;
    let roundup_bits = bits + (7 - 1);
    roundup_bits / 7
}

/// The largest encoding of a `heapless::Vec<u8, N>` with capacity `capacity`: one byte
/// per element plus the length prefix of a full vector.
pub fn max_size_heapless_byte_vec(capacity: usize) -> (r: usize)
    requires
        capacity <= usize::MAX - 10,
    ensures
        r == capacity + spec_varint(capacity as nat).len(),
{
    proof {
        lemma_varint_max_len(capacity as nat);
    }
    capacity + varint_size(capacity)
}

/// A varint of a `u64` value takes at most ten bytes.
pub proof fn lemma_varint_max_len(n: nat)
    requires
        n <= u64::MAX,
    ensures
        spec_varint(n).len() <= 10,
{
    reveal_with_fuel(spec_varint, 11);
}

/// The bound is tight: a full vector of capacity `capacity` encodes to exactly
/// [`max_size_heapless_byte_vec`] bytes, and no vector it can hold encodes to more.
pub proof fn lemma_max_size_tight(capacity: nat, contents: Seq<u8>)
    requires
        contents.len() <= capacity,
    ensures
        contents.len() == capacity ==> spec_ser_bytes(contents).len() == capacity + spec_varint(
            capacity,
        ).len(),
        spec_ser_bytes(contents).len() <= capacity + spec_varint(capacity).len(),
{
    lemma_varint_monotone(contents.len(), capacity);
}

/// A varint never gets shorter as the value grows.
pub proof fn lemma_varint_monotone(a: nat, b: nat)
    requires
        a <= b,
    ensures
        spec_varint(a).len() <= spec_varint(b).len(),
    decreases b,
{
    if a >= 128 {
        lemma_varint_monotone(a / 128, b / 128);
    } else if b >= 128 {
        crate::varint::lemma_varint_len(b / 128);
    }
}

} // verus!

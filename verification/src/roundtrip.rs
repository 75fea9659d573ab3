use vstd::prelude::*;
use vstd::utf8::{encode_utf8, encode_utf8_decode_utf8, encode_utf8_valid_utf8};
use crate::error::Error;
use crate::varint::{spec_varint, lemma_varint_roundtrip, lemma_varint_type_bounds,
    U16_MAX_BYTES, U16_MAX_LAST, U32_MAX_BYTES, U32_MAX_LAST, U64_MAX_BYTES, U64_MAX_LAST,
    U128_MAX_BYTES, U128_MAX_LAST};
use crate::zigzag::{spec_zigzag, lemma_zigzag_roundtrip};
use crate::ser::{spec_ser_i128, spec_ser_unsigned, spec_ser_bytes};
use crate::de::{spec_take_i128, spec_take_u16, spec_take_u32, spec_take_len, spec_take_bytes,
    spec_take_string};

verus! {

/// Every `i128` reads back as itself from its encoding, whatever bytes follow it.
pub proof fn lemma_i128_roundtrip(v: i128, rest: Seq<u8>)
    ensures
        spec_take_i128(spec_ser_i128(v) + rest) == Ok::<(i128, nat), Error>(
            (v, spec_ser_i128(v).len()),
        ),
{
    lemma_varint_type_bounds();
    lemma_zigzag_roundtrip(v as int);
    lemma_varint_roundtrip(
        spec_zigzag(v as int),
        rest,
        U128_MAX_BYTES as nat,
        U128_MAX_LAST as nat,
    );
}

/// The encoding of an `i128` is the varint of its zig-zag code: `2 * v` for `v >= 0`,
/// `-2 * v - 1` for `v < 0`. In particular a value in -64..64 takes one byte, that code.
pub proof fn lemma_i128_encoding(v: i128)
    ensures
        v >= 0 ==> spec_ser_i128(v) == spec_varint((2 * v) as nat),
        v < 0 ==> spec_ser_i128(v) == spec_varint((-2 * v - 1) as nat),
        0 <= v < 64 ==> spec_ser_i128(v) == seq![(2 * v) as u8],
        -64 <= v < 0 ==> spec_ser_i128(v) == seq![(-2 * v - 1) as u8],
{
}

/// Reading an `i128` whose first byte `b` ends its varint gives, from that one byte,
/// `b / 2` when `b` is even and `-(b + 1) / 2` when it is odd.
pub proof fn lemma_i128_one_byte_read(b: u8, rest: Seq<u8>)
    requires
        b < 128,
    ensures
        b % 2 == 0 ==> spec_take_i128(seq![b] + rest) == Ok::<(i128, nat), Error>(((b / 2) as i128, 1)),
        b % 2 == 1 ==> spec_take_i128(seq![b] + rest) == Ok::<(i128, nat), Error>(
            ((-((b + 1) / 2)) as i128, 1),
        ),
{
    assert((seq![b] + rest)[0] == b);
}

/// Every `u16` reads back as itself from its encoding, whatever bytes follow it.
pub proof fn lemma_u16_roundtrip(v: u16, rest: Seq<u8>)
    ensures
        spec_take_u16(spec_ser_unsigned(v as nat) + rest) == Ok::<(u16, nat), Error>(
            (v, spec_ser_unsigned(v as nat).len()),
        ),
{
    lemma_varint_type_bounds();
    lemma_varint_roundtrip(v as nat, rest, U16_MAX_BYTES as nat, U16_MAX_LAST as nat);
}

/// Every `u32` reads back as itself from its encoding, whatever bytes follow it.
pub proof fn lemma_u32_roundtrip(v: u32, rest: Seq<u8>)
    ensures
        spec_take_u32(spec_ser_unsigned(v as nat) + rest) == Ok::<(u32, nat), Error>(
            (v, spec_ser_unsigned(v as nat).len()),
        ),
{
    lemma_varint_type_bounds();
    lemma_varint_roundtrip(v as nat, rest, U32_MAX_BYTES as nat, U32_MAX_LAST as nat);
}

/// Every byte string that a slice can hold reads back as itself from its encoding,
/// whatever bytes follow it.
pub proof fn lemma_bytes_roundtrip(data: Seq<u8>, rest: Seq<u8>)
    requires
        data.len() <= usize::MAX,
    ensures
        spec_take_bytes(spec_ser_bytes(data) + rest) == Ok::<(Seq<u8>, nat), Error>(
            (data, spec_ser_bytes(data).len()),
        ),
{
    lemma_varint_type_bounds();
    let prefix = spec_varint(data.len());
    let s = spec_ser_bytes(data) + rest;
    assert(s =~= prefix + (data + rest));
    lemma_varint_roundtrip(data.len(), data + rest, U64_MAX_BYTES as nat, U64_MAX_LAST as nat);
    assert(spec_take_len(s) == Ok::<(usize, nat), Error>((data.len() as usize, prefix.len())));
    assert(s.subrange(prefix.len() as int, (prefix.len() + data.len()) as int) =~= data);
}

/// Every string whose UTF-8 form a slice can hold reads back as itself from its
/// encoding, whatever bytes follow it.
pub proof fn lemma_string_roundtrip(chars: Seq<char>, rest: Seq<u8>)
    requires
        encode_utf8(chars).len() <= usize::MAX,
    ensures
        spec_take_string(spec_ser_bytes(encode_utf8(chars)) + rest) == Ok::<(Seq<char>, nat), Error>(
            (chars, spec_ser_bytes(encode_utf8(chars)).len()),
        ),
{
    lemma_bytes_roundtrip(encode_utf8(chars), rest);
    encode_utf8_valid_utf8(chars);
    encode_utf8_decode_utf8(chars);
}

} // verus!

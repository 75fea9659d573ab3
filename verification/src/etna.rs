//! Property checks over the wire format, one per historical defect: each takes an
//! input, runs a serialization scenario, and reports whether the expected behaviour
//! held. Every one of them is proved to report `Pass` on every input.
use vstd::prelude::*;
use vstd::slice::{slice_subrange, slice_to_vec};
use vstd::string::StringExecFns;
use vstd::utf8::{encode_utf8, is_ascii_chars, is_ascii_chars_encode_utf8, encode_utf8_valid_utf8};
use crate::error::Error;
use crate::varint::{spec_varint, encode_varint, lemma_varint_type_bounds,
    lemma_take_varint_bounds, U16_MAX_BYTES, U16_MAX_LAST, U128_MAX_BYTES, U128_MAX_LAST};
use crate::ser::{spec_ser_i128, spec_ser_bytes, append_bytes, to_slice_i128,
    to_slice_bytes, collect_str};
use crate::de::{spec_take_u8, spec_take_u16, spec_take_u32, take_u8, take_u16, take_u32, from_bytes_i128, from_bytes_byte_vec,
    from_bytes_string};
use crate::roundtrip::{lemma_i128_roundtrip, lemma_u16_roundtrip, lemma_u32_roundtrip,
    lemma_bytes_roundtrip, lemma_string_roundtrip};
use crate::framing::to_stdvec_cobs_byte_vec;
use crate::accumulator::CobsAccumulator;
use crate::heapless_vec::{hvec_new, hvec_as_slice, spec_zeros, to_vec_hvec_zeros,
    to_stdvec_hvec};
use crate::max_size::{max_size_heapless_byte_vec, lemma_max_size_tight};

verus! {

/// The outcome of a property check.
#[derive(Debug, Clone, PartialEq, Eq)]
pub enum PropertyResult {
    Pass,
    Fail(String),
    Discard,
}

/// The name of an error, as its `Debug` form prints it.
pub open spec fn spec_error_name(e: Error) -> Seq<char> {
    match e {
        Error::SerializeBufferFull => "SerializeBufferFull"@,
        Error::DeserializeUnexpectedEnd => "DeserializeUnexpectedEnd"@,
        Error::DeserializeBadVarint => "DeserializeBadVarint"@,
        Error::DeserializeBadUtf8 => "DeserializeBadUtf8"@,
        Error::DeserializeBadEncoding => "DeserializeBadEncoding"@,
    }
}

/// The name of an error, as its `Debug` form prints it.
fn error_name(e: Error) -> (r: &'static str)
    ensures
        r@ == spec_error_name(e),
{
    match e {
        Error::SerializeBufferFull => "SerializeBufferFull",
        Error::DeserializeUnexpectedEnd => "DeserializeUnexpectedEnd",
        Error::DeserializeBadVarint => "DeserializeBadVarint",
        Error::DeserializeBadUtf8 => "DeserializeBadUtf8",
        Error::DeserializeBadEncoding => "DeserializeBadEncoding",
    }
}

/// A failed check with the given message.
fn fail(msg: &str) -> (r: PropertyResult)
    ensures
        r matches PropertyResult::Fail(m) && m@ == msg@,
{
    PropertyResult::Fail(msg.to_owned())
}

/// A failed check whose message names the error that caused it.
fn fail_with(msg: &str, e: Error) -> (r: PropertyResult)
    ensures
        r matches PropertyResult::Fail(m) && m@ == msg@ + spec_error_name(e),
{
    PropertyResult::Fail(msg.to_owned().concat(error_name(e)))
}

/// `a` and `b` hold the same bytes.
pub fn bytes_equal(a: &[u8], b: &[u8]) -> (r: bool)
    ensures
        r == (a@ == b@),
{
    if a.len() != b.len() {
        return false;
    }
    let mut i: usize = 0;
    while i < a.len()
        invariant
            i <= a@.len(),
            a@.len() == b@.len(),
            a@.take(i as int) == b@.take(i as int),
        decreases a@.len() - i,
    {
        if a[i] != b[i] {
            assert(a@[i as int] != b@[i as int]);
            return false;
        }
        i = i + 1;
        assert(a@.take(i as int) =~= b@.take(i as int));
    }
    assert(a@ =~= a@.take(i as int));
    assert(b@ =~= b@.take(i as int));
    true
}

// ---- i128 ----

/// Round-trips an `i128` through a 32-byte output slice and back. Every value
/// round-trips, so the check always passes.
pub fn property_i128_roundtrip(value: i128) -> (r: PropertyResult)
    ensures
        r == PropertyResult::Pass,
{
    let mut buf = [0u8; 32];
    proof {
        lemma_i128_roundtrip(value, Seq::empty());
        assert(spec_ser_i128(value) + Seq::<u8>::empty() =~= spec_ser_i128(value));
        lemma_varint_type_bounds();
        lemma_take_varint_bounds(spec_ser_i128(value), U128_MAX_BYTES as nat, U128_MAX_LAST as nat);
    }
    let used = match to_slice_i128(value, &mut buf) {
        Ok(n) => n,
        Err(e) => {
            return fail_with("serialize failed: ", e);
        },
    };
    let owned = slice_to_vec(slice_subrange(buf.as_slice(), 0, used));
    assert(owned@ =~= spec_ser_i128(value));
    match from_bytes_i128(owned.as_slice()) {
        Ok(decoded) => if decoded == value {
            PropertyResult::Pass
        } else {
            fail("roundtrip mismatch")
        },
        Err(e) => fail_with("deserialize failed: ", e),
    }
}

// ---- tuple struct ----

/// A tuple struct of three fields. It is encoded field by field with no length prefix:
/// the `u8` as a raw byte, the `u16` and `u32` as varints.
#[derive(Debug, PartialEq, Eq, Structural)]
pub struct TupleS(pub u8, pub u16, pub u32);

/// The encoding of a [`TupleS`].
pub open spec fn spec_ser_tuple_s(t: TupleS) -> Seq<u8> {
    seq![t.0] + spec_varint(t.1 as nat) + spec_varint(t.2 as nat)
}

/// Reading a [`TupleS`]: its three fields in order.
pub open spec fn spec_take_tuple_s(s: Seq<u8>) -> Result<(TupleS, nat), Error> {
    match spec_take_u8(s) {
        Ok((a, n1)) => match spec_take_u16(s.skip(n1 as int)) {
            Ok((b, n2)) => match spec_take_u32(s.skip((n1 + n2) as int)) {
                Ok((c, n3)) => Ok((TupleS(a, b, c), n1 + n2 + n3)),
                Err(e) => Err(e),
            },
            Err(e) => Err(e),
        },
        Err(e) => Err(e),
    }
}

/// Serializes a [`TupleS`] into a new vector.
pub fn to_stdvec_tuple_s(t: &TupleS) -> (r: Vec<u8>)
    ensures
        r@ == spec_ser_tuple_s(*t),
{
    let mut out: Vec<u8> = Vec::new();
    out.push(t.0);
    let b = encode_varint(t.1 as u128);
    append_bytes(&mut out, b.as_slice());
    let c = encode_varint(t.2 as u128);
    append_bytes(&mut out, c.as_slice());
    assert(out@ =~= spec_ser_tuple_s(*t));
    out
}

/// Deserializes a [`TupleS`] from the front of `s`; bytes after it are ignored.
pub fn from_bytes_tuple_s(s: &[u8]) -> (r: Result<TupleS, Error>)
    ensures
        match spec_take_tuple_s(s@) {
            Ok((v, _)) => r == Ok::<TupleS, Error>(v),
            Err(e) => r == Err::<TupleS, Error>(e),
        },
{
    assert(s@.skip(0) =~= s@);
    let (a, p1) = match take_u8(s, 0) {
        Ok(x) => x,
        Err(e) => {
            return Err(e);
        },
    };
    proof {
        lemma_varint_type_bounds();
        lemma_take_varint_bounds(s@.skip(p1 as int), U16_MAX_BYTES as nat, U16_MAX_LAST as nat);
    }
    let (b, p2) = match take_u16(s, p1) {
        Ok(x) => x,
        Err(e) => {
            return Err(e);
        },
    };
    let (c, _) = match take_u32(s, p2) {
        Ok(x) => x,
        Err(e) => {
            return Err(e);
        },
    };
    Ok(TupleS(a, b, c))
}

/// The layout of a [`TupleS`]: the `u8` field is its first byte, unchanged; the `u16`
/// field follows as a varint, then the `u32` field as a varint; there is no length
/// prefix, so three fields take between three and nine bytes.
pub proof fn lemma_tuple_s_layout(t: TupleS)
    ensures
        spec_ser_tuple_s(t)[0] == t.0,
        spec_ser_tuple_s(t).skip(1) == spec_varint(t.1 as nat) + spec_varint(t.2 as nat),
        3 <= spec_ser_tuple_s(t).len() <= 9,
{
    crate::varint::lemma_varint_len(t.1 as nat);
    crate::varint::lemma_varint_len(t.2 as nat);
    lemma_varint_len_three(t.1 as nat);
    crate::max_size::lemma_varint_max_len(t.2 as nat);
    reveal_with_fuel(spec_varint, 6);
    assert(spec_ser_tuple_s(t).skip(1) =~= spec_varint(t.1 as nat) + spec_varint(t.2 as nat));
}

/// Reading a [`TupleS`] takes its `u8` field as the first byte, unchanged, and the other
/// two fields from what follows: the `u16` varint, then the `u32` varint.
pub proof fn lemma_tuple_s_read(s: Seq<u8>)
    ensures
        spec_take_tuple_s(s) matches Ok((t, n)) ==> {
            &&& s.len() >= 1
            &&& t.0 == s[0]
            &&& spec_take_u16(s.skip(1)) matches Ok((b, n2)) && b == t.1 && (spec_take_u32(
                s.skip((1 + n2) as int),
            ) matches Ok((c, n3)) && c == t.2 && n == 1 + n2 + n3)
        },
        s.len() == 0 ==> spec_take_tuple_s(s) == Err::<(TupleS, nat), Error>(
            Error::DeserializeUnexpectedEnd,
        ),
{
}

/// Every [`TupleS`] reads back as itself from its encoding, whatever bytes follow it.
pub proof fn lemma_tuple_s_roundtrip(t: TupleS, rest: Seq<u8>)
    ensures
        spec_take_tuple_s(spec_ser_tuple_s(t) + rest) == Ok::<(TupleS, nat), Error>(
            (t, spec_ser_tuple_s(t).len()),
        ),
{
    let eb = spec_varint(t.1 as nat);
    let ec = spec_varint(t.2 as nat);
    let s = spec_ser_tuple_s(t) + rest;
    assert(s.skip(1) =~= eb + (ec + rest));
    lemma_u16_roundtrip(t.1, ec + rest);
    assert(s.skip((1 + eb.len()) as int) =~= ec + rest);
    lemma_u32_roundtrip(t.2, rest);
}

/// Round-trips a three-field tuple struct through a vector and back. Every value
/// round-trips, so the check always passes.
pub fn property_tuple_struct_roundtrip(value: (u8, u16, u32)) -> (r: PropertyResult)
    ensures
        r == PropertyResult::Pass,
{
    let v = TupleS(value.0, value.1, value.2);
    let bytes = to_stdvec_tuple_s(&v);
    proof {
        lemma_tuple_s_roundtrip(v, Seq::empty());
        assert(spec_ser_tuple_s(v) + Seq::<u8>::empty() =~= spec_ser_tuple_s(v));
    }
    match from_bytes_tuple_s(bytes.as_slice()) {
        Ok(d) => if d == v {
            PropertyResult::Pass
        } else {
            fail("roundtrip mismatch")
        },
        Err(e) => fail_with("deserialize: ", e),
    }
}

// ---- byte strings ----

/// The first `n` bytes of `payload`, or all of it when it is shorter.
pub fn take_prefix(payload: Vec<u8>, n: usize) -> (r: Vec<u8>)
    ensures
        r@ == payload@.take(if payload@.len() < n { payload@.len() as int } else { n as int }),
{
    let end = if payload.len() < n {
        payload.len()
    } else {
        n
    };
    slice_to_vec(slice_subrange(payload.as_slice(), 0, end))
}

/// Round-trips a byte string of at most 64 bytes (longer inputs are cut to their first 64)
/// through a 256-byte output slice, written as a length-prefixed byte string, and reads it
/// back as a `Vec<u8>`. Every byte string round-trips, so the check always passes.
pub fn property_bytes_roundtrip(payload: Vec<u8>) -> (r: PropertyResult)
    ensures
        r == PropertyResult::Pass,
{
    let payload = take_prefix(payload, 64);
    let mut buf = vec![0u8; 256];
    proof {
        lemma_bytes_roundtrip(payload@, Seq::empty());
        assert(spec_ser_bytes(payload@) + Seq::<u8>::empty() =~= spec_ser_bytes(payload@));
        reveal_with_fuel(spec_varint, 2);
    }
    let written = match to_slice_bytes(payload.as_slice(), buf.as_mut_slice()) {
        Ok(used) => used,
        Err(e) => {
            return fail_with("serialize: ", e);
        },
    };
    let bytes = slice_subrange(buf.as_slice(), 0, written);
    assert(bytes@ =~= spec_ser_bytes(payload@));
    match from_bytes_byte_vec(bytes) {
        Ok(d) => if bytes_equal(d.as_slice(), payload.as_slice()) {
            PropertyResult::Pass
        } else {
            fail("roundtrip mismatch")
        },
        Err(e) => fail_with("deserialize: ", e),
    }
}

// ---- COBS accumulator ----

/// Feeds a whole frame to a fresh accumulator of `N` bytes. Feeding cannot fail to
/// complete, whatever `N` and the frame are, so the check always passes.
fn feed_typed<const N: usize>(frame: &[u8]) -> (r: PropertyResult)
    ensures
        r == PropertyResult::Pass,
{
    let mut acc: CobsAccumulator<N> = CobsAccumulator::new();
    let _ = acc.feed(frame);
    PropertyResult::Pass
}

/// Feeds the COBS frame of a byte string to an accumulator whose capacity, between 1 and
/// 15, is picked from `seed`; the payload is sized so that the frame is one byte longer
/// than the capacity (for capacities of at least 2; for capacity 1 the frame has 3 bytes),
/// which is proved below. Feeding always completes, so the check always passes.
pub fn property_cobs_acc_no_oob(seed: u8) -> (r: PropertyResult)
    ensures
        r == PropertyResult::Pass,
{
    let cap = ((seed % 15) + 1) as usize;
    let payload_len = cap.saturating_sub(2);
    let payload = vec![0xCCu8; payload_len];
    let frame = to_stdvec_cobs_byte_vec(payload.as_slice());
    assert(cap >= 2 ==> frame@.len() == cap + 1);
    assert(cap == 1 ==> frame@.len() == 3);
    match cap {
        1 => feed_typed::<1>(frame.as_slice()),
        2 => feed_typed::<2>(frame.as_slice()),
        3 => feed_typed::<3>(frame.as_slice()),
        4 => feed_typed::<4>(frame.as_slice()),
        5 => feed_typed::<5>(frame.as_slice()),
        6 => feed_typed::<6>(frame.as_slice()),
        7 => feed_typed::<7>(frame.as_slice()),
        8 => feed_typed::<8>(frame.as_slice()),
        9 => feed_typed::<9>(frame.as_slice()),
        10 => feed_typed::<10>(frame.as_slice()),
        11 => feed_typed::<11>(frame.as_slice()),
        12 => feed_typed::<12>(frame.as_slice()),
        13 => feed_typed::<13>(frame.as_slice()),
        14 => feed_typed::<14>(frame.as_slice()),
        _ => feed_typed::<15>(frame.as_slice()),
    }
}

// ---- maximum sizes ----

/// A varint of a value below 2^21 takes at most three bytes.
proof fn lemma_varint_len_three(n: nat)
    requires
        n < 0x20_0000,
    ensures
        spec_varint(n).len() <= 3,
{
    reveal_with_fuel(spec_varint, 4);
}

/// The maximum encoded size of a zero-capacity byte vector covers the encoding of the
/// empty vector, which is the single length byte `0x00`. It does, so the check always
/// passes.
pub fn property_max_size_heapless_vec_zero(_unit: ()) -> (r: PropertyResult)
    ensures
        r == PropertyResult::Pass,
{
    let v = hvec_new();
    let bytes = to_stdvec_hvec(&v);
    let max = max_size_heapless_byte_vec(0);
    proof {
        reveal_with_fuel(spec_varint, 1);
    }
    if max < bytes.len() {
        return fail("POSTCARD_MAX_SIZE is below the encoded length");
    }
    PropertyResult::Pass
}

/// Serializes a byte vector filled to `capacity` into a `heapless::Vec<u8, 16400>` and
/// checks that the encoding is exactly as long as the maximum encoded size of a vector of
/// that capacity. When the encoding fits in 16400 bytes the bound is tight and the check
/// passes; otherwise serialization fails and the check reports it.
fn check_vec_max(capacity: usize) -> (r: PropertyResult)
    ensures
        capacity + spec_varint(capacity as nat).len() <= 16400 ==> r == PropertyResult::Pass,
        capacity + spec_varint(capacity as nat).len() > 16400 ==> (r matches PropertyResult::Fail(m)
            && m@ == "serialize: "@ + spec_error_name(Error::SerializeBufferFull)),
{
    proof {
        lemma_max_size_tight(capacity as nat, spec_zeros(capacity as nat));
    }
    let bytes = match to_vec_hvec_zeros(capacity) {
        Ok(b) => b,
        Err(e) => {
            return fail_with("serialize: ", e);
        },
    };
    let max = max_size_heapless_byte_vec(capacity);
    if max != hvec_as_slice(&bytes).len() {
        return fail("POSTCARD_MAX_SIZE differs from the encoded length");
    }
    PropertyResult::Pass
}

/// Checks the maximum encoded size of a full byte vector against its encoding for one of
/// the capacities 127, 128, 16383 and 16384, picked from `payload_len`. The bound is
/// tight for every capacity, so the check always passes.
pub fn property_max_size_vec_upper_bound(payload_len: u16) -> (r: PropertyResult)
    ensures
        r == PropertyResult::Pass,
{
    let n = (payload_len % 4) as usize;
    proof {
        lemma_varint_len_three(127);
        lemma_varint_len_three(128);
        lemma_varint_len_three(16383);
        lemma_varint_len_three(16384);
    }
    match n {
        0 => check_vec_max(127),
        1 => check_vec_max(128),
        2 => check_vec_max(16383),
        _ => check_vec_max(16384),
    }
}

// ---- strings through collect_str ----

/// The string of the first `len` letters of the alphabet (`len` at most 26), as bytes.
pub open spec fn spec_letters(len: nat) -> Seq<u8> {
    Seq::new(len, |i: int| (97 + i % 26) as u8)
}

/// ASCII bytes are valid UTF-8 and are the encoding of the characters they stand for.
proof fn lemma_ascii_utf8(bytes: Seq<u8>)
    requires
        forall|i: int| 0 <= i < bytes.len() ==> bytes[i] < 128,
    ensures
        encode_utf8(Seq::new(bytes.len(), |i: int| bytes[i] as char)) == bytes,
{
    let chars = Seq::new(bytes.len(), |i: int| bytes[i] as char);
    assert(is_ascii_chars(chars));
    is_ascii_chars_encode_utf8(chars);
    assert(encode_utf8(chars) =~= bytes);
}

/// Serializes a short string through the path that serializes a value by its `Display`
/// text, then reads it back as a `String`. The string is made of the first 1 to 16
/// letters of the alphabet, as many as `seed` picks. Every string round-trips, so the
/// check always passes.
pub fn property_collect_str_roundtrip(seed: u8) -> (r: PropertyResult)
    ensures
        r == PropertyResult::Pass,
{
    let len = ((seed % 16) as usize) + 1;
    let mut letters: Vec<u8> = Vec::new();
    let mut i: usize = 0;
    while i < len
        invariant
            i <= len <= 16,
            letters@ == spec_letters(i as nat),
        decreases len - i,
    {
        letters.push(97u8 + (i as u8) % 26);
        i = i + 1;
        assert(letters@ =~= spec_letters(i as nat));
    }
    proof {
        lemma_ascii_utf8(letters@);
        encode_utf8_valid_utf8(Seq::new(letters@.len(), |i: int| letters@[i] as char));
    }
    let text = match core::str::from_utf8(letters.as_slice()) {
        Ok(t) => t,
        Err(_) => {
            return fail("letters are not UTF-8");
        },
    };
    let s: String = text.to_owned();
    let mut buf = vec![0u8; 256];
    proof {
        lemma_string_roundtrip(s@, Seq::empty());
        assert(spec_ser_bytes(encode_utf8(s@)) + Seq::<u8>::empty() =~= spec_ser_bytes(
            encode_utf8(s@),
        ));
        reveal_with_fuel(spec_varint, 2);
    }
    let used_len = match collect_str(s.as_str(), buf.as_mut_slice()) {
        Ok(used) => used,
        Err(e) => {
            return fail_with("serialize: ", e);
        },
    };
    let bytes = slice_subrange(buf.as_slice(), 0, used_len);
    assert(bytes@ =~= spec_ser_bytes(encode_utf8(s@)));
    match from_bytes_string(bytes) {
        Ok(d) => if d == s {
            PropertyResult::Pass
        } else {
            fail("roundtrip mismatch")
        },
        Err(e) => fail_with("deserialize: ", e),
    }
}

} // verus!

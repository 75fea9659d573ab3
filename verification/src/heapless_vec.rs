use vstd::prelude::*;
use crate::error::Error;
use crate::varint::encode_varint;
use crate::ser::{spec_ser_bytes, to_stdvec_bytes};

verus! {

/// `heapless::Vec`, a vector with a fixed capacity; its contents are known only through
/// [`hvec_bytes`].
#[verifier::external_type_specification]
#[verifier::external_body]
#[verifier::reject_recursive_types(T)]
pub struct ExHeaplessVec<T, const N: usize>(heapless::Vec<T, N>);

/// The bytes that a `heapless::Vec<u8, 16400>` holds, in order.
pub uninterp spec fn hvec_bytes(v: heapless::Vec<u8, 16400>) -> Seq<u8>;

/// Calls `heapless::Vec::new`: an empty vector.
#[verifier::external_body]
pub(crate) fn hvec_new() -> (r: heapless::Vec<u8, 16400>)
    ensures
        hvec_bytes(r) == Seq::<u8>::empty(),
{
    heapless::Vec::new()
}

/// Calls `heapless::Vec::push`: below the capacity of 16400 it appends `item`; at the
/// capacity it hands `item` back and leaves the vector as it was.
#[verifier::external_body]
pub(crate) fn hvec_push(v: &mut heapless::Vec<u8, 16400>, item: u8) -> (r: Result<(), u8>)
    ensures
        hvec_bytes(*final(v)).len() <= 16400,
        match r {
            Ok(()) => hvec_bytes(*old(v)).len() < 16400 && hvec_bytes(*final(v)) == hvec_bytes(
                *old(v),
            ).push(item),
            Err(back) => hvec_bytes(*old(v)).len() >= 16400 && back == item && hvec_bytes(
                *final(v),
            ) == hvec_bytes(*old(v)),
        },
{
    v.push(item)
}

/// Calls `heapless::Vec::extend_from_slice`: when all of `other` fits within the capacity
/// of 16400 it appends it; otherwise it fails and leaves the vector as it was.
#[verifier::external_body]
pub(crate) fn hvec_extend_from_slice(v: &mut heapless::Vec<u8, 16400>, other: &[u8]) -> (r: Result<(), ()>)
    ensures
        hvec_bytes(*final(v)).len() <= 16400,
        match r {
            Ok(()) => hvec_bytes(*old(v)).len() + other@.len() <= 16400 && hvec_bytes(*final(v))
                == hvec_bytes(*old(v)) + other@,
            Err(()) => hvec_bytes(*old(v)).len() + other@.len() > 16400 && hvec_bytes(*final(v))
                == hvec_bytes(*old(v)),
        },
{
    v.extend_from_slice(other)
}

/// Calls `heapless::Vec::as_slice`: the bytes held, never more than the capacity.
#[verifier::external_body]
pub(crate) fn hvec_as_slice(v: &heapless::Vec<u8, 16400>) -> (r: &[u8])
    ensures
        r@ == hvec_bytes(*v),
        r@.len() <= 16400,
{
    v.as_slice()
}

/// Serializes a `heapless::Vec<u8, _>` into a new `heapless::Vec<u8, 16400>`: the length
/// as a varint, then each byte. Fails with `SerializeBufferFull` when the encoding is
/// longer than 16400 bytes.
pub fn to_vec_hvec(v: &heapless::Vec<u8, 16400>) -> (r: Result<heapless::Vec<u8, 16400>, Error>)
    ensures
        match r {
            Ok(out) => hvec_bytes(out) == spec_ser_bytes(hvec_bytes(*v)),
            Err(e) => e == Error::SerializeBufferFull && spec_ser_bytes(hvec_bytes(*v)).len() > 16400,
        },
{
    let data = hvec_as_slice(v);
    let mut out = hvec_new();
    let prefix = encode_varint(data.len() as u128);
    let ps = prefix.as_slice();
    match hvec_extend_from_slice(&mut out, ps) {
        Ok(()) => {},
        Err(()) => {
            return Err(Error::SerializeBufferFull);
        },
    }
    let mut i: usize = 0;
    while i < data.len()
        invariant
            i <= data@.len(),
            hvec_bytes(out) == prefix@ + data@.take(i as int),
            prefix@ + data@ == spec_ser_bytes(data@),
            data@ == hvec_bytes(*v),
        decreases data@.len() - i,
    {
        match hvec_push(&mut out, data[i]) {
            Ok(()) => {},
            Err(_) => {
                return Err(Error::SerializeBufferFull);
            },
        }
        i = i + 1;
        assert(hvec_bytes(out) =~= prefix@ + data@.take(i as int));
    }
    assert(data@.take(i as int) =~= data@);
    Ok(out)
}

/// `count` zero bytes.
pub open spec fn spec_zeros(count: nat) -> Seq<u8> {
    Seq::new(count, |i: int| 0u8)
}

/// Serializes a byte vector that holds `count` zero bytes into a new
/// `heapless::Vec<u8, 16400>`, as [`to_vec_hvec`] serializes one: the length as a varint,
/// then each byte. The zeros are counted rather than held, so any `count` can be given.
/// Fails with `SerializeBufferFull` when the encoding is longer than 16400 bytes.
pub fn to_vec_hvec_zeros(count: usize) -> (r: Result<heapless::Vec<u8, 16400>, Error>)
    ensures
        match r {
            Ok(out) => hvec_bytes(out) == spec_ser_bytes(spec_zeros(count as nat)) && hvec_bytes(
                out,
            ).len() <= 16400,
            Err(e) => e == Error::SerializeBufferFull && spec_ser_bytes(spec_zeros(count as nat)).len()
                > 16400,
        },
{
    let ghost zeros = spec_zeros(count as nat);
    let mut out = hvec_new();
    let prefix = encode_varint(count as u128);
    assert(prefix@ + zeros == spec_ser_bytes(zeros));
    let ps = prefix.as_slice();
    match hvec_extend_from_slice(&mut out, ps) {
        Ok(()) => {},
        Err(()) => {
            return Err(Error::SerializeBufferFull);
        },
    }
    let mut i: usize = 0;
    while i < count
        invariant
            i <= count,
            zeros == spec_zeros(count as nat),
            hvec_bytes(out) == prefix@ + zeros.take(i as int),
            hvec_bytes(out).len() <= 16400,
            prefix@ + zeros == spec_ser_bytes(zeros),
        decreases count - i,
    {
        match hvec_push(&mut out, 0u8) {
            Ok(()) => {},
            Err(_) => {
                return Err(Error::SerializeBufferFull);
            },
        }
        i = i + 1;
        assert(hvec_bytes(out) =~= prefix@ + zeros.take(i as int));
    }
    assert(zeros.take(i as int) =~= zeros);
    Ok(out)
}

/// Serializes a `heapless::Vec<u8, _>` into a new standard vector.
pub fn to_stdvec_hvec(v: &heapless::Vec<u8, 16400>) -> (r: Vec<u8>)
    ensures
        r@ == spec_ser_bytes(hvec_bytes(*v)),
{
    to_stdvec_bytes(hvec_as_slice(v))
}

} // verus!

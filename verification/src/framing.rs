use vstd::prelude::*;
use vstd::slice::slice_subrange;
use crate::error::Error;
use crate::ser::{spec_ser_bytes, to_stdvec_bytes};
use crate::de::{spec_take_bytes, from_bytes_byte_vec};

verus! {

/// `cobs::DecodeError`, carried through opaquely.
#[verifier::external_type_specification]
#[verifier::external_body]
pub struct ExDecodeError(cobs::DecodeError);

/// The COBS encoding of `data`, as `cobs::encode_vec` produces it (no sentinel byte).
pub uninterp spec fn cobs_encoding(data: Seq<u8>) -> Seq<u8>;

/// The message that `cobs::decode_in_place` decodes from `frame` (which it reads up to
/// its first zero byte), or `None` when it reports an error.
pub uninterp spec fn cobs_decoding(frame: Seq<u8>) -> Option<Seq<u8>>;

/// No byte of `s` is zero.
pub open spec fn zero_free(s: Seq<u8>) -> bool {
    forall|i: int| 0 <= i < s.len() ==> s[i] != 0
}

/// Calls `cobs::encode_vec`. Claimed of it: the result is the COBS encoding of `source`;
/// it holds no zero byte (the point of COBS, stated in the crate's documentation); and,
/// followed by a zero sentinel, `cobs::decode_in_place` decodes it back to `source` (what
/// the crate's own tests check). Of its length, only this is claimed: a source of 1 to 253
/// bytes holds no run of 254 non-zero bytes, so it takes one code byte per zero-delimited
/// run and encodes to one byte more than itself. Longer sources are left unsaid.
#[verifier::external_body]
fn cobs_encode_vec(source: &[u8]) -> (r: Vec<u8>)
    ensures
        r@ == cobs_encoding(source@),
        zero_free(r@),
        cobs_decoding(r@.push(0)) == Some(source@),
        1 <= source@.len() <= 253 ==> r@.len() == source@.len() + 1,
{
    cobs::encode_vec(source)
}

/// Calls `cobs::decode_in_place` on the first `len` bytes of `buf`. Claimed of it: it
/// succeeds exactly when [`cobs_decoding`] of those bytes is a message, which it then
/// leaves at the front of `buf` and whose length it returns; it writes nothing at or
/// beyond `len`. What it leaves between the message and `len` is left unsaid.
#[verifier::external_body]
fn cobs_decode_in_place(buf: &mut [u8], len: usize) -> (r: Result<usize, cobs::DecodeError>)
    requires
        len <= old(buf)@.len(),
    ensures
        final(buf)@.len() == old(buf)@.len(),
        final(buf)@.skip(len as int) == old(buf)@.skip(len as int),
        match cobs_decoding(old(buf)@.take(len as int)) {
            Some(msg) => r matches Ok(n) && n == msg.len() && n <= len && final(buf)@.take(
                n as int,
            ) == msg,
            None => r is Err,
        },
{
    cobs::decode_in_place(&mut buf[..len])
}

/// The frame that `to_stdvec_cobs_byte_vec` produces for `payload`: the COBS encoding of
/// its serialized form, then a zero sentinel.
pub open spec fn spec_cobs_frame(payload: Seq<u8>) -> Seq<u8> {
    cobs_encoding(spec_ser_bytes(payload)).push(0)
}

/// What deserializing a `Vec<u8>` from a COBS frame gives: the frame is decoded, then the
/// byte string is read from the front of the message.
pub open spec fn spec_from_bytes_cobs(frame: Seq<u8>) -> Result<Seq<u8>, Error> {
    match cobs_decoding(frame) {
        Some(msg) => match spec_take_bytes(msg) {
            Ok((v, _)) => Ok(v),
            Err(e) => Err(e),
        },
        None => Err(Error::DeserializeBadEncoding),
    }
}

/// Serializes a `Vec<u8>` and frames it with COBS and a zero sentinel. The frame holds
/// exactly one zero, its last byte, and decodes back to the serialized payload.
pub fn to_stdvec_cobs_byte_vec(payload: &[u8]) -> (r: Vec<u8>)
    ensures
        r@ == spec_cobs_frame(payload@),
        r@.len() >= 1,
        r@.last() == 0,
        zero_free(r@.drop_last()),
        cobs_decoding(r@) == Some(spec_ser_bytes(payload@)),
        payload@.len() < 128 ==> r@.len() == payload@.len() + 3,
{
    let plain = to_stdvec_bytes(payload);
    proof {
        if payload@.len() < 128 {
            reveal_with_fuel(crate::varint::spec_varint, 1);
        }
    }
    let mut framed = cobs_encode_vec(plain.as_slice());
    let ghost encoded = framed@;
    framed.push(0);
    assert(framed@.drop_last() =~= encoded);
    framed
}

/// Decodes the COBS frame held in the first `len` bytes of `buf` in place, then
/// deserializes a `Vec<u8>` from the message.
pub fn from_bytes_cobs_byte_vec(buf: &mut [u8], len: usize) -> (r: Result<Vec<u8>, Error>)
    requires
        len <= old(buf)@.len(),
    ensures
        match spec_from_bytes_cobs(old(buf)@.take(len as int)) {
            Ok(v) => r matches Ok(b) && b@ == v,
            Err(e) => r == Err::<Vec<u8>, Error>(e),
        },
        final(buf)@.len() == old(buf)@.len(),
{
    match cobs_decode_in_place(buf, len) {
        Ok(sz) => {
            let msg = slice_subrange(buf, 0, sz);
            assert(msg@ =~= buf@.take(sz as int));
            from_bytes_byte_vec(msg)
        },
        Err(_) => Err(Error::DeserializeBadEncoding),
    }
}

} // verus!

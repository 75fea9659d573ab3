use vstd::prelude::*;
use vstd::utf8::{valid_utf8, decode_utf8};
use vstd::string::StringSliceAdditionalSpecFns;
use crate::error::Error;
use crate::varint::{spec_take_varint, take_varint, lemma_varint_type_bounds, lemma_take_varint_bounds, U16_MAX_BYTES, U16_MAX_LAST, U32_MAX_BYTES, U32_MAX_LAST, U64_MAX_BYTES, U64_MAX_LAST, U128_MAX_BYTES, U128_MAX_LAST};
use crate::zigzag::{spec_unzigzag, de_zig_zag_i128};

verus! {

/// `core::str::Utf8Error`, carried through opaquely.
#[verifier::external_type_specification]
#[verifier::external_body]
pub struct ExUtf8Error(core::str::Utf8Error);

/// `core::str::from_utf8` accepts exactly the valid UTF-8 byte strings, and the `str` it
/// returns is made of those bytes.
pub assume_specification<'a>[ core::str::from_utf8 ](v: &'a [u8]) -> (r: Result<&'a str, core::str::Utf8Error>)
    ensures
        r is Ok <==> valid_utf8(v@),
        r matches Ok(s) ==> s.spec_bytes() == v@,
;

/// Reading one raw byte.
pub open spec fn spec_take_u8(s: Seq<u8>) -> Result<(u8, nat), Error> {
    if s.len() == 0 {
        Err(Error::DeserializeUnexpectedEnd)
    } else {
        Ok((s[0], 1))
    }
}

/// Reading a `u16`: a varint of at most three bytes.
pub open spec fn spec_take_u16(s: Seq<u8>) -> Result<(u16, nat), Error> {
    match spec_take_varint(s, U16_MAX_BYTES as nat, U16_MAX_LAST as nat) {
        Ok((v, n)) => Ok((v as u16, n)),
        Err(e) => Err(e),
    }
}

/// Reading a `u32`: a varint of at most five bytes.
pub open spec fn spec_take_u32(s: Seq<u8>) -> Result<(u32, nat), Error> {
    match spec_take_varint(s, U32_MAX_BYTES as nat, U32_MAX_LAST as nat) {
        Ok((v, n)) => Ok((v as u32, n)),
        Err(e) => Err(e),
    }
}

/// Reading an `i128`: a varint of at most nineteen bytes, zig-zag decoded.
pub open spec fn spec_take_i128(s: Seq<u8>) -> Result<(i128, nat), Error> {
    match spec_take_varint(s, U128_MAX_BYTES as nat, U128_MAX_LAST as nat) {
        Ok((v, n)) => Ok((spec_unzigzag(v) as i128, n)),
        Err(e) => Err(e),
    }
}

/// Reading a length: a 64-bit varint that must also fit in `usize`.
pub open spec fn spec_take_len(s: Seq<u8>) -> Result<(usize, nat), Error> {
    match spec_take_varint(s, U64_MAX_BYTES as nat, U64_MAX_LAST as nat) {
        Ok((v, n)) => if v <= usize::MAX {
            Ok((v as usize, n))
        } else {
            Err(Error::DeserializeBadVarint)
        },
        Err(e) => Err(e),
    }
}

/// Reading a byte string (a `Vec<u8>` or the bytes of a `str`): its length, then that
/// many bytes.
pub open spec fn spec_take_bytes(s: Seq<u8>) -> Result<(Seq<u8>, nat), Error> {
    match spec_take_len(s) {
        Ok((len, n)) => if n + len <= s.len() {
            Ok((s.subrange(n as int, n + len), (n + len) as nat))
        } else {
            Err(Error::DeserializeUnexpectedEnd)
        },
        Err(e) => Err(e),
    }
}

/// Reading a `String`: a byte string that must be valid UTF-8; the value is its
/// characters.
pub open spec fn spec_take_string(s: Seq<u8>) -> Result<(Seq<char>, nat), Error> {
    match spec_take_bytes(s) {
        Ok((bytes, n)) => if valid_utf8(bytes) {
            Ok((decode_utf8(bytes), n))
        } else {
            Err(Error::DeserializeBadUtf8)
        },
        Err(e) => Err(e),
    }
}

/// Reads one raw byte at `pos`; returns it and the position after it.
pub fn take_u8(s: &[u8], pos: usize) -> (r: Result<(u8, usize), Error>)
    requires
        pos <= s@.len(),
    ensures
        match spec_take_u8(s@.skip(pos as int)) {
            Ok((v, n)) => r == Ok::<(u8, usize), Error>((v, (pos + n) as usize)),
            Err(e) => r == Err::<(u8, usize), Error>(e),
        },
{
    if pos == s.len() {
        Err(Error::DeserializeUnexpectedEnd)
    } else {
        Ok((s[pos], pos + 1))
    }
}

/// Reads a `u16` varint at `pos`.
pub fn take_u16(s: &[u8], pos: usize) -> (r: Result<(u16, usize), Error>)
    requires
        pos <= s@.len(),
    ensures
        match spec_take_u16(s@.skip(pos as int)) {
            Ok((v, n)) => r == Ok::<(u16, usize), Error>((v, (pos + n) as usize)),
            Err(e) => r == Err::<(u16, usize), Error>(e),
        },
{
    proof {
        lemma_varint_type_bounds();
        lemma_take_varint_bounds(s@.skip(pos as int), U16_MAX_BYTES as nat, U16_MAX_LAST as nat);
    }
    match take_varint(s, pos, U16_MAX_BYTES, U16_MAX_LAST) {
        Ok((v, next)) => Ok((v as u16, next)),
        Err(e) => Err(e),
    }
}

/// Reads a `u32` varint at `pos`.
pub fn take_u32(s: &[u8], pos: usize) -> (r: Result<(u32, usize), Error>)
    requires
        pos <= s@.len(),
    ensures
        match spec_take_u32(s@.skip(pos as int)) {
            Ok((v, n)) => r == Ok::<(u32, usize), Error>((v, (pos + n) as usize)),
            Err(e) => r == Err::<(u32, usize), Error>(e),
        },
{
    proof {
        lemma_varint_type_bounds();
        lemma_take_varint_bounds(s@.skip(pos as int), U32_MAX_BYTES as nat, U32_MAX_LAST as nat);
    }
    match take_varint(s, pos, U32_MAX_BYTES, U32_MAX_LAST) {
        Ok((v, next)) => Ok((v as u32, next)),
        Err(e) => Err(e),
    }
}

/// Reads a zig-zag `i128` varint at `pos`.
pub fn take_i128(s: &[u8], pos: usize) -> (r: Result<(i128, usize), Error>)
    requires
        pos <= s@.len(),
    ensures
        match spec_take_i128(s@.skip(pos as int)) {
            Ok((v, n)) => r == Ok::<(i128, usize), Error>((v, (pos + n) as usize)),
            Err(e) => r == Err::<(i128, usize), Error>(e),
        },
{
    proof {
        lemma_varint_type_bounds();
        lemma_take_varint_bounds(s@.skip(pos as int), U128_MAX_BYTES as nat, U128_MAX_LAST as nat);
    }
    match take_varint(s, pos, U128_MAX_BYTES, U128_MAX_LAST) {
        Ok((v, next)) => Ok((de_zig_zag_i128(v), next)),
        Err(e) => Err(e),
    }
}

/// Reads a length at `pos`.
pub fn take_len(s: &[u8], pos: usize) -> (r: Result<(usize, usize), Error>)
    requires
        pos <= s@.len(),
    ensures
        match spec_take_len(s@.skip(pos as int)) {
            Ok((v, n)) => r == Ok::<(usize, usize), Error>((v, (pos + n) as usize)),
            Err(e) => r == Err::<(usize, usize), Error>(e),
        },
{
    proof {
        lemma_varint_type_bounds();
        lemma_take_varint_bounds(s@.skip(pos as int), U64_MAX_BYTES as nat, U64_MAX_LAST as nat);
    }
    match take_varint(s, pos, U64_MAX_BYTES, U64_MAX_LAST) {
        Ok((v, next)) => if v <= usize::MAX as u128 {
            Ok((v as usize, next))
        } else {
            Err(Error::DeserializeBadVarint)
        },
        Err(e) => Err(e),
    }
}

/// Reads a byte string at `pos` into a new vector.
pub fn take_bytes(s: &[u8], pos: usize) -> (r: Result<(Vec<u8>, usize), Error>)
    requires
        pos <= s@.len(),
    ensures
        match spec_take_bytes(s@.skip(pos as int)) {
            Ok((v, n)) => r matches Ok((b, next)) && b@ == v && next == pos + n,
            Err(e) => r == Err::<(Vec<u8>, usize), Error>(e),
        },
{
    let ghost rest = s@.skip(pos as int);
    proof {
        lemma_take_varint_bounds(rest, U64_MAX_BYTES as nat, U64_MAX_LAST as nat);
    }
    match take_len(s, pos) {
        Ok((len, start)) => {
            if len > s.len() - start {
                return Err(Error::DeserializeUnexpectedEnd);
            }
            let end = start + len;
            let mut out: Vec<u8> = Vec::new();
            let mut i: usize = 0;
            while i < len
                invariant
                    i <= len,
                    end == start + len,
                    end <= s@.len(),
                    out@ == s@.subrange(start as int, start + i),
                decreases len - i,
            {
                out.push(s[start + i]);
                i = i + 1;
                assert(out@ =~= s@.subrange(start as int, start + i));
            }
            assert(rest.subrange((start - pos) as int, (start - pos) + len) =~= s@.subrange(
                start as int,
                start + len,
            ));
            Ok((out, start + len))
        },
        Err(e) => Err(e),
    }
}

/// Reads a `String` at `pos`.
pub fn take_string(s: &[u8], pos: usize) -> (r: Result<(String, usize), Error>)
    requires
        pos <= s@.len(),
    ensures
        match spec_take_string(s@.skip(pos as int)) {
            Ok((v, n)) => r matches Ok((d, next)) && d@ == v && next == pos + n,
            Err(e) => r == Err::<(String, usize), Error>(e),
        },
{
    match take_bytes(s, pos) {
        Ok((bytes, next)) => match core::str::from_utf8(bytes.as_slice()) {
            Ok(text) => {
                proof {
                    vstd::utf8::encode_utf8_decode_utf8(text@);
                }
                Ok((text.to_owned(), next))
            },
            Err(_) => Err(Error::DeserializeBadUtf8),
        },
        Err(e) => Err(e),
    }
}

/// Deserializes an `i128` from the front of `s`; bytes after it are ignored.
pub fn from_bytes_i128(s: &[u8]) -> (r: Result<i128, Error>)
    ensures
        match spec_take_i128(s@) {
            Ok((v, _)) => r == Ok::<i128, Error>(v),
            Err(e) => r == Err::<i128, Error>(e),
        },
{
    assert(s@.skip(0) =~= s@);
    match take_i128(s, 0) {
        Ok((v, _)) => Ok(v),
        Err(e) => Err(e),
    }
}

/// Deserializes a `Vec<u8>` from the front of `s`; bytes after it are ignored.
pub fn from_bytes_byte_vec(s: &[u8]) -> (r: Result<Vec<u8>, Error>)
    ensures
        match spec_take_bytes(s@) {
            Ok((v, _)) => r matches Ok(b) && b@ == v,
            Err(e) => r == Err::<Vec<u8>, Error>(e),
        },
{
    assert(s@.skip(0) =~= s@);
    match take_bytes(s, 0) {
        Ok((v, _)) => Ok(v),
        Err(e) => Err(e),
    }
}

/// Deserializes a `String` from the front of `s`; bytes after it are ignored.
pub fn from_bytes_string(s: &[u8]) -> (r: Result<String, Error>)
    ensures
        match spec_take_string(s@) {
            Ok((v, _)) => r matches Ok(d) && d@ == v,
            Err(e) => r == Err::<String, Error>(e),
        },
{
    assert(s@.skip(0) =~= s@);
    match take_string(s, 0) {
        Ok((v, _)) => Ok(v),
        Err(e) => Err(e),
    }
}

} // verus!

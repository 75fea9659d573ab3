use vstd::prelude::*;
use crate::error::Error;
use vstd::string::StringSliceAdditionalSpecFns;
use crate::varint::{spec_varint, encode_varint};
use crate::zigzag::{spec_zigzag, zig_zag_i128};

verus! {

/// `old` with `data` written over it from `pos` on.
pub open spec fn spec_written(old: Seq<u8>, pos: int, data: Seq<u8>) -> Seq<u8> {
    old.take(pos) + data + old.skip(pos + data.len())
}

/// Writing `a` and then `b` right after it is writing `a + b`.
pub proof fn lemma_written_twice(old: Seq<u8>, pos: int, a: Seq<u8>, b: Seq<u8>)
    requires
        0 <= pos,
        pos + a.len() + b.len() <= old.len(),
    ensures
        spec_written(spec_written(old, pos, a), pos + a.len(), b) == spec_written(old, pos, a + b),
{
    let m = spec_written(old, pos, a);
    assert(m.take(pos + a.len()) =~= old.take(pos) + a);
    assert(m.skip(pos + a.len() + b.len()) =~= old.skip(pos + a.len() + b.len()));
    assert(spec_written(m, pos + a.len(), b) =~= spec_written(old, pos, a + b));
}

/// The encoding of an `i128`: its zig-zag image as a varint.
pub open spec fn spec_ser_i128(v: i128) -> Seq<u8> {
    spec_varint(spec_zigzag(v as int))
}

/// The encoding of a `u16` or `u32`: a varint.
pub open spec fn spec_ser_unsigned(v: nat) -> Seq<u8> {
    spec_varint(v)
}

/// The encoding of a byte string, a `str` or a `Vec<u8>`: its length as a varint, then
/// the bytes.
pub open spec fn spec_ser_bytes(data: Seq<u8>) -> Seq<u8> {
    spec_varint(data.len()) + data
}

/// What writing `enc` into `before` from `pos` on yields: either `enc` fits, the result
/// is the position just past it and `after` holds it there, or it does not fit and the
/// result is `SerializeBufferFull`. The length of the buffer never changes.
pub open spec fn slice_outcome(
    r: Result<usize, Error>,
    enc: Seq<u8>,
    pos: int,
    before: Seq<u8>,
    after: Seq<u8>,
) -> bool {
    &&& after.len() == before.len()
    &&& match r {
        Ok(next) => {
            &&& pos + enc.len() <= before.len()
            &&& next == pos + enc.len()
            &&& after == spec_written(before, pos, enc)
        },
        Err(e) => {
            &&& pos + enc.len() > before.len()
            &&& e == Error::SerializeBufferFull
        },
    }
}

/// Appends `data` to `out`.
pub fn append_bytes(out: &mut Vec<u8>, data: &[u8])
    ensures
        final(out)@ == old(out)@ + data@,
{
    let ghost start = out@;
    let mut i: usize = 0;
    while i < data.len()
        invariant
            i <= data@.len(),
            out@ == start + data@.take(i as int),
        decreases data@.len() - i,
    {
        out.push(data[i]);
        i = i + 1;
        assert(out@ =~= start + data@.take(i as int));
    }
    assert(data@.take(i as int) =~= data@);
}

/// Writes `data` into `buf` at `pos` when it fits, and reports the position after it;
/// otherwise writes nothing and reports `SerializeBufferFull`.
pub fn try_extend(buf: &mut [u8], pos: usize, data: &[u8]) -> (r: Result<usize, Error>)
    requires
        pos <= old(buf)@.len(),
    ensures
        slice_outcome(r, data@, pos as int, old(buf)@, final(buf)@),
        r is Err ==> final(buf)@ == old(buf)@,
{
    if data.len() > buf.len() - pos {
        return Err(Error::SerializeBufferFull);
    }
    let end = pos + data.len();
    let ghost start = buf@;
    let mut i: usize = 0;
    while i < data.len()
        invariant
            i <= data@.len(),
            end == pos + data@.len(),
            end <= start.len(),
            buf@.len() == start.len(),
            buf@ == start.take(pos as int) + data@.take(i as int) + start.skip(pos + i),
        decreases data@.len() - i,
    {
        buf[pos + i] = data[i];
        i = i + 1;
        assert(buf@ =~= start.take(pos as int) + data@.take(i as int) + start.skip(pos + i));
    }
    assert(data@.take(i as int) =~= data@);
    Ok(pos + data.len())
}

/// Writes one byte into `buf` at `pos` when there is room.
pub fn try_push(buf: &mut [u8], pos: usize, byte: u8) -> (r: Result<usize, Error>)
    requires
        pos <= old(buf)@.len(),
    ensures
        slice_outcome(r, seq![byte], pos as int, old(buf)@, final(buf)@),
        r is Err ==> final(buf)@ == old(buf)@,
{
    if pos == buf.len() {
        return Err(Error::SerializeBufferFull);
    }
    let ghost start = buf@;
    buf[pos] = byte;
    assert(buf@ =~= spec_written(start, pos as int, seq![byte]));
    Ok(pos + 1)
}

/// Serializes an `i128` into `buf` from the start, returning the number of bytes used.
pub fn to_slice_i128(v: i128, buf: &mut [u8]) -> (r: Result<usize, Error>)
    ensures
        slice_outcome(r, spec_ser_i128(v), 0, old(buf)@, final(buf)@),
{
    let zz = zig_zag_i128(v);
    let enc = encode_varint(zz);
    try_extend(buf, 0, enc.as_slice())
}

/// Serializes a byte string into `buf` from `pos` on: its length as a varint, then the
/// bytes. Returns the position after it.
pub fn serialize_bytes(buf: &mut [u8], pos: usize, data: &[u8]) -> (r: Result<usize, Error>)
    requires
        pos <= old(buf)@.len(),
    ensures
        slice_outcome(r, spec_ser_bytes(data@), pos as int, old(buf)@, final(buf)@),
{
    let prefix = encode_varint(data.len() as u128);
    assert(prefix@ + data@ == spec_ser_bytes(data@));
    let ghost start = buf@;
    let ps = prefix.as_slice();
    match try_extend(buf, pos, ps) {
        Ok(next) => {
            let r = try_extend(buf, next, data);
            proof {
                if r is Ok {
                    lemma_written_twice(start, pos as int, prefix@, data@);
                }
            }
            r
        },
        Err(e) => Err(e),
    }
}

/// Serializes a byte string into `buf` from the start, returning the number of bytes
/// used.
pub fn to_slice_bytes(data: &[u8], buf: &mut [u8]) -> (r: Result<usize, Error>)
    ensures
        slice_outcome(r, spec_ser_bytes(data@), 0, old(buf)@, final(buf)@),
{
    serialize_bytes(buf, 0, data)
}

/// Serializes a `str` into `buf` from the start: its UTF-8 length as a varint, then its
/// UTF-8 bytes.
pub fn to_slice_str(s: &str, buf: &mut [u8]) -> (r: Result<usize, Error>)
    ensures
        slice_outcome(r, spec_ser_bytes(s.spec_bytes()), 0, old(buf)@, final(buf)@),
{
    serialize_bytes(buf, 0, s.as_bytes())
}

/// Serializes a value through its `Display` text, as a `str` is serialized. For a `str`
/// the text is the string itself.
pub fn collect_str(value: &str, buf: &mut [u8]) -> (r: Result<usize, Error>)
    ensures
        slice_outcome(r, spec_ser_bytes(value.spec_bytes()), 0, old(buf)@, final(buf)@),
{
    let text = value.to_string();
    proof {
        vstd::string::to_string_from_display_ensures_for_str(value, text);
    }
    to_slice_str(text.as_str(), buf)
}

/// Serializes a byte string into a new vector.
pub fn to_stdvec_bytes(data: &[u8]) -> (r: Vec<u8>)
    ensures
        r@ == spec_ser_bytes(data@),
{
    let mut out = encode_varint(data.len() as u128);
    append_bytes(&mut out, data);
    out
}

} // verus!

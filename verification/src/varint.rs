use vstd::prelude::*;
use crate::error::Error;

verus! {

/// The bytes that encode `v` as a varint: groups of seven bits, least significant first,
/// with the high bit set on every byte but the last.
pub open spec fn spec_varint(v: nat) -> Seq<u8>
    decreases v,
{
    if v < 128 {
        seq![v as u8]
    } else {
        seq![(v % 128 + 128) as u8] + spec_varint(v / 128)
    }
}

/// One more than the largest value that a varint of at most `max_bytes` bytes can carry
/// when its last byte may be at most `max_last`.
pub open spec fn varint_bound(max_bytes: nat, max_last: nat) -> nat
    decreases max_bytes,
{
    if max_bytes <= 1 {
        max_last + 1
    } else {
        128 * varint_bound((max_bytes - 1) as nat, max_last)
    }
}

/// Reading a varint from the front of `s`, allowing at most `max_bytes` bytes and a last
/// byte of at most `max_last` when all `max_bytes` are used: the value and the number of
/// bytes taken, or the error. Non-minimal encodings are accepted.
pub open spec fn spec_take_varint(s: Seq<u8>, max_bytes: nat, max_last: nat) -> Result<(nat, nat), Error>
    decreases max_bytes,
{
    if max_bytes == 0 {
        Err(Error::DeserializeBadVarint)
    } else if s.len() == 0 {
        Err(Error::DeserializeUnexpectedEnd)
    } else if s[0] < 128 {
        if max_bytes == 1 && s[0] > max_last {
            Err(Error::DeserializeBadVarint)
        } else {
            Ok((s[0] as nat, 1))
        }
    } else {
        match spec_take_varint(s.drop_first(), (max_bytes - 1) as nat, max_last) {
            Ok((v, n)) => Ok((((s[0] - 128) + 128 * v) as nat, n + 1)),
            Err(e) => Err(e),
        }
    }
}


/// The most bytes a `u16` varint may take, and the largest last byte it may have then.
pub const U16_MAX_BYTES: usize = 3;
pub const U16_MAX_LAST: u8 = 3;
/// The same limits for `u32`.
pub const U32_MAX_BYTES: usize = 5;
pub const U32_MAX_LAST: u8 = 15;
/// The same limits for `u64` (and for lengths, which are written as 64-bit values).
pub const U64_MAX_BYTES: usize = 10;
pub const U64_MAX_LAST: u8 = 1;
/// The same limits for `u128`.
pub const U128_MAX_BYTES: usize = 19;
pub const U128_MAX_LAST: u8 = 3;

/// The limits above admit exactly the values of each integer type.
pub proof fn lemma_varint_type_bounds()
    ensures
        varint_bound(U16_MAX_BYTES as nat, U16_MAX_LAST as nat) == 0x1_0000,
        varint_bound(U32_MAX_BYTES as nat, U32_MAX_LAST as nat) == 0x1_0000_0000,
        varint_bound(U64_MAX_BYTES as nat, U64_MAX_LAST as nat) == 0x1_0000_0000_0000_0000,
        varint_bound(U128_MAX_BYTES as nat, U128_MAX_LAST as nat)
            == 0x1_0000_0000_0000_0000_0000_0000_0000_0000,
{
    reveal_with_fuel(varint_bound, 20);
}

/// Every varint has at least one byte.
pub proof fn lemma_varint_len(v: nat)
    ensures
        spec_varint(v).len() >= 1,
    decreases v,
{
    if v >= 128 {
        lemma_varint_len(v / 128);
    }
}

/// A successful read yields a value below the bound and takes between one byte and
/// `max_bytes` bytes, all of them present in the input.
pub proof fn lemma_take_varint_bounds(s: Seq<u8>, max_bytes: nat, max_last: nat)
    ensures
        spec_take_varint(s, max_bytes, max_last) matches Ok((v, n)) ==> {
            &&& v < varint_bound(max_bytes, max_last)
            &&& 1 <= n <= max_bytes
            &&& n <= s.len()
        },
    decreases max_bytes,
{
    if max_bytes > 0 && s.len() > 0 {
        lemma_varint_bound_positive((max_bytes - 1) as nat, max_last);
        if s[0] >= 128 {
            lemma_take_varint_bounds(s.drop_first(), (max_bytes - 1) as nat, max_last);
        }
    }
}

/// The bound is at least one.
pub proof fn lemma_varint_bound_positive(max_bytes: nat, max_last: nat)
    ensures
        varint_bound(max_bytes, max_last) >= 1,
    decreases max_bytes,
{
    if max_bytes > 1 {
        lemma_varint_bound_positive((max_bytes - 1) as nat, max_last);
    }
}

/// Reading back a written varint gives the value and its length, whatever follows it,
/// for every value that the limits admit.
pub proof fn lemma_varint_roundtrip(v: nat, rest: Seq<u8>, max_bytes: nat, max_last: nat)
    requires
        1 <= max_bytes,
        max_last < 128,
        v < varint_bound(max_bytes, max_last),
    ensures
        spec_take_varint(spec_varint(v) + rest, max_bytes, max_last) == Ok::<(nat, nat), Error>(
            (v, spec_varint(v).len()),
        ),
    decreases v,
{
    let s = spec_varint(v) + rest;
    if v >= 128 {
        let tail = spec_varint(v / 128);
        assert(s.drop_first() =~= tail + rest);
        assert(max_bytes > 1);
        assert(v / 128 < varint_bound((max_bytes - 1) as nat, max_last));
        lemma_varint_roundtrip(v / 128, rest, (max_bytes - 1) as nat, max_last);
    }
}

/// Writes `v` as a varint.
pub fn encode_varint(v: u128) -> (r: Vec<u8>)
    ensures
        r@ == spec_varint(v as nat),
{
    let mut out: Vec<u8> = Vec::new();
    let mut value = v;
    while value >= 128
        invariant
            out@ + spec_varint(value as nat) == spec_varint(v as nat),
        decreases value,
    {
        let byte = (value % 128 + 128) as u8;
        let ghost before = out@;
        out.push(byte);
        assert(spec_varint(value as nat) == seq![byte] + spec_varint((value / 128) as nat));
        assert(before + spec_varint(value as nat) =~= out@ + spec_varint((value / 128) as nat));
        value = value / 128;
    }
    out.push(value as u8);
    assert(out@ =~= spec_varint(v as nat));
    out
}

/// Reads a varint starting at `pos` in `s` under the given limits: the value and the
/// position just past it.
pub fn take_varint(s: &[u8], pos: usize, max_bytes: usize, max_last: u8) -> (r: Result<
    (u128, usize),
    Error,
>)
    requires
        pos <= s@.len(),
        1 <= max_bytes,
        max_last < 128,
        varint_bound(max_bytes as nat, max_last as nat) <= 0x1_0000_0000_0000_0000_0000_0000_0000_0000,
    ensures
        match spec_take_varint(s@.skip(pos as int), max_bytes as nat, max_last as nat) {
            Ok((v, n)) => r == Ok::<(u128, usize), Error>((v as u128, (pos + n) as usize)),
            Err(e) => r == Err::<(u128, usize), Error>(e),
        },
    decreases max_bytes,
{
    let ghost rest = s@.skip(pos as int);
    if pos == s.len() {
        return Err(Error::DeserializeUnexpectedEnd);
    }
    let byte = s[pos];
    if byte < 128 {
        if max_bytes == 1 && byte > max_last {
            Err(Error::DeserializeBadVarint)
        } else {
            Ok((byte as u128, pos + 1))
        }
    } else if max_bytes == 1 {
        Err(Error::DeserializeBadVarint)
    } else {
        assert(rest.drop_first() =~= s@.skip(pos + 1));
        proof {
            lemma_varint_bound_positive((max_bytes - 1) as nat, max_last as nat);
            lemma_take_varint_bounds(rest.drop_first(), (max_bytes - 1) as nat, max_last as nat);
        }
        match take_varint(s, pos + 1, max_bytes - 1, max_last) {
            Ok((v, next)) => {
                assert(128 * v + 128 <= 128 * varint_bound((max_bytes - 1) as nat, max_last as nat));
                Ok(((byte - 128) as u128 + 128 * v, next))
            },
            Err(e) => Err(e),
        }
    }
}

} // verus!

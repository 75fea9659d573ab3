use vstd::prelude::*;

verus! {

/// Zig-zag mapping of a signed integer to an unsigned one: 0, -1, 1, -2, 2, ...
/// go to 0, 1, 2, 3, 4, ...
pub open spec fn spec_zigzag(v: int) -> nat {
    if v >= 0 {
        (2 * v) as nat
    } else {
        (-2 * v - 1) as nat
    }
}

/// The inverse of [`spec_zigzag`].
pub open spec fn spec_unzigzag(u: nat) -> int {
    if u % 2 == 0 {
        (u / 2) as int
    } else {
        -((u / 2) as int) - 1
    }
}

/// Zig-zag encodes an `i128`.
pub fn zig_zag_i128(v: i128) -> (r: u128)
    ensures
        r as nat == spec_zigzag(v as int),
{
    if v >= 0 {
        (v as u128) * 2
    } else {
        ((-(v + 1)) as u128) * 2 + 1
    }
}

/// Zig-zag decodes an `i128`.
pub fn de_zig_zag_i128(u: u128) -> (r: i128)
    ensures
        r as int == spec_unzigzag(u as nat),
{
    if u % 2 == 0 {
        (u / 2) as i128
    } else {
        -((u / 2) as i128) - 1
    }
}

/// Zig-zag decoding undoes zig-zag encoding, for every integer.
pub proof fn lemma_zigzag_roundtrip(v: int)
    ensures
        spec_unzigzag(spec_zigzag(v)) == v,
{
}

/// Zig-zag encoding undoes zig-zag decoding, for every natural number.
pub proof fn lemma_unzigzag_roundtrip(u: nat)
    ensures
        spec_zigzag(spec_unzigzag(u)) == u,
{
}

/// The absolute value of an integer.
pub open spec fn abs(v: int) -> nat {
    if v >= 0 {
        v as nat
    } else {
        (-v) as nat
    }
}

/// What zig-zag encoding is: a non-negative `v` goes to `2 * v`, a negative `v` to
/// `-2 * v - 1`; so non-negative values get the even codes and negative ones the odd.
pub proof fn lemma_zigzag_formula(v: int)
    ensures
        v >= 0 ==> spec_zigzag(v) == 2 * v,
        v < 0 ==> spec_zigzag(v) == -2 * v - 1,
        spec_zigzag(v) % 2 == 0 <==> v >= 0,
{
}

/// Zig-zag orders values by magnitude, and puts `-n` right before `n`: a smaller
/// magnitude always gets a smaller code, zero gets code 0, and `-n` and `n` get the two
/// codes `2n - 1` and `2n`.
pub proof fn lemma_zigzag_order(a: int, b: int)
    ensures
        abs(a) < abs(b) ==> spec_zigzag(a) < spec_zigzag(b),
        spec_zigzag(0) == 0,
        a > 0 ==> spec_zigzag(-a) + 1 == spec_zigzag(a),
        spec_zigzag(a) <= 2 * abs(a),
        spec_zigzag(a) + 1 >= 2 * abs(a),
{
}

/// What zig-zag decoding is: an even code `u` stands for `u / 2`, an odd one for
/// `-(u + 1) / 2`.
pub proof fn lemma_unzigzag_formula(u: nat)
    ensures
        u % 2 == 0 ==> spec_unzigzag(u) == u / 2,
        u % 2 == 1 ==> spec_unzigzag(u) == -((u + 1) / 2),
{
}

} // verus!

//! Scalar codes: the integers that stand for binary64 values.
//!
//! The code of a value is the bit pattern of its magnitude, taken with the
//! value's sign. So the codes of two numbers compare as the numbers do, both
//! zeros have the code `0`, and the code of `−x` is the negated code of `x`.
//! Every pattern that is not a number has the one code `NOT_A_NUMBER`, which
//! no comparison holds of.
use vstd::prelude::*;

verus! {

/// The code of every pattern that is not a number.
pub const NOT_A_NUMBER: i64 = i64::MIN;

/// The code of positive infinity.
pub const INFINITY: i64 = 0x7ff0_0000_0000_0000;

/// The code of negative infinity.
pub const NEG_INFINITY: i64 = -0x7ff0_0000_0000_0000;

/// The code of one.
pub const ONE: i64 = 0x3ff0_0000_0000_0000;

/// The bit of a pattern that holds the sign.
pub const SIGN_BIT: u64 = 0x8000_0000_0000_0000;

/// The pattern that `NOT_A_NUMBER` is turned into.
pub const QUIET_NAN: u64 = 0x7ff8_0000_0000_0000;

/// The code stands for a number.
pub open spec fn is_number(code: i64) -> bool {
    code != NOT_A_NUMBER
}

/// The code is the code of some pattern.
pub open spec fn is_code(code: i64) -> bool {
    code == NOT_A_NUMBER || NEG_INFINITY <= code <= INFINITY
}

/// `a < b` as the values compare: both are numbers, and `a` is the lesser.
pub open spec fn below(a: i64, b: i64) -> bool {
    is_number(a) && is_number(b) && a < b
}

/// `a <= b` as the values compare: both are numbers, and `a` is not the
/// greater.
pub open spec fn at_most(a: i64, b: i64) -> bool {
    is_number(a) && is_number(b) && a <= b
}

/// The bits of a pattern without its sign.
pub open spec fn magnitude(bits: u64) -> u64 {
    bits & 0x7fff_ffff_ffff_ffff
}

/// The code of a bit pattern.
pub open spec fn code_of(bits: u64) -> i64 {
    if magnitude(bits) > 0x7ff0_0000_0000_0000 {
        NOT_A_NUMBER
    } else if bits & SIGN_BIT != 0 {
        (-(magnitude(bits) as int)) as i64
    } else {
        magnitude(bits) as i64
    }
}

/// A bit pattern of a code: of a number the one pattern with that code whose
/// zero is positive, of `NOT_A_NUMBER` the quiet pattern.
pub open spec fn bits_of(code: i64) -> u64 {
    if code == NOT_A_NUMBER {
        QUIET_NAN
    } else if code < 0 {
        ((-(code as int)) as u64) | SIGN_BIT
    } else {
        code as u64
    }
}

/// The code of a bit pattern.
pub fn code_of_bits(bits: u64) -> (code: i64)
    ensures
        code == code_of(bits),
        is_code(code),
{
    let magnitude = bits & 0x7fff_ffff_ffff_ffff;
    assert(magnitude <= 0x7fff_ffff_ffff_ffff) by (bit_vector)
        requires
            magnitude == bits & 0x7fff_ffff_ffff_ffff,
    ;
    if magnitude > 0x7ff0_0000_0000_0000 {
        NOT_A_NUMBER
    } else if bits & SIGN_BIT != 0 {
        -(magnitude as i64)
    } else {
        magnitude as i64
    }
}

/// A bit pattern of a code.
pub fn bits_of_code(code: i64) -> (bits: u64)
    ensures
        bits == bits_of(code),
{
    if code == NOT_A_NUMBER {
        QUIET_NAN
    } else if code < 0 {
        ((-code) as u64) | SIGN_BIT
    } else {
        code as u64
    }
}

/// Every code keeps its meaning through a bit pattern and back.
pub proof fn lemma_code_round_trip(code: i64)
    requires
        is_code(code),
    ensures
        code_of(bits_of(code)) == code,
{
    if code == NOT_A_NUMBER {
        assert(QUIET_NAN & 0x7fff_ffff_ffff_ffff > 0x7ff0_0000_0000_0000) by (bit_vector);
    } else if code < 0 {
        let m = (-(code as int)) as u64;
        assert(0 < m <= 0x7ff0_0000_0000_0000);
        assert((m | SIGN_BIT) & 0x7fff_ffff_ffff_ffff == m && (m | SIGN_BIT) & SIGN_BIT != 0)
            by (bit_vector)
            requires
                m <= 0x7ff0_0000_0000_0000,
        ;
    } else {
        let m = code as u64;
        assert(m & 0x7fff_ffff_ffff_ffff == m && m & SIGN_BIT == 0) by (bit_vector)
            requires
                m <= 0x7ff0_0000_0000_0000,
        ;
    }
}

/// The pattern of a number comes back from its code, but for the negative
/// zero, which comes back as the positive one.
pub proof fn lemma_bits_round_trip(bits: u64)
    requires
        is_number(code_of(bits)),
        bits != SIGN_BIT,
    ensures
        bits_of(code_of(bits)) == bits,
{
    let m = magnitude(bits);
    assert(m <= 0x7fff_ffff_ffff_ffff) by (bit_vector)
        requires
            m == bits & 0x7fff_ffff_ffff_ffff,
    ;
    if bits & SIGN_BIT != 0 {
        assert(m | SIGN_BIT == bits && (bits != SIGN_BIT ==> m != 0)) by (bit_vector)
            requires
                m == bits & 0x7fff_ffff_ffff_ffff,
                bits & SIGN_BIT != 0,
        ;
    } else {
        assert(m == bits) by (bit_vector)
            requires
                m == bits & 0x7fff_ffff_ffff_ffff,
                bits & SIGN_BIT == 0,
        ;
    }
}

/// The pattern with the other sign has the negated code.
pub proof fn lemma_sign(bits: u64)
    requires
        is_number(code_of(bits)),
    ensures
        code_of(bits ^ SIGN_BIT) == -code_of(bits),
{
    let m = magnitude(bits);
    let flipped = bits ^ SIGN_BIT;
    assert(flipped & 0x7fff_ffff_ffff_ffff == m && ((flipped & SIGN_BIT != 0) <==> (bits & SIGN_BIT
        == 0))) by (bit_vector)
        requires
            m == bits & 0x7fff_ffff_ffff_ffff,
            flipped == bits ^ SIGN_BIT,
    ;
}

} // verus!

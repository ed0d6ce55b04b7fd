//! Single-precision numbers by their bits.
use vstd::prelude::*;

verus! {

/// The bits of infinity.
pub const INFINITY_BITS: u32 = 0x7f80_0000;

/// The bit that a negative number has.
pub const SIGN_BIT: u32 = 0x8000_0000;

/// Whether the bits are those of no number.
pub open spec fn is_nan(b: u32) -> bool {
    b % SIGN_BIT > INFINITY_BITS
}

/// A whole number that is ordered as the single is; both zeros are zero.
pub open spec fn rank(b: u32) -> int {
    if b < SIGN_BIT {
        b as int
    } else {
        SIGN_BIT - b
    }
}

/// Whether one single is at most another; what is no number is not.
pub open spec fn at_most(a: u32, b: u32) -> bool {
    !is_nan(a) && !is_nan(b) && rank(a) <= rank(b)
}

/// Whether one single is below another; what is no number is not.
pub open spec fn below(a: u32, b: u32) -> bool {
    !is_nan(a) && !is_nan(b) && rank(a) < rank(b)
}

/// Whether two singles are equal; what is no number equals nothing.
pub open spec fn equal(a: u32, b: u32) -> bool {
    !is_nan(a) && !is_nan(b) && rank(a) == rank(b)
}

/// A whole number by which all bits are ordered, zeros and all that are no
/// numbers too.
pub open spec fn total_rank(b: u32) -> int {
    if b < SIGN_BIT {
        b as int
    } else {
        SIGN_BIT - b - 1
    }
}

/// The greater of two singles; what is no number gives way.
pub open spec fn greater(a: u32, b: u32) -> u32 {
    if is_nan(a) {
        b
    } else if is_nan(b) {
        a
    } else if rank(a) < rank(b) {
        b
    } else {
        a
    }
}

pub fn nan(b: u32) -> (r: bool)
    ensures
        r == is_nan(b),
{
    b % SIGN_BIT > INFINITY_BITS
}

fn rank_of(b: u32) -> (r: i64)
    ensures
        r == rank(b),
{
    if b < SIGN_BIT {
        b as i64
    } else {
        SIGN_BIT as i64 - b as i64
    }
}

pub fn single_at_most(a: u32, b: u32) -> (r: bool)
    ensures
        r == at_most(a, b),
{
    !nan(a) && !nan(b) && rank_of(a) <= rank_of(b)
}

pub fn single_below(a: u32, b: u32) -> (r: bool)
    ensures
        r == below(a, b),
{
    !nan(a) && !nan(b) && rank_of(a) < rank_of(b)
}

pub fn single_equal(a: u32, b: u32) -> (r: bool)
    ensures
        r == equal(a, b),
{
    !nan(a) && !nan(b) && rank_of(a) == rank_of(b)
}

pub fn total_rank_of(b: u32) -> (r: i64)
    ensures
        r == total_rank(b),
{
    if b < SIGN_BIT {
        b as i64
    } else {
        SIGN_BIT as i64 - b as i64 - 1
    }
}

pub fn single_greater(a: u32, b: u32) -> (r: u32)
    ensures
        r == greater(a, b),
{
    if nan(a) {
        b
    } else if nan(b) {
        a
    } else if rank_of(a) < rank_of(b) {
        b
    } else {
        a
    }
}

/// How often a mantissa is doubled until it has its leading bit, bit 23.
pub open spec fn shift_of(m: int) -> int
    decreases 0x100_0000 - m,
{
    if m <= 0 || m >= 0x80_0000 {
        0
    } else {
        1 + shift_of(2 * m)
    }
}

/// A mantissa doubled until it has its leading bit.
pub open spec fn shifted(m: int) -> int
    decreases 0x100_0000 - m,
{
    if m <= 0 || m >= 0x80_0000 {
        m
    } else {
        shifted(2 * m)
    }
}

/// The bits of the double that is the number a single is. Sign, exponent and
/// mantissa are kept; the mantissa of a subnormal single is shifted until it
/// has its leading bit.
pub open spec fn widened(b: u32) -> int {
    let sign = if b < SIGN_BIT {
        0int
    } else {
        0x8000_0000_0000_0000
    };
    let rest = (b % SIGN_BIT) as int;
    let exponent = rest / 0x80_0000;
    let mantissa = rest % 0x80_0000;
    if exponent == 255 {
        sign + 0x7ff0_0000_0000_0000 + mantissa * 0x2000_0000
    } else if exponent > 0 {
        sign + (exponent + 896) * 0x10_0000_0000_0000 + mantissa * 0x2000_0000
    } else if mantissa == 0 {
        sign
    } else {
        sign + (897 - shift_of(mantissa)) * 0x10_0000_0000_0000 + (shifted(mantissa) - 0x80_0000)
            * 0x2000_0000
    }
}

proof fn lemma_shift(m: int)
    requires
        0 < m < 0x100_0000,
    ensures
        0x80_0000 <= shifted(m) < 0x100_0000,
        shift_of(m) >= 0,
    decreases 0x100_0000 - m,
{
    if m < 0x80_0000 {
        lemma_shift(2 * m);
    }
}

proof fn lemma_shift_bound(m: int, bits: int)
    requires
        0 < m,
        0 <= bits <= 23,
        m * vstd::arithmetic::power2::pow2(bits as nat) >= 0x80_0000,
    ensures
        shift_of(m) <= bits,
    decreases bits,
{
    if m < 0x80_0000 {
        vstd::arithmetic::power2::lemma2_to64();
        if bits == 0 {
            assert(m * 1 >= 0x80_0000);
        } else {
            vstd::arithmetic::power2::lemma_pow2_unfold(bits as nat);
            let p = vstd::arithmetic::power2::pow2((bits - 1) as nat);
            assert(m * (2 * p) == (2 * m) * p) by (nonlinear_arith);
            lemma_shift_bound(2 * m, bits - 1);
        }
    }
}

/// A single as a double.
pub fn widen(b: u32) -> (r: u64)
    ensures
        r == widened(b),
{
    let sign: u64 = if b < SIGN_BIT {
        0
    } else {
        0x8000_0000_0000_0000
    };
    let rest: u64 = (b % SIGN_BIT) as u64;
    let exponent: u64 = rest / 0x80_0000;
    let mantissa: u64 = rest % 0x80_0000;
    assert(exponent <= 255 && mantissa < 0x80_0000);
    if exponent == 255 {
        sign + 0x7ff0_0000_0000_0000 + mantissa * 0x2000_0000
    } else if exponent > 0 {
        sign + (exponent + 896) * 0x10_0000_0000_0000 + mantissa * 0x2000_0000
    } else if mantissa == 0 {
        sign
    } else {
        proof {
            vstd::arithmetic::power2::lemma2_to64();
            lemma_shift(mantissa as int);
            assert(mantissa * 0x80_0000 >= 0x80_0000);
            lemma_shift_bound(mantissa as int, 23);
        }
        let mut m: u64 = mantissa;
        let mut k: u64 = 0;
        while m < 0x80_0000
            invariant
                0 < m < 0x100_0000,
                shifted(m as int) == shifted(mantissa as int),
                k + shift_of(m as int) == shift_of(mantissa as int),
                shift_of(mantissa as int) <= 23,
                shift_of(m as int) >= 0,
            decreases 0x100_0000 - m,
        {
            proof {
                lemma_shift((2 * m) as int);
            }
            m = 2 * m;
            k += 1;
        }
        sign + (897 - k) * 0x10_0000_0000_0000 + (m - 0x80_0000) * 0x2000_0000
    }
}

} // verus!

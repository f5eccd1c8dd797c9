//! Grade point averages, held as the sixty-four bits of an IEEE 754 double so that the library
//! works in integers only.

use vstd::prelude::*;
use vstd::arithmetic::power2::*;

verus! {

/// The bits of the double 4.0, the largest grade point average.
pub const GPA_MAX_BITS: u64 = 0x4010_0000_0000_0000;

/// The bits of the double -0.0, which compares equal to 0.0.
pub const NEGATIVE_ZERO_BITS: u64 = 0x8000_0000_0000_0000;

/// The sign bit of a double: set for negative numbers and for -0.0.
pub open spec fn sign_is_set(bits: u64) -> bool {
    bits >= 0x8000_0000_0000_0000
}

/// The eleven-bit exponent field of a double.
pub open spec fn exponent_field(bits: u64) -> nat {
    ((bits as nat) / 0x10_0000_0000_0000) % 0x800
}

/// The fifty-two-bit fraction field of a double.
pub open spec fn fraction_field(bits: u64) -> nat {
    (bits as nat) % 0x10_0000_0000_0000
}

/// A double is finite unless its exponent field is all ones (infinities and NaNs).
pub open spec fn is_finite(bits: u64) -> bool {
    exponent_field(bits) < 0x7FF
}

/// The magnitude of a finite double, multiplied by two to the power 1074 (which makes it a
/// whole number): the fraction for a subnormal, else the fraction with its leading one,
/// shifted by the exponent.
pub open spec fn scaled_magnitude(bits: u64) -> nat {
    if exponent_field(bits) == 0 {
        fraction_field(bits)
    } else {
        (0x10_0000_0000_0000 + fraction_field(bits)) * pow2((exponent_field(bits) - 1) as nat)
    }
}

/// Whether the double with these bits lies between 0.0 and 4.0, both included: it is finite,
/// its magnitude is at most four, and it is not below zero. NaN is out of range.
pub open spec fn gpa_in_range(bits: u64) -> bool {
    &&& is_finite(bits)
    &&& scaled_magnitude(bits) <= 4 * pow2(1074)
    &&& sign_is_set(bits) ==> scaled_magnitude(bits) == 0
}

proof fn lemma_scaled_magnitude_bound(bits: u64)
    requires
        exponent_field(bits) >= 1,
    ensures
        exponent_field(bits) < 1025 ==> scaled_magnitude(bits) < 4 * pow2(1074),
        exponent_field(bits) == 1025 ==> scaled_magnitude(bits) == 4 * pow2(1074) + fraction_field(
            bits,
        ) * pow2(1024),
        exponent_field(bits) > 1025 ==> scaled_magnitude(bits) > 4 * pow2(1074),
        scaled_magnitude(bits) > 0,
        pow2(1024) > 0,
{
    let e = exponent_field(bits);
    let f = fraction_field(bits);
    let m = 0x10_0000_0000_0000 + f;
    let p = pow2((e - 1) as nat);
    lemma2_to64();
    lemma2_to64_rest();
    lemma_pow2_pos((e - 1) as nat);
    lemma_pow2_pos(1024);
    lemma_pow2_adds(2, 1074);
    lemma_pow2_adds(52, 1024);
    lemma_pow2_adds(53, 1023);
    assert(m * p > 0) by (nonlinear_arith)
        requires
            m > 0,
            p > 0,
    ;
    if e < 1025 {
        if e - 1 < 1023 {
            lemma_pow2_strictly_increases((e - 1) as nat, 1023);
        }
        assert(m * p < 0x20_0000_0000_0000 * pow2(1023)) by (nonlinear_arith)
            requires
                0 < m < 0x20_0000_0000_0000,
                0 < p <= pow2(1023),
        ;
    } else if e == 1025 {
        assert(m * p == 0x10_0000_0000_0000 * p + f * p) by (nonlinear_arith)
            requires
                m == 0x10_0000_0000_0000 + f,
        ;
    } else {
        lemma_pow2_strictly_increases(1024, (e - 1) as nat);
        assert(m * p > 0x10_0000_0000_0000 * pow2(1024)) by (nonlinear_arith)
            requires
                m >= 0x10_0000_0000_0000,
                p > pow2(1024),
                pow2(1024) > 0,
        ;
    }
}

/// Decides `gpa_in_range` by comparing bit patterns: doubles that are not negative are ordered
/// as their bits are.
pub fn gpa_bits_in_range(bits: u64) -> (ok: bool)
    ensures
        ok == gpa_in_range(bits),
{
    proof {
        let n = bits as nat;
        let q = n / 0x10_0000_0000_0000;
        let e = exponent_field(bits);
        let f = fraction_field(bits);
        assert(n == q * 0x10_0000_0000_0000 + f);
        assert(q < 0x1000);
        assert(q == e || q == e + 0x800);
        assert(sign_is_set(bits) <==> q >= 0x800);
        lemma2_to64_rest();
        lemma_pow2_strictly_increases(52, 1074);
        if e >= 1 {
            lemma_scaled_magnitude_bound(bits);
            let p = pow2(1024);
            assert(f > 0 ==> f * p > 0) by (nonlinear_arith)
                requires
                    p > 0,
            ;
            assert(f == 0 ==> f * p == 0) by (nonlinear_arith);
        }
    }
    bits <= GPA_MAX_BITS || bits == NEGATIVE_ZERO_BITS
}

} // verus!

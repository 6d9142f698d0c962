use vstd::prelude::*;

use vstd::arithmetic::div_mod::lemma_basic_div_specific_divisor;
use vstd::arithmetic::mul::lemma_mul_inequality;
use vstd::arithmetic::power2::{
    lemma2_to64, lemma2_to64_rest, lemma_pow2_adds, lemma_pow2_pos, lemma_pow2_strictly_increases,
    lemma_pow2_unfold, pow2,
};

verus! {

/// Fixed-point units per degree, as a mathematical integer.
pub open spec fn scale() -> int {
    crate::COORD_SCALE as int
}

/// The sign bit of an IEEE double bit pattern.
pub open spec fn f64_sign(bits: u64) -> bool {
    bits as int / 0x8000_0000_0000_0000 == 1
}

/// The biased 11-bit exponent field.
pub open spec fn f64_exp(bits: u64) -> int {
    (bits as int / 0x10_0000_0000_0000) % 0x800
}

/// The 52-bit fraction field.
pub open spec fn f64_frac(bits: u64) -> int {
    bits as int % 0x10_0000_0000_0000
}

/// A finite double: neither an infinity nor a NaN.
pub open spec fn f64_is_finite(bits: u64) -> bool {
    f64_exp(bits) != 0x7FF
}

/// The magnitude of the encoded double, multiplied by the coordinate
/// scale and truncated to an integer.  The encoded magnitude is
/// `m * 2^(e' - 1075)` with `m` the significand (the fraction plus the
/// implicit bit for normal numbers) and `e'` the exponent field, or 1
/// for subnormals.
pub open spec fn f64_scaled_mag(bits: u64) -> int {
    let e = f64_exp(bits);
    let m = f64_frac(bits) + if e == 0 {
        0
    } else {
        pow2(52) as int
    };
    let p = m * scale();
    if e >= 1075 {
        p * pow2((e - 1075) as nat)
    } else if e == 0 {
        p / pow2(1074) as int
    } else {
        p / pow2((1075 - e) as nat) as int
    }
}

/// The coordinate-unit value an IEEE double bit pattern denotes,
/// truncated toward zero, or nothing for a NaN, an infinity, or a
/// magnitude beyond `i64`.
pub open spec fn f64_units(bits: u64) -> Option<i64> {
    if !f64_is_finite(bits) || f64_scaled_mag(bits) > i64::MAX {
        None
    } else if f64_sign(bits) {
        Some((-f64_scaled_mag(bits)) as i64)
    } else {
        Some(f64_scaled_mag(bits) as i64)
    }
}

fn pow2_u128(e: u64) -> (r: u128)
    requires
        e <= 127,
    ensures
        r == pow2(e as nat),
{
    let mut r: u128 = 1;
    let mut i: u64 = 0;
    proof {
        assert(pow2(0) == 1) by {
            lemma2_to64();
        }
    }
    while i < e
        invariant
            i <= e,
            e <= 127,
            r == pow2(i as nat),
        decreases e - i,
    {
        proof {
            lemma_pow2_unfold((i + 1) as nat);
            if i + 1 < 127 {
                lemma_pow2_strictly_increases((i + 1) as nat, 127);
            }
            assert(pow2(127) == 0x8000_0000_0000_0000_0000_0000_0000_0000) by {
                lemma_pow2_adds(64, 63);
                lemma2_to64();
                lemma2_to64_rest();
                assert(pow2(127) == 0x10000000000000000 * 0x8000000000000000) by (nonlinear_arith)
                    requires
                        pow2(127) == pow2(64) * pow2(63),
                        pow2(64) == 0x10000000000000000,
                        pow2(63) == 0x8000000000000000,
                ;
            }
            assert(pow2((i + 1) as nat) <= pow2(127));
        }
        r = r * 2;
        i = i + 1;
    }
    r
}

/// Convert an IEEE double bit pattern to fixed-point coordinate units,
/// truncating toward zero: exactly `f64_units` of the bits.
pub fn units_from_f64_bits(bits: u64) -> (r: Option<i64>)
    ensures
        r == f64_units(bits),
{
    let exp: u64 = (bits / 0x10_0000_0000_0000) % 0x800;
    if exp == 0x7FF {
        return None;
    }
    let frac: u64 = bits % 0x10_0000_0000_0000;
    let neg: bool = bits / 0x8000_0000_0000_0000 == 1;
    let m: u64 = if exp == 0 {
        frac
    } else {
        frac + 0x10_0000_0000_0000
    };
    proof {
        assert(pow2(52) == 0x10_0000_0000_0000 && pow2(53) == 0x20_0000_0000_0000) by {
            lemma2_to64_rest();
        }
    }
    let p: u128 = (m as u128) * 90_000_000;
    if exp >= 1075 {
        // The magnitude is at least 2^52 degrees: far beyond any i64
        // count of coordinate units.
        proof {
            let k = (exp - 1075) as nat;
            lemma_pow2_pos(k);
            assert(m >= pow2(52));
            lemma_mul_inequality(pow2(52) as int, m as int, scale());
            lemma_mul_inequality(1, pow2(k) as int, (m as int) * scale());
            assert((m as int) * scale() * 1 == (m as int) * scale()) by (nonlinear_arith);
            assert((m as int) * scale() * pow2(k) >= (m as int) * scale() * 1) by (nonlinear_arith)
                requires
                    pow2(k) >= 1,
                    (m as int) * scale() >= 0,
            ;
        }
        return None;
    }
    let sh: u64 = if exp == 0 {
        1074
    } else {
        1075 - exp
    };
    let mag: u128 = if sh >= 128 {
        proof {
            assert(pow2(80) == 0x1_0000_0000_0000_0000_0000) by {
                lemma_pow2_adds(64, 16);
                lemma2_to64();
                assert(pow2(80) == 0x10000000000000000 * 0x10000) by (nonlinear_arith)
                    requires
                        pow2(80) == pow2(64) * pow2(16),
                        pow2(64) == 0x10000000000000000,
                        pow2(16) == 0x10000,
                ;
            }
            assert((p as int) < 0x20_0000_0000_0000 * 90_000_000) by (nonlinear_arith)
                requires
                    (p as int) == (m as int) * 90_000_000,
                    (m as int) < 0x20_0000_0000_0000,
            ;
            lemma_pow2_strictly_increases(80, sh as nat);
            lemma_pow2_pos(sh as nat);
            lemma_basic_div_specific_divisor(pow2(sh as nat) as int);
            assert((p as int) < pow2(sh as nat) as int);
            assert((p as int) / (pow2(sh as nat) as int) == 0);
        }
        0
    } else {
        let d = pow2_u128(sh);
        proof {
            lemma_pow2_pos(sh as nat);
        }
        p / d
    };
    if mag > 0x7FFF_FFFF_FFFF_FFFF {
        return None;
    }
    if neg {
        Some(-(mag as i64))
    } else {
        Some(mag as i64)
    }
}

} // verus!

//! Integer-only views of IEEE-754 single-precision values.
//!
//! The variable catalog stores numbers together with their 32-bit
//! float encodings, but float arithmetic itself stays outside the
//! verified core.  This module gives the two directions the store
//! needs as plain integer computations: encoding a machine integer
//! into single-precision bits (round to nearest, ties to even), and
//! recovering the truncated, saturated integer casts of a value from
//! its bits.

use vstd::prelude::*;

verus! {

use vstd::arithmetic::power2::{
    pow2, lemma_pow2_adds, lemma_pow2_strictly_increases, lemma2_to64, lemma_pow2_unfold,
    lemma_pow2_pos,
};

/// Number of binary digits of `v` (0 for 0).
pub open spec fn spec_bit_len(v: nat) -> nat
    decreases v,
{
    if v == 0 {
        0
    } else {
        (1 + spec_bit_len((v / 2) as nat)) as nat
    }
}

/// `pow2(n + 1) == 2 * pow2(n)`.
pub proof fn lemma_pow2_double(n: nat)
    ensures
        pow2((n + 1) as nat) == 2 * pow2(n),
{
    lemma_pow2_unfold((n + 1) as nat);
}

/// A positive number lies between the powers of two that its bit
/// length names.
pub proof fn lemma_bit_len_bounds(v: nat)
    requires
        v > 0,
    ensures
        spec_bit_len(v) >= 1,
        pow2((spec_bit_len(v) - 1) as nat) <= v,
        v < pow2(spec_bit_len(v)),
    decreases v,
{
    if v == 1 {
        assert(spec_bit_len(1nat) == 1 + spec_bit_len(0nat));
        lemma2_to64();
    } else {
        lemma_bit_len_bounds((v / 2) as nat);
        let bl = spec_bit_len((v / 2) as nat);
        lemma_pow2_double((bl - 1) as nat);
        lemma_pow2_double(bl);
        assert(2 * (v / 2) <= v < 2 * (v / 2) + 2);
        assert(pow2(bl) == 2 * pow2((bl - 1) as nat));
        assert(v >= 2 * pow2((bl - 1) as nat));
        assert(v / 2 <= pow2(bl) - 1);
        assert(v < 2 * pow2(bl));
    }
}

/// The bit length of a 32-bit value is at most 32.
pub proof fn lemma_bit_len_le_32(v: u32)
    ensures
        spec_bit_len(v as nat) <= 32,
{
    if v > 0 {
        lemma_bit_len_bounds(v as nat);
        let bl = spec_bit_len(v as nat);
        if bl > 32 {
            if (bl - 1) as nat > 32 {
                lemma_pow2_strictly_increases(32, (bl - 1) as nat);
            }
            lemma2_to64();
        }
    }
}

/// Number of binary digits of `v`.
pub fn bit_len(v: u32) -> (n: u32)
    ensures
        n == spec_bit_len(v as nat),
        n <= 32,
{
    let mut x: u32 = v;
    let mut n: u32 = 0;
    proof {
        lemma_bit_len_le_32(v);
    }
    while x > 0
        invariant
            spec_bit_len(v as nat) == n + spec_bit_len(x as nat),
            spec_bit_len(v as nat) <= 32,
        decreases x,
    {
        proof {
            assert(spec_bit_len(x as nat) == 1 + spec_bit_len((x / 2) as nat));
        }
        x = x / 2;
        n = n + 1;
    }
    proof {
        assert(spec_bit_len(0nat) == 0);
    }
    n
}

/// `pow2(k)` as a machine integer, for small `k`.
pub fn pow2_u32(k: u32) -> (r: u32)
    requires
        k <= 31,
    ensures
        r == pow2(k as nat),
{
    let mut r: u32 = 1;
    let mut i: u32 = 0;
    proof {
        lemma2_to64();
    }
    while i < k
        invariant
            i <= k <= 31,
            r == pow2(i as nat),
        decreases k - i,
    {
        proof {
            lemma_pow2_double(i as nat);
            lemma_pow2_strictly_increases((i + 1) as nat, 32);
            lemma2_to64();
        }
        r = r * 2;
        i = i + 1;
    }
    r
}

/// Single-precision bits of the integer `v`, rounding to nearest with
/// ties to even, as the model of the float cast of `v`.
pub open spec fn spec_single_of_u32(v: u32) -> u32 {
    if v == 0 {
        0u32
    } else {
        let p = (spec_bit_len(v as nat) - 1) as nat;
        if p <= 23 {
            ((127 + p) * 0x800000 + ((v as nat) * pow2((23 - p) as nat) - 0x800000)) as u32
        } else {
            let sh = (p - 23) as nat;
            let q = (v as nat) / pow2(sh);
            let r = (v as nat) % pow2(sh);
            let half = pow2((sh - 1) as nat);
            let q2: nat = if r > half || (r == half && q % 2 == 1) {
                (q + 1) as nat
            } else {
                q
            };
            if q2 == 0x1000000 {
                (((128 + p) * 0x800000)) as u32
            } else {
                ((127 + p) * 0x800000 + (q2 - 0x800000)) as u32
            }
        }
    }
}

/// The encoding of an unsigned integer never sets the sign bit.
pub proof fn lemma_single_of_u32_bound(v: u32)
    ensures
        spec_single_of_u32(v) < 0x80000000,
{
    if v != 0 {
        lemma_bit_len_bounds(v as nat);
        lemma_bit_len_le_32(v);
        lemma2_to64();
        let p = (spec_bit_len(v as nat) - 1) as nat;
        if p <= 23 {
            lemma_pow2_adds((p + 1) as nat, (23 - p) as nat);
            lemma_pow2_pos((23 - p) as nat);
            assert((v as nat) * pow2((23 - p) as nat) < pow2((p + 1) as nat) * pow2(
                (23 - p) as nat,
            )) by (nonlinear_arith)
                requires
                    (v as nat) < pow2((p + 1) as nat),
                    pow2((23 - p) as nat) > 0,
            ;
            assert((p + 1) as nat + (23 - p) as nat == 24);
        } else {
            let sh = (p - 23) as nat;
            lemma_pow2_pos(sh);
            lemma_pow2_adds(sh, 24);
            lemma_pow2_adds(sh, 23);
            let q = (v as nat) / pow2(sh);
            assert(q < 0x1000000) by (nonlinear_arith)
                requires
                    q == (v as nat) / pow2(sh),
                    (v as nat) < pow2(sh) * 0x1000000,
                    pow2(sh) > 0,
            ;
            assert(q >= 0x800000) by (nonlinear_arith)
                requires
                    q == (v as nat) / pow2(sh),
                    (v as nat) >= pow2(sh) * 0x800000,
                    pow2(sh) > 0,
            ;
        }
    }
}

/// Encode the integer `v` as single-precision bits.
pub fn single_of_u32(v: u32) -> (bits: u32)
    ensures
        bits == spec_single_of_u32(v),
{
    if v == 0 {
        return 0;
    }
    let p: u32 = bit_len(v) - 1;
    proof {
        lemma_bit_len_bounds(v as nat);
    }
    if p <= 23 {
        let f: u32 = pow2_u32(23 - p);
        proof {
            lemma_pow2_adds((p + 1) as nat, (23 - p) as nat);
            lemma_pow2_adds(p as nat, (23 - p) as nat);
            assert((p + 1) as nat + (23 - p) as nat == 24);
            assert(p as nat + (23 - p) as nat == 23);
            assert(pow2(24) == 0x1000000 && pow2(23) == 0x800000) by {
                lemma2_to64();
            }
            assert((v as nat) * pow2((23 - p) as nat) < pow2((p + 1) as nat) * pow2(
                (23 - p) as nat,
            )) by (nonlinear_arith)
                requires
                    (v as nat) < pow2((p + 1) as nat),
                    pow2((23 - p) as nat) > 0,
            ;
            assert((v as nat) * pow2((23 - p) as nat) >= pow2(p as nat) * pow2(
                (23 - p) as nat,
            )) by (nonlinear_arith)
                requires
                    (v as nat) >= pow2(p as nat),
                    pow2((23 - p) as nat) > 0,
            ;
        }
        let mant: u32 = v * f - 0x800000;
        (127 + p) * 0x800000 + mant
    } else {
        let sh: u32 = p - 23;
        let powsh: u32 = pow2_u32(sh);
        proof {
            lemma_pow2_pos(sh as nat);
            lemma_pow2_double((sh - 1) as nat);
            lemma_pow2_adds(sh as nat, 24);
            lemma_pow2_adds(sh as nat, 23);
            assert(pow2(24) == 0x1000000 && pow2(23) == 0x800000) by {
                lemma2_to64();
            }
            assert((p + 1) as nat == sh as nat + 24);
            assert(p as nat == sh as nat + 23);
            assert(pow2((p + 1) as nat) == pow2(sh as nat) * pow2(24));
            assert(pow2(p as nat) == pow2(sh as nat) * pow2(23));
        }
        let q: u32 = v / powsh;
        let r: u32 = v % powsh;
        let half: u32 = powsh / 2;
        proof {
            assert(q < 0x1000000) by (nonlinear_arith)
                requires
                    q == v / powsh,
                    (v as nat) < (powsh as nat) * 0x1000000,
                    powsh > 0,
            ;
            assert(q >= 0x800000) by (nonlinear_arith)
                requires
                    q == v / powsh,
                    (v as nat) >= (powsh as nat) * 0x800000,
                    powsh > 0,
            ;
        }
        let round_up: bool = r > half || (r == half && q % 2 == 1);
        let q2: u32 = if round_up {
            q + 1
        } else {
            q
        };
        if q2 == 0x1000000 {
            (128 + p) * 0x800000
        } else {
            (127 + p) * 0x800000 + (q2 - 0x800000)
        }
    }
}

/// Exponent field of single-precision bits.
pub open spec fn single_exp(bits: u32) -> u32 {
    (bits / 0x800000) % 256
}

/// Fraction field of single-precision bits.
pub open spec fn single_frac(bits: u32) -> u32 {
    bits % 0x800000
}

/// Sign bit of single-precision bits.
pub open spec fn single_is_neg(bits: u32) -> bool {
    bits >= 0x80000000
}

/// The bits denote a NaN.
pub open spec fn single_is_nan(bits: u32) -> bool {
    single_exp(bits) == 255 && single_frac(bits) != 0
}

/// The bits denote an infinity.
pub open spec fn single_is_inf(bits: u32) -> bool {
    single_exp(bits) == 255 && single_frac(bits) == 0
}

/// The value is neither a zero nor... rather: the float compares
/// unequal to 0.0 (NaN included, as `NaN != 0.0` holds).
pub open spec fn single_is_nonzero(bits: u32) -> bool {
    bits != 0 && bits != 0x80000000
}

/// Magnitude of a finite value, truncated toward zero.
pub open spec fn spec_single_mag_floor(bits: u32) -> nat {
    let e = single_exp(bits) as nat;
    let m = single_frac(bits) as nat;
    if e < 127 {
        0
    } else {
        let mf = (0x800000 + m) as nat;
        if e >= 150 {
            mf * pow2((e - 150) as nat)
        } else {
            mf / pow2((150 - e) as nat)
        }
    }
}

/// Truncated magnitude, capped at `0x1_0000_0000` so it fits a
/// machine word; enough for every saturating cast up to 32 bits.
pub fn single_mag_floor_capped(bits: u32) -> (mag: u64)
    requires
        single_exp(bits) != 255,
    ensures
        mag == if spec_single_mag_floor(bits) > 0x1_0000_0000 {
            0x1_0000_0000u64
        } else {
            spec_single_mag_floor(bits) as u64
        },
{
    let e: u32 = (bits / 0x800000) % 256;
    let m: u32 = bits % 0x800000;
    if e < 127 {
        0
    } else {
        let mf: u64 = 0x800000 + (m as u64);
        if e >= 159 {
            proof {
                lemma_pow2_pos((e - 150) as nat);
                lemma_pow2_adds(23, (e - 150) as nat);
                lemma2_to64();
                assert((mf as nat) * pow2((e - 150) as nat) >= 0x800000 * pow2(
                    (e - 150) as nat,
                )) by (nonlinear_arith)
                    requires
                        mf >= 0x800000,
                        pow2((e - 150) as nat) > 0,
                ;
                assert(0x800000 * pow2((e - 150) as nat) == pow2((23 + e - 150) as nat));
                if (23 + e - 150) as nat > 32 {
                    lemma_pow2_strictly_increases(32, (23 + e - 150) as nat);
                }
            }
            0x1_0000_0000
        } else if e >= 150 {
            let f: u64 = pow2_u32(e - 150) as u64;
            proof {
                lemma_pow2_pos((e - 150) as nat);
                assert(pow2(8) == 256 && pow2(24) == 0x1000000 && pow2(32) == 0x100000000) by {
                    lemma2_to64();
                }
                if ((e - 150) as nat) < 8 {
                    lemma_pow2_strictly_increases((e - 150) as nat, 8);
                }
                lemma_pow2_adds(24, 8);
                assert((mf as nat) * (f as nat) < 0x1000000 * 256) by (nonlinear_arith)
                    requires
                        (mf as nat) < 0x1000000,
                        (f as nat) <= 256,
                        f > 0,
                ;
            }
            mf * f
        } else {
            let f: u64 = pow2_u32(150 - e) as u64;
            proof {
                lemma_pow2_pos((150 - e) as nat);
            }
            mf / f
        }
    }
}

/// The `u16` value of the float cast, truncating and saturating.
pub open spec fn spec_single_to_u16(bits: u32) -> u16 {
    if single_is_nan(bits) {
        0u16
    } else if single_is_neg(bits) {
        0u16
    } else if single_is_inf(bits) {
        0xFFFFu16
    } else if spec_single_mag_floor(bits) > 0xFFFF {
        0xFFFFu16
    } else {
        spec_single_mag_floor(bits) as u16
    }
}

/// The `i16` value of the float cast, truncating and saturating.
pub open spec fn spec_single_to_i16(bits: u32) -> i16 {
    if single_is_nan(bits) {
        0i16
    } else if single_is_neg(bits) {
        if single_is_inf(bits) || spec_single_mag_floor(bits) > 32768 {
            -32768i16
        } else {
            (-(spec_single_mag_floor(bits) as int)) as i16
        }
    } else {
        if single_is_inf(bits) || spec_single_mag_floor(bits) > 32767 {
            32767i16
        } else {
            spec_single_mag_floor(bits) as i16
        }
    }
}

/// The `u32` value of the float cast, truncating and saturating.
pub open spec fn spec_single_to_u32(bits: u32) -> u32 {
    if single_is_nan(bits) {
        0u32
    } else if single_is_neg(bits) {
        0u32
    } else if single_is_inf(bits) {
        0xFFFFFFFFu32
    } else if spec_single_mag_floor(bits) > 0xFFFFFFFF {
        0xFFFFFFFFu32
    } else {
        spec_single_mag_floor(bits) as u32
    }
}

/// Truncating, saturating cast of single-precision bits to `u16`.
pub fn single_to_u16(bits: u32) -> (r: u16)
    ensures
        r == spec_single_to_u16(bits),
{
    let e: u32 = (bits / 0x800000) % 256;
    let m: u32 = bits % 0x800000;
    if e == 255 {
        if m != 0 {
            0
        } else if bits >= 0x80000000 {
            0
        } else {
            0xFFFF
        }
    } else if bits >= 0x80000000 {
        0
    } else {
        let mag: u64 = single_mag_floor_capped(bits);
        if mag > 0xFFFF {
            0xFFFF
        } else {
            mag as u16
        }
    }
}

/// Truncating, saturating cast of single-precision bits to `i16`.
pub fn single_to_i16(bits: u32) -> (r: i16)
    ensures
        r == spec_single_to_i16(bits),
{
    let e: u32 = (bits / 0x800000) % 256;
    let m: u32 = bits % 0x800000;
    if e == 255 && m != 0 {
        0
    } else if e == 255 {
        if bits >= 0x80000000 {
            -32768
        } else {
            32767
        }
    } else if bits >= 0x80000000 {
        let mag: u64 = single_mag_floor_capped(bits);
        if mag >= 32768 {
            -32768
        } else {
            0i16 - (mag as i16)
        }
    } else {
        let mag: u64 = single_mag_floor_capped(bits);
        if mag > 32767 {
            32767
        } else {
            mag as i16
        }
    }
}

/// Truncating, saturating cast of single-precision bits to `u32`.
pub fn single_to_u32(bits: u32) -> (r: u32)
    ensures
        r == spec_single_to_u32(bits),
{
    let e: u32 = (bits / 0x800000) % 256;
    let m: u32 = bits % 0x800000;
    if e == 255 {
        if m != 0 {
            0
        } else if bits >= 0x80000000 {
            0
        } else {
            0xFFFFFFFF
        }
    } else if bits >= 0x80000000 {
        0
    } else {
        let mag: u64 = single_mag_floor_capped(bits);
        if mag > 0xFFFFFFFF {
            0xFFFFFFFF
        } else {
            mag as u32
        }
    }
}

} // verus!

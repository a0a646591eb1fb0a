//! IEEE-754 binary32 and binary64 values held as their bit patterns, and
//! the conversions between them and integers, in exact integer arithmetic.
//!
//! A finite value is measured in units of 2^-1074 (the smallest binary64
//! step): every finite binary32 and binary64 value is an integer number of
//! such units.

use vstd::prelude::*;
use vstd::arithmetic::power2::{pow2, lemma_pow2_adds, lemma_pow2_pos, lemma_pow2_unfold, lemma_pow2_strictly_increases};
use vstd::arithmetic::div_mod::lemma_fundamental_div_mod_converse;

verus! {

/// 2^52.
pub open spec fn two52() -> nat {
    0x10_0000_0000_0000
}

/// The sign bit of binary64 bits.
pub open spec fn sign64(b: u64) -> bool {
    b >= 0x8000_0000_0000_0000
}

/// The biased exponent field of binary64 bits.
pub open spec fn exp64(b: u64) -> nat {
    ((b as nat / two52()) % 2048) as nat
}

/// The fraction field of binary64 bits.
pub open spec fn frac64(b: u64) -> nat {
    (b as nat % two52()) as nat
}

/// Binary64 bits that are a NaN.
pub open spec fn nan64(b: u64) -> bool {
    exp64(b) == 2047 && frac64(b) != 0
}

/// Binary64 bits that are an infinity.
pub open spec fn inf64(b: u64) -> bool {
    exp64(b) == 2047 && frac64(b) == 0
}

/// The magnitude of finite binary64 bits, in units of 2^-1074.
pub open spec fn mag64(b: u64) -> nat {
    if exp64(b) == 0 {
        frac64(b)
    } else {
        (two52() + frac64(b)) * pow2((exp64(b) - 1) as nat)
    }
}

/// The sign bit of binary32 bits.
pub open spec fn sign32(b: u32) -> bool {
    b >= 0x8000_0000
}

/// The biased exponent field of binary32 bits.
pub open spec fn exp32(b: u32) -> nat {
    ((b as nat / 0x80_0000) % 256) as nat
}

/// The fraction field of binary32 bits.
pub open spec fn frac32(b: u32) -> nat {
    (b as nat % 0x80_0000) as nat
}

/// Binary32 bits that are a NaN.
pub open spec fn nan32(b: u32) -> bool {
    exp32(b) == 255 && frac32(b) != 0
}

/// Binary32 bits that are an infinity.
pub open spec fn inf32(b: u32) -> bool {
    exp32(b) == 255 && frac32(b) == 0
}

/// The magnitude of finite binary32 bits, in units of 2^-1074.
pub open spec fn mag32(b: u32) -> nat {
    if exp32(b) == 0 {
        frac32(b) * pow2(925)
    } else {
        (0x80_0000 + frac32(b)) * pow2(exp32(b) + 924)
    }
}

/// `a / u` rounded to the nearest integer, ties to the even one.
pub open spec fn round_even(a: nat, u: nat) -> nat
    recommends
        u > 0,
{
    let q = a / u;
    let r = a % u;
    if 2 * r > u || (2 * r == u && q % 2 == 1) {
        q + 1
    } else {
        q
    }
}

/// `2^k`, for `k < 64`.
pub fn p2(k: u64) -> (r: u64)
    requires
        k < 64,
    ensures
        r == pow2(k as nat),
{
    let mut r: u64 = 1;
    let mut i: u64 = 0;
    proof {
        vstd::arithmetic::power2::lemma2_to64();
    }
    while i < k
        invariant
            i <= k < 64,
            r == pow2(i as nat),
        decreases k - i,
    {
        proof {
            lemma_pow2_unfold((i + 1) as nat);
            vstd::arithmetic::power2::lemma2_to64();
            vstd::arithmetic::power2::lemma2_to64_rest();
            lemma_pow2_strictly_increases((i + 1) as nat, 64);
        }
        r = r * 2;
        i = i + 1;
    }
    r
}

/// The fields of binary64 bits put together from a sign, an exponent and a
/// fraction.
pub proof fn lemma_fields64(s: nat, e: nat, f: nat)
    requires
        s <= 1,
        e < 2048,
        f < two52(),
    ensures
        s * 0x8000_0000_0000_0000 + e * two52() + f <= u64::MAX,
        ({
            let b = (s * 0x8000_0000_0000_0000 + e * two52() + f) as u64;
            &&& sign64(b) == (s == 1)
            &&& exp64(b) == e
            &&& frac64(b) == f
        }),
{
    let x = s * 0x8000_0000_0000_0000 + e * two52() + f;
    assert(x == (s * 2048 + e) * two52() + f);
    lemma_fundamental_div_mod_converse(x as int, two52() as int, (s * 2048 + e) as int, f as int);
    lemma_fundamental_div_mod_converse((s * 2048 + e) as int, 2048, s as int, e as int);
}

/// The fields of binary32 bits put together from a sign, an exponent and a
/// fraction.
pub proof fn lemma_fields32(s: nat, e: nat, f: nat)
    requires
        s <= 1,
        e < 256,
        f < 0x80_0000,
    ensures
        s * 0x8000_0000 + e * 0x80_0000 + f <= u32::MAX,
        ({
            let b = (s * 0x8000_0000 + e * 0x80_0000 + f) as u32;
            &&& sign32(b) == (s == 1)
            &&& exp32(b) == e
            &&& frac32(b) == f
        }),
{
    let x = s * 0x8000_0000 + e * 0x80_0000 + f;
    assert(x == (s * 256 + e) * 0x80_0000 + f);
    lemma_fundamental_div_mod_converse(x as int, 0x80_0000, (s * 256 + e) as int, f as int);
    lemma_fundamental_div_mod_converse((s * 256 + e) as int, 256, s as int, e as int);
}

/// The sign, exponent and fraction of binary64 bits.
pub fn split64(b: u64) -> (r: (u64, u64, u64))
    ensures
        r.0 <= 1,
        (r.0 == 1) == sign64(b),
        r.1 == exp64(b),
        r.2 == frac64(b),
        r.1 < 2048,
        r.2 < two52(),
        b == r.0 * 0x8000_0000_0000_0000 + r.1 * two52() + r.2,
{
    let s = b / 0x8000_0000_0000_0000;
    let e = (b / 0x10_0000_0000_0000) % 2048;
    let f = b % 0x10_0000_0000_0000;
    proof {
        lemma_fundamental_div_mod_converse(
            (b / 0x10_0000_0000_0000) as int,
            2048,
            s as int,
            e as int,
        );
    }
    (s, e, f)
}

/// The sign, exponent and fraction of binary32 bits.
pub fn split32(b: u32) -> (r: (u32, u32, u32))
    ensures
        r.0 <= 1,
        (r.0 == 1) == sign32(b),
        r.1 == exp32(b),
        r.2 == frac32(b),
        r.1 < 256,
        r.2 < 0x80_0000,
        b == r.0 * 0x8000_0000 + r.1 * 0x80_0000 + r.2,
{
    let s = b / 0x8000_0000;
    let e = (b / 0x80_0000) % 256;
    let f = b % 0x80_0000;
    proof {
        lemma_fundamental_div_mod_converse((b / 0x80_0000) as int, 256, s as int, e as int);
    }
    (s, e, f)
}

/// `r` is binary32 bits `b` widened to binary64: the same value and sign,
/// or a NaN for a NaN.
pub open spec fn widens_to(b: u32, r: u64) -> bool {
    if nan32(b) {
        nan64(r)
    } else if inf32(b) {
        inf64(r) && sign64(r) == sign32(b)
    } else {
        !nan64(r) && !inf64(r) && sign64(r) == sign32(b) && mag64(r) == mag32(b)
    }
}

/// Widen binary32 bits to binary64 bits (exact).
pub fn f32_to_f64_bits(b: u32) -> (r: u64)
    ensures
        widens_to(b, r),
{
    let (s, e, f) = split32(b);
    let s64 = s as u64;
    let f64v = f as u64;
    if e == 255 {
        if f == 0 {
            proof {
                lemma_fields64(s64 as nat, 2047, 0);
            }
            s64 * 0x8000_0000_0000_0000 + 2047 * 0x10_0000_0000_0000
        } else {
            let q = if f < 0x40_0000 {
                f64v + 0x40_0000
            } else {
                f64v
            };
            proof {
                lemma_fields64(s64 as nat, 2047, (q * 0x2000_0000) as nat);
            }
            s64 * 0x8000_0000_0000_0000 + 2047 * 0x10_0000_0000_0000 + q * 0x2000_0000
        }
    } else if e == 0 {
        if f == 0 {
            proof {
                lemma_fields64(s64 as nat, 0, 0);
            }
            s64 * 0x8000_0000_0000_0000
        } else {
            let mut pw: u64 = 1;
            let mut p: u64 = 0;
            proof {
                vstd::arithmetic::power2::lemma2_to64();
            }
            while pw * 2 <= f64v
                invariant
                    0 < f64v < 0x80_0000,
                    pw == pow2(p as nat),
                    1 <= pw <= f64v,
                    p <= 22,
                decreases f64v - pw,
            {
                proof {
                    lemma_pow2_unfold((p + 1) as nat);
                    if p >= 22 {
                        vstd::arithmetic::power2::lemma2_to64();
                        lemma_pow2_strictly_increases(23, (p + 1) as nat);
                    }
                }
                pw = pw * 2;
                p = p + 1;
            }
            let mul = p2(52 - p);
            proof {
                lemma_pow2_adds(p as nat, (52 - p) as nat);
                vstd::arithmetic::power2::lemma2_to64_rest();
                assert(pow2(52) == two52()) by {
                    vstd::arithmetic::power2::lemma2_to64_rest();
                }
                assert(pw * mul == two52());
                assert(f64v * mul < 2 * two52()) by (nonlinear_arith)
                    requires
                        f64v < 2 * pw,
                        pw * mul == two52(),
                        mul > 0,
                ;
                assert(f64v * mul >= two52()) by (nonlinear_arith)
                    requires
                        f64v >= pw,
                        pw * mul == two52(),
                        mul > 0,
                ;
            }
            let frac = f64v * mul - 0x10_0000_0000_0000;
            let ex = 874 + p;
            proof {
                lemma_fields64(s64 as nat, ex as nat, frac as nat);
                lemma_pow2_adds((52 - p) as nat, (873 + p) as nat);
                assert(((52 - p) + (873 + p)) as nat == 925);
                assert((two52() + frac) * pow2((ex - 1) as nat) == f64v * pow2(925)) by (nonlinear_arith)
                    requires
                        two52() + frac == f64v * mul,
                        mul == pow2((52 - p) as nat),
                        pow2(925) == pow2((52 - p) as nat) * pow2((873 + p) as nat),
                        (ex - 1) as nat == (873 + p) as nat,
                ;
            }
            s64 * 0x8000_0000_0000_0000 + ex * 0x10_0000_0000_0000 + frac
        }
    } else {
        let ex = (e as u64) + 896;
        let frac = f64v * 0x2000_0000;
        proof {
            lemma_fields64(s64 as nat, ex as nat, frac as nat);
            vstd::arithmetic::power2::lemma2_to64();
            lemma_pow2_adds(29, (e + 895) as nat);
            assert((29 + (e + 895)) as nat == (e + 924) as nat);
            assert((two52() + frac) * pow2((ex - 1) as nat) == (0x80_0000 + f) * pow2((e + 924) as nat)) by (
            nonlinear_arith)
                requires
                    frac == f * pow2(29),
                    pow2(29) == 0x2000_0000,
                    two52() == 0x80_0000 * pow2(29),
                    pow2((e + 924) as nat) == pow2(29) * pow2((e + 895) as nat),
                    (ex - 1) as nat == (e + 895) as nat,
            ;
        }
        s64 * 0x8000_0000_0000_0000 + ex * 0x10_0000_0000_0000 + frac
    }
}


/// The exponent of the binary32 grid step, in units of 2^-1074, for
/// binary64 values of biased exponent `e` (at least 1): the step of the
/// binary32 binade holding them, or the subnormal step.
pub open spec fn grid_exp32(e: nat) -> nat {
    if e >= 897 {
        e + 28
    } else {
        925
    }
}

/// The magnitude of finite binary64 bits rounded to the binary32 grid, ties
/// to even.
pub open spec fn rounded32(d: u64) -> nat {
    let e = if exp64(d) == 0 {
        1
    } else {
        exp64(d)
    };
    round_even(mag64(d), pow2(grid_exp32(e))) * pow2(grid_exp32(e))
}

/// `r` is binary64 bits `d` narrowed to binary32, rounding to nearest with
/// ties to even: a NaN for a NaN, an infinity for an infinity or a value
/// whose rounding reaches 2^128, else the rounded value with `d`'s sign.
pub open spec fn narrows_to(d: u64, r: u32) -> bool {
    if nan64(d) {
        nan32(r)
    } else if inf64(d) || rounded32(d) >= pow2(1202) {
        inf32(r) && sign32(r) == sign64(d)
    } else {
        !nan32(r) && !inf32(r) && sign32(r) == sign64(d) && mag32(r) == rounded32(d)
    }
}

/// Rounding is unchanged when both sides are scaled alike.
pub(crate) proof fn lemma_round_scale(a: nat, u: nat, c: nat)
    requires
        u > 0,
        c > 0,
    ensures
        round_even(a * c, u * c) == round_even(a, u),
{
    let q = a / u;
    let r = a % u;
    assert(a == q * u + r && 0 <= r < u) by {
        vstd::arithmetic::div_mod::lemma_fundamental_div_mod(a as int, u as int);
    }
    assert(a * c == q * (u * c) + r * c && r * c < u * c && 0 <= r * c) by (nonlinear_arith)
        requires
            a == q * u + r,
            0 <= r < u,
            c > 0,
    ;
    lemma_fundamental_div_mod_converse((a * c) as int, (u * c) as int, q as int, (r * c) as int);
    assert((2 * (r * c) > u * c) == (2 * r > u)) by (nonlinear_arith)
        requires
            c > 0,
    ;
    assert((2 * (r * c) == u * c) == (2 * r == u)) by (nonlinear_arith)
        requires
            c > 0,
    ;
}

/// Finite binary32 magnitudes stay below 2^128.
proof fn lemma_mag32_bound(b: u32)
    requires
        exp32(b) < 255,
    ensures
        mag32(b) < pow2(1202),
{
    lemma_pow2_pos(925);
    vstd::arithmetic::power2::lemma2_to64();
    if exp32(b) == 0 {
        lemma_pow2_adds(277, 925);
        lemma_pow2_strictly_increases(24, 277);
        assert(frac32(b) * pow2(925) < pow2(277) * pow2(925)) by (nonlinear_arith)
            requires
                frac32(b) < 0x80_0000,
                0x80_0000 < pow2(277),
                pow2(925) > 0,
        ;
    } else {
        let e = exp32(b);
        lemma_pow2_pos(e + 924);
        lemma_pow2_adds(24, e + 924);
        if e + 924 + 24 < 1202 {
            lemma_pow2_strictly_increases(e + 924 + 24, 1202);
        }
        assert((0x80_0000 + frac32(b)) * pow2(e + 924) < pow2(24) * pow2(e + 924)) by (nonlinear_arith)
            requires
                frac32(b) < 0x80_0000,
                pow2(24) == 0x100_0000,
                pow2(e + 924) > 0,
        ;
    }
}

/// The binary32 bits `k * 2^23 + q` of a rounded value `q` on the grid of
/// step `2^(925 + k)`.
proof fn lemma_grid_bits(k: nat, q: nat)
    requires
        q <= 0x100_0000,
        k == 0 || q >= 0x80_0000,
        k * 0x80_0000 + q < 0x7F80_0000,
    ensures
        ({
            let b = (k * 0x80_0000 + q) as u32;
            &&& exp32(b) < 255
            &&& !sign32(b)
            &&& mag32(b) == q * pow2(925 + k)
            &&& k * 0x80_0000 + q == exp32(b) * 0x80_0000 + frac32(b)
            &&& frac32(b) < 0x80_0000
        }),
{
    if q < 0x80_0000 {
        lemma_fields32(0, k, q);
    } else if q < 0x100_0000 {
        lemma_fields32(0, k + 1, (q - 0x80_0000) as nat);
        assert(((k + 1) * 0x80_0000 + (q - 0x80_0000)) as nat == k * 0x80_0000 + q);
    } else {
        lemma_fields32(0, k + 2, 0);
        assert(((k + 2) * 0x80_0000 + 0) as nat == k * 0x80_0000 + q);
        lemma_pow2_unfold(k + 926);
        assert(0x80_0000 * pow2(k + 926) == 0x100_0000 * pow2(925 + k));
    }
}

/// A rounded value whose grid bits reach the infinity pattern is at least
/// 2^128.
proof fn lemma_grid_overflow(k: nat, q: nat)
    requires
        q <= 0x100_0000,
        k == 0 || q >= 0x80_0000,
        k * 0x80_0000 + q >= 0x7F80_0000,
    ensures
        q * pow2(925 + k) >= pow2(1202),
{
    vstd::arithmetic::power2::lemma2_to64();
    if k >= 254 {
        lemma_pow2_adds(23, 1179);
        if 925 + k > 1179 {
            lemma_pow2_strictly_increases(1179, 925 + k);
        }
        lemma_pow2_pos(1179);
        assert(q * pow2(925 + k) >= pow2(23) * pow2(1179)) by (nonlinear_arith)
            requires
                q >= pow2(23),
                pow2(925 + k) >= pow2(1179),
                pow2(1179) > 0,
        ;
    } else {
        assert(k == 253 && q == 0x100_0000);
        lemma_pow2_adds(24, 1178);
    }
}

/// Narrow binary64 bits to binary32 bits, rounding to nearest with ties to
/// even.
#[verifier::spinoff_prover]
#[verifier::rlimit(40)]
pub fn f64_to_f32_bits(d: u64) -> (r: u32)
    ensures
        narrows_to(d, r),
{
    let (s, e, f) = split64(d);
    let s32 = s as u32;
    if e == 2047 {
        if f == 0 {
            proof {
                lemma_fields32(s32 as nat, 255, 0);
            }
            return s32 * 0x8000_0000 + 255 * 0x80_0000;
        } else {
            let q0 = (f / 0x2000_0000) as u32;
            let q = if q0 < 0x40_0000 {
                q0 + 0x40_0000
            } else {
                q0
            };
            proof {
                lemma_fields32(s32 as nat, 255, q as nat);
            }
            return s32 * 0x8000_0000 + 255 * 0x80_0000 + q;
        }
    }
    let m: u64 = if e == 0 {
        f
    } else {
        f + 0x10_0000_0000_0000
    };
    let ee: u64 = if e == 0 {
        1
    } else {
        e
    };
    let g: u64 = if ee >= 897 {
        ee + 28
    } else {
        925
    };
    let sh: u64 = g - ee + 1;
    proof {
        vstd::arithmetic::power2::lemma2_to64();
        assert(mag64(d) == m * pow2((ee - 1) as nat));
        lemma_pow2_pos(sh as nat);
        lemma_pow2_pos((ee - 1) as nat);
        lemma_pow2_adds(sh as nat, (ee - 1) as nat);
        assert((sh + (ee - 1)) as nat == g as nat);
        lemma_round_scale(m as nat, pow2(sh as nat), pow2((ee - 1) as nat));
        lemma_pow2_pos(sh as nat);
        lemma_pow2_pos((ee - 1) as nat);
        assert(rounded32(d) == round_even(m as nat, pow2(sh as nat)) * pow2(g as nat));
    }
    let qr: u64 = if sh > 55 {
        proof {
            vstd::arithmetic::power2::lemma2_to64();
            vstd::arithmetic::power2::lemma2_to64_rest();
            lemma_pow2_strictly_increases(55, sh as nat);
            assert(m < pow2(53));
            lemma_pow2_adds(53, 2);
            lemma_fundamental_div_mod_converse(m as int, pow2(sh as nat) as int, 0, m as int);
        }
        0
    } else {
        let u = p2(sh);
        let half = p2(sh - 1);
        proof {
            lemma_pow2_unfold(sh as nat);
        }
        let q = m / u;
        let rem = m % u;
        proof {
            vstd::arithmetic::power2::lemma2_to64();
            vstd::arithmetic::power2::lemma2_to64_rest();
            assert(m < 0x20_0000_0000_0000);
            vstd::arithmetic::div_mod::lemma_fundamental_div_mod(m as int, u as int);
            if sh == 29 {
                assert(m >= 0x10_0000_0000_0000);
                assert(0x80_0000 <= q < 0x100_0000) by (nonlinear_arith)
                    requires
                        u == 0x2000_0000,
                        m == u * q + rem,
                        0 <= rem < u,
                        0x10_0000_0000_0000 <= m < 0x20_0000_0000_0000,
                ;
            } else {
                lemma_pow2_strictly_increases(29, sh as nat);
                assert(pow2(30) == 0x4000_0000);
                if sh > 30 {
                    lemma_pow2_strictly_increases(30, sh as nat);
                }
                assert(q < 0x80_0000) by (nonlinear_arith)
                    requires
                        u >= 0x4000_0000,
                        m == u * q + rem,
                        0 <= rem < u,
                        m < 0x20_0000_0000_0000,
                ;
            }
        }
        if rem > half || (rem == half && q % 2 == 1) {
            q + 1
        } else {
            q
        }
    };
    proof {
        assert(qr == round_even(m as nat, pow2(sh as nat)));
    }
    proof {
        assert(qr <= 0x100_0000);
        assert(g == 925 || qr >= 0x80_0000);
        assert((925 + (g - 925)) as nat == g as nat);
    }
    let bits_mag: u64 = (g - 925) * 0x80_0000 + qr;
    if bits_mag >= 0x7F80_0000 {
        proof {
            lemma_fields32(s32 as nat, 255, 0);
            lemma_grid_overflow((g - 925) as nat, qr as nat);
        }
        s32 * 0x8000_0000 + 255 * 0x80_0000
    } else {
        let bm = bits_mag as u32;
        proof {
            lemma_grid_bits((g - 925) as nat, qr as nat);
            lemma_fields32(s32 as nat, exp32(bm), frac32(bm));
            lemma_mag32_bound(bm);
        }
        s32 * 0x8000_0000 + bm
    }
}


/// The position of the highest set bit of `n` (0 for 0 and 1).
pub open spec fn log2_floor(n: nat) -> nat
    decreases n,
{
    if n < 2 {
        0
    } else {
        1 + log2_floor(n / 2)
    }
}

/// The exponent of the binary64 grid step at integer `n`'s binade: 0 up
/// to 2^53, more above.
pub open spec fn int_step_exp(n: nat) -> nat {
    if log2_floor(n) > 52 {
        (log2_floor(n) - 52) as nat
    } else {
        0
    }
}

/// Integer `n` rounded to the binary64 grid, ties to even.
pub open spec fn rounded_int(n: nat) -> nat {
    round_even(n, pow2(int_step_exp(n))) * pow2(int_step_exp(n))
}

/// `r` is integer `x` converted to binary64: rounded to nearest, ties to
/// even, with `x`'s sign (`+0` for zero).
pub open spec fn int_converts_to(x: int, r: u64) -> bool {
    let n = if x < 0 {
        -x
    } else {
        x
    };
    !nan64(r) && !inf64(r) && sign64(r) == (x < 0) && mag64(r) == rounded_int(n as nat) * pow2(1074)
}

/// `log2_floor` is the exponent of the power of two just below.
pub(crate) proof fn lemma_log2_floor(n: nat, l: nat)
    requires
        pow2(l) <= n < pow2(l + 1),
    ensures
        log2_floor(n) == l,
    decreases l,
{
    vstd::arithmetic::power2::lemma2_to64();
    if l == 0 {
    } else {
        lemma_pow2_unfold(l);
        lemma_pow2_unfold(l + 1);
        lemma_pow2_pos((l - 1) as nat);
        assert(pow2((l - 1) as nat) <= n / 2 < pow2(l)) by {
            vstd::arithmetic::div_mod::lemma_fundamental_div_mod(n as int, 2);
        }
        lemma_log2_floor(n / 2, (l - 1) as nat);
    }
}

/// The binary64 bits `k * 2^52 + q` of a value `q * 2^k` whose significand
/// `q` lies in `[2^52, 2^53]`.
pub(crate) proof fn lemma_grid_bits64(k: nat, q: nat)
    requires
        two52() <= q <= 2 * two52(),
        k * two52() + q < 2047 * two52(),
    ensures
        ({
            let b = (k * two52() + q) as u64;
            &&& !nan64(b)
            &&& !inf64(b)
            &&& !sign64(b)
            &&& mag64(b) == q * pow2(k)
            &&& k * two52() + q == exp64(b) * two52() + frac64(b)
            &&& frac64(b) < two52()
        }),
{
    let b = (k * two52() + q) as u64;
    if q < 2 * two52() {
        lemma_fields64(0, k + 1, (q - two52()) as nat);
        assert(((k + 1) * two52() + (q - two52())) as nat == k * two52() + q);
        assert(exp64(b) == k + 1 && frac64(b) == q - two52());
        assert(mag64(b) == (two52() + (q - two52())) * pow2(k));
    } else {
        lemma_fields64(0, k + 2, 0);
        assert(((k + 2) * two52() + 0) as nat == k * two52() + q);
        assert(exp64(b) == k + 2 && frac64(b) == 0);
        lemma_pow2_unfold(k + 1);
        assert(mag64(b) == two52() * pow2(k + 1));
        assert(two52() * pow2(k + 1) == q * pow2(k)) by (nonlinear_arith)
            requires
                pow2(k + 1) == 2 * pow2(k),
                q == 2 * two52(),
        ;
    }
}

/// Convert an integer to binary64 bits, rounding to nearest with ties to
/// even.
pub fn i64_to_f64_bits(x: i64) -> (r: u64)
    ensures
        int_converts_to(x as int, r),
{
    let neg: u64 = if x < 0 {
        1
    } else {
        0
    };
    let n: u64 = if x == i64::MIN {
        0x8000_0000_0000_0000
    } else if x < 0 {
        (-x) as u64
    } else {
        x as u64
    };
    if n == 0 {
        proof {
            vstd::arithmetic::power2::lemma2_to64();
            lemma_fields64(0, 0, 0);
            assert(rounded_int(0) == 0);
        }
        return 0;
    }
    let mut pw: u64 = 1;
    let mut l: u64 = 0;
    proof {
        vstd::arithmetic::power2::lemma2_to64();
    }
    while pw <= n / 2
        invariant
            1 <= pw <= n <= 0x8000_0000_0000_0000,
            pw == pow2(l as nat),
            l <= 63,
        decreases n - pw,
    {
        proof {
            lemma_pow2_unfold((l + 1) as nat);
            if l >= 63 {
                vstd::arithmetic::power2::lemma2_to64_rest();
            }
        }
        pw = pw * 2;
        l = l + 1;
    }
    proof {
        lemma_pow2_unfold((l + 1) as nat);
        lemma_log2_floor(n as nat, l as nat);
        vstd::arithmetic::power2::lemma2_to64();
        vstd::arithmetic::power2::lemma2_to64_rest();
    }
    let q: u64 = if l <= 52 {
        let mul = p2(52 - l);
        proof {
            lemma_pow2_adds(l as nat, (52 - l) as nat);
            assert((l + (52 - l)) as nat == 52);
            assert(pow2(0) == 1);
            lemma_round_scale(n as nat, 1, 1);
            assert(n * mul <= 2 * two52()) by (nonlinear_arith)
                requires
                    n < 2 * pw,
                    pw * mul == two52(),
            ;
            assert(n * mul >= two52()) by (nonlinear_arith)
                requires
                    n >= pw,
                    pw * mul == two52(),
            ;
            vstd::arithmetic::div_mod::lemma_fundamental_div_mod_converse(n as int, 1, n as int, 0);
        }
        n * mul
    } else {
        let sh = l - 52;
        let u = p2(sh);
        let half = p2(sh - 1);
        proof {
            lemma_pow2_unfold(sh as nat);
            lemma_pow2_adds(52, sh as nat);
            assert((52 + sh) as nat == l as nat);
            vstd::arithmetic::div_mod::lemma_fundamental_div_mod(n as int, u as int);
        }
        let qq = n / u;
        let rem = n % u;
        proof {
            assert(two52() <= qq < 2 * two52()) by (nonlinear_arith)
                requires
                    n == u * qq + rem,
                    0 <= rem < u,
                    pw <= n < 2 * pw,
                    pw == two52() * u,
            ;
        }
        if rem > half || (rem == half && qq % 2 == 1) {
            qq + 1
        } else {
            qq
        }
    };
    let k: u64 = l + 1022;
    proof {
        lemma_grid_bits64(k as nat, q as nat);
        lemma_fields64(neg as nat, exp64((k * 0x10_0000_0000_0000 + q) as u64), frac64((k * 0x10_0000_0000_0000 + q) as u64));
        if l <= 52 {
            lemma_pow2_adds((52 - l) as nat, (l + 1022) as nat);
            assert(((52 - l) + (l + 1022)) as nat == 1074);
            assert(int_step_exp(n as nat) == 0);
            assert(q * pow2(k as nat) == n * pow2(1074)) by (nonlinear_arith)
                requires
                    q == n * pow2((52 - l) as nat),
                    pow2(1074) == pow2((52 - l) as nat) * pow2((l + 1022) as nat),
                    k == l + 1022,
            ;
        } else {
            lemma_pow2_adds((l - 52) as nat, 1074);
            assert(((l - 52) + 1074) as nat == (l + 1022) as nat);
            assert(int_step_exp(n as nat) == l - 52);
            assert(q == round_even(n as nat, pow2((l - 52) as nat)));
            assert(rounded_int(n as nat) == q * pow2((l - 52) as nat));
            assert(rounded_int(n as nat) * pow2(1074) == q * pow2(k as nat)) by (nonlinear_arith)
                requires
                    rounded_int(n as nat) == q * pow2((l - 52) as nat),
                    pow2(k as nat) == pow2((l - 52) as nat) * pow2(1074),
            ;
        }
        let b0 = (k * 0x10_0000_0000_0000 + q) as u64;
        let r = (neg * 0x8000_0000_0000_0000 + k * 0x10_0000_0000_0000 + q) as u64;
        assert(exp64(r) == exp64(b0) && frac64(r) == frac64(b0));
        assert(mag64(r) == mag64(b0));
        assert(sign64(r) == (x < 0));
    }
    neg * 0x8000_0000_0000_0000 + k * 0x10_0000_0000_0000 + q
}

/// Binary64 equality: no NaN equals anything, and the two zeros are equal.
pub open spec fn f64_equal(a: u64, b: u64) -> bool {
    !nan64(a) && !nan64(b) && (a == b || (exp64(a) == 0 && frac64(a) == 0 && exp64(b) == 0 && frac64(b) == 0))
}

/// Binary64 equality.
pub fn f64_eq(a: u64, b: u64) -> (r: bool)
    ensures
        r == f64_equal(a, b),
{
    let (_, ea, fa) = split64(a);
    let (_, eb, fb) = split64(b);
    if (ea == 2047 && fa != 0) || (eb == 2047 && fb != 0) {
        return false;
    }
    a == b || (ea == 0 && fa == 0 && eb == 0 && fb == 0)
}

/// Binary32 equality: no NaN equals anything, and the two zeros are equal.
pub open spec fn f32_equal(a: u32, b: u32) -> bool {
    !nan32(a) && !nan32(b) && (a == b || (exp32(a) == 0 && frac32(a) == 0 && exp32(b) == 0 && frac32(b) == 0))
}

/// Binary32 equality.
pub fn f32_eq(a: u32, b: u32) -> (r: bool)
    ensures
        r == f32_equal(a, b),
{
    let (_, ea, fa) = split32(a);
    let (_, eb, fb) = split32(b);
    if (ea == 255 && fa != 0) || (eb == 255 && fb != 0) {
        return false;
    }
    a == b || (ea == 0 && fa == 0 && eb == 0 && fb == 0)
}


/// Binary64 bits are their fields put together.
pub proof fn lemma_bits64(b: u64)
    ensures
        b == (if sign64(b) {
            1nat
        } else {
            0nat
        }) * 0x8000_0000_0000_0000 + exp64(b) * two52() + frac64(b),
{
    let hi = b as nat / two52();
    vstd::arithmetic::div_mod::lemma_fundamental_div_mod(b as int, two52() as int);
    vstd::arithmetic::div_mod::lemma_fundamental_div_mod(hi as int, 2048);
    assert(hi / 2048 == b as nat / 0x8000_0000_0000_0000) by {
        vstd::arithmetic::div_mod::lemma_div_denominator(b as int, two52() as int, 2048);
    }
}

/// Where a finite binary64 magnitude lies: below 2^52 for a subnormal, in
/// `[2^(e+51), 2^(e+52))` for exponent `e`.
pub proof fn lemma_mag64_range(b: u64)
    requires
        exp64(b) < 2047,
    ensures
        exp64(b) == 0 ==> mag64(b) < two52(),
        exp64(b) > 0 ==> pow2(exp64(b) + 51) <= mag64(b) < pow2(exp64(b) + 52),
{
    vstd::arithmetic::power2::lemma2_to64();
    vstd::arithmetic::power2::lemma2_to64_rest();
    if exp64(b) > 0 {
        let e = exp64(b);
        lemma_pow2_adds(52, (e - 1) as nat);
        lemma_pow2_adds(53, (e - 1) as nat);
        assert((52 + (e - 1)) as nat == e + 51);
        assert((53 + (e - 1)) as nat == e + 52);
        lemma_pow2_pos((e - 1) as nat);
        assert(two52() * pow2((e - 1) as nat) <= mag64(b) < 2 * two52() * pow2((e - 1) as nat)) by (nonlinear_arith)
            requires
                mag64(b) == (two52() + frac64(b)) * pow2((e - 1) as nat),
                frac64(b) < two52(),
                pow2((e - 1) as nat) > 0,
        ;
    }
}

/// Finite binary64 bits are told apart by their sign and magnitude.
pub proof fn lemma_mag64_injective(a: u64, b: u64)
    requires
        exp64(a) < 2047,
        exp64(b) < 2047,
        sign64(a) == sign64(b),
        mag64(a) == mag64(b),
    ensures
        a == b,
{
    lemma_bits64(a);
    lemma_bits64(b);
    lemma_mag64_range(a);
    lemma_mag64_range(b);
    vstd::arithmetic::power2::lemma2_to64_rest();
    let ea = exp64(a);
    let eb = exp64(b);
    if ea != eb {
        if ea < eb {
            if ea == 0 {
                lemma_pow2_strictly_increases(52, eb + 51);
            } else {
                if ea + 52 < eb + 51 {
                    lemma_pow2_strictly_increases(ea + 52, eb + 51);
                }
            }
        } else {
            if eb == 0 {
                lemma_pow2_strictly_increases(52, ea + 51);
            } else {
                if eb + 52 < ea + 51 {
                    lemma_pow2_strictly_increases(eb + 52, ea + 51);
                }
            }
        }
    } else if ea > 0 {
        lemma_pow2_pos((ea - 1) as nat);
        assert(frac64(a) == frac64(b)) by (nonlinear_arith)
            requires
                (two52() + frac64(a)) * pow2((ea - 1) as nat) == (two52() + frac64(b)) * pow2((ea - 1) as nat),
                pow2((ea - 1) as nat) > 0,
        ;
    }
}

/// Binary64 bits `d` whose value binary32 holds exactly (an infinity, or a
/// finite value on the binary32 grid below 2^128).
pub open spec fn fits_f32(d: u64) -> bool {
    !nan64(d) && (inf64(d) || (rounded32(d) == mag64(d) && rounded32(d) < pow2(1202)))
}

/// Narrowing binary64 bits and widening the result gives an equal value
/// exactly when the value fits binary32.
pub proof fn law_narrow_widen(d: u64, n: u32, w: u64)
    requires
        narrows_to(d, n),
        widens_to(n, w),
    ensures
        f64_equal(w, d) == fits_f32(d),
{
    lemma_bits64(d);
    lemma_bits64(w);
    if nan64(d) {
    } else if inf64(d) {
        assert(w == d);
    } else if rounded32(d) >= pow2(1202) {
    } else if rounded32(d) == mag64(d) {
        lemma_mag64_injective(w, d);
    } else {
        assert(mag64(w) != mag64(d));
    }
}


/// Binary32 bits are their fields put together.
pub proof fn lemma_bits32(b: u32)
    ensures
        b == (if sign32(b) {
            1nat
        } else {
            0nat
        }) * 0x8000_0000 + exp32(b) * 0x80_0000 + frac32(b),
{
    let hi = b as nat / 0x80_0000;
    vstd::arithmetic::div_mod::lemma_fundamental_div_mod(b as int, 0x80_0000);
    vstd::arithmetic::div_mod::lemma_fundamental_div_mod(hi as int, 256);
    assert(hi / 256 == b as nat / 0x8000_0000) by {
        vstd::arithmetic::div_mod::lemma_div_denominator(b as int, 0x80_0000, 256);
    }
}

/// Where a finite binary32 magnitude lies: below 2^948 for a subnormal, in
/// `[2^(e+947), 2^(e+948))` for exponent `e`.
pub proof fn lemma_mag32_range(b: u32)
    requires
        exp32(b) < 255,
    ensures
        exp32(b) == 0 ==> mag32(b) < pow2(948),
        exp32(b) > 0 ==> pow2(exp32(b) + 947) <= mag32(b) < pow2(exp32(b) + 948),
{
    vstd::arithmetic::power2::lemma2_to64();
    let e = exp32(b);
    if e == 0 {
        lemma_pow2_adds(23, 925);
        lemma_pow2_pos(925);
        assert(frac32(b) * pow2(925) < pow2(23) * pow2(925)) by (nonlinear_arith)
            requires
                frac32(b) < pow2(23),
                pow2(925) > 0,
        ;
    } else {
        lemma_pow2_adds(23, e + 924);
        lemma_pow2_adds(24, e + 924);
        lemma_pow2_pos(e + 924);
        assert(pow2(23) * pow2(e + 924) <= mag32(b) < pow2(24) * pow2(e + 924)) by (nonlinear_arith)
            requires
                mag32(b) == (0x80_0000 + frac32(b)) * pow2(e + 924),
                frac32(b) < 0x80_0000,
                pow2(23) == 0x80_0000,
                pow2(24) == 0x100_0000,
                pow2(e + 924) > 0,
        ;
    }
}

/// Finite binary32 bits are told apart by their sign and magnitude.
pub proof fn lemma_mag32_injective(a: u32, b: u32)
    requires
        exp32(a) < 255,
        exp32(b) < 255,
        sign32(a) == sign32(b),
        mag32(a) == mag32(b),
    ensures
        a == b,
{
    lemma_bits32(a);
    lemma_bits32(b);
    lemma_mag32_range(a);
    lemma_mag32_range(b);
    lemma_pow2_pos(925);
    let ea = exp32(a);
    let eb = exp32(b);
    if ea != eb {
        if ea < eb {
            if ea == 0 {
                if 948 < eb + 947 {
                    lemma_pow2_strictly_increases(948, eb + 947);
                }
            } else if ea + 948 < eb + 947 {
                lemma_pow2_strictly_increases(ea + 948, eb + 947);
            }
        } else {
            if eb == 0 {
                if 948 < ea + 947 {
                    lemma_pow2_strictly_increases(948, ea + 947);
                }
            } else if eb + 948 < ea + 947 {
                lemma_pow2_strictly_increases(eb + 948, ea + 947);
            }
        }
    } else if ea > 0 {
        lemma_pow2_pos(ea + 924);
        assert(frac32(a) == frac32(b)) by (nonlinear_arith)
            requires
                (0x80_0000 + frac32(a)) * pow2(ea + 924) == (0x80_0000 + frac32(b)) * pow2(ea + 924),
                pow2(ea + 924) > 0,
        ;
    } else {
        assert(frac32(a) == frac32(b)) by (nonlinear_arith)
            requires
                frac32(a) * pow2(925) == frac32(b) * pow2(925),
                pow2(925) > 0,
        ;
    }
}

/// A multiple of a step rounds to itself.
pub(crate) proof fn lemma_round_exact(k: nat, u: nat)
    requires
        u > 0,
    ensures
        round_even(k * u, u) == k,
{
    lemma_fundamental_div_mod_converse((k * u) as int, u as int, k as int, 0);
}

/// Two values that lie in `[2^a, 2^(a+1))` and `[2^b, 2^(b+1))` and are
/// equal have `a == b`.
proof fn lemma_same_binade(x: nat, a: nat, b: nat)
    requires
        pow2(a) <= x < pow2(a + 1),
        pow2(b) <= x < pow2(b + 1),
    ensures
        a == b,
{
    if a < b {
        if a + 1 < b {
            lemma_pow2_strictly_increases(a + 1, b);
        }
    } else if b < a {
        if b + 1 < a {
            lemma_pow2_strictly_increases(b + 1, a);
        }
    }
}

/// Narrowing a widened binary32 value gives back the same bits, for any
/// value but a NaN.
pub proof fn law_widen_narrow(b: u32, w: u64, n: u32)
    requires
        !nan32(b),
        widens_to(b, w),
        narrows_to(w, n),
    ensures
        n == b,
        fits_f32(w),
{
    lemma_bits32(b);
    lemma_bits32(n);
    if inf32(b) {
        assert(inf64(w));
    } else {
        lemma_mag32_range(b);
        lemma_mag64_range(w);
        lemma_mag32_bound(b);
        vstd::arithmetic::power2::lemma2_to64();
        vstd::arithmetic::power2::lemma2_to64_rest();
        let e = exp32(b);
        let ew = exp64(w);
        let ee = if ew == 0 {
            1
        } else {
            ew
        };
        if e > 0 {
            if ew == 0 {
                lemma_pow2_strictly_increases(52, e + 947);
            }
            lemma_same_binade(mag32(b), e + 947, ew + 51);
            assert(grid_exp32(ee) == e + 924);
            lemma_pow2_pos(e + 924);
            lemma_round_exact((0x80_0000 + frac32(b)) as nat, pow2(e + 924));
        } else {
            if ew > 0 {
                if ew + 51 >= 948 {
                    if ew + 51 > 948 {
                        lemma_pow2_strictly_increases(948, ew + 51);
                    }
                }
            }
            assert(grid_exp32(ee) == 925);
            lemma_pow2_pos(925);
            lemma_round_exact(frac32(b), pow2(925));
        }
        assert(rounded32(w) == mag32(b));
        lemma_mag32_injective(n, b);
    }
}

} // verus!

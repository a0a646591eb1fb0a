//! Binary64 addition on bit patterns, rounding to nearest with ties to
//! even, in exact integer arithmetic.
//!
//! A finite value is measured in units of 2^-1074, as in [`crate::float`];
//! the exact sum of two finite values is then an integer, and the result is
//! that integer rounded to the binary64 grid.

use vstd::prelude::*;
use vstd::arithmetic::power2::{pow2, lemma_pow2_adds, lemma_pow2_pos, lemma_pow2_unfold, lemma_pow2_strictly_increases};
use vstd::arithmetic::div_mod::{lemma_fundamental_div_mod, lemma_fundamental_div_mod_converse};
use crate::float::{
    exp64, frac64, inf64, int_step_exp, lemma_fields64, lemma_grid_bits64, lemma_log2_floor, lemma_mag64_range,
    lemma_round_exact, lemma_round_scale, log2_floor, mag64, nan64, round_even, rounded_int, sign64, split64, two52,
    lemma_bits64, lemma_mag64_injective,
};

verus! {

/// `2^k` as a `u128`, for `k < 128`.
fn p2_wide(k: u64) -> (r: u128)
    requires
        k < 128,
    ensures
        r == pow2(k as nat),
{
    let mut r: u128 = 1;
    let mut i: u64 = 0;
    proof {
        vstd::arithmetic::power2::lemma2_to64();
    }
    while i < k
        invariant
            i <= k < 128,
            r == pow2(i as nat),
        decreases k - i,
    {
        proof {
            lemma_pow2_unfold((i + 1) as nat);
            lemma_pow2_strictly_increases((i + 1) as nat, 128);
            assert(pow2(128) == 0x1_0000_0000_0000_0000_0000_0000_0000_0000) by {
                vstd::arithmetic::power2::lemma2_to64();
                vstd::arithmetic::power2::lemma2_to64_rest();
                lemma_pow2_adds(64, 64);
            }
        }
        r = r * 2;
        i = i + 1;
    }
    r
}

/// `m` is the rounding of magnitude `n` (in units of 2^-1074) to binary64,
/// as positive bits: an infinity where the rounding reaches 2^1024.
pub open spec fn rounds_to_mag(n: nat, m: u64) -> bool {
    if rounded_int(n) >= pow2(2098) {
        m == 0x7FF0_0000_0000_0000u64
    } else {
        !sign64(m) && !nan64(m) && !inf64(m) && mag64(m) == rounded_int(n)
    }
}

/// The binade of `t * 2^k` is `k` above that of `t`.
proof fn lemma_log2_scaled(t: nat, l: nat, k: nat)
    requires
        pow2(l) <= t < pow2(l + 1),
    ensures
        log2_floor(t * pow2(k)) == l + k,
        pow2(l + k) <= t * pow2(k) < pow2(l + k + 1),
{
    lemma_pow2_adds(l, k);
    lemma_pow2_adds(l + 1, k);
    lemma_pow2_pos(k);
    assert(pow2(l) * pow2(k) <= t * pow2(k) < pow2(l + 1) * pow2(k)) by (nonlinear_arith)
        requires
            pow2(l) <= t < pow2(l + 1),
            pow2(k) > 0,
    ;
    assert((l + 1 + k) == (l + k + 1));
    lemma_log2_floor(t * pow2(k), l + k);
}

/// A rounded value whose grid bits reach the infinity pattern is at least
/// 2^1024.
proof fn lemma_grid_overflow64(g: nat, q: nat)
    requires
        two52() <= q <= 2 * two52(),
        g * two52() + q >= 2047 * two52(),
    ensures
        q * pow2(g) >= pow2(2098),
{
    vstd::arithmetic::power2::lemma2_to64();
    vstd::arithmetic::power2::lemma2_to64_rest();
    if q < 2 * two52() {
        assert(g >= 2046) by (nonlinear_arith)
            requires
                g * two52() + q >= 2047 * two52(),
                q < 2 * two52(),
                two52() == 0x10_0000_0000_0000,
        ;
        lemma_pow2_adds(52, 2046);
        if g > 2046 {
            lemma_pow2_strictly_increases(2046, g);
        }
        assert(pow2(52) == two52());
        lemma_pow2_pos(2046);
        assert(q * pow2(g) >= pow2(52) * pow2(2046)) by (nonlinear_arith)
            requires
                q >= pow2(52),
                pow2(g) >= pow2(2046),
                pow2(2046) > 0,
        ;
    } else {
        assert(g >= 2045) by (nonlinear_arith)
            requires
                g * two52() + q >= 2047 * two52(),
                q == 2 * two52(),
                two52() == 0x10_0000_0000_0000,
        ;
        lemma_pow2_adds(53, 2045);
        if g > 2045 {
            lemma_pow2_strictly_increases(2045, g);
        }
        assert(pow2(53) == 2 * two52());
        lemma_pow2_pos(2045);
        assert(q * pow2(g) >= pow2(53) * pow2(2045)) by (nonlinear_arith)
            requires
                q == pow2(53),
                pow2(g) >= pow2(2045),
                pow2(2045) > 0,
        ;
    }
}

/// Finite binary64 magnitudes stay below 2^1024.
proof fn lemma_mag64_bound(b: u64)
    requires
        exp64(b) < 2047,
    ensures
        mag64(b) < pow2(2098),
{
    lemma_mag64_range(b);
    vstd::arithmetic::power2::lemma2_to64();
    vstd::arithmetic::power2::lemma2_to64_rest();
    if exp64(b) == 0 {
        lemma_pow2_strictly_increases(52, 2098);
        assert(pow2(52) == two52());
    } else if exp64(b) + 52 < 2098 {
        lemma_pow2_strictly_increases(exp64(b) + 52, 2098);
    }
}

/// Round `t * 2^k` (in units of 2^-1074) to binary64, as positive bits.
fn round_scaled(t: u128, k: u64) -> (m: u64)
    requires
        0 < t < pow2(114),
        k <= 2046,
    ensures
        rounds_to_mag(t as nat * pow2(k as nat), m),
{
    let mut pw: u128 = 1;
    let mut l: u64 = 0;
    proof {
        vstd::arithmetic::power2::lemma2_to64();
    }
    while pw <= t / 2
        invariant
            1 <= pw <= t,
            t < pow2(114),
            pw == pow2(l as nat),
            l <= 113,
        decreases t - pw,
    {
        proof {
            lemma_pow2_unfold((l + 1) as nat);
            if l >= 113 {
                lemma_pow2_unfold(114);
                assert(false);
            }
        }
        pw = pw * 2;
        l = l + 1;
    }
    proof {
        lemma_pow2_unfold((l + 1) as nat);
        assert(t < pow2((l + 1) as nat));
        lemma_log2_scaled(t as nat, l as nat, k as nat);
        vstd::arithmetic::power2::lemma2_to64();
        vstd::arithmetic::power2::lemma2_to64_rest();
    }
    let ghost n: nat = t as nat * pow2(k as nat);
    if l + k <= 52 {
        let mul = p2_wide(k);
        proof {
            assert((l + k + 1) as nat <= 53);
            if l + k + 1 < 53 {
                lemma_pow2_strictly_increases((l + k + 1) as nat, 53);
            }
            assert(n < pow2(53));
            assert(pow2(53) == 2 * two52());
            assert(int_step_exp(n) == 0);
            lemma_round_exact(n, 1);
            assert(rounded_int(n) == n);
            lemma_pow2_strictly_increases(53, 2098);
        }
        let v = t * mul;
        let b = v as u64;
        proof {
            if v < two52() {
                lemma_fields64(0, 0, v as nat);
                assert(b == 0 * 0x8000_0000_0000_0000u64 + 0 * two52() + v);
            } else {
                lemma_fields64(0, 1, (v - two52()) as nat);
                assert(b == 0 * 0x8000_0000_0000_0000u64 + 1 * two52() + (v - two52()));
                assert(mag64(b) == (two52() + frac64(b)) * pow2(0));
            }
        }
        return b;
    }
    let g: u64 = l + k - 52;
    let q: u128 = if l <= 52 {
        let mul = p2_wide(52 - l);
        proof {
            lemma_pow2_adds(l as nat, (52 - l) as nat);
            assert(t * mul < 2 * two52()) by (nonlinear_arith)
                requires
                    t < 2 * pw,
                    pw * mul == pow2(52),
                    pow2(52) == two52(),
            ;
            assert(t * mul >= two52()) by (nonlinear_arith)
                requires
                    t >= pw,
                    pw * mul == pow2(52),
                    pow2(52) == two52(),
            ;
            lemma_pow2_adds((52 - l) as nat, g as nat);
            assert(((52 - l) + g) as nat == k as nat);
            assert(n == (t * mul) * pow2(g as nat)) by (nonlinear_arith)
                requires
                    n == t * pow2(k as nat),
                    pow2(k as nat) == mul * pow2(g as nat),
            ;
            assert(int_step_exp(n) == g);
            lemma_pow2_pos(g as nat);
            lemma_round_exact((t * mul) as nat, pow2(g as nat));
        }
        t * mul
    } else {
        let sh: u64 = l - 52;
        let u = p2_wide(sh);
        let half = p2_wide(sh - 1);
        proof {
            lemma_pow2_unfold(sh as nat);
            lemma_pow2_adds(52, sh as nat);
            assert((52 + sh) as nat == l as nat);
            lemma_fundamental_div_mod(t as int, u as int);
        }
        let qq = t / u;
        let rem = t % u;
        proof {
            assert(two52() <= qq < 2 * two52()) by (nonlinear_arith)
                requires
                    t == u * qq + rem,
                    0 <= rem < u,
                    pw <= t < 2 * pw,
                    pw == two52() * u,
            ;
            lemma_pow2_adds(sh as nat, k as nat);
            assert((sh + k) as nat == g as nat);
            lemma_pow2_pos(k as nat);
            lemma_round_scale(t as nat, u as nat, pow2(k as nat));
            assert(int_step_exp(n) == g);
        }
        if rem > half || (rem == half && qq % 2 == 1) {
            qq + 1
        } else {
            qq
        }
    };
    proof {
        assert(two52() <= q <= 2 * two52());
        assert(rounded_int(n) == q * pow2(g as nat));
    }
    let bits_mag: u128 = (g as u128) * 0x10_0000_0000_0000 + q;
    if bits_mag >= 2047 * 0x10_0000_0000_0000 {
        proof {
            lemma_grid_overflow64(g as nat, q as nat);
        }
        0x7FF0_0000_0000_0000u64
    } else {
        let b = bits_mag as u64;
        proof {
            lemma_grid_bits64(g as nat, q as nat);
            lemma_mag64_bound(b);
        }
        b
    }
}

/// A magnitude far below the precision of `ma * 2^ka` (a normal
/// significand) is absorbed by it, added or taken away.
proof fn lemma_absorb(ma: nat, ka: nat, bb: nat)
    requires
        two52() <= ma < 2 * two52(),
        ka >= 9,
        bb < pow2((ka - 8) as nat),
    ensures
        rounded_int(ma * pow2(ka) + bb) == ma * pow2(ka),
        bb > 0 ==> rounded_int((ma * pow2(ka) - bb) as nat) == ma * pow2(ka),
{
    vstd::arithmetic::power2::lemma2_to64();
    vstd::arithmetic::power2::lemma2_to64_rest();
    let u = pow2(ka);
    let w = pow2((ka - 8) as nat);
    lemma_pow2_adds((ka - 8) as nat, 8);
    assert(((ka - 8) + 8) as nat == ka);
    assert(u == w * 256);
    lemma_pow2_pos((ka - 8) as nat);
    lemma_pow2_adds(52, ka);
    lemma_pow2_adds(53, ka);
    assert(pow2(52) == two52() && pow2(53) == 2 * two52());
    let a = ma * u;
    // Added: the same binade, and the remainder is below half a step.
    let n = a + bb;
    assert(pow2(52 + ka) <= n < pow2(53 + ka)) by (nonlinear_arith)
        requires
            pow2(52 + ka) == two52() * u,
            pow2(53 + ka) == 2 * two52() * u,
            two52() <= ma < 2 * two52(),
            a == ma * u,
            n == a + bb,
            bb < w,
            u == w * 256,
            w > 0,
    ;
    lemma_log2_floor(n, 52 + ka);
    assert(int_step_exp(n) == ka);
    lemma_fundamental_div_mod_converse(n as int, u as int, ma as int, bb as int);
    assert(round_even(n, u) == ma);
    // Taken away.
    if bb > 0 {
        let m = (a - bb) as nat;
        if ma > two52() {
            assert(pow2(52 + ka) <= m < pow2(53 + ka)) by (nonlinear_arith)
                requires
                    pow2(52 + ka) == two52() * u,
                    pow2(53 + ka) == 2 * two52() * u,
                    two52() < ma < 2 * two52(),
                    a == ma * u,
                    m == a - bb,
                    0 < bb < w,
                    u == w * 256,
                    w > 0,
            ;
            lemma_log2_floor(m, 52 + ka);
            assert(int_step_exp(m) == ka);
            assert(m == (ma - 1) * u + (u - bb)) by (nonlinear_arith)
                requires
                    m == ma * u - bb,
                    ma >= 1,
            ;
            lemma_fundamental_div_mod_converse(m as int, u as int, (ma - 1) as int, (u - bb) as int);
            assert(round_even(m, u) == ma);
        } else {
            let v = pow2((ka - 1) as nat);
            lemma_pow2_adds((ka - 1) as nat, 1);
            assert(((ka - 1) + 1) as nat == ka);
            assert(u == 2 * v);
            lemma_pow2_adds(51, ka);
            lemma_pow2_adds(53, (ka - 1) as nat);
            assert((53 + (ka - 1)) as nat == 52 + ka);
            assert(pow2(51 + ka) <= m < pow2(52 + ka)) by (nonlinear_arith)
                requires
                    pow2(51 + ka) * 2 == pow2(52 + ka),
                    pow2(52 + ka) == two52() * u,
                    ma == two52(),
                    a == ma * u,
                    m == a - bb,
                    0 < bb < w,
                    u == w * 256,
                    w > 0,
                    two52() == 0x10_0000_0000_0000,
            ;
            assert((51 + ka) == (ka + 51));
            lemma_log2_floor(m, (51 + ka) as nat);
            assert(int_step_exp(m) == ka - 1);
            assert(m == (2 * two52() - 1) * v + (v - bb)) by (nonlinear_arith)
                requires
                    m == two52() * u - bb,
                    u == 2 * v,
            ;
            lemma_fundamental_div_mod_converse(m as int, v as int, (2 * two52() - 1) as int, (v - bb) as int);
            assert(round_even(m, v) == 2 * two52());
            assert(2 * two52() * v == a) by (nonlinear_arith)
                requires
                    u == 2 * v,
                    a == two52() * u,
            ;
        }
    }
}

/// `v` with sign `neg`.
pub open spec fn signed(neg: bool, v: nat) -> int {
    if neg {
        -(v as int)
    } else {
        v as int
    }
}

/// A binary64 value with its sign, in units of 2^-1074.
pub open spec fn signed_mag64(b: u64) -> int {
    if sign64(b) {
        -(mag64(b) as int)
    } else {
        mag64(b) as int
    }
}

/// `r` is the binary64 sum of values whose signed magnitudes sum to `s`
/// and whose signs are `sa` and `sb`: an exact zero is `-0` only when both
/// were negative; otherwise the rounded sum, or an infinity past 2^1024.
pub open spec fn finite_sum_is(s: int, sa: bool, sb: bool, r: u64) -> bool {
    if s == 0 {
        !nan64(r) && !inf64(r) && mag64(r) == 0 && sign64(r) == (sa && sb)
    } else {
        let n: nat = if s < 0 {
            (-s) as nat
        } else {
            s as nat
        };
        if rounded_int(n) >= pow2(2098) {
            inf64(r) && sign64(r) == (s < 0)
        } else {
            !nan64(r) && !inf64(r) && sign64(r) == (s < 0) && mag64(r) == rounded_int(n)
        }
    }
}

/// `r` is the binary64 sum `a + b`, rounded to nearest with ties to even:
/// a NaN where either is a NaN or infinities of both signs meet, an
/// infinity where one is, else the exact sum rounded.
pub open spec fn adds_to(a: u64, b: u64, r: u64) -> bool {
    if nan64(a) || nan64(b) {
        nan64(r)
    } else if inf64(a) && inf64(b) && sign64(a) != sign64(b) {
        nan64(r)
    } else if inf64(a) {
        inf64(r) && sign64(r) == sign64(a)
    } else if inf64(b) {
        inf64(r) && sign64(r) == sign64(b)
    } else {
        finite_sum_is(signed_mag64(a) + signed_mag64(b), sign64(a), sign64(b), r)
    }
}

/// The bits with sign `s` of positive bits `m`.
fn with_sign(s: bool, m: u64) -> (r: u64)
    requires
        m < 0x8000_0000_0000_0000,
    ensures
        sign64(r) == s,
        exp64(r) == exp64(m),
        frac64(r) == frac64(m),
        mag64(r) == mag64(m),
        nan64(r) == nan64(m),
        inf64(r) == inf64(m),
{
    let (_, e, f) = split64(m);
    proof {
        lemma_fields64(if s { 1nat } else { 0nat }, e as nat, f as nat);
    }
    if s {
        0x8000_0000_0000_0000 + m
    } else {
        m
    }
}

/// The sum of `±mx * 2^kx` and `±my * 2^ky` for `kx >= ky`, significands
/// as binary64 fields give them.
fn add_ordered(sx: bool, mx: u64, kx: u64, sy: bool, my: u64, ky: u64) -> (r: u64)
    requires
        ky <= kx <= 2045,
        mx < 2 * two52(),
        my < 2 * two52(),
        kx > 0 ==> mx >= two52(),
    ensures
        finite_sum_is(signed(sx, mx as nat * pow2(kx as nat)) + signed(sy, my as nat * pow2(ky as nat)), sx, sy, r),
{
    let d = kx - ky;
    let ghost a: nat = mx as nat * pow2(kx as nat);
    let ghost bb: nat = my as nat * pow2(ky as nat);
    let ghost s: int = signed(sx, a) + signed(sy, bb);
    if d > 60 {
        proof {
            vstd::arithmetic::power2::lemma2_to64();
            vstd::arithmetic::power2::lemma2_to64_rest();
            assert(pow2(53) == 2 * two52());
            lemma_pow2_adds(53, ky as nat);
            lemma_pow2_pos(ky as nat);
            assert(bb < pow2(53) * pow2(ky as nat)) by (nonlinear_arith)
                requires
                    bb == my * pow2(ky as nat),
                    my < 2 * two52(),
                    pow2(53) == 2 * two52(),
                    pow2(ky as nat) > 0,
            ;
            if (53 + ky) < (kx - 8) {
                lemma_pow2_strictly_increases((53 + ky) as nat, (kx - 8) as nat);
            }
            assert(bb < pow2((kx - 8) as nat));
            lemma_absorb(mx as nat, kx as nat, bb);
            lemma_pow2_adds(52, kx as nat);
            lemma_pow2_adds(8, (kx - 8) as nat);
            assert((8 + (kx - 8)) as nat == kx as nat);
            assert(pow2(8) == 256);
            assert(a >= pow2(52) * pow2(kx as nat)) by (nonlinear_arith)
                requires
                    a == mx * pow2(kx as nat),
                    mx >= pow2(52),
            ;
            lemma_pow2_pos((kx - 8) as nat);
            assert(a > bb) by (nonlinear_arith)
                requires
                    a >= pow2(52) * pow2(kx as nat),
                    pow2(kx as nat) == 256 * pow2((kx - 8) as nat),
                    bb < pow2((kx - 8) as nat),
                    pow2(52) > 1,
            ;
        }
        let ex = kx + 1;
        let fr = mx - 0x10_0000_0000_0000;
        proof {
            lemma_fields64(0, ex as nat, fr as nat);
        }
        let m = ex * 0x10_0000_0000_0000 + fr;
        proof {
            assert(mag64(m) == a);
            lemma_mag64_bound(m);
            if sx == sy {
                assert(s == signed(sx, a + bb));
            } else {
                assert(s == signed(sx, (a - bb) as nat));
            }
        }
        return with_sign(sx, m);
    }
    let mul = p2_wide(d);
    proof {
        vstd::arithmetic::power2::lemma2_to64();
        vstd::arithmetic::power2::lemma2_to64_rest();
        if d < 60 {
            lemma_pow2_strictly_increases(d as nat, 60);
        }
        lemma_pow2_adds(53, 60);
        lemma_pow2_pos(60);
        assert(pow2(53) == 2 * two52());
        assert(mx * mul < pow2(113)) by (nonlinear_arith)
            requires
                mx < pow2(53),
                mul <= pow2(60),
                pow2(60) > 0,
                pow2(113) == pow2(53) * pow2(60),
        ;
        lemma_pow2_strictly_increases(53, 114);
        lemma_pow2_strictly_increases(113, 114);
        lemma_pow2_unfold(114);
        lemma_pow2_adds(d as nat, ky as nat);
        assert((d + ky) as nat == kx as nat);
        assert(a == (mx * mul) * pow2(ky as nat)) by (nonlinear_arith)
            requires
                a == mx * pow2(kx as nat),
                pow2(kx as nat) == mul * pow2(ky as nat),
        ;
    }
    let x: u128 = (mx as u128) * mul;
    let y: u128 = my as u128;
    let (t, neg): (u128, bool) = if sx == sy {
        proof {
            assert(x + y < pow2(114)) by (nonlinear_arith)
                requires
                    x < pow2(113),
                    y < pow2(53),
                    pow2(53) < pow2(113),
                    pow2(114) == 2 * pow2(113),
            ;
        }
        (x + y, sx)
    } else if x >= y {
        (x - y, sx)
    } else {
        (y - x, sy)
    };
    proof {
        lemma_pow2_pos(ky as nat);
        if sx == sy {
            assert((x + y) * pow2(ky as nat) == a + bb) by (nonlinear_arith)
                requires
                    a == x * pow2(ky as nat),
                    bb == y * pow2(ky as nat),
            ;
        } else if x >= y {
            assert((x - y) * pow2(ky as nat) == a - bb) by (nonlinear_arith)
                requires
                    a == x * pow2(ky as nat),
                    bb == y * pow2(ky as nat),
            ;
        } else {
            assert((y - x) * pow2(ky as nat) == bb - a) by (nonlinear_arith)
                requires
                    a == x * pow2(ky as nat),
                    bb == y * pow2(ky as nat),
            ;
        }
        assert(s == signed(neg, t as nat * pow2(ky as nat)));
    }
    if t == 0 {
        proof {
            assert(s == 0);
            lemma_fields64(0, 0, 0);
        }
        return with_sign(sx && sy, 0);
    }
    let m = round_scaled(t, ky);
    proof {
        assert(t * pow2(ky as nat) > 0) by (nonlinear_arith)
            requires
                t > 0,
                pow2(ky as nat) > 0,
        ;
        assert(s != 0);
        assert((s < 0) == neg);
        if rounded_int(t as nat * pow2(ky as nat)) >= pow2(2098) {
            lemma_fields64(0, 2047, 0);
        }
    }
    with_sign(neg, m)
}

/// The significand and exponent of a finite binary64 magnitude:
/// `mag = m * 2^k`.
fn significand(e: u64, f: u64) -> (r: (u64, u64))
    requires
        e < 2047,
        f < two52(),
    ensures
        r.0 < 2 * two52(),
        r.1 <= 2045,
        r.1 > 0 ==> r.0 >= two52(),
        e == 0 ==> r.0 == f && r.1 == 0,
        e > 0 ==> r.0 == two52() + f && r.1 == e - 1,
{
    if e == 0 {
        (f, 0)
    } else {
        (0x10_0000_0000_0000 + f, e - 1)
    }
}

/// Binary64 addition on bit patterns, rounding to nearest with ties to
/// even.
pub fn f64_add_bits(a: u64, b: u64) -> (r: u64)
    ensures
        adds_to(a, b, r),
{
    let (sa, ea, fa) = split64(a);
    let (sb, eb, fb) = split64(b);
    let nan: u64 = 0x7FF8_0000_0000_0000;
    proof {
        lemma_fields64(0, 2047, 0x8_0000_0000_0000);
        lemma_fields64(0, 2047, 0);
    }
    if (ea == 2047 && fa != 0) || (eb == 2047 && fb != 0) {
        return nan;
    }
    if ea == 2047 {
        if eb == 2047 && sa != sb {
            return nan;
        }
        return a;
    }
    if eb == 2047 {
        return b;
    }
    let (ma, ka) = significand(ea, fa);
    let (mb, kb) = significand(eb, fb);
    proof {
        assert(pow2(0) == 1) by {
            vstd::arithmetic::power2::lemma2_to64();
        }
        if ea == 0 {
            assert(ma as nat * pow2(ka as nat) == ma as nat) by (nonlinear_arith)
                requires
                    pow2(ka as nat) == 1,
            ;
            assert(mag64(a) == ma as nat * pow2(ka as nat));
        } else {
            assert(ma as nat == two52() + frac64(a));
            assert(ka as nat == (exp64(a) - 1) as nat);
            assert(mag64(a) == (two52() + frac64(a)) * pow2((exp64(a) - 1) as nat));
        }
        if eb == 0 {
            assert(mb as nat * pow2(kb as nat) == mb as nat) by (nonlinear_arith)
                requires
                    pow2(kb as nat) == 1,
            ;
            assert(mag64(b) == mb as nat * pow2(kb as nat));
        } else {
            assert(mb as nat == two52() + frac64(b));
            assert(kb as nat == (exp64(b) - 1) as nat);
            assert(mag64(b) == (two52() + frac64(b)) * pow2((exp64(b) - 1) as nat));
        }
    }
    if ka >= kb {
        let r = add_ordered(sa == 1, ma, ka, sb == 1, mb, kb);
        proof {
            assert(signed_mag64(a) + signed_mag64(b) == signed(sa == 1, ma as nat * pow2(ka as nat)) + signed(
                sb == 1,
                mb as nat * pow2(kb as nat),
            ));
        }
        r
    } else {
        let r = add_ordered(sb == 1, mb, kb, sa == 1, ma, ka);
        proof {
            assert(signed_mag64(a) + signed_mag64(b) == signed(sb == 1, mb as nat * pow2(kb as nat)) + signed(
                sa == 1,
                ma as nat * pow2(ka as nat),
            ));
            assert((sb == 1 && sa == 1) == (sa == 1 && sb == 1));
        }
        r
    }
}

/// The quiet NaN every NaN result is given.
pub open spec fn quiet_nan() -> u64 {
    0x7FF8_0000_0000_0000u64
}

/// `x`, with every NaN made the quiet NaN.
pub open spec fn canonical(x: u64) -> u64 {
    if nan64(x) {
        quiet_nan()
    } else {
        x
    }
}

/// Make every NaN the quiet NaN.
pub fn canonical_nan(x: u64) -> (r: u64)
    ensures
        r == canonical(x),
{
    let (_, e, f) = split64(x);
    if e == 2047 && f != 0 {
        0x7FF8_0000_0000_0000
    } else {
        x
    }
}

/// The binary64 sum `a + b`, rounded to nearest with ties to even, with a
/// NaN result given as the quiet NaN.
pub open spec fn f64_sum(a: u64, b: u64) -> u64 {
    choose|r: u64| adds_to(a, b, r) && r == canonical(r)
}

/// Bits are told apart by whether they are NaNs, infinities or finite, and
/// then by sign and magnitude.
proof fn lemma_sum_unique(a: u64, b: u64, r1: u64, r2: u64)
    requires
        adds_to(a, b, r1),
        adds_to(a, b, r2),
        r1 == canonical(r1),
        r2 == canonical(r2),
    ensures
        r1 == r2,
{
    lemma_bits64(r1);
    lemma_bits64(r2);
    if nan64(r1) || nan64(r2) {
    } else if inf64(r1) || inf64(r2) {
    } else {
        lemma_mag64_injective(r1, r2);
    }
}

/// Binary64 addition on bit patterns: the sum rounded to nearest with ties
/// to even, a NaN result as the quiet NaN.
pub fn f64_add(a: u64, b: u64) -> (r: u64)
    ensures
        r == f64_sum(a, b),
        adds_to(a, b, r),
        r == canonical(r),
{
    let r0 = f64_add_bits(a, b);
    let r = canonical_nan(r0);
    proof {
        lemma_fields64(0, 2047, 0x8_0000_0000_0000);
        assert(r == canonical(r));
        let c = f64_sum(a, b);
        assert(adds_to(a, b, c) && c == canonical(c));
        lemma_sum_unique(a, b, r, c);
    }
    r
}

/// Addition does not depend on the order of the operands: the same bits
/// are a sum of `a` and `b` and of `b` and `a`.
pub proof fn law_sum_commutes(a: u64, b: u64, r: u64)
    ensures
        adds_to(a, b, r) == adds_to(b, a, r),
{
}

} // verus!

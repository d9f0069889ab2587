//! Fixed-point helpers shared by the integer smoothers: span rounding and
//! the shift-based exponential moving average step.
use vstd::prelude::*;
use vstd::arithmetic::power2::{pow2, lemma_pow2_unfold, lemma_pow2_pos, lemma2_to64};
use vstd::arithmetic::div_mod::{
    lemma_fundamental_div_mod, lemma_fundamental_div_mod_converse, lemma_div_is_ordered,
    lemma_div_multiples_vanish,
};
use vstd::bits::lemma_u128_shr_is_div;

verus! {

/// `2^63`, the largest power of two a `u64` span may round up to.
pub open spec fn max_span_pow() -> nat {
    0x8000_0000_0000_0000
}

/// `r + 1` is the smallest power of two that is at least `n + 1`, and that
/// power is `2^k`.
pub open spec fn rounds_span(n: nat, r: nat, k: nat) -> bool {
    &&& r + 1 == pow2(k)
    &&& pow2(k) >= n + 1
    &&& (k == 0 || pow2((k - 1) as nat) < n + 1)
}

/// One step of the shift-based EMA: `acc + floor((x - acc) / 2^shift)`.
pub open spec fn ema_step(acc: int, x: int, shift: nat) -> int {
    acc + (x - acc) / (pow2(shift) as int)
}

/// The scaled range that an accumulator of `i64` samples stays inside.
pub open spec fn acc_in_range(acc: int, shift: nat) -> bool {
    i64::MIN * (pow2(shift) as int) <= acc <= i64::MAX * (pow2(shift) as int)
}

proof fn lemma_pow2_le_63(k: nat)
    requires
        k <= 63,
    ensures
        1 <= pow2(k) <= max_span_pow(),
{
    lemma_pow2_pos(k);
    vstd::arithmetic::power2::lemma2_to64_rest();
    if k < 63 {
        vstd::arithmetic::power2::lemma_pow2_strictly_increases(k, 63);
    }
}

/// Rounds a smoothing span up to the next `2^k - 1` (0 stays 0).
pub(crate) fn next_power_of_two_minus_one(n: u64) -> (r: u64)
    requires
        n < max_span_pow(),
    ensures
        exists|k: nat| k <= 63 && rounds_span(n as nat, r as nat, k),
{
    let v: u64 = n + 1;
    let mut p: u64 = 1;
    let ghost mut k: nat = 0;
    proof {
        lemma2_to64();
    }
    while p < v
        invariant
            v == n + 1,
            v <= max_span_pow(),
            p == pow2(k),
            k <= 63,
            k == 0 || pow2((k - 1) as nat) < v,
        decreases 63 - k,
    {
        proof {
            lemma_pow2_unfold(k + 1);
            if k == 63 {
                lemma_pow2_le_63(63);
                vstd::arithmetic::power2::lemma2_to64_rest();
                assert(false);
            }
        }
        p = p * 2;
        proof {
            k = k + 1;
        }
    }
    assert(rounds_span(n as nat, (p - 1) as nat, k));
    p - 1
}

/// Exponent of a rounded span: `log2(span + 1)` where `span + 1 = 2^k`.
pub(crate) fn log2_of_span_plus_one(span: u64) -> (r: u32)
    requires
        exists|k: nat| k <= 63 && span + 1 == pow2(k),
    ensures
        r <= 63,
        pow2(r as nat) == span + 1,
{
    let ghost k: nat = choose|k: nat| k <= 63 && span + 1 == pow2(k);
    proof {
        lemma_pow2_le_63(k);
    }
    let v: u64 = span + 1;
    let mut p: u64 = 1;
    let mut r: u32 = 0;
    proof {
        lemma2_to64();
    }
    while p < v
        invariant
            v == span + 1,
            v == pow2(k),
            k <= 63,
            p == pow2(r as nat),
            r <= k,
        decreases k - r,
    {
        proof {
            lemma_pow2_unfold((r + 1) as nat);
            if r == k {
                assert(false);
            }
            if r + 1 < k {
                vstd::arithmetic::power2::lemma_pow2_strictly_increases((r + 1) as nat, k);
            }
            lemma_pow2_le_63(k);
        }
        p = p * 2;
        r = r + 1;
    }
    proof {
        if r < k {
            vstd::arithmetic::power2::lemma_pow2_strictly_increases(r as nat, k);
        }
    }
    r
}

proof fn lemma_u128_shl_is_mul(x: u128, s: u128)
    requires
        x <= 0x8000_0000_0000_0000,
        s < 64,
    ensures
        x << s == x * pow2(s as nat),
        x * pow2(s as nat) <= 0x8000_0000_0000_0000 * 0x8000_0000_0000_0000,
    decreases s,
{
    lemma_pow2_le_63(s as nat);
    assert(x * pow2(s as nat) <= 0x8000_0000_0000_0000 * 0x8000_0000_0000_0000) by (nonlinear_arith)
        requires
            x <= 0x8000_0000_0000_0000,
            pow2(s as nat) <= 0x8000_0000_0000_0000,
    ;
    if s == 0 {
        assert(x << s == x) by (bit_vector)
            requires
                s == 0,
        ;
        lemma2_to64();
        assert(x * pow2(s as nat) == x);
    } else {
        let t: u128 = (s - 1) as u128;
        assert(x << s == (x << t) * 2) by (bit_vector)
            requires
                x <= 0x8000_0000_0000_0000,
                0 < s < 64,
                t == s - 1,
        ;
        lemma_u128_shl_is_mul(x, t);
        lemma_pow2_unfold(s as nat);
        assert(x * pow2(t as nat) * 2 == x * pow2(s as nat)) by (nonlinear_arith)
            requires
                pow2(s as nat) == 2 * pow2(t as nat),
        ;
    }
}

/// `x << s` for an `i64` sample widened to `i128`: exactly `x * 2^s`.
pub(crate) fn scale_up(x: i64, s: u32) -> (r: i128)
    requires
        s < 64,
    ensures
        r == x * pow2(s as nat),
{
    let w = x as i128;
    if w >= 0 {
        proof {
            assert((w << s) == ((w as u128) << (s as u128)) as i128) by (bit_vector)
                requires
                    0 <= w < 0x8000_0000_0000_0000,
                    s < 64,
            ;
            lemma_u128_shl_is_mul(w as u128, s as u128);
            let u = (w as u128) << (s as u128);
            assert(u as int == w * pow2(s as nat));
            assert((u as i128) as int == u as int);
        }
        w << s
    } else {
        proof {
            assert((w << s) == -((((-w) as u128) << (s as u128)) as i128)) by (bit_vector)
                requires
                    s < 64,
                    -0x8000_0000_0000_0000 <= w < 0,
            ;
            lemma_u128_shl_is_mul((-w) as u128, s as u128);
            let u = ((-w) as u128) << (s as u128);
            assert(u as int == (-w) * pow2(s as nat));
            assert((u as i128) as int == u as int);
            assert(-(w * pow2(s as nat)) == (-w) * pow2(s as nat)) by (nonlinear_arith);
        }
        w << s
    }
}

/// Arithmetic shift right: `floor(x / 2^s)`.
pub(crate) fn scale_down(x: i128, s: u32) -> (r: i128)
    requires
        s < 128,
    ensures
        r == (x as int) / (pow2(s as nat) as int),
{
    proof {
        lemma_pow2_pos(s as nat);
        if x >= 0 {
            assert(x >= 0 ==> (x >> s) == ((x as u128) >> (s as u128)) as i128) by (bit_vector)
                requires
                    s < 128,
            ;
            lemma_u128_shr_is_div(x as u128, s as u128);
        } else {
            assert(x < 0 ==> (x >> s) == !((((!x) as u128) >> (s as u128)) as i128)) by (bit_vector)
                requires
                    s < 128,
            ;
            assert(!x == -x - 1) by (bit_vector);
            let y: u128 = (!x) as u128;
            lemma_u128_shr_is_div(y, s as u128);
            let q = (y >> (s as u128)) as i128;
            assert(!q == -q - 1) by (bit_vector);
            let d = pow2(s as nat) as int;
            lemma_fundamental_div_mod(y as int, d);
            let rr = (y as int) % d;
            assert(x == (-(q as int) - 1) * d + (d - rr - 1)) by (nonlinear_arith)
                requires
                    y as int == d * (q as int) + rr,
                    x == -(y as int) - 1,
            ;
            lemma_fundamental_div_mod_converse(x as int, d, -(q as int) - 1, d - rr - 1);
        }
    }
    x >> s
}

/// An EMA step never leaves the interval spanned by the old accumulator and
/// the new scaled sample.
pub proof fn lemma_ema_step_between(acc: int, x: int, shift: nat)
    ensures
        acc <= x ==> acc <= ema_step(acc, x, shift) <= x,
        x <= acc ==> x <= ema_step(acc, x, shift) <= acc,
{
    let d = pow2(shift) as int;
    lemma_pow2_pos(shift);
    let t = x - acc;
    lemma_fundamental_div_mod(t, d);
    let q = t / d;
    let r = t % d;
    if t >= 0 {
        assert(0 <= q <= t) by (nonlinear_arith)
            requires
                t == d * q + r,
                0 <= r < d,
                d >= 1,
                t >= 0,
        ;
    } else {
        assert(t <= q < 0) by (nonlinear_arith)
            requires
                t == d * q + r,
                0 <= r < d,
                d >= 1,
                t < 0,
        ;
    }
}

/// The EMA step keeps the accumulator inside the scaled `i64` range.
pub proof fn lemma_ema_step_in_range(acc: int, x: int, shift: nat)
    requires
        acc_in_range(acc, shift),
        acc_in_range(x, shift),
    ensures
        acc_in_range(ema_step(acc, x, shift), shift),
{
    lemma_ema_step_between(acc, x, shift);
}

/// A scaled sample lies in the scaled range.
pub proof fn lemma_scaled_in_range(v: i64, shift: nat)
    ensures
        acc_in_range(v * (pow2(shift) as int), shift),
{
    let d = pow2(shift) as int;
    lemma_pow2_pos(shift);
    assert(i64::MIN * d <= v * d <= i64::MAX * d) by (nonlinear_arith)
        requires
            d >= 1,
            i64::MIN <= v <= i64::MAX,
    ;
}

/// Unscaling an in-range accumulator yields an `i64`.
pub proof fn lemma_unscaled_fits(acc: int, shift: nat)
    requires
        acc_in_range(acc, shift),
    ensures
        i64::MIN <= acc / (pow2(shift) as int) <= i64::MAX,
{
    let d = pow2(shift) as int;
    lemma_pow2_pos(shift);
    lemma_div_is_ordered(i64::MIN * d, acc, d);
    lemma_div_is_ordered(acc, i64::MAX * d, d);
    lemma_div_multiples_vanish(i64::MIN as int, d);
    lemma_div_multiples_vanish(i64::MAX as int, d);
    assert(i64::MIN * d == d * i64::MIN);
    assert(i64::MAX * d == d * i64::MAX);
}

/// Bounds used when scaling: `|x * 2^s| <= 2^126` for `s < 64`.
pub proof fn lemma_scaled_bound(v: int, shift: nat)
    requires
        i64::MIN <= v <= i64::MAX,
        shift < 64,
    ensures
        -0x4000_0000_0000_0000_0000_0000_0000_0000 <= v * (pow2(shift) as int) <= 0x4000_0000_0000_0000_0000_0000_0000_0000,
        pow2(shift) <= max_span_pow(),
{
    lemma_pow2_le_63(shift);
    let d = pow2(shift) as int;
    assert(-0x4000_0000_0000_0000_0000_0000_0000_0000 <= v * d <= 0x4000_0000_0000_0000_0000_0000_0000_0000) by (nonlinear_arith)
        requires
            1 <= d <= 0x8000_0000_0000_0000,
            i64::MIN <= v <= i64::MAX,
    ;
}

} // verus!

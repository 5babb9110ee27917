use vstd::prelude::*;

verus! {

/// Fixed-point numbers.
///
/// Every numeric quantity of this crate (weights, activations, gradients,
/// learning rates, rewards) is a signed 64-bit integer holding the real value
/// scaled by `SCALE` (a Q31.32 representation, truncated toward zero).
/// All operations saturate at `FX_MAX`, so every value the crate produces
/// stays inside `[-FX_MAX, FX_MAX]` and no operation can overflow or panic.

/// One unit: the representation of the real number 1.0 (2^32).
pub const SCALE: i64 = 4294967296;

/// The representation of 0.5.
pub const FX_HALF: i64 = 2147483648;

/// Saturation bound (2^48): the largest magnitude a fixed-point value may take.
pub const FX_MAX: i64 = 281474976710656;

/// A value is well-formed when it lies inside the saturation bounds.
pub open spec fn fx_ok(v: int) -> bool {
    -(FX_MAX as int) <= v <= FX_MAX as int
}

/// Magnitude of a mathematical integer.
pub open spec fn iabs(v: int) -> int {
    if v < 0 {
        -v
    } else {
        v
    }
}

/// Saturate a mathematical integer into the fixed-point range.
pub open spec fn clip(v: int) -> int {
    if v > FX_MAX as int {
        FX_MAX as int
    } else if v < -(FX_MAX as int) {
        -(FX_MAX as int)
    } else {
        v
    }
}

/// Saturating fixed-point addition.
pub open spec fn fx_add_s(a: int, b: int) -> int {
    clip(a + b)
}

/// Saturating fixed-point subtraction.
pub open spec fn fx_sub_s(a: int, b: int) -> int {
    clip(a - b)
}

/// Saturating fixed-point product: the scaled product truncated toward zero.
pub open spec fn fx_mul_s(a: int, b: int) -> int {
    let m = iabs(a) * iabs(b) / (SCALE as int);
    if (a < 0) != (b < 0) {
        clip(-m)
    } else {
        clip(m)
    }
}

/// Saturating fixed-point quotient, truncated toward zero.
/// A zero divisor saturates (the fixed-point stand-in for an infinite
/// quotient), and `0 / 0` is `0`.
pub open spec fn fx_div_s(a: int, b: int) -> int {
    if b == 0 {
        if a == 0 {
            0
        } else if a < 0 {
            -(FX_MAX as int)
        } else {
            FX_MAX as int
        }
    } else {
        let m = iabs(a) * (SCALE as int) / iabs(b);
        if (a < 0) != (b < 0) {
            clip(-m)
        } else {
            clip(m)
        }
    }
}

pub fn fx_add(a: i64, b: i64) -> (r: i64)
    requires
        fx_ok(a as int),
        fx_ok(b as int),
    ensures
        r == fx_add_s(a as int, b as int),
        fx_ok(r as int),
{
    let s: i64 = a + b;
    if s > FX_MAX {
        FX_MAX
    } else if s < -FX_MAX {
        -FX_MAX
    } else {
        s
    }
}

pub fn fx_sub(a: i64, b: i64) -> (r: i64)
    requires
        fx_ok(a as int),
        fx_ok(b as int),
    ensures
        r == fx_sub_s(a as int, b as int),
        fx_ok(r as int),
{
    let s: i64 = a - b;
    if s > FX_MAX {
        FX_MAX
    } else if s < -FX_MAX {
        -FX_MAX
    } else {
        s
    }
}

pub fn fx_mul(a: i64, b: i64) -> (r: i64)
    requires
        fx_ok(a as int),
        fx_ok(b as int),
    ensures
        r == fx_mul_s(a as int, b as int),
        fx_ok(r as int),
{
    let neg: bool = (a < 0) != (b < 0);
    let ma: u64 = if a < 0 {
        (-a) as u64
    } else {
        a as u64
    };
    let mb: u64 = if b < 0 {
        (-b) as u64
    } else {
        b as u64
    };
    proof {
        assert(ma == iabs(a as int));
        assert(mb == iabs(b as int));
        assert((ma as int) * (mb as int) <= (FX_MAX as int) * (FX_MAX as int)) by (nonlinear_arith)
            requires
                0 <= ma as int <= FX_MAX as int,
                0 <= mb as int <= FX_MAX as int,
        ;
    }
    let p: u128 = (ma as u128) * (mb as u128);
    let q: u128 = p / (SCALE as u128);
    let qc: u128 = if q > (FX_MAX as u128) {
        FX_MAX as u128
    } else {
        q
    };
    let m: i64 = qc as i64;
    proof {
        assert(q == iabs(a as int) * iabs(b as int) / (SCALE as int));
        assert(m == clip(q as int));
        assert(neg ==> -m == clip(-(q as int)));
    }
    if neg {
        -m
    } else {
        m
    }
}

pub fn fx_div(a: i64, b: i64) -> (r: i64)
    requires
        fx_ok(a as int),
        fx_ok(b as int),
    ensures
        r == fx_div_s(a as int, b as int),
        fx_ok(r as int),
{
    if b == 0 {
        if a == 0 {
            0
        } else if a < 0 {
            -FX_MAX
        } else {
            FX_MAX
        }
    } else {
        let neg: bool = (a < 0) != (b < 0);
        let ma: u64 = if a < 0 {
            (-a) as u64
        } else {
            a as u64
        };
        let mb: u64 = if b < 0 {
            (-b) as u64
        } else {
            b as u64
        };
        proof {
            assert(ma == iabs(a as int));
            assert(mb == iabs(b as int));
            assert((ma as int) * (SCALE as int) <= (FX_MAX as int) * (SCALE as int)) by (nonlinear_arith)
                requires
                    0 <= ma as int <= FX_MAX as int,
            ;
        }
        let p: u128 = (ma as u128) * (SCALE as u128);
        let q: u128 = p / (mb as u128);
        let qc: u128 = if q > (FX_MAX as u128) {
            FX_MAX as u128
        } else {
            q
        };
        let m: i64 = qc as i64;
        proof {
            assert(q == iabs(a as int) * (SCALE as int) / iabs(b as int));
            assert(m == clip(q as int));
            assert(neg ==> -m == clip(-(q as int)));
        }
        if neg {
            -m
        } else {
            m
        }
    }
}

/// Quotient of a non-negative fixed-point value by a small positive integer.
pub fn fx_udiv(a: i64, n: u64) -> (r: i64)
    requires
        0 <= a,
        fx_ok(a as int),
        1 <= n,
    ensures
        r == a as int / n as int,
        0 <= r <= a,
        fx_ok(r as int),
{
    let q: u64 = (a as u64) / n;
    q as i64
}

/// Signed variant: quotient truncated toward zero.
pub open spec fn fx_sdivn_s(a: int, n: int) -> int {
    if a >= 0 {
        a / n
    } else {
        -((-a) / n)
    }
}

pub fn fx_sdivn(a: i64, n: u64) -> (r: i64)
    requires
        fx_ok(a as int),
        1 <= n,
    ensures
        r == fx_sdivn_s(a as int, n as int),
        iabs(r as int) <= iabs(a as int),
        fx_ok(r as int),
{
    if a >= 0 {
        let q: u64 = (a as u64) / n;
        q as i64
    } else {
        let q: u64 = ((-a) as u64) / n;
        -(q as i64)
    }
}

/// `r` is the integer square root of `v` rescaled so that `r` is the
/// fixed-point representation of the real square root of the value `v` stands
/// for: the unique `r >= 0` with `r * r <= v * SCALE < (r + 1) * (r + 1)`.
pub open spec fn is_sqrt(v: int, r: int) -> bool {
    &&& 0 <= r
    &&& r * r <= v * (SCALE as int)
    &&& v * (SCALE as int) < (r + 1) * (r + 1)
}

pub open spec fn fx_sqrt_s(v: int) -> int {
    choose|r: int| is_sqrt(v, r)
}

pub proof fn lemma_sqrt_unique(v: int, r1: int, r2: int)
    requires
        is_sqrt(v, r1),
        is_sqrt(v, r2),
    ensures
        r1 == r2,
{
    if r1 < r2 {
        assert((r1 + 1) * (r1 + 1) <= r2 * r2) by (nonlinear_arith)
            requires
                0 <= r1 + 1 <= r2,
        ;
    }
    if r2 < r1 {
        assert((r2 + 1) * (r2 + 1) <= r1 * r1) by (nonlinear_arith)
            requires
                0 <= r2 + 1 <= r1,
        ;
    }
}

pub fn fx_sqrt(v: i64) -> (r: i64)
    requires
        0 <= v,
        fx_ok(v as int),
    ensures
        is_sqrt(v as int, r as int),
        r == fx_sqrt_s(v as int),
        0 <= r,
        fx_ok(r as int),
{
    let x: u128 = (v as u128) * (SCALE as u128);
    proof {
        assert((v as int) * (SCALE as int) <= (FX_MAX as int) * (SCALE as int)) by (nonlinear_arith)
            requires
                0 <= v as int <= FX_MAX as int,
        ;
    }
    let mut lo: u128 = 0;
    let mut hi: u128 = 2199023255552;
    proof {
        assert(x < (2199023255552u128 + 1) * (2199023255552u128 + 1)) by (nonlinear_arith)
            requires
                x <= 281474976710656u128 as int * 4294967296u128 as int,
        ;
    }
    while lo < hi
        invariant
            lo <= hi <= 2199023255552,
            (lo as int) * (lo as int) <= x as int,
            (x as int) < (hi as int + 1) * (hi as int + 1),
        decreases hi - lo,
    {
        let mid: u128 = lo + (hi - lo + 1) / 2;
        proof {
            assert((mid as int) * (mid as int) <= 2199023255552int * 2199023255552int)
                by (nonlinear_arith)
                requires
                    0 <= mid as int <= 2199023255552int,
            ;
        }
        let sq: u128 = mid * mid;
        if sq <= x {
            lo = mid;
        } else {
            hi = mid - 1;
        }
    }
    let r: i64 = lo as i64;
    proof {
        assert(is_sqrt(v as int, r as int));
        lemma_sqrt_unique(v as int, r as int, fx_sqrt_s(v as int));
        assert(r as int <= FX_MAX as int) by (nonlinear_arith)
            requires
                (r as int) * (r as int) <= (FX_MAX as int) * (SCALE as int),
                0 <= r as int,
        ;
    }
    r
}

/// Multiplying by one is exact.
pub proof fn lemma_fx_mul_one(a: int)
    requires
        0 <= a <= SCALE as int,
    ensures
        fx_mul_s(a, SCALE as int) == a,
        fx_mul_s(SCALE as int, a) == a,
{
    assert(a * (SCALE as int) / (SCALE as int) == a && (SCALE as int) * a / (SCALE as int) == a)
        by (nonlinear_arith)
        requires
            0 <= a,
    ;
}

/// A product of values from the unit interval stays in the unit interval.
pub proof fn lemma_fx_mul_unit(a: int, b: int)
    requires
        0 <= a <= SCALE as int,
        0 <= b <= SCALE as int,
    ensures
        0 <= fx_mul_s(a, b) <= SCALE as int,
        0 <= fx_mul_s(a, b) <= a,
{
    assert(0 <= a * b / (SCALE as int) <= a) by (nonlinear_arith)
        requires
            0 <= a,
            0 <= b <= SCALE as int,
    ;
}

/// The representation of e^-1.
pub const FX_EINV1: i64 = 1580030169;

/// The representation of e^-2.
pub const FX_EINV2: i64 = 581260615;

/// The representation of e^-4.
pub const FX_EINV4: i64 = 78665070;

/// The representation of e^-8.
pub const FX_EINV8: i64 = 1440801;

/// The representation of e^-16.
pub const FX_EINV16: i64 = 483;

/// e^-f for f in [0, 1]: a degree-four series at f/16, squared four times.
pub open spec fn exp_unit_s(f: int) -> int {
    let t = f / 16;
    let t2 = fx_mul_s(t, t);
    let t3 = fx_mul_s(t2, t);
    let t4 = fx_mul_s(t3, t);
    let a1 = fx_sub_s(SCALE as int, t);
    let a2 = fx_add_s(a1, t2 / 2);
    let a3 = fx_sub_s(a2, t3 / 6);
    let a4 = fx_add_s(a3, t4 / 24);
    let c = if a4 < 0 {
        0
    } else if a4 > SCALE as int {
        SCALE as int
    } else {
        a4
    };
    let s1 = fx_mul_s(c, c);
    let s2 = fx_mul_s(s1, s1);
    let s3 = fx_mul_s(s2, s2);
    fx_mul_s(s3, s3)
}

pub fn exp_unit(f: i64) -> (r: i64)
    requires
        0 <= f <= SCALE,
    ensures
        r == exp_unit_s(f as int),
        0 <= r <= SCALE,
        f == 0 ==> r == SCALE,
{
    let t: i64 = fx_udiv(f, 16);
    let t2: i64 = fx_mul(t, t);
    let t3: i64 = fx_mul(t2, t);
    let t4: i64 = fx_mul(t3, t);
    let a1: i64 = fx_sub(SCALE, t);
    let a2: i64 = fx_add(a1, fx_udiv(t2, 2));
    proof {
        lemma_fx_mul_unit(t as int, t as int);
        lemma_fx_mul_unit(t2 as int, t as int);
        lemma_fx_mul_unit(t3 as int, t as int);
    }
    let a3: i64 = fx_sub(a2, fx_udiv(t3, 6));
    let a4: i64 = fx_add(a3, fx_udiv(t4, 24));
    let c: i64 = if a4 < 0 {
        0
    } else if a4 > SCALE {
        SCALE
    } else {
        a4
    };
    let s1: i64 = fx_mul(c, c);
    proof {
        lemma_fx_mul_unit(c as int, c as int);
        lemma_fx_mul_unit(s1 as int, s1 as int);
    }
    let s2: i64 = fx_mul(s1, s1);
    proof {
        lemma_fx_mul_unit(s2 as int, s2 as int);
    }
    let s3: i64 = fx_mul(s2, s2);
    proof {
        lemma_fx_mul_unit(s3 as int, s3 as int);
        if f == 0 {
            lemma_fx_mul_one(SCALE as int);
        }
    }
    fx_mul(s3, s3)
}

/// e^-x for x >= 0: the unit-interval series times the tabulated powers of
/// e^-1 that the integer part of x selects; zero once x reaches 32.
pub open spec fn exp_neg_s(x: int) -> int {
    let k = x / (SCALE as int);
    if k >= 32 {
        0
    } else {
        let f = x % (SCALE as int);
        let r0 = exp_unit_s(f);
        let r1 = if k % 2 == 1 {
            fx_mul_s(r0, FX_EINV1 as int)
        } else {
            r0
        };
        let r2 = if (k / 2) % 2 == 1 {
            fx_mul_s(r1, FX_EINV2 as int)
        } else {
            r1
        };
        let r3 = if (k / 4) % 2 == 1 {
            fx_mul_s(r2, FX_EINV4 as int)
        } else {
            r2
        };
        let r4 = if (k / 8) % 2 == 1 {
            fx_mul_s(r3, FX_EINV8 as int)
        } else {
            r3
        };
        if (k / 16) % 2 == 1 {
            fx_mul_s(r4, FX_EINV16 as int)
        } else {
            r4
        }
    }
}

pub fn exp_neg(x: i64) -> (r: i64)
    requires
        0 <= x,
        fx_ok(x as int),
    ensures
        r == exp_neg_s(x as int),
        0 <= r <= SCALE,
        x == 0 ==> r == SCALE,
{
    let xu: u64 = x as u64;
    let k: u64 = xu / (SCALE as u64);
    if k >= 32 {
        return 0;
    }
    let f: i64 = (xu % (SCALE as u64)) as i64;
    let mut r: i64 = exp_unit(f);
    if k % 2 == 1 {
        proof {
            lemma_fx_mul_unit(r as int, FX_EINV1 as int);
        }
        r = fx_mul(r, FX_EINV1);
    }
    if (k / 2) % 2 == 1 {
        proof {
            lemma_fx_mul_unit(r as int, FX_EINV2 as int);
        }
        r = fx_mul(r, FX_EINV2);
    }
    if (k / 4) % 2 == 1 {
        proof {
            lemma_fx_mul_unit(r as int, FX_EINV4 as int);
        }
        r = fx_mul(r, FX_EINV4);
    }
    if (k / 8) % 2 == 1 {
        proof {
            lemma_fx_mul_unit(r as int, FX_EINV8 as int);
        }
        r = fx_mul(r, FX_EINV8);
    }
    if (k / 16) % 2 == 1 {
        proof {
            lemma_fx_mul_unit(r as int, FX_EINV16 as int);
        }
        r = fx_mul(r, FX_EINV16);
    }
    r
}

/// The logistic function on non-negative arguments, saturated away from the
/// endpoints so that the result is strictly between 0 and 1.
pub open spec fn sigmoid_pos_s(x: int) -> int {
    let e = exp_neg_s(x);
    let s = fx_div_s(SCALE as int, fx_add_s(SCALE as int, e));
    if s > SCALE as int - 1 {
        SCALE as int - 1
    } else if s < 1 {
        1
    } else {
        s
    }
}

/// The logistic function 1 / (1 + e^-x), by symmetry for negative arguments.
pub open spec fn sigmoid_s(x: int) -> int {
    if x >= 0 {
        sigmoid_pos_s(x)
    } else {
        SCALE as int - sigmoid_pos_s(-x)
    }
}

fn sigmoid_pos(x: i64) -> (r: i64)
    requires
        0 <= x,
        fx_ok(x as int),
    ensures
        r == sigmoid_pos_s(x as int),
        1 <= r <= SCALE - 1,
        x == 0 ==> r == FX_HALF,
{
    let e: i64 = exp_neg(x);
    let d: i64 = fx_add(SCALE, e);
    let s: i64 = fx_div(SCALE, d);
    proof {
        if x == 0 {
            assert((SCALE as int) * (SCALE as int) / (SCALE as int + SCALE as int)
                == FX_HALF as int) by (nonlinear_arith);
        }
    }
    if s > SCALE - 1 {
        SCALE - 1
    } else if s < 1 {
        1
    } else {
        s
    }
}

/// The sigmoid activation. Its value always lies strictly between 0 and 1,
/// and the argument 0 maps to exactly one half.
pub fn sigmoid(x: i64) -> (r: i64)
    requires
        fx_ok(x as int),
    ensures
        r == sigmoid_s(x as int),
        1 <= r <= SCALE - 1,
        x == 0 ==> r == FX_HALF,
{
    if x >= 0 {
        sigmoid_pos(x)
    } else {
        SCALE - sigmoid_pos(-x)
    }
}

/// Scaling a non-negative value by a unit-interval factor cannot grow it.
pub proof fn lemma_fx_mul_le_left(a: int, b: int)
    requires
        0 <= a,
        0 <= b <= SCALE as int,
    ensures
        0 <= fx_mul_s(a, b) <= a,
{
    assert(0 <= a * b / (SCALE as int) <= a) by (nonlinear_arith)
        requires
            0 <= a,
            0 <= b <= SCALE as int,
    ;
}

/// The representation of the natural log of 2.
pub const FX_LN2: i64 = 2977044472;

/// The sign of a saturating product follows the signs of its factors.
pub proof fn lemma_fx_mul_sign(a: int, b: int)
    ensures
        a >= 0 && b >= 0 ==> fx_mul_s(a, b) >= 0,
        a <= 0 && b <= 0 ==> fx_mul_s(a, b) >= 0,
        a >= 0 && b <= 0 ==> fx_mul_s(a, b) <= 0,
        a <= 0 && b >= 0 ==> fx_mul_s(a, b) <= 0,
{
    assert(iabs(a) * iabs(b) / (SCALE as int) >= 0) by (nonlinear_arith)
        requires
            iabs(a) >= 0,
            iabs(b) >= 0,
    ;
    assert((a == 0 || b == 0) ==> iabs(a) * iabs(b) / (SCALE as int) == 0) by (nonlinear_arith);
}

/// The sign of a saturating quotient follows the signs of its operands.
pub proof fn lemma_fx_div_sign(a: int, b: int)
    ensures
        a >= 0 && b >= 0 ==> fx_div_s(a, b) >= 0,
        a <= 0 && b >= 0 ==> fx_div_s(a, b) <= 0,
{
    if b != 0 {
        assert(iabs(a) * (SCALE as int) / iabs(b) >= 0) by (nonlinear_arith)
            requires
                iabs(a) >= 0,
                iabs(b) > 0,
        ;
    }
}

/// The mantissa after doubling a small value into [1/2, 2], with at most
/// `fuel` doublings.
pub open spec fn ln_scaled_s(o: int, fuel: nat) -> int
    decreases fuel,
{
    if fuel == 0 {
        o
    } else if o < FX_HALF as int {
        ln_scaled_s(2 * o, (fuel - 1) as nat)
    } else {
        o
    }
}

/// How many doublings that normalization takes.
pub open spec fn ln_shift_s(o: int, fuel: nat) -> int
    decreases fuel,
{
    if fuel == 0 {
        0
    } else if o < FX_HALF as int {
        1 + ln_shift_s(2 * o, (fuel - 1) as nat)
    } else {
        0
    }
}

/// The odd atanh series that evaluates the logarithm of a value near one:
/// 2 (z + z^3/3 + z^5/5 + z^7/7) at z = (o - 1) / (o + 1).
pub open spec fn ln_series_s(o: int) -> int {
    let z = fx_div_s(fx_sub_s(o, SCALE as int), fx_add_s(o, SCALE as int));
    let z2 = fx_mul_s(z, z);
    let z3 = fx_mul_s(z2, z);
    let z5 = fx_mul_s(z2, z3);
    let z7 = fx_mul_s(z2, z5);
    let sum = fx_add_s(
        fx_add_s(fx_add_s(z, fx_sdivn_s(z3, 3)), fx_sdivn_s(z5, 5)),
        fx_sdivn_s(z7, 7),
    );
    fx_add_s(sum, sum)
}

/// The natural logarithm: the series at the normalized mantissa, minus the
/// binary shift times the log of two.
pub open spec fn fx_ln_s(v: int) -> int {
    fx_sub_s(ln_series_s(ln_scaled_s(v, 40)), ln_shift_s(v, 40) * (FX_LN2 as int))
}

/// The shift count never exceeds the fuel.
pub proof fn lemma_ln_shift_bound(o: int, fuel: nat)
    ensures
        0 <= ln_shift_s(o, fuel) <= fuel,
    decreases fuel,
{
    if fuel != 0 && o < FX_HALF as int {
        lemma_ln_shift_bound(2 * o, (fuel - 1) as nat);
    }
}

/// The natural logarithm on [2^-32, 2], by doubling into [1/2, 2] and an
/// odd atanh series there. The result is exactly `fx_ln_s` of the argument;
/// it is zero at one and signed like log.
pub fn fx_ln(v: i64) -> (r: i64)
    requires
        1 <= v <= 2 * SCALE,
    ensures
        r == fx_ln_s(v as int),
        fx_ok(r as int),
        v == SCALE ==> r == 0,
        v <= SCALE ==> r <= 0,
        v >= SCALE ==> r >= 0,
{
    let mut o: i64 = v;
    let mut k: u64 = 0;
    while o < FX_HALF && k < 40
        invariant
            1 <= o <= 2 * SCALE,
            k <= 40,
            v >= FX_HALF ==> o == v && k == 0,
            o <= v || o < SCALE,
            ln_scaled_s(o as int, (40 - k) as nat) == ln_scaled_s(v as int, 40),
            ln_shift_s(v as int, 40) == k + ln_shift_s(o as int, (40 - k) as nat),
        decreases 40 - k,
    {
        o = o * 2;
        k = k + 1;
    }
    proof {
        assert(o == ln_scaled_s(v as int, 40));
        assert(k == ln_shift_s(v as int, 40));
    }
    let num: i64 = fx_sub(o, SCALE);
    let den: i64 = fx_add(o, SCALE);
    let z: i64 = fx_div(num, den);
    proof {
        lemma_fx_div_sign(num as int, den as int);
    }
    let z2: i64 = fx_mul(z, z);
    proof {
        lemma_fx_mul_sign(z as int, z as int);
        lemma_fx_mul_sign(z2 as int, z as int);
    }
    let z3: i64 = fx_mul(z2, z);
    proof {
        lemma_fx_mul_sign(z2 as int, z3 as int);
    }
    let z5: i64 = fx_mul(z2, z3);
    proof {
        lemma_fx_mul_sign(z2 as int, z5 as int);
    }
    let z7: i64 = fx_mul(z2, z5);
    let t3: i64 = fx_sdivn(z3, 3);
    let t5: i64 = fx_sdivn(z5, 5);
    let t7: i64 = fx_sdivn(z7, 7);
    let sum: i64 = fx_add(fx_add(fx_add(z, t3), t5), t7);
    let twice: i64 = fx_add(sum, sum);
    let kl: i64 = (k as i64) * FX_LN2;
    fx_sub(twice, kl)
}

} // verus!

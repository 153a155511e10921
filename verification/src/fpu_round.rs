//! Floating-point numbers as bit patterns: rounding to an integer, conversion to an
//! integer, and comparison.
use vstd::arithmetic::power2::pow2;
use vstd::prelude::*;

verus! {

/// Rounding modes, as the low two bits of FCSR encode them.
pub const RM_NEAREST_EVEN: u8 = 0;

pub const RM_TOWARD_ZERO: u8 = 1;

pub const RM_TOWARD_POS_INF: u8 = 2;

pub const RM_TOWARD_NEG_INF: u8 = 3;

/// A binary floating-point format: `p` mantissa bits, `one == 2^p`, and the exponent
/// bias.
#[derive(Debug, Clone, Copy, PartialEq, Eq, Structural)]
pub struct FloatFormat {
    pub p: u64,
    pub one: u64,
    pub bias: u64,
}

pub const SINGLE_P: u64 = 23;

pub const SINGLE_ONE: u64 = 0x80_0000;

pub const SINGLE_BIAS: u64 = 127;

pub const DOUBLE_P: u64 = 52;

pub const DOUBLE_ONE: u64 = 0x10_0000_0000_0000;

pub const DOUBLE_BIAS: u64 = 1023;

impl FloatFormat {
    pub open spec fn spec_single() -> Self {
        FloatFormat { p: SINGLE_P, one: SINGLE_ONE, bias: SINGLE_BIAS }
    }

    pub open spec fn spec_double() -> Self {
        FloatFormat { p: DOUBLE_P, one: DOUBLE_ONE, bias: DOUBLE_BIAS }
    }

    #[verifier::when_used_as_spec(spec_single)]
    pub fn single() -> (f: Self)
        ensures
            f == Self::spec_single(),
    {
        FloatFormat { p: SINGLE_P, one: SINGLE_ONE, bias: SINGLE_BIAS }
    }

    #[verifier::when_used_as_spec(spec_double)]
    pub fn double() -> (f: Self)
        ensures
            f == Self::spec_double(),
    {
        FloatFormat { p: DOUBLE_P, one: DOUBLE_ONE, bias: DOUBLE_BIAS }
    }

    pub open spec fn wf(&self) -> bool {
        *self == Self::spec_single() || *self == Self::spec_double()
    }

    /// Exponent field of the magnitude `mag` (a bit pattern without its sign).
    pub open spec fn field(&self, mag: u64) -> nat {
        (mag / self.one) as nat
    }

    pub open spec fn mantissa(&self, mag: u64) -> nat {
        (mag % self.one) as nat
    }

    pub open spec fn is_nan(&self, mag: u64) -> bool {
        self.field(mag) == 2 * self.bias + 1 && self.mantissa(mag) != 0
    }

    pub open spec fn is_infinite(&self, mag: u64) -> bool {
        self.field(mag) == 2 * self.bias + 1 && self.mantissa(mag) == 0
    }

    pub open spec fn is_finite(&self, mag: u64) -> bool {
        self.field(mag) <= 2 * self.bias
    }

    /// A finite magnitude is `numerator / 2^scale`, or `numerator * 2^-scale` where the
    /// scale is negative.
    pub open spec fn numerator(&self, mag: u64) -> nat {
        if self.field(mag) == 0 {
            self.mantissa(mag)
        } else {
            self.one as nat + self.mantissa(mag)
        }
    }

    pub open spec fn scale(&self, mag: u64) -> int {
        if self.field(mag) == 0 {
            self.p + self.bias - 1
        } else {
            self.p + self.bias - self.field(mag)
        }
    }

    /// The bit pattern of the natural number `n`.
    pub open spec fn integer_bits(&self, n: nat) -> nat {
        if n == 0 {
            0
        } else {
            let e = exponent(n);
            ((self.bias + e) * self.one + n * pow2((self.p - e) as nat) - self.one) as nat
        }
    }

    /// The integer that the finite magnitude `mag` rounds to.
    pub open spec fn whole(&self, neg: bool, mag: u64, rm: u8) -> nat {
        if self.scale(mag) <= 0 {
            self.numerator(mag) * pow2((-self.scale(mag)) as nat)
        } else {
            round_quotient(self.numerator(mag), pow2(self.scale(mag) as nat), neg, rm)
        }
    }

    /// Whether the finite magnitude `mag` has no fraction.
    pub open spec fn is_integral(&self, mag: u64) -> bool {
        self.scale(mag) <= 0 || self.numerator(mag) % pow2(self.scale(mag) as nat) == 0
    }

    /// The signed integer of `width` bits that the pattern converts to: the rounded
    /// value where it fits, else the nearest bound; NaN gives 0.
    pub open spec fn integer(&self, neg: bool, mag: u64, rm: u8, width: nat) -> int {
        let bound = pow2((width - 1) as nat) as int;
        if self.is_nan(mag) {
            0
        } else if self.is_infinite(mag) {
            if neg {
                -bound
            } else {
                bound - 1
            }
        } else {
            let n = self.whole(neg, mag, rm) as int;
            if neg {
                if n > bound {
                    -bound
                } else {
                    -n
                }
            } else {
                if n >= bound {
                    bound - 1
                } else {
                    n
                }
            }
        }
    }

    /// Whether converting to `width` bits loses the value: the integer, taken back to
    /// this format, differs from what was converted. The largest integer goes back to
    /// `2^(width - 1)` where the format is too short to hold it.
    pub open spec fn integer_is_inexact(&self, neg: bool, mag: u64, width: nat) -> bool {
        let bound = pow2((width - 1) as nat) as int;
        let n = self.whole(neg, mag, RM_TOWARD_ZERO);
        ||| !self.is_finite(mag)
        ||| !self.is_integral(mag)
        ||| n > bound
        ||| n == bound && !neg && self.p + 2 >= width
    }

    /// The magnitude `mag` rounded to an integer value. Patterns that have no fraction,
    /// infinities and NaNs among them, stay as they are.
    pub open spec fn rounded(&self, neg: bool, mag: u64, rm: u8) -> nat {
        if self.field(mag) >= self.bias + self.p {
            mag as nat
        } else {
            self.integer_bits(
                round_quotient(
                    self.numerator(mag),
                    pow2(self.scale(mag) as nat),
                    neg,
                    rm,
                ),
            )
        }
    }
}

/// Position of the highest set bit of `n`.
pub open spec fn exponent(n: nat) -> nat
    decreases n,
{
    if n < 2 {
        0
    } else {
        1 + exponent(n / 2)
    }
}

/// `m / unit` rounded to an integer, for a number whose sign is negative if `neg`.
pub open spec fn round_quotient(m: nat, unit: nat, neg: bool, rm: u8) -> nat {
    let q = m / unit;
    let r = m % unit;
    if r == 0 {
        q
    } else if rm == RM_TOWARD_ZERO {
        q
    } else if rm == RM_TOWARD_POS_INF {
        if neg {
            q
        } else {
            q + 1
        }
    } else if rm == RM_TOWARD_NEG_INF {
        if neg {
            q + 1
        } else {
            q
        }
    } else if 2 * r > unit {
        q + 1
    } else if 2 * r < unit {
        q
    } else {
        q + q % 2
    }
}

proof fn lemma_exponent(n: nat, e: nat)
    requires
        pow2(e) <= n < pow2(e + 1),
    ensures
        exponent(n) == e,
    decreases e,
{
    vstd::arithmetic::power2::lemma_pow2_unfold(e + 1);
    if e == 0 {
        vstd::arithmetic::power2::lemma2_to64();
    } else {
        vstd::arithmetic::power2::lemma_pow2_unfold(e);
        vstd::arithmetic::power2::lemma_pow2_pos((e - 1) as nat);
        lemma_exponent(n / 2, (e - 1) as nat);
    }
}

pub(crate) proof fn lemma_format(f: FloatFormat)
    requires
        f.wf(),
    ensures
        pow2(f.p as nat) == f.one,
        f.one * (f.bias + f.p) < 0x7FF0_0000_0000_0000,
        f.p < f.bias,
        f.p >= 2,
{
    vstd::arithmetic::power2::lemma2_to64();
    vstd::arithmetic::power2::lemma2_to64_rest();
    if f.p == SINGLE_P {
        assert(0x80_0000 * 150 < 0x7FF0_0000_0000_0000int);
    } else {
        assert(0x10_0000_0000_0000 * 1075 < 0x7FF0_0000_0000_0000int);
        assert(f.one * (f.bias + f.p) == 0x10_0000_0000_0000 * 1075);
    }
}

/// Only the zero pattern has numerator zero.
proof fn lemma_zero(f: FloatFormat, mag: u64)
    requires
        f.wf(),
    ensures
        f.numerator(mag) == 0 <==> mag == 0,
{
    vstd::arithmetic::div_mod::lemma_fundamental_div_mod(mag as int, f.one as int);
    vstd::arithmetic::div_mod::lemma_mod_bound(mag as int, f.one as int);
    vstd::arithmetic::div_mod::lemma_div_of0(f.one as int);
}

/// A magnitude below one rounds to zero or one.
proof fn lemma_round_below_one(m: nat, unit: nat, neg: bool, rm: u8)
    requires
        m < unit,
    ensures
        m == 0 ==> round_quotient(m, unit, neg, rm) == 0,
        m > 0 && rm == RM_TOWARD_ZERO ==> round_quotient(m, unit, neg, rm) == 0,
        m > 0 && rm == RM_TOWARD_POS_INF ==> round_quotient(m, unit, neg, rm) == if neg {
            0nat
        } else {
            1
        },
        m > 0 && rm == RM_TOWARD_NEG_INF ==> round_quotient(m, unit, neg, rm) == if neg {
            1nat
        } else {
            0
        },
        m > 0 && rm == RM_NEAREST_EVEN && 2 * m <= unit ==> round_quotient(m, unit, neg, rm) == 0,
        m > 0 && rm == RM_NEAREST_EVEN && 2 * m > unit ==> round_quotient(m, unit, neg, rm) == 1,
{
    vstd::arithmetic::div_mod::lemma_basic_div(m as int, unit as int);
    vstd::arithmetic::div_mod::lemma_small_mod(m, unit);
}

/// The bit patterns of zero and one.
proof fn lemma_small_integers(f: FloatFormat)
    requires
        f.wf(),
    ensures
        f.integer_bits(0) == 0,
        f.integer_bits(1) == f.bias * f.one,
{
    lemma_format(f);
    vstd::arithmetic::power2::lemma2_to64();
    assert(exponent(1) == 0);
    assert((f.bias + 0) * f.one + 1 * pow2(f.p as nat) - f.one == f.bias * f.one)
        by (nonlinear_arith)
        requires
            pow2(f.p as nat) == f.one,
    ;
}

/// The pattern of an integer between `2^e` and `2^(e + 1)`, both included.
proof fn lemma_integer_bits(f: FloatFormat, n: nat, e: nat)
    requires
        f.wf(),
        e < f.p,
        pow2(e) <= n <= pow2(e + 1),
    ensures
        f.integer_bits(n) == (f.bias + e) * f.one + n * pow2((f.p - e) as nat) - f.one,
{
    lemma_format(f);
    vstd::arithmetic::power2::lemma_pow2_pos(e);
    let p = f.p as nat;
    let one = f.one as int;
    if n < pow2(e + 1) {
        lemma_exponent(n, e);
        let u = pow2((p - e) as nat);
        vstd::arithmetic::power2::lemma_pow2_adds(e, (p - e) as nat);
        assert(n * u >= pow2(e) * u) by (nonlinear_arith)
            requires
                n >= pow2(e),
        ;
        assert((f.bias + e) * one >= 0) by (nonlinear_arith)
            requires
                one >= 0,
                f.bias >= 0,
                e >= 0,
        ;
    } else {
        vstd::arithmetic::power2::lemma_pow2_strictly_increases(e + 1, e + 2);
        lemma_exponent(n, e + 1);
        vstd::arithmetic::power2::lemma_pow2_adds(e + 1, (p - e - 1) as nat);
        vstd::arithmetic::power2::lemma_pow2_adds(e, (p - e) as nat);
        vstd::arithmetic::power2::lemma_pow2_unfold(e + 1);
        let u = pow2((p - e) as nat);
        assert(n * u == 2 * one) by (nonlinear_arith)
            requires
                n == 2 * pow2(e),
                pow2(e) * u == one,
        ;
        assert((f.bias + (e + 1)) * one == (f.bias + e) * one + one) by (nonlinear_arith);
        assert((f.bias + e) * one >= 0) by (nonlinear_arith)
            requires
                one >= 0,
                f.bias >= 0,
                e >= 0,
        ;
    }
}

/// How a magnitude with a fraction splits: the whole part, the fraction in units of the
/// last mantissa place, the size of one in those units (both 0 below one), and whether
/// rounding moves away from zero.
struct Split {
    whole: u64,
    frac: u64,
    unit: u64,
    up: bool,
}

impl Split {
    spec fn describes(&self, f: FloatFormat, neg: bool, mag: u64, rm: u8) -> bool {
        let m = f.numerator(mag);
        let unit = pow2(f.scale(mag) as nat);
        &&& self.whole == m / unit
        &&& round_quotient(m, unit, neg, rm) == self.whole + if self.up {
            1nat
        } else {
            0
        }
        &&& f.field(mag) < f.bias ==> self.whole == 0
        &&& f.field(mag) >= f.bias ==> {
            let e = (f.field(mag) - f.bias) as nat;
            &&& self.unit == unit
            &&& self.frac == m % unit
            &&& self.whole * self.unit + self.frac == m
            &&& pow2(e) <= self.whole < pow2(e + 1)
            &&& self.unit <= f.one
            &&& self.frac <= f.mantissa(mag)
        }
        &&& self.whole < 2 * f.one
    }
}

fn split(f: FloatFormat, neg: bool, mag: u64, rm: u8) -> (s: Split)
    requires
        f.wf(),
        rm <= 3,
        f.field(mag) < f.bias + f.p,
    ensures
        s.describes(f, neg, mag, rm),
{
    let field: u64 = mag / f.one;
    let mant: u64 = mag % f.one;
    let ghost m = f.numerator(mag);
    let ghost s = f.scale(mag) as nat;
    proof {
        lemma_format(f);
        vstd::arithmetic::div_mod::lemma_fundamental_div_mod(mag as int, f.one as int);
        vstd::arithmetic::div_mod::lemma_mod_bound(mag as int, f.one as int);
    }
    if field < f.bias {
        let up: bool = if field + 1 < f.bias {
            mag != 0 && ((rm == RM_TOWARD_POS_INF && !neg) || (rm == RM_TOWARD_NEG_INF && neg))
        } else {
            match rm {
                RM_NEAREST_EVEN => mant != 0,
                RM_TOWARD_ZERO => false,
                RM_TOWARD_POS_INF => !neg,
                _ => neg,
            }
        };
        proof {
            // The numerator is less than 2 * one, the denominator at least that.
            vstd::arithmetic::power2::lemma_pow2_unfold((f.p + 1) as nat);
            vstd::arithmetic::power2::lemma_pow2_unfold((f.p + 2) as nat);
            if s > f.p + 2 {
                vstd::arithmetic::power2::lemma_pow2_strictly_increases((f.p + 2) as nat, s);
            }
            lemma_round_below_one(m, pow2(s), neg, rm);
            vstd::arithmetic::div_mod::lemma_basic_div(m as int, pow2(s) as int);
            lemma_zero(f, mag);
        }
        return Split { whole: 0, frac: 0, unit: 0, up };
    }
    let e: u64 = field - f.bias;
    let n: u64 = f.p - e;
    proof {
        vstd::bits::lemma_u64_pow2_no_overflow(n as nat);
        vstd::bits::lemma_u64_shl_is_mul(1, n);
        vstd::arithmetic::power2::lemma_pow2_adds(e as nat, n as nat);
        vstd::arithmetic::power2::lemma_pow2_pos(e as nat);
        vstd::arithmetic::power2::lemma_pow2_pos(n as nat);
        vstd::arithmetic::power2::lemma_pow2_unfold(n as nat);
    }
    let unit: u64 = 1u64 << n;
    let frac: u64 = mant % unit;
    let whole: u64 = f.one + mant;
    let q: u64 = whole / unit;
    proof {
        assert((unit as int) * pow2(e as nat) == f.one) by (nonlinear_arith)
            requires
                pow2(e as nat) * unit == f.one,
        ;
        vstd::arithmetic::div_mod::lemma_mod_multiples_vanish(
            pow2(e as nat) as int,
            mant as int,
            unit as int,
        );
        assert(whole % unit == frac);
        vstd::arithmetic::div_mod::lemma_fundamental_div_mod(whole as int, unit as int);
        vstd::arithmetic::div_mod::lemma_mod_bound(whole as int, unit as int);
        // Bounds on the quotient: 2^e <= q < 2^(e + 1).
        vstd::arithmetic::power2::lemma_pow2_unfold((e + 1) as nat);
        assert(q >= pow2(e as nat)) by (nonlinear_arith)
            requires
                unit * q + frac == whole,
                frac < unit,
                whole >= unit * pow2(e as nat),
                unit > 0,
        ;
        assert(q < 2 * pow2(e as nat)) by (nonlinear_arith)
            requires
                unit * q + frac == whole,
                frac >= 0,
                whole < 2 * (unit * pow2(e as nat)),
                unit > 0,
        ;
        assert(unit * q == q * unit) by (nonlinear_arith);
        assert(whole as int == m);
        assert(pow2(s) == unit);
        assert(unit <= f.one && pow2(e as nat) <= f.one) by (nonlinear_arith)
            requires
                pow2(e as nat) * unit == f.one,
                pow2(e as nat) >= 1,
                unit >= 1,
        ;
        vstd::arithmetic::power2::lemma_pow2_pos((n - 1) as nat);
        vstd::arithmetic::div_mod::lemma_mod_decreases(mant as nat, unit as nat);
    }
    let half: u64 = unit / 2;
    let up: bool = frac != 0 && match rm {
        RM_TOWARD_ZERO => false,
        RM_TOWARD_POS_INF => !neg,
        RM_TOWARD_NEG_INF => neg,
        _ => if frac > half {
            true
        } else if frac < half {
            false
        } else {
            q % 2 != 0
        },
    };
    Split { whole: q, frac, unit, up }
}

/// Rounds a magnitude to an integer value.
fn round_magnitude(f: FloatFormat, neg: bool, mag: u64, rm: u8) -> (r: u64)
    requires
        f.wf(),
        rm <= 3,
    ensures
        r == f.rounded(neg, mag, rm),
{
    let field: u64 = mag / f.one;
    proof {
        lemma_format(f);
    }
    if field >= f.bias + f.p {
        return mag;
    }
    let s: Split = split(f, neg, mag, rm);
    proof {
        vstd::arithmetic::div_mod::lemma_fundamental_div_mod(mag as int, f.one as int);
        vstd::arithmetic::div_mod::lemma_mod_bound(mag as int, f.one as int);
        let mant = f.mantissa(mag);
        assert(mag <= f.one * (f.bias + f.p)) by (nonlinear_arith)
            requires
                mag == f.one * field + mant,
                mant < f.one,
                field < f.bias + f.p,
        ;
        assert(field * f.one == f.one * field) by (nonlinear_arith);
        lemma_small_integers(f);
    }
    if field < f.bias {
        return if s.up {
            assert(f.bias * f.one <= f.one * (f.bias + f.p)) by (nonlinear_arith)
                requires
                    f.p >= 0,
                    f.one >= 0,
            ;
            f.bias * f.one
        } else {
            0
        };
    }
    proof {
        let e = (field - f.bias) as nat;
        vstd::arithmetic::power2::lemma_pow2_unfold(e + 1);
        lemma_integer_bits(f, s.whole as nat, e);
        lemma_integer_bits(f, (s.whole + 1) as nat, e);
        assert((s.whole + 1) * s.unit == s.whole * s.unit + s.unit) by (nonlinear_arith);
    }
    if s.up {
        (mag - s.frac) + s.unit
    } else {
        mag - s.frac
    }
}

/// Magnitude of a double.
pub open spec fn magnitude64(x: u64) -> u64 {
    x & 0x7FFF_FFFF_FFFF_FFFF
}

pub open spec fn negative64(x: u64) -> bool {
    x >> 63 != 0
}

pub open spec fn magnitude32(x: u32) -> u32 {
    x & 0x7FFF_FFFF
}

pub open spec fn negative32(x: u32) -> bool {
    x >> 31 != 0
}

/// The double `x` rounded to an integer value: the sign is kept, the magnitude rounded.
pub open spec fn round64(x: u64, rm: u8) -> u64 {
    let m = FloatFormat::spec_double().rounded(negative64(x), magnitude64(x), rm) as u64;
    if negative64(x) {
        m | 0x8000_0000_0000_0000
    } else {
        m
    }
}

/// The single `x` rounded to an integer value.
pub open spec fn round32(x: u32, rm: u8) -> u32 {
    let m = FloatFormat::spec_single().rounded(
        negative32(x),
        magnitude32(x) as u64,
        rm,
    ) as u32;
    if negative32(x) {
        m | 0x8000_0000
    } else {
        m
    }
}

/// Rounds the double with bit pattern `x` to an integer value.
pub fn round_f64_to_int_mode(x: u64, rm: u8) -> (r: u64)
    requires
        rm <= 3,
    ensures
        r == round64(x, rm),
{
    let neg: bool = x >> 63 != 0;
    let m: u64 = round_magnitude(FloatFormat::double(), neg, x & 0x7FFF_FFFF_FFFF_FFFF, rm);
    if neg {
        m | 0x8000_0000_0000_0000
    } else {
        m
    }
}

/// Rounds the single with bit pattern `x` to an integer value.
pub fn round_f32_to_int_mode(x: u32, rm: u8) -> (r: u32)
    requires
        rm <= 3,
    ensures
        r == round32(x, rm),
{
    let neg: bool = x >> 31 != 0;
    let m: u64 = round_magnitude(FloatFormat::single(), neg, (x & 0x7FFF_FFFF) as u64, rm);
    if neg {
        m as u32 | 0x8000_0000
    } else {
        m as u32
    }
}

/// Converts a magnitude and a sign to a signed integer of `width` bits.
fn convert(f: FloatFormat, neg: bool, mag: u64, rm: u8, wide: bool) -> (r: (i64, bool))
    requires
        f.wf(),
        rm <= 3,
        f.field(mag) <= 2 * f.bias + 1,
    ensures
        r.0 == f.integer(neg, mag, rm, if wide {
            64
        } else {
            32
        }),
        r.1 == f.integer_is_inexact(neg, mag, if wide {
            64
        } else {
            32
        }),
{
    let top: u64 = if wide {
        63
    } else {
        31
    };
    let bound: u64 = if wide {
        0x8000_0000_0000_0000
    } else {
        0x8000_0000
    };
    let least: i64 = if wide {
        -0x8000_0000_0000_0000
    } else {
        -0x8000_0000
    };
    let most: i64 = if wide {
        0x7FFF_FFFF_FFFF_FFFF
    } else {
        0x7FFF_FFFF
    };
    let field: u64 = mag / f.one;
    let mant: u64 = mag % f.one;
    proof {
        lemma_format(f);
        vstd::arithmetic::power2::lemma2_to64();
        vstd::arithmetic::power2::lemma2_to64_rest();
        vstd::arithmetic::div_mod::lemma_mod_bound(mag as int, f.one as int);
        assert(pow2(top as nat) == bound);
    }
    if field == 2 * f.bias + 1 {
        return if mant != 0 {
            (0, true)
        } else if neg {
            (least, true)
        } else {
            (most, true)
        };
    }
    if field >= f.bias + f.p {
        // No fraction. The magnitude lies between 2^e and 2^(e + 1).
        let e: u64 = field - f.bias;
        let k: u64 = e - f.p;
        let m: u64 = f.one + mant;
        let ghost n = m * pow2(k as nat);
        proof {
            vstd::arithmetic::power2::lemma_pow2_adds(f.p as nat, k as nat);
            vstd::arithmetic::power2::lemma_pow2_pos(k as nat);
            vstd::arithmetic::power2::lemma_pow2_unfold((e + 1) as nat);
            assert(pow2(e as nat) <= n < 2 * pow2(e as nat)) by (nonlinear_arith)
                requires
                    n == m * pow2(k as nat),
                    pow2(e as nat) == f.one * pow2(k as nat),
                    f.one <= m < 2 * f.one,
                    pow2(k as nat) > 0,
            ;
            if mant == 0 {
                assert(n == pow2(e as nat));
            } else {
                assert(n > pow2(e as nat)) by (nonlinear_arith)
                    requires
                        n == m * pow2(k as nat),
                        pow2(e as nat) == f.one * pow2(k as nat),
                        f.one < m,
                        pow2(k as nat) > 0,
                ;
            }
            assert(f.whole(neg, mag, rm) == n);
            assert(f.whole(neg, mag, RM_TOWARD_ZERO) == n);
            if e > top {
                vstd::arithmetic::power2::lemma_pow2_strictly_increases(top as nat, e as nat);
            } else if e < top {
                if e + 1 < top {
                    vstd::arithmetic::power2::lemma_pow2_strictly_increases(
                        (e + 1) as nat,
                        top as nat,
                    );
                }
                vstd::bits::lemma_u64_shl_is_mul(m, k);
            }
        }
        if e >= top {
            let exact: bool = e == top && mant == 0 && (neg || f.p + 2 < top + 1);
            return if neg {
                (least, !exact)
            } else {
                (most, !exact)
            };
        }
        let whole: u64 = m << k;
        return if neg {
            (-(whole as i64), false)
        } else {
            (whole as i64, false)
        };
    }
    let s: Split = split(f, neg, mag, rm);
    let t: Split = split(f, neg, mag, RM_TOWARD_ZERO);
    proof {
        let m = f.numerator(mag);
        let unit = pow2(f.scale(mag) as nat);
        vstd::arithmetic::power2::lemma_pow2_pos(f.scale(mag) as nat);
        vstd::arithmetic::div_mod::lemma_fundamental_div_mod(m as int, unit as int);
        vstd::arithmetic::div_mod::lemma_mod_bound(m as int, unit as int);
        if f.field(mag) < f.bias {
            vstd::arithmetic::power2::lemma_pow2_unfold((f.p + 1) as nat);
            if f.scale(mag) > f.p + 1 {
                vstd::arithmetic::power2::lemma_pow2_strictly_increases(
                    (f.p + 1) as nat,
                    f.scale(mag) as nat,
                );
            }
            vstd::arithmetic::div_mod::lemma_small_mod(m, unit);
            lemma_zero(f, mag);
        }
    }
    let integral: bool = if field < f.bias {
        mag == 0
    } else {
        s.frac == 0
    };
    let n: u64 = if s.up {
        s.whole + 1
    } else {
        s.whole
    };
    let inexact: bool = !integral || t.whole > bound || (t.whole == bound && !neg && f.p + 2 >= top
        + 1);
    if neg {
        if n > bound {
            (least, inexact)
        } else if n == bound {
            (least, inexact)
        } else {
            (-(n as i64), inexact)
        }
    } else {
        if n >= bound {
            (most, inexact)
        } else {
            (n as i64, inexact)
        }
    }
}

/// The signed integer of 64 (if `wide`) or 32 bits that the double `x` converts to.
pub open spec fn integer64(x: u64, rm: u8, wide: bool) -> int {
    FloatFormat::spec_double().integer(
        negative64(x),
        magnitude64(x),
        rm,
        if wide {
            64
        } else {
            32
        },
    )
}

pub open spec fn integer32(x: u32, rm: u8, wide: bool) -> int {
    FloatFormat::spec_single().integer(
        negative32(x),
        magnitude32(x) as u64,
        rm,
        if wide {
            64
        } else {
            32
        },
    )
}

pub open spec fn inexact64(x: u64, wide: bool) -> bool {
    FloatFormat::spec_double().integer_is_inexact(
        negative64(x),
        magnitude64(x),
        if wide {
            64
        } else {
            32
        },
    )
}

pub open spec fn inexact32(x: u32, wide: bool) -> bool {
    FloatFormat::spec_single().integer_is_inexact(
        negative32(x),
        magnitude32(x) as u64,
        if wide {
            64
        } else {
            32
        },
    )
}

proof fn lemma_magnitudes(x: u64, y: u32)
    ensures
        x & 0x7FFF_FFFF_FFFF_FFFF <= 0x7FFF_FFFF_FFFF_FFFF,
        y & 0x7FFF_FFFF <= 0x7FFF_FFFF,
{
    crate::bits::lemma_bits_of_both(x, y);
}

/// Converts the double with bit pattern `x` to a signed integer; the second result says
/// whether the integer differs from `x`.
pub fn f64_to_int(x: u64, rm: u8, wide: bool) -> (r: (i64, bool))
    requires
        rm <= 3,
    ensures
        r.0 == integer64(x, rm, wide),
        r.1 == inexact64(x, wide),
{
    proof {
        lemma_magnitudes(x, 0);
    }
    convert(FloatFormat::double(), x >> 63 != 0, x & 0x7FFF_FFFF_FFFF_FFFF, rm, wide)
}

/// Converts the single with bit pattern `x` to a signed integer.
pub fn f32_to_int(x: u32, rm: u8, wide: bool) -> (r: (i64, bool))
    requires
        rm <= 3,
    ensures
        r.0 == integer32(x, rm, wide),
        r.1 == inexact32(x, wide),
{
    proof {
        lemma_magnitudes(0, x);
    }
    convert(FloatFormat::single(), x >> 31 != 0, (x & 0x7FFF_FFFF) as u64, rm, wide)
}

/// Place of a number on the number line; both zeros stand at 0.
pub open spec fn place(neg: bool, mag: u64) -> int {
    if neg {
        -(mag as int)
    } else {
        mag as int
    }
}

/// What a comparison with condition `cond` says: bit 0 admits unordered operands, bit 1
/// equal ones, bit 2 a smaller first operand.
pub open spec fn condition(cond: u8, unordered: bool, equal: bool, less: bool) -> bool {
    ||| cond & 1 != 0 && unordered
    ||| cond & 2 != 0 && equal
    ||| cond & 4 != 0 && less
}

pub open spec fn nan64(x: u64) -> bool {
    FloatFormat::spec_double().is_nan(magnitude64(x))
}

pub open spec fn nan32(x: u32) -> bool {
    FloatFormat::spec_single().is_nan(magnitude32(x) as u64)
}

pub open spec fn compare64(x: u64, y: u64, cond: u8) -> bool {
    let unordered = nan64(x) || nan64(y);
    let a = place(negative64(x), magnitude64(x));
    let b = place(negative64(y), magnitude64(y));
    condition(cond, unordered, !unordered && a == b, !unordered && a < b)
}

pub open spec fn compare32(x: u32, y: u32, cond: u8) -> bool {
    let unordered = nan32(x) || nan32(y);
    let a = place(negative32(x), magnitude32(x) as u64);
    let b = place(negative32(y), magnitude32(y) as u64);
    condition(cond, unordered, !unordered && a == b, !unordered && a < b)
}

pub fn is_nan_f64(x: u64) -> (r: bool)
    ensures
        r == nan64(x),
{
    let mag: u64 = x & 0x7FFF_FFFF_FFFF_FFFF;
    mag / DOUBLE_ONE == 2 * DOUBLE_BIAS + 1 && mag % DOUBLE_ONE != 0
}

pub fn is_nan_f32(x: u32) -> (r: bool)
    ensures
        r == nan32(x),
{
    let mag: u64 = (x & 0x7FFF_FFFF) as u64;
    mag / SINGLE_ONE == 2 * SINGLE_BIAS + 1 && mag % SINGLE_ONE != 0
}

/// Decides a comparison from signs and magnitudes of two ordered numbers, or from their
/// being unordered.
fn compare(cond: u8, unordered: bool, xneg: bool, xmag: u64, yneg: bool, ymag: u64) -> (r: bool)
    ensures
        r == condition(
            cond,
            unordered,
            !unordered && place(xneg, xmag) == place(yneg, ymag),
            !unordered && place(xneg, xmag) < place(yneg, ymag),
        ),
{
    let equal: bool = if xneg == yneg {
        xmag == ymag
    } else {
        xmag == 0 && ymag == 0
    };
    let less: bool = if xneg {
        if yneg {
            ymag < xmag
        } else {
            xmag != 0 || ymag != 0
        }
    } else {
        !yneg && xmag < ymag
    };
    (cond & 1 != 0 && unordered) || (cond & 2 != 0 && !unordered && equal) || (cond & 4 != 0
        && !unordered && less)
}

/// Compares two doubles given as bit patterns.
pub fn fpu_compare_d(fs: u64, ft: u64, cond: u8) -> (r: bool)
    ensures
        r == compare64(fs, ft, cond),
{
    compare(
        cond,
        is_nan_f64(fs) || is_nan_f64(ft),
        fs >> 63 != 0,
        fs & 0x7FFF_FFFF_FFFF_FFFF,
        ft >> 63 != 0,
        ft & 0x7FFF_FFFF_FFFF_FFFF,
    )
}

/// Compares two singles given as bit patterns.
pub fn fpu_compare_s(fs: u32, ft: u32, cond: u8) -> (r: bool)
    ensures
        r == compare32(fs, ft, cond),
{
    compare(
        cond,
        is_nan_f32(fs) || is_nan_f32(ft),
        fs >> 31 != 0,
        (fs & 0x7FFF_FFFF) as u64,
        ft >> 31 != 0,
        (ft & 0x7FFF_FFFF) as u64,
    )
}

/// The rounded quotient is a neighbour of the exact one: each mode picks the side that
/// its name says, and rounding to nearest moves by half a unit at most.
pub proof fn law_rounding_directions(m: nat, unit: nat, neg: bool, rm: u8)
    requires
        unit > 0,
        rm <= 3,
    ensures
        m < (round_quotient(m, unit, neg, rm) + 1) * unit,
        round_quotient(m, unit, neg, rm) * unit < m + unit,
        rm == RM_TOWARD_ZERO ==> round_quotient(m, unit, neg, rm) * unit <= m,
        rm == RM_TOWARD_POS_INF && !neg ==> round_quotient(m, unit, neg, rm) * unit >= m,
        rm == RM_TOWARD_POS_INF && neg ==> round_quotient(m, unit, neg, rm) * unit <= m,
        rm == RM_TOWARD_NEG_INF && !neg ==> round_quotient(m, unit, neg, rm) * unit <= m,
        rm == RM_TOWARD_NEG_INF && neg ==> round_quotient(m, unit, neg, rm) * unit >= m,
        rm == RM_NEAREST_EVEN ==> 2 * (round_quotient(m, unit, neg, rm) * unit) <= 2 * m + unit,
        rm == RM_NEAREST_EVEN ==> 2 * m <= 2 * (round_quotient(m, unit, neg, rm) * unit) + unit,
{
    let q = m / unit;
    let r = m % unit;
    vstd::arithmetic::div_mod::lemma_fundamental_div_mod(m as int, unit as int);
    vstd::arithmetic::div_mod::lemma_mod_bound(m as int, unit as int);
    assert(unit * q == q * unit) by (nonlinear_arith);
    assert((q + 1) * unit == q * unit + unit) by (nonlinear_arith);
    assert((q + 2) * unit == q * unit + 2 * unit) by (nonlinear_arith);
    if 2 * r == unit && rm == RM_NEAREST_EVEN {
        assert(q % 2 == 0 || q % 2 == 1);
    }
}

/// Decoding the pattern of an integer gives the integer back: the pattern is finite, has
/// no fraction, and its whole part is the integer.
pub proof fn law_integer_patterns_denote_their_integer(
    f: FloatFormat,
    n: nat,
    mag: u64,
    neg: bool,
    rm: u8,
)
    requires
        f.wf(),
        n <= f.one,
        mag == f.integer_bits(n),
    ensures
        f.is_finite(mag),
        f.is_integral(mag),
        f.whole(neg, mag, rm) == n,
{
    lemma_format(f);
    if n == 0 {
        vstd::arithmetic::div_mod::lemma_div_of0(f.one as int);
        vstd::arithmetic::power2::lemma_pow2_pos(f.scale(mag) as nat);
        lemma_round_below_one(0, pow2(f.scale(mag) as nat), neg, rm);
    } else {
        lemma_exponent_bounds(n);
        let e = exponent(n);
        let one = f.one as int;
        if e > f.p {
            vstd::arithmetic::power2::lemma_pow2_strictly_increases(f.p as nat, e);
        }
        let u = pow2((f.p - e) as nat);
        vstd::arithmetic::power2::lemma_pow2_pos((f.p - e) as nat);
        vstd::arithmetic::power2::lemma_pow2_adds(e, (f.p - e) as nat);
        vstd::arithmetic::power2::lemma_pow2_unfold(e + 1);
        let m = n * u;
        assert(one <= m < 2 * one) by (nonlinear_arith)
            requires
                m == n * u,
                pow2(e) * u == one,
                pow2(e) <= n < 2 * pow2(e),
                u > 0,
        ;
        assert(mag == one * (f.bias + e) + (m - one)) by (nonlinear_arith)
            requires
                mag == (f.bias + e) * one + m - one,
        ;
        vstd::arithmetic::div_mod::lemma_fundamental_div_mod_converse(
            mag as int,
            one,
            (f.bias + e) as int,
            m - one,
        );
        assert(f.numerator(mag) == m);
        assert(f.scale(mag) == f.p - e);
        vstd::arithmetic::div_mod::lemma_mod_multiples_basic(n as int, u as int);
        vstd::arithmetic::div_mod::lemma_div_by_multiple(n as int, u as int);
        vstd::arithmetic::power2::lemma2_to64();
    }
}

pub(crate) proof fn lemma_exponent_bounds(n: nat)
    requires
        n > 0,
    ensures
        pow2(exponent(n)) <= n < pow2(exponent(n) + 1),
    decreases n,
{
    vstd::arithmetic::power2::lemma2_to64();
    if n >= 2 {
        lemma_exponent_bounds(n / 2);
        vstd::arithmetic::power2::lemma_pow2_unfold(exponent(n));
        vstd::arithmetic::power2::lemma_pow2_unfold(exponent(n) + 1);
    }
}

/// Rounding leaves what is already an integer as it is.
pub proof fn law_rounding_keeps_integers(f: FloatFormat, neg: bool, mag: u64, rm: u8)
    requires
        f.wf(),
        f.is_integral(mag),
    ensures
        f.rounded(neg, mag, rm) == mag,
{
    lemma_format(f);
    let field = f.field(mag);
    if field < f.bias + f.p {
        let m = f.numerator(mag);
        let s = f.scale(mag) as nat;
        let unit = pow2(s);
        vstd::arithmetic::power2::lemma_pow2_pos(s);
        vstd::arithmetic::div_mod::lemma_fundamental_div_mod(mag as int, f.one as int);
        vstd::arithmetic::div_mod::lemma_mod_bound(mag as int, f.one as int);
        vstd::arithmetic::div_mod::lemma_fundamental_div_mod(m as int, unit as int);
        let q = m / unit;
        assert(unit * q == q * unit) by (nonlinear_arith);
        assert(m == q * unit);
        if field < f.bias {
            vstd::arithmetic::power2::lemma_pow2_unfold((f.p + 1) as nat);
            if s > f.p + 1 {
                vstd::arithmetic::power2::lemma_pow2_strictly_increases((f.p + 1) as nat, s);
            }
            vstd::arithmetic::div_mod::lemma_small_mod(m, unit);
            vstd::arithmetic::div_mod::lemma_basic_div(m as int, unit as int);
            lemma_zero(f, mag);
            lemma_small_integers(f);
        } else {
            let e = (field - f.bias) as nat;
            vstd::arithmetic::power2::lemma_pow2_adds(e, s);
            vstd::arithmetic::power2::lemma_pow2_unfold(e + 1);
            assert(pow2(e) <= q < 2 * pow2(e)) by (nonlinear_arith)
                requires
                    pow2(e) * unit == f.one,
                    m == q * unit,
                    f.one <= m < 2 * f.one,
                    unit > 0,
            ;
            lemma_integer_bits(f, q, e);
            assert(f.one * field == field * f.one) by (nonlinear_arith);
            assert((f.bias + e) * f.one == field * f.one);
        }
    }
}

/// Rounding gives an integer: a second rounding, in any mode, changes nothing.
pub proof fn law_rounding_is_idempotent(
    f: FloatFormat,
    neg: bool,
    mag: u64,
    rm: u8,
    again: u8,
    rounded: u64,
)
    requires
        f.wf(),
        rounded == f.rounded(neg, mag, rm),
    ensures
        f.is_integral(rounded),
        f.rounded(neg, rounded, again) == rounded,
{
    lemma_format(f);
    if f.field(mag) < f.bias + f.p {
        let m = f.numerator(mag);
        let s = f.scale(mag) as nat;
        let unit = pow2(s);
        vstd::arithmetic::power2::lemma_pow2_unfold(s);
        vstd::arithmetic::power2::lemma_pow2_pos((s - 1) as nat);
        vstd::arithmetic::div_mod::lemma_mod_bound(mag as int, f.one as int);
        vstd::arithmetic::div_mod::lemma_fundamental_div_mod(m as int, unit as int);
        vstd::arithmetic::div_mod::lemma_mod_bound(m as int, unit as int);
        let q = m / unit;
        assert(q < f.one) by (nonlinear_arith)
            requires
                m < 2 * f.one,
                unit >= 2,
                unit * q <= m,
        ;
        let n = round_quotient(m, unit, neg, rm);
        assert(n <= f.one);
        law_integer_patterns_denote_their_integer(f, n, rounded, neg, again);
    }
    law_rounding_keeps_integers(f, neg, rounded, again);
}

} // verus!

//! Singles and doubles round alike.
use vstd::arithmetic::div_mod::{
    lemma_div_by_multiple, lemma_fundamental_div_mod, lemma_fundamental_div_mod_converse,
    lemma_mod_bound, lemma_mod_multiples_basic,
};
use vstd::arithmetic::power2::{
    lemma_pow2_adds, lemma_pow2_pos, lemma_pow2_strictly_increases, lemma_pow2_unfold, pow2,
};
use vstd::prelude::*;

use crate::fpu_round::{
    exponent, law_integer_patterns_denote_their_integer, lemma_exponent_bounds, lemma_format,
    magnitude32, magnitude64, negative32, negative64, round32, round64, round_quotient,
    FloatFormat,
};

verus! {

/// The binary places of the finest double: every finite number of either format is a
/// multiple of `2^-1074`.
pub const FINEST: u64 = 1074;

impl FloatFormat {
    /// The finite magnitude `mag` as a multiple of `2^-1074`.
    pub open spec fn units(&self, mag: u64) -> nat {
        self.numerator(mag) * pow2((FINEST - self.scale(mag)) as nat)
    }
}

/// The single `x` and the double `y` are the same number, or infinity of the same sign.
pub open spec fn same_number(x: u32, y: u64) -> bool {
    let s = FloatFormat::spec_single();
    let d = FloatFormat::spec_double();
    let a = magnitude32(x) as u64;
    let b = magnitude64(y);
    &&& negative32(x) == negative64(y)
    &&& (s.is_infinite(a) && d.is_infinite(b)) || (s.is_finite(a) && d.is_finite(b) && s.units(a)
        == d.units(b))
}

/// Rounding a quotient does not depend on the units in which it is given.
proof fn lemma_units_do_not_matter(m: nat, unit: nat, k: nat, neg: bool, rm: u8)
    requires
        unit > 0,
        k > 0,
    ensures
        round_quotient(m * k, unit * k, neg, rm) == round_quotient(m, unit, neg, rm),
{
    let q = m / unit;
    let r = m % unit;
    lemma_fundamental_div_mod(m as int, unit as int);
    lemma_mod_bound(m as int, unit as int);
    assert(m * k == q * (unit * k) + r * k) by (nonlinear_arith)
        requires
            m == unit * q + r,
    ;
    assert(0 <= r * k < unit * k) by (nonlinear_arith)
        requires
            0 <= r < unit,
            k > 0,
    ;
    lemma_fundamental_div_mod_converse(
        (m * k) as int,
        (unit * k) as int,
        q as int,
        (r * k) as int,
    );
    assert(r * k == 0 <==> r == 0) by (nonlinear_arith)
        requires
            k > 0,
            r >= 0,
    ;
    assert(2 * (r * k) > unit * k <==> 2 * r > unit) by (nonlinear_arith)
        requires
            k > 0,
    ;
    assert(2 * (r * k) < unit * k <==> 2 * r < unit) by (nonlinear_arith)
        requires
            k > 0,
    ;
}

/// A whole number of units needs no rounding.
proof fn lemma_whole_quotient(q: nat, unit: nat, neg: bool, rm: u8)
    requires
        unit > 0,
    ensures
        round_quotient(q * unit, unit, neg, rm) == q,
{
    lemma_mod_multiples_basic(q as int, unit as int);
    lemma_div_by_multiple(q as int, unit as int);
}

proof fn lemma_scale(f: FloatFormat, mag: u64)
    requires
        f.wf(),
        f.is_finite(mag),
    ensures
        f.scale(mag) <= FINEST,
{
}

/// Patterns of integers fit below the sign.
proof fn lemma_integer_fits(f: FloatFormat, n: nat)
    requires
        f.wf(),
        n <= f.one,
    ensures
        f.integer_bits(n) <= (f.bias + f.p + 1) * f.one,
{
    lemma_format(f);
    let one = f.one as int;
    assert((f.bias + f.p + 1) * one >= 0) by (nonlinear_arith)
        requires
            one >= 0,
            f.bias + f.p + 1 >= 0,
    ;
    if n > 0 {
        lemma_exponent_bounds(n);
        let e = exponent(n);
        if e > f.p {
            lemma_pow2_strictly_increases(f.p as nat, e);
        }
        let u = pow2((f.p - e) as nat);
        lemma_pow2_adds(e, (f.p - e) as nat);
        lemma_pow2_unfold(e + 1);
        lemma_pow2_pos((f.p - e) as nat);
        assert(one <= n * u < 2 * one) by (nonlinear_arith)
            requires
                pow2(e) * u == one,
                pow2(e) <= n < 2 * pow2(e),
                u > 0,
        ;
        assert((f.bias + e) * one >= 0) by (nonlinear_arith)
            requires
                one >= 0,
                f.bias + e >= 0,
        ;
        assert((f.bias + e) * one + one <= (f.bias + f.p + 1) * one) by (nonlinear_arith)
            requires
                e <= f.p,
                one >= 0,
        ;
    }
}

/// What a finite magnitude rounds to: the number of units in it, rounded to whole ones.
pub(crate) proof fn lemma_rounded(f: FloatFormat, neg: bool, mag: u64, rm: u8)
    requires
        f.wf(),
        f.is_finite(mag),
        rm <= 3,
    ensures
        f.rounded(neg, mag, rm) <= (2 * f.bias + 1) * f.one,
        f.is_finite(f.rounded(neg, mag, rm) as u64),
        f.units(f.rounded(neg, mag, rm) as u64) == round_quotient(
            f.units(mag),
            pow2(FINEST as nat),
            neg,
            rm,
        ) * pow2(FINEST as nat),
{
    lemma_format(f);
    lemma_scale(f, mag);
    let g = pow2(FINEST as nat);
    lemma_pow2_pos(FINEST as nat);
    let m = f.numerator(mag);
    let s = f.scale(mag);
    lemma_fundamental_div_mod(mag as int, f.one as int);
    lemma_mod_bound(mag as int, f.one as int);
    if f.field(mag) >= f.bias + f.p {
        assert(mag <= (2 * f.bias + 1) * f.one) by (nonlinear_arith)
            requires
                mag == f.one * f.field(mag) + f.mantissa(mag),
                f.mantissa(mag) < f.one,
                f.field(mag) <= 2 * f.bias,
        ;
        let j = (-s) as nat;
        lemma_pow2_adds(j, FINEST as nat);
        assert(m * (pow2(j) * g) == (m * pow2(j)) * g) by (nonlinear_arith);
        lemma_whole_quotient(m * pow2(j), g, neg, rm);
    } else {
        let unit = pow2(s as nat);
        let k = pow2((FINEST - s) as nat);
        lemma_pow2_adds(s as nat, (FINEST - s) as nat);
        lemma_pow2_pos(s as nat);
        lemma_pow2_pos((FINEST - s) as nat);
        lemma_units_do_not_matter(m, unit, k, neg, rm);
        // The quotient is less than one, in units of the last place.
        lemma_pow2_unfold(s as nat);
        lemma_pow2_pos((s - 1) as nat);
        lemma_fundamental_div_mod(m as int, unit as int);
        lemma_mod_bound(m as int, unit as int);
        let q = m / unit;
        assert(q < f.one) by (nonlinear_arith)
            requires
                m < 2 * f.one,
                unit >= 2,
                unit * q <= m,
        ;
        let n = round_quotient(m, unit, neg, rm);
        assert(n <= f.one);
        lemma_integer_fits(f, n);
        assert((f.bias + f.p + 1) * f.one <= (2 * f.bias + 1) * f.one) by (nonlinear_arith)
            requires
                f.p <= f.bias,
                f.one >= 0,
        ;
        lemma_top(f);
        let r = f.rounded(neg, mag, rm) as u64;
        law_integer_patterns_denote_their_integer(f, n, r, neg, rm);
        lemma_scale(f, r);
        let t = f.scale(r);
        let v = f.numerator(r);
        if t <= 0 {
            let j = (-t) as nat;
            lemma_pow2_adds(j, FINEST as nat);
            assert(v * (pow2(j) * g) == (v * pow2(j)) * g) by (nonlinear_arith);
        } else {
            let u = pow2(t as nat);
            lemma_pow2_pos(t as nat);
            lemma_pow2_adds(t as nat, (FINEST - t) as nat);
            lemma_fundamental_div_mod(v as int, u as int);
            assert(v == u * n);
            assert((u * n) * pow2((FINEST - t) as nat) == n * (u * pow2((FINEST - t) as nat)))
                by (nonlinear_arith);
        }
    }
}

pub(crate) proof fn lemma_top(f: FloatFormat)
    requires
        f.wf(),
    ensures
        f.p == 23 ==> (2 * f.bias + 1) * f.one <= 0x7FFF_FFFF,
        (2 * f.bias + 1) * f.one <= 0x7FFF_FFFF_FFFF_FFFF,
{
    assert(255 * 0x80_0000 <= 0x7FFF_FFFFint);
    assert(2047 * 0x10_0000_0000_0000 <= 0x7FFF_FFFF_FFFF_FFFFint);
    assert(f.p == 23 ==> (2 * f.bias + 1) * f.one == 255 * 0x80_0000);
    assert(f.p == 52 ==> (2 * f.bias + 1) * f.one == 2047 * 0x10_0000_0000_0000);
}

pub(crate) proof fn lemma_signs(m: u64, n: u32)
    ensures
        m <= 0x7FFF_FFFF_FFFF_FFFF ==> m & 0x7FFF_FFFF_FFFF_FFFF == m && m >> 63 == 0 && (m
            | 0x8000_0000_0000_0000) & 0x7FFF_FFFF_FFFF_FFFF == m && (m | 0x8000_0000_0000_0000)
            >> 63 != 0,
        n <= 0x7FFF_FFFF ==> n & 0x7FFF_FFFF == n && n >> 31 == 0 && (n | 0x8000_0000)
            & 0x7FFF_FFFF == n && (n | 0x8000_0000) >> 31 != 0,
        m & 0x7FFF_FFFF_FFFF_FFFF <= 0x7FFF_FFFF_FFFF_FFFF,
        n & 0x7FFF_FFFF <= 0x7FFF_FFFF,
{
    crate::bits::lemma_bits_of_both(m, n);
}

/// Law: a single, and the double that is the same number, round to the same number, in
/// every mode. Infinities stay infinite.
pub proof fn law_singles_and_doubles_round_alike(x: u32, y: u64, rm: u8)
    requires
        rm <= 3,
        same_number(x, y),
    ensures
        same_number(round32(x, rm), round64(y, rm)),
{
    let s = FloatFormat::spec_single();
    let d = FloatFormat::spec_double();
    let a = magnitude32(x) as u64;
    let b = magnitude64(y);
    let neg = negative32(x);
    lemma_top(s);
    lemma_top(d);
    lemma_signs(y, x);
    if s.is_finite(a) {
        lemma_rounded(s, neg, a, rm);
        lemma_rounded(d, neg, b, rm);
        lemma_signs(d.rounded(neg, b, rm) as u64, s.rounded(neg, a, rm) as u32);
    } else {
        lemma_signs(b, a as u32);
    }
}

proof fn lemma_larger_field(a: u64, b: u64)
    requires
        FloatFormat::spec_double().is_finite(b),
        FloatFormat::spec_double().field(a) < FloatFormat::spec_double().field(b),
    ensures
        FloatFormat::spec_double().units(a) < FloatFormat::spec_double().units(b),
{
    let d = FloatFormat::spec_double();
    let one = d.one as int;
    let i = d.field(a);
    let k = (d.field(b) - 1) as nat;
    lemma_mod_bound(a as int, one);
    lemma_pow2_pos(k);
    let w = pow2(k);
    assert(one * w <= (one + d.mantissa(b)) * w) by (nonlinear_arith)
        requires
            d.mantissa(b) >= 0,
            w >= 0,
    ;
    if i == 0 {
        vstd::arithmetic::power2::lemma2_to64();
        assert(one <= one * w) by (nonlinear_arith)
            requires
                one >= 0,
                w >= 1,
        ;
        assert(d.units(a) == d.mantissa(a) * 1);
    } else {
        let j = (i - 1) as nat;
        lemma_pow2_unfold(i);
        if i < k {
            lemma_pow2_strictly_increases(i, k);
        }
        let v = pow2(j);
        lemma_pow2_pos(j);
        assert((one + d.mantissa(a)) * v < one * w) by (nonlinear_arith)
            requires
                d.mantissa(a) < one,
                2 * v <= w,
                v >= 1,
        ;
    }
}

proof fn lemma_sign_and_magnitude(y: u64, z: u64)
    requires
        y & 0x7FFF_FFFF_FFFF_FFFF == z & 0x7FFF_FFFF_FFFF_FFFF,
        (y >> 63 != 0) == (z >> 63 != 0),
    ensures
        y == z,
{
    crate::bits::lemma_bits_of_doubles(y, z);
}

/// Law: a single is the same number as one double only.
pub proof fn law_a_single_is_one_double(x: u32, y: u64, z: u64)
    requires
        same_number(x, y),
        same_number(x, z),
    ensures
        y == z,
{
    let d = FloatFormat::spec_double();
    let a = magnitude64(y);
    let b = magnitude64(z);
    lemma_fundamental_div_mod(a as int, d.one as int);
    lemma_fundamental_div_mod(b as int, d.one as int);
    if d.is_finite(a) {
        if d.field(a) < d.field(b) {
            lemma_larger_field(a, b);
        } else if d.field(b) < d.field(a) {
            lemma_larger_field(b, a);
        }
        let w = pow2((FINEST - d.scale(a)) as nat);
        lemma_pow2_pos((FINEST - d.scale(a)) as nat);
        assert(d.numerator(a) == d.numerator(b)) by (nonlinear_arith)
            requires
                d.numerator(a) * w == d.numerator(b) * w,
                w > 0,
        ;
    }
    lemma_sign_and_magnitude(y, z);
}

} // verus!

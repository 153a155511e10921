//! Conversions to integers, in numbers.
use vstd::arithmetic::div_mod::{lemma_fundamental_div_mod, lemma_mod_bound};
use vstd::arithmetic::power2::{lemma_pow2_adds, lemma_pow2_pos, pow2};
use vstd::prelude::*;

use crate::alu_laws::lemma_numbers;
use crate::bus::{BusDevice, MipsCache, Tlb};
use crate::cpu_core::MipsCore;
use crate::float_laws::{
    double, lemma_pattern_bits, lemma_registers, lemma_sets_double, lemma_sets_single,
    no_number32, no_number64, number32, number64, sets_double, sets_single, single, size32,
    size64, size_of,
};
use crate::fpu::{to_integer, FloatReply, ToInteger};
use crate::fpu_round::{
    inexact32, inexact64, integer32, integer64, magnitude32, magnitude64, negative32, negative64, round64,
    round_quotient, FloatFormat,
};
use crate::fpu_laws::{lemma_rounded, lemma_top};
use crate::instr::InstrHandler;
use crate::loadstore::alone;
use crate::machine::Machine;
use crate::words::{
    amount, function, lemma_encoded, lemma_fields, opcode, reg_d, reg_s,
};

verus! {

/// `i` is the integer that `v / unit` rounds to: in mode 0 the nearest one, and the even
/// one of two that are as near; in mode 1 the next one towards zero, in mode 2 the next one
/// above, and in mode 3 the next one below.
pub open spec fn rounds_to(v: int, unit: int, mode: int, i: int) -> bool {
    if mode == 0 {
        &&& -unit <= 2 * (i * unit - v) <= unit
        &&& 2 * (i * unit - v) == unit || 2 * (i * unit - v) == -unit ==> i % 2 == 0
    } else if mode == 1 {
        if v >= 0 {
            i >= 0 && i * unit <= v < i * unit + unit
        } else {
            i <= 0 && i * unit - unit < v <= i * unit
        }
    } else if mode == 2 {
        i * unit - unit < v <= i * unit
    } else {
        i * unit <= v < i * unit + unit
    }
}

/// `i`, or the nearest integer of 64 or 32 bits.
pub open spec fn within(i: int, wide: bool) -> int {
    let bound = if wide {
        0x8000_0000_0000_0000int
    } else {
        0x8000_0000
    };
    if i >= bound {
        bound - 1
    } else if i < -bound {
        -bound
    } else {
        i
    }
}

/// The rounded quotient of a magnitude, with its sign.
proof fn lemma_round(m: nat, unit: nat, neg: bool, mode: u8)
    requires
        unit > 0,
        mode <= 3,
    ensures
        ({
            let n = round_quotient(m, unit, neg, mode) as int;
            rounds_to(
                if neg {
                    -(m as int)
                } else {
                    m as int
                },
                unit as int,
                mode as int,
                if neg {
                    -n
                } else {
                    n
                },
            )
        }),
{
    let q = (m / unit) as int;
    let r = (m % unit) as int;
    lemma_fundamental_div_mod(m as int, unit as int);
    lemma_mod_bound(m as int, unit as int);
    let u = unit as int;
    assert(u * q == q * u) by (nonlinear_arith);
    assert((q + 1) * u == q * u + u) by (nonlinear_arith);
    assert((-q) * u == -(q * u)) by (nonlinear_arith);
    assert((-(q + 1)) * u == -(q * u) - u) by (nonlinear_arith);
    let n = round_quotient(m, unit, neg, mode) as int;
    assert(n == q || n == q + 1);
}

/// Rounding does not depend on the units.
proof fn lemma_scaled(v: int, unit: int, k: int, mode: int, i: int)
    requires
        k > 0,
        unit > 0,
        rounds_to(v, unit, mode, i),
    ensures
        rounds_to(v * k, unit * k, mode, i),
{
    let w = i * unit;
    assert(i * (unit * k) == w * k) by (nonlinear_arith)
        requires
            w == i * unit,
    ;
    assert((w - unit) * k == w * k - unit * k) by (nonlinear_arith);
    assert((w + unit) * k == w * k + unit * k) by (nonlinear_arith);
    assert((2 * (w - v)) * k == 2 * (w * k - v * k)) by (nonlinear_arith);
    assert((-unit) * k == -(unit * k)) by (nonlinear_arith);
    lemma_times(w, v, k);
    lemma_times(v, w, k);
    lemma_times(w - unit, v, k);
    lemma_times(v, w + unit, k);
    lemma_times(2 * (w - v), unit, k);
    lemma_times(unit, 2 * (w - v), k);
    lemma_times(-unit, 2 * (w - v), k);
    lemma_times(2 * (w - v), -unit, k);
    lemma_times(v, 0, k);
    lemma_times(0, v, k);
    assert(0 * k == 0) by (nonlinear_arith);
}

proof fn lemma_times(a: int, b: int, k: int)
    requires
        k > 0,
    ensures
        a < b <==> a * k < b * k,
        a <= b <==> a * k <= b * k,
        a == b <==> a * k == b * k,
{
    assert(a < b ==> a * k < b * k) by (nonlinear_arith)
        requires
            k > 0,
    ;
    assert(a > b ==> a * k > b * k) by (nonlinear_arith)
        requires
            k > 0,
    ;
}

/// What a finite magnitude rounds to, with its sign.
proof fn lemma_whole(f: FloatFormat, neg: bool, mag: u64, mode: u8)
    requires
        f.wf(),
        f.is_finite(mag),
        mode <= 3,
    ensures
        ({
            let n = f.whole(neg, mag, mode) as int;
            let v = size_of(mag as int, f.one as int);
            rounds_to(
                if neg {
                    -v
                } else {
                    v
                },
                pow2((f.p + f.bias - 1) as nat) as int,
                mode as int,
                if neg {
                    -n
                } else {
                    n
                },
            )
        }),
{
    let top = (f.p + f.bias - 1) as nat;
    let big = pow2(top) as int;
    let m = f.numerator(mag);
    let s = f.scale(mag);
    let n = f.whole(neg, mag, mode) as int;
    let v = size_of(mag as int, f.one as int);
    lemma_pow2_pos(top);
    if f.field(mag) == 0 {
        vstd::arithmetic::power2::lemma2_to64();
        assert(m * 1 == m);
    }
    assert(v == m * pow2((top - s) as nat));
    if s <= 0 {
        lemma_pow2_adds((-s) as nat, top);
        let j = pow2((-s) as nat) as int;
        assert(v == n * big) by (nonlinear_arith)
            requires
                v == m * (j * big),
                n == m * j,
        ;
        assert((-n) * big == -(n * big)) by (nonlinear_arith);
        assert(n > 0 ==> n * big > 0) by (nonlinear_arith)
            requires
                big > 0,
        ;
        assert(n == 0 ==> n * big == 0);
    } else {
        let unit = pow2(s as nat);
        let k = pow2((top - s) as nat) as int;
        lemma_pow2_pos(s as nat);
        lemma_pow2_pos((top - s) as nat);
        lemma_pow2_adds(s as nat, (top - s) as nat);
        lemma_round(m, unit, neg, mode);
        let a = if neg {
            -(m as int)
        } else {
            m as int
        };
        let i = if neg {
            -n
        } else {
            n
        };
        lemma_scaled(a, unit as int, k, mode as int, i);
        assert((-(m as int)) * k == -(m * k)) by (nonlinear_arith);
    }
}

proof fn lemma_bounds()
    ensures
        pow2(31) == 0x8000_0000,
        pow2(63) == 0x8000_0000_0000_0000,
{
    vstd::arithmetic::power2::lemma2_to64();
    vstd::arithmetic::power2::lemma2_to64_rest();
}

/// Law: a double converts to the integer that it rounds to, or to the nearest that there
/// is; infinity to the largest or the least; what is no number to zero.
pub proof fn law_doubles_convert(x: u64, mode: u8, wide: bool)
    requires
        mode <= 3,
    ensures
        no_number64(x) ==> integer64(x, mode, wide) == 0,
        x == 0x7FF0_0000_0000_0000 ==> integer64(x, mode, wide) == within(pow2(63) as int, wide),
        x == 0xFFF0_0000_0000_0000 ==> integer64(x, mode, wide) == within(-pow2(64), wide),
        size64(x) < 0x7FF0_0000_0000_0000 ==> exists|i: int|
            #[trigger] rounds_to(number64(x), pow2(1074) as int, mode as int, i) && integer64(
                x,
                mode,
                wide,
            ) == within(i, wide),
{
    let f = FloatFormat::spec_double();
    lemma_bounds();
    lemma_pow2_adds(63, 1);
    vstd::arithmetic::power2::lemma2_to64();
    lemma_pattern_bits(x, 0, 0);
    let mag = magnitude64(x);
    let neg = negative64(x);
    lemma_fundamental_div_mod(mag as int, f.one as int);
    if f.is_finite(mag) {
        lemma_whole(f, neg, mag, mode);
        let n = f.whole(neg, mag, mode) as int;
        let i = if neg {
            -n
        } else {
            n
        };
        assert(rounds_to(number64(x), pow2(1074) as int, mode as int, i));
    }
}

/// Law: so do singles.
pub proof fn law_singles_convert(x: u32, mode: u8, wide: bool)
    requires
        mode <= 3,
    ensures
        no_number32(x) ==> integer32(x, mode, wide) == 0,
        x == 0x7F80_0000 ==> integer32(x, mode, wide) == within(pow2(63) as int, wide),
        x == 0xFF80_0000 ==> integer32(x, mode, wide) == within(-pow2(64), wide),
        size32(x) < 0x7F80_0000 ==> exists|i: int|
            #[trigger] rounds_to(number32(x), pow2(149) as int, mode as int, i) && integer32(
                x,
                mode,
                wide,
            ) == within(i, wide),
{
    let f = FloatFormat::spec_single();
    lemma_bounds();
    lemma_pow2_adds(63, 1);
    vstd::arithmetic::power2::lemma2_to64();
    lemma_pattern_bits(0, x, 0);
    let mag = magnitude32(x) as u64;
    let neg = negative32(x);
    lemma_fundamental_div_mod(mag as int, f.one as int);
    if f.is_finite(mag) {
        lemma_whole(f, neg, mag, mode);
        let n = f.whole(neg, mag, mode) as int;
        let i = if neg {
            -n
        } else {
            n
        };
        assert(rounds_to(number32(x), pow2(149) as int, mode as int, i));
    }
}

/// `raw` converts a single or a double to an integer.
pub open spec fn is_to_integer(raw: u32) -> bool {
    &&& opcode(raw) == 17
    &&& reg_s(raw) == 16 || reg_s(raw) == 17
    &&& 8 <= function(raw) <= 15 || function(raw) == 36 || function(raw) == 37
}

/// The rounding mode of the conversion `raw`: `round`, `trunc`, `ceil` and `floor` have one
/// of their own, and `cvt` has that of FCSR.
pub open spec fn mode(c: MipsCore, raw: u32) -> int {
    if function(raw) >= 36 {
        c.fpu_fcsr as int % 4
    } else {
        function(raw) % 4
    }
}

spec fn conversion(raw: u32) -> InstrHandler {
    let f = function(raw);
    if reg_s(raw) == 17 {
        if f == 8 {
            InstrHandler::FroundLD
        } else if f == 9 {
            InstrHandler::FtruncLD
        } else if f == 10 {
            InstrHandler::FceilLD
        } else if f == 11 {
            InstrHandler::FfloorLD
        } else if f == 12 {
            InstrHandler::FroundWD
        } else if f == 13 {
            InstrHandler::FtruncWD
        } else if f == 14 {
            InstrHandler::FceilWD
        } else if f == 15 {
            InstrHandler::FfloorWD
        } else if f == 36 {
            InstrHandler::FcvtWD
        } else {
            InstrHandler::FcvtLD
        }
    } else {
        if f == 8 {
            InstrHandler::FroundLS
        } else if f == 9 {
            InstrHandler::FtruncLS
        } else if f == 10 {
            InstrHandler::FceilLS
        } else if f == 11 {
            InstrHandler::FfloorLS
        } else if f == 12 {
            InstrHandler::FroundWS
        } else if f == 13 {
            InstrHandler::FtruncWS
        } else if f == 14 {
            InstrHandler::FceilWS
        } else if f == 15 {
            InstrHandler::FfloorWS
        } else if f == 36 {
            InstrHandler::FcvtWS
        } else {
            InstrHandler::FcvtLS
        }
    }
}

proof fn lemma_conversion(raw: u32)
    requires
        is_to_integer(raw),
    ensures
        alone(raw).handler == conversion(raw),
        to_integer(conversion(raw)) == Some(
            ToInteger {
                double: reg_s(raw) == 17,
                wide: function(raw) < 12 || function(raw) == 37,
                mode: if function(raw) >= 36 {
                    None
                } else {
                    Some((function(raw) % 4) as u8)
                },
            },
        ),
        crate::fpu::float_op(conversion(raw)) is None,
{
    lemma_fields(raw);
    lemma_encoded(raw, conversion(raw));
}

/// The number of 64 or 32 bits that stands for the integer `i`.
pub open spec fn pattern(i: int, wide: bool) -> int {
    if i >= 0 {
        i
    } else if wide {
        i + 0x1_0000_0000_0000_0000
    } else {
        i + 0x1_0000_0000
    }
}

proof fn lemma_words(i: i64)
    by (bit_vector)
    ensures
        i >= 0 && i < 0x8000_0000 ==> (i as u32) == i,
        i < 0 && i >= -0x8000_0000 ==> (i as u32) == i + 0x1_0000_0000,
{
}

/// Law: the words that convert to an integer put the integer that the register of their
/// third field rounds to into that of their fourth: as a long with functions 8 to 11 and
/// 37, as a word with the others.
pub proof fn law_conversion_words<T: Tlb, C: MipsCache, B: BusDevice>(
    m: Machine<T, C, B>,
    raw: u32,
    reply: FloatReply,
)
    requires
        is_to_integer(raw),
    ensures
        ({
            let c = m.core;
            let n = c.float_written(alone(raw), reply);
            let k = mode(c, raw) as u8;
            let wide = function(raw) < 12 || function(raw) == 37;
            let i = if reg_s(raw) == 17 {
                integer64(double(c, reg_d(raw)) as u64, k, wide)
            } else {
                integer32(single(c, reg_d(raw)) as u32, k, wide)
            };
            &&& wide ==> sets_double(c, n, amount(raw), pattern(i, true))
            &&& !wide ==> sets_single(c, n, amount(raw), pattern(i, false))
        }),
{
    let c = m.core;
    let d = alone(raw);
    lemma_fields(raw);
    lemma_conversion(raw);
    lemma_registers(c, d.rd);
    lemma_pattern_bits(0, c.fpu_fcsr, 0);
    let t = to_integer(d.handler)->0;
    let k = mode(c, raw) as u8;
    assert(c.mode_of(t) == k);
    lemma_bounds();
    let i = c.converted(t, d.rd);
    let w = i as i64;
    lemma_words(w);
    lemma_numbers(0, 0, 0, w);
    assert(-0x8000_0000_0000_0000 <= i < 0x8000_0000_0000_0000);
    assert(!t.wide ==> -0x8000_0000 <= i < 0x8000_0000);
    lemma_sets_double(c, d.sa, w as u64);
    lemma_sets_single(c, d.sa, w as u32);
}

/// Law: a finite double rounds to the double that is the integer which `rounds_to` says,
/// and keeps its sign.
pub proof fn law_doubles_round(x: u64, mode: u8)
    requires
        mode <= 3,
        size64(x) < 0x7FF0_0000_0000_0000,
    ensures
        ({
            let y = round64(x, mode);
            &&& size64(y) < 0x7FF0_0000_0000_0000
            &&& (y >= 0x8000_0000_0000_0000) == (x >= 0x8000_0000_0000_0000)
            &&& exists|i: int|
                #[trigger] rounds_to(number64(x), pow2(1074) as int, mode as int, i) && number64(y)
                    == i * pow2(1074)
        }),
{
    let f = FloatFormat::spec_double();
    lemma_pattern_bits(x, 0, 0);
    let mag = magnitude64(x);
    let neg = negative64(x);
    lemma_fundamental_div_mod(mag as int, f.one as int);
    lemma_rounded(f, neg, mag, mode);
    let r = f.rounded(neg, mag, mode) as u64;
    lemma_top(f);
    crate::fpu_laws::lemma_signs(r, 0);
    let y = round64(x, mode);
    lemma_pattern_bits(y, 0, 0);
    lemma_fundamental_div_mod(r as int, f.one as int);
    let big = pow2(1074);
    lemma_pow2_pos(1074);
    let n = round_quotient(f.units(mag), big, neg, mode) as int;
    lemma_round(f.units(mag), big, neg, mode);
    lemma_units(mag);
    lemma_units(r);
    let i = if neg {
        -n
    } else {
        n
    };
    assert((-n) * (big as int) == -(n * big)) by (nonlinear_arith);
    assert(rounds_to(number64(x), big as int, mode as int, i));
}

/// The units of a finite double are what its bits stand for.
proof fn lemma_units(mag: u64)
    requires
        FloatFormat::spec_double().is_finite(mag),
    ensures
        FloatFormat::spec_double().units(mag) == size_of(mag as int, 0x10_0000_0000_0000),
{
    let f = FloatFormat::spec_double();
    if f.field(mag) == 0 {
        vstd::arithmetic::power2::lemma2_to64();
        assert(f.numerator(mag) * 1 == f.numerator(mag));
    }
}

/// A multiple of `big` lies at most one such step away from another.
proof fn lemma_multiples(i: int, n: int, big: int, rest: int)
    requires
        big > 0,
        0 <= rest < big,
        i * big == n * big + rest,
    ensures
        rest == 0 && i == n,
{
    assert((i - n) * big == rest) by (nonlinear_arith)
        requires
            i * big == n * big + rest,
    ;
    assert(i == n) by (nonlinear_arith)
        requires
            (i - n) * big == rest,
            0 <= rest < big,
    ;
    assert((i - n) * big == 0) by (nonlinear_arith)
        requires
            i == n,
    ;
}

/// A finite magnitude is a whole number if, and only if, it has no fraction.
proof fn lemma_integral(f: FloatFormat, neg: bool, mag: u64, i: int)
    requires
        f.wf(),
        f.is_finite(mag),
    ensures
        ({
            let n = f.whole(neg, mag, 1) as int;
            let v = size_of(mag as int, f.one as int);
            let big = pow2((f.p + f.bias - 1) as nat) as int;
            &&& f.is_integral(mag) ==> v == n * big
            &&& v == i * big ==> f.is_integral(mag) && i == n
            &&& -v == i * big ==> f.is_integral(mag) && i == -n
        }),
{
    let top = (f.p + f.bias - 1) as nat;
    let big = pow2(top) as int;
    let m = f.numerator(mag);
    let s = f.scale(mag);
    let n = f.whole(neg, mag, 1) as int;
    let v = size_of(mag as int, f.one as int);
    lemma_pow2_pos(top);
    if f.field(mag) == 0 {
        vstd::arithmetic::power2::lemma2_to64();
        assert(m * 1 == m);
    }
    assert(v == m * pow2((top - s) as nat));
    let rest = if s <= 0 {
        0
    } else {
        (m % pow2(s as nat)) * pow2((top - s) as nat)
    };
    if s <= 0 {
        lemma_pow2_adds((-s) as nat, top);
        let j = pow2((-s) as nat) as int;
        assert(v == n * big) by (nonlinear_arith)
            requires
                v == m * (j * big),
                n == m * j,
        ;
    } else {
        let unit = pow2(s as nat) as int;
        let k = pow2((top - s) as nat) as int;
        let r = m as int % unit;
        lemma_pow2_pos(s as nat);
        lemma_pow2_pos((top - s) as nat);
        lemma_pow2_adds(s as nat, (top - s) as nat);
        lemma_fundamental_div_mod(m as int, unit);
        lemma_mod_bound(m as int, unit);
        assert(n == m as int / unit);
        assert(v == n * big + r * k) by (nonlinear_arith)
            requires
                v == m * k,
                m == unit * n + r,
                big == unit * k,
        ;
        assert(0 <= r * k < big) by (nonlinear_arith)
            requires
                0 <= r < unit,
                big == unit * k,
                k > 0,
        ;
        assert(r == 0 ==> r * k == 0) by (nonlinear_arith);
        assert(r * k == 0 ==> r == 0) by (nonlinear_arith)
            requires
                k > 0,
                r >= 0,
        ;
    }
    if v == i * big {
        lemma_multiples(i, n, big, rest as int);
    }
    if -v == i * big {
        assert((-i) * big == v) by (nonlinear_arith)
            requires
                -v == i * big,
        ;
        lemma_multiples(-i, n, big, rest as int);
    }
}

/// `v` is an integer from `-bound` to `most`.
pub open spec fn is_integer(v: int, unit: int, bound: int, most: int) -> bool {
    exists|i: int| -bound <= i <= most && v == #[trigger] (i * unit)
}

/// Law: a finite double converts exactly if it is an integer of that size. The number one
/// above the largest long counts too: a double cannot tell it from the largest.
pub proof fn law_inexact_doubles(x: u64, wide: bool)
    requires
        size64(x) < 0x7FF0_0000_0000_0000,
    ensures
        inexact64(x, wide) == !is_integer(
            number64(x),
            pow2(1074) as int,
            if wide {
                0x8000_0000_0000_0000
            } else {
                0x8000_0000
            },
            if wide {
                0x8000_0000_0000_0000
            } else {
                0x7FFF_FFFF
            },
        ),
{
    let f = FloatFormat::spec_double();
    lemma_bounds();
    lemma_pattern_bits(x, 0, 0);
    let mag = magnitude64(x);
    let neg = negative64(x);
    lemma_fundamental_div_mod(mag as int, f.one as int);
    let n = f.whole(neg, mag, 1) as int;
    let big = pow2(1074) as int;
    lemma_integral(f, neg, mag, 0);
    assert((-n) * big == -(n * big)) by (nonlinear_arith);
    assert forall|i: int| number64(x) == #[trigger] (i * big) implies f.is_integral(mag) && i == if neg {
        -n
    } else {
        n
    } by {
        lemma_integral(f, neg, mag, i);
    }
    if f.is_integral(mag) {
        if neg {
            assert(number64(x) == (-n) * big);
        } else {
            assert(number64(x) == n * big);
        }
    }
}

/// Law: so does a single; it cannot tell the largest word from the number above it either.
pub proof fn law_inexact_singles(x: u32, wide: bool)
    requires
        size32(x) < 0x7F80_0000,
    ensures
        inexact32(x, wide) == !is_integer(
            number32(x),
            pow2(149) as int,
            if wide {
                0x8000_0000_0000_0000
            } else {
                0x8000_0000
            },
            if wide {
                0x8000_0000_0000_0000
            } else {
                0x8000_0000
            },
        ),
{
    let f = FloatFormat::spec_single();
    lemma_bounds();
    lemma_pattern_bits(0, x, 0);
    let mag = magnitude32(x) as u64;
    let neg = negative32(x);
    lemma_fundamental_div_mod(mag as int, f.one as int);
    let n = f.whole(neg, mag, 1) as int;
    let big = pow2(149) as int;
    lemma_integral(f, neg, mag, 0);
    assert((-n) * big == -(n * big)) by (nonlinear_arith);
    assert forall|i: int| number32(x) == #[trigger] (i * big) implies f.is_integral(mag) && i == if neg {
        -n
    } else {
        n
    } by {
        lemma_integral(f, neg, mag, i);
    }
    if f.is_integral(mag) {
        if neg {
            assert(number32(x) == (-n) * big);
        } else {
            assert(number32(x) == n * big);
        }
    }
}

} // verus!

//! What the words of the floating-point instructions do, in numbers.
use vstd::arithmetic::power2::{
    lemma_pow2_pos, lemma_pow2_strictly_increases, lemma_pow2_unfold, pow2,
};
use vstd::prelude::*;

use crate::alu_laws::{extended, lemma_numbers};
use crate::bus::{BusDevice, MipsCache, Tlb};
use crate::cpu_core::MipsCore;
use crate::cpu_laws::{lemma_memory_family, lemma_not_integer};
use crate::flow_laws::{branches, lemma_target};
use crate::fpu::{float_op, is_cop1, pattern32, pattern64, FloatOp, FloatReply, Step};
use crate::fpu_round::{compare32, compare64};
use crate::instr::{encodes, encoding, DecodedInstr, InstrHandler};
use crate::integer::{cc_field, tf_field};
use crate::loadstore::alone;
use crate::machine::Machine;
use crate::status::EXEC_COMPLETE;
use crate::system_laws::bit32;
use crate::words::{
    amount, function, goes_on, lemma_encoded, lemma_fields, low, opcode, reg_d, reg_s,
    reg_t, sets,
};

verus! {

/// The bits of a double but for its sign.
pub open spec fn size64(x: u64) -> int {
    x as int % 0x8000_0000_0000_0000
}

pub open spec fn size32(x: u32) -> int {
    x as int % 0x8000_0000
}

/// A double that is no number: its bits are above those of infinity.
pub open spec fn no_number64(x: u64) -> bool {
    size64(x) > 0x7FF0_0000_0000_0000
}

pub open spec fn no_number32(x: u32) -> bool {
    size32(x) > 0x7F80_0000
}

/// What bits without a sign stand for, as a multiple of the least such number, where the
/// fraction takes `one` values.
pub open spec fn size_of(bits: int, one: int) -> int {
    let e = bits / one;
    let f = bits % one;
    if e == 0 {
        f
    } else {
        (one + f) * pow2((e - 1) as nat)
    }
}

/// The number that the double `x` is, as a multiple of the least double above zero.
/// Infinity is larger than all others.
pub open spec fn number64(x: u64) -> int {
    let n = size_of(size64(x), 0x10_0000_0000_0000);
    if x >= 0x8000_0000_0000_0000 {
        -n
    } else {
        n
    }
}

pub open spec fn number32(x: u32) -> int {
    let n = size_of(size32(x), 0x80_0000);
    if x >= 0x8000_0000 {
        -n
    } else {
        n
    }
}

/// Larger bits stand for larger numbers.
proof fn lemma_sizes(a: int, b: int, one: int)
    requires
        0 <= a < b,
        one > 0,
    ensures
        0 <= size_of(a, one) < size_of(b, one),
{
    vstd::arithmetic::div_mod::lemma_fundamental_div_mod(a, one);
    vstd::arithmetic::div_mod::lemma_fundamental_div_mod(b, one);
    vstd::arithmetic::div_mod::lemma_mod_bound(a, one);
    vstd::arithmetic::div_mod::lemma_mod_bound(b, one);
    vstd::arithmetic::div_mod::lemma_div_is_ordered(a, b, one);
    vstd::arithmetic::div_mod::lemma_div_pos_is_pos(a, one);
    let i = a / one;
    let k = b / one;
    let f = a % one;
    let g = b % one;
    if i == k {
        assert(f < g);
        if i > 0 {
            let w = pow2((i - 1) as nat);
            lemma_pow2_pos((i - 1) as nat);
            assert(0 <= (one + f) * w < (one + g) * w) by (nonlinear_arith)
                requires
                    0 <= f < g,
                    one > 0,
                    w > 0,
            ;
        }
    } else {
        let w = pow2((k - 1) as nat);
        lemma_pow2_pos((k - 1) as nat);
        assert(one <= one * w <= (one + g) * w) by (nonlinear_arith)
            requires
                g >= 0,
                w >= 1,
                one > 0,
        ;
        if i > 0 {
            let v = pow2((i - 1) as nat);
            lemma_pow2_pos((i - 1) as nat);
            lemma_pow2_unfold(i as nat);
            if i < k - 1 {
                lemma_pow2_strictly_increases(i as nat, (k - 1) as nat);
            }
            assert(0 <= (one + f) * v < one * w) by (nonlinear_arith)
                requires
                    0 <= f < one,
                    2 * v <= w,
                    v >= 1,
                    one > 0,
            ;
        }
    }
}

proof fn lemma_order(a: int, b: int, one: int)
    requires
        a >= 0,
        b >= 0,
        one > 0,
    ensures
        size_of(a, one) >= 0,
        size_of(0, one) == 0,
        size_of(a, one) == size_of(b, one) <==> a == b,
        size_of(a, one) < size_of(b, one) <==> a < b,
        size_of(a, one) == 0 <==> a == 0,
{
    vstd::arithmetic::div_mod::lemma_div_of0(one);
    vstd::arithmetic::div_mod::lemma_small_mod(0, one as nat);
    if a < b {
        lemma_sizes(a, b, one);
    } else if b < a {
        lemma_sizes(b, a, one);
    }
    if a > 0 {
        lemma_sizes(0, a, one);
    }
}

proof fn lemma_double_bits(x: u64)
    ensures
        x & 0x7FFF_FFFF_FFFF_FFFF == x % 0x8000_0000_0000_0000,
        x >> 63 == x / 0x8000_0000_0000_0000,
        (x as u32) == x % 0x1_0000_0000,
        ((x >> 32) as u32) == x / 0x1_0000_0000,
{
    crate::bits::lemma_bits_of_double(x);
}

proof fn lemma_single_bits(y: u32)
    ensures
        y & 0x7FFF_FFFF == y % 0x8000_0000,
        y >> 31 == y / 0x8000_0000,
        y & 0x2000_0000 == 0x2000_0000 * (y / 0x2000_0000 % 2),
        y & 0x0400_0000 == 0x0400_0000 * (y / 0x0400_0000 % 2),
        y & 3 == y % 4,
        (y >> 18) & 7 == y / 0x4_0000 % 8,
        (y >> 16) & 1 == y / 0x1_0000 % 2,
{
    crate::bits::lemma_bits_of_word(y);
}

proof fn lemma_condition_bits(cond: u8)
    by (bit_vector)
    ensures
        cond & 1 == cond % 2,
        cond & 2 == 2 * (cond / 2 % 2),
        cond & 4 == 4 * (cond / 4 % 2),
        cond & 8 == 8 * (cond / 8 % 2),
        cond & 7 == cond % 8,
{
}

pub(crate) proof fn lemma_pattern_bits(x: u64, y: u32, cond: u8)
    ensures
        x & 0x7FFF_FFFF_FFFF_FFFF == size64(x),
        (x >> 63 != 0) == (x >= 0x8000_0000_0000_0000),
        y & 0x7FFF_FFFF == size32(y),
        (y >> 31 != 0) == (y >= 0x8000_0000),
        cond & 1 == cond % 2,
        cond & 2 == 2 * (cond as int / 2 % 2),
        cond & 4 == 4 * (cond as int / 4 % 2),
        cond & 8 == 8 * (cond as int / 8 % 2),
        cond & 7 == cond % 8,
        (x as u32) == x as int % 0x1_0000_0000,
        ((x >> 32) as u32) == x as int / 0x1_0000_0000,
        (y & 0x2000_0000 != 0) == (y as int / 0x2000_0000 % 2 == 1),
        (y & 0x0400_0000 != 0) == (y as int / 0x0400_0000 % 2 == 1),
        y & 3 == y as int % 4,
        (y >> 18) & 7 == y as int / 0x4_0000 % 8,
        (y >> 16) & 1 == y as int / 0x1_0000 % 2,
{
    lemma_double_bits(x);
    lemma_single_bits(y);
    lemma_condition_bits(cond);
}

/// Law: doubles are compared as the numbers that they are. Bit 1 of the condition asks
/// whether they are equal, bit 2 whether the first is less, and bit 0 whether one of them
/// is no number, of which nothing else is true.
pub proof fn law_double_comparisons(x: u64, y: u64, cond: u8)
    ensures
        no_number64(x) || no_number64(y) ==> compare64(x, y, cond) == (cond % 2 == 1),
        !no_number64(x) && !no_number64(y) ==> compare64(x, y, cond) == ((cond / 2 % 2 == 1
            && number64(x) == number64(y)) || (cond / 4 % 2 == 1 && number64(x) < number64(y))),
{
    lemma_pattern_bits(x, 0, cond);
    lemma_pattern_bits(y, 0, cond);
    let a = size64(x);
    let b = size64(y);
    let one = 0x10_0000_0000_0000int;
    vstd::arithmetic::div_mod::lemma_fundamental_div_mod(a, one);
    vstd::arithmetic::div_mod::lemma_fundamental_div_mod(b, one);
    lemma_order(a, b, one);
    lemma_order(b, a, one);
}

/// Law: so are singles.
pub proof fn law_single_comparisons(x: u32, y: u32, cond: u8)
    ensures
        no_number32(x) || no_number32(y) ==> compare32(x, y, cond) == (cond % 2 == 1),
        !no_number32(x) && !no_number32(y) ==> compare32(x, y, cond) == ((cond / 2 % 2 == 1
            && number32(x) == number32(y)) || (cond / 4 % 2 == 1 && number32(x) < number32(y))),
{
    lemma_pattern_bits(0, x, cond);
    lemma_pattern_bits(0, y, cond);
    let a = size32(x);
    let b = size32(y);
    let one = 0x80_0000int;
    vstd::arithmetic::div_mod::lemma_fundamental_div_mod(a, one);
    vstd::arithmetic::div_mod::lemma_fundamental_div_mod(b, one);
    lemma_order(a, b, one);
    lemma_order(b, a, one);
}

/// Law: every double that is a number equals itself, and is not less than itself; of two
/// such doubles, one is less, or they are equal. The same holds of singles.
pub proof fn law_numbers_are_ordered(x: u64, y: u64, v: u32, w: u32)
    ensures
        !no_number64(x) ==> compare64(x, x, 2) && !compare64(x, x, 4),
        !no_number64(x) && !no_number64(y) ==> compare64(x, y, 4) || compare64(x, y, 2)
            || compare64(y, x, 4),
        !(compare64(x, y, 4) && compare64(y, x, 4)),
        !(compare64(x, y, 4) && compare64(x, y, 2)),
        !no_number32(v) ==> compare32(v, v, 2) && !compare32(v, v, 4),
        !no_number32(v) && !no_number32(w) ==> compare32(v, w, 4) || compare32(v, w, 2)
            || compare32(w, v, 4),
        !(compare32(v, w, 4) && compare32(w, v, 4)),
        !(compare32(v, w, 4) && compare32(v, w, 2)),
{
    law_double_comparisons(x, x, 2);
    law_double_comparisons(x, x, 4);
    law_double_comparisons(x, y, 2);
    law_double_comparisons(x, y, 4);
    law_double_comparisons(y, x, 4);
    law_single_comparisons(v, v, 2);
    law_single_comparisons(v, v, 4);
    law_single_comparisons(v, w, 2);
    law_single_comparisons(v, w, 4);
    law_single_comparisons(w, v, 4);
}

/// The floating-point coprocessor may be used.
pub open spec fn floats<T: Tlb, C: MipsCache, B: BusDevice>(m: Machine<T, C, B>) -> bool {
    m.core.cp0_status as int / 0x2000_0000 % 2 == 1
}

/// Single `r`: the lower half of its register; while registers are paired, an odd one is
/// the upper half of the even one before it.
pub open spec fn single(c: MipsCore, r: int) -> int {
    if c.cp0_status as int / 0x0400_0000 % 2 == 1 || r % 2 == 0 {
        c.fpr@[r] as int % 0x1_0000_0000
    } else {
        c.fpr@[r - 1] as int / 0x1_0000_0000
    }
}

/// Double `r`: its register; while registers are paired, that of the even one.
pub open spec fn double(c: MipsCore, r: int) -> int {
    if c.cp0_status as int / 0x0400_0000 % 2 == 1 {
        c.fpr@[r] as int
    } else {
        c.fpr@[r - r % 2] as int
    }
}

pub(crate) proof fn lemma_float<T: Tlb, C: MipsCache, B: BusDevice>(
    m: Machine<T, C, B>,
    raw: u32,
    h: InstrHandler,
)
    requires
        floats(m),
        encodes(raw, encoding(h)),
        is_cop1(h),
    ensures
        alone(raw).handler == h,
        m.core.cop1_usable(),
        m.execute(alone(raw)) == m.float(alone(raw)),
{
    reveal(Machine::execute);
    lemma_encoded(raw, h);
    lemma_memory_family(m, alone(raw));
    lemma_not_integer(m, alone(raw));
    lemma_pattern_bits(0, m.core.cp0_status, 0);
}

pub(crate) proof fn lemma_registers(c: MipsCore, r: u8)
    requires
        r < 32,
    ensures
        c.fpr_w(r) == single(c, r as int),
        c.fpr_l(r) == double(c, r as int),
{
    lemma_pattern_bits(c.fpr@[r as int], c.cp0_status, 0);
    if r > 0 {
        lemma_pattern_bits(c.fpr@[r - 1], c.cp0_status, 0);
    }
}

/// Condition code `cc` in FCSR.
pub open spec fn code(fcsr: u32, cc: int) -> bool {
    (fcsr >> (code_place(cc) as u32)) & 1 == 1
}

proof fn lemma_codes(f: u32, n: u32, k: u32)
    requires
        n < 32,
        k < 32,
    ensures
        ((f | (1u32 << n)) >> n) & 1 == 1,
        ((f & !(1u32 << n)) >> n) & 1 == 0,
        n != k ==> ((f | (1u32 << n)) >> k) & 1 == (f >> k) & 1,
        n != k ==> ((f & !(1u32 << n)) >> k) & 1 == (f >> k) & 1,
        (f & (1u32 << n) != 0) == ((f >> n) & 1 == 1),
        ((f | 0x1_0040u32) >> 16) & 1 == 1,
        ((f | 0x1_0040u32) >> 6) & 1 == 1,
        k != 16 && k != 6 ==> ((f | 0x1_0040u32) >> k) & 1 == (f >> k) & 1,
        (f & 0x800 != 0) == ((f >> 11) & 1 == 1),
{
    crate::bits::lemma_single_bits(f, n, k);
}

/// Place of condition code `cc` in FCSR.
pub open spec fn code_place(cc: int) -> int {
    if cc == 0 {
        23
    } else {
        24 + cc
    }
}

proof fn lemma_compares<T: Tlb, C: MipsCache, B: BusDevice>(m: Machine<T, C, B>, raw: u32)
    requires
        floats(m),
        opcode(raw) == 17,
        reg_s(raw) == 16 || reg_s(raw) == 17,
        function(raw) >= 48,
    ensures
        ({
            let (s, n) = m.float_compare(alone(raw));
            m.execute(alone(raw)) == (Step::Done(s), n)
        }),
        alone(raw).handler == if reg_s(raw) == 16 {
            InstrHandler::FccS
        } else {
            InstrHandler::FccD
        },
{
    lemma_fields(raw);
    let h = if reg_s(raw) == 16 {
        InstrHandler::FccS
    } else {
        InstrHandler::FccD
    };
    lemma_float(m, raw, h);
}

/// Comparison `raw` finds the condition that it asks for.
pub open spec fn finds(c: MipsCore, raw: u32) -> bool {
    let cond = (function(raw) - 48) as u8;
    if reg_s(raw) == 17 {
        compare64(double(c, reg_d(raw)) as u64, double(c, reg_t(raw)) as u64, cond)
    } else {
        compare32(single(c, reg_d(raw)) as u32, single(c, reg_t(raw)) as u32, cond)
    }
}

/// Comparison `raw` is one that objects to what is no number, and meets such.
pub open spec fn objects(c: MipsCore, raw: u32) -> bool {
    function(raw) >= 56 && if reg_s(raw) == 17 {
        no_number64(double(c, reg_d(raw)) as u64) || no_number64(double(c, reg_t(raw)) as u64)
    } else {
        no_number32(single(c, reg_d(raw)) as u32) || no_number32(single(c, reg_t(raw)) as u32)
    }
}

proof fn lemma_finds(c: MipsCore, raw: u32, d: DecodedInstr)
    requires
        d.rd == reg_d(raw) && d.rt == reg_t(raw),
        d.funct == function(raw) >= 48,
        d.handler == if reg_s(raw) == 17 {
            InstrHandler::FccD
        } else {
            InstrHandler::FccS
        },
    ensures
        c.float_condition(d) == finds(c, raw),
        (d.funct & 0x8 != 0 && c.unordered(d)) == objects(c, raw),
{
    lemma_registers(c, d.rd);
    lemma_registers(c, d.rt);
    let cond = (function(raw) - 48) as u8;
    let f = d.funct;
    assert(f / 8 % 2 == 1 <==> f >= 56);
    assert(f % 2 == cond % 2);
    assert(f / 2 % 2 == cond / 2 % 2);
    assert(f / 4 % 2 == cond / 4 % 2);
    let x = c.fpr_l(d.rd);
    let y = c.fpr_l(d.rt);
    let v = c.fpr_w(d.rd);
    let w = c.fpr_w(d.rt);
    lemma_pattern_bits(x, v, f);
    lemma_pattern_bits(y, w, cond);
    law_double_comparisons(x, y, f);
    law_double_comparisons(x, y, cond);
    law_single_comparisons(v, w, f);
    law_single_comparisons(v, w, cond);
}

/// Law: the comparisons set their condition code as they find the two registers, the one
/// of the third field first. Only those with bit 3 of the condition object to what is no
/// number: they note the invalid operation, and raise it if it is enabled.
pub proof fn law_compare_words<T: Tlb, C: MipsCache, B: BusDevice>(
    m: Machine<T, C, B>,
    raw: u32,
    k: u32,
)
    requires
        floats(m),
        opcode(raw) == 17,
        reg_s(raw) == 16 || reg_s(raw) == 17,
        function(raw) >= 48,
        k < 32,
    ensures
        ({
            let c = m.core;
            let (s, n) = m.execute(alone(raw));
            let place = code_place(amount(raw) % 8);
            let f = n.core.fpu_fcsr;
            let noted = objects(c, raw) && (k == 16 || k == 6);
            &&& n.core.gpr == c.gpr && n.core.fpr == c.fpr
            &&& if objects(c, raw) && (c.fpu_fcsr >> 11) & 1 == 1 {
                s == Step::Done(0x800_003C)
            } else {
                &&& s == Step::Done(EXEC_COMPLETE)
                &&& goes_on(c, n.core)
                &&& (f >> (place as u32)) & 1 == if finds(c, raw) {
                    1u32
                } else {
                    0
                }
                &&& k != place ==> (f >> k) & 1 == if noted {
                    1
                } else {
                    (c.fpu_fcsr >> k) & 1
                }
            }
        }),
{
    lemma_fields(raw);
    lemma_compares(m, raw);
    let d = alone(raw);
    let c = m.core;
    lemma_finds(c, raw, d);
    lemma_pattern_bits(0, 0, d.sa);
    let place = code_place(amount(raw) % 8) as u32;
    let g = c.fpu_fcsr | 0x1_0040u32;
    lemma_codes(c.fpu_fcsr, place, k);
    lemma_codes(c.fpu_fcsr, place, 11);
    lemma_codes(g, place, k);
    lemma_constants();
    lemma_goes_on(m);
}

/// The registers, and what is done with them, at the end of an instruction.
pub(crate) proof fn lemma_goes_on<T: Tlb, C: MipsCache, B: BusDevice>(m: Machine<T, C, B>)
    ensures
        ({
            let (s, n) = m.done();
            &&& s == EXEC_COMPLETE
            &&& goes_on(m.core, n.core)
            &&& n.core.gpr == m.core.gpr && n.core.fpr == m.core.fpr
            &&& n.core.fpu_fcsr == m.core.fpu_fcsr
            &&& n.core.cp0_status == m.core.cp0_status
        }),
{
}

proof fn lemma_constants()
    ensures
        crate::fpu::FCSR_CV | crate::fpu::FCSR_FV == 0x1_0040u32,
        crate::status::exception_status(crate::status::EXC_FPE) == 0x800_003C,
{
    assert(0x0001_0000u32 | 0x40u32 == 0x1_0040u32 && (0x800_0000u32 | (15u32 << 2)) == 0x800_003C)
        by (bit_vector);
}

proof fn lemma_code(f: u32, cc: u32)
    requires
        cc < 8,
    ensures
        (f & MipsCore::fpu_cc_bit(cc) != 0) == code(f, cc as int),
{
    lemma_codes(f, code_place(cc as int) as u32, 0);
}

/// From `c` to `n`, single `r` takes the value `v`, and no other part of the registers
/// changes.
pub open spec fn sets_single(c: MipsCore, n: MipsCore, r: int, v: int) -> bool {
    &&& single(n, r) == v
    &&& forall|i: int| 0 <= i < 32 && i != r ==> #[trigger] single(n, i) == single(c, i)
    &&& forall|i: int|
        0 <= i < 32 && (c.cp0_status as int / 0x0400_0000 % 2 == 1 || i % 2 == 1)
            ==> #[trigger] n.fpr@[i] as int / 0x1_0000_0000 == c.fpr@[i] as int / 0x1_0000_0000
    &&& n.cp0_status == c.cp0_status && n.gpr == c.gpr
}

/// From `c` to `n`, double `r` takes the value `v`, and no other register changes.
pub open spec fn sets_double(c: MipsCore, n: MipsCore, r: int, v: int) -> bool {
    &&& double(n, r) == v
    &&& forall|i: int|
        0 <= i < 32 && (if c.cp0_status as int / 0x0400_0000 % 2 == 1 {
            i != r
        } else {
            i != r - r % 2
        }) ==> #[trigger] n.fpr@[i] == c.fpr@[i]
    &&& n.cp0_status == c.cp0_status && n.gpr == c.gpr
}

proof fn lemma_merged(x: u64, y: u32)
    ensures
        (x & 0xFFFF_FFFF_0000_0000) | (y as u64) == x as int / 0x1_0000_0000 * 0x1_0000_0000 + y,
        (x & 0x0000_0000_FFFF_FFFF) | ((y as u64) << 32) == x as int % 0x1_0000_0000 + y
            * 0x1_0000_0000,
{
    lemma_halves(x, y);
    let a = (x & 0xFFFF_FFFF_0000_0000) | (y as u64);
    let b = (x & 0x0000_0000_FFFF_FFFF) | ((y as u64) << 32);
}

proof fn lemma_halves(x: u64, y: u32)
    ensures
        ((x & 0xFFFF_FFFF_0000_0000) | (y as u64)) % 0x1_0000_0000 == y as u64,
        ((x & 0xFFFF_FFFF_0000_0000) | (y as u64)) / 0x1_0000_0000 == x / 0x1_0000_0000,
        ((x & 0x0000_0000_FFFF_FFFF) | ((y as u64) << 32)) / 0x1_0000_0000 == y as u64,
        ((x & 0x0000_0000_FFFF_FFFF) | ((y as u64) << 32)) % 0x1_0000_0000 == x % 0x1_0000_0000,
{
    crate::bits::lemma_bits_of_both(x, y);
}

pub(crate) proof fn lemma_sets_single(c: MipsCore, r: u8, v: u32)
    requires
        r < 32,
    ensures
        sets_single(c, c.with_fpr_w(r, v), r as int, v as int),
{
    let n = c.with_fpr_w(r, v);
    let slot = c.fpr_slot(r);
    lemma_pattern_bits(0, c.cp0_status, 0);
    lemma_merged(c.fpr@[slot], v);
}

pub(crate) proof fn lemma_sets_double(c: MipsCore, r: u8, v: u64)
    requires
        r < 32,
    ensures
        sets_double(c, c.with_fpr_l(r, v), r as int, v as int),
{
    lemma_pattern_bits(0, c.cp0_status, 0);
}

/// The registers at the end of an instruction that sets a floating-point register.
pub(crate) proof fn lemma_ends(c: MipsCore, n: MipsCore, r: int, v: int)
    ensures
        sets_single(c, n, r, v) ==> sets_single(c, n.completed(), r, v),
        sets_double(c, n, r, v) ==> sets_double(c, n.completed(), r, v),
{
    let k = n.completed();
    assert forall|i: int| 0 <= i < 32 implies #[trigger] single(k, i) == single(n, i) by {}
}

/// Executing `raw` is completed, and leaves the program counter after it.
pub open spec fn completes<T: Tlb, C: MipsCache, B: BusDevice>(
    m: Machine<T, C, B>,
    raw: u32,
) -> bool {
    let (s, n) = m.execute(alone(raw));
    &&& s == Step::Done(EXEC_COMPLETE)
    &&& goes_on(m.core, n.core)
    &&& n.core.hi == m.core.hi && n.core.lo == m.core.lo
    &&& n.cache == m.cache && n.sysad == m.sysad && n.tlb == m.tlb
}

/// Executing the move `raw`, whose operation is `h`.
proof fn lemma_moves<T: Tlb, C: MipsCache, B: BusDevice>(
    m: Machine<T, C, B>,
    raw: u32,
    h: InstrHandler,
)
    requires
        floats(m),
        encodes(raw, encoding(h)),
        is_cop1(h),
        m.core.float_moved(DecodedInstr { handler: h, ..alone(raw) }) is Some,
    ensures
        alone(raw).handler == h,
        m.execute(alone(raw)) == (
            Step::Done(EXEC_COMPLETE),
            m.with_core(m.core.float_moved(alone(raw))->0.completed()),
        ),
{
    lemma_float(m, raw, h);
}

/// Law: `mfc1` brings a single to a general register, its sign extended, and `dmfc1` a
/// double; `mtc1` and `dmtc1` bring them back.
pub proof fn law_float_transfers<T: Tlb, C: MipsCache, B: BusDevice>(m: Machine<T, C, B>, raw: u32)
    requires
        floats(m),
        opcode(raw) == 17,
    ensures
        ({
            let c = m.core;
            let n = m.execute(alone(raw)).1.core;
            let v = c.gpr@[reg_t(raw)];
            &&& reg_s(raw) == 0 ==> sets(m, raw, reg_t(raw), extended(single(c, reg_d(raw))))
            &&& reg_s(raw) == 1 ==> sets(m, raw, reg_t(raw), double(c, reg_d(raw)))
            &&& reg_s(raw) == 4 ==> completes(m, raw) && sets_single(c, n, reg_d(raw), low(v))
            &&& reg_s(raw) == 5 ==> completes(m, raw) && sets_double(c, n, reg_d(raw), v as int)
        }),
{
    let c = m.core;
    let d = alone(raw);
    let v = c.gpr@[reg_t(raw)];
    lemma_fields(raw);
    lemma_registers(c, d.rd);
    lemma_numbers(v, c.fpr_w(d.rd), 0, 0);
    if reg_s(raw) == 0 {
        lemma_moves(m, raw, InstrHandler::Mfc1);
    } else if reg_s(raw) == 1 {
        lemma_moves(m, raw, InstrHandler::Dmfc1);
    } else if reg_s(raw) == 4 {
        lemma_moves(m, raw, InstrHandler::Mtc1);
        lemma_sets_single(c, d.rd, v as u32);
        lemma_ends(c, c.with_fpr_w(d.rd, v as u32), d.rd as int, low(v));
    } else if reg_s(raw) == 5 {
        lemma_moves(m, raw, InstrHandler::Dmtc1);
        lemma_sets_double(c, d.rd, v);
        lemma_ends(c, c.with_fpr_l(d.rd, v), d.rd as int, v as int);
    }
}

proof fn lemma_sign_bits(x: u64, y: u32)
    ensures
        x < 0x8000_0000_0000_0000 ==> x ^ 0x8000_0000_0000_0000 == x + 0x8000_0000_0000_0000,
        x >= 0x8000_0000_0000_0000 ==> x ^ 0x8000_0000_0000_0000 == x - 0x8000_0000_0000_0000,
        y < 0x8000_0000 ==> y ^ 0x8000_0000 == y + 0x8000_0000,
        y >= 0x8000_0000 ==> y ^ 0x8000_0000 == y - 0x8000_0000,
{
    crate::bits::lemma_bits_of_both(x, y);
}

/// Law: `abs` clears the sign of a number, `neg` turns it over, and `mov` copies all of a
/// register.
pub proof fn law_float_signs<T: Tlb, C: MipsCache, B: BusDevice>(m: Machine<T, C, B>, raw: u32)
    requires
        floats(m),
        opcode(raw) == 17,
        reg_s(raw) == 16 || reg_s(raw) == 17,
        5 <= function(raw) <= 7,
    ensures
        ({
            let c = m.core;
            let n = m.execute(alone(raw)).1.core;
            let x = double(c, reg_d(raw));
            let y = single(c, reg_d(raw));
            let to = amount(raw);
            let f = function(raw);
            &&& completes(m, raw)
            &&& f == 6 ==> sets_double(c, n, to, x)
            &&& reg_s(raw) == 17 && f == 5 ==> sets_double(c, n, to, x % 0x8000_0000_0000_0000)
            &&& reg_s(raw) == 17 && f == 7 ==> sets_double(
                c,
                n,
                to,
                (x + 0x8000_0000_0000_0000) % 0x1_0000_0000_0000_0000,
            )
            &&& reg_s(raw) == 16 && f == 5 ==> sets_single(c, n, to, y % 0x8000_0000)
            &&& reg_s(raw) == 16 && f == 7 ==> sets_single(
                c,
                n,
                to,
                (y + 0x8000_0000) % 0x1_0000_0000,
            )
        }),
{
    let c = m.core;
    let d = alone(raw);
    lemma_fields(raw);
    lemma_registers(c, d.rd);
    let x = c.fpr_l(d.rd);
    let y = c.fpr_w(d.rd);
    lemma_pattern_bits(x, y, 0);
    lemma_sign_bits(x, y);
    let wide = reg_s(raw) == 17;
    let h = if function(raw) == 5 {
        if wide {
            InstrHandler::FabsD
        } else {
            InstrHandler::FabsS
        }
    } else if function(raw) == 6 {
        if wide {
            InstrHandler::FmovD
        } else {
            InstrHandler::FmovS
        }
    } else if wide {
        InstrHandler::FnegD
    } else {
        InstrHandler::FnegS
    };
    lemma_moves(m, raw, h);
    let p = pattern64(h, x);
    let q = pattern32(h, y);
    lemma_sets_double(c, d.sa, p);
    lemma_ends(c, c.with_fpr_l(d.sa, p), d.sa as int, p as int);
    lemma_sets_single(c, d.sa, q);
    lemma_ends(c, c.with_fpr_w(d.sa, q), d.sa as int, q as int);
}

/// Law: the conditional moves copy a single or a double if their condition holds, and do
/// nothing if not: `movf` and `movt` look at a condition code, `movz` and `movn` at a
/// general register.
pub proof fn law_float_conditional_moves<T: Tlb, C: MipsCache, B: BusDevice>(
    m: Machine<T, C, B>,
    raw: u32,
)
    requires
        floats(m),
        opcode(raw) == 17,
        reg_s(raw) == 16 || reg_s(raw) == 17,
        17 <= function(raw) <= 19,
    ensures
        ({
            let c = m.core;
            let n = m.execute(alone(raw)).1.core;
            let v = c.gpr@[reg_t(raw)];
            let f = function(raw);
            let moves = if f == 17 {
                code(c.fpu_fcsr, reg_t(raw) / 4) == (reg_t(raw) % 2 == 1)
            } else if f == 18 {
                v == 0
            } else {
                v != 0
            };
            &&& completes(m, raw)
            &&& moves && reg_s(raw) == 17 ==> sets_double(c, n, amount(raw), double(c, reg_d(raw)))
            &&& moves && reg_s(raw) == 16 ==> sets_single(c, n, amount(raw), single(c, reg_d(raw)))
            &&& !moves ==> n.fpr == c.fpr
        }),
{
    let c = m.core;
    let d = alone(raw);
    lemma_fields(raw);
    lemma_registers(c, d.rd);
    let x = c.fpr_l(d.rd);
    let y = c.fpr_w(d.rd);
    lemma_pattern_bits(0, raw, 0);
    lemma_code_field(raw);
    lemma_code(c.fpu_fcsr, cc_field(raw));
    let wide = reg_s(raw) == 17;
    let h = if function(raw) == 17 {
        if wide {
            InstrHandler::FmovcfD
        } else {
            InstrHandler::FmovcfS
        }
    } else if function(raw) == 18 {
        if wide {
            InstrHandler::FmovzD
        } else {
            InstrHandler::FmovzS
        }
    } else if wide {
        InstrHandler::FmovnD
    } else {
        InstrHandler::FmovnS
    };
    lemma_moves(m, raw, h);
    lemma_sets_double(c, d.sa, x);
    lemma_ends(c, c.with_fpr_l(d.sa, x), d.sa as int, x as int);
    lemma_sets_single(c, d.sa, y);
    lemma_ends(c, c.with_fpr_w(d.sa, y), d.sa as int, y as int);
}

proof fn lemma_code_field(raw: u32)
    ensures
        cc_field(raw) == reg_t(raw) / 4,
        tf_field(raw) == (reg_t(raw) % 2 == 1),
{
    lemma_pattern_bits(0, raw, 0);
    let q = raw as int / 0x1_0000;
    assert(raw as int / 0x4_0000 == q / 4);
    assert(q % 32 / 4 == q / 4 % 8);
    assert(q % 32 % 2 == q % 2);
}

/// Law: the branches on a condition code: bit 0 of their second field is the value that
/// they look for, bit 1 makes them likely, and the other three are the code.
pub proof fn law_float_branches<T: Tlb, C: MipsCache, B: BusDevice>(m: Machine<T, C, B>, raw: u32)
    requires
        floats(m),
        opcode(raw) == 17,
        reg_s(raw) == 8,
    ensures
        branches(
            m,
            raw,
            code(m.core.fpu_fcsr, reg_t(raw) / 4) == (reg_t(raw) % 2 == 1),
            reg_t(raw) / 2 % 2 == 1,
            false,
        ),
{
    lemma_fields(raw);
    lemma_float(m, raw, InstrHandler::Bc1);
    lemma_code_field(raw);
    lemma_code(m.core.fpu_fcsr, cc_field(raw));
    lemma_pattern_bits(0, 0, alone(raw).rt);
    lemma_target(m.core, raw);
    assert(alone(raw).imm == crate::instr::imm_branch(raw));
}

/// Law: FCSR is what was last written to it: `cfc1` of register 31 gives back what `ctc1`
/// put there. Of the others, 25, 26 and 28 can be written too, and 0 only read.
pub proof fn law_float_control<T: Tlb, C: MipsCache, B: BusDevice>(
    m: Machine<T, C, B>,
    write: u32,
    read: u32,
)
    requires
        floats(m),
        opcode(write) == 17 && reg_s(write) == 6,
        opcode(read) == 17 && reg_s(read) == 2,
    ensures
        ({
            let n = m.execute(alone(write)).1;
            let r = reg_d(write);
            let v = extended(low(m.core.gpr@[reg_t(write)]));
            &&& r != 31 ==> completes(m, write)
            &&& r == 31 || r == 25 || r == 26 || r == 28 ==> reg_d(read) == r ==> sets(
                n,
                read,
                reg_t(read),
                v,
            )
            &&& r != reg_d(read) ==> n.core.fpu_control(reg_d(read) as u8) == m.core.fpu_control(
                reg_d(read) as u8,
            )
            &&& n.core.gpr == m.core.gpr && n.core.fpr == m.core.fpr
        }),
{
    lemma_fields(write);
    lemma_fields(read);
    lemma_float(m, write, InstrHandler::Ctc1);
    let n = m.execute(alone(write)).1;
    lemma_numbers(m.core.gpr@[reg_t(write)], n.core.fpu_fcsr, 0, 0);
    lemma_numbers(0, n.core.fpu_fccr, 0, 0);
    lemma_numbers(0, n.core.fpu_fexr, 0, 0);
    lemma_numbers(0, n.core.fpu_fenr, 0, 0);
    lemma_more_status(m.core.cp0_status);
    lemma_moves(n, read, InstrHandler::Cfc1);
}

proof fn lemma_more_status(s: u32)
    ensures
        (s | 2) / 0x2000_0000 == s / 0x2000_0000,
        (s | 2) / 0x0400_0000 == s / 0x0400_0000,
{
    crate::bits::lemma_bits_of_word(s);
}

/// Executing `raw` asks for `op` to be computed of `a`, `b` and `c`, in doubles if `wide`,
/// in the rounding mode of FCSR, and changes nothing yet.
pub open spec fn asks<T: Tlb, C: MipsCache, B: BusDevice>(
    m: Machine<T, C, B>,
    raw: u32,
    op: FloatOp,
    wide: bool,
    a: int,
) -> bool {
    let (s, n) = m.execute(alone(raw));
    match s {
        Step::Float(r, d) => {
            &&& r.op == op && r.double == wide && r.a == a
            &&& r.rm == m.core.fpu_fcsr as int % 4
            &&& d == alone(raw) && n == m
        },
        _ => false,
    }
}

/// The second operand of what executing `raw` asks for, and the third.
pub open spec fn more_operands<T: Tlb, C: MipsCache, B: BusDevice>(
    m: Machine<T, C, B>,
    raw: u32,
    b: int,
    c: int,
) -> bool {
    match m.execute(alone(raw)).0 {
        Step::Float(r, d) => r.b == b && r.c == c,
        _ => false,
    }
}

/// Register `r` as a number of the format that `wide` says.
pub open spec fn operand(c: MipsCore, wide: bool, r: int) -> int {
    if wide {
        double(c, r)
    } else {
        single(c, r)
    }
}

proof fn lemma_asks<T: Tlb, C: MipsCache, B: BusDevice>(
    m: Machine<T, C, B>,
    raw: u32,
    h: InstrHandler,
)
    requires
        floats(m),
        encodes(raw, encoding(h)),
        is_cop1(h),
        float_op(h) is Some,
    ensures
        ({
            let (op, wide) = float_op(h)->0;
            asks(
                m,
                raw,
                op,
                wide,
                if op == FloatOp::FromWord {
                    single(m.core, reg_d(raw))
                } else if op == FloatOp::FromLong {
                    double(m.core, reg_d(raw))
                } else {
                    operand(m.core, wide, reg_d(raw))
                },
            )
        }),
        more_operands(
            m,
            raw,
            operand(m.core, (float_op(h)->0).1, reg_t(raw)),
            operand(m.core, (float_op(h)->0).1, reg_s(raw)),
        ),
{
    let c = m.core;
    let d = alone(raw);
    lemma_fields(raw);
    lemma_float(m, raw, h);
    lemma_registers(c, d.rd);
    lemma_registers(c, d.rt);
    lemma_registers(c, d.rs);
    lemma_pattern_bits(0, c.fpu_fcsr, 0);
}

/// The operation of an arithmetic word, by its function.
pub open spec fn arithmetic_op(f: int) -> FloatOp {
    if f == 0 {
        FloatOp::Add
    } else if f == 1 {
        FloatOp::Sub
    } else if f == 2 {
        FloatOp::Mul
    } else if f == 3 {
        FloatOp::Div
    } else if f == 4 {
        FloatOp::Sqrt
    } else if f == 21 {
        FloatOp::Recip
    } else {
        FloatOp::Rsqrt
    }
}

pub open spec fn is_arithmetic(f: int) -> bool {
    0 <= f <= 4 || f == 21 || f == 22
}

/// The operation that an arithmetic word encodes.
spec fn arithmetic(raw: u32) -> InstrHandler {
    let f = function(raw);
    let wide = reg_s(raw) == 17;
    if f == 0 {
        if wide {
            InstrHandler::FaddD
        } else {
            InstrHandler::FaddS
        }
    } else if f == 1 {
        if wide {
            InstrHandler::FsubD
        } else {
            InstrHandler::FsubS
        }
    } else if f == 2 {
        if wide {
            InstrHandler::FmulD
        } else {
            InstrHandler::FmulS
        }
    } else if f == 3 {
        if wide {
            InstrHandler::FdivD
        } else {
            InstrHandler::FdivS
        }
    } else if f == 4 {
        if wide {
            InstrHandler::FsqrtD
        } else {
            InstrHandler::FsqrtS
        }
    } else if f == 21 {
        if wide {
            InstrHandler::FrecipD
        } else {
            InstrHandler::FrecipS
        }
    } else if wide {
        InstrHandler::FrsqrtD
    } else {
        InstrHandler::FrsqrtS
    }
}

/// Law: the arithmetic words ask for their operation on the register of their third field,
/// and, where it takes two, on that of their second.
pub proof fn law_float_arithmetic<T: Tlb, C: MipsCache, B: BusDevice>(m: Machine<T, C, B>, raw: u32)
    requires
        floats(m),
        opcode(raw) == 17,
        reg_s(raw) == 16 || reg_s(raw) == 17,
        is_arithmetic(function(raw)),
    ensures
        ({
            let wide = reg_s(raw) == 17;
            let f = function(raw);
            let (s, n) = m.execute(alone(raw));
            &&& asks(m, raw, arithmetic_op(f), wide, operand(m.core, wide, reg_d(raw)))
            &&& f < 4 ==> (s matches Step::Float(r, d) && r.b == operand(m.core, wide, reg_t(raw)))
        }),
{
    lemma_fields(raw);
    lemma_asks(m, raw, arithmetic(raw));
}

/// Law: the multiply-add words ask for the product of the registers of their third and
/// second fields, and the sum with that of their first.
pub proof fn law_float_multiply_adds<T: Tlb, C: MipsCache, B: BusDevice>(
    m: Machine<T, C, B>,
    raw: u32,
)
    requires
        floats(m),
        opcode(raw) == 19,
        function(raw) >= 32,
        function(raw) % 8 < 2,
    ensures
        ({
            let wide = function(raw) % 8 == 1;
            let f = function(raw) / 8;
            &&& asks(
                m,
                raw,
                if f == 4 {
                    FloatOp::MulAdd
                } else if f == 5 {
                    FloatOp::MulSub
                } else if f == 6 {
                    FloatOp::NegMulAdd
                } else {
                    FloatOp::NegMulSub
                },
                wide,
                operand(m.core, wide, reg_d(raw)),
            )
            &&& more_operands(
                m,
                raw,
                operand(m.core, wide, reg_t(raw)),
                operand(m.core, wide, reg_s(raw)),
            )
        }),
{
    lemma_fields(raw);
    let f = function(raw);
    let h = if f == 32 {
        InstrHandler::MaddS
    } else if f == 33 {
        InstrHandler::MaddD
    } else if f == 40 {
        InstrHandler::MsubS
    } else if f == 41 {
        InstrHandler::MsubD
    } else if f == 48 {
        InstrHandler::NmaddS
    } else if f == 49 {
        InstrHandler::NmaddD
    } else if f == 56 {
        InstrHandler::NmsubS
    } else {
        InstrHandler::NmsubD
    };
    lemma_asks(m, raw, h);
}

/// `raw` converts to a single or a double: from the other, from a word, or from a long.
pub open spec fn is_conversion(raw: u32) -> bool {
    &&& opcode(raw) == 17
    &&& (function(raw) == 33 && reg_s(raw) == 16) || (function(raw) == 32 && reg_s(raw) == 17) || ((
    function(raw) == 32 || function(raw) == 33) && (reg_s(raw) == 20 || reg_s(raw) == 21))
}

spec fn conversion(raw: u32) -> InstrHandler {
    if reg_s(raw) == 16 {
        InstrHandler::FcvtDS
    } else if reg_s(raw) == 17 {
        InstrHandler::FcvtSD
    } else if reg_s(raw) == 20 {
        if function(raw) == 32 {
            InstrHandler::FcvtSW
        } else {
            InstrHandler::FcvtDW
        }
    } else if function(raw) == 32 {
        InstrHandler::FcvtSL
    } else {
        InstrHandler::FcvtDL
    }
}

/// Law: `cvt.d` of a single and `cvt.s` of a double ask for the other format; those of a
/// word and of a long take the register as an integer of that size.
pub proof fn law_float_conversions<T: Tlb, C: MipsCache, B: BusDevice>(
    m: Machine<T, C, B>,
    raw: u32,
)
    requires
        floats(m),
        is_conversion(raw),
    ensures
        ({
            let from = reg_s(raw);
            let x = reg_d(raw);
            let to_double = function(raw) == 33;
            &&& from == 16 ==> asks(m, raw, FloatOp::Convert, false, single(m.core, x))
            &&& from == 17 ==> asks(m, raw, FloatOp::Convert, true, double(m.core, x))
            &&& from == 20 ==> asks(m, raw, FloatOp::FromWord, to_double, single(m.core, x))
            &&& from == 21 ==> asks(m, raw, FloatOp::FromLong, to_double, double(m.core, x))
        }),
{
    lemma_fields(raw);
    lemma_asks(m, raw, conversion(raw));
}

/// Law: the answer to what arithmetic or a conversion asked for goes to the register of
/// the fourth field, in the format of the result; if it raised no exception, the
/// instruction is then complete.
pub proof fn law_float_answers<T: Tlb, C: MipsCache, B: BusDevice>(
    m: Machine<T, C, B>,
    raw: u32,
    reply: FloatReply,
)
    requires
        (opcode(raw) == 17 && (reg_s(raw) == 16 || reg_s(raw) == 17) && is_arithmetic(
            function(raw),
        )) || is_conversion(raw),
        reply.flags == 0,
    ensures
        ({
            let c = m.core;
            let (s, n) = m.float_done(alone(raw), reply);
            let wide = if is_conversion(raw) {
                function(raw) == 33
            } else {
                reg_s(raw) == 17
            };
            &&& s == EXEC_COMPLETE && goes_on(c, n.core)
            &&& wide ==> sets_double(c, n.core, amount(raw), reply.bits as int)
            &&& !wide ==> sets_single(c, n.core, amount(raw), low(reply.bits))
        }),
{
    let c = m.core;
    let d = alone(raw);
    lemma_fields(raw);
    let h = if is_conversion(raw) {
        conversion(raw)
    } else {
        arithmetic(raw)
    };
    lemma_encoded(raw, h);
    lemma_numbers(reply.bits, 0, 0, 0);
    let bits = reply.bits;
    lemma_sets_double(c, d.sa, bits);
    lemma_ends(c, c.with_fpr_l(d.sa, bits), d.sa as int, bits as int);
    lemma_sets_single(c, d.sa, bits as u32);
    lemma_ends(c, c.with_fpr_w(d.sa, bits as u32), d.sa as int, low(bits));
}

/// One of the five exceptions `k`, from inexact up to invalid, was raised, and FCSR lets it
/// through.
pub open spec fn lets_through(fcsr: u32, flags: u32, k: int) -> bool {
    bit32(flags, 2 + k) && bit32(fcsr, 7 + k)
}

proof fn lemma_noted_flags(f: u32, x: u32, j: u32)
    requires
        j < 32,
    ensures
        j >= 2 && j <= 6 ==> (((f | ((x & 0x7C) << 10) | (x & 0x7C)) >> j) & 1 == 1 <==> (f >> j) & 1
            == 1 || (x >> j) & 1 == 1),
        j >= 12 && j <= 16 ==> (((f | ((x & 0x7C) << 10) | (x & 0x7C)) >> j) & 1 == 1 <==> (f >> j)
            & 1 == 1 || (x >> ((j - 10) as u32)) & 1 == 1),
        j < 2 || (j > 6 && j < 12) || j > 16 ==> ((f | ((x & 0x7C) << 10) | (x & 0x7C)) >> j) & 1
            == (f >> j) & 1,
        j != 17 ==> ((f | 0x2_0000) >> j) & 1 == (f >> j) & 1,
        j == 17 ==> ((f | 0x2_0000) >> j) & 1 == 1,
        (((x & 0x7C) << 10) & 0x2000 != 0 && (f | ((x & 0x7C) << 10) | (x & 0x7C)) & 0x100 != 0)
            <==> (x >> 3u32) & 1 == 1 && (f >> 8u32) & 1 == 1,
        (((x & 0x7C) << 10) >> 5) & ((f | ((x & 0x7C) << 10) | (x & 0x7C)) & 0xF80) != 0 <==> ((x
            >> 2u32) & 1 == 1 && (f >> 7u32) & 1 == 1) || ((x >> 3u32) & 1 == 1 && (f >> 8u32) & 1
            == 1) || ((x >> 4u32) & 1 == 1 && (f >> 9u32) & 1 == 1) || ((x >> 5u32) & 1 == 1 && (f
            >> 10u32) & 1 == 1) || ((x >> 6u32) & 1 == 1 && (f >> 11u32) & 1 == 1),
        x == 0 ==> (x >> j) & 1 == 0,
{
    crate::bits::lemma_single_bits(f, x, j);
}

/// Law: the exceptions that arithmetic raised are noted in FCSR, as flags in bits 2 to 6
/// and as causes in bits 12 to 16, and no other bits change but for bit 17, which an
/// underflow sets that is enabled. The instruction traps if one of them is enabled, in bits
/// 7 to 11, and is complete if none is.
pub proof fn law_float_exceptions<T: Tlb, C: MipsCache, B: BusDevice>(
    m: Machine<T, C, B>,
    flags: u32,
    j: u32,
)
    requires
        j < 32,
    ensures
        ({
            let c = m.core;
            let f = c.fpu_fcsr;
            let (s, n) = m.float_end(flags);
            let traps = lets_through(f, flags, 0) || lets_through(f, flags, 1) || lets_through(
                f,
                flags,
                2,
            ) || lets_through(f, flags, 3) || lets_through(f, flags, 4);
            &&& bit32(n.core.fpu_fcsr, j as int) == (bit32(f, j as int) || (2 <= j <= 6 && bit32(
                flags,
                j as int,
            )) || (12 <= j <= 16 && bit32(flags, j - 10)) || (j == 17 && lets_through(f, flags, 1)))
            &&& s == if traps {
                0x800_003Cu32
            } else {
                EXEC_COMPLETE
            }
            &&& !traps ==> goes_on(c, n.core)
            &&& n.core.gpr == c.gpr && n.core.fpr == c.fpr
        }),
{
    let c = m.core;
    let f = c.fpu_fcsr;
    lemma_noted_flags(f, flags, j);
    lemma_noted_flags(f | ((flags & 0x7C) << 10) | (flags & 0x7C), 0, j);
    lemma_noted_flags(f, flags, 2);
    lemma_noted_flags(f, flags, 3);
    lemma_noted_flags(f, flags, 4);
    lemma_noted_flags(f, flags, 5);
    lemma_noted_flags(f, flags, 6);
    if 12 <= j <= 16 {
        lemma_noted_flags(f, flags, (j - 10) as u32);
    }
    lemma_constants();
}

/// Law: `movf` and `movt` of the integer unit copy their first register to their third if
/// the condition code has the value that they look for, and do nothing if not.
pub proof fn law_moves_on_condition_codes<T: Tlb, C: MipsCache, B: BusDevice>(
    m: Machine<T, C, B>,
    raw: u32,
)
    requires
        opcode(raw) == 0,
        function(raw) == 1,
    ensures
        if code(m.core.fpu_fcsr, reg_t(raw) / 4) == (reg_t(raw) % 2 == 1) {
            sets(m, raw, reg_d(raw), m.core.gpr@[reg_s(raw)] as int)
        } else {
            sets(m, raw, 0, 0)
        },
{
    reveal(Machine::execute);
    lemma_fields(raw);
    lemma_encoded(raw, InstrHandler::Movci);
    lemma_code_field(raw);
    lemma_pattern_bits(0, raw, 0);
    lemma_code(m.core.fpu_fcsr, cc_field(raw));
}

} // verus!

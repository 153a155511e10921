//! What the words of the arithmetic and logic instructions do, in numbers.
use vstd::prelude::*;

use crate::alu::{
    alu_result, checked_double, checked_word, hi_lo_result, law_division_is_exact,
    lemma_division_fits, quotient, remainder, Computed,
};
use crate::bus::{BusDevice, MipsCache, Tlb};
use crate::fpu::Step;
use crate::instr::{encodes, encoding, InstrHandler};
use crate::loadstore::alone;
use crate::machine::Machine;
use crate::status::{EXC_OV, EXEC_COMPLETE};
use crate::words::{
    amount, function, goes_on, half, lemma_encoded, lemma_fields, lemma_keeps, lemma_raises,
    lemma_sets, low, offset, opcode, raises, reg_d, reg_s, reg_t, same_elsewhere, sets, signed,
    signed_low,
};

verus! {

/// The word `k` with its sign carried into the upper half.
pub open spec fn extended(k: int) -> int {
    if k < 0x8000_0000 {
        k
    } else {
        k + 0xFFFF_FFFF_0000_0000
    }
}

/// The signed number `k` in 64 bits.
pub open spec fn in_64_bits(k: int) -> int {
    if k < 0 {
        k + 0x1_0000_0000_0000_0000
    } else {
        k
    }
}

/// Bit `i` of `v`.
pub open spec fn bit(v: u64, i: u64) -> bool {
    (v >> i) & 1 == 1
}

pub(crate) proof fn lemma_numbers(v: u64, w: u32, x: i32, y: i64)
    by (bit_vector)
    ensures
        v < 0x8000_0000_0000_0000 ==> (v as i64) == v,
        v >= 0x8000_0000_0000_0000 ==> (v as i64) == v - 0x1_0000_0000_0000_0000,
        (v as u32) == v % 0x1_0000_0000,
        v % 0x1_0000_0000 < 0x8000_0000 ==> (v as i32) == v % 0x1_0000_0000,
        v % 0x1_0000_0000 >= 0x8000_0000 ==> (v as i32) == v % 0x1_0000_0000 - 0x1_0000_0000,
        w < 0x8000_0000 ==> (w as i32 as i64 as u64) == w,
        w >= 0x8000_0000 ==> (w as i32 as i64 as u64) == w + 0xFFFF_FFFF_0000_0000,
        w < 0x8000_0000 ==> (w as i32) == w,
        w >= 0x8000_0000 ==> (w as i32) == w - 0x1_0000_0000,
        x >= 0 ==> (x as i64 as u64) == x,
        x < 0 ==> (x as i64 as u64) == x + 0x1_0000_0000_0000_0000,
        y >= 0 ==> (y as u64) == y,
        y < 0 ==> (y as u64) == y + 0x1_0000_0000_0000_0000,
{
}

proof fn lemma_overflow<T: Tlb, C: MipsCache, B: BusDevice>(
    m: Machine<T, C, B>,
    raw: u32,
    h: InstrHandler,
)
    requires
        encodes(raw, encoding(h)),
        alu_result(
            alone(raw),
            m.core.gpr@[reg_s(raw)],
            m.core.gpr@[reg_t(raw)],
        ) == Some(Computed::Overflow),
    ensures
        raises(m, raw, 12),
{
    reveal(Machine::execute);
    lemma_fields(raw);
    lemma_encoded(raw, h);
    lemma_raises(m, raw, EXC_OV);
}

/// An exact result: it is left where it fits into `bits` bits, else overflow is raised.
pub open spec fn sets_or_overflows<T: Tlb, C: MipsCache, B: BusDevice>(
    m: Machine<T, C, B>,
    raw: u32,
    r: int,
    k: int,
    limit: int,
) -> bool {
    if -limit <= k < limit {
        sets(m, raw, r, in_64_bits(k))
    } else {
        raises(m, raw, 12)
    }
}

proof fn lemma_checked<T: Tlb, C: MipsCache, B: BusDevice>(
    m: Machine<T, C, B>,
    raw: u32,
    h: InstrHandler,
    k: int,
    wide: bool,
    r: int,
)
    requires
        encodes(raw, encoding(h)),
        alu_result(
            alone(raw),
            m.core.gpr@[reg_s(raw)],
            m.core.gpr@[reg_t(raw)],
        ) == Some(
            if wide {
                checked_double(k)
            } else {
                checked_word(k)
            },
        ),
        r == crate::alu::alu_dest(alone(raw)),
    ensures
        sets_or_overflows(m, raw, r, k, if wide {
            0x8000_0000_0000_0000
        } else {
            0x8000_0000
        }),
{
    if wide && i64::MIN <= k <= i64::MAX {
        lemma_numbers(0, 0, 0, k as i64);
        lemma_sets(m, raw, h, k as i64 as u64);
    } else if !wide && i32::MIN <= k <= i32::MAX {
        lemma_numbers(0, 0, k as i32, 0);
        lemma_sets(m, raw, h, k as i32 as i64 as u64);
    } else {
        lemma_overflow(m, raw, h);
    }
}

/// Law: additions and subtractions of words give the sum and the difference. `addu` and
/// `subu` drop what is above 32 bits; `add` and `sub` raise an exception where the signed
/// result does not fit.
pub proof fn law_word_sums<T: Tlb, C: MipsCache, B: BusDevice>(m: Machine<T, C, B>, raw: u32)
    requires
        opcode(raw) == 0,
    ensures
        ({
            let a = m.core.gpr@[reg_s(raw)];
            let b = m.core.gpr@[reg_t(raw)];
            let r = reg_d(raw);
            &&& function(raw) == 32 ==> sets_or_overflows(
                m,
                raw,
                r,
                signed_low(a) + signed_low(b),
                0x8000_0000,
            )
            &&& function(raw) == 33 ==> sets(
                m,
                raw,
                r,
                extended((low(a) + low(b)) % 0x1_0000_0000),
            )
            &&& function(raw) == 34 ==> sets_or_overflows(
                m,
                raw,
                r,
                signed_low(a) - signed_low(b),
                0x8000_0000,
            )
            &&& function(raw) == 35 ==> sets(
                m,
                raw,
                r,
                extended((low(a) - low(b)) % 0x1_0000_0000),
            )
        }),
{
    let a = m.core.gpr@[reg_s(raw)];
    let b = m.core.gpr@[reg_t(raw)];
    lemma_fields(raw);
    lemma_numbers(a, 0, 0, 0);
    lemma_numbers(b, 0, 0, 0);
    if function(raw) == 32 {
        lemma_encoded(raw, InstrHandler::Add);
        lemma_checked(m, raw, InstrHandler::Add, signed_low(a) + signed_low(b), false, reg_d(raw));
    } else if function(raw) == 33 {
        lemma_encoded(raw, InstrHandler::Addu);
        let w = (a as u32).wrapping_add(b as u32);
        lemma_numbers(0, w, 0, 0);
        lemma_sets(m, raw, InstrHandler::Addu, crate::alu::word(w));
        assert(w == (low(a) + low(b)) % 0x1_0000_0000);
    } else if function(raw) == 34 {
        lemma_encoded(raw, InstrHandler::Sub);
        lemma_checked(m, raw, InstrHandler::Sub, signed_low(a) - signed_low(b), false, reg_d(raw));
    } else if function(raw) == 35 {
        lemma_encoded(raw, InstrHandler::Subu);
        let w = (a as u32).wrapping_sub(b as u32);
        lemma_numbers(0, w, 0, 0);
        lemma_sets(m, raw, InstrHandler::Subu, crate::alu::word(w));
        assert(w == (low(a) - low(b)) % 0x1_0000_0000);
    }
}

/// Law: so do those of doublewords.
pub proof fn law_double_sums<T: Tlb, C: MipsCache, B: BusDevice>(m: Machine<T, C, B>, raw: u32)
    requires
        opcode(raw) == 0,
    ensures
        ({
            let a = m.core.gpr@[reg_s(raw)];
            let b = m.core.gpr@[reg_t(raw)];
            let r = reg_d(raw);
            &&& function(raw) == 44 ==> sets_or_overflows(
                m,
                raw,
                r,
                signed(a) + signed(b),
                0x8000_0000_0000_0000,
            )
            &&& function(raw) == 45 ==> sets(m, raw, r, (a + b) % 0x1_0000_0000_0000_0000)
            &&& function(raw) == 46 ==> sets_or_overflows(
                m,
                raw,
                r,
                signed(a) - signed(b),
                0x8000_0000_0000_0000,
            )
            &&& function(raw) == 47 ==> sets(m, raw, r, (a - b) % 0x1_0000_0000_0000_0000)
        }),
{
    let a = m.core.gpr@[reg_s(raw)];
    let b = m.core.gpr@[reg_t(raw)];
    lemma_fields(raw);
    lemma_numbers(a, 0, 0, 0);
    lemma_numbers(b, 0, 0, 0);
    if function(raw) == 44 {
        lemma_encoded(raw, InstrHandler::Dadd);
        lemma_checked(m, raw, InstrHandler::Dadd, signed(a) + signed(b), true, reg_d(raw));
    } else if function(raw) == 45 {
        lemma_encoded(raw, InstrHandler::Daddu);
        lemma_sets(m, raw, InstrHandler::Daddu, a.wrapping_add(b));
    } else if function(raw) == 46 {
        lemma_encoded(raw, InstrHandler::Dsub);
        lemma_checked(m, raw, InstrHandler::Dsub, signed(a) - signed(b), true, reg_d(raw));
    } else if function(raw) == 47 {
        lemma_encoded(raw, InstrHandler::Dsubu);
        lemma_sets(m, raw, InstrHandler::Dsubu, a.wrapping_sub(b));
    }
}

/// Law: the additions with an immediate add it as a signed number.
pub proof fn law_immediate_sums<T: Tlb, C: MipsCache, B: BusDevice>(m: Machine<T, C, B>, raw: u32)
    ensures
        ({
            let a = m.core.gpr@[reg_s(raw)];
            let r = reg_t(raw);
            &&& opcode(raw) == 8 ==> sets_or_overflows(
                m,
                raw,
                r,
                signed_low(a) + offset(raw),
                0x8000_0000,
            )
            &&& opcode(raw) == 9 ==> sets(
                m,
                raw,
                r,
                extended((low(a) + offset(raw)) % 0x1_0000_0000),
            )
            &&& opcode(raw) == 24 ==> sets_or_overflows(
                m,
                raw,
                r,
                signed(a) + offset(raw),
                0x8000_0000_0000_0000,
            )
            &&& opcode(raw) == 25 ==> sets(
                m,
                raw,
                r,
                (a + offset(raw)) % 0x1_0000_0000_0000_0000,
            )
        }),
{
    let a = m.core.gpr@[reg_s(raw)];
    let d = alone(raw);
    lemma_fields(raw);
    lemma_numbers(a, d.imm, d.imm as i32, 0);
    if opcode(raw) == 8 {
        lemma_encoded(raw, InstrHandler::Addi);
        lemma_checked(m, raw, InstrHandler::Addi, signed_low(a) + offset(raw), false, reg_t(raw));
    } else if opcode(raw) == 9 {
        lemma_encoded(raw, InstrHandler::Addiu);
        let w = (a as u32).wrapping_add(d.imm);
        lemma_numbers(0, w, 0, 0);
        lemma_sets(m, raw, InstrHandler::Addiu, crate::alu::word(w));
        assert(w == (low(a) + offset(raw)) % 0x1_0000_0000);
    } else if opcode(raw) == 24 {
        lemma_encoded(raw, InstrHandler::Daddi);
        lemma_checked(m, raw, InstrHandler::Daddi, signed(a) + offset(raw), true, reg_t(raw));
    } else if opcode(raw) == 25 {
        lemma_encoded(raw, InstrHandler::Daddiu);
        lemma_sets(m, raw, InstrHandler::Daddiu, a.wrapping_add(d.spec_immu64()));
        assert(a.wrapping_add(d.spec_immu64()) == (a + offset(raw)) % 0x1_0000_0000_0000_0000);
    }
}

/// Law: `slt` and `slti` tell whether the first operand is less as a signed number,
/// `sltu` and `sltiu` whether it is less as an unsigned one. The immediate is taken as a
/// signed number of 64 bits in either case.
pub proof fn law_comparisons<T: Tlb, C: MipsCache, B: BusDevice>(m: Machine<T, C, B>, raw: u32)
    ensures
        ({
            let a = m.core.gpr@[reg_s(raw)];
            let b = m.core.gpr@[reg_t(raw)];
            let yes = |t: bool|
                if t {
                    1int
                } else {
                    0
                };
            &&& opcode(raw) == 0 && function(raw) == 42 ==> sets(
                m,
                raw,
                reg_d(raw),
                yes(signed(a) < signed(b)),
            )
            &&& opcode(raw) == 0 && function(raw) == 43 ==> sets(m, raw, reg_d(raw), yes(a < b))
            &&& opcode(raw) == 10 ==> sets(m, raw, reg_t(raw), yes(signed(a) < offset(raw)))
            &&& opcode(raw) == 11 ==> sets(
                m,
                raw,
                reg_t(raw),
                yes(a < in_64_bits(offset(raw))),
            )
        }),
{
    let a = m.core.gpr@[reg_s(raw)];
    let b = m.core.gpr@[reg_t(raw)];
    let d = alone(raw);
    lemma_fields(raw);
    lemma_numbers(a, 0, 0, 0);
    lemma_numbers(b, 0, d.imm as i32, 0);
    let one = |t: bool|
        if t {
            1u64
        } else {
            0
        };
    if opcode(raw) == 0 && function(raw) == 42 {
        lemma_encoded(raw, InstrHandler::Slt);
        lemma_sets(m, raw, InstrHandler::Slt, one((a as i64) < (b as i64)));
    } else if opcode(raw) == 0 && function(raw) == 43 {
        lemma_encoded(raw, InstrHandler::Sltu);
        lemma_sets(m, raw, InstrHandler::Sltu, one(a < b));
    } else if opcode(raw) == 10 {
        lemma_encoded(raw, InstrHandler::Slti);
        lemma_sets(m, raw, InstrHandler::Slti, one((a as i64) < d.imm as i32));
    } else if opcode(raw) == 11 {
        lemma_encoded(raw, InstrHandler::Sltiu);
        lemma_sets(m, raw, InstrHandler::Sltiu, one(a < d.spec_immu64()));
    }
}

/// Law: `slt` agrees with `slti` where the register holds the immediate, with `sltu`
/// where neither operand is negative, and a negative number is less than one that is not.
pub proof fn law_comparisons_agree<T: Tlb, C: MipsCache, B: BusDevice>(
    m: Machine<T, C, B>,
    slt: u32,
    other: u32,
)
    requires
        opcode(slt) == 0,
        function(slt) == 42,
        reg_d(slt) != 0,
        reg_s(slt) == reg_s(other),
    ensures
        ({
            let a = m.core.gpr@[reg_s(slt)];
            let b = m.core.gpr@[reg_t(slt)];
            let t = m.execute(alone(slt)).1.core.gpr@[reg_d(slt)];
            let n = m.execute(alone(other)).1.core;
            &&& opcode(other) == 10 && reg_t(other) != 0 && signed(b) == offset(other)
                ==> n.gpr@[reg_t(other)] == t
            &&& opcode(other) == 0 && function(other) == 43 && reg_d(other) != 0 && reg_t(other)
                == reg_t(slt) && signed(a) >= 0 && signed(b) >= 0 ==> n.gpr@[reg_d(other)] == t
            &&& signed(a) < 0 && signed(b) >= 0 ==> t == 1
            &&& signed(a) >= 0 && signed(b) < 0 ==> t == 0
            &&& t == 0 || t == 1
        }),
{
    law_comparisons(m, slt);
    law_comparisons(m, other);
}

proof fn lemma_logic(a: u64, b: u64, i: u64)
    by (bit_vector)
    ensures
        i < 64 ==> (((a & b) >> i) & 1 == 1 <==> (a >> i) & 1 == 1 && (b >> i) & 1 == 1),
        i < 64 ==> (((a | b) >> i) & 1 == 1 <==> (a >> i) & 1 == 1 || (b >> i) & 1 == 1),
        i < 64 ==> (((a ^ b) >> i) & 1 == 1 <==> ((a >> i) & 1 == 1) != ((b >> i) & 1 == 1)),
        i < 64 ==> ((!(a | b) >> i) & 1 == 1 <==> !((a >> i) & 1 == 1 || (b >> i) & 1 == 1)),
{
}

/// The two operands and the function of a logic instruction: its opcode, or 0 and its
/// function.
pub open spec fn is_logic(raw: u32) -> bool {
    ||| opcode(raw) == 0 && 36 <= function(raw) <= 39
    ||| 12 <= opcode(raw) <= 14
}

/// Law: the logic instructions work on each bit by itself: `and`, `or`, `xor` and `nor` on
/// two registers, `andi`, `ori` and `xori` on a register and the immediate, whose upper
/// bits are clear.
pub proof fn law_logic<T: Tlb, C: MipsCache, B: BusDevice>(m: Machine<T, C, B>, raw: u32, i: u64)
    requires
        is_logic(raw),
        i < 64,
    ensures
        ({
            let immediate = opcode(raw) != 0;
            let r = if immediate {
                reg_t(raw)
            } else {
                reg_d(raw)
            };
            let a = bit(m.core.gpr@[reg_s(raw)], i);
            let b = if immediate {
                bit(half(raw) as u64, i)
            } else {
                bit(m.core.gpr@[reg_t(raw)], i)
            };
            let k = if immediate {
                opcode(raw) + 24
            } else {
                function(raw)
            };
            let v = m.execute(alone(raw)).1.core.gpr@[r];
            &&& sets(m, raw, r, v as int)
            &&& r != 0 && k == 36 ==> bit(v, i) == (a && b)
            &&& r != 0 && k == 37 ==> bit(v, i) == (a || b)
            &&& r != 0 && k == 38 ==> bit(v, i) == (a != b)
            &&& r != 0 && k == 39 ==> bit(v, i) == !(a || b)
        }),
{
    let a = m.core.gpr@[reg_s(raw)];
    let b = m.core.gpr@[reg_t(raw)];
    let c = alone(raw).imm as u64;
    lemma_fields(raw);
    lemma_logic(a, b, i);
    lemma_logic(a, c, i);
    if opcode(raw) == 0 {
        if function(raw) == 36 {
            lemma_encoded(raw, InstrHandler::And);
            lemma_sets(m, raw, InstrHandler::And, a & b);
        } else if function(raw) == 37 {
            lemma_encoded(raw, InstrHandler::Or);
            lemma_sets(m, raw, InstrHandler::Or, a | b);
        } else if function(raw) == 38 {
            lemma_encoded(raw, InstrHandler::Xor);
            lemma_sets(m, raw, InstrHandler::Xor, a ^ b);
        } else {
            lemma_encoded(raw, InstrHandler::Nor);
            lemma_sets(m, raw, InstrHandler::Nor, !(a | b));
        }
    } else if opcode(raw) == 12 {
        lemma_encoded(raw, InstrHandler::Andi);
        lemma_sets(m, raw, InstrHandler::Andi, a & c);
    } else if opcode(raw) == 13 {
        lemma_encoded(raw, InstrHandler::Ori);
        lemma_sets(m, raw, InstrHandler::Ori, a | c);
    } else {
        lemma_encoded(raw, InstrHandler::Xori);
        lemma_sets(m, raw, InstrHandler::Xori, a ^ c);
    }
}

/// Law: `lui` loads its immediate above sixteen zeros, with its sign in the upper half.
pub proof fn law_upper_immediate<T: Tlb, C: MipsCache, B: BusDevice>(m: Machine<T, C, B>, raw: u32)
    requires
        opcode(raw) == 15,
    ensures
        sets(m, raw, reg_t(raw), extended(half(raw) * 0x1_0000)),
{
    lemma_fields(raw);
    lemma_encoded(raw, InstrHandler::Lui);
    let d = alone(raw);
    lemma_numbers(0, d.imm, 0, 0);
    lemma_sets(m, raw, InstrHandler::Lui, d.spec_immu64());
}

/// Law: `movz` moves where its second operand is zero, `movn` where it is not, and neither
/// touches anything otherwise.
pub proof fn law_conditional_moves<T: Tlb, C: MipsCache, B: BusDevice>(
    m: Machine<T, C, B>,
    raw: u32,
)
    requires
        opcode(raw) == 0,
        function(raw) == 10 || function(raw) == 11,
    ensures
        if (m.core.gpr@[reg_t(raw)] == 0) == (function(raw) == 10) {
            sets(m, raw, reg_d(raw), m.core.gpr@[reg_s(raw)] as int)
        } else {
            sets(m, raw, 0, 0)
        },
{
    lemma_fields(raw);
    let a = m.core.gpr@[reg_s(raw)];
    let h = if function(raw) == 10 {
        InstrHandler::Movz
    } else {
        InstrHandler::Movn
    };
    lemma_encoded(raw, h);
    if (m.core.gpr@[reg_t(raw)] == 0) == (function(raw) == 10) {
        lemma_sets(m, raw, h, a);
    } else {
        lemma_keeps(m, raw, h);
    }
}

proof fn lemma_shifts(b: u64, s: u64, i: u64)
    by (bit_vector)
    requires
        s < 64,
        i < 64,
    ensures
        i >= s ==> ((b << s) >> i) & 1 == (b >> ((i - s) as u64)) & 1,
        i < s ==> ((b << s) >> i) & 1 == 0,
        i + s < 64 ==> ((b >> s) >> i) & 1 == (b >> ((i + s) as u64)) & 1,
        i + s >= 64 ==> ((b >> s) >> i) & 1 == 0,
        i + s < 64 ==> ((((b as i64) >> s) as u64) >> i) & 1 == (b >> ((i + s) as u64)) & 1,
        i + s >= 64 ==> ((((b as i64) >> s) as u64) >> i) & 1 == (b >> 63) & 1,
        s < 32 && i < 32 && i >= s ==> (((b << s) as u32 as i32 as i64 as u64) >> i) & 1 == (b
            >> ((i - s) as u64)) & 1,
        s < 32 && i < s ==> (((b << s) as u32 as i32 as i64 as u64) >> i) & 1 == 0,
        s < 32 && i >= 32 ==> (((b << s) as u32 as i32 as i64 as u64) >> i) & 1 == (b >> ((31 - s) as u64)) & 1,
        s < 32 && i + s < 32 ==> ((((b as u32) >> s) as i32 as i64 as u64) >> i) & 1 == (b >> ((i + s) as u64)) & 1,
        0 < s < 32 && i + s >= 32 ==> ((((b as u32) >> s) as i32 as i64 as u64) >> i) & 1 == 0,
        s == 0 && i >= 32 ==> ((((b as u32) >> s) as i32 as i64 as u64) >> i) & 1 == (b >> 31) & 1,
        s < 32 && i + s < 32 ==> ((((b as i32) >> s) as i64 as u64) >> i) & 1 == (b >> ((i + s) as u64))
            & 1,
        s < 32 && i + s >= 32 ==> ((((b as i32) >> s) as i64 as u64) >> i) & 1 == (b >> 31) & 1,
{
}

/// The words of the shifts: by the amount in the word, by a register, by the amount in the
/// word and 32.
pub open spec fn is_shift(raw: u32) -> bool {
    let f = function(raw);
    &&& opcode(raw) == 0
    &&& f == 0 || f == 2 || f == 3 || f == 4 || f == 6 || f == 7 || f == 20 || f == 22 || f == 23
        || f == 56 || f == 58 || f == 59 || f == 60 || f == 62 || f == 63
}

/// Shifts of the lower half alone.
pub open spec fn is_word_shift(raw: u32) -> bool {
    function(raw) < 8
}

/// How far to shift, where the first source register holds `a`.
pub open spec fn distance(raw: u32, a: u64) -> int {
    let f = function(raw);
    if f < 4 || 56 <= f < 60 {
        amount(raw)
    } else if f >= 60 {
        amount(raw) + 32
    } else if f < 8 {
        a as int % 32
    } else {
        a as int % 64
    }
}

/// Bit `k` of `b`, or what is there in its place: nothing below, and above the sign if
/// there is one.
pub open spec fn bit_or(b: u64, k: int, width: int, sign: bool) -> bool {
    if k < 0 {
        false
    } else if k < width {
        bit(b, k as u64)
    } else {
        sign && bit(b, (width - 1) as u64)
    }
}

proof fn lemma_distance(a: u64, raw: u32)
    by (bit_vector)
    ensures
        a & 0x1F == a % 32,
        a & 0x3F == a % 64,
{
}

/// The result of a shift word.
spec fn shifted(raw: u32, a: u64, b: u64) -> (InstrHandler, u64) {
    let s = distance(raw, a) as u64;
    let f = function(raw);
    let left = (b << s) as u32 as i32 as i64 as u64;
    let right = ((b as u32) >> s) as i32 as i64 as u64;
    let signed = ((b as i32) >> s) as i64 as u64;
    if f == 0 {
        (InstrHandler::Sll, left)
    } else if f == 2 {
        (InstrHandler::Srl, right)
    } else if f == 3 {
        (InstrHandler::Sra, signed)
    } else if f == 4 {
        (InstrHandler::Sllv, left)
    } else if f == 6 {
        (InstrHandler::Srlv, right)
    } else if f == 7 {
        (InstrHandler::Srav, signed)
    } else if f == 20 {
        (InstrHandler::Dsllv, b << s)
    } else if f == 22 {
        (InstrHandler::Dsrlv, b >> s)
    } else if f == 23 {
        (InstrHandler::Dsrav, ((b as i64) >> s) as u64)
    } else if f == 56 {
        (InstrHandler::Dsll, b << s)
    } else if f == 58 {
        (InstrHandler::Dsrl, b >> s)
    } else if f == 59 {
        (InstrHandler::Dsra, ((b as i64) >> s) as u64)
    } else if f == 60 {
        (InstrHandler::Dsll32, b << s)
    } else if f == 62 {
        (InstrHandler::Dsrl32, b >> s)
    } else {
        (InstrHandler::Dsra32, ((b as i64) >> s) as u64)
    }
}

/// Law: a shift moves every bit of the second operand by its distance, to the left or to
/// the right. From the right come zeros, from the left zeros, or copies of the sign in an
/// arithmetic shift. The result of a shift of words is sign-extended.
pub proof fn law_shifts<T: Tlb, C: MipsCache, B: BusDevice>(m: Machine<T, C, B>, raw: u32, i: u64)
    requires
        is_shift(raw),
        i < 64,
    ensures
        ({
            let a = m.core.gpr@[reg_s(raw)];
            let b = m.core.gpr@[reg_t(raw)];
            let r = reg_d(raw);
            let v = m.execute(alone(raw)).1.core.gpr@[r];
            let s = distance(raw, a);
            let width = if is_word_shift(raw) {
                32int
            } else {
                64
            };
            let left = function(raw) % 4 == 0;
            let arithmetic = function(raw) % 4 == 3;
            &&& sets(m, raw, r, v as int)
            &&& r != 0 && i < width && left ==> bit(v, i) == bit_or(b, i - s, width, false)
            &&& r != 0 && i < width && !left ==> bit(v, i) == bit_or(b, i + s, width, arithmetic)
            &&& r != 0 && i >= width ==> bit(v, i) == bit(v, 31)
        }),
{
    let a = m.core.gpr@[reg_s(raw)];
    let b = m.core.gpr@[reg_t(raw)];
    lemma_fields(raw);
    lemma_distance(a, raw);
    let s = distance(raw, a) as u64;
    let (h, v) = shifted(raw, a, b);
    lemma_encoded(raw, h);
    lemma_sets(m, raw, h, v);
    lemma_shifts(b, s, i);
    lemma_shifts(b, s, 31);
}

/// What the multiplications and divisions leave: HI and LO.
pub open spec fn sets_hi_lo<T: Tlb, C: MipsCache, B: BusDevice>(
    m: Machine<T, C, B>,
    raw: u32,
) -> bool {
    let (s, n) = m.execute(alone(raw));
    &&& s == Step::Done(EXEC_COMPLETE)
    &&& n.core.gpr@ == m.core.gpr@
    &&& same_elsewhere(m, n)
    &&& goes_on(m.core, n.core)
}

proof fn lemma_hi_lo<T: Tlb, C: MipsCache, B: BusDevice>(
    m: Machine<T, C, B>,
    raw: u32,
    h: InstrHandler,
    hi: u64,
    lo: u64,
)
    requires
        encodes(raw, encoding(h)),
        alu_result(alone(raw), m.core.gpr@[reg_s(raw)], m.core.gpr@[reg_t(raw)]) is None,
        hi_lo_result(
            h,
            m.core.gpr@[reg_s(raw)],
            m.core.gpr@[reg_t(raw)],
            m.core.hi,
            m.core.lo,
        ) == Some((hi, lo)),
    ensures
        sets_hi_lo(m, raw),
        m.execute(alone(raw)).1.core.hi == hi,
        m.execute(alone(raw)).1.core.lo == lo,
{
    reveal(Machine::execute);
    lemma_fields(raw);
    lemma_encoded(raw, h);
}

proof fn lemma_same_bits(p: i64)
    by (bit_vector)
    ensures
        (p >> 32) as u32 == ((p as u64) >> 32) as u32,
        p as u32 == (p as u64) as u32,
{
}

proof fn lemma_same_upper_half(x: i128, k: u128)
    by (bit_vector)
    requires
        k == 64,
    ensures
        (x >> k) as u128 as u64 == ((x as u128) >> k) as u64,
        ((x as u128) >> k) as u64 == (x as u128) / 0x1_0000_0000_0000_0000u128,
        (x as u128) as u64 == (x as u128) % 0x1_0000_0000_0000_0000u128,
        x >= 0 ==> (x as u128) == x,
        x < 0 ==> !(x as u128) == -(x + 1),
{
}

proof fn lemma_halves(p: i64, q: u64)
    ensures
        p == ((p >> 32) as u32 as i32) * 0x1_0000_0000 + (p as u32),
        q == ((q >> 32) as u32) * 0x1_0000_0000 + (q as u32),
{
    vstd::arithmetic::power2::lemma2_to64();
    lemma_same_bits(p);
    let u = p as u64;
    lemma_numbers(u, 0, 0, p);
    lemma_numbers(q, 0, 0, 0);
    vstd::bits::lemma_u64_shr_is_div(u, 32);
    vstd::bits::lemma_u64_shr_is_div(q, 32);
    lemma_numbers(u >> 32, (u >> 32) as u32, 0, 0);
    lemma_numbers(q >> 32, 0, 0, 0);
}

proof fn lemma_double_halves(x: i128, y: u128)
    ensures
        x == ((x >> 64) as u128 as u64 as i64) * 0x1_0000_0000_0000_0000 + (x as u128 as u64),
        y == ((y >> 64) as u64) * 0x1_0000_0000_0000_0000 + (y as u64),
{
    vstd::arithmetic::power2::lemma2_to64();
    vstd::arithmetic::power2::lemma2_to64_rest();
    lemma_same_upper_half(x, 64);
    lemma_same_upper_half(y as i128, 64);
    lemma_cast(y);
    let u = x as u128;
    let h = (u >> 64) as u64;
    lemma_numbers(h, 0, 0, 0);
    assert(!u == u128::MAX - u) by (bit_vector);
}

proof fn lemma_cast(y: u128)
    by (bit_vector)
    ensures
        (y as i128) as u128 == y,
{
}

proof fn lemma_word_halves(p: i64, q: u64)
    ensures
        ({
            let hi = (p >> 32) as u32 as i32 as i64 as u64;
            let lo = p as u32 as i32 as i64 as u64;
            &&& signed(hi) * 0x1_0000_0000 + low(lo) == p
            &&& hi == extended(low(hi)) && lo == extended(low(lo))
        }),
        ({
            let hi = (q >> 32) as u32 as i32 as i64 as u64;
            let lo = q as u32 as i32 as i64 as u64;
            &&& low(hi) * 0x1_0000_0000 + low(lo) == q
            &&& hi == extended(low(hi)) && lo == extended(low(lo))
        }),
{
    lemma_halves(p, q);
    lemma_numbers(0, (p >> 32) as u32, 0, 0);
    lemma_numbers(0, p as u32, 0, 0);
    lemma_numbers(0, (q >> 32) as u32, 0, 0);
    lemma_numbers(0, q as u32, 0, 0);
}

/// Law: a multiplication of words leaves the whole product: its lower half in LO, and its
/// upper half in HI, each sign-extended.
pub proof fn law_word_products<T: Tlb, C: MipsCache, B: BusDevice>(m: Machine<T, C, B>, raw: u32)
    requires
        opcode(raw) == 0,
        function(raw) == 24 || function(raw) == 25,
    ensures
        ({
            let a = m.core.gpr@[reg_s(raw)];
            let b = m.core.gpr@[reg_t(raw)];
            let n = m.execute(alone(raw)).1.core;
            &&& sets_hi_lo(m, raw)
            &&& function(raw) == 24 ==> signed(n.hi) * 0x1_0000_0000 + low(n.lo) == signed_low(a)
                * signed_low(b)
            &&& function(raw) == 25 ==> low(n.hi) * 0x1_0000_0000 + low(n.lo) == low(a) * low(b)
            &&& n.hi == extended(low(n.hi)) && n.lo == extended(low(n.lo))
        }),
{
    let a = m.core.gpr@[reg_s(raw)];
    let b = m.core.gpr@[reg_t(raw)];
    lemma_fields(raw);
    lemma_numbers(a, 0, 0, 0);
    lemma_numbers(b, 0, 0, 0);
    if function(raw) == 24 {
        lemma_encoded(raw, InstrHandler::Mult);
        lemma_product(a as i32 as int, b as i32 as int, 0x8000_0000);
        let p = (a as i32 as i64 * b as i32 as i64) as i64;
        let hi = (p >> 32) as u32 as i32 as i64 as u64;
        let lo = p as u32 as i32 as i64 as u64;
        lemma_hi_lo(m, raw, InstrHandler::Mult, hi, lo);
        lemma_word_halves(p, 0);
    } else {
        lemma_encoded(raw, InstrHandler::Multu);
        lemma_product(a as u32 as int, b as u32 as int, 0xFFFF_FFFF);
        let p = ((a as u32) as u64 * (b as u32) as u64) as u64;
        let hi = (p >> 32) as u32 as i32 as i64 as u64;
        let lo = p as u32 as i32 as i64 as u64;
        lemma_hi_lo(m, raw, InstrHandler::Multu, hi, lo);
        lemma_word_halves(0, p);
    }
}

/// Law: so does one of doublewords.
pub proof fn law_double_products<T: Tlb, C: MipsCache, B: BusDevice>(m: Machine<T, C, B>, raw: u32)
    requires
        opcode(raw) == 0,
        function(raw) == 28 || function(raw) == 29,
    ensures
        ({
            let a = m.core.gpr@[reg_s(raw)];
            let b = m.core.gpr@[reg_t(raw)];
            let n = m.execute(alone(raw)).1.core;
            &&& sets_hi_lo(m, raw)
            &&& function(raw) == 28 ==> signed(n.hi) * 0x1_0000_0000_0000_0000 + n.lo == signed(a)
                * signed(b)
            &&& function(raw) == 29 ==> n.hi * 0x1_0000_0000_0000_0000 + n.lo == a * b
        }),
{
    let a = m.core.gpr@[reg_s(raw)];
    let b = m.core.gpr@[reg_t(raw)];
    lemma_fields(raw);
    lemma_numbers(a, 0, 0, 0);
    lemma_numbers(b, 0, 0, 0);
    if function(raw) == 28 {
        lemma_encoded(raw, InstrHandler::Dmult);
        lemma_product(a as i64 as int, b as i64 as int, 0x8000_0000_0000_0000);
        let p = (a as i64 as i128 * b as i64 as i128) as i128;
        let hi = (p >> 64) as u128 as u64;
        lemma_hi_lo(m, raw, InstrHandler::Dmult, hi, p as u128 as u64);
        lemma_double_halves(p, 0);
        lemma_numbers(hi, 0, 0, 0);
    } else {
        lemma_encoded(raw, InstrHandler::Dmultu);
        lemma_product(a as int, b as int, 0xFFFF_FFFF_FFFF_FFFF);
        let p = (a as u128 * b as u128) as u128;
        lemma_hi_lo(m, raw, InstrHandler::Dmultu, (p >> 64) as u64, p as u64);
        lemma_double_halves(0, p);
    }
}

proof fn lemma_product(x: int, y: int, k: int)
    by (nonlinear_arith)
    requires
        -k <= x <= k,
        -k <= y <= k,
        k >= 0,
    ensures
        -(k * k) <= x * y <= k * k,
        x >= 0 && y >= 0 ==> x * y >= 0,
{
}

/// `q` and `r` are quotient and remainder of `x` by `y`: the remainder is less than the
/// divisor, and has the sign of the dividend.
pub open spec fn divides(x: int, y: int, q: int, r: int) -> bool {
    let size = if y < 0 {
        -y
    } else {
        y
    };
    &&& q * y + r == x
    &&& -size < r < size
    &&& x >= 0 ==> r >= 0
    &&& x <= 0 ==> r <= 0
}

/// Law: the divisions leave the quotient in LO and the remainder in HI, those of words
/// sign-extended. A division by zero changes neither. Of the one signed division whose
/// quotient does not fit, the word division leaves the dividend, the other nothing new.
pub proof fn law_quotients<T: Tlb, C: MipsCache, B: BusDevice>(m: Machine<T, C, B>, raw: u32)
    requires
        opcode(raw) == 0,
    ensures
        ({
            let a = m.core.gpr@[reg_s(raw)];
            let b = m.core.gpr@[reg_t(raw)];
            let n = m.execute(alone(raw)).1.core;
            let f = function(raw);
            let same = n.hi == m.core.hi && n.lo == m.core.lo;
            &&& f == 26 || f == 27 || f == 30 || f == 31 ==> sets_hi_lo(m, raw)
            &&& f == 26 && low(b) == 0 ==> same
            &&& f == 26 && low(b) != 0 ==> {
                if signed_low(a) == -0x8000_0000 && signed_low(b) == -1 {
                    signed(n.lo) == -0x8000_0000 && n.hi == 0
                } else {
                    divides(signed_low(a), signed_low(b), signed(n.lo), signed(n.hi))
                }
            }
            &&& f == 27 && low(b) == 0 ==> same
            &&& f == 27 && low(b) != 0 ==> {
                &&& divides(low(a), low(b), low(n.lo), low(n.hi))
                &&& n.lo == extended(low(n.lo)) && n.hi == extended(low(n.hi))
            }
            &&& f == 30 && (b == 0 || (signed(a) == -0x8000_0000_0000_0000 && signed(b) == -1))
                ==> same
            &&& f == 30 && b != 0 && !(signed(a) == -0x8000_0000_0000_0000 && signed(b) == -1)
                ==> divides(signed(a), signed(b), signed(n.lo), signed(n.hi))
            &&& f == 31 && b == 0 ==> same
            &&& f == 31 && b != 0 ==> divides(a as int, b as int, n.lo as int, n.hi as int)
        }),
{
    let a = m.core.gpr@[reg_s(raw)];
    let b = m.core.gpr@[reg_t(raw)];
    let hi0 = m.core.hi;
    let lo0 = m.core.lo;
    lemma_fields(raw);
    lemma_numbers(a, 0, 0, 0);
    lemma_numbers(b, 0, 0, 0);
    let f = function(raw);
    if f == 26 {
        lemma_encoded(raw, InstrHandler::Div);
        let (hi, lo) = hi_lo_result(InstrHandler::Div, a, b, hi0, lo0)->0;
        lemma_hi_lo(m, raw, InstrHandler::Div, hi, lo);
        lemma_numbers(lo, 0, i32::MIN, 0);
        if low(b) != 0 && !(a as i32 == i32::MIN && b as i32 == -1) {
            let x = a as i32 as int;
            let y = b as i32 as int;
            law_division_is_exact(x, y);
            lemma_division_fits(x, y, 0x8000_0000);
            let q = quotient(x, y) as i32;
            let r = remainder(x, y) as i32;
            lemma_numbers(lo, 0, q, 0);
            lemma_numbers(hi, 0, r, 0);
        }
    } else if f == 27 {
        lemma_encoded(raw, InstrHandler::Divu);
        let (hi, lo) = hi_lo_result(InstrHandler::Divu, a, b, hi0, lo0)->0;
        lemma_hi_lo(m, raw, InstrHandler::Divu, hi, lo);
        if low(b) != 0 {
            let x = a as u32;
            let y = b as u32;
            lemma_numbers(lo, x / y, 0, 0);
            lemma_numbers(hi, x % y, 0, 0);
            lemma_unsigned_division(x as int, y as int);
        }
    } else if f == 30 {
        lemma_encoded(raw, InstrHandler::Ddiv);
        let (hi, lo) = hi_lo_result(InstrHandler::Ddiv, a, b, hi0, lo0)->0;
        lemma_hi_lo(m, raw, InstrHandler::Ddiv, hi, lo);
        if b != 0 && !(a as i64 == i64::MIN && b as i64 == -1) {
            let x = a as i64 as int;
            let y = b as i64 as int;
            law_division_is_exact(x, y);
            lemma_division_fits(x, y, 0x8000_0000_0000_0000);
            lemma_numbers(lo, 0, 0, quotient(x, y) as i64);
            lemma_numbers(hi, 0, 0, remainder(x, y) as i64);
        }
    } else if f == 31 {
        lemma_encoded(raw, InstrHandler::Ddivu);
        let (hi, lo) = hi_lo_result(InstrHandler::Ddivu, a, b, hi0, lo0)->0;
        lemma_hi_lo(m, raw, InstrHandler::Ddivu, hi, lo);
        if b != 0 {
            lemma_unsigned_division(a as int, b as int);
        }
    }
}

proof fn lemma_unsigned_division(x: int, y: int)
    requires
        x >= 0,
        y > 0,
    ensures
        divides(x, y, x / y, x % y),
{
    vstd::arithmetic::div_mod::lemma_fundamental_div_mod(x, y);
    vstd::arithmetic::div_mod::lemma_mod_bound(x, y);
    assert((x / y) * y == y * (x / y)) by (nonlinear_arith);
}

/// Law: HI and LO are read with `mfhi` and `mflo`, and set with `mthi` and `mtlo`.
pub proof fn law_hi_lo_moves<T: Tlb, C: MipsCache, B: BusDevice>(m: Machine<T, C, B>, raw: u32)
    requires
        opcode(raw) == 0,
    ensures
        ({
            let f = function(raw);
            let n = m.execute(alone(raw)).1.core;
            &&& f == 16 ==> sets(m, raw, reg_d(raw), m.core.hi as int)
            &&& f == 18 ==> sets(m, raw, reg_d(raw), m.core.lo as int)
            &&& f == 17 || f == 19 ==> sets_hi_lo(m, raw)
            &&& f == 17 ==> n.hi == m.core.gpr@[reg_s(raw)] && n.lo == m.core.lo
            &&& f == 19 ==> n.lo == m.core.gpr@[reg_s(raw)] && n.hi == m.core.hi
        }),
{
    reveal(Machine::execute);
    lemma_fields(raw);
    let f = function(raw);
    if f == 16 {
        lemma_encoded(raw, InstrHandler::Mfhi);
    } else if f == 17 {
        lemma_encoded(raw, InstrHandler::Mthi);
    } else if f == 18 {
        lemma_encoded(raw, InstrHandler::Mflo);
    } else if f == 19 {
        lemma_encoded(raw, InstrHandler::Mtlo);
    }
}

} // verus!

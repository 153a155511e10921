//! What the register instructions compute: arithmetic, logic, shifts, multiplication,
//! division, trap and branch conditions. All of it is on plain values.
use vstd::prelude::*;

use crate::instr::{DecodedInstr, InstrHandler};

verus! {

/// Outcome of an arithmetic or logic instruction.
#[derive(Debug, Clone, Copy, PartialEq, Eq, Structural)]
pub enum Computed {
    /// The destination takes this value.
    Value(u64),
    /// The destination stays as it is.
    Keep,
    /// The signed result does not fit: an overflow exception.
    Overflow,
}

/// A 32-bit word, sign-extended.
pub open spec fn word(v: u32) -> u64 {
    v as i32 as i64 as u64
}

/// A signed 32-bit result, sign-extended, or an overflow.
pub open spec fn checked_word(r: int) -> Computed {
    if i32::MIN <= r <= i32::MAX {
        Computed::Value(r as i32 as i64 as u64)
    } else {
        Computed::Overflow
    }
}

/// A signed 64-bit result, or an overflow.
pub open spec fn checked_double(r: int) -> Computed {
    if i64::MIN <= r <= i64::MAX {
        Computed::Value(r as i64 as u64)
    } else {
        Computed::Overflow
    }
}

pub open spec fn flag(b: bool) -> Computed {
    Computed::Value(
        if b {
            1
        } else {
            0
        },
    )
}

/// What instruction `d` computes from the contents `a` of its first source register
/// and `b` of its second; nothing where it is not an arithmetic or logic instruction.
pub open spec fn alu_result(d: DecodedInstr, a: u64, b: u64) -> Option<Computed> {
    let imm = d.spec_immu64();
    let sa = d.sa;
    match d.handler {
        InstrHandler::Sll => Some(Computed::Value(word((b << sa) as u32))),
        InstrHandler::Srl => Some(Computed::Value(word((b as u32) >> sa))),
        InstrHandler::Sra => Some(Computed::Value(((b as i32) >> sa) as i64 as u64)),
        InstrHandler::Sllv => Some(Computed::Value(word((b << (a & 0x1F)) as u32))),
        InstrHandler::Srlv => Some(Computed::Value(word((b as u32) >> (a & 0x1F)))),
        InstrHandler::Srav => Some(Computed::Value(((b as i32) >> (a & 0x1F)) as i64 as u64)),
        InstrHandler::Dsll => Some(Computed::Value(b << sa)),
        InstrHandler::Dsrl => Some(Computed::Value(b >> sa)),
        InstrHandler::Dsra => Some(Computed::Value(((b as i64) >> sa) as u64)),
        InstrHandler::Dsll32 => Some(Computed::Value(b << (sa + 32))),
        InstrHandler::Dsrl32 => Some(Computed::Value(b >> (sa + 32))),
        InstrHandler::Dsra32 => Some(Computed::Value(((b as i64) >> (sa + 32)) as u64)),
        InstrHandler::Dsllv => Some(Computed::Value(b << (a & 0x3F))),
        InstrHandler::Dsrlv => Some(Computed::Value(b >> (a & 0x3F))),
        InstrHandler::Dsrav => Some(Computed::Value(((b as i64) >> (a & 0x3F)) as u64)),
        InstrHandler::Add => Some(checked_word(a as i32 + b as i32)),
        InstrHandler::Addu => Some(Computed::Value(word((a as u32).wrapping_add(b as u32)))),
        InstrHandler::Sub => Some(checked_word(a as i32 - b as i32)),
        InstrHandler::Subu => Some(Computed::Value(word((a as u32).wrapping_sub(b as u32)))),
        InstrHandler::Dadd => Some(checked_double(a as i64 + b as i64)),
        InstrHandler::Daddu => Some(Computed::Value(a.wrapping_add(b))),
        InstrHandler::Dsub => Some(checked_double(a as i64 - b as i64)),
        InstrHandler::Dsubu => Some(Computed::Value(a.wrapping_sub(b))),
        InstrHandler::And => Some(Computed::Value(a & b)),
        InstrHandler::Or => Some(Computed::Value(a | b)),
        InstrHandler::Xor => Some(Computed::Value(a ^ b)),
        InstrHandler::Nor => Some(Computed::Value(!(a | b))),
        InstrHandler::Slt => Some(flag((a as i64) < (b as i64))),
        InstrHandler::Sltu => Some(flag(a < b)),
        InstrHandler::Movz => Some(
            if b == 0 {
                Computed::Value(a)
            } else {
                Computed::Keep
            },
        ),
        InstrHandler::Movn => Some(
            if b != 0 {
                Computed::Value(a)
            } else {
                Computed::Keep
            },
        ),
        InstrHandler::Addi => Some(checked_word(a as i32 + d.imm as i32)),
        InstrHandler::Addiu => Some(Computed::Value(word((a as u32).wrapping_add(d.imm)))),
        InstrHandler::Daddi => Some(checked_double(a as i64 + d.imm as i32)),
        InstrHandler::Daddiu => Some(Computed::Value(a.wrapping_add(imm))),
        InstrHandler::Slti => Some(flag((a as i64) < d.imm as i32)),
        InstrHandler::Sltiu => Some(flag(a < imm)),
        InstrHandler::Andi => Some(Computed::Value(a & d.imm as u64)),
        InstrHandler::Ori => Some(Computed::Value(a | d.imm as u64)),
        InstrHandler::Xori => Some(Computed::Value(a ^ d.imm as u64)),
        InstrHandler::Lui => Some(Computed::Value(imm)),
        _ => None,
    }
}

/// The immediate instructions write their second register field, the others their
/// third.
pub open spec fn alu_dest(d: DecodedInstr) -> u8 {
    match d.handler {
        InstrHandler::Addi | InstrHandler::Addiu | InstrHandler::Daddi | InstrHandler::Daddiu
        | InstrHandler::Slti | InstrHandler::Sltiu | InstrHandler::Andi | InstrHandler::Ori
        | InstrHandler::Xori | InstrHandler::Lui => d.rt,
        _ => d.rd,
    }
}

pub fn alu_dest_of(d: &DecodedInstr) -> (r: u8)
    ensures
        r == alu_dest(*d),
{
    match d.handler {
        InstrHandler::Addi | InstrHandler::Addiu | InstrHandler::Daddi | InstrHandler::Daddiu
        | InstrHandler::Slti | InstrHandler::Sltiu | InstrHandler::Andi | InstrHandler::Ori
        | InstrHandler::Xori | InstrHandler::Lui => d.rt,
        _ => d.rd,
    }
}

proof fn lemma_shift_amounts(a: u64)
    ensures
        a & 0x1F < 32,
        a & 0x3F < 64,
{
    crate::bits::lemma_bits_of_double(a);
}

fn flag_value(b: bool) -> (r: Computed)
    ensures
        r == flag(b),
{
    Computed::Value(
        if b {
            1
        } else {
            0
        },
    )
}

fn checked_word_of(r: i64) -> (c: Computed)
    ensures
        c == checked_word(r as int),
{
    if r >= i32::MIN as i64 && r <= i32::MAX as i64 {
        Computed::Value(r as i32 as i64 as u64)
    } else {
        Computed::Overflow
    }
}

fn checked_double_of(r: Option<i64>) -> (c: Computed)
    ensures
        c == match r {
            Some(v) => Computed::Value(v as u64),
            None => Computed::Overflow,
        },
{
    match r {
        Some(v) => Computed::Value(v as u64),
        None => Computed::Overflow,
    }
}

/// Arithmetic, logic and shifts.
pub fn compute(d: &DecodedInstr, a: u64, b: u64) -> (r: Option<Computed>)
    requires
        d.sa < 32,
    ensures
        r == alu_result(*d, a, b),
{
    proof {
        lemma_shift_amounts(a);
    }
    let sa: u8 = d.sa;
    let five: u64 = a & 0x1F;
    let six: u64 = a & 0x3F;
    match d.handler {
        InstrHandler::Sll => Some(Computed::Value((b << sa) as u32 as i32 as i64 as u64)),
        InstrHandler::Srl => Some(Computed::Value(((b as u32) >> sa) as i32 as i64 as u64)),
        InstrHandler::Sra => Some(Computed::Value(((b as i32) >> sa) as i64 as u64)),
        InstrHandler::Sllv => Some(Computed::Value((b << five) as u32 as i32 as i64 as u64)),
        InstrHandler::Srlv => Some(Computed::Value(((b as u32) >> five) as i32 as i64 as u64)),
        InstrHandler::Srav => Some(Computed::Value(((b as i32) >> five) as i64 as u64)),
        InstrHandler::Dsll => Some(Computed::Value(b << sa)),
        InstrHandler::Dsrl => Some(Computed::Value(b >> sa)),
        InstrHandler::Dsra => Some(Computed::Value(((b as i64) >> sa) as u64)),
        InstrHandler::Dsll32 => Some(Computed::Value(b << (sa + 32))),
        InstrHandler::Dsrl32 => Some(Computed::Value(b >> (sa + 32))),
        InstrHandler::Dsra32 => Some(Computed::Value(((b as i64) >> (sa + 32)) as u64)),
        InstrHandler::Dsllv => Some(Computed::Value(b << six)),
        InstrHandler::Dsrlv => Some(Computed::Value(b >> six)),
        InstrHandler::Dsrav => Some(Computed::Value(((b as i64) >> six) as u64)),
        InstrHandler::Add => Some(checked_word_of(a as i32 as i64 + b as i32 as i64)),
        InstrHandler::Addu => Some(
            Computed::Value((a as u32).wrapping_add(b as u32) as i32 as i64 as u64),
        ),
        InstrHandler::Sub => Some(checked_word_of(a as i32 as i64 - b as i32 as i64)),
        InstrHandler::Subu => Some(
            Computed::Value((a as u32).wrapping_sub(b as u32) as i32 as i64 as u64),
        ),
        InstrHandler::Dadd => Some(checked_double_of((a as i64).checked_add(b as i64))),
        InstrHandler::Daddu => Some(Computed::Value(a.wrapping_add(b))),
        InstrHandler::Dsub => Some(checked_double_of((a as i64).checked_sub(b as i64))),
        InstrHandler::Dsubu => Some(Computed::Value(a.wrapping_sub(b))),
        InstrHandler::And => Some(Computed::Value(a & b)),
        InstrHandler::Or => Some(Computed::Value(a | b)),
        InstrHandler::Xor => Some(Computed::Value(a ^ b)),
        InstrHandler::Nor => Some(Computed::Value(!(a | b))),
        InstrHandler::Slt => Some(flag_value((a as i64) < (b as i64))),
        InstrHandler::Sltu => Some(flag_value(a < b)),
        InstrHandler::Movz => Some(
            if b == 0 {
                Computed::Value(a)
            } else {
                Computed::Keep
            },
        ),
        InstrHandler::Movn => Some(
            if b != 0 {
                Computed::Value(a)
            } else {
                Computed::Keep
            },
        ),
        InstrHandler::Addi => Some(checked_word_of(a as i32 as i64 + d.imms64())),
        InstrHandler::Addiu => Some(
            Computed::Value((a as u32).wrapping_add(d.imm) as i32 as i64 as u64),
        ),
        InstrHandler::Daddi => Some(checked_double_of((a as i64).checked_add(d.imms64()))),
        InstrHandler::Daddiu => Some(Computed::Value(a.wrapping_add(d.immu64()))),
        InstrHandler::Slti => Some(flag_value((a as i64) < d.imms64())),
        InstrHandler::Sltiu => Some(flag_value(a < d.immu64())),
        InstrHandler::Andi => Some(Computed::Value(a & d.immi64())),
        InstrHandler::Ori => Some(Computed::Value(a | d.immi64())),
        InstrHandler::Xori => Some(Computed::Value(a ^ d.immi64())),
        InstrHandler::Lui => Some(Computed::Value(d.immu64())),
        _ => None,
    }
}

/// Quotient rounded toward zero.
pub open spec fn quotient(x: int, y: int) -> int {
    if x >= 0 && y > 0 {
        x / y
    } else if x < 0 && y < 0 {
        (-x) / (-y)
    } else if x < 0 {
        -((-x) / y)
    } else {
        -(x / (-y))
    }
}

/// Remainder of the division rounded toward zero.
pub open spec fn remainder(x: int, y: int) -> int {
    x - quotient(x, y) * y
}

/// What a multiplication or division leaves in HI and LO (in this order), given what
/// they held before; nothing where `h` is neither.
///
/// A division by zero leaves them alone, and so does the one signed doubleword
/// division whose quotient does not fit. The word division of that sort wraps.
pub open spec fn hi_lo_result(h: InstrHandler, a: u64, b: u64, hi: u64, lo: u64) -> Option<
    (u64, u64),
> {
    match h {
        InstrHandler::Mult => {
            let p = (a as i32 as i64 * b as i32 as i64) as i64;
            Some((word((p >> 32) as u32), word(p as u32)))
        },
        InstrHandler::Multu => {
            let p = ((a as u32) as u64 * (b as u32) as u64) as u64;
            Some((word((p >> 32) as u32), word(p as u32)))
        },
        InstrHandler::Div => {
            let x = a as i32;
            let y = b as i32;
            if y == 0 {
                Some((hi, lo))
            } else if x == i32::MIN && y == -1 {
                Some((0, i32::MIN as i64 as u64))
            } else {
                Some(
                    (
                        remainder(x as int, y as int) as i32 as i64 as u64,
                        quotient(x as int, y as int) as i32 as i64 as u64,
                    ),
                )
            }
        },
        InstrHandler::Divu => {
            let x = a as u32;
            let y = b as u32;
            if y == 0 {
                Some((hi, lo))
            } else {
                Some((word(x % y), word(x / y)))
            }
        },
        InstrHandler::Dmult => {
            let p = (a as i64 as i128 * b as i64 as i128) as i128;
            Some(((p >> 64) as u128 as u64, p as u128 as u64))
        },
        InstrHandler::Dmultu => {
            let p = (a as u128 * b as u128) as u128;
            Some(((p >> 64) as u64, p as u64))
        },
        InstrHandler::Ddiv => {
            let x = a as i64;
            let y = b as i64;
            if y == 0 || (x == i64::MIN && y == -1) {
                Some((hi, lo))
            } else {
                Some(
                    (
                        remainder(x as int, y as int) as i64 as u64,
                        quotient(x as int, y as int) as i64 as u64,
                    ),
                )
            }
        },
        InstrHandler::Ddivu => if b == 0 {
            Some((hi, lo))
        } else {
            Some((a % b, a / b))
        },
        _ => None,
    }
}

proof fn lemma_product_bounds(x: int, y: int, m: int)
    by (nonlinear_arith)
    requires
        -m <= x <= m,
        -m <= y <= m,
        m >= 0,
    ensures
        -(m * m) <= x * y <= m * m,
{
}

/// The standard library's truncating division is the one meant here.
proof fn lemma_division(x: int, y: int)
    requires
        y != 0,
    ensures
        x == 0 ==> quotient(x, y) == 0 && remainder(x, y) == 0,
        x > 0 && y > 0 ==> quotient(x, y) == x / y && remainder(x, y) == x % y,
        x < 0 && y < 0 ==> quotient(x, y) == (x * -1) / (y * -1) && remainder(x, y) == ((x * -1) % (
        y * -1)) * -1,
        x < 0 && y > 0 ==> quotient(x, y) == ((x * -1) / y) * -1 && remainder(x, y) == ((x * -1)
            % y) * -1,
        x > 0 && y < 0 ==> quotient(x, y) == (x / (y * -1)) * -1 && remainder(x, y) == x % (y * -1),
{
    let ax = if x < 0 {
        -x
    } else {
        x
    };
    let ay = if y < 0 {
        -y
    } else {
        y
    };
    vstd::arithmetic::div_mod::lemma_fundamental_div_mod(ax, ay);
    let q = ax / ay;
    assert((-q) * y == -(q * y)) by (nonlinear_arith);
    assert(q * (-y) == -(q * y)) by (nonlinear_arith);
    assert(ay * q == q * ay) by (nonlinear_arith);
    if x == 0 {
        vstd::arithmetic::div_mod::lemma_div_of0(ay);
        assert(0 * y == 0);
    }
}

/// Multiplication and division.
pub fn multiply_divide(h: InstrHandler, a: u64, b: u64, hi: u64, lo: u64) -> (r: Option<(u64, u64)>)
    ensures
        r == hi_lo_result(h, a, b, hi, lo),
{
    match h {
        InstrHandler::Mult => {
            let x: i64 = a as i32 as i64;
            let y: i64 = b as i32 as i64;
            proof {
                lemma_product_bounds(x as int, y as int, 0x8000_0000);
            }
            let p: i64 = x * y;
            Some(((p >> 32) as u32 as i32 as i64 as u64, p as u32 as i32 as i64 as u64))
        },
        InstrHandler::Multu => {
            let x: u64 = a as u32 as u64;
            let y: u64 = b as u32 as u64;
            proof {
                lemma_product_bounds(x as int, y as int, 0xFFFF_FFFF);
                vstd::arithmetic::mul::lemma_mul_nonnegative(x as int, y as int);
            }
            let p: u64 = x * y;
            Some(((p >> 32) as u32 as i32 as i64 as u64, p as u32 as i32 as i64 as u64))
        },
        InstrHandler::Div => {
            let x: i32 = a as i32;
            let y: i32 = b as i32;
            if y == 0 {
                return Some((hi, lo));
            }
            proof {
                lemma_division(x as int, y as int);
            }
            match (x.checked_div(y), x.checked_rem(y)) {
                (Some(q), Some(r)) => {
                    assert(x == i32::MIN && y == -1 ==> false);
                    Some((r as i64 as u64, q as i64 as u64))
                },
                _ => {
                    assert(x == i32::MIN && y == -1) by {
                        if !(x == i32::MIN && y == -1) {
                            lemma_division_fits(x as int, y as int, 0x8000_0000);
                        }
                    }
                    Some((0, i32::MIN as i64 as u64))
                },
            }
        },
        InstrHandler::Divu => {
            let x: u32 = a as u32;
            let y: u32 = b as u32;
            if y == 0 {
                Some((hi, lo))
            } else {
                Some(((x % y) as i32 as i64 as u64, (x / y) as i32 as i64 as u64))
            }
        },
        InstrHandler::Dmult => {
            let x: i128 = a as i64 as i128;
            let y: i128 = b as i64 as i128;
            proof {
                lemma_product_bounds(x as int, y as int, 0x8000_0000_0000_0000);
            }
            let p: i128 = x * y;
            Some(((p >> 64) as u128 as u64, p as u128 as u64))
        },
        InstrHandler::Dmultu => {
            let x: u128 = a as u128;
            let y: u128 = b as u128;
            proof {
                lemma_product_bounds(x as int, y as int, 0xFFFF_FFFF_FFFF_FFFF);
                vstd::arithmetic::mul::lemma_mul_nonnegative(x as int, y as int);
            }
            let p: u128 = x * y;
            Some(((p >> 64) as u64, p as u64))
        },
        InstrHandler::Ddiv => {
            let x: i64 = a as i64;
            let y: i64 = b as i64;
            if y == 0 {
                return Some((hi, lo));
            }
            proof {
                lemma_division(x as int, y as int);
            }
            match (x.checked_div(y), x.checked_rem(y)) {
                (Some(q), Some(r)) => {
                    assert(x == i64::MIN && y == -1 ==> false);
                    Some((r as u64, q as u64))
                },
                _ => {
                    assert(x == i64::MIN && y == -1) by {
                        if !(x == i64::MIN && y == -1) {
                            lemma_division_fits(x as int, y as int, 0x8000_0000_0000_0000);
                        }
                    }
                    Some((hi, lo))
                },
            }
        },
        InstrHandler::Ddivu => if b == 0 {
            Some((hi, lo))
        } else {
            Some((a % b, a / b))
        },
        _ => None,
    }
}

/// Only the least number divided by -1 leaves the range of a signed type.
pub(crate) proof fn lemma_division_fits(x: int, y: int, m: int)
    requires
        -m <= x < m,
        -m <= y < m,
        y != 0,
        m >= 1,
        !(x == -m && y == -1),
    ensures
        -m <= quotient(x, y) < m,
        -m <= remainder(x, y) < m,
{
    lemma_division(x, y);
    let ax = if x < 0 {
        -x
    } else {
        x
    };
    let ay = if y < 0 {
        -y
    } else {
        y
    };
    vstd::arithmetic::div_mod::lemma_fundamental_div_mod(ax, ay);
    vstd::arithmetic::div_mod::lemma_mod_bound(ax, ay);
    let q = ax / ay;
    assert(0 <= q <= ax) by (nonlinear_arith)
        requires
            ay >= 1,
            ax >= 0,
            q == ax / ay,
    ;
    if ay >= 2 && ax >= 1 {
        assert(q < ax) by (nonlinear_arith)
            requires
                ay >= 2,
                ax >= 1,
                q == ax / ay,
        ;
    }
}

/// Law: a signed division is exact: the dividend is quotient times divisor plus
/// remainder, and the remainder is smaller than the divisor and has the sign of the
/// dividend.
pub proof fn law_division_is_exact(x: int, y: int)
    requires
        y != 0,
    ensures
        quotient(x, y) * y + remainder(x, y) == x,
        -(if y < 0 {
            -y
        } else {
            y
        }) < remainder(x, y) < (if y < 0 {
            -y
        } else {
            y
        }),
        x >= 0 ==> remainder(x, y) >= 0,
        x <= 0 ==> remainder(x, y) <= 0,
{
    lemma_division(x, y);
    let ax = if x < 0 {
        -x
    } else {
        x
    };
    let ay = if y < 0 {
        -y
    } else {
        y
    };
    vstd::arithmetic::div_mod::lemma_mod_bound(ax, ay);
}

/// The condition of a trap instruction; nothing where `d` is not one.
pub open spec fn trap_condition(d: DecodedInstr, a: u64, b: u64) -> Option<bool> {
    match d.handler {
        InstrHandler::Tge => Some(a as i64 >= b as i64),
        InstrHandler::Tgeu => Some(a >= b),
        InstrHandler::Tlt => Some((a as i64) < b as i64),
        InstrHandler::Tltu => Some(a < b),
        InstrHandler::Teq => Some(a == b),
        InstrHandler::Tne => Some(a != b),
        InstrHandler::Tgei => Some(a as i64 >= d.imm as i32),
        InstrHandler::Tgeiu => Some(a >= d.spec_immu64()),
        InstrHandler::Tlti => Some((a as i64) < d.imm as i32),
        InstrHandler::Tltiu => Some(a < d.spec_immu64()),
        InstrHandler::Teqi => Some(a as i64 == d.imm as i32),
        InstrHandler::Tnei => Some(a as i64 != d.imm as i32),
        _ => None,
    }
}

pub fn trap_taken(d: &DecodedInstr, a: u64, b: u64) -> (r: Option<bool>)
    ensures
        r == trap_condition(*d, a, b),
{
    match d.handler {
        InstrHandler::Tge => Some(a as i64 >= b as i64),
        InstrHandler::Tgeu => Some(a >= b),
        InstrHandler::Tlt => Some((a as i64) < b as i64),
        InstrHandler::Tltu => Some(a < b),
        InstrHandler::Teq => Some(a == b),
        InstrHandler::Tne => Some(a != b),
        InstrHandler::Tgei => Some(a as i64 >= d.imms64()),
        InstrHandler::Tgeiu => Some(a >= d.immu64()),
        InstrHandler::Tlti => Some((a as i64) < d.imms64()),
        InstrHandler::Tltiu => Some(a < d.immu64()),
        InstrHandler::Teqi => Some(a as i64 == d.imms64()),
        InstrHandler::Tnei => Some(a as i64 != d.imms64()),
        _ => None,
    }
}

/// A conditional branch.
#[derive(Debug, Clone, Copy, PartialEq, Eq, Structural)]
pub struct Branch {
    pub taken: bool,
    /// Skips its delay slot where it is not taken.
    pub likely: bool,
    /// Writes the return address.
    pub link: bool,
}

/// The branch that `h` is on register contents `a` and `b`; nothing where it is none.
pub open spec fn branch_of(h: InstrHandler, a: u64, b: u64) -> Option<Branch> {
    let neg = (a as i64) < 0;
    match h {
        InstrHandler::Beq => Some(Branch { taken: a == b, likely: false, link: false }),
        InstrHandler::Bne => Some(Branch { taken: a != b, likely: false, link: false }),
        InstrHandler::Blez => Some(Branch { taken: a as i64 <= 0, likely: false, link: false }),
        InstrHandler::Bgtz => Some(Branch { taken: a as i64 > 0, likely: false, link: false }),
        InstrHandler::Beql => Some(Branch { taken: a == b, likely: true, link: false }),
        InstrHandler::Bnel => Some(Branch { taken: a != b, likely: true, link: false }),
        InstrHandler::Blezl => Some(Branch { taken: a as i64 <= 0, likely: true, link: false }),
        InstrHandler::Bgtzl => Some(Branch { taken: a as i64 > 0, likely: true, link: false }),
        InstrHandler::Bltz => Some(Branch { taken: neg, likely: false, link: false }),
        InstrHandler::Bgez => Some(Branch { taken: !neg, likely: false, link: false }),
        InstrHandler::Bltzl => Some(Branch { taken: neg, likely: true, link: false }),
        InstrHandler::Bgezl => Some(Branch { taken: !neg, likely: true, link: false }),
        InstrHandler::Bltzal => Some(Branch { taken: neg, likely: false, link: true }),
        InstrHandler::Bgezal => Some(Branch { taken: !neg, likely: false, link: true }),
        InstrHandler::Bltzall => Some(Branch { taken: neg, likely: true, link: true }),
        InstrHandler::Bgezall => Some(Branch { taken: !neg, likely: true, link: true }),
        _ => None,
    }
}

pub fn decide_branch(h: InstrHandler, a: u64, b: u64) -> (r: Option<Branch>)
    ensures
        r == branch_of(h, a, b),
{
    let neg: bool = (a as i64) < 0;
    match h {
        InstrHandler::Beq => Some(Branch { taken: a == b, likely: false, link: false }),
        InstrHandler::Bne => Some(Branch { taken: a != b, likely: false, link: false }),
        InstrHandler::Blez => Some(Branch { taken: a as i64 <= 0, likely: false, link: false }),
        InstrHandler::Bgtz => Some(Branch { taken: a as i64 > 0, likely: false, link: false }),
        InstrHandler::Beql => Some(Branch { taken: a == b, likely: true, link: false }),
        InstrHandler::Bnel => Some(Branch { taken: a != b, likely: true, link: false }),
        InstrHandler::Blezl => Some(Branch { taken: a as i64 <= 0, likely: true, link: false }),
        InstrHandler::Bgtzl => Some(Branch { taken: a as i64 > 0, likely: true, link: false }),
        InstrHandler::Bltz => Some(Branch { taken: neg, likely: false, link: false }),
        InstrHandler::Bgez => Some(Branch { taken: !neg, likely: false, link: false }),
        InstrHandler::Bltzl => Some(Branch { taken: neg, likely: true, link: false }),
        InstrHandler::Bgezl => Some(Branch { taken: !neg, likely: true, link: false }),
        InstrHandler::Bltzal => Some(Branch { taken: neg, likely: false, link: true }),
        InstrHandler::Bgezal => Some(Branch { taken: !neg, likely: false, link: true }),
        InstrHandler::Bltzall => Some(Branch { taken: neg, likely: true, link: true }),
        InstrHandler::Bgezall => Some(Branch { taken: !neg, likely: true, link: true }),
        _ => None,
    }
}

/// Operations on 32-bit words.
pub open spec fn is_word_operation(h: InstrHandler) -> bool {
    match h {
        InstrHandler::Sll | InstrHandler::Srl | InstrHandler::Sra | InstrHandler::Sllv
        | InstrHandler::Srlv | InstrHandler::Srav | InstrHandler::Add | InstrHandler::Addu
        | InstrHandler::Sub | InstrHandler::Subu | InstrHandler::Addi | InstrHandler::Addiu
        | InstrHandler::Lui => true,
        _ => false,
    }
}

/// The upper half of `v` repeats the sign of its lower half.
pub open spec fn is_sign_extended(v: u64) -> bool {
    v == v as i32 as i64 as u64
}

proof fn lemma_sign_extended(v: u32, w: i32)
    ensures
        (v as i32 as i64 as u64) as i32 as i64 as u64 == (v as i32 as i64 as u64),
        (w as i64 as u64) as i32 as i64 as u64 == (w as i64 as u64),
{
    crate::bits::lemma_signed_words(v, w);
}

/// Law: every operation on words leaves a sign-extended word.
pub proof fn law_word_results_are_sign_extended(d: DecodedInstr, a: u64, b: u64)
    requires
        is_word_operation(d.handler),
    ensures
        alu_result(d, a, b) is Some,
        alu_result(d, a, b)->0 matches Computed::Value(v) ==> is_sign_extended(v),
{
    if let Some(Computed::Value(v)) = alu_result(d, a, b) {
        lemma_sign_extended(v as u32, 0);
        lemma_sign_extended((b << d.sa) as u32, (b as i32) >> d.sa);
        lemma_sign_extended((b as u32) >> d.sa, (b as i32) >> (a & 0x1F));
        lemma_sign_extended((b << (a & 0x1F)) as u32, (a as i32 + b as i32) as i32);
        lemma_sign_extended((b as u32) >> (a & 0x1F), (a as i32 - b as i32) as i32);
        lemma_sign_extended((a as u32).wrapping_add(b as u32), (a as i32 + d.imm as i32) as i32);
        lemma_sign_extended((a as u32).wrapping_sub(b as u32), 0);
        lemma_sign_extended((a as u32).wrapping_add(d.imm), 0);
        lemma_sign_extended(d.imm, 0);
    }
}

} // verus!

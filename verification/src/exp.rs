//! Expressions over processor registers, as breakpoint conditions use them, and the
//! names by which registers are called.
use vstd::prelude::*;

use crate::cpu_core::MipsCore;
use crate::text::str_eq;

verus! {

/// A register that commands can name.
#[derive(Debug, Clone, Copy, PartialEq, Eq, Structural)]
pub enum RegTarget {
    Gpr(u8),
    Pc,
    Hi,
    Lo,
}

#[derive(Debug, Clone, Copy, PartialEq, Eq, Structural)]
pub enum BinOp {
    Plus,
    Minus,
    Divide,
    And,
    Or,
    Xor,
    Equal,
    NotEqual,
    Less,
    Greater,
}

/// An expression tree.
#[derive(Debug)]
pub enum Expr {
    Const(u64),
    Reg(RegTarget),
    Bin(BinOp, Box<Expr>, Box<Expr>),
}

impl RegTarget {
    pub open spec fn wf(&self) -> bool {
        match self {
            RegTarget::Gpr(n) => *n < 32,
            _ => true,
        }
    }

    /// Contents of the register.
    pub open spec fn value(&self, c: MipsCore) -> u64 {
        match self {
            RegTarget::Gpr(n) => c.gpr_at(*n),
            RegTarget::Pc => c.pc,
            RegTarget::Hi => c.hi,
            RegTarget::Lo => c.lo,
        }
    }

    pub fn read(&self, c: &MipsCore) -> (v: u64)
        requires
            self.wf(),
        ensures
            v == self.value(*c),
    {
        match self {
            RegTarget::Gpr(n) => c.read_gpr(*n),
            RegTarget::Pc => c.pc,
            RegTarget::Hi => c.hi,
            RegTarget::Lo => c.lo,
        }
    }

    /// The state with the register set to `v`.
    pub open spec fn assigned(&self, c: MipsCore, v: u64) -> MipsCore {
        match self {
            RegTarget::Gpr(n) => c.with_gpr(*n, v),
            RegTarget::Pc => MipsCore { pc: v, ..c },
            RegTarget::Hi => MipsCore { hi: v, ..c },
            RegTarget::Lo => MipsCore { lo: v, ..c },
        }
    }

    pub fn write(&self, c: &mut MipsCore, v: u64)
        requires
            self.wf(),
        ensures
            *final(c) == self.assigned(*old(c), v),
    {
        match self {
            RegTarget::Gpr(n) => c.write_gpr(*n, v),
            RegTarget::Pc => {
                c.pc = v;
            },
            RegTarget::Hi => {
                c.hi = v;
            },
            RegTarget::Lo => {
                c.lo = v;
            },
        }
    }
}

/// What a binary operation gives; nothing for a division by zero.
pub open spec fn apply(op: BinOp, a: u64, b: u64) -> Option<u64> {
    match op {
        BinOp::Plus => Some(vstd::wrapping::u64_specs::wrapping_add(a, b)),
        BinOp::Minus => Some(vstd::wrapping::u64_specs::wrapping_sub(a, b)),
        BinOp::Divide => if b == 0 {
            None
        } else {
            Some(a / b)
        },
        BinOp::And => Some(a & b),
        BinOp::Or => Some(a | b),
        BinOp::Xor => Some(a ^ b),
        BinOp::Equal => Some(truth(a == b)),
        BinOp::NotEqual => Some(truth(a != b)),
        BinOp::Less => Some(truth(a < b)),
        BinOp::Greater => Some(truth(a > b)),
    }
}

pub open spec fn truth(b: bool) -> u64 {
    if b {
        1
    } else {
        0
    }
}

fn apply_op(op: BinOp, a: u64, b: u64) -> (r: Option<u64>)
    ensures
        r == apply(op, a, b),
{
    match op {
        BinOp::Plus => Some(a.wrapping_add(b)),
        BinOp::Minus => Some(a.wrapping_sub(b)),
        BinOp::Divide => if b == 0 {
            None
        } else {
            Some(a / b)
        },
        BinOp::And => Some(a & b),
        BinOp::Or => Some(a | b),
        BinOp::Xor => Some(a ^ b),
        BinOp::Equal => Some(if a == b {
            1
        } else {
            0
        }),
        BinOp::NotEqual => Some(if a != b {
            1
        } else {
            0
        }),
        BinOp::Less => Some(if a < b {
            1
        } else {
            0
        }),
        BinOp::Greater => Some(if a > b {
            1
        } else {
            0
        }),
    }
}

impl Expr {
    /// All registers in the expression exist.
    pub open spec fn wf(&self) -> bool
        decreases self,
    {
        match self {
            Expr::Const(_) => true,
            Expr::Reg(r) => r.wf(),
            Expr::Bin(_, a, b) => a.wf() && b.wf(),
        }
    }

    /// Value of the expression, nothing where a division by zero stands in it.
    pub open spec fn value(&self, c: MipsCore) -> Option<u64>
        decreases self,
    {
        match self {
            Expr::Const(v) => Some(*v),
            Expr::Reg(r) => Some(r.value(c)),
            Expr::Bin(op, a, b) => match (a.value(c), b.value(c)) {
                (Some(x), Some(y)) => apply(*op, x, y),
                _ => None,
            },
        }
    }

    pub fn eval(&self, c: &MipsCore) -> (r: Option<u64>)
        requires
            self.wf(),
        ensures
            r == self.value(*c),
        decreases self,
    {
        match self {
            Expr::Const(v) => Some(*v),
            Expr::Reg(r) => Some(r.read(c)),
            Expr::Bin(op, a, b) => {
                let x: Option<u64> = a.eval(c);
                let y: Option<u64> = b.eval(c);
                match (x, y) {
                    (Some(x), Some(y)) => apply_op(*op, x, y),
                    _ => None,
                }
            },
        }
    }
}

/// Name of general register `n`.
pub open spec fn gpr_name(n: u8) -> Seq<char> {
    match n {
        0 => "zero"@,
        1 => "at"@,
        2 => "v0"@,
        3 => "v1"@,
        4 => "a0"@,
        5 => "a1"@,
        6 => "a2"@,
        7 => "a3"@,
        8 => "t0"@,
        9 => "t1"@,
        10 => "t2"@,
        11 => "t3"@,
        12 => "t4"@,
        13 => "t5"@,
        14 => "t6"@,
        15 => "t7"@,
        16 => "s0"@,
        17 => "s1"@,
        18 => "s2"@,
        19 => "s3"@,
        20 => "s4"@,
        21 => "s5"@,
        22 => "s6"@,
        23 => "s7"@,
        24 => "t8"@,
        25 => "t9"@,
        26 => "k0"@,
        27 => "k1"@,
        28 => "gp"@,
        29 => "sp"@,
        30 => "fp"@,
        _ => "ra"@,
    }
}

/// The register that `arg` names.
pub open spec fn named_register(arg: Seq<char>) -> Option<RegTarget> {
    if arg == "pc"@ {
        Some(RegTarget::Pc)
    } else if arg == "hi"@ {
        Some(RegTarget::Hi)
    } else if arg == "lo"@ {
        Some(RegTarget::Lo)
    } else {
        first_named(arg, 0)
    }
}

/// The first general register from `n` up whose name is `arg`.
pub open spec fn first_named(arg: Seq<char>, n: int) -> Option<RegTarget>
    decreases 32 - n,
{
    if n < 0 || n >= 32 {
        None
    } else if arg == gpr_name(n as u8) {
        Some(RegTarget::Gpr(n as u8))
    } else {
        first_named(arg, n + 1)
    }
}

/// Name of general register `n`.
pub fn reg_name(n: u8) -> (s: &'static str)
    requires
        n < 32,
    ensures
        s@ == gpr_name(n),
{
    match n {
        0 => "zero",
        1 => "at",
        2 => "v0",
        3 => "v1",
        4 => "a0",
        5 => "a1",
        6 => "a2",
        7 => "a3",
        8 => "t0",
        9 => "t1",
        10 => "t2",
        11 => "t3",
        12 => "t4",
        13 => "t5",
        14 => "t6",
        15 => "t7",
        16 => "s0",
        17 => "s1",
        18 => "s2",
        19 => "s3",
        20 => "s4",
        21 => "s5",
        22 => "s6",
        23 => "s7",
        24 => "t8",
        25 => "t9",
        26 => "k0",
        27 => "k1",
        28 => "gp",
        29 => "sp",
        30 => "fp",
        _ => "ra",
    }
}

/// The register that `arg` names.
pub fn parse_reg_target(arg: &str) -> (r: Option<RegTarget>)
    ensures
        r == named_register(arg@),
        r is Some ==> r->0.wf(),
{
    if str_eq(arg, "pc") {
        return Some(RegTarget::Pc);
    }
    if str_eq(arg, "hi") {
        return Some(RegTarget::Hi);
    }
    if str_eq(arg, "lo") {
        return Some(RegTarget::Lo);
    }
    let mut n: u8 = 0;
    while n < 32
        invariant
            n <= 32,
            named_register(arg@) == first_named(arg@, n as int),
        decreases 32 - n,
    {
        if str_eq(arg, reg_name(n)) {
            return Some(RegTarget::Gpr(n));
        }
        n = n + 1;
    }
    None
}

/// The general register that `arg` names.
pub fn parse_reg_name(arg: &str) -> (r: Option<usize>)
    ensures
        match named_register(arg@) {
            Some(RegTarget::Gpr(n)) => r == Some(n as usize),
            _ => r is None,
        },
{
    match parse_reg_target(arg) {
        Some(RegTarget::Gpr(n)) => Some(n as usize),
        _ => None,
    }
}

} // verus!

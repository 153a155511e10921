//! The floating-point coprocessor.
//!
//! Moves, comparisons and conversions to integers are done here on bit patterns. What
//! needs floating-point arithmetic is put as a request, and completed once the result
//! and the exception flags that it raised are known.
use vstd::prelude::*;

use crate::bus::{BusDevice, MipsCache, Tlb};
use crate::alu::{word, Branch};
use crate::cpu_core::{MipsCore, STATUS_CU1};
use crate::fpu_round::{
    compare32, compare64, f32_to_int, f64_to_int, fpu_compare_d, fpu_compare_s, inexact32,
    inexact64, integer32, integer64, is_nan_f32, is_nan_f64, nan32, nan64, round32, round64,
    round_f32_to_int_mode, round_f64_to_int_mode, RM_NEAREST_EVEN, RM_TOWARD_NEG_INF,
    RM_TOWARD_POS_INF, RM_TOWARD_ZERO,
};
use crate::instr::{fields_bounded, DecodedInstr, InstrHandler};
use crate::integer::{cc_field, lemma_cc_field, tf_field};
use crate::machine::{Machine, MipsExecutor};
use crate::status::{ExecStatus, EXC_FPE, EXEC_COMPLETE};

verus! {

// FCSR. Flags, enables and causes are each five bits, from inexact up to invalid.
pub const FCSR_FI: u32 = 0x0000_0004;

pub const FCSR_FV: u32 = 0x0000_0040;

pub const FCSR_FM: u32 = 0x0000_007C;

pub const FCSR_EU: u32 = 0x0000_0100;

pub const FCSR_EV: u32 = 0x0000_0800;

pub const FCSR_EM: u32 = 0x0000_0F80;

pub const FCSR_CU: u32 = 0x0000_2000;

pub const FCSR_CV: u32 = 0x0001_0000;

pub const FCSR_CM: u32 = 0x0001_F000;

/// Unimplemented operation: a cause without an enable.
pub const FCSR_CE: u32 = 0x0002_0000;

/// A floating-point operation that has to be computed.
#[derive(Debug, Clone, Copy, PartialEq, Eq, Structural)]
pub enum FloatOp {
    Add,
    Sub,
    Mul,
    Div,
    Sqrt,
    Recip,
    Rsqrt,
    /// `a * b + c`, in one rounding.
    MulAdd,
    /// `a * b - c`, in one rounding.
    MulSub,
    /// `-(a * b + c)`
    NegMulAdd,
    /// `-(a * b - c)`
    NegMulSub,
    /// To the other floating-point format.
    Convert,
    /// From a signed 32-bit integer.
    FromWord,
    /// From a signed 64-bit integer.
    FromLong,
    /// To a signed integer: `a` is already rounded, only the flags are asked for.
    ToInteger,
}

/// What is to be computed. The operands are bit patterns.
#[derive(Debug, Clone, Copy, PartialEq, Eq, Structural)]
pub struct FloatRequest {
    pub op: FloatOp,
    /// Format of the operands; of the result where the operand is an integer.
    pub double: bool,
    /// The integer asked for has 64 bits.
    pub wide: bool,
    /// Rounding mode, as FCSR encodes it.
    pub rm: u8,
    pub a: u64,
    pub b: u64,
    pub c: u64,
}

/// Bit pattern of the result, and the exceptions that computing it raised, in the
/// positions of the FCSR flags.
#[derive(Debug, Clone, Copy, PartialEq, Eq, Structural)]
pub struct FloatReply {
    pub bits: u64,
    pub flags: u32,
}

/// Instructions of the coprocessor.
pub open spec fn is_cop1(h: InstrHandler) -> bool {
    match h {
        InstrHandler::Lwc1 | InstrHandler::Ldc1 | InstrHandler::Swc1 | InstrHandler::Sdc1
        | InstrHandler::Mfc1 | InstrHandler::Dmfc1 | InstrHandler::Cfc1 | InstrHandler::Mtc1
        | InstrHandler::Dmtc1 | InstrHandler::Ctc1 | InstrHandler::Bc1 | InstrHandler::FaddS
        | InstrHandler::FsubS | InstrHandler::FmulS | InstrHandler::FdivS | InstrHandler::FsqrtS
        | InstrHandler::FabsS | InstrHandler::FmovS | InstrHandler::FnegS | InstrHandler::FroundLS
        | InstrHandler::FtruncLS | InstrHandler::FceilLS | InstrHandler::FfloorLS
        | InstrHandler::FroundWS | InstrHandler::FtruncWS | InstrHandler::FceilWS
        | InstrHandler::FfloorWS | InstrHandler::FmovcfS | InstrHandler::FmovzS
        | InstrHandler::FmovnS | InstrHandler::FrecipS | InstrHandler::FrsqrtS
        | InstrHandler::FaddD | InstrHandler::FsubD | InstrHandler::FmulD | InstrHandler::FdivD
        | InstrHandler::FsqrtD | InstrHandler::FabsD | InstrHandler::FmovD | InstrHandler::FnegD
        | InstrHandler::FroundLD | InstrHandler::FtruncLD | InstrHandler::FceilLD
        | InstrHandler::FfloorLD | InstrHandler::FroundWD | InstrHandler::FtruncWD
        | InstrHandler::FceilWD | InstrHandler::FfloorWD | InstrHandler::FmovcfD
        | InstrHandler::FmovzD | InstrHandler::FmovnD | InstrHandler::FrecipD
        | InstrHandler::FrsqrtD | InstrHandler::FcvtDS | InstrHandler::FcvtWS
        | InstrHandler::FcvtLS | InstrHandler::FcvtSD | InstrHandler::FcvtWD
        | InstrHandler::FcvtLD | InstrHandler::FccS | InstrHandler::FccD | InstrHandler::FcvtSW
        | InstrHandler::FcvtDW | InstrHandler::FcvtSL | InstrHandler::FcvtDL | InstrHandler::Lwxc1
        | InstrHandler::Ldxc1 | InstrHandler::Swxc1 | InstrHandler::Sdxc1 | InstrHandler::Prefx
        | InstrHandler::MaddS | InstrHandler::MaddD | InstrHandler::MsubS | InstrHandler::MsubD
        | InstrHandler::NmaddS | InstrHandler::NmaddD | InstrHandler::NmsubS
        | InstrHandler::NmsubD => true,
        _ => false,
    }
}

/// The operation of `h`, and whether it is on doubles; nothing where `h` asks for no
/// floating-point arithmetic, or for a conversion to an integer.
pub open spec fn float_op(h: InstrHandler) -> Option<(FloatOp, bool)> {
    match h {
        InstrHandler::FaddS => Some((FloatOp::Add, false)),
        InstrHandler::FaddD => Some((FloatOp::Add, true)),
        InstrHandler::FsubS => Some((FloatOp::Sub, false)),
        InstrHandler::FsubD => Some((FloatOp::Sub, true)),
        InstrHandler::FmulS => Some((FloatOp::Mul, false)),
        InstrHandler::FmulD => Some((FloatOp::Mul, true)),
        InstrHandler::FdivS => Some((FloatOp::Div, false)),
        InstrHandler::FdivD => Some((FloatOp::Div, true)),
        InstrHandler::FsqrtS => Some((FloatOp::Sqrt, false)),
        InstrHandler::FsqrtD => Some((FloatOp::Sqrt, true)),
        InstrHandler::FrecipS => Some((FloatOp::Recip, false)),
        InstrHandler::FrecipD => Some((FloatOp::Recip, true)),
        InstrHandler::FrsqrtS => Some((FloatOp::Rsqrt, false)),
        InstrHandler::FrsqrtD => Some((FloatOp::Rsqrt, true)),
        InstrHandler::MaddS => Some((FloatOp::MulAdd, false)),
        InstrHandler::MaddD => Some((FloatOp::MulAdd, true)),
        InstrHandler::MsubS => Some((FloatOp::MulSub, false)),
        InstrHandler::MsubD => Some((FloatOp::MulSub, true)),
        InstrHandler::NmaddS => Some((FloatOp::NegMulAdd, false)),
        InstrHandler::NmaddD => Some((FloatOp::NegMulAdd, true)),
        InstrHandler::NmsubS => Some((FloatOp::NegMulSub, false)),
        InstrHandler::NmsubD => Some((FloatOp::NegMulSub, true)),
        InstrHandler::FcvtDS => Some((FloatOp::Convert, false)),
        InstrHandler::FcvtSD => Some((FloatOp::Convert, true)),
        InstrHandler::FcvtSW => Some((FloatOp::FromWord, false)),
        InstrHandler::FcvtDW => Some((FloatOp::FromWord, true)),
        InstrHandler::FcvtSL => Some((FloatOp::FromLong, false)),
        InstrHandler::FcvtDL => Some((FloatOp::FromLong, true)),
        _ => None,
    }
}

/// A conversion to an integer: from a double or a single, to 64 bits or 32, with a
/// rounding mode of its own or that of FCSR.
pub struct ToInteger {
    pub double: bool,
    pub wide: bool,
    pub mode: Option<u8>,
}

pub open spec fn to_integer(h: InstrHandler) -> Option<ToInteger> {
    match h {
        InstrHandler::FroundLS => Some(
            ToInteger { double: false, wide: true, mode: Some(RM_NEAREST_EVEN) },
        ),
        InstrHandler::FtruncLS => Some(
            ToInteger { double: false, wide: true, mode: Some(RM_TOWARD_ZERO) },
        ),
        InstrHandler::FceilLS => Some(
            ToInteger { double: false, wide: true, mode: Some(RM_TOWARD_POS_INF) },
        ),
        InstrHandler::FfloorLS => Some(
            ToInteger { double: false, wide: true, mode: Some(RM_TOWARD_NEG_INF) },
        ),
        InstrHandler::FcvtLS => Some(
            ToInteger { double: false, wide: true, mode: None },
        ),
        InstrHandler::FroundWS => Some(
            ToInteger { double: false, wide: false, mode: Some(RM_NEAREST_EVEN) },
        ),
        InstrHandler::FtruncWS => Some(
            ToInteger { double: false, wide: false, mode: Some(RM_TOWARD_ZERO) },
        ),
        InstrHandler::FceilWS => Some(
            ToInteger { double: false, wide: false, mode: Some(RM_TOWARD_POS_INF) },
        ),
        InstrHandler::FfloorWS => Some(
            ToInteger { double: false, wide: false, mode: Some(RM_TOWARD_NEG_INF) },
        ),
        InstrHandler::FcvtWS => Some(
            ToInteger { double: false, wide: false, mode: None },
        ),
        InstrHandler::FroundLD => Some(
            ToInteger { double: true, wide: true, mode: Some(RM_NEAREST_EVEN) },
        ),
        InstrHandler::FtruncLD => Some(
            ToInteger { double: true, wide: true, mode: Some(RM_TOWARD_ZERO) },
        ),
        InstrHandler::FceilLD => Some(
            ToInteger { double: true, wide: true, mode: Some(RM_TOWARD_POS_INF) },
        ),
        InstrHandler::FfloorLD => Some(
            ToInteger { double: true, wide: true, mode: Some(RM_TOWARD_NEG_INF) },
        ),
        InstrHandler::FcvtLD => Some(
            ToInteger { double: true, wide: true, mode: None },
        ),
        InstrHandler::FroundWD => Some(
            ToInteger { double: true, wide: false, mode: Some(RM_NEAREST_EVEN) },
        ),
        InstrHandler::FtruncWD => Some(
            ToInteger { double: true, wide: false, mode: Some(RM_TOWARD_ZERO) },
        ),
        InstrHandler::FceilWD => Some(
            ToInteger { double: true, wide: false, mode: Some(RM_TOWARD_POS_INF) },
        ),
        InstrHandler::FfloorWD => Some(
            ToInteger { double: true, wide: false, mode: Some(RM_TOWARD_NEG_INF) },
        ),
        InstrHandler::FcvtWD => Some(
            ToInteger { double: true, wide: false, mode: None },
        ),
        _ => None,
    }
}

/// Double that the pattern-wise operation `h` makes of `x`: magnitude, negation, or `x`
/// itself.
pub open spec fn pattern64(h: InstrHandler, x: u64) -> u64 {
    match h {
        InstrHandler::FabsD => x & 0x7FFF_FFFF_FFFF_FFFF,
        InstrHandler::FnegD => x ^ 0x8000_0000_0000_0000,
        _ => x,
    }
}

pub open spec fn pattern32(h: InstrHandler, x: u32) -> u32 {
    match h {
        InstrHandler::FabsS => x & 0x7FFF_FFFF,
        InstrHandler::FnegS => x ^ 0x8000_0000,
        _ => x,
    }
}

impl MipsCore {
    pub open spec fn cop1_usable(&self) -> bool {
        self.cp0_status & STATUS_CU1 != 0
    }

    /// Rounding mode in FCSR.
    pub open spec fn rounding(&self) -> u8 {
        (self.fpu_fcsr & 0x3) as u8
    }

    /// Operand `r` in the given format.
    pub open spec fn float_operand(&self, double: bool, r: u8) -> u64 {
        if double {
            self.fpr_l(r)
        } else {
            self.fpr_w(r) as u64
        }
    }

    pub open spec fn with_float(self, double: bool, r: u8, bits: u64) -> MipsCore {
        if double {
            self.with_fpr_l(r, bits)
        } else {
            self.with_fpr_w(r, bits as u32)
        }
    }

    /// The rounding mode of a conversion to an integer.
    pub open spec fn mode_of(&self, t: ToInteger) -> u8 {
        match t.mode {
            Some(rm) => rm,
            None => self.rounding(),
        }
    }

    /// What instruction `d` asks to be computed; nothing where it asks for nothing.
    pub open spec fn float_request(&self, d: DecodedInstr) -> Option<FloatRequest> {
        if let Some((op, double)) = float_op(d.handler) {
            Some(
                FloatRequest {
                    op,
                    double,
                    wide: false,
                    rm: self.rounding(),
                    a: match op {
                        FloatOp::FromWord => self.fpr_w(d.rd) as u64,
                        FloatOp::FromLong => self.fpr_l(d.rd),
                        _ => self.float_operand(double, d.rd),
                    },
                    b: self.float_operand(double, d.rt),
                    c: self.float_operand(double, d.rs),
                },
            )
        } else if let Some(t) = to_integer(d.handler) {
            Some(
                FloatRequest {
                    op: FloatOp::ToInteger,
                    double: t.double,
                    wide: t.wide,
                    rm: self.mode_of(t),
                    a: if t.double {
                        round64(self.fpr_l(d.rd), self.mode_of(t))
                    } else {
                        round32(self.fpr_w(d.rd), self.mode_of(t)) as u64
                    },
                    b: 0,
                    c: 0,
                },
            )
        } else {
            None
        }
    }

    /// The integer that conversion `d` gives.
    pub open spec fn converted(&self, t: ToInteger, r: u8) -> int {
        if t.double {
            integer64(self.fpr_l(r), self.mode_of(t), t.wide)
        } else {
            integer32(self.fpr_w(r), self.mode_of(t), t.wide)
        }
    }

    pub open spec fn conversion_is_inexact(&self, t: ToInteger, r: u8) -> bool {
        if t.double {
            inexact64(self.fpr_l(r), t.wide)
        } else {
            inexact32(self.fpr_w(r), t.wide)
        }
    }

    /// The registers with the result of `d` in place.
    pub open spec fn float_written(self, d: DecodedInstr, reply: FloatReply) -> MipsCore {
        if let Some((op, double)) = float_op(d.handler) {
            self.with_float(
                if op == FloatOp::Convert {
                    !double
                } else {
                    double
                },
                d.sa,
                reply.bits,
            )
        } else if let Some(t) = to_integer(d.handler) {
            let i = self.converted(t, d.rd) as i64;
            if t.wide {
                self.with_fpr_l(d.sa, i as u64)
            } else {
                self.with_fpr_w(d.sa, i as u32)
            }
        } else {
            self
        }
    }

    /// The exceptions of `d`. Whether a conversion to an integer is inexact follows from
    /// its operand, whatever was raised.
    pub open spec fn float_flags(&self, d: DecodedInstr, reply: FloatReply) -> u32 {
        match to_integer(d.handler) {
            Some(t) => if self.conversion_is_inexact(t, d.rd) {
                reply.flags | FCSR_FI
            } else {
                reply.flags & !FCSR_FI
            },
            None => reply.flags,
        }
    }

    /// The state with the exceptions `flags` noted as causes and flags. An underflow that
    /// would trap is left to software as unimplemented.
    pub open spec fn with_float_flags(self, flags: u32) -> MipsCore {
        let causes = (flags & FCSR_FM) << 10;
        let fcsr = self.fpu_fcsr | causes | (flags & FCSR_FM);
        MipsCore {
            fpu_fcsr: if causes & FCSR_CU != 0 && fcsr & FCSR_EU != 0 {
                fcsr | FCSR_CE
            } else {
                fcsr
            },
            ..self
        }
    }

    /// The exceptions `flags`, noted, trap: one of them is enabled.
    pub open spec fn float_traps(&self, flags: u32) -> bool {
        let causes = (flags & FCSR_FM) << 10;
        let fcsr = self.fpu_fcsr | causes | (flags & FCSR_FM);
        (causes & FCSR_CU != 0 && fcsr & FCSR_EU != 0) || (causes >> 5) & (fcsr & FCSR_EM) != 0
    }

    /// A cause that software wrote to FCSR traps.
    pub open spec fn fcsr_traps(&self) -> bool {
        let fcsr = self.fpu_fcsr;
        fcsr & FCSR_CE != 0 || ((fcsr & FCSR_CM) >> 5) & (fcsr & FCSR_EM) != 0
    }

    /// The registers after the floating-point move `d`; nothing where `d` is none.
    pub open spec fn float_moved(self, d: DecodedInstr) -> Option<MipsCore> {
        let cc = self.fpu_cc(cc_field(d.raw)) == tf_field(d.raw);
        let t = self.gpr_at(d.rt);
        let s = self.with_fpr_w(d.sa, pattern32(d.handler, self.fpr_w(d.rd)));
        let l = self.with_fpr_l(d.sa, pattern64(d.handler, self.fpr_l(d.rd)));
        match d.handler {
            InstrHandler::Mfc1 => Some(self.with_gpr(d.rt, word(self.fpr_w(d.rd)))),
            InstrHandler::Dmfc1 => Some(self.with_gpr(d.rt, self.fpr_l(d.rd))),
            InstrHandler::Cfc1 => Some(self.with_gpr(d.rt, word(self.fpu_control(d.rd)))),
            InstrHandler::Mtc1 => Some(self.with_fpr_w(d.rd, t as u32)),
            InstrHandler::Dmtc1 => Some(self.with_fpr_l(d.rd, t)),
            InstrHandler::FabsS | InstrHandler::FnegS => Some(s),
            InstrHandler::FabsD | InstrHandler::FnegD | InstrHandler::FmovS
            | InstrHandler::FmovD => Some(l),
            InstrHandler::FmovcfS => Some(
                if cc {
                    s
                } else {
                    self
                },
            ),
            InstrHandler::FmovcfD => Some(
                if cc {
                    l
                } else {
                    self
                },
            ),
            InstrHandler::FmovzS => Some(
                if t == 0 {
                    s
                } else {
                    self
                },
            ),
            InstrHandler::FmovzD => Some(
                if t == 0 {
                    l
                } else {
                    self
                },
            ),
            InstrHandler::FmovnS => Some(
                if t != 0 {
                    s
                } else {
                    self
                },
            ),
            InstrHandler::FmovnD => Some(
                if t != 0 {
                    l
                } else {
                    self
                },
            ),
            InstrHandler::Prefx => Some(self),
            _ => None,
        }
    }

    /// Whether comparison `d` finds its operands unordered.
    pub open spec fn unordered(&self, d: DecodedInstr) -> bool {
        if d.handler == InstrHandler::FccD {
            nan64(self.fpr_l(d.rd)) || nan64(self.fpr_l(d.rt))
        } else {
            nan32(self.fpr_w(d.rd)) || nan32(self.fpr_w(d.rt))
        }
    }

    /// What comparison `d` says.
    pub open spec fn float_condition(&self, d: DecodedInstr) -> bool {
        if d.handler == InstrHandler::FccD {
            compare64(self.fpr_l(d.rd), self.fpr_l(d.rt), d.funct)
        } else {
            compare32(self.fpr_w(d.rd), self.fpr_w(d.rt), d.funct)
        }
    }

    /// The branch on a condition code: bit 0 of its selector is the value it looks for,
    /// bit 1 makes it likely.
    pub open spec fn float_branch(&self, d: DecodedInstr) -> Branch {
        Branch {
            taken: self.fpu_cc(cc_field(d.raw)) == (d.rt & 1 != 0),
            likely: d.rt & 2 != 0,
            link: false,
        }
    }
}

/// How far an instruction has come.
#[derive(Debug, Clone, Copy, PartialEq, Eq, Structural)]
pub enum Step {
    /// It is done, with this status.
    Done(ExecStatus),
    /// It waits for a floating-point result.
    Float(FloatRequest, DecodedInstr),
}

impl<T: Tlb, C: MipsCache, B: BusDevice> Machine<T, C, B> {
    /// The end of floating-point arithmetic that raised `flags`.
    pub open spec fn float_end(self, flags: u32) -> (ExecStatus, Self) {
        if flags == 0 {
            self.done()
        } else {
            let m = self.with_core(self.core.with_float_flags(flags));
            if self.core.float_traps(flags) {
                m.trap(EXC_FPE)
            } else {
                m.done()
            }
        }
    }

    /// The end of instruction `d`, whose request was answered with `reply`.
    pub open spec fn float_done(self, d: DecodedInstr, reply: FloatReply) -> (ExecStatus, Self) {
        self.with_core(self.core.float_written(d, reply)).float_end(
            self.core.float_flags(d, reply),
        )
    }

    /// A comparison. Those with bit 3 of their condition set object to NaNs.
    pub open spec fn float_compare(self, d: DecodedInstr) -> (ExecStatus, Self) {
        let objects = d.funct & 0x8 != 0 && self.core.unordered(d);
        let c = if objects {
            MipsCore { fpu_fcsr: self.core.fpu_fcsr | (FCSR_CV | FCSR_FV), ..self.core }
        } else {
            self.core
        };
        if objects && c.fpu_fcsr & FCSR_EV != 0 {
            self.with_core(c).trap(EXC_FPE)
        } else {
            self.with_core(c.with_fpu_cc((d.sa & 0x7) as u32, self.core.float_condition(d))).done()
        }
    }

    pub open spec fn float_load(self, double: bool, va: u64, r: u8) -> (ExecStatus, Self) {
        let size: usize = if double {
            8
        } else {
            4
        };
        let (v, m) = self.read_data(false, size, va);
        match v {
            Ok(v) => m.with_core(m.core.with_float(double, r, v)).done(),
            Err(s) => m.finish(s),
        }
    }

    pub open spec fn float_store(self, double: bool, va: u64, r: u8) -> (ExecStatus, Self) {
        let size: usize = if double {
            8
        } else {
            4
        };
        let (s, m) = self.write_data(false, size, va, self.core.float_operand(double, r));
        m.finish(s)
    }

    /// A floating-point load or store; nothing where `d` is none.
    pub open spec fn float_memory(self, d: DecodedInstr) -> Option<(ExecStatus, Self)> {
        let va = self.core.effective(d);
        let vx = self.core.gpr_at(d.rs).wrapping_add(self.core.gpr_at(d.rt));
        match d.handler {
            InstrHandler::Lwc1 => Some(self.float_load(false, va, d.rt)),
            InstrHandler::Ldc1 => Some(self.float_load(true, va, d.rt)),
            InstrHandler::Swc1 => Some(self.float_store(false, va, d.rt)),
            InstrHandler::Sdc1 => Some(self.float_store(true, va, d.rt)),
            InstrHandler::Lwxc1 => Some(self.float_load(false, vx, d.sa)),
            InstrHandler::Ldxc1 => Some(self.float_load(true, vx, d.sa)),
            InstrHandler::Swxc1 => Some(self.float_store(false, vx, d.rd)),
            InstrHandler::Sdxc1 => Some(self.float_store(true, vx, d.rd)),
            _ => None,
        }
    }

    /// The write of a floating-point control register.
    pub open spec fn float_control(self, d: DecodedInstr) -> (ExecStatus, Self) {
        let c = self.core.with_fpu_control(d.rd, self.core.gpr_at(d.rt) as u32);
        if d.rd == 31 && c.fcsr_traps() {
            self.with_core(c).trap(EXC_FPE)
        } else {
            self.with_core(c).done()
        }
    }

    /// An instruction of the coprocessor that is completed at once.
    pub open spec fn float_now(self, d: DecodedInstr) -> (ExecStatus, Self) {
        if let Some(c) = self.core.float_moved(d) {
            self.with_core(c).done()
        } else if let Some(r) = self.float_memory(d) {
            r
        } else if d.handler == InstrHandler::Ctc1 {
            self.float_control(d)
        } else if d.handler == InstrHandler::Bc1 {
            self.ended(
                self.core.after_branch(self.core.float_branch(d), self.core.branch_target(d)),
            )
        } else {
            self.float_compare(d)
        }
    }

    /// An instruction of the coprocessor.
    pub open spec fn float(self, d: DecodedInstr) -> (Step, Self) {
        if !self.core.cop1_usable() {
            let (s, m) = self.coprocessor_unusable(1);
            (Step::Done(s), m)
        } else if let Some(r) = self.core.float_request(d) {
            (Step::Float(r, d), self)
        } else {
            let (s, m) = self.float_now(d);
            (Step::Done(s), m)
        }
    }
}

fn is_cop1_instruction(h: InstrHandler) -> (b: bool)
    ensures
        b == is_cop1(h),
{
    match h {
        InstrHandler::Lwc1 | InstrHandler::Ldc1 | InstrHandler::Swc1 | InstrHandler::Sdc1
        | InstrHandler::Mfc1 | InstrHandler::Dmfc1 | InstrHandler::Cfc1 | InstrHandler::Mtc1
        | InstrHandler::Dmtc1 | InstrHandler::Ctc1 | InstrHandler::Bc1 | InstrHandler::FaddS
        | InstrHandler::FsubS | InstrHandler::FmulS | InstrHandler::FdivS | InstrHandler::FsqrtS
        | InstrHandler::FabsS | InstrHandler::FmovS | InstrHandler::FnegS | InstrHandler::FroundLS
        | InstrHandler::FtruncLS | InstrHandler::FceilLS | InstrHandler::FfloorLS
        | InstrHandler::FroundWS | InstrHandler::FtruncWS | InstrHandler::FceilWS
        | InstrHandler::FfloorWS | InstrHandler::FmovcfS | InstrHandler::FmovzS
        | InstrHandler::FmovnS | InstrHandler::FrecipS | InstrHandler::FrsqrtS
        | InstrHandler::FaddD | InstrHandler::FsubD | InstrHandler::FmulD | InstrHandler::FdivD
        | InstrHandler::FsqrtD | InstrHandler::FabsD | InstrHandler::FmovD | InstrHandler::FnegD
        | InstrHandler::FroundLD | InstrHandler::FtruncLD | InstrHandler::FceilLD
        | InstrHandler::FfloorLD | InstrHandler::FroundWD | InstrHandler::FtruncWD
        | InstrHandler::FceilWD | InstrHandler::FfloorWD | InstrHandler::FmovcfD
        | InstrHandler::FmovzD | InstrHandler::FmovnD | InstrHandler::FrecipD
        | InstrHandler::FrsqrtD | InstrHandler::FcvtDS | InstrHandler::FcvtWS
        | InstrHandler::FcvtLS | InstrHandler::FcvtSD | InstrHandler::FcvtWD
        | InstrHandler::FcvtLD | InstrHandler::FccS | InstrHandler::FccD | InstrHandler::FcvtSW
        | InstrHandler::FcvtDW | InstrHandler::FcvtSL | InstrHandler::FcvtDL | InstrHandler::Lwxc1
        | InstrHandler::Ldxc1 | InstrHandler::Swxc1 | InstrHandler::Sdxc1 | InstrHandler::Prefx
        | InstrHandler::MaddS | InstrHandler::MaddD | InstrHandler::MsubS | InstrHandler::MsubD
        | InstrHandler::NmaddS | InstrHandler::NmaddD | InstrHandler::NmsubS
        | InstrHandler::NmsubD => true,
        _ => false,
    }
}

fn float_op_of(h: InstrHandler) -> (r: Option<(FloatOp, bool)>)
    ensures
        r == float_op(h),
{
    match h {
        InstrHandler::FaddS => Some((FloatOp::Add, false)),
        InstrHandler::FaddD => Some((FloatOp::Add, true)),
        InstrHandler::FsubS => Some((FloatOp::Sub, false)),
        InstrHandler::FsubD => Some((FloatOp::Sub, true)),
        InstrHandler::FmulS => Some((FloatOp::Mul, false)),
        InstrHandler::FmulD => Some((FloatOp::Mul, true)),
        InstrHandler::FdivS => Some((FloatOp::Div, false)),
        InstrHandler::FdivD => Some((FloatOp::Div, true)),
        InstrHandler::FsqrtS => Some((FloatOp::Sqrt, false)),
        InstrHandler::FsqrtD => Some((FloatOp::Sqrt, true)),
        InstrHandler::FrecipS => Some((FloatOp::Recip, false)),
        InstrHandler::FrecipD => Some((FloatOp::Recip, true)),
        InstrHandler::FrsqrtS => Some((FloatOp::Rsqrt, false)),
        InstrHandler::FrsqrtD => Some((FloatOp::Rsqrt, true)),
        InstrHandler::MaddS => Some((FloatOp::MulAdd, false)),
        InstrHandler::MaddD => Some((FloatOp::MulAdd, true)),
        InstrHandler::MsubS => Some((FloatOp::MulSub, false)),
        InstrHandler::MsubD => Some((FloatOp::MulSub, true)),
        InstrHandler::NmaddS => Some((FloatOp::NegMulAdd, false)),
        InstrHandler::NmaddD => Some((FloatOp::NegMulAdd, true)),
        InstrHandler::NmsubS => Some((FloatOp::NegMulSub, false)),
        InstrHandler::NmsubD => Some((FloatOp::NegMulSub, true)),
        InstrHandler::FcvtDS => Some((FloatOp::Convert, false)),
        InstrHandler::FcvtSD => Some((FloatOp::Convert, true)),
        InstrHandler::FcvtSW => Some((FloatOp::FromWord, false)),
        InstrHandler::FcvtDW => Some((FloatOp::FromWord, true)),
        InstrHandler::FcvtSL => Some((FloatOp::FromLong, false)),
        InstrHandler::FcvtDL => Some((FloatOp::FromLong, true)),
        _ => None,
    }
}

fn to_integer_of(h: InstrHandler) -> (r: Option<ToInteger>)
    ensures
        r == to_integer(h),
        r matches Some(t) ==> (t.mode matches Some(rm) ==> rm <= 3),
{
    match h {
        InstrHandler::FroundLS => Some(
            ToInteger { double: false, wide: true, mode: Some(RM_NEAREST_EVEN) },
        ),
        InstrHandler::FtruncLS => Some(
            ToInteger { double: false, wide: true, mode: Some(RM_TOWARD_ZERO) },
        ),
        InstrHandler::FceilLS => Some(
            ToInteger { double: false, wide: true, mode: Some(RM_TOWARD_POS_INF) },
        ),
        InstrHandler::FfloorLS => Some(
            ToInteger { double: false, wide: true, mode: Some(RM_TOWARD_NEG_INF) },
        ),
        InstrHandler::FcvtLS => Some(
            ToInteger { double: false, wide: true, mode: None },
        ),
        InstrHandler::FroundWS => Some(
            ToInteger { double: false, wide: false, mode: Some(RM_NEAREST_EVEN) },
        ),
        InstrHandler::FtruncWS => Some(
            ToInteger { double: false, wide: false, mode: Some(RM_TOWARD_ZERO) },
        ),
        InstrHandler::FceilWS => Some(
            ToInteger { double: false, wide: false, mode: Some(RM_TOWARD_POS_INF) },
        ),
        InstrHandler::FfloorWS => Some(
            ToInteger { double: false, wide: false, mode: Some(RM_TOWARD_NEG_INF) },
        ),
        InstrHandler::FcvtWS => Some(
            ToInteger { double: false, wide: false, mode: None },
        ),
        InstrHandler::FroundLD => Some(
            ToInteger { double: true, wide: true, mode: Some(RM_NEAREST_EVEN) },
        ),
        InstrHandler::FtruncLD => Some(
            ToInteger { double: true, wide: true, mode: Some(RM_TOWARD_ZERO) },
        ),
        InstrHandler::FceilLD => Some(
            ToInteger { double: true, wide: true, mode: Some(RM_TOWARD_POS_INF) },
        ),
        InstrHandler::FfloorLD => Some(
            ToInteger { double: true, wide: true, mode: Some(RM_TOWARD_NEG_INF) },
        ),
        InstrHandler::FcvtLD => Some(
            ToInteger { double: true, wide: true, mode: None },
        ),
        InstrHandler::FroundWD => Some(
            ToInteger { double: true, wide: false, mode: Some(RM_NEAREST_EVEN) },
        ),
        InstrHandler::FtruncWD => Some(
            ToInteger { double: true, wide: false, mode: Some(RM_TOWARD_ZERO) },
        ),
        InstrHandler::FceilWD => Some(
            ToInteger { double: true, wide: false, mode: Some(RM_TOWARD_POS_INF) },
        ),
        InstrHandler::FfloorWD => Some(
            ToInteger { double: true, wide: false, mode: Some(RM_TOWARD_NEG_INF) },
        ),
        InstrHandler::FcvtWD => Some(
            ToInteger { double: true, wide: false, mode: None },
        ),
        _ => None,
    }
}

proof fn lemma_float_fields(fcsr: u32, sa: u8)
    by (bit_vector)
    ensures
        fcsr & 0x3 <= 3,
        sa & 0x7 < 8,
{
}

impl MipsCore {
    fn float_operand_of(&self, double: bool, r: u8) -> (v: u64)
        requires
            r < 32,
        ensures
            v == self.float_operand(double, r),
    {
        if double {
            self.read_fpr_l(r)
        } else {
            self.read_fpr_w(r) as u64
        }
    }

    fn write_float(&mut self, double: bool, r: u8, bits: u64)
        requires
            r < 32,
        ensures
            *final(self) == old(self).with_float(double, r, bits),
    {
        if double {
            self.write_fpr_l(r, bits);
        } else {
            self.write_fpr_w(r, bits as u32);
        }
    }

    fn rounding_of(&self) -> (rm: u8)
        ensures
            rm == self.rounding(),
            rm <= 3,
    {
        proof {
            lemma_float_fields(self.fpu_fcsr, 0);
        }
        (self.fpu_fcsr & 0x3) as u8
    }

    fn conversion_mode(&self, t: &ToInteger) -> (rm: u8)
        requires
            t.mode matches Some(rm) ==> rm <= 3,
        ensures
            rm == self.mode_of(*t),
            rm <= 3,
    {
        match t.mode {
            Some(rm) => rm,
            None => self.rounding_of(),
        }
    }

    /// What instruction `d` asks to be computed.
    fn float_request_of(&self, d: &DecodedInstr) -> (r: Option<FloatRequest>)
        requires
            fields_bounded(*d),
        ensures
            r == self.float_request(*d),
    {
        if let Some((op, double)) = float_op_of(d.handler) {
            let a: u64 = match op {
                FloatOp::FromWord => self.read_fpr_w(d.rd) as u64,
                FloatOp::FromLong => self.read_fpr_l(d.rd),
                _ => self.float_operand_of(double, d.rd),
            };
            return Some(
                FloatRequest {
                    op,
                    double,
                    wide: false,
                    rm: self.rounding_of(),
                    a,
                    b: self.float_operand_of(double, d.rt),
                    c: self.float_operand_of(double, d.rs),
                },
            );
        }
        if let Some(t) = to_integer_of(d.handler) {
            let rm: u8 = self.conversion_mode(&t);
            let a: u64 = if t.double {
                round_f64_to_int_mode(self.read_fpr_l(d.rd), rm)
            } else {
                round_f32_to_int_mode(self.read_fpr_w(d.rd), rm) as u64
            };
            return Some(
                FloatRequest {
                    op: FloatOp::ToInteger,
                    double: t.double,
                    wide: t.wide,
                    rm,
                    a,
                    b: 0,
                    c: 0,
                },
            );
        }
        None
    }

    /// Puts the result of `d` in place. Returns the exceptions that it raised.
    fn write_float_result(&mut self, d: &DecodedInstr, reply: FloatReply) -> (flags: u32)
        requires
            fields_bounded(*d),
        ensures
            *final(self) == old(self).float_written(*d, reply),
            flags == old(self).float_flags(*d, reply),
    {
        if let Some((op, double)) = float_op_of(d.handler) {
            let result: bool = if op == FloatOp::Convert {
                !double
            } else {
                double
            };
            self.write_float(result, d.sa, reply.bits);
            proof {
                assert(to_integer(d.handler) is None);
            }
            return reply.flags;
        }
        if let Some(t) = to_integer_of(d.handler) {
            let rm: u8 = self.conversion_mode(&t);
            let (i, inexact): (i64, bool) = if t.double {
                f64_to_int(self.read_fpr_l(d.rd), rm, t.wide)
            } else {
                f32_to_int(self.read_fpr_w(d.rd), rm, t.wide)
            };
            if t.wide {
                self.write_fpr_l(d.sa, i as u64);
            } else {
                self.write_fpr_w(d.sa, i as u32);
            }
            return if inexact {
                reply.flags | FCSR_FI
            } else {
                reply.flags & !FCSR_FI
            };
        }
        reply.flags
    }

    fn set_float_flags(&mut self, flags: u32) -> (traps: bool)
        ensures
            *final(self) == old(self).with_float_flags(flags),
            traps == old(self).float_traps(flags),
    {
        let causes: u32 = (flags & FCSR_FM) << 10;
        self.fpu_fcsr = self.fpu_fcsr | causes | (flags & FCSR_FM);
        if causes & FCSR_CU != 0 && self.fpu_fcsr & FCSR_EU != 0 {
            self.fpu_fcsr = self.fpu_fcsr | FCSR_CE;
            return true;
        }
        (causes >> 5) & (self.fpu_fcsr & FCSR_EM) != 0
    }

    fn move_single(&mut self, d: &DecodedInstr)
        requires
            fields_bounded(*d),
        ensures
            *final(self) == old(self).with_fpr_w(
                d.sa,
                pattern32(d.handler, old(self).fpr_w(d.rd)),
            ),
    {
        let x: u32 = self.read_fpr_w(d.rd);
        let y: u32 = match d.handler {
            InstrHandler::FabsS => x & 0x7FFF_FFFF,
            InstrHandler::FnegS => x ^ 0x8000_0000,
            _ => x,
        };
        self.write_fpr_w(d.sa, y);
    }

    fn move_double(&mut self, d: &DecodedInstr)
        requires
            fields_bounded(*d),
        ensures
            *final(self) == old(self).with_fpr_l(
                d.sa,
                pattern64(d.handler, old(self).fpr_l(d.rd)),
            ),
    {
        let x: u64 = self.read_fpr_l(d.rd);
        let y: u64 = match d.handler {
            InstrHandler::FabsD => x & 0x7FFF_FFFF_FFFF_FFFF,
            InstrHandler::FnegD => x ^ 0x8000_0000_0000_0000,
            _ => x,
        };
        self.write_fpr_l(d.sa, y);
    }

    /// Does the floating-point move `d`, if it is one.
    fn exec_float_move(&mut self, d: &DecodedInstr) -> (b: bool)
        requires
            fields_bounded(*d),
        ensures
            b == old(self).float_moved(*d) is Some,
            b ==> *final(self) == old(self).float_moved(*d)->0,
            !b ==> *final(self) == *old(self),
    {
        proof {
            lemma_cc_field(d.raw);
        }
        let tf: bool = (d.raw >> 16) & 0x1 != 0;
        let cc: bool = self.get_fpu_cc((d.raw >> 18) & 0x7) == tf;
        let t: u64 = self.read_gpr(d.rt);
        match d.handler {
            InstrHandler::Mfc1 => {
                let v: u32 = self.read_fpr_w(d.rd);
                self.write_gpr(d.rt, v as i32 as i64 as u64);
            },
            InstrHandler::Dmfc1 => {
                let v: u64 = self.read_fpr_l(d.rd);
                self.write_gpr(d.rt, v);
            },
            InstrHandler::Cfc1 => {
                let v: u32 = self.read_fpu_control(d.rd);
                self.write_gpr(d.rt, v as i32 as i64 as u64);
            },
            InstrHandler::Mtc1 => self.write_fpr_w(d.rd, t as u32),
            InstrHandler::Dmtc1 => self.write_fpr_l(d.rd, t),
            InstrHandler::FabsS | InstrHandler::FnegS => self.move_single(d),
            InstrHandler::FabsD | InstrHandler::FnegD | InstrHandler::FmovS
            | InstrHandler::FmovD => self.move_double(d),
            InstrHandler::FmovcfS => if cc {
                self.move_single(d);
            },
            InstrHandler::FmovcfD => if cc {
                self.move_double(d);
            },
            InstrHandler::FmovzS => if t == 0 {
                self.move_single(d);
            },
            InstrHandler::FmovzD => if t == 0 {
                self.move_double(d);
            },
            InstrHandler::FmovnS => if t != 0 {
                self.move_single(d);
            },
            InstrHandler::FmovnD => if t != 0 {
                self.move_double(d);
            },
            InstrHandler::Prefx => {},
            _ => {
                return false;
            },
        }
        true
    }

    /// Whether the operands of a comparison are unordered, and what it says.
    fn compare_floats(&self, d: &DecodedInstr) -> (r: (bool, bool))
        requires
            fields_bounded(*d),
        ensures
            r == (self.unordered(*d), self.float_condition(*d)),
    {
        if d.handler == InstrHandler::FccD {
            let fs: u64 = self.read_fpr_l(d.rd);
            let ft: u64 = self.read_fpr_l(d.rt);
            (is_nan_f64(fs) || is_nan_f64(ft), fpu_compare_d(fs, ft, d.funct))
        } else {
            let fs: u32 = self.read_fpr_w(d.rd);
            let ft: u32 = self.read_fpr_w(d.rt);
            (is_nan_f32(fs) || is_nan_f32(ft), fpu_compare_s(fs, ft, d.funct))
        }
    }
}

impl<T: Tlb, C: MipsCache, B: BusDevice> MipsExecutor<T, C, B> {
    /// Notes the exceptions of floating-point arithmetic, and ends the instruction.
    fn fpu_update_fcsr(&mut self, flags: u32) -> (s: ExecStatus)
        requires
            old(self).wf(),
        ensures
            final(self).wf(),
            (s, final(self)@) == old(self)@.float_end(flags),
    {
        if flags == 0 {
            return self.handle_exec_complete();
        }
        if self.core.set_float_flags(flags) {
            self.exec_trap(EXC_FPE)
        } else {
            self.handle_exec_complete()
        }
    }

    /// Completes instruction `d`, whose request was answered with `reply`.
    pub fn complete_float(&mut self, d: &DecodedInstr, reply: FloatReply) -> (s: ExecStatus)
        requires
            old(self).wf(),
            fields_bounded(*d),
        ensures
            final(self).wf(),
            (s, final(self)@) == old(self)@.float_done(*d, reply),
    {
        let flags: u32 = self.core.write_float_result(d, reply);
        self.fpu_update_fcsr(flags)
    }

    fn exec_float_compare(&mut self, d: &DecodedInstr) -> (s: ExecStatus)
        requires
            old(self).wf(),
            fields_bounded(*d),
        ensures
            final(self).wf(),
            (s, final(self)@) == old(self)@.float_compare(*d),
    {
        let (unordered, cond): (bool, bool) = self.core.compare_floats(d);
        if d.funct & 0x8 != 0 && unordered {
            self.core.fpu_fcsr = self.core.fpu_fcsr | (FCSR_CV | FCSR_FV);
            if self.core.fpu_fcsr & FCSR_EV != 0 {
                return self.exec_trap(EXC_FPE);
            }
        }
        proof {
            lemma_float_fields(0, d.sa);
        }
        self.core.set_fpu_cc((d.sa & 0x7) as u32, cond);
        self.handle_exec_complete()
    }

    fn exec_float_load(&mut self, double: bool, va: u64, r: u8) -> (s: ExecStatus)
        requires
            old(self).wf(),
            r < 32,
        ensures
            final(self).wf(),
            (s, final(self)@) == old(self)@.float_load(double, va, r),
    {
        let size: usize = if double {
            8
        } else {
            4
        };
        match self.read_data(size, va) {
            Ok(v) => {
                self.core.write_float(double, r, v);
                self.handle_exec_complete()
            },
            Err(s) => self.finish_status(s),
        }
    }

    fn exec_float_store(&mut self, double: bool, va: u64, r: u8) -> (s: ExecStatus)
        requires
            old(self).wf(),
            r < 32,
        ensures
            final(self).wf(),
            (s, final(self)@) == old(self)@.float_store(double, va, r),
    {
        let size: usize = if double {
            8
        } else {
            4
        };
        let v: u64 = self.core.float_operand_of(double, r);
        let s: ExecStatus = self.write_data(size, va, v);
        self.finish_status(s)
    }

    fn exec_float_memory(&mut self, d: &DecodedInstr) -> (s: Option<ExecStatus>)
        requires
            old(self).wf(),
            fields_bounded(*d),
        ensures
            final(self).wf(),
            old(self)@.agrees(old(self)@.float_memory(*d), s, final(self)@),
    {
        let base: u64 = self.core.read_gpr(d.rs);
        let va: u64 = base.wrapping_add(d.immu64());
        let vx: u64 = base.wrapping_add(self.core.read_gpr(d.rt));
        match d.handler {
            InstrHandler::Lwc1 => Some(self.exec_float_load(false, va, d.rt)),
            InstrHandler::Ldc1 => Some(self.exec_float_load(true, va, d.rt)),
            InstrHandler::Swc1 => Some(self.exec_float_store(false, va, d.rt)),
            InstrHandler::Sdc1 => Some(self.exec_float_store(true, va, d.rt)),
            InstrHandler::Lwxc1 => Some(self.exec_float_load(false, vx, d.sa)),
            InstrHandler::Ldxc1 => Some(self.exec_float_load(true, vx, d.sa)),
            InstrHandler::Swxc1 => Some(self.exec_float_store(false, vx, d.rd)),
            InstrHandler::Sdxc1 => Some(self.exec_float_store(true, vx, d.rd)),
            _ => None,
        }
    }

    fn exec_ctc1(&mut self, d: &DecodedInstr) -> (s: ExecStatus)
        requires
            old(self).wf(),
            fields_bounded(*d),
        ensures
            final(self).wf(),
            (s, final(self)@) == old(self)@.float_control(*d),
    {
        let v: u32 = self.core.read_gpr(d.rt) as u32;
        self.core.write_fpu_control(d.rd, v);
        let fcsr: u32 = self.core.fpu_fcsr;
        if d.rd == 31 && (fcsr & FCSR_CE != 0 || ((fcsr & FCSR_CM) >> 5) & (fcsr & FCSR_EM) != 0) {
            return self.exec_trap(EXC_FPE);
        }
        self.handle_exec_complete()
    }

    fn exec_bc1(&mut self, d: &DecodedInstr) -> (s: ExecStatus)
        requires
            old(self).wf(),
            fields_bounded(*d),
        ensures
            final(self).wf(),
            (s, final(self)@) == old(self)@.ended(
                old(self)@.core.after_branch(
                    old(self)@.core.float_branch(*d),
                    old(self)@.core.branch_target(*d),
                ),
            ),
    {
        proof {
            lemma_cc_field(d.raw);
        }
        let cc: bool = self.core.get_fpu_cc((d.raw >> 18) & 0x7);
        let b: Branch = Branch {
            taken: cc == (d.rt & 1 != 0),
            likely: d.rt & 2 != 0,
            link: false,
        };
        let target: u64 = self.core.branch_target_of(d);
        self.core.take_branch(b, target);
        EXEC_COMPLETE
    }

    fn exec_float_now(&mut self, d: &DecodedInstr) -> (s: ExecStatus)
        requires
            old(self).wf(),
            fields_bounded(*d),
        ensures
            final(self).wf(),
            (s, final(self)@) == old(self)@.float_now(*d),
    {
        if self.core.exec_float_move(d) {
            return self.handle_exec_complete();
        }
        if let Some(s) = self.exec_float_memory(d) {
            return s;
        }
        if d.handler == InstrHandler::Ctc1 {
            self.exec_ctc1(d)
        } else if d.handler == InstrHandler::Bc1 {
            self.exec_bc1(d)
        } else {
            self.exec_float_compare(d)
        }
    }

    /// Executes an instruction of the coprocessor, if `d` is one.
    pub(crate) fn exec_float(&mut self, d: &DecodedInstr) -> (s: Option<Step>)
        requires
            old(self).wf(),
            fields_bounded(*d),
        ensures
            final(self).wf(),
            s is Some == is_cop1(d.handler),
            s matches Some(s) ==> (s, final(self)@) == old(self)@.float(*d),
            s is None ==> final(self)@ == old(self)@,
    {
        if !is_cop1_instruction(d.handler) {
            return None;
        }
        if self.core.cp0_status & STATUS_CU1 == 0 {
            return Some(Step::Done(self.cpu_unusable(1)));
        }
        if let Some(r) = self.core.float_request_of(d) {
            return Some(Step::Float(r, *d));
        }
        Some(Step::Done(self.exec_float_now(d)))
    }
}

} // verus!

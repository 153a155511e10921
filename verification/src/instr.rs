//! Decoding of instruction words into the operations that the executor performs.
use vstd::prelude::*;

use crate::isa::{
    OP_SPECIAL, OP_REGIMM, OP_J, OP_JAL, OP_BEQ, OP_BNE,
    OP_BLEZ, OP_BGTZ, OP_ADDI, OP_ADDIU, OP_SLTI, OP_SLTIU,
    OP_ANDI, OP_ORI, OP_XORI, OP_LUI, OP_COP0, OP_COP1,
    OP_COP1X, OP_BEQL, OP_BNEL, OP_BLEZL, OP_BGTZL, OP_DADDI,
    OP_DADDIU, OP_LDL, OP_LDR, OP_LB, OP_LH, OP_LWL,
    OP_LW, OP_LBU, OP_LHU, OP_LWR, OP_LWU, OP_SB,
    OP_SH, OP_SWL, OP_SW, OP_SDL, OP_SDR, OP_SWR,
    OP_CACHE, OP_LL, OP_LWC1, OP_PREF, OP_LLD, OP_LDC1,
    OP_LD, OP_SC, OP_SWC1, OP_SCD, OP_SDC1, OP_SD,
    FUNCT_SLL, FUNCT_MOVCI, FUNCT_SRL, FUNCT_SRA, FUNCT_SLLV, FUNCT_SRLV,
    FUNCT_SRAV, FUNCT_JR, FUNCT_JALR, FUNCT_MOVZ, FUNCT_MOVN, FUNCT_SYSCALL,
    FUNCT_BREAK, FUNCT_SYNC, FUNCT_MFHI, FUNCT_MTHI, FUNCT_MFLO, FUNCT_MTLO,
    FUNCT_DSLLV, FUNCT_DSRLV, FUNCT_DSRAV, FUNCT_MULT, FUNCT_MULTU, FUNCT_DIV,
    FUNCT_DIVU, FUNCT_DMULT, FUNCT_DMULTU, FUNCT_DDIV, FUNCT_DDIVU, FUNCT_ADD,
    FUNCT_ADDU, FUNCT_SUB, FUNCT_SUBU, FUNCT_AND, FUNCT_OR, FUNCT_XOR,
    FUNCT_NOR, FUNCT_SLT, FUNCT_SLTU, FUNCT_DADD, FUNCT_DADDU, FUNCT_DSUB,
    FUNCT_DSUBU, FUNCT_TGE, FUNCT_TGEU, FUNCT_TLT, FUNCT_TLTU, FUNCT_TEQ,
    FUNCT_TNE, FUNCT_DSLL, FUNCT_DSRL, FUNCT_DSRA, FUNCT_DSLL32, FUNCT_DSRL32,
    FUNCT_DSRA32, RT_BLTZ, RT_BGEZ, RT_BLTZL, RT_BGEZL, RT_TGEI,
    RT_TGEIU, RT_TLTI, RT_TLTIU, RT_TEQI, RT_TNEI, RT_BLTZAL,
    RT_BGEZAL, RT_BLTZALL, RT_BGEZALL, RS_MFC1, RS_DMFC1, RS_CFC1,
    RS_MTC1, RS_DMTC1, RS_CTC1, RS_BC1, RS_S, RS_D,
    RS_W, RS_L, FUNCT_FADD, FUNCT_FSUB, FUNCT_FMUL, FUNCT_FDIV,
    FUNCT_FSQRT, FUNCT_FABS, FUNCT_FMOV, FUNCT_FNEG, FUNCT_FROUND_L, FUNCT_FTRUNC_L,
    FUNCT_FCEIL_L, FUNCT_FFLOOR_L, FUNCT_FROUND_W, FUNCT_FTRUNC_W, FUNCT_FCEIL_W, FUNCT_FFLOOR_W,
    FUNCT_FMOVCF, FUNCT_FMOVZ, FUNCT_FMOVN, FUNCT_FRECIP, FUNCT_FRSQRT, FUNCT_FCVT_S,
    FUNCT_FCVT_D, FUNCT_FCVT_W, FUNCT_FCVT_L, FUNCT_FC_F, FUNCT_FC_NGT, FUNCT_LWXC1,
    FUNCT_LDXC1, FUNCT_SWXC1, FUNCT_SDXC1, FUNCT_PREFX, FUNCT_MADD_S, FUNCT_MADD_D,
    FUNCT_MSUB_S, FUNCT_MSUB_D, FUNCT_NMADD_S, FUNCT_NMADD_D, FUNCT_NMSUB_S, FUNCT_NMSUB_D,
};

verus! {

/// The operation that a decoded instruction performs.
#[derive(Clone, Copy, PartialEq, Eq, Structural, Debug)]
pub enum InstrHandler {
    /// No instruction of the machine: raises a reserved-instruction exception.
    Reserved,
    Sll,
    Movci,
    Srl,
    Sra,
    Sllv,
    Srlv,
    Srav,
    Jr,
    Jalr,
    Movz,
    Movn,
    Syscall,
    Break,
    Sync,
    Mfhi,
    Mthi,
    Mflo,
    Mtlo,
    Dsllv,
    Dsrlv,
    Dsrav,
    Mult,
    Multu,
    Div,
    Divu,
    Dmult,
    Dmultu,
    Ddiv,
    Ddivu,
    Add,
    Addu,
    Sub,
    Subu,
    And,
    Or,
    Xor,
    Nor,
    Slt,
    Sltu,
    Dadd,
    Daddu,
    Dsub,
    Dsubu,
    Tge,
    Tgeu,
    Tlt,
    Tltu,
    Teq,
    Tne,
    Dsll,
    Dsrl,
    Dsra,
    Dsll32,
    Dsrl32,
    Dsra32,
    Bltz,
    Bgez,
    Bltzl,
    Bgezl,
    Tgei,
    Tgeiu,
    Tlti,
    Tltiu,
    Teqi,
    Tnei,
    Bltzal,
    Bgezal,
    Bltzall,
    Bgezall,
    J,
    Jal,
    Beq,
    Bne,
    Blez,
    Bgtz,
    Addi,
    Addiu,
    Slti,
    Sltiu,
    Andi,
    Ori,
    Xori,
    Lui,
    Cop0,
    Beql,
    Bnel,
    Blezl,
    Bgtzl,
    Daddi,
    Daddiu,
    Ldl,
    Ldr,
    Lb,
    Lh,
    Lwl,
    Lw,
    Lbu,
    Lhu,
    Lwr,
    Lwu,
    Sb,
    Sh,
    Swl,
    Sw,
    Sdl,
    Sdr,
    Swr,
    Cache,
    Ll,
    Lwc1,
    Pref,
    Lld,
    Ldc1,
    Ld,
    Sc,
    Swc1,
    Scd,
    Sdc1,
    Sd,
    Mfc1,
    Dmfc1,
    Cfc1,
    Mtc1,
    Dmtc1,
    Ctc1,
    Bc1,
    FaddS,
    FsubS,
    FmulS,
    FdivS,
    FsqrtS,
    FabsS,
    FmovS,
    FnegS,
    FroundLS,
    FtruncLS,
    FceilLS,
    FfloorLS,
    FroundWS,
    FtruncWS,
    FceilWS,
    FfloorWS,
    FmovcfS,
    FmovzS,
    FmovnS,
    FrecipS,
    FrsqrtS,
    FcvtDS,
    FcvtWS,
    FcvtLS,
    FaddD,
    FsubD,
    FmulD,
    FdivD,
    FsqrtD,
    FabsD,
    FmovD,
    FnegD,
    FroundLD,
    FtruncLD,
    FceilLD,
    FfloorLD,
    FroundWD,
    FtruncWD,
    FceilWD,
    FfloorWD,
    FmovcfD,
    FmovzD,
    FmovnD,
    FrecipD,
    FrsqrtD,
    FcvtSD,
    FcvtWD,
    FcvtLD,
    FccS,
    FccD,
    FcvtSW,
    FcvtDW,
    FcvtSL,
    FcvtDL,
    Lwxc1,
    Ldxc1,
    Swxc1,
    Sdxc1,
    Prefx,
    MaddS,
    MaddD,
    MsubS,
    MsubD,
    NmaddS,
    NmaddD,
    NmsubS,
    NmsubD,
    /// A jump or branch whose delay slot holds a NOP, both done in one step.
    JrNop,
    JNop,
    JalNop,
    BeqNop,
    BneNop,
    /// An address computation together with the load or store that uses it.
    AdduLs,
    SubuLs,
    AddiuLs,
    /// `lui` together with the `ori` or `addiu` that completes a 32-bit constant.
    LuiImm32,
    LuiSimm32,
}

/// Where an instruction sits in the opcode map.
pub enum Encoding {
    /// No encoding of its own.
    Unencoded,
    /// A major opcode.
    Major(u32),
    /// SPECIAL with a function.
    Special(u32),
    /// REGIMM with a selector.
    RegImm(u32),
    /// COP1 with a selector.
    Cop1(u32),
    /// COP1 with a format and a function.
    Fpu(u32, u32),
    /// COP1 with a format and any of the sixteen compare functions.
    FpuCompare(u32),
    /// COP1X with a function.
    Cop1x(u32),
}

/// The opcode map: each operation's place. Fused operations and `Reserved` have none.
pub open spec fn encoding(h: InstrHandler) -> Encoding {
    match h {
        InstrHandler::Sll => Encoding::Special(FUNCT_SLL),
        InstrHandler::Movci => Encoding::Special(FUNCT_MOVCI),
        InstrHandler::Srl => Encoding::Special(FUNCT_SRL),
        InstrHandler::Sra => Encoding::Special(FUNCT_SRA),
        InstrHandler::Sllv => Encoding::Special(FUNCT_SLLV),
        InstrHandler::Srlv => Encoding::Special(FUNCT_SRLV),
        InstrHandler::Srav => Encoding::Special(FUNCT_SRAV),
        InstrHandler::Jr => Encoding::Special(FUNCT_JR),
        InstrHandler::Jalr => Encoding::Special(FUNCT_JALR),
        InstrHandler::Movz => Encoding::Special(FUNCT_MOVZ),
        InstrHandler::Movn => Encoding::Special(FUNCT_MOVN),
        InstrHandler::Syscall => Encoding::Special(FUNCT_SYSCALL),
        InstrHandler::Break => Encoding::Special(FUNCT_BREAK),
        InstrHandler::Sync => Encoding::Special(FUNCT_SYNC),
        InstrHandler::Mfhi => Encoding::Special(FUNCT_MFHI),
        InstrHandler::Mthi => Encoding::Special(FUNCT_MTHI),
        InstrHandler::Mflo => Encoding::Special(FUNCT_MFLO),
        InstrHandler::Mtlo => Encoding::Special(FUNCT_MTLO),
        InstrHandler::Dsllv => Encoding::Special(FUNCT_DSLLV),
        InstrHandler::Dsrlv => Encoding::Special(FUNCT_DSRLV),
        InstrHandler::Dsrav => Encoding::Special(FUNCT_DSRAV),
        InstrHandler::Mult => Encoding::Special(FUNCT_MULT),
        InstrHandler::Multu => Encoding::Special(FUNCT_MULTU),
        InstrHandler::Div => Encoding::Special(FUNCT_DIV),
        InstrHandler::Divu => Encoding::Special(FUNCT_DIVU),
        InstrHandler::Dmult => Encoding::Special(FUNCT_DMULT),
        InstrHandler::Dmultu => Encoding::Special(FUNCT_DMULTU),
        InstrHandler::Ddiv => Encoding::Special(FUNCT_DDIV),
        InstrHandler::Ddivu => Encoding::Special(FUNCT_DDIVU),
        InstrHandler::Add => Encoding::Special(FUNCT_ADD),
        InstrHandler::Addu => Encoding::Special(FUNCT_ADDU),
        InstrHandler::Sub => Encoding::Special(FUNCT_SUB),
        InstrHandler::Subu => Encoding::Special(FUNCT_SUBU),
        InstrHandler::And => Encoding::Special(FUNCT_AND),
        InstrHandler::Or => Encoding::Special(FUNCT_OR),
        InstrHandler::Xor => Encoding::Special(FUNCT_XOR),
        InstrHandler::Nor => Encoding::Special(FUNCT_NOR),
        InstrHandler::Slt => Encoding::Special(FUNCT_SLT),
        InstrHandler::Sltu => Encoding::Special(FUNCT_SLTU),
        InstrHandler::Dadd => Encoding::Special(FUNCT_DADD),
        InstrHandler::Daddu => Encoding::Special(FUNCT_DADDU),
        InstrHandler::Dsub => Encoding::Special(FUNCT_DSUB),
        InstrHandler::Dsubu => Encoding::Special(FUNCT_DSUBU),
        InstrHandler::Tge => Encoding::Special(FUNCT_TGE),
        InstrHandler::Tgeu => Encoding::Special(FUNCT_TGEU),
        InstrHandler::Tlt => Encoding::Special(FUNCT_TLT),
        InstrHandler::Tltu => Encoding::Special(FUNCT_TLTU),
        InstrHandler::Teq => Encoding::Special(FUNCT_TEQ),
        InstrHandler::Tne => Encoding::Special(FUNCT_TNE),
        InstrHandler::Dsll => Encoding::Special(FUNCT_DSLL),
        InstrHandler::Dsrl => Encoding::Special(FUNCT_DSRL),
        InstrHandler::Dsra => Encoding::Special(FUNCT_DSRA),
        InstrHandler::Dsll32 => Encoding::Special(FUNCT_DSLL32),
        InstrHandler::Dsrl32 => Encoding::Special(FUNCT_DSRL32),
        InstrHandler::Dsra32 => Encoding::Special(FUNCT_DSRA32),
        InstrHandler::Bltz => Encoding::RegImm(RT_BLTZ),
        InstrHandler::Bgez => Encoding::RegImm(RT_BGEZ),
        InstrHandler::Bltzl => Encoding::RegImm(RT_BLTZL),
        InstrHandler::Bgezl => Encoding::RegImm(RT_BGEZL),
        InstrHandler::Tgei => Encoding::RegImm(RT_TGEI),
        InstrHandler::Tgeiu => Encoding::RegImm(RT_TGEIU),
        InstrHandler::Tlti => Encoding::RegImm(RT_TLTI),
        InstrHandler::Tltiu => Encoding::RegImm(RT_TLTIU),
        InstrHandler::Teqi => Encoding::RegImm(RT_TEQI),
        InstrHandler::Tnei => Encoding::RegImm(RT_TNEI),
        InstrHandler::Bltzal => Encoding::RegImm(RT_BLTZAL),
        InstrHandler::Bgezal => Encoding::RegImm(RT_BGEZAL),
        InstrHandler::Bltzall => Encoding::RegImm(RT_BLTZALL),
        InstrHandler::Bgezall => Encoding::RegImm(RT_BGEZALL),
        InstrHandler::J => Encoding::Major(OP_J),
        InstrHandler::Jal => Encoding::Major(OP_JAL),
        InstrHandler::Beq => Encoding::Major(OP_BEQ),
        InstrHandler::Bne => Encoding::Major(OP_BNE),
        InstrHandler::Blez => Encoding::Major(OP_BLEZ),
        InstrHandler::Bgtz => Encoding::Major(OP_BGTZ),
        InstrHandler::Addi => Encoding::Major(OP_ADDI),
        InstrHandler::Addiu => Encoding::Major(OP_ADDIU),
        InstrHandler::Slti => Encoding::Major(OP_SLTI),
        InstrHandler::Sltiu => Encoding::Major(OP_SLTIU),
        InstrHandler::Andi => Encoding::Major(OP_ANDI),
        InstrHandler::Ori => Encoding::Major(OP_ORI),
        InstrHandler::Xori => Encoding::Major(OP_XORI),
        InstrHandler::Lui => Encoding::Major(OP_LUI),
        InstrHandler::Cop0 => Encoding::Major(OP_COP0),
        InstrHandler::Beql => Encoding::Major(OP_BEQL),
        InstrHandler::Bnel => Encoding::Major(OP_BNEL),
        InstrHandler::Blezl => Encoding::Major(OP_BLEZL),
        InstrHandler::Bgtzl => Encoding::Major(OP_BGTZL),
        InstrHandler::Daddi => Encoding::Major(OP_DADDI),
        InstrHandler::Daddiu => Encoding::Major(OP_DADDIU),
        InstrHandler::Ldl => Encoding::Major(OP_LDL),
        InstrHandler::Ldr => Encoding::Major(OP_LDR),
        InstrHandler::Lb => Encoding::Major(OP_LB),
        InstrHandler::Lh => Encoding::Major(OP_LH),
        InstrHandler::Lwl => Encoding::Major(OP_LWL),
        InstrHandler::Lw => Encoding::Major(OP_LW),
        InstrHandler::Lbu => Encoding::Major(OP_LBU),
        InstrHandler::Lhu => Encoding::Major(OP_LHU),
        InstrHandler::Lwr => Encoding::Major(OP_LWR),
        InstrHandler::Lwu => Encoding::Major(OP_LWU),
        InstrHandler::Sb => Encoding::Major(OP_SB),
        InstrHandler::Sh => Encoding::Major(OP_SH),
        InstrHandler::Swl => Encoding::Major(OP_SWL),
        InstrHandler::Sw => Encoding::Major(OP_SW),
        InstrHandler::Sdl => Encoding::Major(OP_SDL),
        InstrHandler::Sdr => Encoding::Major(OP_SDR),
        InstrHandler::Swr => Encoding::Major(OP_SWR),
        InstrHandler::Cache => Encoding::Major(OP_CACHE),
        InstrHandler::Ll => Encoding::Major(OP_LL),
        InstrHandler::Lwc1 => Encoding::Major(OP_LWC1),
        InstrHandler::Pref => Encoding::Major(OP_PREF),
        InstrHandler::Lld => Encoding::Major(OP_LLD),
        InstrHandler::Ldc1 => Encoding::Major(OP_LDC1),
        InstrHandler::Ld => Encoding::Major(OP_LD),
        InstrHandler::Sc => Encoding::Major(OP_SC),
        InstrHandler::Swc1 => Encoding::Major(OP_SWC1),
        InstrHandler::Scd => Encoding::Major(OP_SCD),
        InstrHandler::Sdc1 => Encoding::Major(OP_SDC1),
        InstrHandler::Sd => Encoding::Major(OP_SD),
        InstrHandler::Mfc1 => Encoding::Cop1(RS_MFC1),
        InstrHandler::Dmfc1 => Encoding::Cop1(RS_DMFC1),
        InstrHandler::Cfc1 => Encoding::Cop1(RS_CFC1),
        InstrHandler::Mtc1 => Encoding::Cop1(RS_MTC1),
        InstrHandler::Dmtc1 => Encoding::Cop1(RS_DMTC1),
        InstrHandler::Ctc1 => Encoding::Cop1(RS_CTC1),
        InstrHandler::Bc1 => Encoding::Cop1(RS_BC1),
        InstrHandler::FaddS => Encoding::Fpu(RS_S, FUNCT_FADD),
        InstrHandler::FsubS => Encoding::Fpu(RS_S, FUNCT_FSUB),
        InstrHandler::FmulS => Encoding::Fpu(RS_S, FUNCT_FMUL),
        InstrHandler::FdivS => Encoding::Fpu(RS_S, FUNCT_FDIV),
        InstrHandler::FsqrtS => Encoding::Fpu(RS_S, FUNCT_FSQRT),
        InstrHandler::FabsS => Encoding::Fpu(RS_S, FUNCT_FABS),
        InstrHandler::FmovS => Encoding::Fpu(RS_S, FUNCT_FMOV),
        InstrHandler::FnegS => Encoding::Fpu(RS_S, FUNCT_FNEG),
        InstrHandler::FroundLS => Encoding::Fpu(RS_S, FUNCT_FROUND_L),
        InstrHandler::FtruncLS => Encoding::Fpu(RS_S, FUNCT_FTRUNC_L),
        InstrHandler::FceilLS => Encoding::Fpu(RS_S, FUNCT_FCEIL_L),
        InstrHandler::FfloorLS => Encoding::Fpu(RS_S, FUNCT_FFLOOR_L),
        InstrHandler::FroundWS => Encoding::Fpu(RS_S, FUNCT_FROUND_W),
        InstrHandler::FtruncWS => Encoding::Fpu(RS_S, FUNCT_FTRUNC_W),
        InstrHandler::FceilWS => Encoding::Fpu(RS_S, FUNCT_FCEIL_W),
        InstrHandler::FfloorWS => Encoding::Fpu(RS_S, FUNCT_FFLOOR_W),
        InstrHandler::FmovcfS => Encoding::Fpu(RS_S, FUNCT_FMOVCF),
        InstrHandler::FmovzS => Encoding::Fpu(RS_S, FUNCT_FMOVZ),
        InstrHandler::FmovnS => Encoding::Fpu(RS_S, FUNCT_FMOVN),
        InstrHandler::FrecipS => Encoding::Fpu(RS_S, FUNCT_FRECIP),
        InstrHandler::FrsqrtS => Encoding::Fpu(RS_S, FUNCT_FRSQRT),
        InstrHandler::FcvtDS => Encoding::Fpu(RS_S, FUNCT_FCVT_D),
        InstrHandler::FcvtWS => Encoding::Fpu(RS_S, FUNCT_FCVT_W),
        InstrHandler::FcvtLS => Encoding::Fpu(RS_S, FUNCT_FCVT_L),
        InstrHandler::FaddD => Encoding::Fpu(RS_D, FUNCT_FADD),
        InstrHandler::FsubD => Encoding::Fpu(RS_D, FUNCT_FSUB),
        InstrHandler::FmulD => Encoding::Fpu(RS_D, FUNCT_FMUL),
        InstrHandler::FdivD => Encoding::Fpu(RS_D, FUNCT_FDIV),
        InstrHandler::FsqrtD => Encoding::Fpu(RS_D, FUNCT_FSQRT),
        InstrHandler::FabsD => Encoding::Fpu(RS_D, FUNCT_FABS),
        InstrHandler::FmovD => Encoding::Fpu(RS_D, FUNCT_FMOV),
        InstrHandler::FnegD => Encoding::Fpu(RS_D, FUNCT_FNEG),
        InstrHandler::FroundLD => Encoding::Fpu(RS_D, FUNCT_FROUND_L),
        InstrHandler::FtruncLD => Encoding::Fpu(RS_D, FUNCT_FTRUNC_L),
        InstrHandler::FceilLD => Encoding::Fpu(RS_D, FUNCT_FCEIL_L),
        InstrHandler::FfloorLD => Encoding::Fpu(RS_D, FUNCT_FFLOOR_L),
        InstrHandler::FroundWD => Encoding::Fpu(RS_D, FUNCT_FROUND_W),
        InstrHandler::FtruncWD => Encoding::Fpu(RS_D, FUNCT_FTRUNC_W),
        InstrHandler::FceilWD => Encoding::Fpu(RS_D, FUNCT_FCEIL_W),
        InstrHandler::FfloorWD => Encoding::Fpu(RS_D, FUNCT_FFLOOR_W),
        InstrHandler::FmovcfD => Encoding::Fpu(RS_D, FUNCT_FMOVCF),
        InstrHandler::FmovzD => Encoding::Fpu(RS_D, FUNCT_FMOVZ),
        InstrHandler::FmovnD => Encoding::Fpu(RS_D, FUNCT_FMOVN),
        InstrHandler::FrecipD => Encoding::Fpu(RS_D, FUNCT_FRECIP),
        InstrHandler::FrsqrtD => Encoding::Fpu(RS_D, FUNCT_FRSQRT),
        InstrHandler::FcvtSD => Encoding::Fpu(RS_D, FUNCT_FCVT_S),
        InstrHandler::FcvtWD => Encoding::Fpu(RS_D, FUNCT_FCVT_W),
        InstrHandler::FcvtLD => Encoding::Fpu(RS_D, FUNCT_FCVT_L),
        InstrHandler::FccS => Encoding::FpuCompare(RS_S),
        InstrHandler::FccD => Encoding::FpuCompare(RS_D),
        InstrHandler::FcvtSW => Encoding::Fpu(RS_W, FUNCT_FCVT_S),
        InstrHandler::FcvtDW => Encoding::Fpu(RS_W, FUNCT_FCVT_D),
        InstrHandler::FcvtSL => Encoding::Fpu(RS_L, FUNCT_FCVT_S),
        InstrHandler::FcvtDL => Encoding::Fpu(RS_L, FUNCT_FCVT_D),
        InstrHandler::Lwxc1 => Encoding::Cop1x(FUNCT_LWXC1),
        InstrHandler::Ldxc1 => Encoding::Cop1x(FUNCT_LDXC1),
        InstrHandler::Swxc1 => Encoding::Cop1x(FUNCT_SWXC1),
        InstrHandler::Sdxc1 => Encoding::Cop1x(FUNCT_SDXC1),
        InstrHandler::Prefx => Encoding::Cop1x(FUNCT_PREFX),
        InstrHandler::MaddS => Encoding::Cop1x(FUNCT_MADD_S),
        InstrHandler::MaddD => Encoding::Cop1x(FUNCT_MADD_D),
        InstrHandler::MsubS => Encoding::Cop1x(FUNCT_MSUB_S),
        InstrHandler::MsubD => Encoding::Cop1x(FUNCT_MSUB_D),
        InstrHandler::NmaddS => Encoding::Cop1x(FUNCT_NMADD_S),
        InstrHandler::NmaddD => Encoding::Cop1x(FUNCT_NMADD_D),
        InstrHandler::NmsubS => Encoding::Cop1x(FUNCT_NMSUB_S),
        InstrHandler::NmsubD => Encoding::Cop1x(FUNCT_NMSUB_D),
        _ => Encoding::Unencoded,
    }
}

/// How an operation's immediate is laid out.
pub enum ImmForm {
    Absent,
    Signed,
    Branch,
    Unsigned,
    Upper,
    Jump,
}

/// The immediate layout that each operation uses.
pub open spec fn imm_form(h: InstrHandler) -> ImmForm {
    match h {
        InstrHandler::Tgei
        | InstrHandler::Tgeiu
        | InstrHandler::Tlti
        | InstrHandler::Tltiu
        | InstrHandler::Teqi
        | InstrHandler::Tnei
        | InstrHandler::Addi
        | InstrHandler::Addiu
        | InstrHandler::Slti
        | InstrHandler::Sltiu
        | InstrHandler::Daddi
        | InstrHandler::Daddiu
        | InstrHandler::Ldl
        | InstrHandler::Ldr
        | InstrHandler::Lb
        | InstrHandler::Lh
        | InstrHandler::Lwl
        | InstrHandler::Lw
        | InstrHandler::Lbu
        | InstrHandler::Lhu
        | InstrHandler::Lwr
        | InstrHandler::Lwu
        | InstrHandler::Sb
        | InstrHandler::Sh
        | InstrHandler::Swl
        | InstrHandler::Sw
        | InstrHandler::Sdl
        | InstrHandler::Sdr
        | InstrHandler::Swr
        | InstrHandler::Cache
        | InstrHandler::Ll
        | InstrHandler::Lwc1
        | InstrHandler::Lld
        | InstrHandler::Ldc1
        | InstrHandler::Ld
        | InstrHandler::Sc
        | InstrHandler::Swc1
        | InstrHandler::Scd
        | InstrHandler::Sdc1
        | InstrHandler::Sd => ImmForm::Signed,
        InstrHandler::Bltz
        | InstrHandler::Bgez
        | InstrHandler::Bltzl
        | InstrHandler::Bgezl
        | InstrHandler::Bltzal
        | InstrHandler::Bgezal
        | InstrHandler::Bltzall
        | InstrHandler::Bgezall
        | InstrHandler::Beq
        | InstrHandler::Bne
        | InstrHandler::Blez
        | InstrHandler::Bgtz
        | InstrHandler::Beql
        | InstrHandler::Bnel
        | InstrHandler::Blezl
        | InstrHandler::Bgtzl
        | InstrHandler::Bc1
        | InstrHandler::BeqNop
        | InstrHandler::BneNop => ImmForm::Branch,
        InstrHandler::Andi
        | InstrHandler::Ori
        | InstrHandler::Xori => ImmForm::Unsigned,
        InstrHandler::Lui => ImmForm::Upper,
        InstrHandler::J
        | InstrHandler::Jal
        | InstrHandler::JNop
        | InstrHandler::JalNop => ImmForm::Jump,
        _ => ImmForm::Absent,
    }
}

/// The fields of an instruction word.
pub open spec fn field_op(raw: u32) -> u32 {
    (raw >> 26) & 0x3F
}

pub open spec fn field_rs(raw: u32) -> u32 {
    (raw >> 21) & 0x1F
}

pub open spec fn field_rt(raw: u32) -> u32 {
    (raw >> 16) & 0x1F
}

pub open spec fn field_rd(raw: u32) -> u32 {
    (raw >> 11) & 0x1F
}

pub open spec fn field_sa(raw: u32) -> u32 {
    (raw >> 6) & 0x1F
}

pub open spec fn field_funct(raw: u32) -> u32 {
    raw & 0x3F
}

/// The word `raw` lies at place `e` of the opcode map.
pub open spec fn encodes(raw: u32, e: Encoding) -> bool {
    match e {
        Encoding::Unencoded => false,
        Encoding::Major(op) => field_op(raw) == op,
        Encoding::Special(f) => field_op(raw) == OP_SPECIAL && field_funct(raw) == f,
        Encoding::RegImm(rt) => field_op(raw) == OP_REGIMM && field_rt(raw) == rt,
        Encoding::Cop1(rs) => field_op(raw) == OP_COP1 && field_rs(raw) == rs,
        Encoding::Fpu(fmt, f) => field_op(raw) == OP_COP1 && field_rs(raw) == fmt && field_funct(
            raw,
        ) == f,
        Encoding::FpuCompare(fmt) => field_op(raw) == OP_COP1 && field_rs(raw) == fmt && FUNCT_FC_F
            <= field_funct(raw) <= FUNCT_FC_NGT,
        Encoding::Cop1x(f) => field_op(raw) == OP_COP1X && field_funct(raw) == f,
    }
}

/// `h` is what `raw` encodes: the operation at its place of the opcode map, or
/// `Reserved` where the map holds none.
pub open spec fn is_operation(raw: u32, h: InstrHandler) -> bool {
    if h == InstrHandler::Reserved {
        forall|g: InstrHandler| !encodes(raw, #[trigger] encoding(g))
    } else {
        encodes(raw, encoding(h))
    }
}

/// The operation that `raw` encodes.
pub open spec fn operation(raw: u32) -> InstrHandler {
    choose|h: InstrHandler| is_operation(raw, h)
}

/// Law: the opcode map gives no word two operations.
#[verifier::rlimit(50)]
pub proof fn law_one_operation_per_word(raw: u32, g: InstrHandler, h: InstrHandler)
    requires
        is_operation(raw, g),
        is_operation(raw, h),
    ensures
        g == h,
{
}

/// The SPECIAL operation with function `sel`.
fn select_special(sel: u32) -> (h: InstrHandler)
    ensures
        h != InstrHandler::Reserved ==> encoding(h) == Encoding::Special(sel),
        h == InstrHandler::Reserved ==> forall|g: InstrHandler| #[trigger] encoding(g) != Encoding::Special(sel),
{
    match sel {
        FUNCT_SLL => InstrHandler::Sll,
        FUNCT_MOVCI => InstrHandler::Movci,
        FUNCT_SRL => InstrHandler::Srl,
        FUNCT_SRA => InstrHandler::Sra,
        FUNCT_SLLV => InstrHandler::Sllv,
        FUNCT_SRLV => InstrHandler::Srlv,
        FUNCT_SRAV => InstrHandler::Srav,
        FUNCT_JR => InstrHandler::Jr,
        FUNCT_JALR => InstrHandler::Jalr,
        FUNCT_MOVZ => InstrHandler::Movz,
        FUNCT_MOVN => InstrHandler::Movn,
        FUNCT_SYSCALL => InstrHandler::Syscall,
        FUNCT_BREAK => InstrHandler::Break,
        FUNCT_SYNC => InstrHandler::Sync,
        FUNCT_MFHI => InstrHandler::Mfhi,
        FUNCT_MTHI => InstrHandler::Mthi,
        FUNCT_MFLO => InstrHandler::Mflo,
        FUNCT_MTLO => InstrHandler::Mtlo,
        FUNCT_DSLLV => InstrHandler::Dsllv,
        FUNCT_DSRLV => InstrHandler::Dsrlv,
        FUNCT_DSRAV => InstrHandler::Dsrav,
        FUNCT_MULT => InstrHandler::Mult,
        FUNCT_MULTU => InstrHandler::Multu,
        FUNCT_DIV => InstrHandler::Div,
        FUNCT_DIVU => InstrHandler::Divu,
        FUNCT_DMULT => InstrHandler::Dmult,
        FUNCT_DMULTU => InstrHandler::Dmultu,
        FUNCT_DDIV => InstrHandler::Ddiv,
        FUNCT_DDIVU => InstrHandler::Ddivu,
        FUNCT_ADD => InstrHandler::Add,
        FUNCT_ADDU => InstrHandler::Addu,
        FUNCT_SUB => InstrHandler::Sub,
        FUNCT_SUBU => InstrHandler::Subu,
        FUNCT_AND => InstrHandler::And,
        FUNCT_OR => InstrHandler::Or,
        FUNCT_XOR => InstrHandler::Xor,
        FUNCT_NOR => InstrHandler::Nor,
        FUNCT_SLT => InstrHandler::Slt,
        FUNCT_SLTU => InstrHandler::Sltu,
        FUNCT_DADD => InstrHandler::Dadd,
        FUNCT_DADDU => InstrHandler::Daddu,
        FUNCT_DSUB => InstrHandler::Dsub,
        FUNCT_DSUBU => InstrHandler::Dsubu,
        FUNCT_TGE => InstrHandler::Tge,
        FUNCT_TGEU => InstrHandler::Tgeu,
        FUNCT_TLT => InstrHandler::Tlt,
        FUNCT_TLTU => InstrHandler::Tltu,
        FUNCT_TEQ => InstrHandler::Teq,
        FUNCT_TNE => InstrHandler::Tne,
        FUNCT_DSLL => InstrHandler::Dsll,
        FUNCT_DSRL => InstrHandler::Dsrl,
        FUNCT_DSRA => InstrHandler::Dsra,
        FUNCT_DSLL32 => InstrHandler::Dsll32,
        FUNCT_DSRL32 => InstrHandler::Dsrl32,
        FUNCT_DSRA32 => InstrHandler::Dsra32,
        _ => InstrHandler::Reserved,
    }
}

/// The REGIMM operation with selector `sel`.
fn select_regimm(sel: u32) -> (h: InstrHandler)
    ensures
        h != InstrHandler::Reserved ==> encoding(h) == Encoding::RegImm(sel),
        h == InstrHandler::Reserved ==> forall|g: InstrHandler| #[trigger] encoding(g) != Encoding::RegImm(sel),
{
    match sel {
        RT_BLTZ => InstrHandler::Bltz,
        RT_BGEZ => InstrHandler::Bgez,
        RT_BLTZL => InstrHandler::Bltzl,
        RT_BGEZL => InstrHandler::Bgezl,
        RT_TGEI => InstrHandler::Tgei,
        RT_TGEIU => InstrHandler::Tgeiu,
        RT_TLTI => InstrHandler::Tlti,
        RT_TLTIU => InstrHandler::Tltiu,
        RT_TEQI => InstrHandler::Teqi,
        RT_TNEI => InstrHandler::Tnei,
        RT_BLTZAL => InstrHandler::Bltzal,
        RT_BGEZAL => InstrHandler::Bgezal,
        RT_BLTZALL => InstrHandler::Bltzall,
        RT_BGEZALL => InstrHandler::Bgezall,
        _ => InstrHandler::Reserved,
    }
}

/// The operation with major opcode `sel`.
fn select_major(sel: u32) -> (h: InstrHandler)
    ensures
        h != InstrHandler::Reserved ==> encoding(h) == Encoding::Major(sel),
        h == InstrHandler::Reserved ==> forall|g: InstrHandler| #[trigger] encoding(g) != Encoding::Major(sel),
{
    match sel {
        OP_J => InstrHandler::J,
        OP_JAL => InstrHandler::Jal,
        OP_BEQ => InstrHandler::Beq,
        OP_BNE => InstrHandler::Bne,
        OP_BLEZ => InstrHandler::Blez,
        OP_BGTZ => InstrHandler::Bgtz,
        OP_ADDI => InstrHandler::Addi,
        OP_ADDIU => InstrHandler::Addiu,
        OP_SLTI => InstrHandler::Slti,
        OP_SLTIU => InstrHandler::Sltiu,
        OP_ANDI => InstrHandler::Andi,
        OP_ORI => InstrHandler::Ori,
        OP_XORI => InstrHandler::Xori,
        OP_LUI => InstrHandler::Lui,
        OP_COP0 => InstrHandler::Cop0,
        OP_BEQL => InstrHandler::Beql,
        OP_BNEL => InstrHandler::Bnel,
        OP_BLEZL => InstrHandler::Blezl,
        OP_BGTZL => InstrHandler::Bgtzl,
        OP_DADDI => InstrHandler::Daddi,
        OP_DADDIU => InstrHandler::Daddiu,
        OP_LDL => InstrHandler::Ldl,
        OP_LDR => InstrHandler::Ldr,
        OP_LB => InstrHandler::Lb,
        OP_LH => InstrHandler::Lh,
        OP_LWL => InstrHandler::Lwl,
        OP_LW => InstrHandler::Lw,
        OP_LBU => InstrHandler::Lbu,
        OP_LHU => InstrHandler::Lhu,
        OP_LWR => InstrHandler::Lwr,
        OP_LWU => InstrHandler::Lwu,
        OP_SB => InstrHandler::Sb,
        OP_SH => InstrHandler::Sh,
        OP_SWL => InstrHandler::Swl,
        OP_SW => InstrHandler::Sw,
        OP_SDL => InstrHandler::Sdl,
        OP_SDR => InstrHandler::Sdr,
        OP_SWR => InstrHandler::Swr,
        OP_CACHE => InstrHandler::Cache,
        OP_LL => InstrHandler::Ll,
        OP_LWC1 => InstrHandler::Lwc1,
        OP_PREF => InstrHandler::Pref,
        OP_LLD => InstrHandler::Lld,
        OP_LDC1 => InstrHandler::Ldc1,
        OP_LD => InstrHandler::Ld,
        OP_SC => InstrHandler::Sc,
        OP_SWC1 => InstrHandler::Swc1,
        OP_SCD => InstrHandler::Scd,
        OP_SDC1 => InstrHandler::Sdc1,
        OP_SD => InstrHandler::Sd,
        _ => InstrHandler::Reserved,
    }
}

/// The COP1 operation with selector `sel`.
fn select_cop1(sel: u32) -> (h: InstrHandler)
    ensures
        h != InstrHandler::Reserved ==> encoding(h) == Encoding::Cop1(sel),
        h == InstrHandler::Reserved ==> forall|g: InstrHandler| #[trigger] encoding(g) != Encoding::Cop1(sel),
{
    match sel {
        RS_MFC1 => InstrHandler::Mfc1,
        RS_DMFC1 => InstrHandler::Dmfc1,
        RS_CFC1 => InstrHandler::Cfc1,
        RS_MTC1 => InstrHandler::Mtc1,
        RS_DMTC1 => InstrHandler::Dmtc1,
        RS_CTC1 => InstrHandler::Ctc1,
        RS_BC1 => InstrHandler::Bc1,
        _ => InstrHandler::Reserved,
    }
}

/// The floating-point operation of format S with function `sel`.
fn select_fpu_s(sel: u32) -> (h: InstrHandler)
    ensures
        h != InstrHandler::Reserved ==> encoding(h) == Encoding::Fpu(RS_S, sel),
        h == InstrHandler::Reserved ==> forall|g: InstrHandler| #[trigger] encoding(g) != Encoding::Fpu(RS_S, sel),
{
    match sel {
        FUNCT_FADD => InstrHandler::FaddS,
        FUNCT_FSUB => InstrHandler::FsubS,
        FUNCT_FMUL => InstrHandler::FmulS,
        FUNCT_FDIV => InstrHandler::FdivS,
        FUNCT_FSQRT => InstrHandler::FsqrtS,
        FUNCT_FABS => InstrHandler::FabsS,
        FUNCT_FMOV => InstrHandler::FmovS,
        FUNCT_FNEG => InstrHandler::FnegS,
        FUNCT_FROUND_L => InstrHandler::FroundLS,
        FUNCT_FTRUNC_L => InstrHandler::FtruncLS,
        FUNCT_FCEIL_L => InstrHandler::FceilLS,
        FUNCT_FFLOOR_L => InstrHandler::FfloorLS,
        FUNCT_FROUND_W => InstrHandler::FroundWS,
        FUNCT_FTRUNC_W => InstrHandler::FtruncWS,
        FUNCT_FCEIL_W => InstrHandler::FceilWS,
        FUNCT_FFLOOR_W => InstrHandler::FfloorWS,
        FUNCT_FMOVCF => InstrHandler::FmovcfS,
        FUNCT_FMOVZ => InstrHandler::FmovzS,
        FUNCT_FMOVN => InstrHandler::FmovnS,
        FUNCT_FRECIP => InstrHandler::FrecipS,
        FUNCT_FRSQRT => InstrHandler::FrsqrtS,
        FUNCT_FCVT_D => InstrHandler::FcvtDS,
        FUNCT_FCVT_W => InstrHandler::FcvtWS,
        FUNCT_FCVT_L => InstrHandler::FcvtLS,
        _ => InstrHandler::Reserved,
    }
}

/// The floating-point operation of format D with function `sel`.
fn select_fpu_d(sel: u32) -> (h: InstrHandler)
    ensures
        h != InstrHandler::Reserved ==> encoding(h) == Encoding::Fpu(RS_D, sel),
        h == InstrHandler::Reserved ==> forall|g: InstrHandler| #[trigger] encoding(g) != Encoding::Fpu(RS_D, sel),
{
    match sel {
        FUNCT_FADD => InstrHandler::FaddD,
        FUNCT_FSUB => InstrHandler::FsubD,
        FUNCT_FMUL => InstrHandler::FmulD,
        FUNCT_FDIV => InstrHandler::FdivD,
        FUNCT_FSQRT => InstrHandler::FsqrtD,
        FUNCT_FABS => InstrHandler::FabsD,
        FUNCT_FMOV => InstrHandler::FmovD,
        FUNCT_FNEG => InstrHandler::FnegD,
        FUNCT_FROUND_L => InstrHandler::FroundLD,
        FUNCT_FTRUNC_L => InstrHandler::FtruncLD,
        FUNCT_FCEIL_L => InstrHandler::FceilLD,
        FUNCT_FFLOOR_L => InstrHandler::FfloorLD,
        FUNCT_FROUND_W => InstrHandler::FroundWD,
        FUNCT_FTRUNC_W => InstrHandler::FtruncWD,
        FUNCT_FCEIL_W => InstrHandler::FceilWD,
        FUNCT_FFLOOR_W => InstrHandler::FfloorWD,
        FUNCT_FMOVCF => InstrHandler::FmovcfD,
        FUNCT_FMOVZ => InstrHandler::FmovzD,
        FUNCT_FMOVN => InstrHandler::FmovnD,
        FUNCT_FRECIP => InstrHandler::FrecipD,
        FUNCT_FRSQRT => InstrHandler::FrsqrtD,
        FUNCT_FCVT_S => InstrHandler::FcvtSD,
        FUNCT_FCVT_W => InstrHandler::FcvtWD,
        FUNCT_FCVT_L => InstrHandler::FcvtLD,
        _ => InstrHandler::Reserved,
    }
}

/// The floating-point operation of format W with function `sel`.
fn select_fpu_w(sel: u32) -> (h: InstrHandler)
    ensures
        h != InstrHandler::Reserved ==> encoding(h) == Encoding::Fpu(RS_W, sel),
        h == InstrHandler::Reserved ==> forall|g: InstrHandler| #[trigger] encoding(g) != Encoding::Fpu(RS_W, sel),
{
    match sel {
        FUNCT_FCVT_S => InstrHandler::FcvtSW,
        FUNCT_FCVT_D => InstrHandler::FcvtDW,
        _ => InstrHandler::Reserved,
    }
}

/// The floating-point operation of format L with function `sel`.
fn select_fpu_l(sel: u32) -> (h: InstrHandler)
    ensures
        h != InstrHandler::Reserved ==> encoding(h) == Encoding::Fpu(RS_L, sel),
        h == InstrHandler::Reserved ==> forall|g: InstrHandler| #[trigger] encoding(g) != Encoding::Fpu(RS_L, sel),
{
    match sel {
        FUNCT_FCVT_S => InstrHandler::FcvtSL,
        FUNCT_FCVT_D => InstrHandler::FcvtDL,
        _ => InstrHandler::Reserved,
    }
}

/// The COP1X operation with function `sel`.
fn select_cop1x(sel: u32) -> (h: InstrHandler)
    ensures
        h != InstrHandler::Reserved ==> encoding(h) == Encoding::Cop1x(sel),
        h == InstrHandler::Reserved ==> forall|g: InstrHandler| #[trigger] encoding(g) != Encoding::Cop1x(sel),
{
    match sel {
        FUNCT_LWXC1 => InstrHandler::Lwxc1,
        FUNCT_LDXC1 => InstrHandler::Ldxc1,
        FUNCT_SWXC1 => InstrHandler::Swxc1,
        FUNCT_SDXC1 => InstrHandler::Sdxc1,
        FUNCT_PREFX => InstrHandler::Prefx,
        FUNCT_MADD_S => InstrHandler::MaddS,
        FUNCT_MADD_D => InstrHandler::MaddD,
        FUNCT_MSUB_S => InstrHandler::MsubS,
        FUNCT_MSUB_D => InstrHandler::MsubD,
        FUNCT_NMADD_S => InstrHandler::NmaddS,
        FUNCT_NMADD_D => InstrHandler::NmaddD,
        FUNCT_NMSUB_S => InstrHandler::NmsubS,
        FUNCT_NMSUB_D => InstrHandler::NmsubD,
        _ => InstrHandler::Reserved,
    }
}

/// The encodings that share a major opcode are not operations by that opcode alone.
proof fn lemma_grouped_opcodes()
    ensures
        forall|g: InstrHandler|
            #![trigger encoding(g)]
            encoding(g) != Encoding::Major(OP_SPECIAL) && encoding(g) != Encoding::Major(OP_REGIMM)
                && encoding(g) != Encoding::Major(OP_COP1) && encoding(g) != Encoding::Major(
                OP_COP1X,
            ),
        forall|g: InstrHandler|
            #![trigger encoding(g)]
            encoding(g) != Encoding::Cop1(RS_S) && encoding(g) != Encoding::Cop1(RS_D) && encoding(g)
                != Encoding::Cop1(RS_W) && encoding(g) != Encoding::Cop1(RS_L),
        forall|g: InstrHandler|
            #![trigger encoding(g)]
            match encoding(g) {
                Encoding::Fpu(fmt, f) => f < FUNCT_FC_F && (fmt == RS_S || fmt == RS_D || fmt == RS_W
                    || fmt == RS_L),
                Encoding::FpuCompare(fmt) => fmt == RS_S || fmt == RS_D,
                _ => true,
            },
{
}

/// The operation that `raw` encodes.
fn select(raw: u32) -> (h: InstrHandler)
    ensures
        is_operation(raw, h),
{
    let op: u32 = (raw >> 26) & 0x3F;
    let rs: u32 = (raw >> 21) & 0x1F;
    let rt: u32 = (raw >> 16) & 0x1F;
    let funct: u32 = raw & 0x3F;
    proof {
        lemma_grouped_opcodes();
        lemma_field_bounds(raw);
    }
    if op == OP_SPECIAL {
        select_special(funct)
    } else if op == OP_REGIMM {
        select_regimm(rt)
    } else if op == OP_COP1 {
        if rs == RS_S {
            if funct >= FUNCT_FC_F {
                InstrHandler::FccS
            } else {
                select_fpu_s(funct)
            }
        } else if rs == RS_D {
            if funct >= FUNCT_FC_F {
                InstrHandler::FccD
            } else {
                select_fpu_d(funct)
            }
        } else if rs == RS_W {
            select_fpu_w(funct)
        } else if rs == RS_L {
            select_fpu_l(funct)
        } else {
            select_cop1(rs)
        }
    } else if op == OP_COP1X {
        select_cop1x(funct)
    } else {
        select_major(op)
    }
}

proof fn lemma_field_bounds(raw: u32)
    ensures
        (raw >> 26) & 0x3F <= 63,
        (raw >> 21) & 0x1F <= 31,
        (raw >> 16) & 0x1F <= 31,
        (raw >> 11) & 0x1F <= 31,
        (raw >> 6) & 0x1F <= 31,
        raw & 0x3F <= 63,
        (raw & 0xFFFF) <= 0xFFFF,
{
    crate::bits::lemma_bits_of_word(raw);
}

/// Set while the instruction is yet to be decoded.
pub const FLAG_NOT_DECODED: u8 = 1;

/// Set while `imm` holds the word that follows the instruction in its cache line.
pub const FLAG_IMM_IS_NEXT: u8 = 2;

/// An instruction word with its fields taken apart.
///
/// The immediate is stored ready for use: shifted left by two for jumps and
/// branches, in the upper half for `lui`, zero-extended for the logical operations,
/// sign-extended for all others, and 0 where there is none. A fused address
/// computation keeps the word of its load or store there.
#[derive(Debug, Clone, Copy, PartialEq, Eq, Structural)]
pub struct DecodedInstr {
    pub handler: RawInstrFn,
    pub imm: u32,
    pub raw: u32,
    pub flags: u8,
    pub op: u8,
    pub rs: u8,
    pub rt: u8,
    pub rd: u8,
    pub sa: u8,
    pub funct: u8,
}

pub type RawInstrFn = InstrHandler;

impl DecodedInstr {
    /// The immediate, sign-extended, as a 64-bit word.
    pub open spec fn spec_immu64(&self) -> u64 {
        self.imm as i32 as i64 as u64
    }

    /// Zero-extended immediate.
    pub fn immi64(&self) -> (v: u64)
        ensures
            v == self.imm,
    {
        self.imm as u64
    }

    /// Sign-extended immediate.
    pub fn imms64(&self) -> (v: i64)
        ensures
            v == self.imm as i32,
    {
        self.imm as i32 as i64
    }

    /// Sign-extended immediate, taken as an unsigned word.
    #[verifier::when_used_as_spec(spec_immu64)]
    pub fn immu64(&self) -> (v: u64)
        ensures
            v == self.spec_immu64(),
    {
        self.imm as i32 as i64 as u64
    }

    /// Sign-extends the low half of `raw`.
    pub fn set_imm_se(&mut self, raw: u32)
        ensures
            *final(self) == (DecodedInstr { imm: imm_signed(raw), ..*old(self) }),
    {
        self.imm = (raw & 0xFFFF) as i16 as i32 as u32;
    }

    /// Sign-extends the low half of `raw` and multiplies it by four.
    pub fn set_imm_se4(&mut self, raw: u32)
        ensures
            *final(self) == (DecodedInstr { imm: imm_branch(raw), ..*old(self) }),
    {
        let half: i16 = (raw & 0xFFFF) as i16;
        self.imm = (half as i32 * 4) as u32;
    }

    /// Zero-extends the low half of `raw`.
    pub fn set_imm_ze(&mut self, raw: u32)
        ensures
            *final(self) == (DecodedInstr { imm: imm_unsigned(raw), ..*old(self) }),
    {
        self.imm = raw & 0xFFFF;
    }

    /// Puts the low half of `raw` into the upper half.
    pub fn set_imm_lui(&mut self, raw: u32)
        ensures
            *final(self) == (DecodedInstr { imm: imm_upper(raw), ..*old(self) }),
    {
        self.imm = (raw & 0xFFFF) << 16;
    }

    /// Multiplies the 26-bit jump target of `raw` by four.
    pub fn set_imm_j(&mut self, raw: u32)
        ensures
            *final(self) == (DecodedInstr { imm: imm_jump(raw), ..*old(self) }),
    {
        self.imm = (raw & 0x3FFFFFF) << 2;
    }
}

/// The low half of a word, sign-extended.
pub open spec fn imm_signed(raw: u32) -> u32 {
    (raw & 0xFFFF) as i16 as i32 as u32
}

/// The low half of a word, sign-extended and multiplied by four.
pub open spec fn imm_branch(raw: u32) -> u32 {
    ((raw & 0xFFFF) as i16 as i32 * 4) as u32
}

/// The low half of a word.
pub open spec fn imm_unsigned(raw: u32) -> u32 {
    raw & 0xFFFF
}

/// The low half of a word in the upper half.
pub open spec fn imm_upper(raw: u32) -> u32 {
    (raw & 0xFFFF) << 16
}

/// The low 26 bits of a word multiplied by four.
pub open spec fn imm_jump(raw: u32) -> u32 {
    (raw & 0x3FFFFFF) << 2
}

impl Default for DecodedInstr {
    fn default() -> (d: Self)
        ensures
            d == (DecodedInstr {
                handler: InstrHandler::Reserved,
                imm: 0,
                raw: 0,
                flags: FLAG_NOT_DECODED,
                op: 0,
                rs: 0,
                rt: 0,
                rd: 0,
                sa: 0,
                funct: 0,
            }),
    {
        DecodedInstr {
            handler: InstrHandler::Reserved,
            imm: 0,
            raw: 0,
            flags: FLAG_NOT_DECODED,
            op: 0,
            rs: 0,
            rt: 0,
            rd: 0,
            sa: 0,
            funct: 0,
        }
    }
}

/// `next` is a plain load or store whose base register is `addr_reg`.
pub open spec fn fusable_load_store(next: u32, addr_reg: u32) -> bool {
    &&& field_rs(next) == addr_reg
    &&& {
        ||| operation(next) == InstrHandler::Lb
        ||| operation(next) == InstrHandler::Lbu
        ||| operation(next) == InstrHandler::Lh
        ||| operation(next) == InstrHandler::Lhu
        ||| operation(next) == InstrHandler::Lw
        ||| operation(next) == InstrHandler::Ld
        ||| operation(next) == InstrHandler::Sb
        ||| operation(next) == InstrHandler::Sh
        ||| operation(next) == InstrHandler::Sw
        ||| operation(next) == InstrHandler::Sd
    }
}

/// A plain load or store through `addr_reg`: what an address computation into
/// `addr_reg` may be fused with.
pub fn is_fusable_load_store(next_raw: u32, addr_reg: u8) -> (b: bool)
    ensures
        b == fusable_load_store(next_raw, addr_reg as u32),
{
    let h: InstrHandler = select(next_raw);
    proof {
        lemma_operation(next_raw, h);
    }
    let next_rs: u32 = (next_raw >> 21) & 0x1F;
    if next_rs != addr_reg as u32 {
        return false;
    }
    matches!(
        h,
        InstrHandler::Lb | InstrHandler::Lbu | InstrHandler::Lh | InstrHandler::Lhu
            | InstrHandler::Lw | InstrHandler::Ld | InstrHandler::Sb | InstrHandler::Sh
            | InstrHandler::Sw | InstrHandler::Sd
    )
}

proof fn lemma_operation(raw: u32, h: InstrHandler)
    requires
        is_operation(raw, h),
    ensures
        operation(raw) == h,
{
    law_one_operation_per_word(raw, h, operation(raw));
}

/// `next` writes `reg` from `reg` with operation `h`.
pub open spec fn completes_constant(next: u32, reg: u32, h: InstrHandler) -> bool {
    field_rs(next) == reg && field_rt(next) == reg && operation(next) == h
}

/// The operation of `raw` where the word after it is known to be `next`.
pub open spec fn fused_operation(raw: u32, next: Option<u32>) -> InstrHandler {
    let h = operation(raw);
    match next {
        None => h,
        Some(n) => match h {
            InstrHandler::Jr if n == 0 => InstrHandler::JrNop,
            InstrHandler::J if n == 0 => InstrHandler::JNop,
            InstrHandler::Jal if n == 0 => InstrHandler::JalNop,
            InstrHandler::Beq if n == 0 => InstrHandler::BeqNop,
            InstrHandler::Bne if n == 0 => InstrHandler::BneNop,
            InstrHandler::Addu if fusable_load_store(n, field_rd(raw)) => InstrHandler::AdduLs,
            InstrHandler::Subu if fusable_load_store(n, field_rd(raw)) => InstrHandler::SubuLs,
            InstrHandler::Addiu if fusable_load_store(n, field_rt(raw)) => InstrHandler::AddiuLs,
            InstrHandler::Lui if completes_constant(
                n,
                field_rt(raw),
                InstrHandler::Ori,
            ) => InstrHandler::LuiImm32,
            InstrHandler::Lui if completes_constant(
                n,
                field_rt(raw),
                InstrHandler::Addiu,
            ) => InstrHandler::LuiSimm32,
            _ => h,
        },
    }
}

/// The immediate stored with operation `h` of the word `raw` that `next` follows.
pub open spec fn stored_imm(h: InstrHandler, raw: u32, next: Option<u32>) -> u32 {
    match h {
        InstrHandler::AdduLs | InstrHandler::SubuLs | InstrHandler::AddiuLs => next->0,
        InstrHandler::LuiImm32 => imm_upper(raw) | imm_unsigned(next->0),
        InstrHandler::LuiSimm32 => vstd::wrapping::i32_specs::wrapping_add(
            imm_upper(raw) as i32,
            (next->0 & 0xFFFF) as i16 as i32,
        ) as u32,
        _ => match imm_form(h) {
            ImmForm::Absent => 0,
            ImmForm::Signed => imm_signed(raw),
            ImmForm::Branch => imm_branch(raw),
            ImmForm::Unsigned => imm_unsigned(raw),
            ImmForm::Upper => imm_upper(raw),
            ImmForm::Jump => imm_jump(raw),
        },
    }
}

/// The decoded form of an instruction whose `raw`, `flags` and `imm` are filled in.
pub open spec fn decoded(ins: DecodedInstr) -> DecodedInstr {
    let next = if ins.flags & FLAG_IMM_IS_NEXT != 0 {
        Some(ins.imm)
    } else {
        None
    };
    let h = fused_operation(ins.raw, next);
    DecodedInstr {
        handler: h,
        imm: stored_imm(h, ins.raw, next),
        raw: ins.raw,
        flags: 0,
        op: field_op(ins.raw) as u8,
        rs: field_rs(ins.raw) as u8,
        rt: field_rt(ins.raw) as u8,
        rd: field_rd(ins.raw) as u8,
        sa: field_sa(ins.raw) as u8,
        funct: field_funct(ins.raw) as u8,
    }
}

/// The operation of `raw` before its successor, where that is known, is taken in.
fn fuse(h: InstrHandler, raw: u32, next: u32) -> (f: InstrHandler)
    requires
        h == operation(raw),
    ensures
        f == fused_operation(raw, Some(next)),
{
    let rd: u8 = ((raw >> 11) & 0x1F) as u8;
    let rt: u8 = ((raw >> 16) & 0x1F) as u8;
    proof {
        lemma_field_bounds(raw);
    }
    match h {
        InstrHandler::Jr if next == 0 => InstrHandler::JrNop,
        InstrHandler::J if next == 0 => InstrHandler::JNop,
        InstrHandler::Jal if next == 0 => InstrHandler::JalNop,
        InstrHandler::Beq if next == 0 => InstrHandler::BeqNop,
        InstrHandler::Bne if next == 0 => InstrHandler::BneNop,
        InstrHandler::Addu => {
            if is_fusable_load_store(next, rd) {
                InstrHandler::AdduLs
            } else {
                h
            }
        },
        InstrHandler::Subu => {
            if is_fusable_load_store(next, rd) {
                InstrHandler::SubuLs
            } else {
                h
            }
        },
        InstrHandler::Addiu => {
            if is_fusable_load_store(next, rt) {
                InstrHandler::AddiuLs
            } else {
                h
            }
        },
        InstrHandler::Lui => {
            let next_rs: u32 = (next >> 21) & 0x1F;
            let next_rt: u32 = (next >> 16) & 0x1F;
            let g: InstrHandler = select(next);
            proof {
                lemma_operation(next, g);
            }
            if next_rs != rt as u32 || next_rt != rt as u32 {
                h
            } else if g == InstrHandler::Ori {
                InstrHandler::LuiImm32
            } else if g == InstrHandler::Addiu {
                InstrHandler::LuiSimm32
            } else {
                h
            }
        },
        _ => h,
    }
}

/// Decodes `ins.raw` in place. With `FLAG_IMM_IS_NEXT` set, `ins.imm` is the word
/// that follows, and the instruction is fused with it where that is possible.
pub fn decode_into(ins: &mut DecodedInstr)
    ensures
        *final(ins) == decoded(*old(ins)),
{
    let raw: u32 = ins.raw;
    let next: u32 = ins.imm;
    let base: InstrHandler = select(raw);
    proof {
        lemma_operation(raw, base);
        lemma_field_bounds(raw);
    }
    let handler: InstrHandler = if ins.flags & FLAG_IMM_IS_NEXT != 0 {
        fuse(base, raw, next)
    } else {
        base
    };
    match handler {
        InstrHandler::AdduLs | InstrHandler::SubuLs | InstrHandler::AddiuLs => {},
        InstrHandler::LuiImm32 => {
            ins.imm = ((raw & 0xFFFF) << 16) | (next & 0xFFFF);
        },
        InstrHandler::LuiSimm32 => {
            let hi: i32 = ((raw & 0xFFFF) << 16) as i32;
            let lo: i32 = (next & 0xFFFF) as i16 as i32;
            ins.imm = hi.wrapping_add(lo) as u32;
        },
        _ => match form_of(handler) {
            ImmForm::Absent => {
                ins.imm = 0;
            },
            ImmForm::Signed => ins.set_imm_se(raw),
            ImmForm::Branch => ins.set_imm_se4(raw),
            ImmForm::Unsigned => ins.set_imm_ze(raw),
            ImmForm::Upper => ins.set_imm_lui(raw),
            ImmForm::Jump => ins.set_imm_j(raw),
        },
    }
    ins.op = ((raw >> 26) & 0x3F) as u8;
    ins.rs = ((raw >> 21) & 0x1F) as u8;
    ins.rt = ((raw >> 16) & 0x1F) as u8;
    ins.rd = ((raw >> 11) & 0x1F) as u8;
    ins.sa = ((raw >> 6) & 0x1F) as u8;
    ins.funct = (raw & 0x3F) as u8;
    ins.handler = handler;
    ins.flags = 0;
}

/// Immediate layout of an operation.
fn form_of(h: InstrHandler) -> (f: ImmForm)
    ensures
        f == imm_form(h),
{
    match h {
        InstrHandler::Tgei
        | InstrHandler::Tgeiu
        | InstrHandler::Tlti
        | InstrHandler::Tltiu
        | InstrHandler::Teqi
        | InstrHandler::Tnei
        | InstrHandler::Addi
        | InstrHandler::Addiu
        | InstrHandler::Slti
        | InstrHandler::Sltiu
        | InstrHandler::Daddi
        | InstrHandler::Daddiu
        | InstrHandler::Ldl
        | InstrHandler::Ldr
        | InstrHandler::Lb
        | InstrHandler::Lh
        | InstrHandler::Lwl
        | InstrHandler::Lw
        | InstrHandler::Lbu
        | InstrHandler::Lhu
        | InstrHandler::Lwr
        | InstrHandler::Lwu
        | InstrHandler::Sb
        | InstrHandler::Sh
        | InstrHandler::Swl
        | InstrHandler::Sw
        | InstrHandler::Sdl
        | InstrHandler::Sdr
        | InstrHandler::Swr
        | InstrHandler::Cache
        | InstrHandler::Ll
        | InstrHandler::Lwc1
        | InstrHandler::Lld
        | InstrHandler::Ldc1
        | InstrHandler::Ld
        | InstrHandler::Sc
        | InstrHandler::Swc1
        | InstrHandler::Scd
        | InstrHandler::Sdc1
        | InstrHandler::Sd => ImmForm::Signed,
        InstrHandler::Bltz
        | InstrHandler::Bgez
        | InstrHandler::Bltzl
        | InstrHandler::Bgezl
        | InstrHandler::Bltzal
        | InstrHandler::Bgezal
        | InstrHandler::Bltzall
        | InstrHandler::Bgezall
        | InstrHandler::Beq
        | InstrHandler::Bne
        | InstrHandler::Blez
        | InstrHandler::Bgtz
        | InstrHandler::Beql
        | InstrHandler::Bnel
        | InstrHandler::Blezl
        | InstrHandler::Bgtzl
        | InstrHandler::Bc1
        | InstrHandler::BeqNop
        | InstrHandler::BneNop => ImmForm::Branch,
        InstrHandler::Andi
        | InstrHandler::Ori
        | InstrHandler::Xori => ImmForm::Unsigned,
        InstrHandler::Lui => ImmForm::Upper,
        InstrHandler::J
        | InstrHandler::Jal
        | InstrHandler::JNop
        | InstrHandler::JalNop => ImmForm::Jump,
        _ => ImmForm::Absent,
    }
}

/// Register fields of a decoded instruction are register numbers.
pub open spec fn fields_bounded(d: DecodedInstr) -> bool {
    d.rs < 32 && d.rt < 32 && d.rd < 32 && d.sa < 32 && d.op < 64 && d.funct < 64
}

/// Law: decoding leaves no transient flag and only register numbers in the register
/// fields.
pub proof fn law_decoded_fields(ins: DecodedInstr)
    ensures
        decoded(ins).flags == 0,
        decoded(ins).raw == ins.raw,
        fields_bounded(decoded(ins)),
{
    lemma_field_bounds(ins.raw);
}

/// Law: every word encodes an operation, be it `Reserved`.
pub proof fn law_every_word_has_an_operation(raw: u32)
    ensures
        is_operation(raw, operation(raw)),
{
    if forall|g: InstrHandler| !encodes(raw, #[trigger] encoding(g)) {
        assert(is_operation(raw, InstrHandler::Reserved));
    } else {
        let g = choose|g: InstrHandler| encodes(raw, #[trigger] encoding(g));
        assert(is_operation(raw, g));
    }
}

/// Law: every word decodes to what it encodes, and without a known successor nothing
/// is fused.
pub proof fn law_decoding_without_successor(ins: DecodedInstr)
    requires
        ins.flags & FLAG_IMM_IS_NEXT == 0,
    ensures
        is_operation(ins.raw, decoded(ins).handler),
{
    law_every_word_has_an_operation(ins.raw);
}

proof fn lemma_immediates(raw: u32)
    ensures
        (raw & 0xFFFF) < 0x8000 ==> ((raw & 0xFFFF) as i16 as i32 as u32) as i32 == (raw & 0xFFFF),
        (raw & 0xFFFF) >= 0x8000 ==> ((raw & 0xFFFF) as i16 as i32 as u32) as i32 == (raw & 0xFFFF)
            - 0x10000,
        (raw & 0xFFFF) < 0x8000 ==> (((raw & 0xFFFF) as i16 as i32 * 4) as u32) as i32 == 4 * (raw
            & 0xFFFF),
        (raw & 0xFFFF) >= 0x8000 ==> (((raw & 0xFFFF) as i16 as i32 * 4) as u32) as i32 == 4 * ((
        raw & 0xFFFF) - 0x10000),
        (raw & 0xFFFF) == raw % 0x10000,
        (raw & 0xFFFF) << 16 == (raw % 0x10000) * 0x10000,
        (raw & 0x3FFFFFF) << 2 == (raw % 0x4000000) * 4,
{
    crate::bits::lemma_bits_of_word(raw);
}

/// Signed value of a 16-bit number.
pub open spec fn signed16(h: int) -> int {
    if h < 0x8000 {
        h
    } else {
        h - 0x10000
    }
}

/// Law: what the five immediate layouts mean as numbers.
pub proof fn law_immediate_values(raw: u32)
    ensures
        imm_signed(raw) as i32 == signed16(raw as int % 0x10000),
        imm_branch(raw) as i32 == 4 * signed16(raw as int % 0x10000),
        imm_unsigned(raw) == raw as int % 0x10000,
        imm_upper(raw) == (raw as int % 0x10000) * 0x10000,
        imm_jump(raw) == (raw as int % 0x4000000) * 4,
{
    lemma_immediates(raw);
}

/// A jump or branch that writes the return address.
pub open spec fn is_call(h: InstrHandler) -> bool {
    ||| h == InstrHandler::Jal
    ||| h == InstrHandler::Jalr
    ||| h == InstrHandler::Bgezal
    ||| h == InstrHandler::Bltzal
    ||| h == InstrHandler::Bgezall
    ||| h == InstrHandler::Bltzall
}

/// Whether the word is a call: a jump or branch that links.
pub fn is_call_instruction(instr: u32) -> (b: bool)
    ensures
        b == is_call(operation(instr)),
{
    let h: InstrHandler = select(instr);
    proof {
        lemma_operation(instr, h);
    }
    matches!(
        h,
        InstrHandler::Jal | InstrHandler::Jalr | InstrHandler::Bgezal | InstrHandler::Bltzal
            | InstrHandler::Bgezall | InstrHandler::Bltzall
    )
}

/// Kinds of instruction that the compiled code is held to the interpreter on.
#[derive(Debug, Clone, Copy, PartialEq, Eq, Structural)]
pub enum LockstepClass {
    Alu,
    Branch,
    LoadStore,
    Fpu,
    Other,
}

/// SPECIAL functions that compute from registers into registers and cannot be the
/// first half of a fused pair.
pub open spec fn is_alu_funct(f: u32) -> bool {
    ||| f == FUNCT_ADD || f == FUNCT_SUB || f == FUNCT_AND || f == FUNCT_OR || f == FUNCT_XOR || f
        == FUNCT_NOR
    ||| f == FUNCT_SLT || f == FUNCT_SLTU
    ||| f == FUNCT_SLL || f == FUNCT_SRL || f == FUNCT_SRA || f == FUNCT_SLLV || f == FUNCT_SRLV || f
        == FUNCT_SRAV
    ||| f == FUNCT_MFHI || f == FUNCT_MTHI || f == FUNCT_MFLO || f == FUNCT_MTLO
    ||| f == FUNCT_MULT || f == FUNCT_MULTU || f == FUNCT_DIV || f == FUNCT_DIVU
    ||| f == FUNCT_DADD || f == FUNCT_DADDU || f == FUNCT_DSUB || f == FUNCT_DSUBU
    ||| f == FUNCT_DSLL || f == FUNCT_DSRL || f == FUNCT_DSRA || f == FUNCT_DSLL32 || f
        == FUNCT_DSRL32 || f == FUNCT_DSRA32
    ||| f == FUNCT_DSLLV || f == FUNCT_DSRLV || f == FUNCT_DSRAV
}

/// Opcodes of jumps and branches outside SPECIAL.
pub open spec fn is_branch_op(op: u32) -> bool {
    op == OP_REGIMM || op == OP_J || op == OP_JAL || op == OP_BEQ || op == OP_BNE || op == OP_BLEZ
        || op == OP_BGTZ || op == OP_BEQL || op == OP_BNEL || op == OP_BLEZL || op == OP_BGTZL
}

/// Opcodes that compute with an immediate and cannot be the first half of a fused
/// pair.
pub open spec fn is_alu_imm_op(op: u32) -> bool {
    op == OP_ADDI || op == OP_SLTI || op == OP_SLTIU || op == OP_ANDI || op == OP_ORI || op
        == OP_XORI || op == OP_DADDI || op == OP_DADDIU
}

/// Opcodes of the integer loads and stores, `cache` and `pref`.
pub open spec fn is_memory_op(op: u32) -> bool {
    ||| OP_LB <= op <= OP_LWU
    ||| OP_SB <= op <= OP_LL
    ||| op == OP_LDL || op == OP_LDR || op == OP_LLD || op == OP_SC || op == OP_SCD
    ||| op == OP_LD || op == OP_SD || op == OP_PREF
}

/// Opcodes of the floating-point unit.
pub open spec fn is_fpu_op(op: u32) -> bool {
    op == OP_COP1 || op == OP_COP1X || op == OP_LWC1 || op == OP_SWC1 || op == OP_LDC1 || op
        == OP_SDC1
}

/// The class of a word.
pub open spec fn lockstep_class(raw: u32) -> LockstepClass {
    let op = field_op(raw);
    let f = field_funct(raw);
    if is_branch_op(op) || op == OP_SPECIAL && (f == FUNCT_JR || f == FUNCT_JALR) {
        LockstepClass::Branch
    } else if is_alu_imm_op(op) || op == OP_SPECIAL && is_alu_funct(f) {
        LockstepClass::Alu
    } else if is_memory_op(op) {
        LockstepClass::LoadStore
    } else if is_fpu_op(op) {
        LockstepClass::Fpu
    } else {
        LockstepClass::Other
    }
}

/// Classifies a word. The first halves of fused pairs (`addu`, `subu`, `addiu`,
/// `lui`) are left out: what was run for them may be more than the word says.
pub fn lockstep_classify(raw: u32) -> (c: LockstepClass)
    ensures
        c == lockstep_class(raw),
{
    let op: u32 = (raw >> 26) & 0x3F;
    let funct: u32 = raw & 0x3F;
    match op {
        OP_SPECIAL => match funct {
            FUNCT_JR | FUNCT_JALR => LockstepClass::Branch,
            FUNCT_ADD | FUNCT_SUB | FUNCT_AND | FUNCT_OR | FUNCT_XOR | FUNCT_NOR | FUNCT_SLT
            | FUNCT_SLTU | FUNCT_SLL | FUNCT_SRL | FUNCT_SRA | FUNCT_SLLV | FUNCT_SRLV | FUNCT_SRAV
            | FUNCT_MFHI | FUNCT_MTHI | FUNCT_MFLO | FUNCT_MTLO | FUNCT_MULT | FUNCT_MULTU
            | FUNCT_DIV | FUNCT_DIVU | FUNCT_DADD | FUNCT_DADDU | FUNCT_DSUB | FUNCT_DSUBU
            | FUNCT_DSLL | FUNCT_DSRL | FUNCT_DSRA | FUNCT_DSLL32 | FUNCT_DSRL32 | FUNCT_DSRA32
            | FUNCT_DSLLV | FUNCT_DSRLV | FUNCT_DSRAV => LockstepClass::Alu,
            _ => LockstepClass::Other,
        },
        OP_REGIMM | OP_J | OP_JAL | OP_BEQ | OP_BNE | OP_BLEZ | OP_BGTZ | OP_BEQL | OP_BNEL
        | OP_BLEZL | OP_BGTZL => LockstepClass::Branch,
        OP_ADDI | OP_SLTI | OP_SLTIU | OP_ANDI | OP_ORI | OP_XORI | OP_DADDI | OP_DADDIU =>
            LockstepClass::Alu,
        OP_LB | OP_LH | OP_LWL | OP_LW | OP_LBU | OP_LHU | OP_LWR | OP_LWU | OP_SB | OP_SH | OP_SWL
        | OP_SW | OP_SDL | OP_SDR | OP_SWR | OP_LDL | OP_LDR | OP_LL | OP_LLD | OP_SC | OP_SCD
        | OP_LD | OP_SD | OP_CACHE | OP_PREF => LockstepClass::LoadStore,
        OP_COP1 | OP_COP1X | OP_LWC1 | OP_SWC1 | OP_LDC1 | OP_SDC1 => LockstepClass::Fpu,
        _ => LockstepClass::Other,
    }
}

} // verus!

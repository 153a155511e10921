//! Field values of the MIPS IV instruction encoding.
use vstd::prelude::*;

verus! {

// Major opcodes, bits 31..26.
pub const OP_SPECIAL: u32 = 0;

pub const OP_REGIMM: u32 = 1;

pub const OP_J: u32 = 2;

pub const OP_JAL: u32 = 3;

pub const OP_BEQ: u32 = 4;

pub const OP_BNE: u32 = 5;

pub const OP_BLEZ: u32 = 6;

pub const OP_BGTZ: u32 = 7;

pub const OP_ADDI: u32 = 8;

pub const OP_ADDIU: u32 = 9;

pub const OP_SLTI: u32 = 10;

pub const OP_SLTIU: u32 = 11;

pub const OP_ANDI: u32 = 12;

pub const OP_ORI: u32 = 13;

pub const OP_XORI: u32 = 14;

pub const OP_LUI: u32 = 15;

pub const OP_COP0: u32 = 16;

pub const OP_COP1: u32 = 17;

pub const OP_COP1X: u32 = 19;

pub const OP_BEQL: u32 = 20;

pub const OP_BNEL: u32 = 21;

pub const OP_BLEZL: u32 = 22;

pub const OP_BGTZL: u32 = 23;

pub const OP_DADDI: u32 = 24;

pub const OP_DADDIU: u32 = 25;

pub const OP_LDL: u32 = 26;

pub const OP_LDR: u32 = 27;

pub const OP_LB: u32 = 32;

pub const OP_LH: u32 = 33;

pub const OP_LWL: u32 = 34;

pub const OP_LW: u32 = 35;

pub const OP_LBU: u32 = 36;

pub const OP_LHU: u32 = 37;

pub const OP_LWR: u32 = 38;

pub const OP_LWU: u32 = 39;

pub const OP_SB: u32 = 40;

pub const OP_SH: u32 = 41;

pub const OP_SWL: u32 = 42;

pub const OP_SW: u32 = 43;

pub const OP_SDL: u32 = 44;

pub const OP_SDR: u32 = 45;

pub const OP_SWR: u32 = 46;

pub const OP_CACHE: u32 = 47;

pub const OP_LL: u32 = 48;

pub const OP_LWC1: u32 = 49;

pub const OP_PREF: u32 = 51;

pub const OP_LLD: u32 = 52;

pub const OP_LDC1: u32 = 53;

pub const OP_LD: u32 = 55;

pub const OP_SC: u32 = 56;

pub const OP_SWC1: u32 = 57;

pub const OP_SCD: u32 = 60;

pub const OP_SDC1: u32 = 61;

pub const OP_SD: u32 = 63;

// SPECIAL functions, bits 5..0.
pub const FUNCT_SLL: u32 = 0;

pub const FUNCT_MOVCI: u32 = 1;

pub const FUNCT_SRL: u32 = 2;

pub const FUNCT_SRA: u32 = 3;

pub const FUNCT_SLLV: u32 = 4;

pub const FUNCT_SRLV: u32 = 6;

pub const FUNCT_SRAV: u32 = 7;

pub const FUNCT_JR: u32 = 8;

pub const FUNCT_JALR: u32 = 9;

pub const FUNCT_MOVZ: u32 = 10;

pub const FUNCT_MOVN: u32 = 11;

pub const FUNCT_SYSCALL: u32 = 12;

pub const FUNCT_BREAK: u32 = 13;

pub const FUNCT_SYNC: u32 = 15;

pub const FUNCT_MFHI: u32 = 16;

pub const FUNCT_MTHI: u32 = 17;

pub const FUNCT_MFLO: u32 = 18;

pub const FUNCT_MTLO: u32 = 19;

pub const FUNCT_DSLLV: u32 = 20;

pub const FUNCT_DSRLV: u32 = 22;

pub const FUNCT_DSRAV: u32 = 23;

pub const FUNCT_MULT: u32 = 24;

pub const FUNCT_MULTU: u32 = 25;

pub const FUNCT_DIV: u32 = 26;

pub const FUNCT_DIVU: u32 = 27;

pub const FUNCT_DMULT: u32 = 28;

pub const FUNCT_DMULTU: u32 = 29;

pub const FUNCT_DDIV: u32 = 30;

pub const FUNCT_DDIVU: u32 = 31;

pub const FUNCT_ADD: u32 = 32;

pub const FUNCT_ADDU: u32 = 33;

pub const FUNCT_SUB: u32 = 34;

pub const FUNCT_SUBU: u32 = 35;

pub const FUNCT_AND: u32 = 36;

pub const FUNCT_OR: u32 = 37;

pub const FUNCT_XOR: u32 = 38;

pub const FUNCT_NOR: u32 = 39;

pub const FUNCT_SLT: u32 = 42;

pub const FUNCT_SLTU: u32 = 43;

pub const FUNCT_DADD: u32 = 44;

pub const FUNCT_DADDU: u32 = 45;

pub const FUNCT_DSUB: u32 = 46;

pub const FUNCT_DSUBU: u32 = 47;

pub const FUNCT_TGE: u32 = 48;

pub const FUNCT_TGEU: u32 = 49;

pub const FUNCT_TLT: u32 = 50;

pub const FUNCT_TLTU: u32 = 51;

pub const FUNCT_TEQ: u32 = 52;

pub const FUNCT_TNE: u32 = 54;

pub const FUNCT_DSLL: u32 = 56;

pub const FUNCT_DSRL: u32 = 58;

pub const FUNCT_DSRA: u32 = 59;

pub const FUNCT_DSLL32: u32 = 60;

pub const FUNCT_DSRL32: u32 = 62;

pub const FUNCT_DSRA32: u32 = 63;

// REGIMM selectors, bits 20..16.
pub const RT_BLTZ: u32 = 0;

pub const RT_BGEZ: u32 = 1;

pub const RT_BLTZL: u32 = 2;

pub const RT_BGEZL: u32 = 3;

pub const RT_TGEI: u32 = 8;

pub const RT_TGEIU: u32 = 9;

pub const RT_TLTI: u32 = 10;

pub const RT_TLTIU: u32 = 11;

pub const RT_TEQI: u32 = 12;

pub const RT_TNEI: u32 = 14;

pub const RT_BLTZAL: u32 = 16;

pub const RT_BGEZAL: u32 = 17;

pub const RT_BLTZALL: u32 = 18;

pub const RT_BGEZALL: u32 = 19;

// COP1 selectors, bits 25..21.
pub const RS_MFC1: u32 = 0;

pub const RS_DMFC1: u32 = 1;

pub const RS_CFC1: u32 = 2;

pub const RS_MTC1: u32 = 4;

pub const RS_DMTC1: u32 = 5;

pub const RS_CTC1: u32 = 6;

pub const RS_BC1: u32 = 8;

pub const RS_S: u32 = 16;

pub const RS_D: u32 = 17;

pub const RS_W: u32 = 20;

pub const RS_L: u32 = 21;

// COP1 functions, bits 5..0.
pub const FUNCT_FADD: u32 = 0;

pub const FUNCT_FSUB: u32 = 1;

pub const FUNCT_FMUL: u32 = 2;

pub const FUNCT_FDIV: u32 = 3;

pub const FUNCT_FSQRT: u32 = 4;

pub const FUNCT_FABS: u32 = 5;

pub const FUNCT_FMOV: u32 = 6;

pub const FUNCT_FNEG: u32 = 7;

pub const FUNCT_FROUND_L: u32 = 8;

pub const FUNCT_FTRUNC_L: u32 = 9;

pub const FUNCT_FCEIL_L: u32 = 10;

pub const FUNCT_FFLOOR_L: u32 = 11;

pub const FUNCT_FROUND_W: u32 = 12;

pub const FUNCT_FTRUNC_W: u32 = 13;

pub const FUNCT_FCEIL_W: u32 = 14;

pub const FUNCT_FFLOOR_W: u32 = 15;

pub const FUNCT_FMOVCF: u32 = 17;

pub const FUNCT_FMOVZ: u32 = 18;

pub const FUNCT_FMOVN: u32 = 19;

pub const FUNCT_FRECIP: u32 = 21;

pub const FUNCT_FRSQRT: u32 = 22;

pub const FUNCT_FCVT_S: u32 = 32;

pub const FUNCT_FCVT_D: u32 = 33;

pub const FUNCT_FCVT_W: u32 = 36;

pub const FUNCT_FCVT_L: u32 = 37;

pub const FUNCT_FC_F: u32 = 48;

pub const FUNCT_FC_NGT: u32 = 63;

// COP1X functions, bits 5..0.
pub const FUNCT_LWXC1: u32 = 0;

pub const FUNCT_LDXC1: u32 = 1;

pub const FUNCT_SWXC1: u32 = 8;

pub const FUNCT_SDXC1: u32 = 9;

pub const FUNCT_PREFX: u32 = 15;

pub const FUNCT_MADD_S: u32 = 32;

pub const FUNCT_MADD_D: u32 = 33;

pub const FUNCT_MSUB_S: u32 = 40;

pub const FUNCT_MSUB_D: u32 = 41;

pub const FUNCT_NMADD_S: u32 = 48;

pub const FUNCT_NMADD_D: u32 = 49;

pub const FUNCT_NMSUB_S: u32 = 56;

pub const FUNCT_NMSUB_D: u32 = 57;

// Selectors of COP0.
pub const RS_MFC0: u8 = 0;

pub const RS_DMFC0: u8 = 1;

pub const RS_MTC0: u8 = 4;

pub const RS_DMTC0: u8 = 5;

pub const RS_TLB: u8 = 16;

pub const FUNCT_TLBR: u8 = 1;

pub const FUNCT_TLBWI: u8 = 2;

pub const FUNCT_TLBWR: u8 = 6;

pub const FUNCT_TLBP: u8 = 8;

pub const FUNCT_ERET: u8 = 24;

pub const FUNCT_WAIT: u8 = 32;

// Operations of `cache`, in bits 4..2 of its operation field.
/// Index load of a tag.
pub const C_ILT: u32 = 0x04;

/// Index store of a tag.
pub const C_IST: u32 = 0x08;

/// Create dirty exclusive. This and the operations above it look their address up.
pub const C_CDX: u32 = 0x0C;

} // verus!

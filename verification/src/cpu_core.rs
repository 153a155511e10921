//! Architectural state of the processor: registers, coprocessor 0, the
//! floating-point registers, and the delivery of exceptions.
use vstd::array::spec_array_update;
use vstd::prelude::*;

use crate::status::{
    ExecStatus, EXEC_IS_TLB_REFILL, EXEC_IS_XTLB_REFILL,
};

verus! {

// Status register.
pub const STATUS_IE: u32 = 0x0000_0001;

pub const STATUS_EXL: u32 = 0x0000_0002;

pub const STATUS_ERL: u32 = 0x0000_0004;

pub const STATUS_KSU_SHIFT: u32 = 3;

pub const STATUS_UX: u32 = 0x0000_0020;

pub const STATUS_SX: u32 = 0x0000_0040;

pub const STATUS_KX: u32 = 0x0000_0080;

pub const STATUS_IM_MASK: u32 = 0x0000_FF00;

pub const STATUS_DE: u32 = 0x0001_0000;

pub const STATUS_CE: u32 = 0x0002_0000;

pub const STATUS_CH: u32 = 0x0004_0000;

pub const STATUS_SR: u32 = 0x0010_0000;

pub const STATUS_TS: u32 = 0x0020_0000;

pub const STATUS_BEV: u32 = 0x0040_0000;

pub const STATUS_RE: u32 = 0x0200_0000;

pub const STATUS_FR: u32 = 0x0400_0000;

pub const STATUS_RP: u32 = 0x0800_0000;

pub const STATUS_CU0: u32 = 0x1000_0000;

pub const STATUS_CU1: u32 = 0x2000_0000;

// Cause register.
pub const CAUSE_EXCCODE_MASK: u32 = 0x0000_007C;

pub const CAUSE_IP_SW_MASK: u32 = 0x0000_0300;

pub const CAUSE_IP2: u32 = 0x0000_0400;

pub const CAUSE_IP3: u32 = 0x0000_0800;

pub const CAUSE_IP4: u32 = 0x0000_1000;

pub const CAUSE_IP5: u32 = 0x0000_2000;

pub const CAUSE_IP6: u32 = 0x0000_4000;

pub const CAUSE_IP7: u32 = 0x0000_8000;

pub const CAUSE_IP_MASK: u32 = 0x0000_FF00;

pub const CAUSE_CE_SHIFT: u32 = 28;

pub const CAUSE_CE_MASK: u32 = 0x3000_0000;

pub const CAUSE_BD: u32 = 0x8000_0000;

/// Cause bits that devices drive: IP7 down to IP2.
pub const EXT_INT_MASK: u32 = 0x0000_FC00;

/// Bit of the interrupt word that asks for a soft reset.
pub const SOFT_RESET_BIT: u64 = 0x8000_0000_0000_0000;

/// Where execution starts after a reset.
pub const RESET_VECTOR: u64 = 0xFFFF_FFFF_BFC0_0000;

/// Base of the exception vectors, in normal operation and during bootstrap.
pub const VECTOR_BASE: u64 = 0xFFFF_FFFF_8000_0000;

pub const VECTOR_BASE_BOOT: u64 = 0xFFFF_FFFF_BFC0_0200;

#[derive(Debug, Clone, Copy, PartialEq, Eq, Structural)]
pub enum PrivilegeMode {
    Kernel,
    Supervisor,
    User,
}

/// What a memory access is for.
#[derive(Debug, Clone, Copy, PartialEq, Eq, Structural)]
pub enum AccessType {
    Fetch,
    Read,
    Write,
    Debug,
}

/// The last translation of one kind of access.
#[derive(Debug, Clone, Copy, PartialEq, Eq, Structural)]
pub struct NanoTlbEntry {
    pub valid: bool,
    pub va_page: u64,
    pub phys_page: u64,
    pub c_field: u32,
}

impl NanoTlbEntry {
    pub open spec fn spec_empty() -> Self {
        NanoTlbEntry { valid: false, va_page: 0, phys_page: 0, c_field: 0 }
    }

    #[verifier::when_used_as_spec(spec_empty)]
    pub fn empty() -> (e: Self)
        ensures
            e == Self::spec_empty(),
    {
        NanoTlbEntry { valid: false, va_page: 0, phys_page: 0, c_field: 0 }
    }
}

/// Processor registers.
#[derive(Debug, Clone, Copy)]
pub struct MipsCore {
    pub gpr: [u64; 32],
    pub pc: u64,
    pub hi: u64,
    pub lo: u64,
    pub cp0_index: u32,
    pub cp0_random: u32,
    pub cp0_entrylo0: u64,
    pub cp0_entrylo1: u64,
    pub cp0_context: u64,
    pub cp0_pagemask: u64,
    pub cp0_wired: u32,
    pub cp0_badvaddr: u64,
    pub cp0_count: u64,
    pub cp0_entryhi: u64,
    pub cp0_compare: u64,
    pub cp0_status: u32,
    pub cp0_cause: u32,
    pub cp0_epc: u64,
    pub cp0_prid: u32,
    pub cp0_config: u32,
    pub cp0_lladdr: u32,
    pub cp0_watchlo: u32,
    pub cp0_watchhi: u32,
    pub cp0_xcontext: u64,
    pub cp0_ecc: u32,
    pub cp0_cacheerr: u32,
    pub cp0_taglo: u32,
    pub cp0_taghi: u32,
    pub cp0_errorepc: u64,
    pub fpr: [u64; 32],
    pub fpu_fir: u32,
    pub fpu_fccr: u32,
    pub fpu_fexr: u32,
    pub fpu_fenr: u32,
    pub fpu_fcsr: u32,
    pub running: bool,
    pub halted: bool,
    /// The instruction at `pc` sits in the delay slot of a jump to `delay_slot_target`.
    pub in_delay_slot: bool,
    pub delay_slot_target: u64,
    /// One slot each for fetches, reads and writes.
    pub nanotlb_fetch: NanoTlbEntry,
    pub nanotlb_read: NanoTlbEntry,
    pub nanotlb_write: NanoTlbEntry,
    /// Physical page from which code was last fetched by a new translation; unknown once
    /// translations are forgotten.
    pub code_page: Option<u32>,
    /// Interrupt lines as the devices drive them, in the positions of Cause, and the
    /// soft-reset request.
    pub interrupts: u64,
    pub cycles: u64,
    /// `pc` was reached by a jump: worth compiling.
    pub jit_trigger: bool,
    pub tlb_entries: u32,
    pub count_hz: u64,
    pub compare_delta_slow: u64,
    pub compare_delta_fast: u64,
}

/// All registers zero.
pub open spec fn is_zeroed(s: Seq<u64>) -> bool {
    s == Seq::new(32, |i: int| 0u64)
}

/// Thirty-two registers that hold zero.
pub open spec fn zero_registers() -> [u64; 32] {
    [
        0, 0, 0, 0, 0, 0, 0, 0, 0, 0, 0, 0, 0, 0, 0, 0,
        0, 0, 0, 0, 0, 0, 0, 0, 0, 0, 0, 0, 0, 0, 0, 0,
    ]
}

impl MipsCore {
    /// The zero register holds zero.
    pub open spec fn wf(&self) -> bool {
        self.gpr@[0] == 0
    }

    /// The state of a processor that has just been switched on.
    pub open spec fn initial() -> MipsCore {
        MipsCore {
            gpr: zero_registers(),
            pc: RESET_VECTOR,
            hi: 0,
            lo: 0,
            cp0_index: 0,
            cp0_random: 47,
            cp0_entrylo0: 0,
            cp0_entrylo1: 0,
            cp0_context: 0,
            cp0_pagemask: 0,
            cp0_wired: 0,
            cp0_badvaddr: 0,
            cp0_count: 0,
            cp0_entryhi: 0,
            cp0_compare: 0,
            cp0_status: STATUS_BEV | STATUS_ERL,
            cp0_cause: 0,
            cp0_epc: 0,
            cp0_prid: 0x0460,
            cp0_config: 0,
            cp0_lladdr: 0,
            cp0_watchlo: 0,
            cp0_watchhi: 0,
            cp0_xcontext: 0,
            cp0_ecc: 0,
            cp0_cacheerr: 0,
            cp0_taglo: 0,
            cp0_taghi: 0,
            cp0_errorepc: 0,
            fpr: zero_registers(),
            fpu_fir: 0x0500,
            fpu_fccr: 0,
            fpu_fexr: 0,
            fpu_fenr: 0,
            fpu_fcsr: 0,
            running: false,
            halted: false,
            in_delay_slot: false,
            delay_slot_target: 0,
            nanotlb_fetch: NanoTlbEntry::spec_empty(),
            nanotlb_read: NanoTlbEntry::spec_empty(),
            nanotlb_write: NanoTlbEntry::spec_empty(),
            code_page: None,
            interrupts: 0,
            cycles: 0,
            jit_trigger: false,
            tlb_entries: 48,
            count_hz: 33_000_000,
            compare_delta_slow: 0,
            compare_delta_fast: 0,
        }
    }

    /// A processor after power-on, with its registers all zero.
    pub fn new() -> (c: Self)
        ensures
            c == Self::initial(),
            c.wf(),
            is_zeroed(c.gpr@),
            is_zeroed(c.fpr@),
    {
        let c = MipsCore {
            gpr: [0u64;32],
            pc: RESET_VECTOR,
            hi: 0,
            lo: 0,
            cp0_index: 0,
            cp0_random: 47,
            cp0_entrylo0: 0,
            cp0_entrylo1: 0,
            cp0_context: 0,
            cp0_pagemask: 0,
            cp0_wired: 0,
            cp0_badvaddr: 0,
            cp0_count: 0,
            cp0_entryhi: 0,
            cp0_compare: 0,
            cp0_status: STATUS_BEV | STATUS_ERL,
            cp0_cause: 0,
            cp0_epc: 0,
            cp0_prid: 0x0460,
            cp0_config: 0,
            cp0_lladdr: 0,
            cp0_watchlo: 0,
            cp0_watchhi: 0,
            cp0_xcontext: 0,
            cp0_ecc: 0,
            cp0_cacheerr: 0,
            cp0_taglo: 0,
            cp0_taghi: 0,
            cp0_errorepc: 0,
            fpr: [0u64;32],
            fpu_fir: 0x0500,
            fpu_fccr: 0,
            fpu_fexr: 0,
            fpu_fenr: 0,
            fpu_fcsr: 0,
            running: false,
            halted: false,
            in_delay_slot: false,
            delay_slot_target: 0,
            nanotlb_fetch: NanoTlbEntry::empty(),
            nanotlb_read: NanoTlbEntry::empty(),
            nanotlb_write: NanoTlbEntry::empty(),
            code_page: None,
            interrupts: 0,
            cycles: 0,
            jit_trigger: false,
            tlb_entries: 48,
            count_hz: 33_000_000,
            compare_delta_slow: 0,
            compare_delta_fast: 0,
        };
        assert(c.gpr =~= Self::initial().gpr);
        assert(c.fpr =~= Self::initial().fpr);
        assert(c.gpr@ =~= Seq::new(32, |i: int| 0u64));
        assert(c.fpr@ =~= Seq::new(32, |i: int| 0u64));
        c
    }

    // General registers.
    pub open spec fn gpr_at(&self, r: u8) -> u64 {
        self.gpr@[r as int]
    }

    /// The state with register `r` set to `v`. Register 0 cannot be set.
    pub open spec fn with_gpr(self, r: u8, v: u64) -> MipsCore {
        if r == 0 {
            self
        } else {
            MipsCore { gpr: spec_array_update(self.gpr, r as int, v), ..self }
        }
    }

    pub fn read_gpr(&self, r: u8) -> (v: u64)
        requires
            r < 32,
        ensures
            v == self.gpr_at(r),
    {
        self.gpr[r as usize]
    }

    pub fn write_gpr(&mut self, r: u8, v: u64)
        requires
            r < 32,
        ensures
            *final(self) == old(self).with_gpr(r, v),
    {
        if r != 0 {
            self.gpr[r as usize] = v;
            assert(self.gpr =~= spec_array_update(old(self).gpr, r as int, v));
        }
    }

    // Floating-point registers. With Status.FR clear, the even register of a pair
    // holds 64-bit values and an odd 32-bit register is the upper half of its pair.
    pub open spec fn fr_mode(&self) -> bool {
        self.cp0_status & STATUS_FR != 0
    }

    /// Slot that holds the 64-bit register `r`.
    pub open spec fn fpr_slot(&self, r: u8) -> int {
        if self.fr_mode() || r % 2 == 0 {
            r as int
        } else {
            r - 1
        }
    }

    pub open spec fn fpr_l(&self, r: u8) -> u64 {
        self.fpr@[self.fpr_slot(r)]
    }

    pub open spec fn with_fpr_l(self, r: u8, v: u64) -> MipsCore {
        MipsCore { fpr: spec_array_update(self.fpr, self.fpr_slot(r), v), ..self }
    }

    pub open spec fn fpr_w(&self, r: u8) -> u32 {
        if self.fr_mode() || r % 2 == 0 {
            self.fpr@[r as int] as u32
        } else {
            (self.fpr@[r - 1] >> 32) as u32
        }
    }

    pub open spec fn with_fpr_w(self, r: u8, v: u32) -> MipsCore {
        let slot = self.fpr_slot(r);
        let whole = self.fpr@[slot];
        let merged = if self.fr_mode() || r % 2 == 0 {
            (whole & 0xFFFF_FFFF_0000_0000) | (v as u64)
        } else {
            (whole & 0x0000_0000_FFFF_FFFF) | ((v as u64) << 32)
        };
        MipsCore { fpr: spec_array_update(self.fpr, slot, merged), ..self }
    }

    pub fn read_fpr_l(&self, r: u8) -> (v: u64)
        requires
            r < 32,
        ensures
            v == self.fpr_l(r),
    {
        if (self.cp0_status & STATUS_FR) != 0 || r % 2 == 0 {
            self.fpr[r as usize]
        } else {
            self.fpr[(r - 1) as usize]
        }
    }

    pub fn write_fpr_l(&mut self, r: u8, v: u64)
        requires
            r < 32,
        ensures
            *final(self) == old(self).with_fpr_l(r, v),
    {
        let slot: usize = if (self.cp0_status & STATUS_FR) != 0 || r % 2 == 0 {
            r as usize
        } else {
            (r - 1) as usize
        };
        self.fpr[slot] = v;
        assert(self.fpr =~= spec_array_update(old(self).fpr, slot as int, v));
    }

    pub fn read_fpr_w(&self, r: u8) -> (v: u32)
        requires
            r < 32,
        ensures
            v == self.fpr_w(r),
    {
        if (self.cp0_status & STATUS_FR) != 0 || r % 2 == 0 {
            self.fpr[r as usize] as u32
        } else {
            (self.fpr[(r - 1) as usize] >> 32) as u32
        }
    }

    pub fn write_fpr_w(&mut self, r: u8, v: u32)
        requires
            r < 32,
        ensures
            *final(self) == old(self).with_fpr_w(r, v),
    {
        let low: bool = (self.cp0_status & STATUS_FR) != 0 || r % 2 == 0;
        let slot: usize = if low {
            r as usize
        } else {
            (r - 1) as usize
        };
        let whole: u64 = self.fpr[slot];
        let merged: u64 = if low {
            (whole & 0xFFFF_FFFF_0000_0000) | (v as u64)
        } else {
            (whole & 0x0000_0000_FFFF_FFFF) | ((v as u64) << 32)
        };
        self.fpr[slot] = merged;
        assert(self.fpr =~= spec_array_update(old(self).fpr, slot as int, merged));
    }

    // Floating-point condition codes: bit 23 of FCSR, then bits 25 and up.
    pub open spec fn fpu_cc_bit(cc: u32) -> u32 {
        if cc == 0 {
            1u32 << 23
        } else {
            1u32 << ((24 + cc) as u32)
        }
    }

    pub open spec fn fpu_cc(&self, cc: u32) -> bool {
        self.fpu_fcsr & Self::fpu_cc_bit(cc) != 0
    }

    pub open spec fn with_fpu_cc(self, cc: u32, v: bool) -> MipsCore {
        MipsCore {
            fpu_fcsr: if v {
                self.fpu_fcsr | Self::fpu_cc_bit(cc)
            } else {
                self.fpu_fcsr & !Self::fpu_cc_bit(cc)
            },
            ..self
        }
    }

    pub fn get_fpu_cc(&self, cc: u32) -> (b: bool)
        requires
            cc < 8,
        ensures
            b == self.fpu_cc(cc),
    {
        let bit: u32 = if cc == 0 {
            1u32 << 23
        } else {
            1u32 << (24 + cc)
        };
        self.fpu_fcsr & bit != 0
    }

    pub fn set_fpu_cc(&mut self, cc: u32, v: bool)
        requires
            cc < 8,
        ensures
            *final(self) == old(self).with_fpu_cc(cc, v),
    {
        let bit: u32 = if cc == 0 {
            1u32 << 23
        } else {
            1u32 << (24 + cc)
        };
        if v {
            self.fpu_fcsr = self.fpu_fcsr | bit;
        } else {
            self.fpu_fcsr = self.fpu_fcsr & !bit;
        }
    }

    /// Floating-point control register `r`: FIR, FCCR, FEXR, FENR or FCSR.
    pub open spec fn fpu_control(&self, r: u8) -> u32 {
        match r {
            0 => self.fpu_fir,
            25 => self.fpu_fccr,
            26 => self.fpu_fexr,
            28 => self.fpu_fenr,
            31 => self.fpu_fcsr,
            _ => 0,
        }
    }

    pub open spec fn with_fpu_control(self, r: u8, v: u32) -> MipsCore {
        match r {
            25 => MipsCore { fpu_fccr: v, ..self },
            26 => MipsCore { fpu_fexr: v, ..self },
            28 => MipsCore { fpu_fenr: v, ..self },
            31 => MipsCore { fpu_fcsr: v, ..self },
            _ => self,
        }
    }

    pub fn read_fpu_control(&self, r: u8) -> (v: u32)
        ensures
            v == self.fpu_control(r),
    {
        match r {
            0 => self.fpu_fir,
            25 => self.fpu_fccr,
            26 => self.fpu_fexr,
            28 => self.fpu_fenr,
            31 => self.fpu_fcsr,
            _ => 0,
        }
    }

    pub fn write_fpu_control(&mut self, r: u8, v: u32)
        ensures
            *final(self) == old(self).with_fpu_control(r, v),
    {
        match r {
            25 => {
                self.fpu_fccr = v;
            },
            26 => {
                self.fpu_fexr = v;
            },
            28 => {
                self.fpu_fenr = v;
            },
            31 => {
                self.fpu_fcsr = v;
            },
            _ => {},
        }
    }

    // Modes.
    pub open spec fn ksu(&self) -> u32 {
        (self.cp0_status >> STATUS_KSU_SHIFT) & 3
    }

    /// Kernel at exception or error level, otherwise as Status.KSU says.
    pub open spec fn privilege(&self) -> PrivilegeMode {
        if self.cp0_status & (STATUS_EXL | STATUS_ERL) != 0 || self.ksu() == 0 {
            PrivilegeMode::Kernel
        } else if self.ksu() == 1 {
            PrivilegeMode::Supervisor
        } else {
            PrivilegeMode::User
        }
    }

    /// 64-bit addressing is on for the current privilege.
    pub open spec fn is_64bit(&self) -> bool {
        match self.privilege() {
            PrivilegeMode::Kernel => self.cp0_status & STATUS_KX != 0,
            PrivilegeMode::Supervisor => self.cp0_status & STATUS_SX != 0,
            PrivilegeMode::User => self.cp0_status & STATUS_UX != 0,
        }
    }

    pub open spec fn takes_interrupts(&self) -> bool {
        self.cp0_status & STATUS_IE != 0 && self.cp0_status & STATUS_EXL == 0 && self.cp0_status
            & STATUS_ERL == 0
    }

    pub fn get_privilege_mode(&self) -> (p: PrivilegeMode)
        ensures
            p == self.privilege(),
    {
        let ksu: u32 = (self.cp0_status >> STATUS_KSU_SHIFT) & 3;
        if self.cp0_status & (STATUS_EXL | STATUS_ERL) != 0 || ksu == 0 {
            PrivilegeMode::Kernel
        } else if ksu == 1 {
            PrivilegeMode::Supervisor
        } else {
            PrivilegeMode::User
        }
    }

    pub fn is_64bit_mode(&self) -> (b: bool)
        ensures
            b == self.is_64bit(),
    {
        match self.get_privilege_mode() {
            PrivilegeMode::Kernel => self.cp0_status & STATUS_KX != 0,
            PrivilegeMode::Supervisor => self.cp0_status & STATUS_SX != 0,
            PrivilegeMode::User => self.cp0_status & STATUS_UX != 0,
        }
    }

    pub fn interrupts_enabled(&self) -> (b: bool)
        ensures
            b == self.takes_interrupts(),
    {
        self.cp0_status & STATUS_IE != 0 && self.cp0_status & STATUS_EXL == 0 && self.cp0_status
            & STATUS_ERL == 0
    }

    /// The state with no remembered translations.
    pub open spec fn without_nanotlb(self) -> MipsCore {
        MipsCore {
            nanotlb_fetch: NanoTlbEntry::spec_empty(),
            nanotlb_read: NanoTlbEntry::spec_empty(),
            nanotlb_write: NanoTlbEntry::spec_empty(),
            code_page: None,
            ..self
        }
    }

    pub fn nanotlb_invalidate(&mut self)
        ensures
            *final(self) == old(self).without_nanotlb(),
    {
        self.nanotlb_fetch = NanoTlbEntry::empty();
        self.nanotlb_read = NanoTlbEntry::empty();
        self.nanotlb_write = NanoTlbEntry::empty();
        self.code_page = None;
    }

    // Coprocessor 0.
    pub open spec fn cp0(&self, r: u8) -> u64 {
        match r {
            0 => self.cp0_index as u64,
            1 => self.cp0_random as u64,
            2 => self.cp0_entrylo0,
            3 => self.cp0_entrylo1,
            4 => self.cp0_context,
            5 => self.cp0_pagemask,
            6 => self.cp0_wired as u64,
            8 => self.cp0_badvaddr,
            9 => self.cp0_count,
            10 => self.cp0_entryhi,
            11 => self.cp0_compare,
            12 => self.cp0_status as u64,
            13 => self.cp0_cause as u64,
            14 => self.cp0_epc,
            15 => self.cp0_prid as u64,
            16 => self.cp0_config as u64,
            17 => self.cp0_lladdr as u64,
            18 => self.cp0_watchlo as u64,
            19 => self.cp0_watchhi as u64,
            20 => self.cp0_xcontext,
            26 => self.cp0_ecc as u64,
            27 => self.cp0_cacheerr as u64,
            28 => self.cp0_taglo as u64,
            29 => self.cp0_taghi as u64,
            30 => self.cp0_errorepc,
            _ => 0,
        }
    }

    pub fn read_cp0(&self, r: u8) -> (v: u64)
        ensures
            v == self.cp0(r),
    {
        match r {
            0 => self.cp0_index as u64,
            1 => self.cp0_random as u64,
            2 => self.cp0_entrylo0,
            3 => self.cp0_entrylo1,
            4 => self.cp0_context,
            5 => self.cp0_pagemask,
            6 => self.cp0_wired as u64,
            8 => self.cp0_badvaddr,
            9 => self.cp0_count,
            10 => self.cp0_entryhi,
            11 => self.cp0_compare,
            12 => self.cp0_status as u64,
            13 => self.cp0_cause as u64,
            14 => self.cp0_epc,
            15 => self.cp0_prid as u64,
            16 => self.cp0_config as u64,
            17 => self.cp0_lladdr as u64,
            18 => self.cp0_watchlo as u64,
            19 => self.cp0_watchhi as u64,
            20 => self.cp0_xcontext,
            26 => self.cp0_ecc as u64,
            27 => self.cp0_cacheerr as u64,
            28 => self.cp0_taglo as u64,
            29 => self.cp0_taghi as u64,
            30 => self.cp0_errorepc,
            _ => 0,
        }
    }

    /// Random points at the highest TLB entry after Wired is written.
    pub open spec fn top_random(&self) -> u32 {
        if self.tlb_entries == 0 {
            0
        } else {
            (self.tlb_entries - 1) as u32
        }
    }

    /// The state after coprocessor register `r` is written. Random, BadVAddr and PRId
    /// are read-only; of Cause only the two software interrupts can be written; writing
    /// Compare withdraws the timer interrupt; Status and EntryHi select translations,
    /// so writing them forgets the remembered ones.
    pub open spec fn with_cp0(self, r: u8, v: u64) -> MipsCore {
        match r {
            0 => MipsCore { cp0_index: v as u32, ..self },
            2 => MipsCore { cp0_entrylo0: v, ..self },
            3 => MipsCore { cp0_entrylo1: v, ..self },
            4 => MipsCore { cp0_context: v, ..self },
            5 => MipsCore { cp0_pagemask: v, ..self },
            6 => MipsCore { cp0_wired: v as u32, cp0_random: self.top_random(), ..self },
            9 => MipsCore { cp0_count: v as u32 as u64, ..self },
            10 => MipsCore { cp0_entryhi: v, ..self }.without_nanotlb(),
            11 => MipsCore {
                cp0_compare: v as u32 as u64,
                cp0_cause: self.cp0_cause & !CAUSE_IP7,
                interrupts: self.interrupts & !(CAUSE_IP7 as u64),
                ..self
            },
            12 => MipsCore { cp0_status: v as u32, ..self }.without_nanotlb(),
            13 => MipsCore {
                cp0_cause: (self.cp0_cause & !CAUSE_IP_SW_MASK) | (v as u32 & CAUSE_IP_SW_MASK),
                ..self
            },
            14 => MipsCore { cp0_epc: v, ..self },
            16 => MipsCore { cp0_config: v as u32, ..self },
            17 => MipsCore { cp0_lladdr: v as u32, ..self },
            18 => MipsCore { cp0_watchlo: v as u32, ..self },
            19 => MipsCore { cp0_watchhi: v as u32, ..self },
            20 => MipsCore { cp0_xcontext: v, ..self },
            26 => MipsCore { cp0_ecc: v as u32, ..self },
            27 => MipsCore { cp0_cacheerr: v as u32, ..self },
            28 => MipsCore { cp0_taglo: v as u32, ..self },
            29 => MipsCore { cp0_taghi: v as u32, ..self },
            30 => MipsCore { cp0_errorepc: v, ..self },
            _ => self,
        }
    }

    pub fn write_cp0(&mut self, r: u8, v: u64)
        ensures
            *final(self) == old(self).with_cp0(r, v),
    {
        match r {
            0 => {
                self.cp0_index = v as u32;
            },
            2 => {
                self.cp0_entrylo0 = v;
            },
            3 => {
                self.cp0_entrylo1 = v;
            },
            4 => {
                self.cp0_context = v;
            },
            5 => {
                self.cp0_pagemask = v;
            },
            6 => {
                self.cp0_wired = v as u32;
                self.cp0_random = if self.tlb_entries == 0 {
                    0
                } else {
                    self.tlb_entries - 1
                };
            },
            9 => {
                self.cp0_count = v as u32 as u64;
            },
            10 => {
                self.cp0_entryhi = v;
                self.nanotlb_invalidate();
            },
            11 => {
                self.cp0_compare = v as u32 as u64;
                self.cp0_cause = self.cp0_cause & !CAUSE_IP7;
                self.interrupts = self.interrupts & !(CAUSE_IP7 as u64);
            },
            12 => {
                self.cp0_status = v as u32;
                self.nanotlb_invalidate();
            },
            13 => {
                self.cp0_cause = (self.cp0_cause & !CAUSE_IP_SW_MASK) | (v as u32
                    & CAUSE_IP_SW_MASK);
            },
            14 => {
                self.cp0_epc = v;
            },
            16 => {
                self.cp0_config = v as u32;
            },
            17 => {
                self.cp0_lladdr = v as u32;
            },
            18 => {
                self.cp0_watchlo = v as u32;
            },
            19 => {
                self.cp0_watchhi = v as u32;
            },
            20 => {
                self.cp0_xcontext = v;
            },
            26 => {
                self.cp0_ecc = v as u32;
            },
            27 => {
                self.cp0_cacheerr = v as u32;
            },
            28 => {
                self.cp0_taglo = v as u32;
            },
            29 => {
                self.cp0_taghi = v as u32;
            },
            30 => {
                self.cp0_errorepc = v;
            },
            _ => {},
        }
    }

    /// Random moves down to Wired and then starts again at the top.
    pub open spec fn next_random(&self) -> u32 {
        if self.cp0_random <= self.cp0_wired {
            self.top_random()
        } else {
            (self.cp0_random - 1) as u32
        }
    }

    pub fn update_random(&mut self)
        ensures
            *final(self) == (MipsCore { cp0_random: old(self).next_random(), ..*old(self) }),
    {
        self.cp0_random = if self.cp0_random <= self.cp0_wired {
            if self.tlb_entries == 0 {
                0
            } else {
                self.tlb_entries - 1
            }
        } else {
            self.cp0_random - 1
        };
    }

    // Exceptions.
    /// Offset of the handler of exception `status`: the refill vectors for a TLB refill
    /// outside exception level, the general vector for all else.
    pub open spec fn vector_offset(&self, status: ExecStatus) -> u64 {
        if self.cp0_status & STATUS_EXL != 0 || status & EXEC_IS_TLB_REFILL == 0 {
            0x180
        } else if status & EXEC_IS_XTLB_REFILL != 0 {
            0x080
        } else {
            0x000
        }
    }

    pub open spec fn vector_base(&self) -> u64 {
        if self.cp0_status & STATUS_BEV != 0 {
            VECTOR_BASE_BOOT
        } else {
            VECTOR_BASE
        }
    }

    /// Where execution resumes after the exception: the faulting instruction, or the
    /// branch before it where it sits in a delay slot.
    pub open spec fn resume_pc(&self) -> u64 {
        if self.in_delay_slot {
            vstd::wrapping::u64_specs::wrapping_sub(self.pc, 4)
        } else {
            self.pc
        }
    }

    /// The state after exception `status` is delivered: Cause takes its code, control
    /// passes to its vector at exception level, and, unless the processor was at
    /// exception level already, EPC and Cause.BD say where it happened.
    pub open spec fn excepted(self, status: ExecStatus) -> MipsCore {
        let nested = self.cp0_status & STATUS_EXL != 0;
        let code = status & CAUSE_EXCCODE_MASK;
        let kept = self.cp0_cause & !CAUSE_EXCCODE_MASK;
        MipsCore {
            cp0_cause: if nested {
                kept | code
            } else if self.in_delay_slot {
                kept | code | CAUSE_BD
            } else {
                (kept | code) & !CAUSE_BD
            },
            cp0_epc: if nested {
                self.cp0_epc
            } else {
                self.resume_pc()
            },
            cp0_status: self.cp0_status | STATUS_EXL,
            pc: vstd::wrapping::u64_specs::wrapping_add(
                self.vector_base(),
                self.vector_offset(status),
            ),
            ..self
        }
    }

    pub fn deliver_exception(&mut self, status: ExecStatus)
        ensures
            *final(self) == old(self).excepted(status),
    {
        let nested: bool = self.cp0_status & STATUS_EXL != 0;
        let code: u32 = status & CAUSE_EXCCODE_MASK;
        let kept: u32 = self.cp0_cause & !CAUSE_EXCCODE_MASK;
        let offset: u64 = if nested || status & EXEC_IS_TLB_REFILL == 0 {
            0x180
        } else if status & EXEC_IS_XTLB_REFILL != 0 {
            0x080
        } else {
            0x000
        };
        let base: u64 = if self.cp0_status & STATUS_BEV != 0 {
            VECTOR_BASE_BOOT
        } else {
            VECTOR_BASE
        };
        if nested {
            self.cp0_cause = kept | code;
        } else if self.in_delay_slot {
            self.cp0_cause = kept | code | CAUSE_BD;
            self.cp0_epc = self.pc.wrapping_sub(4);
        } else {
            self.cp0_cause = (kept | code) & !CAUSE_BD;
            self.cp0_epc = self.pc;
        }
        self.cp0_status = self.cp0_status | STATUS_EXL;
        self.pc = base.wrapping_add(offset);
    }

    /// The state after a reset. A soft reset keeps the registers and notes in ErrorEPC
    /// and Status.SR where it struck; a hard one also clears the interrupt masks.
    pub open spec fn after_reset(self, soft: bool) -> MipsCore {
        MipsCore {
            cp0_errorepc: if soft {
                self.cp0_errorepc_at_reset()
            } else {
                self.cp0_errorepc
            },
            cp0_status: if soft {
                self.cp0_status | STATUS_BEV | STATUS_ERL | STATUS_SR
            } else {
                STATUS_BEV | STATUS_ERL
            },
            cp0_cause: if soft {
                self.cp0_cause
            } else {
                0
            },
            cp0_wired: 0,
            cp0_random: self.top_random(),
            pc: RESET_VECTOR,
            interrupts: 0,
            ..self
        }.without_nanotlb()
    }

    pub open spec fn cp0_errorepc_at_reset(&self) -> u64 {
        self.resume_pc()
    }

    pub fn reset(&mut self, soft: bool)
        ensures
            *final(self) == old(self).after_reset(soft),
    {
        if soft {
            self.cp0_errorepc = if self.in_delay_slot {
                self.pc.wrapping_sub(4)
            } else {
                self.pc
            };
            self.cp0_status = self.cp0_status | STATUS_BEV | STATUS_ERL | STATUS_SR;
        } else {
            self.cp0_status = STATUS_BEV | STATUS_ERL;
            self.cp0_cause = 0;
        }
        self.cp0_wired = 0;
        self.cp0_random = if self.tlb_entries == 0 {
            0
        } else {
            self.tlb_entries - 1
        };
        self.pc = RESET_VECTOR;
        self.interrupts = 0;
        self.nanotlb_invalidate();
    }
}

} // verus!

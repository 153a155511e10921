//! The processor as a remote debugger sees it: steps, stops, registers, memory and
//! breakpoints.
use vstd::prelude::*;

use crate::breakpoints::{position, without, BpType, Breakpoint, BreakpointTable};
use crate::bus::{BusDevice, MipsCache, Tlb};
use crate::bytes::big_endian;
use crate::cpu_core::MipsCore;
use crate::fpu::{FloatReply, FloatRequest, Step};
use crate::instr::{fields_bounded, DecodedInstr};
use crate::machine::{Machine, MipsExecutor};
use crate::status::{ExecStatus, EXEC_BREAKPOINT};

verus! {

/// Identifier of the first breakpoint that a remote debugger sets.
pub const FIRST_GDB_BP_ID: usize = 10000;

#[derive(Clone, Copy, Debug, PartialEq, Eq, Structural)]
pub enum WatchKind {
    Read,
    Write,
}

/// Why the processor stopped.
#[derive(Clone, Copy, Debug, PartialEq, Eq, Structural)]
pub enum StopReason {
    Interrupted,
    DoneStep,
    SwBreakpoint,
    Watchpoint { addr: u64, kind: WatchKind },
}

/// What comes of a step.
#[derive(Clone, Copy, Debug, PartialEq, Eq, Structural)]
pub enum GdbTurn {
    /// The step is over. It is `noted` as the last stop, or not.
    Stopped { reason: StopReason, noted: bool },
    /// The instruction, or if `slot` the one in its delay slot, waits for a
    /// floating-point result.
    Float { request: FloatRequest, instr: DecodedInstr, slot: bool },
}

/// Registers that a remote debugger can name.
#[derive(Clone, Copy, Debug, PartialEq, Eq, Structural)]
pub enum RegId {
    Gpr(u8),
    Lo,
    Hi,
    Pc,
    Status,
    Badvaddr,
    Cause,
    Fpr(u8),
    Fcsr,
    Fir,
    Other,
}

/// All registers that a remote debugger sees.
#[derive(Clone, Copy, Debug)]
pub struct GdbRegs {
    pub r: [u64; 32],
    pub lo: u64,
    pub hi: u64,
    pub pc: u64,
    pub status: u64,
    pub badvaddr: u64,
    pub cause: u64,
    pub fpr: [u64; 32],
    pub fcsr: u64,
    pub fir: u64,
}

impl MipsCore {
    /// Whether a remote debugger sees these registers as `g`.
    pub open spec fn seen_as(&self, g: GdbRegs) -> bool {
        &&& g.r@ == self.gpr@
        &&& g.lo == self.lo && g.hi == self.hi && g.pc == self.pc
        &&& g.status == self.cp0_status && g.badvaddr == self.cp0_badvaddr && g.cause
            == self.cp0_cause
        &&& g.fpr@ == self.fpr@
        &&& g.fcsr == self.fpu_fcsr && g.fir == self.fpu_fir
    }

    /// Whether `c` is this state with the registers `g`. The zero register stays.
    pub open spec fn set_to(&self, g: GdbRegs, c: MipsCore) -> bool {
        &&& c.gpr@ == g.r@.update(0, self.gpr@[0])
        &&& c.fpr@ == g.fpr@
        &&& c == (MipsCore {
            gpr: c.gpr,
            fpr: c.fpr,
            lo: g.lo,
            hi: g.hi,
            pc: g.pc,
            cp0_status: g.status as u32,
            cp0_badvaddr: g.badvaddr,
            cp0_cause: g.cause as u32,
            fpu_fcsr: g.fcsr as u32,
            fpu_fir: g.fir as u32,
            ..*self
        })
    }

    /// The register `id`, if there is one.
    pub open spec fn reg(&self, id: RegId) -> Option<u64> {
        match id {
            RegId::Gpr(i) => if i < 32 {
                Some(self.gpr@[i as int])
            } else {
                None
            },
            RegId::Lo => Some(self.lo),
            RegId::Hi => Some(self.hi),
            RegId::Pc => Some(self.pc),
            RegId::Status => Some(self.cp0_status as u64),
            RegId::Badvaddr => Some(self.cp0_badvaddr),
            RegId::Cause => Some(self.cp0_cause as u64),
            RegId::Fpr(i) => if i < 32 {
                Some(self.fpr@[i as int])
            } else {
                None
            },
            RegId::Fcsr => Some(self.fpu_fcsr as u64),
            RegId::Fir => Some(self.fpu_fir as u64),
            RegId::Other => None,
        }
    }

    /// Whether `c` is this state with `v` written to the register `id`. The zero
    /// register, those that only the processor sets, and such as there are not, take
    /// nothing.
    pub open spec fn reg_set_to(&self, id: RegId, v: u64, c: MipsCore) -> bool {
        match id {
            RegId::Gpr(i) => if 0 < i < 32 {
                c.gpr@ == self.gpr@.update(i as int, v) && c == (MipsCore { gpr: c.gpr, ..*self })
            } else {
                c == *self
            },
            RegId::Lo => c == (MipsCore { lo: v, ..*self }),
            RegId::Hi => c == (MipsCore { hi: v, ..*self }),
            RegId::Pc => c == (MipsCore { pc: v, ..*self }),
            RegId::Status => c == (MipsCore { cp0_status: v as u32, ..*self }),
            RegId::Cause => c == (MipsCore { cp0_cause: v as u32, ..*self }),
            RegId::Fpr(i) => if i < 32 {
                c.fpr@ == self.fpr@.update(i as int, v) && c == (MipsCore { fpr: c.fpr, ..*self })
            } else {
                c == *self
            },
            RegId::Fcsr => c == (MipsCore { fpu_fcsr: v as u32, ..*self }),
            RegId::Badvaddr | RegId::Fir | RegId::Other => c == *self,
        }
    }

    /// All registers.
    pub fn read_regs(&self) -> (g: GdbRegs)
        ensures
            self.seen_as(g),
    {
        GdbRegs {
            r: self.gpr,
            lo: self.lo,
            hi: self.hi,
            pc: self.pc,
            status: self.cp0_status as u64,
            badvaddr: self.cp0_badvaddr,
            cause: self.cp0_cause as u64,
            fpr: self.fpr,
            fcsr: self.fpu_fcsr as u64,
            fir: self.fpu_fir as u64,
        }
    }

    /// Sets all registers.
    pub fn write_regs(&mut self, g: &GdbRegs)
        ensures
            old(self).set_to(*g, *final(self)),
    {
        let zero: u64 = self.gpr[0];
        self.gpr = g.r;
        self.gpr[0] = zero;
        self.lo = g.lo;
        self.hi = g.hi;
        self.pc = g.pc;
        self.cp0_status = #[verifier::truncate] (g.status as u32);
        self.cp0_badvaddr = g.badvaddr;
        self.cp0_cause = #[verifier::truncate] (g.cause as u32);
        self.fpr = g.fpr;
        self.fpu_fcsr = #[verifier::truncate] (g.fcsr as u32);
        self.fpu_fir = #[verifier::truncate] (g.fir as u32);
        assert(self.gpr@ =~= g.r@.update(0, old(self).gpr@[0]));
    }

    /// One register.
    pub fn read_reg(&self, id: RegId) -> (r: Option<u64>)
        ensures
            r == self.reg(id),
    {
        match id {
            RegId::Gpr(i) => if i < 32 {
                Some(self.gpr[i as usize])
            } else {
                None
            },
            RegId::Lo => Some(self.lo),
            RegId::Hi => Some(self.hi),
            RegId::Pc => Some(self.pc),
            RegId::Status => Some(self.cp0_status as u64),
            RegId::Badvaddr => Some(self.cp0_badvaddr),
            RegId::Cause => Some(self.cp0_cause as u64),
            RegId::Fpr(i) => if i < 32 {
                Some(self.fpr[i as usize])
            } else {
                None
            },
            RegId::Fcsr => Some(self.fpu_fcsr as u64),
            RegId::Fir => Some(self.fpu_fir as u64),
            RegId::Other => None,
        }
    }

    /// Sets one register.
    pub fn write_reg(&mut self, id: RegId, v: u64)
        ensures
            old(self).reg_set_to(id, v, *final(self)),
    {
        match id {
            RegId::Gpr(i) => {
                if i > 0 && i < 32 {
                    self.gpr[i as usize] = v;
                }
            },
            RegId::Lo => {
                self.lo = v;
            },
            RegId::Hi => {
                self.hi = v;
            },
            RegId::Pc => {
                self.pc = v;
            },
            RegId::Status => {
                self.cp0_status = #[verifier::truncate] (v as u32);
            },
            RegId::Cause => {
                self.cp0_cause = #[verifier::truncate] (v as u32);
            },
            RegId::Fpr(i) => {
                if i < 32 {
                    self.fpr[i as usize] = v;
                }
            },
            RegId::Fcsr => {
                self.fpu_fcsr = #[verifier::truncate] (v as u32);
            },
            RegId::Badvaddr | RegId::Fir | RegId::Other => {},
        }
    }
}

/// Registers that a remote debugger can set.
pub open spec fn is_writable(id: RegId) -> bool {
    match id {
        RegId::Gpr(i) => 0 < i < 32,
        RegId::Fpr(i) => i < 32,
        RegId::Badvaddr | RegId::Fir | RegId::Other => false,
        _ => true,
    }
}

/// Registers of 32 bits.
pub open spec fn is_narrow(id: RegId) -> bool {
    id == RegId::Status || id == RegId::Cause || id == RegId::Fcsr
}

/// Law: a register that can be set reads back as it was written, in its own width, and
/// all others as before.
pub proof fn law_registers_read_back(c: MipsCore, id: RegId, v: u64, after: MipsCore, other: RegId)
    requires
        c.reg_set_to(id, v, after),
    ensures
        is_writable(id) ==> after.reg(id) == Some(
            if is_narrow(id) {
                (v as u32) as u64
            } else {
                v
            },
        ),
        !is_writable(id) ==> after == c,
        other != id ==> after.reg(other) == c.reg(other),
{
}

/// Law: setting all registers to what is seen of them changes nothing.
pub proof fn law_seen_registers_set_back(c: MipsCore, g: GdbRegs, after: MipsCore)
    requires
        c.seen_as(g),
        c.set_to(g, after),
    ensures
        after.gpr@ == c.gpr@,
        after.fpr@ == c.fpr@,
        after == (MipsCore { gpr: after.gpr, fpr: after.fpr, ..c }),
        after.seen_as(g),
{
    assert(after.gpr@ =~= c.gpr@);
}

/// The word that four bytes make, high byte first.
pub open spec fn word_of(b: Seq<u8>) -> u32 {
    ((b[0] as u32) << 24) | ((b[1] as u32) << 16) | ((b[2] as u32) << 8) | (b[3] as u32)
}

/// Number of bytes from `addr` on, `n` at most, that lie in one word.
pub open spec fn in_word(addr: u64, n: nat) -> nat {
    let room = (4 - addr % 4) as nat;
    if n < room {
        n
    } else {
        room
    }
}

/// The bytes from `offset` on, `k` of them, of a word that was read, or zeros.
pub open spec fn word_part(r: Result<u64, ExecStatus>, offset: int, k: nat) -> Seq<u8> {
    match r {
        Ok(w) => big_endian(w as u32 as u64, 4).subrange(offset, offset + k),
        Err(_) => Seq::new(k, |i: int| 0u8),
    }
}

/// The bytes of a word with `d` in place of those from `offset` on.
pub open spec fn word_with(w: u32, offset: int, d: Seq<u8>) -> Seq<u8> {
    Seq::new(
        4,
        |i: int|
            if offset <= i < offset + d.len() {
                d[i - offset]
            } else {
                big_endian(w as u64, 4)[i]
            },
    )
}

impl<T: Tlb, C: MipsCache, B: BusDevice> Machine<T, C, B> {
    /// `bytes` and the `n` bytes from `addr` on, read by words. Those of a word that
    /// cannot be read are zeros.
    pub open spec fn gdb_read(self, bytes: Seq<u8>, addr: u64, n: nat) -> (Seq<u8>, Self)
        decreases n,
    {
        if n == 0 {
            (bytes, self)
        } else {
            let k = in_word(addr, n);
            let (r, m) = self.debug_read((addr - addr % 4) as u64, 4);
            m.gdb_read(
                bytes + word_part(r, (addr % 4) as int, k),
                addr.wrapping_add(k as u64),
                (n - k) as nat,
            )
        }
    }

    /// The machine after `d` has been written from `addr` on, by words. What belongs to
    /// a word only in part is merged with what is there; of a word that cannot be read,
    /// with zeros.
    pub open spec fn gdb_write(self, addr: u64, d: Seq<u8>) -> Self
        decreases d.len(),
    {
        if d.len() == 0 {
            self
        } else {
            let k = in_word(addr, d.len()) as int;
            let at = (addr - addr % 4) as u64;
            let m = if k == 4 {
                self.debug_write(at, word_of(d.take(4)) as u64, 4).1
            } else {
                let (r, m) = self.debug_read(at, 4);
                let w = match r {
                    Ok(v) => v as u32,
                    Err(_) => 0,
                };
                m.debug_write(at, word_of(word_with(w, (addr % 4) as int, d.take(k))) as u64, 4).1
            };
            m.gdb_write(addr.wrapping_add(k as u64), d.skip(k))
        }
    }

    /// What a step that ended with `status` means. A jump whose delay slot is still to
    /// come takes that with it.
    pub open spec fn gdb_after_first(self, status: ExecStatus) -> (GdbTurn, Self) {
        if status == EXEC_BREAKPOINT {
            (GdbTurn::Stopped { reason: StopReason::SwBreakpoint, noted: false }, self)
        } else if self.core.in_delay_slot {
            let (s, m) = self.step();
            match s {
                Step::Done(st) => (Self::gdb_after_slot(st), m),
                Step::Float(request, instr) => (
                    GdbTurn::Float { request, instr, slot: true },
                    m,
                ),
            }
        } else {
            (GdbTurn::Stopped { reason: StopReason::DoneStep, noted: true }, self)
        }
    }

    pub open spec fn gdb_after_slot(status: ExecStatus) -> GdbTurn {
        GdbTurn::Stopped {
            reason: if status == EXEC_BREAKPOINT {
                StopReason::SwBreakpoint
            } else {
                StopReason::DoneStep
            },
            noted: true,
        }
    }

    /// A step: one instruction, and the one in its delay slot if it jumps.
    pub open spec fn gdb_step(self) -> (GdbTurn, Self) {
        let (s, m) = (Machine { last_bp_hit: None, ..self }).step();
        match s {
            Step::Done(status) => m.gdb_after_first(status),
            Step::Float(request, instr) => (GdbTurn::Float { request, instr, slot: false }, m),
        }
    }

    /// The rest of a step after a floating-point result.
    pub open spec fn gdb_resume(self, d: DecodedInstr, reply: FloatReply, slot: bool) -> (
        GdbTurn,
        Self,
    ) {
        let (status, m) = self.float_done(d, reply);
        if slot {
            (Self::gdb_after_slot(status), m)
        } else {
            m.gdb_after_first(status)
        }
    }

    /// Why a run stopped.
    pub open spec fn gdb_stop_reason(&self) -> StopReason {
        match self.last_bp_hit {
            None => StopReason::DoneStep,
            Some(id) => match position(self.bps.breakpoints@, id) {
                None => StopReason::SwBreakpoint,
                Some(i) => {
                    let k = self.bps.breakpoints@[i].kind;
                    if k == BpType::VirtRead || k == BpType::PhysRead {
                        StopReason::Watchpoint { addr: self.core.pc, kind: WatchKind::Read }
                    } else if k == BpType::VirtWrite || k == BpType::PhysWrite {
                        StopReason::Watchpoint { addr: self.core.pc, kind: WatchKind::Write }
                    } else {
                        StopReason::SwBreakpoint
                    }
                },
            },
        }
    }
}

fn put_word_bytes(w: u32) -> (b: [u8; 4])
    ensures
        b@ == big_endian(w as u64, 4),
{
    let v: u64 = w as u64;
    proof {
        lemma_bytes_of_word(v);
    }
    let b: [u8; 4] = [
        ((v >> 24) & 0xff) as u8,
        ((v >> 16) & 0xff) as u8,
        ((v >> 8) & 0xff) as u8,
        (v & 0xff) as u8,
    ];
    assert(b@ =~= big_endian(w as u64, 4));
    b
}

proof fn lemma_bytes_of_word(v: u64)
    ensures
        (v >> 24u64) & 0xff <= 0xff,
        (v >> 16u64) & 0xff <= 0xff,
        (v >> 8u64) & 0xff <= 0xff,
        (v >> 0u64) & 0xff == v & 0xff,
        v & 0xff <= 0xff,
{
    crate::bits::lemma_bits_of_double(v);
}

fn word_from(b: &[u8; 4]) -> (w: u32)
    ensures
        w == word_of(b@),
{
    ((b[0] as u32) << 24) | ((b[1] as u32) << 16) | ((b[2] as u32) << 8) | (b[3] as u32)
}

impl<T: Tlb, C: MipsCache, B: BusDevice> MipsExecutor<T, C, B> {
    /// The `n` bytes from `addr` on.
    pub fn gdb_read_mem(&mut self, addr: u64, n: usize) -> (v: Vec<u8>)
        requires
            old(self).wf(),
        ensures
            final(self).wf(),
            (v@, final(self)@) == old(self)@.gdb_read(Seq::empty(), addr, n as nat),
    {
        let mut v: Vec<u8> = Vec::new();
        let mut at: u64 = addr;
        let mut left: usize = n;
        while left > 0
            invariant
                self.wf(),
                self@.gdb_read(v@, at, left as nat) == old(self)@.gdb_read(
                    Seq::empty(),
                    addr,
                    n as nat,
                ),
            decreases left,
        {
            let offset: usize = (at % 4) as usize;
            let k: usize = if left < 4 - offset {
                left
            } else {
                4 - offset
            };
            let r: Result<u64, ExecStatus> = self.debug_read(at - at % 4, 4);
            let b: [u8; 4] = match r {
                Ok(w) => put_word_bytes(#[verifier::truncate] (w as u32)),
                Err(_) => [0u8, 0u8, 0u8, 0u8],
            };
            let ghost before = v@;
            let mut j: usize = 0;
            while j < k
                invariant
                    j <= k,
                    offset + k <= 4,
                    v@ == before + b@.subrange(offset as int, offset + j),
                decreases k - j,
            {
                v.push(b[offset + j]);
                j = j + 1;
                assert(v@ =~= before + b@.subrange(offset as int, offset + j));
            }
            assert(b@.subrange(offset as int, offset + k) =~= word_part(
                r,
                offset as int,
                k as nat,
            ));
            at = at.wrapping_add(k as u64);
            left = left - k;
        }
        v
    }

    /// Writes `data` from `addr` on.
    pub fn gdb_write_mem(&mut self, addr: u64, data: &Vec<u8>)
        requires
            old(self).wf(),
        ensures
            final(self).wf(),
            final(self)@ == old(self)@.gdb_write(addr, data@),
    {
        let mut at: u64 = addr;
        let mut i: usize = 0;
        assert(data@.skip(0) =~= data@);
        while i < data.len()
            invariant
                self.wf(),
                i <= data@.len(),
                self@.gdb_write(at, data@.skip(i as int)) == old(self)@.gdb_write(addr, data@),
            decreases data@.len() - i,
        {
            let offset: usize = (at % 4) as usize;
            let len: usize = data.len();
            let left: usize = len - i;
            let k: usize = if left < 4 - offset {
                left
            } else {
                4 - offset
            };
            let aligned: u64 = at - at % 4;
            let ghost d = data@.skip(i as int);
            if k == 4 {
                let b: [u8; 4] = [data[i], data[i + 1], data[i + 2], data[i + 3]];
                let val: u32 = word_from(&b);
                assert(b@ =~= d.take(4));
                self.debug_write(aligned, val as u64, 4, u64::MAX);
            } else {
                let w: u32 = match self.debug_read(aligned, 4) {
                    Ok(v) => #[verifier::truncate] (v as u32),
                    Err(_) => 0,
                };
                let mut b: [u8; 4] = put_word_bytes(w);
                let ghost b0 = b@;
                let mut j: usize = 0;
                while j < k
                    invariant
                        j <= k,
                        offset + k <= 4,
                        i + k <= len,
                        len == data@.len(),
                        b0.len() == 4,
                        b@ == Seq::new(
                            4,
                            |x: int|
                                if offset <= x < offset + j {
                                    data@[i + x - offset]
                                } else {
                                    b0[x]
                                },
                        ),
                    decreases k - j,
                {
                    let ghost prev = b@;
                    b[offset + j] = data[i + j];
                    j = j + 1;
                    assert(b@ =~= Seq::new(
                        4,
                        |x: int|
                            if offset <= x < offset + j {
                                data@[i + x - offset]
                            } else {
                                b0[x]
                            },
                    ));
                }
                assert(b@ =~= word_with(w, offset as int, d.take(k as int)));
                let val: u32 = word_from(&b);
                self.debug_write(aligned, val as u64, 4, u64::MAX);
            }
            assert(d.skip(k as int) =~= data@.skip(i + k));
            at = at.wrapping_add(k as u64);
            i = i + k;
        }
        assert(data@.skip(i as int).len() == 0);
    }

    fn gdb_decide(&mut self, status: ExecStatus) -> (t: GdbTurn)
        requires
            old(self).wf(),
        ensures
            final(self).wf(),
            (t, final(self)@) == old(self)@.gdb_after_first(status),
            t matches GdbTurn::Float { request, instr, slot } ==> fields_bounded(instr),
    {
        if status == EXEC_BREAKPOINT {
            return GdbTurn::Stopped { reason: StopReason::SwBreakpoint, noted: false };
        }
        if self.core.in_delay_slot {
            return match self.step() {
                Step::Done(st) => GdbTurn::Stopped {
                    reason: if st == EXEC_BREAKPOINT {
                        StopReason::SwBreakpoint
                    } else {
                        StopReason::DoneStep
                    },
                    noted: true,
                },
                Step::Float(request, instr) => GdbTurn::Float { request, instr, slot: true },
            };
        }
        GdbTurn::Stopped { reason: StopReason::DoneStep, noted: true }
    }

    /// Executes one instruction, and the one in its delay slot if it jumps.
    pub fn gdb_step_one(&mut self) -> (t: GdbTurn)
        requires
            old(self).wf(),
        ensures
            final(self).wf(),
            (t, final(self)@) == old(self)@.gdb_step(),
            t matches GdbTurn::Float { request, instr, slot } ==> fields_bounded(instr),
    {
        self.last_bp_hit = None;
        match self.step() {
            Step::Done(status) => self.gdb_decide(status),
            Step::Float(request, instr) => GdbTurn::Float { request, instr, slot: false },
        }
    }

    /// Goes on with a step after a floating-point result.
    pub fn gdb_resume(&mut self, d: &DecodedInstr, reply: FloatReply, slot: bool) -> (t: GdbTurn)
        requires
            old(self).wf(),
            fields_bounded(*d),
        ensures
            final(self).wf(),
            (t, final(self)@) == old(self)@.gdb_resume(*d, reply, slot),
            t matches GdbTurn::Float { request, instr, slot } ==> fields_bounded(instr),
    {
        let status: ExecStatus = self.complete_float(d, reply);
        if slot {
            GdbTurn::Stopped {
                reason: if status == EXEC_BREAKPOINT {
                    StopReason::SwBreakpoint
                } else {
                    StopReason::DoneStep
                },
                noted: true,
            }
        } else {
            self.gdb_decide(status)
        }
    }

    /// Why a run stopped.
    pub fn gdb_stop_reason(&self) -> (r: StopReason)
        ensures
            r == self@.gdb_stop_reason(),
    {
        let id: usize = match self.last_bp_hit {
            Some(id) => id,
            None => {
                return StopReason::DoneStep;
            },
        };
        match self.bps.kind_of(id) {
            Some(BpType::VirtRead) | Some(BpType::PhysRead) => StopReason::Watchpoint {
                addr: self.core.pc,
                kind: WatchKind::Read,
            },
            Some(BpType::VirtWrite) | Some(BpType::PhysWrite) => StopReason::Watchpoint {
                addr: self.core.pc,
                kind: WatchKind::Write,
            },
            _ => StopReason::SwBreakpoint,
        }
    }
}

/// What a remote debugger is told, and the identifiers of its breakpoints.
#[derive(Clone, Copy, Debug, PartialEq, Eq, Structural)]
pub struct GdbSession {
    pub last_stop: StopReason,
    pub next_bp_id: usize,
}

impl GdbSession {
    pub fn new() -> (s: Self)
        ensures
            s.last_stop == StopReason::Interrupted,
            s.next_bp_id == FIRST_GDB_BP_ID,
    {
        GdbSession { last_stop: StopReason::Interrupted, next_bp_id: FIRST_GDB_BP_ID }
    }

    /// Notes a stop.
    pub fn note(&mut self, reason: StopReason)
        ensures
            *final(self) == (GdbSession { last_stop: reason, ..*old(self) }),
    {
        self.last_stop = reason;
    }

    /// Sets a breakpoint, and says its identifier.
    pub fn add_bp(&mut self, t: &mut BreakpointTable, addr: u64, kind: BpType) -> (id: usize)
        requires
            old(t).wf(),
            old(t).breakpoints@.len() < usize::MAX,
            old(self).next_bp_id < usize::MAX,
        ensures
            final(t).wf(),
            id == old(self).next_bp_id,
            final(self).next_bp_id == id + 1,
            final(self).last_stop == old(self).last_stop,
            final(t).next_bp_id == old(t).next_bp_id,
            final(t).breakpoints@ == without(old(t).breakpoints@, id).push(
                (Breakpoint { id, addr, kind, enabled: true, condition: None }),
            ),
    {
        let id: usize = self.next_bp_id;
        self.next_bp_id = id + 1;
        t.add_breakpoint(id, addr, kind);
        id
    }
}

} // verus!

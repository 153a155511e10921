//! Walking up the guest's stack by what the prologues of its functions do.
use vstd::prelude::*;
use vstd::string::StringExecFns;

use crate::bus::{BusDevice, MipsCache, Tlb};
use crate::frame::law_debugger_accesses_leave_no_trace;
use crate::machine::{Machine, MipsExecutor};
use crate::memory::fetched_word;
use crate::regs_text::{put_two_digits, two_digits};
use crate::text::{hex, hex_fixed, put, put_hex, put_hex_fixed};

verus! {

/// Bytes of a function that are searched for its prologue.
pub const PROLOGUE_LIMIT: u64 = 1024;

/// What a function has done to the stack before a given point in it.
#[derive(Clone, Copy, Debug, PartialEq, Eq)]
pub struct Prologue {
    /// Bytes by which the stack pointer was lowered.
    pub frame_size: u64,
    /// Where the return address was saved, from the stack pointer, and its size.
    pub saved_ra: Option<(i64, usize)>,
}

impl Prologue {
    pub open spec fn none() -> Prologue {
        Prologue { frame_size: 0, saved_ra: None }
    }

    /// The prologue with one more instruction: an immediate addition to the stack
    /// pointer, or a store of the return address to the stack.
    pub open spec fn seen(self, instr: u32) -> Prologue {
        let op = (instr >> 26) & 0x3F;
        let rs = (instr >> 21) & 0x1F;
        let rt = (instr >> 16) & 0x1F;
        let imm = (instr & 0xFFFF) as i16;
        if (op == 0x09 || op == 0x19) && rs == 29 && rt == 29 {
            if imm < 0 {
                Prologue { frame_size: self.frame_size.wrapping_add((-imm) as u64), ..self }
            } else {
                self
            }
        } else if op == 0x2B && rs == 29 && rt == 31 {
            Prologue { saved_ra: Some((imm as i64, 4)), ..self }
        } else if op == 0x3F && rs == 29 && rt == 31 {
            Prologue { saved_ra: Some((imm as i64, 8)), ..self }
        } else {
            self
        }
    }

    fn see(&mut self, instr: u32)
        ensures
            *final(self) == old(self).seen(instr),
    {
        let op: u32 = (instr >> 26) & 0x3F;
        let rs: u32 = (instr >> 21) & 0x1F;
        let rt: u32 = (instr >> 16) & 0x1F;
        let imm: i16 = #[verifier::truncate] ((instr & 0xFFFF) as i16);
        if (op == 0x09 || op == 0x19) && rs == 29 && rt == 29 {
            let adj: i64 = imm as i64;
            if adj < 0 {
                self.frame_size = self.frame_size.wrapping_add((-adj) as u64);
            }
        } else if op == 0x2B && rs == 29 && rt == 31 {
            self.saved_ra = Some((imm as i64, 4));
        } else if op == 0x3F && rs == 29 && rt == 31 {
            self.saved_ra = Some((imm as i64, 8));
        }
    }
}

impl<T: Tlb, C: MipsCache, B: BusDevice> Machine<T, C, B> {
    /// What the instructions from `at` up to `current` of the function at `start` add to
    /// `p`. The search ends at its limit, and at an instruction that cannot be fetched.
    pub open spec fn prologue_from(self, p: Prologue, start: u64, at: int, current: u64) -> (
        Prologue,
        Self,
    )
        decreases current + 4 - at,
    {
        if start <= at < current && at - start < PROLOGUE_LIMIT {
            let (r, m) = self.fetch(true, at as u64);
            match fetched_word(r) {
                Ok(w) => m.prologue_from(p.seen(w), start, at + 4, current),
                Err(_) => (p, m),
            }
        } else {
            (p, self)
        }
    }

    /// The prologue of the function at `start`, as far as `current`.
    pub open spec fn prologue(self, start: u64, current: u64) -> (Prologue, Self) {
        self.prologue_from(Prologue::none(), start, start as int, current)
    }

    /// The return address that was saved at `offset` from the stack pointer `sp`.
    pub open spec fn saved_word(self, sp: u64, place: (i64, usize)) -> (Option<u64>, Self) {
        let (r, m) = self.debug_read(sp.wrapping_add(place.0 as u64), place.1);
        match r {
            Ok(v) => (Some(v), m),
            Err(_) => (None, m),
        }
    }

    /// Where the current function returns to: the saved return address, where it has
    /// been saved and can be read, else the register.
    pub open spec fn return_address(self) -> (u64, Self) {
        let ra = self.core.gpr_at(31);
        match self.tools.symbols.nearest(self.core.pc) {
            Some((start, _)) => {
                let (p, m) = self.prologue(start, self.core.pc);
                match p.saved_ra {
                    Some(place) => {
                        let (v, n) = m.saved_word(self.core.gpr_at(29), place);
                        (
                            match v {
                                Some(a) => a,
                                None => ra,
                            },
                            n,
                        )
                    },
                    None => (ra, m),
                }
            },
            None => (ra, self),
        }
    }

    /// The caller of the function at `pc` with the stack pointer `sp`, as its program
    /// counter and stack pointer. There is none where the function is not known, its
    /// saved return address cannot be read, or the return address leads nowhere.
    pub open spec fn caller(self, pc: u64, sp: u64) -> (Option<(u64, u64)>, Self) {
        let ra = self.core.gpr_at(31);
        match self.tools.symbols.nearest(pc) {
            None => (None, self),
            Some((start, _)) => {
                let (p, m) = self.prologue(start, pc);
                if p.frame_size > 0 {
                    let (back, n) = match p.saved_ra {
                        Some(place) => m.saved_word(sp, place),
                        None => (Some(ra), m),
                    };
                    (
                        match back {
                            Some(a) => if a == 0 {
                                None
                            } else {
                                Some((a, sp.wrapping_add(p.frame_size)))
                            },
                            None => None,
                        },
                        n,
                    )
                } else if ra == 0 || ra == pc {
                    (None, m)
                } else {
                    (Some((ra, sp)), m)
                }
            },
        }
    }

    /// `pc` as a symbol and an offset, or as an address.
    pub open spec fn place_text(&self, pc: u64) -> Seq<char> {
        match self.tools.symbols.nearest(pc) {
            Some((addr, name)) => name + " + 0x"@ + hex((pc - addr) as nat),
            None => "0x"@ + hex_fixed(pc as nat, 16),
        }
    }

    /// `text` followed by the line for frame `i`.
    pub open spec fn with_frame(&self, text: Seq<char>, i: nat, pc: u64, sp: u64) -> Seq<char> {
        text + "#"@ + two_digits(i) + " pc=0x"@ + hex_fixed(pc as nat, 16) + " sp=0x"@ + hex_fixed(
            sp as nat,
            16,
        ) + " "@ + self.place_text(pc) + "\n"@
    }

    /// `text` followed by the frames from `i` up to `n`, of which the first is at `pc`.
    pub open spec fn frames(self, text: Seq<char>, i: nat, n: nat, pc: u64, sp: u64) -> (
        Seq<char>,
        Self,
    )
        decreases n - i,
    {
        if i < n {
            let t = self.with_frame(text, i, pc, sp);
            let (up, m) = self.caller(pc, sp);
            match up {
                Some((pc1, sp1)) => m.frames(t, i + 1, n, pc1, sp1),
                None => (t, m),
            }
        } else {
            (text, self)
        }
    }

    /// The stack as text, and the machine after the search.
    pub open spec fn backtrace(self, max_frames: nat) -> (Seq<char>, Self) {
        self.frames("Backtrace:\n"@, 0, max_frames, self.core.pc, self.core.gpr_at(29))
    }
}

proof fn lemma_prologue_keeps<T: Tlb, C: MipsCache, B: BusDevice>(
    m: Machine<T, C, B>,
    p: Prologue,
    start: u64,
    at: int,
    current: u64,
)
    ensures
        m.prologue_from(p, start, at, current).1.core == m.core,
        m.keeps(m.prologue_from(p, start, at, current).1),
    decreases current + 4 - at,
{
    if start <= at < current && at - start < PROLOGUE_LIMIT {
        law_debugger_accesses_leave_no_trace(m, at as u64, 4, 0);
        let (r, n) = m.fetch(true, at as u64);
        if let Ok(w) = fetched_word(r) {
            lemma_prologue_keeps(n, p.seen(w), start, at + 4, current);
        }
    }
}

/// Looking for the return address changes neither registers nor anything of the
/// debugger's.
pub proof fn law_unwinding_leaves_no_trace<T: Tlb, C: MipsCache, B: BusDevice>(
    m: Machine<T, C, B>,
    max_frames: nat,
)
    ensures
        m.return_address().1.core == m.core,
        m.keeps(m.return_address().1),
        m.backtrace(max_frames).1.core == m.core,
        m.keeps(m.backtrace(max_frames).1),
{
    if let Some((start, _)) = m.tools.symbols.nearest(m.core.pc) {
        lemma_prologue_keeps(m, Prologue::none(), start, start as int, m.core.pc);
        let (p, n) = m.prologue(start, m.core.pc);
        if let Some(place) = p.saved_ra {
            law_debugger_accesses_leave_no_trace(
                n,
                m.core.gpr_at(29).wrapping_add(place.0 as u64),
                place.1,
                0,
            );
        }
    }
    lemma_frames_keep(
        m,
        "Backtrace:\n"@,
        0,
        max_frames,
        m.core.pc,
        m.core.gpr_at(29),
    );
}

proof fn lemma_caller_keeps<T: Tlb, C: MipsCache, B: BusDevice>(
    m: Machine<T, C, B>,
    pc: u64,
    sp: u64,
)
    ensures
        m.caller(pc, sp).1.core == m.core,
        m.keeps(m.caller(pc, sp).1),
{
    if let Some((start, _)) = m.tools.symbols.nearest(pc) {
        lemma_prologue_keeps(m, Prologue::none(), start, start as int, pc);
        let (p, n) = m.prologue(start, pc);
        if let Some(place) = p.saved_ra {
            law_debugger_accesses_leave_no_trace(n, sp.wrapping_add(place.0 as u64), place.1, 0);
        }
    }
}

proof fn lemma_frames_keep<T: Tlb, C: MipsCache, B: BusDevice>(
    m: Machine<T, C, B>,
    text: Seq<char>,
    i: nat,
    n: nat,
    pc: u64,
    sp: u64,
)
    ensures
        m.frames(text, i, n, pc, sp).1.core == m.core,
        m.keeps(m.frames(text, i, n, pc, sp).1),
    decreases n - i,
{
    if i < n {
        lemma_caller_keeps(m, pc, sp);
        let t = m.with_frame(text, i, pc, sp);
        let (up, m1) = m.caller(pc, sp);
        if let Some((pc1, sp1)) = up {
            lemma_frames_keep(m1, t, i + 1, n, pc1, sp1);
        }
    }
}

impl<T: Tlb, C: MipsCache, B: BusDevice> MipsExecutor<T, C, B> {
    /// Looks through the function at `start_pc`, up to `current_pc`, for what it does to
    /// the stack.
    pub fn analyze_prologue(&mut self, start_pc: u64, current_pc: u64) -> (p: Prologue)
        requires
            old(self).wf(),
        ensures
            final(self).wf(),
            (p, final(self)@) == old(self)@.prologue(start_pc, current_pc),
    {
        let mut p = Prologue { frame_size: 0, saved_ra: None };
        let mut pc: u64 = start_pc;
        while pc < current_pc && pc - start_pc < PROLOGUE_LIMIT
            invariant
                self.wf(),
                start_pc <= pc,
                self@.prologue_from(p, start_pc, pc as int, current_pc) == old(self)@.prologue(
                    start_pc,
                    current_pc,
                ),
            decreases current_pc - pc,
        {
            match self.debug_fetch_instr(pc) {
                Ok(w) => {
                    p.see(w);
                },
                Err(_) => {
                    return p;
                },
            }
            if current_pc - pc <= 4 {
                assert(self@.prologue_from(p, start_pc, pc + 4, current_pc) == (p, self@));
                return p;
            }
            pc = pc + 4;
        }
        p
    }

    fn saved_at(&mut self, sp: u64, place: (i64, usize)) -> (r: Option<u64>)
        requires
            old(self).wf(),
        ensures
            final(self).wf(),
            (r, final(self)@) == old(self)@.saved_word(sp, place),
    {
        let at: u64 = sp.wrapping_add(#[verifier::truncate] (place.0 as u64));
        match self.debug_read(at, place.1) {
            Ok(v) => Some(v),
            Err(_) => None,
        }
    }

    /// Where the current function returns to.
    pub fn get_return_address(&mut self) -> (r: Option<u64>)
        requires
            old(self).wf(),
        ensures
            final(self).wf(),
            r == Some(old(self)@.return_address().0),
            final(self)@ == old(self)@.return_address().1,
    {
        let pc: u64 = self.core.pc;
        let sp: u64 = self.core.read_gpr(29);
        let ra: u64 = self.core.read_gpr(31);
        let start: u64 = match self.tools.symbols.lookup(pc) {
            Some((addr, _)) => addr,
            None => {
                return Some(ra);
            },
        };
        let p: Prologue = self.analyze_prologue(start, pc);
        match p.saved_ra {
            Some(place) => match self.saved_at(sp, place) {
                Some(v) => Some(v),
                None => Some(ra),
            },
            None => Some(ra),
        }
    }

    fn caller_of(&mut self, pc: u64, sp: u64) -> (r: Option<(u64, u64)>)
        requires
            old(self).wf(),
        ensures
            final(self).wf(),
            (r, final(self)@) == old(self)@.caller(pc, sp),
    {
        let ra: u64 = self.core.read_gpr(31);
        let start: u64 = match self.tools.symbols.lookup(pc) {
            Some((addr, _)) => addr,
            None => {
                return None;
            },
        };
        let p: Prologue = self.analyze_prologue(start, pc);
        if p.frame_size > 0 {
            let back: Option<u64> = match p.saved_ra {
                Some(place) => self.saved_at(sp, place),
                None => Some(ra),
            };
            match back {
                Some(a) => if a == 0 {
                    None
                } else {
                    Some((a, sp.wrapping_add(p.frame_size)))
                },
                None => None,
            }
        } else if ra == 0 || ra == pc {
            None
        } else {
            Some((ra, sp))
        }
    }

    fn put_frame(&self, s: &mut String, i: usize, pc: u64, sp: u64)
        ensures
            final(s)@ == self@.with_frame(old(s)@, i as nat, pc, sp),
    {
        put(s, "#");
        put_two_digits(s, i as u64);
        put(s, " pc=0x");
        put_hex_fixed(s, pc, 16);
        put(s, " sp=0x");
        put_hex_fixed(s, sp, 16);
        put(s, " ");
        let ghost before = s@;
        match self.tools.symbols.lookup(pc) {
            Some((addr, name)) => {
                put(s, name.as_str());
                put(s, " + 0x");
                put_hex(s, pc - addr);
            },
            None => {
                put(s, "0x");
                put_hex_fixed(s, pc, 16);
            },
        }
        assert(s@ =~= before + self@.place_text(pc));
        put(s, "\n");
    }

    /// The stack as text: at most `max_frames` frames, innermost first.
    pub fn backtrace(&mut self, max_frames: usize) -> (s: String)
        requires
            old(self).wf(),
        ensures
            final(self).wf(),
            (s@, final(self)@) == old(self)@.backtrace(max_frames as nat),
    {
        let mut s: String = "Backtrace:\n".to_string();
        let mut pc: u64 = self.core.pc;
        let mut sp: u64 = self.core.read_gpr(29);
        let mut i: usize = 0;
        while i < max_frames
            invariant
                self.wf(),
                i <= max_frames,
                self@.frames(s@, i as nat, max_frames as nat, pc, sp) == old(self)@.backtrace(
                    max_frames as nat,
                ),
            decreases max_frames - i,
        {
            self.put_frame(&mut s, i, pc, sp);
            match self.caller_of(pc, sp) {
                Some((a, b)) => {
                    pc = a;
                    sp = b;
                },
                None => {
                    return s;
                },
            }
            i = i + 1;
        }
        s
    }
}

} // verus!

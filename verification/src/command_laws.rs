//! What the debugger's commands leave alone.
use vstd::prelude::*;

use crate::bus::{BusDevice, MipsCache, Tlb};
use crate::cmd_memory::{cell, slot_line, word_line};
use crate::bytes::big_endian;
use crate::command::{ListLineView, ReplyView};
use crate::commands::{is_plain, Command};
use crate::cpu_core::AccessType;
use crate::frame::law_debugger_accesses_leave_no_trace;
use crate::idle_report::{lemma_looking_keeps, SampledPc};
use crate::machine::Machine;
use crate::memory::fetched_word;
use crate::snapshot::lemma_unwriting_back;
use crate::text::hex_fixed;
use crate::unwind::law_unwinding_leaves_no_trace;

verus! {

impl<T: Tlb, C: MipsCache, B: BusDevice> Machine<T, C, B> {
    /// `m` has the registers of this machine, and all that is the debugger's.
    pub open spec fn looked_at_by(self, m: Self) -> bool {
        self.keeps(m) && m.core == self.core
    }
}

proof fn lemma_words<T: Tlb, C: MipsCache, B: BusDevice>(
    m: Machine<T, C, B>,
    text: Seq<char>,
    addr: u64,
    i: u64,
    n: u64,
)
    ensures
        m.looked_at_by(m.words_from(text, addr, i, n).1),
    decreases n - i,
{
    if i < n {
        let at = cell(addr, i, 4);
        law_debugger_accesses_leave_no_trace(m, at, 4, 0);
        let (r, m1) = m.debug_read(at, 4);
        lemma_words(m1, text + word_line(at, r), addr, (i + 1) as u64, n);
    }
}

proof fn lemma_slots<T: Tlb, C: MipsCache, B: BusDevice>(
    m: Machine<T, C, B>,
    text: Seq<char>,
    addr: u64,
    i: u64,
    n: u64,
)
    ensures
        m.looked_at_by(m.slots_from(text, addr, i, n).1),
    decreases n - i,
{
    if i < n {
        let at = cell(addr, i, 8);
        law_debugger_accesses_leave_no_trace(m, at, 8, 0);
        let (r, m1) = m.debug_read(at, 8);
        lemma_slots(m1, text + slot_line(at, r), addr, (i + 1) as u64, n);
    }
}

proof fn lemma_bytes<T: Tlb, C: MipsCache, B: BusDevice>(
    m: Machine<T, C, B>,
    bytes: Seq<u8>,
    at: u64,
    n: nat,
)
    ensures
        m.looked_at_by(m.bytes_from(bytes, at, n).1),
    decreases n,
{
    if n > 0 {
        law_debugger_accesses_leave_no_trace(m, at, 1, 0);
        let (r, m1) = m.debug_read(at, 1);
        if let Ok(v) = r {
            lemma_bytes(m1, bytes.push(v as u8), at.wrapping_add(1), (n - 1) as nat);
        }
    }
}

proof fn lemma_listed<T: Tlb, C: MipsCache, B: BusDevice>(
    m: Machine<T, C, B>,
    lines: Seq<ListLineView>,
    addr: u64,
    i: u64,
    n: u64,
)
    ensures
        m.looked_at_by(m.listed(lines, addr, i, n).1),
    decreases n - i,
{
    if i < n {
        let pc = cell(addr, i, 4);
        law_debugger_accesses_leave_no_trace(m, pc, 4, 0);
        let (f, m1) = m.fetch(true, pc);
        let line = match fetched_word(f) {
            Ok(instr) => ListLineView::Instr { pc, instr },
            Err(_) => ListLineView::Text(hex_fixed(pc as nat, 16) + ": Could not fetch"@),
        };
        lemma_listed(m1, lines.push(line), addr, (i + 1) as u64, n);
    }
}

proof fn lemma_block<T: Tlb, C: MipsCache, B: BusDevice>(
    m: Machine<T, C, B>,
    bytes: Seq<u8>,
    at: u64,
    n: nat,
)
    ensures
        m.looked_at_by(m.block_from(bytes, at, n).1),
    decreases n,
{
    if n > 0 {
        let k: nat = if n < 4 {
            n
        } else {
            4
        };
        law_debugger_accesses_leave_no_trace(m, at, k as usize, 0);
        let (r, m1) = m.debug_read(at, k as usize);
        if let Ok(v) = r {
            lemma_block(m1, bytes + big_endian(v, k), at.wrapping_add(k as u64), (n - k) as nat);
        }
    }
}

proof fn lemma_processes<T: Tlb, C: MipsCache, B: BusDevice>(
    m: Machine<T, C, B>,
    args: Seq<Seq<char>>,
)
    ensures
        m.looked_at_by(m.cmd_proc(args).1),
{
    if let Some(va) = m.tools.symbols.address_of("utsname"@) {
        lemma_block(m, Seq::empty(), va, crate::cmd_proc::UTSNAME_SIZE as nat);
        let m1 = m.block_from(Seq::empty(), va, crate::cmd_proc::UTSNAME_SIZE as nat).1;
        let s = m1.tools.symbols;
        if let Some(a) = s.address_of("nproc"@) {
            if let Some(b) = s.address_of("proc"@) {
                law_debugger_accesses_leave_no_trace(m1, a, 4, 0);
                law_debugger_accesses_leave_no_trace(m1.debug_read(a, 4).1, b, 4, 0);
            }
        }
    }
}

proof fn lemma_debug_translate<T: Tlb, C: MipsCache, B: BusDevice>(m: Machine<T, C, B>, va: u64)
    ensures
        m.looked_at_by(m.translate(true, va, AccessType::Debug).1),
{
    reveal(Machine::translate);
}

/// Commands that only look.
pub open spec fn only_looks(c: Command) -> bool {
    c == Command::Symbol || c == Command::Linked || c == Command::Registers || c == Command::Cop0
        || c == Command::Cop1 || c == Command::Tlb || c == Command::History || c
        == Command::Processes || c == Command::Memory || c == Command::Stack || c
        == Command::Backtrace || c == Command::Text || c == Command::Disassemble || c
        == Command::Translate || c == Command::Status || c == Command::CacheL1I || c
        == Command::CacheL1D || c == Command::CacheL2
}

/// Law: a command that only looks changes no register, no breakpoint and nothing that is
/// the debugger's.
pub proof fn law_looking_leaves_no_trace<T: Tlb, C: MipsCache, B: BusDevice>(
    m: Machine<T, C, B>,
    c: Command,
    args: Seq<Seq<char>>,
    running: bool,
    fired: u64,
    r: ReplyView,
    after: Machine<T, C, B>,
)
    requires
        only_looks(c),
        m.is_plain_result(c, args, running, fired, r, after),
    ensures
        m.looked_at_by(after),
{
    let v = if args.len() > 0 {
        m.value_of(args[0])
    } else {
        None
    };
    if c == Command::Memory {
        if let Some(addr) = v {
            lemma_words(m, Seq::empty(), addr, 0, crate::command::number_at(args, 1, 1));
        }
    } else if c == Command::Stack {
        let start = if args.len() > 0 {
            m.value_of(args[0])
        } else {
            Some(m.core.gpr_at(29))
        };
        if let Some(addr) = start {
            lemma_slots(m, Seq::empty(), addr, 0, crate::command::number_at(args, 1, 16));
        }
    } else if c == Command::Text {
        if let Some(addr) = v {
            lemma_bytes(m, Seq::empty(), addr, crate::command::count_at(args, 1, 256) as nat);
        }
    } else if c == Command::Disassemble {
        let start = if args.len() > 0 {
            m.value_of(args[0])
        } else {
            Some(m.core.pc)
        };
        if let Some(addr) = start {
            lemma_listed(m, Seq::empty(), addr, 0, crate::command::number_at(args, 1, 1));
        }
    } else if c == Command::Backtrace {
        law_unwinding_leaves_no_trace(m, crate::command::count_at(args, 0, 20) as nat);
    } else if c == Command::Processes {
        lemma_processes(m, args);
    } else if c == Command::Translate {
        if let Some(addr) = v {
            lemma_debug_translate(m, addr);
        }
    } else if c == Command::CacheL1I || c == Command::CacheL1D || c == Command::CacheL2 {
        let arg = if args.len() > 1 {
            args[1]
        } else {
            "0"@
        };
        if let Some(addr) = m.value_of(arg) {
            lemma_debug_translate(m, addr);
        }
    }
}

/// Law: only the breakpoint commands, and those that run the guest, change a breakpoint.
pub proof fn law_other_commands_keep_breakpoints<T: Tlb, C: MipsCache, B: BusDevice>(
    m: Machine<T, C, B>,
    c: Command,
    args: Seq<Seq<char>>,
    running: bool,
    fired: u64,
    r: ReplyView,
    after: Machine<T, C, B>,
)
    requires
        is_plain(c),
        m.is_plain_result(c, args, running, fired, r, after),
    ensures
        after.bps == m.bps,
{
    if only_looks(c) {
        law_looking_leaves_no_trace(m, c, args, running, fired, r, after);
    } else if c == Command::Write {
        if args.len() >= 2 {
            if let Some(addr) = m.value_of(args[0]) {
                if let Some(val) = crate::cmd_memory::written_value(args[1]) {
                    if let Some(size) = crate::cmd_memory::named_size(args, 2) {
                        law_debugger_accesses_leave_no_trace(m, addr, size, val as u64);
                    }
                }
            }
        }
    } else if c == Command::Undo {
        let n = crate::command::count_at(args, 0, 1) as nat;
        if m.undoable(n) {
            lemma_unwriting_back(m, m.tools.undo.entries, n);
        }
    } else if c == Command::Idle {
        assert forall|s: Seq<SampledPc>, n: int| (#[trigger] m.after_looking(s, n)).bps == m.bps by {
            lemma_looking_keeps(m, s, n);
        }
    }
}

} // verus!

//! Commands that show and set the processor's registers, and look addresses up.
use vstd::prelude::*;
use vstd::string::StringExecFns;

use crate::bus::{BusDevice, MipsCache, Tlb};
use crate::command::{
    is_word, refused, said, words, Action, ActionView, End, EndView, Reply, ReplyView,
};
use crate::cpu_core::MipsCore;
use crate::exp::{named_register, parse_reg_target, RegTarget};
use crate::expr_parse::no_value;
use crate::machine::{Machine, MipsExecutor};
use crate::parse::{number, parse_hex, without_0x};
use crate::regs_text::{
    cause_text, decode_cause, decode_status, dump_regs, left, put_left, regs_text, status_text,
};
use crate::setup::Signal;
use crate::status::TranslateResult;
use crate::symbols::{format_pc_symbol, pc_symbol, SymbolTable};
use crate::text::{dec, hex, hex_fixed, put, put_dec, put_hex, put_hex_fixed};

verus! {

/// The result of a translation in words.
pub open spec fn translation_line(tr: TranslateResult) -> Seq<char> {
    if tr.spec_is_exception() {
        "Exception(0x"@ + hex_fixed(tr.status as nat, 8) + ")\n"@
    } else {
        "Translated { phys_addr: 0x"@ + hex_fixed(tr.phys as nat, 8) + ", cache_attr: "@ + if tr.status
            & 0x7 == 3 {
            "Cacheable"@
        } else if tr.status & 0x7 == 5 {
            "CacheableCoherent"@
        } else {
            "Uncached"@
        } + " }\n"@
    }
}

/// A value in a list of registers.
pub open spec fn value_line(arg: Seq<char>, v: u64, symbols: SymbolTable) -> Seq<char> {
    arg + ": "@ + hex_fixed(v as nat, 16) + " ("@ + dec(v as nat) + ")"@ + pc_symbol(v, symbols)
        + "\n"@
}

/// The symbol of an address in words.
pub open spec fn symbol_line(addr: u64, symbols: SymbolTable) -> Seq<char> {
    hex_fixed(addr as nat, 16) + " = "@ + match symbols.nearest(addr) {
        Some((base, name)) => if addr == base {
            name
        } else {
            name + " + 0x"@ + hex((addr - base) as nat)
        },
        None => "???"@,
    } + "\n"@
}

/// Name of a system control register.
pub open spec fn cp0_name(r: u8) -> Option<Seq<char>> {
    match r {
        0 => Some("Index"@),
        1 => Some("Random"@),
        2 => Some("EntryLo0"@),
        3 => Some("EntryLo1"@),
        4 => Some("Context"@),
        5 => Some("PageMask"@),
        6 => Some("Wired"@),
        8 => Some("BadVAddr"@),
        9 => Some("Count"@),
        10 => Some("EntryHi"@),
        11 => Some("Compare"@),
        12 => Some("Status"@),
        13 => Some("Cause"@),
        14 => Some("EPC"@),
        15 => Some("PRId"@),
        16 => Some("Config"@),
        17 => Some("LLAddr"@),
        18 => Some("WatchLo"@),
        19 => Some("WatchHi"@),
        20 => Some("XContext"@),
        26 => Some("ECC"@),
        27 => Some("CacheErr"@),
        28 => Some("TagLo"@),
        29 => Some("TagHi"@),
        30 => Some("ErrorEPC"@),
        _ => None,
    }
}

/// A system control register as a line.
pub open spec fn cp0_line(c: MipsCore, r: u8) -> Seq<char> {
    match cp0_name(r) {
        Some(name) => "  "@ + if r < 10 {
            " "@
        } else {
            Seq::empty()
        } + dec(r as nat) + " "@ + left(name, 8) + ": "@ + hex_fixed(c.cp0(r) as nat, 16) + if r
            == 12 {
            " "@ + status_text(c.cp0(r) as u32)
        } else if r == 13 {
            " "@ + cause_text(c.cp0(r) as u32)
        } else {
            Seq::empty()
        } + "\n"@,
        None => Seq::empty(),
    }
}

/// `text` and the lines of the registers from `r` on.
pub open spec fn cp0_lines(text: Seq<char>, c: MipsCore, r: nat) -> Seq<char>
    decreases 32 - r,
{
    if r < 32 {
        cp0_lines(text + cp0_line(c, r as u8), c, r + 1)
    } else {
        text
    }
}

impl<T: Tlb, C: MipsCache, B: BusDevice> Machine<T, C, B> {
    /// The command that translates an address.
    pub open spec fn cmd_translate(self, args: Seq<Seq<char>>) -> (ReplyView, Self) {
        if args.len() == 0 {
            (refused("Usage: translate <addr>"@), self)
        } else {
            match self.value_of(args[0]) {
                None => (refused(no_value(args[0])), self),
                Some(addr) => {
                    let (tr, m) = self.translate(true, addr, crate::cpu_core::AccessType::Debug);
                    (said(translation_line(tr)), m)
                },
            }
        }
    }

    /// The command that sets the program counter.
    pub open spec fn cmd_jump(self, args: Seq<Seq<char>>) -> (ReplyView, Self) {
        if args.len() == 0 {
            (refused("Usage: jump <addr>"@), self)
        } else {
            match self.value_of(args[0]) {
                None => (refused(no_value(args[0])), self),
                Some(addr) => (
                    said("PC set to "@ + hex_fixed(addr as nat, 16) + "\n"@),
                    self.with_core(MipsCore { pc: addr, ..self.core }),
                ),
            }
        }
    }

    /// The command that sets a register.
    pub open spec fn cmd_setreg(self, args: Seq<Seq<char>>) -> (ReplyView, Self) {
        if args.len() < 2 {
            (refused("Usage: setreg <reg> <value>"@), self)
        } else {
            match (named_register(args[0]), self.value_of(args[1])) {
                (None, _) => (refused("Unknown register: "@ + args[0]), self),
                (Some(_), None) => (refused(no_value(args[1])), self),
                (Some(reg), Some(v)) => (
                    said(args[0] + " = "@ + hex_fixed(v as nat, 16) + "\n"@),
                    self.with_core(reg.assigned(self.core, v)),
                ),
            }
        }
    }

    /// `text` and a line for each argument from number `i` on: its value, or why it has
    /// none.
    pub open spec fn values_from(&self, text: Seq<char>, args: Seq<Seq<char>>, i: nat) -> Seq<char>
        decreases args.len() - i,
    {
        if i < args.len() {
            let a = args[i as int];
            let line = match self.value_of(a) {
                Some(v) => value_line(a, v, self.tools.symbols),
                None => no_value(a) + "\n"@,
            };
            self.values_from(text + line, args, i + 1)
        } else {
            text
        }
    }

    /// The command that shows registers: all of them, or the values of its arguments.
    pub open spec fn cmd_regs(&self, args: Seq<Seq<char>>) -> ReplyView {
        if args.len() == 0 {
            said(regs_text(self.core))
        } else {
            said(self.values_from(Seq::empty(), args, 0))
        }
    }

    /// The command that shows the symbol of an address.
    pub open spec fn cmd_sym(&self, args: Seq<Seq<char>>) -> ReplyView {
        if args.len() == 0 {
            refused("Usage: sym <addr>"@)
        } else {
            match self.value_of(args[0]) {
                None => refused(no_value(args[0])),
                Some(addr) => said(symbol_line(addr, self.tools.symbols)),
            }
        }
    }

    /// The command that shows the state of linked loads.
    pub open spec fn cmd_ll(&self) -> ReplyView {
        let a = C::lladdr(self.cache);
        said(
            "llbit:  "@ + if C::llbit(self.cache) {
                "SET"@
            } else {
                "clear"@
            } + "\nlladdr: "@ + hex_fixed(a as nat, 8) + "  (phys "@ + hex_fixed(
                (a as u64 * 16) as nat,
                10,
            ) + ")\n"@,
        )
    }

    /// The command that shows the system control registers. The timer has fired `fired`
    /// times.
    pub open spec fn cmd_cop0(&self, fired: u64) -> ReplyView {
        let c = self.core;
        ReplyView {
            text: cp0_lines("COP0 Registers:\n"@, c, 0) + "  IP7 timer: count_hz="@ + dec(
                c.count_hz as nat,
            ) + " ("@,
            end: EndView::Left(
                ActionView::Frequency {
                    hz: c.count_hz,
                    rest: " MHz)  fired="@ + dec(fired as nat) + "\n    slow_delta="@ + dec(
                        c.compare_delta_slow as nat,
                    ) + " hw-counts  fast_delta="@ + dec(c.compare_delta_fast as nat)
                        + " hw-counts\n"@,
                },
            ),
        }
    }

    /// The command that shows the floating-point registers.
    pub open spec fn cmd_cop1(&self) -> ReplyView {
        let c = self.core;
        ReplyView {
            text: "COP1 Registers (FPU):\n"@,
            end: EndView::Left(
                ActionView::FloatRegisters {
                    fpr: c.fpr,
                    rest: "Control Registers:\n  FIR:  "@ + hex_fixed(c.fpu_fir as nat, 8)
                        + "\n  FCCR: "@ + hex_fixed(c.fpu_fccr as nat, 8) + "\n  FEXR: "@
                        + hex_fixed(c.fpu_fexr as nat, 8) + "\n  FENR: "@ + hex_fixed(
                        c.fpu_fenr as nat,
                        8,
                    ) + "\n  FCSR: "@ + hex_fixed(c.fpu_fcsr as nat, 8) + "\n"@,
                },
            ),
        }
    }

    /// The command that says whether the processor runs, and where.
    pub open spec fn cmd_status(&self, running: bool) -> ReplyView {
        let c = self.core;
        ReplyView {
            text: if running {
                "running"@
            } else {
                "stopped"@
            } + " pc="@ + hex_fixed(c.pc as nat, 16) + pc_symbol(c.pc, self.tools.symbols)
                + "\n  count_hz="@ + dec(c.count_hz as nat) + " ("@,
            end: EndView::Left(
                ActionView::Frequency {
                    hz: c.count_hz,
                    rest: " MHz)  count=0x"@ + hex_fixed(c.cp0_count as u32 as nat, 8)
                        + " compare=0x"@ + hex_fixed(c.cp0_compare as u32 as nat, 8)
                        + "\n  compare_delta_slow="@ + dec(c.compare_delta_slow as nat)
                        + " hw-counts  compare_delta_fast="@ + dec(c.compare_delta_fast as nat)
                        + " hw-counts\n"@,
                },
            ),
        }
    }

    /// The command that raises the timer's interrupt.
    pub open spec fn cmd_ip7(self) -> (ReplyView, Self) {
        (
            said(
                "IP7 set pending (delivered on next executed instruction, mask permitting)\n"@,
            ),
            self.with_core(self.core.signalled(Signal::Interrupt(7, true))),
        )
    }

    /// `text` and a line for each TLB entry from `i` on that maps something.
    pub open spec fn tlb_lines(&self, text: Seq<char>, i: nat) -> Seq<char>
        decreases T::entries(self.tlb) - i,
    {
        if i < T::entries(self.tlb) {
            let t = T::entry_text(self.tlb, i as usize);
            self.tlb_lines(
                if t.len() == 0 {
                    text
                } else {
                    text + t + "\n"@
                },
                i + 1,
            )
        } else {
            text
        }
    }

    /// The command that looks into the TLB.
    pub open spec fn cmd_tlb(&self, args: Seq<Seq<char>>) -> ReplyView {
        if args.len() == 0 {
            refused("Usage: tlb <dump|trans|debug> ..."@)
        } else if args[0] == "dump"@ {
            said(self.tlb_lines(Seq::empty(), 0))
        } else if args[0] == "trans"@ || args[0] == "translate"@ {
            if args.len() < 2 {
                refused("Usage: tlb trans <vaddr> [asid]"@)
            } else {
                match (number(without_0x(args[1]), 16, u64::MAX as nat), asid_of(args)) {
                    (None, _) => refused("Invalid address"@),
                    (Some(_), None) => refused("Invalid ASID"@),
                    (Some(va), Some(asid)) => said(
                        T::translation_text(self.tlb, va as u64, asid as u8) + "\n"@,
                    ),
                }
            }
        } else {
            refused("Unknown TLB subcommand"@)
        }
    }

    /// Whether a command about a cache looks an address up.
    pub open spec fn probes(op: Seq<char>) -> bool {
        op == "check"@ || op == "probe"@
    }

    /// The command that looks into the cache called `name`.
    pub open spec fn cmd_cache(self, name: Seq<char>, args: Seq<Seq<char>>) -> (ReplyView, Self) {
        if args.len() == 0 {
            (refused("Usage: "@ + name + " <check|dump> <addr|index>"@), self)
        } else {
            let arg = if args.len() > 1 {
                args[1]
            } else {
                "0"@
            };
            match self.value_of(arg) {
                None => (refused(no_value(arg)), self),
                Some(v) => if Self::probes(args[0]) {
                    if v >= 0x8000_0000 {
                        let (tr, m) = self.translate(true, v, crate::cpu_core::AccessType::Debug);
                        let said_first = "Virtual "@ + hex_fixed(v as nat, 16)
                            + if tr.spec_is_exception() {
                            " -> Translation Failed\n"@
                        } else {
                            " -> Physical "@ + hex_fixed(tr.phys as nat, 16) + "\n"@
                        };
                        let phys = if tr.spec_is_exception() {
                            v
                        } else {
                            tr.phys as u64
                        };
                        (said(said_first + C::probe_text(m.cache, name, v, phys) + "\n"@), m)
                    } else {
                        (said(C::probe_text(self.cache, name, v, v) + "\n"@), self)
                    }
                } else if args[0] == "dump"@ {
                    (said(C::line_text(self.cache, name, v as usize) + "\n"@), self)
                } else {
                    (refused("Unknown operation. Use check or dump"@), self)
                },
            }
        }
    }
}

/// The address space in the third word; 0 where it is not there.
pub open spec fn asid_of(args: Seq<Seq<char>>) -> Option<nat> {
    if args.len() > 2 {
        number(without_0x(args[2]), 16, 0xFF)
    } else {
        Some(0)
    }
}

fn asid_in(args: &[String]) -> (r: Option<u8>)
    ensures
        r is Some == asid_of(words(args@)) is Some,
        r matches Some(a) ==> a == asid_of(words(args@))->0,
{
    if args.len() > 2 {
        match parse_hex(args[2].as_str()) {
            Some(v) => if v <= 0xFF {
                Some(v as u8)
            } else {
                None
            },
            None => None,
        }
    } else {
        Some(0)
    }
}

fn cp0_reg_name(r: u8) -> (s: &'static str)
    requires
        cp0_name(r) is Some,
    ensures
        s@ == cp0_name(r)->0,
{
    match r {
        0 => "Index",
        1 => "Random",
        2 => "EntryLo0",
        3 => "EntryLo1",
        4 => "Context",
        5 => "PageMask",
        6 => "Wired",
        8 => "BadVAddr",
        9 => "Count",
        10 => "EntryHi",
        11 => "Compare",
        12 => "Status",
        13 => "Cause",
        14 => "EPC",
        15 => "PRId",
        16 => "Config",
        17 => "LLAddr",
        18 => "WatchLo",
        19 => "WatchHi",
        20 => "XContext",
        26 => "ECC",
        27 => "CacheErr",
        28 => "TagLo",
        29 => "TagHi",
        _ => "ErrorEPC",
    }
}

/// What is said of the registers that hold fields.
spec fn cp0_fields(c: MipsCore, r: u8) -> Seq<char> {
    if r == 12 {
        " "@ + status_text(c.cp0(r) as u32)
    } else if r == 13 {
        " "@ + cause_text(c.cp0(r) as u32)
    } else {
        Seq::empty()
    }
}

fn put_cp0_fields(s: &mut String, c: &MipsCore, r: u8)
    ensures
        final(s)@ == old(s)@ + cp0_fields(*c, r),
{
    let v: u64 = c.read_cp0(r);
    if r == 12 {
        put(s, " ");
        let t: String = decode_status(#[verifier::truncate] (v as u32));
        put(s, t.as_str());
    } else if r == 13 {
        put(s, " ");
        let t: String = decode_cause(#[verifier::truncate] (v as u32));
        put(s, t.as_str());
    }
    assert(s@ =~= old(s)@ + cp0_fields(*c, r));
}

fn put_cp0_line(s: &mut String, c: &MipsCore, r: u8)
    ensures
        final(s)@ == old(s)@ + cp0_line(*c, r),
{
    if r == 7 || (r > 20 && r < 26) || r > 30 {
        assert(s@ =~= old(s)@ + cp0_line(*c, r));
        return;
    }
    put(s, "  ");
    if r < 10 {
        put(s, " ");
    }
    put_dec(s, r as u64);
    put(s, " ");
    put_left(s, cp0_reg_name(r), 8);
    put(s, ": ");
    let v: u64 = c.read_cp0(r);
    put_hex_fixed(s, v, 16);
    put_cp0_fields(s, c, r);
    put(s, "\n");
    assert(s@ =~= old(s)@ + cp0_line(*c, r));
}

/// The result of a translation in words.
pub fn show_translation(tr: TranslateResult) -> (s: String)
    ensures
        s@ == translation_line(tr),
{
    let mut s: String = String::new();
    if tr.is_exception() {
        put(&mut s, "Exception(0x");
        put_hex_fixed(&mut s, tr.status as u64, 8);
        put(&mut s, ")\n");
    } else {
        put(&mut s, "Translated { phys_addr: 0x");
        put_hex_fixed(&mut s, tr.phys as u64, 8);
        put(&mut s, ", cache_attr: ");
        if tr.status & 0x7 == 3 {
            put(&mut s, "Cacheable");
        } else if tr.status & 0x7 == 5 {
            put(&mut s, "CacheableCoherent");
        } else {
            put(&mut s, "Uncached");
        }
        put(&mut s, " }\n");
    }
    assert(s@ =~= translation_line(tr));
    s
}

impl<T: Tlb, C: MipsCache, B: BusDevice> MipsExecutor<T, C, B> {
    /// Translates an address.
    pub fn cmd_translate(&mut self, args: &[String]) -> (r: Reply)
        requires
            old(self).wf(),
        ensures
            final(self).wf(),
            (r@, final(self)@) == old(self)@.cmd_translate(words(args@)),
    {
        if args.len() == 0 {
            return Reply::refuse("Usage: translate <addr>");
        }
        let addr: u64 = match self.argument(&args[0]) {
            Ok(v) => v,
            Err(r) => {
                return r;
            },
        };
        let tr: TranslateResult = self.debug_translate(addr);
        Reply::say(show_translation(tr))
    }

    /// Sets the program counter.
    pub fn cmd_jump(&mut self, args: &[String]) -> (r: Reply)
        requires
            old(self).wf(),
        ensures
            final(self).wf(),
            (r@, final(self)@) == old(self)@.cmd_jump(words(args@)),
    {
        if args.len() == 0 {
            return Reply::refuse("Usage: jump <addr>");
        }
        let addr: u64 = match self.argument(&args[0]) {
            Ok(v) => v,
            Err(r) => {
                return r;
            },
        };
        self.core.pc = addr;
        let mut s: String = "PC set to ".to_string();
        put_hex_fixed(&mut s, addr, 16);
        put(&mut s, "\n");
        Reply::say(s)
    }

    /// Sets a register.
    pub fn cmd_setreg(&mut self, args: &[String]) -> (r: Reply)
        requires
            old(self).wf(),
        ensures
            final(self).wf(),
            (r@, final(self)@) == old(self)@.cmd_setreg(words(args@)),
    {
        if args.len() < 2 {
            return Reply::refuse("Usage: setreg <reg> <value>");
        }
        let reg: RegTarget = match parse_reg_target(args[0].as_str()) {
            Some(t) => t,
            None => {
                let mut s: String = "Unknown register: ".to_string();
                put(&mut s, args[0].as_str());
                return Reply::fail(s);
            },
        };
        let v: u64 = match self.argument(&args[1]) {
            Ok(v) => v,
            Err(r) => {
                return r;
            },
        };
        reg.write(&mut self.core, v);
        let mut s: String = args[0].as_str().to_string();
        put(&mut s, " = ");
        put_hex_fixed(&mut s, v, 16);
        put(&mut s, "\n");
        Reply::say(s)
    }

    fn put_value_line(&self, s: &mut String, arg: &String)
        ensures
            final(s)@ == old(s)@ + match self@.value_of(arg@) {
                Some(v) => value_line(arg@, v, self@.tools.symbols),
                None => no_value(arg@) + "\n"@,
            },
    {
        match crate::expr_parse::parse_cpu_arg(arg.as_str(), &self.core, &self.tools.symbols) {
            Ok(v) => {
                put(s, arg.as_str());
                put(s, ": ");
                put_hex_fixed(s, v, 16);
                put(s, " (");
                put_dec(s, v);
                put(s, ")");
                let sym: String = format_pc_symbol(v, &self.tools.symbols);
                put(s, sym.as_str());
                put(s, "\n");
                assert(s@ =~= old(s)@ + value_line(arg@, v, self@.tools.symbols));
            },
            Err(e) => {
                put(s, e.as_str());
                put(s, "\n");
                assert(s@ =~= old(s)@ + (no_value(arg@) + "\n"@));
            },
        }
    }

    /// Shows registers.
    pub fn cmd_regs(&self, args: &[String]) -> (r: Reply)
        ensures
            r@ == self@.cmd_regs(words(args@)),
    {
        if args.len() == 0 {
            return Reply::say(dump_regs(&self.core));
        }
        let mut s: String = String::new();
        assert(s@ =~= Seq::<char>::empty());
        let mut i: usize = 0;
        while i < args.len()
            invariant
                i <= args@.len(),
                self@.values_from(s@, words(args@), i as nat) == self@.values_from(
                    Seq::empty(),
                    words(args@),
                    0,
                ),
            decreases args@.len() - i,
        {
            self.put_value_line(&mut s, &args[i]);
            i = i + 1;
        }
        Reply::say(s)
    }

    /// Shows the symbol of an address.
    pub fn cmd_sym(&self, args: &[String]) -> (r: Reply)
        ensures
            r@ == self@.cmd_sym(words(args@)),
    {
        if args.len() == 0 {
            return Reply::refuse("Usage: sym <addr>");
        }
        let addr: u64 = match self.argument(&args[0]) {
            Ok(v) => v,
            Err(r) => {
                return r;
            },
        };
        let mut s: String = String::new();
        put_hex_fixed(&mut s, addr, 16);
        put(&mut s, " = ");
        match self.tools.symbols.lookup(addr) {
            Some((base, name)) => {
                put(&mut s, name.as_str());
                if addr != base {
                    put(&mut s, " + 0x");
                    put_hex(&mut s, addr - base);
                }
            },
            None => put(&mut s, "???"),
        }
        put(&mut s, "\n");
        assert(s@ =~= symbol_line(addr, self@.tools.symbols));
        Reply::say(s)
    }

    /// Shows the state of linked loads.
    pub fn cmd_ll(&self) -> (r: Reply)
        requires
            self.wf(),
        ensures
            r@ == self@.cmd_ll(),
    {
        let b: bool = self.cache.get_llbit();
        let a: u32 = self.cache.get_lladdr();
        let mut s: String = "llbit:  ".to_string();
        put(
            &mut s,
            if b {
                "SET"
            } else {
                "clear"
            },
        );
        put(&mut s, "\nlladdr: ");
        put_hex_fixed(&mut s, a as u64, 8);
        put(&mut s, "  (phys ");
        put_hex_fixed(&mut s, a as u64 * 16, 10);
        put(&mut s, ")\n");
        Reply::say(s)
    }

    /// Shows the system control registers.
    pub fn cmd_cop0(&self, fired: u64) -> (r: Reply)
        ensures
            r@ == self@.cmd_cop0(fired),
    {
        let mut s: String = "COP0 Registers:\n".to_string();
        let mut i: u8 = 0;
        while i < 32
            invariant
                i <= 32,
                cp0_lines(s@, self.core, i as nat) == cp0_lines(
                    "COP0 Registers:\n"@,
                    self.core,
                    0,
                ),
            decreases 32 - i,
        {
            put_cp0_line(&mut s, &self.core, i);
            i = i + 1;
        }
        put(&mut s, "  IP7 timer: count_hz=");
        put_dec(&mut s, self.core.count_hz);
        put(&mut s, " (");
        let mut rest: String = " MHz)  fired=".to_string();
        put_dec(&mut rest, fired);
        put(&mut rest, "\n    slow_delta=");
        put_dec(&mut rest, self.core.compare_delta_slow);
        put(&mut rest, " hw-counts  fast_delta=");
        put_dec(&mut rest, self.core.compare_delta_fast);
        put(&mut rest, " hw-counts\n");
        Reply { text: s, end: End::Left(Action::Frequency { hz: self.core.count_hz, rest }) }
    }

    /// Shows the floating-point registers.
    pub fn cmd_cop1(&self) -> (r: Reply)
        ensures
            r@ == self@.cmd_cop1(),
    {
        let mut rest: String = "Control Registers:\n  FIR:  ".to_string();
        put_hex_fixed(&mut rest, self.core.fpu_fir as u64, 8);
        put(&mut rest, "\n  FCCR: ");
        put_hex_fixed(&mut rest, self.core.fpu_fccr as u64, 8);
        put(&mut rest, "\n  FEXR: ");
        put_hex_fixed(&mut rest, self.core.fpu_fexr as u64, 8);
        put(&mut rest, "\n  FENR: ");
        put_hex_fixed(&mut rest, self.core.fpu_fenr as u64, 8);
        put(&mut rest, "\n  FCSR: ");
        put_hex_fixed(&mut rest, self.core.fpu_fcsr as u64, 8);
        put(&mut rest, "\n");
        Reply {
            text: "COP1 Registers (FPU):\n".to_string(),
            end: End::Left(Action::FloatRegisters { fpr: self.core.fpr, rest }),
        }
    }

    /// Says whether the processor runs, and where.
    pub fn cmd_status(&self, running: bool) -> (r: Reply)
        ensures
            r@ == self@.cmd_status(running),
    {
        let pc: u64 = self.core.pc;
        let mut s: String = if running {
            "running".to_string()
        } else {
            "stopped".to_string()
        };
        put(&mut s, " pc=");
        put_hex_fixed(&mut s, pc, 16);
        let sym: String = format_pc_symbol(pc, &self.tools.symbols);
        put(&mut s, sym.as_str());
        put(&mut s, "\n  count_hz=");
        put_dec(&mut s, self.core.count_hz);
        put(&mut s, " (");
        let mut rest: String = " MHz)  count=0x".to_string();
        put_hex_fixed(&mut rest, #[verifier::truncate] (self.core.cp0_count as u32) as u64, 8);
        put(&mut rest, " compare=0x");
        put_hex_fixed(&mut rest, #[verifier::truncate] (self.core.cp0_compare as u32) as u64, 8);
        put(&mut rest, "\n  compare_delta_slow=");
        put_dec(&mut rest, self.core.compare_delta_slow);
        put(&mut rest, " hw-counts  compare_delta_fast=");
        put_dec(&mut rest, self.core.compare_delta_fast);
        put(&mut rest, " hw-counts\n");
        Reply { text: s, end: End::Left(Action::Frequency { hz: self.core.count_hz, rest }) }
    }

    /// Raises the timer's interrupt.
    pub fn cmd_ip7(&mut self) -> (r: Reply)
        requires
            old(self).wf(),
        ensures
            final(self).wf(),
            (r@, final(self)@) == old(self)@.cmd_ip7(),
    {
        self.core.signal(Signal::Interrupt(7, true));
        Reply::tell("IP7 set pending (delivered on next executed instruction, mask permitting)\n")
    }

    /// Looks into the TLB.
    pub fn cmd_tlb(&self, args: &[String]) -> (r: Reply)
        requires
            self.wf(),
        ensures
            r@ == self@.cmd_tlb(words(args@)),
    {
        if args.len() == 0 {
            return Reply::refuse("Usage: tlb <dump|trans|debug> ...");
        }
        if is_word(args, 0, "dump") {
            let n: usize = self.tlb.num_entries();
            let mut s: String = String::new();
            assert(s@ =~= Seq::<char>::empty());
            let mut i: usize = 0;
            while i < n
                invariant
                    i <= n,
                    n == T::entries(self.tlb.state()),
                    self.wf(),
                    self@.tlb_lines(s@, i as nat) == self@.tlb_lines(Seq::empty(), 0),
                decreases n - i,
            {
                let t: String = self.tlb.format_entry(i);
                let len: usize = vstd::string::StrSliceExecFns::unicode_len(t.as_str());
                if len != 0 {
                    put(&mut s, t.as_str());
                    put(&mut s, "\n");
                }
                i = i + 1;
            }
            return Reply::say(s);
        }
        if is_word(args, 0, "trans") || is_word(args, 0, "translate") {
            if args.len() < 2 {
                return Reply::refuse("Usage: tlb trans <vaddr> [asid]");
            }
            let va: u64 = match parse_hex(args[1].as_str()) {
                Some(v) => v,
                None => {
                    return Reply::refuse("Invalid address");
                },
            };
            let asid: u8 = match asid_in(args) {
                Some(a) => a,
                None => {
                    return Reply::refuse("Invalid ASID");
                },
            };
            let mut s: String = self.tlb.debug_translate(va, asid);
            put(&mut s, "\n");
            return Reply::say(s);
        }
        Reply::refuse("Unknown TLB subcommand")
    }

    /// Looks into the cache called `name`.
    pub fn cmd_cache(&mut self, name: &str, args: &[String]) -> (r: Reply)
        requires
            old(self).wf(),
        ensures
            final(self).wf(),
            (r@, final(self)@) == old(self)@.cmd_cache(name@, words(args@)),
    {
        if args.len() == 0 {
            let mut s: String = "Usage: ".to_string();
            put(&mut s, name);
            put(&mut s, " <check|dump> <addr|index>");
            return Reply::fail(s);
        }
        let arg: String = if args.len() > 1 {
            args[1].as_str().to_string()
        } else {
            "0".to_string()
        };
        let v: u64 = match self.argument(&arg) {
            Ok(v) => v,
            Err(r) => {
                return r;
            },
        };
        if is_word(args, 0, "check") || is_word(args, 0, "probe") {
            if v < 0x8000_0000 {
                let mut s: String = self.cache.debug_probe(name, v, v);
                put(&mut s, "\n");
                return Reply::say(s);
            }
            let tr: TranslateResult = self.debug_translate(v);
            let mut s: String = "Virtual ".to_string();
            put_hex_fixed(&mut s, v, 16);
            let ghost before = s@;
            let mut phys: u64 = v;
            if tr.is_exception() {
                put(&mut s, " -> Translation Failed\n");
            } else {
                phys = tr.phys as u64;
                put(&mut s, " -> Physical ");
                put_hex_fixed(&mut s, phys, 16);
                put(&mut s, "\n");
                assert(s@ =~= before + (" -> Physical "@ + hex_fixed(phys as nat, 16) + "\n"@));
            }
            let t: String = self.cache.debug_probe(name, v, phys);
            put(&mut s, t.as_str());
            put(&mut s, "\n");
            return Reply::say(s);
        }
        if is_word(args, 0, "dump") {
            let mut s: String = self.cache.debug_dump_line(
                name,
                #[verifier::truncate] (v as usize),
            );
            put(&mut s, "\n");
            return Reply::say(s);
        }
        Reply::refuse("Unknown operation. Use check or dump")
    }
}

} // verus!

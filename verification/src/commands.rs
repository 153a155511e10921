//! The debugger's command line: which commands there are, and what each word leads to.
use vstd::prelude::*;
use vstd::string::StringExecFns;

use crate::bus::{BusDevice, MipsCache, Tlb};
use crate::command::{
    leaves, refused, said, words, Action, ActionView, End, EndView, Reply, ReplyView,
};
use crate::command_laws::law_other_commands_keep_breakpoints;
use crate::machine::{Machine, MipsExecutor};
use crate::monitor::Monitor;
use crate::regs_text::{left, put_left};
use crate::text::{put, str_eq};

verus! {

/// Number of entries in the list of commands.
pub const COMMANDS: u8 = 54;

/// Entry `i` of the list of commands: the word, and what it is for.
pub open spec fn command_entry(i: u8) -> (Seq<char>, Seq<char>) {
    match i {
        0 => ("cpu"@, "CPU commands: start, stop, run, step, regs, cop0, cop1, mem, dis, jump, translate, trace, undo, sym, loadsym"@),
        1 => ("bp"@, "Breakpoint commands: bp add <addr> [type] [if <expr>], bp list, bp del <id>, bp enable/disable <id>"@),
        2 => ("b"@, "Alias for bp add"@),
        3 => ("bl"@, "Alias for bp list"@),
        4 => ("bd"@, "Alias for bp disable"@),
        5 => ("be"@, "Alias for bp enable"@),
        6 => ("bb"@, "Alias for bp delete"@),
        7 => ("tlb"@, "TLB commands: tlb dump | tlb trans <vaddr> [asid] | tlb debug <on|off> [DEV]"@),
        8 => ("start"@, "Start CPU execution thread"@),
        9 => ("stop"@, "Stop CPU execution thread"@),
        10 => ("status"@, "Show CPU running status and current PC"@),
        11 => ("ip7"@, "Set pending IP7 (CP0 Compare timer) interrupt — simulate a timer fire while stopped"@),
        12 => ("exception"@, "Control exception breaks: exception <class|code|all> <on|off>"@),
        13 => ("run"@, "Run instructions until exception or breakpoint: run [addr]"@),
        14 => ("step"@, "Step n instructions or until address: step [count|addr]"@),
        15 => ("next"@, "Step over function calls: next [count]"@),
        16 => ("finish"@, "Run until function return (jr ra)"@),
        17 => ("fin"@, "Alias for finish"@),
        18 => ("s"@, "Alias for step"@),
        19 => ("si"@, "Step suppressing interrupt delivery (alias for step, no interrupts taken) [DEV]"@),
        20 => ("n"@, "Alias for next"@),
        21 => ("regs"@, "Dump registers"@),
        22 => ("r"@, "Alias for regs"@),
        23 => ("c"@, "Alias for run"@),
        24 => ("cont"@, "Alias for run"@),
        25 => ("cop0"@, "Dump COP0 registers"@),
        26 => ("cop1"@, "Dump COP1 registers"@),
        27 => ("mem"@, "Dump virtual memory: mem <addr> [count]"@),
        28 => ("m"@, "Alias for mem"@),
        29 => ("mw"@, "Write virtual memory: mw <addr> <val> [size: b|h|w|d]"@),
        30 => ("stack"@, "Dump stack memory: stack [addr] [count]"@),
        31 => ("bt"@, "Print backtrace: bt [frames]"@),
        32 => ("ms"@, "Read string from virtual memory: ms <addr> [max_len]"@),
        33 => ("dis"@, "Disassemble virtual memory: dis [addr] [count]"@),
        34 => ("d"@, "Alias for dis"@),
        35 => ("jump"@, "Set PC to address: jump <addr>"@),
        36 => ("setreg"@, "Set register value: setreg <reg> <value>"@),
        37 => ("translate"@, "Translate virtual address: translate <addr>"@),
        38 => ("t"@, "Alias for translate"@),
        39 => ("debug"@, "CPU instruction trace: debug <on|off|file <path>> [DEV]"@),
        40 => ("ex"@, "Alias for exception"@),
        41 => ("undo"@, "Undo N instructions or control undo buffer: undo [count] | undo <on|off|clear|resize <n>> [DEV]"@),
        42 => ("dt"@, "Disassemble traceback: dt [count] | dt file <path> [count]"@),
        43 => ("idleprof"@, "Locate idle/spin loops via PC sampling: idleprof <on|off|report [count]>"@),
        44 => ("u"@, "Alias for undo [DEV]"@),
        45 => ("sym"@, "Lookup symbol: sym <addr>"@),
        46 => ("loadsym"@, "Load symbols from file: loadsym <file>"@),
        47 => ("proc"@, "IRIX kernel introspection: proc info  (requires `loadsym` first)"@),
        48 => ("l1i"@, "L1 Instruction Cache commands: l1i <check|dump> <addr|index>"@),
        49 => ("l1d"@, "L1 Data Cache commands: l1d <check|dump> <addr|index>"@),
        50 => ("l2"@, "L2 Cache commands: l2 <check|dump> <addr|index>"@),
        51 => ("ll"@, "Show LL/SC state: llbit and lladdr"@),
        52 => ("j2"@, "JIT v2 introspection: j2 pcp | j2 status (alias: stats) | j2 inline [on|off] | j2 dispatch [on|off] | j2 lockstep [<alu|branch|loadstore|fpu> [on|off]] (see also: jitcheck <n> for JIT-vs-interpreter determinism checking)"@),
        _ => ("trace"@, "Execution trace capture: trace start <path> | trace stop | trace status"@),
    }
}

fn command_help(i: u8) -> (r: (&'static str, &'static str))
    ensures
        (r.0@, r.1@) == command_entry(i),
{
    match i {
        0 => ("cpu", "CPU commands: start, stop, run, step, regs, cop0, cop1, mem, dis, jump, translate, trace, undo, sym, loadsym"),
        1 => ("bp", "Breakpoint commands: bp add <addr> [type] [if <expr>], bp list, bp del <id>, bp enable/disable <id>"),
        2 => ("b", "Alias for bp add"),
        3 => ("bl", "Alias for bp list"),
        4 => ("bd", "Alias for bp disable"),
        5 => ("be", "Alias for bp enable"),
        6 => ("bb", "Alias for bp delete"),
        7 => ("tlb", "TLB commands: tlb dump | tlb trans <vaddr> [asid] | tlb debug <on|off> [DEV]"),
        8 => ("start", "Start CPU execution thread"),
        9 => ("stop", "Stop CPU execution thread"),
        10 => ("status", "Show CPU running status and current PC"),
        11 => ("ip7", "Set pending IP7 (CP0 Compare timer) interrupt — simulate a timer fire while stopped"),
        12 => ("exception", "Control exception breaks: exception <class|code|all> <on|off>"),
        13 => ("run", "Run instructions until exception or breakpoint: run [addr]"),
        14 => ("step", "Step n instructions or until address: step [count|addr]"),
        15 => ("next", "Step over function calls: next [count]"),
        16 => ("finish", "Run until function return (jr ra)"),
        17 => ("fin", "Alias for finish"),
        18 => ("s", "Alias for step"),
        19 => ("si", "Step suppressing interrupt delivery (alias for step, no interrupts taken) [DEV]"),
        20 => ("n", "Alias for next"),
        21 => ("regs", "Dump registers"),
        22 => ("r", "Alias for regs"),
        23 => ("c", "Alias for run"),
        24 => ("cont", "Alias for run"),
        25 => ("cop0", "Dump COP0 registers"),
        26 => ("cop1", "Dump COP1 registers"),
        27 => ("mem", "Dump virtual memory: mem <addr> [count]"),
        28 => ("m", "Alias for mem"),
        29 => ("mw", "Write virtual memory: mw <addr> <val> [size: b|h|w|d]"),
        30 => ("stack", "Dump stack memory: stack [addr] [count]"),
        31 => ("bt", "Print backtrace: bt [frames]"),
        32 => ("ms", "Read string from virtual memory: ms <addr> [max_len]"),
        33 => ("dis", "Disassemble virtual memory: dis [addr] [count]"),
        34 => ("d", "Alias for dis"),
        35 => ("jump", "Set PC to address: jump <addr>"),
        36 => ("setreg", "Set register value: setreg <reg> <value>"),
        37 => ("translate", "Translate virtual address: translate <addr>"),
        38 => ("t", "Alias for translate"),
        39 => ("debug", "CPU instruction trace: debug <on|off|file <path>> [DEV]"),
        40 => ("ex", "Alias for exception"),
        41 => ("undo", "Undo N instructions or control undo buffer: undo [count] | undo <on|off|clear|resize <n>> [DEV]"),
        42 => ("dt", "Disassemble traceback: dt [count] | dt file <path> [count]"),
        43 => ("idleprof", "Locate idle/spin loops via PC sampling: idleprof <on|off|report [count]>"),
        44 => ("u", "Alias for undo [DEV]"),
        45 => ("sym", "Lookup symbol: sym <addr>"),
        46 => ("loadsym", "Load symbols from file: loadsym <file>"),
        47 => ("proc", "IRIX kernel introspection: proc info  (requires `loadsym` first)"),
        48 => ("l1i", "L1 Instruction Cache commands: l1i <check|dump> <addr|index>"),
        49 => ("l1d", "L1 Data Cache commands: l1d <check|dump> <addr|index>"),
        50 => ("l2", "L2 Cache commands: l2 <check|dump> <addr|index>"),
        51 => ("ll", "Show LL/SC state: llbit and lladdr"),
        52 => ("j2", "JIT v2 introspection: j2 pcp | j2 status (alias: stats) | j2 inline [on|off] | j2 dispatch [on|off] | j2 lockstep [<alu|branch|loadstore|fpu> [on|off]] (see also: jitcheck <n> for JIT-vs-interpreter determinism checking)"),
        _ => ("trace", "Execution trace capture: trace start <path> | trace stop | trace status"),
    }
}

/// The commands, and what each is for.
pub fn register_commands() -> (v: Vec<(String, String)>)
    ensures
        v@.len() == COMMANDS,
        forall|i: int|
            0 <= i < COMMANDS ==> ((#[trigger] v@[i]).0@, v@[i].1@) == command_entry(i as u8),
{
    let mut v: Vec<(String, String)> = Vec::new();
    let mut i: u8 = 0;
    while i < COMMANDS
        invariant
            i <= COMMANDS,
            v@.len() == i,
            forall|j: int|
                0 <= j < i ==> ((#[trigger] v@[j]).0@, v@[j].1@) == command_entry(j as u8),
        decreases COMMANDS - i,
    {
        let (name, help): (&str, &str) = command_help(i);
        v.push((name.to_string(), help.to_string()));
        i = i + 1;
    }
    v
}

/// `text` and the entries from `i` on.
pub open spec fn help_lines(text: Seq<char>, i: nat) -> Seq<char>
    decreases COMMANDS - i,
{
    if i < COMMANDS {
        let (name, help) = command_entry(i as u8);
        help_lines(text + "  "@ + left(name, 12) + " - "@ + help + "\n"@, i + 1)
    } else {
        text
    }
}

fn help_text() -> (s: String)
    ensures
        s@ == help_lines("CPU Commands:\n"@, 0),
{
    let mut s: String = "CPU Commands:\n".to_string();
    let mut i: u8 = 0;
    while i < COMMANDS
        invariant
            i <= COMMANDS,
            help_lines(s@, i as nat) == help_lines("CPU Commands:\n"@, 0),
        decreases COMMANDS - i,
    {
        let (name, help): (&str, &str) = command_help(i);
        put(&mut s, "  ");
        put_left(&mut s, name, 12);
        put(&mut s, " - ");
        put(&mut s, help);
        put(&mut s, "\n");
        i = i + 1;
    }
    s
}

/// What a command word asks for.
#[derive(Clone, Copy, Debug, PartialEq, Eq, Structural)]
pub enum Command {
    BpAdd,
    BpDisable,
    BpEnable,
    BpDelete,
    BpList,
    Bp,
    LoadSymbols,
    Symbol,
    Processes,
    Linked,
    CacheL1I,
    CacheL1D,
    CacheL2,
    Help,
    Start,
    Stop,
    Status,
    Timer,
    Run,
    Finish,
    Step,
    StepQuietly,
    Next,
    Registers,
    Cop0,
    Cop1,
    Memory,
    Stack,
    Backtrace,
    Write,
    Text,
    Disassemble,
    Jump,
    SetRegister,
    Translate,
    Debug,
    Exception,
    Undo,
    Tlb,
    Jit,
    Trace,
    History,
    Idle,
    Unknown,
}

/// The command that a word stands for.
pub open spec fn command_named(w: Seq<char>) -> Command {
    if w == "b"@ {
        Command::BpAdd
    } else if w == "bd"@ {
        Command::BpDisable
    } else if w == "be"@ {
        Command::BpEnable
    } else if w == "bb"@ {
        Command::BpDelete
    } else if w == "bl"@ {
        Command::BpList
    } else if w == "bp"@ {
        Command::Bp
    } else if w == "loadsym"@ {
        Command::LoadSymbols
    } else if w == "sym"@ {
        Command::Symbol
    } else if w == "proc"@ {
        Command::Processes
    } else if w == "ll"@ {
        Command::Linked
    } else if w == "l1i"@ {
        Command::CacheL1I
    } else if w == "l1d"@ {
        Command::CacheL1D
    } else if w == "l2"@ {
        Command::CacheL2
    } else if w == "help"@ {
        Command::Help
    } else if w == "start"@ {
        Command::Start
    } else if w == "stop"@ {
        Command::Stop
    } else if w == "status"@ {
        Command::Status
    } else if w == "ip7"@ {
        Command::Timer
    } else if w == "run"@ || w == "c"@ || w == "cont"@ {
        Command::Run
    } else if w == "finish"@ || w == "fin"@ {
        Command::Finish
    } else if w == "step"@ || w == "s"@ {
        Command::Step
    } else if w == "si"@ {
        Command::StepQuietly
    } else if w == "next"@ || w == "n"@ {
        Command::Next
    } else if w == "regs"@ || w == "r"@ {
        Command::Registers
    } else if w == "cop0"@ {
        Command::Cop0
    } else if w == "cop1"@ {
        Command::Cop1
    } else if w == "mem"@ || w == "m"@ || w == "memory"@ {
        Command::Memory
    } else if w == "stack"@ {
        Command::Stack
    } else if w == "bt"@ || w == "backtrace"@ {
        Command::Backtrace
    } else if w == "mw"@ {
        Command::Write
    } else if w == "ms"@ {
        Command::Text
    } else if w == "dis"@ || w == "d"@ || w == "disasm"@ || w == "disassemble"@ {
        Command::Disassemble
    } else if w == "jump"@ {
        Command::Jump
    } else if w == "setreg"@ {
        Command::SetRegister
    } else if w == "translate"@ || w == "t"@ || w == "trans"@ {
        Command::Translate
    } else if w == "debug"@ {
        Command::Debug
    } else if w == "ex"@ || w == "exception"@ || w == "exc"@ {
        Command::Exception
    } else if w == "undo"@ || w == "u"@ {
        Command::Undo
    } else if w == "tlb"@ {
        Command::Tlb
    } else if w == "j2"@ {
        Command::Jit
    } else if w == "trace"@ {
        Command::Trace
    } else if w == "dt"@ || w == "traceback"@ {
        Command::History
    } else if w == "idleprof"@ {
        Command::Idle
    } else {
        Command::Unknown
    }
}

fn parse_command(w: &str) -> (c: Command)
    ensures
        c == command_named(w@),
{
    if str_eq(w, "b") {
        Command::BpAdd
    } else if str_eq(w, "bd") {
        Command::BpDisable
    } else if str_eq(w, "be") {
        Command::BpEnable
    } else if str_eq(w, "bb") {
        Command::BpDelete
    } else if str_eq(w, "bl") {
        Command::BpList
    } else if str_eq(w, "bp") {
        Command::Bp
    } else if str_eq(w, "loadsym") {
        Command::LoadSymbols
    } else if str_eq(w, "sym") {
        Command::Symbol
    } else if str_eq(w, "proc") {
        Command::Processes
    } else if str_eq(w, "ll") {
        Command::Linked
    } else if str_eq(w, "l1i") {
        Command::CacheL1I
    } else if str_eq(w, "l1d") {
        Command::CacheL1D
    } else if str_eq(w, "l2") {
        Command::CacheL2
    } else if str_eq(w, "help") {
        Command::Help
    } else if str_eq(w, "start") {
        Command::Start
    } else if str_eq(w, "stop") {
        Command::Stop
    } else if str_eq(w, "status") {
        Command::Status
    } else if str_eq(w, "ip7") {
        Command::Timer
    } else if str_eq(w, "run") || str_eq(w, "c") || str_eq(w, "cont") {
        Command::Run
    } else if str_eq(w, "finish") || str_eq(w, "fin") {
        Command::Finish
    } else if str_eq(w, "step") || str_eq(w, "s") {
        Command::Step
    } else if str_eq(w, "si") {
        Command::StepQuietly
    } else if str_eq(w, "next") || str_eq(w, "n") {
        Command::Next
    } else if str_eq(w, "regs") || str_eq(w, "r") {
        Command::Registers
    } else if str_eq(w, "cop0") {
        Command::Cop0
    } else if str_eq(w, "cop1") {
        Command::Cop1
    } else if str_eq(w, "mem") || str_eq(w, "m") || str_eq(w, "memory") {
        Command::Memory
    } else if str_eq(w, "stack") {
        Command::Stack
    } else if str_eq(w, "bt") || str_eq(w, "backtrace") {
        Command::Backtrace
    } else if str_eq(w, "mw") {
        Command::Write
    } else if str_eq(w, "ms") {
        Command::Text
    } else if str_eq(w, "dis") || str_eq(w, "d") || str_eq(w, "disasm") || str_eq(w, "disassemble") {
        Command::Disassemble
    } else if str_eq(w, "jump") {
        Command::Jump
    } else if str_eq(w, "setreg") {
        Command::SetRegister
    } else if str_eq(w, "translate") || str_eq(w, "t") || str_eq(w, "trans") {
        Command::Translate
    } else if str_eq(w, "debug") {
        Command::Debug
    } else if str_eq(w, "ex") || str_eq(w, "exception") || str_eq(w, "exc") {
        Command::Exception
    } else if str_eq(w, "undo") || str_eq(w, "u") {
        Command::Undo
    } else if str_eq(w, "tlb") {
        Command::Tlb
    } else if str_eq(w, "j2") {
        Command::Jit
    } else if str_eq(w, "trace") {
        Command::Trace
    } else if str_eq(w, "dt") || str_eq(w, "traceback") {
        Command::History
    } else if str_eq(w, "idleprof") {
        Command::Idle
    } else {
        Command::Unknown
    }
}

/// The sub-command that a short form of the breakpoint commands stands for.
pub open spec fn bp_alias(c: Command) -> Option<Seq<char>> {
    match c {
        Command::BpAdd => Some("add"@),
        Command::BpDisable => Some("disable"@),
        Command::BpEnable => Some("enable"@),
        Command::BpDelete => Some("delete"@),
        Command::BpList => Some("list"@),
        _ => None,
    }
}

/// Commands that look at the machine or change it, without settings of the debugger.
pub open spec fn is_plain(c: Command) -> bool {
    c == Command::Cop0 || c == Command::Status || c == Command::CacheL1I || c == Command::CacheL1D
        || c == Command::CacheL2 || c == Command::Idle
        || c == Command::Symbol
        || c == Command::Linked
        || c == Command::Registers
        || c == Command::Cop1
        || c == Command::Tlb
        || c == Command::History
        || c == Command::Processes
        || c == Command::Timer
        || c == Command::Memory
        || c == Command::Stack
        || c == Command::Backtrace
        || c == Command::Write
        || c == Command::Text
        || c == Command::Disassemble
        || c == Command::Jump
        || c == Command::SetRegister
        || c == Command::Translate
        || c == Command::Undo
        || c == Command::Trace
}

/// Commands that run the guest.
pub open spec fn is_run(c: Command) -> bool {
    c == Command::Run || c == Command::Finish || c == Command::Step || c == Command::StepQuietly
        || c == Command::Next
}

/// Commands about breakpoints.
pub open spec fn is_bp(c: Command) -> bool {
    c == Command::Bp || bp_alias(c) is Some
}

impl<T: Tlb, C: MipsCache, B: BusDevice> Machine<T, C, B> {
    /// `r` is the reply to the command `c`, and `m` the machine after it. The timer has
    /// fired `fired` times.
    pub open spec fn is_plain_result(
        self,
        c: Command,
        args: Seq<Seq<char>>,
        running: bool,
        fired: u64,
        r: ReplyView,
        m: Self,
    ) -> bool {
        match c {
            Command::Cop0 => r == self.cmd_cop0(fired) && m == self,
            Command::Status => r == self.cmd_status(running) && m == self,
            Command::CacheL1I => (r, m) == self.cmd_cache("l1i"@, args),
            Command::CacheL1D => (r, m) == self.cmd_cache("l1d"@, args),
            Command::CacheL2 => (r, m) == self.cmd_cache("l2"@, args),
            Command::Idle => self.is_idle_result(args, r, m),
            Command::Symbol => r == self.cmd_sym(args) && m == self,
            Command::Linked => r == self.cmd_ll() && m == self,
            Command::Registers => r == self.cmd_regs(args) && m == self,
            Command::Cop1 => r == self.cmd_cop1() && m == self,
            Command::Tlb => r == self.cmd_tlb(args) && m == self,
            Command::History => r == self.cmd_history(args) && m == self,
            Command::Processes => (r, m) == self.cmd_proc(args),
            Command::Timer => (r, m) == self.cmd_ip7(),
            Command::Memory => (r, m) == self.cmd_mem(args),
            Command::Stack => (r, m) == self.cmd_stack(args),
            Command::Backtrace => (r, m) == self.cmd_backtrace(args),
            Command::Write => (r, m) == self.cmd_write(args),
            Command::Text => (r, m) == self.cmd_string(args),
            Command::Disassemble => (r, m) == self.cmd_dis(args),
            Command::Jump => (r, m) == self.cmd_jump(args),
            Command::SetRegister => (r, m) == self.cmd_setreg(args),
            Command::Translate => (r, m) == self.cmd_translate(args),
            Command::Undo => (r, m) == self.cmd_undo(args),
            Command::Trace => (r, m) == self.cmd_trace(args),
            _ => true,
        }
    }

    /// `r` is the reply to the command `c`, which runs the guest, and `m` the machine
    /// after it.
    pub open spec fn is_run_result(
        self,
        c: Command,
        args: Seq<Seq<char>>,
        r: ReplyView,
        m: Self,
    ) -> bool {
        match c {
            Command::Run => self.cmd_run(args).is_result(r, m),
            Command::Finish => self.cmd_finish().is_result(r, m),
            Command::Step => self.cmd_step(args, false).is_result(r, m),
            Command::StepQuietly => self.cmd_step(args, true).is_result(r, m),
            Command::Next => self.cmd_next(args).is_result(r, m),
            _ => true,
        }
    }

    /// `r` is the reply to the breakpoint command `c`, and `m` the machine after it.
    pub open spec fn is_breakpoint_result(
        self,
        c: Command,
        args: Seq<Seq<char>>,
        r: ReplyView,
        m: Self,
    ) -> bool {
        match bp_alias(c) {
            Some(sub) => self.is_bp_result(sub, args, r, m.bps) && m == (Machine {
                bps: m.bps,
                ..self
            }),
            None => if args.len() == 0 {
                r == refused("Usage: bp <add|list|del|enable|disable> ..."@) && m == self
            } else {
                self.is_bp_result(args[0], args.skip(1), r, m.bps) && m == (Machine {
                    bps: m.bps,
                    ..self
                })
            },
        }
    }
}

impl Monitor {
    /// The reply to a command that touches the debugger's settings at most, and the
    /// settings after it.
    pub open spec fn setting_command(
        self,
        c: Command,
        word: Seq<char>,
        args: Seq<Seq<char>>,
        running: bool,
    ) -> (ReplyView, Monitor) {
        match c {
            Command::Debug => self.debug_command(args),
            Command::Exception => self.exception_command(args),
            Command::Jit => self.jit_command(args, running),
            Command::Help => (said(help_lines("CPU Commands:\n"@, 0)), self),
            Command::Start => (
                ReplyView { text: "CPU started\n"@, end: EndView::Left(ActionView::Start) },
                self,
            ),
            Command::Stop => (
                ReplyView { text: "CPU stopped\n"@, end: EndView::Left(ActionView::Stop) },
                self,
            ),
            Command::LoadSymbols => if args.len() == 0 {
                (refused("Usage: loadsym <file>"@), self)
            } else {
                (leaves(ActionView::LoadSymbols(args[0])), self)
            },
            _ => (refused("Unknown CPU command: "@ + word), self),
        }
    }

    fn run_setting_command(&mut self, c: Command, word: &str, args: &[String], running: bool) -> (r:
        Reply)
        ensures
            (r@, *final(self)) == old(self).setting_command(c, word@, words(args@), running),
    {
        match c {
            Command::Debug => self.cmd_debug(args),
            Command::Exception => self.cmd_exception(args),
            Command::Jit => self.cmd_jit(args, running),
            Command::Help => Reply::say(help_text()),
            Command::Start => Reply {
                text: "CPU started\n".to_string(),
                end: End::Left(Action::Start),
            },
            Command::Stop => Reply {
                text: "CPU stopped\n".to_string(),
                end: End::Left(Action::Stop),
            },
            Command::LoadSymbols => if args.len() == 0 {
                Reply::refuse("Usage: loadsym <file>")
            } else {
                Reply::leave(Action::LoadSymbols(args[0].as_str().to_string()))
            },
            _ => {
                let mut s: String = "Unknown CPU command: ".to_string();
                put(&mut s, word);
                Reply::fail(s)
            },
        }
    }
}

/// What a command may change: the machine and the settings of the debugger.
pub struct Session<T: Tlb, C: MipsCache, B: BusDevice> {
    pub machine: Machine<T, C, B>,
    pub monitor: Monitor,
}

impl<T: Tlb, C: MipsCache, B: BusDevice> Session<T, C, B> {
    /// `r` is the reply to the command `word`, and `s` the session after it.
    pub open spec fn is_command_result(
        self,
        word: Seq<char>,
        args: Seq<Seq<char>>,
        running: bool,
        fired: u64,
        r: ReplyView,
        s: Self,
    ) -> bool {
        let c = command_named(word);
        if is_plain(c) {
            self.machine.is_plain_result(c, args, running, fired, r, s.machine) && s.monitor
                == self.monitor
        } else if is_run(c) {
            self.machine.is_run_result(c, args, r, s.machine) && s.monitor == self.monitor
        } else if is_bp(c) {
            self.machine.is_breakpoint_result(c, args, r, s.machine) && s.monitor == self.monitor
        } else {
            (r, s.monitor) == self.monitor.setting_command(c, word, args, running) && s.machine
                == self.machine
        }
    }

    /// `r` is the reply to a command line, and `s` the session after it. The word `cpu`
    /// may stand before any command.
    pub open spec fn is_line_result(
        self,
        cmd: Seq<char>,
        args: Seq<Seq<char>>,
        running: bool,
        fired: u64,
        r: ReplyView,
        s: Self,
    ) -> bool {
        if cmd == "cpu"@ {
            if args.len() == 0 {
                r == refused("Usage: cpu <command> [args...]"@) && s == self
            } else {
                self.is_command_result(args[0], args.skip(1), running, fired, r, s)
            }
        } else {
            self.is_command_result(cmd, args, running, fired, r, s)
        }
    }
}

impl<T: Tlb, C: MipsCache, B: BusDevice> MipsExecutor<T, C, B> {
    fn run_plain_command(&mut self, c: Command, args: &[String], running: bool, fired: u64) -> (r:
        Option<Reply>)
        requires
            old(self).wf(),
        ensures
            final(self).wf(),
            r is Some == is_plain(c),
            r is None ==> *final(self) == *old(self),
            r matches Some(reply) ==> old(self)@.is_plain_result(
                c,
                words(args@),
                running,
                fired,
                reply@,
                final(self)@,
            ),
    {
        match c {
            Command::Cop0 => Some(self.cmd_cop0(fired)),
            Command::Status => Some(self.cmd_status(running)),
            Command::CacheL1I => Some(self.cmd_cache("l1i", args)),
            Command::CacheL1D => Some(self.cmd_cache("l1d", args)),
            Command::CacheL2 => Some(self.cmd_cache("l2", args)),
            Command::Idle => Some(self.cmd_idle(args)),
            Command::Symbol => Some(self.cmd_sym(args)),
            Command::Linked => Some(self.cmd_ll()),
            Command::Registers => Some(self.cmd_regs(args)),
            Command::Cop1 => Some(self.cmd_cop1()),
            Command::Tlb => Some(self.cmd_tlb(args)),
            Command::History => Some(self.cmd_history(args)),
            Command::Processes => Some(self.cmd_proc(args)),
            Command::Timer => Some(self.cmd_ip7()),
            Command::Memory => Some(self.cmd_mem(args)),
            Command::Stack => Some(self.cmd_stack(args)),
            Command::Backtrace => Some(self.cmd_backtrace(args)),
            Command::Write => Some(self.cmd_write(args)),
            Command::Text => Some(self.cmd_string(args)),
            Command::Disassemble => Some(self.cmd_dis(args)),
            Command::Jump => Some(self.cmd_jump(args)),
            Command::SetRegister => Some(self.cmd_setreg(args)),
            Command::Translate => Some(self.cmd_translate(args)),
            Command::Undo => Some(self.cmd_undo(args)),
            Command::Trace => Some(self.cmd_trace(args)),
            _ => None,
        }
    }

    fn run_run_command(&mut self, c: Command, args: &[String]) -> (r: Option<Reply>)
        requires
            old(self).wf(),
            old(self).bps.wf(),
            is_run(c) ==> old(self).bps.keeps_temp(),
        ensures
            final(self).wf(),
            final(self).bps.wf(),
            r is Some == is_run(c),
            r is None ==> *final(self) == *old(self),
            r matches Some(reply) ==> old(self)@.is_run_result(
                c,
                words(args@),
                reply@,
                final(self)@,
            ),
    {
        match c {
            Command::Run => Some(self.cmd_run(args)),
            Command::Finish => Some(self.cmd_finish()),
            Command::Step => Some(self.cmd_step(args, false)),
            Command::StepQuietly => Some(self.cmd_step(args, true)),
            Command::Next => Some(self.cmd_next(args)),
            _ => None,
        }
    }

    fn run_bp_command(&mut self, c: Command, args: &[String]) -> (r: Option<Reply>)
        requires
            old(self).wf(),
            old(self).bps.wf(),
            old(self).bps.next_bp_id < usize::MAX,
            old(self).bps.breakpoints@.len() < usize::MAX,
        ensures
            final(self).wf(),
            final(self).bps.wf(),
            r is Some == is_bp(c),
            r is None ==> *final(self) == *old(self),
            r matches Some(reply) ==> old(self)@.is_breakpoint_result(
                c,
                words(args@),
                reply@,
                final(self)@,
            ),
    {
        match c {
            Command::BpAdd => Some(self.cmd_bp("add", args)),
            Command::BpDisable => Some(self.cmd_bp("disable", args)),
            Command::BpEnable => Some(self.cmd_bp("enable", args)),
            Command::BpDelete => Some(self.cmd_bp("delete", args)),
            Command::BpList => Some(self.cmd_bp("list", args)),
            Command::Bp => {
                if args.len() == 0 {
                    return Some(Reply::refuse("Usage: bp <add|list|del|enable|disable> ..."));
                }
                let rest: &[String] = vstd::slice::slice_subrange(args, 1, args.len());
                assert(words(rest@) =~= words(args@).skip(1));
                Some(self.cmd_bp(args[0].as_str(), rest))
            },
            _ => None,
        }
    }

    pub open spec fn session(&self, monitor: Monitor) -> Session<T, C, B> {
        Session { machine: self@, monitor }
    }

    fn run_command(
        &mut self,
        monitor: &mut Monitor,
        word: &str,
        args: &[String],
        running: bool,
        fired: u64,
    ) -> (r: Reply)
        requires
            old(self).wf(),
            old(self).bps.wf(),
            is_run(command_named(word@)) ==> old(self).bps.keeps_temp(),
            old(self).bps.next_bp_id < usize::MAX,
            old(self).bps.breakpoints@.len() < usize::MAX,
        ensures
            final(self).wf(),
            final(self).bps.wf(),
            old(self).session(*old(monitor)).is_command_result(
                word@,
                words(args@),
                running,
                fired,
                r@,
                final(self).session(*final(monitor)),
            ),
    {
        let c: Command = parse_command(word);
        if let Some(r) = self.run_plain_command(c, args, running, fired) {
            proof {
                law_other_commands_keep_breakpoints(
                    old(self)@,
                    c,
                    words(args@),
                    running,
                    fired,
                    r@,
                    self@,
                );
            }
            return r;
        }
        if let Some(r) = self.run_run_command(c, args) {
            return r;
        }
        if let Some(r) = self.run_bp_command(c, args) {
            return r;
        }
        monitor.run_setting_command(c, word, args, running)
    }

    /// Executes a command line. `running` says whether the processor runs freely, and
    /// `fired` how often its timer has fired.
    pub fn execute_command(
        &mut self,
        monitor: &mut Monitor,
        cmd: &str,
        args: &[String],
        running: bool,
        fired: u64,
    ) -> (r: Reply)
        requires
            old(self).wf(),
            old(self).bps.wf(),
            runs_guest(cmd@, words(args@)) ==> old(self).bps.keeps_temp(),
            old(self).bps.next_bp_id < usize::MAX,
            old(self).bps.breakpoints@.len() < usize::MAX,
        ensures
            final(self).wf(),
            final(self).bps.wf(),
            old(self).session(*old(monitor)).is_line_result(
                cmd@,
                words(args@),
                running,
                fired,
                r@,
                final(self).session(*final(monitor)),
            ),
    {
        if str_eq(cmd, "cpu") {
            if args.len() == 0 {
                return Reply::refuse("Usage: cpu <command> [args...]");
            }
            let rest: &[String] = vstd::slice::slice_subrange(args, 1, args.len());
            assert(words(rest@) =~= words(args@).skip(1));
            return self.run_command(monitor, args[0].as_str(), rest, running, fired);
        }
        self.run_command(monitor, cmd, args, running, fired)
    }
}

/// Whether a command line runs the guest.
pub open spec fn runs_guest(cmd: Seq<char>, args: Seq<Seq<char>>) -> bool {
    if cmd == "cpu"@ {
        args.len() > 0 && is_run(command_named(args[0]))
    } else {
        is_run(command_named(cmd))
    }
}

/// Whether a command line runs the guest.
pub fn is_run_command(cmd: &str, args: &[String]) -> (b: bool)
    ensures
        b == runs_guest(cmd@, words(args@)),
{
    let c: Command = if str_eq(cmd, "cpu") {
        if args.len() == 0 {
            return false;
        }
        parse_command(args[0].as_str())
    } else {
        parse_command(cmd)
    };
    c == Command::Run || c == Command::Finish || c == Command::Step || c == Command::StepQuietly
        || c == Command::Next
}

/// How a command gets at the processor.
#[derive(Clone, Copy, Debug, PartialEq, Eq, Structural)]
pub enum Access {
    /// Not at all.
    Nothing,
    /// It waits until the processor can be had.
    Wait,
    /// It fails while the processor runs.
    Try,
}

/// How the command `c` gets at the processor.
pub open spec fn access_needed(c: Command) -> Access {
    match c {
        Command::Help | Command::Start | Command::Stop | Command::Debug | Command::Exception
        | Command::Unknown => Access::Nothing,
        Command::History => Access::Wait,
        _ => if is_bp(c) || is_run(c) {
            Access::Wait
        } else {
            Access::Try
        },
    }
}

/// How a command line gets at the processor.
pub open spec fn line_access(cmd: Seq<char>, args: Seq<Seq<char>>) -> Access {
    if cmd == "cpu"@ {
        if args.len() == 0 {
            Access::Nothing
        } else {
            access_needed(command_named(args[0]))
        }
    } else {
        access_needed(command_named(cmd))
    }
}

fn access_of(c: Command) -> (a: Access)
    ensures
        a == access_needed(c),
{
    match c {
        Command::Help | Command::Start | Command::Stop | Command::Debug | Command::Exception
        | Command::Unknown => Access::Nothing,
        Command::History | Command::Bp | Command::BpAdd | Command::BpDisable | Command::BpEnable
        | Command::BpDelete | Command::BpList | Command::Run | Command::Finish | Command::Step
        | Command::StepQuietly | Command::Next => Access::Wait,
        _ => Access::Try,
    }
}

/// How a command line gets at the processor.
pub fn command_access(cmd: &str, args: &[String]) -> (a: Access)
    ensures
        a == line_access(cmd@, words(args@)),
{
    if str_eq(cmd, "cpu") {
        if args.len() == 0 {
            return Access::Nothing;
        }
        return access_of(parse_command(args[0].as_str()));
    }
    access_of(parse_command(cmd))
}

impl Monitor {
    /// Executes a command line that does not get at the processor.
    pub fn execute_command(&mut self, cmd: &str, args: &[String], running: bool) -> (r: Reply)
        requires
            line_access(cmd@, words(args@)) == Access::Nothing,
        ensures
            if cmd@ == "cpu"@ {
                if args@.len() == 0 {
                    r@ == refused("Usage: cpu <command> [args...]"@) && *final(self) == *old(self)
                } else {
                    (r@, *final(self)) == old(self).setting_command(
                        command_named(args@[0]@),
                        args@[0]@,
                        words(args@).skip(1),
                        running,
                    )
                }
            } else {
                (r@, *final(self)) == old(self).setting_command(
                    command_named(cmd@),
                    cmd@,
                    words(args@),
                    running,
                )
            },
    {
        if str_eq(cmd, "cpu") {
            if args.len() == 0 {
                return Reply::refuse("Usage: cpu <command> [args...]");
            }
            let rest: &[String] = vstd::slice::slice_subrange(args, 1, args.len());
            assert(words(rest@) =~= words(args@).skip(1));
            let word: &str = args[0].as_str();
            return self.run_setting_command(parse_command(word), word, rest, running);
        }
        self.run_setting_command(parse_command(cmd), cmd, args, running)
    }
}

} // verus!

//! Settings of the debugger, and the commands that change them.
use vstd::prelude::*;
use vstd::string::StringExecFns;

use crate::bus::{BusDevice, MipsCache, Tlb};
use crate::command::{
    count_at, count_of, is_word, leaves, refused, said, word_is, words, Action, ActionView, End,
    EndView, JitQuery, Reply, ReplyView,
};
use crate::debug_loop::stops;
use crate::idle_report::{IdleReport, SampledPc};
use crate::lockstep::LockstepEnabled;
use crate::machine::{Machine, MipsExecutor};
use crate::parse::{number, parse_count, parse_dec};
use crate::status::{
    exception_status, law_status_words_carry_their_code, law_tags_and_bus_errors, tlb_miss_status,
    xtlb_miss_status,
};
use crate::text::{dec, hex_fixed, put, put_dec, put_hex_fixed};
use crate::tools::Tools;

verus! {

/// What the processor's log holds, as bits: instructions, TLB operations, uncached
/// accesses, floating-point operations.
pub const MIPS_LOG_INSN: u32 = 0x0001;

pub const MIPS_LOG_TLB: u32 = 0x0002;

pub const MIPS_LOG_MEM: u32 = 0x0004;

pub const MIPS_LOG_FPU: u32 = 0x0008;

/// Whether the log is on and holds what `bit` stands for.
pub fn mips_log(active: bool, mask: u32, bit: u32) -> (b: bool)
    ensures
        b == (active && mask & bit != 0),
{
    active && (mask & bit) != 0
}

/// Settings of the compiler of guest code.
#[derive(Clone, Copy, Debug, PartialEq, Eq, Structural)]
pub struct JitSettings {
    /// Code is compiled at once rather than by the queue.
    pub inline_compile: bool,
    /// Compiled code is run at all.
    pub dispatch: bool,
    /// The queue finishes several functions together.
    pub batch: bool,
    /// Code is optimised for speed.
    pub speed: bool,
    pub min_instrs: usize,
    pub min_calls: u64,
    pub lockstep: LockstepEnabled,
}

/// Settings of the debugger.
#[derive(Clone, Copy, Debug, PartialEq, Eq, Structural)]
pub struct Monitor {
    /// Executed instructions are shown.
    pub debug: bool,
    /// Exceptions that stop a run, by their codes.
    pub exception_mask: u32,
    pub jit: JitSettings,
}

/// The exceptions that a word names, as bits: a class, or a code.
pub open spec fn exception_class(w: Seq<char>) -> Option<u32> {
    if w == "all"@ {
        Some(0xFFFF_FFFF)
    } else if w == "int"@ {
        Some(0x0000_0001)
    } else if w == "tlb"@ {
        Some(0x0000_000E)
    } else if w == "addr"@ {
        Some(0x0000_0030)
    } else if w == "bus"@ {
        Some(0x0000_00C0)
    } else if w == "sys"@ {
        Some(0x0000_0300)
    } else if w == "ri"@ {
        Some(0x0000_0C00)
    } else if w == "arith"@ {
        Some(0x0000_B000)
    } else if w == "watch"@ {
        Some(0x0080_0000)
    } else if w == "vce"@ {
        Some(0x8000_4000)
    } else {
        match number(w, 10, u32::MAX as nat) {
            Some(code) => if code < 32 {
                Some(1u32 << (code as u32))
            } else {
                None
            },
            None => None,
        }
    }
}

/// `on` or `1`, `off` or `0`.
pub open spec fn switch(w: Seq<char>) -> Option<bool> {
    if w == "on"@ || w == "1"@ {
        Some(true)
    } else if w == "off"@ || w == "0"@ {
        Some(false)
    } else {
        None
    }
}

/// The mask with the exceptions `bits` switched on or off.
pub open spec fn switched(mask: u32, bits: u32, on: bool) -> u32 {
    if on {
        mask | bits
    } else {
        mask & !bits
    }
}

pub open spec fn on_off(b: bool) -> Seq<char> {
    if b {
        "on"@
    } else {
        "off"@
    }
}

/// A setting in words.
pub open spec fn setting(name: Seq<char>, value: Seq<char>) -> ReplyView {
    said(name + ": "@ + value + "\n"@)
}

/// The usage of the commands about compiled code.
pub open spec fn jit_usage() -> Seq<char> {
    "Usage: j2 <pcp|status|inline [on|off]|dispatch [on|off]|batch [on|off]|opt [none|speed]|min-instrs [N]|min-calls [N]|lockstep|hugepages>"@
}

impl Monitor {
    /// The command that says which exceptions stop a run.
    pub open spec fn exception_command(self, args: Seq<Seq<char>>) -> (ReplyView, Monitor) {
        if args.len() < 2 || switch(args[1]) is None {
            (refused("Usage: exception <class|code|all> <on|off>"@), self)
        } else {
            match exception_class(args[0]) {
                Some(bits) => {
                    let mask = switched(self.exception_mask, bits, switch(args[1])->0);
                    (
                        said("Exception mask set to "@ + hex_fixed(mask as nat, 8) + "\n"@),
                        Monitor { exception_mask: mask, ..self },
                    )
                },
                None => (
                    refused(
                        if number(args[0], 10, u32::MAX as nat) is Some {
                            "Invalid exception code"@
                        } else {
                            "Unknown exception class or code"@
                        },
                    ),
                    self,
                ),
            }
        }
    }

    /// The command that shows executed instructions, to the user or in a file.
    pub open spec fn debug_command(self, args: Seq<Seq<char>>) -> (ReplyView, Monitor) {
        if args.len() == 0 {
            (refused("Usage: debug <on|off|file> [filename]"@), self)
        } else if args[0] == "file"@ {
            if args.len() < 2 {
                (refused("Usage: debug file <filename>"@), self)
            } else {
                (leaves(ActionView::DebugFile(args[1])), self)
            }
        } else {
            match switch(args[0]) {
                Some(on) => (
                    ReplyView {
                        text: if on {
                            "CPU debug enabled (console output)\n"@
                        } else {
                            "CPU debug disabled\n"@
                        },
                        end: EndView::Left(ActionView::CloseTraceFile),
                    },
                    Monitor { debug: on, ..self },
                ),
                None => (refused("Usage: debug <on|off|file> [filename]"@), self),
            }
        }
    }

    /// The trace file was opened: instructions go there, and not to the user.
    pub open spec fn tracing_to_file(self) -> Monitor {
        Monitor { debug: false, ..self }
    }

    /// The commands about compiled code.
    pub open spec fn jit_command(self, args: Seq<Seq<char>>, running: bool) -> (ReplyView, Monitor) {
        if args.len() == 0 {
            (
                refused(
                    "Usage: j2 <pcp|status|inline|dispatch|batch|opt|min-instrs|min-calls|lockstep|flush>"@,
                ),
                self,
            )
        } else if args[0] == "flush"@ {
            (
                if running {
                    refused(
                        "j2 flush: stop the CPU first (`stop`) — flushing while it's running could race a concurrently-executing compiled function"@,
                    )
                } else {
                    leaves(ActionView::Jit(JitQuery::Flush))
                },
                self,
            )
        } else if args[0] == "pcp"@ {
            (leaves(ActionView::Jit(JitQuery::Page)), self)
        } else if args[0] == "stats"@ || args[0] == "status"@ {
            (leaves(ActionView::Jit(JitQuery::Status)), self)
        } else if args[0] == "hugepages"@ {
            (leaves(ActionView::Jit(JitQuery::HugePages)), self)
        } else {
            let (r, jit) = self.jit.changed(args);
            (r, Monitor { jit, ..self })
        }
    }
}

impl JitSettings {
    /// The settings at the start: compiled code is run, and it is compiled at once.
    pub open spec fn initial() -> JitSettings {
        JitSettings {
            inline_compile: true,
            dispatch: true,
            batch: true,
            speed: true,
            min_instrs: 1,
            min_calls: 0,
            lockstep: LockstepEnabled { alu: true, branch: true, load_store: true, fpu: true },
        }
    }

    /// The settings after the command `args`.
    pub open spec fn changed(self, args: Seq<Seq<char>>) -> (ReplyView, JitSettings) {
        if args[0] == "inline"@ {
            self.changed_inline(args)
        } else if args[0] == "dispatch"@ {
            self.changed_dispatch(args)
        } else if args[0] == "batch"@ {
            self.changed_batch(args)
        } else if args[0] == "opt"@ {
            self.changed_opt(args)
        } else if args[0] == "min-instrs"@ {
            self.changed_min_instrs(args)
        } else if args[0] == "min-calls"@ {
            self.changed_min_calls(args)
        } else if args[0] == "lockstep"@ {
            self.changed_lockstep(args)
        } else {
            (refused(jit_usage()), self)
        }
    }

    pub open spec fn changed_inline(self, args: Seq<Seq<char>>) -> (ReplyView, JitSettings) {
        if args.len() < 2 {
            (setting("j2 inline compile"@, on_off(self.inline_compile)), self)
        } else if args[1] == "on"@ {
            (
                leaves(ActionView::InlineCompile(true)),
                JitSettings { inline_compile: true, ..self },
            )
        } else if args[1] == "off"@ {
            (
                leaves(ActionView::InlineCompile(false)),
                JitSettings { inline_compile: false, ..self },
            )
        } else {
            (refused("Usage: j2 inline [on|off]"@), self)
        }
    }

    pub open spec fn changed_dispatch(self, args: Seq<Seq<char>>) -> (ReplyView, JitSettings) {
        if args.len() < 2 {
            (setting("j2 dispatch"@, on_off(self.dispatch)), self)
        } else if args[1] == "on"@ {
            (setting("j2 dispatch"@, "on"@), JitSettings { dispatch: true, ..self })
        } else if args[1] == "off"@ {
            (
                setting(
                    "j2 dispatch"@,
                    "off (real JIT dispatch gate skipped entirely, interpreter-only)"@,
                ),
                JitSettings { dispatch: false, ..self },
            )
        } else {
            (refused("Usage: j2 dispatch [on|off]"@), self)
        }
    }

    pub open spec fn changed_batch(self, args: Seq<Seq<char>>) -> (ReplyView, JitSettings) {
        if args.len() < 2 {
            (setting("j2 batch"@, on_off(self.batch)), self)
        } else if args[1] == "on"@ {
            (setting("j2 batch"@, "on"@), JitSettings { batch: true, ..self })
        } else if args[1] == "off"@ {
            (setting("j2 batch"@, "off"@), JitSettings { batch: false, ..self })
        } else {
            (refused("Usage: j2 batch [on|off]"@), self)
        }
    }

    pub open spec fn changed_opt(self, args: Seq<Seq<char>>) -> (ReplyView, JitSettings) {
        if args.len() < 2 {
            (
                setting(
                    "j2 opt"@,
                    if self.speed {
                        "speed"@
                    } else {
                        "none"@
                    },
                ),
                self,
            )
        } else if args[1] == "speed"@ {
            (
                setting("j2 opt"@, "speed (takes effect on the next flush/reset)"@),
                JitSettings { speed: true, ..self },
            )
        } else if args[1] == "none"@ {
            (
                setting("j2 opt"@, "none (takes effect on the next flush/reset)"@),
                JitSettings { speed: false, ..self },
            )
        } else {
            (refused("Usage: j2 opt [none|speed]"@), self)
        }
    }

    pub open spec fn changed_min_instrs(self, args: Seq<Seq<char>>) -> (ReplyView, JitSettings) {
        if args.len() < 2 {
            (setting("j2 min-instrs"@, dec(self.min_instrs as nat)), self)
        } else {
            match number(args[1], 10, usize::MAX as nat) {
                Some(n) => (
                    setting("j2 min-instrs"@, dec(n)),
                    JitSettings { min_instrs: n as usize, ..self },
                ),
                None => (refused("Usage: j2 min-instrs [N]"@), self),
            }
        }
    }

    pub open spec fn changed_min_calls(self, args: Seq<Seq<char>>) -> (ReplyView, JitSettings) {
        if args.len() < 2 {
            (setting("j2 min-calls"@, dec(self.min_calls as nat)), self)
        } else {
            match number(args[1], 10, u64::MAX as nat) {
                Some(n) => (
                    setting("j2 min-calls"@, dec(n)),
                    JitSettings { min_calls: n as u64, ..self },
                ),
                None => (refused("Usage: j2 min-calls [N]"@), self),
            }
        }
    }

    /// Whether the class called `w` is compared; nothing of what is no class.
    pub open spec fn lockstep_class(&self, w: Seq<char>) -> Option<bool> {
        if w == "alu"@ {
            Some(self.lockstep.alu)
        } else if w == "branch"@ {
            Some(self.lockstep.branch)
        } else if w == "loadstore"@ {
            Some(self.lockstep.load_store)
        } else if w == "fpu"@ {
            Some(self.lockstep.fpu)
        } else {
            None
        }
    }

    pub open spec fn with_lockstep_class(self, w: Seq<char>, on: bool) -> JitSettings {
        let l = self.lockstep;
        JitSettings {
            lockstep: if w == "alu"@ {
                LockstepEnabled { alu: on, ..l }
            } else if w == "branch"@ {
                LockstepEnabled { branch: on, ..l }
            } else if w == "loadstore"@ {
                LockstepEnabled { load_store: on, ..l }
            } else {
                LockstepEnabled { fpu: on, ..l }
            },
            ..self
        }
    }

    pub open spec fn changed_lockstep(self, args: Seq<Seq<char>>) -> (ReplyView, JitSettings) {
        let l = self.lockstep;
        if args.len() < 2 {
            (
                said(
                    "j2 lockstep: alu="@ + on_off(l.alu) + " branch="@ + on_off(l.branch)
                        + " loadstore="@ + on_off(l.load_store) + " fpu="@ + on_off(l.fpu) + "\n"@,
                ),
                self,
            )
        } else {
            let name = "j2 lockstep "@ + args[1];
            match self.lockstep_class(args[1]) {
                None => (
                    refused("Usage: j2 lockstep [<alu|branch|loadstore|fpu> [on|off]]"@),
                    self,
                ),
                Some(b) => if args.len() < 3 {
                    (setting(name, on_off(b)), self)
                } else if args[2] == "on"@ {
                    (setting(name, "on"@), self.with_lockstep_class(args[1], true))
                } else if args[2] == "off"@ {
                    (setting(name, "off"@), self.with_lockstep_class(args[1], false))
                } else {
                    (refused("Usage: j2 lockstep <alu|branch|loadstore|fpu> [on|off]"@), self)
                },
            }
        }
    }
}

fn on_off_text(b: bool) -> (s: &'static str)
    ensures
        s@ == on_off(b),
{
    if b {
        "on"
    } else {
        "off"
    }
}

fn show_setting(name: &str, value: &str) -> (r: Reply)
    ensures
        r@ == setting(name@, value@),
{
    let mut s: String = name.to_string();
    put(&mut s, ": ");
    put(&mut s, value);
    put(&mut s, "\n");
    Reply::say(s)
}

fn show_number(name: &str, n: u64) -> (r: Reply)
    ensures
        r@ == setting(name@, dec(n as nat)),
{
    let mut s: String = name.to_string();
    put(&mut s, ": ");
    put_dec(&mut s, n);
    put(&mut s, "\n");
    Reply::say(s)
}

fn switch_of(args: &[String], i: usize) -> (r: Option<bool>)
    requires
        i < args@.len(),
    ensures
        r == switch(args@[i as int]@),
{
    if is_word(args, i, "on") || is_word(args, i, "1") {
        Some(true)
    } else if is_word(args, i, "off") || is_word(args, i, "0") {
        Some(false)
    } else {
        None
    }
}

fn class_bits(args: &[String]) -> (r: Option<u32>)
    requires
        args@.len() > 0,
    ensures
        r == exception_class(args@[0]@),
{
    if is_word(args, 0, "all") {
        Some(0xFFFF_FFFF)
    } else if is_word(args, 0, "int") {
        Some(0x0000_0001)
    } else if is_word(args, 0, "tlb") {
        Some(0x0000_000E)
    } else if is_word(args, 0, "addr") {
        Some(0x0000_0030)
    } else if is_word(args, 0, "bus") {
        Some(0x0000_00C0)
    } else if is_word(args, 0, "sys") {
        Some(0x0000_0300)
    } else if is_word(args, 0, "ri") {
        Some(0x0000_0C00)
    } else if is_word(args, 0, "arith") {
        Some(0x0000_B000)
    } else if is_word(args, 0, "watch") {
        Some(0x0080_0000)
    } else if is_word(args, 0, "vce") {
        Some(0x8000_4000)
    } else {
        match parse_dec(args[0].as_str()) {
            Some(n) => if n < 32 {
                Some(1u32 << (n as u32))
            } else {
                None
            },
            None => None,
        }
    }
}

impl Default for JitSettings {
    fn default() -> (j: Self)
        ensures
            j == JitSettings::initial(),
    {
        JitSettings {
            inline_compile: true,
            dispatch: true,
            batch: true,
            speed: true,
            min_instrs: 1,
            min_calls: 0,
            lockstep: LockstepEnabled::default(),
        }
    }
}

impl Monitor {
    /// No exception stops a run, and instructions are not shown.
    pub fn new() -> (m: Self)
        ensures
            m == (Monitor { debug: false, exception_mask: 0, jit: JitSettings::initial() }),
    {
        Monitor { debug: false, exception_mask: 0, jit: JitSettings::default() }
    }

    /// Says which exceptions stop a run.
    pub fn cmd_exception(&mut self, args: &[String]) -> (r: Reply)
        ensures
            (r@, *final(self)) == old(self).exception_command(words(args@)),
    {
        if args.len() < 2 {
            return Reply::refuse("Usage: exception <class|code|all> <on|off>");
        }
        let on: bool = match switch_of(args, 1) {
            Some(b) => b,
            None => {
                return Reply::refuse("Usage: exception <class|code|all> <on|off>");
            },
        };
        let bits: u32 = match class_bits(args) {
            Some(b) => b,
            None => {
                let is_code: bool = match parse_dec(args[0].as_str()) {
                    Some(n) => n <= u32::MAX as u64,
                    None => false,
                };
                return Reply::refuse(
                    if is_code {
                        "Invalid exception code"
                    } else {
                        "Unknown exception class or code"
                    },
                );
            },
        };
        self.exception_mask =
        if on {
            self.exception_mask | bits
        } else {
            self.exception_mask & !bits
        };
        let mut s: String = "Exception mask set to ".to_string();
        put_hex_fixed(&mut s, self.exception_mask as u64, 8);
        put(&mut s, "\n");
        Reply::say(s)
    }

    /// Shows executed instructions, to the user or in a file.
    pub fn cmd_debug(&mut self, args: &[String]) -> (r: Reply)
        ensures
            (r@, *final(self)) == old(self).debug_command(words(args@)),
    {
        if args.len() == 0 {
            return Reply::refuse("Usage: debug <on|off|file> [filename]");
        }
        if is_word(args, 0, "file") {
            if args.len() < 2 {
                return Reply::refuse("Usage: debug file <filename>");
            }
            return Reply::leave(Action::DebugFile(args[1].as_str().to_string()));
        }
        match switch_of(args, 0) {
            Some(on) => {
                self.debug = on;
                Reply {
                    text: if on {
                        "CPU debug enabled (console output)\n".to_string()
                    } else {
                        "CPU debug disabled\n".to_string()
                    },
                    end: End::Left(Action::CloseTraceFile),
                }
            },
            None => Reply::refuse("Usage: debug <on|off|file> [filename]"),
        }
    }

    /// Instructions go to a file from now on, and not to the user.
    pub fn trace_to_file(&mut self)
        ensures
            *final(self) == old(self).tracing_to_file(),
    {
        self.debug = false;
    }

    /// The commands about compiled code.
    pub fn cmd_jit(&mut self, args: &[String], running: bool) -> (r: Reply)
        ensures
            (r@, *final(self)) == old(self).jit_command(words(args@), running),
    {
        if args.len() == 0 {
            return Reply::refuse(
                "Usage: j2 <pcp|status|inline|dispatch|batch|opt|min-instrs|min-calls|lockstep|flush>",
            );
        }
        if is_word(args, 0, "flush") {
            if running {
                return Reply::refuse(
                    "j2 flush: stop the CPU first (`stop`) — flushing while it's running could race a concurrently-executing compiled function",
                );
            }
            return Reply::leave(Action::Jit(JitQuery::Flush));
        }
        if is_word(args, 0, "pcp") {
            return Reply::leave(Action::Jit(JitQuery::Page));
        }
        if is_word(args, 0, "stats") || is_word(args, 0, "status") {
            return Reply::leave(Action::Jit(JitQuery::Status));
        }
        if is_word(args, 0, "hugepages") {
            return Reply::leave(Action::Jit(JitQuery::HugePages));
        }
        self.jit.change(args)
    }
}

impl JitSettings {
    /// Switches the use of compiled code, and says how it was.
    pub fn set_jitv2_dispatch_enabled(&mut self, enabled: bool) -> (was: bool)
        ensures
            was == old(self).dispatch,
            *final(self) == (JitSettings { dispatch: enabled, ..*old(self) }),
    {
        let was: bool = self.dispatch;
        self.dispatch = enabled;
        was
    }

    fn change(&mut self, args: &[String]) -> (r: Reply)
        requires
            args@.len() > 0,
        ensures
            (r@, *final(self)) == old(self).changed(words(args@)),
    {
        if is_word(args, 0, "inline") {
            self.change_inline(args)
        } else if is_word(args, 0, "dispatch") {
            self.change_dispatch(args)
        } else if is_word(args, 0, "batch") {
            self.change_batch(args)
        } else if is_word(args, 0, "opt") {
            self.change_opt(args)
        } else if is_word(args, 0, "min-instrs") {
            self.change_min_instrs(args)
        } else if is_word(args, 0, "min-calls") {
            self.change_min_calls(args)
        } else if is_word(args, 0, "lockstep") {
            self.change_lockstep(args)
        } else {
            Reply::refuse(
                "Usage: j2 <pcp|status|inline [on|off]|dispatch [on|off]|batch [on|off]|opt [none|speed]|min-instrs [N]|min-calls [N]|lockstep|hugepages>",
            )
        }
    }

    fn change_inline(&mut self, args: &[String]) -> (r: Reply)
        requires
            args@.len() > 0,
        ensures
            (r@, *final(self)) == old(self).changed_inline(words(args@)),
    {
        if args.len() < 2 {
            return show_setting("j2 inline compile", on_off_text(self.inline_compile));
        }
        if is_word(args, 1, "on") {
            self.inline_compile = true;
            return Reply::leave(Action::InlineCompile(true));
        }
        if is_word(args, 1, "off") {
            self.inline_compile = false;
            return Reply::leave(Action::InlineCompile(false));
        }
        Reply::refuse("Usage: j2 inline [on|off]")
    }

    fn change_dispatch(&mut self, args: &[String]) -> (r: Reply)
        requires
            args@.len() > 0,
        ensures
            (r@, *final(self)) == old(self).changed_dispatch(words(args@)),
    {
        if args.len() < 2 {
            return show_setting("j2 dispatch", on_off_text(self.dispatch));
        }
        if is_word(args, 1, "on") {
            self.dispatch = true;
            return show_setting("j2 dispatch", "on");
        }
        if is_word(args, 1, "off") {
            self.dispatch = false;
            return show_setting(
                "j2 dispatch",
                "off (real JIT dispatch gate skipped entirely, interpreter-only)",
            );
        }
        Reply::refuse("Usage: j2 dispatch [on|off]")
    }

    fn change_batch(&mut self, args: &[String]) -> (r: Reply)
        requires
            args@.len() > 0,
        ensures
            (r@, *final(self)) == old(self).changed_batch(words(args@)),
    {
        if args.len() < 2 {
            return show_setting("j2 batch", on_off_text(self.batch));
        }
        if is_word(args, 1, "on") {
            self.batch = true;
            return show_setting("j2 batch", "on");
        }
        if is_word(args, 1, "off") {
            self.batch = false;
            return show_setting("j2 batch", "off");
        }
        Reply::refuse("Usage: j2 batch [on|off]")
    }

    fn change_opt(&mut self, args: &[String]) -> (r: Reply)
        requires
            args@.len() > 0,
        ensures
            (r@, *final(self)) == old(self).changed_opt(words(args@)),
    {
        if args.len() < 2 {
            return show_setting(
                "j2 opt",
                if self.speed {
                    "speed"
                } else {
                    "none"
                },
            );
        }
        if is_word(args, 1, "speed") {
            self.speed = true;
            return show_setting("j2 opt", "speed (takes effect on the next flush/reset)");
        }
        if is_word(args, 1, "none") {
            self.speed = false;
            return show_setting("j2 opt", "none (takes effect on the next flush/reset)");
        }
        Reply::refuse("Usage: j2 opt [none|speed]")
    }

    fn change_min_instrs(&mut self, args: &[String]) -> (r: Reply)
        requires
            args@.len() > 0,
        ensures
            (r@, *final(self)) == old(self).changed_min_instrs(words(args@)),
    {
        if args.len() < 2 {
            return show_number("j2 min-instrs", self.min_instrs as u64);
        }
        match parse_count(args[1].as_str()) {
            Some(n) => {
                self.min_instrs = n;
                show_number("j2 min-instrs", n as u64)
            },
            None => Reply::refuse("Usage: j2 min-instrs [N]"),
        }
    }

    fn change_min_calls(&mut self, args: &[String]) -> (r: Reply)
        requires
            args@.len() > 0,
        ensures
            (r@, *final(self)) == old(self).changed_min_calls(words(args@)),
    {
        if args.len() < 2 {
            return show_number("j2 min-calls", self.min_calls);
        }
        match parse_dec(args[1].as_str()) {
            Some(n) => {
                self.min_calls = n;
                show_number("j2 min-calls", n)
            },
            None => Reply::refuse("Usage: j2 min-calls [N]"),
        }
    }

    fn set_lockstep_class(&mut self, args: &[String], on: bool)
        requires
            args@.len() > 1,
        ensures
            *final(self) == old(self).with_lockstep_class(args@[1]@, on),
    {
        if is_word(args, 1, "alu") {
            self.lockstep.alu = on;
        } else if is_word(args, 1, "branch") {
            self.lockstep.branch = on;
        } else if is_word(args, 1, "loadstore") {
            self.lockstep.load_store = on;
        } else {
            self.lockstep.fpu = on;
        }
    }

    fn change_lockstep(&mut self, args: &[String]) -> (r: Reply)
        requires
            args@.len() > 0,
        ensures
            (r@, *final(self)) == old(self).changed_lockstep(words(args@)),
    {
        if args.len() < 2 {
            let mut s: String = "j2 lockstep: alu=".to_string();
            put(&mut s, on_off_text(self.lockstep.alu));
            put(&mut s, " branch=");
            put(&mut s, on_off_text(self.lockstep.branch));
            put(&mut s, " loadstore=");
            put(&mut s, on_off_text(self.lockstep.load_store));
            put(&mut s, " fpu=");
            put(&mut s, on_off_text(self.lockstep.fpu));
            put(&mut s, "\n");
            return Reply::say(s);
        }
        let on: bool = if is_word(args, 1, "alu") {
            self.lockstep.alu
        } else if is_word(args, 1, "branch") {
            self.lockstep.branch
        } else if is_word(args, 1, "loadstore") {
            self.lockstep.load_store
        } else if is_word(args, 1, "fpu") {
            self.lockstep.fpu
        } else {
            return Reply::refuse("Usage: j2 lockstep [<alu|branch|loadstore|fpu> [on|off]]");
        };
        let mut name: String = "j2 lockstep ".to_string();
        put(&mut name, args[1].as_str());
        if args.len() < 3 {
            return show_setting(name.as_str(), on_off_text(on));
        }
        if is_word(args, 2, "on") {
            self.set_lockstep_class(args, true);
            return show_setting(name.as_str(), "on");
        }
        if is_word(args, 2, "off") {
            self.set_lockstep_class(args, false);
            return show_setting(name.as_str(), "off");
        }
        Reply::refuse("Usage: j2 lockstep <alu|branch|loadstore|fpu> [on|off]")
    }
}

impl<T: Tlb, C: MipsCache, B: BusDevice> Machine<T, C, B> {
    /// The idle profiler starts anew.
    pub open spec fn idle_armed(self) -> Self {
        self.with_tools(Tools { idle_on: true, idle_reset: true, ..self.tools })
    }

    pub open spec fn idle_disarmed(self) -> Self {
        self.with_tools(Tools { idle_on: false, ..self.tools })
    }

    /// `r` is the reply to the command about the idle profiler, and `m` the machine after
    /// it.
    pub open spec fn is_idle_result(self, args: Seq<Seq<char>>, r: ReplyView, m: Self) -> bool {
        if word_is(args, 0, "on"@) {
            &&& r == said(
                "idleprof: armed (lock-free, histogram reset). Let the guest idle, then `stop; idleprof report`.\n"@,
            )
            &&& m == self.idle_armed()
        } else if word_is(args, 0, "off"@) {
            r == said("idleprof: disarmed.\n"@) && m == self.idle_disarmed()
        } else if args.len() == 0 || args[0] == "report"@ {
            let top = count_at(args, 1, 32);
            &&& r.text.len() == 0
            &&& r.end matches EndView::Left(ActionView::Idle { report, top: t }) && t == top && {
                match report {
                    None => self.tools.idle.total == 0 && m == self,
                    Some(rep) => self.tools.idle.total != 0 && exists|s: Seq<SampledPc>| #[trigger]
                        self.is_report(rep, s, top) && m == self.after_looking(
                            s,
                            rep.rows@.len() as int,
                        ),
                }
            }
        } else {
            r == refused("Usage: idleprof <on | off | report [count]>"@) && m == self
        }
    }
}

impl<T: Tlb, C: MipsCache, B: BusDevice> MipsExecutor<T, C, B> {
    /// Starts the idle profiler anew.
    pub fn idle_profile_arm(&mut self)
        requires
            old(self).wf(),
        ensures
            final(self).wf(),
            final(self)@ == old(self)@.idle_armed(),
    {
        self.tools.idle_profile_reset = true;
        self.tools.idle_profile_on = true;
    }

    /// Stops the idle profiler; its samples stay.
    pub fn idle_profile_disarm(&mut self)
        requires
            old(self).wf(),
        ensures
            final(self).wf(),
            final(self)@ == old(self)@.idle_disarmed(),
    {
        self.tools.idle_profile_on = false;
    }

    /// Controls the idle profiler, and reports what it found.
    pub fn cmd_idle(&mut self, args: &[String]) -> (r: Reply)
        requires
            old(self).wf(),
        ensures
            final(self).wf(),
            old(self)@.is_idle_result(words(args@), r@, final(self)@),
    {
        if is_word(args, 0, "on") {
            self.idle_profile_arm();
            return Reply::tell(
                "idleprof: armed (lock-free, histogram reset). Let the guest idle, then `stop; idleprof report`.\n",
            );
        }
        if is_word(args, 0, "off") {
            self.idle_profile_disarm();
            return Reply::tell("idleprof: disarmed.\n");
        }
        if args.len() == 0 || is_word(args, 0, "report") {
            let top: usize = count_of(args, 1, 32);
            let report: Option<IdleReport> = self.idle_profile_report(top);
            return Reply::leave(Action::Idle { report, top });
        }
        Reply::refuse("Usage: idleprof <on | off | report [count]>")
    }
}

/// Law: an exception stops a run if and only if its code is in the mask, so that
/// switching a class on makes each of its exceptions stop a run, and switching it off
/// makes none of them.
pub proof fn law_exception_classes_stop_runs(mask: u32, bits: u32, code: u32, hit: Option<usize>)
    requires
        code < 32,
    ensures
        bits & (1u32 << code) != 0 ==> {
            &&& stops(exception_status(code), switched(mask, bits, true), hit) is Some
            &&& stops(tlb_miss_status(code), switched(mask, bits, true), hit) is Some
            &&& stops(xtlb_miss_status(code), switched(mask, bits, true), hit) is Some
            &&& stops(exception_status(code), switched(mask, bits, false), hit) is None
            &&& stops(tlb_miss_status(code), switched(mask, bits, false), hit) is None
            &&& stops(xtlb_miss_status(code), switched(mask, bits, false), hit) is None
        },
        bits & (1u32 << code) == 0 ==> forall|on: bool|
            {
                &&& stops(exception_status(code), #[trigger] switched(mask, bits, on), hit)
                    == stops(exception_status(code), mask, hit)
                &&& stops(tlb_miss_status(code), switched(mask, bits, on), hit) == stops(
                    tlb_miss_status(code),
                    mask,
                    hit,
                )
            },
{
    law_status_words_carry_their_code(code);
    law_tags_and_bus_errors();
    lemma_mask_bits(mask, bits, code);
}

proof fn lemma_mask_bits(mask: u32, bits: u32, code: u32)
    requires
        code < 32,
    ensures
        bits & (1u32 << code) != 0 ==> (mask | bits) & (1u32 << code) != 0,
        bits & (1u32 << code) != 0 ==> (mask & !bits) & (1u32 << code) == 0,
        bits & (1u32 << code) == 0 ==> (mask | bits) & (1u32 << code) == mask & (1u32 << code),
        bits & (1u32 << code) == 0 ==> (mask & !bits) & (1u32 << code) == mask & (1u32 << code),
{
    crate::bits::lemma_single_bits(mask, bits, code);
}

} // verus!

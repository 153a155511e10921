//! Commands that run the guest, and take its instructions back.
use vstd::prelude::*;
use vstd::string::StringExecFns;

use crate::breakpoints::{BpType, Breakpoint, BreakpointTable};
use crate::bus::{BusDevice, MipsCache, Tlb};
use crate::command::{
    count_at, count_of, is_word, leaves, line_views, refused, said, word_is, words, Action,
    ActionView, End, EndView, ListLine, ListLineView, Reply, ReplyView,
};
use crate::expr_parse::no_value;
use crate::frame::law_debugger_accesses_leave_no_trace;
use crate::instr::{is_call, is_call_instruction, operation};
use crate::machine::{Machine, MipsExecutor};
use crate::memory::fetched_word;
use crate::parse::{number, parse_count, parse_dec};
use crate::text::{dec, hex_fixed, put, put_dec, put_hex_fixed};
use crate::tools::Tools;
use crate::trace::TraceLog;
use crate::traceback::{tail, TracebackEntry, TRACEBACK_SIZE};
use crate::undo::UndoLog;
use crate::unwind::law_unwinding_leaves_no_trace;

verus! {

impl BreakpointTable {
    /// `t` is this table, with the first breakpoint set to end a run at `addr`.
    pub open spec fn is_temp_set(&self, t: BreakpointTable, addr: Option<u64>) -> bool {
        match addr {
            None => t == *self,
            Some(a) => {
                &&& t.next_bp_id == self.next_bp_id
                &&& t.breakpoints@ == if self.breakpoints@.len() > 0 {
                    self.breakpoints@.update(
                        0,
                        (Breakpoint {
                            id: self.breakpoints@[0].id,
                            addr: a,
                            kind: BpType::Pc,
                            enabled: true,
                            condition: None,
                        }),
                    )
                } else {
                    self.breakpoints@
                }
            },
        }
    }

    pub(crate) fn aim(&mut self, addr: Option<u64>)
        requires
            old(self).wf(),
            old(self).keeps_temp(),
        ensures
            final(self).wf(),
            final(self).keeps_temp(),
            old(self).is_temp_set(*final(self), addr),
    {
        if let Some(a) = addr {
            self.set_temp_breakpoint(a);
        }
    }
}

/// A run as a command asks for it.
pub struct RunPlan<T: Tlb, C: MipsCache, B: BusDevice> {
    pub reply: ReplyView,
    /// Where the run is to end.
    pub until: Option<u64>,
    /// The machine before the breakpoint at that place is set.
    pub machine: Machine<T, C, B>,
}

impl<T: Tlb, C: MipsCache, B: BusDevice> RunPlan<T, C, B> {
    /// `r` and `m` are what the plan comes to.
    pub open spec fn is_result(self, r: ReplyView, m: Machine<T, C, B>) -> bool {
        &&& r == self.reply
        &&& self.machine.bps.is_temp_set(m.bps, self.until)
        &&& m == (Machine { bps: m.bps, ..self.machine })
    }
}

/// The words after `block`, if that is the first.
pub open spec fn past_block(args: Seq<Seq<char>>) -> Seq<Seq<char>> {
    if word_is(args, 0, "block"@) {
        args.skip(1)
    } else {
        args
    }
}

/// A run of `count` instructions that is waited for.
pub open spec fn stepping(count: Option<usize>, no_interrupts: bool) -> ReplyView {
    leaves(
        ActionView::Run { count, wait: true, no_interrupts, announce: None, shown: None },
    )
}

impl<T: Tlb, C: MipsCache, B: BusDevice> Machine<T, C, B> {
    /// Nothing runs.
    pub open spec fn no_run(self, reply: ReplyView) -> RunPlan<T, C, B> {
        RunPlan { reply, until: None, machine: self }
    }

    /// The command that runs, up to an address if one is given, in the background unless
    /// it is told to block.
    pub open spec fn cmd_run(self, args: Seq<Seq<char>>) -> RunPlan<T, C, B> {
        let wait = word_is(args, 0, "block"@);
        let rest = past_block(args);
        if rest.len() == 0 {
            self.no_run(
                leaves(
                    ActionView::Run {
                        count: None,
                        wait,
                        no_interrupts: false,
                        announce: None,
                        shown: None,
                    },
                ),
            )
        } else {
            match self.value_of(rest[0]) {
                None => self.no_run(refused(no_value(rest[0]))),
                Some(pc) => RunPlan {
                    reply: leaves(
                        ActionView::Run {
                            count: None,
                            wait,
                            no_interrupts: false,
                            announce: Some(pc),
                            shown: None,
                        },
                    ),
                    until: Some(pc),
                    machine: self,
                },
            }
        }
    }

    /// The command that runs to the end of the current function.
    pub open spec fn cmd_finish(self) -> RunPlan<T, C, B> {
        let (addr, m) = self.return_address();
        RunPlan { reply: stepping(None, false), until: Some(addr), machine: m }
    }

    /// The command that steps: so many instructions, or up to an address.
    pub open spec fn cmd_step(self, args: Seq<Seq<char>>, no_interrupts: bool) -> RunPlan<T, C, B> {
        let rest = past_block(args);
        if rest.len() == 0 {
            self.no_run(stepping(Some(1), no_interrupts))
        } else {
            match number(rest[0], 10, usize::MAX as nat) {
                Some(n) => self.no_run(stepping(Some(n as usize), no_interrupts)),
                None => match self.value_of(rest[0]) {
                    None => self.no_run(refused(no_value(rest[0]))),
                    Some(pc) => RunPlan {
                        reply: stepping(None, no_interrupts),
                        until: Some(pc),
                        machine: self,
                    },
                },
            }
        }
    }

    /// The command that steps over calls.
    pub open spec fn cmd_next(self, args: Seq<Seq<char>>) -> RunPlan<T, C, B> {
        let rest = past_block(args);
        let warned = rest.len() > 0 && (number(rest[0], 10, i32::MAX as nat) matches Some(n) && n
            > 1);
        let text = if warned {
            "Warning: 'next' with count > 1 is not fully supported, executing once.\n"@
        } else {
            Seq::empty()
        };
        let pc = self.core.pc;
        let (f, m) = self.fetch(true, pc);
        if fetched_word(f) matches Ok(w) && is_call(operation(w)) {
            let (f2, m2) = m.fetch(true, pc);
            RunPlan {
                reply: ReplyView {
                    text,
                    end: EndView::Left(
                        ActionView::Run {
                            count: None,
                            wait: true,
                            no_interrupts: false,
                            announce: None,
                            shown: match fetched_word(f2) {
                                Ok(w2) => Some((pc, w2)),
                                Err(_) => None,
                            },
                        },
                    ),
                },
                until: Some(pc.wrapping_add(8)),
                machine: m2,
            }
        } else {
            m.no_run(
                ReplyView {
                    text,
                    end: EndView::Left(
                        ActionView::Run {
                            count: Some(1),
                            wait: true,
                            no_interrupts: false,
                            announce: None,
                            shown: None,
                        },
                    ),
                },
            )
        }
    }

    /// The command that takes instructions back, and controls the undo buffer.
    pub open spec fn cmd_undo(self, args: Seq<Seq<char>>) -> (ReplyView, Self) {
        let u = self.tools.undo;
        let n = count_at(args, 0, 1);
        if word_is(args, 0, "on"@) {
            (said("CPU undo buffer enabled\n"@), self.with_undo(UndoLog { enabled: true, ..u }))
        } else if word_is(args, 0, "off"@) {
            (said("CPU undo buffer disabled\n"@), self.with_undo(UndoLog { enabled: false, ..u }))
        } else if word_is(args, 0, "clear"@) {
            (
                said("CPU undo buffer cleared\n"@),
                self.with_undo(UndoLog { entries: Seq::empty(), ..u }),
            )
        } else if word_is(args, 0, "resize"@) {
            if args.len() < 2 || number(args[1], 10, usize::MAX as nat) is None {
                (refused("Usage: undo resize <capacity>"@), self)
            } else {
                let wanted = number(args[1], 10, usize::MAX as nat)->0;
                let capacity = if wanted > u.capacity {
                    wanted
                } else {
                    u.capacity
                };
                (
                    said(
                        "CPU undo buffer capacity: "@ + dec(u.capacity) + " -> "@ + dec(capacity)
                            + "\n"@,
                    ),
                    self.with_undo(UndoLog { capacity, ..u }),
                )
            }
        } else if !u.enabled || n > u.entries.len() {
            (
                refused(
                    "Cannot undo "@ + dec(n as nat) + " steps (only "@ + dec(u.entries.len())
                        + " available)"@,
                ),
                self,
            )
        } else if n == 0 {
            (refused("Failed to retrieve undo snapshot"@), self)
        } else {
            let m = self.undone(n as nat);
            (
                said(
                    "Undid "@ + dec(n as nat) + " instruction(s), PC now at "@ + hex_fixed(
                        m.core.pc as nat,
                        16,
                    ) + "\n"@,
                ),
                m,
            )
        }
    }

    /// The command that records the execution.
    pub open spec fn cmd_trace(self, args: Seq<Seq<char>>) -> (ReplyView, Self) {
        if args.len() == 0 {
            (refused("Usage: trace <start|stop|status>"@), self)
        } else if args[0] == "start"@ {
            if args.len() < 2 {
                (refused("Usage: trace start <path>"@), self)
            } else {
                (leaves(ActionView::TraceStart(args[1])), self)
            }
        } else if args[0] == "stop"@ {
            let log = match self.tools.recording_trace {
                Some(log) => log,
                None => TraceLog::empty(),
            };
            (
                leaves(ActionView::TraceStop { records: log.count, bytes: log.out }),
                self.with_tools(Tools { recording_trace: None, ..self.tools }),
            )
        } else if args[0] == "status"@ {
            (
                said(
                    if self.tools.recording_trace is Some {
                        "recording: true\n"@
                    } else {
                        "recording: false\n"@
                    },
                ),
                self,
            )
        } else {
            (refused("Usage: trace <start|stop|status>"@), self)
        }
    }

    /// The lines of the last `n` executed instructions.
    pub open spec fn history_lines(&self, n: usize) -> Seq<ListLineView> {
        let e = tail(
            self.tools.trace,
            if n < TRACEBACK_SIZE {
                n as nat
            } else {
                TRACEBACK_SIZE as nat
            },
        );
        seq![
            ListLineView::Text(
                "Execution Traceback (last "@ + dec(e.len()) + " instructions):"@,
            ),
        ] + Seq::new(e.len(), |i: int| ListLineView::Instr { pc: e[i].pc, instr: e[i].instr })
    }

    /// The command that lists the last instructions, or writes them to a file.
    pub open spec fn cmd_history(&self, args: Seq<Seq<char>>) -> ReplyView {
        if word_is(args, 0, "file"@) {
            leaves(
                ActionView::Listing {
                    lines: self.history_lines(count_at(args, 2, TRACEBACK_SIZE)),
                    path: Some(
                        if args.len() > 1 {
                            args[1]
                        } else {
                            "/tmp/iris_trace.txt"@
                        },
                    ),
                },
            )
        } else {
            leaves(
                ActionView::Listing { lines: self.history_lines(count_at(args, 0, 10)), path: None },
            )
        }
    }
}

fn rest_of(args: &[String]) -> (r: &[String])
    ensures
        words(r@) == past_block(words(args@)),
{
    if is_word(args, 0, "block") {
        let r: &[String] = vstd::slice::slice_subrange(args, 1, args.len());
        assert(words(r@) =~= words(args@).skip(1));
        r
    } else {
        args
    }
}

impl<T: Tlb, C: MipsCache, B: BusDevice> MipsExecutor<T, C, B> {
    /// Runs, up to an address if one is given.
    pub fn cmd_run(&mut self, args: &[String]) -> (r: Reply)
        requires
            old(self).wf(),
            old(self).bps.wf(),
            old(self).bps.keeps_temp(),
        ensures
            final(self).wf(),
            final(self).bps.wf(),
            final(self).bps.keeps_temp(),
            old(self)@.cmd_run(words(args@)).is_result(r@, final(self)@),
    {
        let wait: bool = is_word(args, 0, "block");
        let rest: &[String] = rest_of(args);
        let mut until: Option<u64> = None;
        assert(words(rest@).len() == rest@.len());
        if rest.len() > 0 {
            assert(words(rest@)[0] == rest@[0]@);
            until = match self.argument(&rest[0]) {
                Ok(v) => Some(v),
                Err(r) => {
                    return r;
                },
            };
        }
        self.bps.aim(until);
        Reply::leave(
            Action::Run { count: None, wait, no_interrupts: false, announce: until, shown: None },
        )
    }

    /// Runs to the end of the current function.
    pub fn cmd_finish(&mut self) -> (r: Reply)
        requires
            old(self).wf(),
            old(self).bps.wf(),
            old(self).bps.keeps_temp(),
        ensures
            final(self).wf(),
            final(self).bps.wf(),
            final(self).bps.keeps_temp(),
            old(self)@.cmd_finish().is_result(r@, final(self)@),
    {
        proof {
            law_unwinding_leaves_no_trace(self@, 0);
        }
        match self.get_return_address() {
            Some(addr) => {
                self.bps.aim(Some(addr));
                Reply::leave(
                    Action::Run {
                        count: None,
                        wait: true,
                        no_interrupts: false,
                        announce: None,
                        shown: None,
                    },
                )
            },
            None => Reply::refuse("Could not determine return address"),
        }
    }

    /// Steps, so many instructions or up to an address.
    pub fn cmd_step(&mut self, args: &[String], no_interrupts: bool) -> (r: Reply)
        requires
            old(self).wf(),
            old(self).bps.wf(),
            old(self).bps.keeps_temp(),
        ensures
            final(self).wf(),
            final(self).bps.wf(),
            final(self).bps.keeps_temp(),
            old(self)@.cmd_step(words(args@), no_interrupts).is_result(r@, final(self)@),
    {
        let rest: &[String] = rest_of(args);
        let mut count: Option<usize> = Some(1);
        let mut until: Option<u64> = None;
        assert(words(rest@).len() == rest@.len());
        if rest.len() > 0 {
            assert(words(rest@)[0] == rest@[0]@);
            match parse_count(rest[0].as_str()) {
                Some(n) => {
                    count = Some(n);
                },
                None => {
                    until = match self.argument(&rest[0]) {
                        Ok(v) => Some(v),
                        Err(r) => {
                            return r;
                        },
                    };
                    count = None;
                },
            }
        }
        self.bps.aim(until);
        Reply::leave(
            Action::Run { count, wait: true, no_interrupts, announce: None, shown: None },
        )
    }

    /// Steps over calls.
    pub fn cmd_next(&mut self, args: &[String]) -> (r: Reply)
        requires
            old(self).wf(),
            old(self).bps.wf(),
            old(self).bps.keeps_temp(),
        ensures
            final(self).wf(),
            final(self).bps.wf(),
            final(self).bps.keeps_temp(),
            old(self)@.cmd_next(words(args@)).is_result(r@, final(self)@),
    {
        let rest: &[String] = rest_of(args);
        let mut text: String = String::new();
        assert(text@ =~= Seq::<char>::empty());
        assert(words(rest@).len() == rest@.len());
        if rest.len() > 0 {
            assert(words(rest@)[0] == rest@[0]@);
            if let Some(n) = parse_dec(rest[0].as_str()) {
                if n > 1 && n <= i32::MAX as u64 {
                    text =
                    "Warning: 'next' with count > 1 is not fully supported, executing once.\n".to_string();
                }
            }
        }
        let pc: u64 = self.core.pc;
        proof {
            law_debugger_accesses_leave_no_trace(self@, pc, 4, 0);
            law_debugger_accesses_leave_no_trace(self@.fetch(true, pc).1, pc, 4, 0);
        }
        let call: bool = match self.debug_fetch_instr(pc) {
            Ok(w) => is_call_instruction(w),
            Err(_) => false,
        };
        if call {
            let shown: Option<(u64, u32)> = match self.debug_fetch_instr(pc) {
                Ok(w) => Some((pc, w)),
                Err(_) => None,
            };
            self.bps.aim(Some(pc.wrapping_add(8)));
            Reply {
                text,
                end: End::Left(
                    Action::Run {
                        count: None,
                        wait: true,
                        no_interrupts: false,
                        announce: None,
                        shown,
                    },
                ),
            }
        } else {
            Reply {
                text,
                end: End::Left(
                    Action::Run {
                        count: Some(1),
                        wait: true,
                        no_interrupts: false,
                        announce: None,
                        shown: None,
                    },
                ),
            }
        }
    }

    /// Takes instructions back, and controls the undo buffer.
    pub fn cmd_undo(&mut self, args: &[String]) -> (r: Reply)
        requires
            old(self).wf(),
        ensures
            final(self).wf(),
            (r@, final(self)@) == old(self)@.cmd_undo(words(args@)),
    {
        if is_word(args, 0, "on") {
            self.tools.undo_buffer.enable();
            return Reply::tell("CPU undo buffer enabled\n");
        }
        if is_word(args, 0, "off") {
            self.tools.undo_buffer.disable();
            return Reply::tell("CPU undo buffer disabled\n");
        }
        if is_word(args, 0, "clear") {
            self.tools.undo_buffer.clear();
            return Reply::tell("CPU undo buffer cleared\n");
        }
        if is_word(args, 0, "resize") {
            return self.cmd_undo_resize(args);
        }
        let n: usize = count_of(args, 0, 1);
        if !self.tools.undo_buffer.can_undo(n) {
            let mut s: String = "Cannot undo ".to_string();
            put_dec(&mut s, n as u64);
            put(&mut s, " steps (only ");
            put_dec(&mut s, self.tools.undo_buffer.count as u64);
            put(&mut s, " available)");
            return Reply::fail(s);
        }
        if !self.undo(n) {
            return Reply::refuse("Failed to retrieve undo snapshot");
        }
        let mut s: String = "Undid ".to_string();
        put_dec(&mut s, n as u64);
        put(&mut s, " instruction(s), PC now at ");
        put_hex_fixed(&mut s, self.core.pc, 16);
        put(&mut s, "\n");
        Reply::say(s)
    }

    fn cmd_undo_resize(&mut self, args: &[String]) -> (r: Reply)
        requires
            old(self).wf(),
            word_is(words(args@), 0, "resize"@),
        ensures
            final(self).wf(),
            (r@, final(self)@) == old(self)@.cmd_undo(words(args@)),
    {
        proof {
            reveal_strlit("resize");
            reveal_strlit("on");
            reveal_strlit("off");
            reveal_strlit("clear");
            assert("resize"@[0] == 'r' && "on"@[0] == 'o' && "off"@[0] == 'o' && "clear"@[0]
                == 'c');
        }
        if args.len() < 2 {
            return Reply::refuse("Usage: undo resize <capacity>");
        }
        let wanted: usize = match parse_count(args[1].as_str()) {
            Some(n) => n,
            None => {
                return Reply::refuse("Usage: undo resize <capacity>");
            },
        };
        let before: usize = self.tools.undo_buffer.capacity();
        self.tools.undo_buffer.resize(wanted);
        let mut s: String = "CPU undo buffer capacity: ".to_string();
        put_dec(&mut s, before as u64);
        put(&mut s, " -> ");
        put_dec(&mut s, self.tools.undo_buffer.capacity() as u64);
        put(&mut s, "\n");
        Reply::say(s)
    }

    /// Records the execution.
    pub fn cmd_trace(&mut self, args: &[String]) -> (r: Reply)
        requires
            old(self).wf(),
        ensures
            final(self).wf(),
            (r@, final(self)@) == old(self)@.cmd_trace(words(args@)),
    {
        if is_word(args, 0, "start") {
            if args.len() < 2 {
                return Reply::refuse("Usage: trace start <path>");
            }
            return Reply::leave(Action::TraceStart(args[1].as_str().to_string()));
        }
        if is_word(args, 0, "stop") {
            let (bytes, records): (Vec<u8>, u64) = self.tools.trace_stop();
            return Reply::leave(Action::TraceStop { records, bytes });
        }
        if is_word(args, 0, "status") {
            return Reply::tell(
                if self.tools.trace_active() {
                    "recording: true\n"
                } else {
                    "recording: false\n"
                },
            );
        }
        Reply::refuse("Usage: trace <start|stop|status>")
    }

    fn list_history(&self, n: usize) -> (lines: Vec<ListLine>)
        requires
            self.wf(),
        ensures
            line_views(lines@) == self@.history_lines(n),
    {
        let count: usize = if n < TRACEBACK_SIZE {
            n
        } else {
            TRACEBACK_SIZE
        };
        let e: Vec<TracebackEntry> = self.tools.traceback.get_last(count);
        let mut s: String = "Execution Traceback (last ".to_string();
        put_dec(&mut s, e.len() as u64);
        put(&mut s, " instructions):");
        let mut lines: Vec<ListLine> = Vec::new();
        let ghost head = s@;
        lines.push(ListLine::Text(s));
        let mut i: usize = 0;
        while i < e.len()
            invariant
                i <= e@.len(),
                lines@.len() == i + 1,
                lines@[0]@ == ListLineView::Text(head),
                forall|j: int|
                    0 <= j < i ==> (#[trigger] lines@[j + 1])@ == (ListLineView::Instr {
                        pc: e@[j].pc,
                        instr: e@[j].instr,
                    }),
            decreases e@.len() - i,
        {
            lines.push(ListLine::Instr { pc: e[i].pc, instr: e[i].instr });
            i = i + 1;
        }
        proof {
            let v = self@.history_lines(n);
            assert forall|k: int| 0 <= k < v.len() implies line_views(lines@)[k] == #[trigger] v[k] by {
                if k > 0 {
                    assert(lines@[(k - 1) + 1]@ == (ListLineView::Instr {
                        pc: e@[k - 1].pc,
                        instr: e@[k - 1].instr,
                    }));
                }
            }
            assert(line_views(lines@) =~= v);
        }
        lines
    }

    /// Lists the last instructions.
    pub fn cmd_history(&self, args: &[String]) -> (r: Reply)
        requires
            self.wf(),
        ensures
            r@ == self@.cmd_history(words(args@)),
    {
        if is_word(args, 0, "file") {
            let path: String = if args.len() > 1 {
                args[1].as_str().to_string()
            } else {
                "/tmp/iris_trace.txt".to_string()
            };
            let lines: Vec<ListLine> = self.list_history(count_of(args, 2, TRACEBACK_SIZE));
            return Reply::leave(Action::Listing { lines, path: Some(path) });
        }
        let lines: Vec<ListLine> = self.list_history(count_of(args, 0, 10));
        Reply::leave(Action::Listing { lines, path: None })
    }
}

} // verus!

//! The debugger's commands: their arguments, and the forms of their replies.
use vstd::prelude::*;
use vstd::string::StringExecFns;

use crate::bus::{BusDevice, MipsCache, Tlb};
use crate::expr_parse::{evaluated, no_value, parse_cpu_arg};
use crate::idle_report::IdleReport;
use crate::machine::{Machine, MipsExecutor};
use crate::parse::{number, parse_count, parse_dec};
use crate::text::{put, str_eq};

verus! {

/// The words of a command line.
pub open spec fn words(v: Seq<String>) -> Seq<Seq<char>> {
    Seq::new(v.len(), |i: int| v[i]@)
}

/// One line of a listing.
pub enum ListLine {
    Text(String),
    /// An instruction, to be shown with its disassembly.
    Instr { pc: u64, instr: u32 },
}

pub enum ListLineView {
    Text(Seq<char>),
    Instr { pc: u64, instr: u32 },
}

impl View for ListLine {
    type V = ListLineView;

    open spec fn view(&self) -> ListLineView {
        match self {
            ListLine::Text(s) => ListLineView::Text(s@),
            ListLine::Instr { pc, instr } => ListLineView::Instr { pc: *pc, instr: *instr },
        }
    }
}

pub open spec fn line_views(v: Seq<ListLine>) -> Seq<ListLineView> {
    Seq::new(v.len(), |i: int| v[i]@)
}

/// A question about compiled code.
#[derive(Clone, Copy, Debug, PartialEq, Eq, Structural)]
pub enum JitQuery {
    /// The page of the program counter.
    Page,
    Status,
    Flush,
    HugePages,
}

/// What is left to do for a command beyond the processor's own state.
pub enum Action {
    Start,
    Stop,
    /// Run under the debugger, after the address that ends the run has been announced
    /// and an instruction has been shown.
    Run {
        count: Option<usize>,
        wait: bool,
        no_interrupts: bool,
        announce: Option<u64>,
        shown: Option<(u64, u32)>,
    },
    LoadSymbols(String),
    /// Open a file for the instruction trace.
    DebugFile(String),
    /// Close the file of the instruction trace.
    CloseTraceFile,
    TraceStart(String),
    /// Keep the trace that was recorded; its records are counted.
    TraceStop { records: u64, bytes: Vec<u8> },
    Listing { lines: Vec<ListLine>, path: Option<String> },
    /// The idle profiler's report.
    Idle { report: Option<IdleReport>, top: usize },
    /// Show a frequency, and the text after it.
    Frequency { hz: u64, rest: String },
    /// Show the floating-point registers, and the text after them.
    FloatRegisters { fpr: [u64; 32], rest: String },
    /// Compile at once, or with the queue.
    InlineCompile(bool),
    Jit(JitQuery),
}

pub enum ActionView {
    Start,
    Stop,
    Run {
        count: Option<usize>,
        wait: bool,
        no_interrupts: bool,
        announce: Option<u64>,
        shown: Option<(u64, u32)>,
    },
    LoadSymbols(Seq<char>),
    DebugFile(Seq<char>),
    CloseTraceFile,
    TraceStart(Seq<char>),
    TraceStop { records: u64, bytes: Seq<u8> },
    Listing { lines: Seq<ListLineView>, path: Option<Seq<char>> },
    Idle { report: Option<IdleReport>, top: usize },
    Frequency { hz: u64, rest: Seq<char> },
    FloatRegisters { fpr: [u64; 32], rest: Seq<char> },
    InlineCompile(bool),
    Jit(JitQuery),
}

impl View for Action {
    type V = ActionView;

    open spec fn view(&self) -> ActionView {
        match self {
            Action::Start => ActionView::Start,
            Action::Stop => ActionView::Stop,
            Action::Run { count, wait, no_interrupts, announce, shown } => ActionView::Run {
                count: *count,
                wait: *wait,
                no_interrupts: *no_interrupts,
                announce: *announce,
                shown: *shown,
            },
            Action::LoadSymbols(s) => ActionView::LoadSymbols(s@),
            Action::DebugFile(s) => ActionView::DebugFile(s@),
            Action::CloseTraceFile => ActionView::CloseTraceFile,
            Action::TraceStart(s) => ActionView::TraceStart(s@),
            Action::TraceStop { records, bytes } => ActionView::TraceStop {
                records: *records,
                bytes: bytes@,
            },
            Action::Listing { lines, path } => ActionView::Listing {
                lines: line_views(lines@),
                path: match path {
                    Some(p) => Some(p@),
                    None => None,
                },
            },
            Action::Idle { report, top } => ActionView::Idle { report: *report, top: *top },
            Action::Frequency { hz, rest } => ActionView::Frequency { hz: *hz, rest: rest@ },
            Action::FloatRegisters { fpr, rest } => ActionView::FloatRegisters {
                fpr: *fpr,
                rest: rest@,
            },
            Action::InlineCompile(b) => ActionView::InlineCompile(*b),
            Action::Jit(q) => ActionView::Jit(*q),
        }
    }
}

/// How a command ends.
pub enum End {
    Done,
    Failed(String),
    Left(Action),
}

pub enum EndView {
    Done,
    Failed(Seq<char>),
    Left(ActionView),
}

/// What a command says, and how it ends.
pub struct Reply {
    pub text: String,
    pub end: End,
}

pub struct ReplyView {
    pub text: Seq<char>,
    pub end: EndView,
}

impl View for Reply {
    type V = ReplyView;

    open spec fn view(&self) -> ReplyView {
        ReplyView {
            text: self.text@,
            end: match self.end {
                End::Done => EndView::Done,
                End::Failed(s) => EndView::Failed(s@),
                End::Left(a) => EndView::Left(a@),
            },
        }
    }
}

/// The command is done and says `text`.
pub open spec fn said(text: Seq<char>) -> ReplyView {
    ReplyView { text, end: EndView::Done }
}

/// The command failed for the reason `text`.
pub open spec fn refused(text: Seq<char>) -> ReplyView {
    ReplyView { text: Seq::empty(), end: EndView::Failed(text) }
}

/// Something is left to do.
pub open spec fn leaves(a: ActionView) -> ReplyView {
    ReplyView { text: Seq::empty(), end: EndView::Left(a) }
}

impl Reply {
    pub fn say(text: String) -> (r: Reply)
        ensures
            r@ == said(text@),
    {
        Reply { text, end: End::Done }
    }

    pub fn tell(text: &str) -> (r: Reply)
        ensures
            r@ == said(text@),
    {
        Reply { text: text.to_string(), end: End::Done }
    }

    pub fn refuse(text: &str) -> (r: Reply)
        ensures
            r@ == refused(text@),
    {
        let t: String = String::new();
        assert(t@ =~= Seq::<char>::empty());
        Reply { text: t, end: End::Failed(text.to_string()) }
    }

    pub fn fail(text: String) -> (r: Reply)
        ensures
            r@ == refused(text@),
    {
        let t: String = String::new();
        assert(t@ =~= Seq::<char>::empty());
        Reply { text: t, end: End::Failed(text) }
    }

    pub fn leave(a: Action) -> (r: Reply)
        ensures
            r@ == leaves(a@),
    {
        let t: String = String::new();
        assert(t@ =~= Seq::<char>::empty());
        Reply { text: t, end: End::Left(a) }
    }
}

/// Whether word `i` is there and is `w`.
pub open spec fn word_is(args: Seq<Seq<char>>, i: int, w: Seq<char>) -> bool {
    i < args.len() && args[i] == w
}

/// The words, each followed by a space but for the last.
pub open spec fn joined(args: Seq<Seq<char>>) -> Seq<char>
    decreases args.len(),
{
    if args.len() == 0 {
        Seq::empty()
    } else if args.len() == 1 {
        args[0]
    } else {
        joined(args.drop_last()) + " "@ + args.last()
    }
}

/// The count in word `i`, or `default` where there is none.
pub open spec fn count_at(args: Seq<Seq<char>>, i: int, default: usize) -> usize {
    if i < args.len() {
        match number(args[i], 10, usize::MAX as nat) {
            Some(n) => n as usize,
            None => default,
        }
    } else {
        default
    }
}

/// The number in word `i`, or `default` where there is none.
pub open spec fn number_at(args: Seq<Seq<char>>, i: int, default: u64) -> u64 {
    if i < args.len() {
        match number(args[i], 10, u64::MAX as nat) {
            Some(n) => n as u64,
            None => default,
        }
    } else {
        default
    }
}

/// Whether word `i` is `w`.
pub fn is_word(args: &[String], i: usize, w: &str) -> (b: bool)
    ensures
        b == word_is(words(args@), i as int, w@),
{
    i < args.len() && str_eq(args[i].as_str(), w)
}

pub fn count_of(args: &[String], i: usize, default: usize) -> (n: usize)
    ensures
        n == count_at(words(args@), i as int, default),
{
    if i < args.len() {
        match parse_count(args[i].as_str()) {
            Some(n) => n,
            None => default,
        }
    } else {
        default
    }
}

pub fn number_of(args: &[String], i: usize, default: u64) -> (n: u64)
    ensures
        n == number_at(words(args@), i as int, default),
{
    if i < args.len() {
        match parse_dec(args[i].as_str()) {
            Some(n) => n,
            None => default,
        }
    } else {
        default
    }
}

/// The words from `i` on as one text.
pub fn join_from(args: &[String], i: usize) -> (s: String)
    requires
        i <= args@.len(),
    ensures
        s@ == joined(words(args@).skip(i as int)),
{
    let mut s: String = String::new();
    let mut j: usize = i;
    let ghost all = words(args@).skip(i as int);
    assert(s@ =~= joined(all.take(0)));
    while j < args.len()
        invariant
            i <= j <= args@.len(),
            all == words(args@).skip(i as int),
            s@ == joined(all.take(j - i)),
        decreases args@.len() - j,
    {
        let ghost before = s@;
        if j > i {
            put(&mut s, " ");
        }
        put(&mut s, args[j].as_str());
        proof {
            let t = all.take(j - i + 1);
            assert(t.drop_last() =~= all.take(j - i));
            assert(t.last() == args@[j as int]@);
            if j == i {
                assert(s@ =~= args@[j as int]@);
            }
        }
        j = j + 1;
    }
    assert(all.take(j - i) =~= all);
    s
}

impl<T: Tlb, C: MipsCache, B: BusDevice> Machine<T, C, B> {
    /// The value of an argument.
    pub open spec fn value_of(&self, arg: Seq<char>) -> Option<u64> {
        evaluated(arg, self.core, self.tools.symbols)
    }
}

impl<T: Tlb, C: MipsCache, B: BusDevice> MipsExecutor<T, C, B> {
    /// The value of an argument, or the reply that refuses it.
    pub(crate) fn argument(&self, arg: &String) -> (r: Result<u64, Reply>)
        ensures
            match self@.value_of(arg@) {
                Some(v) => r == Ok::<u64, Reply>(v),
                None => r is Err && r->Err_0@ == refused(no_value(arg@)),
            },
    {
        match parse_cpu_arg(arg.as_str(), &self.core, &self.tools.symbols) {
            Ok(v) => Ok(v),
            Err(s) => Err(Reply::fail(s)),
        }
    }
}

} // verus!

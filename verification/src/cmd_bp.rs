//! The commands about breakpoints.
use vstd::prelude::*;
use vstd::string::StringExecFns;

use crate::breakpoints::{
    law_added_breakpoint_is_found, position, without, BpType, Breakpoint, BreakpointTable,
};
use crate::bus::{BusDevice, MipsCache, Tlb};
use crate::command::{
    is_word, join_from, joined, refused, said, words, Reply, ReplyView,
};
use crate::exp::Expr;
use crate::expr_parse::{expression, no_value, parse_expression};
use crate::machine::{Machine, MipsExecutor};
use crate::parse::{number, parse_count};
use crate::text::{dec, hex_fixed, put, put_dec, put_hex_fixed, str_eq};

verus! {

/// The kind of breakpoint that a word names.
pub open spec fn kind_named(w: Seq<char>) -> Option<BpType> {
    if w == "pc"@ {
        Some(BpType::Pc)
    } else if w == "r"@ || w == "read"@ {
        Some(BpType::VirtRead)
    } else if w == "w"@ || w == "write"@ {
        Some(BpType::VirtWrite)
    } else if w == "f"@ || w == "fetch"@ {
        Some(BpType::VirtFetch)
    } else if w == "pr"@ || w == "pread"@ {
        Some(BpType::PhysRead)
    } else if w == "pw"@ || w == "pwrite"@ {
        Some(BpType::PhysWrite)
    } else if w == "pf"@ || w == "pfetch"@ {
        Some(BpType::PhysFetch)
    } else {
        None
    }
}

/// Name of a kind of breakpoint in listings.
pub open spec fn kind_name(k: BpType) -> Seq<char> {
    match k {
        BpType::Pc => "Pc"@,
        BpType::VirtRead => "VirtRead"@,
        BpType::VirtWrite => "VirtWrite"@,
        BpType::VirtFetch => "VirtFetch"@,
        BpType::PhysRead => "PhysRead"@,
        BpType::PhysWrite => "PhysWrite"@,
        BpType::PhysFetch => "PhysFetch"@,
        BpType::WriteValue => "WriteValue"@,
        BpType::RegValue => "RegValue"@,
    }
}

/// Index of the first word `w`, or the number of words.
pub open spec fn index_of_word(args: Seq<Seq<char>>, w: Seq<char>) -> nat
    decreases args.len(),
{
    if args.len() == 0 {
        0
    } else if args[0] == w {
        0
    } else {
        1 + index_of_word(args.skip(1), w)
    }
}

/// What a request for a breakpoint asks for.
pub enum BpRequest {
    Add { addr: u64, kind: BpType, condition: Option<Expr> },
    Refused(Seq<char>),
}

impl<T: Tlb, C: MipsCache, B: BusDevice> Machine<T, C, B> {
    /// The breakpoint that the arguments ask for: an address, a kind, and after `if` a
    /// condition.
    pub open spec fn requested_breakpoint(&self, args: Seq<Seq<char>>) -> BpRequest {
        let i = index_of_word(args, "if"@) as int;
        let text = joined(args.skip(i + 1));
        if args.len() == 0 {
            BpRequest::Refused("Usage: bp add <addr> [type]"@)
        } else if i < args.len() && expression(text, self.tools.symbols) is None {
            BpRequest::Refused(no_value(text))
        } else if i == 0 {
            BpRequest::Refused("Usage: bp add <addr> [type] [if <expr>]"@)
        } else {
            match self.value_of(args[0]) {
                None => BpRequest::Refused(no_value(args[0])),
                Some(addr) => match if i > 1 {
                    kind_named(args[1])
                } else {
                    Some(BpType::Pc)
                } {
                    None => BpRequest::Refused(
                        "Invalid breakpoint type. Options: pc, r, w, f, pr, pw, pf"@,
                    ),
                    Some(kind) => BpRequest::Add {
                        addr,
                        kind,
                        condition: if i < args.len() {
                            expression(text, self.tools.symbols)
                        } else {
                            None
                        },
                    },
                },
            }
        }
    }
}

/// What is said of a new breakpoint.
pub open spec fn added_line(id: usize, addr: u64, kind: BpType, conditional: bool) -> Seq<char> {
    "Breakpoint "@ + dec(id as nat) + " added at "@ + hex_fixed(addr as nat, 16) + " ("@
        + kind_name(kind) + ")"@ + if conditional {
        " with condition\n"@
    } else {
        "\n"@
    }
}

/// A breakpoint in the list of all.
pub open spec fn breakpoint_line(b: Breakpoint) -> Seq<char> {
    if b.id == 0 {
        Seq::empty()
    } else {
        "  "@ + dec(b.id as nat) + ": "@ + hex_fixed(b.addr as nat, 16) + " "@ + kind_name(b.kind)
            + " "@ + if b.enabled {
            "(enabled)"@
        } else {
            "(disabled)"@
        } + "\n"@
    }
}

/// `text` and the breakpoints of `s`. The one that is kept for runs to an address is
/// not shown.
pub open spec fn breakpoint_lines(text: Seq<char>, s: Seq<Breakpoint>) -> Seq<char>
    decreases s.len(),
{
    if s.len() == 0 {
        text
    } else {
        breakpoint_lines(text + breakpoint_line(s[0]), s.skip(1))
    }
}

/// What is said of breakpoint `id` after `done` to it, or if it was not found.
pub open spec fn change_reply(found: bool, id: usize, done: Seq<char>) -> ReplyView {
    if found {
        said("Breakpoint "@ + dec(id as nat) + done)
    } else {
        refused("Breakpoint "@ + dec(id as nat) + " not found"@)
    }
}

/// The identifier that an argument names.
pub open spec fn id_in(args: Seq<Seq<char>>) -> Option<nat> {
    number(args[0], 10, usize::MAX as nat)
}

/// What a breakpoint command does.
pub enum BpChange {
    Add,
    List,
    Delete,
    Switch(bool),
    Unknown,
}

pub open spec fn bp_change(sub: Seq<char>) -> BpChange {
    if sub == "add"@ {
        BpChange::Add
    } else if sub == "list"@ {
        BpChange::List
    } else if sub == "del"@ || sub == "delete"@ {
        BpChange::Delete
    } else if sub == "enable"@ {
        BpChange::Switch(true)
    } else if sub == "disable"@ {
        BpChange::Switch(false)
    } else {
        BpChange::Unknown
    }
}

/// The table after a breakpoint was added, `new` after `old`.
pub open spec fn has_added(
    old_table: BreakpointTable,
    new_table: BreakpointTable,
    addr: u64,
    kind: BpType,
    condition: Option<Expr>,
) -> bool {
    let id = old_table.next_bp_id;
    &&& new_table.next_bp_id == id + 1
    &&& new_table.breakpoints@ == without(old_table.breakpoints@, id).push(
        (Breakpoint { id, addr, kind, enabled: true, condition }),
    )
}

impl<T: Tlb, C: MipsCache, B: BusDevice> Machine<T, C, B> {
    /// `t` is the table of breakpoints, and `r` the reply, after the command `sub`.
    pub open spec fn is_bp_result(
        &self,
        sub: Seq<char>,
        args: Seq<Seq<char>>,
        r: ReplyView,
        t: BreakpointTable,
    ) -> bool {
        let s = self.bps.breakpoints@;
        match bp_change(sub) {
            BpChange::Add => match self.requested_breakpoint(args) {
                BpRequest::Refused(text) => r == refused(text) && t == self.bps,
                BpRequest::Add { addr, kind, condition } => {
                    &&& r == said(
                        added_line(self.bps.next_bp_id, addr, kind, condition is Some),
                    )
                    &&& has_added(self.bps, t, addr, kind, condition)
                },
            },
            BpChange::List => r == said(breakpoint_lines("Breakpoints:\n"@, s)) && t == self.bps,
            BpChange::Delete => if args.len() == 0 {
                r == refused("Usage: bp del <id>"@) && t == self.bps
            } else {
                match id_in(args) {
                    None => r == refused("Invalid ID"@) && t == self.bps,
                    Some(id) => {
                        &&& r == change_reply(
                            position(s, id as usize) is Some,
                            id as usize,
                            " deleted\n"@,
                        )
                        &&& t.next_bp_id == self.bps.next_bp_id
                        &&& t.breakpoints@ == without(s, id as usize)
                    },
                }
            },
            BpChange::Switch(on) => if args.len() == 0 {
                &&& r == refused(
                    if on {
                        "Usage: bp enable <id>"@
                    } else {
                        "Usage: bp disable <id>"@
                    },
                )
                &&& t == self.bps
            } else {
                match id_in(args) {
                    None => r == refused("Invalid ID"@) && t == self.bps,
                    Some(id) => {
                        &&& r == change_reply(
                            position(s, id as usize) is Some,
                            id as usize,
                            if on {
                                " enabled\n"@
                            } else {
                                " disabled\n"@
                            },
                        )
                        &&& t.next_bp_id == self.bps.next_bp_id
                        &&& t.breakpoints@ == match position(s, id as usize) {
                            Some(i) => s.update(i, (Breakpoint { enabled: on, ..s[i] })),
                            None => s,
                        }
                    },
                }
            },
            BpChange::Unknown => r == refused("Unknown bp subcommand"@) && t == self.bps,
        }
    }
}

fn kind_of(args: &[String], i: usize) -> (r: Option<BpType>)
    requires
        i < args@.len(),
    ensures
        r == kind_named(args@[i as int]@),
{
    if is_word(args, i, "pc") {
        Some(BpType::Pc)
    } else if is_word(args, i, "r") || is_word(args, i, "read") {
        Some(BpType::VirtRead)
    } else if is_word(args, i, "w") || is_word(args, i, "write") {
        Some(BpType::VirtWrite)
    } else if is_word(args, i, "f") || is_word(args, i, "fetch") {
        Some(BpType::VirtFetch)
    } else if is_word(args, i, "pr") || is_word(args, i, "pread") {
        Some(BpType::PhysRead)
    } else if is_word(args, i, "pw") || is_word(args, i, "pwrite") {
        Some(BpType::PhysWrite)
    } else if is_word(args, i, "pf") || is_word(args, i, "pfetch") {
        Some(BpType::PhysFetch)
    } else {
        None
    }
}

fn name_of_kind(k: BpType) -> (s: &'static str)
    ensures
        s@ == kind_name(k),
{
    match k {
        BpType::Pc => "Pc",
        BpType::VirtRead => "VirtRead",
        BpType::VirtWrite => "VirtWrite",
        BpType::VirtFetch => "VirtFetch",
        BpType::PhysRead => "PhysRead",
        BpType::PhysWrite => "PhysWrite",
        BpType::PhysFetch => "PhysFetch",
        BpType::WriteValue => "WriteValue",
        BpType::RegValue => "RegValue",
    }
}

fn find_if(args: &[String]) -> (i: usize)
    ensures
        i == index_of_word(words(args@), "if"@),
        i <= args@.len(),
{
    let mut i: usize = 0;
    assert(words(args@).skip(0) =~= words(args@));
    while i < args.len()
        invariant
            i <= args@.len(),
            i + index_of_word(words(args@).skip(i as int), "if"@) == index_of_word(
                words(args@),
                "if"@,
            ),
        decreases args@.len() - i,
    {
        assert(words(args@).skip(i as int)[0] == args@[i as int]@);
        assert(words(args@).skip(i as int).skip(1) =~= words(args@).skip(i + 1));
        if is_word(args, i, "if") {
            return i;
        }
        i = i + 1;
    }
    assert(words(args@).skip(i as int).len() == 0);
    i
}

fn show_breakpoints(t: &BreakpointTable) -> (s: String)
    ensures
        s@ == breakpoint_lines("Breakpoints:\n"@, t.breakpoints@),
{
    let mut s: String = "Breakpoints:\n".to_string();
    let mut i: usize = 0;
    assert(t.breakpoints@.skip(0) =~= t.breakpoints@);
    while i < t.breakpoints.len()
        invariant
            i <= t.breakpoints@.len(),
            breakpoint_lines(s@, t.breakpoints@.skip(i as int)) == breakpoint_lines(
                "Breakpoints:\n"@,
                t.breakpoints@,
            ),
        decreases t.breakpoints@.len() - i,
    {
        let b: &Breakpoint = &t.breakpoints[i];
        let ghost before = s@;
        if b.id != 0 {
            put(&mut s, "  ");
            put_dec(&mut s, b.id as u64);
            put(&mut s, ": ");
            put_hex_fixed(&mut s, b.addr, 16);
            put(&mut s, " ");
            put(&mut s, name_of_kind(b.kind));
            put(&mut s, " ");
            put(
                &mut s,
                if b.enabled {
                    "(enabled)"
                } else {
                    "(disabled)"
                },
            );
            put(&mut s, "\n");
        }
        proof {
            assert(s@ =~= before + breakpoint_line(t.breakpoints@[i as int]));
            assert(t.breakpoints@.skip(i as int).skip(1) =~= t.breakpoints@.skip(i + 1));
            assert(t.breakpoints@.skip(i as int)[0] == t.breakpoints@[i as int]);
        }
        i = i + 1;
    }
    assert(t.breakpoints@.skip(i as int).len() == 0);
    s
}

fn reply_to_change(found: bool, id: usize, done: &str) -> (r: Reply)
    ensures
        r@ == change_reply(found, id, done@),
{
    let mut s: String = "Breakpoint ".to_string();
    put_dec(&mut s, id as u64);
    if found {
        put(&mut s, done);
        Reply::say(s)
    } else {
        put(&mut s, " not found");
        Reply::fail(s)
    }
}

impl<T: Tlb, C: MipsCache, B: BusDevice> MipsExecutor<T, C, B> {
    fn cmd_bp_add(&mut self, args: &[String]) -> (r: Reply)
        requires
            old(self).wf(),
            old(self).bps.wf(),
            old(self).bps.next_bp_id < usize::MAX,
            old(self).bps.breakpoints@.len() < usize::MAX,
        ensures
            final(self).wf(),
            final(self).bps.wf(),
            final(self)@ == (Machine { bps: final(self).bps, ..old(self)@ }),
            old(self)@.is_bp_result("add"@, words(args@), r@, final(self).bps),
    {
        if args.len() == 0 {
            return Reply::refuse("Usage: bp add <addr> [type]");
        }
        let i: usize = find_if(args);
        let mut condition: Option<Expr> = None;
        let ghost text = joined(words(args@).skip(i + 1));
        if i < args.len() {
            let text: String = join_from(args, i + 1);
            condition = parse_expression(text.as_str(), &self.tools.symbols);
            if condition.is_none() {
                let mut s: String = "Invalid expression: ".to_string();
                put(&mut s, text.as_str());
                return Reply::fail(s);
            }
        }
        if i == 0 {
            return Reply::refuse("Usage: bp add <addr> [type] [if <expr>]");
        }
        let addr: u64 = match self.argument(&args[0]) {
            Ok(v) => v,
            Err(r) => {
                return r;
            },
        };
        let kind: BpType = if i > 1 {
            match kind_of(args, 1) {
                Some(k) => k,
                None => {
                    return Reply::refuse(
                        "Invalid breakpoint type. Options: pc, r, w, f, pr, pw, pf",
                    );
                },
            }
        } else {
            BpType::Pc
        };
        let ghost cond = condition;
        assert(self@.requested_breakpoint(words(args@)) == (BpRequest::Add {
            addr,
            kind,
            condition: cond,
        }));
        let id: usize = self.bps.next_bp_id;
        let conditional: bool = condition.is_some();
        self.bps.next_bp_id = id + 1;
        self.bps.add_breakpoint(id, addr, kind);
        proof {
            law_added_breakpoint_is_found(
                old(self).bps.breakpoints@,
                (Breakpoint { id, addr, kind, enabled: true, condition: None }),
            );
        }
        self.bps.set_condition(id, condition);
        assert(self.bps.breakpoints@ =~= without(old(self).bps.breakpoints@, id).push(
            (Breakpoint { id, addr, kind, enabled: true, condition: cond }),
        ));
        let mut s: String = "Breakpoint ".to_string();
        put_dec(&mut s, id as u64);
        put(&mut s, " added at ");
        put_hex_fixed(&mut s, addr, 16);
        put(&mut s, " (");
        put(&mut s, name_of_kind(kind));
        put(&mut s, ")");
        if conditional {
            put(&mut s, " with condition\n");
        } else {
            put(&mut s, "\n");
        }
        Reply::say(s)
    }

    /// Adds, lists, deletes, enables and disables breakpoints, as `sub` says.
    pub fn cmd_bp(&mut self, sub: &str, args: &[String]) -> (r: Reply)
        requires
            old(self).wf(),
            old(self).bps.wf(),
            old(self).bps.next_bp_id < usize::MAX,
            old(self).bps.breakpoints@.len() < usize::MAX,
        ensures
            final(self).wf(),
            final(self).bps.wf(),
            final(self)@ == (Machine { bps: final(self).bps, ..old(self)@ }),
            old(self)@.is_bp_result(sub@, words(args@), r@, final(self).bps),
    {
        if str_eq(sub, "add") {
            return self.cmd_bp_add(args);
        }
        if str_eq(sub, "list") {
            return Reply::say(show_breakpoints(&self.bps));
        }
        let delete: bool = str_eq(sub, "del") || str_eq(sub, "delete");
        let enable: bool = str_eq(sub, "enable");
        let disable: bool = str_eq(sub, "disable");
        if !delete && !enable && !disable {
            return Reply::refuse("Unknown bp subcommand");
        }
        if args.len() == 0 {
            return Reply::refuse(
                if delete {
                    "Usage: bp del <id>"
                } else if enable {
                    "Usage: bp enable <id>"
                } else {
                    "Usage: bp disable <id>"
                },
            );
        }
        let id: usize = match parse_count(args[0].as_str()) {
            Some(n) => n,
            None => {
                return Reply::refuse("Invalid ID");
            },
        };
        if delete {
            let found: bool = self.bps.remove_breakpoint(id);
            return reply_to_change(found, id, " deleted\n");
        }
        let found: bool = self.bps.set_breakpoint_enabled(id, enable);
        reply_to_change(
            found,
            id,
            if enable {
                " enabled\n"
            } else {
                " disabled\n"
            },
        )
    }
}

} // verus!

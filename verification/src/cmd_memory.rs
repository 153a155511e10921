//! Commands that look at memory and write it.
use vstd::prelude::*;
use vstd::string::StringExecFns;

use crate::bus::{BusDevice, MipsCache, Tlb};
use crate::command::{
    count_at, count_of, line_views, leaves, number_at, number_of, refused, said, words, Action,
    ActionView, is_word, ListLine, ListLineView, Reply, ReplyView,
};
use crate::expr_parse::no_value;
use crate::machine::{Machine, MipsExecutor};
use crate::memory::fetched_word;
use crate::parse::{number, parse_dec, parse_hex, without_0x};
use crate::status::{full_mask_for_usize, ExecStatus, EXEC_COMPLETE};
use crate::text::{
    dec, hex, hex8, hex_fixed, put, put_dec, put_hex, put_hex8, put_hex_fixed,
};

verus! {

/// Address of the cell `i` of `size` bytes from `addr` on.
pub open spec fn cell(addr: u64, i: u64, size: u64) -> u64 {
    addr.wrapping_add(i.wrapping_mul(size))
}

/// A word of memory as a line.
pub open spec fn word_line(at: u64, r: Result<u64, ExecStatus>) -> Seq<char> {
    hex_fixed(at as nat, 16) + ": "@ + match r {
        Ok(v) => hex8(v),
        Err(e) => "Error "@ + dec(e as nat),
    } + "\n"@
}

/// A doubleword of the stack as a line.
pub open spec fn slot_line(at: u64, r: Result<u64, ExecStatus>) -> Seq<char> {
    hex_fixed(at as nat, 16) + ": "@ + match r {
        Ok(v) => hex_fixed(v as nat, 16),
        Err(_) => "????????????????"@,
    } + "\n"@
}

impl<T: Tlb, C: MipsCache, B: BusDevice> Machine<T, C, B> {
    /// `text` and the words from `addr` on, from number `i` up to `n`.
    pub open spec fn words_from(self, text: Seq<char>, addr: u64, i: u64, n: u64) -> (
        Seq<char>,
        Self,
    )
        decreases n - i,
    {
        if i < n {
            let at = cell(addr, i, 4);
            let (r, m) = self.debug_read(at, 4);
            m.words_from(text + word_line(at, r), addr, (i + 1) as u64, n)
        } else {
            (text, self)
        }
    }

    /// `text` and the doublewords from `addr` on, from number `i` up to `n`.
    pub open spec fn slots_from(self, text: Seq<char>, addr: u64, i: u64, n: u64) -> (
        Seq<char>,
        Self,
    )
        decreases n - i,
    {
        if i < n {
            let at = cell(addr, i, 8);
            let (r, m) = self.debug_read(at, 8);
            m.slots_from(text + slot_line(at, r), addr, (i + 1) as u64, n)
        } else {
            (text, self)
        }
    }

    /// The command that shows words of memory: an address, and how many.
    pub open spec fn cmd_mem(self, args: Seq<Seq<char>>) -> (ReplyView, Self) {
        if args.len() == 0 {
            (refused("Usage: mem <addr> [count]"@), self)
        } else {
            match self.value_of(args[0]) {
                None => (refused(no_value(args[0])), self),
                Some(addr) => {
                    let (t, m) = self.words_from(Seq::empty(), addr, 0, number_at(args, 1, 1));
                    (said(t), m)
                },
            }
        }
    }

    /// The command that shows the stack: an address, for the stack pointer, and how many
    /// doublewords.
    pub open spec fn cmd_stack(self, args: Seq<Seq<char>>) -> (ReplyView, Self) {
        let start = if args.len() > 0 {
            self.value_of(args[0])
        } else {
            Some(self.core.gpr_at(29))
        };
        match start {
            None => (refused(no_value(args[0])), self),
            Some(addr) => {
                let (t, m) = self.slots_from(Seq::empty(), addr, 0, number_at(args, 1, 16));
                (said(t), m)
            },
        }
    }

    /// The command that shows the callers of the current function: how many at most.
    pub open spec fn cmd_backtrace(self, args: Seq<Seq<char>>) -> (ReplyView, Self) {
        let (t, m) = self.backtrace(count_at(args, 0, 20) as nat);
        (said(t + "\n"@), m)
    }
}

/// The value to write: a hexadecimal number, or else a decimal one.
pub open spec fn written_value(arg: Seq<char>) -> Option<nat> {
    match number(without_0x(arg), 16, u64::MAX as nat) {
        Some(v) => Some(v),
        None => number(arg, 10, u64::MAX as nat),
    }
}

/// The size that word `i` names; a word of memory where it is not there.
pub open spec fn named_size(args: Seq<Seq<char>>, i: int) -> Option<usize> {
    if i >= args.len() {
        Some(4)
    } else if args[i] == "b"@ || args[i] == "byte"@ {
        Some(1)
    } else if args[i] == "h"@ || args[i] == "half"@ {
        Some(2)
    } else if args[i] == "w"@ || args[i] == "word"@ {
        Some(4)
    } else if args[i] == "d"@ || args[i] == "double"@ {
        Some(8)
    } else {
        None
    }
}

impl<T: Tlb, C: MipsCache, B: BusDevice> Machine<T, C, B> {
    /// The command that writes memory: an address, a value and a size.
    pub open spec fn cmd_write(self, args: Seq<Seq<char>>) -> (ReplyView, Self) {
        if args.len() < 2 {
            (refused("Usage: mw <addr> <val> [size: b|h|w|d]"@), self)
        } else {
            match (self.value_of(args[0]), written_value(args[1]), named_size(args, 2)) {
                (None, _, _) => (refused(no_value(args[0])), self),
                (Some(_), None, _) => (refused("Invalid value"@), self),
                (Some(_), Some(_), None) => (refused("Invalid size. Use b, h, w, or d"@), self),
                (Some(addr), Some(val), Some(size)) => {
                    let (s, m) = self.debug_write(addr, val as u64, size);
                    (
                        said(
                            if s == EXEC_COMPLETE {
                                "Wrote "@ + hex(val) + " to "@ + hex_fixed(addr as nat, 16) + "\n"@
                            } else {
                                "Error writing to "@ + hex_fixed(addr as nat, 16) + ": "@ + dec(
                                    s as nat,
                                ) + "\n"@
                            },
                        ),
                        m,
                    )
                },
            }
        }
    }

    /// `bytes` and those from `at` on, `n` at most, up to the first zero and as far as
    /// memory can be read.
    pub open spec fn bytes_from(self, bytes: Seq<u8>, at: u64, n: nat) -> (Seq<u8>, Self)
        decreases n,
    {
        if n == 0 {
            (bytes, self)
        } else {
            let (r, m) = self.debug_read(at, 1);
            match r {
                Ok(v) => if v as u8 == 0 {
                    (bytes, m)
                } else {
                    m.bytes_from(bytes.push(v as u8), at.wrapping_add(1), (n - 1) as nat)
                },
                Err(_) => (bytes, m),
            }
        }
    }

    /// The command that shows a string: an address, and the length at most.
    pub open spec fn cmd_string(self, args: Seq<Seq<char>>) -> (ReplyView, Self) {
        if args.len() == 0 {
            (refused("Usage: ms <addr> [max_len]"@), self)
        } else {
            match self.value_of(args[0]) {
                None => (refused(no_value(args[0])), self),
                Some(addr) => {
                    let (b, m) = self.bytes_from(Seq::empty(), addr, count_at(args, 1, 256) as nat);
                    (said(string_line(addr, lossy_text(b))), m)
                },
            }
        }
    }

    /// The instructions from `addr` on, from number `i` up to `n`, after `lines`.
    pub open spec fn listed(self, lines: Seq<ListLineView>, addr: u64, i: u64, n: u64) -> (
        Seq<ListLineView>,
        Self,
    )
        decreases n - i,
    {
        if i < n {
            let pc = cell(addr, i, 4);
            let (f, m) = self.fetch(true, pc);
            m.listed(
                lines.push(
                    match fetched_word(f) {
                        Ok(instr) => ListLineView::Instr { pc, instr },
                        Err(_) => ListLineView::Text(
                            hex_fixed(pc as nat, 16) + ": Could not fetch"@,
                        ),
                    },
                ),
                addr,
                (i + 1) as u64,
                n,
            )
        } else {
            (lines, self)
        }
    }

    /// The command that disassembles: an address, for the program counter, and how many.
    pub open spec fn cmd_dis(self, args: Seq<Seq<char>>) -> (ReplyView, Self) {
        let start = if args.len() > 0 {
            self.value_of(args[0])
        } else {
            Some(self.core.pc)
        };
        match start {
            None => (refused(no_value(args[0])), self),
            Some(addr) => {
                let (lines, m) = self.listed(Seq::empty(), addr, 0, number_at(args, 1, 1));
                (leaves(ActionView::Listing { lines, path: None }), m)
            },
        }
    }
}

/// A string at `addr` as a line.
pub open spec fn string_line(addr: u64, s: Seq<char>) -> Seq<char> {
    hex_fixed(addr as nat, 16) + ": \""@ + s + "\"\n"@
}

/// The text that `String::from_utf8_lossy` of the standard library makes of bytes.
pub uninterp spec fn lossy_text(bytes: Seq<u8>) -> Seq<char>;

/// `String::from_utf8_lossy` of the standard library: the bytes as UTF-8, with a mark in
/// place of what is none. Of bytes that are ASCII each is the character of that number.
#[verifier::external_body]
pub(crate) fn text_from_utf8_lossy(bytes: &Vec<u8>) -> (s: String)
    ensures
        s@ == lossy_text(bytes@),
        (forall|i: int| 0 <= i < bytes@.len() ==> #[trigger] bytes@[i] < 128) ==> s@ == Seq::new(
            bytes@.len(),
            |i: int| bytes@[i] as char,
        ),
{
    String::from_utf8_lossy(bytes).into_owned()
}

/// The string `s` that was found at `addr`, as a line.
pub fn show_string(addr: u64, s: &str) -> (t: String)
    ensures
        t@ == string_line(addr, s@),
{
    let mut t: String = String::new();
    put_hex_fixed(&mut t, addr, 16);
    put(&mut t, ": \"");
    put(&mut t, s);
    put(&mut t, "\"\n");
    assert(t@ =~= string_line(addr, s@));
    t
}

fn put_word_line(s: &mut String, at: u64, r: Result<u64, ExecStatus>)
    ensures
        final(s)@ == old(s)@ + word_line(at, r),
{
    put_hex_fixed(s, at, 16);
    put(s, ": ");
    match r {
        Ok(v) => put_hex8(s, v),
        Err(e) => {
            put(s, "Error ");
            put_dec(s, e as u64);
        },
    }
    put(s, "\n");
    assert(s@ =~= old(s)@ + word_line(at, r));
}

fn put_slot_line(s: &mut String, at: u64, r: Result<u64, ExecStatus>)
    ensures
        final(s)@ == old(s)@ + slot_line(at, r),
{
    put_hex_fixed(s, at, 16);
    put(s, ": ");
    match r {
        Ok(v) => put_hex_fixed(s, v, 16),
        Err(_) => put(s, "????????????????"),
    }
    put(s, "\n");
    assert(s@ =~= old(s)@ + slot_line(at, r));
}

fn size_of(args: &[String], i: usize) -> (r: Option<usize>)
    ensures
        r == named_size(words(args@), i as int),
{
    if i >= args.len() {
        Some(4)
    } else if is_word(args, i, "b") || is_word(args, i, "byte") {
        Some(1)
    } else if is_word(args, i, "h") || is_word(args, i, "half") {
        Some(2)
    } else if is_word(args, i, "w") || is_word(args, i, "word") {
        Some(4)
    } else if is_word(args, i, "d") || is_word(args, i, "double") {
        Some(8)
    } else {
        None
    }
}

fn value_to_write(arg: &String) -> (r: Option<u64>)
    ensures
        r is Some == written_value(arg@) is Some,
        r matches Some(v) ==> v == written_value(arg@)->0,
{
    match parse_hex(arg.as_str()) {
        Some(v) => Some(v),
        None => parse_dec(arg.as_str()),
    }
}

impl<T: Tlb, C: MipsCache, B: BusDevice> MipsExecutor<T, C, B> {
    /// Shows words of memory.
    pub fn cmd_mem(&mut self, args: &[String]) -> (r: Reply)
        requires
            old(self).wf(),
        ensures
            final(self).wf(),
            (r@, final(self)@) == old(self)@.cmd_mem(words(args@)),
    {
        if args.len() == 0 {
            return Reply::refuse("Usage: mem <addr> [count]");
        }
        let addr: u64 = match self.argument(&args[0]) {
            Ok(v) => v,
            Err(r) => {
                return r;
            },
        };
        let n: u64 = number_of(args, 1, 1);
        let mut s: String = String::new();
        assert(s@ =~= Seq::<char>::empty());
        let mut i: u64 = 0;
        while i < n
            invariant
                i <= n,
                self.wf(),
                self@.words_from(s@, addr, i, n) == old(self)@.words_from(
                    Seq::empty(),
                    addr,
                    0,
                    n,
                ),
            decreases n - i,
        {
            let at: u64 = addr.wrapping_add(i.wrapping_mul(4));
            let r: Result<u64, ExecStatus> = self.debug_read(at, 4);
            put_word_line(&mut s, at, r);
            i = i + 1;
        }
        Reply::say(s)
    }

    /// Shows the stack.
    pub fn cmd_stack(&mut self, args: &[String]) -> (r: Reply)
        requires
            old(self).wf(),
        ensures
            final(self).wf(),
            (r@, final(self)@) == old(self)@.cmd_stack(words(args@)),
    {
        let addr: u64 = if args.len() > 0 {
            match self.argument(&args[0]) {
                Ok(v) => v,
                Err(r) => {
                    return r;
                },
            }
        } else {
            self.core.read_gpr(29)
        };
        let n: u64 = number_of(args, 1, 16);
        let mut s: String = String::new();
        assert(s@ =~= Seq::<char>::empty());
        let mut i: u64 = 0;
        while i < n
            invariant
                i <= n,
                self.wf(),
                self@.slots_from(s@, addr, i, n) == old(self)@.slots_from(
                    Seq::empty(),
                    addr,
                    0,
                    n,
                ),
            decreases n - i,
        {
            let at: u64 = addr.wrapping_add(i.wrapping_mul(8));
            let r: Result<u64, ExecStatus> = self.debug_read(at, 8);
            put_slot_line(&mut s, at, r);
            i = i + 1;
        }
        Reply::say(s)
    }

    /// Shows the callers of the current function.
    pub fn cmd_backtrace(&mut self, args: &[String]) -> (r: Reply)
        requires
            old(self).wf(),
        ensures
            final(self).wf(),
            (r@, final(self)@) == old(self)@.cmd_backtrace(words(args@)),
    {
        let mut s: String = self.backtrace(count_of(args, 0, 20));
        put(&mut s, "\n");
        Reply::say(s)
    }

    /// Writes memory.
    pub fn cmd_write(&mut self, args: &[String]) -> (r: Reply)
        requires
            old(self).wf(),
        ensures
            final(self).wf(),
            (r@, final(self)@) == old(self)@.cmd_write(words(args@)),
    {
        if args.len() < 2 {
            return Reply::refuse("Usage: mw <addr> <val> [size: b|h|w|d]");
        }
        let addr: u64 = match self.argument(&args[0]) {
            Ok(v) => v,
            Err(r) => {
                return r;
            },
        };
        let val: u64 = match value_to_write(&args[1]) {
            Some(v) => v,
            None => {
                return Reply::refuse("Invalid value");
            },
        };
        let size: usize = match size_of(args, 2) {
            Some(v) => v,
            None => {
                return Reply::refuse("Invalid size. Use b, h, w, or d");
            },
        };
        let mask: u64 = full_mask_for_usize(size);
        let status: ExecStatus = self.debug_write(addr, val, size, mask);
        let mut s: String = String::new();
        if status == EXEC_COMPLETE {
            put(&mut s, "Wrote ");
            put_hex(&mut s, val);
            put(&mut s, " to ");
            put_hex_fixed(&mut s, addr, 16);
            put(&mut s, "\n");
            assert(s@ =~= "Wrote "@ + hex(val as nat) + " to "@ + hex_fixed(addr as nat, 16)
                + "\n"@);
        } else {
            put(&mut s, "Error writing to ");
            put_hex_fixed(&mut s, addr, 16);
            put(&mut s, ": ");
            put_dec(&mut s, status as u64);
            put(&mut s, "\n");
            assert(s@ =~= "Error writing to "@ + hex_fixed(addr as nat, 16) + ": "@ + dec(
                status as nat,
            ) + "\n"@);
        }
        Reply::say(s)
    }

    /// The bytes from `addr` on, `max` at most, up to the first zero.
    pub fn read_string(&mut self, addr: u64, max: usize) -> (v: Vec<u8>)
        requires
            old(self).wf(),
        ensures
            final(self).wf(),
            (v@, final(self)@) == old(self)@.bytes_from(Seq::empty(), addr, max as nat),
    {
        let mut v: Vec<u8> = Vec::new();
        let mut at: u64 = addr;
        let mut left: usize = max;
        while left > 0
            invariant
                self.wf(),
                self@.bytes_from(v@, at, left as nat) == old(self)@.bytes_from(
                    Seq::empty(),
                    addr,
                    max as nat,
                ),
            decreases left,
        {
            match self.debug_read(at, 1) {
                Ok(val) => {
                    let b: u8 = #[verifier::truncate] (val as u8);
                    if b == 0 {
                        return v;
                    }
                    v.push(b);
                    at = at.wrapping_add(1);
                },
                Err(_) => {
                    return v;
                },
            }
            left = left - 1;
        }
        v
    }

    /// Shows a string in memory.
    pub fn cmd_string(&mut self, args: &[String]) -> (r: Reply)
        requires
            old(self).wf(),
        ensures
            final(self).wf(),
            (r@, final(self)@) == old(self)@.cmd_string(words(args@)),
    {
        if args.len() == 0 {
            return Reply::refuse("Usage: ms <addr> [max_len]");
        }
        let addr: u64 = match self.argument(&args[0]) {
            Ok(v) => v,
            Err(r) => {
                return r;
            },
        };
        let bytes: Vec<u8> = self.read_string(addr, count_of(args, 1, 256));
        let s: String = text_from_utf8_lossy(&bytes);
        Reply::say(show_string(addr, s.as_str()))
    }

    /// Disassembles memory.
    pub fn cmd_dis(&mut self, args: &[String]) -> (r: Reply)
        requires
            old(self).wf(),
        ensures
            final(self).wf(),
            (r@, final(self)@) == old(self)@.cmd_dis(words(args@)),
    {
        let addr: u64 = if args.len() > 0 {
            match self.argument(&args[0]) {
                Ok(v) => v,
                Err(r) => {
                    return r;
                },
            }
        } else {
            self.core.pc
        };
        let n: u64 = number_of(args, 1, 1);
        let mut lines: Vec<ListLine> = Vec::new();
        assert(line_views(lines@) =~= Seq::<ListLineView>::empty());
        let mut i: u64 = 0;
        while i < n
            invariant
                i <= n,
                self.wf(),
                self@.listed(line_views(lines@), addr, i, n) == old(self)@.listed(
                    Seq::empty(),
                    addr,
                    0,
                    n,
                ),
            decreases n - i,
        {
            let pc: u64 = addr.wrapping_add(i.wrapping_mul(4));
            let ghost before = lines@;
            let line: ListLine = match self.debug_fetch_instr(pc) {
                Ok(instr) => ListLine::Instr { pc, instr },
                Err(_) => {
                    let mut s: String = String::new();
                    put_hex_fixed(&mut s, pc, 16);
                    put(&mut s, ": Could not fetch");
                    assert(s@ =~= hex_fixed(pc as nat, 16) + ": Could not fetch"@);
                    ListLine::Text(s)
                },
            };
            let ghost lv = line@;
            lines.push(line);
            assert(line_views(lines@) =~= line_views(before).push(lv));
            i = i + 1;
        }
        Reply::leave(Action::Listing { lines, path: None })
    }
}

} // verus!

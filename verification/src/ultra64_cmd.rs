//! The commands about the development board.
use vstd::prelude::*;
use vstd::string::StringExecFns;

use crate::bytes::{number_of_bytes, read_big_endian};
use crate::command::{is_word, refused, said, word_is, words, Reply, ReplyView};
use crate::parse::{number, parse_hex, without_0x};
use crate::text::{dec, hex, hex_fixed, put, put_dec, put_hex, put_hex_fixed};
use crate::ultra64::{Board, BoardRegs, BoardState, N64Message, RAMROM_TOTAL};

verus! {

/// Addresses of instructions in listings start here.
pub const LISTING_BASE: u64 = 0xA400_0000;

/// What the header of the memory shared with the console holds.
#[derive(Clone, Copy, Debug, PartialEq, Eq, Structural)]
pub struct SharedHeader {
    pub magic: u32,
    pub version: u32,
    pub h2n_head: u32,
    pub h2n_tail: u32,
    pub n2h_head: u32,
    pub n2h_tail: u32,
}

/// How a command about the board goes on.
pub enum UltraStep {
    /// It is done.
    Reply(Reply),
    /// The word at this place of memory is to be read.
    ReadWord(usize),
    WriteWord(usize, u32),
    /// So many bytes of memory are to be shown.
    Dump { off: usize, size: usize },
    /// So many instructions at most are to be listed.
    Disassemble { off: usize, count: usize },
    /// A file is to be put into memory.
    Load { path: String, off: usize },
}

pub enum UltraStepView {
    Reply(ReplyView),
    ReadWord(usize),
    WriteWord(usize, u32),
    Dump { off: usize, size: usize },
    Disassemble { off: usize, count: usize },
    Load { path: Seq<char>, off: usize },
}

impl View for UltraStep {
    type V = UltraStepView;

    open spec fn view(&self) -> UltraStepView {
        match self {
            UltraStep::Reply(r) => UltraStepView::Reply(r@),
            UltraStep::ReadWord(o) => UltraStepView::ReadWord(*o),
            UltraStep::WriteWord(o, v) => UltraStepView::WriteWord(*o, *v),
            UltraStep::Dump { off, size } => UltraStepView::Dump { off: *off, size: *size },
            UltraStep::Disassemble { off, count } => UltraStepView::Disassemble {
                off: *off,
                count: *count,
            },
            UltraStep::Load { path, off } => UltraStepView::Load { path: path@, off: *off },
        }
    }
}

pub open spec fn bool_text(b: bool) -> Seq<char> {
    if b {
        "true"@
    } else {
        "false"@
    }
}

/// The state of the board in words.
pub open spec fn status_text(r: BoardRegs, running: bool, h: SharedHeader) -> Seq<char> {
    "=== Ultra64 Status ===\n  running         : "@ + bool_text(running)
        + "\n  dram_page       : "@ + dec(r.dram_page as nat)
        + "  (window 1f500000–1f5fffff)\n  n64_in_reset    : "@ + bool_text(r.n64_in_reset)
        + "\n  gio_int_pending : "@ + bool_text(r.gio_int_pending) + "\n  gio_int_payload : 0x"@
        + hex_fixed(r.gio_int_payload as nat, 2) + "\n  gio_sync        : 0x"@ + hex_fixed(
        r.gio_sync as nat,
        2,
    ) + "\n  cart_int_payload: 0x"@ + hex_fixed(r.cart_int_payload as nat, 2)
        + "\n  rdb_r_int       : "@ + bool_text(r.rdb_r_int) + "\n  rdb_w_int       : "@
        + bool_text(r.rdb_w_int) + "\n  rdb_h2n         : 0x"@ + hex_fixed(r.rdb_h2n as nat, 8)
        + "\n  rdb_n2h         : 0x"@ + hex_fixed(r.rdb_n2h as nat, 8)
        + "\n  rdb_n2h_ack     : "@ + dec(r.rdb_n2h_ack as nat)
        + "\n  --- shm header ---\n  magic           : "@ + hex_fixed(h.magic as nat, 8)
        + "\n  version         : "@ + dec(h.version as nat) + "\n  h2n_ring head/tail: "@ + dec(
        h.h2n_head as nat,
    ) + "/"@ + dec(h.h2n_tail as nat) + "\n  n2h_ring head/tail: "@ + dec(h.n2h_head as nat)
        + "/"@ + dec(h.n2h_tail as nat) + "\n"@
}

/// The hexadecimal number in word `i`, up to `max`.
pub open spec fn hex_at(args: Seq<Seq<char>>, i: int, max: nat) -> Option<nat> {
    if i < args.len() {
        number(without_0x(args[i]), 16, max)
    } else {
        None
    }
}

/// A place in memory, of a whole word.
pub open spec fn word_place(n: nat) -> usize {
    (n % RAMROM_TOTAL as nat / 4 * 4) as usize
}

/// A size in whole words.
pub open spec fn whole_words(n: nat) -> nat {
    (n + 3) / 4 * 4
}

pub open spec fn dump_refused(off: nat, size: nat) -> Seq<char> {
    "ultra dump: range 0x"@ + hex(off) + "+0x"@ + hex(size) + " exceeds RAMROM (0x1000000)"@
}

pub open spec fn ultra_usage() -> Seq<char> {
    "ultra status | send <hex> | reset | r <offset> | w <offset> <val> | dump <offset> <size> | disasm <offset> <count> | load <path> [offset]\n"@
}

impl BoardState {
    /// What a command comes to, and the board after it.
    pub open spec fn command(self, args: Seq<Seq<char>>, running: bool, h: SharedHeader) -> (
        UltraStepView,
        BoardState,
    ) {
        if word_is(args, 0, "status"@) {
            (UltraStepView::Reply(said(status_text(self.regs, running, h))), self)
        } else if word_is(args, 0, "send"@) {
            self.send_command(args)
        } else if word_is(args, 0, "reset"@) {
            (
                UltraStepView::Reply(said("N64 reset asserted\n"@)),
                self.sending(N64Message::ResetAssert),
            )
        } else if word_is(args, 0, "r"@) {
            (
                match hex_at(args, 1, u32::MAX as nat) {
                    Some(o) => UltraStepView::ReadWord(word_place(o)),
                    None => UltraStepView::Reply(refused("usage: ultra r <hex_offset>"@)),
                },
                self,
            )
        } else if word_is(args, 0, "w"@) {
            (
                match (hex_at(args, 1, u32::MAX as nat), hex_at(args, 2, u32::MAX as nat)) {
                    (Some(o), Some(v)) => UltraStepView::WriteWord(word_place(o), v as u32),
                    _ => UltraStepView::Reply(refused("usage: ultra w <hex_offset> <hex_val>"@)),
                },
                self,
            )
        } else if word_is(args, 0, "dump"@) {
            (dump_command(args), self)
        } else if word_is(args, 0, "disasm"@) {
            (disasm_command(args), self)
        } else if word_is(args, 0, "load"@) {
            (load_command(args), self)
        } else {
            (UltraStepView::Reply(said(ultra_usage())), self)
        }
    }

    pub open spec fn send_command(self, args: Seq<Seq<char>>) -> (UltraStepView, BoardState) {
        match hex_at(args, 1, u32::MAX as nat) {
            Some(v) => {
                let payload = (v as u32) & 0x3F;
                (
                    UltraStepView::Reply(
                        said("CART_INT sent: payload=0x"@ + hex_fixed(payload as nat, 2) + "\n"@),
                    ),
                    self.with_regs(BoardRegs { cart_int_payload: payload, ..self.regs }).sending(
                        N64Message::CartInt(payload),
                    ),
                )
            },
            None => (UltraStepView::Reply(refused("usage: ultra send <hex6>"@)), self),
        }
    }
}

pub open spec fn dump_command(args: Seq<Seq<char>>) -> UltraStepView {
    match (hex_at(args, 1, usize::MAX as nat), hex_at(args, 2, usize::MAX as nat)) {
        (Some(o), Some(n)) => {
            let off = (o / 4 * 4) as nat;
            if n > usize::MAX - 3 {
                UltraStepView::Reply(refused(dump_refused(off, n)))
            } else if off + whole_words(n) > RAMROM_TOTAL {
                UltraStepView::Reply(refused(dump_refused(off, whole_words(n))))
            } else {
                UltraStepView::Dump { off: off as usize, size: whole_words(n) as usize }
            }
        },
        _ => UltraStepView::Reply(refused("usage: ultra dump <hex_offset> <hex_size>"@)),
    }
}

pub open spec fn disasm_command(args: Seq<Seq<char>>) -> UltraStepView {
    match hex_at(args, 1, usize::MAX as nat) {
        Some(o) => UltraStepView::Disassemble {
            off: (o / 4 * 4) as usize,
            count: match hex_at(args, 2, usize::MAX as nat) {
                Some(n) => n as usize,
                None => 16,
            },
        },
        None => UltraStepView::Reply(refused("usage: ultra disasm <hex_offset> <count>"@)),
    }
}

pub open spec fn load_command(args: Seq<Seq<char>>) -> UltraStepView {
    if args.len() < 2 {
        UltraStepView::Reply(refused("usage: ultra load <path> [hex_offset]"@))
    } else {
        UltraStepView::Load {
            path: args[1],
            off: match hex_at(args, 2, usize::MAX as nat) {
                Some(n) => n as usize,
                None => 0,
            },
        }
    }
}

fn hex_word(args: &[String], i: usize) -> (r: Option<usize>)
    ensures
        r is Some == hex_at(words(args@), i as int, usize::MAX as nat) is Some,
        r matches Some(v) ==> v == hex_at(words(args@), i as int, usize::MAX as nat)->0,
{
    if i < args.len() {
        match parse_hex(args[i].as_str()) {
            Some(v) => if v <= usize::MAX as u64 {
                Some(v as usize)
            } else {
                None
            },
            None => None,
        }
    } else {
        None
    }
}

fn hex_word32(args: &[String], i: usize) -> (r: Option<u32>)
    ensures
        r is Some == hex_at(words(args@), i as int, u32::MAX as nat) is Some,
        r matches Some(v) ==> v == hex_at(words(args@), i as int, u32::MAX as nat)->0,
{
    if i < args.len() {
        match parse_hex(args[i].as_str()) {
            Some(v) => if v <= u32::MAX as u64 {
                Some(v as u32)
            } else {
                None
            },
            None => None,
        }
    } else {
        None
    }
}

fn put_bool(s: &mut String, b: bool)
    ensures
        final(s)@ == old(s)@ + bool_text(b),
{
    put(
        s,
        if b {
            "true"
        } else {
            "false"
        },
    );
}

fn show_status(r: &BoardRegs, running: bool, h: &SharedHeader) -> (s: String)
    ensures
        s@ == status_text(*r, running, *h),
{
    let mut s: String = "=== Ultra64 Status ===\n  running         : ".to_string();
    put_bool(&mut s, running);
    put(&mut s, "\n  dram_page       : ");
    put_dec(&mut s, r.dram_page as u64);
    put(&mut s, "  (window 1f500000–1f5fffff)\n  n64_in_reset    : ");
    put_bool(&mut s, r.n64_in_reset);
    put(&mut s, "\n  gio_int_pending : ");
    put_bool(&mut s, r.gio_int_pending);
    put(&mut s, "\n  gio_int_payload : 0x");
    put_hex_fixed(&mut s, r.gio_int_payload as u64, 2);
    put(&mut s, "\n  gio_sync        : 0x");
    put_hex_fixed(&mut s, r.gio_sync as u64, 2);
    put(&mut s, "\n  cart_int_payload: 0x");
    put_hex_fixed(&mut s, r.cart_int_payload as u64, 2);
    put(&mut s, "\n  rdb_r_int       : ");
    put_bool(&mut s, r.rdb_r_int);
    put(&mut s, "\n  rdb_w_int       : ");
    put_bool(&mut s, r.rdb_w_int);
    put(&mut s, "\n  rdb_h2n         : 0x");
    put_hex_fixed(&mut s, r.rdb_h2n as u64, 8);
    put(&mut s, "\n  rdb_n2h         : 0x");
    put_hex_fixed(&mut s, r.rdb_n2h as u64, 8);
    put(&mut s, "\n  rdb_n2h_ack     : ");
    put_dec(&mut s, r.rdb_n2h_ack as u64);
    put(&mut s, "\n  --- shm header ---\n  magic           : ");
    put_hex_fixed(&mut s, h.magic as u64, 8);
    put(&mut s, "\n  version         : ");
    put_dec(&mut s, h.version as u64);
    put(&mut s, "\n  h2n_ring head/tail: ");
    put_dec(&mut s, h.h2n_head as u64);
    put(&mut s, "/");
    put_dec(&mut s, h.h2n_tail as u64);
    put(&mut s, "\n  n2h_ring head/tail: ");
    put_dec(&mut s, h.n2h_head as u64);
    put(&mut s, "/");
    put_dec(&mut s, h.n2h_tail as u64);
    put(&mut s, "\n");
    s
}

fn refuse_dump(off: usize, size: usize) -> (r: UltraStep)
    ensures
        r@ == UltraStepView::Reply(refused(dump_refused(off as nat, size as nat))),
{
    let mut s: String = "ultra dump: range 0x".to_string();
    put_hex(&mut s, off as u64);
    put(&mut s, "+0x");
    put_hex(&mut s, size as u64);
    put(&mut s, " exceeds RAMROM (0x1000000)");
    UltraStep::Reply(Reply::fail(s))
}

fn parse_dump(args: &[String]) -> (r: UltraStep)
    ensures
        r@ == dump_command(words(args@)),
{
    match (hex_word(args, 1), hex_word(args, 2)) {
        (Some(o), Some(n)) => {
            let off: usize = o / 4 * 4;
            if n > usize::MAX - 3 {
                return refuse_dump(off, n);
            }
            let size: usize = (n + 3) / 4 * 4;
            if off > RAMROM_TOTAL || size > RAMROM_TOTAL - off {
                return refuse_dump(off, size);
            }
            UltraStep::Dump { off, size }
        },
        _ => UltraStep::Reply(Reply::refuse("usage: ultra dump <hex_offset> <hex_size>")),
    }
}

impl Board {
    /// Begins a command about the board.
    pub fn execute_command(&mut self, args: &[String], running: bool, h: &SharedHeader) -> (r:
        UltraStep)
        requires
            old(self).wf(),
        ensures
            final(self).wf(),
            (r@, final(self)@) == old(self)@.command(words(args@), running, *h),
    {
        if is_word(args, 0, "status") {
            UltraStep::Reply(Reply::say(show_status(&self.regs, running, h)))
        } else if is_word(args, 0, "send") {
            self.send_interrupt(args)
        } else if is_word(args, 0, "reset") {
            self.send(N64Message::ResetAssert);
            UltraStep::Reply(Reply::tell("N64 reset asserted\n"))
        } else if is_word(args, 0, "r") {
            match hex_word32(args, 1) {
                Some(o) => UltraStep::ReadWord(o as usize % RAMROM_TOTAL / 4 * 4),
                None => UltraStep::Reply(Reply::refuse("usage: ultra r <hex_offset>")),
            }
        } else if is_word(args, 0, "w") {
            match (hex_word32(args, 1), hex_word32(args, 2)) {
                (Some(o), Some(v)) => UltraStep::WriteWord(o as usize % RAMROM_TOTAL / 4 * 4, v),
                _ => UltraStep::Reply(Reply::refuse("usage: ultra w <hex_offset> <hex_val>")),
            }
        } else if is_word(args, 0, "dump") {
            parse_dump(args)
        } else if is_word(args, 0, "disasm") {
            match hex_word(args, 1) {
                Some(o) => UltraStep::Disassemble {
                    off: o / 4 * 4,
                    count: match hex_word(args, 2) {
                        Some(n) => n,
                        None => 16,
                    },
                },
                None => UltraStep::Reply(Reply::refuse("usage: ultra disasm <hex_offset> <count>")),
            }
        } else if is_word(args, 0, "load") {
            if args.len() < 2 {
                UltraStep::Reply(Reply::refuse("usage: ultra load <path> [hex_offset]"))
            } else {
                UltraStep::Load {
                    path: args[1].as_str().to_string(),
                    off: match hex_word(args, 2) {
                        Some(n) => n,
                        None => 0,
                    },
                }
            }
        } else {
            UltraStep::Reply(
                Reply::tell(
                    "ultra status | send <hex> | reset | r <offset> | w <offset> <val> | dump <offset> <size> | disasm <offset> <count> | load <path> [offset]\n",
                ),
            )
        }
    }

    fn send_interrupt(&mut self, args: &[String]) -> (r: UltraStep)
        requires
            old(self).wf(),
        ensures
            final(self).wf(),
            (r@, final(self)@) == old(self)@.send_command(words(args@)),
    {
        match hex_word32(args, 1) {
            Some(v) => {
                let payload: u32 = v & 0x3F;
                assert(v & 0x3F < 64) by (bit_vector);
                self.regs.cart_int_payload = payload;
                self.send(N64Message::CartInt(payload));
                let mut s: String = "CART_INT sent: payload=0x".to_string();
                put_hex_fixed(&mut s, payload as u64, 2);
                put(&mut s, "\n");
                UltraStep::Reply(Reply::say(s))
            },
            None => UltraStep::Reply(Reply::refuse("usage: ultra send <hex6>")),
        }
    }
}

/// What is said of a word that was read. `raw` is the word as a host with the low byte
/// first sees it.
pub fn show_word(off: usize, raw: u32, word: u32) -> (s: String)
    ensures
        s@ == "RAMROM[0x"@ + hex_fixed(off as nat, 6) + "] = "@ + hex_fixed(raw as nat, 8)
            + "  (raw BE bytes → logical "@ + hex_fixed(word as nat, 8) + ")\n"@,
{
    let mut s: String = "RAMROM[0x".to_string();
    put_hex_fixed(&mut s, off as u64, 6);
    put(&mut s, "] = ");
    put_hex_fixed(&mut s, raw as u64, 8);
    put(&mut s, "  (raw BE bytes → logical ");
    put_hex_fixed(&mut s, word as u64, 8);
    put(&mut s, ")\n");
    s
}

/// What is said of a word that was written.
pub fn show_written(off: usize, val: u32) -> (s: String)
    ensures
        s@ == "RAMROM[0x"@ + hex_fixed(off as nat, 6) + "] ← "@ + hex_fixed(val as nat, 8)
            + "  (stored BE)\n"@,
{
    let mut s: String = "RAMROM[0x".to_string();
    put_hex_fixed(&mut s, off as u64, 6);
    put(&mut s, "] ← ");
    put_hex_fixed(&mut s, val as u64, 8);
    put(&mut s, "  (stored BE)\n");
    s
}

/// The words of a row, from number `j` on, after `text`.
pub open spec fn row_words(text: Seq<char>, b: Seq<u8>, at: nat, j: nat) -> Seq<char>
    decreases 4 - j,
{
    if j < 4 && at + j * 4 + 4 <= b.len() {
        row_words(
            text + " "@ + hex_fixed(
                number_of_bytes(b.subrange((at + j * 4) as int, (at + j * 4 + 4) as int)) as nat,
                8,
            ),
            b,
            at,
            j + 1,
        )
    } else {
        text
    }
}

/// The rows of a dump of `b`, which starts at `off`, from the byte `at` on, after `text`.
pub open spec fn dump_rows(text: Seq<char>, off: nat, b: Seq<u8>, at: nat) -> Seq<char>
    decreases b.len() + 16 - at,
{
    if at < b.len() {
        dump_rows(
            row_words(text + "  "@ + hex_fixed((off + at) as nat, 8) + ": "@, b, at, 0) + "\n"@,
            off,
            b,
            at + 16,
        )
    } else {
        text
    }
}

/// A dump of `b`, which starts at `off` in memory.
pub fn show_dump(off: usize, b: &Vec<u8>) -> (s: String)
    requires
        off + b@.len() <= RAMROM_TOTAL,
    ensures
        s@ == dump_rows(Seq::empty(), off as nat, b@, 0),
{
    let mut s: String = String::new();
    assert(s@ =~= Seq::<char>::empty());
    let n: usize = b.len();
    let mut at: usize = 0;
    while at < n
        invariant
            n == b@.len(),
            off + n <= RAMROM_TOTAL,
            at <= n + 16,
            dump_rows(s@, off as nat, b@, at as nat) == dump_rows(
                Seq::empty(),
                off as nat,
                b@,
                0,
            ),
        decreases n + 16 - at,
    {
        put(&mut s, "  ");
        put_hex_fixed(&mut s, (off + at) as u64, 8);
        put(&mut s, ": ");
        let ghost start = s@;
        let mut j: usize = 0;
        while j < 4 && at + j * 4 + 4 <= n
            invariant
                j <= 4,
                n == b@.len(),
                at < n <= RAMROM_TOTAL,
                row_words(s@, b@, at as nat, j as nat) == row_words(start, b@, at as nat, 0),
            decreases 4 - j,
        {
            put(&mut s, " ");
            put_hex_fixed(&mut s, read_big_endian(b, at + j * 4, 4), 8);
            j = j + 1;
        }
        put(&mut s, "\n");
        at = at + 16;
    }
    s
}

/// Places of the instructions of a listing: at most `count` from `off` on, as far as
/// memory goes.
pub open spec fn listed_places(off: nat, count: nat) -> nat {
    if off + 4 > RAMROM_TOTAL {
        0
    } else if count <= (RAMROM_TOTAL - off) / 4 {
        count
    } else {
        ((RAMROM_TOTAL - off) / 4) as nat
    }
}

/// How many instructions a listing has.
pub fn listing_length(off: usize, count: usize) -> (n: usize)
    ensures
        n == listed_places(off as nat, count as nat),
        n > 0 ==> off + n * 4 <= RAMROM_TOTAL,
{
    if off > RAMROM_TOTAL - 4 {
        return 0;
    }
    let most: usize = (RAMROM_TOTAL - off) / 4;
    if count <= most {
        count
    } else {
        most
    }
}

/// An instruction of a listing; `dis` is its disassembly.
pub fn show_instruction(pos: usize, instr: u32, dis: &str) -> (s: String)
    ensures
        s@ == "  "@ + hex_fixed(pos as nat, 8) + ": "@ + hex_fixed(instr as nat, 8) + "  "@ + dis@
            + "\n"@,
{
    let mut s: String = "  ".to_string();
    put_hex_fixed(&mut s, pos as u64, 8);
    put(&mut s, ": ");
    put_hex_fixed(&mut s, instr as u64, 8);
    put(&mut s, "  ");
    put(&mut s, dis);
    put(&mut s, "\n");
    s
}

/// The reply to a request to load a file of `len` bytes at `off`: what is said when it
/// was loaded, or why it does not fit.
pub fn load_reply(path: &str, len: usize, off: usize) -> (r: Reply)
    ensures
        r@ == if off + len > RAMROM_TOTAL {
            refused(
                "ultra load: file ("@ + dec(len as nat) + " bytes) + offset 0x"@ + hex(off as nat)
                    + " exceeds RAMROM (0x1000000)"@,
            )
        } else {
            said(
                "RAMROM ← "@ + dec(len as nat) + " bytes from \""@ + path@ + "\" at offset 0x"@
                    + hex(off as nat) + "\n"@,
            )
        },
{
    if off > RAMROM_TOTAL || len > RAMROM_TOTAL - off {
        let mut s: String = "ultra load: file (".to_string();
        put_dec(&mut s, len as u64);
        put(&mut s, " bytes) + offset 0x");
        put_hex(&mut s, off as u64);
        put(&mut s, " exceeds RAMROM (0x1000000)");
        return Reply::fail(s);
    }
    let mut s: String = "RAMROM ← ".to_string();
    put_dec(&mut s, len as u64);
    put(&mut s, " bytes from \"");
    put(&mut s, path);
    put(&mut s, "\" at offset 0x");
    put_hex(&mut s, off as u64);
    put(&mut s, "\n");
    Reply::say(s)
}

} // verus!

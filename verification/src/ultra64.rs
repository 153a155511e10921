//! The development board for Nintendo 64 games: its registers, its memory, and what it
//! sends to and takes from the game console.
//!
//! The board's memory of 16 MB is what both sides share. The host sees 1 MB of it at a
//! time through a window.
use vstd::prelude::*;

use crate::bus::{BusDevice, BusRead16, BusRead32, BusRead64, BusRead8, BUS_OK};
use crate::bytes::{
    big_endian, law_bytes_make_their_number, lemma_number_bound, number_of_bytes, read_big_endian,
    with_bytes, write_big_endian,
};

verus! {

/// Registers of the board.
pub const GIO_SLOT0_BASE: u32 = 0x1F40_0000;

/// The port through which debuggers on both sides talk.
pub const RDB_BASE: u32 = 0x1F48_0000;

/// The window on the board's memory.
pub const RAMROM_BASE: u32 = 0x1F50_0000;

pub const RAMROM_SIZE: u32 = 0x10_0000;

/// The board's memory.
pub const RAMROM_TOTAL: usize = 0x100_0000;

pub const PROD_ID: u32 = 0x000;

pub const RESET_CTRL: u32 = 0x400;

/// The page register answers at two places.
pub const DRAM_PAGE: u32 = 0x600;

pub const DRAM_PAGE_ALIAS: u32 = 0xA00;

pub const CART_INT: u32 = 0x800;

pub const GIO_INT_ACK: u32 = 0xC00;

pub const GIO_SYNC: u32 = 0xE00;

/// Packets from the console, and to it.
pub const RDB_PACKET: u32 = 0x0;

pub const RDB_WRITE_INTR: u32 = 0x8;

pub const RDB_READ_INTR: u32 = 0xC;

/// What the board sends to the console.
#[derive(Clone, Copy, Debug, PartialEq, Eq, Structural)]
pub enum N64Message {
    CartInt(u32),
    ResetAssert,
    ResetDeassert,
    NmiAssert,
    RdbWrite(u32),
    RdbAck(u32),
}

/// What the console sends to the board.
#[derive(Clone, Copy, Debug, PartialEq, Eq, Structural)]
pub enum HostMessage {
    GioInt(u32),
    GioSync(u32),
    /// The console has read a debugger's packet.
    RdbRead,
    RdbWrite(u32),
    Unknown,
}

/// Registers of the board.
#[derive(Clone, Copy, Debug, PartialEq, Eq, Structural)]
pub struct BoardRegs {
    /// The megabyte of memory in the window.
    pub dram_page: u32,
    pub n64_in_reset: bool,
    pub gio_int_pending: bool,
    pub gio_int_payload: u32,
    pub gio_sync: u32,
    pub cart_int_payload: u32,
    pub rdb_r_int: bool,
    pub rdb_w_int: bool,
    /// Last packet to the console.
    pub rdb_h2n: u32,
    /// Last packet from the console.
    pub rdb_n2h: u32,
    pub rdb_n2h_ack: u32,
    /// The board's interrupt line to the host.
    pub line: bool,
    /// The console is to be woken up.
    pub signal: bool,
}

/// The registers, and the messages that wait to be sent.
pub struct Board {
    pub regs: BoardRegs,
    pub outbox: Vec<N64Message>,
}

#[verifier::ext_equal]
pub struct BoardState {
    pub regs: BoardRegs,
    pub outbox: Seq<N64Message>,
}

/// What an address of the board is.
#[derive(Clone, Copy, Debug, PartialEq, Eq, Structural)]
pub enum Place {
    /// A register of the debuggers' port.
    Port(u32),
    /// A byte of the window.
    Window(u32),
    /// A register of the board.
    Slot(u32),
}

pub open spec fn place(addr: u32) -> Place {
    if RDB_BASE <= addr < RDB_BASE + 0x10 {
        Place::Port((addr - RDB_BASE) as u32)
    } else if RAMROM_BASE <= addr < RAMROM_BASE + RAMROM_SIZE {
        Place::Window((addr - RAMROM_BASE) as u32)
    } else {
        Place::Slot(addr.wrapping_sub(GIO_SLOT0_BASE))
    }
}

fn place_of(addr: u32) -> (p: Place)
    ensures
        p == place(addr),
{
    if addr >= RDB_BASE && addr < RDB_BASE + 0x10 {
        Place::Port(addr - RDB_BASE)
    } else if addr >= RAMROM_BASE && addr < RAMROM_BASE + RAMROM_SIZE {
        Place::Window(addr - RAMROM_BASE)
    } else {
        Place::Slot(addr.wrapping_sub(GIO_SLOT0_BASE))
    }
}

impl BoardRegs {
    /// The payloads are of 6 bits, and the page is one of 16.
    pub open spec fn wf(&self) -> bool {
        self.dram_page < 16 && self.gio_int_payload < 64 && self.gio_sync < 64
            && self.cart_int_payload < 64
    }

    /// Product number, with a bit for each of the debuggers' interrupts.
    pub open spec fn product(&self) -> u32 {
        0x15u32 | (if self.rdb_r_int {
            0x4000_0000u32
        } else {
            0
        }) | (if self.rdb_w_int {
            0x8000_0000u32
        } else {
            0
        })
    }

    /// Place of the window's byte `offset` in memory, if a word is there.
    pub open spec fn in_memory(&self, offset: u32) -> Option<int> {
        let at = self.dram_page * RAMROM_SIZE + offset;
        if at + 4 <= RAMROM_TOTAL {
            Some(at)
        } else {
            None
        }
    }
}

impl BoardState {
    /// A message is put into the outbox, and the console is to be woken up.
    pub open spec fn sending(self, m: N64Message) -> BoardState {
        BoardState {
            regs: BoardRegs { signal: true, ..self.regs },
            outbox: self.outbox.push(m),
        }
    }

    pub open spec fn with_regs(self, regs: BoardRegs) -> BoardState {
        BoardState { regs, ..self }
    }

    /// The read of a register.
    pub open spec fn read_register(self, p: Place) -> (u32, BoardState) {
        let r = self.regs;
        match p {
            Place::Port(o) => if o == RDB_PACKET {
                let ack = r.rdb_n2h_ack.wrapping_add(1);
                (
                    r.rdb_n2h,
                    self.with_regs(BoardRegs { rdb_n2h_ack: ack, ..r }).sending(
                        N64Message::RdbAck(ack),
                    ),
                )
            } else {
                (0, self)
            },
            Place::Slot(o) => if o == PROD_ID {
                (r.product(), self)
            } else if o == DRAM_PAGE || o == DRAM_PAGE_ALIAS {
                (r.dram_page << 20, self)
            } else if o == CART_INT {
                (r.cart_int_payload & 0x3F, self)
            } else if o == GIO_INT_ACK {
                (
                    r.gio_int_payload & 0x1F,
                    self.with_regs(BoardRegs { gio_int_pending: false, line: false, ..r }),
                )
            } else if o == GIO_SYNC {
                (r.gio_sync & 0x1F, self)
            } else {
                (0, self)
            },
            Place::Window(_) => (0, self),
        }
    }

    /// A new value of the reset register: the console hears of changes of the reset, and
    /// of each request for an NMI.
    pub open spec fn reset_control(self, val: u32) -> BoardState {
        let r = self.regs;
        let reset = val & 2 != 0;
        let a = self.with_regs(BoardRegs { n64_in_reset: reset, signal: true, ..r });
        let b = if reset && !r.n64_in_reset {
            a.sending(N64Message::ResetAssert)
        } else if !reset && r.n64_in_reset {
            a.sending(N64Message::ResetDeassert)
        } else {
            a
        };
        if val & 4 != 0 {
            b.sending(N64Message::NmiAssert)
        } else {
            b
        }
    }

    /// The write of a register.
    pub open spec fn write_register(self, p: Place, val: u32) -> BoardState {
        let r = self.regs;
        match p {
            Place::Port(o) => if o == RDB_PACKET {
                self.with_regs(BoardRegs { rdb_h2n: val, ..r }).sending(N64Message::RdbWrite(val))
            } else if o == RDB_WRITE_INTR {
                self.with_regs(BoardRegs { rdb_w_int: false, line: false, ..r })
            } else if o == RDB_READ_INTR {
                let ack = r.rdb_n2h_ack.wrapping_add(1);
                self.with_regs(
                    BoardRegs { rdb_r_int: false, line: false, rdb_n2h_ack: ack, ..r },
                ).sending(N64Message::RdbAck(ack))
            } else {
                self
            },
            Place::Slot(o) => if o == RESET_CTRL {
                self.reset_control(val)
            } else if o == CART_INT {
                self.with_regs(BoardRegs { cart_int_payload: val & 0x3F, ..r }).sending(
                    N64Message::CartInt(val & 0x3F),
                )
            } else if o == DRAM_PAGE || o == DRAM_PAGE_ALIAS {
                self.with_regs(BoardRegs { dram_page: (val >> 20) & 0xF, ..r })
            } else {
                self
            },
            Place::Window(_) => self,
        }
    }

    /// A message from the console.
    pub open spec fn receiving(self, m: HostMessage) -> BoardState {
        let r = self.regs;
        self.with_regs(
            match m {
                HostMessage::GioInt(p) => BoardRegs {
                    gio_int_pending: true,
                    gio_int_payload: p & 0x3F,
                    line: true,
                    ..r
                },
                HostMessage::GioSync(p) => BoardRegs { gio_sync: p & 0x3F, ..r },
                HostMessage::RdbRead => BoardRegs { rdb_r_int: true, line: true, ..r },
                HostMessage::RdbWrite(p) => BoardRegs {
                    rdb_n2h: p,
                    rdb_w_int: true,
                    line: true,
                    ..r
                },
                HostMessage::Unknown => r,
            },
        )
    }
}

/// What a read or a write comes to.
#[derive(Clone, Copy, Debug, PartialEq, Eq, Structural)]
pub enum BoardAccess {
    /// It is done; a read gave this value.
    Value(u32),
    /// It is a word of memory at this place.
    Memory(usize),
}

proof fn lemma_fields(v: u32)
    ensures
        v & 0x3F < 64,
        (v >> 20u32) & 0xF < 16,
        ((v >> 20u32) & 0xFu32) << 20u32 == v & 0xF0_0000,
        (v & 0x3F) & 0x3F == v & 0x3F,
        (v & 0x3F) & 0x1F == v & 0x1F,
        (v as u64) & 0xFFFF_FFFF == v as u64,
{
    crate::bits::lemma_bits_of_word(v);
}

impl BoardState {
    /// A board that has just been switched on.
    pub open spec fn initial() -> BoardState {
        BoardState {
            regs: BoardRegs {
                dram_page: 0,
                n64_in_reset: false,
                gio_int_pending: false,
                gio_int_payload: 0,
                gio_sync: 0,
                cart_int_payload: 0,
                rdb_r_int: false,
                rdb_w_int: false,
                rdb_h2n: 0,
                rdb_n2h: 0,
                rdb_n2h_ack: 0,
                line: false,
                signal: false,
            },
            outbox: Seq::empty(),
        }
    }
}

impl Board {
    pub open spec fn view(&self) -> BoardState {
        BoardState { regs: self.regs, outbox: self.outbox@ }
    }

    pub open spec fn wf(&self) -> bool {
        self.regs.wf()
    }

    pub fn new() -> (b: Self)
        ensures
            b.wf(),
            b@ == BoardState::initial(),
    {
        Board {
            regs: BoardRegs {
                dram_page: 0,
                n64_in_reset: false,
                gio_int_pending: false,
                gio_int_payload: 0,
                gio_sync: 0,
                cart_int_payload: 0,
                rdb_r_int: false,
                rdb_w_int: false,
                rdb_h2n: 0,
                rdb_n2h: 0,
                rdb_n2h_ack: 0,
                line: false,
                signal: false,
            },
            outbox: Vec::new(),
        }
    }

    pub(crate) fn send(&mut self, m: N64Message)
        requires
            old(self).wf(),
        ensures
            final(self).wf(),
            final(self)@ == old(self)@.sending(m),
    {
        self.regs.signal = true;
        self.outbox.push(m);
    }

    /// The messages that wait to be sent. There are none after that, and the console has
    /// been woken up.
    pub fn take_messages(&mut self) -> (v: Vec<N64Message>)
        requires
            old(self).wf(),
        ensures
            final(self).wf(),
            v@ == old(self)@.outbox,
            final(self)@ == (BoardState {
                regs: BoardRegs { signal: false, ..old(self)@.regs },
                outbox: Seq::empty(),
            }),
    {
        let mut v: Vec<N64Message> = Vec::new();
        v.append(&mut self.outbox);
        self.regs.signal = false;
        assert(v@ =~= old(self)@.outbox);
        v
    }

    /// Takes a message from the console.
    pub fn receive(&mut self, m: HostMessage)
        requires
            old(self).wf(),
        ensures
            final(self).wf(),
            final(self)@ == old(self)@.receiving(m),
    {
        match m {
            HostMessage::GioInt(p) => {
                proof {
                    lemma_fields(p);
                }
                self.regs.gio_int_pending = true;
                self.regs.gio_int_payload = p & 0x3F;
                self.regs.line = true;
            },
            HostMessage::GioSync(p) => {
                proof {
                    lemma_fields(p);
                }
                self.regs.gio_sync = p & 0x3F;
            },
            HostMessage::RdbRead => {
                self.regs.rdb_r_int = true;
                self.regs.line = true;
            },
            HostMessage::RdbWrite(p) => {
                self.regs.rdb_n2h = p;
                self.regs.rdb_w_int = true;
                self.regs.line = true;
            },
            HostMessage::Unknown => {},
        }
    }

    fn memory_place(&self, offset: u32) -> (r: Option<usize>)
        requires
            self.wf(),
            offset < RAMROM_SIZE,
        ensures
            r is Some == self.regs.in_memory(offset) is Some,
            r matches Some(at) ==> at == self.regs.in_memory(offset)->0 && at + 4 <= RAMROM_TOTAL,
    {
        let at: usize = self.regs.dram_page as usize * RAMROM_SIZE as usize + offset as usize;
        if at + 4 <= RAMROM_TOTAL {
            Some(at)
        } else {
            None
        }
    }

    /// A read of the word at `addr`. A word past the end of memory reads as zero.
    pub fn read(&mut self, addr: u32) -> (r: BoardAccess)
        requires
            old(self).wf(),
        ensures
            final(self).wf(),
            match place(addr) {
                Place::Window(o) => final(self)@ == old(self)@ && match old(
                    self,
                )@.regs.in_memory(o) {
                    Some(at) => r matches BoardAccess::Memory(x) && x == at,
                    None => r == BoardAccess::Value(0),
                },
                p => r == BoardAccess::Value(old(self)@.read_register(p).0) && final(self)@ == old(
                    self,
                )@.read_register(p).1,
            },
    {
        match place_of(addr) {
            Place::Window(o) => match self.memory_place(o) {
                Some(at) => BoardAccess::Memory(at),
                None => BoardAccess::Value(0),
            },
            Place::Port(o) => {
                if o == RDB_PACKET {
                    let val: u32 = self.regs.rdb_n2h;
                    let ack: u32 = self.regs.rdb_n2h_ack.wrapping_add(1);
                    self.regs.rdb_n2h_ack = ack;
                    self.send(N64Message::RdbAck(ack));
                    BoardAccess::Value(val)
                } else {
                    BoardAccess::Value(0)
                }
            },
            Place::Slot(o) => BoardAccess::Value(self.read_slot(o)),
        }
    }

    fn read_slot(&mut self, o: u32) -> (v: u32)
        requires
            old(self).wf(),
        ensures
            final(self).wf(),
            (v, final(self)@) == old(self)@.read_register(Place::Slot(o)),
    {
        if o == PROD_ID {
            0x15u32 | (if self.regs.rdb_r_int {
                0x4000_0000u32
            } else {
                0
            }) | (if self.regs.rdb_w_int {
                0x8000_0000u32
            } else {
                0
            })
        } else if o == DRAM_PAGE || o == DRAM_PAGE_ALIAS {
            self.regs.dram_page << 20
        } else if o == CART_INT {
            self.regs.cart_int_payload & 0x3F
        } else if o == GIO_INT_ACK {
            self.regs.gio_int_pending = false;
            self.regs.line = false;
            self.regs.gio_int_payload & 0x1F
        } else if o == GIO_SYNC {
            self.regs.gio_sync & 0x1F
        } else {
            0
        }
    }

    /// A write of the word at `addr`. One past the end of memory is lost.
    pub fn write(&mut self, addr: u32, val: u32) -> (r: BoardAccess)
        requires
            old(self).wf(),
        ensures
            final(self).wf(),
            match place(addr) {
                Place::Window(o) => final(self)@ == old(self)@ && match old(
                    self,
                )@.regs.in_memory(o) {
                    Some(at) => r matches BoardAccess::Memory(x) && x == at,
                    None => r == BoardAccess::Value(0),
                },
                p => r == BoardAccess::Value(0) && final(self)@ == old(self)@.write_register(
                    p,
                    val,
                ),
            },
    {
        match place_of(addr) {
            Place::Window(o) => {
                return match self.memory_place(o) {
                    Some(at) => BoardAccess::Memory(at),
                    None => BoardAccess::Value(0),
                };
            },
            Place::Port(o) => {
                if o == RDB_PACKET {
                    self.regs.rdb_h2n = val;
                    self.send(N64Message::RdbWrite(val));
                } else if o == RDB_WRITE_INTR {
                    self.regs.rdb_w_int = false;
                    self.regs.line = false;
                } else if o == RDB_READ_INTR {
                    self.regs.rdb_r_int = false;
                    let ack: u32 = self.regs.rdb_n2h_ack.wrapping_add(1);
                    self.regs.rdb_n2h_ack = ack;
                    self.regs.line = false;
                    self.send(N64Message::RdbAck(ack));
                }
            },
            Place::Slot(o) => self.write_slot(o, val),
        }
        BoardAccess::Value(0)
    }

    fn write_slot(&mut self, o: u32, val: u32)
        requires
            old(self).wf(),
        ensures
            final(self).wf(),
            final(self)@ == old(self)@.write_register(Place::Slot(o), val),
    {
        proof {
            lemma_fields(val);
        }
        if o == RESET_CTRL {
            let reset: bool = val & 2 != 0;
            let was: bool = self.regs.n64_in_reset;
            self.regs.n64_in_reset = reset;
            self.regs.signal = true;
            if reset && !was {
                self.send(N64Message::ResetAssert);
            } else if !reset && was {
                self.send(N64Message::ResetDeassert);
            }
            if val & 4 != 0 {
                self.send(N64Message::NmiAssert);
            }
        } else if o == CART_INT {
            self.regs.cart_int_payload = val & 0x3F;
            self.send(N64Message::CartInt(val & 0x3F));
        } else if o == DRAM_PAGE || o == DRAM_PAGE_ALIAS {
            self.regs.dram_page = (val >> 20) & 0xF;
        }
    }
}

/// The board with its memory.
pub struct Ultra64 {
    pub board: Board,
    pub ramrom: Vec<u8>,
}

#[verifier::ext_equal]
pub struct Ultra64State {
    pub board: BoardState,
    pub ramrom: Seq<u8>,
}

impl Ultra64State {
    /// The word of memory at `at`. It is stored high byte first, as the console has it.
    pub open spec fn word(&self, at: int) -> u32 {
        number_of_bytes(self.ramrom.subrange(at, at + 4)) as u32
    }

    pub open spec fn with_word(self, at: int, val: u32) -> Ultra64State {
        Ultra64State { ramrom: with_bytes(self.ramrom, at, big_endian(val as u64, 4)), ..self }
    }

    pub open spec fn read32(self, addr: u32) -> (u32, Ultra64State) {
        match place(addr) {
            Place::Window(o) => match self.board.regs.in_memory(o) {
                Some(at) => (self.word(at), self),
                None => (0, self),
            },
            p => {
                let (v, board) = self.board.read_register(p);
                (v, Ultra64State { board, ..self })
            },
        }
    }

    pub open spec fn write32(self, addr: u32, val: u32) -> Ultra64State {
        match place(addr) {
            Place::Window(o) => match self.board.regs.in_memory(o) {
                Some(at) => self.with_word(at, val),
                None => self,
            },
            p => Ultra64State { board: self.board.write_register(p, val), ..self },
        }
    }

    /// Reads of other sizes: parts of a word, or two words.
    pub open spec fn read(self, size: usize, addr: u32) -> (u64, Ultra64State) {
        let aligned = (addr - addr % 4) as u32;
        if size == 1 {
            let (w, s) = self.read32(aligned);
            (((w >> byte_shift(addr)) & 0xFF) as u64, s)
        } else if size == 2 {
            let (w, s) = self.read32(aligned);
            (((w >> half_shift(addr)) & 0xFFFF) as u64, s)
        } else if size == 4 {
            let (w, s) = self.read32(addr);
            (w as u64, s)
        } else {
            let (hi, s) = self.read32(addr);
            let (lo, t) = s.read32(addr.wrapping_add(4));
            (((hi as u64) << 32) | (lo as u64), t)
        }
    }

    /// Writes of other sizes: a part of a word is merged with what is read there.
    pub open spec fn write(self, size: usize, addr: u32, val: u64) -> Ultra64State {
        let aligned = (addr - addr % 4) as u32;
        if size == 1 {
            let (w, s) = self.read32(aligned);
            let k = byte_shift(addr);
            s.write32(aligned, (w & !(0xFFu32 << k)) | ((val as u8 as u32) << k))
        } else if size == 2 {
            let (w, s) = self.read32(aligned);
            let k = half_shift(addr);
            s.write32(aligned, (w & !(0xFFFFu32 << k)) | ((val as u16 as u32) << k))
        } else if size == 4 {
            self.write32(addr, val as u32)
        } else {
            self.write32(addr, (val >> 32) as u32).write32(addr.wrapping_add(4), val as u32)
        }
    }
}

/// Place of a byte in its word.
pub open spec fn byte_shift(addr: u32) -> u32 {
    (8 * (3 - addr % 4)) as u32
}

/// Place of a halfword in its word.
pub open spec fn half_shift(addr: u32) -> u32 {
    if addr % 4 < 2 {
        16
    } else {
        0
    }
}

proof fn lemma_parts(w: u32, k: u32)
    requires
        k < 32,
    ensures
        (w >> k) & 0xFF <= 0xFF,
        (w >> k) & 0xFFFF <= 0xFFFF,
{
    crate::bits::lemma_bits_of_words(w, k);
}

/// The byte at `addr` of the word that holds it.
pub fn byte_of(word: u32, addr: u32) -> (b: u8)
    ensures
        b == (word >> byte_shift(addr)) & 0xFF,
{
    let k: u32 = 8 * (3 - addr % 4);
    proof {
        lemma_parts(word, k);
    }
    ((word >> k) & 0xFF) as u8
}

/// The halfword at `addr` of the word that holds it.
pub fn half_of(word: u32, addr: u32) -> (h: u16)
    ensures
        h == (word >> half_shift(addr)) & 0xFFFF,
{
    let k: u32 = half_shift_of(addr);
    proof {
        lemma_parts(word, k);
    }
    ((word >> k) & 0xFFFF) as u16
}

/// The word with `val` as its byte at `addr`.
pub fn with_byte(word: u32, addr: u32, val: u8) -> (w: u32)
    ensures
        w == (word & !(0xFFu32 << byte_shift(addr))) | ((val as u32) << byte_shift(addr)),
{
    let k: u32 = 8 * (3 - addr % 4);
    (word & !(0xFFu32 << k)) | ((val as u32) << k)
}

/// The word with `val` as its halfword at `addr`.
pub fn with_half(word: u32, addr: u32, val: u16) -> (w: u32)
    ensures
        w == (word & !(0xFFFFu32 << half_shift(addr))) | ((val as u32) << half_shift(addr)),
{
    let k: u32 = half_shift_of(addr);
    (word & !(0xFFFFu32 << k)) | ((val as u32) << k)
}

fn half_shift_of(addr: u32) -> (k: u32)
    ensures
        k == half_shift(addr),
{
    if addr % 4 < 2 {
        16
    } else {
        0
    }
}

impl Ultra64 {
    pub open spec fn view(&self) -> Ultra64State {
        Ultra64State { board: self.board@, ramrom: self.ramrom@ }
    }

    pub open spec fn wf(&self) -> bool {
        self.board.wf() && self.ramrom@.len() == RAMROM_TOTAL
    }

    /// A board whose memory is all zero.
    pub fn new() -> (u: Self)
        ensures
            u.wf(),
            u@.ramrom == Seq::new(RAMROM_TOTAL as nat, |i: int| 0u8),
            u@.board == BoardState::initial(),
    {
        let mut ramrom: Vec<u8> = Vec::new();
        while ramrom.len() < RAMROM_TOTAL
            invariant
                ramrom@.len() <= RAMROM_TOTAL,
                ramrom@ == Seq::new(ramrom@.len(), |i: int| 0u8),
            decreases RAMROM_TOTAL - ramrom@.len(),
        {
            ramrom.push(0);
            assert(ramrom@ =~= Seq::new(ramrom@.len(), |i: int| 0u8));
        }
        Ultra64 { board: Board::new(), ramrom }
    }

    fn read_word(&mut self, addr: u32) -> (v: u32)
        requires
            old(self).wf(),
        ensures
            final(self).wf(),
            (v, final(self)@) == old(self)@.read32(addr),
    {
        match self.board.read(addr) {
            BoardAccess::Value(v) => v,
            BoardAccess::Memory(at) => {
                proof {
                    lemma_number_bound(self.ramrom@.subrange(at as int, at + 4));
                }
                read_big_endian(&self.ramrom, at, 4) as u32
            },
        }
    }

    fn write_word(&mut self, addr: u32, val: u32)
        requires
            old(self).wf(),
        ensures
            final(self).wf(),
            final(self)@ == old(self)@.write32(addr, val),
    {
        match self.board.write(addr, val) {
            BoardAccess::Value(_) => {},
            BoardAccess::Memory(at) => {
                write_big_endian(&mut self.ramrom, at, val as u64, 4);
            },
        }
    }
}

impl BusDevice for Ultra64 {
    type St = Ultra64State;

    open spec fn state(&self) -> Ultra64State {
        self@
    }

    open spec fn inv(&self) -> bool {
        self.wf()
    }

    open spec fn read_result(s: Ultra64State, size: usize, addr: u32) -> (BusRead64, Ultra64State) {
        let (data, t) = s.read(size, addr);
        (BusRead64 { status: BUS_OK, data }, t)
    }

    open spec fn write_result(s: Ultra64State, size: usize, addr: u32, val: u64) -> (
        u32,
        Ultra64State,
    ) {
        (BUS_OK, s.write(size, addr, val))
    }

    open spec fn masked_result(s: Ultra64State, addr: u32, val: u64, mask: u64) -> (
        u32,
        Ultra64State,
    ) {
        let (w, t) = s.read(8, addr);
        (BUS_OK, t.write(8, addr, (w & !mask) | (val & mask)))
    }

    fn read8(&mut self, addr: u32) -> (r: BusRead8) {
        let w: u32 = self.read_word(addr - addr % 4);
        BusRead8::ok(byte_of(w, addr))
    }

    fn read16(&mut self, addr: u32) -> (r: BusRead16) {
        let w: u32 = self.read_word(addr - addr % 4);
        BusRead16::ok(half_of(w, addr))
    }

    fn read32(&mut self, addr: u32) -> (r: BusRead32) {
        BusRead32::ok(self.read_word(addr))
    }

    fn read64(&mut self, addr: u32) -> (r: BusRead64) {
        let hi: u32 = self.read_word(addr);
        let lo: u32 = self.read_word(addr.wrapping_add(4));
        BusRead64::ok(((hi as u64) << 32) | (lo as u64))
    }

    fn write8(&mut self, addr: u32, val: u8) -> (r: u32) {
        let aligned: u32 = addr - addr % 4;
        let w: u32 = self.read_word(aligned);
        self.write_word(aligned, with_byte(w, addr, val));
        BUS_OK
    }

    fn write16(&mut self, addr: u32, val: u16) -> (r: u32) {
        let aligned: u32 = addr - addr % 4;
        let w: u32 = self.read_word(aligned);
        self.write_word(aligned, with_half(w, addr, val));
        BUS_OK
    }

    fn write32(&mut self, addr: u32, val: u32) -> (r: u32) {
        self.write_word(addr, val);
        BUS_OK
    }

    fn write64(&mut self, addr: u32, val: u64) -> (r: u32) {
        self.write_word(addr, #[verifier::truncate] ((val >> 32) as u32));
        self.write_word(addr.wrapping_add(4), #[verifier::truncate] (val as u32));
        BUS_OK
    }

    fn write64_masked(&mut self, addr: u32, val: u64, mask: u64) -> (r: u32) {
        let hi: u32 = self.read_word(addr);
        let lo: u32 = self.read_word(addr.wrapping_add(4));
        let w: u64 = ((hi as u64) << 32) | (lo as u64);
        let n: u64 = (w & !mask) | (val & mask);
        self.write_word(addr, #[verifier::truncate] ((n >> 32) as u32));
        self.write_word(addr.wrapping_add(4), #[verifier::truncate] (n as u32));
        BUS_OK
    }
}

/// Law: a word that was written through the window is read back through it, and stands
/// in the board's memory high byte first, in the page that was selected.
pub proof fn law_window_reads_back(s: Ultra64State, addr: u32, offset: u32, val: u32)
    requires
        s.ramrom.len() == RAMROM_TOTAL,
        place(addr) == Place::Window(offset),
        s.board.regs.in_memory(offset) is Some,
    ensures
        s.write32(addr, val).read32(addr).0 == val,
        s.write32(addr, val).board == s.board,
        ({
            let at = s.board.regs.dram_page * RAMROM_SIZE + offset;
            s.write32(addr, val).ramrom.subrange(at, at + 4) == big_endian(val as u64, 4)
        }),
{
    let at = s.board.regs.in_memory(offset)->0;
    let t = s.write32(addr, val);
    law_bytes_make_their_number(val as u64, 4);
    lemma_fields(val);
    assert(t.ramrom.subrange(at, at + 4) =~= big_endian(val as u64, 4));
}

/// Law: the page register reads back at both of its addresses, whichever was written.
pub proof fn law_page_reads_back(s: BoardState, v: u32, w: u32, r: u32)
    requires
        w == DRAM_PAGE || w == DRAM_PAGE_ALIAS,
        r == DRAM_PAGE || r == DRAM_PAGE_ALIAS,
    ensures
        s.write_register(Place::Slot(w), v).read_register(Place::Slot(r)).0 == v & 0xF0_0000,
        s.write_register(Place::Slot(w), v).outbox == s.outbox,
{
    lemma_fields(v);
}

/// Law: an interrupt to the console reads back as it was sent, and the console gets it.
pub proof fn law_cart_interrupt_reads_back(s: BoardState, v: u32)
    ensures
        s.write_register(Place::Slot(CART_INT), v).read_register(Place::Slot(CART_INT)).0 == v
            & 0x3F,
        s.write_register(Place::Slot(CART_INT), v).outbox == s.outbox.push(
            N64Message::CartInt(v & 0x3F),
        ),
{
    lemma_fields(v);
}

/// Law: an interrupt from the console raises the board's line; its acknowledgement gives
/// the payload and lowers the line again.
pub proof fn law_console_interrupts_are_acknowledged(s: BoardState, v: u32)
    ensures
        s.receiving(HostMessage::GioInt(v)).regs.line,
        s.receiving(HostMessage::GioInt(v)).regs.gio_int_pending,
        ({
            let (payload, t) = s.receiving(HostMessage::GioInt(v)).read_register(
                Place::Slot(GIO_INT_ACK),
            );
            payload == v & 0x1F && !t.regs.line && !t.regs.gio_int_pending
        }),
{
    lemma_fields(v);
}

proof fn lemma_product(r: bool, w: bool)
    ensures
        ({
            let v = 0x15u32 | (if r {
                0x4000_0000u32
            } else {
                0
            }) | (if w {
                0x8000_0000u32
            } else {
                0
            });
            &&& v & 0x3FFF_FFFF == 0x15
            &&& (v & 0x4000_0000 != 0) == r
            &&& (v & 0x8000_0000 != 0) == w
        }),
{
    lemma_product_words();
}

proof fn lemma_product_words()
    ensures
        0x15u32 | 0u32 | 0u32 == 0x15,
        0x15u32 | 0x4000_0000u32 | 0u32 == 0x4000_0015,
        0x15u32 | 0u32 | 0x8000_0000u32 == 0x8000_0015,
        0x15u32 | 0x4000_0000u32 | 0x8000_0000u32 == 0xC000_0015,
        0x15u32 & 0x3FFF_FFFF == 0x15 && 0x15u32 & 0x4000_0000 == 0,
        0x15u32 & 0x8000_0000 == 0,
        0x4000_0015u32 & 0x3FFF_FFFF == 0x15 && 0x4000_0015u32 & 0x4000_0000 != 0,
        0x4000_0015u32 & 0x8000_0000 == 0,
        0x8000_0015u32 & 0x3FFF_FFFF == 0x15 && 0x8000_0015u32 & 0x4000_0000 == 0,
        0x8000_0015u32 & 0x8000_0000 != 0,
        0xC000_0015u32 & 0x3FFF_FFFF == 0x15 && 0xC000_0015u32 & 0x4000_0000 != 0,
        0xC000_0015u32 & 0x8000_0000 != 0,
{
    crate::bits::lemma_constant_bits();
}

/// Law: the product register names the board, and shows the debuggers' interrupts until
/// each is cleared by a write of its own register.
pub proof fn law_product_shows_debugger_interrupts(s: BoardState, packet: u32, v: u32)
    ensures
        ({
            let w = s.receiving(HostMessage::RdbWrite(packet));
            &&& w.regs.line
            &&& w.read_register(Place::Slot(PROD_ID)).0 & 0x8000_0000 != 0
            &&& w.read_register(Place::Port(RDB_PACKET)).0 == packet
            &&& w.write_register(Place::Port(RDB_WRITE_INTR), v).read_register(
                Place::Slot(PROD_ID),
            ).0 & 0x8000_0000 == 0
        }),
        ({
            let r = s.receiving(HostMessage::RdbRead);
            &&& r.regs.line
            &&& r.read_register(Place::Slot(PROD_ID)).0 & 0x4000_0000 != 0
            &&& r.write_register(Place::Port(RDB_READ_INTR), v).read_register(
                Place::Slot(PROD_ID),
            ).0 & 0x4000_0000 == 0
        }),
        s.read_register(Place::Slot(PROD_ID)).0 & 0x3FFF_FFFF == 0x15,
{
    lemma_product(s.regs.rdb_r_int, s.regs.rdb_w_int);
    lemma_product(s.regs.rdb_r_int, true);
    lemma_product(s.regs.rdb_r_int, false);
    lemma_product(true, s.regs.rdb_w_int);
    lemma_product(false, s.regs.rdb_w_int);
}

} // verus!

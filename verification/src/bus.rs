//! What the processor is attached to: the system bus, the cache hierarchy and the
//! translation lookaside buffer.
//!
//! Each of the three has a mathematical state, and each operation is a function of
//! that state: it gives the reply and the state after it. The state of an
//! implementation is taken to hold everything that its replies depend on.
use vstd::prelude::*;

use crate::cpu_core::AccessType;
use crate::instr::{fields_bounded, DecodedInstr};
use crate::status::{CacheAttr, ExecStatus, EXEC_COMPLETE};

use crate::toml_tree::{tree_of, Tree};

verus! {

/// Replies of the bus. They are execution statuses as well.
pub const BUS_OK: u32 = 0x0000_0000;

pub const BUS_BUSY: u32 = 0x0000_0100;

pub const BUS_ERR: u32 = 0x0800_001C;

pub const BUS_VCE: u32 = 0x0800_007C;

#[derive(Debug, Clone, Copy, PartialEq, Eq, Structural)]
pub struct BusRead8 {
    pub status: u32,
    pub data: u8,
}

#[derive(Debug, Clone, Copy, PartialEq, Eq, Structural)]
pub struct BusRead16 {
    pub status: u32,
    pub data: u16,
}

#[derive(Debug, Clone, Copy, PartialEq, Eq, Structural)]
pub struct BusRead32 {
    pub status: u32,
    pub data: u32,
}

#[derive(Debug, Clone, Copy, PartialEq, Eq, Structural)]
pub struct BusRead64 {
    pub status: u32,
    pub data: u64,
}

impl BusRead8 {
    pub fn ok(data: u8) -> (r: Self)
        ensures
            r == (BusRead8 { status: BUS_OK, data }),
    {
        BusRead8 { status: BUS_OK, data }
    }

    pub fn widen(self) -> (r: BusRead64)
        ensures
            r == (BusRead64 { status: self.status, data: self.data as u64 }),
    {
        BusRead64 { status: self.status, data: self.data as u64 }
    }
}

impl BusRead16 {
    pub fn ok(data: u16) -> (r: Self)
        ensures
            r == (BusRead16 { status: BUS_OK, data }),
    {
        BusRead16 { status: BUS_OK, data }
    }

    pub fn widen(self) -> (r: BusRead64)
        ensures
            r == (BusRead64 { status: self.status, data: self.data as u64 }),
    {
        BusRead64 { status: self.status, data: self.data as u64 }
    }
}

impl BusRead32 {
    pub fn ok(data: u32) -> (r: Self)
        ensures
            r == (BusRead32 { status: BUS_OK, data }),
    {
        BusRead32 { status: BUS_OK, data }
    }

    pub fn widen(self) -> (r: BusRead64)
        ensures
            r == (BusRead64 { status: self.status, data: self.data as u64 }),
    {
        BusRead64 { status: self.status, data: self.data as u64 }
    }
}

impl BusRead64 {
    pub fn ok(data: u64) -> (r: Self)
        ensures
            r == (BusRead64 { status: BUS_OK, data }),
    {
        BusRead64 { status: BUS_OK, data }
    }

    pub fn is_ok(&self) -> (b: bool)
        ensures
            b == (self.status == BUS_OK),
    {
        self.status == BUS_OK
    }
}

/// A device on the bus. `size` in its state functions is the width of the access in
/// bytes: 1, 2, 4 or 8.
pub trait BusDevice: Sized {
    type St;

    spec fn state(&self) -> Self::St;

    /// Holds between operations.
    spec fn inv(&self) -> bool;

    spec fn read_result(s: Self::St, size: usize, addr: u32) -> (BusRead64, Self::St);

    spec fn write_result(s: Self::St, size: usize, addr: u32, val: u64) -> (u32, Self::St);

    spec fn masked_result(s: Self::St, addr: u32, val: u64, mask: u64) -> (u32, Self::St);

    fn read8(&mut self, addr: u32) -> (r: BusRead8)
        requires
            old(self).inv(),
        ensures
            final(self).inv(),
            (BusRead64 { status: r.status, data: r.data as u64 }, final(self).state())
                == Self::read_result(old(self).state(), 1, addr),
    ;

    fn read16(&mut self, addr: u32) -> (r: BusRead16)
        requires
            old(self).inv(),
        ensures
            final(self).inv(),
            (BusRead64 { status: r.status, data: r.data as u64 }, final(self).state())
                == Self::read_result(old(self).state(), 2, addr),
    ;

    fn read32(&mut self, addr: u32) -> (r: BusRead32)
        requires
            old(self).inv(),
        ensures
            final(self).inv(),
            (BusRead64 { status: r.status, data: r.data as u64 }, final(self).state())
                == Self::read_result(old(self).state(), 4, addr),
    ;

    fn read64(&mut self, addr: u32) -> (r: BusRead64)
        requires
            old(self).inv(),
        ensures
            final(self).inv(),
            (r, final(self).state()) == Self::read_result(old(self).state(), 8, addr),
    ;

    fn write8(&mut self, addr: u32, val: u8) -> (r: u32)
        requires
            old(self).inv(),
        ensures
            final(self).inv(),
            (r, final(self).state()) == Self::write_result(old(self).state(), 1, addr, val as u64),
    ;

    fn write16(&mut self, addr: u32, val: u16) -> (r: u32)
        requires
            old(self).inv(),
        ensures
            final(self).inv(),
            (r, final(self).state()) == Self::write_result(old(self).state(), 2, addr, val as u64),
    ;

    fn write32(&mut self, addr: u32, val: u32) -> (r: u32)
        requires
            old(self).inv(),
        ensures
            final(self).inv(),
            (r, final(self).state()) == Self::write_result(old(self).state(), 4, addr, val as u64),
    ;

    fn write64(&mut self, addr: u32, val: u64) -> (r: u32)
        requires
            old(self).inv(),
        ensures
            final(self).inv(),
            (r, final(self).state()) == Self::write_result(old(self).state(), 8, addr, val),
    ;

    /// Writes the bits of the doubleword at `addr` that `mask` selects.
    fn write64_masked(&mut self, addr: u32, val: u64, mask: u64) -> (r: u32)
        requires
            old(self).inv(),
        ensures
            final(self).inv(),
            (r, final(self).state()) == Self::masked_result(old(self).state(), addr, val, mask),
    ;
}

/// Outcome of an instruction fetch. With status `EXEC_COMPLETE` the instruction is
/// there, and decoded if its flags are clear.
#[derive(Debug, Clone, Copy, PartialEq, Eq, Structural)]
pub struct FetchInstrResult {
    pub status: ExecStatus,
    pub instr: DecodedInstr,
}

/// The cache hierarchy, through which all cached accesses go. It also holds the
/// load-linked bit and address.
pub trait MipsCache: Sized {
    type St;

    spec fn state(&self) -> Self::St;

    spec fn inv(&self) -> bool;

    spec fn fetch_result(s: Self::St, virt: u64, phys: u64) -> (FetchInstrResult, Self::St);

    /// The caches once they have been shown the decoded form of a fetched instruction.
    spec fn decoded_result(s: Self::St, virt: u64, phys: u64, d: DecodedInstr) -> Self::St;

    spec fn read_result(s: Self::St, size: usize, virt: u64, phys: u64) -> (BusRead64, Self::St);

    spec fn write_result(s: Self::St, size: usize, virt: u64, phys: u64, val: u64) -> (
        u32,
        Self::St,
    );

    spec fn masked_result(s: Self::St, virt: u64, phys: u64, val: u64, mask: u64) -> (
        u32,
        Self::St,
    );

    spec fn op_result(s: Self::St, op: u32, virt: u64, phys: u64) -> (u32, Self::St);

    spec fn powered_on(s: Self::St) -> Self::St;

    spec fn llbit(s: Self::St) -> bool;

    spec fn lladdr(s: Self::St) -> u32;

    spec fn with_llbit(s: Self::St, b: bool) -> Self::St;

    spec fn with_lladdr(s: Self::St, a: u32) -> Self::St;

    /// What the cache called `name` says about an address.
    spec fn probe_text(s: Self::St, name: Seq<char>, virt: u64, phys: u64) -> Seq<char>;

    /// One line of the cache called `name`.
    spec fn line_text(s: Self::St, name: Seq<char>, index: usize) -> Seq<char>;

    /// What is saved of the caches.
    spec fn saved(s: Self::St) -> Tree;

    /// What loading a saved state comes to: why it failed, if it did, and the state.
    spec fn load_result(s: Self::St, t: Tree) -> (Option<Seq<char>>, Self::St);

    /// Caches of the same sizes.
    spec fn same_shape(s: Self::St, t: Self::St) -> bool;

    /// What was saved of caches of the same sizes brings their state back.
    proof fn saved_loads_back(s: Self::St, t: Self::St)
        requires
            Self::same_shape(s, t),
        ensures
            Self::load_result(t, Self::saved(s)) == (None::<Seq<char>>, s),
    ;

    fn save_cache_state(&self) -> (v: toml::Value)
        requires
            self.inv(),
        ensures
            tree_of(v) == Self::saved(self.state()),
    ;

    fn load_cache_state(&mut self, v: &toml::Value) -> (r: Result<(), String>)
        requires
            old(self).inv(),
        ensures
            final(self).inv(),
            final(self).state() == Self::load_result(old(self).state(), tree_of(*v)).1,
            match Self::load_result(old(self).state(), tree_of(*v)).0 {
                Some(e) => r is Err && r->Err_0@ == e,
                None => r is Ok,
            },
    ;

    fn debug_probe(&self, name: &str, virt: u64, phys: u64) -> (r: String)
        requires
            self.inv(),
        ensures
            r@ == Self::probe_text(self.state(), name@, virt, phys),
    ;

    fn debug_dump_line(&self, name: &str, index: usize) -> (r: String)
        requires
            self.inv(),
        ensures
            r@ == Self::line_text(self.state(), name@, index),
    ;

    /// The load-linked bit and address are two registers of their own.
    proof fn link_registers(s: Self::St, b: bool, a: u32)
        ensures
            Self::llbit(Self::with_llbit(s, b)) == b,
            Self::lladdr(Self::with_llbit(s, b)) == Self::lladdr(s),
            Self::lladdr(Self::with_lladdr(s, a)) == a,
            Self::llbit(Self::with_lladdr(s, a)) == Self::llbit(s),
    ;

    /// An instruction that is handed out in decoded form is a decoded one.
    proof fn decoded_fields(s: Self::St, virt: u64, phys: u64)
        ensures
            ({
                let r = Self::fetch_result(s, virt, phys).0;
                r.status == EXEC_COMPLETE && r.instr.flags == 0 ==> fields_bounded(r.instr)
            }),
    ;

    fn fetch(&mut self, virt: u64, phys: u64) -> (r: FetchInstrResult)
        requires
            old(self).inv(),
        ensures
            final(self).inv(),
            (r, final(self).state()) == Self::fetch_result(old(self).state(), virt, phys),
    ;

    /// Takes the decoded form of the instruction that a fetch brought, to hand it out at
    /// the next fetch. Caches need not keep it.
    fn take_decoded(&mut self, virt: u64, phys: u64, d: DecodedInstr)
        requires
            old(self).inv(),
            fields_bounded(d),
            d.flags == 0,
        ensures
            final(self).inv(),
            final(self).state() == Self::decoded_result(old(self).state(), virt, phys, d),
    ;

    fn read(&mut self, size: usize, virt: u64, phys: u64) -> (r: BusRead64)
        requires
            old(self).inv(),
            size == 1 || size == 2 || size == 4 || size == 8,
        ensures
            final(self).inv(),
            (r, final(self).state()) == Self::read_result(old(self).state(), size, virt, phys),
    ;

    fn write(&mut self, size: usize, virt: u64, phys: u64, val: u64) -> (r: u32)
        requires
            old(self).inv(),
            size == 1 || size == 2 || size == 4 || size == 8,
        ensures
            final(self).inv(),
            (r, final(self).state()) == Self::write_result(
                old(self).state(),
                size,
                virt,
                phys,
                val,
            ),
    ;

    fn write64_masked(&mut self, virt: u64, phys: u64, val: u64, mask: u64) -> (r: u32)
        requires
            old(self).inv(),
        ensures
            final(self).inv(),
            (r, final(self).state()) == Self::masked_result(
                old(self).state(),
                virt,
                phys,
                val,
                mask,
            ),
    ;

    /// The `cache` instruction. For an index store of a tag, `phys` is the tag; for an
    /// index load, the reply is it.
    fn cache_op(&mut self, op: u32, virt: u64, phys: u64) -> (r: u32)
        requires
            old(self).inv(),
        ensures
            final(self).inv(),
            (r, final(self).state()) == Self::op_result(old(self).state(), op, virt, phys),
    ;

    fn power_on(&mut self)
        requires
            old(self).inv(),
        ensures
            final(self).inv(),
            final(self).state() == Self::powered_on(old(self).state()),
    ;

    fn get_llbit(&self) -> (b: bool)
        ensures
            b == Self::llbit(self.state()),
    ;

    fn set_llbit(&mut self, b: bool)
        requires
            old(self).inv(),
        ensures
            final(self).inv(),
            final(self).state() == Self::with_llbit(old(self).state(), b),
    ;

    fn get_lladdr(&self) -> (a: u32)
        ensures
            a == Self::lladdr(self.state()),
    ;

    fn set_lladdr(&mut self, a: u32)
        requires
            old(self).inv(),
        ensures
            final(self).inv(),
            final(self).state() == Self::with_lladdr(old(self).state(), a),
    ;
}

/// Outcome of a lookup in the TLB.
#[derive(Debug, Clone, Copy, PartialEq, Eq, Structural)]
pub enum TlbResult {
    Hit { phys_addr: u64, cache_attr: CacheAttr, dirty: bool },
    Miss,
    Invalid,
    Modified,
}

/// A TLB entry in the layout of the coprocessor registers.
#[derive(Debug, Clone, Copy, PartialEq, Eq, Structural)]
pub struct TlbEntry {
    pub page_mask: u64,
    pub entry_hi: u64,
    pub entry_lo0: u64,
    pub entry_lo1: u64,
}

/// The translation lookaside buffer.
pub trait Tlb: Sized {
    type St;

    spec fn state(&self) -> Self::St;

    spec fn inv(&self) -> bool;

    spec fn entries(s: Self::St) -> usize;

    /// Result of looking `va` up; with `xtlb`, as a 64-bit address.
    spec fn lookup(s: Self::St, xtlb: bool, va: u64, asid: u8, at: AccessType) -> TlbResult;

    spec fn entry(s: Self::St, index: usize) -> TlbEntry;

    spec fn written(s: Self::St, index: usize, e: TlbEntry) -> Self::St;

    /// Index of the entry that matches, or a value with the top bit set.
    spec fn probed(s: Self::St, va: u64, asid: u8, xtlb: bool) -> u32;

    spec fn powered_on(s: Self::St) -> Self::St;

    /// An entry in words; nothing of one that maps nothing.
    spec fn entry_text(s: Self::St, index: usize) -> Seq<char>;

    /// The translation of an address in words.
    spec fn translation_text(s: Self::St, va: u64, asid: u8) -> Seq<char>;

    /// What is saved of the entries.
    spec fn saved(s: Self::St) -> Tree;

    /// What loading a saved state comes to: why it failed, if it did, and the state.
    spec fn load_result(s: Self::St, t: Tree) -> (Option<Seq<char>>, Self::St);

    /// TLBs of as many entries.
    spec fn same_shape(s: Self::St, t: Self::St) -> bool;

    /// What was saved of a TLB of as many entries brings its state back.
    proof fn saved_loads_back(s: Self::St, t: Self::St)
        requires
            Self::same_shape(s, t),
        ensures
            Self::load_result(t, Self::saved(s)) == (None::<Seq<char>>, s),
    ;

    fn save_state(&self) -> (v: toml::Value)
        requires
            self.inv(),
        ensures
            tree_of(v) == Self::saved(self.state()),
    ;

    fn load_state(&mut self, v: &toml::Value) -> (r: Result<(), String>)
        requires
            old(self).inv(),
        ensures
            final(self).inv(),
            final(self).state() == Self::load_result(old(self).state(), tree_of(*v)).1,
            match Self::load_result(old(self).state(), tree_of(*v)).0 {
                Some(e) => r is Err && r->Err_0@ == e,
                None => r is Ok,
            },
    ;

    fn format_entry(&self, index: usize) -> (r: String)
        requires
            self.inv(),
            index < Self::entries(self.state()),
        ensures
            r@ == Self::entry_text(self.state(), index),
    ;

    fn debug_translate(&self, va: u64, asid: u8) -> (r: String)
        requires
            self.inv(),
        ensures
            r@ == Self::translation_text(self.state(), va, asid),
    ;

    fn num_entries(&self) -> (n: usize)
        requires
            self.inv(),
        ensures
            n == Self::entries(self.state()),
            n > 0,
    ;

    fn translate(&self, xtlb: bool, va: u64, asid: u8, at: AccessType) -> (r: TlbResult)
        requires
            self.inv(),
        ensures
            r == Self::lookup(self.state(), xtlb, va, asid, at),
    ;

    fn read(&self, index: usize) -> (e: TlbEntry)
        requires
            self.inv(),
            index < Self::entries(self.state()),
        ensures
            e == Self::entry(self.state(), index),
    ;

    fn write(&mut self, index: usize, e: TlbEntry)
        requires
            old(self).inv(),
            index < Self::entries(old(self).state()),
        ensures
            final(self).inv(),
            final(self).state() == Self::written(old(self).state(), index, e),
    ;

    fn probe(&self, va: u64, asid: u8, xtlb: bool) -> (r: u32)
        requires
            self.inv(),
        ensures
            r == Self::probed(self.state(), va, asid, xtlb),
    ;

    fn power_on(&mut self)
        requires
            old(self).inv(),
        ensures
            final(self).inv(),
            final(self).state() == Self::powered_on(old(self).state()),
    ;
}

/// Law: what the bus replies are statuses of the executor: a good reply is a completed
/// instruction.
pub proof fn law_good_reply_completes()
    ensures
        BUS_OK == EXEC_COMPLETE,
        BUS_BUSY == crate::status::EXEC_RETRY,
        BUS_ERR == crate::status::EXEC_BUS_ERR,
        BUS_VCE == crate::status::EXEC_BUS_VCE,
{
}

} // verus!

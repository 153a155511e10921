//! Plain memory, on the bus and behind caches that hold nothing back.
use vstd::prelude::*;
use vstd::string::StringExecFns;

use crate::bus::{
    BusDevice, BusRead16, BusRead32, BusRead64, BusRead8, FetchInstrResult, MipsCache, BUS_ERR,
    BUS_OK,
};
use crate::bytes::{
    big_endian, law_bytes_make_their_number, law_number_has_its_bytes, lemma_number_bound,
    low_bytes, number_of_bytes, read_big_endian, with_bytes, write_big_endian,
};
use crate::instr::{DecodedInstr, FLAG_NOT_DECODED};
use crate::machine::empty_instr;
use crate::saved_state::{hex_u32, loaded32, saved32, toml_u32};
use crate::saved_state_laws::lemma_register_reads_back;
use crate::text::put;
use crate::toml_tree::{
    as_bool, bool_of, bool_value, field_of, get_field, insert, new_table, no_fields, table_value,
    Tree,
};

verus! {

/// Memory from the address `base` on.
pub struct Ram {
    pub base: u32,
    pub bytes: Vec<u8>,
}

#[verifier::ext_equal]
pub struct RamState {
    pub base: u32,
    pub bytes: Seq<u8>,
}

impl RamState {
    /// All of `size` bytes from `addr` on are there.
    pub open spec fn holds(&self, addr: u32, size: usize) -> bool {
        self.base <= addr && addr + size <= self.base + self.bytes.len()
    }

    pub open spec fn at(&self, addr: u32) -> int {
        addr - self.base
    }

    /// The number in `size` bytes from `addr` on.
    pub open spec fn number(&self, addr: u32, size: usize) -> u64 {
        number_of_bytes(self.bytes.subrange(self.at(addr), self.at(addr) + size))
    }

    /// The memory with `val` in `size` bytes from `addr` on.
    pub open spec fn with(self, addr: u32, size: usize, val: u64) -> RamState {
        RamState {
            base: self.base,
            bytes: with_bytes(self.bytes, self.at(addr), big_endian(val, size as nat)),
        }
    }

    /// The reply to a read.
    pub open spec fn read(&self, addr: u32, size: usize) -> BusRead64 {
        if self.holds(addr, size) {
            BusRead64 { status: BUS_OK, data: self.number(addr, size) }
        } else {
            BusRead64 { status: BUS_ERR, data: 0 }
        }
    }

    /// The reply to a write, and the memory after it.
    pub open spec fn write(self, addr: u32, size: usize, val: u64) -> (u32, RamState) {
        if self.holds(addr, size) {
            (BUS_OK, self.with(addr, size, val))
        } else {
            (BUS_ERR, self)
        }
    }

    /// The reply to a write of selected bits of a doubleword, and the memory after it.
    pub open spec fn write_masked(self, addr: u32, val: u64, mask: u64) -> (u32, RamState) {
        self.write(addr, 8, (self.number(addr, 8) & !mask) | (val & mask))
    }
}

/// Law: what was written is read back, in its width, from the same address and in the
/// same size.
pub proof fn law_memory_reads_back(s: RamState, addr: u32, size: usize, val: u64)
    requires
        size == 1 || size == 2 || size == 4 || size == 8,
        s.holds(addr, size),
    ensures
        s.write(addr, size, val).0 == BUS_OK,
        s.write(addr, size, val).1.read(addr, size) == (BusRead64 {
            status: BUS_OK,
            data: low_bytes(val, size as nat),
        }),
{
    law_bytes_make_their_number(val, size as nat);
    let t = s.with(addr, size, val);
    assert(t.bytes.subrange(t.at(addr), t.at(addr) + size) =~= big_endian(val, size as nat));
}

/// Law: writing back what was there undoes a write.
pub proof fn law_writing_back_undoes_a_write(s: RamState, addr: u32, size: usize, val: u64)
    requires
        size == 1 || size == 2 || size == 4 || size == 8,
        s.holds(addr, size),
    ensures
        s.write(addr, size, val).1.write(addr, size, s.read(addr, size).data) == (BUS_OK, s),
{
    let at = s.at(addr);
    let was = s.bytes.subrange(at, at + size);
    law_number_has_its_bytes(was);
    let t = s.write(addr, size, val).1.write(addr, size, s.read(addr, size).data).1;
    assert forall|i: int| 0 <= i < s.bytes.len() implies t.bytes[i] == s.bytes[i] by {
        if at <= i < at + size {
            assert(was[i - at] == s.bytes[i]);
        }
    }
    assert(t.bytes =~= s.bytes);
}

/// Law: a write leaves all other bytes alone.
pub proof fn law_memory_elsewhere_stays(
    s: RamState,
    addr: u32,
    size: usize,
    val: u64,
    other: u32,
    other_size: usize,
)
    requires
        other + other_size <= addr || addr + size <= other,
    ensures
        s.write(addr, size, val).1.read(other, other_size) == s.read(other, other_size),
{
    let t = s.write(addr, size, val).1;
    if s.holds(addr, size) && s.holds(other, other_size) {
        assert(t.bytes.subrange(t.at(other), t.at(other) + other_size) =~= s.bytes.subrange(
            s.at(other),
            s.at(other) + other_size,
        ));
    }
}

impl Ram {
    pub open spec fn view(&self) -> RamState {
        RamState { base: self.base, bytes: self.bytes@ }
    }

    /// The memory ends within the bus's space.
    pub open spec fn wf(&self) -> bool {
        self.base + self.bytes@.len() <= 0x1_0000_0000
    }

    /// Memory of `size` bytes, all zero.
    pub fn new(base: u32, size: usize) -> (r: Ram)
        requires
            base + size <= 0x1_0000_0000,
        ensures
            r.wf(),
            r@ == (RamState { base, bytes: Seq::new(size as nat, |i: int| 0u8) }),
    {
        let mut bytes: Vec<u8> = Vec::new();
        let mut i: usize = 0;
        while i < size
            invariant
                i <= size,
                bytes@ == Seq::new(i as nat, |j: int| 0u8),
            decreases size - i,
        {
            bytes.push(0);
            i = i + 1;
            assert(bytes@ =~= Seq::new(i as nat, |j: int| 0u8));
        }
        Ram { base, bytes }
    }

    fn index(&self, addr: u32, size: usize) -> (r: Option<usize>)
        requires
            self.wf(),
            size <= 8,
        ensures
            r is Some == self@.holds(addr, size),
            r matches Some(i) ==> i == self@.at(addr),
    {
        if addr < self.base {
            return None;
        }
        let at: u64 = (addr - self.base) as u64;
        let n: u64 = self.bytes.len() as u64;
        if at + size as u64 <= n {
            Some(at as usize)
        } else {
            None
        }
    }

    pub fn read(&self, addr: u32, size: usize) -> (r: BusRead64)
        requires
            self.wf(),
            size <= 8,
        ensures
            r == self@.read(addr, size),
            r.status == BUS_OK || r.status == BUS_ERR,
    {
        match self.index(addr, size) {
            Some(i) => BusRead64 { status: BUS_OK, data: read_big_endian(&self.bytes, i, size) },
            None => BusRead64 { status: BUS_ERR, data: 0 },
        }
    }

    pub fn write(&mut self, addr: u32, size: usize, val: u64) -> (s: u32)
        requires
            old(self).wf(),
            size <= 8,
        ensures
            final(self).wf(),
            (s, final(self)@) == old(self)@.write(addr, size, val),
    {
        match self.index(addr, size) {
            Some(i) => {
                write_big_endian(&mut self.bytes, i, val, size);
                BUS_OK
            },
            None => BUS_ERR,
        }
    }

    pub fn write_masked(&mut self, addr: u32, val: u64, mask: u64) -> (s: u32)
        requires
            old(self).wf(),
        ensures
            final(self).wf(),
            (s, final(self)@) == old(self)@.write_masked(addr, val, mask),
    {
        match self.index(addr, 8) {
            Some(i) => {
                let was: u64 = read_big_endian(&self.bytes, i, 8);
                write_big_endian(&mut self.bytes, i, (was & !mask) | (val & mask), 8);
                BUS_OK
            },
            None => BUS_ERR,
        }
    }
}

impl BusDevice for Ram {
    type St = RamState;

    open spec fn state(&self) -> RamState {
        self@
    }

    open spec fn inv(&self) -> bool {
        self.wf()
    }

    open spec fn read_result(s: RamState, size: usize, addr: u32) -> (BusRead64, RamState) {
        (s.read(addr, size), s)
    }

    open spec fn write_result(s: RamState, size: usize, addr: u32, val: u64) -> (u32, RamState) {
        s.write(addr, size, val)
    }

    open spec fn masked_result(s: RamState, addr: u32, val: u64, mask: u64) -> (u32, RamState) {
        s.write_masked(addr, val, mask)
    }

    fn read8(&mut self, addr: u32) -> (r: BusRead8) {
        let r: BusRead64 = self.read(addr, 1);
        proof {
            lemma_number_bound(self@.bytes.subrange(self@.at(addr), self@.at(addr) + 1));
        }
        BusRead8 { status: r.status, data: r.data as u8 }
    }

    fn read16(&mut self, addr: u32) -> (r: BusRead16) {
        let r: BusRead64 = self.read(addr, 2);
        proof {
            lemma_number_bound(self@.bytes.subrange(self@.at(addr), self@.at(addr) + 2));
        }
        BusRead16 { status: r.status, data: r.data as u16 }
    }

    fn read32(&mut self, addr: u32) -> (r: BusRead32) {
        let r: BusRead64 = self.read(addr, 4);
        proof {
            lemma_number_bound(self@.bytes.subrange(self@.at(addr), self@.at(addr) + 4));
        }
        BusRead32 { status: r.status, data: r.data as u32 }
    }

    fn read64(&mut self, addr: u32) -> (r: BusRead64) {
        self.read(addr, 8)
    }

    fn write8(&mut self, addr: u32, val: u8) -> (r: u32) {
        self.write(addr, 1, val as u64)
    }

    fn write16(&mut self, addr: u32, val: u16) -> (r: u32) {
        self.write(addr, 2, val as u64)
    }

    fn write32(&mut self, addr: u32, val: u32) -> (r: u32) {
        self.write(addr, 4, val as u64)
    }

    fn write64(&mut self, addr: u32, val: u64) -> (r: u32) {
        self.write(addr, 8, val)
    }

    fn write64_masked(&mut self, addr: u32, val: u64, mask: u64) -> (r: u32) {
        self.write_masked(addr, val, mask)
    }
}

/// Caches that keep nothing: each access goes to the memory behind them. They hold the
/// registers of linked loads.
pub struct DirectCache {
    pub ram: Ram,
    pub llbit: bool,
    pub lladdr: u32,
}

#[verifier::ext_equal]
pub struct DirectState {
    pub ram: RamState,
    pub llbit: bool,
    pub lladdr: u32,
}

impl DirectCache {
    pub fn new(ram: Ram) -> (c: DirectCache)
        ensures
            c.ram == ram,
            !c.llbit,
            c.lladdr == 0,
    {
        DirectCache { ram, llbit: false, lladdr: 0 }
    }
}

impl MipsCache for DirectCache {
    type St = DirectState;

    open spec fn state(&self) -> DirectState {
        DirectState { ram: self.ram@, llbit: self.llbit, lladdr: self.lladdr }
    }

    open spec fn inv(&self) -> bool {
        self.ram.wf()
    }

    open spec fn fetch_result(s: DirectState, virt: u64, phys: u64) -> (
        FetchInstrResult,
        DirectState,
    ) {
        let r = s.ram.read(phys as u32, 4);
        (
            FetchInstrResult {
                status: r.status,
                instr: DecodedInstr {
                    raw: r.data as u32,
                    flags: FLAG_NOT_DECODED,
                    ..empty_instr()
                },
            },
            s,
        )
    }

    open spec fn decoded_result(
        s: DirectState,
        virt: u64,
        phys: u64,
        d: DecodedInstr,
    ) -> DirectState {
        s
    }

    open spec fn read_result(s: DirectState, size: usize, virt: u64, phys: u64) -> (
        BusRead64,
        DirectState,
    ) {
        (s.ram.read(phys as u32, size), s)
    }

    open spec fn write_result(s: DirectState, size: usize, virt: u64, phys: u64, val: u64) -> (
        u32,
        DirectState,
    ) {
        let (st, ram) = s.ram.write(phys as u32, size, val);
        (st, DirectState { ram, ..s })
    }

    open spec fn masked_result(s: DirectState, virt: u64, phys: u64, val: u64, mask: u64) -> (
        u32,
        DirectState,
    ) {
        let (st, ram) = s.ram.write_masked(phys as u32, val, mask);
        (st, DirectState { ram, ..s })
    }

    open spec fn op_result(s: DirectState, op: u32, virt: u64, phys: u64) -> (u32, DirectState) {
        (0, s)
    }

    open spec fn powered_on(s: DirectState) -> DirectState {
        DirectState { llbit: false, lladdr: 0, ..s }
    }

    open spec fn llbit(s: DirectState) -> bool {
        s.llbit
    }

    open spec fn lladdr(s: DirectState) -> u32 {
        s.lladdr
    }

    open spec fn with_llbit(s: DirectState, b: bool) -> DirectState {
        DirectState { llbit: b, ..s }
    }

    open spec fn with_lladdr(s: DirectState, a: u32) -> DirectState {
        DirectState { lladdr: a, ..s }
    }

    open spec fn probe_text(s: DirectState, name: Seq<char>, virt: u64, phys: u64) -> Seq<char> {
        name + ": not cached"@
    }

    open spec fn line_text(s: DirectState, name: Seq<char>, index: usize) -> Seq<char> {
        name + ": no such line"@
    }

    open spec fn saved(s: DirectState) -> Tree {
        Tree::Table(
            no_fields().insert("llbit"@, Tree::Bool(s.llbit)).insert("lladdr"@, saved32(s.lladdr)),
        )
    }

    open spec fn load_result(s: DirectState, t: Tree) -> (Option<Seq<char>>, DirectState) {
        (
            None,
            DirectState {
                llbit: match field_of(t, "llbit"@) {
                    Some(x) => bool_of(x) == Some(true),
                    None => s.llbit,
                },
                lladdr: loaded32(field_of(t, "lladdr"@), s.lladdr),
                ..s
            },
        )
    }

    open spec fn same_shape(s: DirectState, t: DirectState) -> bool {
        s.ram == t.ram
    }

    proof fn saved_loads_back(s: DirectState, t: DirectState) {
        lemma_register_reads_back();
        reveal_strlit("llbit");
        reveal_strlit("lladdr");
        assert("llbit"@.len() != "lladdr"@.len());
    }

    proof fn link_registers(s: DirectState, b: bool, a: u32) {
    }

    proof fn decoded_fields(s: DirectState, virt: u64, phys: u64) {
    }

    fn save_cache_state(&self) -> (v: toml::Value) {
        let mut t = new_table();
        insert(&mut t, "llbit".to_string(), bool_value(self.llbit));
        insert(&mut t, "lladdr".to_string(), hex_u32(self.lladdr));
        table_value(t)
    }

    fn load_cache_state(&mut self, v: &toml::Value) -> (r: Result<(), String>) {
        if let Some(x) = get_field(v, "llbit") {
            self.llbit = match as_bool(x) {
                Some(b) => b,
                None => false,
            };
        }
        if let Some(x) = get_field(v, "lladdr") {
            if let Some(a) = toml_u32(x) {
                self.lladdr = a;
            }
        }
        Ok(())
    }

    fn debug_probe(&self, name: &str, virt: u64, phys: u64) -> (r: String) {
        let mut s: String = name.to_string();
        put(&mut s, ": not cached");
        s
    }

    fn debug_dump_line(&self, name: &str, index: usize) -> (r: String) {
        let mut s: String = name.to_string();
        put(&mut s, ": no such line");
        s
    }

    fn fetch(&mut self, virt: u64, phys: u64) -> (r: FetchInstrResult) {
        let r: BusRead64 = self.ram.read(#[verifier::truncate] (phys as u32), 4);
        let mut instr: DecodedInstr = DecodedInstr::default();
        instr.raw = #[verifier::truncate] (r.data as u32);
        instr.flags = FLAG_NOT_DECODED;
        FetchInstrResult { status: r.status, instr }
    }

    fn take_decoded(&mut self, virt: u64, phys: u64, d: DecodedInstr) {
    }

    fn read(&mut self, size: usize, virt: u64, phys: u64) -> (r: BusRead64) {
        self.ram.read(#[verifier::truncate] (phys as u32), size)
    }

    fn write(&mut self, size: usize, virt: u64, phys: u64, val: u64) -> (r: u32) {
        self.ram.write(#[verifier::truncate] (phys as u32), size, val)
    }

    fn write64_masked(&mut self, virt: u64, phys: u64, val: u64, mask: u64) -> (r: u32) {
        self.ram.write_masked(#[verifier::truncate] (phys as u32), val, mask)
    }

    fn cache_op(&mut self, op: u32, virt: u64, phys: u64) -> (r: u32) {
        0
    }

    fn power_on(&mut self) {
        self.llbit = false;
        self.lladdr = 0;
    }

    fn get_llbit(&self) -> (b: bool) {
        self.llbit
    }

    fn set_llbit(&mut self, b: bool) {
        self.llbit = b;
    }

    fn get_lladdr(&self) -> (a: u32) {
        self.lladdr
    }

    fn set_lladdr(&mut self, a: u32) {
        self.lladdr = a;
    }
}

} // verus!

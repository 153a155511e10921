//! Execution traces: for every instruction, where it stood, what it was, and the
//! registers before it. The registers after it are those of the next record.
//!
//! A trace is a sequence of records of one size, each of them 75 little-endian
//! doublewords.
use vstd::bytes::{
    spec_u64_from_le_bytes, spec_u64_to_le_bytes, u64_from_le_bytes, u64_to_le_bytes,
};
use vstd::prelude::*;

use crate::cpu_core::MipsCore;

verus! {

/// Doublewords of a record.
pub const TRACE_RECORD_WORDS: usize = 75;

/// Bytes of a record.
pub const TRACE_RECORD_SIZE: usize = 600;

/// The registers that a trace records.
#[derive(Debug, Clone, Copy, PartialEq)]
pub struct CoreState {
    pub gpr: [u64; 32],
    pub pc: u64,
    pub hi: u64,
    pub lo: u64,
    pub cp0_epc: u64,
    pub cp0_badvaddr: u64,
    pub cp0_cause: u32,
    pub cp0_status: u32,
    pub fpr: [u64; 32],
    pub fpu_fcsr: u32,
    pub fpu_fccr: u32,
    pub fpu_fexr: u32,
    pub fpu_fenr: u32,
    /// The instruction sits in the delay slot of a jump.
    pub in_delay_slot: bool,
}

/// One instruction, and the registers before it.
#[derive(Debug, Clone, Copy, PartialEq)]
pub struct TraceRecord {
    pub pc: u64,
    pub raw: u32,
    pub state: CoreState,
}

impl CoreState {
    pub open spec fn of(core: MipsCore) -> CoreState {
        CoreState {
            gpr: core.gpr,
            pc: core.pc,
            hi: core.hi,
            lo: core.lo,
            cp0_epc: core.cp0_epc,
            cp0_badvaddr: core.cp0_badvaddr,
            cp0_cause: core.cp0_cause,
            cp0_status: core.cp0_status,
            fpr: core.fpr,
            fpu_fcsr: core.fpu_fcsr,
            fpu_fccr: core.fpu_fccr,
            fpu_fexr: core.fpu_fexr,
            fpu_fenr: core.fpu_fenr,
            in_delay_slot: core.in_delay_slot,
        }
    }

    pub fn capture(core: &MipsCore) -> (s: Self)
        ensures
            s == Self::of(*core),
    {
        CoreState {
            gpr: core.gpr,
            pc: core.pc,
            hi: core.hi,
            lo: core.lo,
            cp0_epc: core.cp0_epc,
            cp0_badvaddr: core.cp0_badvaddr,
            cp0_cause: core.cp0_cause,
            cp0_status: core.cp0_status,
            fpr: core.fpr,
            fpu_fcsr: core.fpu_fcsr,
            fpu_fccr: core.fpu_fccr,
            fpu_fexr: core.fpu_fexr,
            fpu_fenr: core.fpu_fenr,
            in_delay_slot: core.in_delay_slot,
        }
    }
}

/// Two 32-bit values in a doubleword, the first in its lower half.
pub open spec fn paired(low: u32, high: u32) -> u64 {
    (low as u64) | ((high as u64) << 32)
}

proof fn lemma_paired(low: u32, high: u32)
    ensures
        ((low as u64) | ((high as u64) << 32)) as u32 == low,
        (((low as u64) | ((high as u64) << 32)) >> 32) as u32 == high,
{
    crate::bits::lemma_bits_of_words(low, high);
}

fn pair(low: u32, high: u32) -> (w: u64)
    ensures
        w == paired(low, high),
{
    (low as u64) | ((high as u64) << 32)
}

impl TraceRecord {
    pub open spec fn of(pc: u64, raw: u32, core: MipsCore) -> TraceRecord {
        TraceRecord { pc, raw, state: CoreState { pc, ..CoreState::of(core) } }
    }

    /// A record of the instruction `raw` at `pc`, about to run in state `core`. The
    /// recorded state is at `pc` as well.
    pub fn capture(pc: u64, raw: u32, core: &MipsCore) -> (r: Self)
        ensures
            r == Self::of(pc, raw, *core),
    {
        TraceRecord { pc, raw, state: CoreState { pc, ..CoreState::capture(core) } }
    }

    pub fn new(pc: u64, raw: u32, state: CoreState) -> (r: Self)
        ensures
            r == (TraceRecord { pc, raw, state }),
    {
        TraceRecord { pc, raw, state }
    }

    /// The doublewords of the record.
    pub open spec fn words(&self) -> Seq<u64> {
        let s = self.state;
        seq![self.pc, paired(self.raw, 0)] + s.gpr@ + seq![
            s.pc,
            s.hi,
            s.lo,
            s.cp0_epc,
            s.cp0_badvaddr,
            paired(s.cp0_cause, s.cp0_status),
        ] + s.fpr@ + seq![
            paired(s.fpu_fcsr, s.fpu_fccr),
            paired(s.fpu_fexr, s.fpu_fenr),
            if s.in_delay_slot {
                1
            } else {
                0
            },
        ]
    }

    /// The record that is read from the doublewords `w`.
    pub open spec fn is_read_from(&self, w: Seq<u64>) -> bool {
        let s = self.state;
        &&& self.pc == w[0]
        &&& self.raw == w[1] as u32
        &&& s.gpr@ == w.subrange(2, 34)
        &&& s.pc == w[34]
        &&& s.hi == w[35]
        &&& s.lo == w[36]
        &&& s.cp0_epc == w[37]
        &&& s.cp0_badvaddr == w[38]
        &&& s.cp0_cause == w[39] as u32
        &&& s.cp0_status == (w[39] >> 32) as u32
        &&& s.fpr@ == w.subrange(40, 72)
        &&& s.fpu_fcsr == w[72] as u32
        &&& s.fpu_fccr == (w[72] >> 32) as u32
        &&& s.fpu_fexr == w[73] as u32
        &&& s.fpu_fenr == (w[73] >> 32) as u32
        &&& s.in_delay_slot == (w[74] & 0xFF != 0)
    }
}

/// Law: a record reads back from its doublewords, and nothing else does.
pub proof fn law_records_read_back(r: TraceRecord, s: TraceRecord)
    requires
        s.is_read_from(r.words()),
    ensures
        s == r,
{
    let w = r.words();
    lemma_paired(r.raw, 0);
    lemma_paired(r.state.cp0_cause, r.state.cp0_status);
    lemma_paired(r.state.fpu_fcsr, r.state.fpu_fccr);
    lemma_paired(r.state.fpu_fexr, r.state.fpu_fenr);
    assert(w.subrange(2, 34) =~= r.state.gpr@);
    assert(w.subrange(40, 72) =~= r.state.fpr@);
    assert(s.state.gpr =~= r.state.gpr);
    assert(s.state.fpr =~= r.state.fpr);
    assert(1u64 & 0xFF != 0 && 0u64 & 0xFF == 0) by (bit_vector);
}

/// Law: a record holds, as doublewords, its program counter and its word, the general
/// registers, then the program counter, HI, LO, EPC and BadVAddr, Cause below Status, the
/// floating-point registers, FCSR below FCCR and FEXR below FENR, and a 1 for an
/// instruction in a delay slot; all as the processor has them.
pub proof fn law_records_hold_the_processor(pc: u64, raw: u32, c: MipsCore, i: int)
    requires
        0 <= i < 32,
    ensures
        ({
            let w = TraceRecord::of(pc, raw, c).words();
            &&& w.len() == 75
            &&& w[0] == pc && w[1] == raw
            &&& w[2 + i] == c.gpr@[i]
            &&& w[34] == pc && w[35] == c.hi && w[36] == c.lo
            &&& w[37] == c.cp0_epc && w[38] == c.cp0_badvaddr
            &&& w[39] == c.cp0_cause + c.cp0_status * 0x1_0000_0000
            &&& w[40 + i] == c.fpr@[i]
            &&& w[72] == c.fpu_fcsr + c.fpu_fccr * 0x1_0000_0000
            &&& w[73] == c.fpu_fexr + c.fpu_fenr * 0x1_0000_0000
            &&& w[74] == if c.in_delay_slot {
                1u64
            } else {
                0
            }
        }),
{
    lemma_paired_number(raw, 0);
    lemma_paired_number(c.cp0_cause, c.cp0_status);
    lemma_paired_number(c.fpu_fcsr, c.fpu_fccr);
    lemma_paired_number(c.fpu_fexr, c.fpu_fenr);
}

proof fn lemma_paired_number(low: u32, high: u32)
    by (bit_vector)
    ensures
        (low as u64) | ((high as u64) << 32) == low + high * 0x1_0000_0000,
{
}

/// The bytes of doublewords.
pub open spec fn bytes_of(w: Seq<u64>) -> Seq<u8>
    decreases w.len(),
{
    if w.len() == 0 {
        Seq::empty()
    } else {
        bytes_of(w.drop_last()) + spec_u64_to_le_bytes(w.last())
    }
}

/// The first `n` doublewords of `b`.
pub open spec fn words_of(b: Seq<u8>, n: nat) -> Seq<u64> {
    Seq::new(n, |i: int| spec_u64_from_le_bytes(b.subrange(8 * i, 8 * i + 8)))
}

proof fn lemma_bytes(w: Seq<u64>)
    ensures
        bytes_of(w).len() == 8 * w.len(),
        forall|i: int|
            0 <= i < w.len() ==> #[trigger] bytes_of(w).subrange(8 * i, 8 * i + 8)
                == spec_u64_to_le_bytes(w[i]),
    decreases w.len(),
{
    vstd::bytes::lemma_auto_spec_u64_to_from_le_bytes();
    if w.len() > 0 {
        let v = w.drop_last();
        lemma_bytes(v);
        assert forall|i: int| 0 <= i < w.len() implies #[trigger] bytes_of(w).subrange(
            8 * i,
            8 * i + 8,
        ) == spec_u64_to_le_bytes(w[i]) by {
            if i < v.len() {
                assert(bytes_of(w).subrange(8 * i, 8 * i + 8) =~= bytes_of(v).subrange(
                    8 * i,
                    8 * i + 8,
                ));
            } else {
                assert(bytes_of(w).subrange(8 * i, 8 * i + 8) =~= spec_u64_to_le_bytes(w[i]));
            }
        }
    }
}

/// Law: doublewords read back from their bytes.
pub proof fn law_words_read_back(w: Seq<u64>, b: Seq<u8>)
    requires
        bytes_of(w).len() <= b.len(),
        b.subrange(0, bytes_of(w).len() as int) == bytes_of(w),
    ensures
        words_of(b, w.len()) == w,
{
    lemma_bytes(w);
    vstd::bytes::lemma_auto_spec_u64_to_from_le_bytes();
    let n = bytes_of(w).len() as int;
    assert forall|i: int| 0 <= i < w.len() implies #[trigger] words_of(b, w.len())[i] == w[i] by {
        assert(b.subrange(8 * i, 8 * i + 8) =~= b.subrange(0, n).subrange(8 * i, 8 * i + 8));
        assert(bytes_of(w).subrange(8 * i, 8 * i + 8) == spec_u64_to_le_bytes(w[i]));
    }
    assert(words_of(b, w.len()) =~= w);
}

fn put_word(out: &mut Vec<u8>, w: u64)
    ensures
        final(out)@ == old(out)@ + spec_u64_to_le_bytes(w),
{
    let mut b: Vec<u8> = u64_to_le_bytes(w);
    out.append(&mut b);
}

fn put_words(out: &mut Vec<u8>, a: &[u64; 32])
    ensures
        final(out)@ == old(out)@ + bytes_of(a@),
{
    let mut i: usize = 0;
    assert(a@.subrange(0, 0) =~= Seq::<u64>::empty());
    assert(out@ =~= old(out)@ + bytes_of(a@.subrange(0, 0)));
    while i < 32
        invariant
            i <= 32,
            a@.len() == 32,
            out@ == old(out)@ + bytes_of(a@.subrange(0, i as int)),
        decreases 32 - i,
    {
        put_word(out, a[i]);
        assert(a@.subrange(0, i + 1).drop_last() =~= a@.subrange(0, i as int));
        assert(out@ =~= old(out)@ + bytes_of(a@.subrange(0, i + 1)));
        i = i + 1;
    }
    assert(a@.subrange(0, 32) =~= a@);
}

proof fn lemma_bytes_concat(v: Seq<u64>, w: Seq<u64>)
    ensures
        bytes_of(v + w) == bytes_of(v) + bytes_of(w),
    decreases w.len(),
{
    if w.len() == 0 {
        assert(v + w =~= v);
        assert(bytes_of(v) + bytes_of(w) =~= bytes_of(v));
    } else {
        assert((v + w).drop_last() =~= v + w.drop_last());
        lemma_bytes_concat(v, w.drop_last());
        assert(bytes_of(v + w) =~= bytes_of(v) + bytes_of(w));
    }
}

fn word_at(b: &Vec<u8>, pos: usize, i: usize) -> (w: u64)
    requires
        i < TRACE_RECORD_WORDS,
        pos + TRACE_RECORD_SIZE <= b@.len(),
    ensures
        w == words_of(b@.skip(pos as int), TRACE_RECORD_WORDS as nat)[i as int],
{
    let len: usize = b.len();
    assert(pos + 8 * i + 8 <= len);
    let from: usize = pos + 8 * i;
    let s: &[u8] = vstd::slice::slice_subrange(b.as_slice(), from, from + 8);
    assert(b@.skip(pos as int).subrange(8 * i, 8 * i + 8) =~= s@);
    u64_from_le_bytes(s)
}

fn words_at(b: &Vec<u8>, pos: usize, i: usize) -> (a: [u64; 32])
    requires
        i + 32 <= TRACE_RECORD_WORDS,
        pos + TRACE_RECORD_SIZE <= b@.len(),
    ensures
        a@ == words_of(b@.skip(pos as int), TRACE_RECORD_WORDS as nat).subrange(i as int, i + 32),
{
    let mut a: [u64; 32] = [0u64;32];
    let ghost w = words_of(b@.skip(pos as int), TRACE_RECORD_WORDS as nat);
    let mut k: usize = 0;
    while k < 32
        invariant
            k <= 32,
            i + 32 <= TRACE_RECORD_WORDS,
            pos + TRACE_RECORD_SIZE <= b@.len(),
            w == words_of(b@.skip(pos as int), TRACE_RECORD_WORDS as nat),
            a@.len() == 32,
            forall|j: int| 0 <= j < k ==> a@[j] == w[i + j],
        decreases 32 - k,
    {
        a[k] = word_at(b, pos, i + k);
        k = k + 1;
    }
    assert(a@ =~= w.subrange(i as int, i + 32));
    a
}

impl TraceRecord {
    /// The bytes of the record, appended to `out`.
    fn put(&self, out: &mut Vec<u8>)
        ensures
            final(out)@ == old(out)@ + bytes_of(self.words()),
    {
        let s: &CoreState = &self.state;
        let ghost start = out@;
        let ghost w1 = seq![self.pc, paired(self.raw, 0)];
        put_word(out, self.pc);
        put_word(out, pair(self.raw, 0));
        proof {
            assert(w1.drop_last() =~= seq![self.pc]);
            assert(seq![self.pc].drop_last() =~= Seq::<u64>::empty());
            reveal_with_fuel(bytes_of, 3);
            assert(out@ =~= start + bytes_of(w1));
        }
        put_words(out, &s.gpr);
        let ghost w2 = seq![
            s.pc,
            s.hi,
            s.lo,
            s.cp0_epc,
            s.cp0_badvaddr,
            paired(s.cp0_cause, s.cp0_status),
        ];
        let ghost mid = out@;
        put_word(out, s.pc);
        put_word(out, s.hi);
        put_word(out, s.lo);
        put_word(out, s.cp0_epc);
        put_word(out, s.cp0_badvaddr);
        put_word(out, pair(s.cp0_cause, s.cp0_status));
        proof {
            lemma_six(w2);
            assert(out@ =~= mid + bytes_of(w2));
        }
        put_words(out, &s.fpr);
        let ghost w3 = seq![
            paired(s.fpu_fcsr, s.fpu_fccr),
            paired(s.fpu_fexr, s.fpu_fenr),
            if s.in_delay_slot {
                1
            } else {
                0u64
            },
        ];
        let ghost last = out@;
        put_word(out, pair(s.fpu_fcsr, s.fpu_fccr));
        put_word(out, pair(s.fpu_fexr, s.fpu_fenr));
        put_word(
            out,
            if s.in_delay_slot {
                1
            } else {
                0
            },
        );
        proof {
            lemma_three(w3);
            assert(out@ =~= last + bytes_of(w3));
            lemma_bytes_concat(w1, s.gpr@);
            lemma_bytes_concat(w1 + s.gpr@, w2);
            lemma_bytes_concat(w1 + s.gpr@ + w2, s.fpr@);
            lemma_bytes_concat(w1 + s.gpr@ + w2 + s.fpr@, w3);
            assert(out@ =~= start + bytes_of(self.words()));
        }
    }

    /// The record at byte `pos` of `b`.
    fn get(b: &Vec<u8>, pos: usize) -> (r: Self)
        requires
            pos + TRACE_RECORD_SIZE <= b@.len(),
        ensures
            r.is_read_from(words_of(b@.skip(pos as int), TRACE_RECORD_WORDS as nat)),
    {
        let w39: u64 = word_at(b, pos, 39);
        let w72: u64 = word_at(b, pos, 72);
        let w73: u64 = word_at(b, pos, 73);
        TraceRecord {
            pc: word_at(b, pos, 0),
            raw: word_at(b, pos, 1) as u32,
            state: CoreState {
                gpr: words_at(b, pos, 2),
                pc: word_at(b, pos, 34),
                hi: word_at(b, pos, 35),
                lo: word_at(b, pos, 36),
                cp0_epc: word_at(b, pos, 37),
                cp0_badvaddr: word_at(b, pos, 38),
                cp0_cause: w39 as u32,
                cp0_status: (w39 >> 32) as u32,
                fpr: words_at(b, pos, 40),
                fpu_fcsr: w72 as u32,
                fpu_fccr: (w72 >> 32) as u32,
                fpu_fexr: w73 as u32,
                fpu_fenr: (w73 >> 32) as u32,
                in_delay_slot: word_at(b, pos, 74) & 0xFF != 0,
            },
        }
    }
}

proof fn lemma_three(w: Seq<u64>)
    requires
        w.len() == 3,
    ensures
        bytes_of(w) == spec_u64_to_le_bytes(w[0]) + spec_u64_to_le_bytes(w[1])
            + spec_u64_to_le_bytes(w[2]),
{
    reveal_with_fuel(bytes_of, 4);
    assert(bytes_of(w) =~= spec_u64_to_le_bytes(w[0]) + spec_u64_to_le_bytes(w[1])
        + spec_u64_to_le_bytes(w[2]));
}

proof fn lemma_six(w: Seq<u64>)
    requires
        w.len() == 6,
    ensures
        bytes_of(w) == spec_u64_to_le_bytes(w[0]) + spec_u64_to_le_bytes(w[1])
            + spec_u64_to_le_bytes(w[2]) + spec_u64_to_le_bytes(w[3]) + spec_u64_to_le_bytes(w[4])
            + spec_u64_to_le_bytes(w[5]),
{
    lemma_three(w.subrange(0, 3));
    lemma_three(w.subrange(3, 6));
    lemma_bytes_concat(w.subrange(0, 3), w.subrange(3, 6));
    assert(w.subrange(0, 3) + w.subrange(3, 6) =~= w);
    assert(bytes_of(w) =~= spec_u64_to_le_bytes(w[0]) + spec_u64_to_le_bytes(w[1])
        + spec_u64_to_le_bytes(w[2]) + spec_u64_to_le_bytes(w[3]) + spec_u64_to_le_bytes(w[4])
        + spec_u64_to_le_bytes(w[5]));
}

/// Collects a trace, to be written out from time to time.
pub struct TraceWriter {
    /// Bytes not yet written out.
    pub out: Vec<u8>,
    /// Records pushed since the start.
    pub count: u64,
}

/// A trace as a mathematical value.
#[verifier::ext_equal]
pub struct TraceLog {
    pub out: Seq<u8>,
    pub count: u64,
}

impl TraceLog {
    /// The trace with one more record.
    pub open spec fn pushed(self, r: TraceRecord) -> TraceLog {
        TraceLog { out: self.out + bytes_of(r.words()), count: self.count.wrapping_add(1) }
    }

    pub open spec fn empty() -> TraceLog {
        TraceLog { out: Seq::empty(), count: 0 }
    }
}

impl View for TraceWriter {
    type V = TraceLog;

    open spec fn view(&self) -> TraceLog {
        TraceLog { out: self.out@, count: self.count }
    }
}

impl TraceWriter {
    pub fn create() -> (w: Self)
        ensures
            w@ == TraceLog::empty(),
    {
        TraceWriter { out: Vec::new(), count: 0 }
    }

    pub fn push(&mut self, record: &TraceRecord)
        ensures
            final(self)@ == old(self)@.pushed(*record),
    {
        record.put(&mut self.out);
        self.count = self.count.wrapping_add(1);
    }

    pub fn count(&self) -> (n: u64)
        ensures
            n == self@.count,
    {
        self.count
    }

    /// Hands out what is to be written.
    pub fn flush(&mut self) -> (b: Vec<u8>)
        ensures
            b@ == old(self)@.out,
            final(self)@ == (TraceLog { out: Seq::empty(), count: old(self)@.count }),
    {
        let mut b: Vec<u8> = Vec::new();
        b.append(&mut self.out);
        assert(b@ =~= old(self).out@);
        b
    }
}

/// Reads a trace record by record.
pub struct TraceReader {
    pub input: Vec<u8>,
    /// Bytes already read.
    pub pos: usize,
}

impl TraceReader {
    pub open spec fn wf(&self) -> bool {
        self.pos <= self.input@.len()
    }

    /// What is still to be read.
    pub open spec fn rest(&self) -> Seq<u8> {
        self.input@.skip(self.pos as int)
    }

    pub fn open(input: Vec<u8>) -> (r: Self)
        ensures
            r.wf(),
            r.rest() == input@,
    {
        let r = TraceReader { input, pos: 0 };
        assert(r.rest() =~= r.input@);
        r
    }

    /// The next record. An incomplete record at the end, as a capture that was cut off
    /// leaves it, is taken for the end.
    pub fn next(&mut self) -> (r: Option<TraceRecord>)
        requires
            old(self).wf(),
        ensures
            final(self).wf(),
            r is Some == (old(self).rest().len() >= TRACE_RECORD_SIZE),
            r matches Some(t) ==> {
                &&& t.is_read_from(words_of(old(self).rest(), TRACE_RECORD_WORDS as nat))
                &&& final(self).rest() == old(self).rest().skip(TRACE_RECORD_SIZE as int)
            },
            r is None ==> *final(self) == *old(self),
    {
        if self.input.len() - self.pos < TRACE_RECORD_SIZE {
            return None;
        }
        let r: TraceRecord = TraceRecord::get(&self.input, self.pos);
        self.pos = self.pos + TRACE_RECORD_SIZE;
        assert(self.rest() =~= old(self).rest().skip(TRACE_RECORD_SIZE as int));
        Some(r)
    }

    /// Passes over `n` records, or to the end where there are fewer.
    pub fn skip_records(&mut self, n: u64)
        requires
            old(self).wf(),
        ensures
            final(self).wf(),
            n * TRACE_RECORD_SIZE <= old(self).rest().len() ==> final(self).rest() == old(
                self,
            ).rest().skip(n * TRACE_RECORD_SIZE),
            n * TRACE_RECORD_SIZE > old(self).rest().len() ==> final(self).rest().len() == 0,
    {
        let left: usize = self.input.len() - self.pos;
        let whole: u64 = (left / TRACE_RECORD_SIZE) as u64;
        if n <= whole {
            self.pos = self.pos + n as usize * TRACE_RECORD_SIZE;
            assert(self.rest() =~= old(self).rest().skip(n * TRACE_RECORD_SIZE));
        } else {
            self.pos = self.input.len();
        }
    }
}

/// Law: what was pushed reads back. From a trace that starts with the bytes of `r`, `r` is
/// read, and then the rest remains.
pub proof fn law_trace_reads_back(r: TraceRecord, rest: Seq<u8>, s: TraceRecord)
    requires
        s.is_read_from(
            words_of(bytes_of(r.words()) + rest, TRACE_RECORD_WORDS as nat),
        ),
    ensures
        bytes_of(r.words()).len() == TRACE_RECORD_SIZE,
        s == r,
        (bytes_of(r.words()) + rest).skip(TRACE_RECORD_SIZE as int) == rest,
{
    let b = bytes_of(r.words());
    lemma_bytes(r.words());
    assert(r.words().len() == 75);
    assert((b + rest).subrange(0, b.len() as int) =~= b);
    law_words_read_back(r.words(), b + rest);
    law_records_read_back(r, s);
    assert((b + rest).skip(TRACE_RECORD_SIZE as int) =~= rest);
}

} // verus!

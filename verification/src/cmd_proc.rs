//! The command that looks into the guest's kernel.
use vstd::prelude::*;
use vstd::string::StringExecFns;

use crate::bytes::{big_endian, put_big_endian};
use crate::bus::{BusDevice, MipsCache, Tlb};
use crate::cmd_memory::{lossy_text, text_from_utf8_lossy};
use crate::command::{
    is_word, refused, words, End, EndView, Reply, ReplyView,
};
use crate::machine::{Machine, MipsExecutor};
use crate::status::ExecStatus;
use crate::text::{dec, hex, put, put_dec, put_hex};

verus! {

/// Bytes of each name in the kernel's `utsname`.
pub const NMLN: usize = 257;

/// Bytes of `utsname`, which holds five names.
pub const UTSNAME_SIZE: usize = 1285;

/// What is said of a failed read.
pub open spec fn read_failure(at: u64, e: ExecStatus) -> Seq<char> {
    "debug_read(0x"@ + hex(at as nat) + "): "@ + dec(e as nat)
}

/// The bytes before the first zero.
pub open spec fn up_to_zero(s: Seq<u8>) -> Seq<u8>
    decreases s.len(),
{
    if s.len() == 0 || s[0] == 0 {
        Seq::empty()
    } else {
        seq![s[0]] + up_to_zero(s.skip(1))
    }
}

/// Name number `k` in the bytes of `utsname`.
pub open spec fn uts_field(buf: Seq<u8>, k: int) -> Seq<u8> {
    up_to_zero(buf.subrange(k * NMLN, k * NMLN + NMLN))
}

/// The text that the standard library shows of a string for programmers.
pub uninterp spec fn quoted_text(s: Seq<char>) -> Seq<char>;

/// The `Debug` form of a string, as the standard library's `format!` writes it: in
/// quotation marks, with escapes.
#[verifier::external_body]
fn quoted(s: &str) -> (r: String)
    ensures
        r@ == quoted_text(s@),
{
    format!("{:?}", s)
}

/// A name as it is shown.
pub open spec fn shown_name(buf: Seq<u8>, k: int) -> Seq<char> {
    quoted_text(lossy_text(uts_field(buf, k)))
}

/// The names of the guest's system. `n` holds them as they are shown.
pub open spec fn utsname_text(va: u64, n: Seq<Seq<char>>) -> Seq<char> {
    "utsname @ 0x"@ + hex(va as nat) + ":\n  sysname  = "@ + n[0] + "\n  nodename = "@ + n[1]
        + "\n  release  = "@ + n[2] + "\n  version  = "@ + n[3] + "\n  machine  = "@ + n[4] + "\n"@
}

/// The names of the guest's system, of which `n` holds the shown forms.
pub fn show_utsname(va: u64, n: &Vec<String>) -> (s: String)
    requires
        n@.len() == 5,
    ensures
        s@ == utsname_text(va, words(n@)),
{
    let mut s: String = "utsname @ 0x".to_string();
    put_hex(&mut s, va);
    put(&mut s, ":\n  sysname  = ");
    put(&mut s, n[0].as_str());
    put(&mut s, "\n  nodename = ");
    put(&mut s, n[1].as_str());
    put(&mut s, "\n  release  = ");
    put(&mut s, n[2].as_str());
    put(&mut s, "\n  version  = ");
    put(&mut s, n[3].as_str());
    put(&mut s, "\n  machine  = ");
    put(&mut s, n[4].as_str());
    put(&mut s, "\n");
    s
}

impl<T: Tlb, C: MipsCache, B: BusDevice> Machine<T, C, B> {
    /// `bytes` and the `n` bytes from `at` on, read four at a time; or why they cannot
    /// be read.
    pub open spec fn block_from(self, bytes: Seq<u8>, at: u64, n: nat) -> (
        Result<Seq<u8>, Seq<char>>,
        Self,
    )
        decreases n,
    {
        if n == 0 {
            (Ok(bytes), self)
        } else {
            let k: nat = if n < 4 {
                n
            } else {
                4
            };
            let (r, m) = self.debug_read(at, k as usize);
            match r {
                Ok(v) => m.block_from(
                    bytes + big_endian(v, k),
                    at.wrapping_add(k as u64),
                    (n - k) as nat,
                ),
                Err(e) => (Err(read_failure(at, e)), m),
            }
        }
    }

    /// What the kernel's process table holds, after the text `text`.
    pub open spec fn process_table(self, text: Seq<char>) -> (ReplyView, Self) {
        let s = self.tools.symbols;
        match (s.address_of("nproc"@), s.address_of("proc"@)) {
            (None, _) => (
                ReplyView { text, end: EndView::Failed("symbol 'nproc' not found"@) },
                self,
            ),
            (Some(_), None) => (
                ReplyView { text, end: EndView::Failed("symbol 'proc' not found"@) },
                self,
            ),
            (Some(nproc_va), Some(proc_va)) => {
                let (r, m) = self.debug_read(nproc_va, 4);
                match r {
                    Err(e) => (
                        ReplyView { text, end: EndView::Failed(read_failure(nproc_va, e)) },
                        m,
                    ),
                    Ok(nproc) => {
                        let (r2, m2) = m.debug_read(proc_va, 4);
                        match r2 {
                            Err(e) => (
                                ReplyView { text, end: EndView::Failed(read_failure(proc_va, e)) },
                                m2,
                            ),
                            Ok(table) => (
                                ReplyView {
                                    text: text + "nproc    @ 0x"@ + hex(nproc_va as nat) + " = "@
                                        + dec(nproc as u32 as nat) + "\nproc[]   @ 0x"@ + hex(
                                        proc_va as nat,
                                    ) + " -> 0x"@ + hex(table as u32 as nat) + "\n"@,
                                    end: EndView::Done,
                                },
                                m2,
                            ),
                        }
                    },
                }
            },
        }
    }

    /// The command that shows the guest's system and its process table.
    pub open spec fn cmd_proc(self, args: Seq<Seq<char>>) -> (ReplyView, Self) {
        match self.tools.symbols.address_of("utsname"@) {
            None => (
                refused("symbol 'utsname' not found — run `loadsym <unix.nm>` first"@),
                self,
            ),
            Some(va) => {
                let (r, m) = self.block_from(Seq::empty(), va, UTSNAME_SIZE as nat);
                match r {
                    Err(e) => (refused(e), m),
                    Ok(buf) => if args.len() == 0 || args[0] == "info"@ {
                        m.process_table(
                            utsname_text(va, Seq::new(5, |k: int| shown_name(buf, k))),
                        )
                    } else {
                        (refused("Usage: proc info"@), m)
                    },
                }
            },
        }
    }
}

proof fn lemma_block_len<T: Tlb, C: MipsCache, B: BusDevice>(
    m: Machine<T, C, B>,
    bytes: Seq<u8>,
    at: u64,
    n: nat,
)
    ensures
        m.block_from(bytes, at, n).0 matches Ok(b) ==> b.len() == bytes.len() + n,
    decreases n,
{
    if n > 0 {
        let k: nat = if n < 4 {
            n
        } else {
            4
        };
        let (r, m1) = m.debug_read(at, k as usize);
        if let Ok(v) = r {
            lemma_block_len(m1, bytes + big_endian(v, k), at.wrapping_add(k as u64), (n - k) as nat);
        }
    }
}

fn read_failure_text(at: u64, e: ExecStatus) -> (s: String)
    ensures
        s@ == read_failure(at, e),
{
    let mut s: String = "debug_read(0x".to_string();
    put_hex(&mut s, at);
    put(&mut s, "): ");
    put_dec(&mut s, e as u64);
    s
}

/// Name number `k` in the bytes of `utsname`.
fn field(buf: &Vec<u8>, k: usize) -> (v: Vec<u8>)
    requires
        k < 5,
        buf@.len() == UTSNAME_SIZE,
    ensures
        v@ == uts_field(buf@, k as int),
{
    let from: usize = k * NMLN;
    let end: usize = from + NMLN;
    let ghost s = buf@.subrange(from as int, end as int);
    let mut v: Vec<u8> = Vec::new();
    let mut i: usize = from;
    assert(s.skip(0) =~= s);
    assert(v@ + up_to_zero(s.skip(0)) =~= up_to_zero(s));
    while i < end && buf[i] != 0
        invariant
            from <= i <= end <= buf@.len(),
            s == buf@.subrange(from as int, end as int),
            v@ + up_to_zero(s.skip(i - from)) == up_to_zero(s),
        decreases end - i,
    {
        let ghost before = v@;
        proof {
            let t = s.skip(i - from);
            assert(t[0] == buf@[i as int]);
            assert(t.skip(1) =~= s.skip(i - from + 1));
        }
        v.push(buf[i]);
        i = i + 1;
        assert(v@ + up_to_zero(s.skip(i - from)) =~= before + up_to_zero(s.skip(i - 1 - from)));
    }
    proof {
        let t = s.skip(i - from);
        if i < end {
            assert(t[0] == buf@[i as int]);
        }
        assert(up_to_zero(t) =~= Seq::empty());
        assert(v@ + up_to_zero(t) =~= v@);
    }
    v
}

/// The names in the bytes of `utsname`, as they are shown.
fn shown_names(buf: &Vec<u8>) -> (n: Vec<String>)
    requires
        buf@.len() == UTSNAME_SIZE,
    ensures
        n@.len() == 5,
        words(n@) == Seq::new(5, |k: int| shown_name(buf@, k)),
{
    let mut n: Vec<String> = Vec::new();
    while n.len() < 5
        invariant
            buf@.len() == UTSNAME_SIZE,
            n@.len() <= 5,
            forall|k: int| 0 <= k < n@.len() ==> (#[trigger] n@[k])@ == shown_name(buf@, k),
        decreases 5 - n@.len(),
    {
        let f: Vec<u8> = field(buf, n.len());
        let t: String = text_from_utf8_lossy(&f);
        n.push(quoted(t.as_str()));
    }
    assert(words(n@) =~= Seq::new(5, |k: int| shown_name(buf@, k)));
    n
}

impl<T: Tlb, C: MipsCache, B: BusDevice> MipsExecutor<T, C, B> {
    fn read_block(&mut self, va: u64, n: usize) -> (r: Result<Vec<u8>, String>)
        requires
            old(self).wf(),
        ensures
            final(self).wf(),
            final(self)@ == old(self)@.block_from(Seq::empty(), va, n as nat).1,
            match old(self)@.block_from(Seq::empty(), va, n as nat).0 {
                Ok(b) => r is Ok && r->Ok_0@ == b && b.len() == n,
                Err(e) => r is Err && r->Err_0@ == e,
            },
    {
        let mut out: Vec<u8> = Vec::new();
        let mut at: u64 = va;
        let mut left: usize = n;
        proof {
            lemma_block_len(self@, out@, va, n as nat);
        }
        while left > 0
            invariant
                self.wf(),
                self@.block_from(out@, at, left as nat) == old(self)@.block_from(
                    Seq::empty(),
                    va,
                    n as nat,
                ),
                old(self)@.block_from(Seq::empty(), va, n as nat).0 matches Ok(b) ==> b.len() == n,
            decreases left,
        {
            let k: usize = if left < 4 {
                left
            } else {
                4
            };
            match self.debug_read(at, k) {
                Ok(v) => put_big_endian(&mut out, v, k),
                Err(e) => {
                    return Err(read_failure_text(at, e));
                },
            }
            at = at.wrapping_add(k as u64);
            left = left - k;
        }
        Ok(out)
    }

    fn show_process_table(&mut self, text: String) -> (r: Reply)
        requires
            old(self).wf(),
        ensures
            final(self).wf(),
            (r@, final(self)@) == old(self)@.process_table(text@),
    {
        let nproc_va: u64 = match self.tools.symbols.get_addr("nproc") {
            Some(a) => a,
            None => {
                return Reply { text, end: End::Failed("symbol 'nproc' not found".to_string()) };
            },
        };
        let proc_va: u64 = match self.tools.symbols.get_addr("proc") {
            Some(a) => a,
            None => {
                return Reply { text, end: End::Failed("symbol 'proc' not found".to_string()) };
            },
        };
        let nproc: u32 = match self.debug_read(nproc_va, 4) {
            Ok(v) => #[verifier::truncate] (v as u32),
            Err(e) => {
                return Reply { text, end: End::Failed(read_failure_text(nproc_va, e)) };
            },
        };
        let table: u32 = match self.debug_read(proc_va, 4) {
            Ok(v) => #[verifier::truncate] (v as u32),
            Err(e) => {
                return Reply { text, end: End::Failed(read_failure_text(proc_va, e)) };
            },
        };
        let mut s: String = text;
        put(&mut s, "nproc    @ 0x");
        put_hex(&mut s, nproc_va);
        put(&mut s, " = ");
        put_dec(&mut s, nproc as u64);
        put(&mut s, "\nproc[]   @ 0x");
        put_hex(&mut s, proc_va);
        put(&mut s, " -> 0x");
        put_hex(&mut s, table as u64);
        put(&mut s, "\n");
        Reply { text: s, end: End::Done }
    }

    /// Shows the guest's system and its process table.
    pub fn cmd_proc(&mut self, args: &[String]) -> (r: Reply)
        requires
            old(self).wf(),
        ensures
            final(self).wf(),
            (r@, final(self)@) == old(self)@.cmd_proc(words(args@)),
    {
        let va: u64 = match self.tools.symbols.get_addr("utsname") {
            Some(a) => a,
            None => {
                return Reply::refuse("symbol 'utsname' not found — run `loadsym <unix.nm>` first");
            },
        };
        let buf: Vec<u8> = match self.read_block(va, UTSNAME_SIZE) {
            Ok(b) => b,
            Err(e) => {
                return Reply::fail(e);
            },
        };
        let names: Vec<String> = shown_names(&buf);
        if args.len() == 0 || is_word(args, 0, "info") {
            let text: String = show_utsname(va, &names);
            self.show_process_table(text)
        } else {
            Reply::refuse("Usage: proc info")
        }
    }
}

} // verus!

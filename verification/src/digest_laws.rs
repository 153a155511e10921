//! What the list of differences between two digests promises.
use vstd::prelude::*;

use crate::digest::{
    bool_text, differing, gpr_differences, gpr_label, hex32, hex64, CpuStateDigest,
    DifferenceView,
};
use crate::saved_state::{number_in, saved32, saved64};
use crate::saved_state_laws::lemma_register_reads_back;
use crate::text::{dec, digit, numeral};

verus! {

/// The difference as seen from the other side.
pub open spec fn swapped(d: DifferenceView) -> DifferenceView {
    (d.0, d.2, d.1)
}

/// The name of field `k`, in the order in which the fields are compared.
spec fn field_name(k: int) -> Seq<char> {
    if k == 0 {
        "pc"@
    } else if k == 1 {
        "hi"@
    } else if k == 2 {
        "lo"@
    } else if k == 3 {
        "cp0_count"@
    } else if k == 4 {
        "cp0_compare"@
    } else if k == 5 {
        "cp0_status"@
    } else if k == 6 {
        "cp0_cause"@
    } else if k == 7 {
        "cp0_epc"@
    } else if k == 8 {
        "cp0_badvaddr"@
    } else if k == 9 {
        "cp0_entryhi"@
    } else if k == 10 {
        "count_hz"@
    } else if k == 11 {
        "in_delay_slot"@
    } else {
        "step_status"@
    }
}

spec fn field_text(d: CpuStateDigest, k: int) -> Seq<char> {
    if k == 0 {
        hex64(d.pc)
    } else if k == 1 {
        hex64(d.hi)
    } else if k == 2 {
        hex64(d.lo)
    } else if k == 3 {
        hex64(d.cp0_count)
    } else if k == 4 {
        hex64(d.cp0_compare)
    } else if k == 5 {
        hex32(d.cp0_status)
    } else if k == 6 {
        hex32(d.cp0_cause)
    } else if k == 7 {
        hex64(d.cp0_epc)
    } else if k == 8 {
        hex64(d.cp0_badvaddr)
    } else if k == 9 {
        hex64(d.cp0_entryhi)
    } else if k == 10 {
        dec(d.count_hz as nat)
    } else if k == 11 {
        bool_text(d.in_delay_slot)
    } else {
        hex32(d.step_status)
    }
}

/// The difference of field `k`, if there is one.
spec fn field_difference(a: CpuStateDigest, b: CpuStateDigest, k: int) -> Seq<DifferenceView> {
    let (x, y) = (field_text(a, k), field_text(b, k));
    differing(x != y, field_name(k), x, y)
}

/// The differences of the registers and of the first `n` fields.
spec fn first_differences(a: CpuStateDigest, b: CpuStateDigest, n: int) -> Seq<DifferenceView>
    decreases n,
{
    if n <= 0 {
        gpr_differences(a.gpr@, b.gpr@, 32)
    } else {
        first_differences(a, b, n - 1) + field_difference(a, b, n - 1)
    }
}

/// Different digits are written differently.
proof fn lemma_digits(a: u64, b: u64)
    requires
        a < 10,
        b < 10,
        digit(a) == digit(b),
    ensures
        a == b,
{
}

/// Different numbers are written differently.
proof fn lemma_dec(a: nat, b: nat)
    requires
        dec(a) == dec(b),
    ensures
        a == b,
    decreases a,
{
    let s = numeral(a, 10);
    let t = numeral(b, 10);
    assert(numeral(a / 10, 10).len() >= 1);
    assert(numeral(b / 10, 10).len() >= 1);
    assert(s.last() == digit((a % 10) as u64));
    assert(t.last() == digit((b % 10) as u64));
    lemma_digits((a % 10) as u64, (b % 10) as u64);
    if a >= 10 && b >= 10 {
        assert(s.drop_last() =~= numeral(a / 10, 10));
        assert(t.drop_last() =~= numeral(b / 10, 10));
        lemma_dec(a / 10, b / 10);
    }
}

/// Different values of a field are shown differently.
proof fn lemma_texts()
    ensures
        forall|a: u64, b: u64| #[trigger] hex64(a) == #[trigger] hex64(b) ==> a == b,
        forall|a: u32, b: u32| #[trigger] hex32(a) == #[trigger] hex32(b) ==> a == b,
        forall|a: u64, b: u64| #[trigger] dec(a as nat) == #[trigger] dec(b as nat) ==> a == b,
        bool_text(true) != bool_text(false),
{
    lemma_register_reads_back();
    assert forall|a: u64, b: u64| #[trigger] hex64(a) == #[trigger] hex64(b) implies a == b by {
        assert(saved64(a) == saved64(b));
        assert(number_in(saved64(a), u64::MAX as nat) == Some(a as nat));
        assert(number_in(saved64(b), u64::MAX as nat) == Some(b as nat));
    }
    assert forall|a: u32, b: u32| #[trigger] hex32(a) == #[trigger] hex32(b) implies a == b by {
        assert(saved32(a) == saved32(b));
        assert(number_in(saved32(a), u32::MAX as nat) == Some(a as nat));
        assert(number_in(saved32(b), u32::MAX as nat) == Some(b as nat));
    }
    assert forall|a: u64, b: u64| #[trigger] dec(a as nat) == #[trigger] dec(b as nat) implies a
        == b by {
        lemma_dec(a as nat, b as nat);
    }
    reveal_strlit("true");
    reveal_strlit("false");
    assert("true"@.len() != "false"@.len());
}

/// What tells the names apart.
spec fn tell(s: Seq<char>) -> (nat, char) {
    (s.len(), s.last())
}

proof fn lemma_names()
    ensures
        forall|j: int, k: int|
            0 <= j < k < 13 ==> #[trigger] field_name(j) != #[trigger] field_name(k),
        forall|i: int, k: int|
            0 <= k < 13 ==> #[trigger] gpr_label(i) != #[trigger] field_name(k),
        forall|i: int, j: int|
            0 <= i < j ==> #[trigger] gpr_label(i) != #[trigger] gpr_label(j),
{
    reveal_strlit("pc");
    reveal_strlit("hi");
    reveal_strlit("lo");
    reveal_strlit("cp0_count");
    reveal_strlit("cp0_compare");
    reveal_strlit("cp0_status");
    reveal_strlit("cp0_cause");
    reveal_strlit("cp0_epc");
    reveal_strlit("cp0_badvaddr");
    reveal_strlit("cp0_entryhi");
    reveal_strlit("count_hz");
    reveal_strlit("in_delay_slot");
    reveal_strlit("step_status");
    reveal_strlit("gpr[");
    reveal_strlit("]");
    assert(tell("pc"@) == (2nat, 'c'));
    assert(tell("hi"@) == (2nat, 'i'));
    assert(tell("lo"@) == (2nat, 'o'));
    assert(tell("cp0_count"@) == (9nat, 't'));
    assert(tell("cp0_compare"@) == (11nat, 'e'));
    assert(tell("cp0_status"@) == (10nat, 's'));
    assert(tell("cp0_cause"@) == (9nat, 'e'));
    assert(tell("cp0_epc"@) == (7nat, 'c'));
    assert(tell("cp0_badvaddr"@) == (12nat, 'r'));
    assert(tell("cp0_entryhi"@) == (11nat, 'i'));
    assert(tell("count_hz"@) == (8nat, 'z'));
    assert(tell("in_delay_slot"@) == (13nat, 't'));
    assert(tell("step_status"@) == (11nat, 's'));
    assert forall|i: int, k: int| 0 <= k < 13 implies #[trigger] gpr_label(i)
        != #[trigger] field_name(k) by {
        assert(gpr_label(i).last() == ']');
    }
    assert forall|i: int, j: int| 0 <= i < j implies #[trigger] gpr_label(i) != #[trigger] gpr_label(
        j,
    ) by {
        let s = gpr_label(i);
        let t = gpr_label(j);
        if s == t {
            assert(s.subrange(4, s.len() - 1) =~= dec(i as nat));
            assert(t.subrange(4, t.len() - 1) =~= dec(j as nat));
            lemma_dec(i as nat, j as nat);
        }
    }
}

/// Every name of `d` is that of one of the first `r` registers or `k` fields, none occurs
/// twice, and the two texts of a difference differ.
spec fn is_clear(d: Seq<DifferenceView>, r: int, k: int) -> bool {
    &&& forall|i: int|
        0 <= i < d.len() ==> {
            ||| exists|j: int| 0 <= j < r && (#[trigger] d[i]).0 == #[trigger] gpr_label(j)
            ||| exists|j: int| 0 <= j < k && (#[trigger] d[i]).0 == #[trigger] field_name(j)
        }
    &&& forall|i: int, j: int| 0 <= i < j < d.len() ==> (#[trigger] d[i]).0 != (#[trigger] d[j]).0
    &&& forall|i: int| 0 <= i < d.len() ==> (#[trigger] d[i]).1 != d[i].2
}

proof fn lemma_clear_registers(a: Seq<u64>, b: Seq<u64>, n: int)
    requires
        0 <= n <= 32,
        a.len() == 32,
        b.len() == 32,
    ensures
        is_clear(gpr_differences(a, b, n), n, 0),
    decreases n,
{
    if n > 0 {
        lemma_clear_registers(a, b, n - 1);
        lemma_names();
        lemma_texts();
        let d = gpr_differences(a, b, n - 1);
        let e = gpr_differences(a, b, n);
        assert forall|i: int| 0 <= i < e.len() implies {
            ||| exists|j: int| 0 <= j < n && (#[trigger] e[i]).0 == #[trigger] gpr_label(j)
            ||| exists|j: int| 0 <= j < 0 && (#[trigger] e[i]).0 == #[trigger] field_name(j)
        } by {
            if i < d.len() {
                assert(e[i] == d[i]);
                let j = choose|j: int| 0 <= j < n - 1 && d[i].0 == #[trigger] gpr_label(j);
                assert(e[i].0 == gpr_label(j));
            } else {
                assert(e[i].0 == gpr_label(n - 1));
            }
        }
        assert forall|i: int, j: int| 0 <= i < j < e.len() implies (#[trigger] e[i]).0
            != (#[trigger] e[j]).0 by {
            assert(e[i] == d[i]);
            let g = choose|g: int| 0 <= g < n - 1 && d[i].0 == #[trigger] gpr_label(g);
            if j < d.len() {
                assert(e[j] == d[j]);
            } else {
                assert(e[j].0 == gpr_label(n - 1));
            }
        }
    }
}

proof fn lemma_clear_fields(a: CpuStateDigest, b: CpuStateDigest, n: int)
    requires
        0 <= n <= 13,
    ensures
        is_clear(first_differences(a, b, n), 32, n),
    decreases n,
{
    if n == 0 {
        lemma_clear_registers(a.gpr@, b.gpr@, 32);
    } else {
        lemma_clear_fields(a, b, n - 1);
        lemma_names();
        let d = first_differences(a, b, n - 1);
        let e = first_differences(a, b, n);
        assert forall|i: int| 0 <= i < e.len() implies {
            ||| exists|j: int| 0 <= j < 32 && (#[trigger] e[i]).0 == #[trigger] gpr_label(j)
            ||| exists|j: int| 0 <= j < n && (#[trigger] e[i]).0 == #[trigger] field_name(j)
        } by {
            if i < d.len() {
                assert(e[i] == d[i]);
            } else {
                assert(e[i].0 == field_name(n - 1));
            }
        }
        assert forall|i: int, j: int| 0 <= i < j < e.len() implies (#[trigger] e[i]).0
            != (#[trigger] e[j]).0 by {
            assert(e[i] == d[i]);
            if j < d.len() {
                assert(e[j] == d[j]);
            } else {
                assert(e[j].0 == field_name(n - 1));
            }
        }
        assert forall|i: int| 0 <= i < e.len() implies (#[trigger] e[i]).1 != e[i].2 by {
            if i < d.len() {
                assert(e[i] == d[i]);
            }
        }
    }
}

proof fn lemma_swapped_registers(a: Seq<u64>, b: Seq<u64>, n: int)
    ensures
        gpr_differences(b, a, n) == gpr_differences(a, b, n).map_values(|d| swapped(d)),
    decreases n,
{
    if n > 0 {
        lemma_swapped_registers(a, b, n - 1);
    }
    assert(gpr_differences(b, a, n) =~= gpr_differences(a, b, n).map_values(|d| swapped(d)));
}

proof fn lemma_swapped_fields(a: CpuStateDigest, b: CpuStateDigest, n: int)
    ensures
        first_differences(b, a, n) == first_differences(a, b, n).map_values(|d| swapped(d)),
    decreases n,
{
    if n <= 0 {
        lemma_swapped_registers(a.gpr@, b.gpr@, 32);
    } else {
        lemma_swapped_fields(a, b, n - 1);
        assert(first_differences(b, a, n) =~= first_differences(a, b, n).map_values(
            |d| swapped(d),
        ));
    }
}

proof fn lemma_all_differences(a: CpuStateDigest, b: CpuStateDigest)
    ensures
        a.differences(&b) == first_differences(a, b, 13),
{
    lemma_texts();
    reveal_with_fuel(first_differences, 14);
}

/// Law: taken from the other side, two digests have the same differences, with the two
/// texts of each exchanged.
pub proof fn law_differences_can_be_swapped(a: CpuStateDigest, b: CpuStateDigest)
    ensures
        b.differences(&a).len() == a.differences(&b).len(),
        forall|i: int|
            0 <= i < a.differences(&b).len() ==> #[trigger] b.differences(&a)[i] == swapped(
                a.differences(&b)[i],
            ),
{
    lemma_all_differences(a, b);
    lemma_all_differences(b, a);
    lemma_swapped_fields(a, b, 13);
}

/// Law: no field is listed twice, and the two texts of a difference differ.
pub proof fn law_differences_are_distinct(a: CpuStateDigest, b: CpuStateDigest)
    ensures
        forall|i: int, j: int|
            0 <= i < j < a.differences(&b).len() ==> (#[trigger] a.differences(&b)[i]).0 != (
            #[trigger] a.differences(&b)[j]).0,
        forall|i: int|
            0 <= i < a.differences(&b).len() ==> (#[trigger] a.differences(&b)[i]).1
                != a.differences(&b)[i].2,
{
    lemma_all_differences(a, b);
    lemma_clear_fields(a, b, 13);
}

} // verus!

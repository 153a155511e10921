use iris::undo::{CpuSnapshot, UndoBuffer};

fn snap(pc: u64) -> CpuSnapshot {
    CpuSnapshot { pc, ..Default::default() }
}

#[test]
fn resize_preserves_order_below_capacity() {
    let mut buf = UndoBuffer { enabled: true, snapshots: vec![None; 4], head: 0, count: 0 };
    for pc in [1, 2, 3] {
        buf.push(snap(pc));
    }
    buf.resize(8);
    assert_eq!(buf.capacity(), 8);
    assert_eq!(buf.count, 3);
    // steps_back=1 is the most recently pushed (pc=3), steps_back=3 the oldest (pc=1).
    assert_eq!(buf.get(1).unwrap().pc, 3);
    assert_eq!(buf.get(2).unwrap().pc, 2);
    assert_eq!(buf.get(3).unwrap().pc, 1);
}

/// The interesting case: resize while the ring has already wrapped
/// around (head has cycled past 0), so a naive `Vec::resize` on the raw
/// backing storage (instead of `resize`'s oldest-to-newest drain) would
/// scramble logical ordering — entries physically after `head` in the
/// old backing array are actually the *oldest* ones, not contiguous
/// with what looks adjacent by raw index.
#[test]
fn resize_preserves_order_after_wraparound() {
    let mut buf = UndoBuffer { enabled: true, snapshots: vec![None; 3], head: 0, count: 0 };
    // Capacity 3, push 5 -> wraps around twice; only the last 3 (3,4,5) survive.
    for pc in [1, 2, 3, 4, 5] {
        buf.push(snap(pc));
    }
    assert_eq!(buf.count, 3);
    assert_eq!(buf.get(1).unwrap().pc, 5);
    assert_eq!(buf.get(2).unwrap().pc, 4);
    assert_eq!(buf.get(3).unwrap().pc, 3);

    buf.resize(6);
    assert_eq!(buf.capacity(), 6);
    assert_eq!(buf.count, 3);
    assert_eq!(buf.get(1).unwrap().pc, 5, "most recent must still be most recent after growing past a wraparound");
    assert_eq!(buf.get(2).unwrap().pc, 4);
    assert_eq!(buf.get(3).unwrap().pc, 3);

    // And the buffer must still behave correctly for further pushes at the new capacity.
    buf.push(snap(6));
    assert_eq!(buf.count, 4);
    assert_eq!(buf.get(1).unwrap().pc, 6);
    assert_eq!(buf.get(4).unwrap().pc, 3);
}

#[test]
fn resize_to_smaller_or_equal_capacity_is_a_no_op() {
    let mut buf = UndoBuffer { enabled: true, snapshots: vec![None; 8], head: 0, count: 0 };
    buf.push(snap(1));
    buf.resize(4); // smaller than current capacity 8
    assert_eq!(buf.capacity(), 8, "resize must never shrink");
    buf.resize(8); // equal
    assert_eq!(buf.capacity(), 8);
    assert_eq!(buf.get(1).unwrap().pc, 1, "existing entries must survive a no-op resize");
}

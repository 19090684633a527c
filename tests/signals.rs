use linux_rtfm::ceiling::{lock_enter, lock_exit, LockEntry, Priority};
use linux_rtfm::export::{assert_send, assert_sync, Barrier, Pid, Timer};
use linux_rtfm::signal::{handler_mask, mask, payload, runtime_mask, signal_offset, SIGRTMIN};

fn bit_of_signal(signo: i32) -> u64 {
    1u64 << (signo - 1)
}

#[test]
fn signal_offsets_count_down_from_range_end() {
    assert_eq!(signal_offset(0..3, 1), 2);
    assert_eq!(signal_offset(0..3, 3), 0);
    assert_eq!(signal_offset(4..6, 1), 5);
}

#[test]
fn mask_covers_priorities_above_current_up_to_ceiling() {
    assert_eq!(mask(0..3, 1, 2), 1u64 << 32);
    assert_eq!(mask(0..3, 0, 3), 0b111u64 << 31);
    assert_eq!(mask(0..3, 2, 3), 1u64 << 31);
    assert_eq!(mask(3..5, 0, 1), 1u64 << 35);
}

#[test]
fn handler_mask_covers_lower_priorities() {
    assert_eq!(handler_mask(0..3, 3), 0b11u64 << 32);
    assert_eq!(handler_mask(0..3, 1), 0);
    assert_eq!(handler_mask(0..3, 2), 1u64 << 33);
}

#[test]
fn runtime_mask_covers_signals_up_to_max() {
    assert_eq!(runtime_mask(2), 0b111u64 << 31);
    assert_eq!(runtime_mask(0), 1u64 << 31);
}

#[test]
fn payload_packs_task_high_index_low() {
    assert_eq!(payload(3, 7), 0x0307);
    assert_eq!(payload(255, 255), 0xffff);
    assert_eq!(payload(0, 0), 0);
}

#[test]
fn ceiling_defers_higher_task_for_one_section() {
    let range = 0..3;
    let b_signal = SIGRTMIN + signal_offset(range.clone(), 2) as i32;
    let a_signal = SIGRTMIN + signal_offset(range.clone(), 1) as i32;
    let mut blocked: u64 = handler_mask(range.clone(), 1);
    let mut prio = Priority::new(1);
    let entry = lock_enter(&mut prio, 2, range.clone());
    let m = match entry {
        LockEntry::Masked { previous, mask } => {
            assert_eq!(previous, 1);
            mask
        }
        LockEntry::Direct => panic!("no masking"),
    };
    blocked |= m;
    assert_eq!(prio.get(), 2);
    assert!(blocked & bit_of_signal(b_signal) != 0);
    let unblock = lock_exit(&mut prio, entry).unwrap();
    blocked &= !unblock;
    assert_eq!(prio.get(), 1);
    assert_eq!(blocked, 0);
    assert!(handler_mask(range, 2) & bit_of_signal(a_signal) != 0);
}

#[test]
fn lock_at_or_above_ceiling_changes_nothing() {
    let mut prio = Priority::new(2);
    let entry = lock_enter(&mut prio, 2, 0..3);
    assert!(entry == LockEntry::Direct);
    assert_eq!(prio.get(), 2);
    assert_eq!(lock_exit(&mut prio, entry), None);
    assert_eq!(prio.get(), 2);
}

#[test]
fn nested_locks_restore_priority_and_mask() {
    let mut prio = Priority::new(0);
    let mut blocked: u64 = 0;
    let outer = lock_enter(&mut prio, 1, 0..3);
    if let LockEntry::Masked { mask, .. } = outer {
        blocked |= mask;
    }
    let inner = lock_enter(&mut prio, 3, 0..3);
    if let LockEntry::Masked { mask, .. } = inner {
        blocked |= mask;
    }
    assert_eq!(prio.get(), 3);
    assert_eq!(blocked, 0b111u64 << 31);
    let same = lock_enter(&mut prio, 2, 0..3);
    assert!(same == LockEntry::Direct);
    assert_eq!(lock_exit(&mut prio, same), None);
    blocked &= !lock_exit(&mut prio, inner).unwrap();
    assert_eq!(prio.get(), 1);
    assert_eq!(blocked, 1u64 << 33);
    blocked &= !lock_exit(&mut prio, outer).unwrap();
    assert_eq!(prio.get(), 0);
    assert_eq!(blocked, 0);
}

#[test]
fn priority_cell_set_and_get() {
    let mut p = Priority::new(4);
    assert_eq!(p.get(), 4);
    p.set(1);
    assert_eq!(p.get(), 1);
}

#[test]
fn handshake_cells() {
    let b = Barrier::new();
    assert!(!b.is_released());
    b.release();
    assert!(b.is_released());
    let pid = Pid::uninit();
    assert_eq!(pid.published(), None);
    pid.init(42);
    assert_eq!(pid.get(), 42);
    assert_eq!(pid.published(), Some(42));
    let t = Timer::uninit();
    assert_eq!(t.get(), 0);
    t.init(3);
    assert_eq!(t.get(), 3);
    assert_send::<Pid>();
    assert_sync::<Barrier>();
}

#[test]
fn highest_range_reaches_signal_64() {
    assert_eq!(signal_offset(0..33, 1), 32);
    assert_eq!(mask(0..33, 0, 1), 1u64 << 63);
    assert_eq!(mask(0..33, 31, 33), 0b11u64 << 31);
    assert_eq!(handler_mask(0..33, 2), 1u64 << 63);
    assert_eq!(handler_mask(0..33, 33), !0u64 << 32);
}

#[test]
fn published_value_reads_zero_as_unpublished() {
    assert_eq!(Pid::published_value(0), None);
    assert_eq!(Pid::published_value(7), Some(7));
    assert_eq!(Pid::published_value(-3), Some(-3));
}

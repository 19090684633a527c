//! The immediate priority ceiling protocol: raising and restoring the effective
//! priority of an execution context around a critical section.
use crate::signal::{bit_set, blocks_exactly, levels, mask, priority_of_signal, valid_range};
use core::ops::Range;
use vstd::prelude::*;

verus! {

/// The effective priority of one execution context.
#[derive(Clone, Copy, Debug, PartialEq, Eq, Structural)]
pub struct Priority {
    inner: u8,
}

impl View for Priority {
    type V = u8;

    closed spec fn view(&self) -> u8 {
        self.inner
    }
}

impl Priority {
    pub fn new(value: u8) -> (r: Priority)
        ensures
            r@ == value,
    {
        Priority { inner: value }
    }

    pub fn get(&self) -> (r: u8)
        ensures
            r == self@,
    {
        self.inner
    }

    pub fn set(&mut self, value: u8)
        ensures
            final(self)@ == value,
    {
        self.inner = value;
    }
}

/// How a critical section was entered.
#[derive(Clone, Copy, Debug, PartialEq, Eq, Structural)]
pub enum LockEntry {
    /// The priority already reached the ceiling: nothing was changed.
    Direct,
    /// The priority was raised from `previous`; `mask` is the set of signals
    /// to block for the section and to unblock after it.
    Masked { previous: u8, mask: u64 },
}

/// Enters a critical section with the given ceiling. Where the effective priority
/// is below the ceiling, it is raised to the ceiling, and the signals of the
/// priorities above the old one up to the ceiling are to be blocked; otherwise
/// nothing changes.
pub fn lock_enter(priority: &mut Priority, ceiling: u8, range: Range<u8>) -> (r: LockEntry)
    requires
        valid_range(range),
        old(priority)@ <= levels(range),
        ceiling <= levels(range),
    ensures
        old(priority)@ >= ceiling ==> r == LockEntry::Direct && *final(priority) == *old(priority),
        old(priority)@ < ceiling ==> r is Masked && r->previous == old(priority)@
            && blocks_exactly(r->mask, range.end as int, old(priority)@ as int, ceiling as int)
            && final(priority)@ == ceiling,
{
    let current = priority.get();
    if current < ceiling {
        let m = mask(range, current, ceiling);
        priority.set(ceiling);
        LockEntry::Masked { previous: current, mask: m }
    } else {
        LockEntry::Direct
    }
}

/// Leaves a critical section: restores the priority recorded on entry, and
/// returns the signals to unblock, if any were blocked.
pub fn lock_exit(priority: &mut Priority, entry: LockEntry) -> (r: Option<u64>)
    ensures
        entry is Direct ==> r is None && *final(priority) == *old(priority),
        entry is Masked ==> r == Some(entry->mask) && final(priority)@ == entry->previous,
{
    match entry {
        LockEntry::Direct => None,
        LockEntry::Masked { previous, mask } => {
            priority.set(previous);
            Some(mask)
        },
    }
}

/// The signal mask of a thread after blocking `m`.
pub open spec fn after_block(blocked: u64, m: u64) -> u64 {
    blocked | m
}

/// The signal mask of a thread after unblocking `m`.
pub open spec fn after_unblock(blocked: u64, m: u64) -> u64 {
    blocked & !m
}

/// A critical section entered from below its ceiling, on a thread whose mask
/// holds none of the signals it blocks, adds to that mask exactly the signals of
/// the priorities above the old one up to the ceiling; leaving it gives back the
/// old mask.
pub proof fn lemma_lock_restores(blocked: u64, current: u8, ceiling: u8, end: u8, m: u64)
    requires
        blocks_exactly(m, end as int, current as int, ceiling as int),
        blocked & m == 0,
    ensures
        forall|b: u64| #![trigger bit_set(after_block(blocked, m), b)] b < 64 ==> (bit_set(after_block(blocked, m), b)
            <==> (bit_set(blocked, b) || current < priority_of_signal(end as int, b + 1) <= ceiling)),
        after_unblock(after_block(blocked, m), m) == blocked,
{
    assert forall|b: u64| #![trigger bit_set(after_block(blocked, m), b)] b < 64 implies (bit_set(after_block(blocked, m), b)
        <==> (bit_set(blocked, b) || bit_set(m, b))) by {
        assert((((blocked | m) >> b) & 1u64 == 1u64) <==> (((blocked >> b) & 1u64 == 1u64) || ((m >> b) & 1u64 == 1u64))) by (bit_vector);
    }
    assert((blocked | m) & !m == blocked) by (bit_vector)
        requires blocked & m == 0;
}

/// Two nested critical sections, left in the reverse order of entry, give back
/// the signal mask that was in force before the outer one.
pub proof fn lemma_nested_lock_restores(blocked: u64, outer: u64, inner: u64)
    requires
        blocked & outer == 0,
        (blocked | outer) & inner == 0,
    ensures
        after_unblock(after_unblock(after_block(after_block(blocked, outer), inner), inner), outer) == blocked,
{
    assert((((blocked | outer) | inner) & !inner) & !outer == blocked) by (bit_vector)
        requires
            blocked & outer == 0,
            (blocked | outer) & inner == 0;
}

} // verus!

//! Real-time signal numbers and masks for the priority levels of a core, and the
//! immediate priority ceiling protocol on top of them.
//!
//! The priorities of a core run from 1 to `range.end - range.start`; priority `p`
//! is signalled by `SIGRTMIN + range.end - p`. In a signal set, bit `b` stands
//! for signal `b + 1`.
use core::ops::Range;
use vstd::prelude::*;

verus! {

/// The first real-time signal of the Linux kernel.
pub const SIGRTMIN: i32 = 32;

/// A core's range of signal offsets that fits among the real-time signals.
pub open spec fn valid_range(range: Range<u8>) -> bool {
    range.start <= range.end <= 33
}

/// The number of priority levels in `range`.
pub open spec fn levels(range: Range<u8>) -> int {
    range.end - range.start
}

/// The signal of priority `p` in a range that ends at `end`.
pub open spec fn signal_of(end: int, p: int) -> int {
    SIGRTMIN + end - p
}

/// The priority signalled by `sig` in a range that ends at `end`.
pub open spec fn priority_of_signal(end: int, sig: int) -> int {
    SIGRTMIN + end - sig
}

/// Bit `b` of `m` is set.
pub open spec fn bit_set(m: u64, b: u64) -> bool {
    (m >> b) & 1u64 == 1u64
}

/// `m` holds the signals of exactly the priorities `p` with `lo < p <= hi`.
pub open spec fn blocks_exactly(m: u64, end: int, lo: int, hi: int) -> bool {
    forall|b: u64| #![trigger bit_set(m, b)] b < 64 ==> (bit_set(m, b) <==> lo < priority_of_signal(end, b + 1) <= hi)
}

proof fn lemma_ones_at(n: u64, s: u64, b: u64)
    requires
        n < 64,
        s + n <= 64,
        b < 64,
    ensures
        bit_set((((1u64 << n) - 1u64) as u64) << s, b) <==> s <= b < s + n,
{
    assert((((((1u64 << n) - 1u64) as u64) << s) >> b) & 1u64 == 1u64 <==> s <= b && b < s + n) by (bit_vector)
        requires
            n < 64,
            s + n <= 64,
            b < 64,
    ;
}

/// `n` set bits starting at bit `s`.
fn ones_at(n: u32, s: u32) -> (r: u64)
    requires
        n < 64,
        s + n <= 64,
    ensures
        forall|b: u64| #![trigger bit_set(r, b)] b < 64 ==> (bit_set(r, b) <==> s <= b < s + n),
{
    let top: u64 = 1u64 << n;
    proof {
        assert(top >= 1u64) by (bit_vector) requires top == 1u64 << n, n < 64;
    }
    let r: u64 = if s == 64 { 0u64 } else { (top - 1u64) << s };
    proof {
        assert forall|b: u64| #![trigger bit_set(r, b)] b < 64 implies (bit_set(r, b) <==> s <= b < s + n) by {
            if s == 64 {
                assert(bit_set(0u64, b) == false) by (bit_vector);
            } else {
                lemma_ones_at(n as u64, s as u64, b);
            }
        }
    }
    r
}

/// The signal offset, within the range, of priority `priority`.
pub fn signal_offset(range: Range<u8>, priority: u8) -> (r: u8)
    requires
        valid_range(range),
        1 <= priority <= levels(range),
    ensures
        SIGRTMIN + r == signal_of(range.end as int, priority as int),
        range.start <= r < range.end,
{
    range.end - priority
}

/// The signals that must be blocked while the priority is raised from `current`
/// to `ceiling`: those of the priorities above `current` up to `ceiling`.
pub fn mask(range: Range<u8>, current: u8, ceiling: u8) -> (r: u64)
    requires
        valid_range(range),
        current < ceiling <= levels(range),
    ensures
        blocks_exactly(r, range.end as int, current as int, ceiling as int),
{
    let n: u32 = (ceiling - current) as u32;
    let s: u32 = (SIGRTMIN as u32) - 1 + (range.end as u32) - (ceiling as u32);
    ones_at(n, s)
}

/// The signals that a handler of `priority` runs with blocked: those of every
/// lower priority of the range.
pub fn handler_mask(range: Range<u8>, priority: u8) -> (r: u64)
    requires
        valid_range(range),
        1 <= priority <= levels(range),
    ensures
        blocks_exactly(r, range.end as int, 0, priority - 1),
{
    let n: u32 = (priority - 1) as u32;
    let s: u32 = (SIGRTMIN as u32) + (range.end as u32) - (priority as u32);
    ones_at(n, s)
}

/// The signals blocked at start-up: the real-time signals from `SIGRTMIN` to
/// `SIGRTMIN + signo_max`.
pub fn runtime_mask(signo_max: u8) -> (r: u64)
    requires
        signo_max <= 32,
    ensures
        forall|b: u64| #![trigger bit_set(r, b)] b < 64 ==> (bit_set(r, b) <==> SIGRTMIN <= b + 1 <= SIGRTMIN + signo_max),
{
    ones_at((signo_max as u32) + 1, (SIGRTMIN as u32) - 1)
}

/// The word that a dispatch signal carries: the task in the high byte, the
/// message index in the low byte.
pub fn payload(task: u8, index: u8) -> (r: usize)
    ensures
        r == task * 256 + index,
{
    (task as usize) * 256 + (index as usize)
}

} // verus!

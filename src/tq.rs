//! Deadline-ordered queue of scheduled tasks, kept in a bounded min-heap.
use crate::time::{instant_le, valid_instant, Instant};
use heapless::binary_heap::{BinaryHeap, Min};
use vstd::multiset::Multiset;
use vstd::prelude::*;

verus! {

broadcast use vstd::multiset::group_multiset_axioms, vstd::multiset::group_multiset_properties;

/// How many entries one timer queue can hold.
pub const TIMER_QUEUE_CAPACITY: usize = 32;

#[verifier::external_type_specification]
#[verifier::external_body]
#[verifier::reject_recursive_types(T)]
#[verifier::reject_recursive_types(K)]
pub struct ExBinaryHeap<T, K, const N: usize>(BinaryHeap<T, K, N>);

#[verifier::external_type_specification]
#[verifier::external_body]
pub struct ExMin(Min);

/// What a heap of deadline entries holds. An entry is
/// `(deadline seconds, deadline nanoseconds, task, index)`.
pub uninterp spec fn heap_items(h: BinaryHeap<(i64, i64, u8, u8), Min, TIMER_QUEUE_CAPACITY>) -> Multiset<(i64, i64, u8, u8)>;

/// The order of tuples: field by field, the first difference decides.
pub open spec fn entry_le(a: (i64, i64, u8, u8), b: (i64, i64, u8, u8)) -> bool {
    a.0 < b.0 || (a.0 == b.0 && (a.1 < b.1 || (a.1 == b.1 && (a.2 < b.2 || (a.2 == b.2 && a.3 <= b.3)))))
}

/// `e` is the smallest entry of `m`.
pub open spec fn is_min_entry(e: (i64, i64, u8, u8), m: Multiset<(i64, i64, u8, u8)>) -> bool {
    m.contains(e) && forall|x: (i64, i64, u8, u8)| #[trigger] m.contains(x) ==> entry_le(e, x)
}

/// The smallest entry of a non-empty multiset.
pub open spec fn min_entry(m: Multiset<(i64, i64, u8, u8)>) -> (i64, i64, u8, u8) {
    choose|e: (i64, i64, u8, u8)| is_min_entry(e, m)
}

/// The deadline of `a` is not after that of `b`.
pub open spec fn deadline_le(a: (i64, i64, u8, u8), b: (i64, i64, u8, u8)) -> bool {
    instant_le((a.0 as int, a.1 as int), (b.0 as int, b.1 as int))
}

/// The deadline of `a` is strictly before that of `b`.
pub open spec fn deadline_lt(a: (i64, i64, u8, u8), b: (i64, i64, u8, u8)) -> bool {
    !deadline_le(b, a)
}

/// The deadline of `e` is strictly before every deadline in `m`.
pub open spec fn before_all(e: (i64, i64, u8, u8), m: Multiset<(i64, i64, u8, u8)>) -> bool {
    forall|x: (i64, i64, u8, u8)| #[trigger] m.contains(x) ==> deadline_lt(e, x)
}

/// Every entry of `m` holds a valid deadline.
pub open spec fn valid_entries(m: Multiset<(i64, i64, u8, u8)>) -> bool {
    forall|x: (i64, i64, u8, u8)| #[trigger] m.contains(x) ==> valid_instant((x.0 as int, x.1 as int))
}

/// A multiset has at most one smallest entry.
proof fn lemma_min_unique(e: (i64, i64, u8, u8), m: Multiset<(i64, i64, u8, u8)>)
    requires
        is_min_entry(e, m),
    ensures
        min_entry(m) == e,
{
    let c = min_entry(m);
    assert(is_min_entry(c, m));
    assert(entry_le(e, c) && entry_le(c, e));
}

proof fn lemma_remove_keeps_valid(m: Multiset<(i64, i64, u8, u8)>)
    requires
        valid_entries(m),
    ensures
        forall|y: (i64, i64, u8, u8)| #[trigger] valid_entries(m.remove(y)),
{
    assert forall|y: (i64, i64, u8, u8)| #[trigger] valid_entries(m.remove(y)) by {
        assert forall|x: (i64, i64, u8, u8)| #[trigger] m.remove(y).contains(x) implies valid_instant((x.0 as int, x.1 as int)) by {
            assert(m.contains(x));
        }
    }
}

/// Relies on heapless's `BinaryHeap::new`: a new heap is empty.
#[verifier::external_body]
fn heap_new() -> (r: BinaryHeap<(i64, i64, u8, u8), Min, TIMER_QUEUE_CAPACITY>)
    ensures
        heap_items(r) == Multiset::<(i64, i64, u8, u8)>::empty(),
{
    BinaryHeap::new()
}

/// Relies on heapless's `BinaryHeap::len`: the number of items, never above the capacity.
#[verifier::external_body]
fn heap_len(h: &BinaryHeap<(i64, i64, u8, u8), Min, TIMER_QUEUE_CAPACITY>) -> (r: usize)
    ensures
        r == heap_items(*h).len(),
        r <= TIMER_QUEUE_CAPACITY,
{
    h.len()
}

/// Relies on heapless's `BinaryHeap::peek`: the top of a min-heap is its smallest item.
#[verifier::external_body]
fn heap_peek(h: &BinaryHeap<(i64, i64, u8, u8), Min, TIMER_QUEUE_CAPACITY>) -> (r: Option<(i64, i64, u8, u8)>)
    ensures
        r is None <==> heap_items(*h).len() == 0,
        r is Some ==> is_min_entry(r->0, heap_items(*h)),
{
    h.peek().copied()
}

/// Relies on heapless's `BinaryHeap::pop`: removes and returns the smallest item.
#[verifier::external_body]
fn heap_pop(h: &mut BinaryHeap<(i64, i64, u8, u8), Min, TIMER_QUEUE_CAPACITY>) -> (r: Option<(i64, i64, u8, u8)>)
    ensures
        r is None <==> heap_items(*old(h)).len() == 0,
        r is None ==> heap_items(*final(h)) == heap_items(*old(h)),
        r is Some ==> is_min_entry(r->0, heap_items(*old(h))),
        r is Some ==> heap_items(*final(h)) == heap_items(*old(h)).remove(r->0),
    no_unwind
{
    h.pop()
}

/// Relies on heapless's `BinaryHeap::push`: adds the item unless the heap is full,
/// and hands it back if it is.
#[verifier::external_body]
fn heap_push(h: &mut BinaryHeap<(i64, i64, u8, u8), Min, TIMER_QUEUE_CAPACITY>, e: (i64, i64, u8, u8)) -> (r: Result<(), (i64, i64, u8, u8)>)
    ensures
        heap_items(*old(h)).len() < TIMER_QUEUE_CAPACITY ==> r is Ok && heap_items(*final(h)) == heap_items(*old(h)).insert(e),
        heap_items(*old(h)).len() >= TIMER_QUEUE_CAPACITY ==> r is Err && heap_items(*final(h)) == heap_items(*old(h)),
    no_unwind
{
    h.push(e)
}

/// A task waiting for its deadline: the task, a message index for it, and the deadline.
#[derive(Clone, Copy, Debug, PartialEq, Eq, Structural)]
pub struct NotReady {
    pub index: u8,
    pub instant: Instant,
    pub task: u8,
}

/// The heap entry of `nr`.
pub open spec fn entry_of(nr: NotReady) -> (i64, i64, u8, u8) {
    (nr.instant@.0 as i64, nr.instant@.1 as i64, nr.task, nr.index)
}

/// What `dequeue` found.
#[derive(Clone, Copy, Debug, PartialEq, Eq, Structural)]
pub enum Dequeue {
    /// The earliest entry was due and has been taken out.
    Ready { task: u8, index: u8 },
    /// Nothing is due; the timer is to fire at this instant.
    Arm(Instant),
    /// The queue is empty.
    Empty,
}

/// The pending deadlines of one core. Entries come out by deadline; entries with
/// the same deadline come out by task, then by index.
pub struct TimerQueue {
    heap: BinaryHeap<(i64, i64, u8, u8), Min, TIMER_QUEUE_CAPACITY>,
}

impl View for TimerQueue {
    type V = Multiset<(i64, i64, u8, u8)>;

    closed spec fn view(&self) -> Multiset<(i64, i64, u8, u8)> {
        heap_items(self.heap)
    }
}

impl TimerQueue {
    #[verifier::type_invariant]
    spec fn inv(self) -> bool {
        valid_entries(heap_items(self.heap))
    }

    pub fn new() -> (r: TimerQueue)
        ensures
            r@ == Multiset::<(i64, i64, u8, u8)>::empty(),
    {
        TimerQueue { heap: heap_new() }
    }

    /// The number of pending entries.
    pub fn len(&self) -> (r: usize)
        ensures
            r == self@.len(),
            r <= TIMER_QUEUE_CAPACITY,
    {
        heap_len(&self.heap)
    }

    /// Whether adding `nr` must wake the timer driver: exactly when its deadline is
    /// strictly before every pending one.
    pub fn needs_wake(&self, nr: NotReady) -> (wake: bool)
        ensures
            wake == before_all(entry_of(nr), self@),
    {
        proof {
            use_type_invariant(self);
        }
        let secs: i64 = nr.instant.secs();
        let nanos: i64 = nr.instant.subsec_nanos();
        let wake: bool = match heap_peek(&self.heap) {
            Some(head) => head.0 > secs || (head.0 == secs && head.1 > nanos),
            None => true,
        };
        proof {
            let m = self@;
            let e = entry_of(nr);
            if m.len() > 0 {
                let head = choose|h: (i64, i64, u8, u8)| is_min_entry(h, m);
                assert(wake == before_all(e, m)) by {
                    assert(m.contains(head));
                    if wake {
                        assert forall|x: (i64, i64, u8, u8)| #[trigger] m.contains(x) implies deadline_lt(e, x) by {
                            assert(entry_le(head, x));
                        }
                    }
                }
            }
        }
        wake
    }

    /// Adds `nr` to a queue that has room for it. Returns whether the timer driver
    /// must be woken: exactly when the new deadline is strictly before every pending one.
    pub fn enqueue_unchecked(&mut self, nr: NotReady) -> (wake: bool)
        requires
            old(self)@.len() < TIMER_QUEUE_CAPACITY,
        ensures
            final(self)@ == old(self)@.insert(entry_of(nr)),
            wake == before_all(entry_of(nr), old(self)@),
    {
        proof {
            use_type_invariant(&*self);
        }
        let e: (i64, i64, u8, u8) = (nr.instant.secs(), nr.instant.subsec_nanos(), nr.task, nr.index);
        let wake: bool = self.needs_wake(nr);
        proof {
            let m = heap_items(self.heap);
            assert(e == entry_of(nr));
            assert forall|x: (i64, i64, u8, u8)| #[trigger] m.insert(e).contains(x) implies valid_instant((x.0 as int, x.1 as int)) by {
                if x != e {
                    assert(m.contains(x));
                }
            }
        }
        let _ = heap_push(&mut self.heap, e);
        wake
    }

    /// Adds `nr` where the queue has room, and returns whether the timer driver
    /// must be woken; hands `nr` back, leaving the queue as it was, where it is full.
    pub fn enqueue(&mut self, nr: NotReady) -> (r: Result<bool, NotReady>)
        ensures
            r is Ok <==> old(self)@.len() < TIMER_QUEUE_CAPACITY,
            r is Ok ==> final(self)@ == old(self)@.insert(entry_of(nr)),
            r is Ok ==> r->Ok_0 == before_all(entry_of(nr), old(self)@),
            r is Err ==> final(self)@ == old(self)@ && r->Err_0 == nr,
    {
        if self.len() < TIMER_QUEUE_CAPACITY {
            Ok(self.enqueue_unchecked(nr))
        } else {
            Err(nr)
        }
    }

    /// Looks at the earliest entry. Where its deadline is not after `now`, takes it
    /// out and returns its task and index; otherwise leaves the queue as it is and
    /// returns that deadline, for which the timer is to be armed.
    pub fn dequeue(&mut self, now: Instant) -> (r: Dequeue)
        ensures
            old(self)@.len() == 0 ==> r == Dequeue::Empty && final(self)@ == old(self)@,
            old(self)@.len() > 0 ==> ({
                let e = min_entry(old(self)@);
                if instant_le((e.0 as int, e.1 as int), now@) {
                    r == (Dequeue::Ready { task: e.2, index: e.3 })
                        && final(self)@ == old(self)@.remove(e)
                } else {
                    r is Arm && r->Arm_0@ == (e.0 as int, e.1 as int) && final(self)@ == old(self)@
                }
            }),
    {
        proof {
            use_type_invariant(&*self);
        }
        match heap_peek(&self.heap) {
            None => Dequeue::Empty,
            Some(head) => {
                proof {
                    lemma_min_unique(head, heap_items(self.heap));
                    assert(heap_items(self.heap).contains(head));
                }
                match Instant::from_timespec(head.0, head.1) {
                    None => Dequeue::Empty,
                    Some(deadline) => {
                        if deadline.le(&now) {
                            proof {
                                lemma_remove_keeps_valid(heap_items(self.heap));
                            }
                            let popped = heap_pop(&mut self.heap);
                            proof {
                                lemma_min_unique(popped->0, old(self)@);
                                let m = heap_items(self.heap);
                                assert forall|x: (i64, i64, u8, u8)| #[trigger] m.contains(x) implies valid_instant((x.0 as int, x.1 as int)) by {
                                    assert(old(self)@.contains(x));
                                }
                            }
                            match popped {
                                Some(p) => Dequeue::Ready { task: p.2, index: p.3 },
                                None => Dequeue::Empty,
                            }
                        } else {
                            Dequeue::Arm(deadline)
                        }
                    },
                }
            },
        }
    }
}

proof fn lemma_min_exists(m: Multiset<(i64, i64, u8, u8)>)
    requires
        m.len() > 0,
    ensures
        is_min_entry(min_entry(m), m),
    decreases m.len(),
{
    let x = m.choose();
    let rest = m.remove(x);
    assert(m.contains(x));
    if rest.len() == 0 {
        assert forall|y: (i64, i64, u8, u8)| #[trigger] m.contains(y) implies entry_le(x, y) by {
            if y != x {
                assert(rest.contains(y));
            }
        }
        assert(is_min_entry(x, m));
    } else {
        lemma_min_exists(rest);
        let e = min_entry(rest);
        assert(m.contains(e));
        if entry_le(x, e) {
            assert forall|y: (i64, i64, u8, u8)| #[trigger] m.contains(y) implies entry_le(x, y) by {
                if y != x {
                    assert(rest.contains(y));
                }
            }
            assert(is_min_entry(x, m));
        } else {
            assert forall|y: (i64, i64, u8, u8)| #[trigger] m.contains(y) implies entry_le(e, y) by {
                if y != x {
                    assert(rest.contains(y));
                }
            }
            assert(is_min_entry(e, m));
        }
    }
}

/// The entry that a due `dequeue` takes out has the earliest deadline of all the
/// entries in the queue, whatever sequence of enqueues filled it.
pub proof fn lemma_dequeue_takes_earliest(m: Multiset<(i64, i64, u8, u8)>)
    requires
        m.len() > 0,
    ensures
        m.contains(min_entry(m)),
        forall|x: (i64, i64, u8, u8)| #[trigger] m.contains(x) ==> deadline_le(min_entry(m), x),
{
    lemma_min_exists(m);
}

/// An enqueue wakes the timer driver exactly when the new deadline is strictly
/// before the earliest pending one: never when it is at or after it.
pub proof fn lemma_wake_iff_before_earliest(m: Multiset<(i64, i64, u8, u8)>, e: (i64, i64, u8, u8))
    requires
        m.len() > 0,
    ensures
        before_all(e, m) <==> deadline_lt(e, min_entry(m)),
{
    lemma_min_exists(m);
    let h = min_entry(m);
    if deadline_lt(e, h) {
        assert forall|x: (i64, i64, u8, u8)| #[trigger] m.contains(x) implies deadline_lt(e, x) by {
            assert(entry_le(h, x));
        }
    }
}

} // verus!

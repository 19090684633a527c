use linux_rtfm::tq::TIMER_QUEUE_CAPACITY;
use linux_rtfm::{Dequeue, Duration, Instant, NotReady, TimerQueue};

fn at(sec: i64, nsec: i64) -> Instant {
    Instant::from_timespec(sec, nsec).unwrap()
}

fn entry(task: u8, index: u8, instant: Instant) -> NotReady {
    NotReady { index, instant, task }
}

#[test]
fn later_deadline_dequeued_after_earlier_one() {
    let t = at(10, 0);
    let t1000 = t.checked_add(Duration::from_millis(1000)).unwrap();
    let t500 = t.checked_add(Duration::from_millis(500)).unwrap();
    let mut q = TimerQueue::new();
    assert_eq!(q.enqueue(entry(1, 0, t1000)), Ok(true));
    assert_eq!(q.enqueue(entry(2, 0, t500)), Ok(true));
    assert!(q.dequeue(t) == Dequeue::Arm(t500));
    assert_eq!(q.len(), 2);
    assert!(q.dequeue(t500) == Dequeue::Ready { task: 2, index: 0 });
    assert_eq!(q.len(), 1);
    assert!(q.dequeue(t500) == Dequeue::Arm(t1000));
    let late = t1000.checked_add(Duration::from_millis(1)).unwrap();
    assert!(q.dequeue(late) == Dequeue::Ready { task: 1, index: 0 });
    assert!(q.dequeue(late) == Dequeue::Empty);
}

#[test]
fn empty_queue_dequeues_nothing() {
    let mut q = TimerQueue::new();
    assert!(q.dequeue(at(0, 0)) == Dequeue::Empty);
    assert_eq!(q.len(), 0);
}

#[test]
fn wake_only_for_strictly_earlier_deadline() {
    let mut q = TimerQueue::new();
    assert!(q.enqueue_unchecked(entry(1, 0, at(5, 0))));
    assert!(!q.enqueue_unchecked(entry(2, 0, at(6, 0))));
    assert!(!q.enqueue_unchecked(entry(3, 0, at(5, 0))));
    assert!(q.enqueue_unchecked(entry(4, 0, at(4, 999_999_999))));
    assert_eq!(q.len(), 4);
}

#[test]
fn dequeue_takes_minimum_deadline() {
    let mut q = TimerQueue::new();
    let deadlines = [(9, 0), (3, 5), (7, 1), (3, 4), (8, 8)];
    let mut task: u8 = 0;
    for (s, n) in deadlines {
        q.enqueue(entry(task, 0, at(s, n))).unwrap();
        task += 1;
    }
    let now = at(100, 0);
    assert!(q.dequeue(now) == Dequeue::Ready { task: 3, index: 0 });
    assert!(q.dequeue(now) == Dequeue::Ready { task: 1, index: 0 });
    assert!(q.dequeue(now) == Dequeue::Ready { task: 2, index: 0 });
    assert!(q.dequeue(now) == Dequeue::Ready { task: 4, index: 0 });
    assert!(q.dequeue(now) == Dequeue::Ready { task: 0, index: 0 });
}

#[test]
fn equal_deadlines_leave_by_task_then_index() {
    let mut q = TimerQueue::new();
    let d = at(2, 0);
    q.enqueue(entry(3, 1, d)).unwrap();
    q.enqueue(entry(1, 2, d)).unwrap();
    q.enqueue(entry(1, 0, d)).unwrap();
    assert!(q.dequeue(d) == Dequeue::Ready { task: 1, index: 0 });
    assert!(q.dequeue(d) == Dequeue::Ready { task: 1, index: 2 });
    assert!(q.dequeue(d) == Dequeue::Ready { task: 3, index: 1 });
}

#[test]
fn not_due_entry_stays() {
    let mut q = TimerQueue::new();
    q.enqueue(entry(1, 0, at(5, 10))).unwrap();
    assert!(q.dequeue(at(5, 9)) == Dequeue::Arm(at(5, 10)));
    assert_eq!(q.len(), 1);
    assert!(q.dequeue(at(5, 10)) == Dequeue::Ready { task: 1, index: 0 });
}

#[test]
fn full_queue_hands_entry_back() {
    let mut q = TimerQueue::new();
    for i in 0..TIMER_QUEUE_CAPACITY {
        q.enqueue(entry(i as u8, 0, at(1, i as i64))).unwrap();
    }
    assert_eq!(q.len(), TIMER_QUEUE_CAPACITY);
    let extra = entry(200, 1, at(0, 0));
    assert!(q.enqueue(extra) == Err(extra));
    assert_eq!(q.len(), TIMER_QUEUE_CAPACITY);
    assert!(q.dequeue(at(1, 0)) == Dequeue::Ready { task: 0, index: 0 });
}

#[test]
fn needs_wake_leaves_queue_unchanged() {
    let mut q = TimerQueue::new();
    assert!(q.needs_wake(entry(1, 0, at(5, 0))));
    q.enqueue(entry(1, 0, at(5, 0))).unwrap();
    assert!(!q.needs_wake(entry(2, 0, at(5, 0))));
    assert!(!q.needs_wake(entry(2, 0, at(5, 1))));
    assert!(q.needs_wake(entry(2, 0, at(4, 999_999_999))));
    assert_eq!(q.len(), 1);
}

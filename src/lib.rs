//! A priority-based real-time task runtime for Linux, built on real-time signals:
//! overflow-checked monotonic time, a deadline-ordered timer queue, the signal
//! numbers and masks of each priority level, and the immediate priority ceiling
//! protocol.
pub use time::{Duration, Instant};
pub use tq::{Dequeue, NotReady, TimerQueue};
pub mod time;
pub mod tq;
pub mod signal;
pub mod ceiling;
pub mod export;

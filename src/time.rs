//! Monotonic timestamps and durations with overflow-checked arithmetic.
use vstd::arithmetic::div_mod::{lemma_fundamental_div_mod, lemma_fundamental_div_mod_converse};
use vstd::prelude::*;

verus! {

/// Nanoseconds in one second.
pub const NANOS_PER_SEC: u64 = 1_000_000_000;

/// Total nanoseconds of a `(seconds, nanoseconds)` pair.
pub open spec fn total_nanos(v: (int, int)) -> int {
    v.0 * NANOS_PER_SEC + v.1
}

/// A `(seconds, nanoseconds)` pair that an `Instant` can hold.
pub open spec fn valid_instant(v: (int, int)) -> bool {
    0 <= v.0 <= i64::MAX && 0 <= v.1 < NANOS_PER_SEC
}

/// The normalized pair for a count of nanoseconds.
pub open spec fn split_nanos(t: int) -> (int, int) {
    (t / (NANOS_PER_SEC as int), t % (NANOS_PER_SEC as int))
}

/// `t` nanoseconds after the instant `a`, when the seconds still fit in an `i64`.
pub open spec fn instant_add(a: (int, int), t: int) -> Option<(int, int)> {
    let s = total_nanos(a) + t;
    if s < (i64::MAX + 1) * NANOS_PER_SEC {
        Some(split_nanos(s))
    } else {
        None
    }
}

/// The sum of two durations, when its seconds still fit in a `u64`.
pub open spec fn duration_add(a: int, b: int) -> Option<int> {
    if a + b < (u64::MAX + 1) * NANOS_PER_SEC {
        Some(a + b)
    } else {
        None
    }
}

/// Nanoseconds from `earlier` to `later`, when `earlier` is not after `later`.
pub open spec fn instant_since(later: (int, int), earlier: (int, int)) -> Option<int> {
    if total_nanos(earlier) <= total_nanos(later) {
        Some(total_nanos(later) - total_nanos(earlier))
    } else {
        None
    }
}

/// Lexicographic order on `(seconds, nanoseconds)`.
pub open spec fn instant_le(a: (int, int), b: (int, int)) -> bool {
    a.0 < b.0 || (a.0 == b.0 && a.1 <= b.1)
}

pub open spec fn instant_opt_view(o: Option<Instant>) -> Option<(int, int)> {
    match o {
        Some(i) => Some(i@),
        None => None,
    }
}

pub open spec fn duration_opt_view(o: Option<Duration>) -> Option<int> {
    match o {
        Some(d) => Some(d@),
        None => None,
    }
}

proof fn lemma_split(t: int, q: int, r: int)
    requires
        0 <= r < NANOS_PER_SEC,
        t == q * NANOS_PER_SEC + r,
    ensures
        split_nanos(t) == (q, r),
{
    lemma_fundamental_div_mod_converse(t, NANOS_PER_SEC as int, q, r);
}

/// A span of time, counted in whole seconds and nanoseconds below one second.
#[derive(Clone, Copy, Debug, PartialEq, Eq, Structural)]
pub struct Duration {
    secs: u64,
    nanos: u32,
}

impl View for Duration {
    type V = int;

    /// Total nanoseconds.
    closed spec fn view(&self) -> int {
        self.secs * NANOS_PER_SEC + self.nanos
    }
}

impl Duration {
    #[verifier::type_invariant]
    spec fn inv(self) -> bool {
        self.nanos < NANOS_PER_SEC
    }

    /// The duration of `secs * 10^9 + nanos` nanoseconds, or `None` where its
    /// seconds do not fit in a `u64`.
    pub fn new(secs: u64, nanos: u32) -> (r: Option<Duration>)
        ensures
            duration_opt_view(r) == duration_add(secs * NANOS_PER_SEC, nanos as int),
    {
        let carry: u64 = (nanos as u64) / NANOS_PER_SEC;
        let rest: u32 = ((nanos as u64) % NANOS_PER_SEC) as u32;
        proof {
            lemma_fundamental_div_mod_converse(nanos as int, NANOS_PER_SEC as int, carry as int, rest as int);
        }
        if secs > u64::MAX - carry {
            None
        } else {
            Some(Duration { secs: secs + carry, nanos: rest })
        }
    }

    pub fn zero() -> (r: Duration)
        ensures
            r@ == 0,
    {
        Duration { secs: 0, nanos: 0 }
    }

    pub fn from_secs(secs: u64) -> (r: Duration)
        ensures
            r@ == secs * NANOS_PER_SEC,
    {
        Duration { secs, nanos: 0 }
    }

    pub fn from_millis(millis: u64) -> (r: Duration)
        ensures
            r@ == millis * 1_000_000,
    {
        let secs: u64 = millis / 1000;
        let ms: u64 = millis % 1000;
        proof {
            lemma_fundamental_div_mod_converse(millis as int, 1000, secs as int, ms as int);
            assert(millis * 1_000_000 == secs * NANOS_PER_SEC + ms * 1_000_000) by (nonlinear_arith)
                requires millis == secs * 1000 + ms;
        }
        Duration { secs, nanos: (ms * 1_000_000) as u32 }
    }

    /// Whole seconds.
    pub fn as_secs(&self) -> (r: u64)
        ensures
            r == split_nanos(self@).0,
    {
        proof {
            use_type_invariant(self);
            lemma_split(self@, self.secs as int, self.nanos as int);
        }
        self.secs
    }

    /// Nanoseconds past the whole seconds, always below one second.
    pub fn subsec_nanos(&self) -> (r: u32)
        ensures
            r == split_nanos(self@).1,
            r < NANOS_PER_SEC,
    {
        proof {
            use_type_invariant(self);
            lemma_split(self@, self.secs as int, self.nanos as int);
        }
        self.nanos
    }

    /// The sum of two durations, or `None` where it does not fit.
    pub fn checked_add(&self, other: Duration) -> (r: Option<Duration>)
        ensures
            duration_opt_view(r) == duration_add(self@, other@),
    {
        proof {
            use_type_invariant(self);
            use_type_invariant(&other);
        }
        let mut nanos: u32 = self.nanos + other.nanos;
        let mut carry: u64 = 0;
        if nanos >= 1_000_000_000u32 {
            nanos = nanos - 1_000_000_000u32;
            carry = 1;
        }
        if self.secs > u64::MAX - other.secs || self.secs + other.secs > u64::MAX - carry {
            proof {
                assert(self@ + other@ >= (self.secs + other.secs + carry) * NANOS_PER_SEC) by (nonlinear_arith)
                    requires
                        self@ == self.secs * NANOS_PER_SEC + self.nanos,
                        other@ == other.secs * NANOS_PER_SEC + other.nanos,
                        carry == 1 ==> self.nanos + other.nanos >= NANOS_PER_SEC,
                        0 <= carry <= 1,
                        self.nanos >= 0, other.nanos >= 0;
                assert((self.secs + other.secs + carry) * NANOS_PER_SEC >= (u64::MAX + 1) * NANOS_PER_SEC) by (nonlinear_arith)
                    requires self.secs + other.secs + carry >= u64::MAX + 1;
            }
            None
        } else {
            let r = Duration { secs: self.secs + other.secs + carry, nanos };
            proof {
                assert(r@ == self@ + other@) by (nonlinear_arith)
                    requires
                        r@ == r.secs * NANOS_PER_SEC + r.nanos,
                        self@ == self.secs * NANOS_PER_SEC + self.nanos,
                        other@ == other.secs * NANOS_PER_SEC + other.nanos,
                        r.secs == self.secs + other.secs + carry,
                        r.nanos + carry * NANOS_PER_SEC == self.nanos + other.nanos;
                assert(r@ < (u64::MAX + 1) * NANOS_PER_SEC) by (nonlinear_arith)
                    requires
                        r@ == r.secs * NANOS_PER_SEC + r.nanos,
                        r.secs <= u64::MAX,
                        r.nanos < NANOS_PER_SEC;
            }
            Some(r)
        }
    }
}


/// A reading of a monotonic clock: seconds and nanoseconds below one second.
#[derive(Clone, Copy, Debug, PartialEq, Eq, Structural, Ord)]
pub struct Instant {
    sec: i64,
    nsec: i64,
}

impl View for Instant {
    type V = (int, int);

    closed spec fn view(&self) -> (int, int) {
        (self.sec as int, self.nsec as int)
    }
}

impl Instant {
    #[verifier::type_invariant]
    spec fn inv(self) -> bool {
        valid_instant((self.sec as int, self.nsec as int))
    }

    /// The instant of a clock reading, or `None` where the reading is negative
    /// or its nanoseconds reach one second.
    pub fn from_timespec(tv_sec: i64, tv_nsec: i64) -> (r: Option<Instant>)
        ensures
            r is Some <==> valid_instant((tv_sec as int, tv_nsec as int)),
            r is Some ==> r->0@ == (tv_sec as int, tv_nsec as int),
    {
        if tv_sec >= 0 && tv_nsec >= 0 && tv_nsec < 1_000_000_000i64 {
            Some(Instant { sec: tv_sec, nsec: tv_nsec })
        } else {
            None
        }
    }

    pub fn secs(&self) -> (r: i64)
        ensures
            r == self@.0,
            r >= 0,
    {
        proof { use_type_invariant(self); }
        self.sec
    }

    pub fn subsec_nanos(&self) -> (r: i64)
        ensures
            r == self@.1,
            0 <= r < NANOS_PER_SEC,
    {
        proof { use_type_invariant(self); }
        self.nsec
    }

    /// Whether `self` is not after `other`: seconds first, nanoseconds to break a tie.
    pub fn le(&self, other: &Instant) -> (r: bool)
        ensures
            r == instant_le(self@, other@),
            r == (total_nanos(self@) <= total_nanos(other@)),
    {
        proof {
            use_type_invariant(self);
            use_type_invariant(other);
            lemma_le_total(self@, other@);
        }
        self.sec < other.sec || (self.sec == other.sec && self.nsec <= other.nsec)
    }

    /// `self + dur`, or `None` where the seconds would not fit.
    pub fn checked_add(&self, dur: Duration) -> (r: Option<Instant>)
        ensures
            instant_opt_view(r) == instant_add(self@, dur@),
    {
        proof { use_type_invariant(self); }
        let dsecs: u64 = dur.as_secs();
        let dnanos: u32 = dur.subsec_nanos();
        let ghost t: int = total_nanos(self@) + dur@;
        proof {
            lemma_fundamental_div_mod(dur@, NANOS_PER_SEC as int);
            assert(t == (self.sec + dsecs) * NANOS_PER_SEC + self.nsec + dnanos) by (nonlinear_arith)
                requires
                    t == self.sec * NANOS_PER_SEC + self.nsec + dur@,
                    dur@ == dsecs * NANOS_PER_SEC + dnanos;
        }
        if dsecs > i64::MAX as u64 || self.sec > i64::MAX - (dsecs as i64) {
            proof {
                assert(t >= (i64::MAX + 1) * NANOS_PER_SEC) by (nonlinear_arith)
                    requires
                        t == (self.sec + dsecs) * NANOS_PER_SEC + self.nsec + dnanos,
                        self.sec + dsecs >= i64::MAX + 1,
                        self.nsec >= 0;
            }
            return None;
        }
        let mut secs: i64 = self.sec + dsecs as i64;
        let mut nanos: i64 = self.nsec + dnanos as i64;
        if nanos >= 1_000_000_000i64 {
            nanos = nanos - 1_000_000_000i64;
            if secs == i64::MAX {
                proof {
                    assert(t >= (i64::MAX + 1) * NANOS_PER_SEC) by (nonlinear_arith)
                        requires
                            t == secs * NANOS_PER_SEC + nanos + NANOS_PER_SEC,
                            secs == i64::MAX,
                            nanos >= 0;
                }
                return None;
            }
            secs = secs + 1;
        }
        proof {
            assert(t == secs * NANOS_PER_SEC + nanos) by (nonlinear_arith)
                requires
                    t == (self.sec + dsecs) * NANOS_PER_SEC + self.nsec + dnanos,
                    secs * NANOS_PER_SEC + nanos == (self.sec + dsecs) * NANOS_PER_SEC + self.nsec + dnanos;
            assert(t < (i64::MAX + 1) * NANOS_PER_SEC) by (nonlinear_arith)
                requires
                    t == secs * NANOS_PER_SEC + nanos,
                    secs <= i64::MAX,
                    nanos < NANOS_PER_SEC;
            lemma_split(t, secs as int, nanos as int);
        }
        Some(Instant { sec: secs, nsec: nanos })
    }

    /// The time from `earlier` to `self`, or `None` where `earlier` is after `self`.
    pub fn checked_duration_since(&self, earlier: Instant) -> (r: Option<Duration>)
        ensures
            duration_opt_view(r) == instant_since(self@, earlier@),
            r is None <==> !instant_le(earlier@, self@),
    {
        proof {
            use_type_invariant(self);
            use_type_invariant(&earlier);
            lemma_le_total(earlier@, self@);
        }
        if !earlier.le(self) {
            None
        } else {
            let (sec, nsec): (i64, i64) = if self.nsec >= earlier.nsec {
                (self.sec - earlier.sec, self.nsec - earlier.nsec)
            } else {
                (self.sec - 1 - earlier.sec, self.nsec + 1_000_000_000i64 - earlier.nsec)
            };
            let r = Duration { secs: sec as u64, nanos: nsec as u32 };
            proof {
                assert(r@ == total_nanos(self@) - total_nanos(earlier@)) by (nonlinear_arith)
                    requires
                        r@ == sec * NANOS_PER_SEC + nsec,
                        sec * NANOS_PER_SEC + nsec == (self.sec - earlier.sec) * NANOS_PER_SEC + self.nsec - earlier.nsec;
            }
            Some(r)
        }
    }

    /// The time from `earlier` to `self`, or zero where `earlier` is after `self`.
    pub fn saturating_duration_since(&self, earlier: Instant) -> (r: Duration)
        ensures
            r@ == (if instant_le(earlier@, self@) { total_nanos(self@) - total_nanos(earlier@) } else { 0 }),
    {
        match self.checked_duration_since(earlier) {
            Some(d) => d,
            None => Duration::zero(),
        }
    }
}

/// On valid pairs the lexicographic order is the order of total nanoseconds.
pub proof fn lemma_le_total(a: (int, int), b: (int, int))
    requires
        valid_instant(a),
        valid_instant(b),
    ensures
        instant_le(a, b) == (total_nanos(a) <= total_nanos(b)),
{
    if a.0 < b.0 {
        assert(total_nanos(a) < total_nanos(b)) by (nonlinear_arith)
            requires a.0 + 1 <= b.0, 0 <= a.1 < NANOS_PER_SEC, 0 <= b.1;
    } else if a.0 > b.0 {
        assert(total_nanos(a) > total_nanos(b)) by (nonlinear_arith)
            requires b.0 + 1 <= a.0, 0 <= b.1 < NANOS_PER_SEC, 0 <= a.1;
    }
}

/// Orders instants by seconds, then by nanoseconds.
pub open spec fn instant_cmp(a: (int, int), b: (int, int)) -> core::cmp::Ordering {
    if a.0 < b.0 {
        core::cmp::Ordering::Less
    } else if a.0 > b.0 {
        core::cmp::Ordering::Greater
    } else if a.1 < b.1 {
        core::cmp::Ordering::Less
    } else if a.1 > b.1 {
        core::cmp::Ordering::Greater
    } else {
        core::cmp::Ordering::Equal
    }
}

impl PartialOrd for Instant {
    fn partial_cmp(&self, other: &Instant) -> (r: Option<core::cmp::Ordering>) {
        if self.sec < other.sec {
            Some(core::cmp::Ordering::Less)
        } else if self.sec > other.sec {
            Some(core::cmp::Ordering::Greater)
        } else if self.nsec < other.nsec {
            Some(core::cmp::Ordering::Less)
        } else if self.nsec > other.nsec {
            Some(core::cmp::Ordering::Greater)
        } else {
            Some(core::cmp::Ordering::Equal)
        }
    }
}

impl vstd::std_specs::cmp::PartialOrdSpecImpl for Instant {
    open spec fn obeys_partial_cmp_spec() -> bool {
        true
    }

    open spec fn partial_cmp_spec(&self, other: &Instant) -> Option<core::cmp::Ordering> {
        Some(instant_cmp(self@, other@))
    }
}

/// Adding two durations one after the other gives the instant that adding their
/// sum gives, whenever both steps succeed; the sum of the durations then fits too.
pub proof fn lemma_add_associative(a: (int, int), d1: int, d2: int)
    requires
        valid_instant(a),
        0 <= d1,
        0 <= d2,
        instant_add(a, d1) is Some,
        instant_add(instant_add(a, d1)->0, d2) is Some,
    ensures
        duration_add(d1, d2) == Some(d1 + d2),
        instant_add(a, d1 + d2) == instant_add(instant_add(a, d1)->0, d2),
{
    let t = total_nanos(a) + d1;
    lemma_fundamental_div_mod(t, NANOS_PER_SEC as int);
    let b = instant_add(a, d1)->0;
    assert(total_nanos(b) == t);
    assert(total_nanos(a) >= 0) by (nonlinear_arith)
        requires valid_instant(a);
}

/// From an instant to one not before it the elapsed time is defined: it is the
/// difference of the two, and its nanoseconds part is below one second.
pub proof fn lemma_since_ordered(a: (int, int), b: (int, int))
    requires
        valid_instant(a),
        valid_instant(b),
        instant_le(a, b),
    ensures
        instant_since(b, a) == Some(total_nanos(b) - total_nanos(a)),
        0 <= split_nanos(total_nanos(b) - total_nanos(a)).1 < NANOS_PER_SEC,
{
    lemma_le_total(a, b);
}

/// From an instant to an earlier one the elapsed time is undefined.
pub proof fn lemma_since_reversed(a: (int, int), b: (int, int))
    requires
        valid_instant(a),
        valid_instant(b),
        !instant_le(a, b),
    ensures
        instant_since(b, a) is None,
{
    lemma_le_total(a, b);
}

} // verus!

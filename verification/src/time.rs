//! Durations and points in time, in nanoseconds.
//!
//! Clocks are read outside the library; what comes in are values on one
//! monotonic time line.
use vstd::prelude::*;

verus! {

/// The longest duration: `u64::MAX` whole seconds and all nanoseconds that fit
/// behind them.
pub const MAX_NANOS: u128 = 18_446_744_073_709_551_615_999_999_999;

/// A span of time.
#[derive(Debug, Clone, Copy, PartialEq, Eq, Structural)]
pub struct Duration {
    nanos: u128,
}

impl Duration {
    #[verifier::type_invariant]
    pub closed spec fn in_range(self) -> bool {
        self.nanos <= MAX_NANOS
    }

    /// The length in nanoseconds.
    pub closed spec fn view(self) -> nat {
        self.nanos as nat
    }

    /// The number of whole seconds.
    pub open spec fn secs(self) -> nat {
        self@ / 1_000_000_000
    }

    /// The duration of `nanos` nanoseconds.
    pub closed spec fn lasting(nanos: nat) -> Self {
        Duration { nanos: nanos as u128 }
    }

    /// A duration is what its length says.
    pub broadcast proof fn lemma_lasting(d: Duration)
        ensures
            #[trigger] Duration::lasting(d@) == d,
    {
    }

    pub fn from_secs(secs: u64) -> (r: Self)
        ensures
            r@ == secs * 1_000_000_000,
    {
        Duration { nanos: secs as u128 * 1_000_000_000 }
    }

    pub fn from_millis(millis: u64) -> (r: Self)
        ensures
            r@ == millis * 1_000_000,
    {
        Duration { nanos: millis as u128 * 1_000_000 }
    }

    pub fn as_secs(&self) -> (r: u64)
        ensures
            r == self.secs(),
    {
        proof {
            use_type_invariant(self);
        }
        (self.nanos / 1_000_000_000) as u64
    }

    pub fn as_millis(&self) -> (r: u128)
        ensures
            r == self@ / 1_000_000,
    {
        self.nanos / 1_000_000
    }

    pub fn as_nanos(&self) -> (r: u128)
        ensures
            r == self@,
            r <= MAX_NANOS,
    {
        proof {
            use_type_invariant(self);
        }
        self.nanos
    }

    /// The difference, or nothing left where `other` is longer.
    pub fn saturating_sub(self, other: Self) -> (r: Self)
        ensures
            r@ == (if self@ >= other@ { self@ - other@ } else { 0 }),
    {
        proof {
            use_type_invariant(&self);
        }
        if self.nanos >= other.nanos {
            Duration { nanos: self.nanos - other.nanos }
        } else {
            Duration { nanos: 0 }
        }
    }

    /// Whether this span is shorter than `other`.
    pub fn is_shorter_than(&self, other: &Self) -> (r: bool)
        ensures
            r == (self@ < other@),
    {
        self.nanos < other.nanos
    }
}

impl Default for Duration {
    fn default() -> (r: Self)
        ensures
            r@ == 0,
    {
        Duration { nanos: 0 }
    }
}

/// A point on the monotonic time line.
#[derive(Debug, Clone, Copy, PartialEq, Eq, Structural)]
pub struct Instant {
    nanos: u128,
}

impl Instant {
    /// Nanoseconds since the origin of the time line.
    pub closed spec fn view(self) -> nat {
        self.nanos as nat
    }

    /// Time that passed from `earlier` to `self`: nothing where `earlier` lies
    /// ahead, and never more than the longest duration.
    pub open spec fn since(self, earlier: Self) -> nat {
        if self@ < earlier@ {
            0
        } else if self@ - earlier@ > MAX_NANOS {
            MAX_NANOS as nat
        } else {
            (self@ - earlier@) as nat
        }
    }

    /// The point that lies `nanos` nanoseconds after the origin.
    pub fn at_nanos(nanos: u128) -> (r: Self)
        ensures
            r@ == nanos,
    {
        Instant { nanos }
    }

    /// Whether this point lies before `other`.
    pub fn is_before(&self, other: &Instant) -> (r: bool)
        ensures
            r == (self@ < other@),
    {
        self.nanos < other.nanos
    }

    /// The point `d` after this one, if the time line reaches that far.
    pub fn checked_add(self, d: Duration) -> (r: Option<Self>)
        ensures
            self@ + d@ <= u128::MAX ==> r is Some && r->0@ == self@ + d@,
            self@ + d@ > u128::MAX ==> r is None,
    {
        match self.nanos.checked_add(d.as_nanos()) {
            Some(nanos) => Some(Instant { nanos }),
            None => None,
        }
    }

    pub fn duration_since(&self, earlier: Instant) -> (r: Duration)
        ensures
            r@ == self.since(earlier),
    {
        if self.nanos < earlier.nanos {
            Duration { nanos: 0 }
        } else if self.nanos - earlier.nanos > MAX_NANOS {
            Duration { nanos: MAX_NANOS }
        } else {
            Duration { nanos: self.nanos - earlier.nanos }
        }
    }
}

/// Seconds are read back as they were given.
pub proof fn law_seconds_are_read_back(secs: u64, d: Duration, r: u64)
    requires
        call_ensures(Duration::from_secs, (secs,), d),
        call_ensures(Duration::as_secs, (&d,), r),
    ensures
        r == secs,
{
}

/// The time between two points is what has to be added to the first to come to the
/// second; a point that lies ahead is no time away.
pub proof fn law_time_between_leads_on(earlier: Instant, later: Instant, d: Duration, r: Option<Instant>)
    requires
        call_ensures(Instant::duration_since, (&later, earlier), d),
        call_ensures(Instant::checked_add, (earlier, d), r),
        earlier@ <= later@,
        later@ - earlier@ <= MAX_NANOS,
        later@ <= u128::MAX,
    ensures
        r is Some,
        r->0@ == later@,
{
}

/// Time does not run backwards: the later it is, the longer ago a point lies.
pub proof fn law_time_goes_on(start: Instant, a: Instant, b: Instant)
    requires
        a@ <= b@,
    ensures
        a.since(start) <= b.since(start),
        start.since(start) == 0,
        start@ >= b@ ==> b.since(start) == 0,
{
}

} // verus!

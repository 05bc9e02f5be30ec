//! Spans of time.
use vstd::prelude::*;

verus! {

/// Nanoseconds in a second.
pub const SECOND: u64 = 1_000_000_000;

/// A span of time, in whole seconds and the nanoseconds left over.
#[derive(Clone, Copy, Debug, PartialEq, Eq, Structural)]
pub struct TimeSpan {
    /// Whole seconds.
    pub secs: u64,
    /// Nanoseconds, less than a second of them.
    pub nanos: u32,
}

impl TimeSpan {
    /// The nanoseconds are less than a second.
    pub open spec fn wf(self) -> bool {
        self.nanos < SECOND
    }

    /// The length in nanoseconds.
    pub open spec fn length(self) -> int {
        self.secs * SECOND + self.nanos
    }

    /// The span of a length, with whole seconds that wrap around.
    pub open spec fn of_length(length: int) -> Self {
        TimeSpan {
            secs: ((length / (SECOND as int)) % 0x1_0000_0000_0000_0000) as u64,
            nanos: (length % (SECOND as int)) as u32,
        }
    }

    pub open spec fn spec_zero() -> Self {
        TimeSpan { secs: 0, nanos: 0 }
    }

    /// No time.
    #[verifier::when_used_as_spec(spec_zero)]
    pub fn zero() -> (r: Self)
        ensures
            r == Self::zero(),
    {
        TimeSpan { secs: 0, nanos: 0 }
    }

    /// The length of both spans together can be held.
    pub open spec fn fits(self, other: TimeSpan) -> bool {
        self.length() + other.length() < 0x1_0000_0000_0000_0000 * SECOND
    }

    #[verifier::opaque]
    pub open spec fn spec_plus(self, other: TimeSpan) -> Self {
        Self::of_length(self.length() + other.length())
    }

    /// Two spans together.
    #[verifier::when_used_as_spec(spec_plus)]
    pub fn plus(self, other: TimeSpan) -> (r: Self)
        ensures
            r == self.plus(other),
    {
        reveal(TimeSpan::spec_plus);
        let nanos: u64 = self.nanos as u64 + other.nanos as u64;
        let secs: u64 = self.secs.wrapping_add(other.secs).wrapping_add(nanos / SECOND);
        let left: u32 = (nanos % SECOND) as u32;
        proof {
            let total = self.length() + other.length();
            let whole = self.secs + other.secs;
            assert(total == whole * SECOND + nanos);
            assert(total / (SECOND as int) == whole + (nanos / SECOND) as int);
            assert(total % (SECOND as int) == (nanos % SECOND) as int);
        }
        TimeSpan { secs, nanos: left }
    }

    pub open spec fn spec_less(self, other: TimeSpan) -> Self {
        if self.length() > other.length() {
            Self::of_length(self.length() - other.length())
        } else {
            Self::zero()
        }
    }

    /// What is left of a span when another one is taken off; no time if the other
    /// one is as long.
    #[verifier::when_used_as_spec(spec_less)]
    pub fn less(self, other: TimeSpan) -> (r: Self)
        requires
            self.wf(),
            other.wf(),
        ensures
            r == self.less(other),
    {
        if self.secs < other.secs || (self.secs == other.secs && self.nanos <= other.nanos) {
            assert(self.length() <= other.length());
            return Self::zero();
        }
        let r = if self.nanos >= other.nanos {
            TimeSpan { secs: self.secs - other.secs, nanos: self.nanos - other.nanos }
        } else {
            TimeSpan {
                secs: self.secs - other.secs - 1,
                nanos: (self.nanos as u64 + SECOND - other.nanos as u64) as u32,
            }
        };
        proof {
            let rest = self.length() - other.length();
            assert(rest == r.secs * SECOND + r.nanos);
            assert(rest > 0);
            assert(rest / (SECOND as int) == r.secs as int);
            assert(rest % (SECOND as int) == r.nanos as int);
        }
        r
    }
}

/// Spans that fit together have the length of both, in either order.
pub proof fn lemma_plus_adds(a: TimeSpan, b: TimeSpan)
    ensures
        a.plus(b).wf(),
        a.plus(b) == b.plus(a),
        a.fits(b) ==> a.plus(b).length() == a.length() + b.length(),
{
    reveal(TimeSpan::spec_plus);
    let total = a.length() + b.length();
    assert(total == (total / (SECOND as int)) * SECOND + total % (SECOND as int));
}

/// Spans can be put together in any grouping.
pub proof fn lemma_plus_associates(a: TimeSpan, b: TimeSpan, c: TimeSpan)
    ensures
        a.plus(b).plus(c) == a.plus(b.plus(c)),
{
    reveal(TimeSpan::spec_plus);
    lemma_of_length(a.length() + b.length(), c.length());
    lemma_of_length(b.length() + c.length(), a.length());
}

/// No time changes no span.
pub proof fn lemma_plus_zero(a: TimeSpan)
    requires
        a.wf(),
    ensures
        a.plus(TimeSpan::zero()) == a,
{
    reveal(TimeSpan::spec_plus);
}

proof fn lemma_of_length(n: int, m: int)
    requires
        0 <= n,
        0 <= m,
    ensures
        TimeSpan::of_length(TimeSpan::of_length(n).length() + m) == TimeSpan::of_length(n + m),
{
    let s = SECOND as int;
    let q = n / s;
    let whole = 0x1_0000_0000_0000_0000int;
    let kept = TimeSpan::of_length(n).length();
    assert(n == q * s + n % s);
    assert(q == (q / whole) * whole + q % whole);
    let turns = q / whole;
    assert(kept == n - turns * whole * s);
    let k = (kept + m) / s;
    assert((n + m) / s == k + turns * whole);
    assert((n + m) % s == (kept + m) % s);
    assert((k + turns * whole) % whole == k % whole);
}

} // verus!

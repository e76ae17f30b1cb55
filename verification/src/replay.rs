//! A fixed sample trace that stands in for the ADC on the bench.
//!
//! The point is to run the real control loop against a known input. The trace is
//! one traverse: inrush, cruise, then into a stopper. It restarts on each
//! reversal, the way the real current does when the carriage backs off the
//! stopper.

use vstd::prelude::*;

verus! {

/// 10ms per entry, so 400 entries is four seconds -- a deliberately short
/// traverse, to get several reversals a minute out of a bench run.
pub const LEN: usize = 400;

/// The trace: 900 counts decaying over the first 100ms, a cruise at 250 counts
/// that sags by one count every 200ms, and 900 counts from the stopper on.
pub open spec fn trace_at(i: int) -> int {
    if i < 10 {
        900 - 65 * i
    } else if i < 300 {
        250 - (i - 10) / 20
    } else {
        900
    }
}

/// Sample number `n` of a traverse; the last one holds.
pub open spec fn replayed(n: int) -> int {
    trace_at(if n < LEN { n } else { LEN - 1 })
}

/// The whole trace.
fn build() -> (t: [u16; LEN])
    ensures
        forall|i: int| 0 <= i < LEN ==> #[trigger] t@[i] == trace_at(i),
{
    let mut t: [u16; LEN] = [0u16; LEN];
    let mut i: usize = 0;
    while i < LEN
        invariant
            i <= LEN,
            forall|k: int| 0 <= k < i ==> #[trigger] t@[k] == trace_at(k),
        decreases LEN - i,
    {
        t[i] = if i < 10 {
            // Inrush. Should be swallowed whole by the blanking window.
            900 - 65 * i as u16
        } else if i < 300 {
            // Cruise, with a slow sag so the baseline has something to track.
            250 - (i as u16 - 10) / 20
        } else {
            // Into the stopper.
            900
        };
        i = i + 1;
    }
    t
}

/// A position in the trace.
pub struct Replay {
    trace: [u16; LEN],
    idx: usize,
}

impl Replay {
    /// How many samples have been drawn since the start of the traverse.
    pub closed spec fn drawn(self) -> int {
        self.idx as int
    }

    #[verifier::type_invariant]
    spec fn holds_the_trace(self) -> bool {
        forall|i: int| 0 <= i < LEN ==> #[trigger] self.trace@[i] == trace_at(i)
    }

    /// A replay at the start of a traverse.
    pub fn new() -> (r: Self)
        ensures
            r.drawn() == 0,
    {
        Replay { trace: build(), idx: 0 }
    }

    /// Next sample. Holds the last value if the trace runs out, which only
    /// happens if a reversal never fires -- in which case the timeout will.
    pub fn next(&mut self) -> (r: u16)
        ensures
            r == replayed(old(self).drawn()),
            final(self).drawn() == if old(self).drawn() < usize::MAX {
                old(self).drawn() + 1
            } else {
                old(self).drawn()
            },
    {
        proof {
            use_type_invariant(&*self);
        }
        let at: usize = if self.idx < LEN { self.idx } else { LEN - 1 };
        let v: u16 = self.trace[at];
        self.idx = self.idx.saturating_add(1);
        v
    }

    /// Starts the traverse over.
    pub fn restart(&mut self)
        ensures
            final(self).drawn() == 0,
    {
        proof {
            use_type_invariant(&*self);
        }
        self.idx = 0;
    }
}

/// The trace once run out holds its last sample, at the stopper.
pub proof fn law_the_trace_ends_at_the_stopper(n: int)
    requires
        n >= 300,
    ensures
        replayed(n) == 900,
{
}

/// One traverse, sample by sample: an inrush of 900 counts that falls by 65 a
/// sample, a cruise from 250 counts down by one count every twenty samples, and
/// the stopper at 900 counts for good.
pub proof fn law_the_trace_is_one_traverse(n: int)
    requires
        0 <= n,
    ensures
        n < 10 ==> replayed(n) + 65 * n == 900,
        10 <= n < 300 ==> 20 * (250 - replayed(n)) <= n - 10 < 20 * (251 - replayed(n)),
        300 <= n ==> replayed(n) == 900,
{
}

} // verus!

//! The sense reading: many conversions averaged into one, or a replayed sample.

use vstd::arithmetic::div_mod::lemma_fundamental_div_mod;
use vstd::prelude::*;

use crate::replay::{replayed, Replay};

verus! {

/// ADC conversions averaged per tick, on top of the hardware RC filter.
pub const OVERSAMPLE: usize = 16;

/// The sum of the conversions that succeeded.
pub open spec fn sum_taken(readings: Seq<Option<u16>>) -> int
    decreases readings.len(),
{
    if readings.len() == 0 {
        0
    } else {
        sum_taken(readings.drop_last()) + match readings.last() {
            Some(counts) => counts as int,
            None => 0,
        }
    }
}

/// How many conversions succeeded.
pub open spec fn number_taken(readings: Seq<Option<u16>>) -> int
    decreases readings.len(),
{
    if readings.len() == 0 {
        0
    } else {
        number_taken(readings.drop_last()) + match readings.last() {
            Some(_) => 1int,
            None => 0int,
        }
    }
}

/// The mean of the conversions that succeeded, rounded down; zero if none did.
pub open spec fn mean_taken(readings: Seq<Option<u16>>) -> int {
    if number_taken(readings) == 0 {
        0
    } else {
        sum_taken(readings) / number_taken(readings)
    }
}

/// One averaged reading. A failed conversion is left out; if every conversion of
/// a tick fails the reading is 0, which reads as "no current" and is handled by
/// the floor under the baseline.
pub fn averaged(readings: &[Option<u16>; OVERSAMPLE]) -> (r: u16)
    ensures
        r == mean_taken(readings@),
{
    let mut sum: u32 = 0;
    let mut taken: u32 = 0;
    let mut i: usize = 0;
    while i < OVERSAMPLE
        invariant
            i <= OVERSAMPLE,
            readings@.len() == OVERSAMPLE,
            sum == sum_taken(readings@.take(i as int)),
            taken == number_taken(readings@.take(i as int)),
            taken <= i,
            sum <= i * 0xffff,
        decreases OVERSAMPLE - i,
    {
        assert(readings@.take(i + 1).drop_last() =~= readings@.take(i as int));
        if let Some(counts) = readings[i] {
            sum = sum + counts as u32;
            taken = taken + 1;
        }
        i = i + 1;
    }
    assert(readings@.take(OVERSAMPLE as int) =~= readings@);
    proof {
        lemma_mean_bounds(readings@, 0, 0xffff);
    }
    if taken == 0 {
        0
    } else {
        (sum / taken) as u16
    }
}

proof fn lemma_mean_bounds(readings: Seq<Option<u16>>, lowest: int, highest: int)
    requires
        forall|i: int|
            0 <= i < readings.len() ==> (#[trigger] readings[i] matches Some(counts) ==> lowest
                <= counts <= highest),
    ensures
        number_taken(readings) >= 0,
        number_taken(readings) * lowest <= sum_taken(readings) <= number_taken(readings) * highest,
        number_taken(readings) > 0 ==> lowest <= mean_taken(readings) <= highest,
    decreases readings.len(),
{
    if readings.len() > 0 {
        let shorter = readings.drop_last();
        assert forall|i: int| 0 <= i < shorter.len() implies (#[trigger] shorter[i] matches Some(
            counts,
        ) ==> lowest <= counts <= highest) by {
            assert(shorter[i] == readings[i]);
        }
        lemma_mean_bounds(shorter, lowest, highest);
        assert(readings[readings.len() - 1] == readings.last());
        let n = number_taken(shorter);
        assert((n + 1) * lowest == n * lowest + lowest && (n + 1) * highest == n * highest
            + highest) by (nonlinear_arith);
    }
    let n = number_taken(readings);
    let sum = sum_taken(readings);
    if n > 0 {
        assert(lowest <= sum / n <= highest) by (nonlinear_arith)
            requires
                n > 0,
                n * lowest <= sum <= n * highest,
        ;
    }
}

/// The averaged reading lies among the conversions it was made of, as long as one
/// of them succeeded.
pub proof fn law_the_average_lies_among_the_readings(
    readings: Seq<Option<u16>>,
    lowest: int,
    highest: int,
)
    requires
        forall|i: int|
            0 <= i < readings.len() ==> (#[trigger] readings[i] matches Some(counts) ==> lowest
                <= counts <= highest),
        exists|i: int| 0 <= i < readings.len() && #[trigger] readings[i] is Some,
    ensures
        lowest <= mean_taken(readings) <= highest,
{
    lemma_mean_bounds(readings, lowest, highest);
    lemma_some_taken(readings);
}

proof fn lemma_some_taken(readings: Seq<Option<u16>>)
    ensures
        number_taken(readings) >= 0,
        number_taken(readings) == 0 <==> forall|i: int|
            0 <= i < readings.len() ==> #[trigger] readings[i] is None,
    decreases readings.len(),
{
    if readings.len() > 0 {
        let shorter = readings.drop_last();
        lemma_some_taken(shorter);
        let last = readings.len() - 1;
        assert(readings[last] == readings.last());
        if number_taken(readings) == 0 {
            assert forall|i: int| 0 <= i < readings.len() implies #[trigger] readings[i] is None by {
                if i < last {
                    assert(shorter[i] == readings[i]);
                }
            }
        } else if readings.last() is None {
            let i = choose|i: int| 0 <= i < shorter.len() && #[trigger] shorter[i] is Some;
            assert(readings[i] is Some);
        }
    }
}

/// A tick in which every conversion fails reads as no current.
pub proof fn law_no_conversion_reads_as_no_current(readings: Seq<Option<u16>>)
    requires
        forall|i: int| 0 <= i < readings.len() ==> #[trigger] readings[i] is None,
    ensures
        mean_taken(readings) == 0,
{
    lemma_some_taken(readings);
}

/// The sense resistor as seen by the ADC, or a replayed trace in its place.
pub enum SenseInput {
    /// Readings come from the ADC.
    Live,
    /// Readings come from a trace.
    Replayed(Replay),
}

/// Where a sense input stands: how many samples of its trace have been drawn, if
/// it has one.
pub struct Position {
    pub drawn: Option<int>,
}

impl Position {
    /// The reading that comes next.
    pub open spec fn reading(self, conversions: Seq<Option<u16>>) -> int {
        match self.drawn {
            Some(n) => replayed(n),
            None => mean_taken(conversions),
        }
    }

    /// The position once a reading has been taken.
    pub open spec fn advanced(self) -> Position {
        Position {
            drawn: match self.drawn {
                Some(n) => Some(if n < usize::MAX { n + 1 } else { n }),
                None => None,
            },
        }
    }

    /// The position once `n` readings have been taken.
    pub open spec fn advanced_by(self, n: nat) -> Position
        decreases n,
    {
        if n == 0 {
            self
        } else {
            self.advanced_by((n - 1) as nat).advanced()
        }
    }

    /// The position once the input has been restarted.
    pub open spec fn restarted(self) -> Position {
        Position {
            drawn: match self.drawn {
                Some(_) => Some(0),
                None => None,
            },
        }
    }
}

impl View for SenseInput {
    type V = Position;

    open spec fn view(&self) -> Position {
        Position {
            drawn: match self {
                SenseInput::Live => None,
                SenseInput::Replayed(trace) => Some(trace.drawn()),
            },
        }
    }
}

impl SenseInput {
    /// One reading: the average of the tick's conversions, or the next sample of
    /// the trace, which needs none.
    pub fn read(&mut self, conversions: &[Option<u16>; OVERSAMPLE]) -> (r: u16)
        ensures
            r == old(self)@.reading(conversions@),
            final(self)@ == old(self)@.advanced(),
            *old(self) is Live ==> *final(self) is Live && r == mean_taken(conversions@),
            *old(self) matches SenseInput::Replayed(trace) ==> *final(self) is Replayed && r
                == replayed(trace.drawn()),
    {
        match self {
            SenseInput::Live => averaged(conversions),
            SenseInput::Replayed(trace) => trace.next(),
        }
    }

    /// Called on a reversal so a replayed traverse starts from the top. Does
    /// nothing to a live input.
    pub fn restart(&mut self)
        ensures
            final(self)@ == old(self)@.restarted(),
            *old(self) is Live ==> *final(self) == *old(self),
            *old(self) is Replayed ==> (*final(self) matches SenseInput::Replayed(trace)
                && trace.drawn() == 0),
    {
        match self {
            SenseInput::Live => {},
            SenseInput::Replayed(trace) => trace.restart(),
        }
    }
}

/// Wherever it stood, a replayed input runs its trace from the top again once
/// restarted: 900 counts of inrush first, then sample after sample.
pub proof fn law_a_restarted_trace_runs_from_the_top(
    at: Position,
    n: nat,
    conversions: Seq<Option<u16>>,
)
    requires
        at.drawn is Some,
    ensures
        at.restarted().reading(conversions) == 900,
        at.restarted().advanced_by(n).reading(conversions) == replayed(n as int),
{
    lemma_drawn_after(at.restarted(), n);
}

proof fn lemma_drawn_after(start: Position, n: nat)
    requires
        start.drawn == Some(0int),
    ensures
        start.advanced_by(n).drawn == Some(if n < usize::MAX { n as int } else { usize::MAX as int }),
    decreases n,
{
    if n > 0 {
        lemma_drawn_after(start, (n - 1) as nat);
    }
}

/// Restarting a live input changes nothing: it reads what it would have read.
pub proof fn law_restarting_a_live_input_does_nothing(at: Position)
    requires
        at.drawn is None,
    ensures
        at.restarted() == at,
        at.advanced() == at,
{
}

/// Every conversion has the same say, wherever it stands: taking out any one of
/// them lowers the sum by its counts and the number by one if it succeeded, and
/// changes neither if it failed.
pub proof fn law_every_conversion_has_the_same_say(readings: Seq<Option<u16>>, i: int)
    requires
        0 <= i < readings.len(),
    ensures
        readings[i] matches Some(counts) ==> {
            &&& sum_taken(readings) == sum_taken(readings.remove(i)) + counts
            &&& number_taken(readings) == number_taken(readings.remove(i)) + 1
        },
        readings[i] is None ==> {
            &&& sum_taken(readings) == sum_taken(readings.remove(i))
            &&& number_taken(readings) == number_taken(readings.remove(i))
        },
    decreases readings.len(),
{
    let shorter = readings.drop_last();
    if i == readings.len() - 1 {
        assert(readings.remove(i) =~= shorter);
    } else {
        law_every_conversion_has_the_same_say(shorter, i);
        assert(readings.remove(i).drop_last() =~= shorter.remove(i));
        assert(readings.remove(i).last() == readings.last());
    }
}

/// The order of the conversions does not matter.
pub proof fn law_the_order_of_conversions_does_not_matter(
    a: Seq<Option<u16>>,
    b: Seq<Option<u16>>,
)
    requires
        a.to_multiset() == b.to_multiset(),
    ensures
        sum_taken(a) == sum_taken(b),
        number_taken(a) == number_taken(b),
        mean_taken(a) == mean_taken(b),
    decreases a.len(),
{
    a.to_multiset_ensures();
    b.to_multiset_ensures();
    assert(a.len() == b.len());
    if a.len() > 0 {
        let last = a.len() - 1;
        assert(a.contains(a[last]));
        assert(b.to_multiset().count(a[last]) > 0);
        let j = choose|j: int| 0 <= j < b.len() && b[j] == a[last];
        law_every_conversion_has_the_same_say(a, last);
        law_every_conversion_has_the_same_say(b, j);
        assert(a.remove(last).to_multiset() =~= b.remove(j).to_multiset());
        law_the_order_of_conversions_does_not_matter(a.remove(last), b.remove(j));
    }
}

/// The reading is the mean of all conversions that succeeded, rounded down: their
/// number is that of the conversions a filter lets through, and their sum adds up
/// every one of those.
pub proof fn law_the_reading_is_the_mean(
    readings: Seq<Option<u16>>,
    succeeded: spec_fn(Option<u16>) -> bool,
    plus: spec_fn(int, Option<u16>) -> int,
)
    requires
        forall|reading: Option<u16>| #[trigger] succeeded(reading) <==> reading is Some,
        forall|sum: int, counts: u16| #[trigger] plus(sum, Some(counts)) == sum + counts,
    ensures
        ({
            let taken = readings.filter(succeeded);
            let total = taken.fold_left(0, plus);
            &&& taken.len() == 0 ==> mean_taken(readings) == 0
            &&& taken.len() > 0 ==> taken.len() * mean_taken(readings) <= total < taken.len() * (
            mean_taken(readings) + 1)
        }),
{
    lemma_taken_is_filtered(readings, succeeded, plus);
    let n = number_taken(readings);
    let sum = sum_taken(readings);
    if n > 0 {
        lemma_fundamental_div_mod(sum, n);
        let mean = mean_taken(readings);
        assert(n * (mean + 1) == n * mean + n) by (nonlinear_arith);
    }
}

proof fn lemma_taken_is_filtered(
    readings: Seq<Option<u16>>,
    succeeded: spec_fn(Option<u16>) -> bool,
    plus: spec_fn(int, Option<u16>) -> int,
)
    requires
        forall|reading: Option<u16>| #[trigger] succeeded(reading) <==> reading is Some,
        forall|sum: int, counts: u16| #[trigger] plus(sum, Some(counts)) == sum + counts,
    ensures
        readings.filter(succeeded).len() == number_taken(readings),
        readings.filter(succeeded).fold_left(0, plus) == sum_taken(readings),
    decreases readings.len(),
{
    reveal(Seq::filter);
    if readings.len() > 0 {
        let shorter = readings.drop_last();
        lemma_taken_is_filtered(shorter, succeeded, plus);
        if let Some(counts) = readings.last() {
            let taken = shorter.filter(succeeded);
            assert(succeeded(readings.last()));
            assert(taken.push(readings.last()).drop_last() =~= taken);
            assert(plus(sum_taken(shorter), Some(counts)) == sum_taken(shorter) + counts);
        }
    }
}

/// A conversion that fails is as good as none, wherever it falls.
pub proof fn law_failed_conversions_are_left_out(readings: Seq<Option<u16>>, i: int)
    requires
        0 <= i < readings.len(),
        readings[i] is None,
    ensures
        mean_taken(readings) == mean_taken(readings.remove(i)),
{
    law_every_conversion_has_the_same_say(readings, i);
}

/// Where a sense input stands, step by step: a live one has no position, reads the
/// mean of the conversions and is not moved by anything. A replayed one reads the
/// sample at its position whatever the conversions, goes on by one, and restarts
/// at the first.
pub proof fn law_a_sense_input_step_by_step(at: Position, conversions: Seq<Option<u16>>)
    ensures
        at.drawn is None ==> {
            &&& at.reading(conversions) == mean_taken(conversions)
            &&& at.advanced().drawn is None
            &&& at.restarted().drawn is None
        },
        at.drawn matches Some(n) ==> {
            &&& at.reading(conversions) == replayed(n)
            &&& n < usize::MAX ==> at.advanced().drawn == Some(n + 1)
            &&& n >= usize::MAX ==> at.advanced().drawn == Some(n)
            &&& at.restarted().drawn == Some(0int)
        },
{
}

} // verus!

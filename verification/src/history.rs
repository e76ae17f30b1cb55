//! What holds of a detector over any sequence of calls.

use vstd::prelude::*;

use crate::arith::{
    law_average_goes_toward_the_sample, law_the_comparison_is_exact,
    law_threshold_follows_the_baseline, law_threshold_has_a_floor,
};
use crate::clock::{later, law_elapsed_ignores_the_epoch};
use crate::direction::{Direction, Reason};
use crate::laws::{
    law_calls_keep_the_detector_well_formed, law_readings_count_from_blanking_to_the_limit,
};
use crate::model::{q8, threshold_over, State, Tick};

verus! {

/// One call to a detector that changes its state.
pub enum Event {
    /// [`Detector::update`](crate::Detector::update).
    Update { now_ms: u32, counts: u16 },
    /// [`Detector::resume`](crate::Detector::resume).
    Resume { now_ms: u32 },
}

impl State {
    /// The state that a call leaves behind.
    pub open spec fn next(self, e: Event) -> State {
        match e {
            Event::Update { now_ms, counts } => self.after(now_ms, counts),
            Event::Resume { now_ms } => self.resumed(now_ms),
        }
    }

    /// The tick that a call returns.
    pub open spec fn answer(self, e: Event) -> Option<Tick> {
        match e {
            Event::Update { now_ms, counts } => Some(self.tick(now_ms, counts)),
            Event::Resume { .. } => None,
        }
    }

    /// The reversal that a call fires.
    pub open spec fn turn(self, e: Event) -> Option<Reason> {
        match e {
            Event::Update { now_ms, counts } => self.verdict(now_ms, counts),
            Event::Resume { .. } => None,
        }
    }

    /// The call brings a reading that is compared with the threshold.
    pub open spec fn considers(self, e: Event) -> bool {
        e matches Event::Update { now_ms, .. } && self.examines(now_ms)
    }

    /// The call brings a reading over the threshold.
    pub open spec fn exceeded_by(self, e: Event) -> bool {
        e matches Event::Update { now_ms, counts } && self.over(now_ms, counts)
    }
}

/// The state after a sequence of calls.
pub open spec fn run(s: State, trace: Seq<Event>) -> State
    decreases trace.len(),
{
    if trace.len() == 0 {
        s
    } else {
        run(s, trace.drop_last()).next(trace.last())
    }
}

/// The state before call number `i`.
pub open spec fn before(s: State, trace: Seq<Event>, i: int) -> State {
    run(s, trace.take(i))
}

/// How many reversals a sequence of calls fires.
pub open spec fn reversals(s: State, trace: Seq<Event>) -> nat
    decreases trace.len(),
{
    if trace.len() == 0 {
        0
    } else {
        reversals(s, trace.drop_last()) + if run(s, trace.drop_last()).turn(trace.last()) is Some {
            1nat
        } else {
            0nat
        }
    }
}

proof fn lemma_before_step(s: State, trace: Seq<Event>, i: int)
    requires
        0 <= i < trace.len(),
    ensures
        before(s, trace, i + 1) == before(s, trace, i).next(trace[i]),
{
    assert(trace.take(i + 1).drop_last() =~= trace.take(i));
}

proof fn lemma_before_end(s: State, trace: Seq<Event>)
    ensures
        before(s, trace, 0) == s,
        before(s, trace, trace.len() as int) == run(s, trace),
{
    assert(trace.take(trace.len() as int) =~= trace);
}

/// The detector's invariant and its tuning survive any sequence of calls.
pub proof fn law_histories_keep_the_detector_well_formed(s: State, trace: Seq<Event>)
    requires
        s.wf(),
    ensures
        run(s, trace).wf(),
        run(s, trace).cfg == s.cfg,
    decreases trace.len(),
{
    if trace.len() > 0 {
        law_histories_keep_the_detector_well_formed(s, trace.drop_last());
        let prev = run(s, trace.drop_last());
        match trace.last() {
            Event::Update { now_ms, counts } => {
                law_calls_keep_the_detector_well_formed(prev, s.cfg, now_ms, counts);
            },
            Event::Resume { now_ms } => {},
        }
    }
}

/// Direction alternates: after an even number of reversals the carriage travels
/// the way it started, after an odd number the other way.
pub proof fn law_direction_alternates(s: State, trace: Seq<Event>)
    ensures
        run(s, trace).dir == if reversals(s, trace) % 2 == 0 {
            s.dir
        } else {
            s.dir.opposite()
        },
    decreases trace.len(),
{
    if trace.len() > 0 {
        law_direction_alternates(s, trace.drop_last());
    }
}

/// The same detector on a clock that reads `by` milliseconds later.
pub open spec fn on_a_later_clock(s: State, by: int) -> State {
    State { phase_start_ms: later(s.phase_start_ms, by), ..s }
}

/// The same call on a clock that reads `by` milliseconds later.
pub open spec fn stamped_later(e: Event, by: int) -> Event {
    match e {
        Event::Update { now_ms, counts } => Event::Update { now_ms: later(now_ms, by), counts },
        Event::Resume { now_ms } => Event::Resume { now_ms: later(now_ms, by) },
    }
}

/// Clock wraparound is a non-event: a detector whose clock reads any amount later,
/// wrapped or not, gives the same ticks on the same readings, and ends in the same
/// state on that clock.
pub proof fn law_the_clock_may_wrap(s: State, trace: Seq<Event>, by: int)
    ensures
        ({
            let moved = trace.map_values(|e: Event| stamped_later(e, by));
            &&& run(on_a_later_clock(s, by), moved) == on_a_later_clock(run(s, trace), by)
            &&& forall|i: int|
                0 <= i < trace.len() ==> before(on_a_later_clock(s, by), moved, i).answer(
                    #[trigger] moved[i],
                ) == before(s, trace, i).answer(trace[i])
        }),
{
    let moved = trace.map_values(|e: Event| stamped_later(e, by));
    let t = on_a_later_clock(s, by);
    assert forall|i: int| 0 <= i < trace.len() implies before(t, moved, i).answer(
        #[trigger] moved[i],
    ) == before(s, trace, i).answer(trace[i]) by {
        lemma_moved_history(s, trace, moved, by, i);
        lemma_moved_call(before(s, trace, i), trace[i], by);
    }
    lemma_moved_history(s, trace, moved, by, trace.len() as int);
    lemma_before_end(s, trace);
    lemma_before_end(t, moved);
}

proof fn lemma_moved_call(s: State, e: Event, by: int)
    ensures
        on_a_later_clock(s, by).answer(stamped_later(e, by)) == s.answer(e),
        on_a_later_clock(s, by).next(stamped_later(e, by)) == on_a_later_clock(s.next(e), by),
{
    match e {
        Event::Update { now_ms, counts } => {
            let t = on_a_later_clock(s, by);
            let then_ms = later(now_ms, by);
            law_elapsed_ignores_the_epoch(s.phase_start_ms, now_ms, by);
            assert(t.elapsed(then_ms) == s.elapsed(now_ms));
            assert(t.reference_q8(counts) == s.reference_q8(counts));
            assert(t.over(then_ms, counts) == s.over(now_ms, counts));
            assert(t.verdict(then_ms, counts) == s.verdict(now_ms, counts));
        },
        Event::Resume { .. } => {},
    }
}

proof fn lemma_moved_history(s: State, trace: Seq<Event>, moved: Seq<Event>, by: int, i: int)
    requires
        moved == trace.map_values(|e: Event| stamped_later(e, by)),
        0 <= i <= trace.len(),
    ensures
        before(on_a_later_clock(s, by), moved, i) == on_a_later_clock(before(s, trace, i), by),
    decreases i,
{
    let t = on_a_later_clock(s, by);
    if i == 0 {
        lemma_before_end(s, trace);
        lemma_before_end(t, moved);
    } else {
        lemma_moved_history(s, trace, moved, by, i - 1);
        lemma_before_step(s, trace, i - 1);
        lemma_before_step(t, moved, i - 1);
        lemma_moved_call(before(s, trace, i - 1), trace[i - 1], by);
        assert(moved[i - 1] == stamped_later(trace[i - 1], by));
    }
}

/// The two calls differ at most in a reading that `s` does not examine.
pub open spec fn alike_to(s: State, a: Event, b: Event) -> bool {
    a == b || ({
        &&& !s.considers(a)
        &&& a matches Event::Update { now_ms, .. } && b matches Event::Update {
            now_ms: other_ms,
            ..
        } && now_ms == other_ms
    })
}

/// Inrush leaves no trace: readings that fall into the blanking window, or on a
/// timeout, can be anything at all. Neither the ticks nor the state depend on them.
pub proof fn law_blanked_readings_leave_no_trace(s: State, a: Seq<Event>, b: Seq<Event>)
    requires
        a.len() == b.len(),
        forall|i: int|
            0 <= i < a.len() ==> alike_to(before(s, a, i), #[trigger] a[i], b[i]),
    ensures
        run(s, a) == run(s, b),
        forall|i: int|
            0 <= i < a.len() ==> before(s, a, i).answer(#[trigger] a[i]) == before(s, b, i).answer(
                b[i],
            ),
{
    assert forall|i: int| 0 <= i < a.len() implies before(s, a, i).answer(#[trigger] a[i])
        == before(s, b, i).answer(b[i]) by {
        lemma_alike_histories(s, a, b, i);
        lemma_alike_calls(before(s, a, i), a[i], b[i]);
    }
    lemma_alike_histories(s, a, b, a.len() as int);
    lemma_before_end(s, a);
    lemma_before_end(s, b);
}

proof fn lemma_alike_calls(s: State, a: Event, b: Event)
    requires
        alike_to(s, a, b),
    ensures
        s.answer(a) == s.answer(b),
        s.next(a) == s.next(b),
{
}

proof fn lemma_alike_histories(s: State, a: Seq<Event>, b: Seq<Event>, i: int)
    requires
        a.len() == b.len(),
        forall|k: int|
            0 <= k < a.len() ==> alike_to(before(s, a, k), #[trigger] a[k], b[k]),
        0 <= i <= a.len(),
    ensures
        before(s, a, i) == before(s, b, i),
    decreases i,
{
    if i == 0 {
        lemma_before_end(s, a);
        lemma_before_end(s, b);
    } else {
        lemma_alike_histories(s, a, b, i - 1);
        lemma_before_step(s, a, i - 1);
        lemma_before_step(s, b, i - 1);
        lemma_alike_calls(before(s, a, i - 1), a[i - 1], b[i - 1]);
    }
}

/// A reading in the examined part of the traverse, over the threshold of a given
/// baseline.
pub open spec fn stall_reading(s: State, reference_q8: int, e: Event) -> bool {
    e matches Event::Update { now_ms, counts } && s.examines(now_ms) && q8(counts as int)
        > threshold_over(s.cfg, reference_q8)
}

/// The baseline that a call's reading is compared against.
pub open spec fn reference_of(s: State, e: Event) -> int {
    match e {
        Event::Update { counts, .. } => s.reference_q8(counts),
        Event::Resume { .. } => s.baseline_q8,
    }
}

proof fn lemma_streak_counts_up(s: State, trace: Seq<Event>, i: int)
    requires
        s.wf(),
        trace.len() == s.cfg.confirm_samples - s.confirm,
        forall|k: int|
            0 <= k < trace.len() ==> stall_reading(
                s,
                reference_of(s, trace[0]),
                #[trigger] trace[k],
            ),
        0 <= i < trace.len(),
    ensures
        before(s, trace, i) == if i == 0 {
            s
        } else {
            State {
                baseline_q8: reference_of(s, trace[0]),
                seeded: true,
                confirm: s.confirm + i,
                ..s
            }
        },
    decreases i,
{
    lemma_before_end(s, trace);
    if i > 0 {
        lemma_streak_counts_up(s, trace, i - 1);
        lemma_before_step(s, trace, i - 1);
        assert(stall_reading(s, reference_of(s, trace[0]), trace[i - 1]));
    }
}

/// A stall fires, and on time: readings that stay over the threshold, in the
/// examined part of the traverse, are confirmed on exactly the sample that makes
/// `confirm_samples` of them, and none before it turns the carriage around. While
/// they last, the baseline they are compared against stands still.
pub proof fn law_a_sustained_stall_fires(s: State, trace: Seq<Event>)
    requires
        s.wf(),
        trace.len() == s.cfg.confirm_samples - s.confirm,
        forall|k: int|
            0 <= k < trace.len() ==> stall_reading(
                s,
                reference_of(s, trace[0]),
                #[trigger] trace[k],
            ),
    ensures
        forall|i: int|
            0 <= i < trace.len() ==> {
                let at = before(s, trace, i);
                let e = #[trigger] trace[i];
                &&& reference_of(at, e) == reference_of(s, trace[0])
                &&& at.turn(e) == if i == trace.len() - 1 {
                    Some(Reason::Stall)
                } else {
                    None::<Reason>
                }
            },
        run(s, trace).dir == s.dir.opposite(),
{
    assert forall|i: int| 0 <= i < trace.len() implies {
        let at = before(s, trace, i);
        let e = #[trigger] trace[i];
        &&& reference_of(at, e) == reference_of(s, trace[0])
        &&& at.turn(e) == if i == trace.len() - 1 { Some(Reason::Stall) } else { None::<Reason> }
    } by {
        lemma_streak_counts_up(s, trace, i);
        assert(stall_reading(s, reference_of(s, trace[0]), trace[i]));
    }
    let last = trace.len() - 1;
    lemma_streak_counts_up(s, trace, last);
    lemma_before_step(s, trace, last);
    lemma_before_end(s, trace);
    assert(stall_reading(s, reference_of(s, trace[0]), trace[last]));
}

/// How many of the calls `from..to` bring a reading that is examined.
pub open spec fn considered(s: State, trace: Seq<Event>, from: int, to: int) -> int
    decreases to - from,
{
    if to <= from {
        0
    } else {
        considered(s, trace, from, to - 1) + if before(s, trace, to - 1).considers(trace[to - 1]) {
            1int
        } else {
            0int
        }
    }
}

/// Over the calls `from..to` nothing turned the carriage around, and every
/// reading examined lay over the threshold of one and the same baseline.
pub open spec fn streak(s: State, trace: Seq<Event>, from: int, to: int, reference_q8: int) -> bool {
    &&& forall|i: int|
        from <= i < to ==> before(s, trace, i).turn(#[trigger] trace[i]) is None
    &&& forall|i: int|
        from <= i < to && before(s, trace, i).considers(#[trigger] trace[i]) ==> {
            &&& stall_reading(before(s, trace, i), reference_q8, trace[i])
            &&& reference_of(before(s, trace, i), trace[i]) == reference_q8
        }
}

/// A call that leaves the count running either brings no reading to examine or
/// adds one over the threshold.
proof fn lemma_counting_call(s: State, e: Event)
    requires
        s.wf(),
        s.next(e).confirm != 0,
    ensures
        s.turn(e) is None,
        s.confirm > 0 ==> s.next(e).baseline_q8 == s.baseline_q8,
        !s.considers(e) ==> s.next(e).confirm == s.confirm,
        s.considers(e) ==> {
            &&& s.next(e).confirm == s.confirm + 1
            &&& stall_reading(s, s.next(e).baseline_q8, e)
            &&& reference_of(s, e) == s.next(e).baseline_q8
        },
{
}

proof fn lemma_longer_streak(s: State, trace: Seq<Event>, from: int, to: int)
    requires
        0 <= from < to <= trace.len(),
        streak(s, trace, from, to - 1, before(s, trace, to - 1).baseline_q8),
        from < to - 1 ==> before(s, trace, to).baseline_q8 == before(s, trace, to - 1).baseline_q8,
        before(s, trace, to - 1).turn(trace[to - 1]) is None,
        before(s, trace, to - 1).considers(trace[to - 1]) ==> {
            &&& stall_reading(
                before(s, trace, to - 1),
                before(s, trace, to).baseline_q8,
                trace[to - 1],
            )
            &&& reference_of(before(s, trace, to - 1), trace[to - 1]) == before(
                s,
                trace,
                to,
            ).baseline_q8
        },
    ensures
        streak(s, trace, from, to, before(s, trace, to).baseline_q8),
{
}

proof fn lemma_count_is_a_streak(s: State, trace: Seq<Event>, n: int) -> (from: int)
    requires
        s.wf(),
        s.confirm == 0,
        0 <= n <= trace.len(),
    ensures
        0 <= from <= n,
        considered(s, trace, from, n) == before(s, trace, n).confirm,
        before(s, trace, n).confirm == 0 ==> from == n,
        streak(s, trace, from, n, before(s, trace, n).baseline_q8),
    decreases n,
{
    lemma_before_end(s, trace);
    if n == 0 {
        return 0;
    }
    let from = lemma_count_is_a_streak(s, trace, n - 1);
    lemma_before_step(s, trace, n - 1);
    if before(s, trace, n).confirm == 0 {
        n
    } else {
        law_histories_keep_the_detector_well_formed(s, trace.take(n - 1));
        lemma_counting_call(before(s, trace, n - 1), trace[n - 1]);
        lemma_longer_streak(s, trace, from, n);
        from
    }
}

/// A stall is never called on less: a detector whose count was clear calls one
/// only at the end of a streak of exactly `confirm_samples` examined readings,
/// every one of them over the threshold, with no quiet reading and no reversal in
/// between.
pub proof fn law_a_stall_was_confirmed(s: State, trace: Seq<Event>, k: int) -> (from: int)
    requires
        s.wf(),
        s.confirm == 0,
        0 <= k < trace.len(),
        before(s, trace, k).turn(trace[k]) == Some(Reason::Stall),
    ensures
        0 <= from <= k,
        streak(s, trace, from, k, reference_of(before(s, trace, k), trace[k])),
        before(s, trace, k).exceeded_by(trace[k]),
        considered(s, trace, from, k + 1) == s.cfg.confirm_samples,
{
    let from = lemma_count_is_a_streak(s, trace, k);
    let at = before(s, trace, k);
    law_histories_keep_the_detector_well_formed(s, trace.take(k));
    from
}

/// Every reading of the trace lies in `lowest..=highest`.
pub open spec fn readings_within(trace: Seq<Event>, lowest: int, highest: int) -> bool {
    forall|i: int|
        0 <= i < trace.len() ==> (#[trigger] trace[i] matches Event::Update {
            counts,
            ..
        } ==> lowest <= counts <= highest)
}

/// The baseline is an average: it stays within the range of the readings.
pub proof fn law_the_baseline_stays_within_the_readings(
    s: State,
    trace: Seq<Event>,
    lowest: int,
    highest: int,
)
    requires
        s.wf(),
        s.seeded ==> q8(lowest) <= s.baseline_q8 <= q8(highest),
        readings_within(trace, lowest, highest),
    ensures
        run(s, trace).seeded ==> q8(lowest) <= run(s, trace).baseline_q8 <= q8(highest),
    decreases trace.len(),
{
    if trace.len() > 0 {
        let shorter = trace.drop_last();
        assert forall|i: int| 0 <= i < shorter.len() implies (#[trigger] shorter[i] matches Event::Update {
            counts,
            ..
        } ==> lowest <= counts <= highest) by {
            assert(shorter[i] == trace[i]);
        }
        law_the_baseline_stays_within_the_readings(s, shorter, lowest, highest);
        law_histories_keep_the_detector_well_formed(s, shorter);
        let prev = run(s, shorter);
        assert(trace[trace.len() - 1] == trace.last());
        match trace.last() {
            Event::Update { counts, .. } => {
                law_average_goes_toward_the_sample(
                    prev.cfg,
                    prev.reference_q8(counts),
                    q8(counts as int),
                );
            },
            Event::Resume { .. } => {},
        }
    }
}

/// Steady running is quiet: as long as the readings stay in a band whose top does
/// not exceed the threshold of its bottom, no stall is ever called, over any
/// number of traverses.
pub proof fn law_steady_current_never_stalls(
    s: State,
    trace: Seq<Event>,
    lowest: int,
    highest: int,
)
    requires
        s.wf(),
        s.seeded ==> q8(lowest) <= s.baseline_q8 <= q8(highest),
        readings_within(trace, lowest, highest),
        q8(highest) <= threshold_over(s.cfg, q8(lowest)),
    ensures
        forall|i: int|
            0 <= i < trace.len() ==> {
                &&& !before(s, trace, i).exceeded_by(#[trigger] trace[i])
                &&& before(s, trace, i).turn(trace[i]) != Some(Reason::Stall)
            },
{
    assert forall|i: int| 0 <= i < trace.len() implies {
        &&& !before(s, trace, i).exceeded_by(#[trigger] trace[i])
        &&& before(s, trace, i).turn(trace[i]) != Some(Reason::Stall)
    } by {
        let prefix = trace.take(i);
        assert forall|j: int| 0 <= j < prefix.len() implies (#[trigger] prefix[j] matches Event::Update {
            counts,
            ..
        } ==> lowest <= counts <= highest) by {
            assert(prefix[j] == trace[j]);
        }
        law_the_baseline_stays_within_the_readings(s, prefix, lowest, highest);
        law_histories_keep_the_detector_well_formed(s, prefix);
        let at = before(s, trace, i);
        match trace[i] {
            Event::Update { counts, .. } => {
                law_threshold_follows_the_baseline(s.cfg, q8(lowest), at.reference_q8(counts));
            },
            Event::Resume { .. } => {},
        }
    }
}

/// No reading of the trace is higher than one before it.
pub open spec fn sagging(trace: Seq<Event>) -> bool {
    forall|i: int, j: int|
        0 <= i <= j < trace.len() ==> (#[trigger] trace[i] matches Event::Update {
            counts,
            ..
        } ==> (#[trigger] trace[j] matches Event::Update { counts: lower, .. } ==> lower
            <= counts))
}

/// Battery sag is not a stall: at a ratio of 100% or more, readings that only ever
/// fall never call one, however far they fall.
pub proof fn law_a_sagging_current_never_stalls(s: State, trace: Seq<Event>)
    requires
        s.wf(),
        s.cfg.stall_ratio_pct >= 100,
        s.seeded ==> forall|i: int|
            0 <= i < trace.len() ==> (#[trigger] trace[i] matches Event::Update {
                counts,
                ..
            } ==> q8(counts as int) <= s.baseline_q8),
        sagging(trace),
    ensures
        forall|i: int|
            0 <= i < trace.len() ==> {
                &&& !before(s, trace, i).exceeded_by(#[trigger] trace[i])
                &&& before(s, trace, i).turn(trace[i]) != Some(Reason::Stall)
            },
{
    assert forall|i: int| 0 <= i < trace.len() implies {
        &&& !before(s, trace, i).exceeded_by(#[trigger] trace[i])
        &&& before(s, trace, i).turn(trace[i]) != Some(Reason::Stall)
    } by {
        match trace[i] {
            Event::Update { counts, .. } => {
                let prefix = trace.take(i);
                assert forall|j: int| 0 <= j < prefix.len() implies (#[trigger] prefix[j] matches Event::Update {
                    counts: higher,
                    ..
                } ==> counts <= higher <= u16::MAX) by {
                    assert(prefix[j] == trace[j]);
                }
                law_the_baseline_stays_within_the_readings(
                    s,
                    prefix,
                    counts as int,
                    u16::MAX as int,
                );
                law_histories_keep_the_detector_well_formed(s, prefix);
                law_threshold_has_a_floor(s.cfg, before(s, trace, i).reference_q8(counts));
            },
            Event::Resume { .. } => {},
        }
    }
}

proof fn lemma_traverse_start_holds(s: State, trace: Seq<Event>, i: int)
    requires
        forall|k: int|
            0 <= k < trace.len() ==> {
                &&& #[trigger] trace[k] is Update
                &&& before(s, trace, k).turn(trace[k]) is None
            },
        0 <= i <= trace.len(),
    ensures
        before(s, trace, i).phase_start_ms == s.phase_start_ms,
        before(s, trace, i).cfg == s.cfg,
    decreases i,
{
    lemma_before_end(s, trace);
    if i > 0 {
        lemma_traverse_start_holds(s, trace, i - 1);
        lemma_before_step(s, trace, i - 1);
        assert(trace[i - 1] is Update);
    }
}

/// The safety net over time: as long as readings come in and none of them turns
/// the carriage around, the traverse is within its time limit at every one.
pub proof fn law_no_traverse_outlasts_the_limit(s: State, trace: Seq<Event>)
    requires
        forall|k: int|
            0 <= k < trace.len() ==> {
                &&& #[trigger] trace[k] is Update
                &&& before(s, trace, k).turn(trace[k]) is None
            },
    ensures
        forall|i: int|
            0 <= i < trace.len() ==> (#[trigger] trace[i] matches Event::Update {
                now_ms,
                ..
            } ==> s.elapsed(now_ms) < s.cfg.max_traverse_ms),
{
    assert forall|i: int| 0 <= i < trace.len() implies (#[trigger] trace[i] matches Event::Update {
        now_ms,
        ..
    } ==> s.elapsed(now_ms) < s.cfg.max_traverse_ms) by {
        lemma_traverse_start_holds(s, trace, i);
        assert(before(s, trace, i).turn(trace[i]) is None);
    }
}

/// `dir`, or the other way.
pub open spec fn turned_if(opposite: bool, dir: Direction) -> Direction {
    if opposite { dir.opposite() } else { dir }
}

/// The two states are one but for the direction, which is the same or opposite,
/// and for a baseline that no sample has set yet.
pub open spec fn same_traverse(a: State, b: State, opposite: bool) -> bool {
    &&& a.cfg == b.cfg
    &&& a.dir == turned_if(opposite, b.dir)
    &&& a.phase_start_ms == b.phase_start_ms
    &&& a.seeded == b.seeded
    &&& a.seeded ==> a.baseline_q8 == b.baseline_q8
    &&& a.confirm == b.confirm
}

/// The two answers have the same duty and the same reversal, and directions that
/// are the same or opposite.
pub open spec fn same_answer(a: Option<Tick>, b: Option<Tick>, opposite: bool) -> bool {
    match (a, b) {
        (Some(x), Some(y)) => {
            &&& x.dir == turned_if(opposite, y.dir)
            &&& x.duty_permille == y.duty_permille
            &&& x.reversed == y.reversed
        },
        (None, None) => true,
        _ => false,
    }
}

proof fn lemma_same_traverse_call(a: State, b: State, opposite: bool, e: Event)
    requires
        same_traverse(a, b, opposite),
    ensures
        same_answer(a.answer(e), b.answer(e), opposite),
        same_traverse(a.next(e), b.next(e), opposite),
{
}

proof fn lemma_same_traverse_history(a: State, b: State, opposite: bool, trace: Seq<Event>, i: int)
    requires
        same_traverse(a, b, opposite),
        0 <= i <= trace.len(),
    ensures
        same_traverse(before(a, trace, i), before(b, trace, i), opposite),
    decreases i,
{
    if i == 0 {
        lemma_before_end(a, trace);
        lemma_before_end(b, trace);
    } else {
        lemma_same_traverse_history(a, b, opposite, trace, i - 1);
        lemma_before_step(a, trace, i - 1);
        lemma_before_step(b, trace, i - 1);
        lemma_same_traverse_call(
            before(a, trace, i - 1),
            before(b, trace, i - 1),
            opposite,
            trace[i - 1],
        );
    }
}

/// A reversal forgets the past: whatever calls follow it, the detector answers them
/// as one made new at that moment does, with the same duty and the same reversals.
/// The directions agree if the reversal left the carriage going forward, and are
/// opposite throughout if not. No old baseline and no old count has a say.
pub proof fn law_a_reversal_forgets_the_past(
    s: State,
    now_ms: u32,
    counts: u16,
    trace: Seq<Event>,
)
    requires
        s.wf(),
        s.verdict(now_ms, counts) is Some,
    ensures
        ({
            let turned = s.after(now_ms, counts);
            let fresh = State::initial(s.cfg, now_ms);
            let opposite = turned.dir != Direction::Forward;
            &&& forall|i: int|
                0 <= i < trace.len() ==> same_answer(
                    before(turned, trace, i).answer(#[trigger] trace[i]),
                    before(fresh, trace, i).answer(trace[i]),
                    opposite,
                )
            &&& same_traverse(run(turned, trace), run(fresh, trace), opposite)
        }),
{
    let turned = s.after(now_ms, counts);
    let fresh = State::initial(s.cfg, now_ms);
    let opposite = turned.dir != Direction::Forward;
    assert forall|i: int| 0 <= i < trace.len() implies same_answer(
        before(turned, trace, i).answer(#[trigger] trace[i]),
        before(fresh, trace, i).answer(trace[i]),
        opposite,
    ) by {
        lemma_same_traverse_history(turned, fresh, opposite, trace, i);
        lemma_same_traverse_call(
            before(turned, trace, i),
            before(fresh, trace, i),
            opposite,
            trace[i],
        );
    }
    lemma_same_traverse_history(turned, fresh, opposite, trace, trace.len() as int);
    lemma_before_end(turned, trace);
    lemma_before_end(fresh, trace);
}

/// A stopper is noticed wherever it stands: as many readings over the threshold as
/// are still to confirm, taken at any times from the end of the blanking window to
/// the time limit, end in a stall on the last of them and in no reversal before.
/// The threshold is the ratio times the larger of the floor and the baseline, or
/// of the floor and the first of these readings where no baseline is set yet.
pub proof fn law_a_stall_past_blanking_is_called(s: State, trace: Seq<Event>, base_q8: int)
    requires
        s.wf(),
        trace.len() == s.cfg.confirm_samples - s.confirm,
        trace.len() > 0,
        forall|k: int|
            0 <= k < trace.len() ==> (#[trigger] trace[k] matches Event::Update { now_ms, counts }
                && s.cfg.blank_ms <= (now_ms - s.phase_start_ms) % 0x1_0000_0000
                < s.cfg.max_traverse_ms && counts * 25_600 > base_q8 * s.cfg.stall_ratio_pct),
        s.cfg.min_baseline_counts * 256 <= base_q8,
        s.seeded ==> s.baseline_q8 <= base_q8,
        !s.seeded ==> trace[0]->Update_counts * 256 <= base_q8,
        ({
            ||| base_q8 == s.cfg.min_baseline_counts * 256
            ||| s.seeded && base_q8 == s.baseline_q8
            ||| !s.seeded && base_q8 == trace[0]->Update_counts * 256
        }),
    ensures
        forall|k: int|
            0 <= k < trace.len() ==> (before(s, trace, k).answer(#[trigger] trace[k]) matches Some(
                tick,
            ) && tick.reversed == if k == trace.len() - 1 {
                Some(Reason::Stall)
            } else {
                None::<Reason>
            }),
        run(s, trace).dir != s.dir,
{
    let reference_q8 = reference_of(s, trace[0]);
    assert(trace[0] is Update);
    assert forall|k: int| 0 <= k < trace.len() implies stall_reading(
        s,
        reference_q8,
        #[trigger] trace[k],
    ) by {
        let now_ms = trace[k]->Update_now_ms;
        let elapsed = (now_ms - s.phase_start_ms) % 0x1_0000_0000;
        law_readings_count_from_blanking_to_the_limit(s, now_ms, elapsed);
        law_the_comparison_is_exact(
            s.cfg,
            reference_q8,
            base_q8,
            trace[k]->Update_counts * 256,
        );
    }
    law_a_sustained_stall_fires(s, trace);
    assert forall|k: int| 0 <= k < trace.len() implies (before(s, trace, k).answer(
        #[trigger] trace[k],
    ) matches Some(tick) && tick.reversed == if k == trace.len() - 1 {
        Some(Reason::Stall)
    } else {
        None::<Reason>
    }) by {
        assert(stall_reading(s, reference_q8, trace[k]));
        assert(reference_of(before(s, trace, k), trace[k]) == reference_q8);
    }
}

} // verus!

//! Completion detection: a batch is done once its counter has reached the
//! number of items sent. While it has not, the poller keeps a streak of
//! misses and reports every miss from the sixth on.

use vstd::prelude::*;

verus! {

/// Pause before each look at the counter, in milliseconds.
pub const POLL_INTERVAL_MS: u64 = 250;

/// Length of the streak of misses from which a miss is reported.
pub const MISS_STREAK_THRESHOLD: u64 = 6;

/// Report of a counter that keeps lagging. It is information, not an error.
#[derive(Clone, Copy, Debug, PartialEq, Eq, Structural)]
pub struct Diagnostic {
    pub expected: u64,
    pub observed: u64,
    pub streak: u64,
}

/// What one look at the counter means for the batch.
#[derive(Clone, Copy, Debug, PartialEq, Eq, Structural)]
pub enum PollVerdict {
    /// The counter has reached the expected total.
    Complete,
    /// The counter lags; look again after the pause.
    Pending,
    /// The counter lags and has done so for a while; report, then look again.
    Lagging(Diagnostic),
}

/// The count that a reading stands for: a key that was never incremented
/// counts as zero.
pub open spec fn reading_value(reading: Option<u64>) -> u64 {
    match reading {
        Some(count) => count,
        None => 0,
    }
}

/// A batch is complete once the observed count is at least the expected one.
/// Counts above it, which duplicates produce, are complete as well.
pub open spec fn is_complete(observed: u64, expected: u64) -> bool {
    observed >= expected
}

/// The streak after one more miss. It stops growing at the largest `u64`.
pub open spec fn next_streak(streak: u64) -> u64 {
    if streak < u64::MAX {
        (streak + 1) as u64
    } else {
        streak
    }
}

/// Verdict on a reading, given the streak of misses before it.
pub open spec fn verdict_for(expected: u64, streak: u64, reading: Option<u64>) -> PollVerdict {
    let observed = reading_value(reading);
    if is_complete(observed, expected) {
        PollVerdict::Complete
    } else if next_streak(streak) >= MISS_STREAK_THRESHOLD {
        PollVerdict::Lagging(Diagnostic { expected, observed, streak: next_streak(streak) })
    } else {
        PollVerdict::Pending
    }
}

/// Watches one batch's counter.
#[derive(Clone, Copy, Debug, PartialEq, Eq, Structural)]
pub struct Poller {
    /// Number of items the batch was sent with.
    pub expected: u64,
    /// Misses seen so far, all of them consecutive.
    pub missed: u64,
}

impl Poller {
    /// A poller for a batch of `expected` items, with no miss yet.
    pub fn new(expected: u64) -> (poller: Poller)
        ensures
            poller == (Poller { expected, missed: 0 }),
    {
        Poller { expected, missed: 0 }
    }

    /// Takes one reading of the counter. A complete reading leaves the
    /// streak as it is; a miss lengthens it by one.
    pub fn observe(&mut self, reading: Option<u64>) -> (verdict: PollVerdict)
        ensures
            verdict == verdict_for(old(self).expected, old(self).missed, reading),
            final(self).expected == old(self).expected,
            final(self).missed == if is_complete(reading_value(reading), old(self).expected) {
                old(self).missed
            } else {
                next_streak(old(self).missed)
            },
    {
        let observed: u64 = match reading {
            Some(count) => count,
            None => 0,
        };
        if observed >= self.expected {
            return PollVerdict::Complete;
        }
        if self.missed < u64::MAX {
            self.missed = self.missed + 1;
        }
        if self.missed >= MISS_STREAK_THRESHOLD {
            PollVerdict::Lagging(
                Diagnostic { expected: self.expected, observed, streak: self.missed },
            )
        } else {
            PollVerdict::Pending
        }
    }
}

/// What a poller did over a recorded run of readings.
pub struct PollTrace {
    /// Readings taken, the completing one included.
    pub polls: usize,
    /// Whether a reading reached the expected total.
    pub completed: bool,
    /// The reports made on the way, in order.
    pub diagnostics: Vec<Diagnostic>,
}

/// Whether reading number `at` is the first one that completes the batch.
pub open spec fn completes_at(expected: u64, readings: Seq<Option<u64>>, at: int) -> bool {
    &&& 0 <= at < readings.len()
    &&& is_complete(reading_value(readings[at]), expected)
    &&& forall|j: int| 0 <= j < at ==> !is_complete(reading_value(#[trigger] readings[j]), expected)
}

/// The reports that a fresh poller makes over `misses` misses in a row: none
/// for the first five, then one for each miss, with the count it saw and the
/// length of the streak at that point.
pub open spec fn reports_over(expected: u64, readings: Seq<Option<u64>>, misses: int) -> Seq<
    Diagnostic,
> {
    Seq::new(
        if misses >= 6 {
            (misses - 5) as nat
        } else {
            0
        },
        |j: int|
            Diagnostic {
                expected,
                observed: reading_value(readings[j + 5]),
                streak: (j + 6) as u64,
            },
    )
}

/// Runs a fresh poller over recorded readings, as the polling loop would
/// over live ones: it stops at the first reading that completes the batch,
/// or when the record runs out.
pub fn replay(expected: u64, readings: &Vec<Option<u64>>) -> (trace: PollTrace)
    ensures
        trace.completed <==> exists|at: int| completes_at(expected, readings@, at),
        trace.completed ==> completes_at(expected, readings@, trace.polls - 1),
        !trace.completed ==> trace.polls == readings@.len(),
        trace.diagnostics@ == reports_over(
            expected,
            readings@,
            if trace.completed {
                trace.polls - 1
            } else {
                trace.polls as int
            },
        ),
{
    let mut poller = Poller::new(expected);
    let mut diagnostics: Vec<Diagnostic> = Vec::new();
    let mut at: usize = 0;
    while at < readings.len()
        invariant
            at <= readings@.len(),
            poller.expected == expected,
            poller.missed == at,
            forall|j: int| 0 <= j < at ==> !is_complete(reading_value(#[trigger] readings@[j]), expected),
            diagnostics@ == reports_over(expected, readings@, at as int),
        decreases readings@.len() - at,
    {
        let verdict = poller.observe(readings[at]);
        match verdict {
            PollVerdict::Complete => {
                assert(completes_at(expected, readings@, at as int));
                return PollTrace { polls: at + 1, completed: true, diagnostics };
            },
            PollVerdict::Pending => {
                assert(diagnostics@ =~= reports_over(expected, readings@, at + 1));
            },
            PollVerdict::Lagging(report) => {
                diagnostics.push(report);
                assert(diagnostics@ =~= reports_over(expected, readings@, at + 1));
            },
        }
        at = at + 1;
    }
    PollTrace { polls: at, completed: false, diagnostics }
}

/// A count that has reached the expected total completes the batch whatever
/// the streak before it, and so does every larger count.
pub proof fn lemma_full_count_completes(expected: u64, streak: u64, count: u64, more: u64)
    requires
        count >= expected,
        count + more <= u64::MAX,
    ensures
        verdict_for(expected, streak, Some(count)) == PollVerdict::Complete,
        verdict_for(expected, streak, Some((count + more) as u64)) == PollVerdict::Complete,
{
}

/// Once the counter has reached the expected total at some reading, polling
/// ends: at that reading or at an earlier one.
pub proof fn lemma_completion_convergence(expected: u64, readings: Seq<Option<u64>>, at: int)
    requires
        0 <= at < readings.len(),
        is_complete(reading_value(readings[at]), expected),
    ensures
        exists|first: int| first <= at && completes_at(expected, readings, first),
    decreases at,
{
    if exists|j: int| 0 <= j < at && is_complete(reading_value(#[trigger] readings[j]), expected) {
        let j = choose|j: int|
            0 <= j < at && is_complete(reading_value(#[trigger] readings[j]), expected);
        lemma_completion_convergence(expected, readings, j);
    } else {
        assert(completes_at(expected, readings, at));
    }
}

/// Over a streak of misses the poller stays silent for five of them and then
/// reports each one: six misses in a row give exactly one report, made at the
/// sixth.
pub proof fn lemma_reports_start_at_sixth_miss(
    expected: u64,
    readings: Seq<Option<u64>>,
    misses: int,
)
    requires
        0 <= misses <= readings.len(),
    ensures
        misses < 6 ==> reports_over(expected, readings, misses).len() == 0,
        misses >= 6 ==> reports_over(expected, readings, misses).len() == misses - 5,
        misses >= 6 ==> reports_over(expected, readings, misses)[0] == (Diagnostic {
            expected,
            observed: reading_value(readings[5]),
            streak: 6,
        }),
{
}

} // verus!

//! Bookkeeping of the previous counts that reports were handed.
//!
//! A caller that wants to hold the tracker to its promise marks every
//! previous count it was handed. A count that comes twice, or one that a run
//! of the expected size cannot hand out, is a violation.

use super::history::{
    counting_up, final_count, lemma_previous_counts_are_gapless, previous_counts, CounterOp,
};
use super::observer::InvariantViolation;
use vstd::prelude::*;

verus! {

/// How many of the marks are set.
pub open spec fn marked(marks: Seq<bool>) -> nat
    decreases marks.len(),
{
    if marks.len() == 0 {
        0
    } else {
        marked(marks.drop_last()) + if marks.last() {
            1nat
        } else {
            0nat
        }
    }
}

/// Every mark is set.
pub open spec fn all_marked(marks: Seq<bool>) -> bool {
    forall|i: int| 0 <= i < marks.len() ==> marks[i]
}

/// The marks of a run that expects `total_expected` reports, before any.
pub open spec fn unmarked(total_expected: nat) -> Seq<bool> {
    Seq::new(total_expected, |i: int| false)
}

/// The completions that a previous count at or beyond the expected total
/// gives away: one more than it, as far as the machine can count.
pub open spec fn completions_with(previous: usize) -> usize {
    if previous < usize::MAX {
        (previous + 1) as usize
    } else {
        previous
    }
}

/// What marking the previous count `previous` comes to: the marks
/// afterwards, or the violation that it gives away.
pub open spec fn marking(marks: Seq<bool>, previous: usize) -> Result<
    Seq<bool>,
    InvariantViolation,
> {
    if previous >= marks.len() {
        Err(
            InvariantViolation::CountExceedsTotal {
                count: completions_with(previous),
                total_expected: marks.len() as usize,
            },
        )
    } else if marks[previous as int] {
        Err(InvariantViolation::DuplicatePreviousCount { previous })
    } else {
        Ok(marks.update(previous as int, true))
    }
}

/// What marking the first `n` of `values` in their order comes to, from
/// `marks`: the marks afterwards, or the first violation.
pub open spec fn marking_all(marks: Seq<bool>, values: Seq<nat>, n: int) -> Result<
    Seq<bool>,
    InvariantViolation,
>
    decreases n,
{
    if n <= 0 {
        Ok(marks)
    } else {
        match marking_all(marks, values, n - 1) {
            Ok(earlier) => marking(earlier, values[n - 1] as usize),
            Err(violation) => Err(violation),
        }
    }
}

/// No more marks are set than there are, and all are set exactly when as many
/// are set as there are: a ledger that has recorded as many previous counts
/// as its run expects is gapless.
pub proof fn lemma_marked_counts(marks: Seq<bool>)
    ensures
        marked(marks) <= marks.len(),
        marked(marks) == marks.len() <==> all_marked(marks),
    decreases marks.len(),
{
    if marks.len() > 0 {
        let earlier = marks.drop_last();
        lemma_marked_counts(earlier);
        if all_marked(marks) {
            assert forall|i: int| 0 <= i < earlier.len() implies earlier[i] by {
                assert(marks[i]);
            }
        }
        if marked(marks) == marks.len() {
            assert(marks.last());
            assert forall|i: int| 0 <= i < marks.len() implies marks[i] by {
                if i < earlier.len() {
                    assert(earlier[i]);
                }
            }
        }
    }
}

/// Setting a mark that was not set adds one to the marks that are set.
pub proof fn lemma_marked_after_marking(marks: Seq<bool>, i: int)
    requires
        0 <= i < marks.len(),
        !marks[i],
    ensures
        marked(marks.update(i, true)) == marked(marks) + 1,
    decreases marks.len(),
{
    let after = marks.update(i, true);
    if i == marks.len() - 1 {
        assert(after.drop_last() =~= marks.drop_last());
    } else {
        assert(after.drop_last() =~= marks.drop_last().update(i, true));
        lemma_marked_after_marking(marks.drop_last(), i);
    }
}

/// Nothing is marked before the first report.
pub proof fn lemma_nothing_marked(total_expected: nat)
    ensures
        marked(unmarked(total_expected)) == 0,
    decreases total_expected,
{
    if total_expected > 0 {
        assert(unmarked(total_expected).drop_last() =~= unmarked((total_expected - 1) as nat));
        lemma_nothing_marked((total_expected - 1) as nat);
    }
}

proof fn lemma_marking_counts_in_order(total_expected: nat, n: int)
    requires
        0 <= n <= total_expected <= usize::MAX,
    ensures
        marking_all(unmarked(total_expected), counting_up(total_expected), n) == Ok::<
            Seq<bool>,
            InvariantViolation,
        >(Seq::new(total_expected, |i: int| i < n)),
    decreases n,
{
    if n > 0 {
        lemma_marking_counts_in_order(total_expected, n - 1);
        let earlier = Seq::new(total_expected, |i: int| i < n - 1);
        assert(earlier.update(n - 1, true) =~= Seq::new(total_expected, |i: int| i < n));
    } else {
        assert(unmarked(total_expected) =~= Seq::new(total_expected, |i: int| i < 0));
    }
}

/// Marking the previous counts of a history, in the order in which its
/// reports took effect, in a ledger for as many reports as the history
/// holds, meets no violation and leaves every mark set.
pub proof fn lemma_sound_run_fills_the_ledger(ops: Seq<CounterOp>)
    requires
        final_count(ops) <= usize::MAX,
    ensures
        marking_all(
            unmarked(final_count(ops)),
            previous_counts(ops),
            final_count(ops) as int,
        ) matches Ok(marks) && all_marked(marks),
{
    lemma_previous_counts_are_gapless(ops);
    lemma_marking_counts_in_order(final_count(ops), final_count(ops) as int);
}

/// The previous counts seen so far in a run that expects a fixed number of
/// reports.
///
/// Its view has one mark for each report that the run expects: mark `i` is
/// set once the previous count `i` has been recorded.
pub struct CompletionLedger {
    seen: Vec<bool>,
}

impl View for CompletionLedger {
    type V = Seq<bool>;

    closed spec fn view(&self) -> Seq<bool> {
        self.seen@
    }
}

impl CompletionLedger {
    /// An empty ledger for a run that expects `total_expected` reports.
    pub fn new(total_expected: usize) -> (ledger: Self)
        ensures
            ledger@ == unmarked(total_expected as nat),
    {
        let seen: Vec<bool> = vec![false; total_expected];
        assert(seen@ =~= unmarked(total_expected as nat));
        CompletionLedger { seen }
    }

    /// The number of reports that the run expects.
    pub fn total_expected(&self) -> (total: usize)
        ensures
            total == self@.len(),
    {
        self.seen.len()
    }

    /// The number of previous counts recorded so far.
    pub fn recorded(&self) -> (count: usize)
        ensures
            count == marked(self@),
    {
        let mut count: usize = 0;
        let mut i: usize = 0;
        while i < self.seen.len()
            invariant
                i <= self.seen.len(),
                count == marked(self.seen@.take(i as int)),
                count <= i,
            decreases self.seen.len() - i,
        {
            assert(self.seen@.take(i + 1).drop_last() =~= self.seen@.take(i as int));
            if self.seen[i] {
                count = count + 1;
            }
            i = i + 1;
        }
        assert(self.seen@.take(i as int) =~= self.seen@);
        count
    }

    /// Records the previous count that one report was handed. A count that
    /// was recorded before, or that the run is too short to hand out, is a
    /// violation and leaves the ledger as it was.
    pub fn record(&mut self, previous: usize) -> (result: Result<(), InvariantViolation>)
        ensures
            match marking(old(self)@, previous) {
                Ok(marks) => result is Ok && final(self)@ == marks,
                Err(violation) => result == Err::<(), InvariantViolation>(violation)
                    && final(self)@ == old(self)@,
            },
    {
        if previous >= self.seen.len() {
            let count: usize = if previous < usize::MAX {
                previous + 1
            } else {
                previous
            };
            return Err(
                InvariantViolation::CountExceedsTotal { count, total_expected: self.seen.len() },
            );
        }
        if self.seen[previous] {
            return Err(InvariantViolation::DuplicatePreviousCount { previous });
        }
        self.seen.set(previous, true);
        Ok(())
    }

    /// Whether every previous count that the run can hand out was recorded:
    /// each of the numbers below the expected total, once.
    pub fn is_gapless(&self) -> (gapless: bool)
        ensures
            gapless == all_marked(self@),
    {
        let mut i: usize = 0;
        while i < self.seen.len()
            invariant
                i <= self.seen.len(),
                forall|k: int| 0 <= k < i ==> self.seen@[k],
            decreases self.seen.len() - i,
        {
            if !self.seen[i] {
                return false;
            }
            i = i + 1;
        }
        true
    }
}

} // verus!

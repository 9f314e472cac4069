//! The observer's side of a run: what it has read, and what it concludes.

use vstd::math::max;
use vstd::prelude::*;

verus! {

/// What the observer learns from one look at the completion counter.
#[derive(Clone, Copy, Debug, PartialEq, Eq, Structural)]
pub enum Status {
    /// Fewer completions than expected have been seen so far.
    InProgress,
    /// Every expected completion has been seen.
    Complete,
}

/// A broken promise of the tracker. None of these is recoverable: the run
/// that meets one has no meaningful statistics left to report.
#[derive(Clone, Copy, Debug, PartialEq, Eq, Structural)]
pub enum InvariantViolation {
    /// The counter was read as `count` after it had been read as `cursor`,
    /// and `count` is the smaller.
    NegativeGap { cursor: usize, count: usize },
    /// `count` completions were seen in a run that expected only
    /// `total_expected`.
    CountExceedsTotal { count: usize, total_expected: usize },
    /// The previous count `previous` was handed to two reports.
    DuplicatePreviousCount { previous: usize },
}

/// The status that a count of completions stands for.
pub open spec fn status_of(count: nat, total_expected: nat) -> Status {
    if count >= total_expected {
        Status::Complete
    } else {
        Status::InProgress
    }
}

/// What read `i` is measured against: the read before it, and for the first
/// read zero, where the counter starts.
pub open spec fn read_before(reads: Seq<nat>, i: int) -> nat {
    if i <= 0 {
        0
    } else {
        reads[i - 1]
    }
}

/// How far read `i` lies beyond the one before it.
pub open spec fn gap_at(reads: Seq<nat>, i: int) -> int {
    reads[i] - read_before(reads, i)
}

/// Every read is at least the one before it.
pub open spec fn never_decreasing(reads: Seq<nat>) -> bool {
    forall|i: int| 0 <= i < reads.len() ==> gap_at(reads, i) >= 0
}

/// The latest read, or zero before the first.
pub open spec fn last_read(reads: Seq<nat>) -> nat {
    read_before(reads, reads.len() as int)
}

/// The running maximum of the gaps, taken read by read from zero.
pub open spec fn largest_gap(reads: Seq<nat>) -> int
    decreases reads.len(),
{
    if reads.len() == 0 {
        0
    } else {
        max(largest_gap(reads.drop_last()), gap_at(reads, reads.len() - 1))
    }
}

/// What one look at the counter comes to for an observer that has accepted
/// `reads` so far: the reads it has accepted afterwards, and its verdict.
///
/// A count below the last read is a violation and is not accepted. Any other
/// count is accepted, and the run is complete once the count has reached
/// `total_expected`.
pub open spec fn observed(reads: Seq<nat>, count: usize, total_expected: usize) -> (
    Seq<nat>,
    Result<Status, InvariantViolation>,
) {
    if count < last_read(reads) {
        (
            reads,
            Err(InvariantViolation::NegativeGap { cursor: last_read(reads) as usize, count }),
        )
    } else {
        (reads.push(count as nat), Ok(status_of(count as nat, total_expected as nat)))
    }
}

/// A read that is no smaller than the last one keeps the reads in order.
pub proof fn lemma_accepting_a_read(reads: Seq<nat>, count: nat)
    requires
        never_decreasing(reads),
        count >= last_read(reads),
    ensures
        never_decreasing(reads.push(count)),
        last_read(reads.push(count)) == count,
        largest_gap(reads.push(count)) == max(largest_gap(reads), count - last_read(reads)),
{
    let after = reads.push(count);
    assert(after.drop_last() =~= reads);
    assert forall|i: int| 0 <= i < after.len() implies gap_at(after, i) >= 0 by {
        if i < reads.len() {
            assert(gap_at(after, i) == gap_at(reads, i));
        }
    }
}

/// The largest gap is the maximum of the gaps between reads in a row, the
/// first read measured from zero: no gap exceeds it, and one of them equals
/// it. Before the first read it is zero.
pub proof fn lemma_largest_gap_is_the_maximum(reads: Seq<nat>)
    requires
        never_decreasing(reads),
    ensures
        forall|i: int| 0 <= i < reads.len() ==> gap_at(reads, i) <= largest_gap(reads),
        reads.len() > 0 ==> exists|i: int|
            0 <= i < reads.len() && gap_at(reads, i) == largest_gap(reads),
        reads.len() == 0 ==> largest_gap(reads) == 0,
    decreases reads.len(),
{
    if reads.len() > 0 {
        let earlier = reads.drop_last();
        let last = reads.len() - 1;
        assert forall|i: int| 0 <= i < earlier.len() implies gap_at(earlier, i) == gap_at(
            reads,
            i,
        ) by {}
        assert(never_decreasing(earlier)) by {
            assert forall|i: int| 0 <= i < earlier.len() implies gap_at(earlier, i) >= 0 by {
                assert(gap_at(reads, i) >= 0);
            }
        }
        lemma_largest_gap_is_the_maximum(earlier);
        assert(gap_at(reads, last) >= 0);
        if largest_gap(reads) == gap_at(reads, last) {
            assert(0 <= last < reads.len() && gap_at(reads, last) == largest_gap(reads));
        } else {
            assert(largest_gap(reads) == largest_gap(earlier));
            assert(earlier.len() > 0);
            let i = choose|i: int|
                0 <= i < earlier.len() && gap_at(earlier, i) == largest_gap(earlier);
            assert(0 <= i < reads.len() && gap_at(reads, i) == largest_gap(reads));
        }
    }
}

/// Where the first read is no further from zero than some later read is from
/// the read before it, the largest gap is the maximum of later minus earlier
/// over the pairs of reads in a row.
pub proof fn lemma_largest_gap_between_reads(reads: Seq<nat>)
    requires
        never_decreasing(reads),
        exists|j: int| 1 <= j < reads.len() && reads[0] <= #[trigger] reads[j] - reads[j - 1],
    ensures
        forall|i: int|
            1 <= i < reads.len() ==> #[trigger] reads[i] - reads[i - 1] <= largest_gap(reads),
        exists|i: int|
            1 <= i < reads.len() && #[trigger] reads[i] - reads[i - 1] == largest_gap(reads),
{
    lemma_largest_gap_is_the_maximum(reads);
    assert forall|i: int| 1 <= i < reads.len() implies #[trigger] reads[i] - reads[i - 1]
        <= largest_gap(reads) by {
        assert(gap_at(reads, i) <= largest_gap(reads));
    }
    let top = choose|i: int| 0 <= i < reads.len() && gap_at(reads, i) == largest_gap(reads);
    if top == 0 {
        let j = choose|j: int|
            1 <= j < reads.len() && reads[0] <= #[trigger] reads[j] - reads[j - 1];
        assert(gap_at(reads, j) <= largest_gap(reads));
        assert(1 <= j < reads.len() && reads[j] - reads[j - 1] == largest_gap(reads));
    } else {
        assert(1 <= top < reads.len() && reads[top] - reads[top - 1] == largest_gap(reads));
    }
}

/// The largest gap never shrinks: after more reads it is at least what it
/// was after fewer.
pub proof fn lemma_largest_gap_never_shrinks(reads: Seq<nat>, n: int)
    requires
        0 <= n <= reads.len(),
    ensures
        largest_gap(reads.take(n)) <= largest_gap(reads),
    decreases reads.len() - n,
{
    if n < reads.len() {
        assert(reads.drop_last().take(n) =~= reads.take(n));
        lemma_largest_gap_never_shrinks(reads.drop_last(), n);
    } else {
        assert(reads.take(n) =~= reads);
    }
}

/// A look that finds the counter where the last look left it, as after a wake
/// that no new report stands behind, is taken in like any other: it gives the
/// verdict that the last look gave, and leaves the largest gap as it was. So
/// wakes do not add up: however many arrive for one report, the looks after
/// the first change nothing.
pub proof fn lemma_looking_again_changes_nothing(reads: Seq<nat>, total_expected: usize)
    requires
        never_decreasing(reads),
        last_read(reads) <= usize::MAX,
    ensures
        observed(reads, last_read(reads) as usize, total_expected) == (
            reads.push(last_read(reads)),
            Ok::<Status, InvariantViolation>(
                status_of(last_read(reads), total_expected as nat),
            ),
        ),
        last_read(reads.push(last_read(reads))) == last_read(reads),
        largest_gap(reads.push(last_read(reads))) == largest_gap(reads),
{
    lemma_accepting_a_read(reads, last_read(reads));
    lemma_largest_gap_never_shrinks(reads, 0);
    assert(reads.take(0) =~= Seq::<nat>::empty());
}

/// Decides whether `count` completions finish a run of `total_expected`.
pub fn status_for(count: usize, total_expected: usize) -> (status: Status)
    ensures
        status == status_of(count as nat, total_expected as nat),
{
    if count >= total_expected {
        Status::Complete
    } else {
        Status::InProgress
    }
}

/// The observer's private record of the counter: the last value it saw and
/// the largest step between two values it saw in a row.
///
/// Its view is the sequence of reads it has accepted, oldest first.
pub struct ObserverCursor {
    last_seen: usize,
    max_gap: usize,
    reads: Ghost<Seq<nat>>,
}

impl View for ObserverCursor {
    type V = Seq<nat>;

    closed spec fn view(&self) -> Seq<nat> {
        self.reads@
    }
}

impl ObserverCursor {
    #[verifier::type_invariant]
    spec fn consistent(&self) -> bool {
        &&& never_decreasing(self.reads@)
        &&& self.last_seen == last_read(self.reads@)
        &&& self.max_gap == largest_gap(self.reads@)
    }

    /// A cursor that has read nothing yet.
    pub fn new() -> (cursor: Self)
        ensures
            cursor@ == Seq::<nat>::empty(),
    {
        ObserverCursor { last_seen: 0, max_gap: 0, reads: Ghost(Seq::empty()) }
    }

    /// The count that the observer saw last, zero before its first read.
    pub fn last_seen(&self) -> (count: usize)
        ensures
            count == last_read(self@),
            never_decreasing(self@),
    {
        proof {
            use_type_invariant(self);
        }
        self.last_seen
    }

    /// The largest gap between two reads in a row so far.
    pub fn max_gap(&self) -> (gap: usize)
        ensures
            gap == largest_gap(self@),
            never_decreasing(self@),
    {
        proof {
            use_type_invariant(self);
        }
        self.max_gap
    }

    /// Takes in one read of the counter and returns its gap to the read
    /// before. A read that lies below the last one is refused and leaves the
    /// cursor as it was.
    pub fn advance(&mut self, count: usize) -> (result: Result<usize, InvariantViolation>)
        ensures
            never_decreasing(final(self)@),
            largest_gap(final(self)@) >= largest_gap(old(self)@),
            match result {
                Ok(gap) => {
                    &&& count >= last_read(old(self)@)
                    &&& gap == count - last_read(old(self)@)
                    &&& final(self)@ == old(self)@.push(count as nat)
                },
                Err(violation) => {
                    &&& count < last_read(old(self)@)
                    &&& violation == (InvariantViolation::NegativeGap {
                        cursor: last_read(old(self)@) as usize,
                        count,
                    })
                    &&& final(self)@ == old(self)@
                },
            },
    {
        proof {
            use_type_invariant(&*self);
        }
        if count < self.last_seen {
            return Err(InvariantViolation::NegativeGap { cursor: self.last_seen, count });
        }
        let gap: usize = count - self.last_seen;
        let max_gap: usize = if gap > self.max_gap {
            gap
        } else {
            self.max_gap
        };
        let ghost reads = self.reads@.push(count as nat);
        proof {
            lemma_accepting_a_read(self.reads@, count as nat);
        }
        *self = ObserverCursor { last_seen: count, max_gap, reads: Ghost(reads) };
        Ok(gap)
    }

    /// Takes in one read of the counter and says whether the run of
    /// `total_expected` units is complete with it: what [`observed`] gives
    /// for the reads so far and this count.
    pub fn observe(&mut self, count: usize, total_expected: usize) -> (result: Result<
        Status,
        InvariantViolation,
    >)
        ensures
            never_decreasing(final(self)@),
            largest_gap(final(self)@) >= largest_gap(old(self)@),
            (final(self)@, result) == observed(old(self)@, count, total_expected),
    {
        match self.advance(count) {
            Ok(_) => Ok(status_for(count, total_expected)),
            Err(violation) => Err(violation),
        }
    }
}

} // verus!

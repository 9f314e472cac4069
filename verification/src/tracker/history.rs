//! The completion counter as the atomic operations see it.
//!
//! Atomic operations on one counter take effect one after another, in some
//! order, whatever threads issue them. A history is that order. Here a
//! history is run from a counter at zero, and what holds of every history is
//! proved: of the previous counts that reports are handed, and of the counts
//! that reads return.

use super::observer::{
    last_read, lemma_accepting_a_read, never_decreasing, observed, status_of, InvariantViolation,
    Status,
};
use vstd::prelude::*;

verus! {

/// One atomic operation on the completion counter.
pub enum CounterOp {
    /// A fetch-and-add of one, issued by the worker of this index.
    Report { worker: nat },
    /// A load.
    Read,
}

/// What one operation does to a counter that stands at `count`: the count
/// afterwards, and the value handed back.
pub open spec fn step(count: nat, op: CounterOp) -> (nat, nat) {
    match op {
        CounterOp::Report { .. } => (count + 1, count),
        CounterOp::Read => (count, count),
    }
}

/// The count that operation `i` of the history meets, that is the count after
/// the first `i` operations of a counter that starts at zero.
pub open spec fn count_before(ops: Seq<CounterOp>, i: int) -> nat
    decreases i,
{
    if i <= 0 {
        0
    } else {
        step(count_before(ops, i - 1), ops[i - 1]).0
    }
}

/// The value that operation `i` of the history hands back.
pub open spec fn returned(ops: Seq<CounterOp>, i: int) -> nat {
    step(count_before(ops, i), ops[i]).1
}

/// The count when the whole history has run.
pub open spec fn final_count(ops: Seq<CounterOp>) -> nat {
    count_before(ops, ops.len() as int)
}

/// The previous counts handed to the reports among the first `n` operations,
/// in the order of the history.
pub open spec fn previous_counts_upto(ops: Seq<CounterOp>, n: int) -> Seq<nat>
    decreases n,
{
    if n <= 0 {
        Seq::empty()
    } else if ops[n - 1] is Report {
        previous_counts_upto(ops, n - 1).push(returned(ops, n - 1))
    } else {
        previous_counts_upto(ops, n - 1)
    }
}

/// The previous counts handed to all reports of the history, in its order.
pub open spec fn previous_counts(ops: Seq<CounterOp>) -> Seq<nat> {
    previous_counts_upto(ops, ops.len() as int)
}

/// The previous counts handed to one worker among the first `n` operations,
/// in the order in which it reported.
pub open spec fn previous_counts_of_upto(ops: Seq<CounterOp>, worker: nat, n: int) -> Seq<nat>
    decreases n,
{
    if n <= 0 {
        Seq::empty()
    } else if ops[n - 1] == (CounterOp::Report { worker }) {
        previous_counts_of_upto(ops, worker, n - 1).push(returned(ops, n - 1))
    } else {
        previous_counts_of_upto(ops, worker, n - 1)
    }
}

/// The previous counts handed to one worker over the whole history.
pub open spec fn previous_counts_of(ops: Seq<CounterOp>, worker: nat) -> Seq<nat> {
    previous_counts_of_upto(ops, worker, ops.len() as int)
}

/// The counts that the reads among the first `n` operations return, in the
/// order of the history.
pub open spec fn reads_upto(ops: Seq<CounterOp>, n: int) -> Seq<nat>
    decreases n,
{
    if n <= 0 {
        Seq::empty()
    } else if ops[n - 1] is Read {
        reads_upto(ops, n - 1).push(returned(ops, n - 1))
    } else {
        reads_upto(ops, n - 1)
    }
}

/// The counts that all reads of the history return, in its order.
pub open spec fn reads(ops: Seq<CounterOp>) -> Seq<nat> {
    reads_upto(ops, ops.len() as int)
}

/// The numbers below `n`, in rising order.
pub open spec fn counting_up(n: nat) -> Seq<nat> {
    Seq::new(n, |i: int| i as nat)
}

/// Every report of the history comes from one of the first `workers` workers.
pub open spec fn reported_by_first(ops: Seq<CounterOp>, workers: nat) -> bool {
    forall|i: int| 0 <= i < ops.len() && ops[i] is Report ==> (#[trigger] ops[i])->worker < workers
}

/// How many reports the first `workers` workers made among the first `n`
/// operations, worker by worker.
spec fn reports_of_first(ops: Seq<CounterOp>, workers: nat, n: int) -> nat
    decreases workers,
{
    if workers == 0 {
        0
    } else {
        reports_of_first(ops, (workers - 1) as nat, n) + previous_counts_of_upto(
            ops,
            (workers - 1) as nat,
            n,
        ).len()
    }
}

proof fn lemma_previous_counts_upto(ops: Seq<CounterOp>, n: int)
    requires
        0 <= n <= ops.len(),
    ensures
        previous_counts_upto(ops, n) =~= counting_up(count_before(ops, n)),
    decreases n,
{
    if n > 0 {
        lemma_previous_counts_upto(ops, n - 1);
    }
}

proof fn lemma_one_more_report(ops: Seq<CounterOp>, workers: nat, n: int)
    requires
        0 < n <= ops.len(),
    ensures
        reports_of_first(ops, workers, n) == reports_of_first(ops, workers, n - 1) + (if ops[n
            - 1] is Report && ops[n - 1]->worker < workers {
            1nat
        } else {
            0nat
        }),
    decreases workers,
{
    if workers > 0 {
        lemma_one_more_report(ops, (workers - 1) as nat, n);
    }
}

proof fn lemma_count_is_sum_over_workers(ops: Seq<CounterOp>, workers: nat, n: int)
    requires
        0 <= n <= ops.len(),
        reported_by_first(ops, workers),
    ensures
        count_before(ops, n) == reports_of_first(ops, workers, n),
    decreases n,
{
    if n > 0 {
        lemma_count_is_sum_over_workers(ops, workers, n - 1);
        lemma_one_more_report(ops, workers, n);
        assert(ops[n - 1] is Report ==> ops[n - 1]->worker < workers);
    } else {
        lemma_nothing_reported_at_start(ops, workers);
    }
}

proof fn lemma_nothing_reported_at_start(ops: Seq<CounterOp>, workers: nat)
    ensures
        reports_of_first(ops, workers, 0) == 0,
    decreases workers,
{
    if workers > 0 {
        lemma_nothing_reported_at_start(ops, (workers - 1) as nat);
    }
}

proof fn lemma_equal_shares(ops: Seq<CounterOp>, workers: nat, units: nat)
    requires
        forall|w: nat| w < workers ==> (#[trigger] previous_counts_of(ops, w)).len() == units,
    ensures
        reports_of_first(ops, workers, ops.len() as int) == workers * units,
    decreases workers,
{
    if workers > 0 {
        lemma_equal_shares(ops, (workers - 1) as nat, units);
        assert(previous_counts_of(ops, (workers - 1) as nat).len() == units);
        assert(workers * units == (workers - 1) * units + units) by (nonlinear_arith);
    } else {
        assert(workers * units == 0) by (nonlinear_arith)
            requires
                workers == 0,
        ;
    }
}

/// Whatever the order in which the reports of a run take effect, the
/// previous counts they are handed are 0, 1, 2 and so on in that order, up to
/// the number of reports: none is missing and none comes twice. That number
/// is the final count.
pub proof fn lemma_previous_counts_are_gapless(ops: Seq<CounterOp>)
    ensures
        previous_counts(ops) == counting_up(final_count(ops)),
        previous_counts(ops).no_duplicates(),
        previous_counts(ops).to_multiset() == counting_up(final_count(ops)).to_multiset(),
        forall|v: nat| previous_counts(ops).contains(v) <==> v < final_count(ops),
{
    lemma_previous_counts_upto(ops, ops.len() as int);
    let counts = counting_up(final_count(ops));
    assert forall|v: nat| counts.contains(v) <==> v < final_count(ops) by {
        if v < final_count(ops) {
            assert(counts[v as int] == v);
        }
    }
}

/// When each of `workers` workers reports `units` completions and nobody
/// else reports, the run makes `workers * units` reports, and the previous
/// counts handed out are exactly the numbers below `workers * units`, each
/// once.
pub proof fn lemma_equal_shares_are_gapless(ops: Seq<CounterOp>, workers: nat, units: nat)
    requires
        reported_by_first(ops, workers),
        forall|w: nat| w < workers ==> (#[trigger] previous_counts_of(ops, w)).len() == units,
    ensures
        final_count(ops) == workers * units,
        previous_counts(ops) == counting_up(workers * units),
        previous_counts(ops).no_duplicates(),
        previous_counts(ops).to_multiset() == counting_up(workers * units).to_multiset(),
        forall|v: nat| previous_counts(ops).contains(v) <==> v < workers * units,
{
    lemma_count_is_sum_over_workers(ops, workers, ops.len() as int);
    lemma_equal_shares(ops, workers, units);
    lemma_previous_counts_are_gapless(ops);
}

/// The count never goes down as a history runs.
pub proof fn lemma_count_only_grows(ops: Seq<CounterOp>, i: int, j: int)
    requires
        0 <= i <= j <= ops.len(),
    ensures
        count_before(ops, i) <= count_before(ops, j),
    decreases j - i,
{
    if i < j {
        lemma_count_only_grows(ops, i, j - 1);
    }
}

proof fn lemma_reads_upto(ops: Seq<CounterOp>, n: int)
    requires
        0 <= n <= ops.len(),
    ensures
        never_decreasing(reads_upto(ops, n)),
        last_read(reads_upto(ops, n)) <= count_before(ops, n),
    decreases n,
{
    if n > 0 {
        lemma_reads_upto(ops, n - 1);
        if ops[n - 1] is Read {
            lemma_accepting_a_read(reads_upto(ops, n - 1), returned(ops, n - 1));
        }
    }
}

/// The counts that the reads of a history return never go down: each read is
/// at least the read before it.
pub proof fn lemma_reads_never_decrease(ops: Seq<CounterOp>)
    ensures
        never_decreasing(reads(ops)),
        last_read(reads(ops)) <= final_count(ops),
{
    lemma_reads_upto(ops, ops.len() as int);
}

/// The observer of a history is never refused. Whatever the observer has
/// taken in of the reads before, the next read of the history is no smaller
/// than its last, so that observing it meets no violation and takes it in.
pub proof fn lemma_observer_accepts_every_read(
    ops: Seq<CounterOp>,
    i: int,
    total_expected: usize,
)
    requires
        0 <= i < ops.len(),
        ops[i] is Read,
        final_count(ops) <= usize::MAX,
    ensures
        observed(reads_upto(ops, i), returned(ops, i) as usize, total_expected) == (
            reads_upto(ops, i + 1),
            Ok::<Status, InvariantViolation>(status_of(returned(ops, i), total_expected as nat)),
        ),
{
    lemma_reads_upto(ops, i);
    lemma_count_only_grows(ops, i, ops.len() as int);
}

/// Any two reads of a history, the later one returns at least what the
/// earlier one returned.
pub proof fn lemma_later_read_is_no_smaller(ops: Seq<CounterOp>, i: int, j: int)
    requires
        0 <= i <= j < ops.len(),
        ops[i] is Read,
        ops[j] is Read,
    ensures
        returned(ops, i) <= returned(ops, j),
{
    lemma_count_only_grows(ops, i, j);
}

/// Two reads with no report between them return the same count, and a read
/// leaves the count as it found it.
pub proof fn lemma_reads_without_report_agree(ops: Seq<CounterOp>, i: int, j: int)
    requires
        0 <= i <= j < ops.len(),
        forall|k: int| i <= k <= j ==> ops[k] is Read,
    ensures
        returned(ops, i) == returned(ops, j),
        count_before(ops, j + 1) == count_before(ops, i),
    decreases j - i,
{
    if i < j {
        lemma_reads_without_report_agree(ops, i, j - 1);
    }
}

/// A look at the counter finds the run complete exactly when as
/// many reports as the run expects have taken effect before it.
pub proof fn lemma_complete_exactly_after_all_reports(
    ops: Seq<CounterOp>,
    i: int,
    total_expected: nat,
)
    requires
        0 <= i < ops.len(),
        ops[i] is Read,
    ensures
        status_of(returned(ops, i), total_expected) == Status::Complete
            <==> previous_counts_upto(ops, i).len() >= total_expected,
{
    lemma_previous_counts_upto(ops, i);
}

/// In a run that makes exactly the reports it expects, a look that finds the
/// run complete has read the expected total, and so has every later look.
pub proof fn lemma_complete_run_reads_the_total(ops: Seq<CounterOp>, i: int, j: int)
    requires
        0 <= i <= j < ops.len(),
        ops[i] is Read,
        ops[j] is Read,
        status_of(returned(ops, i), final_count(ops)) == Status::Complete,
    ensures
        returned(ops, i) == final_count(ops),
        returned(ops, j) == final_count(ops),
{
    lemma_count_only_grows(ops, i, j);
    lemma_count_only_grows(ops, j, ops.len() as int);
}

proof fn lemma_growth_takes_a_report(ops: Seq<CounterOp>, i: int, j: int)
    requires
        0 <= i <= j <= ops.len(),
        count_before(ops, i) < count_before(ops, j),
    ensures
        exists|k: int| i <= k < j && (#[trigger] ops[k]) is Report,
    decreases j - i,
{
    if count_before(ops, j - 1) < count_before(ops, j) {
        assert(ops[j - 1] is Report);
    } else {
        lemma_growth_takes_a_report(ops, i, j - 1);
        let k = choose|k: int| i <= k < j - 1 && (#[trigger] ops[k]) is Report;
        assert(i <= k < j && ops[k] is Report);
    }
}

/// Waiting is never in vain. In a run that makes the reports it expects, a
/// look that finds the run unfinished has a report still to come after it,
/// and with that report the wake that follows it.
pub proof fn lemma_unfinished_look_has_a_report_to_come(
    ops: Seq<CounterOp>,
    i: int,
    total_expected: nat,
)
    requires
        0 <= i < ops.len(),
        ops[i] is Read,
        status_of(returned(ops, i), total_expected) == Status::InProgress,
        final_count(ops) >= total_expected,
    ensures
        exists|k: int| i < k < ops.len() && (#[trigger] ops[k]) is Report,
{
    lemma_growth_takes_a_report(ops, i, ops.len() as int);
    let k = choose|k: int| i <= k < ops.len() && (#[trigger] ops[k]) is Report;
    assert(i < k < ops.len() && ops[k] is Report);
}

/// A look that no report follows finds a run complete that has made the
/// reports it expects.
pub proof fn lemma_look_after_the_last_report_is_complete(
    ops: Seq<CounterOp>,
    i: int,
    total_expected: nat,
)
    requires
        0 <= i < ops.len(),
        ops[i] is Read,
        forall|k: int| i < k < ops.len() ==> !((#[trigger] ops[k]) is Report),
        final_count(ops) >= total_expected,
    ensures
        status_of(returned(ops, i), total_expected) == Status::Complete,
{
    if returned(ops, i) < final_count(ops) {
        lemma_growth_takes_a_report(ops, i, ops.len() as int);
    }
}

proof fn lemma_previous_counts_of_upto(ops: Seq<CounterOp>, worker: nat, n: int)
    requires
        0 <= n <= ops.len(),
    ensures
        forall|i: int|
            0 <= i < previous_counts_of_upto(ops, worker, n).len() ==> (
            #[trigger] previous_counts_of_upto(ops, worker, n)[i]) < count_before(ops, n),
        forall|i: int, j: int|
            0 <= i < j < previous_counts_of_upto(ops, worker, n).len() ==> previous_counts_of_upto(
                ops,
                worker,
                n,
            )[i] < previous_counts_of_upto(ops, worker, n)[j],
    decreases n,
{
    if n > 0 {
        lemma_previous_counts_of_upto(ops, worker, n - 1);
        let earlier = previous_counts_of_upto(ops, worker, n - 1);
        let now = previous_counts_of_upto(ops, worker, n);
        let met = count_before(ops, n - 1);
        assert(met <= count_before(ops, n));
        if ops[n - 1] == (CounterOp::Report { worker }) {
            assert(now == earlier.push(met));
            assert(met < count_before(ops, n));
            assert forall|i: int| 0 <= i < now.len() implies (#[trigger] now[i]) < count_before(
                ops,
                n,
            ) by {
                if i < earlier.len() {
                    assert(earlier[i] < met);
                }
            }
            assert forall|i: int, j: int| 0 <= i < j < now.len() implies now[i] < now[j] by {
                assert(earlier[i] < met);
                if j < earlier.len() {
                    assert(earlier[i] < earlier[j]);
                }
            }
        } else {
            assert(now == earlier);
            assert forall|i: int| 0 <= i < now.len() implies (#[trigger] now[i]) < count_before(
                ops,
                n,
            ) by {
                assert(earlier[i] < met);
            }
        }
    }
}

/// To each worker the counter counts up: every previous count that a worker
/// is handed lies above the ones it was handed before, and below the final
/// count.
pub proof fn lemma_previous_counts_of_a_worker_rise(ops: Seq<CounterOp>, worker: nat)
    ensures
        forall|i: int|
            0 <= i < previous_counts_of(ops, worker).len() ==> (#[trigger] previous_counts_of(
                ops,
                worker,
            )[i]) < final_count(ops),
        forall|i: int, j: int|
            0 <= i < j < previous_counts_of(ops, worker).len() ==> previous_counts_of(
                ops,
                worker,
            )[i] < previous_counts_of(ops, worker)[j],
{
    lemma_previous_counts_of_upto(ops, worker, ops.len() as int);
}

proof fn lemma_single_worker_upto(ops: Seq<CounterOp>, n: int)
    requires
        0 <= n <= ops.len(),
        reported_by_first(ops, 1),
    ensures
        previous_counts_of_upto(ops, 0, n) == previous_counts_upto(ops, n),
    decreases n,
{
    if n > 0 {
        lemma_single_worker_upto(ops, n - 1);
        if ops[n - 1] is Report {
            assert(ops[n - 1]->worker < 1);
            assert(ops[n - 1] == (CounterOp::Report { worker: 0 }));
        }
    }
}

/// A single worker is handed 0, 1, 2 and so on, in the order of its calls.
pub proof fn lemma_single_worker_counts_up(ops: Seq<CounterOp>)
    requires
        reported_by_first(ops, 1),
    ensures
        previous_counts_of(ops, 0) == counting_up(final_count(ops)),
{
    lemma_single_worker_upto(ops, ops.len() as int);
    lemma_previous_counts_upto(ops, ops.len() as int);
}

} // verus!

//! Prime numbers by the sieve of Eratosthenes.

use vstd::arithmetic::div_mod::{lemma_fundamental_div_mod, lemma_mod_multiples_basic};
use vstd::prelude::*;

verus! {

/// `n` is at least two and no number between one and itself divides it.
pub open spec fn is_prime(n: nat) -> bool {
    &&& n >= 2
    &&& forall|d: nat| 2 <= d < n ==> #[trigger] (n % d) != 0
}

/// `k` is at least two and no number from two up to, but below, `bound`
/// divides it, other than itself.
spec fn survives(k: nat, bound: nat) -> bool {
    &&& k >= 2
    &&& forall|d: nat| 2 <= d < bound && d < k ==> #[trigger] (k % d) != 0
}

/// A proper multiple of `i` below its square has a divisor below `i`.
proof fn lemma_multiple_below_square(k: nat, i: nat)
    requires
        2 <= i < k,
        k % i == 0,
        k < i * i,
    ensures
        !survives(k, i),
{
    let m = k / i;
    lemma_fundamental_div_mod(k as int, i as int);
    assert(k == i * m);
    assert(m < i) by (nonlinear_arith)
        requires
            k == i * m,
            k < i * i,
            i >= 2,
    ;
    assert(m >= 2) by (nonlinear_arith)
        requires
            k == i * m,
            i < k,
            i >= 2,
    ;
    assert(m < k) by (nonlinear_arith)
        requires
            k == i * m,
            i >= 2,
            m >= 2,
    ;
    lemma_mod_multiples_basic(i as int, m as int);
    assert(k % m == 0);
}

/// A divisor of a divisor divides.
proof fn lemma_divides_through(d: nat, i: nat, k: nat)
    requires
        d > 0,
        i > 0,
        i % d == 0,
        k % i == 0,
    ensures
        k % d == 0,
{
    let a = k / i;
    let b = i / d;
    lemma_fundamental_div_mod(k as int, i as int);
    lemma_fundamental_div_mod(i as int, d as int);
    assert(k == (a * b) * d) by (nonlinear_arith)
        requires
            k == i * a,
            i == d * b,
    ;
    lemma_mod_multiples_basic((a * b) as int, d as int);
}

/// Between one multiple of `i` and the next lies no other.
proof fn lemma_next_multiple(index: int, i: int, k: int)
    requires
        i > 0,
        index % i == 0,
        k % i == 0,
        0 <= index <= k < index + i,
    ensures
        k == index,
{
    let a = index / i;
    let b = k / i;
    lemma_fundamental_div_mod(index, i);
    lemma_fundamental_div_mod(k, i);
    assert(a == b) by (nonlinear_arith)
        requires
            index == i * a,
            k == i * b,
            index <= k < index + i,
            i > 0,
    ;
}

/// What survives the sieve up to a bound whose square lies beyond it is
/// prime, and every prime survives.
proof fn lemma_survivors_are_prime(k: nat, bound: nat)
    requires
        k < bound * bound,
    ensures
        survives(k, bound) <==> is_prime(k),
{
    if survives(k, bound) && !is_prime(k) {
        let d = choose|d: nat| 2 <= d < k && #[trigger] (k % d) == 0;
        let e = k / d;
        lemma_fundamental_div_mod(k as int, d as int);
        assert(k == d * e);
        assert(e >= 2 && e < k) by (nonlinear_arith)
            requires
                k == d * e,
                2 <= d < k,
        ;
        lemma_mod_multiples_basic(d as int, e as int);
        assert(k % e == 0);
        assert(d < bound || e < bound) by (nonlinear_arith)
            requires
                k == d * e,
                k < bound * bound,
        ;
        if d < bound {
            assert(k % d == 0);
        } else {
            assert(k % e == 0);
        }
    }
}

/// One more number in the sieve: what survives up to and including `i` is
/// what survives below `i` and is no proper multiple of `i`.
proof fn lemma_survives_one_more(k: nat, i: nat)
    requires
        i >= 2,
    ensures
        survives(k, i + 1) <==> survives(k, i) && !(i < k && k % i == 0),
{
    if survives(k, i) && !(i < k && k % i == 0) {
        assert forall|d: nat| 2 <= d < i + 1 && d < k implies #[trigger] (k % d) != 0 by {
            if d < i {
                assert(k % d != 0);
            }
        }
    }
    if survives(k, i + 1) {
        assert forall|d: nat| 2 <= d < i && d < k implies #[trigger] (k % d) != 0 by {
            assert(d < i + 1);
        }
        if i < k {
            assert(k % i != 0);
        }
    }
}

/// The lower end of a range: `min`, or zero where there is none.
pub open spec fn least_of(min: Option<usize>) -> usize {
    match min {
        Some(least) => least,
        None => 0,
    }
}

/// `found` holds the primes from `least` up to and including `max`, each
/// once, in rising order, and nothing else.
pub open spec fn primes_between(found: Seq<usize>, least: usize, max: usize) -> bool {
    &&& forall|i: int|
        0 <= i < found.len() ==> is_prime(#[trigger] found[i] as nat) && least <= found[i] <= max
    &&& forall|i: int, j: int| 0 <= i < j < found.len() ==> found[i] < found[j]
    &&& forall|p: usize| is_prime(p as nat) && least <= p <= max ==> found.contains(p)
}

/// There is one sequence of the primes of a range: two that hold them are
/// the same.
pub proof fn lemma_primes_between_is_unique(
    first: Seq<usize>,
    second: Seq<usize>,
    least: usize,
    max: usize,
)
    requires
        primes_between(first, least, max),
        primes_between(second, least, max),
    ensures
        first == second,
{
    lemma_same_rising_members(first, second);
}

/// Two strictly rising sequences with the same members are the same.
proof fn lemma_same_rising_members(first: Seq<usize>, second: Seq<usize>)
    requires
        forall|i: int, j: int| 0 <= i < j < first.len() ==> first[i] < first[j],
        forall|i: int, j: int| 0 <= i < j < second.len() ==> second[i] < second[j],
        forall|i: int| 0 <= i < first.len() ==> second.contains(#[trigger] first[i]),
        forall|i: int| 0 <= i < second.len() ==> first.contains(#[trigger] second[i]),
    ensures
        first =~= second,
    decreases first.len(),
{
    if first.len() == 0 {
        if second.len() > 0 {
            assert(first.contains(second[0]));
        }
    } else {
        let top = first.last();
        assert(second.contains(top));
        let at = choose|at: int| 0 <= at < second.len() && second[at] == top;
        // nothing in `second` lies beyond `top`, so `top` is its last
        if at < second.len() - 1 {
            let beyond = second.last();
            assert(first.contains(beyond));
            let back = choose|back: int| 0 <= back < first.len() && first[back] == beyond;
            assert(first[back] <= top);
            assert(second[at] < second[second.len() - 1]);
        }
        let shorter = first.drop_last();
        let other = second.drop_last();
        assert forall|i: int| 0 <= i < shorter.len() implies other.contains(
            #[trigger] shorter[i],
        ) by {
            assert(second.contains(first[i]));
            let k = choose|k: int| 0 <= k < second.len() && second[k] == first[i];
            assert(first[i] < top);
            assert(other[k] == shorter[i]);
        }
        assert forall|i: int| 0 <= i < other.len() implies shorter.contains(
            #[trigger] other[i],
        ) by {
            assert(first.contains(second[i]));
            let k = choose|k: int| 0 <= k < first.len() && first[k] == second[i];
            assert(second[i] < second[second.len() - 1]);
            assert(shorter[k] == other[i]);
        }
        lemma_same_rising_members(shorter, other);
        assert(first =~= shorter.push(top));
        assert(second =~= other.push(top));
    }
}

/// The primes from `min`, or from zero where there is none, up to and
/// including `max`, in rising order.
///
/// The sieve holds one flag for each number up to `max` and needs the
/// numbers zero and one among them, so `max` is at least one, and one more
/// than `max` can still be counted.
pub fn prime_sieve(min: Option<usize>, max: usize) -> (found: Vec<usize>)
    requires
        1 <= max < usize::MAX,
    ensures
        primes_between(found@, least_of(min), max),
{
    let mut primes: Vec<bool> = vec![true; max + 1];
    primes.set(0, false);
    primes.set(1, false);
    let mut i: usize = 2;
    while i <= max / i
        invariant
            2 <= i <= max + 1,
            max < usize::MAX,
            primes.len() == max + 1,
            forall|k: int| 0 <= k <= max ==> primes[k] == survives(k as nat, i as nat),
        decreases max + 1 - i,
    {
        assert(i * i <= max) by (nonlinear_arith)
            requires
                i <= max / i,
                i > 0,
        ;
        let ghost before = primes@;
        if primes[i] {
            let mut index: usize = i * i;
            primes.set(index, false);
            proof {
                lemma_mod_multiples_basic(i as int, i as int);
            }
            while max - index >= i
                invariant
                    2 <= i,
                    i * i <= index <= max,
                    index % i == 0,
                    primes.len() == max + 1,
                    before.len() == max + 1,
                    forall|k: int|
                        0 <= k <= max ==> primes[k] == (before[k] && !(i * i <= k <= index && k % (
                        i as int) == 0)),
                decreases max - index,
            {
                let ghost marked = index;
                let ghost earlier = primes@;
                index = index + i;
                primes.set(index, false);
                proof {
                    assert(index % i == 0) by (nonlinear_arith)
                        requires
                            marked % i == 0,
                            index == marked + i,
                            i > 0,
                    ;
                    assert forall|k: int| 0 <= k <= max implies primes[k] == (before[k] && !(i * i
                        <= k <= index && k % (i as int) == 0)) by {
                        assert(earlier[k] == (before[k] && !(i * i <= k <= marked && k % (
                        i as int) == 0)));
                        if marked < k < index && k % (i as int) == 0 {
                            lemma_next_multiple(marked as int, i as int, k);
                        }
                    }
                }
            }
            proof {
                assert forall|k: int| 0 <= k <= max implies primes[k] == survives(
                    k as nat,
                    (i + 1) as nat,
                ) by {
                    lemma_survives_one_more(k as nat, i as nat);
                    assert(before[k] == survives(k as nat, i as nat));
                    if i < k && k % (i as int) == 0 {
                        if k < i * i {
                            // a smaller factor has struck it out before
                            lemma_multiple_below_square(k as nat, i as nat);
                        } else if index < k {
                            // the multiples up to `max` end with `index`
                            lemma_next_multiple(index as int, i as int, k);
                        }
                    } else if i * i <= k {
                        assert(i < k) by (nonlinear_arith)
                            requires
                                i * i <= k,
                                i >= 2,
                        ;
                    }
                }
            }
        } else {
            proof {
                // `i` is struck out: a smaller number divides it, and so its multiples
                let d = choose|d: nat| 2 <= d < i && #[trigger] (i as nat % d) == 0;
                assert forall|k: int| 0 <= k <= max implies primes[k] == survives(
                    k as nat,
                    (i + 1) as nat,
                ) by {
                    lemma_survives_one_more(k as nat, i as nat);
                    if i < k && k % (i as int) == 0 {
                        lemma_divides_through(d, i as nat, k as nat);
                    }
                }
            }
        }
        i = i + 1;
    }
    proof {
        assert(max < i * i) by (nonlinear_arith)
            requires
                i > max / i,
                i > 0,
        ;
        assert forall|k: int| 0 <= k <= max implies primes[k] == is_prime(k as nat) by {
            lemma_survivors_are_prime(k as nat, i as nat);
        }
    }
    let least: usize = match min {
        Some(least) => least,
        None => 0,
    };
    let mut found: Vec<usize> = Vec::new();
    if least > max {
        return found;
    }
    let mut next: usize = least;
    while next <= max
        invariant
            least <= next <= max + 1,
            max < usize::MAX,
            primes.len() == max + 1,
            forall|k: int| 0 <= k <= max ==> primes[k] == is_prime(k as nat),
            forall|j: int|
                0 <= j < found.len() ==> is_prime(#[trigger] found[j] as nat) && least
                    <= found[j] < next,
            forall|j: int, l: int| 0 <= j < l < found.len() ==> found[j] < found[l],
            forall|p: usize| is_prime(p as nat) && least <= p < next ==> found@.contains(p),
        decreases max + 1 - next,
    {
        if primes[next] {
            let ghost earlier = found@;
            found.push(next);
            proof {
                assert forall|p: usize|
                    is_prime(p as nat) && least <= p < next + 1 implies found@.contains(p) by {
                    if p < next {
                        let j = choose|j: int| 0 <= j < earlier.len() && earlier[j] == p;
                        assert(found@[j] == p);
                    } else {
                        assert(found@[earlier.len() as int] == p);
                    }
                }
            }
        }
        next = next + 1;
    }
    found
}

/// How far the sieve goes where no end is asked for.
pub const DEFAULT_PRIMES_TILL: usize = 12_345;

/// The furthest that the sieve goes unasked, for the greatest value of a
/// type: further than this it keeps the caller waiting.
pub const MAX_PRIME_TILL: usize = 10_000_000;

/// Why a range was not searched.
#[derive(Clone, Copy, Debug, PartialEq, Eq, Structural)]
pub enum PrimesError {
    /// The range starts beyond its end.
    MinimumAboveMaximum { min: usize, max: usize },
}

/// The upper end of a range: `primes_until`, or the default where there is
/// none.
pub open spec fn end_of(primes_until: Option<usize>) -> usize {
    match primes_until {
        Some(end) => end,
        None => DEFAULT_PRIMES_TILL,
    }
}

/// The primes of a range whose ends may be left open: it starts at
/// `primes_from`, or at zero, and ends with `primes_until`, or with
/// [`DEFAULT_PRIMES_TILL`]. A range that starts beyond its end is refused.
pub fn primes_in_range(primes_from: Option<usize>, primes_until: Option<usize>) -> (result: Result<
    Vec<usize>,
    PrimesError,
>)
    requires
        least_of(primes_from) <= end_of(primes_until) ==> 1 <= end_of(primes_until) < usize::MAX,
    ensures
        match result {
            Ok(found) => {
                &&& least_of(primes_from) <= end_of(primes_until)
                &&& primes_between(found@, least_of(primes_from), end_of(primes_until))
            },
            Err(error) => {
                &&& least_of(primes_from) > end_of(primes_until)
                &&& error == (PrimesError::MinimumAboveMaximum {
                    min: least_of(primes_from),
                    max: end_of(primes_until),
                })
            },
        },
{
    let min: usize = match primes_from {
        Some(least) => least,
        None => 0,
    };
    let max: usize = match primes_until {
        Some(end) => end,
        None => DEFAULT_PRIMES_TILL,
    };
    if min > max {
        return Err(PrimesError::MinimumAboveMaximum { min, max });
    }
    Ok(prime_sieve(primes_from, max))
}

/// The primes up to and including `upper_bound`, unless that lies beyond
/// [`MAX_PRIME_TILL`].
pub fn primes_within_limit(upper_bound: usize) -> (found: Option<Vec<usize>>)
    requires
        1 <= upper_bound,
    ensures
        match found {
            Some(found) => upper_bound <= MAX_PRIME_TILL && primes_between(found@, 0, upper_bound),
            None => upper_bound > MAX_PRIME_TILL,
        },
{
    if upper_bound <= MAX_PRIME_TILL {
        Some(prime_sieve(None, upper_bound))
    } else {
        None
    }
}

} // verus!

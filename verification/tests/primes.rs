use progress_tracker::primes::{
    prime_sieve, primes_in_range, primes_within_limit, PrimesError, DEFAULT_PRIMES_TILL,
    MAX_PRIME_TILL,
};

#[test]
fn primes_up_to_thirty() {
    assert_eq!(prime_sieve(None, 30), vec![2, 3, 5, 7, 11, 13, 17, 19, 23, 29]);
}

#[test]
fn primes_from_a_minimum() {
    assert_eq!(prime_sieve(Some(10), 30), vec![11, 13, 17, 19, 23, 29]);
    assert_eq!(prime_sieve(Some(11), 29), vec![11, 13, 17, 19, 23, 29]);
    assert_eq!(prime_sieve(Some(0), 10), vec![2, 3, 5, 7]);
    assert_eq!(prime_sieve(Some(24), 28), Vec::<usize>::new());
}

#[test]
fn primes_of_the_smallest_ranges() {
    assert_eq!(prime_sieve(None, 1), Vec::<usize>::new());
    assert_eq!(prime_sieve(None, 2), vec![2]);
    assert_eq!(prime_sieve(None, 3), vec![2, 3]);
    assert_eq!(prime_sieve(None, 4), vec![2, 3]);
    assert_eq!(prime_sieve(Some(2), 2), vec![2]);
}

#[test]
fn primes_with_a_minimum_beyond_the_maximum() {
    assert_eq!(prime_sieve(Some(31), 30), Vec::<usize>::new());
    assert_eq!(prime_sieve(Some(32), 30), Vec::<usize>::new());
    assert_eq!(prime_sieve(Some(usize::MAX), 30), Vec::<usize>::new());
}

#[test]
fn squares_of_primes_are_sieved_out() {
    let found = prime_sieve(None, 121);
    for square in [4, 9, 25, 49, 121] {
        assert!(!found.contains(&square));
    }
    assert_eq!(found.last(), Some(&113));
}

#[test]
fn number_of_primes_up_to_the_default_bound() {
    assert_eq!(prime_sieve(None, 100).len(), 25);
    assert_eq!(prime_sieve(None, 10_000).len(), 1229);
    assert_eq!(prime_sieve(None, 12_345).len(), 1474);
    assert_eq!(prime_sieve(Some(10_000), 12_345).len(), 1474 - 1229);
}

#[test]
fn primes_agree_with_trial_division() {
    let found = prime_sieve(None, 2_000);
    let expected: Vec<usize> =
        (2..=2_000usize).filter(|n| (2..*n).all(|d| n % d != 0)).collect();
    assert_eq!(found, expected);
}

#[test]
fn range_with_open_ends_uses_the_defaults() {
    assert_eq!(DEFAULT_PRIMES_TILL, 12_345);
    assert_eq!(primes_in_range(None, None).map(|found| found.len()), Ok(1474));
    assert_eq!(primes_in_range(None, Some(10)), Ok(vec![2, 3, 5, 7]));
    assert_eq!(primes_in_range(Some(5), Some(10)), Ok(vec![5, 7]));
    assert_eq!(
        primes_in_range(Some(12_340), None),
        Ok(vec![12_343])
    );
}

#[test]
fn range_that_starts_beyond_its_end_is_refused() {
    assert_eq!(
        primes_in_range(Some(11), Some(10)),
        Err(PrimesError::MinimumAboveMaximum { min: 11, max: 10 })
    );
    assert_eq!(
        primes_in_range(Some(12_346), None),
        Err(PrimesError::MinimumAboveMaximum { min: 12_346, max: 12_345 })
    );
    assert_eq!(
        primes_in_range(Some(1), Some(0)),
        Err(PrimesError::MinimumAboveMaximum { min: 1, max: 0 })
    );
    assert_eq!(primes_in_range(Some(10), Some(10)), Ok(vec![]));
}

#[test]
fn bounds_beyond_the_limit_are_not_sieved() {
    assert_eq!(MAX_PRIME_TILL, 10_000_000);
    assert_eq!(primes_within_limit(127).map(|found| found.len()), Some(31));
    assert_eq!(primes_within_limit(255).map(|found| found.len()), Some(54));
    assert_eq!(primes_within_limit(65_535).map(|found| found.len()), Some(6542));
    assert_eq!(primes_within_limit(10_000_001), None);
    assert_eq!(primes_within_limit(4_294_967_295), None);
    assert_eq!(primes_within_limit(usize::MAX), None);
}

use dstest::random::{WorkloadRng, NO_SEED};

#[test]
fn draws_need_a_seed() {
    let mut r = WorkloadRng::new();
    assert_eq!(r.int_between(1, 5).unwrap_err(), NO_SEED);
    assert_eq!(r.choice_index(3).unwrap_err(), NO_SEED);
    assert_eq!(r.shuffle_swaps(3).unwrap_err(), NO_SEED);
    assert!(r.rng_mut().is_none());
    assert_eq!(r.choice_index(0), Ok(None));
    assert_eq!(r.shuffle_swaps(1), Ok(vec![]));
    assert_eq!(
        NO_SEED,
        "dstest.random requires a seed: call dstest.config({ seed = n }) first"
    );
}

#[test]
fn seeded_draws_are_in_range_and_reproducible() {
    let mut a = WorkloadRng::new();
    let mut b = WorkloadRng::new();
    a.reseed(42);
    b.reseed(42);
    for _ in 0..100 {
        let x = a.int_between(-3, 4).unwrap();
        assert!((-3..4).contains(&x));
        assert_eq!(x, b.int_between(-3, 4).unwrap());
        let i = a.choice_index(5).unwrap().unwrap();
        assert!((1..=5).contains(&i));
        assert_eq!(Some(i), b.choice_index(5).unwrap());
    }
    assert!(a.rng_mut().is_some());
}

#[test]
fn shuffle_swaps_walk_down_from_the_last_but_one() {
    let mut r = WorkloadRng::new();
    r.reseed(7);
    let swaps = r.shuffle_swaps(5).unwrap();
    assert_eq!(swaps.len(), 4);
    for (k, (i, j)) in swaps.iter().enumerate() {
        assert_eq!(*i, 4 - k);
        assert!(1 <= *j && *j <= *i);
    }
}

#[test]
fn reseeding_restarts_the_stream() {
    let mut a = WorkloadRng::new();
    a.reseed(42);
    let first: Vec<i64> = (0..10).map(|_| a.int_between(0, 1_000_000).unwrap()).collect();
    a.reseed(42);
    let again: Vec<i64> = (0..10).map(|_| a.int_between(0, 1_000_000).unwrap()).collect();
    assert_eq!(first, again);
    a.reseed(43);
    let other: Vec<i64> = (0..10).map(|_| a.int_between(0, 1_000_000).unwrap()).collect();
    assert_ne!(first, other);
}

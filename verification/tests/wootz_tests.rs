use mocasa::wootz::{SkipStats, WootzStats, N_PER_SNAPSHOT_INITIAL, N_SNAPSHOTS_MAX};

/// Moments that are exact: the sum of the values.
fn add_values(wootz: &mut WootzStats<i64>, from: i64, n: usize) -> bool {
    let mut overfull = false;
    for i in 0..n {
        assert!(wootz.is_settled());
        let sum = wootz.stats().moments + from + i as i64;
        overfull = wootz.add(sum);
    }
    overfull
}

#[test]
fn fresh_statistic_stands_for_its_two_seeds() {
    let wootz = WootzStats::new(7.5f64);
    assert_eq!(N_PER_SNAPSHOT_INITIAL, 10);
    assert_eq!(N_SNAPSHOTS_MAX, 10);
    assert_eq!(wootz.n(), 2);
    assert_eq!(wootz.stats().moments, 7.5);
    assert_eq!(wootz.n_snapshots(), 0);
    assert_eq!(wootz.n_per_snapshot(), 10);
    assert_eq!(wootz.burnedness(), 0);
    assert!(wootz.is_settled());
    assert!(wootz.snapshot(0).is_none());
}

#[test]
fn snapshot_is_taken_every_tenth_value() {
    let mut wootz = WootzStats::new(0i64);
    assert!(!add_values(&mut wootz, 1, 7));
    assert_eq!(wootz.n(), 9);
    assert_eq!(wootz.n_snapshots(), 0);
    assert!(!wootz.add(100));
    assert_eq!(wootz.n(), 10);
    assert_eq!(wootz.n_snapshots(), 1);
    let snapshot = wootz.snapshot(0).unwrap();
    assert_eq!(snapshot.n, 10);
    assert_eq!(snapshot.moments, 100);
    assert!(!add_values(&mut wootz, 0, 10));
    assert_eq!(wootz.n_snapshots(), 2);
    assert_eq!(wootz.snapshot(1).unwrap().n, 20);
}

#[test]
fn eleventh_snapshot_is_over_the_limit() {
    let mut wootz = WootzStats::new(0i64);
    assert!(!add_values(&mut wootz, 0, 107));
    assert_eq!(wootz.n(), 109);
    assert_eq!(wootz.n_snapshots(), 10);
    assert!(wootz.add(0));
    assert_eq!(wootz.n_snapshots(), 11);
    assert!(!wootz.is_settled());
}

#[test]
fn fold_keeps_the_statistic_and_every_other_snapshot() {
    let mut wootz = WootzStats::new(0i64);
    assert!(add_values(&mut wootz, 1, 108));
    let stats_before = wootz.stats();
    let kept: Vec<SkipStats<i64>> =
        (0..5).map(|j| wootz.snapshot(2 * j + 1).unwrap()).collect();
    wootz.fold();
    assert!(wootz.is_settled());
    assert_eq!(wootz.stats().n, stats_before.n);
    assert_eq!(wootz.stats().moments, stats_before.moments);
    assert_eq!(wootz.n(), 110);
    assert_eq!(wootz.n_snapshots(), 5);
    assert_eq!(wootz.n_per_snapshot(), 20);
    assert_eq!(wootz.burnedness(), 1);
    for j in 0..5 {
        let snapshot = wootz.snapshot(j).unwrap();
        assert_eq!(snapshot.n, 20 * (j + 1));
        assert_eq!(snapshot.n, kept[j].n);
        assert_eq!(snapshot.moments, kept[j].moments);
    }
    assert!(!add_values(&mut wootz, 0, 9));
    assert_eq!(wootz.n_snapshots(), 5);
    assert!(!wootz.add(0));
    assert_eq!(wootz.n(), 120);
    assert_eq!(wootz.n_snapshots(), 6);
    assert_eq!(wootz.snapshot(5).unwrap().n, 120);
}

#[test]
fn truncate_takes_the_oldest_snapshot_out() {
    let mut wootz = WootzStats::new(3i64);
    assert!(add_values(&mut wootz, 1, 108));
    let total = wootz.stats().moments;
    let oldest = wootz.snapshot(0).unwrap();
    let second = wootz.snapshot(1).unwrap();
    assert_eq!(oldest.n, 10);
    assert_eq!(oldest.moments, 3 + (1..=8).sum::<i64>());
    wootz.truncate(&|later: SkipStats<i64>, oldest: SkipStats<i64>| later.moments - oldest.moments);
    assert!(wootz.is_settled());
    assert_eq!(wootz.n(), 100);
    assert_eq!(wootz.stats().moments, total - oldest.moments);
    assert_eq!(wootz.stats().moments, (9..=108).sum::<i64>());
    assert_eq!(wootz.n_snapshots(), 10);
    assert_eq!(wootz.n_per_snapshot(), 10);
    assert_eq!(wootz.burnedness(), 0);
    let first = wootz.snapshot(0).unwrap();
    assert_eq!(first.n, 10);
    assert_eq!(first.moments, second.moments - oldest.moments);
    assert_eq!(wootz.snapshot(9).unwrap().n, 100);
    assert_eq!(wootz.snapshot(9).unwrap().moments, wootz.stats().moments);
}

#[test]
fn truncate_after_folds_resets_the_count_of_folds() {
    let mut wootz = WootzStats::new(0i64);
    assert!(add_values(&mut wootz, 0, 108));
    wootz.fold();
    let mut overfull = false;
    while !overfull {
        overfull = wootz.add(0);
    }
    assert_eq!(wootz.n(), 220);
    wootz.fold();
    assert_eq!(wootz.burnedness(), 2);
    assert_eq!(wootz.n_per_snapshot(), 40);
    let mut overfull = false;
    while !overfull {
        overfull = wootz.add(0);
    }
    assert_eq!(wootz.n(), 440);
    wootz.truncate(&|later: SkipStats<i64>, oldest: SkipStats<i64>| later.moments - oldest.moments);
    assert_eq!(wootz.burnedness(), 0);
    assert_eq!(wootz.n(), 400);
    assert_eq!(wootz.n_per_snapshot(), 40);
    assert_eq!(wootz.n_snapshots(), 10);
}

#[test]
fn snapshots_never_stay_over_the_limit() {
    let mut wootz = WootzStats::new(0i64);
    for i in 0..5000i64 {
        let overfull = wootz.add(wootz.stats().moments + i);
        if overfull {
            if i % 3 == 0 {
                wootz.truncate(&|later: SkipStats<i64>, oldest: SkipStats<i64>| {
                    later.moments - oldest.moments
                });
            } else {
                wootz.fold();
            }
        }
        assert!(wootz.n_snapshots() <= N_SNAPSHOTS_MAX);
        for j in 0..wootz.n_snapshots() {
            assert_eq!(wootz.snapshot(j).unwrap().n, (j + 1) * wootz.n_per_snapshot());
        }
    }
}

#[test]
fn squash_starts_the_series_again() {
    let mut wootz = WootzStats::new(0i64);
    assert!(add_values(&mut wootz, 0, 108));
    wootz.fold();
    wootz.squash(17);
    assert_eq!(wootz.n(), 2);
    assert_eq!(wootz.stats().moments, 17);
    assert_eq!(wootz.n_snapshots(), 0);
    assert_eq!(wootz.n_per_snapshot(), 10);
    assert_eq!(wootz.burnedness(), 1);
}

fn minus(later: SkipStats<i64>, oldest: SkipStats<i64>) -> i64 {
    later.moments - oldest.moments
}

#[test]
fn settled_series_is_truncated_and_drifting_series_folded() {
    let always = |_: SkipStats<i64>, _: SkipStats<i64>, _: SkipStats<i64>, _: SkipStats<i64>| true;
    let never = |_: SkipStats<i64>, _: SkipStats<i64>, _: SkipStats<i64>, _: SkipStats<i64>| false;
    let mut wootz = WootzStats::new(0i64);
    for i in 0..108i64 {
        wootz.add_and_settle(wootz.stats().moments + i, &always, &minus);
        assert!(wootz.is_settled());
    }
    assert_eq!(wootz.n(), 100);
    assert_eq!(wootz.n_snapshots(), 10);
    assert_eq!(wootz.n_per_snapshot(), 10);
    assert_eq!(wootz.stats().moments, (8..108).sum::<i64>());
    let mut wootz = WootzStats::new(0i64);
    for i in 0..108i64 {
        wootz.add_and_settle(wootz.stats().moments + i, &never, &minus);
        assert!(wootz.is_settled());
    }
    assert_eq!(wootz.n(), 110);
    assert_eq!(wootz.n_snapshots(), 5);
    assert_eq!(wootz.n_per_snapshot(), 20);
    assert_eq!(wootz.burnedness(), 1);
    assert_eq!(wootz.stats().moments, (0..108).sum::<i64>());
}

#[test]
fn one_stretch_that_is_not_nearer_is_enough_to_fold() {
    let seen = std::cell::Cell::new(0usize);
    let all_but_one =
        |first: SkipStats<i64>, earlier: SkipStats<i64>, later: SkipStats<i64>, running: SkipStats<i64>| {
            assert_eq!(first.n, 10);
            assert_eq!(later.n, earlier.n + 10);
            assert_eq!(running.n, 110);
            seen.set(seen.get() + 1);
            earlier.n != 70
        };
    let mut wootz = WootzStats::new(0i64);
    for _ in 0..108 {
        wootz.add_and_settle(0, &all_but_one, &minus);
    }
    assert_eq!(seen.get(), 10);
    assert_eq!(wootz.n(), 110);
    assert_eq!(wootz.n_snapshots(), 5);
    assert_eq!(wootz.burnedness(), 1);
}

use polymarket_monitor::history::{isqrt, return_from, MidHistory, MidSample, MID_LIMIT};

const MID: i128 = 1_000_000_000; // one whole in mid units

fn history(samples: &[(i64, i128)]) -> MidHistory {
    let mut h = MidHistory::new();
    for (t, m) in samples {
        h.record(*t, *m);
    }
    h
}

#[test]
fn returns_need_two_samples() {
    let h = MidHistory::new();
    assert_eq!(h.return_over(1000, 10_000), None);
    let h = history(&[(10_000, 100 * MID)]);
    assert_eq!(h.return_over(1000, 10_000), None);
    assert_eq!(h.return_over(1_000_000, 10_000), None);
}

#[test]
fn return_is_taken_from_the_oldest_sample_in_the_window() {
    let h = history(&[(1_000, 100 * MID), (2_000, 110 * MID), (3_000, 121 * MID)]);
    // window [2000, ..]: from 110 to 121 is +10%
    assert_eq!(h.return_over(1_000, 3_000), Some(10_000_000));
    // window [1000, ..]: from 100 to 121 is +21%
    assert_eq!(h.return_over(2_000, 3_000), Some(21_000_000));
    // window that holds only the newest sample: no move
    assert_eq!(h.return_over(0, 3_000), Some(0));
    // window beyond the newest sample: nothing inside
    assert_eq!(h.return_over(1_000, 5_000), None);
}

#[test]
fn return_of_a_fall_is_negative() {
    let h = history(&[(1_000, 200 * MID), (2_000, 150 * MID)]);
    assert_eq!(h.return_over(5_000, 2_000), Some(-25_000_000));
}

#[test]
fn return_sign_follows_the_move_however_small() {
    // a move of one mid unit on a price of a hundred thousand
    let base = 100_000 * MID;
    assert_eq!(return_from(base, base + 1), 1);
    assert_eq!(return_from(base, base - 1), -1);
    assert_eq!(return_from(base, base), 0);
    let h = history(&[(1, base), (2, base + 1)]);
    assert_eq!(h.return_over(10, 2), Some(1));
}

#[test]
fn return_rounds_away_from_zero() {
    // 1/3 = 0.33333333|3.. rounds up in magnitude
    assert_eq!(return_from(3, 4), 33_333_334);
    assert_eq!(return_from(3, 2), -33_333_334);
    // exact quotients are not moved
    assert_eq!(return_from(4, 5), 25_000_000);
    assert_eq!(return_from(1000, 1015), 1_500_000);
    // a negative base flips the sign, as the quotient does
    assert_eq!(return_from(-4, -5), 25_000_000);
    assert_eq!(return_from(-4, -3), -25_000_000);
}

#[test]
fn return_of_extreme_mids_fits() {
    let r = return_from(1, MID_LIMIT);
    assert_eq!(r, (MID_LIMIT - 1) * 100_000_000);
    let r = return_from(-MID_LIMIT, MID_LIMIT);
    assert_eq!(r, -200_000_000);
}

#[test]
fn return_from_a_zero_mid_is_undefined() {
    let h = history(&[(1_000, 0), (2_000, 5 * MID)]);
    assert_eq!(h.return_over(5_000, 2_000), None);
}

#[test]
fn samples_older_than_a_minute_are_evicted() {
    let mut h = history(&[(0, MID), (30_000, 2 * MID), (60_000, 3 * MID)]);
    // the sample at 0 is exactly a minute old: it stays
    assert_eq!(h.len(), 3);
    h.record(60_001, 4 * MID);
    assert_eq!(
        h.to_vec(),
        vec![
            MidSample { t_ms: 30_000, mid: 2 * MID },
            MidSample { t_ms: 60_000, mid: 3 * MID },
            MidSample { t_ms: 60_001, mid: 4 * MID }
        ]
    );
    h.record(200_000, 5 * MID);
    assert_eq!(h.to_vec(), vec![MidSample { t_ms: 200_000, mid: 5 * MID }]);
    assert_eq!(h.latest(), Some(MidSample { t_ms: 200_000, mid: 5 * MID }));
}

#[test]
fn timestamps_never_go_back() {
    let h = history(&[(5_000, MID), (4_000, 2 * MID), (4_500, 3 * MID), (6_000, 4 * MID)]);
    let times: Vec<i64> = h.to_vec().iter().map(|s| s.t_ms).collect();
    assert_eq!(times, vec![5_000, 5_000, 5_000, 6_000]);
}

#[test]
fn std_dev_needs_two_samples_in_the_window() {
    let h = MidHistory::new();
    assert_eq!(h.std_dev(1000, 0), None);
    let h = history(&[(1_000, MID)]);
    assert_eq!(h.std_dev(10_000, 1_000), None);
    let h = history(&[(1_000, MID), (5_000, 2 * MID)]);
    assert_eq!(h.std_dev(1_000, 5_000), None);
    assert!(h.std_dev(4_000, 5_000).is_some());
}

#[test]
fn std_dev_of_equal_samples_is_zero() {
    let h = history(&[(1, 7 * MID), (2, 7 * MID), (3, 7 * MID)]);
    assert_eq!(h.std_dev(100, 3), Some(0));
    let h = history(&[(1, -MID_LIMIT), (2, -MID_LIMIT)]);
    assert_eq!(h.std_dev(100, 2), Some(0));
}

#[test]
fn std_dev_is_the_sample_standard_deviation_rounded_down() {
    // 2, 4, 4, 4, 5, 5, 7, 9: sum of squared deviations 32, variance 32/7
    let values = [2, 4, 4, 4, 5, 5, 7, 9];
    let samples: Vec<(i64, i128)> =
        values.iter().enumerate().map(|(i, v)| (i as i64, *v as i128 * MID)).collect();
    let h = history(&samples);
    // sqrt(32/7) = 2.138089935...
    assert_eq!(h.std_dev(100, 7), Some(2_138_089_935));
    // two samples: |a - b| / sqrt(2)
    let h = history(&[(1, 100 * MID), (2, 102 * MID)]);
    assert_eq!(h.std_dev(100, 2), Some(1_414_213_562));
    // shifting every sample leaves it as it is
    let h = history(&[(1, -1 * MID), (2, MID)]);
    assert_eq!(h.std_dev(100, 2), Some(1_414_213_562));
}

#[test]
fn std_dev_counts_only_the_window() {
    let h = history(&[(1_000, 500 * MID), (2_000, 100 * MID), (3_000, 102 * MID)]);
    assert_eq!(h.std_dev(1_000, 3_000), Some(1_414_213_562));
}

#[test]
fn std_dev_gives_up_where_sums_do_not_fit() {
    let h = history(&[(1, -MID_LIMIT), (2, MID_LIMIT)]);
    assert_eq!(h.std_dev(100, 2), None);
}

#[test]
fn integer_square_root() {
    assert_eq!(isqrt(0), 0);
    assert_eq!(isqrt(1), 1);
    assert_eq!(isqrt(3), 1);
    assert_eq!(isqrt(4), 2);
    assert_eq!(isqrt(99), 9);
    assert_eq!(isqrt(100), 10);
    assert_eq!(isqrt(u128::MAX), u64::MAX);
    assert_eq!(isqrt(1 << 126), 1 << 63);
}

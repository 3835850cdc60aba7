use utensil::learning::{
    charge_point_update, learning_file_text, learning_listing, parse_learning_points,
    random_learning_points, record_point, smooth_trimmed_threshold, sort_points, threshold_file_text,
    threshold_from_text,
};

#[test]
fn threshold_is_trimmed_and_smoothed() {
    let points = [15, 25, 26, 27, 28, 90];
    assert_eq!(smooth_trimmed_threshold(&points, 25, 25, 60), 26);
}

#[test]
fn smoothing_stays_within_bounds() {
    assert_eq!(smooth_trimmed_threshold(&[100, 100, 100, 100], 60, 25, 60), 60);
    assert_eq!(smooth_trimmed_threshold(&[0, 0, 0, 0], 25, 25, 60), 25);
    assert_eq!(smooth_trimmed_threshold(&[], 40, 25, 60), 40);
}

#[test]
fn smoothing_an_unchanged_history_keeps_the_threshold() {
    assert_eq!(smooth_trimmed_threshold(&[30, 30, 30, 30, 30], 30, 25, 60), 30);
}

#[test]
fn learning_file_round_trips() {
    let points = vec![15, 44, 100, 0];
    let text = learning_file_text(&points);
    assert_eq!(text, "15\n44\n100\n0\n");
    assert_eq!(parse_learning_points(&text), points);
}

#[test]
fn learning_file_skips_bad_lines() {
    assert_eq!(parse_learning_points(" 10 \nx\n101\n\n20"), vec![10, 20]);
}

#[test]
fn threshold_file_round_trips() {
    assert_eq!(threshold_file_text(33), "33\n");
    assert_eq!(threshold_from_text(Some("33\n"), 25), 33);
    assert_eq!(threshold_from_text(Some("101"), 25), 25);
    assert_eq!(threshold_from_text(Some("junk"), 25), 25);
    assert_eq!(threshold_from_text(None, 25), 25);
}

#[test]
fn sorting_orders_points() {
    assert_eq!(sort_points(&[5, 1, 4, 1, 3]), vec![1, 1, 3, 4, 5]);
}

#[test]
fn charge_points_wait_for_enough_samples() {
    let u = charge_point_update(vec![30, 31], Some("40\n"), 32, 5, 25, 25, 60);
    assert_eq!(u.points, vec![30, 31, 32]);
    assert_eq!(u.threshold, 40);
    assert!(!u.write_threshold);
}

#[test]
fn charge_points_adapt_and_cap_the_history() {
    let u = charge_point_update(vec![10, 20, 30, 40], None, 50, 5, 4, 25, 60);
    assert_eq!(u.points, vec![20, 30, 40, 50]);
    assert_eq!(u.threshold, 25);
    assert!(!u.write_threshold);
}

#[test]
fn charge_points_smooth_after_min_points() {
    let u = charge_point_update(vec![30, 30, 30, 30], None, 30, 5, 25, 25, 60);
    assert_eq!(u.points.len(), 5);
    assert_eq!(u.threshold, 27);
    assert!(u.write_threshold);
}

#[test]
fn threshold_is_written_even_when_it_equals_the_minimum() {
    let u = charge_point_update(vec![30, 30, 30, 30], None, 30, 5, 25, 40, 40);
    assert_eq!(u.threshold, 40);
    assert!(u.write_threshold);
    let same = charge_point_update(vec![30, 30, 30, 30], Some("30\n"), 30, 5, 25, 25, 60);
    assert_eq!(same.threshold, 30);
    assert!(same.write_threshold);
}

#[test]
fn random_learning_draws_from_the_seed() {
    let points = random_learning_points(0);
    assert_eq!(
        points,
        vec![15, 44, 26, 37, 40, 27, 39, 15, 27, 43, 34, 26, 22, 18, 28, 23, 40, 45, 45, 44, 23, 16, 34, 35, 43]
    );
    for seed in [1u64, 42, 0x5eed, u64::MAX] {
        let points = random_learning_points(seed);
        assert_eq!(points.len(), 25);
        assert!(points.iter().all(|p| (15..=50).contains(p)));
    }
}

#[test]
fn learning_listing_numbers_lines() {
    assert_eq!(learning_listing("10\n20\n"), "line 1: 10\nline 2: 20\n");
    assert_eq!(learning_listing(""), "");
}

#[test]
fn smoothing_moves_toward_the_history() {
    // window mean 60, old 25: (180 + 175 + 5) / 10 = 36
    assert_eq!(smooth_trimmed_threshold(&[60, 60, 60, 60], 25, 0, 100), 36);
    // window mean 10, old 50: (30 + 350 + 5) / 10 = 38
    assert_eq!(smooth_trimmed_threshold(&[10, 10, 10], 50, 0, 100), 38);
}

#[test]
fn one_outlier_does_not_move_the_threshold() {
    let points = [20, 30, 30, 40, 50];
    let base = smooth_trimmed_threshold(&points, 40, 25, 60);
    assert_eq!(smooth_trimmed_threshold(&[20, 30, 30, 40, 99], 40, 25, 60), base);
    assert_eq!(smooth_trimmed_threshold(&[0, 30, 30, 40, 50], 40, 25, 60), base);
    assert_eq!(base, 38);
}

#[test]
fn recording_keeps_the_newest_points() {
    assert_eq!(record_point(vec![1, 2, 3], 4, 3), vec![2, 3, 4]);
    assert_eq!(record_point(vec![], 7, 5), vec![7]);
}

use chart_core::ticks::{log_ticks, minor_ticks_linear, minor_ticks_log, nice_step, nice_ticks};

#[test]
fn nice_ticks_zero_to_hundred_by_five() {
    let ticks = nice_ticks(0, 100, 5);
    assert_eq!(ticks, vec![0, 20, 40, 60, 80, 100]);
    let step = ticks[1] - ticks[0];
    assert!([10, 20, 25, 50].contains(&step));
    assert!(2 * ticks.len() >= 5 && ticks.len() <= 10);
}

#[test]
fn nice_ticks_start_at_first_multiple_inside() {
    assert_eq!(nice_ticks(-7, 23, 4), vec![0, 10, 20]);
    assert_eq!(nice_ticks(-25, -3, 4), vec![-20, -10]);
    assert_eq!(nice_ticks(3, 47, 8), vec![10, 20, 30, 40]);
    assert_eq!(nice_ticks(-10, 10, 4), vec![-10, -5, 0, 5, 10]);
}

#[test]
fn nice_ticks_degenerate_inputs() {
    assert_eq!(nice_ticks(0, 100, 0), Vec::<i64>::new());
    assert_eq!(nice_ticks(0, 100, 1), Vec::<i64>::new());
    assert_eq!(nice_ticks(42, 42, 5), Vec::<i64>::new());
    assert_eq!(nice_ticks(100, 0, 5), Vec::<i64>::new());
}

#[test]
fn nice_ticks_on_a_fine_range_step_by_one() {
    assert_eq!(nice_ticks(0, 3, 8), vec![0, 1, 2, 3]);
}

#[test]
fn nice_ticks_are_bounded_by_four_times_target() {
    // Span 3 with 8 wanted ticks steps by one: never more than 32 ticks.
    for target in 2..40usize {
        for max in [1i64, 9, 10, 99, 1000, 12345] {
            let ticks = nice_ticks(-max, max, target);
            assert!(ticks.len() <= 4 * target);
            assert!(ticks.iter().all(|t| -max <= *t && *t <= max));
        }
    }
}

#[test]
fn nice_ticks_over_the_full_range() {
    let ticks = nice_ticks(i64::MIN, i64::MAX, 4);
    assert_eq!(ticks, vec![-5_000_000_000_000_000_000, 0, 5_000_000_000_000_000_000]);
}

#[test]
fn nice_step_follows_the_ladder() {
    assert_eq!(nice_step(100, 5), 20);
    assert_eq!(nice_step(100, 10), 10);
    assert_eq!(nice_step(100, 4), 50);
    assert_eq!(nice_step(100, 8), 20);
    assert_eq!(nice_step(21, 2), 20);
    assert_eq!(nice_step(20, 2), 10);
    assert_eq!(nice_step(600, 10), 100);
    assert_eq!(nice_step(3, 8), 1);
    assert_eq!(nice_step(0, 8), 1);
}

#[test]
fn nice_step_is_at_least_the_raw_step() {
    for span in [1u64, 7, 10, 99, 100, 101, 12345, 999_999, u64::MAX] {
        for target in [1usize, 2, 3, 5, 8, 13, 100] {
            let step = nice_step(span, target);
            assert!(step * target as u128 >= span as u128);
            if span >= target as u64 {
                assert!(2 * step * (target as u128) < 5 * span as u128);
            }
        }
    }
}

#[test]
fn minor_ticks_linear_fill_every_gap() {
    assert_eq!(minor_ticks_linear(&[0, 10, 20], 1), vec![5, 15]);
    assert_eq!(minor_ticks_linear(&[0, 10], 4), vec![2, 4, 6, 8]);
    assert_eq!(minor_ticks_linear(&[0, 10, 30], 3), vec![2, 5, 7, 15, 20, 25]);
    assert_eq!(minor_ticks_linear(&[10, 0], 4), vec![8, 6, 4, 2]);
}

#[test]
fn minor_ticks_linear_degenerate_inputs() {
    assert_eq!(minor_ticks_linear(&[], 3), Vec::<i64>::new());
    assert_eq!(minor_ticks_linear(&[5], 3), Vec::<i64>::new());
    assert_eq!(minor_ticks_linear(&[0, 10], 0), Vec::<i64>::new());
}

#[test]
fn log_ticks_one_per_decade() {
    assert_eq!(log_ticks(5, 5000, 6), vec![1, 10, 100, 1000, 10_000]);
    assert_eq!(log_ticks(100, 1000, 6), vec![100, 1000]);
    assert_eq!(log_ticks(1, 1, 6), vec![1]);
    assert_eq!(log_ticks(7, 8, 2), vec![1, 10]);
}

#[test]
fn log_ticks_degenerate_inputs() {
    assert_eq!(log_ticks(0, 1000, 6), Vec::<i64>::new());
    assert_eq!(log_ticks(-5, 1000, 6), Vec::<i64>::new());
    assert_eq!(log_ticks(5, 1000, 1), Vec::<i64>::new());
    assert_eq!(log_ticks(5, 0, 6), Vec::<i64>::new());
    assert_eq!(log_ticks(5, -3, 6), Vec::<i64>::new());
}

#[test]
fn log_ticks_stop_at_the_last_decade_of_the_range() {
    let ticks = log_ticks(1, i64::MAX, 6);
    assert_eq!(ticks.len(), 19);
    assert_eq!(ticks[18], 1_000_000_000_000_000_000);
}

#[test]
fn minor_ticks_log_are_mantissa_multiples() {
    assert_eq!(minor_ticks_log(5, 50), vec![5, 6, 7, 8, 9, 20, 30, 40, 50]);
    assert_eq!(minor_ticks_log(1, 10), vec![2, 3, 4, 5, 6, 7, 8, 9]);
    assert_eq!(minor_ticks_log(10, 19), Vec::<i64>::new());
}

#[test]
fn minor_ticks_log_degenerate_inputs() {
    assert_eq!(minor_ticks_log(0, 50), Vec::<i64>::new());
    assert_eq!(minor_ticks_log(-3, 50), Vec::<i64>::new());
    assert_eq!(minor_ticks_log(50, 5), Vec::<i64>::new());
}

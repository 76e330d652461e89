use chart_core::downsample::{aggregate_ohlc_buckets, lttb};
use chart_core::series::{Candle, Series, SeriesType};

fn quadratic() -> Vec<(i64, i64)> {
    vec![(0, 0), (1, 1), (2, 4), (3, 9), (4, 16), (5, 25)]
}

fn candle(t: i64, o: i64, h: i64, l: i64, c: i64) -> Candle {
    Candle::try_new(t, o, h, l, c).unwrap()
}

#[test]
fn lttb_quadratic_keeps_ends() {
    let out = lttb(&quadratic(), 4);
    assert_eq!(out.len(), 4);
    assert_eq!(out[0], (0, 0));
    assert_eq!(out[3], (5, 25));
}

#[test]
fn lttb_quadratic_picks_largest_triangles() {
    // Bucket one holds (1,1) and (2,4); (2,4) spans the larger triangle.
    // Bucket two holds (3,9) and (4,16) with equal areas; the first wins.
    assert_eq!(lttb(&quadratic(), 4), vec![(0, 0), (2, 4), (3, 9), (5, 25)]);
}

#[test]
fn lttb_zero_threshold_is_empty() {
    assert_eq!(lttb(&quadratic(), 0), Vec::<(i64, i64)>::new());
}

#[test]
fn lttb_empty_input_is_empty() {
    assert_eq!(lttb(&[], 5), Vec::<(i64, i64)>::new());
}

#[test]
fn lttb_threshold_at_or_above_len_copies() {
    assert_eq!(lttb(&quadratic(), 6), quadratic());
    assert_eq!(lttb(&quadratic(), 100), quadratic());
}

#[test]
fn lttb_two_points_copy() {
    let pts = vec![(1, 2), (3, 4)];
    assert_eq!(lttb(&pts, 1), pts);
}

#[test]
fn lttb_threshold_one_is_first_point() {
    assert_eq!(lttb(&quadratic(), 1), vec![(0, 0)]);
}

#[test]
fn lttb_threshold_two_is_first_and_last() {
    assert_eq!(lttb(&quadratic(), 2), vec![(0, 0), (5, 25)]);
}

#[test]
fn lttb_length_is_min_of_len_and_threshold() {
    let pts: Vec<(i64, i64)> = (0..200).map(|i| (i, (i * 37) % 101 - 50)).collect();
    for t in 2..260usize {
        let out = lttb(&pts, t);
        assert_eq!(out.len(), t.min(pts.len()));
        assert_eq!(out[0], pts[0]);
        assert_eq!(out[out.len() - 1], pts[pts.len() - 1]);
    }
}

#[test]
fn lttb_output_keeps_input_order() {
    let pts: Vec<(i64, i64)> = (0..500).map(|i| (i, (i * i) % 97)).collect();
    let out = lttb(&pts, 40);
    for w in out.windows(2) {
        assert!(w[0].0 < w[1].0);
    }
}

#[test]
fn lttb_spike_survives() {
    let mut pts: Vec<(i64, i64)> = (0..100).map(|i| (i, 0)).collect();
    pts[57].1 = 1_000;
    let out = lttb(&pts, 12);
    assert!(out.contains(&(57, 1_000)));
}

#[test]
fn lttb_at_the_ends_of_the_number_range() {
    let (lo, hi) = (i64::MIN, i64::MAX);
    // One bucket of two candidates; the next bucket is the last point. With
    // the first and last point on one level, the area grows with the height
    // above the first point: 2^64 - 1 against 2^63.
    assert_eq!(lttb(&[(lo, lo), (0, hi), (1, 0), (hi, lo)], 3), vec![(lo, lo), (0, hi), (hi, lo)]);
    assert_eq!(lttb(&[(lo, lo), (0, 0), (1, hi), (hi, lo)], 3), vec![(lo, lo), (1, hi), (hi, lo)]);
    // With the first and last point on the diagonal, the area grows with
    // the distance from the diagonal: 5 against 7.
    assert_eq!(lttb(&[(lo, lo), (0, 5), (0, -7), (hi, hi)], 3), vec![(lo, lo), (0, -7), (hi, hi)]);
    // Equal areas: the first candidate is kept.
    assert_eq!(lttb(&[(lo, lo), (0, 7), (0, -7), (hi, hi)], 3), vec![(lo, lo), (0, 7), (hi, hi)]);
    assert_eq!(lttb(&[(lo, hi), (hi, lo), (lo, lo), (hi, hi), (0, 0)], 2), vec![(lo, hi), (0, 0)]);
}

// The rule in whole numbers of 128 bits, for points small enough for them.
fn lttb_in_i128(points: &[(i64, i64)], threshold: usize) -> Vec<(i64, i64)> {
    let n = points.len();
    let edge = |i: usize| (1 + i * (n - 2) / (threshold - 2)).min(n - 1);
    let mut out = vec![points[0]];
    let mut a = 0usize;
    for i in 0..threshold - 2 {
        let (start, end) = (edge(i), edge(i + 1));
        let stop = end.max(start + 1);
        let next_stop = edge(i + 2).max(end + 1);
        let k = (next_stop - end) as i128;
        let sx: i128 = points[end..next_stop].iter().map(|p| p.0 as i128).sum();
        let sy: i128 = points[end..next_stop].iter().map(|p| p.1 as i128).sum();
        let (ax, ay) = (points[a].0 as i128, points[a].1 as i128);
        let mut best = start;
        let mut best_area: i128 = -1;
        for j in start..stop {
            let (px, py) = (points[j].0 as i128, points[j].1 as i128);
            let area = ((ax - px) * (sy - k * ay) - (k * ax - sx) * (py - ay)).abs();
            if area > best_area {
                best_area = area;
                best = j;
            }
        }
        out.push(points[best]);
        a = best;
    }
    out.push(points[n - 1]);
    out
}

#[test]
fn lttb_agrees_with_the_rule_in_whole_numbers() {
    let mut seed: u64 = 0x9E37_79B9_7F4A_7C15;
    let mut next = move || {
        seed = seed.wrapping_mul(6364136223846793005).wrapping_add(1442695040888963407);
        (seed >> 20) as i64
    };
    for (n, threshold) in [(7usize, 3usize), (10, 4), (50, 7), (64, 33), (101, 100), (300, 17)] {
        for shift in [0u32, 20, 44] {
            for _ in 0..10 {
                // Coordinates of up to 2^40: every product stays in 128 bits.
                let pts: Vec<(i64, i64)> =
                    (0..n as i64).map(|i| ((i << 30) + (next() >> shift) % (1 << 30), (next() >> 4) - (1 << 39))).collect();
                assert_eq!(lttb(&pts, threshold), lttb_in_i128(&pts, threshold));
            }
        }
    }
}

#[test]
fn aggregate_three_candles_by_two() {
    let data = vec![candle(0, 10, 12, 9, 11), candle(1, 11, 13, 10, 12), candle(2, 12, 14, 11, 13)];
    let out = aggregate_ohlc_buckets(&data, 2);
    assert_eq!(out.len(), 2);
    assert_eq!(out[0], Candle { t: 0, o: 10, h: 13, l: 9, c: 12 });
    assert_eq!(out[1], Candle { t: 2, o: 12, h: 14, l: 11, c: 13 });
}

#[test]
fn aggregate_bucket_of_one_is_identity() {
    let data = vec![candle(0, 10, 12, 9, 11), candle(1, 11, 13, 10, 12), candle(2, 12, 14, 11, 13)];
    assert_eq!(aggregate_ohlc_buckets(&data, 1), data);
    assert_eq!(aggregate_ohlc_buckets(&data, 0), data);
}

#[test]
fn aggregate_two_candles_unchanged() {
    let data = vec![candle(0, 10, 12, 9, 11), candle(1, 11, 13, 10, 12)];
    assert_eq!(aggregate_ohlc_buckets(&data, 2), data);
}

#[test]
fn aggregate_length_is_rounded_up() {
    let data: Vec<Candle> = (0..10).map(|i| candle(i, 10 + i, 20 + i, 5 + i, 12 + i)).collect();
    assert_eq!(aggregate_ohlc_buckets(&data, 3).len(), 4);
    assert_eq!(aggregate_ohlc_buckets(&data, 5).len(), 2);
    assert_eq!(aggregate_ohlc_buckets(&data, 10).len(), 1);
    assert_eq!(aggregate_ohlc_buckets(&data, usize::MAX).len(), 1);
}

#[test]
fn aggregate_keeps_ohlc_order_in_every_window() {
    let data: Vec<Candle> =
        (0..23).map(|i| candle(i, 100 + (i * 7) % 13, 120 + (i * 5) % 11, 90 - (i * 3) % 7, 101 + (i * 11) % 17)).collect();
    let bucket = 4usize;
    let out = aggregate_ohlc_buckets(&data, bucket);
    for (w, agg) in out.iter().enumerate() {
        let window = &data[w * bucket..((w + 1) * bucket).min(data.len())];
        assert_eq!(agg.t, window[0].t);
        assert_eq!(agg.o, window[0].o);
        assert_eq!(agg.c, window[window.len() - 1].c);
        for k in window {
            assert!(agg.h >= k.o.max(k.c));
            assert!(agg.l <= k.o.min(k.c));
        }
        assert_eq!(agg.h, window.iter().map(|k| k.h).max().unwrap());
        assert_eq!(agg.l, window.iter().map(|k| k.l).min().unwrap());
    }
}

#[test]
fn candle_accepts_valid_values() {
    assert_eq!(Candle::try_new(3, 10, 12, 9, 11), Ok(Candle { t: 3, o: 10, h: 12, l: 9, c: 11 }));
    assert_eq!(Candle::try_new(3, 10, 10, 10, 10), Ok(Candle { t: 3, o: 10, h: 10, l: 10, c: 10 }));
}

#[test]
fn candle_rejects_low_above_body() {
    assert_eq!(Candle::try_new(0, 10, 12, 11, 11), Err("low above min(open,close)"));
}

#[test]
fn candle_rejects_high_below_body() {
    assert_eq!(Candle::try_new(0, 10, 10, 9, 11), Err("high below max(open,close)"));
}

#[test]
fn candle_low_is_checked_before_high() {
    assert_eq!(Candle::try_new(0, 10, 5, 12, 11), Err("low above min(open,close)"));
}

#[test]
fn series_constructors_fill_the_right_data() {
    let s = Series::new(SeriesType::Bar);
    assert!(s.data_xy.is_empty() && s.data_ohlc.is_empty() && s.baseline.is_none());
    let s = Series::with_data(SeriesType::Histogram, vec![(1, 2)]).with_baseline(7);
    assert_eq!(s.series_type, SeriesType::Histogram);
    assert_eq!(s.data_xy, vec![(1, 2)]);
    assert_eq!(s.baseline_value(), 7);
    let s = Series::from_candles(vec![candle(0, 1, 2, 0, 1)]);
    assert_eq!(s.series_type, SeriesType::Candlestick);
    assert_eq!(s.baseline_value(), 0);
    let s = Series::from_candles_as(SeriesType::Bar, vec![candle(0, 1, 2, 0, 1)]);
    assert_eq!(s.series_type, SeriesType::Bar);
    assert_eq!(s.data_ohlc.len(), 1);
}

#[test]
fn series_downsample_reduces_xy_only() {
    let line = Series::with_data(SeriesType::Line, quadratic()).with_baseline(3);
    let out = line.downsample_xy_lttb(4);
    assert_eq!(out.data_xy, vec![(0, 0), (2, 4), (3, 9), (5, 25)]);
    assert_eq!(out.baseline, Some(3));
    assert_eq!(line.downsample_xy_lttb(1).data_xy, quadratic());
    assert_eq!(line.downsample_xy_lttb(6).data_xy, quadratic());
    let candles = Series::from_candles(vec![candle(0, 1, 2, 0, 1)]);
    let out = candles.downsample_xy_lttb(4);
    assert_eq!(out.data_ohlc, candles.data_ohlc);
}

#[test]
fn series_aggregate_reduces_candles_only() {
    let data = vec![candle(0, 10, 12, 9, 11), candle(1, 11, 13, 10, 12), candle(2, 12, 14, 11, 13)];
    let s = Series::from_candles(data.clone());
    let out = s.aggregate_ohlc(2);
    assert_eq!(out.data_ohlc.len(), 2);
    assert_eq!(out.data_ohlc[0], Candle { t: 0, o: 10, h: 13, l: 9, c: 12 });
    assert_eq!(s.aggregate_ohlc(1).data_ohlc, data);
    let line = Series::with_data(SeriesType::Line, quadratic());
    assert_eq!(line.aggregate_ohlc(2).data_xy, quadratic());
}

// The rule as it is usually written, in floating point: the mean of the next
// bucket and the cross-product magnitude, each candidate against the best.
fn lttb_in_floats(points: &[(f64, f64)], threshold: usize, bucket: usize) -> Vec<(f64, f64)> {
    let n = points.len();
    let mut out = vec![points[0]];
    let mut a = 0usize;
    for i in 0..threshold - 2 {
        let start = 1 + i * bucket;
        let end = start + bucket;
        let next_end = (end + bucket).min(n - 1).max(end + 1);
        let count = (next_end - end) as f64;
        let avg_x = points[end..next_end].iter().map(|p| p.0).sum::<f64>() / count;
        let avg_y = points[end..next_end].iter().map(|p| p.1).sum::<f64>() / count;
        let (ax, ay) = points[a];
        let mut best = start;
        let mut best_area = -1.0f64;
        for k in start..end {
            let area = ((ax - points[k].0) * (avg_y - ay) - (ax - avg_x) * (points[k].1 - ay)).abs();
            if area > best_area {
                best_area = area;
                best = k;
            }
        }
        out.push(points[best]);
        a = best;
    }
    out.push(points[n - 1]);
    out
}

#[test]
fn lttb_agrees_with_the_rule_in_floats() {
    // Buckets of 1, 2, 4 or 8 points: every mean is exact in floating point.
    let mut seed: u64 = 0x2545_F491_4F6C_DD1D;
    for (bucket, buckets) in [(1usize, 40usize), (2, 50), (4, 25), (8, 10), (8, 1), (2, 1)] {
        let n = bucket * buckets + 2;
        let threshold = buckets + 2;
        for _ in 0..20 {
            let pts: Vec<(i64, i64)> = (0..n as i64)
                .map(|i| {
                    seed = seed.wrapping_mul(6364136223846793005).wrapping_add(1442695040888963407);
                    (3 * i, ((seed >> 40) % 2001) as i64 - 1000)
                })
                .collect();
            let floats: Vec<(f64, f64)> = pts.iter().map(|p| (p.0 as f64, p.1 as f64)).collect();
            let want: Vec<(i64, i64)> =
                lttb_in_floats(&floats, threshold, bucket).iter().map(|p| (p.0 as i64, p.1 as i64)).collect();
            if threshold >= n {
                assert_eq!(lttb(&pts, threshold), pts);
            } else {
                assert_eq!(lttb(&pts, threshold), want);
            }
        }
    }
}

#[test]
fn series_downsample_takes_any_coordinates() {
    let pts = vec![(0, 0), (1, i64::MAX), (2, 0), (3, 5)];
    let line = Series::with_data(SeriesType::Line, pts.clone());
    assert_eq!(line.downsample_xy_lttb(3).data_xy, vec![(0, 0), (1, i64::MAX), (3, 5)]);
    assert_eq!(line.downsample_xy_lttb(2).data_xy, vec![(0, 0), (3, 5)]);
    assert_eq!(line.downsample_xy_lttb(1).data_xy, pts);
}

#[test]
fn lttb_does_not_depend_on_where_the_points_lie() {
    // Timestamps of the present, in millionths of a second.
    let base = 1_700_000_000_000_000i64;
    let far: Vec<(i64, i64)> = quadratic().iter().map(|p| (p.0 + base, p.1 - base)).collect();
    let want: Vec<(i64, i64)> = lttb(&quadratic(), 4).iter().map(|p| (p.0 + base, p.1 - base)).collect();
    assert_eq!(lttb(&far, 4), want);
    let pts: Vec<(i64, i64)> = (0..300).map(|i| (base + 1_000_000 * i, (i * i * 7919) % 10_007)).collect();
    let near: Vec<(i64, i64)> = pts.iter().map(|p| (p.0 - base, p.1)).collect();
    let reduced: Vec<(i64, i64)> = lttb(&near, 25).iter().map(|p| (p.0 + base, p.1)).collect();
    assert_eq!(lttb(&pts, 25), reduced);
}

#[test]
fn aggregate_twice_is_aggregate_by_the_product() {
    let data: Vec<Candle> =
        (0..61).map(|i| candle(i, 100 + (i * 7) % 13, 120 + (i * 5) % 11, 90 - (i * 3) % 7, 101 + (i * 11) % 17)).collect();
    for n in [0usize, 1, 2, 3, 7, 12, 13, 60, 61] {
        for a in 1..8usize {
            for b in 1..8usize {
                let first = aggregate_ohlc_buckets(&data[..n], a);
                let twice = aggregate_ohlc_buckets(&first, b);
                let direct = aggregate_ohlc_buckets(&data[..n], a * b);
                // Two candles are never merged: where the first merge leaves
                // exactly two, the second leaves them too.
                if n > 2 && a >= 2 && b >= 2 && first.len() == 2 {
                    assert_eq!(twice, first);
                    assert_eq!(direct.len(), 1);
                } else {
                    assert_eq!(twice, direct);
                }
            }
        }
    }
}

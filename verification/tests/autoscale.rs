use chart_core::geometry::clamp;
use chart_core::series::{Candle, SeriesType};
use chart_core::scale::PIXEL_UNIT;
use chart_core::types::Insets;
use chart_core::view::visible_y_range;
use chart_core::{Axis, Chart, Series, ViewState};

// Values are written in tenths of a unit, so that 1.5 is 15.
#[test]
fn autoscale_mixed_series() {
    let mut chart = Chart::new();

    // XY series
    chart.add_series(Series::with_data(SeriesType::Line, vec![(0, 10), (50, 30)]));

    // Candles
    chart.add_series(Series::from_candles(vec![
        Candle { t: 20, o: 20, h: 60, l: 15, c: 40 },
        Candle { t: 30, o: 40, h: 55, l: 20, c: 25 },
    ]));

    chart.autoscale_axes(0);

    // X spans 0..50 from the line against 20..30 from the candles.
    assert!(chart.x_axis.min <= 0);
    assert!(chart.x_axis.max >= 50);

    // Y min is the line's 10 against the candle low 15.
    assert!(chart.y_axis.min <= 10);
    // Y max is the candle high 60 against the line's 30.
    assert!(chart.y_axis.max >= 60);
}

// One pixel, in the millionths of a pixel that positions are counted in.
const PX: i64 = PIXEL_UNIT;

fn mixed_chart() -> Chart {
    let mut chart = Chart::new();
    chart.add_series(Series::with_data(SeriesType::Line, vec![(0, 10), (50, 30)]));
    chart.add_series(Series::from_candles(vec![
        Candle { t: 20, o: 20, h: 60, l: 15, c: 40 },
        Candle { t: 30, o: 40, h: 55, l: 20, c: 25 },
    ]));
    chart
}

#[test]
fn autoscale_axes_exact_ranges_and_margin() {
    let mut chart = mixed_chart();
    chart.autoscale_axes(0);
    assert_eq!((chart.x_axis.min, chart.x_axis.max), (0, 50));
    assert_eq!((chart.y_axis.min, chart.y_axis.max), (10, 60));
    chart.autoscale_axes(100);
    assert_eq!((chart.y_axis.min, chart.y_axis.max), (5, 65));
    assert_eq!(chart.x_axis.label, "Time");
}

#[test]
fn autoscale_axes_without_data_changes_nothing() {
    let mut chart = Chart::new();
    chart.autoscale_axes(20);
    assert_eq!((chart.x_axis.min, chart.x_axis.max), (0, 10));
    assert_eq!((chart.y_axis.min, chart.y_axis.max), (0, 100));
    chart.add_series(Series::new(SeriesType::Line).with_baseline(5));
    chart.autoscale_axes(20);
    assert_eq!((chart.x_axis.min, chart.x_axis.max), (0, 10));
    assert_eq!((chart.y_axis.min, chart.y_axis.max), (0, 100));
}

#[test]
fn autoscale_axes_opens_collapsed_ranges() {
    let mut chart = Chart::new();
    chart.add_series(Series::with_data(SeriesType::Line, vec![(7, 3)]));
    chart.autoscale_axes(0);
    assert_eq!((chart.x_axis.min, chart.x_axis.max), (7, 8));
    assert_eq!((chart.y_axis.min, chart.y_axis.max), (3, 4));
}

#[test]
fn autoscale_axes_stops_at_the_border() {
    let mut chart = Chart::new();
    chart.add_series(Series::with_data(SeriesType::Line, vec![(i64::MAX, i64::MIN), (i64::MAX, i64::MAX)]));
    chart.autoscale_axes(1000);
    assert_eq!((chart.x_axis.min, chart.x_axis.max), (i64::MAX, i64::MAX));
    assert_eq!((chart.y_axis.min, chart.y_axis.max), (i64::MIN, i64::MAX));
}

#[test]
fn axis_defaults() {
    let x = Axis::default_x();
    assert_eq!((x.label.as_str(), x.min, x.max), ("Time", 0, 10));
    let y = Axis::default_y();
    assert_eq!((y.label.as_str(), y.min, y.max), ("Price", 0, 100));
    let a = Axis::new("Volume", -3, 9);
    assert_eq!((a.label.as_str(), a.min, a.max), ("Volume", -3, 9));
}

#[test]
fn view_from_chart_adds_two_percent_on_y() {
    let v = ViewState::from_chart(&mixed_chart());
    // y spans 10..60; two percent of 50 is 1.
    assert_eq!(v, ViewState { x_min: 0, x_max: 50, y_min: 9, y_max: 61 });
}

#[test]
fn view_from_chart_counts_baseline() {
    let mut chart = Chart::new();
    chart.add_series(Series::with_data(SeriesType::Baseline, vec![(0, 100), (10, 200)]).with_baseline(-300));
    let v = ViewState::from_chart(&chart);
    // y spans -300..200; two percent of 500 is 10.
    assert_eq!(v, ViewState { x_min: 0, x_max: 10, y_min: -310, y_max: 210 });
}

#[test]
fn view_from_chart_ignores_data_of_the_other_kind() {
    let mut chart = Chart::new();
    let mut s = Series::with_data(SeriesType::Line, vec![(0, 0), (10, 100)]);
    s.data_ohlc.push(Candle { t: 500, o: 1, h: 900, l: -900, c: 1 });
    chart.add_series(s);
    let v = ViewState::from_chart(&chart);
    assert_eq!(v, ViewState { x_min: 0, x_max: 10, y_min: -2, y_max: 102 });
}

#[test]
fn view_from_empty_chart_is_unit() {
    let v = ViewState::from_chart(&Chart::new());
    assert_eq!(v, ViewState { x_min: 0, x_max: 1, y_min: 0, y_max: 1 });
    let mut chart = Chart::new();
    chart.add_series(Series::new(SeriesType::Histogram).with_baseline(40));
    assert_eq!(ViewState::from_chart(&chart), v);
}

#[test]
fn view_from_single_point_opens_both_ranges() {
    let mut chart = Chart::new();
    chart.add_series(Series::with_data(SeriesType::Line, vec![(7, 3)]));
    assert_eq!(ViewState::from_chart(&chart), ViewState { x_min: 7, x_max: 8, y_min: 3, y_max: 4 });
}

#[test]
fn view_apply_to_chart_sets_axes() {
    let mut chart = mixed_chart();
    ViewState { x_min: -1, x_max: 2, y_min: -3, y_max: 4 }.apply_to_chart(&mut chart);
    assert_eq!((chart.x_axis.min, chart.x_axis.max), (-1, 2));
    assert_eq!((chart.y_axis.min, chart.y_axis.max), (-3, 4));
    assert_eq!(chart.series.len(), 2);
}

#[test]
fn pan_by_pixels_shifts_by_share_of_span() {
    let mut v = ViewState { x_min: 0, x_max: 100, y_min: 0, y_max: 100 };
    // Plot area: 1024 - 96 = 928 wide, 640 - 80 = 560 high.
    v.pan_by_pixels(92 * PX, 56 * PX, 1024, 640, &Insets::default());
    // x: -92 * 100 / 928 = -9.9 -> -9; y: 56 * 100 / 560 = 10.
    assert_eq!(v, ViewState { x_min: -9, x_max: 91, y_min: 10, y_max: 110 });
}

#[test]
fn pan_by_pixels_keeps_spans_and_reverses() {
    let mut v = ViewState { x_min: -500, x_max: 1500, y_min: 20, y_max: 80 };
    let before = v;
    v.pan_by_pixels(232 * PX, -140 * PX, 1024, 640, &Insets::default());
    assert_eq!(v.x_max - v.x_min, 2000);
    assert_eq!(v.y_max - v.y_min, 60);
    assert_eq!(v, ViewState { x_min: -1000, x_max: 1000, y_min: 5, y_max: 65 });
    v.pan_by_pixels(-232 * PX, 140 * PX, 1024, 640, &Insets::default());
    assert_eq!(v, before);
}

#[test]
fn pan_by_pixels_with_tiny_surface_uses_one_pixel() {
    let mut v = ViewState { x_min: 0, x_max: 10, y_min: 0, y_max: 10 };
    v.pan_by_pixels(1 * PX, 1 * PX, 10, 10, &Insets::default());
    assert_eq!(v, ViewState { x_min: -10, x_max: 0, y_min: 10, y_max: 20 });
}

#[test]
fn pan_by_pixels_past_the_border_does_nothing() {
    let mut v = ViewState { x_min: i64::MIN, x_max: i64::MAX, y_min: 0, y_max: 10 };
    let before = v;
    v.pan_by_pixels(100 * PX, 0 * PX, 1024, 640, &Insets::default());
    assert_eq!(v, before);
}

#[test]
fn zoom_at_center_halves_spans_about_the_middle() {
    let mut v = ViewState { x_min: 0, x_max: 1000, y_min: 0, y_max: 1000 };
    // Cursor at the middle of the plot area: 72 + 464, 24 + 280.
    v.zoom_at_pixel(500, 536 * PX, 304 * PX, 1024, 640, &Insets::default());
    assert_eq!(v, ViewState { x_min: 250, x_max: 750, y_min: 250, y_max: 750 });
}

#[test]
fn zoom_at_corner_keeps_corner_value() {
    let mut v = ViewState { x_min: 100, x_max: 1100, y_min: -200, y_max: 800 };
    // Cursor at the top-left corner of the plot area: x_min and y_max stay.
    v.zoom_at_pixel(-1000, 72 * PX, 24 * PX, 1024, 640, &Insets::default());
    assert_eq!(v, ViewState { x_min: 100, x_max: 2100, y_min: -1200, y_max: 800 });
}

#[test]
fn zoom_without_scroll_changes_nothing() {
    let mut v = ViewState { x_min: -17, x_max: 333, y_min: 5, y_max: 77 };
    let before = v;
    v.zoom_at_pixel(0, 400 * PX, 300 * PX, 1024, 640, &Insets::default());
    assert_eq!(v, before);
}

#[test]
fn zoom_factor_is_clamped() {
    let insets = Insets::default();
    let mut v = ViewState { x_min: 0, x_max: 1000, y_min: 0, y_max: 1000 };
    // 1000 - 5000 is below the floor of 100 thousandths.
    v.zoom_at_pixel(5000, 72 * PX, 24 * PX, 1024, 640, &insets);
    assert_eq!(v, ViewState { x_min: 0, x_max: 100, y_min: 900, y_max: 1000 });
    let mut v = ViewState { x_min: 0, x_max: 1000, y_min: 0, y_max: 1000 };
    // 1000 + 50000 is above the ceiling of 10000 thousandths.
    v.zoom_at_pixel(-50_000, 72 * PX, 24 * PX, 1024, 640, &insets);
    assert_eq!(v, ViewState { x_min: 0, x_max: 10_000, y_min: -9000, y_max: 1000 });
}

#[test]
fn zoom_keeps_anchor_visible() {
    let insets = Insets::default();
    for (cx, cy) in [(72i64, 24i64), (500, 300), (1000, 584), (-40, 9000)] {
        for scroll in [-3000i64, -250, 100, 600, 950] {
            let before = ViewState { x_min: -1234, x_max: 5678, y_min: 10, y_max: 99 };
            let px = clamp(cx, 72, 1000);
            let py = clamp(cy, 24, 584);
            let wx = before.x_min + (px - 72) * (before.x_max - before.x_min) / 928;
            let wy = before.y_max - (py - 24) * (before.y_max - before.y_min) / 560;
            let mut v = before;
            v.zoom_at_pixel(scroll, cx * PX, cy * PX, 1024, 640, &insets);
            assert!(v.x_min <= wx && wx <= v.x_max);
            assert!(v.y_min <= wy && wy <= v.y_max);
        }
    }
}

#[test]
fn visible_range_counts_only_points_in_window() {
    let chart = mixed_chart();
    assert_eq!(visible_y_range(&chart, 0, 50), Some((10, 60)));
    assert_eq!(visible_y_range(&chart, 25, 35), Some((20, 55)));
    assert_eq!(visible_y_range(&chart, 40, 60), Some((30, 30)));
    assert_eq!(visible_y_range(&chart, 51, 60), None);
    assert_eq!(visible_y_range(&chart, 30, 20), None);
}

#[test]
fn visible_range_baseline_widens_but_is_no_data() {
    let mut chart = Chart::new();
    chart.add_series(Series::with_data(SeriesType::Baseline, vec![(0, 100), (10, 200)]).with_baseline(-5));
    assert_eq!(visible_y_range(&chart, 0, 5), Some((-5, 100)));
    assert_eq!(visible_y_range(&chart, 20, 30), None);
}

#[test]
fn autoscale_y_visible_fits_window() {
    let chart = mixed_chart();
    let mut v = ViewState { x_min: 25, x_max: 35, y_min: 0, y_max: 1 };
    assert!(v.autoscale_y_visible(&chart));
    // Visible y spans 20..55; two percent of 35 is 0.7 -> 0.
    assert_eq!(v, ViewState { x_min: 25, x_max: 35, y_min: 20, y_max: 55 });
    let mut v = ViewState { x_min: 0, x_max: 50, y_min: 0, y_max: 1 };
    assert!(v.autoscale_y_visible(&chart));
    assert_eq!(v, ViewState { x_min: 0, x_max: 50, y_min: 9, y_max: 61 });
}

#[test]
fn autoscale_y_visible_without_data_is_no_op() {
    let chart = mixed_chart();
    let mut v = ViewState { x_min: 100, x_max: 200, y_min: 3, y_max: 4 };
    assert!(!v.autoscale_y_visible(&chart));
    assert_eq!(v, ViewState { x_min: 100, x_max: 200, y_min: 3, y_max: 4 });
}

#[test]
fn zoom_never_closes_the_window() {
    let insets = Insets::default();
    let mut v = ViewState { x_min: 0, x_max: 1, y_min: 0, y_max: 1 };
    // Factor 0.1 on spans of one grid unit: the spans stay one grid unit.
    v.zoom_at_pixel(900, 72 * PX, 24 * PX, 1024, 640, &insets);
    assert_eq!(v, ViewState { x_min: 0, x_max: 1, y_min: 0, y_max: 1 });
    // A zoom out by factor 10 opens the window again.
    v.zoom_at_pixel(-9000, 72 * PX, 24 * PX, 1024, 640, &insets);
    assert_eq!(v, ViewState { x_min: 0, x_max: 10, y_min: -9, y_max: 1 });
}

#[test]
fn zoom_keeps_every_open_window_open() {
    let insets = Insets::default();
    for (x_max, y_max) in [(1i64, 1i64), (2, 3), (9, 1), (1000, 7)] {
        for scroll in [900i64, 500, 0, -500, -9000] {
            for (cx, cy) in [(72i64, 24i64), (536, 304), (1000, 584)] {
                let mut v = ViewState { x_min: 0, x_max, y_min: 0, y_max };
                for _ in 0..5 {
                    v.zoom_at_pixel(scroll, cx * PX, cy * PX, 1024, 640, &insets);
                    assert!(v.x_min < v.x_max && v.y_min < v.y_max);
                }
            }
        }
    }
}

#[test]
fn pan_and_zoom_take_positions_between_pixels() {
    let insets = Insets::default();
    let mut v = ViewState { x_min: 0, x_max: 928_000, y_min: 0, y_max: 560_000 };
    // Half a pixel of 928 is half of a thousand grid units.
    v.pan_by_pixels(PX / 2, -PX / 4, 1024, 640, &insets);
    assert_eq!(v, ViewState { x_min: -500, x_max: 927_500, y_min: -250, y_max: 559_750 });
    let mut v = ViewState { x_min: 0, x_max: 928_000, y_min: 0, y_max: 560_000 };
    // The cursor a quarter of a pixel right of the left edge and on the top
    // edge: the value 250 and the top stay where they are.
    v.zoom_at_pixel(500, 72 * PX + PX / 4, 24 * PX, 1024, 640, &insets);
    assert_eq!(v, ViewState { x_min: 125, x_max: 464_125, y_min: 280_000, y_max: 560_000 });
}

#[test]
fn collapsed_ranges_open_by_one_logical_unit_of_the_axis() {
    let mut chart = Chart::new();
    chart.x_axis = Axis::new("Time", 0, 10).with_resolution(1000);
    chart.y_axis = Axis::new("Price", 0, 100).with_resolution(100);
    chart.add_series(Series::with_data(SeriesType::Line, vec![(7_000, 300)]));
    // One logical unit is 1000 grid units on x and 100 on y; two percent of
    // the opened y span of 100 is 2.
    assert_eq!(ViewState::from_chart(&chart), ViewState { x_min: 7_000, x_max: 8_000, y_min: 298, y_max: 402 });
    chart.autoscale_axes(0);
    assert_eq!((chart.x_axis.min, chart.x_axis.max), (7_000, 8_000));
    assert_eq!((chart.y_axis.min, chart.y_axis.max), (300, 400));
    assert_eq!((chart.x_axis.resolution, chart.y_axis.resolution), (1000, 100));
}

#[test]
fn view_from_empty_chart_is_one_logical_unit_wide_and_high() {
    let mut chart = Chart::new();
    chart.x_axis = Axis::new("Time", 0, 10).with_resolution(1_000_000);
    chart.y_axis = Axis::new("Price", 0, 100).with_resolution(100);
    assert_eq!(ViewState::from_chart(&chart), ViewState { x_min: 0, x_max: 1_000_000, y_min: 0, y_max: 100 });
}

#[test]
fn axis_resolution_is_kept_within_its_limits() {
    assert_eq!(Axis::new("x", 0, 1).resolution, 1);
    assert_eq!(Axis::new("x", 0, 1).with_resolution(0).resolution, 1);
    assert_eq!(Axis::new("x", 0, 1).with_resolution(250).logical_unit(), 250);
    assert_eq!(Axis::new("x", 0, 1).with_resolution(i64::MAX).resolution, 1 << 20);
}

use chart_core::scale::{
    TimeScale, ValueScale, LOGICAL_LIMIT, PIXEL_LIMIT, PIXEL_TOLERANCE, PIXEL_UNIT, RESOLUTION_FINE, RESOLUTION_MAX,
};

// Grid units per logical unit on the time scales below.
const UNIT: i64 = 1_000_000;

// One pixel, in the millionths of a pixel that positions are counted in.
const PX: i64 = PIXEL_UNIT;

#[test]
fn time_scale_maps_both_ways() {
    // Two pixels per logical unit, a million grid units per logical unit.
    let s = TimeScale::new(100 * PX, 0, 2 * PX, UNIT);
    assert_eq!(s.to_px(10 * UNIT), 120 * PX);
    assert_eq!(s.from_px(120 * PX), 10 * UNIT);
    assert_eq!(s.to_px(-5 * UNIT), 90 * PX);
    assert_eq!(s.from_px(90 * PX), -5 * UNIT);
    // Half a pixel further is a quarter of a logical unit further.
    assert_eq!(s.from_px(120 * PX + PX / 2), 10 * UNIT + UNIT / 4);
    assert_eq!(s.to_px(10 * UNIT + UNIT / 4), 120 * PX + PX / 2);
}

#[test]
fn time_scale_new_brings_its_fields_into_range() {
    assert_eq!(TimeScale::new(0, 0, 0, UNIT).bar_spacing, 10_000);
    assert_eq!(TimeScale::new(0, 0, -7, UNIT).bar_spacing, 10_000);
    assert_eq!(TimeScale::new(0, 0, 700_000, UNIT).bar_spacing, 700_000);
    assert_eq!(TimeScale::new(0, 0, i64::MAX, UNIT).bar_spacing, 1 << 40);
    assert_eq!(TimeScale::new(0, 0, PX, 0).resolution, 1);
    assert_eq!(TimeScale::new(0, 0, PX, 1000).resolution, 1000);
    assert_eq!(TimeScale::new(0, 0, PX, i64::MAX).resolution, RESOLUTION_MAX);
    assert_eq!(TimeScale::new(0, i64::MAX, PX, UNIT).start_logical, LOGICAL_LIMIT);
    assert_eq!(TimeScale::new(0, i64::MIN, PX, UNIT).start_logical, -LOGICAL_LIMIT);
    assert_eq!(TimeScale::new(0, -77, PX, UNIT).start_logical, -77);
    assert_eq!(TimeScale::new(i64::MAX, 0, PX, UNIT).left_px, PIXEL_LIMIT);
    assert_eq!(TimeScale::new(i64::MIN, 0, PX, UNIT).left_px, -PIXEL_LIMIT);
}

#[test]
fn time_scale_round_trip_within_a_thousandth_of_a_pixel() {
    for (spacing, resolution) in [
        (10_000i64, 200_000i64),
        (500_000, 200_000),
        (999_999, UNIT),
        (PX, UNIT),
        (2_500_000, 333_333),
        (77 * PX, 200_000),
        (200 * PX, 200_000),
        (1000 * PX, UNIT),
    ] {
        let s = TimeScale::new(72 * PX, -40_000_000, spacing, resolution);
        let mut px = -300 * PX;
        while px < 1500 * PX {
            let back = s.to_px(s.from_px(px));
            assert!((back - px).abs() <= PIXEL_TOLERANCE);
            px += 1_234_567;
        }
    }
}

#[test]
fn time_scale_zoom_keeps_cursor_value() {
    // 100 pixels per logical unit, cursor at pixel 50, factor 4: the spacing
    // stops at 200, the value under the cursor is 0.5, and the new start is
    // 0.5 - 50 / 200 = 0.25 logical units.
    let mut s = TimeScale::new(0, 0, 100 * PX, UNIT);
    assert_eq!(s.from_px(50 * PX), UNIT / 2);
    s.zoom_at(50 * PX, 4000);
    assert_eq!(s, TimeScale { left_px: 0, start_logical: UNIT / 4, bar_spacing: 200 * PX, resolution: UNIT });
    assert_eq!(s.to_px(UNIT / 2), 50 * PX);
    assert_eq!(s.from_px(50 * PX), UNIT / 2);
}

#[test]
fn time_scale_zoom_at_half_a_pixel_per_unit() {
    // Half a pixel per logical unit, cursor at pixel 55, factor 1.5.
    let mut s = TimeScale::new(0, 0, PX / 2, 200_000);
    let cx = s.from_px(55 * PX);
    assert_eq!(cx, 110 * 200_000);
    let before = s.to_px(s.from_px(55 * PX));
    assert_eq!(before, 55 * PX);
    s.zoom_at(55 * PX, 1500);
    assert_eq!(s.bar_spacing, 750_000);
    assert!((s.to_px(cx) - 55 * PX).abs() <= PIXEL_TOLERANCE);
    let after = s.to_px(s.from_px(55 * PX));
    assert!((after - 55 * PX).abs() <= PIXEL_TOLERANCE);
    assert!((after - before).abs() <= 2 * PIXEL_TOLERANCE);
}

#[test]
fn time_scale_zoom_anchor_for_many_inputs() {
    for spacing in [500_000i64, 1_300_000, 4 * PX, 77 * PX, 200 * PX] {
        for factor in [100i64, 900, 1000, 1100, 1500, 3000, 10_000] {
            for cursor in [72 * PX, 72 * PX + 1, 400 * PX + 333_333, 1000 * PX, 50 * PX] {
                let before = TimeScale::new(72 * PX, 1_000 * 200_000, spacing, 200_000);
                let cx = before.from_px(cursor);
                let trip_before = before.to_px(cx);
                let mut s = before;
                s.zoom_at(cursor, factor);
                assert!(500_000 <= s.bar_spacing && s.bar_spacing <= 200 * PX);
                assert_eq!(s.left_px, before.left_px);
                assert!((s.to_px(cx) - cursor).abs() <= PIXEL_TOLERANCE);
                let trip_after = s.to_px(s.from_px(cursor));
                assert!((trip_before - cursor).abs() <= PIXEL_TOLERANCE);
                assert!((trip_after - cursor).abs() <= PIXEL_TOLERANCE);
                assert!((trip_after - trip_before).abs() <= 2 * PIXEL_TOLERANCE);
            }
        }
    }
}

#[test]
fn time_scale_zoom_clamps_spacing() {
    let mut s = TimeScale::new(0, 0, 2 * PX, UNIT);
    s.zoom_at(0, 1_000_000);
    assert_eq!(s.bar_spacing, 200 * PX);
    s.zoom_at(0, 1);
    assert_eq!(s.bar_spacing, PX / 2);
    s.zoom_at(0, -5);
    assert_eq!(s.bar_spacing, PX / 2);
}

#[test]
fn time_scale_pan_moves_against_the_drag() {
    let mut s = TimeScale::new(100 * PX, 50 * UNIT, 2 * PX, UNIT);
    s.pan_px(40 * PX);
    assert_eq!(s, TimeScale { left_px: 100 * PX, start_logical: 30 * UNIT, bar_spacing: 2 * PX, resolution: UNIT });
    s.pan_px(-40 * PX);
    assert_eq!(s.start_logical, 50 * UNIT);
    // A drag of a thousandth of a pixel is 500 grid units at this spacing.
    s.pan_px(1_000);
    assert_eq!(s.start_logical, 50 * UNIT - 500);
}

#[test]
fn value_scale_maps_both_ways() {
    let s = ValueScale::new_linear(0, 100 * PX, 0, 50_000, 1);
    assert_eq!(s.to_px(0), 100 * PX);
    assert_eq!(s.to_px(50_000), 0);
    assert_eq!(s.to_px(25_000), 50 * PX);
    assert_eq!(s.from_px(50 * PX), 25_000);
    assert_eq!(s.from_px(100 * PX), 0);
    assert_eq!(s.from_px(0), 50_000);
    assert_eq!(s.from_px(50 * PX + PX / 4), 24_875);
    assert_eq!(s.to_px(24_875), 50 * PX + PX / 4);
}

#[test]
fn value_scale_new_opens_collapsed_range_and_bounds_its_edges() {
    // A collapsed range opens by one logical unit: 5.0 to 6.0 on a grid of
    // a million units per logical unit.
    let s = ValueScale::new_linear(0, 100 * PX, 5 * UNIT, 5 * UNIT, UNIT);
    assert_eq!(
        s,
        ValueScale { top_px: 0, bottom_px: 100 * PX, vmin: 5 * UNIT, vmax: 6 * UNIT, resolution: UNIT }
    );
    let s = ValueScale::new_linear(0, 100 * PX, 7, 7, 1);
    assert_eq!((s.vmin, s.vmax), (7, 8));
    let s = ValueScale::new_linear(0, 100 * PX, 7, 7, 100);
    assert_eq!((s.vmin, s.vmax, s.resolution), (7, 107, 100));
    // A range that is not collapsed is kept as given, inverted or not.
    let s = ValueScale::new_linear(0, 100 * PX, 7, 8, UNIT);
    assert_eq!((s.vmin, s.vmax), (7, 8));
    let s = ValueScale::new_linear(0, 100 * PX, 9, 3, UNIT);
    assert_eq!((s.vmin, s.vmax), (9, 3));
    // The resolution is kept within one and its limit.
    assert_eq!(ValueScale::new_linear(0, PX, 0, 0, 0).vmax, 1);
    assert_eq!(ValueScale::new_linear(0, PX, 0, 0, i64::MAX).vmax, RESOLUTION_MAX);
    let s = ValueScale::new_linear(0, 100 * PX, i64::MAX, i64::MAX, 1);
    assert_eq!((s.vmin, s.vmax), (i64::MAX, i64::MAX));
    assert_eq!(s.to_px(i64::MAX), 100 * PX);
    let s = ValueScale::new_linear(i64::MIN, i64::MAX, 0, 1, 1);
    assert_eq!((s.top_px, s.bottom_px), (-PIXEL_LIMIT, PIXEL_LIMIT));
}

#[test]
fn value_scale_round_trip_at_pixel_55() {
    // 100 pixels over the values 0..10000001.
    let s = ValueScale::new_linear(0, 100 * PX, 0, 10_000_001, 1);
    let y = s.from_px(55 * PX);
    assert_eq!(y, 4_500_000);
    let back = s.to_px(y);
    assert_eq!(back, 55 * PX + 5);
    assert!((back - 55 * PX).abs() <= PIXEL_TOLERANCE);
}

#[test]
fn value_scale_round_trip_within_a_thousandth_of_a_pixel() {
    // 560 pixels: a span of 560000 grid units or more is fine enough.
    for (vmin, vmax) in [(0i64, 560_000i64), (-1_000_000, 1_000_000), (5, 10_000_001), (0, 1_000_000_000_000)] {
        let s = ValueScale::new_linear(24 * PX, 584 * PX, vmin, vmax, 1);
        let mut py = 24 * PX;
        while py <= 584 * PX {
            let back = s.to_px(s.from_px(py));
            assert!(py <= back && back <= 584 * PX);
            assert!(back - py <= PIXEL_TOLERANCE);
            py += 777_777;
        }
    }
}

#[test]
fn value_scale_without_height_maps_to_vmin() {
    let s = ValueScale::new_linear(40 * PX, 40 * PX, 3, 9, 1);
    assert_eq!(s.from_px(17 * PX), 3);
    assert_eq!(s.to_px(5), 40 * PX);
}

#[test]
fn value_scale_pan_shifts_both_ends() {
    let mut s = ValueScale::new_linear(0, 100 * PX, 0, 50, 1);
    s.pan_px(10 * PX);
    assert_eq!((s.vmin, s.vmax), (5, 55));
    s.pan_px(-20 * PX);
    assert_eq!((s.vmin, s.vmax), (-5, 45));
    let mut s = ValueScale::new_linear(0, 100 * PX, i64::MAX - 10, i64::MAX, 1);
    s.pan_px(100 * PX);
    assert_eq!((s.vmin, s.vmax), (i64::MAX - 10, i64::MAX));
    // A scale lower than one pixel pans as if it were one pixel high.
    let mut s = ValueScale::new_linear(0, PX / 2, 0, 50, 1);
    s.pan_px(PX / 2);
    assert_eq!((s.vmin, s.vmax), (25, 75));
}

#[test]
fn value_scale_zoom_about_centre() {
    let mut s = ValueScale::new_linear(0, 100 * PX, 0, 50, 1);
    s.zoom_center(25, 2000);
    assert_eq!((s.vmin, s.vmax), (13, 38));
    let mut s = ValueScale::new_linear(0, 100 * PX, 0, 50, 1);
    s.zoom_center(25, 500);
    assert_eq!((s.vmin, s.vmax), (-25, 75));
    let mut s = ValueScale::new_linear(0, 100 * PX, 0, 50, 1);
    s.zoom_center(25, 1_000_000);
    assert_eq!((s.vmin, s.vmax), (25, 26));
}

#[test]
fn value_scale_zoom_by_nothing_changes_nothing() {
    let mut s = ValueScale::new_linear(0, 100 * PX, 0, 50, 1);
    s.zoom_center(25, 0);
    assert_eq!((s.vmin, s.vmax), (0, 50));
    s.zoom_center(25, -3);
    assert_eq!((s.vmin, s.vmax), (0, 50));
}

#[test]
fn time_scale_round_trip_at_the_borders_of_its_ranges() {
    for start in [-LOGICAL_LIMIT, -1, 0, LOGICAL_LIMIT] {
        for spacing in [10_000i64, PX, 200 * PX] {
            let s = TimeScale::new(PIXEL_LIMIT, start, spacing, RESOLUTION_FINE);
            for px in [-PIXEL_LIMIT, -1, 0, 12_345_678, PIXEL_LIMIT] {
                let back = s.to_px(s.from_px(px));
                assert!((back - px).abs() <= PIXEL_TOLERANCE);
            }
            // Positions outside the pixel range count as the nearest inside.
            assert_eq!(s.from_px(i64::MAX), s.from_px(PIXEL_LIMIT));
            assert_eq!(s.from_px(i64::MIN), s.from_px(-PIXEL_LIMIT));
        }
    }
}

#[test]
fn time_scale_start_stops_at_the_border_of_its_range() {
    let mut s = TimeScale::new(0, LOGICAL_LIMIT, PX, UNIT);
    s.pan_px(-PIXEL_LIMIT);
    assert_eq!(s.start_logical, LOGICAL_LIMIT);
    s.pan_px(PX);
    assert_eq!(s.start_logical, LOGICAL_LIMIT - UNIT);
}

#[test]
fn time_scale_on_a_grid_of_whole_logical_units() {
    // 92.8 pixels per logical unit, one grid unit per logical unit.
    let s = TimeScale::new(72 * PX, 0, 92_800_000, 1);
    assert_eq!(s.to_px(0), 72 * PX);
    assert_eq!(s.to_px(5), 536 * PX);
    assert_eq!(s.to_px(10), 1000 * PX);
    assert_eq!(s.from_px(536 * PX), 5);
    // Between grid values the value is the one toward the left edge.
    assert_eq!(s.from_px(540 * PX), 5);
    assert_eq!(s.to_px(s.from_px(540 * PX)), 536 * PX);
}

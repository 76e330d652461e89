use chart_core::plugin::{sma_candles, sma_xy, OverlayKind, Sma, SmaIndicator};
use chart_core::series::{Candle, SeriesType};
use chart_core::{Chart, HvLineOverlay, Indicator, IndicatorParams, Overlay, OverlayEvent, Series, SmaOverlay};

#[test]
fn sma_xy_means_of_full_windows() {
    let data = vec![(0, 10), (1, 20), (2, 30), (3, 40)];
    assert_eq!(sma_xy(&data, 2), vec![(1, 15), (2, 25), (3, 35)]);
    assert_eq!(sma_xy(&data, 4), vec![(3, 25)]);
    assert_eq!(sma_xy(&data, 1), data);
}

#[test]
fn sma_xy_rounds_toward_zero() {
    assert_eq!(sma_xy(&[(0, 1), (1, 2), (2, 3)], 2), vec![(1, 1), (2, 2)]);
    assert_eq!(sma_xy(&[(0, -3), (1, -4)], 2), vec![(1, -3)]);
}

#[test]
fn sma_xy_degenerate_inputs() {
    let data = vec![(0, 10), (1, 20)];
    assert_eq!(sma_xy(&data, 0), Vec::<(i64, i64)>::new());
    assert_eq!(sma_xy(&data, 3), Vec::<(i64, i64)>::new());
    assert_eq!(sma_xy(&[], 1), Vec::<(i64, i64)>::new());
}

#[test]
fn sma_xy_survives_extreme_values() {
    let data = vec![(0, i64::MAX), (1, i64::MAX), (2, i64::MIN), (3, i64::MIN)];
    assert_eq!(sma_xy(&data, 2), vec![(1, i64::MAX), (2, 0), (3, i64::MIN)]);
}

#[test]
fn sma_candles_uses_closes() {
    let rows = vec![(0, 1, 9, 0, 10), (1, 1, 9, 0, 20), (2, 1, 9, 0, 60)];
    assert_eq!(sma_candles(&rows, 2), vec![(1, 15), (2, 40)]);
    assert_eq!(sma_candles(&rows, 3), vec![(2, 30)]);
}

#[test]
fn sma_indicator_reads_the_right_data() {
    let line = Series::with_data(SeriesType::Histogram, vec![(0, 10), (1, 20), (2, 30)]);
    let out = SmaIndicator.compute(&line, &IndicatorParams { period: 2 });
    assert_eq!(out.series_type, SeriesType::Line);
    assert_eq!(out.data_xy, vec![(1, 15), (2, 25)]);
    let candles = Series::from_candles(vec![
        Candle { t: 5, o: 1, h: 9, l: 0, c: 4 },
        Candle { t: 6, o: 1, h: 9, l: 0, c: 8 },
    ]);
    let out = Sma.compute(&candles, &IndicatorParams { period: 2 });
    assert_eq!(out.data_xy, vec![(6, 6)]);
    assert_eq!(SmaIndicator.id(), "sma");
    assert_eq!(Sma.id(), "sma");
    assert_eq!(IndicatorParams::default().period, 14);
}

#[test]
fn sma_overlay_prefers_xy_series() {
    let mut chart = Chart::new();
    chart.add_series(Series::from_candles(vec![
        Candle { t: 5, o: 1, h: 9, l: 0, c: 4 },
        Candle { t: 6, o: 1, h: 9, l: 0, c: 8 },
    ]));
    let overlay = SmaOverlay { period: 2 };
    let out = overlay.compute(&chart);
    assert_eq!(out.len(), 1);
    assert_eq!(out[0].data_xy, vec![(6, 6)]);
    chart.add_series(Series::with_data(SeriesType::Line, vec![(0, 10), (1, 20), (2, 30)]));
    let out = overlay.compute(&chart);
    assert_eq!(out.len(), 1);
    assert_eq!(out[0].data_xy, vec![(1, 15), (2, 25)]);
    assert_eq!(overlay.id(), "sma_overlay");
}

#[test]
fn sma_overlay_period_is_at_least_one() {
    let mut chart = Chart::new();
    chart.add_series(Series::with_data(SeriesType::Line, vec![(0, 10), (1, 20)]));
    let out = SmaOverlay { period: 0 }.compute(&chart);
    assert_eq!(out[0].data_xy, vec![(0, 10), (1, 20)]);
    assert!(SmaOverlay { period: 3 }.compute(&Chart::new()).is_empty());
}

#[test]
fn hv_line_is_set_by_pointer_down_only() {
    let mut chart = Chart::new();
    chart.x_axis.min = -5;
    chart.x_axis.max = 95;
    let mut line = HvLineOverlay::new();
    assert!(line.compute(&chart).is_empty());
    line.handle_event(&OverlayEvent::PointerMove { x: 1, y: 2 }, &chart);
    line.handle_event(&OverlayEvent::PointerUp { x: 1, y: 2 }, &chart);
    assert!(line.compute(&chart).is_empty());
    line.handle_event(&OverlayEvent::PointerDown { x: 1, y: 42 }, &chart);
    let out = line.compute(&chart);
    assert_eq!(out.len(), 1);
    assert_eq!(out[0].series_type, SeriesType::Line);
    assert_eq!(out[0].data_xy, vec![(-5, 42), (95, 42)]);
    assert_eq!(line.id(), "hv_line");
}

#[test]
fn chart_hands_events_to_its_overlays() {
    let mut chart = Chart::new();
    chart.add_overlay(OverlayKind::Sma(SmaOverlay { period: 3 }));
    chart.add_overlay(OverlayKind::HvLine(HvLineOverlay::new()));
    chart.handle_overlay_event(&OverlayEvent::PointerDown { x: 0, y: 7 });
    assert_eq!(
        chart.overlays,
        vec![OverlayKind::Sma(SmaOverlay { period: 3 }), OverlayKind::HvLine(HvLineOverlay { y: Some(7) })]
    );
    assert_eq!(chart.overlays[1].compute(&chart)[0].data_xy, vec![(0, 7), (10, 7)]);
    chart.handle_overlay_event(&OverlayEvent::PointerUp { x: 0, y: 9 });
    assert_eq!(chart.overlays[1], OverlayKind::HvLine(HvLineOverlay { y: Some(7) }));
    chart.clear_overlays();
    assert!(chart.overlays.is_empty());
}

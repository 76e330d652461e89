//! Numeric core of an interactive chart: point reduction, candle aggregation,
//! visible-window bookkeeping and tick planning, all on an integer grid.
//!
//! Logical values are counted in grid units, of which a caller-chosen number
//! (most simply a million) make one logical unit. Pixel positions are
//! counted in millionths of a pixel. Zoom factors, scroll amounts and
//! margins are counted in thousandths.

pub mod arith;
pub mod axis;
pub mod chart;
pub mod downsample;
pub mod extent;
pub mod geometry;
pub mod grid;
pub mod labels;
pub mod layout;
pub mod plugin;
pub mod renderer;
pub mod scale;
pub mod series;
pub mod ticks;
pub mod types;
pub mod view;
mod wide;

pub use axis::Axis;
pub use chart::Chart;
pub use downsample::{aggregate_ohlc_buckets, lttb};
pub use plugin::{HvLineOverlay, Indicator, IndicatorParams, Overlay, OverlayEvent, SmaOverlay};
pub use series::{Series, SeriesType};
pub use view::ViewState;

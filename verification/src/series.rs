//! Series model: XY points, OHLC candles and the series that hold them.

use vstd::prelude::*;
use vstd::slice::slice_to_vec;

use crate::downsample::{aggregate_ohlc_buckets, aggregate_spec, lttb, lttb_spec, Point};

verus! {

/// How a series is drawn, which also decides which of its data it reads.
#[derive(Clone, Copy, Debug, PartialEq, Eq, Structural)]
pub enum SeriesType {
    Line,
    Candlestick,
    /// OHLC bar without a filled body.
    Bar,
    /// Bars from the baseline to each `(x, y)`.
    Histogram,
    /// Area relative to the baseline value.
    Baseline,
}

impl SeriesType {
    /// Whether the type reads the XY data (as opposed to the candles).
    pub open spec fn is_xy(self) -> bool {
        self == SeriesType::Line || self == SeriesType::Histogram || self == SeriesType::Baseline
    }

    /// Whether the type reads the XY data (as opposed to the candles).
    pub fn uses_xy(self) -> (b: bool)
        ensures
            b == self.is_xy(),
    {
        match self {
            SeriesType::Line | SeriesType::Histogram | SeriesType::Baseline => true,
            SeriesType::Candlestick | SeriesType::Bar => false,
        }
    }
}

/// One price candle. All values are in grid units.
#[derive(Clone, Copy, Debug, PartialEq, Eq, Structural)]
pub struct Candle {
    /// Time or index, shown on the X axis.
    pub t: i64,
    pub o: i64,
    pub h: i64,
    pub l: i64,
    pub c: i64,
}

pub open spec fn min_int(a: int, b: int) -> int {
    if a <= b {
        a
    } else {
        b
    }
}

pub open spec fn max_int(a: int, b: int) -> int {
    if a >= b {
        a
    } else {
        b
    }
}

impl Candle {
    /// The OHLC ordering: the low is at or below both open and close, the
    /// high at or above both.
    pub open spec fn valid(self) -> bool {
        &&& self.l <= min_int(self.o as int, self.c as int)
        &&& self.h >= max_int(self.o as int, self.c as int)
    }

    /// Builds a candle, rejecting values that break the OHLC ordering.
    ///
    /// The low is checked first, then the high, then low against high.
    pub fn try_new(t: i64, o: i64, h: i64, l: i64, c: i64) -> (r: Result<Candle, &'static str>)
        ensures
            r is Ok <==> (Candle { t, o, h, l, c }).valid(),
            r matches Ok(k) ==> k == (Candle { t, o, h, l, c }),
            r matches Err(e) ==> {
                &&& l > min_int(o as int, c as int) ==> e@ == "low above min(open,close)"@
                &&& l <= min_int(o as int, c as int) ==> e@ == "high below max(open,close)"@
            },
    {
        let lo = if o <= c { o } else { c };
        let hi = if o >= c { o } else { c };
        if l > lo {
            return Err("low above min(open,close)");
        }
        if h < hi {
            return Err("high below max(open,close)");
        }
        if l > h {
            return Err("low above high");
        }
        Ok(Candle { t, o, h, l, c })
    }
}

/// A valid candle has its low at or below its high.
pub proof fn lemma_valid_low_le_high(k: Candle)
    requires
        k.valid(),
    ensures
        k.l <= k.h,
{
}

/// A data series: its type, its data and an optional baseline. XY types
/// read `data_xy`, candle types read `data_ohlc`.
#[derive(Clone, Debug)]
pub struct Series {
    pub series_type: SeriesType,
    /// Read by Line, Histogram and Baseline.
    pub data_xy: Vec<Point>,
    /// Read by Candlestick and Bar.
    pub data_ohlc: Vec<Candle>,
    /// Origin for Baseline and Histogram.
    pub baseline: Option<i64>,
}

impl Series {
    /// An empty series of the given type.
    pub fn new(series_type: SeriesType) -> (s: Series)
        ensures
            s.series_type == series_type,
            s.data_xy@.len() == 0,
            s.data_ohlc@.len() == 0,
            s.baseline is None,
    {
        Series { series_type, data_xy: Vec::new(), data_ohlc: Vec::new(), baseline: None }
    }

    /// A series of the given type over XY points.
    pub fn with_data(series_type: SeriesType, data: Vec<Point>) -> (s: Series)
        ensures
            s.series_type == series_type,
            s.data_xy@ == data@,
            s.data_ohlc@.len() == 0,
            s.baseline is None,
    {
        Series { series_type, data_xy: data, data_ohlc: Vec::new(), baseline: None }
    }

    /// A candlestick series over the given candles.
    pub fn from_candles(candles: Vec<Candle>) -> (s: Series)
        ensures
            s.series_type == SeriesType::Candlestick,
            s.data_xy@.len() == 0,
            s.data_ohlc@ == candles@,
            s.baseline is None,
    {
        Series {
            series_type: SeriesType::Candlestick,
            data_xy: Vec::new(),
            data_ohlc: candles,
            baseline: None,
        }
    }

    /// A series of the given type over the given candles.
    pub fn from_candles_as(series_type: SeriesType, candles: Vec<Candle>) -> (s: Series)
        ensures
            s.series_type == series_type,
            s.data_xy@.len() == 0,
            s.data_ohlc@ == candles@,
            s.baseline is None,
    {
        Series { series_type, data_xy: Vec::new(), data_ohlc: candles, baseline: None }
    }

    /// The same series with its baseline set.
    pub fn with_baseline(self, baseline: i64) -> (s: Series)
        ensures
            s.series_type == self.series_type,
            s.data_xy@ == self.data_xy@,
            s.data_ohlc@ == self.data_ohlc@,
            s.baseline == Some(baseline),
    {
        Series {
            series_type: self.series_type,
            data_xy: self.data_xy,
            data_ohlc: self.data_ohlc,
            baseline: Some(baseline),
        }
    }

    /// The baseline, or zero where none is set.
    pub fn baseline_value(&self) -> (v: i64)
        ensures
            v == match self.baseline {
                Some(b) => b,
                None => 0,
            },
    {
        match self.baseline {
            Some(b) => b,
            None => 0,
        }
    }

    /// A copy of the series.
    pub fn duplicate(&self) -> (s: Series)
        ensures
            s.series_type == self.series_type,
            s.data_xy@ == self.data_xy@,
            s.data_ohlc@ == self.data_ohlc@,
            s.baseline == self.baseline,
    {
        Series {
            series_type: self.series_type,
            data_xy: slice_to_vec(self.data_xy.as_slice()),
            data_ohlc: slice_to_vec(self.data_ohlc.as_slice()),
            baseline: self.baseline,
        }
    }

    /// The XY data after a reduction to at most `max_points`: reduced only
    /// where there are more points than that and at least two are asked for.
    pub open spec fn downsampled_xy(&self, max_points: int) -> Seq<Point> {
        if self.data_xy@.len() > max_points && max_points >= 2 {
            lttb_spec(self.data_xy@, max_points)
        } else {
            self.data_xy@
        }
    }

    /// For an XY series, the series with its points reduced to at most
    /// `max_points` and its candles dropped; for a candle series, a copy.
    pub fn downsample_xy_lttb(&self, max_points: usize) -> (s: Series)
        ensures
            s.series_type == self.series_type,
            s.baseline == self.baseline,
            self.series_type.is_xy() ==> s.data_xy@ == self.downsampled_xy(max_points as int)
                && s.data_ohlc@.len() == 0,
            !self.series_type.is_xy() ==> s.data_xy@ == self.data_xy@ && s.data_ohlc@
                == self.data_ohlc@,
    {
        if self.series_type.uses_xy() {
            let data = if self.data_xy.len() > max_points && max_points >= 2 {
                lttb(self.data_xy.as_slice(), max_points)
            } else {
                slice_to_vec(self.data_xy.as_slice())
            };
            Series {
                series_type: self.series_type,
                data_xy: data,
                data_ohlc: Vec::new(),
                baseline: self.baseline,
            }
        } else {
            self.duplicate()
        }
    }

    /// For a candle series, the series with its candles aggregated into
    /// windows of `bucket` and its points dropped; for an XY series, a copy.
    pub fn aggregate_ohlc(&self, bucket: usize) -> (s: Series)
        ensures
            s.series_type == self.series_type,
            s.baseline == self.baseline,
            !self.series_type.is_xy() ==> s.data_ohlc@ == aggregate_spec(
                self.data_ohlc@,
                bucket as int,
            ) && s.data_xy@.len() == 0,
            self.series_type.is_xy() ==> s.data_xy@ == self.data_xy@ && s.data_ohlc@
                == self.data_ohlc@,
    {
        if self.series_type.uses_xy() {
            self.duplicate()
        } else {
            let data = if bucket > 1 {
                aggregate_ohlc_buckets(self.data_ohlc.as_slice(), bucket)
            } else {
                slice_to_vec(self.data_ohlc.as_slice())
            };
            Series {
                series_type: self.series_type,
                data_xy: Vec::new(),
                data_ohlc: data,
                baseline: self.baseline,
            }
        }
    }
}

} // verus!

//! An Average True Range indicator over fixed-point prices, built on a
//! moving-average engine selected at construction.

mod atr;
mod average;
mod data;
mod indicator;
mod text;

pub use atr::{
    atr_display, atr_initial, atr_reset, atr_run, atr_step, bar_sample, bool_label, floored,
    lemma_first_update_without_previous, lemma_floor_holds, lemma_initialized_at_period,
    lemma_reset_replays_fresh, lemma_run_count, ma_type_label, max_int, min_int, true_range,
    AtrView, AverageTrueRange,
};
pub use average::{
    ema_next, floor_div, ma_count, ma_initial, ma_kind, ma_period, ma_step, ma_value, mean,
    sample_ok, slide, sum, EmaView, ExponentialMovingAverage, MaView, MovingAverage,
    MovingAverageFactory, MovingAverageType, SimpleMovingAverage, SmaView, MAX_PERIOD, MAX_SAMPLE,
};
pub use data::{Bar, IndicatorError, QuoteTick, TradeTick};
pub use indicator::Indicator;
pub use text::{decimal, digit_char, push_decimal};

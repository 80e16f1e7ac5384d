use nautilus_indicators::{
    AverageTrueRange, Bar, IndicatorError, MovingAverageType, QuoteTick, TradeTick, MAX_PERIOD,
};

fn atr(period: usize, ma_type: MovingAverageType, use_previous: bool, floor: u64) -> AverageTrueRange {
    AverageTrueRange::new(period, Some(ma_type), Some(use_previous), Some(floor)).unwrap()
}

#[test]
fn defaults_applied_by_new() {
    let a = AverageTrueRange::new(14, None, None, None).unwrap();
    assert_eq!(a.period(), 14);
    assert_eq!(a.ma_type(), MovingAverageType::Simple);
    assert!(a.use_previous());
    assert_eq!(a.value_floor(), 0);
    assert_eq!(a.value(), 0);
    assert_eq!(a.count(), 0);
    assert!(!a.has_inputs());
    assert!(!a.is_initialized());
}

#[test]
fn zero_period_is_rejected() {
    let r = AverageTrueRange::new(0, None, None, None);
    assert_eq!(r.err(), Some(IndicatorError::InvalidConfiguration));
}

#[test]
fn period_beyond_limit_is_rejected() {
    let r = AverageTrueRange::new(MAX_PERIOD + 1, None, None, None);
    assert_eq!(r.err(), Some(IndicatorError::InvalidConfiguration));
    assert!(AverageTrueRange::new(MAX_PERIOD, None, None, None).is_ok());
}

#[test]
fn single_bar_with_previous_close() {
    let mut a = atr(1, MovingAverageType::Simple, true, 0);
    a.update_raw(10, 8, 9);
    assert_eq!(a.value(), 2);
    assert!(a.is_initialized());
    assert!(a.has_inputs());
    assert_eq!(a.count(), 1);
}

#[test]
fn three_bar_sequence() {
    let mut a = atr(3, MovingAverageType::Simple, true, 0);
    a.update_raw(10, 8, 9);
    assert!(!a.is_initialized());
    a.update_raw(11, 9, 10);
    assert!(!a.is_initialized());
    a.update_raw(12, 10, 11);
    assert!(a.is_initialized());
    assert_eq!(a.value(), 2);
    assert_eq!(a.count(), 3);
}

#[test]
fn initialized_exactly_at_period() {
    let mut a = atr(4, MovingAverageType::Exponential, true, 0);
    for i in 0..3i64 {
        a.update_raw(100 + i, 90 + i, 95 + i);
        assert!(!a.is_initialized());
    }
    a.update_raw(104, 94, 99);
    assert!(a.is_initialized());
    a.update_raw(105, 95, 100);
    assert!(a.is_initialized());
}

#[test]
fn gap_uses_previous_close() {
    let mut a = atr(2, MovingAverageType::Simple, true, 0);
    a.update_raw(10, 8, 9);
    a.update_raw(20, 18, 19);
    // true ranges 2 and 20 - 9 = 11; their mean 13 / 2 rounds down to 6
    assert_eq!(a.value(), 6);
}

#[test]
fn gap_ignored_without_previous_close() {
    let mut a = atr(2, MovingAverageType::Simple, false, 0);
    a.update_raw(10, 8, 9);
    a.update_raw(20, 18, 19);
    assert_eq!(a.value(), 2);
}

#[test]
fn single_update_without_previous_is_range() {
    let mut s = atr(5, MovingAverageType::Simple, false, 0);
    s.update_raw(15, 5, 7);
    assert_eq!(s.value(), 10);
    let mut e = atr(5, MovingAverageType::Exponential, false, 0);
    e.update_raw(15, 5, 7);
    assert_eq!(e.value(), 10);
}

#[test]
fn window_slides_past_period() {
    let mut a = atr(2, MovingAverageType::Simple, false, 0);
    a.update_raw(2, 0, 1);
    a.update_raw(4, 0, 1);
    a.update_raw(8, 0, 1);
    assert_eq!(a.value(), 6);
}

#[test]
fn exponential_smoothing_steps() {
    // period 3: weight 2 / 4 on each new range
    let mut a = atr(3, MovingAverageType::Exponential, false, 0);
    a.update_raw(10, 0, 5);
    assert_eq!(a.value(), 10);
    a.update_raw(20, 0, 5);
    assert_eq!(a.value(), 15);
    a.update_raw(0, 0, 0);
    // 15 + floor(-30 / 4) = 15 - 8
    assert_eq!(a.value(), 7);
}

#[test]
fn degenerate_candle_rounds_down() {
    let mut a = atr(2, MovingAverageType::Simple, false, 0);
    a.update_raw(8, 10, 9);
    assert_eq!(a.value(), -2);
    a.update_raw(9, 10, 9);
    assert_eq!(a.value(), -2);
}

#[test]
fn floor_pins_small_values() {
    let mut a = atr(3, MovingAverageType::Simple, true, 5);
    a.update_raw(10, 8, 9);
    assert_eq!(a.value(), 5);
    a.update_raw(11, 9, 10);
    assert_eq!(a.value(), 5);
    a.update_raw(30, 10, 20);
    // ranges 2, 2, 20: mean 8 exceeds the floor
    assert_eq!(a.value(), 8);
    assert!(a.value() >= 5);
}

#[test]
fn floor_equal_to_average_reports_floor() {
    let mut a = atr(1, MovingAverageType::Simple, false, 2);
    a.update_raw(10, 8, 9);
    assert_eq!(a.value(), 2);
    a.update_raw(10, 9, 9);
    assert_eq!(a.value(), 2);
}

#[test]
fn reset_replays_like_fresh() {
    let bars = [(10i64, 8i64, 9i64), (13, 9, 12), (12, 7, 8), (15, 11, 14)];
    let mut used = atr(3, MovingAverageType::Exponential, true, 1);
    used.update_raw(50, 10, 30);
    used.update_raw(40, 20, 25);
    used.reset();
    assert_eq!(used.count(), 0);
    assert_eq!(used.value(), 0);
    assert!(!used.has_inputs());
    assert!(!used.is_initialized());
    let mut fresh = atr(3, MovingAverageType::Exponential, true, 1);
    for (h, l, c) in bars.iter() {
        used.update_raw(*h, *l, *c);
        fresh.update_raw(*h, *l, *c);
        assert_eq!(used.value(), fresh.value());
        assert_eq!(used.count(), fresh.count());
        assert_eq!(used.is_initialized(), fresh.is_initialized());
    }
}

#[test]
fn reset_keeps_configuration() {
    let mut a = atr(7, MovingAverageType::Exponential, false, 3);
    a.update_raw(10, 8, 9);
    a.reset();
    assert_eq!(a.period(), 7);
    assert_eq!(a.ma_type(), MovingAverageType::Exponential);
    assert!(!a.use_previous());
    assert_eq!(a.value_floor(), 3);
}

#[test]
fn ticks_change_nothing() {
    let mut a = atr(2, MovingAverageType::Simple, true, 0);
    a.update_raw(10, 8, 9);
    let q = QuoteTick { bid_price: 100, ask_price: 200, bid_size: 1, ask_size: 1 };
    let t = TradeTick { price: 1000, size: 5 };
    a.handle_quote_tick(&q);
    a.handle_trade_tick(&t);
    assert_eq!(a.value(), 2);
    assert_eq!(a.count(), 1);
    assert!(!a.is_initialized());
    a.update_raw(10, 8, 9);
    a.handle_quote_tick(&q);
    a.handle_trade_tick(&t);
    assert_eq!(a.value(), 2);
    assert_eq!(a.count(), 2);
    assert!(a.is_initialized());
}

#[test]
fn bar_feeds_high_low_close() {
    let mut a = atr(2, MovingAverageType::Simple, true, 0);
    let mut b = atr(2, MovingAverageType::Simple, true, 0);
    a.handle_bar(&Bar { open: 9, high: 10, low: 8, close: 9, volume: 100 });
    a.handle_bar(&Bar { open: 19, high: 20, low: 18, close: 19, volume: 100 });
    b.update_raw(10, 8, 9);
    b.update_raw(20, 18, 19);
    assert_eq!(a.value(), b.value());
    assert_eq!(a.value(), 6);
}

#[test]
fn extreme_prices_do_not_overflow() {
    let mut a = atr(2, MovingAverageType::Simple, true, 0);
    a.update_raw(i64::MAX, i64::MIN, i64::MAX);
    assert_eq!(a.value(), (i64::MAX as i128) - (i64::MIN as i128));
    a.update_raw(i64::MIN, i64::MAX, i64::MIN);
    let mut e = atr(2, MovingAverageType::Exponential, false, 0);
    e.update_raw(i64::MAX, i64::MIN, 0);
    e.update_raw(i64::MIN, i64::MAX, 0);
    assert!(e.value() < 0);
}

#[test]
fn name_and_display() {
    let a = AverageTrueRange::new(14, None, None, None).unwrap();
    assert_eq!(a.name(), "AverageTrueRange");
    assert_eq!(a.display(), "AverageTrueRange(14,SIMPLE,true,0)");
    let b = atr(10, MovingAverageType::Exponential, false, 1205);
    assert_eq!(b.display(), "AverageTrueRange(10,EXPONENTIAL,false,1205)");
}

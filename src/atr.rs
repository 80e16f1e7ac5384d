use vstd::prelude::*;

use crate::average::{
    ma_count, ma_initial, slide, sum, ma_kind, ma_period, ma_step, ma_value, sample_ok, MaView, MovingAverage,
    MovingAverageFactory, MovingAverageType, MAX_PERIOD,
};
use crate::data::{Bar, IndicatorError, QuoteTick, TradeTick};
use crate::indicator::Indicator;
use crate::text::{decimal, push_decimal};
use vstd::string::*;

verus! {

/// Abstract state of an Average True Range indicator.
pub ghost struct AtrView {
    pub period: nat,
    pub ma_type: MovingAverageType,
    pub use_previous: bool,
    pub value_floor: int,
    pub value: int,
    pub count: nat,
    pub has_inputs: bool,
    pub is_initialized: bool,
    pub previous_close: int,
    pub ma: MaView,
}

pub open spec fn max_int(a: int, b: int) -> int {
    if a >= b { a } else { b }
}

pub open spec fn min_int(a: int, b: int) -> int {
    if a <= b { a } else { b }
}

/// True range of a bar against the previous close: the span from the lower
/// of low and previous close to the higher of high and previous close.
pub open spec fn true_range(previous_close: int, high: int, low: int) -> int {
    max_int(previous_close, high) - min_int(low, previous_close)
}

/// The reported value for an average `v` under a floor: the floor when it is
/// set and the average does not exceed it, the average otherwise.
pub open spec fn floored(floor: int, v: int) -> int {
    if floor == 0 || floor < v { v } else { floor }
}

/// The sample that one bar feeds into the moving average.
pub open spec fn bar_sample(s: AtrView, high: i64, low: i64, close: i64) -> int {
    if s.use_previous {
        let prev = if s.has_inputs { s.previous_close } else { close as int };
        true_range(prev, high as int, low as int)
    } else {
        high - low
    }
}

/// The state of a fresh indicator with the given configuration.
pub open spec fn atr_initial(
    period: nat,
    ma_type: MovingAverageType,
    use_previous: bool,
    value_floor: int,
) -> AtrView {
    AtrView {
        period,
        ma_type,
        use_previous,
        value_floor,
        value: 0,
        count: 0,
        has_inputs: false,
        is_initialized: false,
        previous_close: 0,
        ma: ma_initial(ma_type, period),
    }
}

/// The state after one bar given as high, low and close.
pub open spec fn atr_step(s: AtrView, high: i64, low: i64, close: i64) -> AtrView {
    let ma = ma_step(s.ma, bar_sample(s, high, low, close) as i128);
    AtrView {
        value: floored(s.value_floor, ma_value(ma)),
        count: s.count + 1,
        has_inputs: true,
        is_initialized: s.count + 1 >= s.period,
        previous_close: if s.use_previous { close as int } else { s.previous_close },
        ma,
        ..s
    }
}

/// The state after a sequence of bars, each given as (high, low, close).
pub open spec fn atr_run(s: AtrView, bars: Seq<(i64, i64, i64)>) -> AtrView
    decreases bars.len(),
{
    if bars.len() == 0 {
        s
    } else {
        atr_run(atr_step(s, bars[0].0, bars[0].1, bars[0].2), bars.drop_first())
    }
}

/// The state that `reset` leaves: the configuration of `s`, nothing else.
pub open spec fn atr_reset(s: AtrView) -> AtrView {
    atr_initial(s.period, s.ma_type, s.use_previous, s.value_floor)
}

pub open spec fn ma_type_label(t: MovingAverageType) -> Seq<char> {
    match t {
        MovingAverageType::Simple => "SIMPLE"@,
        MovingAverageType::Exponential => "EXPONENTIAL"@,
    }
}

pub open spec fn bool_label(b: bool) -> Seq<char> {
    if b {
        "true"@
    } else {
        "false"@
    }
}

/// Human-readable form: name, period, average kind, whether the previous
/// close is used, and the floor.
pub open spec fn atr_display(s: AtrView) -> Seq<char> {
    "AverageTrueRange("@ + decimal(s.period) + ","@ + ma_type_label(s.ma_type) + ","@
        + bool_label(s.use_previous) + ","@ + decimal(s.value_floor as nat) + ")"@
}

/// An indicator which calculates an Average True Range across a rolling
/// window of bars.
pub struct AverageTrueRange {
    period: usize,
    ma_type: MovingAverageType,
    use_previous: bool,
    value_floor: u64,
    value: i128,
    count: usize,
    is_initialized: bool,
    has_inputs: bool,
    previous_close: i64,
    ma: MovingAverage,
}

impl View for AverageTrueRange {
    type V = AtrView;

    closed spec fn view(&self) -> AtrView {
        AtrView {
            period: self.period as nat,
            ma_type: self.ma_type,
            use_previous: self.use_previous,
            value_floor: self.value_floor as int,
            value: self.value as int,
            count: self.count as nat,
            has_inputs: self.has_inputs,
            is_initialized: self.is_initialized,
            previous_close: self.previous_close as int,
            ma: self.ma@,
        }
    }
}

impl AverageTrueRange {
    pub closed spec fn wf(&self) -> bool {
        &&& 1 <= self.period <= MAX_PERIOD
        &&& self.ma.wf()
        &&& ma_kind(self.ma@) == self.ma_type
        &&& ma_period(self.ma@) == self.period
        &&& ma_count(self.ma@) == self.count
        &&& self.has_inputs == (self.count > 0)
        &&& self.is_initialized == (self.count >= self.period)
    }

    /// In every consistent state the period is one that `new` accepts, the
    /// floor is not negative, input has been seen exactly when the count is
    /// positive, and initialization means the count has reached the period.
    pub proof fn lemma_state_invariant(&self)
        requires
            self.wf(),
        ensures
            1 <= self@.period <= MAX_PERIOD,
            self@.value_floor >= 0,
            self@.has_inputs == (self@.count > 0),
            self@.is_initialized == (self@.count >= self@.period),
    {
    }

    /// Builds an indicator; `ma_type` defaults to simple, `use_previous` to
    /// true and `value_floor` to zero, which means no floor.
    pub fn new(
        period: usize,
        ma_type: Option<MovingAverageType>,
        use_previous: Option<bool>,
        value_floor: Option<u64>,
    ) -> (r: Result<Self, IndicatorError>)
        ensures
            (1 <= period <= MAX_PERIOD) <==> r is Ok,
            r is Err ==> r == Err::<Self, IndicatorError>(IndicatorError::InvalidConfiguration),
            r matches Ok(a) ==> a.wf() && a@ == atr_initial(
                period as nat,
                match ma_type {
                    Some(t) => t,
                    None => MovingAverageType::Simple,
                },
                match use_previous {
                    Some(b) => b,
                    None => true,
                },
                match value_floor {
                    Some(f) => f as int,
                    None => 0,
                },
            ),
    {
        if period == 0 || period > MAX_PERIOD {
            return Err(IndicatorError::InvalidConfiguration);
        }
        let kind = match ma_type {
            Some(t) => t,
            None => MovingAverageType::Simple,
        };
        let use_previous = match use_previous {
            Some(b) => b,
            None => true,
        };
        let value_floor = match value_floor {
            Some(f) => f,
            None => 0,
        };
        Ok(AverageTrueRange {
            period,
            ma_type: kind,
            use_previous,
            value_floor,
            value: 0,
            count: 0,
            is_initialized: false,
            has_inputs: false,
            previous_close: 0,
            ma: MovingAverageFactory::create(kind, period),
        })
    }

    /// Folds one bar, given as high, low and close, into the indicator.
    pub fn update_raw(&mut self, high: i64, low: i64, close: i64)
        requires
            old(self).wf(),
            old(self)@.count < usize::MAX,
        ensures
            final(self).wf(),
            final(self)@ == atr_step(old(self)@, high, low, close),
            final(self)@.value_floor > 0 ==> final(self)@.value >= final(self)@.value_floor,
    {
        let sample: i128;
        if self.use_previous {
            if !self.has_inputs {
                self.previous_close = close;
            }
            let prev = self.previous_close as i128;
            let hi = if prev >= high as i128 { prev } else { high as i128 };
            let lo = if low as i128 <= prev { low as i128 } else { prev };
            sample = hi - lo;
            self.previous_close = close;
        } else {
            sample = high as i128 - low as i128;
        }
        proof {
            assert(sample_ok(sample));
        }
        self.ma.update_raw(sample);
        self.floor_value();
        self.increment_count();
    }

    /// Sets the reported value from the moving average under the floor.
    fn floor_value(&mut self)
        requires
            old(self).ma.wf(),
        ensures
            final(self).value == floored(old(self).value_floor as int, ma_value(old(self).ma@)),
            final(self).ma == old(self).ma,
            final(self).period == old(self).period,
            final(self).ma_type == old(self).ma_type,
            final(self).use_previous == old(self).use_previous,
            final(self).value_floor == old(self).value_floor,
            final(self).count == old(self).count,
            final(self).is_initialized == old(self).is_initialized,
            final(self).has_inputs == old(self).has_inputs,
            final(self).previous_close == old(self).previous_close,
    {
        let v = self.ma.value();
        if self.value_floor == 0 || (self.value_floor as i128) < v {
            self.value = v;
        } else {
            self.value = self.value_floor as i128;
        }
    }

    /// Counts one update and advances the initialization state.
    fn increment_count(&mut self)
        requires
            old(self).count < usize::MAX,
            old(self).is_initialized ==> old(self).has_inputs,
            old(self).is_initialized == (old(self).count >= old(self).period),
        ensures
            final(self).count == old(self).count + 1,
            final(self).has_inputs,
            final(self).is_initialized == (final(self).count >= old(self).period),
            final(self).ma == old(self).ma,
            final(self).value == old(self).value,
            final(self).period == old(self).period,
            final(self).ma_type == old(self).ma_type,
            final(self).use_previous == old(self).use_previous,
            final(self).value_floor == old(self).value_floor,
            final(self).previous_close == old(self).previous_close,
    {
        self.count = self.count + 1;
        if !self.is_initialized {
            self.has_inputs = true;
            if self.count >= self.period {
                self.is_initialized = true;
            }
        }
    }

    /// Folds a bar's high, low and close into the indicator.
    pub fn handle_bar(&mut self, bar: &Bar)
        requires
            old(self).wf(),
            old(self)@.count < usize::MAX,
        ensures
            final(self).wf(),
            final(self)@ == atr_step(old(self)@, bar.high, bar.low, bar.close),
    {
        self.update_raw(bar.high, bar.low, bar.close);
    }

    /// Quotes carry no bar range: the indicator ignores them.
    pub fn handle_quote_tick(&mut self, _tick: &QuoteTick)
        requires
            old(self).wf(),
        ensures
            final(self).wf(),
            final(self)@ == old(self)@,
    {
    }

    /// Trades carry no bar range: the indicator ignores them.
    pub fn handle_trade_tick(&mut self, _tick: &TradeTick)
        requires
            old(self).wf(),
        ensures
            final(self).wf(),
            final(self)@ == old(self)@,
    {
    }

    /// Returns the indicator to its state before any input, keeping its
    /// configuration.
    pub fn reset(&mut self)
        requires
            old(self).wf(),
        ensures
            final(self).wf(),
            final(self)@ == atr_reset(old(self)@),
    {
        self.previous_close = 0;
        self.value = 0;
        self.count = 0;
        self.has_inputs = false;
        self.is_initialized = false;
        self.ma.reset();
    }
    /// The human-readable form of the indicator's configuration.
    pub fn display(&self) -> (r: String)
        requires
            self.wf(),
        ensures
            r@ == atr_display(self@),
    {
        proof {
            reveal_strlit("AverageTrueRange(");
            reveal_strlit(",");
            reveal_strlit(")");
            reveal_strlit("SIMPLE");
            reveal_strlit("EXPONENTIAL");
            reveal_strlit("true");
            reveal_strlit("false");
        }
        let mut out = "AverageTrueRange(".to_owned();
        push_decimal(&mut out, self.period as u64);
        out.append(",");
        match self.ma_type {
            MovingAverageType::Simple => out.append("SIMPLE"),
            MovingAverageType::Exponential => out.append("EXPONENTIAL"),
        }
        out.append(",");
        if self.use_previous {
            out.append("true");
        } else {
            out.append("false");
        }
        out.append(",");
        push_decimal(&mut out, self.value_floor);
        out.append(")");
        proof {
            assert(out@ =~= atr_display(self@));
        }
        out
    }

    /// Identifier of the indicator, for diagnostics.
    pub fn name(&self) -> (r: String)
        ensures
            r@ == "AverageTrueRange"@,
    {
        "AverageTrueRange".to_owned()
    }

    pub fn period(&self) -> (r: usize)
        ensures
            r == self@.period,
    {
        self.period
    }

    pub fn ma_type(&self) -> (r: MovingAverageType)
        ensures
            r == self@.ma_type,
    {
        self.ma_type
    }

    pub fn use_previous(&self) -> (r: bool)
        ensures
            r == self@.use_previous,
    {
        self.use_previous
    }

    pub fn value_floor(&self) -> (r: u64)
        ensures
            r == self@.value_floor,
    {
        self.value_floor
    }

    /// The current reading: the floored average of the true ranges.
    pub fn value(&self) -> (r: i128)
        ensures
            r == self@.value,
    {
        self.value
    }

    /// Number of updates since construction or the last reset.
    pub fn count(&self) -> (r: usize)
        ensures
            r == self@.count,
    {
        self.count
    }

    pub fn has_inputs(&self) -> (r: bool)
        ensures
            r == self@.has_inputs,
    {
        self.has_inputs
    }

    pub fn is_initialized(&self) -> (r: bool)
        ensures
            r == self@.is_initialized,
    {
        self.is_initialized
    }
}

impl Indicator for AverageTrueRange {
    open spec fn inv(&self) -> bool {
        self.wf()
    }

    open spec fn capacity_left(&self) -> nat {
        (usize::MAX - self@.count) as nat
    }

    open spec fn spec_name(&self) -> Seq<char> {
        "AverageTrueRange"@
    }

    open spec fn spec_has_inputs(&self) -> bool {
        self@.has_inputs
    }

    open spec fn spec_is_initialized(&self) -> bool {
        self@.is_initialized
    }

    open spec fn bar_step(before: Self, after: Self, bar: Bar) -> bool {
        after@ == atr_step(before@, bar.high, bar.low, bar.close)
    }

    /// Quotes change nothing.
    open spec fn quote_step(before: Self, after: Self, tick: QuoteTick) -> bool {
        after@ == before@
    }

    /// Trades change nothing.
    open spec fn trade_step(before: Self, after: Self, tick: TradeTick) -> bool {
        after@ == before@
    }

    open spec fn reset_step(before: Self, after: Self) -> bool {
        after@ == atr_reset(before@)
    }

    fn name(&self) -> String {
        AverageTrueRange::name(self)
    }

    fn has_inputs(&self) -> bool {
        AverageTrueRange::has_inputs(self)
    }

    fn is_initialized(&self) -> bool {
        AverageTrueRange::is_initialized(self)
    }

    fn handle_quote_tick(&mut self, tick: &QuoteTick) {
        AverageTrueRange::handle_quote_tick(self, tick)
    }

    fn handle_trade_tick(&mut self, tick: &TradeTick) {
        AverageTrueRange::handle_trade_tick(self, tick)
    }

    fn handle_bar(&mut self, bar: &Bar) {
        AverageTrueRange::handle_bar(self, bar)
    }

    fn reset(&mut self) {
        AverageTrueRange::reset(self)
    }
}

/// Over any sequence of bars from a consistent state, the count grows by
/// one per bar and the indicator is initialized exactly when the count has
/// reached the period.
pub proof fn lemma_run_count(s: AtrView, bars: Seq<(i64, i64, i64)>)
    requires
        s.is_initialized == (s.count >= s.period),
    ensures
        atr_run(s, bars).count == s.count + bars.len(),
        atr_run(s, bars).is_initialized == (atr_run(s, bars).count >= s.period),
        atr_run(s, bars).period == s.period,
        atr_run(s, bars).value_floor == s.value_floor,
    decreases bars.len(),
{
    if bars.len() > 0 {
        let t = atr_step(s, bars[0].0, bars[0].1, bars[0].2);
        lemma_run_count(t, bars.drop_first());
    }
}

/// A fresh indicator becomes initialized on exactly the `period`-th update,
/// and is not initialized after any fewer updates.
pub proof fn lemma_initialized_at_period(
    period: nat,
    ma_type: MovingAverageType,
    use_previous: bool,
    value_floor: int,
    bars: Seq<(i64, i64, i64)>,
)
    requires
        period >= 1,
        bars.len() == period,
    ensures
        atr_run(atr_initial(period, ma_type, use_previous, value_floor), bars).is_initialized,
        forall|k: int|
            0 <= k < period ==> !(#[trigger] atr_run(
                atr_initial(period, ma_type, use_previous, value_floor),
                bars.take(k),
            )).is_initialized,
{
    let s = atr_initial(period, ma_type, use_previous, value_floor);
    lemma_run_count(s, bars);
    assert forall|k: int| 0 <= k < period implies !(#[trigger] atr_run(s, bars.take(k))).is_initialized by {
        lemma_run_count(s, bars.take(k));
    }
}

/// After `reset`, any sequence of bars leads through the same states as it
/// does from a freshly built indicator with the same configuration.
pub proof fn lemma_reset_replays_fresh(s: AtrView, bars: Seq<(i64, i64, i64)>)
    ensures
        forall|k: int|
            0 <= k <= bars.len() ==> #[trigger] atr_run(atr_reset(s), bars.take(k)) == atr_run(
                atr_initial(s.period, s.ma_type, s.use_previous, s.value_floor),
                bars.take(k),
            ),
{
}

/// With a positive floor, the value is at least the floor after every
/// update.
pub proof fn lemma_floor_holds(s: AtrView, bars: Seq<(i64, i64, i64)>)
    requires
        s.value_floor > 0,
        bars.len() > 0,
    ensures
        atr_run(s, bars).value >= s.value_floor,
    decreases bars.len(),
{
    let t = atr_step(s, bars[0].0, bars[0].1, bars[0].2);
    assert(atr_run(s, bars) == atr_run(t, bars.drop_first()));
    if bars.len() > 1 {
        lemma_floor_holds(t, bars.drop_first());
    } else {
        assert(atr_run(t, bars.drop_first()) == t);
    }
}

/// Without the previous close, the first value is the bar's high minus its
/// low run through one step of the configured moving average, under the
/// floor; every supported average reports a single sample as it is.
pub proof fn lemma_first_update_without_previous(
    period: nat,
    ma_type: MovingAverageType,
    value_floor: int,
    high: i64,
    low: i64,
    close: i64,
)
    requires
        period >= 1,
    ensures
        atr_step(atr_initial(period, ma_type, false, value_floor), high, low, close).value
            == floored(value_floor, ma_value(ma_step(ma_initial(ma_type, period), (high - low) as i128))),
        atr_step(atr_initial(period, ma_type, false, value_floor), high, low, close).value
            == floored(value_floor, high - low),
{
    let x = (high - low) as i128;
    let w = Seq::<i128>::empty().push(x);
    assert(w.drop_last() =~= Seq::<i128>::empty());
    assert(w.last() == x);
    assert(sum(w) == sum(w.drop_last()) + w.last());
    assert(sum(w) == x);
    assert(slide(Seq::<i128>::empty(), period, x) == w);
}

} // verus!

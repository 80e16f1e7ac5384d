use std::collections::VecDeque;
use vstd::prelude::*;

verus! {

/// The largest window that a moving average accepts: it keeps every running
/// sum within `i128` and `period + 1` within `usize`.
pub const MAX_PERIOD: usize = 2147483647;

/// The largest magnitude of a sample: the difference of two `i64` values.
pub const MAX_SAMPLE: i128 = 18446744073709551615;

/// Sum of a sequence of samples.
pub open spec fn sum(s: Seq<i128>) -> int
    decreases s.len(),
{
    if s.len() == 0 {
        0
    } else {
        sum(s.drop_last()) + s.last()
    }
}

/// Arithmetic mean of a sequence of samples, rounded down; zero when empty.
pub open spec fn mean(s: Seq<i128>) -> int {
    if s.len() == 0 {
        0
    } else {
        sum(s) / (s.len() as int)
    }
}

/// The window of a simple moving average after one more sample: the sample
/// is appended and, once the window is full, the oldest sample leaves.
pub open spec fn slide(window: Seq<i128>, period: nat, x: i128) -> Seq<i128> {
    if window.len() < period {
        window.push(x)
    } else {
        window.drop_first().push(x)
    }
}

pub open spec fn sample_ok(x: i128) -> bool {
    -MAX_SAMPLE <= x <= MAX_SAMPLE
}

proof fn lemma_sum_push(s: Seq<i128>, x: i128)
    ensures
        sum(s.push(x)) == sum(s) + x,
{
    assert(s.push(x).drop_last() =~= s);
}

proof fn lemma_sum_drop_first(s: Seq<i128>)
    requires
        s.len() > 0,
    ensures
        sum(s) == s[0] + sum(s.drop_first()),
    decreases s.len(),
{
    if s.len() == 1 {
        assert(s.drop_last().len() == 0);
        assert(s.drop_first().len() == 0);
        assert(sum(s) == sum(s.drop_last()) + s.last());
        assert(sum(s.drop_first()) == 0);
    } else {
        let t = s.drop_last();
        lemma_sum_drop_first(t);
        assert(t.drop_first() =~= s.drop_first().drop_last());
        let u = s.drop_first();
        assert(u.last() == s.last());
        assert(t[0] == s[0]);
        assert(sum(s) == sum(t) + s.last());
        assert(sum(u) == sum(u.drop_last()) + u.last());
    }
}

proof fn lemma_sum_bound(s: Seq<i128>)
    requires
        forall|i: int| 0 <= i < s.len() ==> sample_ok(#[trigger] s[i]),
    ensures
        -MAX_SAMPLE * s.len() <= sum(s) <= MAX_SAMPLE * s.len(),
    decreases s.len(),
{
    if s.len() > 0 {
        let t = s.drop_last();
        assert forall|i: int| 0 <= i < t.len() implies sample_ok(#[trigger] t[i]) by {
            assert(t[i] == s[i]);
        }
        lemma_sum_bound(t);
        assert(sample_ok(s[s.len() - 1]));
        assert(MAX_SAMPLE * s.len() == MAX_SAMPLE * t.len() + MAX_SAMPLE) by (nonlinear_arith)
            requires
                s.len() == t.len() + 1,
        ;
    }
}

/// Abstract state of a simple moving average.
pub ghost struct SmaView {
    pub period: nat,
    pub window: Seq<i128>,
    pub count: nat,
}

/// A simple moving average over the last `period` samples.
pub struct SimpleMovingAverage {
    period: usize,
    window: VecDeque<i128>,
    sum: i128,
    value: i128,
    count: usize,
    initialized: bool,
}

impl View for SimpleMovingAverage {
    type V = SmaView;

    closed spec fn view(&self) -> SmaView {
        SmaView { period: self.period as nat, window: self.window@, count: self.count as nat }
    }
}

impl SimpleMovingAverage {
    pub closed spec fn wf(&self) -> bool {
        &&& 1 <= self.period <= MAX_PERIOD
        &&& self.window@.len() <= self.period
        &&& self.window@.len() <= self.count
        &&& forall|i: int| 0 <= i < self.window@.len() ==> sample_ok(#[trigger] self.window@[i])
        &&& self.sum == sum(self.window@)
        &&& self.value == mean(self.window@)
        &&& self.initialized == (self.count >= self.period)
    }

    pub fn new(period: usize) -> (r: Self)
        requires
            1 <= period <= MAX_PERIOD,
        ensures
            r.wf(),
            r@ == (SmaView { period: period as nat, window: Seq::empty(), count: 0 }),
    {
        SimpleMovingAverage {
            period,
            window: VecDeque::new(),
            sum: 0,
            value: 0,
            count: 0,
            initialized: false,
        }
    }

    pub fn period(&self) -> (r: usize)
        requires
            self.wf(),
        ensures
            r == self@.period,
    {
        self.period
    }

    /// Current average of the window, rounded down; zero before any sample.
    pub fn value(&self) -> (r: i128)
        requires
            self.wf(),
        ensures
            r == mean(self@.window),
    {
        self.value
    }

    pub fn count(&self) -> (r: usize)
        requires
            self.wf(),
        ensures
            r == self@.count,
    {
        self.count
    }

    pub fn is_initialized(&self) -> (r: bool)
        requires
            self.wf(),
        ensures
            r == (self@.count >= self@.period),
    {
        self.initialized
    }

    /// Folds one sample into the average.
    pub fn update_raw(&mut self, x: i128)
        requires
            old(self).wf(),
            sample_ok(x),
            old(self)@.count < usize::MAX,
        ensures
            final(self).wf(),
            final(self)@ == (SmaView {
                period: old(self)@.period,
                window: slide(old(self)@.window, old(self)@.period, x),
                count: old(self)@.count + 1,
            }),
    {
        let ghost w0 = self.window@;
        if self.window.len() >= self.period {
            proof {
                lemma_sum_drop_first(w0);
                let t = w0.drop_first();
                assert forall|i: int| 0 <= i < t.len() implies sample_ok(#[trigger] t[i]) by {
                    assert(t[i] == w0[i + 1]);
                }
                lemma_sum_bound(t);
                assert(MAX_SAMPLE * t.len() <= MAX_SAMPLE * MAX_PERIOD) by (nonlinear_arith)
                    requires
                        t.len() <= MAX_PERIOD,
                ;
            }
            let oldest = self.window.pop_front();
            match oldest {
                Some(o) => {
                    self.sum = self.sum - o;
                },
                None => {},
            }
        }
        let ghost w1 = self.window@;
        proof {
            assert forall|i: int| 0 <= i < w1.len() implies sample_ok(#[trigger] w1[i]) by {
                if w1.len() < w0.len() {
                    assert(w1[i] == w0[i + 1]);
                } else {
                    assert(w1[i] == w0[i]);
                }
            }
            lemma_sum_bound(w1);
            lemma_sum_push(w1, x);
            assert(MAX_SAMPLE * w1.len() <= MAX_SAMPLE * (MAX_PERIOD - 1)) by (nonlinear_arith)
                requires
                    w1.len() <= MAX_PERIOD - 1,
            ;
        }
        self.window.push_back(x);
        self.sum = self.sum + x;
        let n = self.window.len();
        self.value = floor_div(self.sum, n);
        self.count = self.count + 1;
        if self.count >= self.period {
            self.initialized = true;
        }
        proof {
            assert(self.window@ =~= slide(w0, self.period as nat, x));
        }
    }

    /// Returns the average to its state before any sample.
    pub fn reset(&mut self)
        requires
            old(self).wf(),
        ensures
            final(self).wf(),
            final(self)@ == (SmaView { period: old(self)@.period, window: Seq::empty(), count: 0 }),
    {
        self.window.clear();
        self.sum = 0;
        self.value = 0;
        self.count = 0;
        self.initialized = false;
    }
}

/// Exponential smoothing step with weight `2 / (period + 1)` on the new
/// sample, rounded down; the first sample is taken as it is.
pub open spec fn ema_next(value: int, period: nat, count: nat, x: int) -> int {
    if count == 0 {
        x
    } else {
        value + (2 * (x - value)) / (period + 1) as int
    }
}

/// Abstract state of an exponential moving average.
pub ghost struct EmaView {
    pub period: nat,
    pub value: int,
    pub count: nat,
}

/// An exponential moving average with smoothing weight `2 / (period + 1)`.
pub struct ExponentialMovingAverage {
    period: usize,
    value: i128,
    count: usize,
    initialized: bool,
}

impl View for ExponentialMovingAverage {
    type V = EmaView;

    closed spec fn view(&self) -> EmaView {
        EmaView { period: self.period as nat, value: self.value as int, count: self.count as nat }
    }
}

proof fn lemma_ema_between(v: int, p: int, x: int)
    requires
        p >= 1,
    ensures
        v <= x ==> v <= v + (2 * (x - v)) / (p + 1) <= x,
        x <= v ==> x <= v + (2 * (x - v)) / (p + 1) <= v,
{
    let d = x - v;
    let q = (2 * d) / (p + 1);
    let r = (2 * d) % (p + 1);
    vstd::arithmetic::div_mod::lemma_fundamental_div_mod(2 * d, p + 1);
    vstd::arithmetic::div_mod::lemma_mod_bound(2 * d, p + 1);
    assert(d >= 0 ==> 0 <= q <= d) by (nonlinear_arith)
        requires
            2 * d == (p + 1) * q + r,
            0 <= r < p + 1,
            p >= 1,
    ;
    assert(d <= 0 ==> d <= q <= 0) by (nonlinear_arith)
        requires
            2 * d == (p + 1) * q + r,
            0 <= r < p + 1,
            p >= 1,
    ;
}

impl ExponentialMovingAverage {
    pub closed spec fn wf(&self) -> bool {
        &&& 1 <= self.period <= MAX_PERIOD
        &&& sample_ok(self.value)
        &&& self.count == 0 ==> self.value == 0
        &&& self.initialized == (self.count >= self.period)
    }

    pub fn new(period: usize) -> (r: Self)
        requires
            1 <= period <= MAX_PERIOD,
        ensures
            r.wf(),
            r@ == (EmaView { period: period as nat, value: 0, count: 0 }),
    {
        ExponentialMovingAverage { period, value: 0, count: 0, initialized: false }
    }

    /// Current smoothed value; zero before any sample.
    pub fn value(&self) -> (r: i128)
        requires
            self.wf(),
        ensures
            r == self@.value,
    {
        self.value
    }

    pub fn count(&self) -> (r: usize)
        requires
            self.wf(),
        ensures
            r == self@.count,
    {
        self.count
    }

    pub fn is_initialized(&self) -> (r: bool)
        requires
            self.wf(),
        ensures
            r == (self@.count >= self@.period),
    {
        self.initialized
    }

    /// Folds one sample into the average.
    pub fn update_raw(&mut self, x: i128)
        requires
            old(self).wf(),
            sample_ok(x),
            old(self)@.count < usize::MAX,
        ensures
            final(self).wf(),
            final(self)@ == (EmaView {
                period: old(self)@.period,
                value: ema_next(old(self)@.value, old(self)@.period, old(self)@.count, x as int),
                count: old(self)@.count + 1,
            }),
    {
        if self.count == 0 {
            self.value = x;
        } else {
            proof {
                lemma_ema_between(self.value as int, self.period as int, x as int);
            }
            let d: i128 = 2 * (x - self.value);
            let step = floor_div(d, self.period + 1);
            self.value = self.value + step;
        }
        self.count = self.count + 1;
        if self.count >= self.period {
            self.initialized = true;
        }
    }

    /// Returns the average to its state before any sample.
    pub fn reset(&mut self)
        requires
            old(self).wf(),
        ensures
            final(self).wf(),
            final(self)@ == (EmaView { period: old(self)@.period, value: 0, count: 0 }),
    {
        self.value = 0;
        self.count = 0;
        self.initialized = false;
    }
}

/// Division rounded toward negative infinity.
pub fn floor_div(a: i128, n: usize) -> (r: i128)
    requires
        n >= 1,
        n <= MAX_PERIOD + 1,
    ensures
        r == a as int / n as int,
{
    let d = n as i128;
    if a >= 0 {
        a / d
    } else {
        let q = (-(a + 1)) / d;
        proof {
            let ai = a as int;
            let di = d as int;
            let qi = q as int;
            assert(qi == (-(ai + 1)) / di);
            lemma_floor_neg(ai, di);
        }
        -q - 1
    }
}

proof fn lemma_floor_neg(a: int, d: int)
    requires
        a < 0,
        d >= 1,
    ensures
        a / d == -((-(a + 1)) / d) - 1,
{
    let q = (-(a + 1)) / d;
    let r = (-(a + 1)) % d;
    vstd::arithmetic::div_mod::lemma_fundamental_div_mod(-(a + 1), d);
    vstd::arithmetic::div_mod::lemma_mod_bound(-(a + 1), d);
    // a = -(q*d + r) - 1 = (-q - 1) * d + (d - 1 - r)
    assert(a == (-q - 1) * d + (d - 1 - r)) by (nonlinear_arith)
        requires
            -(a + 1) == d * q + r,
    ;
    vstd::arithmetic::div_mod::lemma_fundamental_div_mod_converse(a, d, -q - 1, d - 1 - r);
}


/// Which smoothing algorithm a moving average uses.
#[derive(Clone, Copy, Debug, PartialEq, Eq, Structural)]
pub enum MovingAverageType {
    Simple,
    Exponential,
}

/// Abstract state of a moving average of either kind.
pub ghost enum MaView {
    Simple(SmaView),
    Exponential(EmaView),
}

/// The state of a fresh moving average of the given kind.
pub open spec fn ma_initial(kind: MovingAverageType, period: nat) -> MaView {
    match kind {
        MovingAverageType::Simple => MaView::Simple(
            SmaView { period, window: Seq::empty(), count: 0 },
        ),
        MovingAverageType::Exponential => MaView::Exponential(
            EmaView { period, value: 0, count: 0 },
        ),
    }
}

/// The state after one more sample.
pub open spec fn ma_step(m: MaView, x: i128) -> MaView {
    match m {
        MaView::Simple(s) => MaView::Simple(
            SmaView { period: s.period, window: slide(s.window, s.period, x), count: s.count + 1 },
        ),
        MaView::Exponential(e) => MaView::Exponential(
            EmaView {
                period: e.period,
                value: ema_next(e.value, e.period, e.count, x as int),
                count: e.count + 1,
            },
        ),
    }
}

/// The value that a moving average reports in a state.
pub open spec fn ma_value(m: MaView) -> int {
    match m {
        MaView::Simple(s) => mean(s.window),
        MaView::Exponential(e) => e.value,
    }
}

pub open spec fn ma_count(m: MaView) -> nat {
    match m {
        MaView::Simple(s) => s.count,
        MaView::Exponential(e) => e.count,
    }
}

pub open spec fn ma_period(m: MaView) -> nat {
    match m {
        MaView::Simple(s) => s.period,
        MaView::Exponential(e) => e.period,
    }
}

pub open spec fn ma_kind(m: MaView) -> MovingAverageType {
    match m {
        MaView::Simple(_) => MovingAverageType::Simple,
        MaView::Exponential(_) => MovingAverageType::Exponential,
    }
}

/// A moving average of one of the supported kinds, owned by its user.
pub enum MovingAverage {
    Simple(SimpleMovingAverage),
    Exponential(ExponentialMovingAverage),
}

impl View for MovingAverage {
    type V = MaView;

    open spec fn view(&self) -> MaView {
        match self {
            MovingAverage::Simple(s) => MaView::Simple(s@),
            MovingAverage::Exponential(e) => MaView::Exponential(e@),
        }
    }
}

impl MovingAverage {
    pub open spec fn wf(&self) -> bool {
        match self {
            MovingAverage::Simple(s) => s.wf(),
            MovingAverage::Exponential(e) => e.wf(),
        }
    }

    pub fn value(&self) -> (r: i128)
        requires
            self.wf(),
        ensures
            r == ma_value(self@),
    {
        match self {
            MovingAverage::Simple(s) => s.value(),
            MovingAverage::Exponential(e) => e.value(),
        }
    }

    pub fn is_initialized(&self) -> (r: bool)
        requires
            self.wf(),
        ensures
            r == (ma_count(self@) >= ma_period(self@)),
    {
        match self {
            MovingAverage::Simple(s) => s.is_initialized(),
            MovingAverage::Exponential(e) => e.is_initialized(),
        }
    }

    pub fn update_raw(&mut self, x: i128)
        requires
            old(self).wf(),
            sample_ok(x),
            ma_count(old(self)@) < usize::MAX,
        ensures
            final(self).wf(),
            final(self)@ == ma_step(old(self)@, x),
    {
        match self {
            MovingAverage::Simple(s) => s.update_raw(x),
            MovingAverage::Exponential(e) => e.update_raw(x),
        }
    }

    pub fn reset(&mut self)
        requires
            old(self).wf(),
        ensures
            final(self).wf(),
            final(self)@ == ma_initial(ma_kind(old(self)@), ma_period(old(self)@)),
    {
        match self {
            MovingAverage::Simple(s) => s.reset(),
            MovingAverage::Exponential(e) => e.reset(),
        }
    }
}

/// Builds a moving average of the kind a tag selects.
pub struct MovingAverageFactory;

impl MovingAverageFactory {
    pub fn create(kind: MovingAverageType, period: usize) -> (r: MovingAverage)
        requires
            1 <= period <= MAX_PERIOD,
        ensures
            r.wf(),
            r@ == ma_initial(kind, period as nat),
    {
        match kind {
            MovingAverageType::Simple => MovingAverage::Simple(SimpleMovingAverage::new(period)),
            MovingAverageType::Exponential => MovingAverage::Exponential(
                ExponentialMovingAverage::new(period),
            ),
        }
    }
}

} // verus!

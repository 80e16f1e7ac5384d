use vstd::prelude::*;

use crate::data::{Bar, QuoteTick, TradeTick};

verus! {

/// The lifecycle every streaming indicator offers: it takes market events
/// one at a time, reports whether it has seen input and whether it has seen
/// enough, and can be returned to its state before any input.
pub trait Indicator: Sized {
    /// The indicator's internal consistency, kept by every method.
    spec fn inv(&self) -> bool;

    /// How many more events the indicator can take.
    spec fn capacity_left(&self) -> nat;

    /// The indicator's identifier.
    spec fn spec_name(&self) -> Seq<char>;

    /// Whether the indicator has received any input since the last reset.
    spec fn spec_has_inputs(&self) -> bool;

    /// Whether the indicator has received enough input to be meaningful.
    spec fn spec_is_initialized(&self) -> bool;

    /// How one bar changes the indicator.
    spec fn bar_step(before: Self, after: Self, bar: Bar) -> bool;

    /// How one quote changes the indicator.
    spec fn quote_step(before: Self, after: Self, tick: QuoteTick) -> bool;

    /// How one trade changes the indicator.
    spec fn trade_step(before: Self, after: Self, tick: TradeTick) -> bool;

    /// How `reset` changes the indicator: configuration kept, input gone.
    spec fn reset_step(before: Self, after: Self) -> bool;

    fn name(&self) -> (r: String)
        ensures
            r@ == self.spec_name(),
    ;

    fn has_inputs(&self) -> (r: bool)
        requires
            self.inv(),
        ensures
            r == self.spec_has_inputs(),
    ;

    fn is_initialized(&self) -> (r: bool)
        requires
            self.inv(),
        ensures
            r == self.spec_is_initialized(),
    ;

    fn handle_quote_tick(&mut self, tick: &QuoteTick)
        requires
            old(self).inv(),
        ensures
            final(self).inv(),
            Self::quote_step(*old(self), *final(self), *tick),
    ;

    fn handle_trade_tick(&mut self, tick: &TradeTick)
        requires
            old(self).inv(),
        ensures
            final(self).inv(),
            Self::trade_step(*old(self), *final(self), *tick),
    ;

    fn handle_bar(&mut self, bar: &Bar)
        requires
            old(self).inv(),
            old(self).capacity_left() > 0,
        ensures
            final(self).inv(),
            Self::bar_step(*old(self), *final(self), *bar),
    ;

    fn reset(&mut self)
        requires
            old(self).inv(),
        ensures
            final(self).inv(),
            !final(self).spec_has_inputs(),
            !final(self).spec_is_initialized(),
            Self::reset_step(*old(self), *final(self)),
    ;
}

} // verus!

//! Pluggable signal generators and the built-in momentum strategy.
//!
//! The momentum strategy looks at the most recent `lookback_period`
//! samples of an instrument's history.  It emits a signal when the
//! relative price change over that window clears its threshold and the
//! average traded volume over the window clears a fixed floor.

use vstd::prelude::*;

use crate::types::{abs_i, OrderBook, OrderSide, Price, TradingSignal, MAX_AMOUNT, SCALE};

verus! {

/// Largest supported lookback window.
pub const MAX_LOOKBACK: usize = 1_000_000;

/// Average traded volume a window must exceed before a signal is
/// emitted: 1000 whole units, at fixed-point scale.
pub const VOLUME_FLOOR: i64 = 100_000_000_000;

/// Quantity attached to every emitted signal: 0.001 whole units, at
/// fixed-point scale.
pub const ORDER_QUANTITY: i64 = 100_000;

/// Momentum threshold the orchestrator configures by default: a
/// relative change of 0.00001 at fixed-point scale.  Deliberately tiny;
/// treat it as a configuration input, not a recommendation.
pub const DEFAULT_MOMENTUM_THRESHOLD: i64 = 1000;

/// Every sample is inside the bounded arithmetic model.
pub open spec fn samples_wf(prices: Seq<Price>) -> bool {
    forall|i: int| 0 <= i < prices.len() ==> prices[i].wf()
}

/// The fields of a recommendation, as a specification value: what a
/// strategy promises about the `TradingSignal` it hands back.
pub ghost struct SignalData {
    pub symbol: Seq<char>,
    pub action: OrderSide,
    pub confidence: int,
    pub target_price: int,
    pub quantity: int,
}

/// Whether an executable signal carries exactly the promised fields.
pub open spec fn signal_matches(r: Option<TradingSignal>, s: Option<SignalData>) -> bool {
    match (r, s) {
        (Option::None, Option::None) => true,
        (Option::Some(sig), Option::Some(d)) => {
            &&& sig.symbol@ == d.symbol
            &&& sig.action == d.action
            &&& sig.confidence == d.confidence
            &&& sig.target_price == d.target_price
            &&& sig.quantity == d.quantity
        },
        _ => false,
    }
}

/// Sum of the traded volumes of `prices[from .. to]`.
pub open spec fn volume_sum_range(prices: Seq<Price>, from: int, to: int) -> int
    decreases to - from,
{
    if from >= to {
        0
    } else {
        volume_sum_range(prices, from, to - 1) + prices[to - 1].volume
    }
}

/// A signal generator: zero or one recommendation per instrument per
/// cycle, derived from recent history and the current order book.
/// Each implementation says through `spec_signal` exactly which
/// recommendation it produces from which inputs, and `analyze` is held
/// to it.
pub trait TradingStrategy: Send + Sync {
    /// The recommendation this strategy produces for the given history
    /// and order book, if any.
    spec fn spec_signal(&self, prices: Seq<Price>, orderbook: OrderBook) -> Option<SignalData>;

    /// The strategy's display name.
    spec fn spec_name(&self) -> Seq<char>;

    fn analyze(&self, prices: &Vec<Price>, orderbook: &OrderBook) -> (r: Option<TradingSignal>)
        ensures
            signal_matches(r, self.spec_signal(prices@, *orderbook)),
    ;

    fn name(&self) -> (r: &str)
        ensures
            r@ == self.spec_name(),
    ;
}

/// The built-in momentum strategy.
pub struct MomentumStrategy {
    pub lookback_period: usize,
    pub momentum_threshold: i64,
}

impl MomentumStrategy {
    /// Parameters are in range for the bounded arithmetic model.
    pub open spec fn wf(self) -> bool {
        &&& self.lookback_period <= MAX_LOOKBACK
        &&& 0 <= self.momentum_threshold <= MAX_AMOUNT
    }

    pub fn new(lookback_period: usize, momentum_threshold: i64) -> (r: Self)
        requires
            lookback_period <= MAX_LOOKBACK,
            0 <= momentum_threshold <= MAX_AMOUNT,
        ensures
            r.lookback_period == lookback_period,
            r.momentum_threshold == momentum_threshold,
            r.wf(),
    {
        MomentumStrategy { lookback_period, momentum_threshold }
    }

    /// Whether a window exists: enough samples for the lookback, at
    /// least two points in the window, and a positive window-opening
    /// price to take the relative change against.
    pub open spec fn has_window(self, prices: Seq<Price>) -> bool {
        let n = prices.len() as int;
        let l = self.lookback_period as int;
        &&& n >= l
        &&& l >= 2
        &&& prices[n - l].price > 0
    }

    /// The price change over the window: newest minus oldest sample.
    pub open spec fn spec_change(self, prices: Seq<Price>) -> int {
        let n = prices.len() as int;
        let l = self.lookback_period as int;
        prices[n - 1].price - prices[n - l].price
    }

    /// Whether the strategy emits a signal: a window exists, the
    /// relative change `|newest - oldest| / oldest` strictly exceeds
    /// the threshold, and the average volume over the window strictly
    /// exceeds the floor (both compared at matching scale).
    pub open spec fn emits(self, prices: Seq<Price>) -> bool {
        let n = prices.len() as int;
        let l = self.lookback_period as int;
        &&& self.has_window(prices)
        &&& abs_i(self.spec_change(prices)) * SCALE > self.momentum_threshold * prices[n
            - l].price
        &&& volume_sum_range(prices, n - l, n) > VOLUME_FLOOR * l
    }

    /// The emitted confidence: the relative change, truncated to the
    /// fixed-point scale and capped at 1.0.
    pub open spec fn spec_confidence(self, prices: Seq<Price>) -> int {
        let n = prices.len() as int;
        let l = self.lookback_period as int;
        let c = abs_i(self.spec_change(prices)) * SCALE / (prices[n - l].price as int);
        if c > SCALE {
            SCALE as int
        } else {
            c
        }
    }

    /// The emitted side: buy on a positive change, sell otherwise.
    pub open spec fn spec_action(self, prices: Seq<Price>) -> OrderSide {
        if self.spec_change(prices) > 0 {
            OrderSide::Buy
        } else {
            OrderSide::Sell
        }
    }

    /// Evaluates the momentum rule over the window of the most recent
    /// `lookback_period` samples.  The order book is not consulted.
    pub fn analyze(&self, prices: &Vec<Price>, _orderbook: &OrderBook) -> (r: Option<
        TradingSignal,
    >)
        requires
            self.wf(),
            forall|i: int| 0 <= i < prices@.len() ==> prices@[i].wf(),
        ensures
            r is Some <==> self.emits(prices@),
            match r {
                Some(s) => {
                    &&& s.symbol@ == prices@[0].symbol@
                    &&& s.action == self.spec_action(prices@)
                    &&& s.confidence == self.spec_confidence(prices@)
                    &&& s.target_price == prices@[prices@.len() - 1].price
                    &&& s.quantity == ORDER_QUANTITY
                },
                None => true,
            },
    {
        let n = prices.len();
        if n < self.lookback_period {
            return None;
        }
        if self.lookback_period < 2 {
            return None;
        }
        let start = n - self.lookback_period;
        let newest = prices[n - 1].price;
        let oldest = prices[start].price;
        if oldest <= 0 {
            return None;
        }
        let change: i64 = newest - oldest;
        let change_mag: i64 = if change < 0 {
            -change
        } else {
            change
        };
        let mut volume_sum: i128 = 0;
        let mut i: usize = start;
        while i < n
            invariant
                start <= i <= n,
                n == prices@.len(),
                forall|k: int| 0 <= k < prices@.len() ==> prices@[k].wf(),
                volume_sum == volume_sum_range(prices@, start as int, i as int),
                0 <= volume_sum <= (i - start) * MAX_AMOUNT,
            decreases n - i,
        {
            volume_sum = volume_sum + (prices[i].volume as i128);
            i += 1;
        }
        proof {
            assert(0 <= (change_mag as int) * (SCALE as int) <= MAX_AMOUNT * SCALE)
                by (nonlinear_arith)
                requires
                    0 <= change_mag <= MAX_AMOUNT,
            ;
            assert(0 <= (self.momentum_threshold as int) * (oldest as int) <= MAX_AMOUNT
                * MAX_AMOUNT) by (nonlinear_arith)
                requires
                    0 <= self.momentum_threshold <= MAX_AMOUNT,
                    0 <= oldest <= MAX_AMOUNT,
            ;
            assert(0 <= (VOLUME_FLOOR as int) * (self.lookback_period as int) <= VOLUME_FLOOR
                * MAX_LOOKBACK) by (nonlinear_arith)
                requires
                    0 <= self.lookback_period <= MAX_LOOKBACK,
            ;
        }
        let scaled_change: i128 = (change_mag as i128) * (SCALE as i128);
        let threshold_bar: i128 = (self.momentum_threshold as i128) * (oldest as i128);
        let volume_bar: i128 = (VOLUME_FLOOR as i128) * (self.lookback_period as i128);
        if scaled_change > threshold_bar && volume_sum > volume_bar {
            let quotient: u128 = ((change_mag as u128) * (SCALE as u128)) / (oldest as u128);
            let confidence: i64 = if quotient > (SCALE as u128) {
                SCALE
            } else {
                quotient as i64
            };
            Some(
                TradingSignal {
                    symbol: prices[0].symbol.clone(),
                    action: if change > 0 {
                        OrderSide::Buy
                    } else {
                        OrderSide::Sell
                    },
                    confidence,
                    target_price: newest,
                    quantity: ORDER_QUANTITY,
                },
            )
        } else {
            None
        }
    }
}

impl TradingStrategy for MomentumStrategy {
    /// Inputs outside the bounded arithmetic model yield no signal;
    /// inside it, exactly the momentum evaluation's signal.
    open spec fn spec_signal(&self, prices: Seq<Price>, _orderbook: OrderBook) -> Option<
        SignalData,
    > {
        if self.wf() && samples_wf(prices) && self.emits(prices) {
            Some(
                SignalData {
                    symbol: prices[0].symbol@,
                    action: self.spec_action(prices),
                    confidence: self.spec_confidence(prices),
                    target_price: prices[prices.len() - 1].price as int,
                    quantity: ORDER_QUANTITY as int,
                },
            )
        } else {
            None
        }
    }

    open spec fn spec_name(&self) -> Seq<char> {
        "MomentumStrategy"@
    }

    /// The unguarded entry point of the strategy interface; inputs
    /// outside the bounded arithmetic model yield no signal.
    fn analyze(&self, prices: &Vec<Price>, orderbook: &OrderBook) -> (r: Option<TradingSignal>)
        ensures
            signal_matches(r, self.spec_signal(prices@, *orderbook)),
    {
        if self.lookback_period > MAX_LOOKBACK {
            return None;
        }
        if self.momentum_threshold < 0 || self.momentum_threshold > MAX_AMOUNT {
            return None;
        }
        let mut i: usize = 0;
        while i < prices.len()
            invariant
                0 <= i <= prices@.len(),
                forall|k: int| 0 <= k < i ==> prices@[k].wf(),
            decreases prices@.len() - i,
        {
            let p = &prices[i];
            if p.price < 0 || p.price > MAX_AMOUNT || p.volume < 0 || p.volume > MAX_AMOUNT {
                return None;
            }
            i += 1;
        }
        self.analyze(prices, orderbook)
    }

    fn name(&self) -> (r: &str)
        ensures
            r@ == self.spec_name(),
    {
        "MomentumStrategy"
    }
}

} // verus!

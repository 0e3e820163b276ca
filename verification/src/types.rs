//! Core data model: price samples, order-book snapshots, orders,
//! positions, signals and risk limits.
//!
//! Every money-like quantity (price, traded volume, order quantity,
//! profit-and-loss) is a fixed-point integer: the real value multiplied
//! by [`SCALE`].  Fractions such as the stop-loss percentage use the same
//! scale, so `SCALE` itself stands for 1.0.  Values kept by the library
//! are bounded by [`MAX_AMOUNT`] so that the products the risk checks
//! take never overflow an `i128`.

use vstd::prelude::*;

verus! {

/// Fixed-point scale: one whole unit of price, quantity or volume.
pub const SCALE: i64 = 100_000_000;

/// Bound on every stored fixed-point amount (one million whole units).
pub const MAX_AMOUNT: i64 = 100_000_000_000_000;

/// Absolute value over mathematical integers.
pub open spec fn abs_i(a: int) -> int {
    if a >= 0 {
        a
    } else {
        -a
    }
}

/// Division truncating toward zero, as the executable code computes it
/// on magnitudes.  (The `/` of spec arithmetic is Euclidean, which
/// differs on negative operands.)
pub open spec fn tdiv(a: int, b: int) -> int {
    if (a >= 0) == (b >= 0) {
        abs_i(a) / abs_i(b)
    } else {
        -(abs_i(a) / abs_i(b))
    }
}

/// One price sample for an instrument, immutable once created.
#[derive(Debug, Clone)]
pub struct Price {
    pub symbol: String,
    /// Fixed-point price, scaled by `SCALE`.
    pub price: i64,
    /// Unix seconds at observation.
    pub timestamp: u64,
    /// Fixed-point traded volume, scaled by `SCALE`.
    pub volume: i64,
}

impl Price {
    /// Amounts are in range for the bounded arithmetic model.
    pub open spec fn wf(self) -> bool {
        &&& 0 <= self.price <= MAX_AMOUNT
        &&& 0 <= self.volume <= MAX_AMOUNT
    }
}

/// An order-book snapshot: price levels as (price, quantity) pairs,
/// replaced wholesale on each fetch.
#[derive(Debug, Clone)]
pub struct OrderBook {
    pub symbol: String,
    pub bids: Vec<(i64, i64)>,
    pub asks: Vec<(i64, i64)>,
    pub timestamp: u64,
}

#[derive(Debug, Clone, Copy, PartialEq, Eq, Structural)]
pub enum OrderSide {
    Buy,
    Sell,
}

#[derive(Debug, Clone, Copy, PartialEq, Eq, Structural)]
pub enum OrderType {
    Market,
    Limit,
}

/// An order handed to the execution venue.
#[derive(Debug, Clone)]
pub struct Order {
    /// Unique for the lifetime of the process; the sole key for
    /// pending-order removal.
    pub id: String,
    pub symbol: String,
    pub side: OrderSide,
    pub order_type: OrderType,
    /// Fixed-point quantity, scaled by `SCALE`; never negative.
    pub quantity: i64,
    /// Limit price; `None` for market orders.
    pub price: Option<i64>,
    /// Unix seconds at creation.
    pub timestamp: u64,
}

impl Order {
    pub open spec fn wf(self) -> bool {
        0 <= self.quantity <= MAX_AMOUNT
    }

    /// The signed quantity this order applies to a position:
    /// buys increase it, sells decrease it.
    pub open spec fn signed_quantity(self) -> int {
        match self.side {
            OrderSide::Buy => self.quantity as int,
            OrderSide::Sell => -(self.quantity as int),
        }
    }
}

/// Net holding for one instrument: signed quantity (positive = long)
/// and volume-weighted average entry price.
#[derive(Debug, Clone)]
pub struct Position {
    pub symbol: String,
    /// Fixed-point signed quantity.
    pub quantity: i64,
    /// Fixed-point average entry price.
    pub avg_price: i64,
    /// Not recomputed by this design; carried along unchanged.
    pub unrealized_pnl: i64,
}

impl Position {
    pub open spec fn wf(self) -> bool {
        -MAX_AMOUNT <= self.quantity <= MAX_AMOUNT
    }
}

/// A strategy's recommendation, consumed immediately by the
/// orchestrator and never stored.
#[derive(Debug, Clone)]
pub struct TradingSignal {
    pub symbol: String,
    pub action: OrderSide,
    /// Fixed-point confidence in [0, SCALE].
    pub confidence: i64,
    pub target_price: i64,
    pub quantity: i64,
}

/// Risk limits: configuration, not runtime state.
#[derive(Debug, Clone, PartialEq, Eq, Structural)]
pub struct RiskParams {
    /// Largest allowed absolute position quantity.
    pub max_position_size: i64,
    /// Largest allowed potential loss of a single trade.
    pub max_loss_per_trade: i64,
    /// Daily loss beyond which every order is rejected.
    pub max_daily_loss: i64,
    /// Stop-loss fraction, scaled by `SCALE`.
    pub stop_loss_pct: i64,
    /// Take-profit fraction, scaled by `SCALE`.
    pub take_profit_pct: i64,
}

impl RiskParams {
    pub open spec fn wf(self) -> bool {
        &&& 0 <= self.max_position_size <= MAX_AMOUNT
        &&& 0 <= self.max_loss_per_trade <= MAX_AMOUNT
        &&& 0 <= self.max_daily_loss <= MAX_AMOUNT
        &&& 0 <= self.stop_loss_pct <= SCALE
        &&& 0 <= self.take_profit_pct <= SCALE
    }
}

impl Default for RiskParams {
    /// 1000 units max position, 100 max loss per trade, 500 max daily
    /// loss, 2% stop loss, 4% take profit.
    fn default() -> (r: Self)
        ensures
            r.max_position_size == 1000 * SCALE,
            r.max_loss_per_trade == 100 * SCALE,
            r.max_daily_loss == 500 * SCALE,
            r.stop_loss_pct == 2 * SCALE / 100,
            r.take_profit_pct == 4 * SCALE / 100,
            r.wf(),
    {
        RiskParams {
            max_position_size: 100_000_000_000,
            max_loss_per_trade: 10_000_000_000,
            max_daily_loss: 50_000_000_000,
            stop_loss_pct: 2_000_000,
            take_profit_pct: 4_000_000,
        }
    }
}

/// Connection settings for the execution venue; the library treats this
/// as an opaque value object.
#[derive(Debug, Clone)]
pub struct ExchangeConfig {
    pub api_key: String,
    pub secret_key: String,
    pub base_url: String,
    pub testnet: bool,
}

} // verus!

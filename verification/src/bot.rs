//! The trading orchestrator's decision logic.
//!
//! The orchestrator owns the run flag, the strategy set, the risk
//! tracker, the pending-order executor and the price-history store.
//! The surrounding process drives it: collector tasks feed samples into
//! [`RealTradingBot::record_price`], and the decision loop asks
//! [`RealTradingBot::decide_order`] for a risk-approved order, records
//! it as pending, performs the venue call, and hands the outcome to
//! [`RealTradingBot::settle_submission`].

use vstd::prelude::*;

use crate::executor::{
    contains_id, lemma_failed_submission_restores_pending, remove_all_id, RealOrderExecutor,
};
use crate::history::{push_bounded, spec_history, PriceHistoryStore};
use crate::risk::{position_updated, RiskManager};
use crate::strategy::{MomentumStrategy, DEFAULT_MOMENTUM_THRESHOLD, ORDER_QUANTITY};
use crate::types::{Order, OrderBook, OrderSide, OrderType, Position, Price, RiskParams, MAX_AMOUNT};
use crate::util::fresh_order_id;

verus! {

/// Samples an instrument must have recorded before the decision loop
/// evaluates strategies against it.
pub const MIN_DECISION_POINTS: usize = 3;

/// The orchestrator: run/stop lifecycle plus the per-cycle decision
/// step tying strategies, risk gate and executor together.
pub struct RealTradingBot {
    pub strategies: Vec<MomentumStrategy>,
    pub risk_manager: RiskManager,
    pub order_executor: RealOrderExecutor,
    pub price_history: PriceHistoryStore,
    pub is_running: bool,
}

impl RealTradingBot {
    pub open spec fn wf(self) -> bool {
        &&& self.risk_manager.wf()
        &&& self.price_history.wf()
        &&& forall|i: int| 0 <= i < self.strategies@.len() ==> self.strategies@[i].wf()
    }

    /// The history recorded for `sym`, empty when none is.
    pub open spec fn spec_history_for(self, sym: Seq<char>) -> Seq<Price> {
        match spec_history(self.price_history.entries@, sym) {
            Some(h) => h,
            None => Seq::empty(),
        }
    }

    /// Whether `sym` has enough recorded samples for a decision.
    pub open spec fn decision_ready(self, sym: Seq<char>) -> bool {
        &&& spec_history(self.price_history.entries@, sym) is Some
        &&& self.spec_history_for(sym).len() >= MIN_DECISION_POINTS
    }

    /// The signed quantity of the order strategy `i` would place for
    /// the instrument: buys positive, sells negative.
    pub open spec fn proposed_signed_quantity(self, i: int, sym: Seq<char>) -> int {
        match self.strategies@[i].spec_action(self.spec_history_for(sym)) {
            OrderSide::Buy => ORDER_QUANTITY as int,
            OrderSide::Sell => -(ORDER_QUANTITY as int),
        }
    }

    /// Whether the risk gate approves the order strategy `i` would
    /// place for the instrument.
    pub open spec fn risk_approves(self, i: int, sym: Seq<char>) -> bool {
        let hist = self.spec_history_for(sym);
        self.risk_manager.validate_fields_spec(
            hist[0].symbol@,
            self.proposed_signed_quantity(i, sym),
            ORDER_QUANTITY as int,
            hist[hist.len() - 1].price as int,
        )
    }

    /// A stopped orchestrator with one momentum strategy (lookback 5,
    /// the deliberately tiny default threshold), default risk limits,
    /// and an empty bounded history.
    pub fn new() -> (r: Self)
        ensures
            r.wf(),
            !r.is_running,
            r.strategies@.len() == 1,
            r.strategies@[0].lookback_period == 5,
            r.strategies@[0].momentum_threshold == DEFAULT_MOMENTUM_THRESHOLD,
            r.risk_manager.spec_params() == (RiskParams {
                max_position_size: 100_000_000_000,
                max_loss_per_trade: 10_000_000_000,
                max_daily_loss: 50_000_000_000,
                stop_loss_pct: 2_000_000,
                take_profit_pct: 4_000_000,
            }),
            r.risk_manager.spec_daily_pnl() == 0,
            r.risk_manager.spec_positions() =~= Seq::<Position>::empty(),
            r.order_executor.pending_orders@ =~= Seq::<Order>::empty(),
            r.price_history.entries@ =~= Seq::<(String, Vec<Price>)>::empty(),
    {
        let mut strategies: Vec<MomentumStrategy> = Vec::new();
        strategies.push(MomentumStrategy::new(5, DEFAULT_MOMENTUM_THRESHOLD));
        RealTradingBot {
            strategies,
            risk_manager: RiskManager::new(RiskParams::default()),
            order_executor: RealOrderExecutor::new(),
            price_history: PriceHistoryStore::new_default(),
            is_running: false,
        }
    }

    /// Flips the shared run flag on; collector and decision tasks run
    /// while it stays on.
    pub fn start(&mut self)
        requires
            old(self).wf(),
        ensures
            final(self).wf(),
            final(self).is_running,
            final(self).strategies@ == old(self).strategies@,
            final(self).risk_manager == old(self).risk_manager,
            final(self).order_executor == old(self).order_executor,
            final(self).price_history == old(self).price_history,
    {
        self.is_running = true;
    }

    /// Flips the shared run flag off; tasks observe it at their next
    /// loop-top check and exit.
    pub fn stop(&mut self)
        requires
            old(self).wf(),
        ensures
            final(self).wf(),
            !final(self).is_running,
            final(self).strategies@ == old(self).strategies@,
            final(self).risk_manager == old(self).risk_manager,
            final(self).order_executor == old(self).order_executor,
            final(self).price_history == old(self).price_history,
    {
        self.is_running = false;
    }

    /// The collector write path: appends one sample to its
    /// instrument's bounded history.
    pub fn record_price(&mut self, price: Price)
        requires
            old(self).wf(),
            price.wf(),
        ensures
            final(self).wf(),
            final(self).strategies@ == old(self).strategies@,
            final(self).risk_manager == old(self).risk_manager,
            final(self).order_executor == old(self).order_executor,
            final(self).is_running == old(self).is_running,
            final(self).price_history.bound == old(self).price_history.bound,
            spec_history(final(self).price_history.entries@, price.symbol@) == Some(
                push_bounded(
                    old(self).spec_history_for(price.symbol@),
                    price,
                    old(self).price_history.bound as nat,
                ),
            ),
            forall|t: Seq<char>|
                t != price.symbol@ ==> spec_history(final(self).price_history.entries@, t)
                    == spec_history(old(self).price_history.entries@, t),
    {
        self.price_history.record(price);
    }

    /// One decision for one instrument and one strategy: evaluate the
    /// strategy over the recorded history (at least
    /// `MIN_DECISION_POINTS` samples) and the fresh order-book
    /// snapshot, synthesize a market order from the signal (fresh id,
    /// no limit price), and hand it back only if the risk gate approves
    /// it.  Nothing is mutated.
    pub fn decide_order(
        &self,
        symbol: &str,
        strat_idx: usize,
        orderbook: &OrderBook,
        now: u64,
    ) -> (r: Option<(Order, i64)>)
        requires
            self.wf(),
            strat_idx < self.strategies@.len(),
        ensures
            r is Some <==> {
                &&& self.decision_ready(symbol@)
                &&& self.strategies@[strat_idx as int].emits(self.spec_history_for(symbol@))
                &&& self.risk_approves(strat_idx as int, symbol@)
            },
            match r {
                Some(decision) => {
                    let hist = self.spec_history_for(symbol@);
                    let order = decision.0;
                    &&& order.symbol@ == hist[0].symbol@
                    &&& order.side == self.strategies@[strat_idx as int].spec_action(hist)
                    &&& order.order_type == OrderType::Market
                    &&& order.quantity == ORDER_QUANTITY
                    &&& order.price is None
                    &&& order.timestamp == now
                    &&& order.id@.len() == 36
                    &&& decision.1 == hist[hist.len() - 1].price
                    &&& 0 <= decision.1 <= MAX_AMOUNT
                    &&& order.wf()
                    &&& self.risk_manager.validate_spec(order, decision.1 as int)
                },
                None => true,
            },
    {
        let prices = match self.price_history.history_of(symbol) {
            Some(h) => h,
            None => {
                return None;
            },
        };
        if prices.len() < MIN_DECISION_POINTS {
            return None;
        }
        let strat = &self.strategies[strat_idx];
        let signal = match strat.analyze(prices, orderbook) {
            Some(s) => s,
            None => {
                return None;
            },
        };
        let order = Order {
            id: fresh_order_id(),
            symbol: signal.symbol,
            side: signal.action,
            order_type: OrderType::Market,
            quantity: signal.quantity,
            price: None,
            timestamp: now,
        };
        if self.risk_manager.validate_order(&order, signal.target_price) {
            Some((order, signal.target_price))
        } else {
            None
        }
    }

    /// Settles a venue call's outcome for an order previously recorded
    /// as pending.  On success the pending record stays, and the fill
    /// is applied to the position at the signal's target price (skipped
    /// only when the bounded arithmetic model cannot hold the result).
    /// On failure the pending record is rolled back by id and no
    /// position changes.
    pub fn settle_submission(
        &mut self,
        order: &Order,
        target_price: i64,
        venue_result: Result<String, String>,
    ) -> (r: Result<String, String>)
        requires
            old(self).wf(),
            order.wf(),
            0 <= target_price <= MAX_AMOUNT,
        ensures
            final(self).wf(),
            r == venue_result,
            final(self).strategies@ == old(self).strategies@,
            final(self).price_history == old(self).price_history,
            final(self).is_running == old(self).is_running,
            match venue_result {
                Ok(_) => {
                    &&& final(self).order_executor == old(self).order_executor
                    &&& if old(self).risk_manager.can_update(
                        order.symbol@,
                        order.signed_quantity(),
                        target_price as int,
                    ) {
                        position_updated(
                            old(self).risk_manager,
                            final(self).risk_manager,
                            order.symbol@,
                            order.signed_quantity(),
                            target_price as int,
                        )
                    } else {
                        final(self).risk_manager == old(self).risk_manager
                    }
                },
                Err(_) => {
                    &&& final(self).order_executor.pending_orders@ == remove_all_id(
                        old(self).order_executor.pending_orders@,
                        order.id@,
                    )
                    &&& final(self).risk_manager == old(self).risk_manager
                },
            },
    {
        let signed: i64 = match order.side {
            OrderSide::Buy => order.quantity,
            OrderSide::Sell => -order.quantity,
        };
        match venue_result {
            Ok(venue_id) => {
                if self.risk_manager.position_update_fits(
                    order.symbol.as_str(),
                    signed,
                    target_price,
                ) {
                    self.risk_manager.update_position(order.symbol.as_str(), signed, target_price);
                }
                Ok(venue_id)
            },
            Err(error_msg) => {
                let rolled = self.order_executor.resolve_submission(
                    order.id.as_str(),
                    Err(error_msg),
                );
                rolled
            },
        }
    }
}

/// Law (failed submission is a no-op): start from any orchestrator
/// state, record an order with a fresh id as pending, and settle a
/// failing venue call for it.  `record_pending`'s and
/// `settle_submission`'s contracts describe the two steps; this law
/// concludes that the pending list is exactly what it was before the
/// submission began, and the position tracker is untouched.
pub proof fn lemma_failed_submission_leaves_state_unchanged(
    pre: RealTradingBot,
    mid: RealTradingBot,
    post: RealTradingBot,
    order: Order,
)
    requires
        !contains_id(pre.order_executor.pending_orders@, order.id@),
        mid.order_executor.pending_orders@ == pre.order_executor.pending_orders@.push(order),
        mid.risk_manager == pre.risk_manager,
        post.order_executor.pending_orders@ == remove_all_id(
            mid.order_executor.pending_orders@,
            order.id@,
        ),
        post.risk_manager == mid.risk_manager,
    ensures
        post.order_executor.pending_orders@ =~= pre.order_executor.pending_orders@,
        post.risk_manager == pre.risk_manager,
{
    lemma_failed_submission_restores_pending(pre.order_executor.pending_orders@, order);
}

} // verus!

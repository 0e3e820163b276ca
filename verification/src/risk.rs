//! Pre-trade risk validation and post-trade position bookkeeping.
//!
//! [`RiskManager::validate_order`] applies three independent gates in a
//! fixed order: the daily-loss gate, the position-size gate and the
//! per-trade-loss gate; any failing gate rejects.  All checks are pure
//! reads.  [`RiskManager::update_position`] applies a fill to the
//! per-instrument position map under the volume-weighted average-price
//! formula, skipping the average when the new quantity is exactly zero.

use vstd::prelude::*;

use crate::types::{abs_i, tdiv, Order, Position, RiskParams, MAX_AMOUNT, SCALE};
use crate::util::str_eq;

verus! {

/// The first position in `s` whose symbol reads `sym`, if any.
pub open spec fn spec_position(s: Seq<Position>, sym: Seq<char>) -> Option<Position>
    decreases s.len(),
{
    if s.len() == 0 {
        None
    } else if s[0].symbol@ == sym {
        Some(s[0])
    } else {
        spec_position(s.drop_first(), sym)
    }
}

/// If no position in the first `k` entries carries `sym`, the lookup is
/// decided by the remaining entries.
proof fn lemma_spec_position_skip(s: Seq<Position>, sym: Seq<char>, k: int)
    requires
        0 <= k <= s.len(),
        forall|i: int| 0 <= i < k ==> s[i].symbol@ != sym,
    ensures
        spec_position(s, sym) == spec_position(s.skip(k), sym),
    decreases k,
{
    if k > 0 {
        assert(s.drop_first() =~= s.skip(1));
        lemma_spec_position_skip(s.drop_first(), sym, k - 1);
        assert(s.drop_first().skip(k - 1) =~= s.skip(k));
    } else {
        assert(s.skip(0) =~= s);
    }
}

/// A lookup misses exactly when no entry carries the symbol.
pub proof fn lemma_spec_position_none(s: Seq<Position>, sym: Seq<char>)
    ensures
        spec_position(s, sym) is None <==> forall|i: int|
            0 <= i < s.len() ==> s[i].symbol@ != sym,
    decreases s.len(),
{
    if s.len() > 0 {
        lemma_spec_position_none(s.drop_first(), sym);
        assert forall|i: int| 0 <= i < s.drop_first().len() implies s.drop_first()[i]
            == s[i + 1] by {}
        if spec_position(s, sym) is None {
            assert forall|i: int| 0 <= i < s.len() implies s[i].symbol@ != sym by {
                if i > 0 {
                    assert(s.drop_first()[i - 1] == s[i]);
                }
            }
        }
        if forall|i: int| 0 <= i < s.len() ==> s[i].symbol@ != sym {
            assert forall|i: int|
                0 <= i < s.drop_first().len() implies s.drop_first()[i].symbol@ != sym by {
                assert(s.drop_first()[i] == s[i + 1]);
            }
        }
    }
}

/// Replacing the entry at `j` (keeping its symbol) rewrites that
/// symbol's lookup and leaves every other symbol's lookup unchanged.
proof fn lemma_spec_position_update(s1: Seq<Position>, s2: Seq<Position>, j: int, sym: Seq<char>)
    requires
        s1.len() == s2.len(),
        0 <= j < s1.len(),
        forall|i: int| 0 <= i < s1.len() && i != j ==> s1[i] == s2[i],
        s1[j].symbol@ == sym,
        s2[j].symbol@ == sym,
        forall|i: int| 0 <= i < j ==> s1[i].symbol@ != sym,
    ensures
        spec_position(s2, sym) == Some(s2[j]),
        forall|t: Seq<char>| t != sym ==> spec_position(s2, t) == spec_position(s1, t),
    decreases s1.len(),
{
    if j == 0 {
        assert forall|t: Seq<char>| t != sym implies spec_position(s2, t) == spec_position(
            s1,
            t,
        ) by {
            assert(s1.drop_first() =~= s2.drop_first());
        }
    } else {
        lemma_spec_position_update(s1.drop_first(), s2.drop_first(), j - 1, sym);
        assert(spec_position(s2, sym) == Some(s2[j]));
        assert forall|t: Seq<char>| t != sym implies spec_position(s2, t) == spec_position(
            s1,
            t,
        ) by {
            assert(s1[0] == s2[0]);
            if s1[0].symbol@ != t {
                assert(spec_position(s1, t) == spec_position(s1.drop_first(), t));
                assert(spec_position(s2, t) == spec_position(s2.drop_first(), t));
            }
        }
    }
}

/// Appending a position for a symbol that misses rewrites that symbol's
/// lookup and leaves every other symbol's lookup unchanged.
proof fn lemma_spec_position_push(s: Seq<Position>, p: Position, sym: Seq<char>)
    requires
        spec_position(s, sym) is None,
        p.symbol@ == sym,
    ensures
        spec_position(s.push(p), sym) == Some(p),
        forall|t: Seq<char>| t != sym ==> spec_position(s.push(p), t) == spec_position(s, t),
    decreases s.len(),
{
    if s.len() == 0 {
        assert(s.push(p)[0] == p);
        assert forall|t: Seq<char>| t != sym implies spec_position(s.push(p), t)
            == spec_position(s, t) by {
            assert(s.push(p)[0].symbol@ != t);
            assert(spec_position(s.push(p), t) == spec_position(s.push(p).drop_first(), t));
            assert(s.push(p).drop_first() =~= Seq::<Position>::empty());
            assert(spec_position(s.push(p).drop_first(), t) is None);
            assert(spec_position(s, t) is None);
        }
    } else {
        assert(s.push(p)[0] == s[0]);
        assert(s[0].symbol@ != sym);
        lemma_spec_position_push(s.drop_first(), p, sym);
        assert(s.push(p).drop_first() =~= s.drop_first().push(p));
        assert forall|t: Seq<char>| t != sym implies spec_position(s.push(p), t)
            == spec_position(s, t) by {
            if s[0].symbol@ != t {
                assert(spec_position(s.push(p), t) == spec_position(s.drop_first().push(p), t));
                assert(spec_position(s, t) == spec_position(s.drop_first(), t));
            }
        }
    }
}

/// How one applied fill relates the tracker's state after the call to
/// its state before: limits and daily profit-and-loss are untouched,
/// the filled instrument's position follows the average-price formula
/// (the average is left unchanged when the new quantity is exactly
/// zero), and every other instrument's position is untouched.
pub open spec fn position_updated(
    pre: RiskManager,
    post: RiskManager,
    sym: Seq<char>,
    quantity: int,
    price: int,
) -> bool {
    &&& post.params == pre.params
    &&& post.daily_pnl == pre.daily_pnl
    &&& match spec_position(post.positions@, sym) {
        Some(p) => {
            let old_q = pre.held_quantity(sym);
            let old_avg = pre.held_avg_price(sym);
            let new_q = old_q + quantity;
            &&& p.symbol@ == sym
            &&& p.quantity == new_q
            &&& p.avg_price == if new_q != 0 {
                tdiv(old_q * old_avg + quantity * price, new_q)
            } else {
                old_avg
            }
        },
        None => false,
    }
    &&& forall|t: Seq<char>|
        t != sym ==> spec_position(post.positions@, t) == spec_position(pre.positions@, t)
}

/// The weighted total cost of a fill applied to a bounded position is
/// far inside the `i128` range.
proof fn lemma_cost_bounds(old_q: int, old_avg: int, quantity: int, price: int)
    requires
        -MAX_AMOUNT <= old_q <= MAX_AMOUNT,
        -0x8000_0000_0000_0000 <= old_avg <= 0x7fff_ffff_ffff_ffff,
        -MAX_AMOUNT <= quantity <= MAX_AMOUNT,
        0 <= price <= MAX_AMOUNT,
    ensures
        abs_i(old_q * old_avg) <= MAX_AMOUNT * 0x8000_0000_0000_0000,
        abs_i(quantity * price) <= MAX_AMOUNT * MAX_AMOUNT,
        abs_i(old_q * old_avg + quantity * price) <= MAX_AMOUNT * 0x8000_0000_0000_0000
            + MAX_AMOUNT * MAX_AMOUNT,
{
    assert(-(MAX_AMOUNT * 0x8000_0000_0000_0000) <= old_q * old_avg <= MAX_AMOUNT
        * 0x8000_0000_0000_0000) by (nonlinear_arith)
        requires
            -MAX_AMOUNT <= old_q <= MAX_AMOUNT,
            -0x8000_0000_0000_0000 <= old_avg <= 0x7fff_ffff_ffff_ffff,
    ;
    assert(-(MAX_AMOUNT * MAX_AMOUNT) <= quantity * price <= MAX_AMOUNT * MAX_AMOUNT)
        by (nonlinear_arith)
        requires
            -MAX_AMOUNT <= quantity <= MAX_AMOUNT,
            0 <= price <= MAX_AMOUNT,
    ;
}

/// Division truncating toward zero, computed on magnitudes so that the
/// result matches [`tdiv`] exactly.
fn tdiv_exec(total: i128, nq: i128) -> (r: i128)
    requires
        nq != 0,
        -0x1000_0000_0000_0000_0000_0000_0000_0000 <= total
            <= 0x1000_0000_0000_0000_0000_0000_0000_0000,
        -0x1000_0000_0000_0000_0000_0000_0000_0000 <= nq
            <= 0x1000_0000_0000_0000_0000_0000_0000_0000,
    ensures
        r == tdiv(total as int, nq as int),
{
    let total_mag: u128 = if total >= 0 {
        total as u128
    } else {
        (-total) as u128
    };
    let new_mag: u128 = if nq >= 0 {
        nq as u128
    } else {
        (-nq) as u128
    };
    let quotient: u128 = total_mag / new_mag;
    proof {
        vstd::arithmetic::div_mod::lemma_div_nonincreasing(total_mag as int, new_mag as int);
        vstd::arithmetic::div_mod::lemma_div_pos_is_pos(total_mag as int, new_mag as int);
    }
    if (total >= 0) == (nq >= 0) {
        quotient as i128
    } else {
        -(quotient as i128)
    }
}

/// Pre-trade validator and post-trade position tracker.
pub struct RiskManager {
    pub params: RiskParams,
    pub daily_pnl: i64,
    pub positions: Vec<Position>,
}

impl RiskManager {
    pub open spec fn spec_params(self) -> RiskParams {
        self.params
    }

    pub open spec fn spec_daily_pnl(self) -> int {
        self.daily_pnl as int
    }

    pub open spec fn spec_positions(self) -> Seq<Position> {
        self.positions@
    }

    /// Limits are in range, symbols are unique, positions are bounded.
    pub open spec fn wf(self) -> bool {
        &&& self.params.wf()
        &&& -MAX_AMOUNT <= self.daily_pnl <= MAX_AMOUNT
        &&& forall|i: int, j: int|
            0 <= i < j < self.positions@.len() ==> self.positions@[i].symbol@
                != self.positions@[j].symbol@
        &&& forall|i: int| 0 <= i < self.positions@.len() ==> self.positions@[i].wf()
    }

    /// The quantity held for `sym`, zero when no position exists.
    pub open spec fn held_quantity(self, sym: Seq<char>) -> int {
        match spec_position(self.positions@, sym) {
            Some(p) => p.quantity as int,
            None => 0,
        }
    }

    /// The average entry price recorded for `sym`, zero when no
    /// position exists.
    pub open spec fn held_avg_price(self, sym: Seq<char>) -> int {
        match spec_position(self.positions@, sym) {
            Some(p) => p.avg_price as int,
            None => 0,
        }
    }

    /// The three gates over the order's relevant fields: the daily-loss
    /// gate, then the position-size gate (the held quantity counts as
    /// zero when no position exists yet), then the per-trade-loss gate
    /// `quantity * price * stop_loss_pct > max_loss_per_trade` compared
    /// at matching scale.
    pub open spec fn validate_fields_spec(
        self,
        symbol: Seq<char>,
        signed_qty: int,
        quantity: int,
        current_price: int,
    ) -> bool {
        &&& !(self.daily_pnl < -self.params.max_daily_loss)
        &&& abs_i(self.held_quantity(symbol) + signed_qty) <= self.params.max_position_size
        &&& !(quantity * current_price * self.params.stop_loss_pct
            > self.params.max_loss_per_trade * SCALE * SCALE)
    }

    /// What `validate_order` decides for an order.
    pub open spec fn validate_spec(self, order: Order, current_price: int) -> bool {
        self.validate_fields_spec(
            order.symbol@,
            order.signed_quantity(),
            order.quantity as int,
            current_price,
        )
    }

    pub fn new(params: RiskParams) -> (r: Self)
        requires
            params.wf(),
        ensures
            r.spec_params() == params,
            r.spec_daily_pnl() == 0,
            r.spec_positions() =~= Seq::<Position>::empty(),
            r.wf(),
    {
        RiskManager { params, daily_pnl: 0, positions: Vec::new() }
    }

    /// Realized daily profit-and-loss is written by a collaborator this
    /// design leaves open; this is that collaborator's entry point.
    pub fn set_daily_pnl(&mut self, pnl: i64)
        requires
            old(self).wf(),
            -MAX_AMOUNT <= pnl <= MAX_AMOUNT,
        ensures
            final(self).wf(),
            final(self).spec_daily_pnl() == pnl,
            final(self).spec_params() == old(self).spec_params(),
            final(self).spec_positions() == old(self).spec_positions(),
    {
        self.daily_pnl = pnl;
    }

    /// The index of the position carrying `symbol`, if any.
    fn position_index(&self, symbol: &str) -> (r: Option<usize>)
        ensures
            match r {
                Some(j) => {
                    &&& j < self.positions@.len()
                    &&& self.positions@[j as int].symbol@ == symbol@
                    &&& spec_position(self.positions@, symbol@) == Some(
                        self.positions@[j as int],
                    )
                    &&& forall|i: int| 0 <= i < j ==> self.positions@[i].symbol@ != symbol@
                },
                None => spec_position(self.positions@, symbol@) is None,
            },
    {
        let n = self.positions.len();
        let mut i: usize = 0;
        while i < n
            invariant
                n == self.positions@.len(),
                0 <= i <= n,
                forall|k: int| 0 <= k < i ==> self.positions@[k].symbol@ != symbol@,
            decreases n - i,
        {
            if str_eq(self.positions[i].symbol.as_str(), symbol) {
                proof {
                    lemma_spec_position_skip(self.positions@, symbol@, i as int);
                    assert(self.positions@.skip(i as int)[0] == self.positions@[i as int]);
                }
                return Some(i);
            }
            i += 1;
        }
        proof {
            lemma_spec_position_skip(self.positions@, symbol@, n as int);
            assert(self.positions@.skip(n as int) =~= Seq::<Position>::empty());
        }
        None
    }

    /// A read-only copy of the position held for `symbol`.
    pub fn get_position(&self, symbol: &str) -> (r: Option<&Position>)
        ensures
            match r {
                Some(p) => spec_position(self.positions@, symbol@) == Some(*p),
                None => spec_position(self.positions@, symbol@) is None,
            },
    {
        match self.position_index(symbol) {
            Some(j) => Some(&self.positions[j]),
            None => None,
        }
    }

    /// Decides whether an order passes all three risk gates, without
    /// reading anything else and without side effects.
    pub fn validate_order(&self, order: &Order, current_price: i64) -> (r: bool)
        requires
            self.wf(),
            order.wf(),
            0 <= current_price <= MAX_AMOUNT,
        ensures
            r == self.validate_spec(*order, current_price as int),
    {
        if self.daily_pnl < -self.params.max_daily_loss {
            return false;
        }
        let held: i64 = match self.position_index(order.symbol.as_str()) {
            Some(j) => self.positions[j].quantity,
            None => 0,
        };
        let new_quantity: i64 = match order.side {
            crate::types::OrderSide::Buy => held + order.quantity,
            crate::types::OrderSide::Sell => held - order.quantity,
        };
        let magnitude: i64 = if new_quantity < 0 {
            -new_quantity
        } else {
            new_quantity
        };
        if magnitude > self.params.max_position_size {
            return false;
        }
        proof {
            assert(0 <= (order.quantity as int) * (current_price as int) <= MAX_AMOUNT
                * MAX_AMOUNT) by (nonlinear_arith)
                requires
                    0 <= order.quantity <= MAX_AMOUNT,
                    0 <= current_price <= MAX_AMOUNT,
            ;
            assert(0 <= (order.quantity as int) * (current_price as int) * (
            self.params.stop_loss_pct as int) <= MAX_AMOUNT * MAX_AMOUNT * SCALE)
                by (nonlinear_arith)
                requires
                    0 <= (order.quantity as int) * (current_price as int) <= MAX_AMOUNT
                        * MAX_AMOUNT,
                    0 <= self.params.stop_loss_pct <= SCALE,
            ;
            assert(0 <= (self.params.max_loss_per_trade as int) * (SCALE as int) <= MAX_AMOUNT
                * SCALE) by (nonlinear_arith)
                requires
                    0 <= self.params.max_loss_per_trade <= MAX_AMOUNT,
            ;
            assert(0 <= (self.params.max_loss_per_trade as int) * (SCALE as int) * (SCALE as int)
                <= MAX_AMOUNT * SCALE * SCALE) by (nonlinear_arith)
                requires
                    0 <= (self.params.max_loss_per_trade as int) * (SCALE as int) <= MAX_AMOUNT
                        * SCALE,
            ;
        }
        let potential_loss: i128 = (order.quantity as i128) * (current_price as i128) * (
        self.params.stop_loss_pct as i128);
        let limit: i128 = (self.params.max_loss_per_trade as i128) * (SCALE as i128) * (
        SCALE as i128);
        !(potential_loss > limit)
    }

    /// The applied fill keeps the position inside the bounded
    /// arithmetic model: the new quantity stays within `MAX_AMOUNT` and
    /// the recomputed average price fits the stored word.
    pub open spec fn can_update(self, sym: Seq<char>, quantity: int, price: int) -> bool {
        let old_q = self.held_quantity(sym);
        let old_avg = self.held_avg_price(sym);
        let new_q = old_q + quantity;
        let total_cost = old_q * old_avg + quantity * price;
        &&& abs_i(new_q) <= MAX_AMOUNT
        &&& (new_q != 0 ==> abs_i(tdiv(total_cost, new_q)) <= i64::MAX)
    }

    /// Decides `can_update` executably, so a caller can guard the
    /// bounded-arithmetic precondition of `update_position` at run time.
    pub fn position_update_fits(&self, symbol: &str, quantity: i64, price: i64) -> (r: bool)
        requires
            self.wf(),
            -MAX_AMOUNT <= quantity <= MAX_AMOUNT,
            0 <= price <= MAX_AMOUNT,
        ensures
            r == self.can_update(symbol@, quantity as int, price as int),
    {
        let (old_q, old_avg): (i64, i64) = match self.position_index(symbol) {
            Some(j) => (self.positions[j].quantity, self.positions[j].avg_price),
            None => (0, 0),
        };
        proof {
            lemma_cost_bounds(old_q as int, old_avg as int, quantity as int, price as int);
        }
        let new_q: i64 = old_q + quantity;
        if new_q < -MAX_AMOUNT || new_q > MAX_AMOUNT {
            return false;
        }
        if new_q == 0 {
            return true;
        }
        let total_cost: i128 = (old_q as i128) * (old_avg as i128) + (quantity as i128) * (
        price as i128);
        let avg = tdiv_exec(total_cost, new_q as i128);
        let fits = -(i64::MAX as i128) <= avg && avg <= (i64::MAX as i128);
        proof {
            assert(abs_i(tdiv(total_cost as int, new_q as int)) <= i64::MAX <==> fits);
        }
        fits
    }

    /// Applies a signed fill to the instrument's position: quantity is
    /// accumulated, and the average entry price becomes
    /// `(old_q * old_avg + quantity * price) / new_q` (truncating
    /// division) unless the new quantity is exactly zero, in which case
    /// the average is left unchanged.  A position is created on first
    /// fill and never deleted.  Every other instrument's position is
    /// untouched.
    pub fn update_position(&mut self, symbol: &str, quantity: i64, price: i64)
        requires
            old(self).wf(),
            -MAX_AMOUNT <= quantity <= MAX_AMOUNT,
            0 <= price <= MAX_AMOUNT,
            old(self).can_update(symbol@, quantity as int, price as int),
        ensures
            final(self).wf(),
            position_updated(
                *old(self),
                *final(self),
                symbol@,
                quantity as int,
                price as int,
            ),
    {
        let (j, old_q, old_avg): (Option<usize>, i64, i64) = match self.position_index(symbol) {
            Some(j) => (Some(j), self.positions[j].quantity, self.positions[j].avg_price),
            None => (None, 0, 0),
        };
        proof {
            lemma_cost_bounds(old_q as int, old_avg as int, quantity as int, price as int);
        }
        let new_q: i64 = old_q + quantity;
        let avg: i64 = if new_q != 0 {
            let total_cost: i128 = (old_q as i128) * (old_avg as i128) + (quantity as i128) * (
            price as i128);
            let signed: i128 = tdiv_exec(total_cost, new_q as i128);
            proof {
                assert(abs_i(signed as int) <= i64::MAX);
            }
            signed as i64
        } else {
            old_avg
        };
        match j {
            Some(j) => {
                let ghost s1 = self.positions@;
                let mut pos = self.positions.remove(j);
                pos.quantity = new_q;
                pos.avg_price = avg;
                self.positions.insert(j, pos);
                proof {
                    assert(self.positions@ =~= s1.update(j as int, pos));
                    lemma_spec_position_update(s1, self.positions@, j as int, symbol@);
                }
            },
            None => {
                let ghost s1 = self.positions@;
                let pos = Position {
                    symbol: symbol.to_owned(),
                    quantity: new_q,
                    avg_price: avg,
                    unrealized_pnl: 0,
                };
                self.positions.push(pos);
                proof {
                    lemma_spec_position_push(s1, pos, symbol@);
                    lemma_spec_position_none(s1, symbol@);
                }
            },
        }
    }
}

/// Law: an order is rejected whenever the accumulated daily loss has
/// passed the configured limit, whatever the other parameters hold.
pub proof fn lemma_validate_rejects_daily_loss(rm: RiskManager, order: Order, price: int)
    requires
        rm.spec_daily_pnl() < -rm.spec_params().max_daily_loss,
    ensures
        !rm.validate_spec(order, price),
{
}

/// Law: an order is rejected whenever applying it to the held quantity
/// (zero when no position exists yet) would push the absolute quantity
/// past the configured maximum.
pub proof fn lemma_validate_rejects_position_size(rm: RiskManager, order: Order, price: int)
    requires
        abs_i(rm.held_quantity(order.symbol@) + order.signed_quantity())
            > rm.spec_params().max_position_size,
    ensures
        !rm.validate_spec(order, price),
{
}

/// Law: an order is rejected whenever its potential loss
/// `quantity * price * stop_loss_pct` exceeds the per-trade limit.
pub proof fn lemma_validate_rejects_trade_loss(rm: RiskManager, order: Order, price: int)
    requires
        order.quantity * price * rm.spec_params().stop_loss_pct
            > rm.spec_params().max_loss_per_trade * SCALE * SCALE,
    ensures
        !rm.validate_spec(order, price),
{
}

/// Law: an order that trips none of the three gates is accepted.
pub proof fn lemma_validate_accepts(rm: RiskManager, order: Order, price: int)
    requires
        !(rm.spec_daily_pnl() < -rm.spec_params().max_daily_loss),
        abs_i(rm.held_quantity(order.symbol@) + order.signed_quantity())
            <= rm.spec_params().max_position_size,
        !(order.quantity * price * rm.spec_params().stop_loss_pct
            > rm.spec_params().max_loss_per_trade * SCALE * SCALE),
    ensures
        rm.validate_spec(order, price),
{
}

} // verus!

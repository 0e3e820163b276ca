//! Pending-order tracking around venue submission.
//!
//! An order is recorded as pending *before* submission is attempted, so
//! no submission can happen without an in-memory record of intent.  On
//! a successful submission the record is deliberately left in place —
//! the pending list means "known to have been sent", not "still open".
//! On a failed submission the record is rolled back by id.

use vstd::prelude::*;

use crate::types::Order;
use crate::util::str_eq;

verus! {

/// Whether some order in `s` carries `id`.
pub open spec fn contains_id(s: Seq<Order>, id: Seq<char>) -> bool {
    exists|i: int| 0 <= i < s.len() && s[i].id@ == id
}

/// `s` with every order carrying `id` removed, order preserved.
pub open spec fn remove_all_id(s: Seq<Order>, id: Seq<char>) -> Seq<Order>
    decreases s.len(),
{
    if s.len() == 0 {
        Seq::empty()
    } else if s[0].id@ == id {
        remove_all_id(s.drop_first(), id)
    } else {
        seq![s[0]] + remove_all_id(s.drop_first(), id)
    }
}

/// Removal commutes with appending one order at the back.
proof fn lemma_remove_all_push(s: Seq<Order>, x: Order, id: Seq<char>)
    ensures
        remove_all_id(s.push(x), id) == if x.id@ == id {
            remove_all_id(s, id)
        } else {
            remove_all_id(s, id).push(x)
        },
    decreases s.len(),
{
    if s.len() == 0 {
        assert(s.push(x)[0] == x);
        assert(s =~= Seq::<Order>::empty());
        assert(s.push(x).drop_first() =~= Seq::<Order>::empty());
        assert(remove_all_id(Seq::<Order>::empty(), id) =~= Seq::<Order>::empty());
        if x.id@ == id {
            assert(remove_all_id(s.push(x), id) =~= remove_all_id(s, id));
        } else {
            assert(remove_all_id(s.push(x), id) =~= seq![x] + Seq::<Order>::empty());
            assert(seq![x] + Seq::<Order>::empty() =~= remove_all_id(s, id).push(x));
        }
    } else {
        assert(s.push(x)[0] == s[0]);
        assert(s.push(x).drop_first() =~= s.drop_first().push(x));
        lemma_remove_all_push(s.drop_first(), x, id);
        if s[0].id@ != id && x.id@ != id {
            assert(seq![s[0]] + remove_all_id(s.drop_first(), id).push(x) =~= (seq![s[0]]
                + remove_all_id(s.drop_first(), id)).push(x));
        }
    }
}

/// Removing an id that is not present changes nothing.
proof fn lemma_remove_all_absent(s: Seq<Order>, id: Seq<char>)
    requires
        !contains_id(s, id),
    ensures
        remove_all_id(s, id) =~= s,
    decreases s.len(),
{
    if s.len() > 0 {
        assert(s[0].id@ != id);
        assert forall|i: int| 0 <= i < s.drop_first().len() implies s.drop_first()[i].id@
            != id by {
            assert(s.drop_first()[i] == s[i + 1]);
        }
        lemma_remove_all_absent(s.drop_first(), id);
        assert(seq![s[0]] + s.drop_first() =~= s);
    }
}

/// What removal leaves behind never carries the removed id.
proof fn lemma_remove_all_removes(s: Seq<Order>, id: Seq<char>)
    ensures
        !contains_id(remove_all_id(s, id), id),
    decreases s.len(),
{
    if s.len() > 0 {
        lemma_remove_all_removes(s.drop_first(), id);
        if s[0].id@ != id {
            let rest = remove_all_id(s.drop_first(), id);
            assert forall|i: int|
                0 <= i < remove_all_id(s, id).len() implies remove_all_id(s, id)[i].id@
                != id by {
                if i == 0 {
                    assert(remove_all_id(s, id)[0] == s[0]);
                } else {
                    assert(remove_all_id(s, id)[i] == rest[i - 1]);
                }
            }
        }
    }
}

/// Law (rollback): when an order with a fresh id is recorded as pending
/// and the venue call then fails, removing it by id restores the
/// pending list exactly — same orders, same arrangement.
pub proof fn lemma_failed_submission_restores_pending(s: Seq<Order>, order: Order)
    requires
        !contains_id(s, order.id@),
    ensures
        remove_all_id(s.push(order), order.id@) =~= s,
{
    lemma_remove_all_push(s, order, order.id@);
    lemma_remove_all_absent(s, order.id@);
}

/// Submits approved orders and tracks in-flight ("pending") orders.
pub struct RealOrderExecutor {
    pub pending_orders: Vec<Order>,
}

impl RealOrderExecutor {
    pub fn new() -> (r: Self)
        ensures
            r.pending_orders@ =~= Seq::<Order>::empty(),
    {
        RealOrderExecutor { pending_orders: Vec::new() }
    }

    /// The pending list, in recording order.
    pub fn pending(&self) -> (r: &Vec<Order>)
        ensures
            r@ == self.pending_orders@,
    {
        &self.pending_orders
    }

    /// Records intent: appends the order to the pending list before any
    /// submission is attempted.
    pub fn record_pending(&mut self, order: Order)
        ensures
            final(self).pending_orders@ == old(self).pending_orders@.push(order),
    {
        self.pending_orders.push(order);
    }

    /// Removes every pending order carrying `order_id`, keeping the
    /// arrangement of the rest.
    fn remove_pending(&mut self, order_id: &str)
        ensures
            final(self).pending_orders@ == remove_all_id(old(self).pending_orders@, order_id@),
    {
        let ghost orig = self.pending_orders@;
        let mut j: usize = 0;
        let ghost mut consumed: int = 0;
        while j < self.pending_orders.len()
            invariant
                0 <= consumed <= orig.len(),
                j == remove_all_id(orig.take(consumed), order_id@).len(),
                self.pending_orders@ == remove_all_id(orig.take(consumed), order_id@)
                    + orig.skip(consumed),
            decreases orig.len() - consumed,
        {
            proof {
                assert(orig.take(consumed + 1) =~= orig.take(consumed).push(orig[consumed]));
                lemma_remove_all_push(orig.take(consumed), orig[consumed], order_id@);
                assert(self.pending_orders@[j as int] == orig.skip(consumed)[0]);
                assert(orig.skip(consumed)[0] == orig[consumed]);
            }
            if str_eq(self.pending_orders[j].id.as_str(), order_id) {
                self.pending_orders.remove(j);
                proof {
                    assert(self.pending_orders@ =~= remove_all_id(
                        orig.take(consumed + 1),
                        order_id@,
                    ) + orig.skip(consumed + 1));
                }
            } else {
                j += 1;
                proof {
                    assert(self.pending_orders@ =~= remove_all_id(
                        orig.take(consumed + 1),
                        order_id@,
                    ) + orig.skip(consumed + 1));
                }
            }
            proof {
                consumed = consumed + 1;
            }
        }
        proof {
            assert(orig.take(consumed) =~= orig);
            assert(orig.skip(consumed) =~= Seq::<Order>::empty());
            assert(self.pending_orders@ =~= remove_all_id(orig, order_id@));
        }
    }

    /// Settles the venue's answer for an order recorded as pending: a
    /// success leaves the pending record in place and hands the venue's
    /// id through; a failure rolls the record back by id and hands the
    /// error through.
    pub fn resolve_submission(&mut self, order_id: &str, venue_result: Result<String, String>)
        -> (r: Result<String, String>)
        ensures
            r == venue_result,
            match venue_result {
                Ok(_) => final(self).pending_orders@ == old(self).pending_orders@,
                Err(_) => final(self).pending_orders@ == remove_all_id(
                    old(self).pending_orders@,
                    order_id@,
                ),
            },
    {
        match venue_result {
            Ok(venue_id) => Ok(venue_id),
            Err(error_msg) => {
                self.remove_pending(order_id);
                Err(error_msg)
            },
        }
    }

    /// Cancels against the in-memory record: removes every pending
    /// order carrying `order_id`.  Cancelling an id that is not present
    /// is a no-op that still succeeds — removal is idempotent.
    pub fn cancel_order(&mut self, _symbol: &str, order_id: &str) -> (r: Result<(), String>)
        ensures
            final(self).pending_orders@ == remove_all_id(old(self).pending_orders@, order_id@),
            r is Ok,
    {
        self.remove_pending(order_id);
        Ok(())
    }
}

/// Law (idempotent cancellation): cancelling an id that no pending
/// order carries leaves the pending list exactly as it was.
pub proof fn lemma_cancel_absent_is_noop(s: Seq<Order>, id: Seq<char>)
    requires
        !contains_id(s, id),
    ensures
        remove_all_id(s, id) =~= s,
{
    lemma_remove_all_absent(s, id);
}

/// Law (idempotent cancellation, two calls): after one cancellation the
/// id is gone, so cancelling it again — which still succeeds — leaves
/// the pending list exactly as the first cancellation left it.
pub proof fn lemma_cancel_twice_is_once(s: Seq<Order>, id: Seq<char>)
    ensures
        !contains_id(remove_all_id(s, id), id),
        remove_all_id(remove_all_id(s, id), id) =~= remove_all_id(s, id),
{
    lemma_remove_all_removes(s, id);
    lemma_remove_all_absent(remove_all_id(s, id), id);
}

} // verus!

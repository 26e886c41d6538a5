use std::collections::VecDeque;
use std::rc::Rc;
use vstd::prelude::*;

use crate::error::Error;
use crate::execution_policy::ExecutionPolicy;
use crate::market_data_policy::MarketDataPolicy;
use crate::order::{LimitOrder, Market, MarketOrder, Order, OrderType, Side};

verus! {

/// An order together with its remaining quantity while it matches or rests.
pub struct OrderQuantity {
    pub order: Rc<Order>,
    pub quantity: u64,
}

impl OrderQuantity {
    /// Working state of a limit order: its full quantity remains.
    pub fn new_limit_order(order: Rc<Order>, limit: &LimitOrder) -> (r: Self)
        ensures
            r.order == order,
            r.quantity == limit.quantity,
    {
        Self { order: order.clone(), quantity: limit.quantity }
    }

    /// Working state of a market order: its full quantity remains.
    pub fn new_market_order(order: Rc<Order>, market_order: &MarketOrder) -> (r: Self)
        ensures
            r.order == order,
            r.quantity == market_order.quantity,
    {
        Self { order: order.clone(), quantity: market_order.quantity }
    }
}

/// Sum of the remaining quantities of a queue of orders.
pub open spec fn queue_total(orders: Seq<OrderQuantity>) -> int
    decreases orders.len(),
{
    if orders.len() == 0 {
        0
    } else {
        orders[0].quantity + queue_total(orders.drop_first())
    }
}

/// `new` is `old` after fills from the head: the orders ahead of the new head
/// were consumed entirely, the new head may have lost quantity, and every
/// order behind it is untouched.
pub open spec fn fifo_consumed(old: Seq<OrderQuantity>, new: Seq<OrderQuantity>) -> bool {
    let k = old.len() - new.len();
    &&& new.len() <= old.len()
    &&& forall|j: int| 0 < j < new.len() ==> #[trigger] new[j] == old[k + j]
    &&& new.len() > 0 ==> new[0].order == old[k].order && new[0].quantity <= old[k].quantity
}

/// The resting orders at one price, oldest first.
pub struct PriceLevel {
    pub price: u64,
    pub orders: VecDeque<OrderQuantity>,
}

impl PriceLevel {
    /// A level holding one order at the limit price.
    pub fn new(book_order: OrderQuantity, limit: &LimitOrder) -> (r: Self)
        ensures
            r.price == limit.price,
            r.orders@ == seq![book_order],
    {
        let mut orders = VecDeque::new();
        orders.push_back(book_order);
        proof {
            assert(orders@ =~= seq![book_order]);
        }
        Self { price: limit.price, orders }
    }

    /// Appends `book_order` at the tail if the execution policy accepts it;
    /// the result is the policy's answer.
    pub fn place_order<E: ExecutionPolicy, M: MarketDataPolicy>(
        &mut self,
        book_order: OrderQuantity,
        execution_policy: &mut E,
        market_data_policy: &M,
    ) -> (r: Result<(), Error>)
        ensures
            r == old(execution_policy).place_verdict(book_order),
            old(execution_policy).accepts_all() ==> final(execution_policy).accepts_all(),
            old(execution_policy).accepts_all() && book_order.quantity > 0 ==> r is Ok,
            final(self).price == old(self).price,
            r is Ok ==> final(self).orders@ == old(self).orders@.push(book_order)
                && book_order.quantity > 0,
            r is Err ==> *final(self) == *old(self),
    {
        execution_policy.place_order(&book_order)?;
        market_data_policy.handle_order_placed(&book_order);
        self.orders.push_back(book_order);
        Ok(())
    }

    /// Settles one fill of the head order, which was taken off the level and
    /// handed to the policy as `book_order`: `verdict` is the policy's
    /// answer. The order goes back to the head if the fill failed or left
    /// some of it; the result is the answer.
    pub fn settle_fill(&mut self, verdict: Result<(), Error>, book_order: OrderQuantity) -> (r: Result<
        (),
        Error,
    >)
        ensures
            r == verdict,
            final(self).price == old(self).price,
            (verdict is Err || book_order.quantity > 0) ==> final(self).orders@ == seq![book_order]
                + old(self).orders@,
            (verdict is Ok && book_order.quantity == 0) ==> final(self).orders@ == old(self).orders@,
    {
        if verdict.is_err() || book_order.quantity > 0 {
            self.orders.push_front(book_order);
        }
        verdict
    }

    /// Fills the aggressor against the resting orders from the head, one at
    /// a time, until it is filled or the level is empty; each fill hands the
    /// policy the smaller of the two remaining quantities. Filled orders
    /// leave the level. An error from the policy stops the matching; earlier
    /// fills stay. An aggressor with nothing left, or an empty level, changes
    /// nothing; a policy that accepts every fill makes the matching succeed.
    pub fn match_order<E: ExecutionPolicy, M: MarketDataPolicy>(
        &mut self,
        aggressor_order: &mut OrderQuantity,
        execution_policy: &mut E,
        market_data_policy: &M,
    ) -> (r: Result<(), Error>)
        requires
            forall|j: int| 0 <= j < old(self).orders@.len() ==> (#[trigger] old(self).orders@[j]).quantity > 0,
        ensures
            final(self).price == old(self).price,
            forall|j: int| 0 <= j < final(self).orders@.len() ==> (#[trigger] final(self).orders@[j]).quantity > 0,
            fifo_consumed(old(self).orders@, final(self).orders@),
            final(aggressor_order).order == old(aggressor_order).order,
            final(aggressor_order).quantity <= old(aggressor_order).quantity,
            old(aggressor_order).quantity - final(aggressor_order).quantity == queue_total(
                old(self).orders@,
            ) - queue_total(final(self).orders@),
            r is Ok ==> final(aggressor_order).quantity == 0 || final(self).orders@.len() == 0,
            r is Err ==> final(self).orders@.len() > 0,
            (old(aggressor_order).quantity == 0 || old(self).orders@.len() == 0) ==> r is Ok
                && final(self).orders@ == old(self).orders@ && *final(aggressor_order) == *old(
                aggressor_order,
            ) && *final(execution_policy) == *old(execution_policy),
            old(execution_policy).accepts_all() ==> r is Ok && final(execution_policy).accepts_all(),
    {
        let ghost orig = self.orders@;
        let ghost q0 = aggressor_order.quantity;
        while aggressor_order.quantity > 0 && self.orders.len() > 0
            invariant
                fifo_consumed(orig, self.orders@),
                forall|j: int| 0 <= j < self.orders@.len() ==> (#[trigger] self.orders@[j]).quantity > 0,
                aggressor_order.order == old(aggressor_order).order,
                q0 == old(aggressor_order).quantity,
                orig == old(self).orders@,
                self.price == old(self).price,
                aggressor_order.quantity <= q0,
                q0 - aggressor_order.quantity == queue_total(orig) - queue_total(self.orders@),
                (q0 == 0 || orig.len() == 0) ==> self.orders@ == orig && *aggressor_order == *old(
                    aggressor_order,
                ) && *execution_policy == *old(execution_policy),
                old(execution_policy).accepts_all() ==> execution_policy.accepts_all(),
            decreases aggressor_order.quantity,
        {
            let ghost cur = self.orders@;
            let mut book_order = self.orders.pop_front().unwrap();
            proof {
                assert(cur.drop_first() == self.orders@);
                assert(cur[0] == book_order);
            }
            let mut executed_quantity = if aggressor_order.quantity < book_order.quantity {
                aggressor_order.quantity
            } else {
                book_order.quantity
            };
            let verdict = execution_policy.execute_orders(
                &mut executed_quantity,
                aggressor_order,
                &mut book_order,
            );
            if verdict.is_ok() {
                market_data_policy.handle_order_executed(
                    executed_quantity,
                    aggressor_order,
                    &book_order,
                );
            }
            let ghost handed = book_order;
            let settled = self.settle_fill(verdict, book_order);
            proof {
                if settled is Err || handed.quantity > 0 {
                    assert(self.orders@.drop_first() == cur.drop_first());
                }
                if settled is Err {
                    assert(self.orders@ == cur);
                }
            }
            settled?;
        }
        Ok(())
    }

    /// Whether no order rests here.
    pub fn is_empty(&self) -> (r: bool)
        ensures
            r == (self.orders@.len() == 0),
    {
        self.orders.len() == 0
    }
}

/// `a` is a strictly better price than `b` for an aggressor matching a book
/// side `side`: higher on the bid side, lower on the ask side.
pub open spec fn better(side: Side, a: u64, b: u64) -> bool {
    match side {
        Side::Bid => a > b,
        Side::Ask => a < b,
    }
}

/// A level at `price` on book side `side` may trade with an aggressor whose
/// limit is `limit` (`None` for a market order).
pub open spec fn crosses(side: Side, price: u64, limit: Option<u64>) -> bool {
    match limit {
        None => true,
        Some(p) => match side {
            Side::Bid => price >= p,
            Side::Ask => price <= p,
        },
    }
}

/// Sum of the remaining quantities resting on a sequence of levels.
pub open spec fn book_total(levels: Seq<PriceLevel>) -> int
    decreases levels.len(),
{
    if levels.len() == 0 {
        0
    } else {
        book_total(levels.drop_last()) + queue_total(levels.last().orders@)
    }
}

/// Levels strictly ordered from the worst price to the best, none empty.
pub open spec fn levels_wf(side: Side, levels: Seq<PriceLevel>) -> bool {
    &&& forall|i: int, j: int|
        0 <= i < j < levels.len() ==> better(side, #[trigger] levels[j].price, #[trigger] levels[i].price)
    &&& forall|i: int| 0 <= i < levels.len() ==> (#[trigger] levels[i]).orders@.len() > 0
    &&& forall|i: int, j: int|
        0 <= i < levels.len() && 0 <= j < levels[i].orders@.len() ==> (
        #[trigger] levels[i].orders@[j]).quantity > 0
}

/// `new` is `old` after an aggressor with limit `limit` matched it from the
/// best level on: every removed level, and the level left partly filled,
/// crossed the limit; the others are untouched.
pub open spec fn book_consumed(side: Side, old: Seq<PriceLevel>, new: Seq<PriceLevel>, limit: Option<u64>) -> bool {
    let n = new.len();
    &&& n <= old.len()
    &&& forall|i: int| 0 <= i < n - 1 ==> #[trigger] new[i] == old[i]
    &&& n > 0 ==> {
        &&& new[n - 1].price == old[n - 1].price
        &&& fifo_consumed(old[n - 1].orders@, new[n - 1].orders@)
        &&& new[n - 1] != old[n - 1] ==> crosses(side, old[n - 1].price, limit)
    }
    &&& forall|i: int| n <= i < old.len() ==> crosses(side, #[trigger] old[i].price, limit)
}

/// Price-time priority within a level: when matching from the head has
/// filled any part of the order at position `b`, every order queued before
/// it (`a < b`) was filled entirely and has left the level.
pub proof fn lemma_price_time_priority(old: Seq<OrderQuantity>, new: Seq<OrderQuantity>, a: int, b: int)
    requires
        fifo_consumed(old, new),
        0 <= a < b < old.len(),
        old.len() - new.len() > b || (old.len() - new.len() == b && new[0].quantity
            < old[b].quantity),
    ensures
        a < old.len() - new.len(),
{
}

/// Price priority: an aggressor with limit `price` leaves every level that
/// is beyond its limit exactly as it was; for a bid aggressor these are the
/// ask levels priced above the limit, for an ask aggressor the bid levels
/// priced below it.
pub proof fn lemma_price_priority(side: Side, old: Seq<PriceLevel>, new: Seq<PriceLevel>, price: u64, i: int)
    requires
        levels_wf(side, old),
        book_consumed(side, old, new, Some(price)),
        0 <= i < old.len(),
        !crosses(side, old[i].price, Some(price)),
    ensures
        i < new.len(),
        new[i] == old[i],
{
}

/// No policy call can happen when an aggressor with `quantity` and limit
/// `limit` meets these levels: nothing is left to fill, or the best level
/// does not cross the limit.
pub open spec fn nothing_crosses(side: Side, levels: Seq<PriceLevel>, quantity: u64, limit: Option<u64>) -> bool {
    quantity == 0 || levels.len() == 0 || !crosses(side, levels.last().price, limit)
}

/// `new` is `old` with `book_order` appended to the level at `price`, which
/// is created, in price order, if there was none.
pub open spec fn rested(old: Seq<PriceLevel>, new: Seq<PriceLevel>, book_order: OrderQuantity, price: u64) -> bool {
    ||| exists|i: int|
        {
            &&& 0 <= i < old.len()
            &&& #[trigger] old[i].price == price
            &&& new.len() == old.len()
            &&& new[i].price == price
            &&& new[i].orders@ == old[i].orders@.push(book_order)
            &&& forall|j: int| 0 <= j < old.len() && j != i ==> #[trigger] new[j] == old[j]
        }
    ||| {
        &&& forall|i: int| 0 <= i < old.len() ==> #[trigger] old[i].price != price
        &&& exists|i: int|
            {
                &&& 0 <= i <= old.len()
                &&& new.len() == old.len() + 1
                &&& #[trigger] new[i].price == price
                &&& new[i].orders@ == seq![book_order]
                &&& new.remove(i) == old
            }
    }
}

/// The order at position `j` of the level at position `i` belongs to
/// `(participant_id, order_id)`.
pub open spec fn holds_order(
    levels: Seq<PriceLevel>,
    i: int,
    j: int,
    participant_id: usize,
    order_id: usize,
) -> bool {
    &&& 0 <= i < levels.len()
    &&& 0 <= j < levels[i].orders@.len()
    &&& levels[i].orders@[j].order.participant_id == participant_id
    &&& levels[i].orders@[j].order.order_id == order_id
}

/// `new` is `old` without the order at position `j` of level `i`; the level
/// goes when that was its last order.
pub open spec fn order_removed(old: Seq<PriceLevel>, new: Seq<PriceLevel>, i: int, j: int) -> bool {
    if old[i].orders@.len() == 1 {
        new == old.remove(i)
    } else {
        &&& new.len() == old.len()
        &&& new[i].price == old[i].price
        &&& new[i].orders@ == old[i].orders@.remove(j)
        &&& forall|k: int| 0 <= k < old.len() && k != i ==> #[trigger] new[k] == old[k]
    }
}

/// One side of an order book: its price levels from the worst price to the
/// best, so that the level an aggressor meets first is the last one.
///
/// The levels live in a vector kept in price order: a level is found by
/// binary search and the best one is matched and removed at the end. (An
/// intrusive red-black tree would need an adapter declared by a macro or by
/// unsafe code, neither of which this library holds.)
pub struct PriceLevels {
    side: Side,
    levels: Vec<PriceLevel>,
}

impl View for PriceLevels {
    type V = Seq<PriceLevel>;

    closed spec fn view(&self) -> Seq<PriceLevel> {
        self.levels@
    }
}

impl PriceLevels {
    /// Which side of the book this is.
    pub closed spec fn spec_side(&self) -> Side {
        self.side
    }

    /// Levels strictly ordered by price, none empty.
    pub open spec fn wf(&self) -> bool {
        levels_wf(self.spec_side(), self@)
    }

    /// An empty book side.
    pub fn new(side: Side) -> (r: Self)
        ensures
            r.wf(),
            r.spec_side() == side,
            r@.len() == 0,
    {
        Self { side, levels: Vec::new() }
    }

    /// Which side of the book this is.
    pub fn side(&self) -> (r: Side)
        ensures
            r == self.spec_side(),
    {
        self.side
    }

    /// The levels, from the worst price to the best.
    pub fn levels(&self) -> (r: &Vec<PriceLevel>)
        ensures
            r@ == self@,
    {
        &self.levels
    }

    /// Matches the order against the levels from the best price on, until it
    /// is filled or the next level does not cross `limit`. Emptied levels
    /// leave the book.
    fn match_order_side<E: ExecutionPolicy, M: MarketDataPolicy>(
        &mut self,
        order_quantity: &mut OrderQuantity,
        execution_policy: &mut E,
        market_data_policy: &M,
        limit: Option<u64>,
    ) -> (r: Result<(), Error>)
        requires
            old(self).wf(),
        ensures
            final(self).wf(),
            final(self).spec_side() == old(self).spec_side(),
            book_consumed(old(self).spec_side(), old(self)@, final(self)@, limit),
            final(order_quantity).order == old(order_quantity).order,
            final(order_quantity).quantity <= old(order_quantity).quantity,
            old(order_quantity).quantity - final(order_quantity).quantity == book_total(old(self)@)
                - book_total(final(self)@),
            r is Ok ==> final(order_quantity).quantity == 0 || final(self)@.len() == 0 || !crosses(
                final(self).spec_side(),
                final(self)@.last().price,
                limit,
            ),
            nothing_crosses(old(self).spec_side(), old(self)@, old(order_quantity).quantity, limit)
                ==> r is Ok && final(self)@ == old(self)@ && *final(order_quantity) == *old(
                order_quantity,
            ) && *final(execution_policy) == *old(execution_policy),
            old(execution_policy).accepts_all() ==> r is Ok && final(execution_policy).accepts_all(),
    {
        let ghost orig = self.levels@;
        let ghost q0 = order_quantity.quantity;
        while self.levels.len() > 0 && order_quantity.quantity > 0
            invariant_except_break
                order_quantity.quantity > 0 ==> self.levels@ == orig.subrange(0, self.levels@.len() as int),
            invariant
                self.wf(),
                orig == old(self).levels@,
                self.side == old(self).side,
                q0 == old(order_quantity).quantity,
                book_consumed(self.side, orig, self.levels@, limit),
                order_quantity.order == old(order_quantity).order,
                order_quantity.quantity <= q0,
                q0 - order_quantity.quantity == book_total(orig) - book_total(self.levels@),
                nothing_crosses(self.side, orig, q0, limit) ==> self.levels@ == orig
                    && *order_quantity == *old(order_quantity) && *execution_policy == *old(
                    execution_policy,
                ),
                old(execution_policy).accepts_all() ==> execution_policy.accepts_all(),
            ensures
                order_quantity.quantity == 0 || self.levels@.len() == 0 || !crosses(
                    self.side,
                    self.levels@.last().price,
                    limit,
                ),
            decreases self.levels@.len() + order_quantity.quantity,
        {
            let n = self.levels.len();
            let price = self.levels[n - 1].price;
            let crossing = match limit {
                None => true,
                Some(p) => match self.side {
                    Side::Bid => price >= p,
                    Side::Ask => price <= p,
                },
            };
            if !crossing {
                break;
            }
            let ghost before = self.levels@;
            let matched = self.levels[n - 1].match_order(
                order_quantity,
                execution_policy,
                market_data_policy,
            );
            proof {
                assert(self.levels@.drop_last() == before.drop_last());
                assert forall|i: int, j: int|
                    0 <= i < self.levels@.len() && 0 <= j < self.levels@[i].orders@.len() implies (
                    #[trigger] self.levels@[i].orders@[j]).quantity > 0 by {
                    if i < n - 1 {
                        assert(self.levels@[i] == before[i]);
                    }
                }
            }
            if self.levels[n - 1].is_empty() {
                self.levels.pop();
                proof {
                    assert(self.levels@ == before.drop_last());
                    assert(self.levels@ == orig.subrange(0, self.levels@.len() as int));
                }
            }
            matched?;
        }
        Ok(())
    }

    /// Matches a market order against this side until it is filled or the
    /// side is empty.
    pub fn match_market_order<E: ExecutionPolicy, M: MarketDataPolicy>(
        &mut self,
        order_quantity: &mut OrderQuantity,
        market_order: &MarketOrder,
        execution_policy: &mut E,
        market_data_policy: &M,
    ) -> (r: Result<(), Error>)
        requires
            old(self).wf(),
        ensures
            final(self).wf(),
            final(self).spec_side() == old(self).spec_side(),
            book_consumed(old(self).spec_side(), old(self)@, final(self)@, None),
            final(order_quantity).order == old(order_quantity).order,
            final(order_quantity).quantity <= old(order_quantity).quantity,
            old(order_quantity).quantity - final(order_quantity).quantity == book_total(old(self)@)
                - book_total(final(self)@),
            r is Ok ==> final(order_quantity).quantity == 0 || final(self)@.len() == 0,
            nothing_crosses(old(self).spec_side(), old(self)@, old(order_quantity).quantity, None)
                ==> r is Ok && final(self)@ == old(self)@ && *final(order_quantity) == *old(
                order_quantity,
            ) && *final(execution_policy) == *old(execution_policy),
            old(execution_policy).accepts_all() ==> r is Ok && final(execution_policy).accepts_all(),
    {
        self.match_order_side(order_quantity, execution_policy, market_data_policy, None)
    }

    /// Matches a limit order against this side until it is filled or the
    /// best remaining level is beyond its limit price.
    pub fn match_limit_order<E: ExecutionPolicy, M: MarketDataPolicy>(
        &mut self,
        order_quantity: &mut OrderQuantity,
        limit: &LimitOrder,
        execution_policy: &mut E,
        market_data_policy: &M,
    ) -> (r: Result<(), Error>)
        requires
            old(self).wf(),
        ensures
            final(self).wf(),
            final(self).spec_side() == old(self).spec_side(),
            book_consumed(old(self).spec_side(), old(self)@, final(self)@, Some(limit.price)),
            final(order_quantity).order == old(order_quantity).order,
            final(order_quantity).quantity <= old(order_quantity).quantity,
            old(order_quantity).quantity - final(order_quantity).quantity == book_total(old(self)@)
                - book_total(final(self)@),
            r is Ok ==> final(order_quantity).quantity == 0 || final(self)@.len() == 0 || !crosses(
                final(self).spec_side(),
                final(self)@.last().price,
                Some(limit.price),
            ),
            nothing_crosses(
                old(self).spec_side(),
                old(self)@,
                old(order_quantity).quantity,
                Some(limit.price),
            ) ==> r is Ok && final(self)@ == old(self)@ && *final(order_quantity) == *old(
                order_quantity,
            ) && *final(execution_policy) == *old(execution_policy),
            old(execution_policy).accepts_all() ==> r is Ok && final(execution_policy).accepts_all(),
    {
        self.match_order_side(order_quantity, execution_policy, market_data_policy, Some(limit.price))
    }

    /// Rests `order_quantity` at the tail of the level at the limit price,
    /// creating the level in price order if there is none; the result is the
    /// execution policy's answer.
    pub fn place_limit_order<E: ExecutionPolicy, M: MarketDataPolicy>(
        &mut self,
        order_quantity: OrderQuantity,
        limit: &LimitOrder,
        execution_policy: &mut E,
        market_data_policy: &M,
    ) -> (r: Result<(), Error>)
        requires
            old(self).wf(),
        ensures
            final(self).wf(),
            final(self).spec_side() == old(self).spec_side(),
            r == old(execution_policy).place_verdict(order_quantity),
            old(execution_policy).accepts_all() ==> final(execution_policy).accepts_all(),
            old(execution_policy).accepts_all() && order_quantity.quantity > 0 ==> r is Ok,
            r is Ok ==> rested(old(self)@, final(self)@, order_quantity, limit.price),
            r is Err ==> final(self)@ == old(self)@,
    {
        let (found, idx) = self.find_level(limit.price);
        if found {
            let ghost before = self.levels@;
            let placed = self.levels[idx].place_order(
                order_quantity,
                execution_policy,
                market_data_policy,
            );
            proof {
                if placed is Ok {
                    assert(rested(before, self.levels@, order_quantity, limit.price)) by {
                        assert(before[idx as int].price == limit.price);
                    }
                    assert forall|i: int, j: int|
                        0 <= i < self.levels@.len() && 0 <= j < self.levels@[i].orders@.len() implies (
                        #[trigger] self.levels@[i].orders@[j]).quantity > 0 by {
                        if i != idx {
                            assert(self.levels@[i] == before[i]);
                        } else if j < before[i].orders@.len() {
                            assert(self.levels@[i].orders@[j] == before[i].orders@[j]);
                        }
                    }
                } else {
                    assert(self.levels@ == before);
                }
            }
            placed
        } else {
            execution_policy.place_order(&order_quantity)?;
            market_data_policy.handle_order_placed(&order_quantity);
            let ghost before = self.levels@;
            self.levels.insert(idx, PriceLevel::new(order_quantity, limit));
            proof {
                assert(self.levels@.remove(idx as int) == before);
                assert(self.levels@[idx as int].price == limit.price);
                assert forall|i: int, j: int|
                    0 <= i < j < self.levels@.len() implies better(
                    self.side,
                    #[trigger] self.levels@[j].price,
                    #[trigger] self.levels@[i].price,
                ) by {
                    if j < idx {
                        assert(self.levels@[j] == before[j] && self.levels@[i] == before[i]);
                    } else if j == idx {
                        assert(self.levels@[i] == before[i]);
                    } else if i == idx {
                        assert(self.levels@[j] == before[j - 1]);
                    } else if i < idx {
                        assert(self.levels@[j] == before[j - 1] && self.levels@[i] == before[i]);
                        assert(better(self.side, before[j - 1].price, limit.price));
                    } else {
                        assert(self.levels@[j] == before[j - 1] && self.levels@[i] == before[i - 1]);
                    }
                }
                assert forall|i: int| 0 <= i < self.levels@.len() implies (
                #[trigger] self.levels@[i]).orders@.len() > 0 by {
                    if i < idx {
                        assert(self.levels@[i] == before[i]);
                    } else if i > idx {
                        assert(self.levels@[i] == before[i - 1]);
                    }
                }
                assert forall|i: int, j: int|
                    0 <= i < self.levels@.len() && 0 <= j < self.levels@[i].orders@.len() implies (
                    #[trigger] self.levels@[i].orders@[j]).quantity > 0 by {
                    if i < idx {
                        assert(self.levels@[i] == before[i]);
                    } else if i > idx {
                        assert(self.levels@[i] == before[i - 1]);
                    }
                }
                assert(rested(before, self.levels@, order_quantity, limit.price));
            }
            Ok(())
        }
    }

    /// Position `(level, order)` of the first resting order of
    /// `(participant_id, order_id)`, from the worst level on.
    pub fn find_order(&self, participant_id: usize, order_id: usize) -> (r: Option<(usize, usize)>)
        ensures
            match r {
                Some((i, j)) => holds_order(self@, i as int, j as int, participant_id, order_id),
                None => forall|i: int, j: int| !#[trigger] holds_order(self@, i, j, participant_id, order_id),
            },
    {
        let n = self.levels.len();
        let mut i: usize = 0;
        while i < n
            invariant
                n == self@.len(),
                i <= n,
                forall|a: int, b: int| 0 <= a < i ==> !#[trigger] holds_order(self@, a, b, participant_id, order_id),
            decreases n - i,
        {
            let m = self.levels[i].orders.len();
            let mut j: usize = 0;
            while j < m
                invariant
                    n == self@.len(),
                    i < n,
                    m == self@[i as int].orders@.len(),
                    j <= m,
                    forall|b: int| 0 <= b < j ==> !#[trigger] holds_order(self@, i as int, b, participant_id, order_id),
                decreases m - j,
            {
                let o = &self.levels[i].orders[j];
                if o.order.participant_id == participant_id && o.order.order_id == order_id {
                    return Some((i, j));
                }
                j = j + 1;
            }
            i = i + 1;
        }
        None
    }

    /// Takes out the order at position `j` of level `i` if the execution
    /// policy lets it go; the level goes with its last order. The result is
    /// the policy's answer.
    fn cancel_at<E: ExecutionPolicy, M: MarketDataPolicy>(
        &mut self,
        i: usize,
        j: usize,
        execution_policy: &mut E,
        market_data_policy: &M,
    ) -> (r: Result<(), Error>)
        requires
            old(self).wf(),
            i < old(self)@.len(),
            j < old(self)@[i as int].orders@.len(),
        ensures
            final(self).wf(),
            final(self).spec_side() == old(self).spec_side(),
            r == old(execution_policy).cancel_verdict(old(self)@[i as int].orders@[j as int]),
            old(execution_policy).accepts_all() ==> r is Ok && final(execution_policy).accepts_all(),
            r is Ok ==> order_removed(old(self)@, final(self)@, i as int, j as int),
            r is Err ==> final(self)@ == old(self)@,
    {
        execution_policy.cancel_order(&self.levels[i].orders[j])?;
        let ghost before = self.levels@;
        let removed = self.levels[i].orders.remove(j);
        if let Some(book_order) = removed {
            market_data_policy.handle_order_cancelled(&book_order);
        }
        proof {
            assert forall|a: int, b: int|
                0 <= a < self.levels@.len() && 0 <= b < self.levels@[a].orders@.len() implies (
                #[trigger] self.levels@[a].orders@[b]).quantity > 0 by {
                if a != i {
                    assert(self.levels@[a] == before[a]);
                } else if b < j {
                    assert(self.levels@[a].orders@[b] == before[a].orders@[b]);
                } else {
                    assert(self.levels@[a].orders@[b] == before[a].orders@[b + 1]);
                }
            }
        }
        if self.levels[i].is_empty() {
            let ghost emptied = self.levels@;
            self.levels.remove(i);
            proof {
                assert(self.levels@ == before.remove(i as int));
                assert forall|a: int, b: int|
                    0 <= a < b < self.levels@.len() implies better(
                    self.side,
                    #[trigger] self.levels@[b].price,
                    #[trigger] self.levels@[a].price,
                ) by {
                    if b < i {
                    } else if a < i {
                        assert(self.levels@[b] == before[b + 1]);
                    } else {
                        assert(self.levels@[b] == before[b + 1] && self.levels@[a] == before[a + 1]);
                    }
                }
                assert forall|a: int| 0 <= a < self.levels@.len() implies (
                #[trigger] self.levels@[a]).orders@.len() > 0 by {
                    if a >= i {
                        assert(self.levels@[a] == before[a + 1]);
                    }
                }
                assert forall|a: int, b: int|
                    0 <= a < self.levels@.len() && 0 <= b < self.levels@[a].orders@.len() implies (
                    #[trigger] self.levels@[a].orders@[b]).quantity > 0 by {
                    if a < i {
                        assert(self.levels@[a] == emptied[a]);
                    } else {
                        assert(self.levels@[a] == emptied[a + 1]);
                    }
                }
            }
        }
        proof {
            assert(order_removed(old(self)@, self.levels@, i as int, j as int));
        }
        Ok(())
    }

    /// Removes the resting order `(participant_id, order_id)` from the level
    /// at `price` if the execution policy lets it go; the level goes with its
    /// last order. If it rests there, the result is the policy's answer for
    /// it; otherwise it is `UnknownOrder`.
    pub fn cancel_order<E: ExecutionPolicy, M: MarketDataPolicy>(
        &mut self,
        participant_id: usize,
        order_id: usize,
        price: u64,
        execution_policy: &mut E,
        market_data_policy: &M,
    ) -> (r: Result<(), Error>)
        requires
            old(self).wf(),
        ensures
            final(self).wf(),
            final(self).spec_side() == old(self).spec_side(),
            r is Err ==> final(self)@ == old(self)@,
            old(execution_policy).accepts_all() ==> final(execution_policy).accepts_all(),
            (exists|i: int, j: int|
                #[trigger] holds_order(old(self)@, i, j, participant_id, order_id) && old(self)@[i].price
                    == price) ==> exists|i: int, j: int|
                {
                    &&& #[trigger] holds_order(old(self)@, i, j, participant_id, order_id)
                    &&& old(self)@[i].price == price
                    &&& r == old(execution_policy).cancel_verdict(old(self)@[i].orders@[j])
                    &&& r is Ok ==> order_removed(old(self)@, final(self)@, i, j)
                },
            (forall|i: int, j: int|
                0 <= i < old(self)@.len() && old(self)@[i].price == price ==> !#[trigger] holds_order(
                    old(self)@,
                    i,
                    j,
                    participant_id,
                    order_id,
                )) ==> r == Err::<(), Error>(Error::UnknownOrder),
    {
        let (found, idx) = self.find_level(price);
        if !found {
            return Err(Error::UnknownOrder);
        }
        let n = self.levels[idx].orders.len();
        let mut k: usize = 0;
        while k < n
            invariant
                self.wf(),
                idx < self@.len(),
                self@[idx as int].price == price,
                n == self@[idx as int].orders@.len(),
                k <= n,
                forall|j: int| 0 <= j < k ==> !#[trigger] holds_order(self@, idx as int, j, participant_id, order_id),
            ensures
                k < n ==> holds_order(self@, idx as int, k as int, participant_id, order_id),
            decreases n - k,
        {
            let o = &self.levels[idx].orders[k];
            if o.order.participant_id == participant_id && o.order.order_id == order_id {
                break;
            }
            k = k + 1;
        }
        if k == n {
            proof {
                assert forall|i: int, j: int|
                    0 <= i < self@.len() && self@[i].price == price implies !#[trigger] holds_order(
                    self@,
                    i,
                    j,
                    participant_id,
                    order_id,
                ) by {
                    if i != idx {
                        assert(better(self.side, self@[i].price, self@[idx as int].price) || better(
                            self.side,
                            self@[idx as int].price,
                            self@[i].price,
                        ));
                    }
                }
            }
            return Err(Error::UnknownOrder);
        }
        self.cancel_at(idx, k, execution_policy, market_data_policy)
    }

    /// Position of the level at `price`, or where it would go.
    fn find_level(&self, price: u64) -> (r: (bool, usize))
        requires
            self.wf(),
        ensures
            r.1 <= self@.len(),
            r.0 ==> r.1 < self@.len() && self@[r.1 as int].price == price,
            !r.0 ==> forall|i: int| 0 <= i < self@.len() ==> #[trigger] self@[i].price != price,
            forall|i: int| 0 <= i < r.1 ==> better(self.spec_side(), price, #[trigger] self@[i].price),
            forall|i: int|
                r.1 < i < self@.len() ==> better(self.spec_side(), #[trigger] self@[i].price, price),
            !r.0 && r.1 < self@.len() ==> better(self.spec_side(), self@[r.1 as int].price, price),
    {
        let mut lo: usize = 0;
        let mut hi: usize = self.levels.len();
        while lo < hi
            invariant
                self.wf(),
                hi <= self@.len(),
                lo <= hi,
                forall|i: int| 0 <= i < lo ==> better(self.side, price, #[trigger] self@[i].price),
                forall|i: int| hi <= i < self@.len() ==> #[trigger] self@[i].price == price || better(
                    self.side,
                    self@[i].price,
                    price,
                ),
            decreases hi - lo,
        {
            let mid = lo + (hi - lo) / 2;
            let p = self.levels[mid].price;
            let ahead = match self.side {
                Side::Bid => price > p,
                Side::Ask => price < p,
            };
            if ahead {
                lo = mid + 1;
            } else {
                hi = mid;
            }
        }
        if lo < self.levels.len() && self.levels[lo].price == price {
            (true, lo)
        } else {
            (false, lo)
        }
    }
}

/// The order `(participant_id, order_id)` rests somewhere on `levels`.
pub open spec fn rests(levels: Seq<PriceLevel>, participant_id: usize, order_id: usize) -> bool {
    exists|i: int, j: int| #[trigger] holds_order(levels, i, j, participant_id, order_id)
}

/// `new_levels` is `levels` after a cancel of a resting order
/// `(participant_id, order_id)` that `policy` was asked about and answered
/// `r`: the order is the one at some position holding those ids, and it is
/// gone if the answer was yes.
pub open spec fn cancelled_at<E: ExecutionPolicy>(
    levels: Seq<PriceLevel>,
    new_levels: Seq<PriceLevel>,
    participant_id: usize,
    order_id: usize,
    r: Result<(), Error>,
    policy: E,
) -> bool {
    exists|i: int, j: int|
        {
            &&& #[trigger] holds_order(levels, i, j, participant_id, order_id)
            &&& r == policy.cancel_verdict(levels[i].orders@[j])
            &&& r is Ok ==> order_removed(levels, new_levels, i, j)
            &&& r is Err ==> new_levels == levels
        }
}

/// `new` is `old` after `place_order(order)` returned `r`, with `policy`
/// the execution policy as it was before the call (see
/// `OrderBook::place_order`).
pub open spec fn order_placed<E: ExecutionPolicy>(
    old: OrderBook,
    new: OrderBook,
    order: Rc<Order>,
    r: Result<(), Error>,
    policy: E,
) -> bool {
    let unchanged = new.side_levels(Side::Bid) == old.side_levels(Side::Bid) && new.side_levels(
        Side::Ask,
    ) == old.side_levels(Side::Ask);
    match order.order_data {
        OrderType::Limit(l) => {
            let filled = old.filled(new, l.side);
            let own = new.side_levels(l.side);
            let opp = new.side_levels(l.side.spec_opposite());
            &&& old.matched(new, l.side, Some(l.price), l.quantity)
            &&& (r is Ok && filled < l.quantity) ==> rested(
                old.side_levels(l.side),
                own,
                (OrderQuantity { order: order, quantity: (l.quantity - filled) as u64 }),
                l.price,
            )
            &&& (r is Err || filled == l.quantity) ==> own == old.side_levels(l.side)
            &&& r is Ok ==> filled == l.quantity || opp.len() == 0 || !crosses(
                l.side.spec_opposite(),
                opp.last().price,
                Some(l.price),
            )
            &&& l.quantity == 0 ==> r is Ok && unchanged
            &&& (l.quantity > 0 && nothing_crosses(
                l.side.spec_opposite(),
                old.side_levels(l.side.spec_opposite()),
                l.quantity,
                Some(l.price),
            )) ==> {
                &&& opp == old.side_levels(l.side.spec_opposite())
                &&& r == policy.place_verdict(
                    (OrderQuantity { order: order, quantity: l.quantity }),
                )
            }
            &&& policy.accepts_all() ==> r is Ok
        },
        OrderType::ImmediateOrCancel(l) => {
            let filled = old.filled(new, l.side);
            let opp = new.side_levels(l.side.spec_opposite());
            &&& old.matched(new, l.side, Some(l.price), l.quantity)
            &&& new.side_levels(l.side) == old.side_levels(l.side)
            &&& r is Ok ==> filled == l.quantity || opp.len() == 0 || !crosses(
                l.side.spec_opposite(),
                opp.last().price,
                Some(l.price),
            )
            &&& nothing_crosses(
                l.side.spec_opposite(),
                old.side_levels(l.side.spec_opposite()),
                l.quantity,
                Some(l.price),
            ) ==> r is Ok && unchanged
            &&& policy.accepts_all() ==> r is Ok
        },
        OrderType::Market(m) => {
            let filled = old.filled(new, m.side);
            &&& old.matched(new, m.side, None, m.quantity)
            &&& new.side_levels(m.side) == old.side_levels(m.side)
            &&& r is Ok ==> filled == m.quantity || new.side_levels(
                m.side.spec_opposite(),
            ).len() == 0
            &&& nothing_crosses(
                m.side.spec_opposite(),
                old.side_levels(m.side.spec_opposite()),
                m.quantity,
                None,
            ) ==> r is Ok && unchanged
            &&& policy.accepts_all() ==> r is Ok
        },
        OrderType::Cancel => {
            let bid = old.side_levels(Side::Bid);
            let ask = old.side_levels(Side::Ask);
            let pid = order.participant_id;
            let oid = order.order_id;
            &&& (!rests(bid, pid, oid) && !rests(ask, pid, oid)) ==> r == Err::<(), Error>(
                Error::UnknownOrder,
            ) && unchanged
            &&& rests(bid, pid, oid) ==> {
                &&& new.side_levels(Side::Ask) == ask
                &&& cancelled_at(bid, new.side_levels(Side::Bid), pid, oid, r, policy)
            }
            &&& (!rests(bid, pid, oid) && rests(ask, pid, oid)) ==> {
                &&& new.side_levels(Side::Bid) == bid
                &&& cancelled_at(ask, new.side_levels(Side::Ask), pid, oid, r, policy)
            }
            &&& (policy.accepts_all() && (rests(bid, pid, oid) || rests(ask, pid, oid))) ==> r is Ok
        },
        _ => r == Err::<(), Error>(Error::InvalidOrderType) && unchanged,
    }
}

/// `new` is `old` after `cancel_order(order)` returned `r`, with `policy`
/// the execution policy as it was before the call (see
/// `OrderBook::cancel_order`).
pub open spec fn order_cancelled<E: ExecutionPolicy>(
    old: OrderBook,
    new: OrderBook,
    order: Order,
    r: Result<(), Error>,
    policy: E,
) -> bool {
    match order.order_data {
        OrderType::Limit(l) => {
            let levels = old.side_levels(l.side);
            &&& new.side_levels(l.side.spec_opposite()) == old.side_levels(
                l.side.spec_opposite(),
            )
            &&& r is Err ==> new.side_levels(l.side) == levels
            &&& (exists|i: int, j: int|
                #[trigger] holds_order(levels, i, j, order.participant_id, order.order_id)
                    && levels[i].price == l.price) ==> exists|i: int, j: int|
                {
                    &&& #[trigger] holds_order(levels, i, j, order.participant_id, order.order_id)
                    &&& levels[i].price == l.price
                    &&& r == policy.cancel_verdict(levels[i].orders@[j])
                    &&& r is Ok ==> order_removed(levels, new.side_levels(l.side), i, j)
                }
            &&& (forall|i: int, j: int|
                0 <= i < levels.len() && levels[i].price == l.price ==> !#[trigger] holds_order(
                    levels,
                    i,
                    j,
                    order.participant_id,
                    order.order_id,
                )) ==> r == Err::<(), Error>(Error::UnknownOrder)
        },
        _ => r == Err::<(), Error>(Error::InvalidOrderType),
    }
}

/// The two sides of the book of one market.
pub struct OrderBook {
    market: Rc<Market>,
    bid: PriceLevels,
    ask: PriceLevels,
}

impl OrderBook {
    /// Both sides well formed, each knowing which side it is.
    pub open spec fn wf(&self) -> bool {
        &&& self.spec_bid().wf()
        &&& self.spec_ask().wf()
        &&& self.spec_bid().spec_side() == Side::Bid
        &&& self.spec_ask().spec_side() == Side::Ask
    }

    pub closed spec fn spec_market(&self) -> Rc<Market> {
        self.market
    }

    pub closed spec fn spec_bid(&self) -> PriceLevels {
        self.bid
    }

    pub closed spec fn spec_ask(&self) -> PriceLevels {
        self.ask
    }

    /// The levels of one side, from the worst price to the best.
    pub open spec fn side_levels(&self, side: Side) -> Seq<PriceLevel> {
        match side {
            Side::Bid => self.spec_bid()@,
            Side::Ask => self.spec_ask()@,
        }
    }

    /// `new` is `self` after an aggressor on `side` with limit `limit` and
    /// quantity `quantity` matched the opposite side: returns how much it
    /// filled, and states that only the opposite side changed, from its best
    /// level on and within the limit.
    pub open spec fn matched(self, new: OrderBook, side: Side, limit: Option<u64>, quantity: u64) -> bool {
        let opp = side.spec_opposite();
        let filled = book_total(self.side_levels(opp)) - book_total(new.side_levels(opp));
        &&& book_consumed(opp, self.side_levels(opp), new.side_levels(opp), limit)
        &&& 0 <= filled <= quantity
    }

    /// How much an aggressor on `side` took from the opposite side.
    pub open spec fn filled(self, new: OrderBook, side: Side) -> int {
        let opp = side.spec_opposite();
        book_total(self.side_levels(opp)) - book_total(new.side_levels(opp))
    }

    /// An empty book for `market`.
    pub fn new(market: Rc<Market>) -> (r: Self)
        ensures
            r.wf(),
            r.spec_market() == market,
            r.side_levels(Side::Bid).len() == 0,
            r.side_levels(Side::Ask).len() == 0,
    {
        Self { market, bid: PriceLevels::new(Side::Bid), ask: PriceLevels::new(Side::Ask) }
    }

    /// The market this book trades.
    pub fn market(&self) -> (r: &Rc<Market>)
        ensures
            *r == self.spec_market(),
    {
        &self.market
    }

    /// The bid side.
    pub fn bid(&self) -> (r: &PriceLevels)
        ensures
            *r == self.spec_bid(),
    {
        &self.bid
    }

    /// The ask side.
    pub fn ask(&self) -> (r: &PriceLevels)
        ensures
            *r == self.spec_ask(),
    {
        &self.ask
    }

    /// Routes an order through match-then-rest. A limit order matches the
    /// opposite side within its limit and rests what remains; an
    /// immediate-or-cancel order only matches; a market order matches at any
    /// price. What an order leaves unfilled otherwise is dropped. Errors stop
    /// processing; fills made before them stay.
    pub fn place_order<E: ExecutionPolicy, M: MarketDataPolicy>(
        &mut self,
        order: Rc<Order>,
        execution_policy: &mut E,
        market_data_policy: &M,
    ) -> (r: Result<(), Error>)
        requires
            old(self).wf(),
        ensures
            final(self).wf(),
            final(self).spec_market() == old(self).spec_market(),
            order_placed(*old(self), *final(self), order, r, *old(execution_policy)),
            old(execution_policy).accepts_all() ==> final(execution_policy).accepts_all(),
    {
        match &order.order_data {
            OrderType::Limit(limit) => {
                let mut order_quantity = OrderQuantity::new_limit_order(order.clone(), limit);
                match limit.side {
                    Side::Bid => {
                        self.ask.match_limit_order(
                            &mut order_quantity,
                            limit,
                            execution_policy,
                            market_data_policy,
                        )?;
                        if order_quantity.quantity > 0 {
                            self.bid.place_limit_order(
                                order_quantity,
                                limit,
                                execution_policy,
                                market_data_policy,
                            )
                        } else {
                            Ok(())
                        }
                    },
                    Side::Ask => {
                        self.bid.match_limit_order(
                            &mut order_quantity,
                            limit,
                            execution_policy,
                            market_data_policy,
                        )?;
                        if order_quantity.quantity > 0 {
                            self.ask.place_limit_order(
                                order_quantity,
                                limit,
                                execution_policy,
                                market_data_policy,
                            )
                        } else {
                            Ok(())
                        }
                    },
                }
            },
            OrderType::ImmediateOrCancel(limit) => {
                let mut order_quantity = OrderQuantity::new_limit_order(order.clone(), limit);
                match limit.side {
                    Side::Bid => self.ask.match_limit_order(
                        &mut order_quantity,
                        limit,
                        execution_policy,
                        market_data_policy,
                    ),
                    Side::Ask => self.bid.match_limit_order(
                        &mut order_quantity,
                        limit,
                        execution_policy,
                        market_data_policy,
                    ),
                }
            },
            OrderType::Market(market_order) => {
                let mut order_quantity = OrderQuantity::new_market_order(order.clone(), market_order);
                match market_order.side {
                    Side::Bid => self.ask.match_market_order(
                        &mut order_quantity,
                        market_order,
                        execution_policy,
                        market_data_policy,
                    ),
                    Side::Ask => self.bid.match_market_order(
                        &mut order_quantity,
                        market_order,
                        execution_policy,
                        market_data_policy,
                    ),
                }
            },
            OrderType::Cancel => match self.bid.find_order(order.participant_id, order.order_id) {
                Some((i, j)) => self.bid.cancel_at(i, j, execution_policy, market_data_policy),
                None => match self.ask.find_order(order.participant_id, order.order_id) {
                    Some((i, j)) => self.ask.cancel_at(i, j, execution_policy, market_data_policy),
                    None => Err(Error::UnknownOrder),
                },
            },
            _ => Err(Error::InvalidOrderType),
        }
    }

    /// Cancels the resting limit order `order`: removes it from the level at
    /// its limit price on its side.
    pub fn cancel_order<E: ExecutionPolicy, M: MarketDataPolicy>(
        &mut self,
        order: &Order,
        execution_policy: &mut E,
        market_data_policy: &M,
    ) -> (r: Result<(), Error>)
        requires
            old(self).wf(),
        ensures
            final(self).wf(),
            final(self).spec_market() == old(self).spec_market(),
            r is Err ==> final(self).side_levels(Side::Bid) == old(self).side_levels(Side::Bid)
                && final(self).side_levels(Side::Ask) == old(self).side_levels(Side::Ask),
            order_cancelled(*old(self), *final(self), *order, r, *old(execution_policy)),
            old(execution_policy).accepts_all() ==> final(execution_policy).accepts_all(),
    {
        match &order.order_data {
            OrderType::Limit(limit) => match limit.side {
                Side::Bid => {
                    let r = self.bid.cancel_order(
                        order.participant_id,
                        order.order_id,
                        limit.price,
                        execution_policy,
                        market_data_policy,
                    );
                    proof {
                        if r is Ok {
                            let (i, j) = choose|i: int, j: int|
                                {
                                    &&& #[trigger] holds_order(
                                        old(self).spec_bid()@,
                                        i,
                                        j,
                                        order.participant_id,
                                        order.order_id,
                                    )
                                    &&& old(self).spec_bid()@[i].price == limit.price
                                    &&& order_removed(old(self).spec_bid()@, self.bid@, i, j)
                                };
                            assert(holds_order(
                                old(self).side_levels(limit.side),
                                i,
                                j,
                                order.participant_id,
                                order.order_id,
                            ));
                        }
                    }
                    r
                },
                Side::Ask => {
                    let r = self.ask.cancel_order(
                        order.participant_id,
                        order.order_id,
                        limit.price,
                        execution_policy,
                        market_data_policy,
                    );
                    proof {
                        if r is Ok {
                            let (i, j) = choose|i: int, j: int|
                                {
                                    &&& #[trigger] holds_order(
                                        old(self).spec_ask()@,
                                        i,
                                        j,
                                        order.participant_id,
                                        order.order_id,
                                    )
                                    &&& old(self).spec_ask()@[i].price == limit.price
                                    &&& order_removed(old(self).spec_ask()@, self.ask@, i, j)
                                };
                            assert(holds_order(
                                old(self).side_levels(limit.side),
                                i,
                                j,
                                order.participant_id,
                                order.order_id,
                            ));
                        }
                    }
                    r
                },
            },
            _ => Err(Error::InvalidOrderType),
        }
    }
}

} // verus!

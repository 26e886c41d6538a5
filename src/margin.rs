use std::collections::{HashMap, VecDeque};
use std::rc::Rc;
use vstd::prelude::*;

use crate::error::Error;
use crate::execution_policy::ExecutionPolicy;
use crate::order::{Asset, Order, OrderType, Side};
use crate::order_book::OrderQuantity;

verus! {

/// One fill that opened or reduced a lot.
pub struct MarginLotTransaction {
    /// Order of the lot owner (aggressor or book order).
    pub order: Rc<Order>,
    /// Price, in the quote currency, at which the order was executed.
    pub executed_price: u64,
    /// Quantity of the asset by which the lot was updated.
    pub executed_quantity: u64,
}

/// The transaction that records a fill of `quantity` by `order` at `price`.
pub open spec fn lot_tx(order: Rc<Order>, price: u64, quantity: u64) -> MarginLotTransaction {
    MarginLotTransaction { order: order, executed_price: price, executed_quantity: quantity }
}

/// Sum of the executed quantities of a sequence of transactions.
pub open spec fn executed_total(txs: Seq<MarginLotTransaction>) -> int
    decreases txs.len(),
{
    if txs.len() == 0 {
        0
    } else {
        executed_total(txs.drop_last()) + txs.last().executed_quantity
    }
}

/// One lot on one side of an asset account.
pub struct MarginLot {
    /// Quantity when the lot was created.
    pub quantity_orig: u64,
    /// Quantity not yet closed by opposite fills.
    pub quantity_left: u64,
    /// Every fill that affected this lot, oldest first.
    pub transactions: VecDeque<MarginLotTransaction>,
}

impl MarginLot {
    /// The closed part of the lot is what its transactions executed:
    /// `quantity_orig == quantity_left + Σ executed_quantity`.
    pub open spec fn is_balanced(&self) -> bool {
        &&& self.quantity_left <= self.quantity_orig
        &&& self.quantity_orig == self.quantity_left + executed_total(self.transactions@)
    }

    /// A lot opened by a fill: the first transaction is that fill, of the
    /// whole original quantity, and the later ones closed the rest:
    /// `quantity_orig == quantity_left + Σ executed_quantity` over them.
    pub open spec fn is_balanced_after_opening(&self) -> bool {
        &&& self.transactions@.len() >= 1
        &&& self.transactions@[0].executed_quantity == self.quantity_orig
        &&& self.quantity_left <= self.quantity_orig
        &&& self.quantity_orig == self.quantity_left + executed_total(self.transactions@.drop_first())
    }

    /// A lot that nothing has closed yet.
    pub fn new_with_quantity(quantity: u64) -> (r: Self)
        ensures
            r.quantity_orig == quantity,
            r.quantity_left == quantity,
            r.transactions@ == Seq::<MarginLotTransaction>::empty(),
            r.is_balanced(),
    {
        Self { quantity_orig: quantity, quantity_left: quantity, transactions: VecDeque::new() }
    }

    /// How much has been closed so far, if anything.
    pub fn get_quantity_closed(&self) -> (r: Option<u64>)
        ensures
            r == (if self.quantity_left < self.quantity_orig {
                Some((self.quantity_orig - self.quantity_left) as u64)
            } else {
                None
            }),
    {
        if self.quantity_left < self.quantity_orig {
            Some(self.quantity_orig - self.quantity_left)
        } else {
            None
        }
    }

    /// Quantity executed by the most recent transaction.
    pub fn get_last_transaction_quantity(&self) -> (r: Option<u64>)
        ensures
            self.transactions@.len() == 0 ==> r is None,
            self.transactions@.len() > 0 ==> r == Some(self.transactions@.last().executed_quantity),
    {
        let n = self.transactions.len();
        if n == 0 {
            None
        } else {
            Some(self.transactions[n - 1].executed_quantity)
        }
    }

    /// Closes up to `quantity` of the lot and records the transaction.
    /// Returns what is left of `quantity` once the lot is fully closed, or
    /// `None` when the lot absorbed all of it and stays open.
    pub fn close_quantity(&mut self, quantity: u64, order: Rc<Order>, price: u64) -> (r: Option<u64>)
        ensures
            final(self).quantity_orig == old(self).quantity_orig,
            quantity < old(self).quantity_left ==> r is None && final(self).quantity_left
                == old(self).quantity_left - quantity,
            quantity >= old(self).quantity_left ==> r == Some((quantity - old(self).quantity_left) as u64)
                && final(self).quantity_left == 0,
            final(self).transactions@ == old(self).transactions@.push(
                (MarginLotTransaction {
                    order: order,
                    executed_price: price,
                    executed_quantity: (old(self).quantity_left - final(self).quantity_left) as u64,
                }),
            ),
            old(self).is_balanced() ==> final(self).is_balanced(),
            old(self).is_balanced_after_opening() ==> final(self).is_balanced_after_opening(),
    {
        let ghost txs = self.transactions@;
        if quantity < self.quantity_left {
            self.quantity_left = self.quantity_left - quantity;
            self.transactions.push_back(
                MarginLotTransaction { order, executed_price: price, executed_quantity: quantity },
            );
            proof {
                assert(self.transactions@.drop_last() == txs);
                if txs.len() >= 1 {
                    assert(self.transactions@.drop_first().drop_last() == txs.drop_first());
                }
            }
            None
        } else {
            let left = self.quantity_left;
            self.quantity_left = 0;
            self.transactions.push_back(
                MarginLotTransaction { order, executed_price: price, executed_quantity: left },
            );
            proof {
                assert(self.transactions@.drop_last() == txs);
                if txs.len() >= 1 {
                    assert(self.transactions@.drop_first().drop_last() == txs.drop_first());
                }
            }
            Some(quantity - left)
        }
    }
}

/// Sum of what is left open in a sequence of lots.
pub open spec fn lots_left_total(lots: Seq<MarginLot>) -> int
    decreases lots.len(),
{
    if lots.len() == 0 {
        0
    } else {
        lots[0].quantity_left + lots_left_total(lots.drop_first())
    }
}

/// One side (received or delivered) of an asset account.
pub struct MarginSide {
    /// Promised future flow from resting orders.
    pub quantity_open: u64,
    /// In flight during a two-phase fill.
    pub quantity_locked: u64,
    /// Realised, net of offsets against the opposite side.
    pub quantity_committed: u64,
    /// Outstanding lots, oldest first.
    pub open_lots: VecDeque<MarginLot>,
    /// Fully closed lots, in the order they were closed.
    pub closed_lots: VecDeque<MarginLot>,
}

impl MarginSide {
    /// The same side with other counters and the same lots.
    pub open spec fn with_counters(self, open: u64, locked: u64, committed: u64) -> MarginSide {
        MarginSide {
            quantity_open: open,
            quantity_locked: locked,
            quantity_committed: committed,
            open_lots: self.open_lots,
            closed_lots: self.closed_lots,
        }
    }

    /// The lots of `new` are those of `self` after `quantity` was matched
    /// against the open lots, oldest first, leaving `rest` unmatched. Fully
    /// closed lots move, in order, to the end of the closed lots; at most one
    /// lot is partly closed and it stays at the head of the open lots. Each
    /// lot that was closed, fully or in part, records the fill by `order` at
    /// `price` of what it closed as its last transaction.
    pub open spec fn lots_matched(
        self,
        new: MarginSide,
        quantity: u64,
        rest: Option<u64>,
        order: Rc<Order>,
        price: u64,
    ) -> bool {
        let lots = self.open_lots@;
        let n_closed = self.closed_lots@.len();
        let pos = new.closed_lots@.len() - n_closed;
        let rem: int = match rest {
            Some(x) => x as int,
            None => 0,
        };
        &&& 0 <= pos <= lots.len()
        &&& new.closed_lots@.subrange(0, n_closed as int) == self.closed_lots@
        &&& forall|k: int|
            0 <= k < pos ==> {
                &&& (#[trigger] new.closed_lots@[n_closed + k]).quantity_left == 0
                &&& new.closed_lots@[n_closed + k].quantity_orig == lots[k].quantity_orig
                &&& new.closed_lots@[n_closed + k].transactions@ == lots[k].transactions@.push(
                    lot_tx(order, price, lots[k].quantity_left),
                )
            }
        &&& new.open_lots@.len() == lots.len() - pos
        &&& forall|j: int| 0 < j < new.open_lots@.len() ==> #[trigger] new.open_lots@[j] == lots[pos + j]
        &&& new.open_lots@.len() > 0 ==> {
            ||| new.open_lots@[0] == lots[pos]
            ||| {
                &&& new.open_lots@[0].quantity_orig == lots[pos].quantity_orig
                &&& 0 < new.open_lots@[0].quantity_left < lots[pos].quantity_left
                &&& new.open_lots@[0].transactions@ == lots[pos].transactions@.push(
                    lot_tx(
                        order,
                        price,
                        (lots[pos].quantity_left - new.open_lots@[0].quantity_left) as u64,
                    ),
                )
            }
        }
        &&& lots_left_total(lots) - lots_left_total(new.open_lots@) == quantity - rem
        &&& rest is Some ==> rem > 0 && new.open_lots@.len() == 0
    }

    /// Every lot of the side, open or closed, accounts for its quantity:
    /// its opening fill is the original quantity and its later transactions
    /// closed exactly what is no longer left.
    pub open spec fn lots_balanced(&self) -> bool {
        &&& forall|i: int|
            0 <= i < self.open_lots@.len() ==> (#[trigger] self.open_lots@[i]).is_balanced_after_opening()
        &&& forall|i: int|
            0 <= i < self.closed_lots@.len() ==> (#[trigger] self.closed_lots@[i]).is_balanced_after_opening()
    }

    /// A side with no flow and no lots.
    pub fn new() -> (r: Self)
        ensures
            r.quantity_open == 0,
            r.quantity_locked == 0,
            r.quantity_committed == 0,
            r.open_lots@.len() == 0,
            r.closed_lots@.len() == 0,
            r.lots_balanced(),
    {
        Self {
            quantity_open: 0,
            quantity_locked: 0,
            quantity_committed: 0,
            open_lots: VecDeque::new(),
            closed_lots: VecDeque::new(),
        }
    }

    /// Promises a future transaction (a new order rests on the book).
    pub fn promise_transaction(&mut self, quantity: u64) -> (r: Result<(), Error>)
        ensures
            old(self).quantity_open + quantity <= u64::MAX ==> r is Ok && *final(self)
                == old(self).with_counters(
                (old(self).quantity_open + quantity) as u64,
                old(self).quantity_locked,
                old(self).quantity_committed,
            ),
            old(self).quantity_open + quantity > u64::MAX ==> r == Err::<(), Error>(
                Error::ArithmeticOverflow,
            ) && *final(self) == *old(self),
    {
        match self.quantity_open.checked_add(quantity) {
            Some(v) => {
                self.quantity_open = v;
                Ok(())
            },
            None => Err(Error::ArithmeticOverflow),
        }
    }

    /// Withdraws a promise (cancel or execution); never below zero.
    pub fn cancel_transaction_promise(&mut self, quantity: u64)
        ensures
            *final(self) == old(self).with_counters(
                (if old(self).quantity_open >= quantity {
                    old(self).quantity_open - quantity
                } else {
                    0
                }) as u64,
                old(self).quantity_locked,
                old(self).quantity_committed,
            ),
    {
        self.quantity_open = self.quantity_open.saturating_sub(quantity);
    }

    /// Locks quantity for an execution in progress.
    pub fn begin_transaction(&mut self, quantity: u64) -> (r: Result<(), Error>)
        ensures
            old(self).quantity_locked + quantity <= u64::MAX ==> r is Ok && *final(self)
                == old(self).with_counters(
                old(self).quantity_open,
                (old(self).quantity_locked + quantity) as u64,
                old(self).quantity_committed,
            ),
            old(self).quantity_locked + quantity > u64::MAX ==> r == Err::<(), Error>(
                Error::ArithmeticOverflow,
            ) && *final(self) == *old(self),
    {
        match self.quantity_locked.checked_add(quantity) {
            Some(v) => {
                self.quantity_locked = v;
                Ok(())
            },
            None => Err(Error::ArithmeticOverflow),
        }
    }

    /// Called on the opposite side of a commit: offsets `quantity` against the
    /// committed quantity here, and returns what exceeded it.
    pub fn will_commit_opposite_side(&mut self, quantity: u64) -> (r: Option<u64>)
        ensures
            quantity < old(self).quantity_committed ==> r is None && *final(self)
                == old(self).with_counters(
                old(self).quantity_open,
                old(self).quantity_locked,
                (old(self).quantity_committed - quantity) as u64,
            ),
            quantity >= old(self).quantity_committed ==> r == Some(
                (quantity - old(self).quantity_committed) as u64,
            ) && *final(self) == old(self).with_counters(
                old(self).quantity_open,
                old(self).quantity_locked,
                0,
            ),
    {
        if quantity < self.quantity_committed {
            self.quantity_committed = self.quantity_committed - quantity;
            None
        } else {
            let left = quantity - self.quantity_committed;
            self.quantity_committed = 0;
            Some(left)
        }
    }

    /// Releases `unlock_quantity` and commits what the opposite side did not offset.
    pub fn commit_transaction(&mut self, unlock_quantity: u64, commit_quantity: Option<u64>) -> (r:
        Result<(), Error>)
        ensures
            ({
                let add: int = match commit_quantity {
                    Some(x) => x as int,
                    None => 0,
                };
                if unlock_quantity <= old(self).quantity_locked && old(self).quantity_committed + add
                    <= u64::MAX {
                    r is Ok && *final(self) == old(self).with_counters(
                        old(self).quantity_open,
                        (old(self).quantity_locked - unlock_quantity) as u64,
                        (old(self).quantity_committed + add) as u64,
                    )
                } else {
                    r == Err::<(), Error>(Error::ArithmeticOverflow) && *final(self) == *old(self)
                }
            }),
    {
        if unlock_quantity > self.quantity_locked {
            return Err(Error::ArithmeticOverflow);
        }
        let committed = match commit_quantity {
            Some(x) => match self.quantity_committed.checked_add(x) {
                Some(v) => v,
                None => {
                    return Err(Error::ArithmeticOverflow);
                },
            },
            None => self.quantity_committed,
        };
        self.quantity_locked = self.quantity_locked - unlock_quantity;
        self.quantity_committed = committed;
        Ok(())
    }

    /// Opens a lot of `quantity`, recorded with the fill that opened it.
    pub fn create_lot(&mut self, quantity: u64, order: Rc<Order>, price: u64)
        ensures
            final(self).quantity_open == old(self).quantity_open,
            final(self).quantity_locked == old(self).quantity_locked,
            final(self).quantity_committed == old(self).quantity_committed,
            final(self).closed_lots == old(self).closed_lots,
            final(self).open_lots@.len() == old(self).open_lots@.len() + 1,
            final(self).open_lots@.drop_last() == old(self).open_lots@,
            final(self).open_lots@.last().quantity_orig == quantity,
            final(self).open_lots@.last().quantity_left == quantity,
            final(self).open_lots@.last().transactions@ == seq![
                (MarginLotTransaction { order: order, executed_price: price, executed_quantity: quantity }),
            ],
            old(self).lots_balanced() ==> final(self).lots_balanced(),
    {
        let mut transactions = VecDeque::new();
        transactions.push_back(
            MarginLotTransaction { order, executed_price: price, executed_quantity: quantity },
        );
        self.open_lots.push_back(
            MarginLot { quantity_orig: quantity, quantity_left: quantity, transactions },
        );
        proof {
            assert(self.open_lots@.last().transactions@ =~= seq![
                (MarginLotTransaction { order: order, executed_price: price, executed_quantity: quantity }),
            ]);
            assert(self.open_lots@.last().transactions@.drop_first() =~= Seq::<MarginLotTransaction>::empty());
            assert forall|i: int| 0 <= i < self.open_lots@.len() - 1 implies self.open_lots@[i] == old(self).open_lots@[i] by {
                assert(self.open_lots@.drop_last() == old(self).open_lots@);
            }
        }
    }
    /// Matches `quantity` against the open lots, oldest first. Returns
    /// whether a lot was left partly closed, how many lots were fully closed,
    /// and what is left of `quantity` once every open lot is closed.
    pub fn match_lots_tell(&mut self, quantity: u64, order: Rc<Order>, price: u64) -> (r: (
        bool,
        usize,
        Option<u64>,
    ))
        ensures
            old(self).lots_matched(*final(self), quantity, r.2, order, price),
            r.1 == final(self).closed_lots@.len() - old(self).closed_lots@.len(),
            r.0 ==> final(self).open_lots@.len() > 0 && final(self).open_lots@[0].quantity_left
                < old(self).open_lots@[r.1 as int].quantity_left,
            old(self).lots_balanced() ==> final(self).lots_balanced(),
            final(self).quantity_open == old(self).quantity_open,
            final(self).quantity_locked == old(self).quantity_locked,
            final(self).quantity_committed == old(self).quantity_committed,
    {
        let ghost lots = self.open_lots@;
        let ghost closed = self.closed_lots@;
        let ghost n_closed = closed.len();
        let ghost start = *self;
        let n_lots = self.open_lots.len();
        let mut remaining: u64 = quantity;
        let mut pos: usize = 0;
        let mut partial = false;
        while remaining > 0 && self.open_lots.len() > 0
            invariant
                self.quantity_open == start.quantity_open,
                self.quantity_locked == start.quantity_locked,
                self.quantity_committed == start.quantity_committed,
                lots == start.open_lots@,
                closed == start.closed_lots@,
                n_closed == closed.len(),
                n_lots == lots.len(),
                pos <= lots.len(),
                self.closed_lots@.len() == n_closed + pos,
                self.closed_lots@.subrange(0, n_closed as int) == closed,
                forall|k: int|
                    0 <= k < pos ==> {
                        &&& (#[trigger] self.closed_lots@[n_closed + k]).quantity_left == 0
                        &&& self.closed_lots@[n_closed + k].quantity_orig == lots[k].quantity_orig
                        &&& self.closed_lots@[n_closed + k].transactions@ == lots[k].transactions@.push(
                            lot_tx(order, price, lots[k].quantity_left),
                        )
                    },
                self.open_lots@.len() == lots.len() - pos,
                !partial ==> self.open_lots@ == lots.subrange(pos as int, lots.len() as int),
                partial ==> {
                    &&& remaining == 0
                    &&& self.open_lots@.len() > 0
                    &&& self.open_lots@[0].quantity_orig == lots[pos as int].quantity_orig
                    &&& 0 < self.open_lots@[0].quantity_left < lots[pos as int].quantity_left
                    &&& self.open_lots@[0].transactions@ == lots[pos as int].transactions@.push(
                        lot_tx(
                            order,
                            price,
                            (lots[pos as int].quantity_left - self.open_lots@[0].quantity_left) as u64,
                        ),
                    )
                    &&& forall|j: int|
                        0 < j < self.open_lots@.len() ==> #[trigger] self.open_lots@[j] == lots[pos
                            + j]
                },
                lots_left_total(lots) - lots_left_total(self.open_lots@) == quantity - remaining,
                start.lots_balanced() ==> self.lots_balanced(),
            decreases self.open_lots@.len() + (if remaining > 0 {
                1int
            } else {
                0int
            }),
        {
            let ghost before = self.open_lots@;
            let mut lot = self.open_lots.pop_front().unwrap();
            proof {
                assert(before.drop_first() == self.open_lots@);
            }
            let left = lot.close_quantity(remaining, order.clone(), price);
            match left {
                Some(rest) => {
                    let ghost closed_before = self.closed_lots@;
                    self.closed_lots.push_back(lot);
                    proof {
                        if start.lots_balanced() {
                            assert forall|i: int| 0 <= i < self.closed_lots@.len() implies (
                            #[trigger] self.closed_lots@[i]).is_balanced_after_opening() by {
                                if i < closed_before.len() {
                                    assert(self.closed_lots@[i] == closed_before[i]);
                                }
                            }
                            assert forall|i: int| 0 <= i < self.open_lots@.len() implies (
                            #[trigger] self.open_lots@[i]).is_balanced_after_opening() by {
                                assert(self.open_lots@[i] == before[i + 1]);
                            }
                        }
                        assert(self.closed_lots@.subrange(0, n_closed as int) == closed);
                        assert(self.open_lots@ == lots.subrange(pos + 1, lots.len() as int));
                    }
                    pos = pos + 1;
                    remaining = rest;
                },
                None => {
                    self.open_lots.push_front(lot);
                    proof {
                        assert(self.open_lots@.drop_first() == before.drop_first());
                        if start.lots_balanced() {
                            assert forall|i: int| 0 <= i < self.open_lots@.len() implies (
                            #[trigger] self.open_lots@[i]).is_balanced_after_opening() by {
                                if i > 0 {
                                    assert(self.open_lots@[i] == before[i]);
                                }
                            }
                        }
                    }
                    remaining = 0;
                    partial = true;
                },
            }
        }
        if remaining > 0 {
            (partial, pos, Some(remaining))
        } else {
            (partial, pos, None)
        }
    }

    /// Matches `quantity` against the open lots; returns what no open lot absorbed.
    pub fn match_lots(&mut self, quantity: u64, order: Rc<Order>, price: u64) -> (r: Option<u64>)
        ensures
            old(self).lots_matched(*final(self), quantity, r, order, price),
            final(self).quantity_open == old(self).quantity_open,
            final(self).quantity_locked == old(self).quantity_locked,
            final(self).quantity_committed == old(self).quantity_committed,
            old(self).lots_balanced() ==> final(self).lots_balanced(),
    {
        let (_, _, left) = self.match_lots_tell(quantity, order, price);
        left
    }

    /// Matches `quantity` against the open lots as `match_lots` does, and tells
    /// `handler` of the lot left partly closed and of each lot fully closed.
    pub fn match_lots_with_callback<H: MarginLotEventHandler>(
        &mut self,
        quantity: u64,
        order: Rc<Order>,
        price: u64,
        handler: &H,
        asset: &Rc<Asset>,
        side: Side,
        account_id: usize,
    ) -> (r: Option<u64>)
        ensures
            old(self).lots_matched(*final(self), quantity, r, order, price),
            final(self).quantity_open == old(self).quantity_open,
            final(self).quantity_locked == old(self).quantity_locked,
            final(self).quantity_committed == old(self).quantity_committed,
            old(self).lots_balanced() ==> final(self).lots_balanced(),
    {
        let n_closed = self.closed_lots.len();
        let (has_partial_match, pos, left) = self.match_lots_tell(quantity, order.clone(), price);
        let n_all = self.closed_lots.len();
        if has_partial_match {
            handler.handle_lot_updated(
                asset.clone(),
                side,
                &self.open_lots[0],
                order.clone(),
                price,
                account_id,
            );
        }
        let mut k: usize = 0;
        while k < pos
            invariant
                k <= pos,
                self.closed_lots@.len() == n_closed + pos,
                n_all == self.closed_lots@.len(),
            decreases pos - k,
        {
            handler.handle_lot_closed(
                asset.clone(),
                side,
                &self.closed_lots[n_closed + k],
                order.clone(),
                price,
                account_id,
            );
            k = k + 1;
        }
        left
    }

    /// Opens a lot as `create_lot` does and tells `handler` of it.
    pub fn create_lot_with_callback<H: MarginLotEventHandler>(
        &mut self,
        quantity: u64,
        order: Rc<Order>,
        price: u64,
        handler: &H,
        asset: &Rc<Asset>,
        side: Side,
        account_id: usize,
    )
        ensures
            final(self).quantity_open == old(self).quantity_open,
            final(self).quantity_locked == old(self).quantity_locked,
            final(self).quantity_committed == old(self).quantity_committed,
            final(self).closed_lots == old(self).closed_lots,
            final(self).open_lots@.len() == old(self).open_lots@.len() + 1,
            final(self).open_lots@.drop_last() == old(self).open_lots@,
            final(self).open_lots@.last().quantity_orig == quantity,
            final(self).open_lots@.last().quantity_left == quantity,
            final(self).open_lots@.last().transactions@ == seq![lot_tx(order, price, quantity)],
            old(self).lots_balanced() ==> final(self).lots_balanced(),
    {
        self.create_lot(quantity, order.clone(), price);
        let n = self.open_lots.len();
        handler.handle_lot_opened(asset.clone(), side, &self.open_lots[n - 1], order, price, account_id);
    }
}

/// What a commit of `quantity` adds to its own side once the opposite side's
/// committed quantity has absorbed what it can.
pub open spec fn commit_excess(quantity: u64, opposite_committed: u64) -> int {
    if quantity < opposite_committed {
        0
    } else {
        quantity - opposite_committed
    }
}

/// `side` took `quantity` in a commit that first matched `opposite`'s lots:
/// what the lots of `opposite` did not absorb opened one lot at the end of
/// `side`'s open lots, and the opposite side's committed quantity offset the
/// commit before the rest accrued to `side`.
pub open spec fn side_committed(
    old_side: MarginSide,
    new_side: MarginSide,
    old_opposite: MarginSide,
    new_opposite: MarginSide,
    quantity: u64,
    order: Rc<Order>,
    price: u64,
) -> bool {
    let matched = lots_left_total(old_opposite.open_lots@) - lots_left_total(
        new_opposite.open_lots@,
    );
    let rest: Option<u64> = if matched < quantity {
        Some((quantity - matched) as u64)
    } else {
        None
    };
    &&& old_opposite.lots_matched(new_opposite, quantity, rest, order, price)
    &&& new_opposite.quantity_open == old_opposite.quantity_open
    &&& new_opposite.quantity_locked == old_opposite.quantity_locked
    &&& new_opposite.quantity_committed == (if quantity < old_opposite.quantity_committed {
        old_opposite.quantity_committed - quantity
    } else {
        0
    })
    &&& new_side.quantity_open == old_side.quantity_open
    &&& new_side.quantity_locked == old_side.quantity_locked - quantity
    &&& new_side.quantity_committed == old_side.quantity_committed + commit_excess(
        quantity,
        old_opposite.quantity_committed,
    )
    &&& new_side.closed_lots == old_side.closed_lots
    &&& match rest {
        Some(x) => {
            &&& new_side.open_lots@.drop_last() == old_side.open_lots@
            &&& new_side.open_lots@.len() == old_side.open_lots@.len() + 1
            &&& new_side.open_lots@.last().quantity_orig == x
            &&& new_side.open_lots@.last().quantity_left == x
            &&& new_side.open_lots@.last().transactions@ == seq![lot_tx(order, price, x)]
        },
        None => new_side.open_lots == old_side.open_lots,
    }
}

/// The account of one asset for one participant.
pub struct MarginAssetAccount {
    pub asset: Rc<Asset>,
    pub received: MarginSide,
    pub delivered: MarginSide,
}

impl MarginAssetAccount {
    /// Every lot on both sides accounts for its quantity.
    pub open spec fn lots_balanced(&self) -> bool {
        self.received.lots_balanced() && self.delivered.lots_balanced()
    }

    /// Signed net position: committed receipts less committed deliveries.
    pub open spec fn net_committed(&self) -> int {
        self.received.quantity_committed - self.delivered.quantity_committed
    }

    /// A commit of `quantity` to the received side is possible: the quantity
    /// was locked and the part that the delivered side does not offset fits.
    pub open spec fn can_commit_receipt(&self, quantity: u64) -> bool {
        &&& quantity <= self.received.quantity_locked
        &&& self.received.quantity_committed + commit_excess(
            quantity,
            self.delivered.quantity_committed,
        ) <= u64::MAX
    }

    /// A commit of `quantity` to the delivered side is possible.
    pub open spec fn can_commit_delivery(&self, quantity: u64) -> bool {
        &&& quantity <= self.delivered.quantity_locked
        &&& self.delivered.quantity_committed + commit_excess(
            quantity,
            self.received.quantity_committed,
        ) <= u64::MAX
    }

    /// An empty account for `asset`.
    pub fn new(asset: &Rc<Asset>) -> (r: Self)
        ensures
            r.asset == *asset,
            r.received.quantity_open == 0 && r.received.quantity_locked == 0
                && r.received.quantity_committed == 0,
            r.delivered.quantity_open == 0 && r.delivered.quantity_locked == 0
                && r.delivered.quantity_committed == 0,
            r.received.open_lots@.len() == 0 && r.received.closed_lots@.len() == 0,
            r.delivered.open_lots@.len() == 0 && r.delivered.closed_lots@.len() == 0,
    {
        Self { asset: asset.clone(), received: MarginSide::new(), delivered: MarginSide::new() }
    }

    /// Promises a future receipt (an order rests on the book).
    pub fn promise_receipt(&mut self, quantity: u64) -> (r: Result<(), Error>)
        ensures
            final(self).asset == old(self).asset,
            final(self).delivered == old(self).delivered,
            old(self).received.quantity_open + quantity <= u64::MAX ==> r is Ok
                && final(self).received == old(self).received.with_counters(
                (old(self).received.quantity_open + quantity) as u64,
                old(self).received.quantity_locked,
                old(self).received.quantity_committed,
            ),
            old(self).received.quantity_open + quantity > u64::MAX ==> r == Err::<(), Error>(
                Error::ArithmeticOverflow,
            ) && *final(self) == *old(self),
    {
        self.received.promise_transaction(quantity)
    }

    /// Promises a future delivery (an order rests on the book).
    pub fn promise_delivery(&mut self, quantity: u64) -> (r: Result<(), Error>)
        ensures
            final(self).asset == old(self).asset,
            final(self).received == old(self).received,
            old(self).delivered.quantity_open + quantity <= u64::MAX ==> r is Ok
                && final(self).delivered == old(self).delivered.with_counters(
                (old(self).delivered.quantity_open + quantity) as u64,
                old(self).delivered.quantity_locked,
                old(self).delivered.quantity_committed,
            ),
            old(self).delivered.quantity_open + quantity > u64::MAX ==> r == Err::<(), Error>(
                Error::ArithmeticOverflow,
            ) && *final(self) == *old(self),
    {
        self.delivered.promise_transaction(quantity)
    }

    /// Withdraws a promised receipt, never below zero.
    pub fn cancel_receipt_promise(&mut self, quantity: u64)
        ensures
            final(self).asset == old(self).asset,
            final(self).delivered == old(self).delivered,
            final(self).received == old(self).received.with_counters(
                (if old(self).received.quantity_open >= quantity {
                    old(self).received.quantity_open - quantity
                } else {
                    0
                }) as u64,
                old(self).received.quantity_locked,
                old(self).received.quantity_committed,
            ),
    {
        self.received.cancel_transaction_promise(quantity);
    }

    /// Withdraws a promised delivery, never below zero.
    pub fn cancel_delivery_promise(&mut self, quantity: u64)
        ensures
            final(self).asset == old(self).asset,
            final(self).received == old(self).received,
            final(self).delivered == old(self).delivered.with_counters(
                (if old(self).delivered.quantity_open >= quantity {
                    old(self).delivered.quantity_open - quantity
                } else {
                    0
                }) as u64,
                old(self).delivered.quantity_locked,
                old(self).delivered.quantity_committed,
            ),
    {
        self.delivered.cancel_transaction_promise(quantity);
    }

    /// Locks a receipt in progress (first step of a fill).
    pub fn begin_receipt(&mut self, quantity: u64) -> (r: Result<(), Error>)
        ensures
            final(self).asset == old(self).asset,
            final(self).delivered == old(self).delivered,
            old(self).received.quantity_locked + quantity <= u64::MAX ==> r is Ok
                && final(self).received == old(self).received.with_counters(
                old(self).received.quantity_open,
                (old(self).received.quantity_locked + quantity) as u64,
                old(self).received.quantity_committed,
            ),
            old(self).received.quantity_locked + quantity > u64::MAX ==> r == Err::<(), Error>(
                Error::ArithmeticOverflow,
            ) && *final(self) == *old(self),
    {
        self.received.begin_transaction(quantity)
    }

    /// Locks a delivery in progress (first step of a fill).
    pub fn begin_delivery(&mut self, quantity: u64) -> (r: Result<(), Error>)
        ensures
            final(self).asset == old(self).asset,
            final(self).received == old(self).received,
            old(self).delivered.quantity_locked + quantity <= u64::MAX ==> r is Ok
                && final(self).delivered == old(self).delivered.with_counters(
                old(self).delivered.quantity_open,
                (old(self).delivered.quantity_locked + quantity) as u64,
                old(self).delivered.quantity_committed,
            ),
            old(self).delivered.quantity_locked + quantity > u64::MAX ==> r == Err::<(), Error>(
                Error::ArithmeticOverflow,
            ) && *final(self) == *old(self),
    {
        self.delivered.begin_transaction(quantity)
    }

    /// Commits a locked receipt: closes short lots on the delivered side,
    /// oldest first, opens a long lot with what they did not absorb, and
    /// offsets the delivered side's committed quantity before the rest
    /// accrues to the received side.
    pub fn commit_receipt<H: MarginLotEventHandler>(
        &mut self,
        quantity: u64,
        order: Rc<Order>,
        price: u64,
        event_handler: &H,
        account_id: usize,
    ) -> (r: Result<(), Error>)
        ensures
            old(self).can_commit_receipt(quantity) ==> {
                &&& r is Ok
                &&& final(self).asset == old(self).asset
                &&& side_committed(
                    old(self).received,
                    final(self).received,
                    old(self).delivered,
                    final(self).delivered,
                    quantity,
                    order,
                    price,
                )
                &&& final(self).net_committed() == old(self).net_committed() + quantity
                &&& old(self).lots_balanced() ==> final(self).lots_balanced()
            },
            !old(self).can_commit_receipt(quantity) ==> r == Err::<(), Error>(
                Error::ArithmeticOverflow,
            ) && *final(self) == *old(self),
    {
        if quantity > self.received.quantity_locked {
            return Err(Error::ArithmeticOverflow);
        }
        let excess = if quantity < self.delivered.quantity_committed {
            0
        } else {
            quantity - self.delivered.quantity_committed
        };
        if self.received.quantity_committed.checked_add(excess).is_none() {
            return Err(Error::ArithmeticOverflow);
        }
        let rest = self.delivered.match_lots_with_callback(
            quantity,
            order.clone(),
            price,
            event_handler,
            &self.asset,
            Side::Ask,
            account_id,
        );
        if let Some(rest) = rest {
            self.received.create_lot_with_callback(
                rest,
                order,
                price,
                event_handler,
                &self.asset,
                Side::Bid,
                account_id,
            );
        }
        let commit = self.delivered.will_commit_opposite_side(quantity);
        self.received.commit_transaction(quantity, commit)
    }

    /// Commits a locked delivery: closes long lots on the received side,
    /// oldest first, opens a short lot with what they did not absorb, and
    /// offsets the received side's committed quantity before the rest
    /// accrues to the delivered side.
    pub fn commit_delivery<H: MarginLotEventHandler>(
        &mut self,
        quantity: u64,
        order: Rc<Order>,
        price: u64,
        event_handler: &H,
        account_id: usize,
    ) -> (r: Result<(), Error>)
        ensures
            old(self).can_commit_delivery(quantity) ==> {
                &&& r is Ok
                &&& final(self).asset == old(self).asset
                &&& side_committed(
                    old(self).delivered,
                    final(self).delivered,
                    old(self).received,
                    final(self).received,
                    quantity,
                    order,
                    price,
                )
                &&& final(self).net_committed() == old(self).net_committed() - quantity
                &&& old(self).lots_balanced() ==> final(self).lots_balanced()
            },
            !old(self).can_commit_delivery(quantity) ==> r == Err::<(), Error>(
                Error::ArithmeticOverflow,
            ) && *final(self) == *old(self),
    {
        if quantity > self.delivered.quantity_locked {
            return Err(Error::ArithmeticOverflow);
        }
        let excess = if quantity < self.received.quantity_committed {
            0
        } else {
            quantity - self.received.quantity_committed
        };
        if self.delivered.quantity_committed.checked_add(excess).is_none() {
            return Err(Error::ArithmeticOverflow);
        }
        let rest = self.received.match_lots_with_callback(
            quantity,
            order.clone(),
            price,
            event_handler,
            &self.asset,
            Side::Bid,
            account_id,
        );
        if let Some(rest) = rest {
            self.delivered.create_lot_with_callback(
                rest,
                order,
                price,
                event_handler,
                &self.asset,
                Side::Ask,
                account_id,
            );
        }
        let commit = self.received.will_commit_opposite_side(quantity);
        self.delivered.commit_transaction(quantity, commit)
    }
}

/// `account` with `quantity` more promised on the received side (`receipt`)
/// or on the delivered side, if the counter fits.
pub open spec fn promised(account: MarginAssetAccount, receipt: bool, quantity: u64) -> Option<
    MarginAssetAccount,
> {
    let side = if receipt {
        account.received
    } else {
        account.delivered
    };
    if side.quantity_open + quantity <= u64::MAX {
        let new_side = side.with_counters(
            (side.quantity_open + quantity) as u64,
            side.quantity_locked,
            side.quantity_committed,
        );
        Some(account.with_side(receipt, new_side))
    } else {
        None
    }
}

/// `account` with up to `quantity` of the promise on one side withdrawn.
pub open spec fn promise_withdrawn(account: MarginAssetAccount, receipt: bool, quantity: u64) -> MarginAssetAccount {
    let side = if receipt {
        account.received
    } else {
        account.delivered
    };
    let open: u64 = if side.quantity_open >= quantity {
        (side.quantity_open - quantity) as u64
    } else {
        0
    };
    account.with_side(receipt, side.with_counters(open, side.quantity_locked, side.quantity_committed))
}

/// `account` with `quantity` more locked on one side, if the counter fits.
pub open spec fn lock_added(account: MarginAssetAccount, receipt: bool, quantity: u64) -> Option<
    MarginAssetAccount,
> {
    let side = if receipt {
        account.received
    } else {
        account.delivered
    };
    if side.quantity_locked + quantity <= u64::MAX {
        let new_side = side.with_counters(
            side.quantity_open,
            (side.quantity_locked + quantity) as u64,
            side.quantity_committed,
        );
        Some(account.with_side(receipt, new_side))
    } else {
        None
    }
}

/// `account` with `quantity` less locked on one side.
pub open spec fn lock_removed(account: MarginAssetAccount, receipt: bool, quantity: u64) -> MarginAssetAccount {
    let side = if receipt {
        account.received
    } else {
        account.delivered
    };
    account.with_side(
        receipt,
        side.with_counters(
            side.quantity_open,
            (side.quantity_locked - quantity) as u64,
            side.quantity_committed,
        ),
    )
}

/// `new` is `old` after a commit of `quantity` on the received side
/// (`receipt`) or on the delivered side.
pub open spec fn commit_applied(
    old: MarginAssetAccount,
    new: MarginAssetAccount,
    receipt: bool,
    quantity: u64,
    order: Rc<Order>,
    price: u64,
) -> bool {
    &&& new.asset == old.asset
    &&& old.lots_balanced() ==> new.lots_balanced()
    &&& if receipt {
        side_committed(old.received, new.received, old.delivered, new.delivered, quantity, order, price)
    } else {
        side_committed(old.delivered, new.delivered, old.received, new.received, quantity, order, price)
    }
    &&& new.net_committed() == (if receipt {
        old.net_committed() + quantity
    } else {
        old.net_committed() - quantity
    })
}

impl MarginAssetAccount {
    /// The same account with one side replaced.
    pub open spec fn with_side(self, receipt: bool, side: MarginSide) -> MarginAssetAccount {
        if receipt {
            MarginAssetAccount { asset: self.asset, received: side, delivered: self.delivered }
        } else {
            MarginAssetAccount { asset: self.asset, received: self.received, delivered: side }
        }
    }

    /// A commit of `quantity` on the received side (`receipt`) or on the
    /// delivered side is possible.
    pub open spec fn can_commit(&self, receipt: bool, quantity: u64) -> bool {
        if receipt {
            self.can_commit_receipt(quantity)
        } else {
            self.can_commit_delivery(quantity)
        }
    }

    fn promise_fits(&self, receipt: bool, quantity: u64) -> (r: bool)
        ensures
            r == promised(*self, receipt, quantity) is Some,
    {
        let open = if receipt {
            self.received.quantity_open
        } else {
            self.delivered.quantity_open
        };
        open.checked_add(quantity).is_some()
    }

    fn lock_fits(&self, receipt: bool, quantity: u64) -> (r: bool)
        ensures
            r == lock_added(*self, receipt, quantity) is Some,
    {
        let locked = if receipt {
            self.received.quantity_locked
        } else {
            self.delivered.quantity_locked
        };
        locked.checked_add(quantity).is_some()
    }

    fn commit_fits(&self, receipt: bool, quantity: u64) -> (r: bool)
        ensures
            r == self.can_commit(receipt, quantity),
    {
        let (side, opposite) = if receipt {
            (&self.received, &self.delivered)
        } else {
            (&self.delivered, &self.received)
        };
        if quantity > side.quantity_locked {
            return false;
        }
        let excess = if quantity < opposite.quantity_committed {
            0
        } else {
            quantity - opposite.quantity_committed
        };
        side.quantity_committed.checked_add(excess).is_some()
    }

    fn promise_side(&mut self, receipt: bool, quantity: u64) -> (r: Result<(), Error>)
        ensures
            match promised(*old(self), receipt, quantity) {
                Some(a) => r is Ok && *final(self) == a,
                None => r == Err::<(), Error>(Error::ArithmeticOverflow) && *final(self) == *old(self),
            },
    {
        if receipt {
            self.promise_receipt(quantity)
        } else {
            self.promise_delivery(quantity)
        }
    }

    fn withdraw_promise_side(&mut self, receipt: bool, quantity: u64)
        ensures
            *final(self) == promise_withdrawn(*old(self), receipt, quantity),
    {
        if receipt {
            self.cancel_receipt_promise(quantity)
        } else {
            self.cancel_delivery_promise(quantity)
        }
    }

    fn begin_side(&mut self, receipt: bool, quantity: u64) -> (r: Result<(), Error>)
        ensures
            match lock_added(*old(self), receipt, quantity) {
                Some(a) => r is Ok && *final(self) == a,
                None => r == Err::<(), Error>(Error::ArithmeticOverflow) && *final(self) == *old(self),
            },
    {
        if receipt {
            self.begin_receipt(quantity)
        } else {
            self.begin_delivery(quantity)
        }
    }

    fn unlock_side(&mut self, receipt: bool, quantity: u64)
        requires
            (if receipt {
                old(self).received
            } else {
                old(self).delivered
            }).quantity_locked >= quantity,
        ensures
            *final(self) == lock_removed(*old(self), receipt, quantity),
    {
        if receipt {
            self.received.quantity_locked = self.received.quantity_locked - quantity;
        } else {
            self.delivered.quantity_locked = self.delivered.quantity_locked - quantity;
        }
    }

    fn commit_side<H: MarginLotEventHandler>(
        &mut self,
        receipt: bool,
        quantity: u64,
        order: Rc<Order>,
        price: u64,
        event_handler: &H,
        account_id: usize,
    ) -> (r: Result<(), Error>)
        ensures
            old(self).can_commit(receipt, quantity) ==> r is Ok && commit_applied(
                *old(self),
                *final(self),
                receipt,
                quantity,
                order,
                price,
            ),
            !old(self).can_commit(receipt, quantity) ==> r == Err::<(), Error>(
                Error::ArithmeticOverflow,
            ) && *final(self) == *old(self),
    {
        if receipt {
            self.commit_receipt(quantity, order, price, event_handler, account_id)
        } else {
            self.commit_delivery(quantity, order, price, event_handler, account_id)
        }
    }
}

/// `i` is the first position in `portfolio` of a sub-account for the asset
/// named `symbol`.
pub open spec fn is_first_asset(portfolio: Seq<MarginAssetAccount>, symbol: Seq<char>, i: int) -> bool {
    &&& 0 <= i < portfolio.len()
    &&& portfolio[i].asset.symbol@ == symbol
    &&& forall|j: int| 0 <= j < i ==> (#[trigger] portfolio[j]).asset.symbol@ != symbol
}

/// Position of the sub-account for the asset named `symbol`, or -1.
pub open spec fn asset_position(portfolio: Seq<MarginAssetAccount>, symbol: Seq<char>) -> int {
    if exists|i: int| is_first_asset(portfolio, symbol, i) {
        choose|i: int| is_first_asset(portfolio, symbol, i)
    } else {
        -1
    }
}

proof fn lemma_first_asset_unique(portfolio: Seq<MarginAssetAccount>, symbol: Seq<char>, i: int)
    requires
        is_first_asset(portfolio, symbol, i),
    ensures
        asset_position(portfolio, symbol) == i,
{
    let k = asset_position(portfolio, symbol);
    assert(is_first_asset(portfolio, symbol, k));
    if k < i {
        assert(portfolio[k].asset.symbol@ != symbol);
    } else if i < k {
        assert(portfolio[i].asset.symbol@ != symbol);
    }
}

proof fn lemma_match_has_first(portfolio: Seq<MarginAssetAccount>, symbol: Seq<char>, j: int)
    requires
        0 <= j < portfolio.len(),
        portfolio[j].asset.symbol@ == symbol,
    ensures
        asset_position(portfolio, symbol) >= 0,
    decreases j,
{
    if forall|i: int| 0 <= i < j ==> (#[trigger] portfolio[i]).asset.symbol@ != symbol {
        assert(is_first_asset(portfolio, symbol, j));
    } else {
        let i = choose|i: int| 0 <= i < j && (#[trigger] portfolio[i]).asset.symbol@ == symbol;
        lemma_match_has_first(portfolio, symbol, i);
    }
}

/// Portfolios holding the same assets at the same positions find every
/// asset at the same position.
proof fn lemma_same_assets_same_position(
    p: Seq<MarginAssetAccount>,
    q: Seq<MarginAssetAccount>,
    symbol: Seq<char>,
)
    requires
        p.len() == q.len(),
        forall|i: int| 0 <= i < p.len() ==> #[trigger] p[i].asset == q[i].asset,
    ensures
        asset_position(p, symbol) == asset_position(q, symbol),
{
    if asset_position(p, symbol) >= 0 {
        let k = asset_position(p, symbol);
        assert(is_first_asset(p, symbol, k));
        assert(p[k].asset == q[k].asset);
        assert forall|j: int| 0 <= j < k implies (#[trigger] q[j]).asset.symbol@ != symbol by {
            assert(p[j].asset == q[j].asset);
        }
        assert(is_first_asset(q, symbol, k));
        lemma_first_asset_unique(q, symbol, k);
    } else if asset_position(q, symbol) >= 0 {
        let k = asset_position(q, symbol);
        assert(is_first_asset(q, symbol, k));
        assert(p[k].asset == q[k].asset);
        lemma_match_has_first(p, symbol, k);
    }
}

/// How a fill touches one account: positions of the base and quote
/// sub-accounts, whether the base asset is received, and the executed base
/// quantity and quote value in the assets' own precision.
pub struct FillPlan {
    pub base: int,
    pub quote: int,
    pub base_receipt: bool,
    pub base_quantity: u64,
    pub quote_value: u64,
    /// The price of the fill.
    pub price: u64,
}

/// Both flows of the fill planned by `f` can be committed in `portfolio`
/// (when the base and quote sub-accounts differ).
pub open spec fn can_commit_fill(portfolio: Seq<MarginAssetAccount>, f: FillPlan) -> bool {
    &&& portfolio[f.base].can_commit(f.base_receipt, f.base_quantity)
    &&& portfolio[f.quote].can_commit(!f.base_receipt, f.quote_value)
}

/// `new` is `old` after both flows of the fill planned by `f` were
/// committed: the base and quote sub-accounts took their commits and no
/// other sub-account changed.
pub open spec fn fill_committed(
    old: Seq<MarginAssetAccount>,
    new: Seq<MarginAssetAccount>,
    f: FillPlan,
    order: Rc<Order>,
) -> bool {
    &&& new.len() == old.len()
    &&& forall|i: int| 0 <= i < old.len() && i != f.base && i != f.quote ==> #[trigger] new[i] == old[i]
    &&& f.base != f.quote ==> {
        &&& commit_applied(old[f.base], new[f.base], f.base_receipt, f.base_quantity, order, f.price)
        &&& commit_applied(old[f.quote], new[f.quote], !f.base_receipt, f.quote_value, order, f.price)
    }
    &&& f.base == f.quote ==> new[f.base].net_committed() == old[f.base].net_committed() + (
    if f.base_receipt {
        f.base_quantity - f.quote_value
    } else {
        f.quote_value - f.base_quantity
    })
}

/// Margin account of a single participant.
pub struct MarginTradingAccount {
    pub account_id: usize,
    /// One sub-account per asset, keyed by the asset's symbol.
    pub portfolio: Vec<MarginAssetAccount>,
}

impl MarginTradingAccount {
    /// The plan of an order side `side` for `quantity` at `price` on the
    /// market of `order`, or why there is none.
    pub open spec fn spec_plan(&self, order: Order, side: Side, quantity: u64, price: u64) -> Result<
        FillPlan,
        Error,
    > {
        let p = self.portfolio@;
        let b = asset_position(p, order.market.base_asset.symbol@);
        let q = asset_position(p, order.market.quote_asset.symbol@);
        if b < 0 || q < 0 {
            Err(Error::UnknownAsset)
        } else {
            match order.spec_quantity_and_value(quantity, price) {
                None => Err(Error::ArithmeticOverflow),
                Some(v) => Ok(
                    FillPlan {
                        base: b,
                        quote: q,
                        base_receipt: side == Side::Bid,
                        base_quantity: v.0,
                        quote_value: v.1,
                        price: price,
                    },
                ),
            }
        }
    }

    /// Portfolio after placing `book_order` on the book, or the error.
    pub open spec fn spec_place(&self, book_order: OrderQuantity) -> Result<Seq<MarginAssetAccount>, Error> {
        let p = self.portfolio@;
        match book_order.order.order_data {
            OrderType::Limit(l) => match self.spec_plan(
                *book_order.order,
                l.side,
                book_order.quantity,
                l.price,
            ) {
                Err(e) => Err(e),
                Ok(f) => match promised(p[f.base], f.base_receipt, f.base_quantity) {
                    None => Err(Error::ArithmeticOverflow),
                    Some(base_account) => {
                        let with_base = p.update(f.base, base_account);
                        match promised(with_base[f.quote], !f.base_receipt, f.quote_value) {
                            None => Err(Error::ArithmeticOverflow),
                            Some(quote_account) => Ok(with_base.update(f.quote, quote_account)),
                        }
                    },
                },
            },
            _ => Err(Error::InvalidOrderType),
        }
    }

    /// Portfolio after cancelling `book_order`, or the error.
    pub open spec fn spec_cancel(&self, book_order: OrderQuantity) -> Result<Seq<MarginAssetAccount>, Error> {
        let p = self.portfolio@;
        match book_order.order.order_data {
            OrderType::Limit(l) => match self.spec_plan(
                *book_order.order,
                l.side,
                book_order.quantity,
                l.price,
            ) {
                Err(e) => Err(e),
                Ok(f) => {
                    let with_base = p.update(
                        f.base,
                        promise_withdrawn(p[f.base], f.base_receipt, f.base_quantity),
                    );
                    Ok(
                        with_base.update(
                            f.quote,
                            promise_withdrawn(with_base[f.quote], !f.base_receipt, f.quote_value),
                        ),
                    )
                },
            },
            _ => Err(Error::InvalidOrderType),
        }
    }

    /// The plan of a fill of `executed_quantity` of `order_quantity` against
    /// `book_order`, at the book order's price.
    pub open spec fn spec_fill_plan(
        &self,
        executed_quantity: u64,
        order_quantity: OrderQuantity,
        book_order: OrderQuantity,
        is_aggressor: bool,
    ) -> Result<FillPlan, Error> {
        match book_order.order.order_data {
            OrderType::Limit(l) => self.spec_plan(
                *order_quantity.order,
                if is_aggressor {
                    l.side.spec_opposite()
                } else {
                    l.side
                },
                executed_quantity,
                l.price,
            ),
            _ => Err(Error::InvalidOrderType),
        }
    }

    /// Portfolio after the first step of a fill, or the error.
    pub open spec fn spec_begin(
        &self,
        executed_quantity: u64,
        order_quantity: OrderQuantity,
        book_order: OrderQuantity,
        is_aggressor: bool,
    ) -> Result<Seq<MarginAssetAccount>, Error> {
        let p = self.portfolio@;
        match self.spec_fill_plan(executed_quantity, order_quantity, book_order, is_aggressor) {
            Err(e) => Err(e),
            Ok(f) => {
                let released = if is_aggressor {
                    p
                } else {
                    let w = p.update(
                        f.base,
                        promise_withdrawn(p[f.base], f.base_receipt, f.base_quantity),
                    );
                    w.update(f.quote, promise_withdrawn(w[f.quote], !f.base_receipt, f.quote_value))
                };
                match lock_added(released[f.base], f.base_receipt, f.base_quantity) {
                    None => Err(Error::ArithmeticOverflow),
                    Some(base_account) => {
                        let with_base = released.update(f.base, base_account);
                        match lock_added(with_base[f.quote], !f.base_receipt, f.quote_value) {
                            None => Err(Error::ArithmeticOverflow),
                            Some(quote_account) => Ok(with_base.update(f.quote, quote_account)),
                        }
                    },
                }
            },
        }
    }

    /// Where a fill of `quantity` at `price` on the market of `order` lands in
    /// the portfolio.
    fn plan(&self, order: &Rc<Order>, side: Side, quantity: u64, price: u64) -> (r: Result<
        (usize, usize, bool, u64, u64),
        Error,
    >)
        ensures
            match self.spec_plan(**order, side, quantity, price) {
                Ok(f) => {
                    &&& r == Ok::<(usize, usize, bool, u64, u64), Error>(
                        (f.base as usize, f.quote as usize, f.base_receipt, f.base_quantity, f.quote_value),
                    )
                    &&& 0 <= f.base < self.portfolio@.len()
                    &&& 0 <= f.quote < self.portfolio@.len()
                    &&& f.base <= usize::MAX
                    &&& f.quote <= usize::MAX
                },
                Err(e) => r == Err::<(usize, usize, bool, u64, u64), Error>(e),
            },
    {
        let base = match self.get_asset_account(&order.market.base_asset.symbol) {
            Some(i) => i,
            None => {
                return Err(Error::UnknownAsset);
            },
        };
        let quote = match self.get_asset_account(&order.market.quote_asset.symbol) {
            Some(i) => i,
            None => {
                return Err(Error::UnknownAsset);
            },
        };
        proof {
            let b = asset_position(self.portfolio@, order.market.base_asset.symbol@);
            let q = asset_position(self.portfolio@, order.market.quote_asset.symbol@);
            assert(is_first_asset(self.portfolio@, order.market.base_asset.symbol@, b));
            assert(is_first_asset(self.portfolio@, order.market.quote_asset.symbol@, q));
        }
        match order.get_quantity_and_value(quantity, price) {
            Some((base_quantity, quote_value)) => Ok(
                (base, quote, side == Side::Bid, base_quantity, quote_value),
            ),
            None => Err(Error::ArithmeticOverflow),
        }
    }

    /// Accounts for placing `book_order` on the book: promises the base and
    /// quote flows that a fill at the limit price would bring.
    pub fn place_order(&mut self, book_order: &OrderQuantity) -> (r: Result<(), Error>)
        ensures
            final(self).account_id == old(self).account_id,
            match old(self).spec_place(*book_order) {
                Ok(p) => r is Ok && final(self).portfolio@ == p,
                Err(e) => r == Err::<(), Error>(e) && *final(self) == *old(self),
            },
    {
        let limit = match &book_order.order.order_data {
            OrderType::Limit(limit) => *limit,
            _ => {
                return Err(Error::InvalidOrderType);
            },
        };
        let (base, quote, base_receipt, base_quantity, quote_value) = self.plan(
            &book_order.order,
            limit.side,
            book_order.quantity,
            limit.price,
        )?;
        if !self.portfolio[base].promise_fits(base_receipt, base_quantity) {
            return Err(Error::ArithmeticOverflow);
        }
        if !self.portfolio[quote].promise_fits(!base_receipt, quote_value) {
            return Err(Error::ArithmeticOverflow);
        }
        let _ = self.portfolio[base].promise_side(base_receipt, base_quantity);
        let _ = self.portfolio[quote].promise_side(!base_receipt, quote_value);
        Ok(())
    }

    /// Accounts for cancelling `book_order`: withdraws what `place_order` promised.
    pub fn cancel_order(&mut self, book_order: &OrderQuantity) -> (r: Result<(), Error>)
        ensures
            final(self).account_id == old(self).account_id,
            match old(self).spec_cancel(*book_order) {
                Ok(p) => r is Ok && final(self).portfolio@ == p,
                Err(e) => r == Err::<(), Error>(e) && *final(self) == *old(self),
            },
    {
        let limit = match &book_order.order.order_data {
            OrderType::Limit(limit) => *limit,
            _ => {
                return Err(Error::InvalidOrderType);
            },
        };
        let (base, quote, base_receipt, base_quantity, quote_value) = self.plan(
            &book_order.order,
            limit.side,
            book_order.quantity,
            limit.price,
        )?;
        self.portfolio[base].withdraw_promise_side(base_receipt, base_quantity);
        self.portfolio[quote].withdraw_promise_side(!base_receipt, quote_value);
        Ok(())
    }

    /// First step of a fill of `executed_quantity` of `order_quantity`
    /// against `book_order`, at the book order's price: the book order's
    /// promise is withdrawn, then both flows are locked.
    pub fn execute_order_begin(
        &mut self,
        executed_quantity: &mut u64,
        order_quantity: &OrderQuantity,
        book_order: &OrderQuantity,
        is_aggressor: bool,
    ) -> (r: Result<(), Error>)
        ensures
            *final(executed_quantity) == *old(executed_quantity),
            final(self).account_id == old(self).account_id,
            match old(self).spec_begin(
                *old(executed_quantity),
                *order_quantity,
                *book_order,
                is_aggressor,
            ) {
                Ok(p) => r is Ok && final(self).portfolio@ == p,
                Err(e) => r == Err::<(), Error>(e) && *final(self) == *old(self),
            },
    {
        let limit = match &book_order.order.order_data {
            OrderType::Limit(limit) => *limit,
            _ => {
                return Err(Error::InvalidOrderType);
            },
        };
        let side = if is_aggressor {
            limit.side.opposite()
        } else {
            limit.side
        };
        let (base, quote, base_receipt, base_quantity, quote_value) = self.plan(
            &order_quantity.order,
            side,
            *executed_quantity,
            limit.price,
        )?;
        if !self.portfolio[base].lock_fits(base_receipt, base_quantity) {
            return Err(Error::ArithmeticOverflow);
        }
        if !self.portfolio[quote].lock_fits(!base_receipt, quote_value) {
            return Err(Error::ArithmeticOverflow);
        }
        if !is_aggressor {
            self.portfolio[base].withdraw_promise_side(base_receipt, base_quantity);
            self.portfolio[quote].withdraw_promise_side(!base_receipt, quote_value);
        }
        let _ = self.portfolio[base].begin_side(base_receipt, base_quantity);
        let _ = self.portfolio[quote].begin_side(!base_receipt, quote_value);
        Ok(())
    }

    /// Whether `execute_order_begin` would succeed, and its error if not;
    /// changes nothing.
    pub fn begin_check(
        &self,
        executed_quantity: u64,
        order_quantity: &OrderQuantity,
        book_order: &OrderQuantity,
        is_aggressor: bool,
    ) -> (r: Result<(), Error>)
        ensures
            match self.spec_begin(executed_quantity, *order_quantity, *book_order, is_aggressor) {
                Ok(_) => r is Ok,
                Err(e) => r == Err::<(), Error>(e),
            },
    {
        let limit = match &book_order.order.order_data {
            OrderType::Limit(limit) => *limit,
            _ => {
                return Err(Error::InvalidOrderType);
            },
        };
        let side = if is_aggressor {
            limit.side.opposite()
        } else {
            limit.side
        };
        let (base, quote, base_receipt, base_quantity, quote_value) = self.plan(
            &order_quantity.order,
            side,
            executed_quantity,
            limit.price,
        )?;
        if !self.portfolio[base].lock_fits(base_receipt, base_quantity) {
            return Err(Error::ArithmeticOverflow);
        }
        if !self.portfolio[quote].lock_fits(!base_receipt, quote_value) {
            return Err(Error::ArithmeticOverflow);
        }
        Ok(())
    }

    /// Releases the locks that the aggressor's first step of a fill took,
    /// giving back the portfolio of `original`, the account before that step.
    fn execute_order_unlock(
        &mut self,
        executed_quantity: u64,
        order_quantity: &OrderQuantity,
        book_order: &OrderQuantity,
        original: Ghost<MarginTradingAccount>,
    )
        requires
            original@.spec_begin(executed_quantity, *order_quantity, *book_order, true) == Ok::<
                Seq<MarginAssetAccount>,
                Error,
            >(old(self).portfolio@),
        ensures
            final(self).account_id == old(self).account_id,
            final(self).portfolio@ == original@.portfolio@,
    {
        proof {
            original@.lemma_begin_keeps_plan(*self, executed_quantity, *order_quantity, *book_order, true);
        }
        let limit = match &book_order.order.order_data {
            OrderType::Limit(limit) => *limit,
            _ => {
                return;
            },
        };
        let side = limit.side.opposite();
        let planned = self.plan(&order_quantity.order, side, executed_quantity, limit.price);
        let (base, quote, base_receipt, base_quantity, quote_value) = match planned {
            Ok(plan) => plan,
            Err(_) => {
                return;
            },
        };
        let ghost p = original@.portfolio@;
        let ghost with_base = p.update(base as int, lock_added(p[base as int], base_receipt, base_quantity)->0);
        self.portfolio[quote].unlock_side(!base_receipt, quote_value);
        proof {
            assert(self.portfolio@[quote as int] == with_base[quote as int]);
        }
        self.portfolio[base].unlock_side(base_receipt, base_quantity);
        proof {
            assert(self.portfolio@ =~= p);
        }
    }

    /// Second step of a fill: commits both locked flows, closing and opening
    /// lots and telling `event_handler` of them.
    pub fn execute_order_commit<H: MarginLotEventHandler>(
        &mut self,
        executed_quantity: u64,
        order_quantity: &OrderQuantity,
        book_order: &OrderQuantity,
        is_aggressor: bool,
        event_handler: &H,
    ) -> (r: Result<(), Error>)
        ensures
            final(self).account_id == old(self).account_id,
            final(self).portfolio@.len() == old(self).portfolio@.len(),
            match old(self).spec_fill_plan(
                executed_quantity,
                *order_quantity,
                *book_order,
                is_aggressor,
            ) {
                Err(e) => r == Err::<(), Error>(e) && final(self).portfolio@ == old(self).portfolio@,
                Ok(f) => {
                    let p = old(self).portfolio@;
                    let fp = final(self).portfolio@;
                    &&& (f.base != f.quote && can_commit_fill(p, f)) ==> r is Ok && fill_committed(p, fp, f, order_quantity.order)
                    &&& (f.base != f.quote && !can_commit_fill(p, f)) ==> r == Err::<(), Error>(
                        Error::ArithmeticOverflow,
                    ) && fp == p
                    &&& (f.base == f.quote && r is Ok) ==> fill_committed(p, fp, f, order_quantity.order)
                    &&& forall|i: int|
                        0 <= i < p.len() && i != f.base && i != f.quote ==> #[trigger] fp[i] == p[i]
                },
            },
    {
        let limit = match &book_order.order.order_data {
            OrderType::Limit(limit) => *limit,
            _ => {
                return Err(Error::InvalidOrderType);
            },
        };
        let side = if is_aggressor {
            limit.side.opposite()
        } else {
            limit.side
        };
        let (base, quote, base_receipt, base_quantity, quote_value) = self.plan(
            &order_quantity.order,
            side,
            executed_quantity,
            limit.price,
        )?;
        if base != quote && !(self.portfolio[base].commit_fits(base_receipt, base_quantity)
            && self.portfolio[quote].commit_fits(!base_receipt, quote_value)) {
            return Err(Error::ArithmeticOverflow);
        }
        let account_id = self.account_id;
        self.portfolio[base].commit_side(
            base_receipt,
            base_quantity,
            order_quantity.order.clone(),
            limit.price,
            event_handler,
            account_id,
        )?;
        self.portfolio[quote].commit_side(
            !base_receipt,
            quote_value,
            order_quantity.order.clone(),
            limit.price,
            event_handler,
            account_id,
        )
    }

    /// Undoing a committed fill is not supported: this does nothing.
    pub fn execute_order_rollback(&mut self, _executed_quantity: u64, _order_quantity: &OrderQuantity) -> (r:
        Result<(), Error>)
        ensures
            r is Ok,
            *final(self) == *old(self),
    {
        Ok(())
    }

    /// The portfolio after a deposit (`receipt`) or a withdrawal of the
    /// order's quantity: locked, then committed, on the base asset.
    pub open spec fn spec_transfer_plan(&self, order: Order, price: u64) -> Result<(int, bool, u64), Error> {
        let b = asset_position(self.portfolio@, order.market.base_asset.symbol@);
        if b < 0 {
            Err(Error::UnknownAsset)
        } else {
            let (receipt, quantity) = match order.order_data {
                OrderType::Deposit(q) => (true, q),
                OrderType::Withdraw(q) => (false, q),
                _ => (false, 0),
            };
            if !(order.order_data is Deposit || order.order_data is Withdraw) {
                Err(Error::InvalidOrderType)
            } else {
                match order.spec_quantity_and_value(quantity, price) {
                    None => Err(Error::ArithmeticOverflow),
                    Some(v) => Ok((b, receipt, v.0)),
                }
            }
        }
    }

    /// Deposits to or withdraws from the base asset of the order's market.
    /// Withdrawals are not checked against the position.
    pub fn transfer<H: MarginLotEventHandler>(&mut self, order: Rc<Order>, price: u64, event_handler: &H) -> (r:
        Result<(), Error>)
        ensures
            final(self).account_id == old(self).account_id,
            final(self).portfolio@.len() == old(self).portfolio@.len(),
            match old(self).spec_transfer_plan(*order, price) {
                Err(e) => r == Err::<(), Error>(e) && final(self).portfolio@ == old(self).portfolio@,
                Ok(t) => {
                    let p = old(self).portfolio@;
                    let fp = final(self).portfolio@;
                    match lock_added(p[t.0], t.1, t.2) {
                        None => r == Err::<(), Error>(Error::ArithmeticOverflow) && fp == p,
                        Some(a) => if a.can_commit(t.1, t.2) {
                            &&& r is Ok
                            &&& commit_applied(a, fp[t.0], t.1, t.2, order, price)
                            &&& forall|i: int| 0 <= i < p.len() && i != t.0 ==> #[trigger] fp[i] == p[i]
                        } else {
                            r == Err::<(), Error>(Error::ArithmeticOverflow) && fp == p
                        },
                    }
                },
            },
    {
        let base = match self.get_asset_account(&order.market.base_asset.symbol) {
            Some(i) => i,
            None => {
                return Err(Error::UnknownAsset);
            },
        };
        let (receipt, quantity) = match order.order_data {
            OrderType::Deposit(quantity) => (true, quantity),
            OrderType::Withdraw(quantity) => (false, quantity),
            _ => {
                return Err(Error::InvalidOrderType);
            },
        };
        let base_quantity = match order.get_quantity_and_value(quantity, price) {
            Some((base_quantity, _)) => base_quantity,
            None => {
                return Err(Error::ArithmeticOverflow);
            },
        };
        if !self.portfolio[base].lock_fits(receipt, base_quantity) {
            return Err(Error::ArithmeticOverflow);
        }
        let ghost locked = lock_added(self.portfolio@[base as int], receipt, base_quantity)->0;
        let fits = {
            let acc = &self.portfolio[base];
            let (side, opposite) = if receipt {
                (&acc.received, &acc.delivered)
            } else {
                (&acc.delivered, &acc.received)
            };
            let excess = if base_quantity < opposite.quantity_committed {
                0
            } else {
                base_quantity - opposite.quantity_committed
            };
            side.quantity_committed.checked_add(excess).is_some()
        };
        if !fits {
            return Err(Error::ArithmeticOverflow);
        }
        let account_id = self.account_id;
        let _ = self.portfolio[base].begin_side(receipt, base_quantity);
        assert(self.portfolio@[base as int] == locked);
        self.portfolio[base].commit_side(receipt, base_quantity, order, price, event_handler, account_id)
    }

    /// The first step of a fill keeps every sub-account's asset in place,
    /// so the second step finds them where the first did.
    pub proof fn lemma_begin_keeps_plan(
        &self,
        begun: MarginTradingAccount,
        executed_quantity: u64,
        order_quantity: OrderQuantity,
        book_order: OrderQuantity,
        is_aggressor: bool,
    )
        requires
            self.spec_begin(executed_quantity, order_quantity, book_order, is_aggressor) == Ok::<
                Seq<MarginAssetAccount>,
                Error,
            >(begun.portfolio@),
        ensures
            begun.spec_fill_plan(executed_quantity, order_quantity, book_order, is_aggressor)
                == self.spec_fill_plan(executed_quantity, order_quantity, book_order, is_aggressor),
    {
        let p = self.portfolio@;
        let q = begun.portfolio@;
        let f = self.spec_fill_plan(executed_quantity, order_quantity, book_order, is_aggressor)->Ok_0;
        assert(q.len() == p.len());
        assert forall|i: int| 0 <= i < p.len() implies #[trigger] p[i].asset == q[i].asset by {
            if i == f.base || i == f.quote {
            }
        }
        lemma_same_assets_same_position(p, q, order_quantity.order.market.base_asset.symbol@);
        lemma_same_assets_same_position(p, q, order_quantity.order.market.quote_asset.symbol@);
    }

    /// An account with no asset sub-accounts.
    pub fn new(account_id: usize) -> (r: Self)
        ensures
            r.account_id == account_id,
            r.portfolio@.len() == 0,
    {
        Self { account_id, portfolio: Vec::new() }
    }

    /// Adds a sub-account for `asset` unless one exists; returns the account
    /// so that calls chain.
    pub fn add_asset_account(&mut self, asset: &Rc<Asset>) -> (r: &mut Self)
        ensures
            asset_added(*old(self), *r, *asset),
            *final(self) == *final(r),
    {
        if self.get_asset_account(&asset.symbol).is_none() {
            let ghost before = self.portfolio@;
            self.portfolio.push(MarginAssetAccount::new(asset));
            proof {
                assert forall|j: int| 0 <= j < before.len() implies (#[trigger] self.portfolio@[j]).asset.symbol@
                    != asset.symbol@ by {
                    assert(self.portfolio@[j] == before[j]);
                    if before[j].asset.symbol@ == asset.symbol@ {
                        lemma_match_has_first(before, asset.symbol@, j);
                    }
                }
                assert(is_first_asset(self.portfolio@, asset.symbol@, self.portfolio@.len() - 1));
                lemma_first_asset_unique(self.portfolio@, asset.symbol@, self.portfolio@.len() - 1);
                assert(self.portfolio@.drop_last() =~= before);
                assert(asset_position(before, asset.symbol@) < 0) by {
                    if asset_position(before, asset.symbol@) >= 0 {
                        let k = asset_position(before, asset.symbol@);
                        assert(is_first_asset(before, asset.symbol@, k));
                    }
                }
            }
        }
        self
    }

    /// Position of the sub-account for the asset named `symbol`.
    fn get_asset_account(&self, symbol: &String) -> (r: Option<usize>)
        ensures
            asset_position(self.portfolio@, symbol@) >= 0 ==> r == Some(
                asset_position(self.portfolio@, symbol@) as usize,
            ) && asset_position(self.portfolio@, symbol@) < self.portfolio@.len()
                && asset_position(self.portfolio@, symbol@) <= usize::MAX,
            asset_position(self.portfolio@, symbol@) < 0 ==> r is None,
    {
        let mut i: usize = 0;
        while i < self.portfolio.len()
            invariant
                i <= self.portfolio@.len(),
                forall|j: int| 0 <= j < i ==> (#[trigger] self.portfolio@[j]).asset.symbol@ != symbol@,
            decreases self.portfolio@.len() - i,
        {
            if self.portfolio[i].asset.symbol == *symbol {
                proof {
                    lemma_first_asset_unique(self.portfolio@, symbol@, i as int);
                }
                return Some(i);
            }
            i = i + 1;
        }
        proof {
            if asset_position(self.portfolio@, symbol@) >= 0 {
                let k = asset_position(self.portfolio@, symbol@);
                assert(is_first_asset(self.portfolio@, symbol@, k));
            }
        }
        None
    }
}

/// `new` is `old` after `add_asset_account(asset)`: unchanged when a
/// sub-account for the asset's symbol exists, else with an empty one
/// appended.
pub open spec fn asset_added(old: MarginTradingAccount, new: MarginTradingAccount, asset: Rc<Asset>) -> bool {
    &&& new.account_id == old.account_id
    &&& if asset_position(old.portfolio@, asset.symbol@) >= 0 {
        new.portfolio@ == old.portfolio@
    } else {
        &&& new.portfolio@.drop_last() == old.portfolio@
        &&& new.portfolio@.len() == old.portfolio@.len() + 1
        &&& new.portfolio@.last().asset == asset
        &&& new.portfolio@.last().received.quantity_open == 0
        &&& new.portfolio@.last().received.quantity_locked == 0
        &&& new.portfolio@.last().received.quantity_committed == 0
        &&& new.portfolio@.last().delivered.quantity_open == 0
        &&& new.portfolio@.last().delivered.quantity_locked == 0
        &&& new.portfolio@.last().delivered.quantity_committed == 0
        &&& new.portfolio@.last().received.open_lots@.len() == 0
        &&& new.portfolio@.last().received.closed_lots@.len() == 0
        &&& new.portfolio@.last().delivered.open_lots@.len() == 0
        &&& new.portfolio@.last().delivered.closed_lots@.len() == 0
    }
}

/// Adding the same asset twice leaves the account as the first addition
/// left it: the second call neither adds a sub-account nor resets one.
pub proof fn lemma_add_asset_account_idempotent(
    initial: MarginTradingAccount,
    once: MarginTradingAccount,
    twice: MarginTradingAccount,
    asset: Rc<Asset>,
)
    requires
        asset_added(initial, once, asset),
        asset_added(once, twice, asset),
    ensures
        twice.portfolio@ == once.portfolio@,
        twice.account_id == once.account_id,
{
    let after_first = once.portfolio@;
    if asset_position(initial.portfolio@, asset.symbol@) >= 0 {
        let k = asset_position(initial.portfolio@, asset.symbol@);
        assert(is_first_asset(initial.portfolio@, asset.symbol@, k));
        assert(is_first_asset(after_first, asset.symbol@, k));
        lemma_first_asset_unique(after_first, asset.symbol@, k);
    } else {
        let n = after_first.len() - 1;
        assert forall|j: int| 0 <= j < n implies (#[trigger] after_first[j]).asset.symbol@ != asset.symbol@ by {
            assert(after_first[j] == initial.portfolio@[j]);
            if initial.portfolio@[j].asset.symbol@ == asset.symbol@ {
                lemma_match_has_first(initial.portfolio@, asset.symbol@, j);
            }
        }
        assert(is_first_asset(after_first, asset.symbol@, n));
        lemma_first_asset_unique(after_first, asset.symbol@, n);
    }
}

/// What `add_account(participant_id)` hands back: the existing account of
/// the participant, or a new empty one.
pub open spec fn account_handle(
    accounts: Map<usize, MarginTradingAccount>,
    participant_id: usize,
    handle: MarginTradingAccount,
) -> bool {
    if accounts.contains_key(participant_id) {
        handle == accounts[participant_id]
    } else {
        handle.account_id == participant_id && handle.portfolio@.len() == 0
    }
}

/// Adding an account twice hands back, the second time, the account exactly
/// as the first handle left it: nothing is reset.
pub proof fn lemma_add_account_idempotent(
    accounts: Map<usize, MarginTradingAccount>,
    participant_id: usize,
    first: MarginTradingAccount,
    first_final: MarginTradingAccount,
    second: MarginTradingAccount,
)
    requires
        account_handle(accounts, participant_id, first),
        account_handle(accounts.insert(participant_id, first_final), participant_id, second),
    ensures
        second == first_final,
{
}

/// The outcome `r` of a fill between two orders of one participant, whose
/// account went from `before` to `after`: both legs lock in the one account,
/// the aggressor's first; a fill that either leg cannot lock changes
/// nothing.
pub open spec fn self_fill_outcome(
    before: MarginTradingAccount,
    after: MarginTradingAccount,
    executed_quantity: u64,
    aggressor_order: OrderQuantity,
    book_order: OrderQuantity,
    r: Result<(), Error>,
) -> bool {
    &&& after.account_id == before.account_id
    &&& match before.spec_begin(executed_quantity, aggressor_order, book_order, true) {
        Err(e) => r == Err::<(), Error>(e) && after.portfolio@ == before.portfolio@,
        Ok(locked) => exists|mid: MarginTradingAccount|
            {
                &&& #[trigger] mid.portfolio@ == locked
                &&& match mid.spec_begin(executed_quantity, book_order, book_order, false) {
                    Err(e) => r == Err::<(), Error>(e) && after.portfolio@ == before.portfolio@,
                    Ok(_) => true,
                }
            },
    }
}

/// The ledger outcome `r` of a fill of `executed_quantity` between the
/// aggressor's account `aggressor_before` and the book order's account
/// `book_before` (two distinct participants), which became `aggressor_after`
/// and `book_after`. The aggressor locks first, then the book order's
/// participant (withdrawing its promise), then the aggressor commits, then
/// the book order's participant. A fill that one side cannot lock changes
/// neither account.
pub open spec fn fill_outcome(
    aggressor_before: MarginTradingAccount,
    book_before: MarginTradingAccount,
    aggressor_after: MarginTradingAccount,
    book_after: MarginTradingAccount,
    executed_quantity: u64,
    aggressor_order: OrderQuantity,
    book_order: OrderQuantity,
    r: Result<(), Error>,
) -> bool {
    &&& aggressor_after.account_id == aggressor_before.account_id
    &&& book_after.account_id == book_before.account_id
    &&& match aggressor_before.spec_begin(executed_quantity, aggressor_order, book_order, true) {
        Err(e) => r == Err::<(), Error>(e) && aggressor_after.portfolio@ == aggressor_before.portfolio@ && book_after.portfolio@
            == book_before.portfolio@,
        Ok(pa) => match book_before.spec_begin(executed_quantity, book_order, book_order, false) {
            Err(e) => r == Err::<(), Error>(e) && aggressor_after.portfolio@ == aggressor_before.portfolio@ && book_after.portfolio@
                == book_before.portfolio@,
            Ok(pb) => {
                let fa = aggressor_before.spec_fill_plan(executed_quantity, aggressor_order, book_order, true)->Ok_0;
                let fb = book_before.spec_fill_plan(executed_quantity, book_order, book_order, false)->Ok_0;
                (fa.base != fa.quote && fb.base != fb.quote) ==> if !can_commit_fill(pa, fa) {
                    r == Err::<(), Error>(Error::ArithmeticOverflow) && aggressor_after.portfolio@ == pa
                        && book_after.portfolio@ == pb
                } else if !can_commit_fill(pb, fb) {
                    r == Err::<(), Error>(Error::ArithmeticOverflow) && fill_committed(
                        pa,
                        aggressor_after.portfolio@,
                        fa,
                        aggressor_order.order,
                    ) && book_after.portfolio@ == pb
                } else {
                    r is Ok && fill_committed(
                        pa,
                        aggressor_after.portfolio@,
                        fa,
                        aggressor_order.order,
                    ) && fill_committed(pb, book_after.portfolio@, fb, book_order.order)
                }
            },
        },
    }
}

/// Margin accounts of all participants; the execution policy of the ledger.
pub struct MarginManager<H> {
    margins: HashMap<usize, MarginTradingAccount>,
    event_handler: H,
}

impl<H: MarginLotEventHandler> MarginManager<H> {
    /// The accounts, by participant id.
    pub closed spec fn accounts(&self) -> Map<usize, MarginTradingAccount> {
        self.margins@
    }

    /// A ledger with no accounts that reports lot events to `event_handler`.
    pub fn new(event_handler: H) -> (r: Self)
        ensures
            r.accounts() == Map::<usize, MarginTradingAccount>::empty(),
            r.spec_event_handler() == event_handler,
    {
        Self { margins: HashMap::new(), event_handler }
    }

    /// The account of `participant_id`, created empty if there is none.
    pub fn add_account(&mut self, participant_id: usize) -> (r: &mut MarginTradingAccount)
        ensures
            account_handle(old(self).accounts(), participant_id, *r),
            final(self).accounts() == old(self).accounts().insert(participant_id, *final(r)),
    {
        broadcast use vstd::std_specs::hash::group_hash_axioms;

        self.margins.entry(participant_id).or_insert(MarginTradingAccount::new(participant_id))
    }

    /// All accounts, by participant id.
    pub fn get_participants(&self) -> (r: &HashMap<usize, MarginTradingAccount>)
        ensures
            r@ == self.accounts(),
    {
        &self.margins
    }

    /// The account of `participant_id`, if any.
    pub fn get_account(&self, participant_id: usize) -> (r: Option<&MarginTradingAccount>)
        ensures
            self.accounts().contains_key(participant_id) ==> r == Some(
                &self.accounts()[participant_id],
            ),
            !self.accounts().contains_key(participant_id) ==> r is None,
    {
        broadcast use vstd::std_specs::hash::group_hash_axioms;

        self.margins.get(&participant_id)
    }

    /// The handler that receives lot events.
    pub closed spec fn spec_event_handler(&self) -> H {
        self.event_handler
    }

    /// The handler that receives lot events.
    pub fn event_handler(&self) -> (r: &H)
        ensures
            *r == self.spec_event_handler(),
    {
        &self.event_handler
    }
}

impl<H: MarginLotEventHandler> ExecutionPolicy for MarginManager<H> {
    /// Refuses a zero quantity or an unknown participant, then answers as
    /// the participant's account does (`MarginTradingAccount::place_order`).
    open spec fn place_verdict(&self, order_quantity: OrderQuantity) -> Result<(), Error> {
        let id = order_quantity.order.participant_id;
        if order_quantity.quantity == 0 {
            Err(Error::NotEnoughQuantity)
        } else if !self.accounts().contains_key(id) {
            Err(Error::UnknownParticipant)
        } else {
            match self.accounts()[id].spec_place(order_quantity) {
                Ok(_) => Ok(()),
                Err(e) => Err(e),
            }
        }
    }

    /// As `place_verdict`, for `MarginTradingAccount::cancel_order`.
    open spec fn cancel_verdict(&self, order_quantity: OrderQuantity) -> Result<(), Error> {
        let id = order_quantity.order.participant_id;
        if order_quantity.quantity == 0 {
            Err(Error::NotEnoughQuantity)
        } else if !self.accounts().contains_key(id) {
            Err(Error::UnknownParticipant)
        } else {
            match self.accounts()[id].spec_cancel(order_quantity) {
                Ok(_) => Ok(()),
                Err(e) => Err(e),
            }
        }
    }

    /// The ledger refuses what the accounts cannot carry.
    open spec fn accepts_all(&self) -> bool {
        false
    }

    /// Promises the flows of a new resting order in its participant's account.
    fn place_order(&mut self, order_quantity: &OrderQuantity) -> (r: Result<(), Error>)
        ensures
            ({
                let id = order_quantity.order.participant_id;
                let before = old(self).accounts();
                let after = final(self).accounts();
                &&& order_quantity.quantity == 0 ==> r == Err::<(), Error>(Error::NotEnoughQuantity)
                    && after == before
                &&& (order_quantity.quantity > 0 && !before.contains_key(id)) ==> r == Err::<(), Error>(
                    Error::UnknownParticipant,
                ) && after == before
                &&& (order_quantity.quantity > 0 && before.contains_key(id)) ==> {
                    &&& after == before.insert(id, after[id])
                    &&& after[id].account_id == before[id].account_id
                    &&& match before[id].spec_place(*order_quantity) {
                        Ok(p) => r is Ok && after[id].portfolio@ == p,
                        Err(e) => r == Err::<(), Error>(e) && after == before,
                    }
                }
            }),
    {
        broadcast use vstd::std_specs::hash::group_hash_axioms;

        if order_quantity.quantity == 0 {
            return Err(Error::NotEnoughQuantity);
        }
        let participant_id = order_quantity.order.participant_id;
        match self.margins.remove(&participant_id) {
            Some(mut account) => {
                let ghost before_account = account;
                let r = account.place_order(order_quantity);
                self.margins.insert(participant_id, account);
                proof {
                    assert(before_account == old(self).accounts()[participant_id]);
                    match r {
                        Ok(u) => {
                            assert(u == ());
                        },
                        Err(_) => {},
                    }
                    if r is Err {
                        assert(self.margins@ =~= old(self).margins@);
                    }
                }
                r
            },
            None => Err(Error::UnknownParticipant),
        }
    }

    /// Withdraws the promised flows of a cancelled order.
    fn cancel_order(&mut self, order_quantity: &OrderQuantity) -> (r: Result<(), Error>)
        ensures
            ({
                let id = order_quantity.order.participant_id;
                let before = old(self).accounts();
                let after = final(self).accounts();
                &&& order_quantity.quantity == 0 ==> r == Err::<(), Error>(Error::NotEnoughQuantity)
                    && after == before
                &&& (order_quantity.quantity > 0 && !before.contains_key(id)) ==> r == Err::<(), Error>(
                    Error::UnknownParticipant,
                ) && after == before
                &&& (order_quantity.quantity > 0 && before.contains_key(id)) ==> {
                    &&& after == before.insert(id, after[id])
                    &&& after[id].account_id == before[id].account_id
                    &&& match before[id].spec_cancel(*order_quantity) {
                        Ok(p) => r is Ok && after[id].portfolio@ == p,
                        Err(e) => r == Err::<(), Error>(e) && after == before,
                    }
                }
            }),
    {
        broadcast use vstd::std_specs::hash::group_hash_axioms;

        if order_quantity.quantity == 0 {
            return Err(Error::NotEnoughQuantity);
        }
        let participant_id = order_quantity.order.participant_id;
        match self.margins.remove(&participant_id) {
            Some(mut account) => {
                let ghost before_account = account;
                let r = account.cancel_order(order_quantity);
                self.margins.insert(participant_id, account);
                proof {
                    assert(before_account == old(self).accounts()[participant_id]);
                    match r {
                        Ok(u) => {
                            assert(u == ());
                        },
                        Err(_) => {},
                    }
                    if r is Err {
                        assert(self.margins@ =~= old(self).margins@);
                    }
                }
                r
            },
            None => Err(Error::UnknownParticipant),
        }
    }

    /// Accounts for a fill in two phases: both accounts lock their flows,
    /// then both commit them, the aggressor first.
    fn execute_orders(
        &mut self,
        executed_quantity: &mut u64,
        aggressor_order: &mut OrderQuantity,
        book_order: &mut OrderQuantity,
    ) -> (r: Result<(), Error>)
        ensures
            *final(executed_quantity) == *old(executed_quantity),
            ({
                let e = *old(executed_quantity);
                let aggressor_id = old(aggressor_order).order.participant_id;
                let book_id = old(book_order).order.participant_id;
                let before = old(self).accounts();
                let after = final(self).accounts();
                &&& after.dom() == before.dom()
                &&& forall|id: usize|
                    #[trigger] before.contains_key(id) && id != aggressor_id && id != book_id
                        ==> after[id] == before[id]
                &&& e == 0 ==> r == Err::<(), Error>(Error::NotEnoughQuantity) && after == before
                &&& (e > 0 && !(before.contains_key(aggressor_id) && before.contains_key(book_id)))
                    ==> r == Err::<(), Error>(Error::UnknownParticipant) && after == before
                &&& (e > 0 && before.contains_key(aggressor_id) && aggressor_id == book_id)
                    ==> self_fill_outcome(
                    before[aggressor_id],
                    after[aggressor_id],
                    e,
                    *old(aggressor_order),
                    *old(book_order),
                    r,
                )
                &&& (e > 0 && before.contains_key(aggressor_id) && before.contains_key(book_id)
                    && aggressor_id != book_id) ==> fill_outcome(
                    before[aggressor_id],
                    before[book_id],
                    after[aggressor_id],
                    after[book_id],
                    e,
                    *old(aggressor_order),
                    *old(book_order),
                    r,
                )
            }),
    {
        broadcast use vstd::std_specs::hash::group_hash_axioms;

        if *executed_quantity == 0 {
            return Err(Error::NotEnoughQuantity);
        }
        let aggressor_id = aggressor_order.order.participant_id;
        let book_id = book_order.order.participant_id;
        if !self.margins.contains_key(&aggressor_id) || !self.margins.contains_key(&book_id) {
            return Err(Error::UnknownParticipant);
        }
        let ghost before = self.margins@;
        // a fill that the book order's participant cannot lock changes nothing
        if aggressor_id != book_id {
            let aggressor = self.margins.get(&aggressor_id).unwrap();
            aggressor.begin_check(*executed_quantity, aggressor_order, book_order, true)?;
            let book = self.margins.get(&book_id).unwrap();
            book.begin_check(*executed_quantity, book_order, book_order, false)?;
        }
        let mut aggressor = self.margins.remove(&aggressor_id).unwrap();
        let ghost aggressor_before = aggressor;
        let begun = aggressor.execute_order_begin(executed_quantity, aggressor_order, book_order, true);
        let ghost aggressor_begun = aggressor;
        if begun.is_ok() && aggressor_id == book_id {
            // the book order's lock comes second in the same account
            let check = aggressor.begin_check(*executed_quantity, book_order, book_order, false);
            if check.is_err() {
                aggressor.execute_order_unlock(
                    *executed_quantity,
                    aggressor_order,
                    book_order,
                    Ghost(aggressor_before),
                );
                self.margins.insert(aggressor_id, aggressor);
                return check;
            }
        }
        self.margins.insert(aggressor_id, aggressor);
        proof {
            if begun is Err {
                assert(self.margins@ =~= before);
            }
        }
        begun?;
        let mut book = self.margins.remove(&book_id).unwrap();
        let begun = book.execute_order_begin(executed_quantity, book_order, book_order, false);
        let ghost book_begun = book;
        self.margins.insert(book_id, book);
        begun?;
        let mut aggressor = self.margins.remove(&aggressor_id).unwrap();
        proof {
            if aggressor_id != book_id {
                before[aggressor_id].lemma_begin_keeps_plan(
                    aggressor_begun,
                    *executed_quantity,
                    *aggressor_order,
                    *book_order,
                    true,
                );
                before[book_id].lemma_begin_keeps_plan(
                    book_begun,
                    *executed_quantity,
                    *book_order,
                    *book_order,
                    false,
                );
            }
        }
        let committed = aggressor.execute_order_commit(
            *executed_quantity,
            aggressor_order,
            book_order,
            true,
            &self.event_handler,
        );
        self.margins.insert(aggressor_id, aggressor);
        committed?;
        let mut book = self.margins.remove(&book_id).unwrap();
        let committed = book.execute_order_commit(
            *executed_quantity,
            book_order,
            book_order,
            false,
            &self.event_handler,
        );
        self.margins.insert(book_id, book);
        if committed.is_err() {
            let mut aggressor = self.margins.remove(&aggressor_id).unwrap();
            let rolled_back = aggressor.execute_order_rollback(*executed_quantity, aggressor_order);
            self.margins.insert(aggressor_id, aggressor);
            rolled_back?;
            return committed;
        }
        aggressor_order.quantity = aggressor_order.quantity - *executed_quantity;
        book_order.quantity = book_order.quantity - *executed_quantity;
        Ok(())
    }
}

/// Receives lot lifecycle events of the ledger.
pub trait MarginLotEventHandler {
    /// A lot was opened by a fill that exceeded the opposite side's lots.
    fn handle_lot_opened(
        &self,
        asset: Rc<Asset>,
        side: Side,
        lot: &MarginLot,
        order: Rc<Order>,
        price: u64,
        account_id: usize,
    );

    /// A lot was partly closed and stays open.
    fn handle_lot_updated(
        &self,
        asset: Rc<Asset>,
        side: Side,
        lot: &MarginLot,
        order: Rc<Order>,
        price: u64,
        account_id: usize,
    );

    /// A lot was fully closed.
    fn handle_lot_closed(
        &self,
        asset: Rc<Asset>,
        side: Side,
        lot: &MarginLot,
        order: Rc<Order>,
        price: u64,
        account_id: usize,
    );
}

/// A lot event handler that ignores every event.
pub struct MarginLotsNull;

impl MarginLotEventHandler for MarginLotsNull {
    fn handle_lot_opened(
        &self,
        _asset: Rc<Asset>,
        _side: Side,
        _lot: &MarginLot,
        _order: Rc<Order>,
        _price: u64,
        _account_id: usize,
    ) {
    }

    fn handle_lot_updated(
        &self,
        _asset: Rc<Asset>,
        _side: Side,
        _lot: &MarginLot,
        _order: Rc<Order>,
        _price: u64,
        _account_id: usize,
    ) {
    }

    fn handle_lot_closed(
        &self,
        _asset: Rc<Asset>,
        _side: Side,
        _lot: &MarginLot,
        _order: Rc<Order>,
        _price: u64,
        _account_id: usize,
    ) {
    }
}

} // verus!

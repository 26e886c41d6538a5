use vstd::prelude::*;

use crate::error::Error;
use crate::order_book::OrderQuantity;

verus! {

/// Decides whether the book may rest, cancel or fill orders, and accounts
/// for each of those steps. The book consults it at every mutation point.
pub trait ExecutionPolicy {
    /// What `place_order` answers for `order_quantity` in this state.
    spec fn place_verdict(&self, order_quantity: OrderQuantity) -> Result<(), Error>;

    /// What `cancel_order` answers for `order_quantity` in this state.
    spec fn cancel_verdict(&self, order_quantity: OrderQuantity) -> Result<(), Error>;

    /// The policy accepts every placement, cancel and fill of a positive
    /// quantity, and still does after any call.
    spec fn accepts_all(&self) -> bool;

    /// An order is about to rest on the book; an error keeps it off. Only an
    /// order with a positive quantity may rest.
    fn place_order(&mut self, order_quantity: &OrderQuantity) -> (r: Result<(), Error>)
        ensures
            r == old(self).place_verdict(*order_quantity),
            r is Ok ==> order_quantity.quantity > 0,
            old(self).accepts_all() ==> final(self).accepts_all(),
            old(self).accepts_all() && order_quantity.quantity > 0 ==> r is Ok,
    ;

    /// A resting order is about to leave the book; an error keeps it there.
    fn cancel_order(&mut self, order_quantity: &OrderQuantity) -> (r: Result<(), Error>)
        ensures
            r == old(self).cancel_verdict(*order_quantity),
            old(self).accepts_all() ==> final(self).accepts_all(),
            old(self).accepts_all() && order_quantity.quantity > 0 ==> r is Ok,
    ;

    /// A fill of `executed_quantity` between the aggressor and a resting
    /// order. On success both remaining quantities drop by the executed
    /// quantity, which must be positive; on error neither order changes.
    fn execute_orders(
        &mut self,
        executed_quantity: &mut u64,
        aggressor_order: &mut OrderQuantity,
        book_order: &mut OrderQuantity,
    ) -> (r: Result<(), Error>)
        requires
            *old(executed_quantity) <= old(aggressor_order).quantity,
            *old(executed_quantity) <= old(book_order).quantity,
        ensures
            *final(executed_quantity) == *old(executed_quantity),
            final(aggressor_order).order == old(aggressor_order).order,
            final(book_order).order == old(book_order).order,
            r is Ok ==> {
                &&& 0 < *old(executed_quantity)
                &&& final(aggressor_order).quantity == old(aggressor_order).quantity
                    - *old(executed_quantity)
                &&& final(book_order).quantity == old(book_order).quantity
                    - *old(executed_quantity)
            },
            r is Err ==> *final(aggressor_order) == *old(aggressor_order) && *final(book_order)
                == *old(book_order),
            old(self).accepts_all() ==> final(self).accepts_all(),
            old(self).accepts_all() && *old(executed_quantity) > 0 ==> r is Ok,
    ;
}

/// A policy that accepts every order with a positive quantity.
pub struct ExecuteAllways;

/// Ok for a positive quantity, else `NotEnoughQuantity`.
pub open spec fn positive_quantity(quantity: u64) -> Result<(), Error> {
    if quantity > 0 {
        Ok(())
    } else {
        Err(Error::NotEnoughQuantity)
    }
}

impl ExecutionPolicy for ExecuteAllways {
    open spec fn place_verdict(&self, order_quantity: OrderQuantity) -> Result<(), Error> {
        positive_quantity(order_quantity.quantity)
    }

    open spec fn cancel_verdict(&self, order_quantity: OrderQuantity) -> Result<(), Error> {
        positive_quantity(order_quantity.quantity)
    }

    open spec fn accepts_all(&self) -> bool {
        true
    }

    fn place_order(&mut self, book_order: &OrderQuantity) -> (r: Result<(), Error>) {
        if book_order.quantity > 0 {
            Ok(())
        } else {
            Err(Error::NotEnoughQuantity)
        }
    }

    fn cancel_order(&mut self, book_order: &OrderQuantity) -> (r: Result<(), Error>) {
        if book_order.quantity > 0 {
            Ok(())
        } else {
            Err(Error::NotEnoughQuantity)
        }
    }

    fn execute_orders(
        &mut self,
        executed_quantity: &mut u64,
        aggressor_order: &mut OrderQuantity,
        book_order: &mut OrderQuantity,
    ) -> (r: Result<(), Error>)
        ensures
            r == positive_quantity(*old(executed_quantity)),
    {
        if *executed_quantity > 0 {
            aggressor_order.quantity = aggressor_order.quantity - *executed_quantity;
            book_order.quantity = book_order.quantity - *executed_quantity;
            Ok(())
        } else {
            Err(Error::NotEnoughQuantity)
        }
    }
}

} // verus!

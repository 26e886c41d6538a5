use vstd::prelude::*;

use crate::order_book::OrderQuantity;

verus! {

/// Receives the book's market-data events; fire and forget.
pub trait MarketDataPolicy {
    /// An order came to rest on the book.
    fn handle_order_placed(&self, order_quantity: &OrderQuantity);

    /// A resting order was cancelled.
    fn handle_order_cancelled(&self, order_quantity: &OrderQuantity);

    /// The aggressor and a resting order traded `executed_quantity`.
    fn handle_order_executed(
        &self,
        executed_quantity: u64,
        aggressor_order: &OrderQuantity,
        book_order: &OrderQuantity,
    );
}

/// A market-data policy that ignores every event.
pub struct MarketDataNull;

impl MarketDataPolicy for MarketDataNull {
    fn handle_order_placed(&self, _order_quantity: &OrderQuantity) {
    }

    fn handle_order_cancelled(&self, _order_quantity: &OrderQuantity) {
    }

    fn handle_order_executed(
        &self,
        _executed_quantity: u64,
        _aggressor_order: &OrderQuantity,
        _book_order: &OrderQuantity,
    ) {
    }
}

} // verus!

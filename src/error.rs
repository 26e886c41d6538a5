use vstd::prelude::*;

verus! {

/// Every way an operation of the engine or the ledger can be refused.
#[derive(Clone, Copy, Debug, PartialEq, Eq, Structural)]
pub enum Error {
    /// An order or an execution carries a zero quantity.
    NotEnoughQuantity,
    /// The order's kind is not accepted by the operation (e.g. a market order where a limit is required).
    InvalidOrderType,
    /// No margin account exists for the participant.
    UnknownParticipant,
    /// The participant's account holds no sub-account for an asset of the market.
    UnknownAsset,
    /// No order book is registered for the market's symbol.
    UnknownOrderBook,
    /// A cancel names an order that is not resting.
    UnknownOrder,
    /// An order reuses a live (participant, order id) pair.
    DuplicateOrder,
    /// A quantity, value or counter does not fit in 64 bits.
    ArithmeticOverflow,
    /// Reserved: the ledger does not enforce margin limits.
    MarginInsufficient,
}

impl Error {
    /// A short human-readable description of the error.
    pub fn message(&self) -> (r: &'static str) {
        match self {
            Error::NotEnoughQuantity => "Not enough quantity",
            Error::InvalidOrderType => "Invalid order type",
            Error::UnknownParticipant => "Margin account not found for participant",
            Error::UnknownAsset => "Asset account not found",
            Error::UnknownOrderBook => "Order book not found for market",
            Error::UnknownOrder => "Order not found",
            Error::DuplicateOrder => "Duplicate order",
            Error::ArithmeticOverflow => "Mathematical overflow",
            Error::MarginInsufficient => "Margin insufficient",
        }
    }
}

} // verus!

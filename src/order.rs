use std::rc::Rc;
use vstd::arithmetic::div_mod::{
    lemma_div_pos_is_pos, lemma_fundamental_div_mod, lemma_fundamental_div_mod_converse_div,
    lemma_mod_pos_bound,
};
use vstd::prelude::*;
use vstd::string::StringExecFns;

verus! {

/// The side of an order: a bid buys the base asset, an ask sells it.
#[derive(Clone, Copy, Debug, PartialEq, Eq, Structural)]
pub enum Side {
    Bid,
    Ask,
}

impl Side {
    pub open spec fn spec_opposite(self) -> Side {
        match self {
            Side::Bid => Side::Ask,
            Side::Ask => Side::Bid,
        }
    }

    /// The other side of the book.
    pub fn opposite(&self) -> (r: Side)
        ensures
            r == self.spec_opposite(),
            r.spec_opposite() == *self,
    {
        match self {
            Side::Bid => Side::Ask,
            Side::Ask => Side::Bid,
        }
    }
}

/// A tradeable asset and its canonical precision.
#[derive(Debug)]
pub struct Asset {
    pub symbol: String,
    pub decimals: u8,
}

/// A market trading a base asset against a quote asset.
///
/// `base_decimals` and `quote_decimals` are the precision in which this market
/// expresses quantities and prices; they may differ from the assets' own.
#[derive(Debug)]
pub struct Market {
    pub symbol: String,
    pub base_asset: Rc<Asset>,
    pub quote_asset: Rc<Asset>,
    pub tick: u64,
    pub multiplier: u16,
    pub base_decimals: u8,
    pub quote_decimals: u8,
}

/// A limit order: buy or sell `quantity` at `price` or better.
#[derive(Clone, Copy, Debug, PartialEq, Eq, Structural)]
pub struct LimitOrder {
    pub side: Side,
    pub price: u64,
    pub quantity: u64,
}

/// A market order: buy or sell `quantity` at any price.
#[derive(Clone, Copy, Debug, PartialEq, Eq, Structural)]
pub struct MarketOrder {
    pub side: Side,
    pub quantity: u64,
}

/// What an order asks for.
#[derive(Clone, Copy, Debug, PartialEq, Eq, Structural)]
pub enum OrderType {
    /// Credit the base asset of the market to the participant's ledger.
    Deposit(u64),
    /// Debit the base asset of the market from the participant's ledger.
    Withdraw(u64),
    /// Match at the limit or better; discard what is left.
    ImmediateOrCancel(LimitOrder),
    /// Match at the limit or better; rest what is left on the book.
    Limit(LimitOrder),
    /// Match at any price; discard what is left.
    Market(MarketOrder),
    /// Withdraw the resting order with the same participant and order id.
    Cancel,
}

/// An order of one participant on one market; `(participant_id, order_id)`
/// identifies it among the live orders.
#[derive(Debug)]
pub struct Order {
    pub market: Rc<Market>,
    pub participant_id: usize,
    pub order_id: usize,
    pub order_data: OrderType,
}

impl Order {
    /// The base quantity rescaled to the base asset's precision, and its value
    /// at `price` rescaled to the quote asset's precision.
    pub open spec fn spec_quantity_and_value(&self, quantity: u64, price: u64) -> Option<(u64, u64)> {
        let m = self.market;
        let value = calculated_value(quantity, price, m.base_decimals, m.quote_decimals);
        let base = decimals_changed(quantity, m.base_decimals, m.base_asset.decimals);
        if value is Some && base is Some {
            let quote = decimals_changed(value->0, m.quote_decimals, m.quote_asset.decimals);
            if quote is Some {
                Some((base->0, quote->0))
            } else {
                None
            }
        } else {
            None
        }
    }

    /// `quantity` of the base asset and its value at `price`, each in its
    /// asset's own precision; `None` on overflow.
    pub fn get_quantity_and_value(&self, quantity: u64, price: u64) -> (r: Option<(u64, u64)>)
        ensures
            r == self.spec_quantity_and_value(quantity, price),
    {
        let order_value = calculate_value(
            quantity,
            price,
            self.market.base_decimals,
            self.market.quote_decimals,
        )?;
        let order_quantity_changed = change_decimals(
            quantity,
            self.market.base_decimals,
            self.market.base_asset.decimals,
        )?;
        let order_value_changed = change_decimals(
            order_value,
            self.market.quote_decimals,
            self.market.quote_asset.decimals,
        )?;
        Some((order_quantity_changed, order_value_changed))
    }
}

/// What `calculate_value` returns.
pub open spec fn calculated_value(quantity: u64, price: u64, base_decimals: u8, quote_decimals: u8) -> Option<u64> {
    if value_fits(quantity, price, base_decimals, quote_decimals) {
        Some(value_of(quantity, price, base_decimals) as u64)
    } else {
        None
    }
}

/// `10^n` as a mathematical integer.
pub open spec fn pow10(n: nat) -> nat
    decreases n,
{
    if n == 0 {
        1
    } else {
        10 * pow10((n - 1) as nat)
    }
}

pub proof fn lemma_pow10_positive(n: nat)
    ensures
        pow10(n) >= 1,
    decreases n,
{
    if n > 0 {
        lemma_pow10_positive((n - 1) as nat);
    }
}

pub proof fn lemma_pow10_monotone(m: nat, n: nat)
    requires
        m <= n,
    ensures
        pow10(m) <= pow10(n),
    decreases n - m,
{
    if m < n {
        lemma_pow10_monotone(m, (n - 1) as nat);
        lemma_pow10_positive((n - 1) as nat);
    }
}

/// `10^n` when it fits in 64 bits.
fn checked_pow10(n: u32) -> (r: Option<u64>)
    ensures
        r == (if pow10(n as nat) <= u64::MAX {
            Some(pow10(n as nat) as u64)
        } else {
            None
        }),
{
    let mut acc: u64 = 1;
    let mut i: u32 = 0;
    while i < n
        invariant
            i <= n,
            acc as nat == pow10(i as nat),
        decreases n - i,
    {
        match acc.checked_mul(10) {
            Some(v) => {
                acc = v;
                i = i + 1;
            },
            None => {
                proof {
                    lemma_pow10_monotone((i + 1) as nat, n as nat);
                }
                return None;
            },
        }
    }
    Some(acc)
}

/// A quantity rescaled from `from` to `to` decimals, if it fits in 64 bits:
/// multiplied by `10^(to - from)` when `to > from`, otherwise divided
/// (truncating) by `10^(from - to)`.
pub open spec fn decimals_changed(quantity: u64, from: u8, to: u8) -> Option<u64> {
    if from < to {
        let k = pow10((to - from) as nat);
        if k <= u64::MAX && quantity as nat * k <= u64::MAX {
            Some((quantity as nat * k) as u64)
        } else {
            None
        }
    } else {
        let k = pow10((from - to) as nat);
        if k <= u64::MAX {
            Some((quantity as nat / k) as u64)
        } else {
            None
        }
    }
}

/// `quantity * price / 10^base_decimals`, truncated: the value of `quantity`
/// base units at `price`, expressed in the precision of the price.
pub open spec fn value_of(quantity: u64, price: u64, base_decimals: u8) -> int {
    (quantity as int * price as int) / (pow10(base_decimals as nat) as int)
}

/// Each step of the split that `calculate_value` performs fits in 64 bits.
///
/// With `kb = 10^base_decimals`, `kq = 10^quote_decimals`,
/// `quantity = ab * kb + bb` and `price = aq * kq + bq`, the value is computed
/// as `ab * aq * kq + ab * bq + (aq * bb * kq + bb * bq) / kb`.
pub open spec fn value_fits(quantity: u64, price: u64, base_decimals: u8, quote_decimals: u8) -> bool {
    let kb = pow10(base_decimals as nat) as int;
    let kq = pow10(quote_decimals as nat) as int;
    let ab = quantity as int / kb;
    let bb = quantity as int % kb;
    let aq = price as int / kq;
    let bq = price as int % kq;
    &&& kb <= u64::MAX
    &&& kq <= u64::MAX
    &&& ab * aq <= u64::MAX
    &&& ab * bq <= u64::MAX
    &&& aq * bb <= u64::MAX
    &&& bb * bq <= u64::MAX
    &&& ab * aq * kq <= u64::MAX
    &&& ab * aq * kq + ab * bq <= u64::MAX
    &&& aq * bb * kq <= u64::MAX
    &&& aq * bb * kq + bb * bq <= u64::MAX
    &&& ab * aq * kq + ab * bq + (aq * bb * kq + bb * bq) / kb <= u64::MAX
}

proof fn lemma_split_value(q: int, p: int, kb: int, kq: int)
    requires
        q >= 0,
        p >= 0,
        kb >= 1,
        kq >= 1,
    ensures
        (q * p) / kb == (q / kb) * (p / kq) * kq + (q / kb) * (p % kq) + ((p / kq) * (q % kb) * kq
            + (q % kb) * (p % kq)) / kb,
{
    let ab = q / kb;
    let bb = q % kb;
    let aq = p / kq;
    let bq = p % kq;
    lemma_fundamental_div_mod(q, kb);
    lemma_fundamental_div_mod(p, kq);
    lemma_div_pos_is_pos(q, kb);
    lemma_div_pos_is_pos(p, kq);
    lemma_mod_pos_bound(q, kb);
    lemma_mod_pos_bound(p, kq);
    let x = ab * aq * kq + ab * bq;
    let y = aq * bb * kq + bb * bq;
    assert(q * p == (kb * ab) * p + bb * p) by (nonlinear_arith)
        requires
            q == kb * ab + bb,
    ;
    assert((kb * ab) * p == kb * x) by (nonlinear_arith)
        requires
            p == kq * aq + bq,
            x == ab * aq * kq + ab * bq,
    ;
    assert(bb * p == y) by (nonlinear_arith)
        requires
            p == kq * aq + bq,
            y == aq * bb * kq + bb * bq,
    ;
    assert(y >= 0) by (nonlinear_arith)
        requires
            y == aq * bb * kq + bb * bq,
            aq >= 0,
            bb >= 0,
            kq >= 1,
            bq >= 0,
    ;
    lemma_fundamental_div_mod(y, kb);
    lemma_mod_pos_bound(y, kb);
    let t = y / kb;
    let s = y % kb;
    assert(q * p == (x + t) * kb + s) by (nonlinear_arith)
        requires
            q * p == kb * x + y,
            y == kb * t + s,
    ;
    lemma_fundamental_div_mod_converse_div(q * p, kb, x + t, s);
}

/// The value of `quantity` at `price`: `quantity * price / 10^base_decimals`,
/// computed by splitting both factors at their decimal point so that no
/// intermediate needs more than 64 bits; `None` when a step overflows.
pub fn calculate_value(quantity: u64, price: u64, base_decimals: u8, quote_decimals: u8) -> (r:
    Option<u64>)
    ensures
        r == calculated_value(quantity, price, base_decimals, quote_decimals),
{
    proof {
        lemma_pow10_positive(base_decimals as nat);
        lemma_pow10_positive(quote_decimals as nat);
        lemma_split_value(
            quantity as int,
            price as int,
            pow10(base_decimals as nat) as int,
            pow10(quote_decimals as nat) as int,
        );
    }
    // quantity = a_base * k_base + b_base
    let k_base = checked_pow10(base_decimals as u32)?;
    let a_base = quantity / k_base;
    let b_base = quantity % k_base;
    // price = a_quote * k_quote + b_quote
    let k_quote = checked_pow10(quote_decimals as u32)?;
    let a_quote = price / k_quote;
    let b_quote = price % k_quote;
    let a = a_base.checked_mul(a_quote)?;
    let b = a_base.checked_mul(b_quote)?;
    let c = a_quote.checked_mul(b_base)?;
    let d = b_base.checked_mul(b_quote)?;
    // quantity * price / k_base = a * k_quote + b + (c * k_quote + d) / k_base
    let high = a.checked_mul(k_quote)?.checked_add(b)?;
    let low = c.checked_mul(k_quote)?.checked_add(d)?.checked_div(k_base)?;
    high.checked_add(low)
}

/// Rescales a quantity between two precisions; `None` on overflow.
pub fn change_decimals(quantity: u64, from_decimals: u8, to_decimals: u8) -> (r: Option<u64>)
    ensures
        r == decimals_changed(quantity, from_decimals, to_decimals),
{
    if from_decimals < to_decimals {
        match checked_pow10((to_decimals - from_decimals) as u32) {
            Some(k) => quantity.checked_mul(k),
            None => None,
        }
    } else {
        match checked_pow10((from_decimals - to_decimals) as u32) {
            Some(k) => {
                proof {
                    lemma_pow10_positive((from_decimals - to_decimals) as nat);
                }
                quantity.checked_div(k)
            },
            None => None,
        }
    }
}

/// Rescaling up and back down gives the quantity back.
pub proof fn lemma_change_decimals_round_trip(quantity: u64, a: u8, b: u8)
    requires
        a <= b,
        decimals_changed(quantity, a, b) is Some,
    ensures
        decimals_changed(decimals_changed(quantity, a, b)->0, b, a) == Some(quantity),
{
    let k: int = pow10((b - a) as nat) as int;
    lemma_pow10_positive((b - a) as nat);
    if a < b {
        let q: int = quantity as int;
        let m: int = q * k;
        assert(m / k == q) by (nonlinear_arith)
            requires
                m == q * k,
                k >= 1,
        ;
    }
}

/// The character of a decimal digit.
pub open spec fn digit_char(d: nat) -> char {
    if d == 0 {
        '0'
    } else if d == 1 {
        '1'
    } else if d == 2 {
        '2'
    } else if d == 3 {
        '3'
    } else if d == 4 {
        '4'
    } else if d == 5 {
        '5'
    } else if d == 6 {
        '6'
    } else if d == 7 {
        '7'
    } else if d == 8 {
        '8'
    } else {
        '9'
    }
}

/// Decimal digits of `n`, most significant first, without leading zeros.
pub open spec fn decimal_digits(n: nat) -> Seq<char>
    decreases n,
{
    if n < 10 {
        seq![digit_char(n)]
    } else {
        decimal_digits(n / 10) + seq![digit_char(n % 10)]
    }
}

/// Relies on `format!` with the standard `Display` of `u64`, which writes
/// plain decimal digits: the two numbers joined by a point.
#[verifier::external_body]
fn point_joined(whole: u64, fraction: u64) -> (r: String)
    ensures
        r@ == decimal_digits(whole as nat) + seq!['.'] + decimal_digits(fraction as nat),
{
    format!("{}.{}", whole, fraction)
}

/// The two texts one after the other.
fn joined(a: &str, b: &str) -> (r: String)
    ensures
        r@ == a@ + b@,
{
    let mut text = String::from_str(a);
    text.append(b);
    text
}

/// `"buy"` or `"sell"`.
pub open spec fn spec_side_name(side: Side) -> Seq<char> {
    match side {
        Side::Ask => "sell"@,
        Side::Bid => "buy"@,
    }
}

/// What a trader does on this side.
pub fn side_name(side: Side) -> (r: &'static str)
    ensures
        r@ == spec_side_name(side),
{
    match side {
        Side::Ask => "sell",
        Side::Bid => "buy",
    }
}

/// Which way the base asset flows on this side.
pub fn transaction_direction(side: Side) -> (r: &'static str)
    ensures
        side == Side::Ask ==> r@ == "deliver"@,
        side == Side::Bid ==> r@ == "receive"@,
{
    match side {
        Side::Ask => "deliver",
        Side::Bid => "receive",
    }
}

/// The kind of position a lot on this side is.
pub fn lot_side(side: Side) -> (r: &'static str)
    ensures
        side == Side::Ask ==> r@ == "Short"@,
        side == Side::Bid ==> r@ == "Long"@,
{
    match side {
        Side::Ask => "Short",
        Side::Bid => "Long",
    }
}

/// The text of `price` with `decimals` decimal places: the whole part, a
/// point, then the fractional part, each as plain decimal digits (the
/// fractional part is not padded with zeros).
pub open spec fn spec_price_fmt(price: u64, decimals: u8) -> Seq<char> {
    let k = pow10(decimals as nat);
    if k <= u64::MAX {
        decimal_digits(price as nat / k) + seq!['.'] + decimal_digits(price as nat % k)
    } else {
        decimal_digits(0) + seq!['.'] + decimal_digits(price as nat)
    }
}

/// Renders a fixed-point number with `decimals` decimal places.
pub fn price_fmt(price: u64, decimals: u8) -> (r: String)
    ensures
        r@ == spec_price_fmt(price, decimals),
{
    match checked_pow10(decimals as u32) {
        Some(k) => {
            proof {
                lemma_pow10_positive(decimals as nat);
            }
            point_joined(price / k, price % k)
        },
        None => point_joined(0, price),
    }
}

/// A quantity of `market` in its base precision, with the base symbol.
pub open spec fn spec_quantity_text(market: Market, quantity: u64) -> Seq<char> {
    spec_price_fmt(quantity, market.base_decimals) + market.base_asset.symbol@
}

/// A price of `market` in its quote precision, with the quote symbol.
pub open spec fn spec_price_text(market: Market, price: u64) -> Seq<char> {
    spec_price_fmt(price, market.quote_decimals) + market.quote_asset.symbol@
}

/// A price of `market` followed by its quote asset's symbol.
pub fn quote_price_fmt(price: u64, market: &Market) -> (r: String)
    ensures
        r@ == spec_price_fmt(price, market.quote_decimals) + market.quote_asset.symbol@,
{
    let text = price_fmt(price, market.quote_decimals);
    joined(text.as_str(), market.quote_asset.symbol.as_str())
}

/// A quantity of `market` followed by its base asset's symbol.
pub fn base_quantity_fmt(quantity: u64, market: &Market) -> (r: String)
    ensures
        r@ == spec_price_fmt(quantity, market.base_decimals) + market.base_asset.symbol@,
{
    let text = price_fmt(quantity, market.base_decimals);
    joined(text.as_str(), market.base_asset.symbol.as_str())
}

impl Order {
    /// The text of this order: its kind, side, quantity and price.
    pub open spec fn spec_describe(&self) -> Seq<char> {
        let m = *self.market;
        match self.order_data {
            OrderType::Limit(l) => "Limit "@ + spec_side_name(l.side) + " "@ + spec_quantity_text(m, l.quantity) + " @ "@
                + spec_price_text(m, l.price),
            OrderType::ImmediateOrCancel(l) => "IOC "@ + spec_side_name(l.side) + " "@ + spec_quantity_text(m, l.quantity) + " @ "@ + spec_price_text(m, l.price),
            OrderType::Market(o) => "Market "@ + spec_side_name(o.side) + " "@ + spec_quantity_text(m, o.quantity),
            OrderType::Deposit(q) => "Deposit "@ + spec_quantity_text(m, q),
            OrderType::Withdraw(q) => "Withdraw "@ + spec_quantity_text(m, q),
            OrderType::Cancel => "Cancel"@,
        }
    }

    /// Renders the order for people, e.g. `Limit buy 1.0BTC @ 50000.0USDT`.
    pub fn describe(&self) -> (r: String)
        ensures
            r@ == self.spec_describe(),
    {
        match &self.order_data {
            OrderType::Limit(limit) => {
                let head = joined("Limit ", side_name(limit.side));
                let head = joined(head.as_str(), " ");
                let head = joined(head.as_str(), base_quantity_fmt(limit.quantity, &self.market).as_str());
                let head = joined(head.as_str(), " @ ");
                joined(head.as_str(), quote_price_fmt(limit.price, &self.market).as_str())
            },
            OrderType::ImmediateOrCancel(limit) => {
                let head = joined("IOC ", side_name(limit.side));
                let head = joined(head.as_str(), " ");
                let head = joined(head.as_str(), base_quantity_fmt(limit.quantity, &self.market).as_str());
                let head = joined(head.as_str(), " @ ");
                joined(head.as_str(), quote_price_fmt(limit.price, &self.market).as_str())
            },
            OrderType::Market(market_order) => {
                let head = joined("Market ", side_name(market_order.side));
                let head = joined(head.as_str(), " ");
                joined(head.as_str(), base_quantity_fmt(market_order.quantity, &self.market).as_str())
            },
            OrderType::Deposit(quantity) => joined(
                "Deposit ",
                base_quantity_fmt(*quantity, &self.market).as_str(),
            ),
            OrderType::Withdraw(quantity) => joined(
                "Withdraw ",
                base_quantity_fmt(*quantity, &self.market).as_str(),
            ),
            OrderType::Cancel => {
                proof {
                    reveal_strlit("");
                }
                joined("Cancel", "")
            },
        }
    }
}

} // verus!

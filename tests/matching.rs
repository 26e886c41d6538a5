use std::rc::Rc;

use benthic::error::Error;
use benthic::execution_policy::{ExecuteAllways, ExecutionPolicy};
use benthic::market_data_policy::MarketDataNull;
use benthic::order::{Asset, LimitOrder, Market, MarketOrder, Order, OrderType, Side};
use benthic::order_book::{OrderBook, OrderQuantity, PriceLevel, PriceLevels};
use benthic::order_manager::{OrderBookManager, OrderBooks, OrderManager};

fn market() -> Rc<Market> {
    Rc::new(Market {
        symbol: "BTC/USDT".to_string(),
        base_asset: Rc::new(Asset { symbol: "BTC".to_string(), decimals: 7 }),
        quote_asset: Rc::new(Asset { symbol: "USDT".to_string(), decimals: 2 }),
        tick: 1,
        multiplier: 1,
        base_decimals: 5,
        quote_decimals: 2,
    })
}

fn limit(market: &Rc<Market>, participant_id: usize, order_id: usize, side: Side, price: u64, quantity: u64) -> Rc<Order> {
    Rc::new(Order {
        market: market.clone(),
        participant_id,
        order_id,
        order_data: OrderType::Limit(LimitOrder { side, price, quantity }),
    })
}

fn ioc(market: &Rc<Market>, participant_id: usize, order_id: usize, side: Side, price: u64, quantity: u64) -> Rc<Order> {
    Rc::new(Order {
        market: market.clone(),
        participant_id,
        order_id,
        order_data: OrderType::ImmediateOrCancel(LimitOrder { side, price, quantity }),
    })
}

fn cancel(market: &Rc<Market>, participant_id: usize, order_id: usize) -> Rc<Order> {
    Rc::new(Order { market: market.clone(), participant_id, order_id, order_data: OrderType::Cancel })
}

/// (price, [(participant, order id, remaining)]) of each level, worst price first.
fn levels(side: &PriceLevels) -> Vec<(u64, Vec<(usize, usize, u64)>)> {
    side.levels()
        .iter()
        .map(|level: &PriceLevel| {
            (
                level.price,
                level
                    .orders
                    .iter()
                    .map(|o| (o.order.participant_id, o.order.order_id, o.quantity))
                    .collect(),
            )
        })
        .collect()
}

/// Counts the calls it receives and otherwise behaves as `ExecuteAllways`.
#[derive(Default)]
struct Counting {
    placed: usize,
    cancelled: usize,
    fills: Vec<(usize, usize, u64)>,
}

impl ExecutionPolicy for Counting {
    fn place_verdict(&self, order_quantity: OrderQuantity) -> Result<(), Error> {
        if order_quantity.quantity > 0 { Ok(()) } else { Err(Error::NotEnoughQuantity) }
    }

    fn cancel_verdict(&self, order_quantity: OrderQuantity) -> Result<(), Error> {
        if order_quantity.quantity > 0 { Ok(()) } else { Err(Error::NotEnoughQuantity) }
    }

    fn accepts_all(&self) -> bool {
        true
    }

    fn place_order(&mut self, order_quantity: &OrderQuantity) -> Result<(), Error> {
        self.placed += 1;
        ExecuteAllways.place_order(order_quantity)
    }

    fn cancel_order(&mut self, order_quantity: &OrderQuantity) -> Result<(), Error> {
        self.cancelled += 1;
        ExecuteAllways.cancel_order(order_quantity)
    }

    fn execute_orders(
        &mut self,
        executed_quantity: &mut u64,
        aggressor_order: &mut OrderQuantity,
        book_order: &mut OrderQuantity,
    ) -> Result<(), Error> {
        let r = ExecuteAllways.execute_orders(executed_quantity, aggressor_order, book_order);
        if r.is_ok() {
            self.fills.push((book_order.order.participant_id, book_order.order.order_id, *executed_quantity));
        }
        r
    }
}

fn ask_ladder(book: &mut OrderBook, market: &Rc<Market>, policy: &mut Counting) {
    for (id, price) in [(1usize, 100u64), (2, 101), (3, 102)] {
        book.place_order(limit(market, 9, id, Side::Ask, price, 10), policy, &MarketDataNull).unwrap();
    }
}

#[test]
fn partial_multi_level_limit_sweep() {
    let market = market();
    let mut book = OrderBook::new(market.clone());
    let mut policy = Counting::default();
    ask_ladder(&mut book, &market, &mut policy);
    book.place_order(limit(&market, 1, 1, Side::Bid, 101, 25), &mut policy, &MarketDataNull).unwrap();
    assert_eq!(policy.fills, vec![(9, 1, 10), (9, 2, 10)]);
    assert_eq!(levels(book.ask()), vec![(102, vec![(9, 3, 10)])]);
    assert_eq!(levels(book.bid()), vec![(101, vec![(1, 1, 5)])]);
}

#[test]
fn immediate_or_cancel_discards_the_rest() {
    let market = market();
    let mut manager = OrderManager::new(OrderBooks::new(vec![OrderBook::new(market.clone())]));
    let mut policy = Counting::default();
    for (id, price) in [(1usize, 100u64), (2, 101), (3, 102)] {
        manager.place_order(limit(&market, 9, id, Side::Ask, price, 10), &mut policy, &MarketDataNull).unwrap();
    }
    manager.place_order(ioc(&market, 1, 1, Side::Bid, 101, 25), &mut policy, &MarketDataNull).unwrap();
    assert_eq!(policy.fills, vec![(9, 1, 10), (9, 2, 10)]);
    let book = manager.books().get_order_book(&"BTC/USDT".to_string()).unwrap();
    assert_eq!(levels(book.ask()), vec![(102, vec![(9, 3, 10)])]);
    assert!(book.bid().levels().is_empty());
    assert!(manager.get_order(1, 1).is_none());
    assert!(manager.get_order(9, 3).is_some());
}

#[test]
fn cancel_mid_queue_keeps_the_others_in_order() {
    let market = market();
    let mut manager = OrderManager::new(OrderBooks::new(vec![OrderBook::new(market.clone())]));
    let mut policy = Counting::default();
    manager.place_order(limit(&market, 1, 1, Side::Bid, 100, 5), &mut policy, &MarketDataNull).unwrap();
    manager.place_order(limit(&market, 1, 2, Side::Bid, 100, 7), &mut policy, &MarketDataNull).unwrap();
    manager.place_order(cancel(&market, 1, 1), &mut policy, &MarketDataNull).unwrap();
    assert_eq!(policy.cancelled, 1);
    assert!(manager.get_order(1, 1).is_none());
    let book = manager.books().get_order_book(&"BTC/USDT".to_string()).unwrap();
    assert_eq!(levels(book.bid()), vec![(100, vec![(1, 2, 7)])]);
    manager.place_order(limit(&market, 2, 1, Side::Ask, 100, 3), &mut policy, &MarketDataNull).unwrap();
    assert_eq!(policy.fills, vec![(1, 2, 3)]);
    let book = manager.books().get_order_book(&"BTC/USDT".to_string()).unwrap();
    assert_eq!(levels(book.bid()), vec![(100, vec![(1, 2, 4)])]);
    assert!(book.ask().levels().is_empty());
}

#[test]
fn earlier_rest_fills_first_at_one_price() {
    let market = market();
    let mut book = OrderBook::new(market.clone());
    let mut policy = Counting::default();
    for id in 1..=3usize {
        book.place_order(limit(&market, id, id, Side::Ask, 50, 4), &mut policy, &MarketDataNull).unwrap();
    }
    book.place_order(limit(&market, 7, 7, Side::Bid, 50, 6), &mut policy, &MarketDataNull).unwrap();
    assert_eq!(policy.fills, vec![(1, 1, 4), (2, 2, 2)]);
    assert_eq!(levels(book.ask()), vec![(50, vec![(2, 2, 2), (3, 3, 4)])]);
}

#[test]
fn bid_never_fills_above_its_limit() {
    let market = market();
    let mut book = OrderBook::new(market.clone());
    let mut policy = Counting::default();
    book.place_order(limit(&market, 9, 1, Side::Ask, 105, 10), &mut policy, &MarketDataNull).unwrap();
    book.place_order(limit(&market, 1, 1, Side::Bid, 104, 10), &mut policy, &MarketDataNull).unwrap();
    assert!(policy.fills.is_empty());
    assert_eq!(levels(book.ask()), vec![(105, vec![(9, 1, 10)])]);
    assert_eq!(levels(book.bid()), vec![(104, vec![(1, 1, 10)])]);
    // an ask at a price above the best bid does not fill it either
    book.place_order(limit(&market, 2, 2, Side::Ask, 104, 3), &mut policy, &MarketDataNull).unwrap();
    assert_eq!(policy.fills, vec![(1, 1, 3)]);
}

#[test]
fn ask_sweeps_bids_from_the_highest_price() {
    let market = market();
    let mut book = OrderBook::new(market.clone());
    let mut policy = Counting::default();
    for (id, price) in [(1usize, 98u64), (2, 100), (3, 99)] {
        book.place_order(limit(&market, id, id, Side::Bid, price, 5), &mut policy, &MarketDataNull).unwrap();
    }
    assert_eq!(
        levels(book.bid()),
        vec![(98, vec![(1, 1, 5)]), (99, vec![(3, 3, 5)]), (100, vec![(2, 2, 5)])]
    );
    book.place_order(limit(&market, 8, 8, Side::Ask, 99, 12), &mut policy, &MarketDataNull).unwrap();
    assert_eq!(policy.fills, vec![(2, 2, 5), (3, 3, 5)]);
    assert_eq!(levels(book.bid()), vec![(98, vec![(1, 1, 5)])]);
    assert_eq!(levels(book.ask()), vec![(99, vec![(8, 8, 2)])]);
}

#[test]
fn fill_reduces_both_quantities() {
    let market = market();
    let mut policy = ExecuteAllways;
    let mut aggressor = OrderQuantity { order: limit(&market, 1, 1, Side::Bid, 10, 8), quantity: 8 };
    let mut book_order = OrderQuantity { order: limit(&market, 2, 2, Side::Ask, 10, 5), quantity: 5 };
    let mut executed = 5;
    policy.execute_orders(&mut executed, &mut aggressor, &mut book_order).unwrap();
    assert_eq!(executed, 5);
    assert_eq!(aggressor.quantity, 3);
    assert_eq!(book_order.quantity, 0);
    let mut nothing = 0;
    assert_eq!(
        policy.execute_orders(&mut nothing, &mut aggressor, &mut book_order),
        Err(Error::NotEnoughQuantity)
    );
    assert_eq!(aggressor.quantity, 3);
}

#[test]
fn emptied_levels_leave_the_book() {
    let market = market();
    let mut book = OrderBook::new(market.clone());
    let mut policy = Counting::default();
    ask_ladder(&mut book, &market, &mut policy);
    book.place_order(limit(&market, 1, 1, Side::Bid, 102, 30), &mut policy, &MarketDataNull).unwrap();
    assert!(book.ask().levels().is_empty());
    assert!(book.bid().levels().is_empty());
}

#[test]
fn market_order_takes_any_price_and_drops_the_rest() {
    let market = market();
    let mut book = OrderBook::new(market.clone());
    let mut policy = Counting::default();
    ask_ladder(&mut book, &market, &mut policy);
    let order = Rc::new(Order {
        market: market.clone(),
        participant_id: 1,
        order_id: 1,
        order_data: OrderType::Market(MarketOrder { side: Side::Bid, quantity: 45 }),
    });
    book.place_order(order, &mut policy, &MarketDataNull).unwrap();
    assert_eq!(policy.fills, vec![(9, 1, 10), (9, 2, 10), (9, 3, 10)]);
    assert!(book.ask().levels().is_empty());
    assert!(book.bid().levels().is_empty());
}

#[test]
fn fully_filled_limit_does_not_rest() {
    let market = market();
    let mut book = OrderBook::new(market.clone());
    let mut policy = Counting::default();
    ask_ladder(&mut book, &market, &mut policy);
    let placed_before = policy.placed;
    book.place_order(limit(&market, 1, 1, Side::Bid, 100, 10), &mut policy, &MarketDataNull).unwrap();
    assert_eq!(policy.placed, placed_before);
    assert!(book.bid().levels().is_empty());
    assert_eq!(levels(book.ask()), vec![(102, vec![(9, 3, 10)]), (101, vec![(9, 2, 10)])]);
}

#[test]
fn book_rejects_transfers() {
    let market = market();
    let mut book = OrderBook::new(market.clone());
    let mut policy = ExecuteAllways;
    let deposit = Rc::new(Order { market: market.clone(), participant_id: 1, order_id: 1, order_data: OrderType::Deposit(5) });
    assert_eq!(book.place_order(deposit, &mut policy, &MarketDataNull), Err(Error::InvalidOrderType));
    let withdraw = Rc::new(Order { market: market.clone(), participant_id: 1, order_id: 2, order_data: OrderType::Withdraw(5) });
    assert_eq!(book.place_order(withdraw, &mut policy, &MarketDataNull), Err(Error::InvalidOrderType));
    assert_eq!(book.place_order(cancel(&market, 1, 1), &mut policy, &MarketDataNull), Err(Error::UnknownOrder));
}

#[test]
fn book_cancels_a_resting_order() {
    let market = market();
    let mut book = OrderBook::new(market.clone());
    let mut policy = Counting::default();
    book.place_order(limit(&market, 1, 1, Side::Bid, 100, 5), &mut policy, &MarketDataNull).unwrap();
    book.place_order(limit(&market, 1, 2, Side::Bid, 100, 7), &mut policy, &MarketDataNull).unwrap();
    book.place_order(limit(&market, 3, 1, Side::Ask, 120, 2), &mut policy, &MarketDataNull).unwrap();
    book.place_order(cancel(&market, 1, 1), &mut policy, &MarketDataNull).unwrap();
    assert_eq!(policy.cancelled, 1);
    assert_eq!(levels(book.bid()), vec![(100, vec![(1, 2, 7)])]);
    book.place_order(cancel(&market, 3, 1), &mut policy, &MarketDataNull).unwrap();
    assert!(book.ask().levels().is_empty());
    assert_eq!(book.place_order(cancel(&market, 1, 1), &mut policy, &MarketDataNull), Err(Error::UnknownOrder));
    assert_eq!(policy.cancelled, 2);
    book.place_order(limit(&market, 2, 1, Side::Ask, 100, 3), &mut policy, &MarketDataNull).unwrap();
    assert_eq!(policy.fills, vec![(1, 2, 3)]);
}

#[test]
fn nothing_to_match_is_a_success() {
    let market = market();
    let mut book = OrderBook::new(market.clone());
    let mut policy = ExecuteAllways;
    let ioc_order = ioc(&market, 1, 1, Side::Bid, 101, 25);
    book.place_order(ioc_order, &mut policy, &MarketDataNull).unwrap();
    let empty_market = Rc::new(Order {
        market: market.clone(),
        participant_id: 1,
        order_id: 2,
        order_data: OrderType::Market(MarketOrder { side: Side::Ask, quantity: 0 }),
    });
    book.place_order(empty_market, &mut policy, &MarketDataNull).unwrap();
    assert!(book.bid().levels().is_empty());
    assert!(book.ask().levels().is_empty());
}

#[test]
fn zero_quantity_limit_is_refused_by_the_policy() {
    let market = market();
    let mut book = OrderBook::new(market.clone());
    let mut policy = ExecuteAllways;
    let mut side = PriceLevels::new(Side::Bid);
    let order = limit(&market, 1, 1, Side::Bid, 10, 0);
    let quantity = OrderQuantity { order: order.clone(), quantity: 0 };
    assert_eq!(
        side.place_limit_order(quantity, &LimitOrder { side: Side::Bid, price: 10, quantity: 0 }, &mut policy, &MarketDataNull),
        Err(Error::NotEnoughQuantity)
    );
    assert!(side.levels().is_empty());
    book.place_order(order, &mut policy, &MarketDataNull).unwrap();
    assert!(book.bid().levels().is_empty());
}

#[test]
fn manager_errors() {
    let market = market();
    let other = Rc::new(Market {
        symbol: "ETH/USDT".to_string(),
        base_asset: Rc::new(Asset { symbol: "ETH".to_string(), decimals: 6 }),
        quote_asset: market.quote_asset.clone(),
        tick: 1,
        multiplier: 1,
        base_decimals: 5,
        quote_decimals: 2,
    });
    let mut manager = OrderManager::new(OrderBooks::new(vec![OrderBook::new(market.clone())]));
    let mut policy = ExecuteAllways;
    manager.place_order(limit(&market, 1, 1, Side::Bid, 100, 5), &mut policy, &MarketDataNull).unwrap();
    assert_eq!(
        manager.place_order(limit(&market, 1, 1, Side::Bid, 99, 5), &mut policy, &MarketDataNull),
        Err(Error::DuplicateOrder)
    );
    assert_eq!(
        manager.place_order(limit(&other, 2, 1, Side::Bid, 99, 5), &mut policy, &MarketDataNull),
        Err(Error::UnknownOrderBook)
    );
    assert_eq!(manager.place_order(cancel(&market, 3, 3), &mut policy, &MarketDataNull), Err(Error::UnknownOrder));
    manager.place_order(cancel(&market, 1, 1), &mut policy, &MarketDataNull).unwrap();
    assert_eq!(manager.place_order(cancel(&market, 1, 1), &mut policy, &MarketDataNull), Err(Error::UnknownOrder));
}

#[test]
fn cancel_of_a_filled_order_is_unknown() {
    let market = market();
    let mut manager = OrderManager::new(OrderBooks::new(vec![OrderBook::new(market.clone())]));
    let mut policy = ExecuteAllways;
    manager.place_order(limit(&market, 1, 1, Side::Ask, 100, 5), &mut policy, &MarketDataNull).unwrap();
    manager.place_order(limit(&market, 2, 1, Side::Bid, 100, 5), &mut policy, &MarketDataNull).unwrap();
    assert_eq!(manager.place_order(cancel(&market, 1, 1), &mut policy, &MarketDataNull), Err(Error::UnknownOrder));
    assert!(manager.get_order(1, 1).is_some());
}

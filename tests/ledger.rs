use std::rc::Rc;

use benthic::error::Error;
use benthic::execution_policy::ExecutionPolicy;
use benthic::margin::{
    MarginAssetAccount, MarginLot, MarginLotEventHandler, MarginLotsNull, MarginManager,
    MarginSide, MarginTradingAccount,
};
use benthic::market_data_policy::MarketDataNull;
use benthic::order::{Asset, LimitOrder, Market, MarketOrder, Order, OrderType, Side};
use benthic::order_book::{OrderBook, OrderQuantity};
use benthic::order_manager::{OrderBookManager, OrderBooks, OrderManager};

fn btc() -> Rc<Asset> {
    Rc::new(Asset { symbol: "BTC".to_string(), decimals: 7 })
}

fn usdt() -> Rc<Asset> {
    Rc::new(Asset { symbol: "USDT".to_string(), decimals: 2 })
}

fn btc_usdt(btc: &Rc<Asset>, usdt: &Rc<Asset>) -> Rc<Market> {
    Rc::new(Market {
        symbol: "BTC/USDT".to_string(),
        base_asset: btc.clone(),
        quote_asset: usdt.clone(),
        tick: 1,
        multiplier: 1,
        base_decimals: 5,
        quote_decimals: 2,
    })
}

/// A market in which `asset` is the base, at its own precision: deposits of
/// the asset go through it.
fn funding(asset: &Rc<Asset>) -> Rc<Market> {
    Rc::new(Market {
        symbol: format!("{}/{}", asset.symbol, asset.symbol),
        base_asset: asset.clone(),
        quote_asset: asset.clone(),
        tick: 1,
        multiplier: 1,
        base_decimals: asset.decimals,
        quote_decimals: asset.decimals,
    })
}

fn order(market: &Rc<Market>, participant_id: usize, order_id: usize, order_data: OrderType) -> Rc<Order> {
    Rc::new(Order { market: market.clone(), participant_id, order_id, order_data })
}

fn asset_account<'a>(account: &'a MarginTradingAccount, symbol: &str) -> &'a MarginAssetAccount {
    account.portfolio.iter().find(|a| a.asset.symbol == symbol).unwrap()
}

fn net(account: &MarginAssetAccount) -> i128 {
    account.received.quantity_committed as i128 - account.delivered.quantity_committed as i128
}

#[test]
fn simple_cross_through_the_ledger() {
    let (btc, usdt) = (btc(), usdt());
    let market = btc_usdt(&btc, &usdt);
    let mut ledger = MarginManager::new(MarginLotsNull);
    for id in [1usize, 2] {
        ledger.add_account(id).add_asset_account(&btc).add_asset_account(&usdt);
    }
    ledger
        .add_account(1)
        .transfer(order(&funding(&usdt), 1, 100, OrderType::Deposit(100_000_000)), 1, &MarginLotsNull)
        .unwrap();
    ledger
        .add_account(2)
        .transfer(order(&funding(&btc), 2, 200, OrderType::Deposit(100_000_000)), 1, &MarginLotsNull)
        .unwrap();

    let mut manager = OrderManager::new(OrderBooks::new(vec![OrderBook::new(market.clone())]));
    let ask = LimitOrder { side: Side::Ask, price: 1_000_000, quantity: 100_000 };
    manager.place_order(order(&market, 2, 1, OrderType::Limit(ask)), &mut ledger, &MarketDataNull).unwrap();
    {
        let b = ledger.get_account(2).unwrap();
        // 1.00000 BTC promised for delivery, 10000.00 USDT for receipt
        assert_eq!(asset_account(b, "BTC").delivered.quantity_open, 10_000_000);
        assert_eq!(asset_account(b, "USDT").received.quantity_open, 1_000_000);
    }
    let bid = LimitOrder { side: Side::Bid, price: 1_000_000, quantity: 60_000 };
    manager.place_order(order(&market, 1, 1, OrderType::Limit(bid)), &mut ledger, &MarketDataNull).unwrap();

    let book = manager.books().get_order_book(&"BTC/USDT".to_string()).unwrap();
    assert_eq!(book.ask().levels()[0].orders[0].quantity, 40_000);
    assert!(book.bid().levels().is_empty());

    let a = ledger.get_account(1).unwrap();
    let a_btc = asset_account(a, "BTC");
    assert_eq!(a_btc.received.open_lots.len(), 1);
    assert_eq!(a_btc.received.open_lots[0].quantity_orig, 6_000_000);
    assert_eq!(a_btc.received.quantity_committed, 6_000_000);
    assert_eq!(a_btc.received.quantity_locked, 0);
    let a_usdt = asset_account(a, "USDT");
    assert_eq!(net(a_usdt), 100_000_000 - 600_000);
    assert_eq!(a_usdt.delivered.quantity_locked, 0);

    let b = ledger.get_account(2).unwrap();
    let b_btc = asset_account(b, "BTC");
    assert_eq!(net(b_btc), 100_000_000 - 6_000_000);
    // the deposit lot absorbed the sale: no short lot
    assert!(b_btc.delivered.open_lots.is_empty());
    assert_eq!(b_btc.received.open_lots[0].quantity_left, 100_000_000 - 6_000_000);
    // what is left of the ask is still promised
    assert_eq!(b_btc.delivered.quantity_open, 4_000_000);
    let b_usdt = asset_account(b, "USDT");
    assert_eq!(b_usdt.received.quantity_committed, 600_000);
    assert_eq!(b_usdt.received.quantity_open, 400_000);
}

#[test]
fn lot_offset_closes_the_long_lot_first() {
    let (btc, usdt) = (btc(), usdt());
    let market = btc_usdt(&btc, &usdt);
    let mut account = MarginAssetAccount::new(&btc);
    let buy = order(&market, 1, 1, OrderType::Limit(LimitOrder { side: Side::Bid, price: 100, quantity: 10 }));
    let sell = order(&market, 1, 2, OrderType::Limit(LimitOrder { side: Side::Ask, price: 120, quantity: 6 }));
    account.begin_receipt(10).unwrap();
    account.commit_receipt(10, buy, 100, &MarginLotsNull, 1).unwrap();
    assert_eq!(account.received.open_lots.len(), 1);
    account.begin_delivery(6).unwrap();
    account.commit_delivery(6, sell, 120, &MarginLotsNull, 1).unwrap();
    let lot = &account.received.open_lots[0];
    assert_eq!(lot.quantity_left, 4);
    assert_eq!(lot.transactions.len(), 2);
    assert_eq!(lot.transactions[1].executed_quantity, 6);
    assert_eq!(lot.transactions[1].executed_price, 120);
    assert!(account.delivered.open_lots.is_empty());
    assert_eq!(account.received.quantity_committed, 4);
    assert_eq!(account.delivered.quantity_committed, 0);
}

#[test]
fn selling_past_the_long_lots_opens_a_short_lot() {
    let (btc, usdt) = (btc(), usdt());
    let market = btc_usdt(&btc, &usdt);
    let mut account = MarginAssetAccount::new(&btc);
    let o = order(&market, 1, 1, OrderType::Deposit(0));
    account.begin_receipt(3).unwrap();
    account.commit_receipt(3, o.clone(), 1, &MarginLotsNull, 1).unwrap();
    account.begin_receipt(4).unwrap();
    account.commit_receipt(4, o.clone(), 1, &MarginLotsNull, 1).unwrap();
    account.begin_delivery(9).unwrap();
    account.commit_delivery(9, o, 1, &MarginLotsNull, 1).unwrap();
    assert!(account.received.open_lots.is_empty());
    assert_eq!(account.received.closed_lots.len(), 2);
    assert_eq!(account.received.closed_lots[0].quantity_orig, 3);
    assert_eq!(account.received.closed_lots[1].quantity_orig, 4);
    assert_eq!(account.delivered.open_lots.len(), 1);
    assert_eq!(account.delivered.open_lots[0].quantity_left, 2);
    assert_eq!(account.received.quantity_committed, 0);
    assert_eq!(account.delivered.quantity_committed, 2);
    assert_eq!(net(&account), -2);
}

#[test]
fn net_committed_follows_every_commit() {
    let (btc, usdt) = (btc(), usdt());
    let market = btc_usdt(&btc, &usdt);
    let o = order(&market, 1, 1, OrderType::Deposit(0));
    let mut account = MarginAssetAccount::new(&btc);
    let mut expected: i128 = 0;
    for (receipt, q) in [(true, 5u64), (false, 8), (false, 1), (true, 20), (false, 3), (true, 0)] {
        if receipt {
            account.begin_receipt(q).unwrap();
            account.commit_receipt(q, o.clone(), 1, &MarginLotsNull, 1).unwrap();
            expected += q as i128;
        } else {
            account.begin_delivery(q).unwrap();
            account.commit_delivery(q, o.clone(), 1, &MarginLotsNull, 1).unwrap();
            expected -= q as i128;
        }
        assert_eq!(net(&account), expected);
    }
}

#[test]
fn commit_without_lock_is_refused() {
    let (btc, usdt) = (btc(), usdt());
    let market = btc_usdt(&btc, &usdt);
    let mut account = MarginAssetAccount::new(&btc);
    let o = order(&market, 1, 1, OrderType::Deposit(0));
    assert_eq!(account.commit_receipt(1, o.clone(), 1, &MarginLotsNull, 1), Err(Error::ArithmeticOverflow));
    assert_eq!(account.commit_delivery(1, o, 1, &MarginLotsNull, 1), Err(Error::ArithmeticOverflow));
    assert!(account.received.open_lots.is_empty());
}

#[test]
fn lot_keeps_its_closed_quantity_in_transactions() {
    let (btc, usdt) = (btc(), usdt());
    let market = btc_usdt(&btc, &usdt);
    let o = order(&market, 1, 1, OrderType::Deposit(0));
    let mut lot = MarginLot::new_with_quantity(10);
    assert_eq!(lot.get_quantity_closed(), None);
    assert_eq!(lot.close_quantity(3, o.clone(), 7), None);
    assert_eq!(lot.close_quantity(4, o.clone(), 8), None);
    assert_eq!(lot.get_quantity_closed(), Some(7));
    assert_eq!(lot.close_quantity(5, o, 9), Some(2));
    assert_eq!(lot.quantity_left, 0);
    let executed: u64 = lot.transactions.iter().map(|t| t.executed_quantity).sum();
    assert_eq!(lot.quantity_orig, lot.quantity_left + executed);
    assert_eq!(lot.get_last_transaction_quantity(), Some(3));
}

#[test]
fn side_counters() {
    let mut side = MarginSide::new();
    side.promise_transaction(10).unwrap();
    side.cancel_transaction_promise(4);
    assert_eq!(side.quantity_open, 6);
    side.cancel_transaction_promise(100);
    assert_eq!(side.quantity_open, 0);
    side.begin_transaction(5).unwrap();
    side.commit_transaction(5, Some(5)).unwrap();
    assert_eq!((side.quantity_locked, side.quantity_committed), (0, 5));
    assert_eq!(side.will_commit_opposite_side(3), None);
    assert_eq!(side.quantity_committed, 2);
    assert_eq!(side.will_commit_opposite_side(7), Some(5));
    assert_eq!(side.quantity_committed, 0);
    assert_eq!(side.promise_transaction(u64::MAX), Ok(()));
    assert_eq!(side.promise_transaction(1), Err(Error::ArithmeticOverflow));
    assert_eq!(side.quantity_open, u64::MAX);
    assert_eq!(side.begin_transaction(u64::MAX), Ok(()));
    assert_eq!(side.begin_transaction(1), Err(Error::ArithmeticOverflow));
    assert_eq!(side.commit_transaction(1, Some(u64::MAX)), Ok(()));
    assert_eq!(side.commit_transaction(1, Some(1)), Err(Error::ArithmeticOverflow));
}

#[test]
fn match_lots_reports_what_was_closed() {
    let (btc, usdt) = (btc(), usdt());
    let market = btc_usdt(&btc, &usdt);
    let o = order(&market, 1, 1, OrderType::Deposit(0));
    let mut side = MarginSide::new();
    side.create_lot(5, o.clone(), 1);
    side.create_lot(5, o.clone(), 1);
    assert_eq!(side.match_lots_tell(7, o.clone(), 2), (true, 1, None));
    assert_eq!(side.open_lots[0].quantity_left, 3);
    assert_eq!(side.match_lots(3, o.clone(), 2), None);
    assert!(side.open_lots.is_empty());
    assert_eq!(side.closed_lots.len(), 2);
    side.create_lot(1, o.clone(), 1);
    assert_eq!(side.match_lots(4, o, 2), Some(3));
}

struct Recorder {
    events: std::cell::RefCell<Vec<(&'static str, Side, u64, u64)>>,
}

impl MarginLotEventHandler for Recorder {
    fn handle_lot_opened(&self, _asset: Rc<Asset>, side: Side, lot: &MarginLot, _order: Rc<Order>, _price: u64, _account_id: usize) {
        self.events.borrow_mut().push(("opened", side, lot.quantity_orig, lot.quantity_left));
    }
    fn handle_lot_updated(&self, _asset: Rc<Asset>, side: Side, lot: &MarginLot, _order: Rc<Order>, _price: u64, _account_id: usize) {
        self.events.borrow_mut().push(("updated", side, lot.quantity_orig, lot.quantity_left));
    }
    fn handle_lot_closed(&self, _asset: Rc<Asset>, side: Side, lot: &MarginLot, _order: Rc<Order>, _price: u64, _account_id: usize) {
        self.events.borrow_mut().push(("closed", side, lot.quantity_orig, lot.quantity_left));
    }
}

#[test]
fn lot_events_are_reported() {
    let (btc, usdt) = (btc(), usdt());
    let market = btc_usdt(&btc, &usdt);
    let o = order(&market, 1, 1, OrderType::Deposit(0));
    let recorder = Recorder { events: std::cell::RefCell::new(Vec::new()) };
    let mut account = MarginAssetAccount::new(&btc);
    account.begin_receipt(4).unwrap();
    account.commit_receipt(4, o.clone(), 1, &recorder, 1).unwrap();
    account.begin_receipt(4).unwrap();
    account.commit_receipt(4, o.clone(), 1, &recorder, 1).unwrap();
    account.begin_delivery(6).unwrap();
    account.commit_delivery(6, o, 1, &recorder, 1).unwrap();
    assert_eq!(
        recorder.events.into_inner(),
        vec![
            ("opened", Side::Bid, 4, 4),
            ("opened", Side::Bid, 4, 4),
            ("updated", Side::Bid, 4, 2),
            ("closed", Side::Bid, 4, 0),
        ]
    );
}

#[test]
fn accounts_are_created_once() {
    let (btc, usdt) = (btc(), usdt());
    let mut ledger = MarginManager::new(MarginLotsNull);
    ledger.add_account(7).add_asset_account(&btc);
    ledger
        .add_account(7)
        .transfer(order(&funding(&btc), 7, 1, OrderType::Deposit(500)), 1, &MarginLotsNull)
        .unwrap();
    let account = ledger.add_account(7);
    assert_eq!(account.account_id, 7);
    assert_eq!(account.portfolio.len(), 1);
    account.add_asset_account(&btc).add_asset_account(&usdt).add_asset_account(&btc);
    assert_eq!(account.portfolio.len(), 2);
    assert_eq!(asset_account(account, "BTC").received.quantity_committed, 500);
    assert_eq!(ledger.get_participants().len(), 1);
}

#[test]
fn transfers() {
    let (btc, usdt) = (btc(), usdt());
    let market = btc_usdt(&btc, &usdt);
    let mut account = MarginTradingAccount::new(3);
    assert_eq!(
        account.transfer(order(&market, 3, 1, OrderType::Deposit(10)), 1, &MarginLotsNull),
        Err(Error::UnknownAsset)
    );
    account.add_asset_account(&btc);
    // 0.00010 BTC at market precision is 100 times more at the asset's
    account.transfer(order(&market, 3, 1, OrderType::Deposit(10)), 1, &MarginLotsNull).unwrap();
    assert_eq!(asset_account(&account, "BTC").received.quantity_committed, 1000);
    account.transfer(order(&market, 3, 2, OrderType::Withdraw(25)), 1, &MarginLotsNull).unwrap();
    assert_eq!(net(asset_account(&account, "BTC")), -1500);
    assert_eq!(asset_account(&account, "BTC").delivered.open_lots[0].quantity_left, 1500);
    let limit = OrderType::Limit(LimitOrder { side: Side::Bid, price: 1, quantity: 1 });
    assert_eq!(
        account.transfer(order(&market, 3, 3, limit), 1, &MarginLotsNull),
        Err(Error::InvalidOrderType)
    );
    assert_eq!(
        account.transfer(order(&market, 3, 4, OrderType::Deposit(u64::MAX)), 1, &MarginLotsNull),
        Err(Error::ArithmeticOverflow)
    );
}

#[test]
fn place_then_cancel_restores_the_promises() {
    let (btc, usdt) = (btc(), usdt());
    let market = btc_usdt(&btc, &usdt);
    for side in [Side::Bid, Side::Ask] {
        let mut account = MarginTradingAccount::new(1);
        account.add_asset_account(&btc).add_asset_account(&usdt);
        let o = order(&market, 1, 1, OrderType::Limit(LimitOrder { side, price: 250_000, quantity: 300 }));
        let q = OrderQuantity { order: o, quantity: 300 };
        account.place_order(&q).unwrap();
        let (b, u) = (asset_account(&account, "BTC"), asset_account(&account, "USDT"));
        let promised = (b.received.quantity_open, b.delivered.quantity_open, u.received.quantity_open, u.delivered.quantity_open);
        match side {
            // 0.00300 BTC at 2500.00 USDT is 7.50 USDT
            Side::Bid => assert_eq!(promised, (30000, 0, 0, 750)),
            Side::Ask => assert_eq!(promised, (0, 30000, 750, 0)),
        }
        account.cancel_order(&q).unwrap();
        for a in &account.portfolio {
            assert_eq!((a.received.quantity_open, a.delivered.quantity_open), (0, 0));
        }
    }
}

#[test]
fn ledger_policy_errors() {
    let (btc, usdt) = (btc(), usdt());
    let market = btc_usdt(&btc, &usdt);
    let mut ledger = MarginManager::new(MarginLotsNull);
    let bid = order(&market, 1, 1, OrderType::Limit(LimitOrder { side: Side::Bid, price: 100, quantity: 5 }));
    assert_eq!(
        ledger.place_order(&OrderQuantity { order: bid.clone(), quantity: 0 }),
        Err(Error::NotEnoughQuantity)
    );
    assert_eq!(
        ledger.place_order(&OrderQuantity { order: bid.clone(), quantity: 5 }),
        Err(Error::UnknownParticipant)
    );
    ledger.add_account(1).add_asset_account(&btc);
    assert_eq!(ledger.place_order(&OrderQuantity { order: bid.clone(), quantity: 5 }), Err(Error::UnknownAsset));
    ledger.add_account(1).add_asset_account(&usdt);
    ledger.place_order(&OrderQuantity { order: bid.clone(), quantity: 5 }).unwrap();
    let market_order = order(&market, 1, 2, OrderType::Market(MarketOrder { side: Side::Bid, quantity: 5 }));
    assert_eq!(
        ledger.place_order(&OrderQuantity { order: market_order.clone(), quantity: 5 }),
        Err(Error::InvalidOrderType)
    );
    let mut executed = 0;
    let mut aggressor = OrderQuantity { order: market_order.clone(), quantity: 5 };
    let mut resting = OrderQuantity { order: bid.clone(), quantity: 5 };
    assert_eq!(
        ledger.execute_orders(&mut executed, &mut aggressor, &mut resting),
        Err(Error::NotEnoughQuantity)
    );
    let stranger = order(&market, 9, 1, OrderType::Limit(LimitOrder { side: Side::Ask, price: 100, quantity: 5 }));
    let mut executed = 5;
    let mut other = OrderQuantity { order: stranger, quantity: 5 };
    assert_eq!(
        ledger.execute_orders(&mut executed, &mut other, &mut resting),
        Err(Error::UnknownParticipant)
    );
    assert_eq!((other.quantity, resting.quantity), (5, 5));
}

#[test]
fn promise_overflow_is_reported() {
    let (btc, usdt) = (btc(), usdt());
    let market = btc_usdt(&btc, &usdt);
    let mut account = MarginTradingAccount::new(1);
    account.add_asset_account(&btc).add_asset_account(&usdt);
    let big = order(&market, 1, 1, OrderType::Limit(LimitOrder { side: Side::Ask, price: 1, quantity: u64::MAX / 100 }));
    account.place_order(&OrderQuantity { order: big.clone(), quantity: u64::MAX / 100 }).unwrap();
    assert_eq!(
        account.place_order(&OrderQuantity { order: big, quantity: u64::MAX / 100 }),
        Err(Error::ArithmeticOverflow)
    );
    // the refused second order changed nothing
    assert_eq!(asset_account(&account, "BTC").delivered.quantity_open, u64::MAX / 100 * 100);
    assert_eq!(asset_account(&account, "USDT").received.quantity_open, u64::MAX / 100 / 100_000);
}

#[test]
fn fill_that_one_side_cannot_lock_changes_nothing() {
    let (btc, usdt) = (btc(), usdt());
    let market = btc_usdt(&btc, &usdt);
    let mut ledger = MarginManager::new(MarginLotsNull);
    ledger.add_account(1).add_asset_account(&btc).add_asset_account(&usdt);
    // the book order's participant holds no USDT account
    ledger.add_account(2).add_asset_account(&btc);
    let ask = order(&market, 2, 1, OrderType::Limit(LimitOrder { side: Side::Ask, price: 1_000_000, quantity: 100 }));
    let bid = order(&market, 1, 1, OrderType::Limit(LimitOrder { side: Side::Bid, price: 1_000_000, quantity: 100 }));
    let mut resting = OrderQuantity { order: ask, quantity: 100 };
    let mut aggressor = OrderQuantity { order: bid, quantity: 100 };
    let mut executed = 100;
    assert_eq!(
        ledger.execute_orders(&mut executed, &mut aggressor, &mut resting),
        Err(Error::UnknownAsset)
    );
    assert_eq!((aggressor.quantity, resting.quantity), (100, 100));
    for a in &ledger.get_account(1).unwrap().portfolio {
        assert_eq!((a.received.quantity_locked, a.delivered.quantity_locked), (0, 0));
    }
}

#[test]
fn self_trade_settles_both_legs_in_one_account() {
    let (btc, usdt) = (btc(), usdt());
    let market = btc_usdt(&btc, &usdt);
    let mut ledger = MarginManager::new(MarginLotsNull);
    ledger.add_account(1).add_asset_account(&btc).add_asset_account(&usdt);
    let mut manager = OrderManager::new(OrderBooks::new(vec![OrderBook::new(market.clone())]));
    let ask = LimitOrder { side: Side::Ask, price: 1_000_000, quantity: 100 };
    manager.place_order(order(&market, 1, 1, OrderType::Limit(ask)), &mut ledger, &MarketDataNull).unwrap();
    let bid = LimitOrder { side: Side::Bid, price: 1_000_000, quantity: 100 };
    manager.place_order(order(&market, 1, 2, OrderType::Limit(bid)), &mut ledger, &MarketDataNull).unwrap();
    let account = ledger.get_account(1).unwrap();
    for a in &account.portfolio {
        assert_eq!(net(a), 0);
        assert_eq!((a.received.quantity_locked, a.delivered.quantity_locked), (0, 0));
        assert_eq!((a.received.quantity_open, a.delivered.quantity_open), (0, 0));
    }
}

#[test]
fn opened_lots_account_for_their_quantity() {
    let (btc, usdt) = (btc(), usdt());
    let market = btc_usdt(&btc, &usdt);
    let o = order(&market, 1, 1, OrderType::Deposit(0));
    let mut account = MarginAssetAccount::new(&btc);
    for (receipt, q) in [(true, 10u64), (true, 5), (false, 4), (false, 8), (true, 1)] {
        if receipt {
            account.begin_receipt(q).unwrap();
            account.commit_receipt(q, o.clone(), 1, &MarginLotsNull, 1).unwrap();
        } else {
            account.begin_delivery(q).unwrap();
            account.commit_delivery(q, o.clone(), 1, &MarginLotsNull, 1).unwrap();
        }
    }
    let sides = [&account.received, &account.delivered];
    let mut lots = 0;
    for side in sides {
        for lot in side.open_lots.iter().chain(side.closed_lots.iter()) {
            let opening = lot.transactions[0].executed_quantity;
            let closed: u64 = lot.transactions.iter().skip(1).map(|t| t.executed_quantity).sum();
            assert_eq!(opening, lot.quantity_orig);
            assert_eq!(lot.quantity_orig, lot.quantity_left + closed);
            lots += 1;
        }
    }
    assert_eq!(lots, 3);
    assert_eq!(account.received.closed_lots.len(), 1);
    assert_eq!(account.received.open_lots[0].quantity_left, 3);
}

#[test]
fn self_trade_that_cannot_lock_changes_nothing() {
    let (btc, usdt) = (btc(), usdt());
    let market = btc_usdt(&btc, &usdt);
    let mut ledger = MarginManager::new(MarginLotsNull);
    ledger.add_account(1).add_asset_account(&btc).add_asset_account(&usdt);
    let ask = order(&market, 1, 1, OrderType::Limit(LimitOrder { side: Side::Ask, price: 1_000_000, quantity: 100_000 }));
    let bid = order(&market, 1, 2, OrderType::Market(MarketOrder { side: Side::Bid, quantity: 100_000 }));
    let mut resting = OrderQuantity { order: ask, quantity: 100_000 };
    let mut aggressor = OrderQuantity { order: bid, quantity: 100_000 };
    let mut executed = 100_000;
    // the aggressor's leg (BTC received, USDT delivered) can lock; the book
    // order's leg (BTC delivered) cannot
    ledger.add_account(1).portfolio[0].delivered.quantity_locked = u64::MAX - 10;
    assert_eq!(
        ledger.execute_orders(&mut executed, &mut aggressor, &mut resting),
        Err(Error::ArithmeticOverflow)
    );
    let account = ledger.get_account(1).unwrap();
    assert_eq!(account.portfolio[0].received.quantity_locked, 0);
    assert_eq!(account.portfolio[1].delivered.quantity_locked, 0);
    assert_eq!(account.portfolio[0].delivered.quantity_locked, u64::MAX - 10);
    assert_eq!((aggressor.quantity, resting.quantity), (100_000, 100_000));
}

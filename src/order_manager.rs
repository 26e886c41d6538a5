use std::collections::HashMap;
use std::rc::Rc;
use vstd::prelude::*;

use crate::error::Error;
use crate::execution_policy::ExecutionPolicy;
use crate::market_data_policy::MarketDataPolicy;
use crate::order::{Order, OrderType};
use crate::order_book::{order_cancelled, order_placed, OrderBook};

verus! {

broadcast use vstd::std_specs::hash::group_hash_axioms;

/// `i` is the first position in `books` of the book for the market named
/// `symbol`.
pub open spec fn is_first_book(books: Seq<OrderBook>, symbol: Seq<char>, i: int) -> bool {
    &&& 0 <= i < books.len()
    &&& books[i].spec_market().symbol@ == symbol
    &&& forall|j: int| 0 <= j < i ==> (#[trigger] books[j]).spec_market().symbol@ != symbol
}

/// Position of the book for the market named `symbol`, or -1.
pub open spec fn book_position(books: Seq<OrderBook>, symbol: Seq<char>) -> int {
    if exists|i: int| is_first_book(books, symbol, i) {
        choose|i: int| is_first_book(books, symbol, i)
    } else {
        -1
    }
}

proof fn lemma_first_book_unique(books: Seq<OrderBook>, symbol: Seq<char>, i: int)
    requires
        is_first_book(books, symbol, i),
    ensures
        book_position(books, symbol) == i,
{
    let k = book_position(books, symbol);
    assert(is_first_book(books, symbol, k));
    if k < i {
        assert(books[k].spec_market().symbol@ != symbol);
    } else if i < k {
        assert(books[i].spec_market().symbol@ != symbol);
    }
}

/// The order books of all markets, found by market symbol.
pub struct OrderBooks {
    books: Vec<OrderBook>,
}

impl OrderBooks {
    pub closed spec fn spec_books(&self) -> Seq<OrderBook> {
        self.books@
    }

    /// Every book is well formed.
    pub open spec fn wf(&self) -> bool {
        forall|i: int| 0 <= i < self.spec_books().len() ==> (#[trigger] self.spec_books()[i]).wf()
    }

    /// A registry of `books`.
    pub fn new(books: Vec<OrderBook>) -> (r: Self)
        requires
            forall|i: int| 0 <= i < books@.len() ==> (#[trigger] books@[i]).wf(),
        ensures
            r.wf(),
            r.spec_books() == books@,
    {
        Self { books }
    }

    /// Position of the book for the market named `symbol`.
    fn find_book(&self, symbol: &String) -> (r: Option<usize>)
        ensures
            book_position(self.spec_books(), symbol@) >= 0 ==> r == Some(
                book_position(self.spec_books(), symbol@) as usize,
            ) && book_position(self.spec_books(), symbol@) < self.spec_books().len()
                && book_position(self.spec_books(), symbol@) <= usize::MAX,
            book_position(self.spec_books(), symbol@) < 0 ==> r is None,
    {
        let mut i: usize = 0;
        while i < self.books.len()
            invariant
                i <= self.books@.len(),
                forall|j: int| 0 <= j < i ==> (#[trigger] self.books@[j]).spec_market().symbol@ != symbol@,
            decreases self.books@.len() - i,
        {
            if self.books[i].market().symbol == *symbol {
                proof {
                    lemma_first_book_unique(self.books@, symbol@, i as int);
                }
                return Some(i);
            }
            i = i + 1;
        }
        proof {
            if book_position(self.books@, symbol@) >= 0 {
                let k = book_position(self.books@, symbol@);
                assert(is_first_book(self.books@, symbol@, k));
            }
        }
        None
    }
}

/// Finds the order book of a market by the market's symbol.
pub trait OrderBookManager {
    /// The book for the market named `symbol`, if any.
    fn get_order_book(&self, symbol: &String) -> Option<&OrderBook>;
}

impl OrderBookManager for OrderBooks {
    fn get_order_book(&self, symbol: &String) -> (r: Option<&OrderBook>)
        ensures
            book_position(self.spec_books(), symbol@) >= 0 ==> r == Some(
                &self.spec_books()[book_position(self.spec_books(), symbol@)],
            ),
            book_position(self.spec_books(), symbol@) < 0 ==> r is None,
    {
        match self.find_book(symbol) {
            Some(i) => Some(&self.books[i]),
            None => None,
        }
    }
}

/// Routes orders to the book of their market and keeps the index of live
/// limit orders by participant and order id, which cancels go through.
pub struct OrderManager {
    book_manager: OrderBooks,
    orders: HashMap<usize, HashMap<usize, Rc<Order>>>,
}

impl OrderManager {
    pub closed spec fn spec_books(&self) -> OrderBooks {
        self.book_manager
    }

    /// The live orders, by `(participant_id, order_id)`.
    pub closed spec fn index(&self) -> Map<(usize, usize), Rc<Order>> {
        Map::new(
            |k: (usize, usize)| self.orders@.contains_key(k.0) && self.orders@[k.0]@.contains_key(k.1),
            |k: (usize, usize)| self.orders@[k.0]@[k.1],
        )
    }

    /// The books are well formed.
    pub open spec fn wf(&self) -> bool {
        self.spec_books().wf()
    }

    /// A manager over `book_manager` with no live orders.
    pub fn new(book_manager: OrderBooks) -> (r: Self)
        requires
            book_manager.wf(),
        ensures
            r.wf(),
            r.spec_books() == book_manager,
            r.index() == Map::<(usize, usize), Rc<Order>>::empty(),
    {
        let r = Self { book_manager, orders: HashMap::new() };
        proof {
            assert(r.index() =~= Map::<(usize, usize), Rc<Order>>::empty());
        }
        r
    }

    /// `new` has the books of `self`, but for the book at `b`.
    pub open spec fn other_books_unchanged(self, new: OrderManager, b: int) -> bool {
        let old_books = self.spec_books().spec_books();
        let new_books = new.spec_books().spec_books();
        &&& new_books.len() == old_books.len()
        &&& forall|i: int| 0 <= i < old_books.len() && i != b ==> #[trigger] new_books[i] == old_books[i]
    }

    /// Places `order` on the book of its market. A cancel withdraws the live
    /// limit order with the same participant and order id, found through
    /// the index, and drops it from the index; any other order is refused
    /// when its ids are live, and a limit order that the book accepts joins
    /// the index.
    pub fn place_order<E: ExecutionPolicy, M: MarketDataPolicy>(
        &mut self,
        order: Rc<Order>,
        execution_policy: &mut E,
        market_data_policy: &M,
    ) -> (r: Result<(), Error>)
        requires
            old(self).wf(),
        ensures
            final(self).wf(),
            ({
                let key = (order.participant_id, order.order_id);
                let books = old(self).spec_books().spec_books();
                let new_books = final(self).spec_books().spec_books();
                match order.order_data {
                    OrderType::Cancel => {
                        let live = old(self).index()[key];
                        let b = book_position(books, live.market.symbol@);
                        &&& !old(self).index().contains_key(key) ==> r == Err::<(), Error>(
                            Error::UnknownOrder,
                        ) && new_books == books
                        &&& (old(self).index().contains_key(key) && b < 0) ==> r == Err::<(), Error>(
                            Error::UnknownOrderBook,
                        ) && new_books == books
                        &&& (old(self).index().contains_key(key) && b >= 0) ==> {
                            &&& old(self).other_books_unchanged(*final(self), b)
                            &&& order_cancelled(books[b], new_books[b], *live, r, *old(execution_policy))
                        }
                        &&& r is Ok ==> final(self).index() == old(self).index().remove(key)
                        &&& r is Err ==> final(self).index() == old(self).index()
                    },
                    _ => {
                        let b = book_position(books, order.market.symbol@);
                        &&& old(self).index().contains_key(key) ==> r == Err::<(), Error>(
                            Error::DuplicateOrder,
                        ) && new_books == books
                        &&& (!old(self).index().contains_key(key) && b < 0) ==> r == Err::<(), Error>(
                            Error::UnknownOrderBook,
                        ) && new_books == books
                        &&& (!old(self).index().contains_key(key) && b >= 0) ==> {
                            &&& old(self).other_books_unchanged(*final(self), b)
                            &&& order_placed(books[b], new_books[b], order, r, *old(execution_policy))
                        }
                        &&& (r is Ok && order.order_data is Limit) ==> final(self).index()
                            == old(self).index().insert(key, order)
                        &&& !(r is Ok && order.order_data is Limit) ==> final(self).index()
                            == old(self).index()
                    },
                }
            }),
    {
        let participant_id = order.participant_id;
        let order_id = order.order_id;
        let ghost old_index = self.index();
        if let OrderType::Cancel = order.order_data {
            let live = match self.get_order(participant_id, order_id) {
                Some(live) => live,
                None => {
                    return Err(Error::UnknownOrder);
                },
            };
            let b = match self.book_manager.find_book(&live.market.symbol) {
                Some(b) => b,
                None => {
                    return Err(Error::UnknownOrderBook);
                },
            };
            let ghost old_books = self.book_manager.books@;
            let cancelled = self.book_manager.books[b].cancel_order(
                &live,
                execution_policy,
                market_data_policy,
            );
            proof {
                assert(self.book_manager.books@ == old_books.update(b as int, self.book_manager.books@[b as int]));
            }
            if cancelled.is_ok() {
                let mut by_id = self.orders.remove(&participant_id).unwrap();
                by_id.remove(&order_id);
                self.orders.insert(participant_id, by_id);
                proof {
                    assert(self.index() =~= old_index.remove((participant_id, order_id)));
                }
            }
            cancelled
        } else {
            if self.get_order(participant_id, order_id).is_some() {
                return Err(Error::DuplicateOrder);
            }
            let b = match self.book_manager.find_book(&order.market.symbol) {
                Some(b) => b,
                None => {
                    return Err(Error::UnknownOrderBook);
                },
            };
            let ghost old_books = self.book_manager.books@;
            let placed = self.book_manager.books[b].place_order(
                order.clone(),
                execution_policy,
                market_data_policy,
            );
            proof {
                assert(self.book_manager.books@ == old_books.update(b as int, self.book_manager.books@[b as int]));
            }
            if placed.is_ok() {
                if let OrderType::Limit(_) = order.order_data {
                    let by_id = self.orders.entry(participant_id).or_insert(HashMap::new());
                    by_id.insert(order_id, order);
                    proof {
                        assert(self.index() =~= old_index.insert((participant_id, order_id), order));
                    }
                }
            }
            placed
        }
    }

    /// The registry of books.
    pub fn books(&self) -> (r: &OrderBooks)
        ensures
            *r == self.spec_books(),
    {
        &self.book_manager
    }

    /// The live order `(participant_id, order_id)`, if any.
    pub fn get_order(&self, participant_id: usize, order_id: usize) -> (r: Option<Rc<Order>>)
        ensures
            self.index().contains_key((participant_id, order_id)) ==> r == Some(
                self.index()[(participant_id, order_id)],
            ),
            !self.index().contains_key((participant_id, order_id)) ==> r is None,
    {
        match self.orders.get(&participant_id) {
            Some(by_id) => match by_id.get(&order_id) {
                Some(order) => Some(order.clone()),
                None => None,
            },
            None => None,
        }
    }
}

} // verus!

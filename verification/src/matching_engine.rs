//! An order book: resting orders grouped by price, bids on one side and
//! asks on the other.
//!
//! The book is generic in what an order is. It only files orders; it reads
//! nothing from them.

use vstd::prelude::*;

verus! {

/// The side of the book an order is on.
#[derive(Clone, Copy, Debug, PartialEq, Eq, Structural)]
pub enum BidOrAsk {
    /// An offer to buy.
    Bid,
    /// An offer to sell.
    Ask,
}

/// A price in fixed point: `integral + fractional / scalar`.
#[derive(Clone, Copy, Debug, PartialEq, Eq, Hash, Structural)]
pub struct Price {
    pub integral: u64,
    pub fractional: u64,
    pub scalar: u64,
}

/// The orders resting at one price, in the order they arrived.
#[derive(Debug)]
pub struct Limit<O> {
    price: Price,
    orders: Vec<O>,
}

impl<O> Limit<O> {
    /// The price that the orders rest at.
    pub closed spec fn price(&self) -> Price {
        self.price
    }

    /// The orders, oldest first.
    pub closed spec fn orders(&self) -> Seq<O> {
        self.orders@
    }

    /// A limit at `price` with no orders yet.
    pub fn new(price: Price) -> (r: Limit<O>)
        ensures
            r.price() == price,
            r.orders() == Seq::<O>::empty(),
    {
        Limit { price, orders: Vec::new() }
    }

    /// Files `order` behind the orders already resting here.
    pub fn add_order(&mut self, order: O)
        ensures
            final(self).price() == old(self).price(),
            final(self).orders() == old(self).orders().push(order),
    {
        self.orders.push(order);
    }

    /// The price that the orders rest at.
    pub fn get_price(&self) -> (r: Price)
        ensures
            r == self.price(),
    {
        self.price
    }

    /// The order at position `i`, counting from the oldest, if there are
    /// that many.
    pub fn order_at(&self, i: usize) -> (r: Option<&O>)
        ensures
            match r {
                Some(order) => i < self.orders().len() && *order == self.orders()[i as int],
                None => i >= self.orders().len(),
            },
    {
        if i < self.orders.len() {
            Some(&self.orders[i])
        } else {
            None
        }
    }

    /// How many orders rest here.
    pub fn len(&self) -> (r: usize)
        ensures
            r == self.orders().len(),
    {
        self.orders.len()
    }
}

/// Position `i` of `limits` is the limit at `price`.
pub open spec fn limit_at<O>(limits: Seq<Limit<O>>, price: Price, i: int) -> bool {
    0 <= i < limits.len() && limits[i].price() == price
}

/// No price has two limits.
pub open spec fn distinct_prices<O>(limits: Seq<Limit<O>>) -> bool {
    forall|i: int, j: int|
        0 <= i < limits.len() && 0 <= j < limits.len() && i != j ==> (#[trigger] limits[i]).price()
            != (#[trigger] limits[j]).price()
}

/// The map from each price with a limit to the orders resting there.
pub open spec fn orders_by_price<O>(limits: Seq<Limit<O>>) -> Map<Price, Seq<O>> {
    Map::new(
        |price: Price| exists|i: int| limit_at(limits, price, i),
        |price: Price| limits[choose|i: int| limit_at(limits, price, i)].orders(),
    )
}

/// Where prices are distinct, the limit at a position holds the orders of
/// its price.
pub proof fn lemma_orders_at<O>(limits: Seq<Limit<O>>, i: int)
    requires
        distinct_prices(limits),
        0 <= i < limits.len(),
    ensures
        orders_by_price(limits).dom().contains(limits[i].price()),
        orders_by_price(limits)[limits[i].price()] == limits[i].orders(),
{
    let price = limits[i].price();
    assert(limit_at(limits, price, i));
    let j = choose|j: int| limit_at(limits, price, j);
    assert(limit_at(limits, price, j));
    if j != i {
        assert(limits[i].price() != limits[j].price());
    }
}

/// What filing `order` at `price` makes of one side of a book: the orders
/// at that price, none if the price is new, with `order` behind them; all
/// other prices as they were.
pub open spec fn with_order<O>(side: Map<Price, Seq<O>>, price: Price, order: O) -> Map<
    Price,
    Seq<O>,
> {
    let resting = if side.dom().contains(price) {
        side[price]
    } else {
        Seq::<O>::empty()
    };
    side.insert(price, resting.push(order))
}

/// The position of the limit at `price` among `limits`, if there is one.
fn find_limit<O>(limits: &Vec<Limit<O>>, price: Price) -> (r: Option<usize>)
    ensures
        match r {
            Some(at) => limit_at(limits@, price, at as int),
            None => forall|j: int| !limit_at(limits@, price, j),
        },
{
    let mut i: usize = 0;
    while i < limits.len()
        invariant
            i <= limits.len(),
            forall|j: int| 0 <= j < i ==> !limit_at(limits@, price, j),
        decreases limits.len() - i,
    {
        if limits[i].get_price() == price {
            return Some(i);
        }
        i += 1;
    }
    None
}

/// Filing an order behind those of the limit at position `at` adds it to
/// the orders of that limit's price, and changes nothing else.
pub proof fn lemma_orders_after_filing<O>(
    before: Seq<Limit<O>>,
    after: Seq<Limit<O>>,
    at: int,
    order: O,
)
    requires
        distinct_prices(before),
        0 <= at < before.len(),
        after.len() == before.len(),
        forall|j: int| 0 <= j < before.len() && j != at ==> after[j] == before[j],
        after[at].price() == before[at].price(),
        after[at].orders() == before[at].orders().push(order),
    ensures
        distinct_prices(after),
        orders_by_price(after) == with_order(orders_by_price(before), before[at].price(), order),
{
    let price = before[at].price();
    let expected = with_order(orders_by_price(before), price, order);
    lemma_orders_at(before, at);
    assert forall|j: int| 0 <= j < after.len() implies (#[trigger] after[j]).price()
        == before[j].price() by {}
    assert(distinct_prices(after));
    assert forall|p: Price|
        orders_by_price(after).dom().contains(p) <==> #[trigger] expected.dom().contains(p) by {
        if orders_by_price(after).dom().contains(p) {
            let j = choose|j: int| limit_at(after, p, j);
            assert(limit_at(before, p, j));
        }
        if orders_by_price(before).dom().contains(p) {
            let j = choose|j: int| limit_at(before, p, j);
            assert(limit_at(after, p, j));
        }
        assert(limit_at(after, price, at));
    }
    assert forall|p: Price| #[trigger]
        orders_by_price(after).dom().contains(p) implies orders_by_price(after)[p]
        == expected[p] by {
        let j = choose|j: int| limit_at(after, p, j);
        lemma_orders_at(after, j);
        if p != price {
            assert(limit_at(before, p, j));
            lemma_orders_at(before, j);
        } else {
            lemma_orders_at(after, at);
        }
    }
    assert(orders_by_price(after) =~= expected);
}

/// Opening a limit with one order at a price that had none adds that price
/// with that order, and changes nothing else.
pub proof fn lemma_orders_after_opening<O>(before: Seq<Limit<O>>, opened: Limit<O>, order: O)
    requires
        distinct_prices(before),
        forall|j: int| !limit_at(before, opened.price(), j),
        opened.orders() == Seq::<O>::empty().push(order),
    ensures
        distinct_prices(before.push(opened)),
        orders_by_price(before.push(opened)) == with_order(
            orders_by_price(before),
            opened.price(),
            order,
        ),
{
    let after = before.push(opened);
    let last = before.len() as int;
    let price = opened.price();
    let expected = with_order(orders_by_price(before), price, order);
    assert(!orders_by_price(before).dom().contains(price)) by {
        if orders_by_price(before).dom().contains(price) {
            let j = choose|j: int| limit_at(before, price, j);
            assert(!limit_at(before, price, j));
        }
    }
    assert forall|a: int, b: int|
        0 <= a < after.len() && 0 <= b < after.len() && a != b implies (#[trigger] after[a]).price()
        != (#[trigger] after[b]).price() by {
        if a == last {
            assert(!limit_at(before, price, b));
        } else if b == last {
            assert(!limit_at(before, price, a));
        } else {
            assert(before[a].price() != before[b].price());
        }
    }
    assert(distinct_prices(after));
    assert forall|p: Price|
        orders_by_price(after).dom().contains(p) <==> #[trigger] expected.dom().contains(p) by {
        if orders_by_price(after).dom().contains(p) {
            let j = choose|j: int| limit_at(after, p, j);
            if j != last {
                assert(limit_at(before, p, j));
            }
        }
        if orders_by_price(before).dom().contains(p) {
            let j = choose|j: int| limit_at(before, p, j);
            assert(limit_at(after, p, j));
        }
        assert(limit_at(after, price, last));
    }
    assert forall|p: Price| #[trigger]
        orders_by_price(after).dom().contains(p) implies orders_by_price(after)[p]
        == expected[p] by {
        let j = choose|j: int| limit_at(after, p, j);
        lemma_orders_at(after, j);
        if p != price {
            assert(limit_at(before, p, j));
            lemma_orders_at(before, j);
        } else {
            lemma_orders_at(after, last);
        }
    }
    assert(orders_by_price(after) =~= expected);
}

/// Files `order` at `price` among `limits`, opening a limit where the price
/// has none.
fn file_order<O>(limits: &mut Vec<Limit<O>>, price: Price, order: O)
    requires
        distinct_prices(old(limits)@),
    ensures
        distinct_prices(final(limits)@),
        orders_by_price(final(limits)@) == with_order(orders_by_price(old(limits)@), price, order),
{
    let ghost before = limits@;
    match find_limit(limits, price) {
        Some(at) => {
            limits[at].add_order(order);
            proof {
                lemma_orders_after_filing(before, limits@, at as int, order);
            }
        },
        None => {
            let mut limit = Limit::new(price);
            limit.add_order(order);
            proof {
                lemma_orders_after_opening(before, limit, order);
            }
            limits.push(limit);
        },
    }
}

/// The resting orders of one market.
#[derive(Debug)]
pub struct Orderbook<O> {
    asks: Vec<Limit<O>>,
    bids: Vec<Limit<O>>,
}

impl<O> Orderbook<O> {
    /// No price has two limits on the same side.
    pub closed spec fn wf(&self) -> bool {
        distinct_prices(self.asks@) && distinct_prices(self.bids@)
    }

    /// The orders resting on `side`, by price, each price's orders oldest
    /// first.
    pub closed spec fn side(&self, side: BidOrAsk) -> Map<Price, Seq<O>> {
        match side {
            BidOrAsk::Bid => orders_by_price(self.bids@),
            BidOrAsk::Ask => orders_by_price(self.asks@),
        }
    }

    /// A book with no orders.
    pub fn new() -> (r: Orderbook<O>)
        ensures
            r.wf(),
            r.side(BidOrAsk::Bid) == Map::<Price, Seq<O>>::empty(),
            r.side(BidOrAsk::Ask) == Map::<Price, Seq<O>>::empty(),
    {
        let r = Orderbook { asks: Vec::new(), bids: Vec::new() };
        proof {
            assert(r.side(BidOrAsk::Bid) =~= Map::<Price, Seq<O>>::empty());
            assert(r.side(BidOrAsk::Ask) =~= Map::<Price, Seq<O>>::empty());
        }
        r
    }

    /// Files `order` on `bid_or_ask` at `price`, behind the orders already
    /// resting there. The other side stays as it was.
    pub fn add_order(&mut self, price: Price, bid_or_ask: BidOrAsk, order: O)
        requires
            old(self).wf(),
        ensures
            final(self).wf(),
            final(self).side(bid_or_ask) == with_order(old(self).side(bid_or_ask), price, order),
            forall|other: BidOrAsk|
                other != bid_or_ask ==> final(self).side(other) == old(self).side(other),
    {
        match bid_or_ask {
            BidOrAsk::Bid => file_order(&mut self.bids, price, order),
            BidOrAsk::Ask => file_order(&mut self.asks, price, order),
        }
    }

    /// The limit at `price` on `side`, if any order rests there.
    pub fn limit(&self, side: BidOrAsk, price: Price) -> (r: Option<&Limit<O>>)
        requires
            self.wf(),
        ensures
            match r {
                Some(limit) => {
                    &&& self.side(side).dom().contains(price)
                    &&& limit.price() == price
                    &&& limit.orders() == self.side(side)[price]
                },
                None => !self.side(side).dom().contains(price),
            },
    {
        let limits = match side {
            BidOrAsk::Bid => &self.bids,
            BidOrAsk::Ask => &self.asks,
        };
        match find_limit(limits, price) {
            Some(at) => {
                proof {
                    lemma_orders_at(limits@, at as int);
                }
                Some(&limits[at])
            },
            None => {
                proof {
                    if orders_by_price(limits@).dom().contains(price) {
                        let j = choose|j: int| limit_at(limits@, price, j);
                        assert(!limit_at(limits@, price, j));
                    }
                }
                None
            },
        }
    }
}

/// A market: the asset traded (base) and the asset it is priced in (quote).
#[derive(Clone, PartialEq, Eq, Hash)]
pub struct TradingPair {
    base: String,
    quote: String,
}

impl TradingPair {
    /// The name of the asset traded.
    pub closed spec fn base(&self) -> Seq<char> {
        self.base@
    }

    /// The name of the asset it is priced in.
    pub closed spec fn quote(&self) -> Seq<char> {
        self.quote@
    }

    /// The market that trades `base` against `quote`.
    pub fn new(base: String, quote: String) -> (r: TradingPair)
        ensures
            r.base() == base@,
            r.quote() == quote@,
    {
        TradingPair { base, quote }
    }
}

} // verus!

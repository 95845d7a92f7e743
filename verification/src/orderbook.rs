//! The price-time-priority order book: market orders first, then finite
//! prices (bids descending, asks ascending), FIFO within a price; matching
//! walks the opposite side from the best price outward.
use crate::amount::{Amount64, Price, PRICE_MARKET_RAW};
use crate::order::{spec_fill, ConsolidatedOrder, Order, OrderSide};
use vstd::prelude::*;

verus! {

/// The incoming order as `add_order` hands it back: its id when it rests,
/// the whole record when it retired fully filled.
#[derive(Clone, Copy, PartialEq, Debug)]
pub enum OrderOrId {
    Id(u64),
    Order(Order),
}

/// What one `add_order` call produced: the incoming order's fate and every
/// resting order it filled and removed.
#[derive(Clone, PartialEq, Debug)]
pub struct OrderOutput {
    pub order: OrderOrId,
    pub affected: Vec<Order>,
}

/// Whether a price is the market sentinel.
pub open spec fn spec_is_market(p: Price) -> bool {
    p.0.0 == PRICE_MARKET_RAW
}

/// Whether `a` may stand before `b` on the side `side` stores: market
/// entries first, then bids descending or asks ascending.
pub open spec fn spec_ahead(a: Order, b: Order, side: OrderSide) -> bool {
    match side {
        OrderSide::Buy => spec_is_market(a.limit) || (!spec_is_market(b.limit) && a.limit.0.0
            >= b.limit.0.0),
        OrderSide::Sell => spec_is_market(a.limit) || (!spec_is_market(b.limit) && a.limit.0.0
            <= b.limit.0.0),
    }
}

/// A side is sorted when every pair stands in order.
pub open spec fn spec_sorted(s: Seq<Order>, side: OrderSide) -> bool {
    forall|i: int, j: int| 0 <= i < j < s.len() ==> spec_ahead(#[trigger] s[i], #[trigger] s[j], side)
}

/// Every order on a side is well formed.
pub open spec fn spec_all_wf(s: Seq<Order>) -> bool {
    forall|i: int| 0 <= i < s.len() ==> (#[trigger] s[i]).wf()
}

/// The walk stops at a finite resting order strictly worse than a finite
/// incoming limit: a resting ask above a buy limit, a resting bid below a
/// sell limit.
pub open spec fn spec_stops(resting: Order, inc: Order) -> bool {
    match inc.side {
        OrderSide::Buy => resting.limit.0.0 > inc.limit.0.0,
        OrderSide::Sell => resting.limit.0.0 < inc.limit.0.0,
    }
}

/// The price a trade prints at: the incoming limit, or the resting limit
/// when the incoming order is market.
pub open spec fn spec_trade_price(resting: Order, inc: Order) -> Price {
    if spec_is_market(inc.limit) {
        resting.limit
    } else {
        inc.limit
    }
}

/// The open quantity of an order.
pub open spec fn spec_qty_left(o: Order) -> int {
    o.qty.0 - o.filled_qty.0
}

/// The traded quantity: the smaller open quantity.
pub open spec fn spec_trade_qty(resting: Order, inc: Order) -> u64 {
    if spec_qty_left(inc) >= spec_qty_left(resting) {
        (resting.qty.0 - resting.filled_qty.0) as u64
    } else {
        (inc.qty.0 - inc.filled_qty.0) as u64
    }
}

/// Whether an order is fully filled.
pub open spec fn spec_filled(o: Order) -> bool {
    o.filled_qty.0 == o.qty.0
}

/// The matching walk from index `i`: skip market-against-market, stop at a
/// finite resting order worse than a finite incoming limit, otherwise trade
/// the smaller open quantity at the trade price; a rejected fill aborts the
/// walk. Yields the remaining opposite side, the incoming order after its
/// fills, and the resting orders filled and removed, in walk order.
pub open spec fn spec_match_walk(opp: Seq<Order>, i: int, inc: Order) -> (
    Seq<Order>,
    Order,
    Seq<Order>,
)
    decreases opp.len() - i, opp.len(),
{
    if i < 0 || i >= opp.len() {
        (opp, inc, Seq::empty())
    } else {
        let o = opp[i];
        if spec_is_market(o.limit) && spec_is_market(inc.limit) {
            spec_match_walk(opp, i + 1, inc)
        } else if !spec_is_market(o.limit) && !spec_is_market(inc.limit) && spec_stops(o, inc) {
            (opp, inc, Seq::empty())
        } else {
            let price = spec_trade_price(o, inc);
            let tq = Amount64(spec_trade_qty(o, inc));
            let f_inc = spec_fill(inc, price, tq);
            let f_o = spec_fill(o, price, tq);
            if f_inc is None || f_o is None {
                (opp, inc, Seq::empty())
            } else {
                let inc2 = f_inc.unwrap();
                let o2 = f_o.unwrap();
                if spec_filled(o2) {
                    let opp2 = opp.remove(i);
                    if spec_filled(inc2) {
                        (opp2, inc2, seq![o2])
                    } else {
                        let rest = spec_match_walk(opp2, i, inc2);
                        (rest.0, rest.1, seq![o2] + rest.2)
                    }
                } else {
                    let opp2 = opp.update(i, o2);
                    if spec_filled(inc2) {
                        (opp2, inc2, Seq::empty())
                    } else {
                        spec_match_walk(opp2, i + 1, inc2)
                    }
                }
            }
        }
    }
}

/// Where a residual order is inserted on its own side: before the first
/// finite resting order that must stand after it.
pub open spec fn spec_insert_cond(resting: Order, inc: Order) -> bool {
    !spec_is_market(resting.limit) && (spec_is_market(inc.limit) || (match inc.side {
        OrderSide::Buy => resting.limit.0.0 < inc.limit.0.0,
        OrderSide::Sell => resting.limit.0.0 > inc.limit.0.0,
    }))
}

/// The index the residual order lands at.
pub open spec fn spec_insert_pos(s: Seq<Order>, inc: Order) -> int
    decreases s.len(),
{
    if s.len() == 0 {
        0
    } else if spec_insert_cond(s[0], inc) {
        0
    } else {
        1 + spec_insert_pos(s.drop_first(), inc)
    }
}

/// The insert position is the first index whose entry satisfies the insert
/// rule, and it stays within the side.
pub proof fn lemma_insert_pos_props(s: Seq<Order>, inc: Order)
    ensures
        0 <= spec_insert_pos(s, inc) <= s.len(),
        forall|k: int| 0 <= k < spec_insert_pos(s, inc) ==> !spec_insert_cond(#[trigger] s[k], inc),
        spec_insert_pos(s, inc) < s.len() ==> spec_insert_cond(s[spec_insert_pos(s, inc)], inc),
    decreases s.len(),
{
    if s.len() == 0 {
    } else if spec_insert_cond(s[0], inc) {
    } else {
        lemma_insert_pos_props(s.drop_first(), inc);
        let p = spec_insert_pos(s, inc);
        assert forall|k: int| 0 <= k < p implies !spec_insert_cond(#[trigger] s[k], inc) by {
            if k > 0 {
                assert(s[k] == s.drop_first()[k - 1]);
            }
        }
        if p < s.len() {
            assert(s[p] == s.drop_first()[p - 1]);
        }
    }
}

/// Scanning a prefix that nowhere satisfies the insert rule pins the
/// position: it is the first index that does, or the length.
pub proof fn lemma_insert_pos_at(s: Seq<Order>, inc: Order, j: int)
    requires
        0 <= j <= s.len(),
        forall|k: int| 0 <= k < j ==> !spec_insert_cond(#[trigger] s[k], inc),
        j < s.len() ==> spec_insert_cond(s[j], inc),
    ensures
        spec_insert_pos(s, inc) == j,
    decreases j,
{
    if s.len() == 0 {
    } else if j == 0 {
    } else {
        assert(!spec_insert_cond(s[0], inc));
        assert forall|k: int| 0 <= k < j - 1 implies !spec_insert_cond(
            #[trigger] s.drop_first()[k],
            inc,
        ) by {
            assert(s.drop_first()[k] == s[k + 1]);
        }
        if j - 1 < s.drop_first().len() {
            assert(s.drop_first()[j - 1] == s[j]);
        }
        lemma_insert_pos_at(s.drop_first(), inc, j - 1);
    }
}

/// One side of the consolidated book folded so far, or `None` where a
/// quantity sum leaves the raw range: walk the side; a row whose price
/// repeats the previous row's is merged into it; a fully filled order at a
/// new price is skipped without touching the previous price; otherwise a new
/// row opens.
pub open spec fn spec_consolidate(
    s: Seq<Order>,
    i: int,
    rows: Seq<ConsolidatedOrder>,
    prev: Option<u64>,
) -> Option<Seq<ConsolidatedOrder>>
    decreases s.len() - i,
{
    if i < 0 || i >= s.len() {
        Some(rows)
    } else {
        let o = s[i];
        let same = match prev {
            Some(p) => p == o.limit.0.0,
            None => false,
        };
        if same {
            let last = rows[rows.len() - 1];
            if last.qty.0 + o.qty.0 > u64::MAX || rows.len() == 0 {
                None
            } else {
                spec_consolidate(
                    s,
                    i + 1,
                    rows.update(
                        rows.len() - 1,
                        ConsolidatedOrder { qty: Amount64((last.qty.0 + o.qty.0) as u64), ..last },
                    ),
                    Some(o.limit.0.0),
                )
            }
        } else if spec_filled(o) {
            spec_consolidate(s, i + 1, rows, prev)
        } else {
            spec_consolidate(
                s,
                i + 1,
                rows.push(
                    ConsolidatedOrder {
                        symbol: o.symbol,
                        side: o.side,
                        limit: o.limit,
                        qty: o.qty,
                    },
                ),
                Some(o.limit.0.0),
            )
        }
    }
}

/// A read-only per-side aggregation of the book.
#[derive(Clone, PartialEq, Debug)]
pub struct ConsolidatedOrderBook {
    bids: Vec<ConsolidatedOrder>,
    asks: Vec<ConsolidatedOrder>,
}

impl ConsolidatedOrderBook {
    pub closed spec fn spec_bids(&self) -> Seq<ConsolidatedOrder> {
        self.bids@
    }

    pub closed spec fn spec_asks(&self) -> Seq<ConsolidatedOrder> {
        self.asks@
    }

    pub fn new() -> (r: ConsolidatedOrderBook)
        ensures
            r.spec_bids() == Seq::<ConsolidatedOrder>::empty(),
            r.spec_asks() == Seq::<ConsolidatedOrder>::empty(),
    {
        ConsolidatedOrderBook { bids: Vec::new(), asks: Vec::new() }
    }

    pub fn bids(&self) -> (r: &Vec<ConsolidatedOrder>)
        ensures
            r@ == self.spec_bids(),
    {
        &self.bids
    }

    pub fn asks(&self) -> (r: &Vec<ConsolidatedOrder>)
        ensures
            r@ == self.spec_asks(),
    {
        &self.asks
    }
}

/// The first order with the given id, bids searched before asks.
pub open spec fn spec_find_order(s: Seq<Order>, id: u64) -> Option<Order>
    decreases s.len(),
{
    if s.len() == 0 {
        None
    } else if s[0].id == id {
        Some(s[0])
    } else {
        spec_find_order(s.drop_first(), id)
    }
}

/// The book: two ordered sides.
#[derive(Clone, PartialEq, Debug)]
pub struct OrderBook {
    bids: Vec<Order>,
    asks: Vec<Order>,
}

impl OrderBook {
    pub closed spec fn spec_bids(&self) -> Seq<Order> {
        self.bids@
    }

    pub closed spec fn spec_asks(&self) -> Seq<Order> {
        self.asks@
    }

    /// Both sides sorted per the price-time rule, every order well formed.
    pub open spec fn wf(&self) -> bool {
        &&& spec_all_wf(self.spec_bids())
        &&& spec_all_wf(self.spec_asks())
        &&& spec_sorted(self.spec_bids(), OrderSide::Buy)
        &&& spec_sorted(self.spec_asks(), OrderSide::Sell)
    }

    pub fn new() -> (r: OrderBook)
        ensures
            r.spec_bids() == Seq::<Order>::empty(),
            r.spec_asks() == Seq::<Order>::empty(),
            r.wf(),
    {
        OrderBook { bids: Vec::new(), asks: Vec::new() }
    }

    pub fn bids(&self) -> (r: &Vec<Order>)
        ensures
            r@ == self.spec_bids(),
    {
        &self.bids
    }

    pub fn asks(&self) -> (r: &Vec<Order>)
        ensures
            r@ == self.spec_asks(),
    {
        &self.asks
    }

    /// Find a resting order by id, bids searched before asks.
    #[verifier::loop_isolation(false)]
    pub fn get_order(&self, id: u64) -> (r: Option<&Order>)
        ensures
            match spec_find_order(self.spec_bids() + self.spec_asks(), id) {
                Some(o) => r matches Some(x) && *x == o,
                None => r is None,
            },
    {
        let ghost all = self.spec_bids() + self.spec_asks();
        proof {
            assert(all.subrange(0, all.len() as int) =~= all);
        }
        let mut i: usize = 0;
        while i < self.bids.len()
            invariant
                i <= self.spec_bids().len(),
                all == self.spec_bids() + self.spec_asks(),
                spec_find_order(all, id) == spec_find_order(all.subrange(i as int, all.len() as int), id),
            decreases self.spec_bids().len() - i,
        {
            proof {
                lemma_find_step(all, i as int, id);
            }
            if self.bids[i].id == id {
                return Some(&self.bids[i]);
            }
            i += 1;
        }
        let mut j: usize = 0;
        while j < self.asks.len()
            invariant
                j <= self.spec_asks().len(),
                all == self.spec_bids() + self.spec_asks(),
                spec_find_order(all, id) == spec_find_order(
                    all.subrange(self.spec_bids().len() + j, all.len() as int),
                    id,
                ),
            decreases self.spec_asks().len() - j,
        {
            proof {
                lemma_find_step(all, self.spec_bids().len() + j, id);
            }
            if self.asks[j].id == id {
                return Some(&self.asks[j]);
            }
            j += 1;
        }
        proof {
            assert(all.subrange(all.len() as int, all.len() as int) =~= Seq::<Order>::empty());
        }
        None
    }

    /// The consolidated view of both sides. The caller keeps the per-price
    /// sums within the raw range.
    pub fn consolidated(&self) -> (r: ConsolidatedOrderBook)
        requires
            spec_consolidate(self.spec_bids(), 0, Seq::empty(), None) is Some,
            spec_consolidate(self.spec_asks(), 0, Seq::empty(), None) is Some,
        ensures
            r.spec_bids() == spec_consolidate(self.spec_bids(), 0, Seq::empty(), None).unwrap(),
            r.spec_asks() == spec_consolidate(self.spec_asks(), 0, Seq::empty(), None).unwrap(),
    {
        let bids = Self::consolidate_side(&self.bids);
        let asks = Self::consolidate_side(&self.asks);
        ConsolidatedOrderBook { bids, asks }
    }

    #[verifier::loop_isolation(false)]
    fn consolidate_side(side: &Vec<Order>) -> (r: Vec<ConsolidatedOrder>)
        requires
            spec_consolidate(side@, 0, Seq::empty(), None) is Some,
        ensures
            r@ == spec_consolidate(side@, 0, Seq::empty(), None).unwrap(),
    {
        let mut rows: Vec<ConsolidatedOrder> = Vec::new();
        let mut prev: Option<u64> = None;
        let mut i: usize = 0;
        proof {
            assert(rows@ =~= Seq::<ConsolidatedOrder>::empty());
        }
        while i < side.len()
            invariant
                i <= side@.len(),
                spec_consolidate(side@, 0, Seq::empty(), None) == spec_consolidate(
                    side@,
                    i as int,
                    rows@,
                    prev,
                ),
                rows@.len() == 0 ==> prev is None,
            decreases side@.len() - i,
        {
            let o = side[i];
            let same = match prev {
                Some(p) => p == o.limit.0.0,
                None => false,
            };
            if same {
                let ghost rows_pre = rows@;
                let last = match rows.pop() {
                    Some(l) => l,
                    None => {
                        proof {
                            assert(false);
                        }
                        return rows;
                    },
                };
                let q = match last.qty.0.checked_add(o.qty.0) {
                    Some(q) => q,
                    None => {
                        proof {
                            assert(false);
                        }
                        return rows;
                    },
                };
                rows.push(ConsolidatedOrder { qty: Amount64(q), ..last });
                proof {
                    assert(rows@ =~= rows_pre.update(
                        rows_pre.len() - 1,
                        ConsolidatedOrder { qty: Amount64(q), ..last },
                    ));
                }
                prev = Some(o.limit.0.0);
            } else if o.qty.0 == o.filled_qty.0 {
                // a fully filled order at a new price is skipped
            } else {
                rows.push(
                    ConsolidatedOrder {
                        symbol: o.symbol,
                        side: o.side,
                        limit: o.limit,
                        qty: o.qty,
                    },
                );
                prev = Some(o.limit.0.0);
            }
            i += 1;
        }
        rows
    }

    /// Match an incoming order against the opposite side and rest whatever
    /// remains; see [`spec_match_walk`] and [`spec_insert_pos`]. Answers the
    /// retired order or the resting id, with the filled-and-removed resting
    /// orders in walk order.
    pub fn add_order(&mut self, order: Order) -> (out: OrderOutput)
        requires
            old(self).wf(),
            order.wf(),
        ensures
            ({
                let old_opp = if order.side == OrderSide::Buy {
                    old(self).spec_asks()
                } else {
                    old(self).spec_bids()
                };
                let old_own = if order.side == OrderSide::Buy {
                    old(self).spec_bids()
                } else {
                    old(self).spec_asks()
                };
                let new_opp = if order.side == OrderSide::Buy {
                    final(self).spec_asks()
                } else {
                    final(self).spec_bids()
                };
                let new_own = if order.side == OrderSide::Buy {
                    final(self).spec_bids()
                } else {
                    final(self).spec_asks()
                };
                let w = spec_match_walk(old_opp, 0, order);
                &&& new_opp == w.0
                &&& out.affected@ == w.2
                &&& (spec_filled(w.1) ==> new_own == old_own && out.order == OrderOrId::Order(w.1))
                &&& (!spec_filled(w.1) ==> new_own == old_own.insert(
                    spec_insert_pos(old_own, w.1),
                    w.1,
                ) && out.order == OrderOrId::Id(order.id))
                &&& forall|k: int|
                    0 <= k < out.affected@.len() ==> spec_filled(#[trigger] out.affected@[k])
                        && out.affected@[k].wf()
                &&& final(self).wf()
            }),
    {
        let id = order.id;
        proof {
            let old_opp = if order.side == OrderSide::Buy {
                old(self).spec_asks()
            } else {
                old(self).spec_bids()
            };
            let old_own = if order.side == OrderSide::Buy {
                old(self).spec_bids()
            } else {
                old(self).spec_asks()
            };
            let opp_side = if order.side == OrderSide::Buy {
                OrderSide::Sell
            } else {
                OrderSide::Buy
            };
            lemma_walk_id(old_opp, 0, order);
            lemma_add_order_preserves_book(old_opp, old_own, order, opp_side);
        }
        let (inc, affected) = if order.side == OrderSide::Buy {
            Self::match_against(&mut self.asks, order)
        } else {
            Self::match_against(&mut self.bids, order)
        };
        if inc.is_filled() {
            return OrderOutput { order: OrderOrId::Order(inc), affected };
        }
        match inc.side {
            OrderSide::Buy => Self::insert_resting(&mut self.bids, inc),
            OrderSide::Sell => Self::insert_resting(&mut self.asks, inc),
        }
        OrderOutput { order: OrderOrId::Id(id), affected }
    }

    /// The matching walk over one side, in place.
    fn match_against(opp: &mut Vec<Order>, inc: Order) -> (r: (Order, Vec<Order>))
        requires
            spec_all_wf(old(opp)@),
            inc.wf(),
        ensures
            ({
                let w = spec_match_walk(old(opp)@, 0, inc);
                &&& final(opp)@ == w.0
                &&& r.0 == w.1
                &&& r.1@ == w.2
            }),
    {
        let ghost opp0 = opp@;
        let mut cur = inc;
        let mut affected: Vec<Order> = Vec::new();
        let mut i: usize = 0;
        proof {
            assert(affected@ + spec_match_walk(opp@, 0, cur).2 =~= spec_match_walk(opp@, 0, cur).2);
        }
        loop
            invariant_except_break
                i <= opp@.len(),
                spec_all_wf(opp@),
                cur.wf(),
                spec_match_walk(opp0, 0, inc) == ({
                    let w = spec_match_walk(opp@, i as int, cur);
                    (w.0, w.1, affected@ + w.2)
                }),
            ensures
                spec_match_walk(opp0, 0, inc) == (opp@, cur, affected@),
            decreases opp@.len() - i,
        {
            if i >= opp.len() {
                proof {
                    assert(affected@ + Seq::<Order>::empty() =~= affected@);
                }
                break ;
            }
            let o = opp[i];
            let o_market = o.limit.is_market();
            let inc_market = cur.limit.is_market();
            if o_market && inc_market {
                i += 1;
                continue ;
            }
            let stops = if !o_market && !inc_market {
                match cur.side {
                    OrderSide::Buy => o.limit.0.0 > cur.limit.0.0,
                    OrderSide::Sell => o.limit.0.0 < cur.limit.0.0,
                }
            } else {
                false
            };
            if stops {
                proof {
                    assert(affected@ + Seq::<Order>::empty() =~= affected@);
                }
                break ;
            }
            let price = if inc_market {
                o.limit
            } else {
                cur.limit
            };
            let left_i = cur.qty_left();
            let left_o = o.qty_left();
            let tq = if left_i.0 >= left_o.0 {
                left_o
            } else {
                left_i
            };
            let mut cur2 = cur;
            if !cur2.fill_with(price, tq) {
                proof {
                    assert(affected@ + Seq::<Order>::empty() =~= affected@);
                }
                break ;
            }
            let mut o2 = o;
            if !o2.fill_with(price, tq) {
                proof {
                    assert(affected@ + Seq::<Order>::empty() =~= affected@);
                }
                break ;
            }
            let ghost opp_pre = opp@;
            let ghost aff_pre = affected@;
            let ghost cur_pre = cur;
            cur = cur2;
            if o2.is_filled() {
                affected.push(o2);
                opp.remove(i);
                proof {
                    let w_pre = spec_match_walk(opp_pre, i as int, cur_pre);
                    if spec_filled(cur) {
                        assert(w_pre == (opp@, cur, seq![o2]));
                        assert(aff_pre + seq![o2] =~= affected@);
                    } else {
                        let rest = spec_match_walk(opp@, i as int, cur);
                        assert(w_pre == (rest.0, rest.1, seq![o2] + rest.2));
                        assert(aff_pre + (seq![o2] + rest.2) =~= affected@ + rest.2);
                    }
                }
                if cur.is_filled() {
                    break ;
                }
            } else {
                opp.remove(i);
                opp.insert(i, o2);
                proof {
                    assert(opp@ =~= opp_pre.update(i as int, o2));
                    let w_pre = spec_match_walk(opp_pre, i as int, cur_pre);
                    if spec_filled(cur) {
                        assert(w_pre == (opp@, cur, Seq::<Order>::empty()));
                        assert(aff_pre + Seq::<Order>::empty() =~= affected@);
                    }
                }
                if cur.is_filled() {
                    break ;
                }
                i += 1;
            }
        }
        (cur, affected)
    }

    /// Insert a residual order at its position on its own side.
    #[verifier::loop_isolation(false)]
    fn insert_resting(side: &mut Vec<Order>, inc: Order)
        ensures
            final(side)@ == old(side)@.insert(spec_insert_pos(old(side)@, inc), inc),
    {
        let mut j: usize = 0;
        let inc_market = inc.limit.is_market();
        while j < side.len()
            invariant
                j <= side@.len(),
                side@ == old(side)@,
                forall|k: int| 0 <= k < j ==> !spec_insert_cond(#[trigger] side@[k], inc),
            decreases side@.len() - j,
        {
            let resting = &side[j];
            let cond = if resting.limit.is_market() {
                false
            } else if inc_market {
                true
            } else {
                match inc.side {
                    OrderSide::Buy => resting.limit.0.0 < inc.limit.0.0,
                    OrderSide::Sell => resting.limit.0.0 > inc.limit.0.0,
                }
            };
            if cond {
                proof {
                    lemma_insert_pos_at(side@, inc, j as int);
                }
                side.insert(j, inc);
                return ;
            }
            j += 1;
        }
        proof {
            lemma_insert_pos_at(side@, inc, side@.len() as int);
        }
        side.insert(j, inc);
    }
}

/// One step of the linear search: the first match from `i` is the head when
/// it matches, else the first match from `i + 1`.
proof fn lemma_find_step(all: Seq<Order>, i: int, id: u64)
    requires
        0 <= i < all.len(),
    ensures
        all[i].id == id ==> spec_find_order(all.subrange(i, all.len() as int), id) == Some(all[i]),
        all[i].id != id ==> spec_find_order(all.subrange(i, all.len() as int), id)
            == spec_find_order(all.subrange(i + 1, all.len() as int), id),
{
    let tail = all.subrange(i, all.len() as int);
    assert(tail[0] == all[i]);
    assert(tail.drop_first() =~= all.subrange(i + 1, all.len() as int));
}

/// The walk never changes the incoming order's identity or terms: id, side,
/// symbol, limit and quantity survive every fill.
pub proof fn lemma_walk_id(opp: Seq<Order>, i: int, inc: Order)
    ensures
        ({
            let w = spec_match_walk(opp, i, inc);
            &&& w.1.id == inc.id
            &&& w.1.side == inc.side
            &&& w.1.symbol == inc.symbol
            &&& w.1.limit == inc.limit
            &&& w.1.qty == inc.qty
        }),
    decreases opp.len() - i, opp.len(),
{
    if i < 0 || i >= opp.len() {
    } else {
        let o = opp[i];
        if spec_is_market(o.limit) && spec_is_market(inc.limit) {
            lemma_walk_id(opp, i + 1, inc);
        } else if !spec_is_market(o.limit) && !spec_is_market(inc.limit) && spec_stops(o, inc) {
        } else {
            let price = spec_trade_price(o, inc);
            let tq = Amount64(spec_trade_qty(o, inc));
            let f_inc = spec_fill(inc, price, tq);
            let f_o = spec_fill(o, price, tq);
            if f_inc is None || f_o is None {
            } else {
                let inc2 = f_inc.unwrap();
                let o2 = f_o.unwrap();
                if spec_filled(o2) {
                    if !spec_filled(inc2) {
                        lemma_walk_id(opp.remove(i), i, inc2);
                    }
                } else {
                    if !spec_filled(inc2) {
                        lemma_walk_id(opp.update(i, o2), i + 1, inc2);
                    }
                }
            }
        }
    }
}

/// A fill moves the filled quantity up by exactly the traded quantity and
/// touches nothing else but the average price.
proof fn lemma_fill_shape(o: Order, price: Price, qty: Amount64)
    ensures
        spec_fill(o, price, qty) matches Some(o2) ==> o2.filled_qty.0 == o.filled_qty.0 + qty.0
            && o2.qty == o.qty && o2.limit == o.limit && o2.id == o.id && o2.side == o.side
            && o2.symbol == o.symbol,
{
}

/// Removing an entry keeps a side sorted.
proof fn lemma_sorted_remove(s: Seq<Order>, i: int, side: OrderSide)
    requires
        spec_sorted(s, side),
        0 <= i < s.len(),
    ensures
        spec_sorted(s.remove(i), side),
{
    let s2 = s.remove(i);
    assert forall|a: int, b: int| 0 <= a < b < s2.len() implies spec_ahead(
        #[trigger] s2[a],
        #[trigger] s2[b],
        side,
    ) by {
        let a0 = if a < i {
            a
        } else {
            a + 1
        };
        let b0 = if b < i {
            b
        } else {
            b + 1
        };
        assert(s2[a] == s[a0]);
        assert(s2[b] == s[b0]);
        assert(spec_ahead(s[a0], s[b0], side));
    }
}

/// Replacing an entry with one at the same limit keeps a side sorted.
proof fn lemma_sorted_update(s: Seq<Order>, i: int, o2: Order, side: OrderSide)
    requires
        spec_sorted(s, side),
        0 <= i < s.len(),
        o2.limit == s[i].limit,
    ensures
        spec_sorted(s.update(i, o2), side),
{
    let s2 = s.update(i, o2);
    assert forall|a: int, b: int| 0 <= a < b < s2.len() implies spec_ahead(
        #[trigger] s2[a],
        #[trigger] s2[b],
        side,
    ) by {
        assert(spec_ahead(s[a], s[b], side));
    }
}

/// The matching walk preserves the book's invariants: the remaining side is
/// sorted and well formed, the incoming order stays well formed, and every
/// affected order is fully filled and well formed.
pub proof fn lemma_walk_invariants(opp: Seq<Order>, i: int, inc: Order, side: OrderSide)
    requires
        spec_all_wf(opp),
        inc.wf(),
    ensures
        ({
            let w = spec_match_walk(opp, i, inc);
            &&& spec_all_wf(w.0)
            &&& w.1.wf()
            &&& forall|k: int|
                0 <= k < w.2.len() ==> spec_filled(#[trigger] w.2[k]) && w.2[k].wf()
            &&& spec_sorted(opp, side) ==> spec_sorted(w.0, side)
        }),
    decreases opp.len() - i, opp.len(),
{
    if i < 0 || i >= opp.len() {
    } else {
        let o = opp[i];
        if spec_is_market(o.limit) && spec_is_market(inc.limit) {
            lemma_walk_invariants(opp, i + 1, inc, side);
        } else if !spec_is_market(o.limit) && !spec_is_market(inc.limit) && spec_stops(o, inc) {
        } else {
            let price = spec_trade_price(o, inc);
            let tq = Amount64(spec_trade_qty(o, inc));
            let f_inc = spec_fill(inc, price, tq);
            let f_o = spec_fill(o, price, tq);
            if f_inc is None || f_o is None {
            } else {
                let inc2 = f_inc.unwrap();
                let o2 = f_o.unwrap();
                lemma_fill_shape(inc, price, tq);
                lemma_fill_shape(o, price, tq);
                assert(inc2.wf());
                assert(o2.wf());
                if spec_filled(o2) {
                    let opp2 = opp.remove(i);
                    assert(spec_all_wf(opp2)) by {
                        assert forall|k: int| 0 <= k < opp2.len() implies (
                        #[trigger] opp2[k]).wf() by {
                            if k < i {
                                assert(opp2[k] == opp[k]);
                            } else {
                                assert(opp2[k] == opp[k + 1]);
                            }
                        }
                    }
                    if spec_sorted(opp, side) {
                        lemma_sorted_remove(opp, i, side);
                    }
                    if spec_filled(inc2) {
                    } else {
                        lemma_walk_invariants(opp2, i, inc2, side);
                        let w = spec_match_walk(opp2, i, inc2);
                        assert forall|k: int|
                            0 <= k < (seq![o2] + w.2).len() implies spec_filled(
                            #[trigger] (seq![o2] + w.2)[k],
                        ) && (seq![o2] + w.2)[k].wf() by {
                            if k == 0 {
                                assert((seq![o2] + w.2)[0] == o2);
                            } else {
                                assert((seq![o2] + w.2)[k] == w.2[k - 1]);
                            }
                        }
                    }
                } else {
                    let opp2 = opp.update(i, o2);
                    assert(spec_all_wf(opp2)) by {
                        assert forall|k: int| 0 <= k < opp2.len() implies (
                        #[trigger] opp2[k]).wf() by {
                            if k != i {
                                assert(opp2[k] == opp[k]);
                            }
                        }
                    }
                    if spec_sorted(opp, side) {
                        lemma_sorted_update(opp, i, o2, side);
                    }
                    if spec_filled(inc2) {
                    } else {
                        lemma_walk_invariants(opp2, i + 1, inc2, side);
                    }
                }
            }
        }
    }
}

/// Inserting a residual order at its position keeps its side sorted.
pub proof fn lemma_insert_keeps_sorted(s: Seq<Order>, inc: Order)
    requires
        spec_sorted(s, inc.side),
    ensures
        spec_sorted(s.insert(spec_insert_pos(s, inc), inc), inc.side),
{
    lemma_insert_pos_props(s, inc);
    let p = spec_insert_pos(s, inc);
    let s2 = s.insert(p, inc);
    assert forall|a: int, b: int| 0 <= a < b < s2.len() implies spec_ahead(
        #[trigger] s2[a],
        #[trigger] s2[b],
        inc.side,
    ) by {
        if a < p {
            assert(s2[a] == s[a]);
        } else if a == p {
            assert(s2[a] == inc);
        } else {
            assert(s2[a] == s[a - 1]);
        }
        if b < p {
            assert(s2[b] == s[b]);
        } else if b == p {
            assert(s2[b] == inc);
        } else {
            assert(s2[b] == s[b - 1]);
        }
        if a == p {
            // the new order stands ahead of everything at or after its position
            if !spec_is_market(inc.limit) {
                assert(spec_insert_cond(s[p], inc));
                if b - 1 > p {
                    assert(spec_ahead(s[p], s[b - 1], inc.side));
                }
            }
        } else if b == p {
            assert(!spec_insert_cond(s[a], inc));
        } else if a < p && b > p {
            assert(spec_ahead(s[a], s[b - 1], inc.side));
        }
    }
}

/// After `add_order` on a well-formed book, both sides remain sorted, no
/// order's fill outruns it, every affected order is fully filled, and the
/// residual order (if any) stands at its price-time position.
pub proof fn lemma_add_order_preserves_book(opp: Seq<Order>, own: Seq<Order>, inc: Order, opp_side: OrderSide)
    requires
        spec_all_wf(opp),
        spec_all_wf(own),
        inc.wf(),
        spec_sorted(opp, opp_side),
        spec_sorted(own, inc.side),
    ensures
        ({
            let w = spec_match_walk(opp, 0, inc);
            &&& spec_sorted(w.0, opp_side)
            &&& spec_all_wf(w.0)
            &&& w.1.wf()
            &&& forall|k: int|
                0 <= k < w.2.len() ==> spec_filled(#[trigger] w.2[k]) && w.2[k].wf()
            &&& !spec_filled(w.1) ==> spec_sorted(
                own.insert(spec_insert_pos(own, w.1), w.1),
                inc.side,
            ) && spec_all_wf(own.insert(spec_insert_pos(own, w.1), w.1))
        }),
{
    lemma_walk_invariants(opp, 0, inc, opp_side);
    lemma_walk_id(opp, 0, inc);
    let w = spec_match_walk(opp, 0, inc);
    if !spec_filled(w.1) {
        lemma_insert_keeps_sorted(own, w.1);
        lemma_insert_pos_props(own, w.1);
        let p = spec_insert_pos(own, w.1);
        let s2 = own.insert(p, w.1);
        assert forall|k: int| 0 <= k < s2.len() implies (#[trigger] s2[k]).wf() by {
            if k < p {
                assert(s2[k] == own[k]);
            } else if k == p {
                assert(s2[k] == w.1);
            } else {
                assert(s2[k] == own[k - 1]);
            }
        }
    }
}

/// A limit order that does not cross leaves the walk untouched: it will be
/// inserted and handed back by id with an empty affected list.
pub proof fn lemma_no_cross(opp: Seq<Order>, inc: Order)
    requires
        !spec_is_market(inc.limit),
        opp.len() > 0 ==> !spec_is_market(opp[0].limit) && spec_stops(opp[0], inc),
    ensures
        spec_match_walk(opp, 0, inc) == (opp, inc, Seq::<Order>::empty()),
{
}

/// The sum of the open quantities on a side.
pub open spec fn spec_sum_qty_left(s: Seq<Order>) -> int
    decreases s.len(),
{
    if s.len() == 0 {
        0
    } else {
        spec_qty_left(s[0]) + spec_sum_qty_left(s.drop_first())
    }
}

/// Whether a resting order trades against the incoming one: not market
/// against market, and not a finite pair on which the walk stops.
pub open spec fn spec_crosses(resting: Order, inc: Order) -> bool {
    &&& !(spec_is_market(resting.limit) && spec_is_market(inc.limit))
    &&& !(!spec_is_market(resting.limit) && !spec_is_market(inc.limit) && spec_stops(resting, inc))
}

/// Whether every fill along the matching walk is representable, so none is
/// rejected.
pub open spec fn spec_walk_fills_ok(opp: Seq<Order>, i: int, inc: Order) -> bool
    decreases opp.len() - i, opp.len(),
{
    if i < 0 || i >= opp.len() {
        true
    } else {
        let o = opp[i];
        if spec_is_market(o.limit) && spec_is_market(inc.limit) {
            spec_walk_fills_ok(opp, i + 1, inc)
        } else if !spec_is_market(o.limit) && !spec_is_market(inc.limit) && spec_stops(o, inc) {
            true
        } else {
            let price = spec_trade_price(o, inc);
            let tq = Amount64(spec_trade_qty(o, inc));
            let f_inc = spec_fill(inc, price, tq);
            let f_o = spec_fill(o, price, tq);
            if f_inc is None || f_o is None {
                false
            } else {
                let inc2 = f_inc.unwrap();
                let o2 = f_o.unwrap();
                if spec_filled(o2) {
                    if spec_filled(inc2) {
                        true
                    } else {
                        spec_walk_fills_ok(opp.remove(i), i, inc2)
                    }
                } else {
                    if spec_filled(inc2) {
                        true
                    } else {
                        spec_walk_fills_ok(opp.update(i, o2), i + 1, inc2)
                    }
                }
            }
        }
    }
}

/// A sum of positive open quantities is at least each part.
proof fn lemma_sum_qty_left_pos(s: Seq<Order>)
    requires
        forall|k: int| 0 <= k < s.len() ==> spec_qty_left(#[trigger] s[k]) > 0,
    ensures
        spec_sum_qty_left(s) >= 0,
        s.len() > 0 ==> spec_sum_qty_left(s) >= spec_qty_left(s[0]) && spec_sum_qty_left(s) > 0,
    decreases s.len(),
{
    if s.len() > 0 {
        assert forall|k: int|
            0 <= k < s.drop_first().len() implies spec_qty_left(#[trigger] s.drop_first()[k])
            > 0 by {
            assert(s.drop_first()[k] == s[k + 1]);
        }
        lemma_sum_qty_left_pos(s.drop_first());
    }
}

/// The full sweep: an incoming order whose open quantity exactly equals the
/// opposite side's, where every resting order crosses, has positive open
/// quantity, and every fill is representable, retires fully filled, empties
/// the opposite side, and reports every resting order as affected, in order.
pub proof fn lemma_full_sweep(opp: Seq<Order>, inc: Order)
    requires
        spec_all_wf(opp),
        inc.wf(),
        spec_qty_left(inc) == spec_sum_qty_left(opp),
        forall|k: int| 0 <= k < opp.len() ==> spec_crosses(#[trigger] opp[k], inc),
        forall|k: int| 0 <= k < opp.len() ==> spec_qty_left(#[trigger] opp[k]) > 0,
        spec_walk_fills_ok(opp, 0, inc),
    ensures
        ({
            let w = spec_match_walk(opp, 0, inc);
            &&& w.0 == Seq::<Order>::empty()
            &&& spec_filled(w.1)
            &&& w.2.len() == opp.len()
            &&& forall|k: int|
                0 <= k < opp.len() ==> (#[trigger] w.2[k]).id == opp[k].id && spec_filled(w.2[k])
        }),
    decreases opp.len(),
{
    if opp.len() == 0 {
        assert(spec_match_walk(opp, 0, inc).0 =~= Seq::<Order>::empty());
    } else {
        let o = opp[0];
        assert(spec_crosses(o, inc));
        let price = spec_trade_price(o, inc);
        let tq = Amount64(spec_trade_qty(o, inc));
        lemma_sum_qty_left_pos(opp.drop_first());
        assert forall|k: int|
            0 <= k < opp.drop_first().len() implies spec_qty_left(
            #[trigger] opp.drop_first()[k],
        ) > 0 by {
            assert(opp.drop_first()[k] == opp[k + 1]);
        }
        lemma_sum_qty_left_pos(opp.drop_first());
        assert(spec_qty_left(inc) >= spec_qty_left(o));
        assert(tq.0 == spec_qty_left(o));
        let f_inc = spec_fill(inc, price, tq);
        let f_o = spec_fill(o, price, tq);
        assert(!(f_inc is None || f_o is None));
        let inc2 = f_inc.unwrap();
        let o2 = f_o.unwrap();
        lemma_fill_shape(inc, price, tq);
        lemma_fill_shape(o, price, tq);
        assert(spec_filled(o2));
        let opp2 = opp.remove(0);
        assert(opp2 =~= opp.drop_first());
        assert forall|k: int|
            0 <= k < opp2.len() implies spec_crosses(#[trigger] opp2[k], inc2)
            && spec_qty_left(opp2[k]) > 0 && opp2[k].wf() by {
            assert(opp2[k] == opp[k + 1]);
        }
        if spec_filled(inc2) {
            assert(spec_qty_left(inc2) == 0);
            assert(spec_sum_qty_left(opp2) == 0);
            if opp2.len() > 0 {
                lemma_sum_qty_left_pos(opp2);
                assert(false);
            }
            assert(opp2 =~= Seq::<Order>::empty());
            let w = spec_match_walk(opp, 0, inc);
            assert(w.2 == seq![o2]);
        } else {
            lemma_full_sweep(opp2, inc2);
            let rest = spec_match_walk(opp2, 0, inc2);
            let w = spec_match_walk(opp, 0, inc);
            assert(w == (rest.0, rest.1, seq![o2] + rest.2));
            assert forall|k: int|
                0 <= k < opp.len() implies (#[trigger] w.2[k]).id == opp[k].id && spec_filled(
                w.2[k],
            ) by {
                if k == 0 {
                    assert(w.2[0] == o2);
                } else {
                    assert(w.2[k] == rest.2[k - 1]);
                    assert(opp2[k - 1] == opp[k]);
                }
            }
        }
    }
}

} // verus!

//! The exchange snapshot: a point-in-time, read-only view of the accounts,
//! perpetual markets, order books and positions the bot cares about.
//!
//! The surrounding process builds one snapshot per run from decoded chain
//! state and keeps it current as events arrive; the strategies only read it.

use vstd::prelude::*;

use crate::types::{AccountId, OrderInfo, OrderSide, PerpetualId, PositionInfo};

verus! {

/// One perpetual market's state: its mark price and its book's resting
/// orders (all accounts' orders, as the book reports them).
#[derive(Clone, Debug)]
pub struct PerpetualSnapshot {
    /// The market's identifier.
    pub perpetual_id: PerpetualId,
    /// The mark price, fixed-point.
    pub mark_price: u64,
    /// Every resting order in the book.
    pub orders: Vec<OrderInfo>,
}

/// One account's position on one perpetual.
#[derive(Clone, Copy, Debug, PartialEq, Eq, Structural)]
pub struct PositionEntry {
    /// The account holding the position.
    pub account_id: AccountId,
    /// The perpetual the position is on.
    pub perpetual_id: PerpetualId,
    /// The exposure itself.
    pub position: PositionInfo,
}

/// A point-in-time, mutually consistent view of the exchange, filtered to
/// the bot's accounts and the strategy's perpetual.
#[derive(Clone, Debug)]
pub struct ExchangeSnapshot {
    /// The accounts the snapshot was filtered to.
    pub accounts: Vec<AccountId>,
    /// The perpetual markets the snapshot was filtered to.
    pub perpetuals: Vec<PerpetualSnapshot>,
    /// The filtered accounts' positions.
    pub positions: Vec<PositionEntry>,
}

impl ExchangeSnapshot {
    /// Well-formedness: identifiers are unique, so every lookup has at most
    /// one answer.
    pub open spec fn wf(&self) -> bool {
        &&& forall|i: int, j: int|
            0 <= i < j < self.accounts@.len() ==> self.accounts@[i] != self.accounts@[j]
        &&& forall|i: int, j: int|
            0 <= i < j < self.perpetuals@.len()
                ==> #[trigger] self.perpetuals@[i].perpetual_id
                    != #[trigger] self.perpetuals@[j].perpetual_id
        &&& forall|i: int, j: int|
            0 <= i < j < self.positions@.len()
                ==> !(#[trigger] self.positions@[i].account_id
                    == #[trigger] self.positions@[j].account_id
                    && self.positions@[i].perpetual_id == self.positions@[j].perpetual_id)
    }

    /// Whether the snapshot holds the perpetual with this id.
    pub open spec fn has_perpetual(&self, pid: PerpetualId) -> bool {
        exists|i: int|
            0 <= i < self.perpetuals@.len() && (#[trigger] self.perpetuals@[i]).perpetual_id == pid
    }

    /// The perpetual with this id (meaningful only when `has_perpetual`).
    pub open spec fn perp(&self, pid: PerpetualId) -> PerpetualSnapshot {
        self.perpetuals@[choose|i: int|
            0 <= i < self.perpetuals@.len() && (#[trigger] self.perpetuals@[i]).perpetual_id == pid]
    }

    /// Whether the snapshot holds a position of this account on this perpetual.
    pub open spec fn has_position(&self, account: AccountId, pid: PerpetualId) -> bool {
        exists|i: int|
            0 <= i < self.positions@.len() && (#[trigger] self.positions@[i]).account_id == account
                && self.positions@[i].perpetual_id == pid
    }

    /// The position of this account on this perpetual (meaningful only when
    /// `has_position`).
    pub open spec fn position(&self, account: AccountId, pid: PerpetualId) -> PositionInfo {
        (self.positions@[choose|i: int|
            0 <= i < self.positions@.len() && (#[trigger] self.positions@[i]).account_id == account
                && self.positions@[i].perpetual_id == pid]).position
    }

    /// Look the perpetual up by id.
    pub fn find_perpetual(&self, pid: PerpetualId) -> (r: Option<&PerpetualSnapshot>)
        requires
            self.wf(),
        ensures
            match r {
                Some(p) => self.has_perpetual(pid) && *p == self.perp(pid),
                None => !self.has_perpetual(pid),
            },
    {
        let n = self.perpetuals.len();
        for i in 0..n
            invariant
                n == self.perpetuals@.len(),
                self.wf(),
                forall|k: int| 0 <= k < i ==> (#[trigger] self.perpetuals@[k]).perpetual_id != pid,
        {
            if self.perpetuals[i].perpetual_id == pid {
                return Some(&self.perpetuals[i]);
            }
        }
        None
    }

    /// Look this account's position on this perpetual up.
    pub fn position_of(&self, account: AccountId, pid: PerpetualId) -> (r: Option<PositionInfo>)
        requires
            self.wf(),
        ensures
            match r {
                Some(p) => self.has_position(account, pid) && p == self.position(account, pid),
                None => !self.has_position(account, pid),
            },
    {
        let n = self.positions.len();
        for i in 0..n
            invariant
                n == self.positions@.len(),
                self.wf(),
                forall|k: int|
                    0 <= k < i
                        ==> !((#[trigger] self.positions@[k]).account_id == account
                            && self.positions@[k].perpetual_id == pid),
        {
            if self.positions[i].account_id == account && self.positions[i].perpetual_id == pid {
                return Some(self.positions[i].position);
            }
        }
        None
    }
}

/// The orders of one account, in book order.
pub open spec fn account_orders_spec(orders: Seq<OrderInfo>, account: AccountId) -> Seq<OrderInfo> {
    orders.filter(|o: OrderInfo| o.account_id == account)
}

/// Whether `p` is the best (highest) bid price of these orders.
pub open spec fn is_best_bid(orders: Seq<OrderInfo>, p: u64) -> bool {
    &&& exists|i: int|
        0 <= i < orders.len() && (#[trigger] orders[i]).kind.side_spec() == OrderSide::Bid
            && orders[i].price == p
    &&& forall|i: int|
        0 <= i < orders.len() && (#[trigger] orders[i]).kind.side_spec() == OrderSide::Bid
            ==> orders[i].price <= p
}

/// Whether `p` is the best (lowest) ask price of these orders.
pub open spec fn is_best_ask(orders: Seq<OrderInfo>, p: u64) -> bool {
    &&& exists|i: int|
        0 <= i < orders.len() && (#[trigger] orders[i]).kind.side_spec() == OrderSide::Ask
            && orders[i].price == p
    &&& forall|i: int|
        0 <= i < orders.len() && (#[trigger] orders[i]).kind.side_spec() == OrderSide::Ask
            ==> orders[i].price >= p
}

/// Whether any order rests on this side.
pub open spec fn has_side(orders: Seq<OrderInfo>, side: OrderSide) -> bool {
    exists|i: int| 0 <= i < orders.len() && (#[trigger] orders[i]).kind.side_spec() == side
}

/// The best (highest) bid price of these orders, if any bid rests there.
pub open spec fn best_bid_of(orders: Seq<OrderInfo>) -> Option<u64> {
    if has_side(orders, OrderSide::Bid) {
        Some(choose|p: u64| is_best_bid(orders, p))
    } else {
        None
    }
}

/// The best (lowest) ask price of these orders, if any ask rests there.
pub open spec fn best_ask_of(orders: Seq<OrderInfo>) -> Option<u64> {
    if has_side(orders, OrderSide::Ask) {
        Some(choose|p: u64| is_best_ask(orders, p))
    } else {
        None
    }
}

/// The best bid price is unique: any price that `is_best_bid` accepts is the
/// one `best_bid_of` denotes.
pub proof fn lemma_best_bid_unique(orders: Seq<OrderInfo>, p: u64)
    requires
        is_best_bid(orders, p),
    ensures
        best_bid_of(orders) == Some(p),
{
    let i = choose|i: int|
        0 <= i < orders.len() && (#[trigger] orders[i]).kind.side_spec() == OrderSide::Bid
            && orders[i].price == p;
    assert(has_side(orders, OrderSide::Bid));
    let q = choose|q: u64| is_best_bid(orders, q);
    assert(is_best_bid(orders, p));
    assert(is_best_bid(orders, q));
    let j = choose|j: int|
        0 <= j < orders.len() && (#[trigger] orders[j]).kind.side_spec() == OrderSide::Bid
            && orders[j].price == q;
    assert(orders[i].price <= q);
    assert(orders[j].price <= p);
}

/// The best ask price is unique: any price that `is_best_ask` accepts is the
/// one `best_ask_of` denotes.
pub proof fn lemma_best_ask_unique(orders: Seq<OrderInfo>, p: u64)
    requires
        is_best_ask(orders, p),
    ensures
        best_ask_of(orders) == Some(p),
{
    let i = choose|i: int|
        0 <= i < orders.len() && (#[trigger] orders[i]).kind.side_spec() == OrderSide::Ask
            && orders[i].price == p;
    assert(has_side(orders, OrderSide::Ask));
    let q = choose|q: u64| is_best_ask(orders, q);
    assert(is_best_ask(orders, p));
    assert(is_best_ask(orders, q));
    let j = choose|j: int|
        0 <= j < orders.len() && (#[trigger] orders[j]).kind.side_spec() == OrderSide::Ask
            && orders[j].price == q;
    assert(orders[i].price >= q);
    assert(orders[j].price >= p);
}

impl PerpetualSnapshot {
    /// The best resting bid price, if any bid rests in the book.
    pub fn best_bid(&self) -> (r: Option<u64>)
        ensures
            r == best_bid_of(self.orders@),
            match r {
                Some(p) => is_best_bid(self.orders@, p),
                None => !has_side(self.orders@, OrderSide::Bid),
            },
    {
        let mut best: Option<u64> = None;
        let n = self.orders.len();
        for i in 0..n
            invariant
                n == self.orders@.len(),
                match best {
                    Some(p) => {
                        &&& exists|k: int|
                            0 <= k < i && (#[trigger] self.orders@[k]).kind.side_spec()
                                == OrderSide::Bid && self.orders@[k].price == p
                        &&& forall|k: int|
                            0 <= k < i && (#[trigger] self.orders@[k]).kind.side_spec()
                                == OrderSide::Bid ==> self.orders@[k].price <= p
                    },
                    None => forall|k: int|
                        0 <= k < i
                            ==> (#[trigger] self.orders@[k]).kind.side_spec() != OrderSide::Bid,
                },
        {
            let o = self.orders[i];
            if matches!(o.kind.side(), OrderSide::Bid) {
                best = match best {
                    Some(p) => if o.price > p {
                        Some(o.price)
                    } else {
                        Some(p)
                    },
                    None => Some(o.price),
                };
                proof {
                    assert((#[trigger] self.orders@[i as int]).kind.side_spec() == OrderSide::Bid);
                }
            }
        }
        proof {
            if best is Some {
                lemma_best_bid_unique(self.orders@, best->0);
            }
        }
        best
    }

    /// The best resting ask price, if any ask rests in the book.
    pub fn best_ask(&self) -> (r: Option<u64>)
        ensures
            r == best_ask_of(self.orders@),
            match r {
                Some(p) => is_best_ask(self.orders@, p),
                None => !has_side(self.orders@, OrderSide::Ask),
            },
    {
        let mut best: Option<u64> = None;
        let n = self.orders.len();
        for i in 0..n
            invariant
                n == self.orders@.len(),
                match best {
                    Some(p) => {
                        &&& exists|k: int|
                            0 <= k < i && (#[trigger] self.orders@[k]).kind.side_spec()
                                == OrderSide::Ask && self.orders@[k].price == p
                        &&& forall|k: int|
                            0 <= k < i && (#[trigger] self.orders@[k]).kind.side_spec()
                                == OrderSide::Ask ==> self.orders@[k].price >= p
                    },
                    None => forall|k: int|
                        0 <= k < i
                            ==> (#[trigger] self.orders@[k]).kind.side_spec() != OrderSide::Ask,
                },
        {
            let o = self.orders[i];
            if matches!(o.kind.side(), OrderSide::Ask) {
                best = match best {
                    Some(p) => if o.price < p {
                        Some(o.price)
                    } else {
                        Some(p)
                    },
                    None => Some(o.price),
                };
                proof {
                    assert((#[trigger] self.orders@[i as int]).kind.side_spec() == OrderSide::Ask);
                }
            }
        }
        proof {
            if best is Some {
                lemma_best_ask_unique(self.orders@, best->0);
            }
        }
        best
    }

    /// The orders one account owns in this book, in book order.
    pub fn account_orders(&self, account: AccountId) -> (r: Vec<OrderInfo>)
        ensures
            r@ == account_orders_spec(self.orders@, account),
    {
        let mut r: Vec<OrderInfo> = Vec::new();
        let n = self.orders.len();
        for i in 0..n
            invariant
                n == self.orders@.len(),
                r@ == account_orders_spec(self.orders@.take(i as int), account),
        {
            let o = self.orders[i];
            proof {
                reveal(Seq::filter);
                assert(self.orders@.take(i + 1).drop_last() =~= self.orders@.take(i as int));
                assert(self.orders@.take(i + 1).last() == self.orders@[i as int]);
            }
            if o.account_id == account {
                r.push(o);
            }
        }
        proof {
            assert(self.orders@.take(n as int) =~= self.orders@);
        }
        r
    }
}

} // verus!

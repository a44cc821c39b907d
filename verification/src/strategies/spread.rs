//! The laddered spread quoting strategy: keep a ladder of fixed-size
//! post-only orders on both sides of the mark price, reconciling the
//! account's resting orders against the target price ladder on every run.

use vstd::arithmetic::div_mod::{lemma_div_is_ordered, lemma_div_multiples_vanish};
use vstd::arithmetic::mul::{lemma_mul_inequality, lemma_mul_nonnegative};
use vstd::prelude::*;

use crate::error::Error;
use crate::snapshot::{account_orders_spec, ExchangeSnapshot};
use crate::strategies::{bind_account, bind_outcome_spec, bind_state_spec, change_intent,
    place_intent, Strategy};
use crate::types::{AccountId, OrderBatch, OrderId, OrderInfo, OrderIntent, OrderKind,
    PerpetualId, RequestKind, StateEvent};

verus! {

/// A market making strategy that places orders of fixed sizes above and
/// below the mark price.
#[derive(Clone, Copy, Debug)]
pub struct SpreadStrategy {
    /// Number of orders to place on each side of the spread.
    pub orders_per_side: usize,
    /// The size of each order.
    pub order_size: u64,
    /// The perpetual to trade on.
    pub perpetual_id: PerpetualId,
    /// Max matches per order.
    pub max_matches_per_order: Option<u32>,
    /// Leverage for orders, scaled by [`crate::types::FIXED_ONE`].
    pub leverage: u64,
    /// The last observed mark price.
    pub current_mark_price: u64,
    /// The bound account. Written once, by `initialize`; a second binding
    /// attempt is an error. Read it through `bound_account`.
    pub account_id: Option<AccountId>,
}

/// The `i`-th bid rung: the mark price backed off by `i/500` (0.2% per rung).
pub open spec fn bid_rung(m: u64, i: int) -> int {
    (m * (500 - i)) / 500
}

/// The `i`-th ask rung: the mark price raised by `i/500` (0.2% per rung).
pub open spec fn ask_rung(m: u64, i: int) -> int {
    (m * (500 + i)) / 500
}

/// The target bid prices for rungs `1..=n`, deduplicated in rung order
/// (collisions collapse, set semantics).
pub open spec fn bid_targets(m: u64, n: int) -> Seq<u64>
    decreases n,
{
    if n <= 0 {
        Seq::empty()
    } else {
        let prev = bid_targets(m, n - 1);
        let p = bid_rung(m, n) as u64;
        if prev.contains(p) {
            prev
        } else {
            prev.push(p)
        }
    }
}

/// The target ask prices for rungs `1..=n`, deduplicated in rung order.
pub open spec fn ask_targets(m: u64, n: int) -> Seq<u64>
    decreases n,
{
    if n <= 0 {
        Seq::empty()
    } else {
        let prev = ask_targets(m, n - 1);
        let p = ask_rung(m, n) as u64;
        if prev.contains(p) {
            prev
        } else {
            prev.push(p)
        }
    }
}

/// A bid rung never exceeds the mark price.
proof fn lemma_bid_rung_bounds(m: u64, i: int)
    requires
        0 <= i <= 500,
    ensures
        0 <= bid_rung(m, i) <= m,
{
    lemma_mul_inequality(500 - i, 500, m as int);
    assert((m as int) * (500 - i) == (500 - i) * (m as int));
    assert((m as int) * 500 == 500 * (m as int));
    lemma_mul_nonnegative(m as int, 500 - i);
    lemma_div_is_ordered(0, (m as int) * (500 - i), 500);
    lemma_div_is_ordered((m as int) * (500 - i), (m as int) * 500, 500);
    lemma_div_multiples_vanish(m as int, 500);
}

/// Ask rungs grow with the rung index.
proof fn lemma_ask_rung_ordered(m: u64, i: int, j: int)
    requires
        0 <= i <= j,
    ensures
        0 <= ask_rung(m, i) <= ask_rung(m, j),
{
    lemma_mul_inequality(500 + i, 500 + j, m as int);
    assert((m as int) * (500 + i) == (500 + i) * (m as int));
    assert((m as int) * (500 + j) == (500 + j) * (m as int));
    lemma_mul_nonnegative(m as int, 500 + i);
    lemma_div_is_ordered(0, (m as int) * (500 + i), 500);
    lemma_div_is_ordered((m as int) * (500 + i), (m as int) * (500 + j), 500);
}

/// Whether the vector holds this price.
fn vec_contains_u64(v: &Vec<u64>, x: u64) -> (r: bool)
    ensures
        r == v@.contains(x),
{
    let n = v.len();
    for i in 0..n
        invariant
            n == v@.len(),
            forall|k: int| 0 <= k < i ==> v@[k] != x,
    {
        if v[i] == x {
            proof {
                assert(v@[i as int] == x);
            }
            return true;
        }
    }
    false
}

/// Compute the deduplicated bid target prices for rungs `1..=n`.
fn bid_targets_exec(m: u64, n: usize) -> (r: Vec<u64>)
    requires
        n <= 500,
    ensures
        r@ == bid_targets(m, n as int),
{
    let mut r: Vec<u64> = Vec::new();
    for i in 1..(n + 1)
        invariant
            n <= 500,
            r@ == bid_targets(m, i - 1),
    {
        let d: usize = 500 - i;
        proof {
            lemma_mul_inequality(d as int, 500, m as int);
            assert((m as int) * (d as int) == (d as int) * (m as int));
        }
        let num: u128 = (m as u128) * (d as u128);
        let p128: u128 = num / 500;
        proof {
            lemma_bid_rung_bounds(m, i as int);
        }
        let p: u64 = p128 as u64;
        proof {
            assert(p == bid_rung(m, i as int) as u64);
        }
        if !vec_contains_u64(&r, p) {
            r.push(p);
        }
        proof {
            assert(r@ =~= bid_targets(m, i as int));
        }
    }
    r
}

/// Compute the deduplicated ask target prices for rungs `1..=n`.
fn ask_targets_exec(m: u64, n: usize) -> (r: Vec<u64>)
    requires
        n <= 500,
        ask_rung(m, n as int) <= u64::MAX,
    ensures
        r@ == ask_targets(m, n as int),
{
    let mut r: Vec<u64> = Vec::new();
    for i in 1..(n + 1)
        invariant
            n <= 500,
            ask_rung(m, n as int) <= u64::MAX,
            r@ == ask_targets(m, i - 1),
    {
        let d: usize = 500 + i;
        proof {
            lemma_mul_inequality(d as int, 1000, m as int);
            assert((m as int) * (d as int) == (d as int) * (m as int));
        }
        let num: u128 = (m as u128) * (d as u128);
        let p128: u128 = num / 500;
        proof {
            lemma_ask_rung_ordered(m, i as int, n as int);
        }
        let p: u64 = p128 as u64;
        proof {
            assert(p == ask_rung(m, i as int) as u64);
        }
        if !vec_contains_u64(&r, p) {
            r.push(p);
        }
        proof {
            assert(r@ =~= ask_targets(m, i as int));
        }
    }
    r
}

/// The orders of one kind, in book order.
pub open spec fn kind_filter(orders: Seq<OrderInfo>, kind: OrderKind) -> Seq<OrderInfo> {
    orders.filter(|o: OrderInfo| o.kind == kind)
}

/// Keep the orders of one kind, in book order.
fn kind_filter_exec(orders: &Vec<OrderInfo>, kind: OrderKind) -> (r: Vec<OrderInfo>)
    ensures
        r@ == kind_filter(orders@, kind),
{
    let mut r: Vec<OrderInfo> = Vec::new();
    let n = orders.len();
    for i in 0..n
        invariant
            n == orders@.len(),
            r@ == kind_filter(orders@.take(i as int), kind),
    {
        let o = orders[i];
        proof {
            reveal(Seq::filter);
            assert(orders@.take(i + 1).drop_last() =~= orders@.take(i as int));
            assert(orders@.take(i + 1).last() == orders@[i as int]);
        }
        if o.kind == kind {
            r.push(o);
        }
    }
    proof {
        assert(orders@.take(n as int) =~= orders@);
    }
    r
}

/// One entry per price: each order upserted into the running map, where a
/// later order with the same price replaces the earlier one in place.
pub open spec fn upsert(entries: Seq<OrderInfo>, o: OrderInfo) -> Seq<OrderInfo>
    decreases entries.len(),
{
    if entries.len() == 0 {
        seq![o]
    } else if entries[0].price == o.price {
        seq![o] + entries.drop_first()
    } else {
        seq![entries[0]] + upsert(entries.drop_first(), o)
    }
}

/// The account's orders of one side keyed by price: later duplicates
/// replace earlier ones.
pub open spec fn price_map(orders: Seq<OrderInfo>) -> Seq<OrderInfo>
    decreases orders.len(),
{
    if orders.len() == 0 {
        Seq::empty()
    } else {
        upsert(price_map(orders.drop_last()), orders.last())
    }
}

proof fn lemma_upsert_found(entries: Seq<OrderInfo>, o: OrderInfo, j: int)
    requires
        0 <= j < entries.len(),
        forall|k: int| 0 <= k < j ==> (#[trigger] entries[k]).price != o.price,
        entries[j].price == o.price,
    ensures
        upsert(entries, o) == entries.update(j, o),
    decreases j,
{
    if j == 0 {
        assert(seq![o] + entries.drop_first() =~= entries.update(0, o));
    } else {
        assert(entries[0].price != o.price);
        assert(forall|k: int|
            0 <= k < j - 1 ==> (#[trigger] entries.drop_first()[k]).price != o.price);
        lemma_upsert_found(entries.drop_first(), o, j - 1);
        assert(seq![entries[0]] + entries.drop_first().update(j - 1, o) =~= entries.update(j, o));
    }
}

proof fn lemma_upsert_missing(entries: Seq<OrderInfo>, o: OrderInfo)
    requires
        forall|k: int| 0 <= k < entries.len() ==> (#[trigger] entries[k]).price != o.price,
    ensures
        upsert(entries, o) == entries.push(o),
    decreases entries.len(),
{
    if entries.len() == 0 {
        assert(seq![o] =~= entries.push(o));
    } else {
        assert(forall|k: int|
            0 <= k < entries.drop_first().len()
                ==> (#[trigger] entries.drop_first()[k]).price != o.price);
        lemma_upsert_missing(entries.drop_first(), o);
        assert(seq![entries[0]] + entries.drop_first().push(o) =~= entries.push(o));
    }
}

/// Upsert one order into the running price map.
fn upsert_exec(entries: &mut Vec<OrderInfo>, o: OrderInfo)
    ensures
        final(entries)@ == upsert(old(entries)@, o),
{
    let n = entries.len();
    for j in 0..n
        invariant
            n == entries@.len(),
            entries@ == old(entries)@,
            forall|k: int| 0 <= k < j ==> (#[trigger] entries@[k]).price != o.price,
    {
        if entries[j].price == o.price {
            proof {
                lemma_upsert_found(entries@, o, j as int);
            }
            entries.set(j, o);
            return;
        }
    }
    proof {
        lemma_upsert_missing(entries@, o);
    }
    entries.push(o);
}

/// Build the price map of these orders.
fn build_price_map(orders: &Vec<OrderInfo>) -> (r: Vec<OrderInfo>)
    ensures
        r@ == price_map(orders@),
{
    let mut r: Vec<OrderInfo> = Vec::new();
    let n = orders.len();
    for i in 0..n
        invariant
            n == orders@.len(),
            r@ == price_map(orders@.take(i as int)),
    {
        proof {
            assert(orders@.take(i + 1).drop_last() =~= orders@.take(i as int));
            assert(orders@.take(i + 1).last() == orders@[i as int]);
        }
        upsert_exec(&mut r, orders[i]);
    }
    proof {
        assert(orders@.take(n as int) =~= orders@);
    }
    r
}

/// The entry at this price, if the map holds one.
pub open spec fn lookup_price(entries: Seq<OrderInfo>, p: u64) -> Option<OrderInfo>
    decreases entries.len(),
{
    if entries.len() == 0 {
        None
    } else if entries[0].price == p {
        Some(entries[0])
    } else {
        lookup_price(entries.drop_first(), p)
    }
}

proof fn lemma_lookup_skip(entries: Seq<OrderInfo>, p: u64, i: int)
    requires
        0 <= i <= entries.len(),
        forall|k: int| 0 <= k < i ==> (#[trigger] entries[k]).price != p,
    ensures
        lookup_price(entries, p) == lookup_price(entries.skip(i), p),
    decreases i,
{
    if i > 0 {
        assert(entries[0].price != p);
        assert(forall|k: int|
            0 <= k < i - 1 ==> (#[trigger] entries.drop_first()[k]).price != p);
        lemma_lookup_skip(entries.drop_first(), p, i - 1);
        assert(entries.drop_first().skip(i - 1) =~= entries.skip(i));
    } else {
        assert(entries.skip(0) =~= entries);
    }
}

/// Find the entry at this price.
fn lookup_exec(entries: &Vec<OrderInfo>, p: u64) -> (r: Option<OrderInfo>)
    ensures
        r == lookup_price(entries@, p),
{
    let n = entries.len();
    for j in 0..n
        invariant
            n == entries@.len(),
            forall|k: int| 0 <= k < j ==> (#[trigger] entries@[k]).price != p,
    {
        let o = entries[j];
        if o.price == p {
            proof {
                lemma_lookup_skip(entries@, p, j as int);
                assert(entries@.skip(j as int)[0] == entries@[j as int]);
            }
            return Some(o);
        }
    }
    proof {
        lemma_lookup_skip(entries@, p, n as int);
    }
    None
}

/// Reconciliation, first pass: for each target price that exactly matches a
/// resting order, emit a size fix if the size differs, nothing otherwise.
pub open spec fn phase1_mods(
    current: Seq<OrderInfo>,
    targets: Seq<u64>,
    size: u64,
    pid: PerpetualId,
    mm: Option<u32>,
    lev: u64,
) -> Seq<OrderIntent>
    decreases targets.len(),
{
    if targets.len() == 0 {
        Seq::empty()
    } else {
        phase1_mods(current, targets.drop_last(), size, pid, mm, lev) + (match lookup_price(
            current,
            targets.last(),
        ) {
            Some(o) => if o.size != size {
                seq![change_intent(pid, o.order_id, targets.last(), size, mm, lev)]
            } else {
                Seq::<OrderIntent>::empty()
            },
            None => Seq::<OrderIntent>::empty(),
        })
    }
}

/// Reconciliation, first pass: the target prices no resting order matches,
/// in target order.
pub open spec fn phase1_remaining(current: Seq<OrderInfo>, targets: Seq<u64>) -> Seq<u64>
    decreases targets.len(),
{
    if targets.len() == 0 {
        Seq::empty()
    } else {
        phase1_remaining(current, targets.drop_last()) + (if lookup_price(
            current,
            targets.last(),
        ) is None {
            seq![targets.last()]
        } else {
            Seq::<u64>::empty()
        })
    }
}

/// The resting orders whose price matched no target: they are repurposed for
/// unmatched targets.
pub open spec fn leftover_orders(current: Seq<OrderInfo>, targets: Seq<u64>) -> Seq<OrderInfo> {
    current.filter(|o: OrderInfo| !targets.contains(o.price))
}

/// Reconciliation, second pass: pair each unmatched target with a leftover
/// order and move that order onto the target.
pub open spec fn phase2_mods(
    leftover: Seq<OrderInfo>,
    remaining: Seq<u64>,
    size: u64,
    pid: PerpetualId,
    mm: Option<u32>,
    lev: u64,
) -> Seq<OrderIntent> {
    let pairs = if leftover.len() <= remaining.len() {
        leftover.len()
    } else {
        remaining.len()
    };
    Seq::new(pairs, |j: int| change_intent(pid, leftover[j].order_id, remaining[j], size, mm, lev))
}

/// Reconciliation, third pass: place new orders for the targets left once
/// the leftover orders are exhausted.
pub open spec fn phase3_places(
    remaining: Seq<u64>,
    consumed: nat,
    kind: RequestKind,
    size: u64,
    pid: PerpetualId,
    mm: Option<u32>,
    lev: u64,
) -> Seq<OrderIntent> {
    let from = if consumed <= remaining.len() {
        consumed as int
    } else {
        remaining.len() as int
    };
    remaining.skip(from).map(|j: int, t: u64| place_intent(pid, kind, t, size, mm, lev))
}

/// The full reconciliation of one side: size fixes first, then repurposed
/// orders, then new placements.
pub open spec fn side_plan(
    current: Seq<OrderInfo>,
    targets: Seq<u64>,
    kind: RequestKind,
    size: u64,
    pid: PerpetualId,
    mm: Option<u32>,
    lev: u64,
) -> Seq<OrderIntent> {
    let remaining = phase1_remaining(current, targets);
    let left = leftover_orders(current, targets);
    phase1_mods(current, targets, size, pid, mm, lev) + phase2_mods(
        left,
        remaining,
        size,
        pid,
        mm,
        lev,
    ) + phase3_places(remaining, left.len(), kind, size, pid, mm, lev)
}

/// Reconcile one side of the book against its target ladder.
fn reconcile_side(
    current: &Vec<OrderInfo>,
    targets: &Vec<u64>,
    kind: RequestKind,
    size: u64,
    pid: PerpetualId,
    mm: Option<u32>,
    lev: u64,
) -> (r: Vec<OrderIntent>)
    ensures
        r@ == side_plan(current@, targets@, kind, size, pid, mm, lev),
{
    let mut intents: Vec<OrderIntent> = Vec::new();
    let mut remaining: Vec<u64> = Vec::new();
    let n = targets.len();
    for i in 0..n
        invariant
            n == targets@.len(),
            intents@ == phase1_mods(current@, targets@.take(i as int), size, pid, mm, lev),
            remaining@ == phase1_remaining(current@, targets@.take(i as int)),
    {
        let t = targets[i];
        proof {
            assert(targets@.take(i + 1).drop_last() =~= targets@.take(i as int));
            assert(targets@.take(i + 1).last() == targets@[i as int]);
        }
        match lookup_exec(current, t) {
            Some(o) => {
                if o.size != size {
                    intents.push(
                        OrderIntent {
                            perpetual_id: pid,
                            kind: RequestKind::Change,
                            target_order_id: Some(o.order_id),
                            price: t,
                            size,
                            post_only: true,
                            reduce_only: false,
                            immediate_or_cancel: false,
                            max_matches: mm,
                            leverage: lev,
                        },
                    );
                }
            },
            None => {
                remaining.push(t);
            },
        }
        proof {
            assert(intents@ =~= phase1_mods(current@, targets@.take(i + 1), size, pid, mm, lev));
            assert(remaining@ =~= phase1_remaining(current@, targets@.take(i + 1)));
        }
    }
    proof {
        assert(targets@.take(n as int) =~= targets@);
    }

    let mut leftover: Vec<OrderInfo> = Vec::new();
    let cn = current.len();
    for i in 0..cn
        invariant
            cn == current@.len(),
            n == targets@.len(),
            intents@ == phase1_mods(current@, targets@, size, pid, mm, lev),
            remaining@ == phase1_remaining(current@, targets@),
            leftover@ == leftover_orders(current@.take(i as int), targets@),
    {
        let o = current[i];
        proof {
            reveal(Seq::filter);
            assert(current@.take(i + 1).drop_last() =~= current@.take(i as int));
            assert(current@.take(i + 1).last() == current@[i as int]);
        }
        if !vec_contains_u64(targets, o.price) {
            leftover.push(o);
        }
    }
    proof {
        assert(current@.take(cn as int) =~= current@);
    }

    let ghost mods1 = intents@;
    let pairs = if leftover.len() <= remaining.len() {
        leftover.len()
    } else {
        remaining.len()
    };
    for j in 0..pairs
        invariant
            pairs <= leftover@.len(),
            pairs <= remaining@.len(),
            pairs == if leftover@.len() <= remaining@.len() {
                leftover@.len()
            } else {
                remaining@.len()
            },
            intents@ == mods1 + Seq::new(
                j as nat,
                |k: int| change_intent(pid, leftover@[k].order_id, remaining@[k], size, mm, lev),
            ),
    {
        let o = leftover[j];
        let t = remaining[j];
        intents.push(
            OrderIntent {
                perpetual_id: pid,
                kind: RequestKind::Change,
                target_order_id: Some(o.order_id),
                price: t,
                size,
                post_only: true,
                reduce_only: false,
                immediate_or_cancel: false,
                max_matches: mm,
                leverage: lev,
            },
        );
        proof {
            assert(intents@ =~= mods1 + Seq::new(
                (j + 1) as nat,
                |k: int| change_intent(pid, leftover@[k].order_id, remaining@[k], size, mm, lev),
            ));
        }
    }
    proof {
        assert(mods1 + Seq::new(
            pairs as nat,
            |k: int| change_intent(pid, leftover@[k].order_id, remaining@[k], size, mm, lev),
        ) =~= mods1 + phase2_mods(leftover@, remaining@, size, pid, mm, lev));
    }

    let ghost mods12 = intents@;
    let rn = remaining.len();
    for j in pairs..rn
        invariant
            rn == remaining@.len(),
            pairs <= rn,
            intents@ == mods12 + remaining@.subrange(pairs as int, j as int).map(
                |k: int, t: u64| place_intent(pid, kind, t, size, mm, lev),
            ),
    {
        let t = remaining[j];
        intents.push(
            OrderIntent {
                perpetual_id: pid,
                kind,
                target_order_id: None,
                price: t,
                size,
                post_only: true,
                reduce_only: false,
                immediate_or_cancel: false,
                max_matches: mm,
                leverage: lev,
            },
        );
        proof {
            assert(remaining@.subrange(pairs as int, j + 1).drop_last() =~= remaining@.subrange(
                pairs as int,
                j as int,
            ));
            assert(intents@ =~= mods12 + remaining@.subrange(pairs as int, j + 1).map(
                |k: int, t: u64| place_intent(pid, kind, t, size, mm, lev),
            ));
        }
    }
    proof {
        assert(remaining@.subrange(pairs as int, rn as int) =~= remaining@.skip(pairs as int));
        assert(intents@ =~= side_plan(current@, targets@, kind, size, pid, mm, lev));
    }
    intents
}

/// The whole batch one spread run asks for: both sides reconciled, the side
/// moving toward the market submitted first.
pub open spec fn spread_plan(pre: SpreadStrategy, snap: &ExchangeSnapshot) -> Seq<OrderIntent> {
    let m = snap.perp(pre.perpetual_id).mark_price;
    let book = snap.perp(pre.perpetual_id).orders@;
    let own = account_orders_spec(book, pre.account_id->0);
    let bids = price_map(kind_filter(own, OrderKind::OpenLong));
    let asks = price_map(kind_filter(own, OrderKind::OpenShort));
    let tb = bid_targets(m, pre.orders_per_side as int);
    let ta = ask_targets(m, pre.orders_per_side as int);
    let bid_part = side_plan(
        bids,
        tb,
        RequestKind::OpenLong,
        pre.order_size,
        pre.perpetual_id,
        pre.max_matches_per_order,
        pre.leverage,
    );
    let ask_part = side_plan(
        asks,
        ta,
        RequestKind::OpenShort,
        pre.order_size,
        pre.perpetual_id,
        pre.max_matches_per_order,
        pre.leverage,
    );
    if m <= pre.current_mark_price {
        bid_part + ask_part
    } else {
        ask_part + bid_part
    }
}

/// Whether one side of the book already carries its ladder: every target
/// price holds an order of the configured size.
pub open spec fn side_conforming(current: Seq<OrderInfo>, targets: Seq<u64>, size: u64) -> bool {
    forall|k: int|
        0 <= k < targets.len() ==> {
            let hit = lookup_price(current, #[trigger] targets[k]);
            hit is Some && hit->0.size == size
        }
}

/// On a conforming side the first pass emits nothing and leaves no target
/// unmatched.
proof fn lemma_phase1_conforming(
    current: Seq<OrderInfo>,
    targets: Seq<u64>,
    size: u64,
    pid: PerpetualId,
    mm: Option<u32>,
    lev: u64,
)
    requires
        side_conforming(current, targets, size),
    ensures
        phase1_mods(current, targets, size, pid, mm, lev) == Seq::<OrderIntent>::empty(),
        phase1_remaining(current, targets) == Seq::<u64>::empty(),
    decreases targets.len(),
{
    if targets.len() > 0 {
        assert(forall|k: int|
            0 <= k < targets.drop_last().len() ==> targets.drop_last()[k] == targets[k]);
        lemma_phase1_conforming(current, targets.drop_last(), size, pid, mm, lev);
        assert(lookup_price(current, targets.last()) is Some && lookup_price(
            current,
            targets.last(),
        )->0.size == size) by {
            assert(targets[targets.len() - 1] == targets.last());
        }
        assert(phase1_mods(current, targets, size, pid, mm, lev) =~= Seq::<OrderIntent>::empty());
        assert(phase1_remaining(current, targets) =~= Seq::<u64>::empty());
    }
}

/// A conforming side reconciles to nothing: no size fixes, no repurposing,
/// no placements.
pub proof fn lemma_side_plan_conforming(
    current: Seq<OrderInfo>,
    targets: Seq<u64>,
    kind: RequestKind,
    size: u64,
    pid: PerpetualId,
    mm: Option<u32>,
    lev: u64,
)
    requires
        side_conforming(current, targets, size),
    ensures
        side_plan(current, targets, kind, size, pid, mm, lev) == Seq::<OrderIntent>::empty(),
{
    lemma_phase1_conforming(current, targets, size, pid, mm, lev);
    assert(side_plan(current, targets, kind, size, pid, mm, lev) =~= Seq::<OrderIntent>::empty());
}

/// Whether the whole book already carries the ladder around mark price `m`.
pub open spec fn spread_conforming(pre: SpreadStrategy, snap: &ExchangeSnapshot) -> bool {
    let m = snap.perp(pre.perpetual_id).mark_price;
    let book = snap.perp(pre.perpetual_id).orders@;
    let own = account_orders_spec(book, pre.account_id->0);
    let bids = price_map(kind_filter(own, OrderKind::OpenLong));
    let asks = price_map(kind_filter(own, OrderKind::OpenShort));
    &&& side_conforming(bids, bid_targets(m, pre.orders_per_side as int), pre.order_size)
    &&& side_conforming(asks, ask_targets(m, pre.orders_per_side as int), pre.order_size)
}

/// Spread idempotence: a run against a book that already carries the
/// ladder is a no-op. In particular, executing twice in a row with an
/// unchanged mark price and no external fills leaves the second batch
/// empty: the first run put the ladder in place, so the book conforms.
pub proof fn lemma_spread_idempotent(pre: SpreadStrategy, snap: &ExchangeSnapshot)
    requires
        spread_conforming(pre, snap),
    ensures
        spread_plan(pre, snap) == Seq::<OrderIntent>::empty(),
{
    let m = snap.perp(pre.perpetual_id).mark_price;
    let book = snap.perp(pre.perpetual_id).orders@;
    let own = account_orders_spec(book, pre.account_id->0);
    let bids = price_map(kind_filter(own, OrderKind::OpenLong));
    let asks = price_map(kind_filter(own, OrderKind::OpenShort));
    lemma_side_plan_conforming(
        bids,
        bid_targets(m, pre.orders_per_side as int),
        RequestKind::OpenLong,
        pre.order_size,
        pre.perpetual_id,
        pre.max_matches_per_order,
        pre.leverage,
    );
    lemma_side_plan_conforming(
        asks,
        ask_targets(m, pre.orders_per_side as int),
        RequestKind::OpenShort,
        pre.order_size,
        pre.perpetual_id,
        pre.max_matches_per_order,
        pre.leverage,
    );
    assert(spread_plan(pre, snap) =~= Seq::<OrderIntent>::empty());
}

/// No target collides with another: the ladder is built with set semantics.
pub proof fn lemma_bid_targets_distinct(m: u64, n: int)
    ensures
        forall|i: int, j: int|
            0 <= i < j < bid_targets(m, n).len() ==> bid_targets(m, n)[i] != bid_targets(m, n)[j],
    decreases n,
{
    if n > 0 {
        lemma_bid_targets_distinct(m, n - 1);
        let prev = bid_targets(m, n - 1);
        let p = bid_rung(m, n) as u64;
        if !prev.contains(p) {
            assert(forall|i: int| 0 <= i < prev.len() ==> prev[i] != p);
        }
    }
}

/// No target collides with another: the ladder is built with set semantics.
pub proof fn lemma_ask_targets_distinct(m: u64, n: int)
    ensures
        forall|i: int, j: int|
            0 <= i < j < ask_targets(m, n).len() ==> ask_targets(m, n)[i] != ask_targets(m, n)[j],
    decreases n,
{
    if n > 0 {
        lemma_ask_targets_distinct(m, n - 1);
        let prev = ask_targets(m, n - 1);
        let p = ask_rung(m, n) as u64;
        if !prev.contains(p) {
            assert(forall|i: int| 0 <= i < prev.len() ==> prev[i] != p);
        }
    }
}

/// A run that finds nothing resting on a side places the whole ladder: one
/// new order per target, in target order.
pub proof fn lemma_side_plan_fresh_start(
    targets: Seq<u64>,
    kind: RequestKind,
    size: u64,
    pid: PerpetualId,
    mm: Option<u32>,
    lev: u64,
)
    ensures
        side_plan(Seq::empty(), targets, kind, size, pid, mm, lev) == targets.map(
            |j: int, t: u64| place_intent(pid, kind, t, size, mm, lev),
        ),
{
    lemma_phase1_empty(targets, size, pid, mm, lev);
    let remaining = phase1_remaining(Seq::empty(), targets);
    assert(leftover_orders(Seq::empty(), targets) =~= Seq::<OrderInfo>::empty()) by {
        reveal(Seq::filter);
    }
    assert(remaining.skip(0) =~= remaining);
    assert(side_plan(Seq::empty(), targets, kind, size, pid, mm, lev) =~= targets.map(
        |j: int, t: u64| place_intent(pid, kind, t, size, mm, lev),
    ));
}

/// On an empty side the first pass matches nothing.
proof fn lemma_phase1_empty(
    targets: Seq<u64>,
    size: u64,
    pid: PerpetualId,
    mm: Option<u32>,
    lev: u64,
)
    ensures
        phase1_mods(Seq::empty(), targets, size, pid, mm, lev) == Seq::<OrderIntent>::empty(),
        phase1_remaining(Seq::empty(), targets) == targets,
    decreases targets.len(),
{
    if targets.len() > 0 {
        lemma_phase1_empty(targets.drop_last(), size, pid, mm, lev);
        assert(phase1_mods(Seq::empty(), targets, size, pid, mm, lev) =~= Seq::<
            OrderIntent,
        >::empty());
        assert(phase1_remaining(Seq::empty(), targets) =~= targets);
    }
}

/// The ladder as it rests once the fresh-start placements execute: one
/// order per target, of the configured size, under exchange-assigned ids.
pub open spec fn placed_ladder(
    targets: Seq<u64>,
    kind: OrderKind,
    size: u64,
    fresh: Seq<OrderId>,
    account: AccountId,
) -> Seq<OrderInfo> {
    Seq::new(
        targets.len(),
        |j: int|
            OrderInfo {
                order_id: fresh[j],
                account_id: account,
                kind,
                price: targets[j],
                size,
            },
    )
}

/// Idempotence from a fresh start: the first run on an empty side places
/// the whole ladder ([`lemma_side_plan_fresh_start`]); once those orders
/// rest, a second run over the same targets reconciles to nothing.
pub proof fn lemma_fresh_start_idempotent(
    targets: Seq<u64>,
    rkind: RequestKind,
    okind: OrderKind,
    size: u64,
    pid: PerpetualId,
    mm: Option<u32>,
    lev: u64,
    fresh: Seq<OrderId>,
    account: AccountId,
)
    requires
        forall|i: int, j: int| 0 <= i < j < targets.len() ==> targets[i] != targets[j],
        fresh.len() >= targets.len(),
    ensures
        side_plan(placed_ladder(targets, okind, size, fresh, account), targets, rkind, size, pid, mm, lev)
            == Seq::<OrderIntent>::empty(),
{
    let ladder = placed_ladder(targets, okind, size, fresh, account);
    assert forall|k: int| 0 <= k < targets.len() implies {
        let hit = lookup_price(ladder, #[trigger] targets[k]);
        hit is Some && hit->0.size == size
    } by {
        assert(forall|i: int| 0 <= i < k ==> (#[trigger] ladder[i]).price != targets[k]);
        lemma_lookup_skip(ladder, targets[k], k);
        assert(ladder.skip(k)[0] == ladder[k]);
    }
    lemma_side_plan_conforming(ladder, targets, rkind, size, pid, mm, lev);
}

/// Every intent of one side's plan either modifies an order or places with
/// the side's own request kind.
proof fn lemma_phase1_kinds(
    current: Seq<OrderInfo>,
    targets: Seq<u64>,
    size: u64,
    pid: PerpetualId,
    mm: Option<u32>,
    lev: u64,
)
    ensures
        forall|x: int|
            0 <= x < phase1_mods(current, targets, size, pid, mm, lev).len()
                ==> (#[trigger] phase1_mods(current, targets, size, pid, mm, lev)[x]).kind
                == RequestKind::Change,
    decreases targets.len(),
{
    if targets.len() > 0 {
        lemma_phase1_kinds(current, targets.drop_last(), size, pid, mm, lev);
    }
}

/// Every intent of one side's plan is a `Change` or carries the side's own
/// request kind.
pub proof fn lemma_side_plan_kinds(
    current: Seq<OrderInfo>,
    targets: Seq<u64>,
    kind: RequestKind,
    size: u64,
    pid: PerpetualId,
    mm: Option<u32>,
    lev: u64,
)
    ensures
        forall|x: int|
            0 <= x < side_plan(current, targets, kind, size, pid, mm, lev).len() ==> {
                let it = (#[trigger] side_plan(current, targets, kind, size, pid, mm, lev)[x]);
                it.kind == RequestKind::Change || it.kind == kind
            },
{
    lemma_phase1_kinds(current, targets, size, pid, mm, lev);
}

/// Spread ordering: when the mark price did not rise, the batch holds the
/// whole bid-side plan before the whole ask-side plan, so no sell-side
/// placement precedes a buy-side placement; when it rose, the reverse.
pub proof fn lemma_spread_ordering(pre: SpreadStrategy, snap: &ExchangeSnapshot)
    ensures
        ({
            let m = snap.perp(pre.perpetual_id).mark_price;
            let plan = spread_plan(pre, snap);
            if m <= pre.current_mark_price {
                forall|i: int, j: int|
                    0 <= i < j < plan.len() && (#[trigger] plan[i]).kind == RequestKind::OpenShort
                        ==> (#[trigger] plan[j]).kind != RequestKind::OpenLong
            } else {
                forall|i: int, j: int|
                    0 <= i < j < plan.len() && (#[trigger] plan[i]).kind == RequestKind::OpenLong
                        ==> (#[trigger] plan[j]).kind != RequestKind::OpenShort
            }
        }),
{
    let m = snap.perp(pre.perpetual_id).mark_price;
    let book = snap.perp(pre.perpetual_id).orders@;
    let own = account_orders_spec(book, pre.account_id->0);
    let bids = price_map(kind_filter(own, OrderKind::OpenLong));
    let asks = price_map(kind_filter(own, OrderKind::OpenShort));
    let tb = bid_targets(m, pre.orders_per_side as int);
    let ta = ask_targets(m, pre.orders_per_side as int);
    lemma_side_plan_kinds(
        bids,
        tb,
        RequestKind::OpenLong,
        pre.order_size,
        pre.perpetual_id,
        pre.max_matches_per_order,
        pre.leverage,
    );
    lemma_side_plan_kinds(
        asks,
        ta,
        RequestKind::OpenShort,
        pre.order_size,
        pre.perpetual_id,
        pre.max_matches_per_order,
        pre.leverage,
    );
}

impl SpreadStrategy {
    /// A fresh, unbound strategy with a zero last-observed mark price.
    pub fn new(
        orders_per_side: usize,
        order_size: u64,
        perpetual_id: PerpetualId,
        max_matches_per_order: Option<u32>,
        leverage: u64,
    ) -> (r: Self)
        ensures
            r.orders_per_side == orders_per_side,
            r.order_size == order_size,
            r.perpetual_id == perpetual_id,
            r.max_matches_per_order == max_matches_per_order,
            r.leverage == leverage,
            r.current_mark_price == 0,
            r.bound_account() is None,
    {
        SpreadStrategy {
            orders_per_side,
            order_size,
            perpetual_id,
            max_matches_per_order,
            leverage,
            current_mark_price: 0,
            account_id: None,
        }
    }
}

impl Strategy for SpreadStrategy {
    open spec fn name_spec(&self) -> Seq<char> {
        "Spread"@
    }

    open spec fn perp_spec(&self) -> PerpetualId {
        self.perpetual_id
    }

    open spec fn bound_account(&self) -> Option<AccountId> {
        self.account_id
    }

    /// The ladder must stay within the machine's price range: the deepest
    /// ask rung has to fit in a fixed-point price.
    open spec fn exec_allowed(&self, snap: &ExchangeSnapshot) -> bool {
        &&& snap.has_perpetual(self.perpetual_id)
        &&& self.orders_per_side <= 500
        &&& ask_rung(snap.perp(self.perpetual_id).mark_price, self.orders_per_side as int)
            <= u64::MAX
    }

    open spec fn init_state(&self, snap: &ExchangeSnapshot) -> Self {
        SpreadStrategy {
            orders_per_side: self.orders_per_side,
            order_size: self.order_size,
            perpetual_id: self.perpetual_id,
            max_matches_per_order: self.max_matches_per_order,
            leverage: self.leverage,
            current_mark_price: self.current_mark_price,
            account_id: bind_state_spec(self.account_id, snap),
        }
    }

    open spec fn init_ok(&self, snap: &ExchangeSnapshot) -> bool {
        bind_outcome_spec(self.bound_account(), snap, self.perpetual_id) is Ok
    }

    open spec fn init_err(&self, snap: &ExchangeSnapshot) -> Error {
        bind_outcome_spec(self.bound_account(), snap, self.perpetual_id)->Err_0
    }

    /// Initialization only binds; nothing is submitted.
    open spec fn init_intents(&self, snap: &ExchangeSnapshot) -> Seq<OrderIntent> {
        Seq::empty()
    }

    /// Every run reconciles both sides against the ladder around the
    /// current mark price, remembers that mark price, and orders the batch
    /// by which side moves toward the market. Both sides go out within one
    /// all-or-nothing batch.
    open spec fn exec_post(
        &self,
        post: Self,
        snap: &ExchangeSnapshot,
        events: Seq<StateEvent>,
        batch: OrderBatch,
    ) -> bool {
        &&& post == SpreadStrategy {
            current_mark_price: snap.perp(self.perpetual_id).mark_price,
            ..*self
        }
        &&& batch.atomic == true
        &&& batch.intents@ == spread_plan(*self, snap)
    }

    fn name(&self) -> (r: &'static str) {
        "Spread"
    }

    fn perpetual_id(&self) -> (r: PerpetualId) {
        self.perpetual_id
    }

    /// Bind to the single account; the spread strategy cancels nothing on
    /// startup, its first run reconciles instead.
    fn initialize(&mut self, snap: &ExchangeSnapshot) -> (r: core::result::Result<
        OrderBatch,
        Error,
    >) {
        match bind_account(&mut self.account_id, snap, self.perpetual_id) {
            Ok(_) => Ok(OrderBatch { intents: Vec::new(), atomic: true }),
            Err(e) => Err(e),
        }
    }

    /// Reconcile the account's resting orders against the target ladder.
    fn execute(&mut self, snap: &ExchangeSnapshot, events: &[StateEvent]) -> (batch: OrderBatch) {
        let pid = self.perpetual_id;
        let perp = match snap.find_perpetual(pid) {
            Some(p) => p,
            None => {
                proof {
                    assert(false);
                }
                return OrderBatch { intents: Vec::new(), atomic: true };
            },
        };
        let m = perp.mark_price;
        let bids_first = m <= self.current_mark_price;
        self.current_mark_price = m;

        let account = self.account_id.unwrap();
        let own = perp.account_orders(account);
        let bid_orders = kind_filter_exec(&own, OrderKind::OpenLong);
        let ask_orders = kind_filter_exec(&own, OrderKind::OpenShort);
        let bids = build_price_map(&bid_orders);
        let asks = build_price_map(&ask_orders);
        let tb = bid_targets_exec(m, self.orders_per_side);
        let ta = ask_targets_exec(m, self.orders_per_side);

        let mut bid_descs = reconcile_side(
            &bids,
            &tb,
            RequestKind::OpenLong,
            self.order_size,
            pid,
            self.max_matches_per_order,
            self.leverage,
        );
        let mut ask_descs = reconcile_side(
            &asks,
            &ta,
            RequestKind::OpenShort,
            self.order_size,
            pid,
            self.max_matches_per_order,
            self.leverage,
        );

        if bids_first {
            bid_descs.append(&mut ask_descs);
            OrderBatch { intents: bid_descs, atomic: true }
        } else {
            ask_descs.append(&mut bid_descs);
            OrderBatch { intents: ask_descs, atomic: true }
        }
    }
}

} // verus!

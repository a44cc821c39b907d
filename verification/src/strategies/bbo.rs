//! The best-bid-offer quoting strategy: keep one fixed-size post-only order
//! at the best bid and one at the best ask, reacting only to fills.

use vstd::prelude::*;

use crate::error::Error;
use crate::snapshot::{account_orders_spec, best_ask_of, best_bid_of, ExchangeSnapshot};
use crate::strategies::{bind_account, bind_outcome_spec, bind_state_spec, cancel_intent,
    change_intent, place_intent, Strategy};
use crate::types::{has_fill, AccountId, OrderBatch, OrderEventKind, OrderId, OrderInfo,
    OrderIntent, OrderKind, OrderSide, PerpetualId, RequestKind, StateEvent, FIXED_ONE};

verus! {

/// A simple market making strategy that places fixed size orders at the best
/// bid and offer.
#[derive(Clone, Copy, Debug)]
pub struct BboStrategy {
    /// The size of each order.
    pub order_size: u64,
    /// The perpetual to trade on.
    pub perpetual_id: PerpetualId,
    /// The bound account. Written once, by `initialize`; a second binding
    /// attempt is an error. Read it through `bound_account`.
    pub account_id: Option<AccountId>,
}

/// The first order in book order resting on the given side.
pub open spec fn first_on_side(own: Seq<OrderInfo>, side: OrderSide) -> Option<OrderInfo>
    decreases own.len(),
{
    if own.len() == 0 {
        None
    } else if own[0].kind.side_spec() == side {
        Some(own[0])
    } else {
        first_on_side(own.drop_first(), side)
    }
}

/// If no order among the first `i` rests on the side, the first such order
/// is found past them.
proof fn lemma_first_on_side_skip(own: Seq<OrderInfo>, side: OrderSide, i: int)
    requires
        0 <= i <= own.len(),
        forall|k: int| 0 <= k < i ==> (#[trigger] own[k]).kind.side_spec() != side,
    ensures
        first_on_side(own, side) == first_on_side(own.skip(i), side),
    decreases i,
{
    if i > 0 {
        assert(own[0].kind.side_spec() != side);
        assert(forall|k: int|
            0 <= k < i - 1 ==> (#[trigger] own.drop_first()[k]).kind.side_spec() != side);
        lemma_first_on_side_skip(own.drop_first(), side, i - 1);
        assert(own.drop_first().skip(i - 1) =~= own.skip(i));
    } else {
        assert(own.skip(0) =~= own);
    }
}

/// Find the account's first resting order on the given side, if any.
fn find_side(own: &Vec<OrderInfo>, side: OrderSide) -> (r: Option<OrderInfo>)
    ensures
        r == first_on_side(own@, side),
{
    let n = own.len();
    for i in 0..n
        invariant
            n == own@.len(),
            forall|k: int| 0 <= k < i ==> (#[trigger] own@[k]).kind.side_spec() != side,
    {
        let o = own[i];
        if o.kind.side() == side {
            proof {
                lemma_first_on_side_skip(own@, side, i as int);
                assert(own@.skip(i as int)[0] == own@[i as int]);
            }
            return Some(o);
        }
    }
    proof {
        lemma_first_on_side_skip(own@, side, n as int);
    }
    None
}

/// Whether this event batch contains at least one fill event.
pub fn batch_has_fill(events: &[StateEvent]) -> (r: bool)
    ensures
        r == has_fill(events@),
{
    let n = events.len();
    for i in 0..n
        invariant
            n == events@.len(),
            forall|k: int| 0 <= k < i ==> !(#[trigger] events@[k]).is_fill(),
    {
        let e = events[i];
        if matches!(e, StateEvent::Order(OrderEventKind::Filled)) {
            proof {
                assert((#[trigger] events@[i as int]).is_fill());
            }
            return true;
        }
    }
    false
}

/// Cancellations for every one of these orders, in order.
pub open spec fn cancel_plan(own: Seq<OrderInfo>, pid: PerpetualId) -> Seq<OrderIntent> {
    own.map(|i: int, o: OrderInfo| cancel_intent(pid, o.order_id))
}

/// The bid leg of the plan: replace the resting bid if it fell behind the
/// best bid, place one at the best bid if none rests.
pub open spec fn bbo_bid_leg(strat: BboStrategy, own: Seq<OrderInfo>, bb: u64) -> Seq<
    OrderIntent,
> {
    match first_on_side(own, OrderSide::Bid) {
        Some(b) => if b.price < bb {
            seq![change_intent(strat.perpetual_id, b.order_id, bb, strat.order_size, None, FIXED_ONE)]
        } else {
            Seq::<OrderIntent>::empty()
        },
        None => seq![
            place_intent(strat.perpetual_id, RequestKind::OpenLong, bb, strat.order_size, None, FIXED_ONE),
        ],
    }
}

/// The ask leg of the plan: replace the resting ask if it fell behind the
/// best ask, place one at the best ask if none rests.
pub open spec fn bbo_ask_leg(strat: BboStrategy, own: Seq<OrderInfo>, ba: u64) -> Seq<
    OrderIntent,
> {
    match first_on_side(own, OrderSide::Ask) {
        Some(a) => if a.price > ba {
            seq![change_intent(strat.perpetual_id, a.order_id, ba, strat.order_size, None, FIXED_ONE)]
        } else {
            Seq::<OrderIntent>::empty()
        },
        None => seq![
            place_intent(strat.perpetual_id, RequestKind::OpenShort, ba, strat.order_size, None, FIXED_ONE),
        ],
    }
}

/// The whole plan for one qualifying event batch: the bid leg, then the ask
/// leg.
pub open spec fn bbo_plan(strat: BboStrategy, own: Seq<OrderInfo>, bb: u64, ba: u64) -> Seq<
    OrderIntent,
> {
    bbo_bid_leg(strat, own, bb) + bbo_ask_leg(strat, own, ba)
}

/// One account's resting orders after one intent executes: a change moves
/// the targeted order to the intent's price and size, a post-only placement
/// adds a new resting order under a fresh exchange-assigned id, a
/// cancellation removes its target. Orders that cross (immediate-or-cancel)
/// never rest.
pub open spec fn apply_intent(
    own: Seq<OrderInfo>,
    it: OrderIntent,
    fresh: OrderId,
    account: AccountId,
) -> Seq<OrderInfo> {
    match it.kind {
        RequestKind::Change => own.map(
            |k: int, o: OrderInfo|
                if it.target_order_id == Some(o.order_id) {
                    OrderInfo {
                        order_id: o.order_id,
                        account_id: o.account_id,
                        kind: o.kind,
                        price: it.price,
                        size: it.size,
                    }
                } else {
                    o
                },
        ),
        RequestKind::OpenLong => if it.immediate_or_cancel {
            own
        } else {
            own.push(
                OrderInfo {
                    order_id: fresh,
                    account_id: account,
                    kind: OrderKind::OpenLong,
                    price: it.price,
                    size: it.size,
                },
            )
        },
        RequestKind::OpenShort => if it.immediate_or_cancel {
            own
        } else {
            own.push(
                OrderInfo {
                    order_id: fresh,
                    account_id: account,
                    kind: OrderKind::OpenShort,
                    price: it.price,
                    size: it.size,
                },
            )
        },
        RequestKind::Cancel => own.filter(|o: OrderInfo| it.target_order_id != Some(o.order_id)),
        _ => own,
    }
}

/// The resting orders after a whole batch, one intent at a time, each
/// placement consuming one fresh id.
pub open spec fn apply_intents(
    own: Seq<OrderInfo>,
    its: Seq<OrderIntent>,
    fresh: Seq<OrderId>,
    account: AccountId,
) -> Seq<OrderInfo>
    decreases its.len(),
{
    if its.len() == 0 || fresh.len() == 0 {
        own
    } else {
        apply_intents(
            apply_intent(own, its[0], fresh[0], account),
            its.drop_first(),
            fresh.drop_first(),
            account,
        )
    }
}

/// At most one order rests on the side.
pub open spec fn at_most_one_on_side(own: Seq<OrderInfo>, side: OrderSide) -> bool {
    forall|i: int, j: int|
        0 <= i < j < own.len() && (#[trigger] own[i]).kind.side_spec() == side ==> (
        #[trigger] own[j]).kind.side_spec() != side
}

/// Every order on the side quotes at or better than `p`: at or above it
/// for bids, at or below it for asks.
pub open spec fn side_at_or_better(own: Seq<OrderInfo>, side: OrderSide, p: u64) -> bool {
    forall|i: int|
        0 <= i < own.len() && (#[trigger] own[i]).kind.side_spec() == side ==> (if side
            == OrderSide::Bid {
            own[i].price >= p
        } else {
            own[i].price <= p
        })
}

/// The resting orders' ids are mutually distinct and the fresh ids are new.
pub open spec fn ids_fresh(own: Seq<OrderInfo>, fresh: Seq<OrderId>) -> bool {
    &&& forall|i: int, j: int|
        0 <= i < j < own.len() ==> (#[trigger] own[i]).order_id != (#[trigger] own[j]).order_id
    &&& forall|i: int, j: int|
        0 <= i < own.len() && 0 <= j < fresh.len() ==> (#[trigger] own[i]).order_id != (
        #[trigger] fresh[j])
}

/// What the first order found on a side is: an order of that side from the
/// sequence, or proof that the side is empty.
proof fn lemma_first_on_side_props(own: Seq<OrderInfo>, side: OrderSide)
    ensures
        match first_on_side(own, side) {
            Some(b) => exists|i: int|
                0 <= i < own.len() && (#[trigger] own[i]) == b && b.kind.side_spec() == side,
            None => forall|i: int|
                0 <= i < own.len() ==> (#[trigger] own[i]).kind.side_spec() != side,
        },
    decreases own.len(),
{
    if own.len() > 0 {
        if own[0].kind.side_spec() == side {
            assert((#[trigger] own[0]) == own[0] && own[0].kind.side_spec() == side);
        } else {
            lemma_first_on_side_props(own.drop_first(), side);
            match first_on_side(own.drop_first(), side) {
                Some(b) => {
                    let i = choose|i: int|
                        0 <= i < own.drop_first().len() && (#[trigger] own.drop_first()[i]) == b
                            && b.kind.side_spec() == side;
                    assert((#[trigger] own[i + 1]) == b);
                },
                None => {
                    assert forall|i: int|
                        0 <= i < own.len() implies (#[trigger] own[i]).kind.side_spec()
                        != side by {
                        if i > 0 {
                            assert(own.drop_first()[i - 1] == own[i]);
                        }
                    }
                },
            }
        }
    }
}

/// BBO keeps its quota: applying one run's plan to a book where the
/// account holds at most one bid and at most one ask leaves at most one
/// bid and at most one ask, the bid at or above the best bid observed at
/// decision time, the ask at or below the best ask. Since `initialize`
/// cancels every resting order, this is the induction step that holds the
/// quota across every fill-driven run.
#[verifier::rlimit(100)]
pub proof fn lemma_bbo_quotes(
    strat: BboStrategy,
    own: Seq<OrderInfo>,
    bb: u64,
    ba: u64,
    fresh: Seq<OrderId>,
    account: AccountId,
)
    requires
        at_most_one_on_side(own, OrderSide::Bid),
        at_most_one_on_side(own, OrderSide::Ask),
        ids_fresh(own, fresh),
        fresh.len() >= 2,
    ensures
        ({
            let own2 = apply_intents(own, bbo_plan(strat, own, bb, ba), fresh, account);
            &&& at_most_one_on_side(own2, OrderSide::Bid)
            &&& at_most_one_on_side(own2, OrderSide::Ask)
            &&& side_at_or_better(own2, OrderSide::Bid, bb)
            &&& side_at_or_better(own2, OrderSide::Ask, ba)
        }),
{
    let bid_leg = bbo_bid_leg(strat, own, bb);
    let ask_leg = bbo_ask_leg(strat, own, ba);
    let plan = bbo_plan(strat, own, bb, ba);
    lemma_first_on_side_props(own, OrderSide::Bid);
    lemma_first_on_side_props(own, OrderSide::Ask);

    // Apply the bid leg first, as the plan orders it.
    let own1 = if bid_leg.len() == 1 {
        apply_intent(own, bid_leg[0], fresh[0], account)
    } else {
        own
    };
    assert(own1.len() >= own.len());
    assert(forall|i: int|
        0 <= i < own.len() ==> (#[trigger] own1[i]).kind == own[i].kind && own1[i].order_id
            == own[i].order_id);
    assert(forall|i: int|
        0 <= i < own.len() && (#[trigger] own[i]).kind.side_spec() == OrderSide::Ask ==> own1[i]
            == own[i]);
    assert(forall|i: int|
        own.len() <= i < own1.len() ==> (#[trigger] own1[i]).kind.side_spec() == OrderSide::Bid
            && own1[i].order_id == fresh[0]);
    assert(at_most_one_on_side(own1, OrderSide::Bid));
    assert(at_most_one_on_side(own1, OrderSide::Ask));
    assert(side_at_or_better(own1, OrderSide::Bid, bb));

    // Then the ask leg, which consumes the next fresh id.
    let fa = if bid_leg.len() == 1 {
        fresh[1]
    } else {
        fresh[0]
    };
    let own2 = if ask_leg.len() == 1 {
        apply_intent(own1, ask_leg[0], fa, account)
    } else {
        own1
    };
    assert(apply_intents(own, plan, fresh, account) == own2) by {
        if bid_leg.len() == 1 && ask_leg.len() == 1 {
            assert(plan.len() == 2);
            assert(plan[0] == bid_leg[0] && plan[1] == ask_leg[0]);
            assert(apply_intents(own, plan, fresh, account) == apply_intents(
                own1,
                plan.drop_first(),
                fresh.drop_first(),
                account,
            ));
            assert(plan.drop_first()[0] == ask_leg[0]);
            assert(fresh.drop_first()[0] == fresh[1]);
            assert(apply_intents(own1, plan.drop_first(), fresh.drop_first(), account)
                == apply_intents(
                own2,
                plan.drop_first().drop_first(),
                fresh.drop_first().drop_first(),
                account,
            ));
            assert(plan.drop_first().drop_first().len() == 0);
        } else if bid_leg.len() == 1 {
            assert(plan =~= bid_leg);
            assert(apply_intents(own, plan, fresh, account) == apply_intents(
                own1,
                plan.drop_first(),
                fresh.drop_first(),
                account,
            ));
            assert(plan.drop_first().len() == 0);
        } else if ask_leg.len() == 1 {
            assert(plan =~= ask_leg);
            assert(plan[0] == ask_leg[0]);
            assert(own1 == own);
            assert(apply_intents(own, plan, fresh, account) == apply_intents(
                own2,
                plan.drop_first(),
                fresh.drop_first(),
                account,
            ));
            assert(plan.drop_first().len() == 0);
        } else {
            assert(plan.len() == 0);
        }
    }

    assert(forall|i: int|
        0 <= i < own1.len() ==> (#[trigger] own2[i]).kind == own1[i].kind && own2[i].order_id
            == own1[i].order_id);
    assert(forall|i: int|
        own1.len() <= i < own2.len() ==> (#[trigger] own2[i]).kind.side_spec() == OrderSide::Ask);
    assert(forall|i: int|
        0 <= i < own1.len() && (#[trigger] own1[i]).kind.side_spec() == OrderSide::Bid ==> own2[i]
            == own1[i]) by {
        if ask_leg.len() == 1 && first_on_side(own, OrderSide::Ask) is Some {
            let a = first_on_side(own, OrderSide::Ask)->0;
            let ka = choose|k: int|
                0 <= k < own.len() && (#[trigger] own[k]) == a && a.kind.side_spec()
                    == OrderSide::Ask;
            assert(forall|i: int|
                0 <= i < own1.len() && (#[trigger] own1[i]).kind.side_spec() == OrderSide::Bid
                    ==> own1[i].order_id != a.order_id);
        }
    }
    assert(at_most_one_on_side(own2, OrderSide::Bid));
    assert(side_at_or_better(own2, OrderSide::Bid, bb));
    assert(at_most_one_on_side(own2, OrderSide::Ask)) by {
        if ask_leg.len() == 1 && first_on_side(own, OrderSide::Ask) is None {
            assert(forall|i: int|
                0 <= i < own1.len() ==> (#[trigger] own1[i]).kind.side_spec() != OrderSide::Ask);
        }
    }
    assert(side_at_or_better(own2, OrderSide::Ask, ba)) by {
        match first_on_side(own, OrderSide::Ask) {
            Some(a) => {
                let ka = choose|k: int|
                    0 <= k < own.len() && (#[trigger] own[k]) == a && a.kind.side_spec()
                        == OrderSide::Ask;
                assert(forall|i: int|
                    0 <= i < own1.len() && (#[trigger] own1[i]).kind.side_spec() == OrderSide::Ask
                        ==> own1[i] == a) by {
                    assert(forall|i: int|
                        0 <= i < own.len() && (#[trigger] own[i]).kind.side_spec() == OrderSide::Ask
                            ==> i == ka);
                }
            },
            None => {
                assert(forall|i: int|
                    0 <= i < own1.len() ==> (#[trigger] own1[i]).kind.side_spec()
                        != OrderSide::Ask);
            },
        }
    }
}

/// The account's resting orders along a whole run of fill-driven
/// executions: starting from `own0`, step `k` observes best bid `bbs[k]`
/// and best ask `bas[k]` and applies that step's plan, with the
/// exchange-assigned ids `freshes[k]`.
pub open spec fn bbo_run(
    strat: BboStrategy,
    own0: Seq<OrderInfo>,
    bbs: Seq<u64>,
    bas: Seq<u64>,
    freshes: Seq<Seq<OrderId>>,
    account: AccountId,
    k: int,
) -> Seq<OrderInfo>
    decreases k,
{
    if k <= 0 {
        own0
    } else {
        let prev = bbo_run(strat, own0, bbs, bas, freshes, account, k - 1);
        apply_intents(prev, bbo_plan(strat, prev, bbs[k - 1], bas[k - 1]), freshes[k - 1], account)
    }
}

/// The quota along any run: if the account starts with at most one order
/// per side — as it does once `initialize` cancels everything — and each
/// step's exchange-assigned ids are new at that step, then after every
/// step the account holds at most one bid and at most one ask, the bid at
/// or above the best bid and the ask at or below the best ask observed at
/// that step's decision time. External fills between steps are not
/// modeled; a fill only removes a resting order, which raises neither
/// count.
pub proof fn lemma_bbo_quotes_run(
    strat: BboStrategy,
    own0: Seq<OrderInfo>,
    bbs: Seq<u64>,
    bas: Seq<u64>,
    freshes: Seq<Seq<OrderId>>,
    account: AccountId,
    n: int,
)
    requires
        0 <= n <= bbs.len(),
        n <= bas.len(),
        n <= freshes.len(),
        at_most_one_on_side(own0, OrderSide::Bid),
        at_most_one_on_side(own0, OrderSide::Ask),
        forall|k: int|
            0 <= k < n ==> ids_fresh(
                bbo_run(strat, own0, bbs, bas, freshes, account, k),
                #[trigger] freshes[k],
            ) && freshes[k].len() >= 2,
    ensures
        forall|k: int|
            0 <= k <= n ==> {
                let own = #[trigger] bbo_run(strat, own0, bbs, bas, freshes, account, k);
                at_most_one_on_side(own, OrderSide::Bid) && at_most_one_on_side(
                    own,
                    OrderSide::Ask,
                )
            },
        forall|k: int|
            1 <= k <= n ==> {
                let own = #[trigger] bbo_run(strat, own0, bbs, bas, freshes, account, k);
                side_at_or_better(own, OrderSide::Bid, bbs[k - 1]) && side_at_or_better(
                    own,
                    OrderSide::Ask,
                    bas[k - 1],
                )
            },
    decreases n,
{
    if n > 0 {
        lemma_bbo_quotes_run(strat, own0, bbs, bas, freshes, account, n - 1);
        let prev = bbo_run(strat, own0, bbs, bas, freshes, account, n - 1);
        assert(ids_fresh(prev, freshes[n - 1]) && freshes[n - 1].len() >= 2);
        lemma_bbo_quotes(strat, prev, bbs[n - 1], bas[n - 1], freshes[n - 1], account);
        assert(bbo_run(strat, own0, bbs, bas, freshes, account, n) == apply_intents(
            prev,
            bbo_plan(strat, prev, bbs[n - 1], bas[n - 1]),
            freshes[n - 1],
            account,
        ));
    }
}

impl BboStrategy {
    /// A fresh, unbound strategy.
    pub fn new(order_size: u64, perpetual_id: PerpetualId) -> (r: Self)
        ensures
            r.order_size == order_size,
            r.perpetual_id == perpetual_id,
            r.bound_account() is None,
    {
        BboStrategy { order_size, perpetual_id, account_id: None }
    }

    /// The account the strategy is bound to, if initialized.
    pub fn account(&self) -> (r: Option<AccountId>)
        ensures
            r == self.bound_account(),
    {
        self.account_id
    }
}

impl Strategy for BboStrategy {
    open spec fn name_spec(&self) -> Seq<char> {
        "BBO"@
    }

    open spec fn perp_spec(&self) -> PerpetualId {
        self.perpetual_id
    }

    open spec fn bound_account(&self) -> Option<AccountId> {
        self.account_id
    }

    open spec fn exec_allowed(&self, snap: &ExchangeSnapshot) -> bool {
        snap.has_perpetual(self.perpetual_id)
    }

    open spec fn init_state(&self, snap: &ExchangeSnapshot) -> Self {
        BboStrategy {
            order_size: self.order_size,
            perpetual_id: self.perpetual_id,
            account_id: bind_state_spec(self.account_id, snap),
        }
    }

    open spec fn init_ok(&self, snap: &ExchangeSnapshot) -> bool {
        bind_outcome_spec(self.bound_account(), snap, self.perpetual_id) is Ok
    }

    open spec fn init_err(&self, snap: &ExchangeSnapshot) -> Error {
        bind_outcome_spec(self.bound_account(), snap, self.perpetual_id)->Err_0
    }

    /// On success, initialization cancels every order the bound account has
    /// resting in the book.
    open spec fn init_intents(&self, snap: &ExchangeSnapshot) -> Seq<OrderIntent> {
        cancel_plan(
            account_orders_spec(snap.perp(self.perpetual_id).orders@, snap.accounts@[0]),
            self.perpetual_id,
        )
    }

    /// The strategy is purely reactive to fills: without a fill event, or
    /// with either side of the book empty, the batch is empty; otherwise it
    /// is the plan that keeps one bid at the best bid and one ask at the
    /// best ask.
    open spec fn exec_post(
        &self,
        post: Self,
        snap: &ExchangeSnapshot,
        events: Seq<StateEvent>,
        batch: OrderBatch,
    ) -> bool {
        &&& post == *self
        &&& batch.atomic == true
        &&& {
            let book = snap.perp(self.perpetual_id).orders@;
            let own = account_orders_spec(book, self.bound_account()->0);
            if !has_fill(events) {
                batch.intents@ == Seq::<OrderIntent>::empty()
            } else {
                match (best_bid_of(book), best_ask_of(book)) {
                    (Some(bb), Some(ba)) => batch.intents@ == bbo_plan(*self, own, bb, ba),
                    _ => batch.intents@ == Seq::<OrderIntent>::empty(),
                }
            }
        }
    }

    fn name(&self) -> (r: &'static str) {
        "BBO"
    }

    fn perpetual_id(&self) -> (r: PerpetualId) {
        self.perpetual_id
    }

    /// Bind to the single account and cancel all its resting orders.
    fn initialize(&mut self, snap: &ExchangeSnapshot) -> (r: core::result::Result<
        OrderBatch,
        Error,
    >) {
        let pid = self.perpetual_id;
        let account = match bind_account(&mut self.account_id, snap, pid) {
            Ok(a) => a,
            Err(e) => {
                return Err(e);
            },
        };
        match snap.find_perpetual(pid) {
            Some(perp) => {
                let own = perp.account_orders(account);
                let mut intents: Vec<OrderIntent> = Vec::new();
                let n = own.len();
                for i in 0..n
                    invariant
                        n == own@.len(),
                        intents@ == cancel_plan(own@.take(i as int), pid),
                {
                    let o = own[i];
                    intents.push(
                        OrderIntent {
                            perpetual_id: pid,
                            kind: RequestKind::Cancel,
                            target_order_id: Some(o.order_id),
                            price: 0,
                            size: 0,
                            post_only: false,
                            reduce_only: false,
                            immediate_or_cancel: false,
                            max_matches: None,
                            leverage: 0,
                        },
                    );
                    proof {
                        assert(intents@ =~= cancel_plan(own@.take(i + 1), pid));
                    }
                }
                proof {
                    assert(own@.take(n as int) =~= own@);
                }
                Ok(OrderBatch { intents, atomic: true })
            },
            None => {
                proof {
                    assert(false);
                }
                Err(Error::PerpetualNotFoundInExchangeState(pid))
            },
        }
    }

    /// React to a fill: re-quote both sides of the book at the current best
    /// bid and offer.
    fn execute(&mut self, snap: &ExchangeSnapshot, events: &[StateEvent]) -> (batch: OrderBatch) {
        if !batch_has_fill(events) {
            // This strategy only acts when an order was filled.
            return OrderBatch { intents: Vec::new(), atomic: true };
        }
        let pid = self.perpetual_id;
        let perp = match snap.find_perpetual(pid) {
            Some(p) => p,
            None => {
                proof {
                    assert(false);
                }
                return OrderBatch { intents: Vec::new(), atomic: true };
            },
        };
        let bb = match perp.best_bid() {
            Some(p) => p,
            None => {
                // Cannot safely quote both sides without a reference price.
                return OrderBatch { intents: Vec::new(), atomic: true };
            },
        };
        let ba = match perp.best_ask() {
            Some(p) => p,
            None => {
                return OrderBatch { intents: Vec::new(), atomic: true };
            },
        };
        let account = self.account_id.unwrap();
        let own = perp.account_orders(account);
        let mut intents: Vec<OrderIntent> = Vec::new();

        match find_side(&own, OrderSide::Bid) {
            Some(b) => {
                if b.price < bb {
                    intents.push(
                        OrderIntent {
                            perpetual_id: pid,
                            kind: RequestKind::Change,
                            target_order_id: Some(b.order_id),
                            price: bb,
                            size: self.order_size,
                            post_only: true,
                            reduce_only: false,
                            immediate_or_cancel: false,
                            max_matches: None,
                            leverage: FIXED_ONE,
                        },
                    );
                }
            },
            None => {
                intents.push(
                    OrderIntent {
                        perpetual_id: pid,
                        kind: RequestKind::OpenLong,
                        target_order_id: None,
                        price: bb,
                        size: self.order_size,
                        post_only: true,
                        reduce_only: false,
                        immediate_or_cancel: false,
                        max_matches: None,
                        leverage: FIXED_ONE,
                    },
                );
            },
        }
        match find_side(&own, OrderSide::Ask) {
            Some(a) => {
                if a.price > ba {
                    intents.push(
                        OrderIntent {
                            perpetual_id: pid,
                            kind: RequestKind::Change,
                            target_order_id: Some(a.order_id),
                            price: ba,
                            size: self.order_size,
                            post_only: true,
                            reduce_only: false,
                            immediate_or_cancel: false,
                            max_matches: None,
                            leverage: FIXED_ONE,
                        },
                    );
                }
            },
            None => {
                intents.push(
                    OrderIntent {
                        perpetual_id: pid,
                        kind: RequestKind::OpenShort,
                        target_order_id: None,
                        price: ba,
                        size: self.order_size,
                        post_only: true,
                        reduce_only: false,
                        immediate_or_cancel: false,
                        max_matches: None,
                        leverage: FIXED_ONE,
                    },
                );
            },
        }
        proof {
            let book = snap.perp(pid).orders@;
            let owns = account_orders_spec(book, self.bound_account()->0);
            assert(intents@ =~= bbo_plan(*self, owns, bb, ba));
        }
        OrderBatch { intents, atomic: true }
    }
}

} // verus!

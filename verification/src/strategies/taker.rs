//! The randomized taker strategy: flip a fair coin for the direction, draw a
//! size multiplier, close any opposite position, and cross the book with
//! immediate-or-cancel orders priced at an extreme.

use vstd::arithmetic::div_mod::{lemma_div_is_ordered, lemma_div_multiples_vanish};
use vstd::arithmetic::mul::lemma_mul_inequality;
use vstd::prelude::*;

use crate::entropy::{draw_unit_fraction, flip_coin};
use crate::error::Error;
use crate::snapshot::ExchangeSnapshot;
use crate::strategies::{bind_account, bind_outcome_spec, bind_state_spec, taker_intent, Strategy};
use crate::types::{AccountId, OrderBatch, OrderIntent, PerpetualId, PositionInfo, PositionKind,
    RequestKind, StateEvent, FIXED_ONE};

verus! {

/// A simple taker strategy that buys and sells over and over.
#[derive(Clone, Copy, Debug)]
pub struct TakerStrategy {
    /// Leverage for orders, scaled by [`FIXED_ONE`].
    pub leverage: u64,
    /// The perpetual to trade on.
    pub perpetual_id: PerpetualId,
    /// Max order size.
    pub max_order_size: u64,
    /// The bound account. Written once, by `initialize`; a second binding
    /// attempt is an error. Read it through `bound_account`.
    pub account_id: Option<AccountId>,
}

/// The taker's order size for one run: the drawn multiplier times the
/// configured maximum, in the [`FIXED_ONE`] scale.
pub open spec fn scaled_size(mult: u64, max: u64) -> u64 {
    (((mult as int) * (max as int)) / (FIXED_ONE as int)) as u64
}

/// The batch for one taker run, given the drawn direction and multiplier:
/// first a full close of any position opposite to the direction, then an
/// opening order of the drawn size. Orders that buy are priced at the
/// maximum representable price, orders that sell at zero, so that they
/// cross the book.
pub open spec fn taker_plan(
    strat: TakerStrategy,
    pos: Option<PositionInfo>,
    long: bool,
    mult: u64,
) -> Seq<OrderIntent> {
    let size = scaled_size(mult, strat.max_order_size);
    if long {
        (match pos {
            Some(p) => if p.kind == PositionKind::Short {
                seq![
                    taker_intent(
                        strat.perpetual_id,
                        RequestKind::CloseLong,
                        u64::MAX,
                        p.size,
                        strat.leverage,
                    ),
                ]
            } else {
                Seq::<OrderIntent>::empty()
            },
            None => Seq::<OrderIntent>::empty(),
        }) + seq![
            taker_intent(strat.perpetual_id, RequestKind::OpenLong, u64::MAX, size, strat.leverage),
        ]
    } else {
        (match pos {
            Some(p) => if p.kind == PositionKind::Long {
                seq![
                    taker_intent(strat.perpetual_id, RequestKind::CloseShort, 0, p.size, strat.leverage),
                ]
            } else {
                Seq::<OrderIntent>::empty()
            },
            None => Seq::<OrderIntent>::empty(),
        }) + seq![taker_intent(strat.perpetual_id, RequestKind::OpenShort, 0, size, strat.leverage)]
    }
}

/// The bound account's position on the strategy's perpetual, as the
/// snapshot reports it.
pub open spec fn taker_position(strat: TakerStrategy, snap: &ExchangeSnapshot) -> Option<
    PositionInfo,
> {
    if snap.has_position(strat.account_id->0, strat.perpetual_id) {
        Some(snap.position(strat.account_id->0, strat.perpetual_id))
    } else {
        None
    }
}

/// Some drawn direction and multiplier explain the batch: the direction is
/// a fair coin and the multiplier lies in the open-closed unit interval,
/// but nothing more is promised of a random draw.
pub open spec fn taker_batch_ok(
    strat: TakerStrategy,
    snap: &ExchangeSnapshot,
    s: Seq<OrderIntent>,
) -> bool {
    exists|long: bool, mult: u64|
        1 <= mult <= FIXED_ONE && s == #[trigger] taker_plan(
            strat,
            taker_position(strat, snap),
            long,
            mult,
        )
}

impl TakerStrategy {
    /// A fresh, unbound strategy.
    pub fn new(max_order_size: u64, leverage: u64, perpetual_id: PerpetualId) -> (r: Self)
        ensures
            r.max_order_size == max_order_size,
            r.leverage == leverage,
            r.perpetual_id == perpetual_id,
            r.bound_account() is None,
    {
        TakerStrategy { leverage, perpetual_id, max_order_size, account_id: None }
    }

    /// Compute the batch for a drawn direction and size multiplier. The
    /// multiplier lies in the open-closed unit interval at [`FIXED_ONE`]
    /// resolution, as [`draw_unit_fraction`] draws it.
    pub fn plan_orders(&self, position: Option<PositionInfo>, long: bool, multiplier: u64) -> (r:
        Vec<OrderIntent>)
        requires
            1 <= multiplier <= FIXED_ONE,
        ensures
            r@ == taker_plan(*self, position, long, multiplier),
    {
        let max = self.max_order_size;
        proof {
            lemma_mul_inequality(multiplier as int, FIXED_ONE as int, max as int);
            assert((multiplier as int) * (max as int) == (max as int) * (multiplier as int))
                by (nonlinear_arith);
            assert((FIXED_ONE as int) * (max as int) == (max as int) * (FIXED_ONE as int))
                by (nonlinear_arith);
            lemma_div_is_ordered(
                (multiplier as int) * (max as int),
                (FIXED_ONE as int) * (max as int),
                FIXED_ONE as int,
            );
            lemma_div_multiples_vanish(max as int, FIXED_ONE as int);
        }
        let size128: u128 = (multiplier as u128) * (max as u128) / (FIXED_ONE as u128);
        let size: u64 = size128 as u64;
        let mut r: Vec<OrderIntent> = Vec::new();
        if long {
            match position {
                Some(p) => {
                    if p.kind == PositionKind::Short {
                        // Close the short position in full before going long.
                        r.push(
                            OrderIntent {
                                perpetual_id: self.perpetual_id,
                                kind: RequestKind::CloseLong,
                                target_order_id: None,
                                price: u64::MAX,
                                size: p.size,
                                post_only: false,
                                reduce_only: false,
                                immediate_or_cancel: true,
                                max_matches: None,
                                leverage: self.leverage,
                            },
                        );
                    }
                },
                None => {},
            }
            r.push(
                OrderIntent {
                    perpetual_id: self.perpetual_id,
                    kind: RequestKind::OpenLong,
                    target_order_id: None,
                    price: u64::MAX,
                    size,
                    post_only: false,
                    reduce_only: false,
                    immediate_or_cancel: true,
                    max_matches: None,
                    leverage: self.leverage,
                },
            );
        } else {
            match position {
                Some(p) => {
                    if p.kind == PositionKind::Long {
                        // Close the long position in full before going short.
                        r.push(
                            OrderIntent {
                                perpetual_id: self.perpetual_id,
                                kind: RequestKind::CloseShort,
                                target_order_id: None,
                                price: 0,
                                size: p.size,
                                post_only: false,
                                reduce_only: false,
                                immediate_or_cancel: true,
                                max_matches: None,
                                leverage: self.leverage,
                            },
                        );
                    }
                },
                None => {},
            }
            r.push(
                OrderIntent {
                    perpetual_id: self.perpetual_id,
                    kind: RequestKind::OpenShort,
                    target_order_id: None,
                    price: 0,
                    size,
                    post_only: false,
                    reduce_only: false,
                    immediate_or_cancel: true,
                    max_matches: None,
                    leverage: self.leverage,
                },
            );
        }
        proof {
            assert(r@ =~= taker_plan(*self, position, long, multiplier));
        }
        r
    }
}

impl Strategy for TakerStrategy {
    open spec fn name_spec(&self) -> Seq<char> {
        "Taker"@
    }

    open spec fn perp_spec(&self) -> PerpetualId {
        self.perpetual_id
    }

    open spec fn bound_account(&self) -> Option<AccountId> {
        self.account_id
    }

    open spec fn exec_allowed(&self, snap: &ExchangeSnapshot) -> bool {
        true
    }

    open spec fn init_state(&self, snap: &ExchangeSnapshot) -> Self {
        TakerStrategy {
            leverage: self.leverage,
            perpetual_id: self.perpetual_id,
            max_order_size: self.max_order_size,
            account_id: bind_state_spec(self.account_id, snap),
        }
    }

    open spec fn init_ok(&self, snap: &ExchangeSnapshot) -> bool {
        bind_outcome_spec(self.bound_account(), snap, self.perpetual_id) is Ok
    }

    open spec fn init_err(&self, snap: &ExchangeSnapshot) -> Error {
        bind_outcome_spec(self.bound_account(), snap, self.perpetual_id)->Err_0
    }

    /// Initialization only binds; nothing is submitted.
    open spec fn init_intents(&self, snap: &ExchangeSnapshot) -> Seq<OrderIntent> {
        Seq::empty()
    }

    /// The batch is one [`taker_batch_ok`] admits: some drawn direction and
    /// multiplier explain it.
    open spec fn exec_post(
        &self,
        post: Self,
        snap: &ExchangeSnapshot,
        events: Seq<StateEvent>,
        batch: OrderBatch,
    ) -> bool {
        &&& post == *self
        &&& batch.atomic == false
        &&& taker_batch_ok(*self, snap, batch.intents@)
    }

    fn name(&self) -> (r: &'static str) {
        "Taker"
    }

    fn perpetual_id(&self) -> (r: PerpetualId) {
        self.perpetual_id
    }

    /// Bind to the single account; the taker cancels nothing on startup.
    fn initialize(&mut self, snap: &ExchangeSnapshot) -> (r: core::result::Result<
        OrderBatch,
        Error,
    >) {
        match bind_account(&mut self.account_id, snap, self.perpetual_id) {
            Ok(_) => Ok(OrderBatch { intents: Vec::new(), atomic: true }),
            Err(e) => Err(e),
        }
    }

    /// Draw a direction and a size, then close any opposite position and
    /// cross the book.
    fn execute(&mut self, snap: &ExchangeSnapshot, events: &[StateEvent]) -> (batch: OrderBatch) {
        let account = self.account_id.unwrap();
        let position = snap.position_of(account, self.perpetual_id);
        let multiplier = draw_unit_fraction();
        let long = flip_coin();
        let intents = self.plan_orders(position, long, multiplier);
        proof {
            assert(position == taker_position(*self, snap));
            assert(taker_batch_ok(*self, snap, intents@)) by {
                assert(1 <= multiplier <= FIXED_ONE && intents@ == taker_plan(
                    *self,
                    taker_position(*self, snap),
                    long,
                    multiplier,
                ));
            }
        }
        OrderBatch { intents, atomic: false }
    }
}

} // verus!

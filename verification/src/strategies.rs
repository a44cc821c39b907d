//! The strategy contract and the three order-placement strategies.
//!
//! A strategy binds to exactly one account during initialization (write-once;
//! a second attempt is an error), then computes order batches from the
//! current snapshot and the incoming event batch. The surrounding process
//! owns submission: a returned batch with any intents is submitted as one
//! transaction, an empty one means there is nothing to do.

pub mod bbo;
pub mod spread;
pub mod taker;

use vstd::prelude::*;

use crate::error::Error;
use crate::snapshot::ExchangeSnapshot;
use crate::strategies::bbo::BboStrategy;
use crate::strategies::spread::SpreadStrategy;
use crate::strategies::taker::TakerStrategy;
use crate::types::{AccountId, OrderBatch, OrderId, OrderIntent, PerpetualId, RequestKind,
    StateEvent};

verus! {

/// A post-only quoting intent at the given price and size.
pub open spec fn place_intent(
    pid: PerpetualId,
    kind: RequestKind,
    price: u64,
    size: u64,
    max_matches: Option<u32>,
    leverage: u64,
) -> OrderIntent {
    OrderIntent {
        perpetual_id: pid,
        kind,
        target_order_id: None,
        price,
        size,
        post_only: true,
        reduce_only: false,
        immediate_or_cancel: false,
        max_matches,
        leverage,
    }
}

/// A post-only modification of the resting order `oid` to the given price
/// and size.
pub open spec fn change_intent(
    pid: PerpetualId,
    oid: OrderId,
    price: u64,
    size: u64,
    max_matches: Option<u32>,
    leverage: u64,
) -> OrderIntent {
    OrderIntent {
        perpetual_id: pid,
        kind: RequestKind::Change,
        target_order_id: Some(oid),
        price,
        size,
        post_only: true,
        reduce_only: false,
        immediate_or_cancel: false,
        max_matches,
        leverage,
    }
}

/// A cancellation of the resting order `oid`.
pub open spec fn cancel_intent(pid: PerpetualId, oid: OrderId) -> OrderIntent {
    OrderIntent {
        perpetual_id: pid,
        kind: RequestKind::Cancel,
        target_order_id: Some(oid),
        price: 0,
        size: 0,
        post_only: false,
        reduce_only: false,
        immediate_or_cancel: false,
        max_matches: None,
        leverage: 0,
    }
}

/// An immediate-or-cancel intent priced at an extreme so that it crosses the
/// book rather than rests.
pub open spec fn taker_intent(
    pid: PerpetualId,
    kind: RequestKind,
    price: u64,
    size: u64,
    leverage: u64,
) -> OrderIntent {
    OrderIntent {
        perpetual_id: pid,
        kind,
        target_order_id: None,
        price,
        size,
        post_only: false,
        reduce_only: false,
        immediate_or_cancel: true,
        max_matches: None,
        leverage,
    }
}

/// The binding after an initialization attempt: the single account of the
/// snapshot if exactly one is there and none was bound yet, the old binding
/// otherwise. Binding is write-once and survives failed perpetual checks.
pub open spec fn bind_state_spec(bound: Option<AccountId>, snap: &ExchangeSnapshot) -> Option<
    AccountId,
> {
    if snap.accounts@.len() == 1 && bound is None {
        Some(snap.accounts@[0])
    } else {
        bound
    }
}

/// The result of an initialization attempt, with the errors in the order the
/// conditions are checked: no account, too many accounts, already bound,
/// perpetual absent.
pub open spec fn bind_outcome_spec(
    bound: Option<AccountId>,
    snap: &ExchangeSnapshot,
    pid: PerpetualId,
) -> core::result::Result<AccountId, Error> {
    if snap.accounts@.len() == 0 {
        Err(Error::NoAccountFoundForStrategy)
    } else if snap.accounts@.len() > 1 {
        Err(Error::TooManyAccountsForStrategy)
    } else if bound is Some {
        Err(Error::AccountIdAlreadySet)
    } else if !snap.has_perpetual(pid) {
        Err(Error::PerpetualNotFoundInExchangeState(pid))
    } else {
        Ok(snap.accounts@[0])
    }
}

/// Bind `bound` to the snapshot's single account, write-once. Note that the
/// binding is written before the perpetual is checked, so a failed perpetual
/// check leaves the account bound, as `bind_state_spec` says.
pub fn bind_account(
    bound: &mut Option<AccountId>,
    snap: &ExchangeSnapshot,
    pid: PerpetualId,
) -> (r: core::result::Result<AccountId, Error>)
    requires
        snap.wf(),
    ensures
        *final(bound) == bind_state_spec(*old(bound), snap),
        r == bind_outcome_spec(*old(bound), snap, pid),
{
    if snap.accounts.len() == 0 {
        return Err(Error::NoAccountFoundForStrategy);
    }
    if snap.accounts.len() > 1 {
        return Err(Error::TooManyAccountsForStrategy);
    }
    let account = snap.accounts[0];
    if bound.is_some() {
        return Err(Error::AccountIdAlreadySet);
    }
    *bound = Some(account);
    if snap.find_perpetual(pid).is_none() {
        return Err(Error::PerpetualNotFoundInExchangeState(pid));
    }
    Ok(account)
}

/// The capability set every strategy implements: identify, bind to a
/// perpetual and an account, initialize, execute.
///
/// Each implementation pins its behaviour down with its own definitions of
/// the spec functions: what `initialize` does to the strategy and returns,
/// and which batches `execute` may produce. Only the taker strategy's
/// `exec_post` admits more than one batch, because it draws randomness.
pub trait Strategy: Sized {
    /// The strategy's display name, as specification text.
    spec fn name_spec(&self) -> Seq<char>;

    /// The perpetual the strategy trades on.
    spec fn perp_spec(&self) -> PerpetualId;

    /// The account the strategy is bound to, if `initialize` has bound one.
    spec fn bound_account(&self) -> Option<AccountId>;

    /// What must hold of the strategy and the snapshot before `execute` may
    /// run, beyond the account binding (machine limits and the presence of
    /// the data the strategy reads; the original treats violations as
    /// programming faults).
    spec fn exec_allowed(&self, snap: &ExchangeSnapshot) -> bool;

    /// The strategy state after an initialization attempt.
    spec fn init_state(&self, snap: &ExchangeSnapshot) -> Self;

    /// Whether an initialization attempt succeeds.
    spec fn init_ok(&self, snap: &ExchangeSnapshot) -> bool;

    /// The error an unsuccessful initialization attempt returns.
    spec fn init_err(&self, snap: &ExchangeSnapshot) -> Error;

    /// The intents a successful initialization asks the caller to submit
    /// (atomically), e.g. cancellations of resting orders.
    spec fn init_intents(&self, snap: &ExchangeSnapshot) -> Seq<OrderIntent>;

    /// What `execute` guarantees of its batch and of the strategy state
    /// after the call.
    spec fn exec_post(
        &self,
        post: Self,
        snap: &ExchangeSnapshot,
        events: Seq<StateEvent>,
        batch: OrderBatch,
    ) -> bool;

    /// The strategy's display name.
    fn name(&self) -> (r: &'static str)
        ensures
            r@ == self.name_spec(),
    ;

    /// The perpetual the strategy trades on.
    fn perpetual_id(&self) -> (r: PerpetualId)
        ensures
            r == self.perp_spec(),
    ;

    /// One-time setup: bind to the snapshot's single account (write-once)
    /// and check preconditions; on success the returned batch holds what
    /// must be submitted atomically before the strategy runs.
    fn initialize(&mut self, snap: &ExchangeSnapshot) -> (r: core::result::Result<
        OrderBatch,
        Error,
    >)
        requires
            snap.wf(),
        ensures
            *final(self) == old(self).init_state(snap),
            match r {
                Ok(batch) => old(self).init_ok(snap) && batch.intents@ == old(self).init_intents(
                    snap,
                ) && batch.atomic == true,
                Err(e) => !old(self).init_ok(snap) && e == old(self).init_err(snap),
            },
    ;

    /// Compute the order batch for the current snapshot and event batch. An
    /// empty batch means there is nothing to submit.
    fn execute(&mut self, snap: &ExchangeSnapshot, events: &[StateEvent]) -> (batch: OrderBatch)
        requires
            snap.wf(),
            old(self).bound_account() is Some,
            old(self).exec_allowed(snap),
        ensures
            old(self).exec_post(*final(self), snap, events@, batch),
    ;
}

/// The closed set of strategies the bot can run: a tagged union, not open
/// extension.
#[derive(Clone, Copy, Debug)]
pub enum StrategyType {
    Bbo(BboStrategy),
    Spread(SpreadStrategy),
    Taker(TakerStrategy),
}

impl Strategy for StrategyType {
    open spec fn name_spec(&self) -> Seq<char> {
        match self {
            StrategyType::Bbo(s) => s.name_spec(),
            StrategyType::Spread(s) => s.name_spec(),
            StrategyType::Taker(s) => s.name_spec(),
        }
    }

    open spec fn perp_spec(&self) -> PerpetualId {
        match self {
            StrategyType::Bbo(s) => s.perp_spec(),
            StrategyType::Spread(s) => s.perp_spec(),
            StrategyType::Taker(s) => s.perp_spec(),
        }
    }

    open spec fn bound_account(&self) -> Option<AccountId> {
        match self {
            StrategyType::Bbo(s) => s.bound_account(),
            StrategyType::Spread(s) => s.bound_account(),
            StrategyType::Taker(s) => s.bound_account(),
        }
    }

    open spec fn exec_allowed(&self, snap: &ExchangeSnapshot) -> bool {
        match self {
            StrategyType::Bbo(s) => s.exec_allowed(snap),
            StrategyType::Spread(s) => s.exec_allowed(snap),
            StrategyType::Taker(s) => s.exec_allowed(snap),
        }
    }

    open spec fn init_state(&self, snap: &ExchangeSnapshot) -> Self {
        match self {
            StrategyType::Bbo(s) => StrategyType::Bbo(s.init_state(snap)),
            StrategyType::Spread(s) => StrategyType::Spread(s.init_state(snap)),
            StrategyType::Taker(s) => StrategyType::Taker(s.init_state(snap)),
        }
    }

    open spec fn init_ok(&self, snap: &ExchangeSnapshot) -> bool {
        match self {
            StrategyType::Bbo(s) => s.init_ok(snap),
            StrategyType::Spread(s) => s.init_ok(snap),
            StrategyType::Taker(s) => s.init_ok(snap),
        }
    }

    open spec fn init_err(&self, snap: &ExchangeSnapshot) -> Error {
        match self {
            StrategyType::Bbo(s) => s.init_err(snap),
            StrategyType::Spread(s) => s.init_err(snap),
            StrategyType::Taker(s) => s.init_err(snap),
        }
    }

    open spec fn init_intents(&self, snap: &ExchangeSnapshot) -> Seq<OrderIntent> {
        match self {
            StrategyType::Bbo(s) => s.init_intents(snap),
            StrategyType::Spread(s) => s.init_intents(snap),
            StrategyType::Taker(s) => s.init_intents(snap),
        }
    }

    /// Exhaustive dispatch: the variant never changes, and the batch obeys
    /// the variant's own postcondition.
    open spec fn exec_post(
        &self,
        post: Self,
        snap: &ExchangeSnapshot,
        events: Seq<StateEvent>,
        batch: OrderBatch,
    ) -> bool {
        match (*self, post) {
            (StrategyType::Bbo(s), StrategyType::Bbo(p)) => s.exec_post(p, snap, events, batch),
            (StrategyType::Spread(s), StrategyType::Spread(p)) => s.exec_post(
                p,
                snap,
                events,
                batch,
            ),
            (StrategyType::Taker(s), StrategyType::Taker(p)) => s.exec_post(p, snap, events, batch),
            _ => false,
        }
    }

    fn name(&self) -> (r: &'static str) {
        match self {
            StrategyType::Bbo(s) => s.name(),
            StrategyType::Spread(s) => s.name(),
            StrategyType::Taker(s) => s.name(),
        }
    }

    fn perpetual_id(&self) -> (r: PerpetualId) {
        match self {
            StrategyType::Bbo(s) => s.perpetual_id(),
            StrategyType::Spread(s) => s.perpetual_id(),
            StrategyType::Taker(s) => s.perpetual_id(),
        }
    }

    fn initialize(&mut self, snap: &ExchangeSnapshot) -> (r: core::result::Result<
        OrderBatch,
        Error,
    >) {
        match self {
            StrategyType::Bbo(s) => s.initialize(snap),
            StrategyType::Spread(s) => s.initialize(snap),
            StrategyType::Taker(s) => s.initialize(snap),
        }
    }

    fn execute(&mut self, snap: &ExchangeSnapshot, events: &[StateEvent]) -> (batch: OrderBatch) {
        match self {
            StrategyType::Bbo(s) => s.execute(snap, events),
            StrategyType::Spread(s) => s.execute(snap, events),
            StrategyType::Taker(s) => s.execute(snap, events),
        }
    }
}

} // verus!

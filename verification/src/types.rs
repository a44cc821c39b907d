//! Plain value types shared by the strategies and the orchestrator.
//!
//! Prices and sizes are unsigned fixed-point quantities: the exchange's
//! decimal values scaled to integers at whatever resolution the caller
//! chooses. Quantities that stand for a ratio of one whole (leverage, the
//! taker's size multiplier) are scaled by [`FIXED_ONE`].

use vstd::prelude::*;

verus! {

/// Identifier of an exchange account.
pub type AccountId = u64;

/// Identifier of a perpetual market.
pub type PerpetualId = u32;

/// Identifier of a resting order.
pub type OrderId = u64;

/// One whole, in the fixed-point scale used for ratios: a leverage of
/// `FIXED_ONE` is unit leverage, a size multiplier of `FIXED_ONE` is the
/// full configured size.
pub const FIXED_ONE: u64 = 1_000_000;

/// Side of the book an order rests on.
#[derive(Clone, Copy, Debug, PartialEq, Eq, Structural)]
pub enum OrderSide {
    Bid,
    Ask,
}

/// Kind of a resting order. Orders that buy (open a long or close a short)
/// rest on the bid side; orders that sell rest on the ask side.
#[derive(Clone, Copy, Debug, PartialEq, Eq, Structural)]
pub enum OrderKind {
    OpenLong,
    OpenShort,
    CloseLong,
    CloseShort,
}

impl OrderKind {
    /// The side of the book an order of this kind rests on.
    pub open spec fn side_spec(self) -> OrderSide {
        match self {
            OrderKind::OpenLong => OrderSide::Bid,
            OrderKind::CloseLong => OrderSide::Bid,
            OrderKind::OpenShort => OrderSide::Ask,
            OrderKind::CloseShort => OrderSide::Ask,
        }
    }

    /// Executable counterpart of [`Self::side_spec`].
    pub fn side(&self) -> (r: OrderSide)
        ensures
            r == self.side_spec(),
    {
        match self {
            OrderKind::OpenLong => OrderSide::Bid,
            OrderKind::CloseLong => OrderSide::Bid,
            OrderKind::OpenShort => OrderSide::Ask,
            OrderKind::CloseShort => OrderSide::Ask,
        }
    }
}

/// A read-only copy of one resting order, as the snapshot reports it.
#[derive(Clone, Copy, Debug, PartialEq, Eq, Structural)]
pub struct OrderInfo {
    /// The exchange-assigned order id.
    pub order_id: OrderId,
    /// The account that owns the order.
    pub account_id: AccountId,
    /// What kind of order rests there.
    pub kind: OrderKind,
    /// Limit price, fixed-point.
    pub price: u64,
    /// Remaining size, fixed-point.
    pub size: u64,
}

/// Direction of a position.
#[derive(Clone, Copy, Debug, PartialEq, Eq, Structural)]
pub enum PositionKind {
    Long,
    Short,
}

/// A per-account, per-perpetual signed exposure.
#[derive(Clone, Copy, Debug, PartialEq, Eq, Structural)]
pub struct PositionInfo {
    /// Whether the exposure is long or short.
    pub kind: PositionKind,
    /// Absolute size of the exposure, fixed-point.
    pub size: u64,
}

/// What an order event reports happened to an order.
#[derive(Clone, Copy, Debug, PartialEq, Eq, Structural)]
pub enum OrderEventKind {
    Placed,
    Changed,
    Cancelled,
    Filled,
}

/// One decoded exchange-state change event, reduced to what the strategies
/// read from it: whether it is an order event and of which kind. Everything
/// else the strategies ignore.
#[derive(Clone, Copy, Debug, PartialEq, Eq, Structural)]
pub enum StateEvent {
    /// Something happened to a resting order.
    Order(OrderEventKind),
    /// Any other event (trade, balance, funding, ...).
    Other,
}

impl StateEvent {
    /// Whether this event reports an order fill.
    pub open spec fn is_fill(self) -> bool {
        self == StateEvent::Order(OrderEventKind::Filled)
    }
}

/// Whether an event batch contains at least one fill event.
pub open spec fn has_fill(events: Seq<StateEvent>) -> bool {
    exists|i: int| 0 <= i < events.len() && (#[trigger] events[i]).is_fill()
}

/// The request type of an order intent.
#[derive(Clone, Copy, Debug, PartialEq, Eq, Structural)]
pub enum RequestKind {
    OpenLong,
    OpenShort,
    Change,
    Cancel,
    CloseLong,
    CloseShort,
}

/// An order intent: what a strategy wants done, before it is prepared
/// against the snapshot and submitted. Transient; it exists only for the
/// duration of one execute call.
#[derive(Clone, Copy, Debug, PartialEq, Eq)]
pub struct OrderIntent {
    /// The perpetual the request is for.
    pub perpetual_id: PerpetualId,
    /// What the request does.
    pub kind: RequestKind,
    /// For `Change` and `Cancel`: the resting order it targets.
    pub target_order_id: Option<OrderId>,
    /// Limit price, fixed-point.
    pub price: u64,
    /// Size, fixed-point.
    pub size: u64,
    /// Rest-or-reject: never take liquidity.
    pub post_only: bool,
    /// Only reduce an existing position.
    pub reduce_only: bool,
    /// Fill immediately against resting liquidity, cancel the remainder.
    pub immediate_or_cancel: bool,
    /// Optional cap on matches for this order.
    pub max_matches: Option<u32>,
    /// Leverage, scaled by [`FIXED_ONE`].
    pub leverage: u64,
}

/// One batch of order intents, submitted as a single transaction.
#[derive(Clone, Debug)]
pub struct OrderBatch {
    /// The intents, in submission order.
    pub intents: Vec<OrderIntent>,
    /// Whether the exchange must execute the batch all-or-nothing.
    pub atomic: bool,
}

} // verus!

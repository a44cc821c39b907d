//! Behavior tests for the three strategies: lifecycle, plans, edge cases.

use perpl_market_making_bot::error::Error;
use perpl_market_making_bot::snapshot::{ExchangeSnapshot, PerpetualSnapshot, PositionEntry};
use perpl_market_making_bot::strategies::bbo::BboStrategy;
use perpl_market_making_bot::strategies::spread::SpreadStrategy;
use perpl_market_making_bot::strategies::taker::TakerStrategy;
use perpl_market_making_bot::strategies::{Strategy, StrategyType};
use perpl_market_making_bot::types::{
    OrderEventKind, OrderInfo, OrderKind, PositionInfo, PositionKind, RequestKind, StateEvent,
    FIXED_ONE,
};

const ACCOUNT: u64 = 7;
const OTHER_ACCOUNT: u64 = 8;
const PERP: u32 = 1;

fn order(id: u64, account: u64, kind: OrderKind, price: u64, size: u64) -> OrderInfo {
    OrderInfo {
        order_id: id,
        account_id: account,
        kind,
        price,
        size,
    }
}

fn snapshot_with(mark: u64, orders: Vec<OrderInfo>) -> ExchangeSnapshot {
    ExchangeSnapshot {
        accounts: vec![ACCOUNT],
        perpetuals: vec![PerpetualSnapshot {
            perpetual_id: PERP,
            mark_price: mark,
            orders,
        }],
        positions: vec![],
    }
}

fn fill_events() -> Vec<StateEvent> {
    vec![
        StateEvent::Other,
        StateEvent::Order(OrderEventKind::Placed),
        StateEvent::Order(OrderEventKind::Filled),
    ]
}

#[test]
fn initialize_fails_without_accounts() {
    let mut strat = BboStrategy::new(10, PERP);
    let snap = ExchangeSnapshot {
        accounts: vec![],
        perpetuals: vec![],
        positions: vec![],
    };
    let r = strat.initialize(&snap);
    assert!(matches!(r, Err(Error::NoAccountFoundForStrategy)));
    assert_eq!(strat.account(), None);
}

#[test]
fn initialize_fails_with_two_accounts() {
    let mut strat = SpreadStrategy::new(2, 10, PERP, None, FIXED_ONE);
    let snap = ExchangeSnapshot {
        accounts: vec![ACCOUNT, OTHER_ACCOUNT],
        perpetuals: vec![],
        positions: vec![],
    };
    let r = strat.initialize(&snap);
    assert!(matches!(r, Err(Error::TooManyAccountsForStrategy)));
    assert_eq!(strat.account_id, None);
}

#[test]
fn initialize_fails_when_perpetual_missing_but_still_binds() {
    let mut strat = TakerStrategy::new(10, FIXED_ONE, 99);
    let snap = snapshot_with(100, vec![]);
    let r = strat.initialize(&snap);
    assert!(matches!(r, Err(Error::PerpetualNotFoundInExchangeState(99))));
    // The binding is written before the perpetual check, as in the original
    // write-once cell.
    assert_eq!(strat.account_id, Some(ACCOUNT));
}

#[test]
fn initialize_twice_is_an_error() {
    let mut strat = BboStrategy::new(10, PERP);
    let snap = snapshot_with(100, vec![]);
    assert!(strat.initialize(&snap).is_ok());
    let r = strat.initialize(&snap);
    assert!(matches!(r, Err(Error::AccountIdAlreadySet)));
    assert_eq!(strat.account(), Some(ACCOUNT));
}

#[test]
fn bbo_initialize_cancels_all_resting_orders() {
    let mut strat = BboStrategy::new(10, PERP);
    let snap = snapshot_with(
        100,
        vec![
            order(1, ACCOUNT, OrderKind::OpenLong, 95, 10),
            order(2, OTHER_ACCOUNT, OrderKind::OpenShort, 105, 3),
            order(3, ACCOUNT, OrderKind::OpenShort, 106, 10),
        ],
    );
    let batch = strat.initialize(&snap).unwrap();
    assert!(batch.atomic);
    assert_eq!(batch.intents.len(), 2);
    assert_eq!(batch.intents[0].kind, RequestKind::Cancel);
    assert_eq!(batch.intents[0].target_order_id, Some(1));
    assert_eq!(batch.intents[1].target_order_id, Some(3));
    assert_eq!(batch.intents[0].price, 0);
    assert_eq!(batch.intents[0].size, 0);
}

#[test]
fn bbo_without_fill_event_is_a_no_op() {
    let mut strat = BboStrategy::new(10, PERP);
    let snap = snapshot_with(
        100,
        vec![
            order(1, OTHER_ACCOUNT, OrderKind::OpenLong, 95, 4),
            order(2, OTHER_ACCOUNT, OrderKind::OpenShort, 105, 4),
        ],
    );
    strat.initialize(&snap).unwrap();
    let no_fill = vec![
        StateEvent::Other,
        StateEvent::Order(OrderEventKind::Placed),
        StateEvent::Order(OrderEventKind::Cancelled),
    ];
    let batch = strat.execute(&snap, &no_fill);
    assert!(batch.intents.is_empty());
    let empty: Vec<StateEvent> = vec![];
    let batch = strat.execute(&snap, &empty);
    assert!(batch.intents.is_empty());
}

#[test]
fn bbo_places_both_quotes_on_an_empty_account() {
    let mut strat = BboStrategy::new(10, PERP);
    let snap = snapshot_with(
        100,
        vec![
            order(1, OTHER_ACCOUNT, OrderKind::OpenLong, 95, 4),
            order(2, OTHER_ACCOUNT, OrderKind::OpenLong, 96, 4),
            order(3, OTHER_ACCOUNT, OrderKind::OpenShort, 105, 4),
            order(4, OTHER_ACCOUNT, OrderKind::OpenShort, 104, 4),
        ],
    );
    strat.initialize(&snap).unwrap();
    let batch = strat.execute(&snap, &fill_events());
    assert!(batch.atomic);
    assert_eq!(batch.intents.len(), 2);
    let bid = &batch.intents[0];
    assert_eq!(bid.kind, RequestKind::OpenLong);
    assert_eq!(bid.price, 96);
    assert_eq!(bid.size, 10);
    assert!(bid.post_only);
    assert!(!bid.immediate_or_cancel);
    assert_eq!(bid.leverage, FIXED_ONE);
    let ask = &batch.intents[1];
    assert_eq!(ask.kind, RequestKind::OpenShort);
    assert_eq!(ask.price, 104);
    assert!(ask.post_only);
}

#[test]
fn bbo_moves_a_lagging_bid_and_keeps_a_good_ask() {
    let mut strat = BboStrategy::new(10, PERP);
    let init_snap = snapshot_with(100, vec![]);
    strat.initialize(&init_snap).unwrap();
    let snap = snapshot_with(
        100,
        vec![
            order(1, ACCOUNT, OrderKind::OpenLong, 90, 10),
            order(2, ACCOUNT, OrderKind::OpenShort, 104, 10),
            order(3, OTHER_ACCOUNT, OrderKind::OpenLong, 96, 4),
            order(4, OTHER_ACCOUNT, OrderKind::OpenShort, 105, 4),
        ],
    );
    let batch = strat.execute(&snap, &fill_events());
    // The bid lags the best bid (96) and is moved up; the ask (104) is
    // already at the best ask and stays.
    assert_eq!(batch.intents.len(), 1);
    assert_eq!(batch.intents[0].kind, RequestKind::Change);
    assert_eq!(batch.intents[0].target_order_id, Some(1));
    assert_eq!(batch.intents[0].price, 96);
    assert_eq!(batch.intents[0].size, 10);
}

#[test]
fn bbo_moves_a_lagging_ask_and_keeps_a_good_bid() {
    let mut strat = BboStrategy::new(10, PERP);
    let init_snap = snapshot_with(100, vec![]);
    strat.initialize(&init_snap).unwrap();
    let snap = snapshot_with(
        100,
        vec![
            order(1, ACCOUNT, OrderKind::OpenLong, 96, 10),
            order(2, ACCOUNT, OrderKind::OpenShort, 110, 10),
            order(3, OTHER_ACCOUNT, OrderKind::OpenLong, 96, 4),
            order(4, OTHER_ACCOUNT, OrderKind::OpenShort, 105, 4),
        ],
    );
    let batch = strat.execute(&snap, &fill_events());
    // The bid already sits at the best bid; the ask lags the best ask (105)
    // and is moved down.
    assert_eq!(batch.intents.len(), 1);
    assert_eq!(batch.intents[0].kind, RequestKind::Change);
    assert_eq!(batch.intents[0].target_order_id, Some(2));
    assert_eq!(batch.intents[0].price, 105);
}

#[test]
fn bbo_skips_a_one_sided_book() {
    let mut strat = BboStrategy::new(10, PERP);
    let snap = snapshot_with(100, vec![order(1, OTHER_ACCOUNT, OrderKind::OpenLong, 95, 4)]);
    strat.initialize(&snap).unwrap();
    let batch = strat.execute(&snap, &fill_events());
    assert!(batch.intents.is_empty());
}

#[test]
fn spread_places_the_whole_ladder_on_an_empty_book() {
    // Mark price 100 at a fixed-point scale of 1000: the two rungs per side
    // sit 0.2% apart, at 99.8, 99.6, 100.2 and 100.4.
    let mut strat = SpreadStrategy::new(2, 5, PERP, Some(3), FIXED_ONE);
    let snap = snapshot_with(100_000, vec![]);
    strat.initialize(&snap).unwrap();
    let batch = strat.execute(&snap, &[]);
    assert!(batch.atomic);
    assert_eq!(batch.intents.len(), 4);
    // The mark price rose from its initial zero, so ask-side changes come
    // first.
    assert_eq!(batch.intents[0].kind, RequestKind::OpenShort);
    assert_eq!(batch.intents[0].price, 100_200);
    assert_eq!(batch.intents[1].kind, RequestKind::OpenShort);
    assert_eq!(batch.intents[1].price, 100_400);
    assert_eq!(batch.intents[2].kind, RequestKind::OpenLong);
    assert_eq!(batch.intents[2].price, 99_800);
    assert_eq!(batch.intents[3].kind, RequestKind::OpenLong);
    assert_eq!(batch.intents[3].price, 99_600);
    for it in &batch.intents {
        assert_eq!(it.size, 5);
        assert!(it.post_only);
        assert_eq!(it.max_matches, Some(3));
        assert_eq!(it.leverage, FIXED_ONE);
        assert_eq!(it.target_order_id, None);
    }
    assert_eq!(strat.current_mark_price, 100_000);
}

#[test]
fn spread_puts_bids_first_when_the_mark_price_falls() {
    let mut strat = SpreadStrategy::new(1, 5, PERP, None, FIXED_ONE);
    let init_snap = snapshot_with(200_000, vec![]);
    strat.initialize(&init_snap).unwrap();
    strat.current_mark_price = 200_000;
    let snap = snapshot_with(100_000, vec![]);
    let batch = strat.execute(&snap, &[]);
    assert_eq!(batch.intents.len(), 2);
    assert_eq!(batch.intents[0].kind, RequestKind::OpenLong);
    assert_eq!(batch.intents[0].price, 99_800);
    assert_eq!(batch.intents[1].kind, RequestKind::OpenShort);
    assert_eq!(batch.intents[1].price, 100_200);
}

#[test]
fn spread_is_idempotent_once_the_ladder_rests() {
    let mut strat = SpreadStrategy::new(2, 5, PERP, None, FIXED_ONE);
    let snap = snapshot_with(
        100_000,
        vec![
            order(1, ACCOUNT, OrderKind::OpenLong, 99_800, 5),
            order(2, ACCOUNT, OrderKind::OpenLong, 99_600, 5),
            order(3, ACCOUNT, OrderKind::OpenShort, 100_200, 5),
            order(4, ACCOUNT, OrderKind::OpenShort, 100_400, 5),
        ],
    );
    strat.initialize(&snap).unwrap();
    strat.current_mark_price = 100_000;
    let batch = strat.execute(&snap, &[]);
    assert!(batch.intents.is_empty());
}

#[test]
fn spread_fixes_a_wrongly_sized_rung() {
    let mut strat = SpreadStrategy::new(1, 5, PERP, None, FIXED_ONE);
    let snap = snapshot_with(
        100_000,
        vec![
            order(1, ACCOUNT, OrderKind::OpenLong, 99_800, 9),
            order(2, ACCOUNT, OrderKind::OpenShort, 100_200, 5),
        ],
    );
    strat.initialize(&snap).unwrap();
    strat.current_mark_price = 100_000;
    let batch = strat.execute(&snap, &[]);
    assert_eq!(batch.intents.len(), 1);
    assert_eq!(batch.intents[0].kind, RequestKind::Change);
    assert_eq!(batch.intents[0].target_order_id, Some(1));
    assert_eq!(batch.intents[0].price, 99_800);
    assert_eq!(batch.intents[0].size, 5);
}

#[test]
fn spread_repurposes_an_off_ladder_order() {
    let mut strat = SpreadStrategy::new(1, 5, PERP, None, FIXED_ONE);
    let snap = snapshot_with(
        100_000,
        vec![
            order(1, ACCOUNT, OrderKind::OpenLong, 90_000, 5),
            order(2, ACCOUNT, OrderKind::OpenShort, 100_200, 5),
        ],
    );
    strat.initialize(&snap).unwrap();
    strat.current_mark_price = 100_000;
    let batch = strat.execute(&snap, &[]);
    assert_eq!(batch.intents.len(), 1);
    assert_eq!(batch.intents[0].kind, RequestKind::Change);
    assert_eq!(batch.intents[0].target_order_id, Some(1));
    assert_eq!(batch.intents[0].price, 99_800);
    assert_eq!(batch.intents[0].size, 5);
}

#[test]
fn spread_leaves_stale_orders_alone_once_the_ladder_rests() {
    // Extra resting orders beyond the ladder are repurposed only while
    // targets remain unmatched; with the ladder complete they stay.
    let mut strat = SpreadStrategy::new(1, 5, PERP, None, FIXED_ONE);
    let snap = snapshot_with(
        100_000,
        vec![
            order(1, ACCOUNT, OrderKind::OpenLong, 99_800, 5),
            order(2, ACCOUNT, OrderKind::OpenLong, 42, 5),
            order(3, ACCOUNT, OrderKind::OpenShort, 100_200, 5),
        ],
    );
    strat.initialize(&snap).unwrap();
    strat.current_mark_price = 100_000;
    let batch = strat.execute(&snap, &[]);
    assert!(batch.intents.is_empty());
}

#[test]
fn spread_collapses_colliding_rungs() {
    // At a tiny mark price the two rungs of a side land on the same integer
    // price: the target set collapses.
    let mut strat = SpreadStrategy::new(2, 5, PERP, None, FIXED_ONE);
    let snap = snapshot_with(100, vec![]);
    strat.initialize(&snap).unwrap();
    strat.current_mark_price = 100;
    let batch = strat.execute(&snap, &[]);
    // 100*499/500 and 100*498/500 both truncate to 99; the ask rungs also
    // collide at 100.
    assert_eq!(batch.intents.len(), 2);
    assert_eq!(batch.intents[0].kind, RequestKind::OpenLong);
    assert_eq!(batch.intents[0].price, 99);
    assert_eq!(batch.intents[1].kind, RequestKind::OpenShort);
    assert_eq!(batch.intents[1].price, 100);
}

#[test]
fn taker_closes_a_short_before_going_long() {
    let strat = TakerStrategy::new(1_000, FIXED_ONE, PERP);
    let pos = Some(PositionInfo {
        kind: PositionKind::Short,
        size: 42,
    });
    let intents = strat.plan_orders(pos, true, FIXED_ONE / 2);
    assert_eq!(intents.len(), 2);
    assert_eq!(intents[0].kind, RequestKind::CloseLong);
    assert_eq!(intents[0].size, 42);
    assert_eq!(intents[0].price, u64::MAX);
    assert!(intents[0].immediate_or_cancel);
    assert!(!intents[0].post_only);
    assert_eq!(intents[1].kind, RequestKind::OpenLong);
    assert_eq!(intents[1].size, 500);
    assert_eq!(intents[1].price, u64::MAX);
    assert!(intents[1].immediate_or_cancel);
}

#[test]
fn taker_closes_a_long_before_going_short() {
    let strat = TakerStrategy::new(1_000, FIXED_ONE, PERP);
    let pos = Some(PositionInfo {
        kind: PositionKind::Long,
        size: 9,
    });
    let intents = strat.plan_orders(pos, false, FIXED_ONE);
    assert_eq!(intents.len(), 2);
    assert_eq!(intents[0].kind, RequestKind::CloseShort);
    assert_eq!(intents[0].size, 9);
    assert_eq!(intents[0].price, 0);
    assert_eq!(intents[1].kind, RequestKind::OpenShort);
    assert_eq!(intents[1].size, 1_000);
    assert_eq!(intents[1].price, 0);
}

#[test]
fn taker_with_no_position_only_opens() {
    let strat = TakerStrategy::new(1_000, FIXED_ONE, PERP);
    let intents = strat.plan_orders(None, true, 1);
    assert_eq!(intents.len(), 1);
    assert_eq!(intents[0].kind, RequestKind::OpenLong);
    // The smallest multiplier rounds the size down to zero of the maximum.
    assert_eq!(intents[0].size, 0);
}

#[test]
fn taker_execute_draws_a_direction_and_a_bounded_size() {
    // With the maximum order size set to one whole, the drawn size equals
    // the multiplier, which the entropy source promises lies in (0, 1].
    let mut strat = TakerStrategy::new(FIXED_ONE, FIXED_ONE, PERP);
    let mut snap = snapshot_with(100, vec![]);
    snap.positions = vec![PositionEntry {
        account_id: ACCOUNT,
        perpetual_id: PERP,
        position: PositionInfo {
            kind: PositionKind::Short,
            size: 5,
        },
    }];
    strat.initialize(&snap).unwrap();
    for _ in 0..16 {
        let batch = strat.execute(&snap, &[]);
        assert!(!batch.atomic);
        let open = batch.intents.last().unwrap();
        assert!(matches!(
            open.kind,
            RequestKind::OpenLong | RequestKind::OpenShort
        ));
        assert!(open.immediate_or_cancel);
        assert!(1 <= open.size && open.size <= FIXED_ONE);
        if open.kind == RequestKind::OpenLong {
            // The short position is closed first.
            assert_eq!(batch.intents.len(), 2);
            assert_eq!(batch.intents[0].kind, RequestKind::CloseLong);
            assert_eq!(batch.intents[0].size, 5);
        } else {
            assert_eq!(batch.intents.len(), 1);
        }
    }
}

#[test]
fn strategy_type_dispatches_names_and_perpetuals() {
    let bbo = StrategyType::Bbo(BboStrategy::new(1, 3));
    let spread = StrategyType::Spread(SpreadStrategy::new(1, 1, 4, None, FIXED_ONE));
    let taker = StrategyType::Taker(TakerStrategy::new(1, FIXED_ONE, 5));
    assert_eq!(bbo.name(), "BBO");
    assert_eq!(spread.name(), "Spread");
    assert_eq!(taker.name(), "Taker");
    assert_eq!(bbo.perpetual_id(), 3);
    assert_eq!(spread.perpetual_id(), 4);
    assert_eq!(taker.perpetual_id(), 5);
}

#[test]
fn strategy_type_runs_its_variant() {
    let mut strat = StrategyType::Spread(SpreadStrategy::new(1, 5, PERP, None, FIXED_ONE));
    let snap = snapshot_with(100_000, vec![]);
    strat.initialize(&snap).unwrap();
    let batch = strat.execute(&snap, &[]);
    assert_eq!(batch.intents.len(), 2);
}

#[test]
fn error_descriptions_name_the_fault() {
    assert_eq!(
        Error::NoAccountFoundForStrategy.describe(),
        "no account found for strategy"
    );
    assert_eq!(
        Error::PerpetualNotFoundInExchangeState(9).describe(),
        "perpetual id not found in exchange state"
    );
}

//! Tests for the snapshot's read accessors.

use perpl_market_making_bot::snapshot::{ExchangeSnapshot, PerpetualSnapshot, PositionEntry};
use perpl_market_making_bot::types::{OrderInfo, OrderKind, PositionInfo, PositionKind};

fn order(id: u64, account: u64, kind: OrderKind, price: u64, size: u64) -> OrderInfo {
    OrderInfo {
        order_id: id,
        account_id: account,
        kind,
        price,
        size,
    }
}

fn book() -> PerpetualSnapshot {
    PerpetualSnapshot {
        perpetual_id: 2,
        mark_price: 1_000,
        orders: vec![
            order(1, 7, OrderKind::OpenLong, 990, 1),
            order(2, 8, OrderKind::OpenLong, 995, 2),
            order(3, 7, OrderKind::OpenShort, 1_010, 1),
            order(4, 8, OrderKind::CloseShort, 993, 2),
            order(5, 8, OrderKind::CloseLong, 1_005, 2),
        ],
    }
}

#[test]
fn best_bid_is_the_highest_buying_price() {
    // Orders that buy (open-long, and close-long, which buys a short
    // position back) rest on the bid side.
    assert_eq!(book().best_bid(), Some(1_005));
}

#[test]
fn best_ask_is_the_lowest_selling_price() {
    // Orders that sell (open-short, and close-short, which sells a long
    // position off) rest on the ask side.
    assert_eq!(book().best_ask(), Some(993));
}

#[test]
fn an_empty_book_has_no_best_prices() {
    let empty = PerpetualSnapshot {
        perpetual_id: 2,
        mark_price: 1_000,
        orders: vec![],
    };
    assert_eq!(empty.best_bid(), None);
    assert_eq!(empty.best_ask(), None);
}

#[test]
fn account_orders_keeps_book_order() {
    let own = book().account_orders(7);
    assert_eq!(own.len(), 2);
    assert_eq!(own[0].order_id, 1);
    assert_eq!(own[1].order_id, 3);
    assert!(book().account_orders(9).is_empty());
}

#[test]
fn lookups_find_perpetuals_and_positions() {
    let snap = ExchangeSnapshot {
        accounts: vec![7],
        perpetuals: vec![book()],
        positions: vec![PositionEntry {
            account_id: 7,
            perpetual_id: 2,
            position: PositionInfo {
                kind: PositionKind::Long,
                size: 3,
            },
        }],
    };
    assert_eq!(snap.find_perpetual(2).unwrap().mark_price, 1_000);
    assert!(snap.find_perpetual(9).is_none());
    let pos = snap.position_of(7, 2).unwrap();
    assert_eq!(pos.kind, PositionKind::Long);
    assert_eq!(pos.size, 3);
    assert!(snap.position_of(7, 9).is_none());
    assert!(snap.position_of(8, 2).is_none());
}

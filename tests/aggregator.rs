use depth_relay::market::{total_quantity_of, Aggregator, DepthUpdate, MarketView, PriceLevel};

fn lv(price: i64, quantity: u64) -> PriceLevel {
    PriceLevel { price, quantity }
}

fn update(bids: Vec<PriceLevel>, asks: Vec<PriceLevel>) -> DepthUpdate {
    DepthUpdate { bids, asks }
}

fn sample_update() -> DepthUpdate {
    update(vec![lv(100, 1), lv(99, 2)], vec![lv(101, 1), lv(102, 3)])
}

#[test]
fn two_sided_update_records_spread_and_volume() {
    let mut agg = Aggregator::new();
    let view = agg.apply_at(sample_update(), "12:00:00".to_string());
    assert_eq!(view.bids, vec![lv(100, 1), lv(99, 2)]);
    assert_eq!(view.asks, vec![lv(101, 1), lv(102, 3)]);
    assert_eq!(view.spread_history.len(), 1);
    assert_eq!(view.volume_history.len(), 1);
    assert_eq!(view.spread_history[0].spread, 1);
    assert_eq!(view.spread_history[0].timestamp, "12:00:00");
    assert_eq!(view.volume_history[0].total_bid_qty, 3);
    assert_eq!(view.volume_history[0].total_ask_qty, 4);
    assert_eq!(view.volume_history[0].timestamp, "12:00:00");
}

#[test]
fn empty_asks_append_nothing_but_replace_levels() {
    let mut agg = Aggregator::new();
    agg.apply_at(sample_update(), "12:00:00".to_string());
    let view = agg.apply_at(update(vec![lv(50, 7)], vec![]), "12:00:01".to_string());
    assert_eq!(view.bids, vec![lv(50, 7)]);
    assert!(view.asks.is_empty());
    assert_eq!(view.spread_history.len(), 1);
    assert_eq!(view.volume_history.len(), 1);
    assert_eq!(view.spread_history[0].timestamp, "12:00:00");
}

#[test]
fn empty_bids_append_nothing() {
    let mut agg = Aggregator::new();
    let view = agg.apply_at(update(vec![], vec![lv(10, 1)]), "01:02:03".to_string());
    assert!(view.bids.is_empty());
    assert_eq!(view.asks, vec![lv(10, 1)]);
    assert!(view.spread_history.is_empty());
    assert!(view.volume_history.is_empty());
}

#[test]
fn crossed_book_records_negative_spread() {
    let mut agg = Aggregator::new();
    let view = agg.apply_at(update(vec![lv(105, 1)], vec![lv(100, 2)]), "00:00:00".to_string());
    assert_eq!(view.spread_history[0].spread, -5);
}

#[test]
fn extreme_prices_do_not_overflow_the_spread() {
    let mut agg = Aggregator::new();
    let view = agg.apply_at(update(vec![lv(i64::MIN, 1)], vec![lv(i64::MAX, 1)]), "00:00:00".to_string());
    assert_eq!(view.spread_history[0].spread, i64::MAX as i128 - i64::MIN as i128);
}

#[test]
fn histories_are_bounded_and_evict_oldest_first() {
    let mut agg = Aggregator::new();
    for i in 0..1005i64 {
        let view = agg.apply_at(update(vec![lv(100, 1)], vec![lv(100 + i, 2)]), format!("{}", i));
        assert!(view.spread_history.len() <= 1000);
        assert!(view.volume_history.len() <= 1000);
        assert_eq!(view.spread_history.len(), view.volume_history.len());
    }
    let view = agg.current();
    assert_eq!(view.spread_history.len(), 1000);
    assert_eq!(view.spread_history[0].timestamp, "5");
    assert_eq!(view.spread_history[0].spread, 5);
    assert_eq!(view.volume_history[0].timestamp, "5");
    assert_eq!(view.spread_history[999].spread, 1004);
    for k in 0..1000 {
        assert_eq!(view.spread_history[k].spread, k as i128 + 5);
    }
}

#[test]
fn histories_stay_in_lock_step_with_mixed_updates() {
    let mut agg = Aggregator::new();
    for i in 0..20u64 {
        let u = if i % 3 == 0 {
            update(vec![], vec![lv(1, 1)])
        } else {
            update(vec![lv(1, i)], vec![lv(2, 1)])
        };
        let view = agg.apply_at(u, "10:10:10".to_string());
        assert_eq!(view.spread_history.len(), view.volume_history.len());
    }
    assert_eq!(agg.current().spread_history.len(), 13);
}

#[test]
fn current_matches_last_apply() {
    let mut agg = Aggregator::new();
    let applied = agg.apply_at(sample_update(), "09:30:00".to_string());
    let now = agg.current();
    assert_eq!(now.bids, applied.bids);
    assert_eq!(now.asks, applied.asks);
    assert_eq!(now.spread_history.len(), applied.spread_history.len());
    assert_eq!(now.spread_history[0].timestamp, applied.spread_history[0].timestamp);
}

#[test]
fn apply_stamps_local_time() {
    let mut agg = Aggregator::new();
    let view = agg.apply(sample_update());
    let ts = &view.spread_history[0].timestamp;
    assert_eq!(ts.len(), 8);
    assert_eq!(&ts[2..3], ":");
    assert_eq!(&ts[5..6], ":");
    assert_eq!(view.volume_history[0].timestamp, *ts);
    assert_eq!(view.spread_history[0].spread, 1);
}

#[test]
fn totals_sum_in_order() {
    assert_eq!(total_quantity_of(&vec![]), 0);
    assert_eq!(total_quantity_of(&vec![lv(1, 4), lv(2, 5), lv(3, 6)]), 15);
    assert_eq!(
        total_quantity_of(&vec![lv(1, u64::MAX), lv(2, u64::MAX)]),
        2 * (u64::MAX as u128)
    );
}

#[test]
fn new_view_is_empty() {
    let v = MarketView::new();
    assert!(v.bids.is_empty() && v.asks.is_empty());
    assert!(v.spread_history.is_empty() && v.volume_history.is_empty());
    let s = v.snapshot();
    assert!(s.bids.is_empty());
}

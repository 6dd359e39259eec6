use depth_relay::hub::Hub;
use depth_relay::market::{Aggregator, DepthUpdate, MarketView, PriceLevel};

fn view_with_bid(price: i64) -> MarketView {
    let mut agg = Aggregator::new();
    agg.apply_at(
        DepthUpdate { bids: vec![PriceLevel { price, quantity: 1 }], asks: vec![] },
        "00:00:00".to_string(),
    )
}

fn bid_of(v: &MarketView) -> i64 {
    v.bids[0].price
}

#[test]
fn late_subscriber_sees_only_later_publishes_in_order() {
    let mut hub = Hub::new(100);
    for p in 0..3 {
        hub.publish(&view_with_bid(p));
    }
    let id = hub.subscribe().unwrap();
    for p in 3..8 {
        hub.publish(&view_with_bid(p));
    }
    for p in 3..8 {
        assert_eq!(bid_of(&hub.recv(id).unwrap()), p);
    }
    assert!(hub.recv(id).is_none());
}

#[test]
fn saturated_subscriber_drops_oldest_and_others_still_receive() {
    let mut hub = Hub::new(2);
    let slow = hub.subscribe().unwrap();
    let fast = hub.subscribe().unwrap();
    for p in 0..5 {
        hub.publish(&view_with_bid(p));
        assert_eq!(bid_of(&hub.recv(fast).unwrap()), p);
    }
    assert_eq!(hub.pending(slow), Some(2));
    assert_eq!(bid_of(&hub.recv(slow).unwrap()), 3);
    assert_eq!(bid_of(&hub.recv(slow).unwrap()), 4);
    assert!(hub.recv(slow).is_none());
}

#[test]
fn unsubscribe_is_idempotent_and_leaves_others() {
    let mut hub = Hub::new(4);
    let a = hub.subscribe().unwrap();
    let b = hub.subscribe().unwrap();
    assert_ne!(a, b);
    assert!(hub.unsubscribe(a));
    assert!(!hub.unsubscribe(a));
    assert_eq!(hub.subscriber_count(), 1);
    hub.publish(&view_with_bid(9));
    assert!(hub.recv(a).is_none());
    assert_eq!(hub.pending(a), None);
    assert_eq!(bid_of(&hub.recv(b).unwrap()), 9);
}

#[test]
fn ids_are_fresh() {
    let mut hub = Hub::new(1);
    let a = hub.subscribe().unwrap();
    hub.unsubscribe(a);
    let b = hub.subscribe().unwrap();
    assert_ne!(a, b);
    assert_eq!(hub.pending(b), Some(0));
}

#[test]
fn publish_copies_the_whole_view() {
    let mut hub = Hub::new(3);
    let id = hub.subscribe().unwrap();
    let mut agg = Aggregator::new();
    let v = agg.apply_at(
        DepthUpdate {
            bids: vec![PriceLevel { price: 100, quantity: 1 }],
            asks: vec![PriceLevel { price: 101, quantity: 2 }],
        },
        "11:11:11".to_string(),
    );
    hub.publish(&v);
    let got = hub.recv(id).unwrap();
    assert_eq!(got.bids, v.bids);
    assert_eq!(got.asks, v.asks);
    assert_eq!(got.spread_history[0].timestamp, "11:11:11");
    assert_eq!(got.volume_history[0].total_ask_qty, 2);
}

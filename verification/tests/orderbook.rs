use flowrs_backend::numeric::parse_scaled;
use flowrs_backend::orderbook::{Level, OrderBook};
use flowrs_backend::types::{ClientMessage, DecimalValue};

fn scaled(s: &str) -> u64 {
    parse_scaled(s).unwrap()
}

fn levels(entries: &[(&str, &str)]) -> Vec<(u64, u64)> {
    entries.iter().map(|(p, q)| (scaled(p), scaled(q))).collect()
}

fn price(s: &str) -> DecimalValue {
    DecimalValue { mantissa: scaled(s) as i128, scale: 8 }
}

fn as_f64(d: DecimalValue) -> f64 {
    d.mantissa as f64 / 10f64.powi(d.scale as i32)
}

fn scenario_book() -> OrderBook {
    let mut book = OrderBook::new("BTCUSDT", "Binance");
    book.initialize_from_snapshot(
        levels(&[("100.00", "1.5"), ("99.00", "2.0")]),
        levels(&[("101.00", "1.0"), ("102.00", "3.0")]),
        100,
    );
    book
}

#[test]
fn new_book_is_empty() {
    let book = OrderBook::new("BTCUSDT", "Binance");
    assert!(!book.is_initialized());
    assert_eq!(book.last_update_id(), 0);
    assert_eq!(book.best_bid(), None);
    assert_eq!(book.best_ask(), None);
    assert_eq!(book.spread(), None);
    assert_eq!(book.max_depth(), 25);
    assert_eq!(book.symbol(), "BTCUSDT");
    assert_eq!(book.exchange(), "Binance");
}

#[test]
fn snapshot_init() {
    let book = scenario_book();
    assert_eq!(book.best_bid(), Some(price("100.00")));
    assert_eq!(book.best_ask(), Some(price("101.00")));
    let (spread, percent) = book.spread().unwrap();
    assert_eq!(spread, price("1.00"));
    let expected = 1.0 / 100.5 * 100.0;
    assert!((as_f64(percent) - expected).abs() < 1e-9);
    assert!(as_f64(percent) > 0.995 && as_f64(percent) < 0.9951);
    assert!(book.is_initialized());
    assert_eq!(book.last_update_id(), 100);
}

#[test]
fn level_insert_via_delta() {
    let mut book = scenario_book();
    let changed = book.apply_update(levels(&[("100.50", "2.0")]), vec![], 101, 101);
    assert!(changed);
    assert_eq!(book.best_bid(), Some(price("100.50")));
    assert_eq!(book.last_update_id(), 101);
}

#[test]
fn level_delete_via_zero_qty() {
    let mut book = scenario_book();
    assert!(book.apply_update(levels(&[("100.50", "2.0")]), vec![], 101, 101));
    let changed = book.apply_update(levels(&[("100.50", "0")]), vec![], 102, 102);
    assert!(changed);
    assert_eq!(book.best_bid(), Some(price("100.00")));
    assert_eq!(book.last_update_id(), 102);
}

#[test]
fn depth_cap() {
    let mut book = OrderBook::with_depth("BTCUSDT", "Binance", 10);
    let bids: Vec<(u64, u64)> = (96..=105u64).map(|p| (p * 100_000_000, 100_000_000)).collect();
    let asks: Vec<(u64, u64)> = (106..=115u64).map(|p| (p * 100_000_000, 100_000_000)).collect();
    book.initialize_from_snapshot(bids, asks, 1);
    assert_eq!(book.depth(), (10, 10));
    let changed = book.apply_update(levels(&[("95.00", "1.0")]), vec![], 2, 2);
    assert!(!changed);
    assert_eq!(book.depth(), (10, 10));
    assert_eq!(book.best_bid(), Some(price("105.00")));
    let (bids, _) = book.get_top_levels(10);
    assert_eq!(bids[9].price, price("96.00"));
}

#[test]
fn depth_cap_drops_the_farthest_level() {
    let mut book = OrderBook::with_depth("BTCUSDT", "Binance", 3);
    book.initialize_from_snapshot(
        levels(&[("10", "1"), ("9", "1"), ("8", "1")]),
        levels(&[("11", "1"), ("12", "1"), ("13", "1")]),
        1,
    );
    assert!(book.apply_update(levels(&[("9.5", "2")]), levels(&[("11.5", "2")]), 2, 2));
    let (bids, asks) = book.get_top_levels(5);
    let bid_prices: Vec<DecimalValue> = bids.iter().map(|l| l.price).collect();
    let ask_prices: Vec<DecimalValue> = asks.iter().map(|l| l.price).collect();
    assert_eq!(bid_prices, vec![price("10"), price("9.5"), price("9")]);
    assert_eq!(ask_prices, vec![price("11"), price("11.5"), price("12")]);
}

#[test]
fn snapshot_reset_mid_stream() {
    let mut book = scenario_book();
    assert!(book.apply_update(levels(&[("100.50", "2.0")]), levels(&[("100.75", "1.0")]), 500, 500));
    assert_eq!(book.last_update_id(), 500);
    book.initialize_from_snapshot(levels(&[("50", "1")]), levels(&[("60", "2")]), 7);
    assert_eq!(book.last_update_id(), 7);
    assert!(book.is_initialized());
    let (bids, asks) = book.get_top_levels(25);
    assert_eq!(bids.len(), 1);
    assert_eq!(asks.len(), 1);
    assert_eq!(bids[0].price, price("50"));
    assert_eq!(bids[0].quantity, price("1"));
    assert_eq!(asks[0].price, price("60"));
    assert_eq!(asks[0].quantity, price("2"));
}

#[test]
fn snapshot_filters_sorts_and_truncates() {
    let mut book = OrderBook::with_depth("ETHUSDT", "Bybit", 2);
    book.initialize_from_snapshot(
        levels(&[("5", "1"), ("7", "0"), ("9", "3"), ("6", "2"), ("8", "0")]),
        levels(&[("15", "1"), ("11", "0"), ("12", "3"), ("14", "2")]),
        3,
    );
    let (bids, asks) = book.get_top_levels(10);
    assert_eq!(bids.len(), 2);
    assert_eq!((bids[0].price, bids[0].quantity), (price("9"), price("3")));
    assert_eq!((bids[1].price, bids[1].quantity), (price("6"), price("2")));
    assert_eq!(asks.len(), 2);
    assert_eq!((asks[0].price, asks[0].quantity), (price("12"), price("3")));
    assert_eq!((asks[1].price, asks[1].quantity), (price("14"), price("2")));
}

#[test]
fn snapshot_keeps_the_last_entry_of_a_price() {
    let mut book = OrderBook::new("ETHUSDT", "Bybit");
    book.initialize_from_snapshot(levels(&[("5", "1"), ("6", "2"), ("5", "4")]), vec![], 3);
    let (bids, _) = book.get_top_levels(10);
    assert_eq!(bids.len(), 2);
    assert_eq!((bids[0].price, bids[0].quantity), (price("6"), price("2")));
    assert_eq!((bids[1].price, bids[1].quantity), (price("5"), price("4")));
}

#[test]
fn snapshot_twice_equals_once() {
    let bids = levels(&[("100.00", "1.5"), ("99.00", "2.0"), ("98", "0")]);
    let asks = levels(&[("101.00", "1.0"), ("102.00", "3.0")]);
    let mut once = OrderBook::new("BTCUSDT", "Binance");
    once.initialize_from_snapshot(bids.clone(), asks.clone(), 100);
    let mut twice = OrderBook::new("BTCUSDT", "Binance");
    twice.initialize_from_snapshot(bids.clone(), asks.clone(), 100);
    twice.initialize_from_snapshot(bids, asks, 100);
    assert_eq!(once.get_top_levels(25), twice.get_top_levels(25));
    assert_eq!(once.last_update_id(), twice.last_update_id());
    assert_eq!(once.is_initialized(), twice.is_initialized());
    assert_eq!(once.depth(), twice.depth());
}

#[test]
fn empty_delta_changes_nothing() {
    let mut book = scenario_book();
    let before = book.get_top_levels(25);
    let changed = book.apply_update(vec![], vec![], 100, 100);
    assert!(!changed);
    assert_eq!(book.get_top_levels(25), before);
    assert_eq!(book.last_update_id(), 100);
    assert!(book.is_initialized());
    assert!(!book.apply_update(vec![], vec![], 101, 105));
    assert_eq!(book.get_top_levels(25), before);
    assert_eq!(book.last_update_id(), 105);
}

#[test]
fn delta_updates_quantity_in_place() {
    let mut book = scenario_book();
    assert!(!book.apply_update(levels(&[("100.00", "1.5")]), vec![], 101, 101));
    assert!(book.apply_update(levels(&[("100.00", "4")]), levels(&[("102", "0")]), 102, 102));
    let (bids, asks) = book.get_top_levels(25);
    assert_eq!(bids[0].quantity, price("4"));
    assert_eq!(asks.len(), 1);
    assert!(!book.apply_update(levels(&[("77", "0")]), vec![], 103, 103));
    assert_eq!(book.last_update_id(), 103);
}

#[test]
fn delta_with_a_lower_id_is_applied() {
    let mut book = scenario_book();
    assert!(book.apply_update(levels(&[("100.50", "2.0")]), vec![], 0, 5));
    assert_eq!(book.last_update_id(), 5);
    assert_eq!(book.best_bid(), Some(price("100.50")));
}

#[test]
fn sides_stay_strictly_monotone() {
    let mut book = OrderBook::with_depth("BTCUSDT", "Kraken", 4);
    let mut seed: u64 = 12345;
    for round in 0..400u64 {
        let mut bids = Vec::new();
        let mut asks = Vec::new();
        for _ in 0..5 {
            seed = seed.wrapping_mul(6364136223846793005).wrapping_add(1442695040888963407);
            let p = (seed >> 33) % 12 + 1;
            let q = (seed >> 20) % 3;
            bids.push((p, q));
            asks.push((p + 20, (q + 1) % 3));
        }
        if round % 50 == 0 {
            book.initialize_from_snapshot(bids, asks, round);
        } else {
            book.apply_update(bids, asks, round, round);
        }
        let (bids, asks) = book.get_top_levels(100);
        assert!(bids.len() <= 4 && asks.len() <= 4);
        for w in bids.windows(2) {
            assert!(w[0].price.mantissa > w[1].price.mantissa);
        }
        for w in asks.windows(2) {
            assert!(w[0].price.mantissa < w[1].price.mantissa);
        }
        for l in bids.iter().chain(asks.iter()) {
            assert!(l.quantity.mantissa > 0);
        }
    }
}

#[test]
fn crossed_book_is_reported() {
    let mut book = scenario_book();
    assert!(!book.is_crossed());
    assert!(book.apply_update(levels(&[("101.50", "1")]), vec![], 101, 101));
    assert!(book.is_crossed());
    let (spread, _) = book.spread().unwrap();
    assert_eq!(spread, DecimalValue { mantissa: -50_000_000, scale: 8 });
}

#[test]
fn client_message_carries_the_top_levels() {
    let book = scenario_book();
    match book.to_client_message(1) {
        ClientMessage::BookUpdate { exchange, symbol, bids, asks, spread, .. } => {
            assert_eq!(exchange, "Binance");
            assert_eq!(symbol, "BTCUSDT");
            assert_eq!(bids.len(), 1);
            assert_eq!(asks.len(), 1);
            assert_eq!(bids[0].price, price("100"));
            assert_eq!(asks[0].price, price("101"));
            assert_eq!(spread, price("1"));
        }
        _ => panic!("not a book update"),
    }
    let empty = OrderBook::new("BTCUSDT", "Binance");
    match empty.to_client_message(3) {
        ClientMessage::BookUpdate { bids, asks, spread, spread_percent, .. } => {
            assert!(bids.is_empty() && asks.is_empty());
            assert_eq!(spread, DecimalValue { mantissa: 0, scale: 0 });
            assert_eq!(spread_percent, DecimalValue { mantissa: 0, scale: 0 });
        }
        _ => panic!("not a book update"),
    }
}

#[test]
fn level_is_a_pair_of_scaled_values() {
    let l = Level { price: 1, qty: 2 };
    assert_eq!(l, Level { price: 1, qty: 2 });
}

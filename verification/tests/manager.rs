use flowrs_backend::exchanges::binance::BinanceConnector;
use flowrs_backend::exchanges::bybit::BybitConnector;
use flowrs_backend::exchanges::kraken::KrakenConnector;
use flowrs_backend::exchanges::manager::{
    apply_rest_snapshot, handle_text_message, next_step, record_outcome, ConnectionAction,
    ConnectionEvent, ConnectionState, ExchangeManager, FrameKind,
};
use flowrs_backend::exchanges::{
    DepthSnapshot, Exchange, ExchangeConnector, MarketMessage, ParseError,
};
use flowrs_backend::metrics::MetricsCollector;
use flowrs_backend::registry::{book_key, OrderBookManager};
use flowrs_backend::types::{ClientMessage, DecimalValue, Trade, TradeSide};

fn symbols() -> Vec<String> {
    vec!["BTCUSDT".to_string()]
}

fn price(v: u64) -> DecimalValue {
    DecimalValue { mantissa: v as i128, scale: 8 }
}

#[test]
fn book_keys() {
    assert_eq!(book_key("Binance", "BTCUSDT"), "Binance:BTCUSDT");
    assert_eq!(book_key("", ""), ":");
}

#[test]
fn registry_makes_books_on_first_sight() {
    let mut r = OrderBookManager::with_symbols(&["BTCUSDT"]);
    assert!(r.get("Binance", "BTCUSDT").is_none());
    assert!(r.iter().is_empty());
    let b = r.get_or_create("Binance", "BTCUSDT");
    assert!(!b.is_initialized());
    assert_eq!(b.symbol(), "BTCUSDT");
    assert_eq!(b.exchange(), "Binance");
    assert!(r.get("Binance", "BTCUSDT").is_some());
    assert!(r.get("Bybit", "BTCUSDT").is_none());
    assert!(!r.apply_snapshot("Binance", "BTCUSDT", vec![(100, 1)], vec![(101, 2)], 9));
    let b = r.get_or_create("Binance", "BTCUSDT");
    assert!(b.is_initialized());
    assert_eq!(b.last_update_id(), 9);
    assert_eq!(r.apply_update("Binance", "BTCUSDT", vec![(100, 3)], vec![], 10, 10), (true, false));
    assert_eq!(r.apply_update("Binance", "BTCUSDT", vec![(100, 3)], vec![], 11, 11), (false, false));
    assert_eq!(r.apply_update("Kraken", "ETHUSDT", vec![(5, 5)], vec![], 1, 1), (true, false));
    let mut keys: Vec<String> = r.iter().into_iter().map(|(k, _)| k).collect();
    keys.sort();
    assert_eq!(keys, vec!["Binance:BTCUSDT".to_string(), "Kraken:ETHUSDT".to_string()]);
    let b = r.get("Binance", "BTCUSDT").unwrap();
    assert_eq!(b.last_update_id(), 11);
    assert_eq!(b.get_top_levels(1).0[0].quantity, price(3));
    let k = r.get("Kraken", "ETHUSDT").unwrap();
    assert!(!k.is_initialized());
    assert_eq!(k.best_bid(), Some(price(5)));
}

#[test]
fn messages_are_applied_to_the_books() {
    let mut r = OrderBookManager::with_symbols(&[]);
    let snapshot = MarketMessage::DepthUpdate {
        exchange: Exchange::Bybit,
        symbol: "BTCUSDT".to_string(),
        bids: vec![(100, 1), (99, 1)],
        asks: vec![(101, 1)],
        update_id: 50,
        is_snapshot: true,
    };
    let d = r.process_market_message(snapshot);
    assert!(d.broadcast.is_none() && !d.crossed);
    let delta = MarketMessage::DepthUpdate {
        exchange: Exchange::Bybit,
        symbol: "BTCUSDT".to_string(),
        bids: vec![(100, 0)],
        asks: vec![],
        update_id: 51,
        is_snapshot: false,
    };
    assert!(r.process_market_message(delta).broadcast.is_none());
    let b = r.get("Bybit", "BTCUSDT").unwrap();
    assert_eq!(b.best_bid(), Some(price(99)));
    assert_eq!(b.last_update_id(), 51);
    let reset = MarketMessage::DepthUpdate {
        exchange: Exchange::Bybit,
        symbol: "BTCUSDT".to_string(),
        bids: vec![(7, 1)],
        asks: vec![],
        update_id: 3,
        is_snapshot: true,
    };
    assert!(r.process_market_message(reset).broadcast.is_none());
    let b = r.get("Bybit", "BTCUSDT").unwrap();
    assert_eq!(b.best_bid(), Some(price(7)));
    assert_eq!(b.best_ask(), None);
    assert_eq!(b.last_update_id(), 3);
    let trade = Trade {
        exchange: "Bybit".to_string(),
        symbol: "BTCUSDT".to_string(),
        price: 1,
        quantity: 1,
        side: TradeSide::Sell,
        timestamp: 0,
    };
    match r.process_market_message(MarketMessage::Trade(trade)).broadcast {
        Some(ClientMessage::Trade(t)) => assert_eq!(t.side, TradeSide::Sell),
        _ => panic!("the trade is not handed on"),
    }
    assert!(r.process_market_message(MarketMessage::Raw("x".to_string())).broadcast.is_none());
    assert_eq!(r.iter().len(), 1);
}

#[test]
fn a_crossed_book_is_reported() {
    let mut r = OrderBookManager::with_symbols(&[]);
    assert!(r.apply_snapshot("Bybit", "BTCUSDT", vec![(100, 1)], vec![(100, 1)], 1));
    assert_eq!(r.apply_update("Bybit", "BTCUSDT", vec![(100, 0), (99, 1)], vec![], 2, 2), (true, false));
    let crossing = MarketMessage::DepthUpdate {
        exchange: Exchange::Bybit,
        symbol: "BTCUSDT".to_string(),
        bids: vec![(101, 1)],
        asks: vec![],
        update_id: 3,
        is_snapshot: false,
    };
    assert!(r.process_market_message(crossing).crossed);
    let connector = ExchangeConnector::Bybit(BybitConnector::new(symbols()));
    let mut metrics = MetricsCollector::new(0);
    let raw = r#"{"topic":"orderbook.50.BTCUSDT","type":"delta","data":{"b":[],"a":[["0.00000099","1"]],"u":8}}"#;
    let outcome = handle_text_message(raw, &connector, &mut r, &mut metrics);
    assert!(outcome.processed && outcome.crossed);
    let fixing = r#"{"topic":"orderbook.50.BTCUSDT","type":"snapshot","data":{"b":[["1","1"]],"a":[["2","1"]],"u":9}}"#;
    let outcome = handle_text_message(fixing, &connector, &mut r, &mut metrics);
    assert!(outcome.processed && !outcome.crossed);
}

#[test]
fn text_frames_are_counted_read_and_applied() {
    let connector = ExchangeConnector::Bybit(BybitConnector::new(symbols()));
    let mut books = OrderBookManager::with_symbols(&[]);
    let mut metrics = MetricsCollector::new(0);
    let raw = r#"{"topic":"orderbook.50.BTCUSDT","type":"snapshot","data":{"b":[["100","1"]],"a":[["101","1"]],"u":8}}"#;
    let outcome = handle_text_message(raw, &connector, &mut books, &mut metrics);
    assert!(outcome.processed && outcome.relevant);
    assert!(outcome.broadcast.is_none() && outcome.error.is_none());
    record_outcome(&mut metrics, &outcome, 120);
    let b = books.get("Bybit", "BTCUSDT").unwrap();
    assert_eq!(b.last_update_id(), 8);
    assert_eq!(b.best_ask(), Some(price(10_100_000_000)));

    let trade = r#"{"topic":"publicTrade.BTCUSDT","data":[{"S":"Buy","v":"1","p":"2","T":5}]}"#;
    let outcome = handle_text_message(trade, &connector, &mut books, &mut metrics);
    assert!(outcome.processed && outcome.relevant);
    assert!(matches!(outcome.broadcast, Some(ClientMessage::Trade(_))));
    record_outcome(&mut metrics, &outcome, 80);

    let ignored = handle_text_message(r#"{"op":"pong"}"#, &connector, &mut books, &mut metrics);
    assert!(!ignored.processed && !ignored.relevant && ignored.error.is_none());
    record_outcome(&mut metrics, &ignored, 999);
    let failed = handle_text_message("not json", &connector, &mut books, &mut metrics);
    assert_eq!(failed.error, Some(ParseError::InvalidJson));
    assert!(!failed.processed);
    record_outcome(&mut metrics, &failed, 999);

    let m = metrics.compute_metrics(1_000_000);
    assert_eq!(m.total_messages, 2);
    assert_eq!(m.latency_sum_us, 200);
    assert_eq!(m.latency_samples, 2);
    assert_eq!(m.bytes_received, (raw.len() + trade.len() + r#"{"op":"pong"}"#.len() + "not json".len()) as u64);
}

#[test]
fn rest_snapshot_is_scaled_and_applied() {
    let mut books = OrderBookManager::with_symbols(&[]);
    let snapshot = DepthSnapshot {
        bids: vec![
            ("100.5".to_string(), "2".to_string()),
            ("junk".to_string(), "2".to_string()),
            ("99".to_string(), "0".to_string()),
        ],
        asks: vec![("101".to_string(), "1".to_string())],
        last_update_id: 1234,
    };
    apply_rest_snapshot(&mut books, Exchange::Binance, "BTCUSDT", &snapshot);
    let b = books.get("Binance", "BTCUSDT").unwrap();
    assert!(b.is_initialized());
    assert_eq!(b.last_update_id(), 1234);
    assert_eq!(b.depth(), (1, 1));
    assert_eq!(b.best_bid(), Some(price(10_050_000_000)));
}

#[test]
fn connection_cycle_with_rest_snapshots() {
    assert_eq!(next_step(ConnectionState::Initializing, ConnectionEvent::SnapshotsFetched, true), (ConnectionState::SnapshotReady, ConnectionAction::Connect));
    assert_eq!(next_step(ConnectionState::SnapshotReady, ConnectionEvent::Connected, true), (ConnectionState::Subscribing, ConnectionAction::SendSubscriptions));
    assert_eq!(next_step(ConnectionState::Subscribing, ConnectionEvent::SubscriptionsSent, true), (ConnectionState::Streaming, ConnectionAction::ReadFrame));
    assert_eq!(next_step(ConnectionState::Streaming, ConnectionEvent::Frame(FrameKind::Text), true), (ConnectionState::Streaming, ConnectionAction::ProcessText));
    assert_eq!(next_step(ConnectionState::Streaming, ConnectionEvent::Frame(FrameKind::Binary), true), (ConnectionState::Streaming, ConnectionAction::ReadFrame));
    assert_eq!(next_step(ConnectionState::Streaming, ConnectionEvent::Frame(FrameKind::Ping), true), (ConnectionState::Streaming, ConnectionAction::ReadFrame));
    assert_eq!(next_step(ConnectionState::Streaming, ConnectionEvent::Frame(FrameKind::Pong), true), (ConnectionState::Streaming, ConnectionAction::ReadFrame));
    assert_eq!(next_step(ConnectionState::Streaming, ConnectionEvent::Frame(FrameKind::Close), true), (ConnectionState::Backoff, ConnectionAction::Reconnect));
    assert_eq!(next_step(ConnectionState::Streaming, ConnectionEvent::StreamError, true), (ConnectionState::Backoff, ConnectionAction::Reconnect));
    assert_eq!(next_step(ConnectionState::Streaming, ConnectionEvent::StreamEnded, true), (ConnectionState::Backoff, ConnectionAction::Reconnect));
    assert_eq!(next_step(ConnectionState::Backoff, ConnectionEvent::BackoffElapsed, true), (ConnectionState::Initializing, ConnectionAction::FetchSnapshots));
    assert_eq!(next_step(ConnectionState::Backoff, ConnectionEvent::Connected, true), (ConnectionState::Backoff, ConnectionAction::Wait));
    assert_eq!(next_step(ConnectionState::SnapshotReady, ConnectionEvent::ConnectFailed, true), (ConnectionState::Backoff, ConnectionAction::Reconnect));
    assert_eq!(next_step(ConnectionState::Subscribing, ConnectionEvent::SubscriptionFailed, true), (ConnectionState::Backoff, ConnectionAction::Reconnect));
    assert_eq!(next_step(ConnectionState::Initializing, ConnectionEvent::Connected, true), (ConnectionState::Backoff, ConnectionAction::Reconnect));
}

#[test]
fn connection_cycle_without_rest_snapshots() {
    assert_eq!(next_step(ConnectionState::Initializing, ConnectionEvent::Connected, false), (ConnectionState::Subscribing, ConnectionAction::SendSubscriptions));
    assert_eq!(next_step(ConnectionState::Initializing, ConnectionEvent::ConnectFailed, false), (ConnectionState::Backoff, ConnectionAction::Reconnect));
    assert_eq!(next_step(ConnectionState::Initializing, ConnectionEvent::SnapshotsFetched, false), (ConnectionState::Backoff, ConnectionAction::Reconnect));
    assert_eq!(next_step(ConnectionState::Backoff, ConnectionEvent::BackoffElapsed, false), (ConnectionState::Initializing, ConnectionAction::Connect));
}

#[test]
fn manager_tracks_each_venue() {
    let mut manager = ExchangeManager::new(vec![
        ExchangeConnector::Binance(BinanceConnector::new(symbols())),
        ExchangeConnector::Kraken(KrakenConnector::new(symbols())),
    ]);
    let mut metrics = MetricsCollector::new(0);
    assert_eq!(manager.len(), 2);
    assert_eq!(manager.connector(1).exchange(), Exchange::Kraken);
    assert_eq!(manager.start(0), ConnectionAction::FetchSnapshots);
    assert_eq!(manager.start(1), ConnectionAction::Connect);
    assert_eq!(manager.state(0), ConnectionState::Initializing);
    assert_eq!(
        manager.advance(0, ConnectionEvent::SnapshotsFetched, &mut metrics),
        ConnectionAction::Connect
    );
    assert_eq!(
        manager.advance(1, ConnectionEvent::Connected, &mut metrics),
        ConnectionAction::SendSubscriptions
    );
    assert_eq!(manager.state(0), ConnectionState::SnapshotReady);
    assert_eq!(manager.state(1), ConnectionState::Subscribing);
    assert_eq!(
        manager.advance(0, ConnectionEvent::ConnectFailed, &mut metrics),
        ConnectionAction::Reconnect
    );
    assert_eq!(manager.state(0), ConnectionState::Backoff);
    assert_eq!(manager.advance(0, ConnectionEvent::StreamError, &mut metrics), ConnectionAction::Wait);
    assert_eq!(
        manager.advance(1, ConnectionEvent::SubscriptionsSent, &mut metrics),
        ConnectionAction::ReadFrame
    );
    assert_eq!(
        manager.advance(1, ConnectionEvent::Frame(FrameKind::Close), &mut metrics),
        ConnectionAction::Reconnect
    );
    assert_eq!(
        manager.advance(1, ConnectionEvent::BackoffElapsed, &mut metrics),
        ConnectionAction::Connect
    );
    assert_eq!(metrics.compute_metrics(1).websocket_reconnects, 2);
}

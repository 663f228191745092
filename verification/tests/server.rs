use flowrs_backend::metrics::MetricsCollector;
use flowrs_backend::orderbook::OrderBook;
use flowrs_backend::server::{
    on_event, ClientFrame, SessionAction, SessionEvent, SubscriberSession,
};
use flowrs_backend::types::{ClientMessage, Trade, TradeSide};

fn book(symbol: &str, id: u64) -> OrderBook {
    let mut b = OrderBook::new(symbol, "Binance");
    b.initialize_from_snapshot(vec![(100, 1)], vec![(101, 1)], id);
    b
}

fn trade() -> Trade {
    Trade {
        exchange: "Binance".to_string(),
        symbol: "BTCUSDT".to_string(),
        price: 1,
        quantity: 2,
        side: TradeSide::Buy,
        timestamp: 3,
    }
}

#[test]
fn a_book_is_sent_once_per_update_id() {
    let mut s = SubscriberSession::new();
    let b = book("BTCUSDT", 5);
    assert!(s.is_due("Binance:BTCUSDT", &b));
    assert!(s.poll_book("Binance:BTCUSDT", &b, 3).is_some());
    assert_eq!(s.last_sent_update_id("Binance:BTCUSDT"), Some(5));
    assert!(!s.is_due("Binance:BTCUSDT", &b));
    assert!(s.poll_book("Binance:BTCUSDT", &b, 3).is_none());
    assert!(s.poll_book("Binance:BTCUSDT", &b, 3).is_none());
    assert!(s.is_due("Bybit:BTCUSDT", &b));
}

#[test]
fn an_uninitialized_book_is_not_sent() {
    let mut s = SubscriberSession::new();
    let b = OrderBook::new("BTCUSDT", "Binance");
    assert!(!s.is_due("Binance:BTCUSDT", &b));
    assert!(s.poll_book("Binance:BTCUSDT", &b, 3).is_none());
    assert_eq!(s.last_sent_update_id("Binance:BTCUSDT"), None);
}

#[test]
fn coalesced_subscriber_send() {
    let mut s = SubscriberSession::new();
    let mut b = book("BTCUSDT", 0);
    let books = vec![("Binance:BTCUSDT".to_string(), b.clone())];
    assert_eq!(s.poll(&books, 3).len(), 1);
    for id in 1..=1000u64 {
        b.apply_update(vec![(100, id)], vec![], id, id);
    }
    let books = vec![("Binance:BTCUSDT".to_string(), b.clone())];
    let sent = s.poll(&books, 3);
    assert_eq!(sent.len(), 1);
    match &sent[0] {
        ClientMessage::BookUpdate { symbol, bids, .. } => {
            assert_eq!(symbol, "BTCUSDT");
            assert_eq!(bids[0].quantity.mantissa, 1000);
        }
        _ => panic!("not a book update"),
    }
    assert_eq!(s.last_sent_update_id("Binance:BTCUSDT"), Some(1000));
    assert!(s.poll(&books, 3).is_empty());
}

#[test]
fn poll_sends_only_what_changed() {
    let mut s = SubscriberSession::new();
    let a = book("BTCUSDT", 1);
    let mut b = book("ETHUSDT", 1);
    let c = OrderBook::new("SOLUSDT", "Binance");
    let books = |a: &OrderBook, b: &OrderBook, c: &OrderBook| {
        vec![
            ("Binance:BTCUSDT".to_string(), a.clone()),
            ("Binance:ETHUSDT".to_string(), b.clone()),
            ("Binance:SOLUSDT".to_string(), c.clone()),
        ]
    };
    assert_eq!(s.poll(&books(&a, &b, &c), 3).len(), 2);
    assert!(s.poll(&books(&a, &b, &c), 3).is_empty());
    b.apply_update(vec![], vec![], 2, 2);
    let sent = s.poll(&books(&a, &b, &c), 3);
    assert_eq!(sent.len(), 1);
    match &sent[0] {
        ClientMessage::BookUpdate { symbol, .. } => assert_eq!(symbol, "ETHUSDT"),
        _ => panic!("not a book update"),
    }
    b.apply_update(vec![], vec![], 1, 1);
    assert_eq!(s.poll(&books(&a, &b, &c), 3).len(), 1);
}

#[test]
fn greeting_frames() {
    let mut s = SubscriberSession::new();
    let mut collector = MetricsCollector::new(0);
    let metrics = collector.compute_metrics(1);
    let books = vec![
        ("Binance:BTCUSDT".to_string(), book("BTCUSDT", 1)),
        ("Binance:ETHUSDT".to_string(), OrderBook::new("ETHUSDT", "Binance")),
    ];
    let frames = s.greeting(vec!["BTCUSDT".to_string(), "ETHUSDT".to_string()], &books, metrics, 3);
    assert_eq!(frames.len(), 3);
    match &frames[0] {
        ClientMessage::SymbolList(l) => assert_eq!(l, &vec!["BTCUSDT".to_string(), "ETHUSDT".to_string()]),
        _ => panic!("not a symbol list"),
    }
    assert!(matches!(&frames[1], ClientMessage::BookUpdate { .. }));
    match &frames[2] {
        ClientMessage::Metrics(m) => assert_eq!(*m, metrics),
        _ => panic!("not metrics"),
    }
    assert!(s.poll(&books, 3).is_empty());
}

#[test]
fn actions_for_events() {
    assert!(matches!(on_event(SessionEvent::PollTick), SessionAction::PollBooks));
    match on_event(SessionEvent::Broadcast(ClientMessage::Trade(trade()))) {
        SessionAction::Send(ClientMessage::Trade(t)) => assert_eq!(t.symbol, "BTCUSDT"),
        other => panic!("unexpected action: {:?}", other),
    }
    let mut collector = MetricsCollector::new(0);
    let metrics = collector.compute_metrics(1);
    assert!(matches!(
        on_event(SessionEvent::Broadcast(ClientMessage::Metrics(metrics))),
        SessionAction::Send(ClientMessage::Metrics(_))
    ));
    assert!(matches!(
        on_event(SessionEvent::Broadcast(ClientMessage::SymbolList(vec![]))),
        SessionAction::Send(ClientMessage::SymbolList(_))
    ));
    let update = book("BTCUSDT", 1).to_client_message(3);
    assert!(matches!(on_event(SessionEvent::Broadcast(update)), SessionAction::Continue));
    assert!(matches!(on_event(SessionEvent::BroadcastLagged), SessionAction::Continue));
    assert!(matches!(on_event(SessionEvent::BroadcastClosed), SessionAction::Terminate));
    assert!(matches!(on_event(SessionEvent::Inbound(ClientFrame::Close)), SessionAction::Terminate));
    match on_event(SessionEvent::Inbound(ClientFrame::Ping(vec![1, 2, 3]))) {
        SessionAction::SendPong(p) => assert_eq!(p, vec![1, 2, 3]),
        other => panic!("unexpected action: {:?}", other),
    }
    assert!(matches!(on_event(SessionEvent::Inbound(ClientFrame::Other)), SessionAction::Continue));
    assert!(matches!(on_event(SessionEvent::InboundError), SessionAction::Terminate));
    assert!(matches!(on_event(SessionEvent::InboundEnd), SessionAction::Terminate));
    assert!(matches!(on_event(SessionEvent::SendFailed), SessionAction::Terminate));
}

use flowrs_backend::exchanges::binance::{
    build_binance_ws_url, extract_symbol_from_stream, scaled_levels, BinanceConnector,
};
use flowrs_backend::exchanges::bybit::BybitConnector;
use flowrs_backend::exchanges::coinbase::CoinbaseConnector;
use flowrs_backend::exchanges::kraken::KrakenConnector;
use flowrs_backend::exchanges::{Exchange, ExchangeConnector, MarketMessage, ParseError};
use flowrs_backend::types::TradeSide;

fn symbols() -> Vec<String> {
    vec!["BTCUSDT".to_string(), "ETHUSDT".to_string()]
}

fn depth(m: Option<MarketMessage>) -> (Exchange, String, Vec<(u64, u64)>, Vec<(u64, u64)>, u64, bool) {
    match m {
        Some(MarketMessage::DepthUpdate { exchange, symbol, bids, asks, update_id, is_snapshot }) => {
            (exchange, symbol, bids, asks, update_id, is_snapshot)
        }
        other => panic!("not a depth update: {:?}", other),
    }
}

#[test]
fn test_extract_symbol() {
    assert_eq!(extract_symbol_from_stream("btcusdt@depth@100ms"), "BTCUSDT");
    assert_eq!(extract_symbol_from_stream("ethusdt@aggTrade"), "ETHUSDT");
    assert_eq!(extract_symbol_from_stream("solusdt@depth"), "SOLUSDT");
}

#[test]
fn test_build_ws_url() {
    let url = build_binance_ws_url(&["BTCUSDT", "ETHUSDT"]);
    assert!(url.contains("btcusdt@depth@100ms"));
    assert!(url.contains("btcusdt@aggTrade"));
    assert!(url.contains("ethusdt@depth@100ms"));
    assert!(url.contains("ethusdt@aggTrade"));
}

#[test]
fn test_exchange_names() {
    assert_eq!(Exchange::Binance.name(), "Binance");
    assert_eq!(Exchange::Bybit.name(), "Bybit");
    assert_eq!(Exchange::Coinbase.name(), "Coinbase");
    assert_eq!(Exchange::Kraken.name(), "Kraken");
}

#[test]
fn extract_symbol_without_marker_or_text() {
    assert_eq!(extract_symbol_from_stream("btcusdt"), "BTCUSDT");
    assert_eq!(extract_symbol_from_stream(""), "");
    assert_eq!(extract_symbol_from_stream("@depth"), "");
}

#[test]
fn binance_url_is_exact() {
    assert_eq!(
        build_binance_ws_url(&["BTCUSDT", "ETHUSDT"]),
        "wss://fstream.binance.com/stream?streams=btcusdt@depth@100ms/btcusdt@aggTrade/ethusdt@depth@100ms/ethusdt@aggTrade"
    );
    assert_eq!(build_binance_ws_url(&[]), "wss://fstream.binance.com/stream?streams=");
    let c = BinanceConnector::new(symbols());
    assert_eq!(
        c.build_subscription_url(&["SOLUSDT"]),
        "wss://fstream.binance.com/stream?streams=solusdt@depth@100ms/solusdt@aggTrade"
    );
}

#[test]
fn venue_urls() {
    let s = ["BTCUSDT"];
    assert_eq!(
        BybitConnector::new(symbols()).build_subscription_url(&s),
        "wss://stream.bybit.com/v5/public/linear"
    );
    assert_eq!(
        CoinbaseConnector::new(symbols()).build_subscription_url(&s),
        "wss://advanced-trade-ws.coinbase.com"
    );
    assert_eq!(KrakenConnector::new(symbols()).build_subscription_url(&s), "wss://ws.kraken.com/v2");
    let c = ExchangeConnector::Kraken(KrakenConnector::new(symbols()));
    assert_eq!(c.build_subscription_url(&s), "wss://ws.kraken.com/v2");
    assert_eq!(c.exchange(), Exchange::Kraken);
    assert_eq!(c.supported_symbols(), symbols());
}

#[test]
fn subscription_frames() {
    let s = ["BTCUSDT", "ETHUSDT"];
    let binance = ExchangeConnector::Binance(BinanceConnector::new(symbols()));
    assert!(binance.get_subscription_messages(&s).is_empty());

    let bybit = ExchangeConnector::Bybit(BybitConnector::new(symbols()));
    assert_eq!(
        bybit.get_subscription_messages(&s),
        vec![
            "{\"args\":[\"orderbook.50.BTCUSDT\",\"publicTrade.BTCUSDT\",\"orderbook.50.ETHUSDT\",\"publicTrade.ETHUSDT\"],\"op\":\"subscribe\"}"
                .to_string()
        ]
    );

    let coinbase = ExchangeConnector::Coinbase(CoinbaseConnector::new(symbols()));
    assert_eq!(
        coinbase.get_subscription_messages(&s),
        vec![
            "{\"type\":\"subscribe\",\"product_ids\":[\"BTC-USD\",\"ETH-USD\"],\"channel\":\"level2\"}"
                .to_string(),
            "{\"type\":\"subscribe\",\"product_ids\":[\"BTC-USD\",\"ETH-USD\"],\"channel\":\"market_trades\"}"
                .to_string(),
        ]
    );

    let kraken = ExchangeConnector::Kraken(KrakenConnector::new(symbols()));
    assert_eq!(
        kraken.get_subscription_messages(&s),
        vec![
            "{\"method\":\"subscribe\",\"params\":{\"channel\":\"book\",\"symbol\":[\"BTC/USD\",\"ETH/USD\"],\"depth\":25,\"snapshot\":true}}"
                .to_string(),
            "{\"method\":\"subscribe\",\"params\":{\"channel\":\"trade\",\"symbol\":[\"BTC/USD\",\"ETH/USD\"]}}"
                .to_string(),
        ]
    );
}

#[test]
fn subscription_symbols_lose_every_trailing_quote() {
    let c = CoinbaseConnector::new(vec!["XUSDTUSDT".to_string(), "USDC".to_string()]);
    let frames = c.get_subscription_messages();
    assert!(frames[0].contains("[\"X-USD\",\"USDC-USD\"]"));
}

#[test]
fn rest_snapshot_only_for_binance() {
    let binance = ExchangeConnector::Binance(BinanceConnector::new(symbols()));
    assert_eq!(
        binance.snapshot_url("BTCUSDT", 10),
        Some("https://fapi.binance.com/fapi/v1/depth?symbol=BTCUSDT&limit=10".to_string())
    );
    assert_eq!(
        binance.snapshot_url("ETHUSDT", 1000),
        Some("https://fapi.binance.com/fapi/v1/depth?symbol=ETHUSDT&limit=1000".to_string())
    );
    let bybit = ExchangeConnector::Bybit(BybitConnector::new(symbols()));
    assert_eq!(bybit.snapshot_url("BTCUSDT", 10), None);
    let coinbase = ExchangeConnector::Coinbase(CoinbaseConnector::new(symbols()));
    assert_eq!(coinbase.snapshot_url("BTCUSDT", 10), None);
    let kraken = ExchangeConnector::Kraken(KrakenConnector::new(symbols()));
    assert_eq!(kraken.snapshot_url("BTCUSDT", 10), None);
}

#[test]
fn binance_snapshot_response() {
    let c = BinanceConnector::new(symbols());
    let s = c
        .parse_snapshot("{\"lastUpdateId\":77,\"E\":1,\"bids\":[[\"100.5\",\"2\"],[\"bad\",\"1\"]],\"asks\":[[\"101\",\"0.5\"]]}")
        .unwrap();
    assert_eq!(s.last_update_id, 77);
    assert_eq!(
        s.bids,
        vec![("100.5".to_string(), "2".to_string()), ("bad".to_string(), "1".to_string())]
    );
    assert_eq!(scaled_levels(&s.bids), vec![(10_050_000_000, 200_000_000)]);
    assert_eq!(scaled_levels(&s.asks), vec![(10_100_000_000, 50_000_000)]);
    assert_eq!(c.parse_snapshot("not json").unwrap_err(), ParseError::InvalidJson);
    assert_eq!(c.parse_snapshot("{\"bids\":[],\"asks\":[]}").unwrap_err(), ParseError::Malformed);
    assert_eq!(
        c.parse_snapshot("{\"lastUpdateId\":1,\"bids\":[[\"1\"]],\"asks\":[]}").unwrap_err(),
        ParseError::Malformed
    );
}

#[test]
fn binance_depth_message() {
    let c = BinanceConnector::new(symbols());
    let raw = r#"{
      "stream": "btcusdt@depth@100ms",
      "data": {
        "e": "depthUpdate", "E": 1234567890, "s": "BTCUSDT", "U": 157, "u": 160,
        "b": [["50000.10", "1.5"], ["50000.00", "0"], ["x", "1"]],
        "a": [["50001.10", "1.2"]]
      }
    }"#;
    let (exchange, symbol, bids, asks, update_id, is_snapshot) = depth(c.parse_message(raw).unwrap());
    assert_eq!(exchange, Exchange::Binance);
    assert_eq!(symbol, "BTCUSDT");
    assert_eq!(bids, vec![(5_000_010_000_000, 150_000_000), (5_000_000_000_000, 0)]);
    assert_eq!(asks, vec![(5_000_110_000_000, 120_000_000)]);
    assert_eq!(update_id, 160);
    assert!(!is_snapshot);
}

#[test]
fn binance_trade_message() {
    let c = BinanceConnector::new(symbols());
    let raw = r#"{"stream":"btcusdt@aggTrade","data":{"e":"aggTrade","E":1234567890,"s":"BTCUSDT","a":12345,"p":"50000.50","q":"1.5","f":100,"l":105,"T":1234567891,"m":true}}"#;
    match c.parse_message(raw).unwrap() {
        Some(MarketMessage::Trade(t)) => {
            assert_eq!(t.exchange, "Binance");
            assert_eq!(t.symbol, "BTCUSDT");
            assert_eq!(t.price, 5_000_050_000_000);
            assert_eq!(t.quantity, 150_000_000);
            assert_eq!(t.side, TradeSide::Sell);
            assert_eq!(t.timestamp, 1234567890);
        }
        other => panic!("not a trade: {:?}", other),
    }
    let buy = raw.replace("\"m\":true", "\"m\":false");
    match c.parse_message(&buy).unwrap() {
        Some(MarketMessage::Trade(t)) => assert_eq!(t.side, TradeSide::Buy),
        other => panic!("not a trade: {:?}", other),
    }
}

#[test]
fn binance_typed_updates() {
    let data = flowrs_backend::json::parse_json(
        r#"{"e":"depthUpdate","E":5,"s":"BTCUSDT","U":1,"u":2,"b":[["1","2"]],"a":[]}"#,
    )
    .unwrap();
    let update = BinanceConnector::read_depth_update(&data).unwrap();
    assert_eq!(update.event_type, "depthUpdate");
    assert_eq!(update.event_time, 5);
    assert_eq!(update.symbol, "BTCUSDT");
    assert_eq!((update.first_update_id, update.final_update_id), (1, 2));
    assert_eq!(update.bids, vec![("1".to_string(), "2".to_string())]);
    assert!(update.asks.is_empty());
    let (_, symbol, bids, _, update_id, is_snapshot) = depth(Some(update.to_market_message()));
    assert_eq!(symbol, "BTCUSDT");
    assert_eq!(bids, vec![(100_000_000, 200_000_000)]);
    assert_eq!(update_id, 2);
    assert!(!is_snapshot);

    let data = flowrs_backend::json::parse_json(
        r#"{"s":"ETHUSDT","E":9,"p":"3","q":"4","m":false,"T":11,"a":7}"#,
    )
    .unwrap();
    let trade = BinanceConnector::read_agg_trade(&data).unwrap();
    assert_eq!(trade.event_type, "");
    assert_eq!((trade.agg_trade_id, trade.first_trade_id, trade.last_trade_id), (7, 0, 0));
    assert_eq!(trade.trade_time, 11);
    let t = trade.to_trade().unwrap();
    assert_eq!((t.price, t.quantity, t.side, t.timestamp), (300_000_000, 400_000_000, TradeSide::Buy, 9));
    let data = flowrs_backend::json::parse_json(r#"{"s":"ETHUSDT","E":9,"p":"x","q":"4","m":false}"#).unwrap();
    assert!(BinanceConnector::read_agg_trade(&data).unwrap().to_trade().is_none());
    let data = flowrs_backend::json::parse_json(r#"{"s":"ETHUSDT"}"#).unwrap();
    assert!(BinanceConnector::read_agg_trade(&data).is_none());
    assert!(BinanceConnector::read_depth_update(&data).is_none());
}

#[test]
fn binance_errors() {
    let c = BinanceConnector::new(symbols());
    assert_eq!(c.parse_message("{").unwrap_err(), ParseError::InvalidJson);
    assert_eq!(c.parse_message("@depth").unwrap_err(), ParseError::InvalidJson);
    assert_eq!(c.parse_message("{}").unwrap_err(), ParseError::Malformed);
    assert_eq!(
        c.parse_message(r#"{"stream":"btcusdt@depth","data":{"s":"BTCUSDT","U":1,"u":2,"b":[["1","2","3"]],"a":[]}}"#)
            .unwrap_err(),
        ParseError::Malformed
    );
    assert_eq!(
        c.parse_message(r#"{"stream":"btcusdt@depth","data":{"s":"BTCUSDT","u":2,"b":[],"a":[]}}"#)
            .unwrap_err(),
        ParseError::Malformed
    );
    assert_eq!(
        c.parse_message(r#"{"stream":"x@aggTrade","data":{"s":"BTCUSDT","E":1,"p":"abc","q":"1","m":true}}"#)
            .unwrap_err(),
        ParseError::InvalidNumber
    );
    assert_eq!(
        c.parse_message(r#"{"stream":"x@aggTrade","data":{"s":"BTCUSDT","E":1,"p":"1","q":"1"}}"#)
            .unwrap_err(),
        ParseError::Malformed
    );
}

#[test]
fn bybit_depth_messages() {
    let c = BybitConnector::new(symbols());
    let raw = r#"{"topic":"orderbook.50.BTCUSDT","type":"snapshot","ts":1,"data":{"s":"BTCUSDT","b":[["100.5","2"],["100","1"]],"a":[["101","3"]],"u":18521288,"seq":7}}"#;
    let (exchange, symbol, bids, asks, update_id, is_snapshot) = depth(c.parse_message(raw).unwrap());
    assert_eq!(exchange, Exchange::Bybit);
    assert_eq!(symbol, "BTCUSDT");
    assert_eq!(bids, vec![(10_050_000_000, 200_000_000), (10_000_000_000, 100_000_000)]);
    assert_eq!(asks, vec![(10_100_000_000, 300_000_000)]);
    assert_eq!(update_id, 18521288);
    assert!(is_snapshot);

    let delta = r#"{"topic":"orderbook.50.ETHUSDT","type":"delta","data":{"b":[["100.5","0"],[1,2],["7"]],"u":-4}}"#;
    let (_, symbol, bids, asks, update_id, is_snapshot) = depth(c.parse_message(delta).unwrap());
    assert_eq!(symbol, "ETHUSDT");
    assert_eq!(bids, vec![(10_050_000_000, 0)]);
    assert!(asks.is_empty());
    assert_eq!(update_id, 0);
    assert!(!is_snapshot);

    let untyped = r#"{"topic":"orderbook.50.ETHUSDT","data":{}}"#;
    let (_, _, bids, asks, update_id, is_snapshot) = depth(c.parse_message(untyped).unwrap());
    assert!(bids.is_empty() && asks.is_empty());
    assert_eq!(update_id, 0);
    assert!(!is_snapshot);
}

#[test]
fn bybit_trade_messages() {
    let c = BybitConnector::new(symbols());
    let raw = r#"{"topic":"publicTrade.BTCUSDT","type":"snapshot","data":[{"T":1672304486865,"s":"BTCUSDT","S":"Hold","v":"0.001","p":"16578.50"},{"T":1672304486866,"s":"BTCUSDT","S":"Buy","v":"0.002","p":"16578.51"},{"T":1,"S":"Sell","v":"1","p":"1"}]}"#;
    match c.parse_message(raw).unwrap() {
        Some(MarketMessage::Trade(t)) => {
            assert_eq!(t.exchange, "Bybit");
            assert_eq!(t.symbol, "BTCUSDT");
            assert_eq!(t.price, 1_657_851_000_000);
            assert_eq!(t.quantity, 200_000);
            assert_eq!(t.side, TradeSide::Buy);
            assert_eq!(t.timestamp, 1672304486866);
        }
        other => panic!("not a trade: {:?}", other),
    }
    let sell = r#"{"topic":"publicTrade.ETHUSDT","data":[{"S":"Sell","v":"1","p":"2"}]}"#;
    match c.parse_message(sell).unwrap() {
        Some(MarketMessage::Trade(t)) => {
            assert_eq!(t.symbol, "ETHUSDT");
            assert_eq!(t.side, TradeSide::Sell);
            assert_eq!(t.timestamp, 0);
        }
        other => panic!("not a trade: {:?}", other),
    }
    let bad = r#"{"topic":"publicTrade.ETHUSDT","data":[{"S":"Sell","v":"1","p":"-2"}]}"#;
    assert_eq!(c.parse_message(bad).unwrap_err(), ParseError::InvalidNumber);
}

#[test]
fn bybit_ignores_the_rest() {
    let c = BybitConnector::new(symbols());
    assert!(c.parse_message(r#"{"success":true,"op":"subscribe"}"#).unwrap().is_none());
    assert!(c.parse_message(r#"{"topic":"orderbook.50"}"#).unwrap().is_none());
    assert!(c.parse_message(r#"{"topic":"publicTrade"}"#).unwrap().is_none());
    assert!(c.parse_message(r#"{"topic":"publicTrade.BTCUSDT","data":{}}"#).unwrap().is_none());
    assert!(c.parse_message(r#"{"topic":"publicTrade.BTCUSDT","data":[{"S":"Buy"}]}"#).unwrap().is_none());
    assert!(c.parse_message(r#"{"topic":"tickers.BTCUSDT"}"#).unwrap().is_none());
    assert!(c.parse_message(r#"{"topic":7}"#).unwrap().is_none());
    assert_eq!(c.parse_message("pong").unwrap_err(), ParseError::InvalidJson);
}

#[test]
fn coinbase_level2_message() {
    let c = CoinbaseConnector::new(symbols());
    let raw = r#"{"channel":"l2_data","client_id":"","timestamp":"2023-02-09T20:32:50.714964855Z","sequence_num":42,"events":[{"type":"snapshot","product_id":"BTC-USD","updates":[{"side":"bid","event_time":"1970-01-01T00:00:00Z","price_level":"21921.73","new_quantity":"0.06317902"},{"side":"offer","event_time":"1970-01-01T00:00:00Z","price_level":"21921.74","new_quantity":"0"},{"side":"bid","price_level":"oops","new_quantity":"1"},{"side":"other","price_level":"1","new_quantity":"1"}]},{"type":"update","product_id":"ETH-USD","updates":[]}]}"#;
    let (exchange, symbol, bids, asks, update_id, is_snapshot) = depth(c.parse_message(raw).unwrap());
    assert_eq!(exchange, Exchange::Coinbase);
    assert_eq!(symbol, "BTCUSDT");
    assert_eq!(bids, vec![(2_192_173_000_000, 6_317_902)]);
    assert_eq!(asks, vec![(2_192_174_000_000, 0)]);
    assert_eq!(update_id, 42);
    assert!(is_snapshot);

    let update = r#"{"channel":"l2_data","sequence_num":43,"events":[{"type":"update","product_id":"ETH-USD","updates":[]}]}"#;
    let (_, symbol, bids, asks, update_id, is_snapshot) = depth(c.parse_message(update).unwrap());
    assert_eq!(symbol, "ETHUSDT");
    assert!(bids.is_empty() && asks.is_empty());
    assert_eq!(update_id, 43);
    assert!(!is_snapshot);

    assert!(c.parse_message(r#"{"channel":"l2_data","sequence_num":1,"events":[]}"#).unwrap().is_none());
    assert_eq!(
        c.parse_message(r#"{"channel":"l2_data","events":[]}"#).unwrap_err(),
        ParseError::Malformed
    );
    assert_eq!(
        c.parse_message(r#"{"channel":"l2_data","sequence_num":1,"events":[{"type":"update","product_id":"ETH-USD","updates":[{"side":"bid"}]}]}"#)
            .unwrap_err(),
        ParseError::Malformed
    );
}

#[test]
fn coinbase_trade_message() {
    let c = CoinbaseConnector::new(symbols());
    let raw = r#"{"channel":"market_trades","sequence_num":0,"events":[{"type":"update","trades":[{"trade_id":"1","product_id":"ETH-USD","price":"1260.01","size":"0.3","side":"BUY","time":"2019-08-14T20:42:27.265Z"},{"trade_id":"2","product_id":"ETH-USD","price":"1","size":"1","side":"SELL","time":"x"}]}]}"#;
    match c.parse_message(raw).unwrap() {
        Some(MarketMessage::Trade(t)) => {
            assert_eq!(t.exchange, "Coinbase");
            assert_eq!(t.symbol, "ETHUSDT");
            assert_eq!(t.price, 126_001_000_000);
            assert_eq!(t.quantity, 30_000_000);
            assert_eq!(t.side, TradeSide::Buy);
            assert_eq!(t.timestamp, 1_565_815_347_265);
        }
        other => panic!("not a trade: {:?}", other),
    }
    let sell = r#"{"channel":"market_trades","events":[{"trades":[{"product_id":"BTC-USD","price":"1","size":"2","side":"SELL","time":"not a time"}]}]}"#;
    match c.parse_message(sell).unwrap() {
        Some(MarketMessage::Trade(t)) => {
            assert_eq!(t.symbol, "BTCUSDT");
            assert_eq!(t.side, TradeSide::Sell);
            assert_eq!(t.timestamp, 0);
        }
        other => panic!("not a trade: {:?}", other),
    }
    let offset = r#"{"channel":"market_trades","events":[{"trades":[{"product_id":"BTC-USD","price":"1","size":"2","side":"SELL","time":"1970-01-01T01:00:01.5+01:00"}]}]}"#;
    match c.parse_message(offset).unwrap() {
        Some(MarketMessage::Trade(t)) => assert_eq!(t.timestamp, 1_500),
        other => panic!("not a trade: {:?}", other),
    }
    let unknown_side = sell.replace("SELL", "sell");
    assert!(c.parse_message(&unknown_side).unwrap().is_none());
    let bad_price = sell.replace("\"price\":\"1\"", "\"price\":\"1e3\"");
    assert!(c.parse_message(&bad_price).unwrap().is_none());
    assert!(c.parse_message(r#"{"channel":"market_trades","events":[]}"#).unwrap().is_none());
    assert!(c.parse_message(r#"{"channel":"market_trades","events":[{"trades":[]}]}"#).unwrap().is_none());
    assert_eq!(
        c.parse_message(r#"{"channel":"market_trades","events":[{"trades":[{"price":"1"}]}]}"#).unwrap_err(),
        ParseError::Malformed
    );
}

#[test]
fn coinbase_ignores_control_messages() {
    let c = CoinbaseConnector::new(symbols());
    assert!(c.parse_message(r#"{"channel":"subscriptions","events":[]}"#).unwrap().is_none());
    assert!(c.parse_message(r#"{"channel":"heartbeats","events":[]}"#).unwrap().is_none());
    assert!(c.parse_message(r#"{"events":[{"subscriptions":{"level2":["BTC-USD"]}}]}"#).unwrap().is_none());
    assert!(c.parse_message("garbage").unwrap().is_none());
    assert!(c.parse_message(r#"{"channel":"ticker"}"#).unwrap().is_none());
    assert!(c.parse_message(r#"{"channel":5}"#).unwrap().is_none());
    assert!(c.parse_message(r#"{"type":"error"}"#).unwrap().is_none());
}

#[test]
fn kraken_book_message() {
    let c = KrakenConnector::new(symbols());
    let raw = r#"{"channel":"book","type":"snapshot","data":[{"symbol":"BTC/USD","bids":[{"price":45283.5,"qty":0.10000000},{"price":45283.4,"qty":1.54582015}],"asks":[{"price":45285.2,"qty":0.00100000}],"checksum":2439117997}]}"#;
    let (exchange, symbol, bids, asks, update_id, is_snapshot) = depth(c.parse_message(raw).unwrap());
    assert_eq!(exchange, Exchange::Kraken);
    assert_eq!(symbol, "BTCUSDT");
    assert_eq!(bids, vec![(4_528_350_000_000, 10_000_000), (4_528_340_000_000, 154_582_015)]);
    assert_eq!(asks, vec![(4_528_520_000_000, 100_000)]);
    assert_eq!(update_id, 2439117997);
    assert!(is_snapshot);

    let update = r#"{"channel":"book","type":"update","data":[{"symbol":"ETH/USD","bids":[],"asks":[]},{"symbol":"SOL/USD","bids":[{"price":20,"qty":0}],"asks":[{"price":"21","qty":1},{"price":1e3,"qty":1}],"checksum":-1}]}"#;
    let (_, symbol, bids, asks, update_id, is_snapshot) = depth(c.parse_message(update).unwrap());
    assert_eq!(symbol, "SOLUSDT");
    assert_eq!(bids, vec![(2_000_000_000, 0)]);
    assert!(asks.is_empty());
    assert_eq!(update_id, u64::MAX);
    assert!(!is_snapshot);

    let empty_update = r#"{"channel":"book","type":"update","data":[{"symbol":"ETH/USD","bids":[],"asks":[]}]}"#;
    assert!(c.parse_message(empty_update).unwrap().is_none());
    let empty_snapshot = r#"{"channel":"book","type":"snapshot","data":[{"symbol":"ETH/USD","bids":[],"asks":[]}]}"#;
    let (_, symbol, _, _, update_id, is_snapshot) = depth(c.parse_message(empty_snapshot).unwrap());
    assert_eq!(symbol, "ETHUSDT");
    assert_eq!(update_id, 0);
    assert!(is_snapshot);
    assert_eq!(
        c.parse_message(r#"{"channel":"book","type":"update","data":[{"symbol":"ETH/USD","bids":[]}]}"#).unwrap_err(),
        ParseError::Malformed
    );
    assert_eq!(c.parse_message(r#"{"channel":"book","data":[]}"#).unwrap_err(), ParseError::Malformed);
}

#[test]
fn kraken_trade_message() {
    let c = KrakenConnector::new(symbols());
    let raw = r#"{"channel":"trade","type":"update","data":[{"symbol":"BTC/USD","side":"hold","price":1,"qty":1,"ord_type":"market","trade_id":1,"timestamp":"2023-09-25T07:49:37.708706Z"},{"symbol":"BTC/USD","side":"sell","price":26243.1,"qty":0.00045,"ord_type":"market","trade_id":2,"timestamp":"2023-09-25T07:49:37.708706Z"}]}"#;
    match c.parse_message(raw).unwrap() {
        Some(MarketMessage::Trade(t)) => {
            assert_eq!(t.exchange, "Kraken");
            assert_eq!(t.symbol, "BTCUSDT");
            assert_eq!(t.price, 2_624_310_000_000);
            assert_eq!(t.quantity, 45_000);
            assert_eq!(t.side, TradeSide::Sell);
            assert_eq!(t.timestamp, 1_695_628_177_708);
        }
        other => panic!("not a trade: {:?}", other),
    }
    let buy = r#"{"channel":"trade","data":[{"symbol":"ETH/USD","side":"buy","price":0.00000001,"qty":3,"timestamp":"nope"}]}"#;
    match c.parse_message(buy).unwrap() {
        Some(MarketMessage::Trade(t)) => {
            assert_eq!(t.symbol, "ETHUSDT");
            assert_eq!(t.price, 1);
            assert_eq!(t.quantity, 300_000_000);
            assert_eq!(t.side, TradeSide::Buy);
            assert_eq!(t.timestamp, 0);
        }
        other => panic!("not a trade: {:?}", other),
    }
    assert!(c.parse_message(r#"{"channel":"trade","data":[]}"#).unwrap().is_none());
    assert_eq!(
        c.parse_message(r#"{"channel":"trade","data":[{"symbol":"ETH/USD"}]}"#).unwrap_err(),
        ParseError::Malformed
    );
    assert_eq!(c.parse_message(r#"{"channel":"trade"}"#).unwrap_err(), ParseError::Malformed);
}

#[test]
fn kraken_ignores_control_messages() {
    let c = KrakenConnector::new(symbols());
    assert!(c.parse_message(r#"{"method":"subscribe","result":{"channel":"book"},"success":true}"#).unwrap().is_none());
    assert!(c.parse_message(r#"{"channel":"heartbeat"}"#).unwrap().is_none());
    assert!(c.parse_message(r#"{"channel":"status","data":[{"system":"online"}],"type":"update"}"#).unwrap().is_none());
    assert!(c.parse_message("{oops").unwrap().is_none());
    assert!(c.parse_message(r#"{"channel":"ticker"}"#).unwrap().is_none());
    assert!(c.parse_message(r#"{"data":[]}"#).unwrap().is_none());
}

#[test]
fn connector_dispatches_by_venue() {
    let raw = r#"{"topic":"orderbook.50.BTCUSDT","type":"snapshot","data":{"b":[],"a":[],"u":1}}"#;
    let bybit = ExchangeConnector::Bybit(BybitConnector::new(symbols()));
    let (exchange, ..) = depth(bybit.parse_message(raw).unwrap());
    assert_eq!(exchange, Exchange::Bybit);
    let kraken = ExchangeConnector::Kraken(KrakenConnector::new(symbols()));
    assert!(kraken.parse_message(raw).unwrap().is_none());
    let binance = ExchangeConnector::Binance(BinanceConnector::new(symbols()));
    assert_eq!(binance.parse_message(raw).unwrap_err(), ParseError::Malformed);
    let coinbase = ExchangeConnector::Coinbase(CoinbaseConnector::new(symbols()));
    assert!(coinbase.parse_message(raw).unwrap().is_none());
}

use vstd::prelude::*;
use crate::numeric::SCALE_DIGITS;

verus! {

/// Number of price levels that a book keeps on each side.
pub const ORDERBOOK_DEPTH: usize = 25;

/// Number of price levels sent to subscribers in a book update.
pub const ORDERBOOK_DISPLAY_DEPTH: usize = 3;

/// The trading pairs that are followed, in their canonical form.
pub fn trading_pairs() -> (r: Vec<&'static str>)
    ensures
        r@.len() == 9,
        r@[0]@ == "BTCUSDT"@,
        r@[1]@ == "ETHUSDT"@,
        r@[2]@ == "SOLUSDT"@,
        r@[3]@ == "XRPUSDT"@,
        r@[4]@ == "DOGEUSDT"@,
        r@[5]@ == "ADAUSDT"@,
        r@[6]@ == "AVAXUSDT"@,
        r@[7]@ == "DOTUSDT"@,
        r@[8]@ == "LINKUSDT"@,
{
    let mut v: Vec<&'static str> = Vec::new();
    v.push("BTCUSDT");
    v.push("ETHUSDT");
    v.push("SOLUSDT");
    v.push("XRPUSDT");
    v.push("DOGEUSDT");
    v.push("ADAUSDT");
    v.push("AVAXUSDT");
    v.push("DOTUSDT");
    v.push("LINKUSDT");
    v
}

/// A decimal number in its external form: `mantissa / 10^scale`.
#[derive(Debug, Clone, Copy, PartialEq, Eq, Structural)]
pub struct DecimalValue {
    pub mantissa: i128,
    pub scale: u32,
}

impl DecimalValue {
    /// The external form of a scaled value: the same digits, with eight of
    /// them behind the point.
    pub open spec fn of_scaled(v: u64) -> DecimalValue {
        DecimalValue { mantissa: v as i128, scale: 8 }
    }

/// Zero, without digits behind the point.
    pub open spec fn zero() -> DecimalValue {
        DecimalValue { mantissa: 0, scale: 0 }
    }

/// The external form of a scaled value.
    pub fn from_scaled(v: u64) -> (r: DecimalValue)
        ensures
            r == DecimalValue::of_scaled(v),
    {
        DecimalValue { mantissa: v as i128, scale: SCALE_DIGITS as u32 }
    }
}

/// One price level in its external form.
#[derive(Debug, Clone, Copy, PartialEq, Eq, Structural)]
pub struct PriceLevel {
    pub price: DecimalValue,
    pub quantity: DecimalValue,
}

/// The side that took liquidity in a trade.
#[derive(Debug, Clone, Copy, PartialEq, Eq, Structural)]
pub enum TradeSide {
    Buy,
    Sell,
}

/// A single trade. Price and quantity are scaled by 10^8, the timestamp is
/// in milliseconds.
#[derive(Debug, Clone)]
pub struct Trade {
    pub exchange: String,
    pub symbol: String,
    pub price: u64,
    pub quantity: u64,
    pub side: TradeSide,
    pub timestamp: i64,
}

/// The content of a trade.
pub struct TradeView {
    pub exchange: Seq<char>,
    pub symbol: Seq<char>,
    pub price: u64,
    pub quantity: u64,
    pub side: TradeSide,
    pub timestamp: i64,
}

impl View for Trade {
    type V = TradeView;

    open spec fn view(&self) -> TradeView {
        TradeView {
            exchange: self.exchange@,
            symbol: self.symbol@,
            price: self.price,
            quantity: self.quantity,
            side: self.side,
            timestamp: self.timestamp,
        }
    }
}

/// A periodic aggregate of the counters. The three system readings are
/// kept as the bit patterns of their floating-point values.
#[derive(Debug, Clone, Copy, PartialEq, Eq, Structural)]
pub struct Metrics {
    pub messages_per_second: u64,
    pub bytes_per_second: u64,
    pub latency_sum_us: u64,
    pub latency_samples: u64,
    pub latency_p50_us: u64,
    pub latency_p95_us: u64,
    pub latency_p99_us: u64,
    pub total_messages: u64,
    pub uptime_seconds: u64,
    pub memory_used_mb_bits: u64,
    pub memory_rss_mb_bits: u64,
    pub cpu_usage_percent_bits: u64,
    pub active_connections: u32,
    pub websocket_reconnects: u64,
    pub bytes_received: u64,
}

/// A record sent to a subscriber.
#[derive(Debug, Clone)]
pub enum ClientMessage {
    BookUpdate {
        exchange: String,
        symbol: String,
        bids: Vec<PriceLevel>,
        asks: Vec<PriceLevel>,
        spread: DecimalValue,
        spread_percent: DecimalValue,
    },
    Trade(Trade),
    Metrics(Metrics),
    SymbolList(Vec<String>),
}

/// The content of a record.
pub enum ClientMessageView {
    BookUpdate {
        exchange: Seq<char>,
        symbol: Seq<char>,
        bids: Seq<PriceLevel>,
        asks: Seq<PriceLevel>,
        spread: DecimalValue,
        spread_percent: DecimalValue,
    },
    Trade(TradeView),
    Metrics(Metrics),
    SymbolList(Seq<Seq<char>>),
}

impl View for ClientMessage {
    type V = ClientMessageView;

    open spec fn view(&self) -> ClientMessageView {
        match self {
            ClientMessage::BookUpdate { exchange, symbol, bids, asks, spread, spread_percent } => {
                ClientMessageView::BookUpdate {
                    exchange: exchange@,
                    symbol: symbol@,
                    bids: bids@,
                    asks: asks@,
                    spread: *spread,
                    spread_percent: *spread_percent,
                }
            },
            ClientMessage::Trade(t) => ClientMessageView::Trade(t@),
            ClientMessage::Metrics(m) => ClientMessageView::Metrics(*m),
            ClientMessage::SymbolList(l) => ClientMessageView::SymbolList(
                Seq::new(l@.len(), |i: int| l@[i]@),
            ),
        }
    }
}

/// A depth update as Binance frames it.
#[derive(Debug, Clone)]
pub struct BinanceDepthUpdate {
    pub event_type: String,
    pub event_time: i64,
    pub symbol: String,
    pub first_update_id: u64,
    pub final_update_id: u64,
    pub bids: Vec<(String, String)>,
    pub asks: Vec<(String, String)>,
}

/// The content of a depth update.
pub struct BinanceDepthUpdateView {
    pub event_type: Seq<char>,
    pub event_time: i64,
    pub symbol: Seq<char>,
    pub first_update_id: u64,
    pub final_update_id: u64,
    pub bids: Seq<(Seq<char>, Seq<char>)>,
    pub asks: Seq<(Seq<char>, Seq<char>)>,
}

impl View for BinanceDepthUpdate {
    type V = BinanceDepthUpdateView;

    open spec fn view(&self) -> BinanceDepthUpdateView {
        BinanceDepthUpdateView {
            event_type: self.event_type@,
            event_time: self.event_time,
            symbol: self.symbol@,
            first_update_id: self.first_update_id,
            final_update_id: self.final_update_id,
            bids: Seq::new(self.bids@.len(), |i: int| (self.bids@[i].0@, self.bids@[i].1@)),
            asks: Seq::new(self.asks@.len(), |i: int| (self.asks@[i].0@, self.asks@[i].1@)),
        }
    }
}

/// An aggregate trade as Binance frames it.
#[derive(Debug, Clone)]
pub struct BinanceAggTrade {
    pub event_type: String,
    pub event_time: i64,
    pub symbol: String,
    pub agg_trade_id: u64,
    pub price: String,
    pub quantity: String,
    pub first_trade_id: u64,
    pub last_trade_id: u64,
    pub trade_time: i64,
    pub is_buyer_maker: bool,
}


/// The content of an aggregate trade.
pub struct BinanceAggTradeView {
    pub event_type: Seq<char>,
    pub event_time: i64,
    pub symbol: Seq<char>,
    pub agg_trade_id: u64,
    pub price: Seq<char>,
    pub quantity: Seq<char>,
    pub first_trade_id: u64,
    pub last_trade_id: u64,
    pub trade_time: i64,
    pub is_buyer_maker: bool,
}

impl View for BinanceAggTrade {
    type V = BinanceAggTradeView;

    open spec fn view(&self) -> BinanceAggTradeView {
        BinanceAggTradeView {
            event_type: self.event_type@,
            event_time: self.event_time,
            symbol: self.symbol@,
            agg_trade_id: self.agg_trade_id,
            price: self.price@,
            quantity: self.quantity@,
            first_trade_id: self.first_trade_id,
            last_trade_id: self.last_trade_id,
            trade_time: self.trade_time,
            is_buyer_maker: self.is_buyer_maker,
        }
    }
}

} // verus!

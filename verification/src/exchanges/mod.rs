use vstd::prelude::*;
use crate::exchanges::binance::{
    binance_event, binance_snapshot, binance_snapshot_url, binance_url, BinanceConnector,
};
use crate::exchanges::bybit::{bybit_event, bybit_subscription, BybitConnector};
use crate::exchanges::coinbase::{coinbase_event, coinbase_subscription, CoinbaseConnector};
use crate::exchanges::kraken::{
    kraken_book_subscription, kraken_event, kraken_trade_subscription, KrakenConnector,
};
use crate::json::{
    json_document, json_element, json_string, json_text, models, opt_text, Json, JsonModel,
};
use crate::numeric::{parse_scaled, parse_scaled_spec};
use crate::text::{
    chars_of, push_str, replace, replace_all, string_of, trim_end, trim_end_matches,
};
use crate::types::{Trade, TradeView};

pub mod binance;
pub mod bybit;
pub mod coinbase;
pub mod kraken;
pub mod manager;

verus! {

/// A venue.
#[derive(Debug, Clone, Copy, PartialEq, Eq, Hash, Structural)]
pub enum Exchange {
    Binance,
    Bybit,
    Coinbase,
    Kraken,
}

/// The name under which a venue's books are kept.
pub open spec fn exchange_name(e: Exchange) -> Seq<char> {
    match e {
        Exchange::Binance => "Binance"@,
        Exchange::Bybit => "Bybit"@,
        Exchange::Coinbase => "Coinbase"@,
        Exchange::Kraken => "Kraken"@,
    }
}

impl Exchange {
    /// The name under which the venue's books are kept.
    pub fn name(&self) -> (r: &'static str)
        ensures
            r@ == exchange_name(*self),
    {
        match self {
            Exchange::Binance => "Binance",
            Exchange::Bybit => "Bybit",
            Exchange::Coinbase => "Coinbase",
            Exchange::Kraken => "Kraken",
        }
    }
}

/// A message of a venue in normalized form. Prices and quantities are
/// scaled by 10^8.
#[derive(Debug, Clone)]
pub enum MarketMessage {
    /// Levels of one book: a full replacement where `is_snapshot` holds, a
    /// delta otherwise.
    DepthUpdate {
        exchange: Exchange,
        symbol: String,
        bids: Vec<(u64, u64)>,
        asks: Vec<(u64, u64)>,
        update_id: u64,
        is_snapshot: bool,
    },
    Trade(Trade),
    /// A message that is kept as it came and applied to nothing.
    Raw(String),
}

/// The content of a normalized message.
pub enum MarketMessageView {
    DepthUpdate {
        exchange: Exchange,
        symbol: Seq<char>,
        bids: Seq<(u64, u64)>,
        asks: Seq<(u64, u64)>,
        update_id: u64,
        is_snapshot: bool,
    },
    Trade(TradeView),
    Raw(Seq<char>),
}

impl View for MarketMessage {
    type V = MarketMessageView;

    open spec fn view(&self) -> MarketMessageView {
        match self {
            MarketMessage::DepthUpdate { exchange, symbol, bids, asks, update_id, is_snapshot } => {
                MarketMessageView::DepthUpdate {
                    exchange: *exchange,
                    symbol: symbol@,
                    bids: bids@,
                    asks: asks@,
                    update_id: *update_id,
                    is_snapshot: *is_snapshot,
                }
            },
            MarketMessage::Trade(t) => MarketMessageView::Trade(t@),
            MarketMessage::Raw(s) => MarketMessageView::Raw(s@),
        }
    }
}

/// Why a message of a venue could not be read.
#[derive(Debug, Clone, Copy, PartialEq, Eq, Structural)]
pub enum ParseError {
    /// The text is no JSON document.
    InvalidJson,
    /// A member that the message must have is missing or of another type.
    Malformed,
    /// A price or quantity of a trade is no admissible decimal.
    InvalidNumber,
}

/// What reading a message gives: an event, nothing where the message is to
/// be ignored, or an error.
pub type ParseOutcome = Result<Option<MarketMessageView>, ParseError>;

/// The outcome of reading a message, as a value of the model.
pub open spec fn outcome_of(r: Result<Option<MarketMessage>, ParseError>) -> ParseOutcome {
    match r {
        Ok(Some(m)) => Ok(Some(m@)),
        Ok(None) => Ok(None),
        Err(e) => Err(e),
    }
}

/// The texts of a sequence of strings.
pub open spec fn texts<T: View<V = Seq<char>>>(v: Seq<T>) -> Seq<Seq<char>> {
    Seq::new(v.len(), |i: int| v[i]@)
}

/// A book snapshot as a venue's REST interface gives it, levels as decimal
/// strings.
#[derive(Debug, Clone)]
pub struct DepthSnapshot {
    pub bids: Vec<(String, String)>,
    pub asks: Vec<(String, String)>,
    pub last_update_id: u64,
}

/// The content of a REST snapshot.
pub struct DepthSnapshotView {
    pub bids: Seq<(Seq<char>, Seq<char>)>,
    pub asks: Seq<(Seq<char>, Seq<char>)>,
    pub last_update_id: u64,
}

/// The texts of a list of string pairs.
pub open spec fn entry_texts(entries: Seq<(String, String)>) -> Seq<(Seq<char>, Seq<char>)> {
    Seq::new(entries.len(), |i: int| (entries[i].0@, entries[i].1@))
}

impl View for DepthSnapshot {
    type V = DepthSnapshotView;

    open spec fn view(&self) -> DepthSnapshotView {
        DepthSnapshotView {
            bids: entry_texts(self.bids@),
            asks: entry_texts(self.asks@),
            last_update_id: self.last_update_id,
        }
    }
}

/// What reading the response of a REST snapshot gives.
pub type SnapshotOutcome = Result<Option<DepthSnapshotView>, ParseError>;

/// The outcome of reading a snapshot, as a value of the model.
pub open spec fn snapshot_outcome_of(r: Result<Option<DepthSnapshot>, ParseError>) -> SnapshotOutcome {
    match r {
        Ok(Some(s)) => Ok(Some(s@)),
        Ok(None) => Ok(None),
        Err(e) => Err(e),
    }
}

/// The snapshot that a venue's REST response holds, given what reading it
/// as JSON gave. Only Binance has one.
pub open spec fn venue_snapshot(venue: Exchange, doc: Option<JsonModel>) -> SnapshotOutcome {
    match venue {
        Exchange::Binance => match binance_snapshot(doc) {
            Ok(s) => Ok(Some(s)),
            Err(e) => Err(e),
        },
        _ => Ok(None),
    }
}

/// The level that a pair of decimal texts denotes, where both are
/// admissible.
pub open spec fn level_of_texts(price: Option<Seq<char>>, qty: Option<Seq<char>>) -> Option<
    (u64, u64),
> {
    match (price, qty) {
        (Some(p), Some(q)) => match (parse_scaled_spec(p), parse_scaled_spec(q)) {
            (Some(price), Some(qty)) => Some((price, qty)),
            _ => None,
        },
        _ => None,
    }
}

/// The level that two decimal texts denote, where both are admissible.
pub fn level_from_texts(price: Option<&str>, qty: Option<&str>) -> (r: Option<(u64, u64)>)
    ensures
        r == level_of_texts(opt_text(price), opt_text(qty)),
{
    match (price, qty) {
        (Some(p), Some(q)) => match (parse_scaled(p), parse_scaled(q)) {
            (Some(price), Some(qty)) => Some((price, qty)),
            _ => None,
        },
        _ => None,
    }
}

/// The levels among `items` that can be read, in their order: a level that
/// cannot be read is left out, the others stay.
pub open spec fn readable_levels(items: Seq<Option<(u64, u64)>>) -> Seq<(u64, u64)>
    decreases items.len(),
{
    if items.len() == 0 {
        Seq::empty()
    } else {
        let rest = readable_levels(items.drop_last());
        match items.last() {
            Some(level) => rest.push(level),
            None => rest,
        }
    }
}

/// The level that a pair of strings in a JSON array denotes.
pub open spec fn string_pair_level(j: JsonModel) -> Option<(u64, u64)> {
    level_of_texts(
        match json_element(j, 0) {
            Some(p) => json_string(p),
            None => None,
        },
        match json_element(j, 1) {
            Some(q) => json_string(q),
            None => None,
        },
    )
}

/// The levels that the string pairs among `items` denote.
pub open spec fn string_pair_levels(items: Seq<JsonModel>) -> Seq<(u64, u64)> {
    readable_levels(Seq::new(items.len(), |i: int| string_pair_level(items[i])))
}

/// The level that a pair of strings in a JSON array denotes.
pub fn read_string_pair(j: &Json) -> (r: Option<(u64, u64)>)
    ensures
        r == string_pair_level(j@),
{
    let price = match j.at(0) {
        Some(p) => p.as_str(),
        None => None,
    };
    let qty = match j.at(1) {
        Some(q) => q.as_str(),
        None => None,
    };
    level_from_texts(price, qty)
}

/// Reads the levels framed as string pairs, leaving out what cannot be
/// read.
pub fn read_string_pairs(items: &Vec<Json>) -> (r: Vec<(u64, u64)>)
    ensures
        r@ == string_pair_levels(models(items@)),
{
    let ghost all = Seq::new(items@.len(), |i: int| string_pair_level(models(items@)[i]));
    let mut out: Vec<(u64, u64)> = Vec::new();
    let mut i: usize = 0;
    while i < items.len()
        invariant
            i <= items.len(),
            all == Seq::new(items@.len(), |i: int| string_pair_level(models(items@)[i])),
            out@ == readable_levels(all.take(i as int)),
        decreases items.len() - i,
    {
        proof {
            assert(all.take(i as int + 1).drop_last() == all.take(i as int));
        }
        match read_string_pair(&items[i]) {
            Some(level) => {
                out.push(level);
            },
            None => {},
        }
        i += 1;
    }
    proof {
        assert(all.take(items.len() as int) == all);
    }
    out
}


/// The form of a canonical symbol on a venue that quotes in dollars: the
/// symbol without `USDT` at its end, then the venue's ending.
pub open spec fn venue_symbol(symbol: Seq<char>, ending: Seq<char>) -> Seq<char> {
    trim_end(symbol, "USDT"@) + ending
}

/// The venue's forms of the symbols.
pub open spec fn venue_symbols(symbols: Seq<Seq<char>>, ending: Seq<char>) -> Seq<Seq<char>> {
    Seq::new(symbols.len(), |i: int| venue_symbol(symbols[i], ending))
}

/// The canonical form of a venue's symbol: every `marker` in it replaced by
/// `USDT`.
pub open spec fn canonical_symbol(native: Seq<char>, marker: Seq<char>) -> Seq<char> {
    replace_all(native, marker, "USDT"@)
}

/// The venue's forms of the symbols.
pub fn to_venue_symbols(symbols: &Vec<String>, ending: &str) -> (r: Vec<String>)
    ensures
        texts(r@) == venue_symbols(texts(symbols@), ending@),
{
    let quote = chars_of("USDT");
    let mut out: Vec<String> = Vec::new();
    let mut i: usize = 0;
    while i < symbols.len()
        invariant
            i <= symbols.len(),
            quote@ == "USDT"@,
            out@.len() == i,
            forall|k: int| 0 <= k < i ==> (#[trigger] out@[k])@ == venue_symbol(symbols@[k]@, ending@),
        decreases symbols.len() - i,
    {
        let cs = chars_of(symbols[i].as_str());
        let mut native = trim_end_matches(&cs, &quote);
        push_str(&mut native, ending);
        out.push(string_of(&native));
        i += 1;
    }
    proof {
        assert(texts(out@) =~= venue_symbols(texts(symbols@), ending@));
    }
    out
}

/// The canonical form of a venue's symbol.
pub fn to_canonical_symbol(native: &str, marker: &str) -> (r: String)
    ensures
        r@ == canonical_symbol(native@, marker@),
{
    let cs = chars_of(native);
    let from = chars_of(marker);
    let to = chars_of("USDT");
    let out = replace(&cs, &from, &to);
    string_of(&out)
}


/// The connector of one venue.
#[derive(Debug, Clone)]
pub enum ExchangeConnector {
    Binance(BinanceConnector),
    Bybit(BybitConnector),
    Coinbase(CoinbaseConnector),
    Kraken(KrakenConnector),
}

/// The event that a venue's message gives, given its text and what reading
/// it as JSON gave.
pub open spec fn venue_event(venue: Exchange, raw: Seq<char>, doc: Option<JsonModel>) -> ParseOutcome {
    match venue {
        Exchange::Binance => binance_event(raw, doc),
        Exchange::Bybit => bybit_event(doc),
        Exchange::Coinbase => coinbase_event(raw, doc),
        Exchange::Kraken => kraken_event(raw, doc),
    }
}

/// The subscription frames of a venue: the texts of its requests. Bybit
/// subscribes the symbols asked for, Coinbase and Kraken those that the
/// connector was made for, in the venue's form.
pub open spec fn venue_subscriptions(
    venue: Exchange,
    own: Seq<Seq<char>>,
    asked: Seq<Seq<char>>,
) -> Seq<Seq<char>> {
    match venue {
        Exchange::Binance => Seq::empty(),
        Exchange::Bybit => seq![json_text(bybit_subscription(asked))],
        Exchange::Coinbase => seq![
            json_text(coinbase_subscription(venue_symbols(own, "-USD"@), "level2"@)),
            json_text(coinbase_subscription(venue_symbols(own, "-USD"@), "market_trades"@)),
        ],
        Exchange::Kraken => seq![
            json_text(kraken_book_subscription(venue_symbols(own, "/USD"@))),
            json_text(kraken_trade_subscription(venue_symbols(own, "/USD"@))),
        ],
    }
}

/// The address of a venue's stream for the symbols.
pub open spec fn venue_url(venue: Exchange, symbols: Seq<Seq<char>>) -> Seq<char> {
    match venue {
        Exchange::Binance => binance_url(symbols),
        Exchange::Bybit => "wss://stream.bybit.com/v5/public/linear"@,
        Exchange::Coinbase => "wss://advanced-trade-ws.coinbase.com"@,
        Exchange::Kraken => "wss://ws.kraken.com/v2"@,
    }
}

impl ExchangeConnector {
    /// The venue of the connector.
    pub open spec fn venue(&self) -> Exchange {
        match self {
            ExchangeConnector::Binance(_) => Exchange::Binance,
            ExchangeConnector::Bybit(_) => Exchange::Bybit,
            ExchangeConnector::Coinbase(_) => Exchange::Coinbase,
            ExchangeConnector::Kraken(_) => Exchange::Kraken,
        }
    }

    /// The symbols that the connector was made for.
    pub open spec fn symbols(&self) -> Seq<Seq<char>> {
        match self {
            ExchangeConnector::Binance(c) => c@,
            ExchangeConnector::Bybit(c) => c@,
            ExchangeConnector::Coinbase(c) => c@,
            ExchangeConnector::Kraken(c) => c@,
        }
    }

/// The venue of the connector.
    pub fn exchange(&self) -> (r: Exchange)
        ensures
            r == self.venue(),
    {
        match self {
            ExchangeConnector::Binance(_) => Exchange::Binance,
            ExchangeConnector::Bybit(_) => Exchange::Bybit,
            ExchangeConnector::Coinbase(_) => Exchange::Coinbase,
            ExchangeConnector::Kraken(_) => Exchange::Kraken,
        }
    }

    /// The address of the venue's stream. Only Binance's carries the
    /// subscriptions.
    pub fn build_subscription_url(&self, symbols: &[&str]) -> (r: String)
        ensures
            r@ == venue_url(self.venue(), texts(symbols@)),
    {
        match self {
            ExchangeConnector::Binance(c) => c.build_subscription_url(symbols),
            ExchangeConnector::Bybit(c) => c.build_subscription_url(symbols),
            ExchangeConnector::Coinbase(c) => c.build_subscription_url(symbols),
            ExchangeConnector::Kraken(c) => c.build_subscription_url(symbols),
        }
    }

    /// Reads a message of the venue's stream into its normalized form.
    pub fn parse_message(&self, raw: &str) -> (r: Result<Option<MarketMessage>, ParseError>)
        ensures
            outcome_of(r) == venue_event(self.venue(), raw@, json_document(raw@)),
    {
        match self {
            ExchangeConnector::Binance(c) => c.parse_message(raw),
            ExchangeConnector::Bybit(c) => c.parse_message(raw),
            ExchangeConnector::Coinbase(c) => c.parse_message(raw),
            ExchangeConnector::Kraken(c) => c.parse_message(raw),
        }
    }

    /// The address from which the REST snapshot of a symbol is fetched, for
    /// the venue that starts its books from one: Binance.
    pub fn snapshot_url(&self, symbol: &str, limit: usize) -> (r: Option<String>)
        ensures
            match r {
                Some(url) => self.venue() == Exchange::Binance && url@ == binance_snapshot_url(
                    symbol@,
                    limit as nat,
                ),
                None => self.venue() != Exchange::Binance,
            },
    {
        match self {
            ExchangeConnector::Binance(c) => c.snapshot_url(symbol, limit),
            ExchangeConnector::Bybit(c) => c.snapshot_url(symbol, limit),
            ExchangeConnector::Coinbase(c) => c.snapshot_url(symbol, limit),
            ExchangeConnector::Kraken(c) => c.snapshot_url(symbol, limit),
        }
    }

    /// Reads the response of a REST snapshot, for the venue that has one:
    /// Binance. The other venues give nothing.
    pub fn parse_snapshot(&self, raw: &str) -> (r: Result<Option<DepthSnapshot>, ParseError>)
        ensures
            snapshot_outcome_of(r) == venue_snapshot(self.venue(), json_document(raw@)),
    {
        match self {
            ExchangeConnector::Binance(c) => match c.parse_snapshot(raw) {
                Ok(s) => Ok(Some(s)),
                Err(e) => Err(e),
            },
            _ => Ok(None),
        }
    }

/// The symbols that the connector was made for.
    pub fn supported_symbols(&self) -> (r: Vec<String>)
        ensures
            texts(r@) == self.symbols(),
    {
        match self {
            ExchangeConnector::Binance(c) => c.supported_symbols(),
            ExchangeConnector::Bybit(c) => c.supported_symbols(),
            ExchangeConnector::Coinbase(c) => c.supported_symbols(),
            ExchangeConnector::Kraken(c) => c.supported_symbols(),
        }
    }

    /// The frames to send after the connection is made: none for Binance,
    /// one request for Bybit, and for Coinbase and Kraken one for the book
    /// and one for the trades of the connector's own symbols.
    pub fn get_subscription_messages(&self, symbols: &[&str]) -> (r: Vec<String>)
        ensures
            texts(r@) == venue_subscriptions(self.venue(), self.symbols(), texts(symbols@)),
    {
        match self {
            ExchangeConnector::Binance(_) => {
                let out: Vec<String> = Vec::new();
                proof {
                    assert(texts(out@) =~= Seq::<Seq<char>>::empty());
                }
                out
            },
            ExchangeConnector::Bybit(c) => c.get_subscription_messages(symbols),
            ExchangeConnector::Coinbase(c) => c.get_subscription_messages(),
            ExchangeConnector::Kraken(c) => c.get_subscription_messages(),
        }
    }
}

} // verus!

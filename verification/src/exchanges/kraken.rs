use vstd::prelude::*;
use crate::exchanges::bybit::clone_strings;
use crate::exchanges::{
    canonical_symbol, level_from_texts, level_of_texts, outcome_of, readable_levels, texts,
    to_canonical_symbol, to_venue_symbols, venue_symbols, Exchange, MarketMessage,
    MarketMessageView, ParseError, ParseOutcome,
};
use crate::json::{
    json_document, json_from_str, json_text, json_to_string, member_items, member_models,
    member_number, member_signed, member_string, models, string_array, text_array, Json,
    JsonModel,
};
use crate::numeric::{parse_scaled, parse_scaled_spec};
use crate::text::{contains_text, str_contains, str_eq};
use crate::timestamp::{parse_rfc3339_millis, rfc3339_millis};
use crate::types::{Trade, TradeSide, TradeView};

verus! {

/// The connector of Kraken's second stream interface: subscriptions are
/// requests sent after the connection is made, symbols are quoted in
/// dollars with a slash, and prices and quantities are JSON numbers.
#[derive(Debug, Clone)]
pub struct KrakenConnector {
    symbols: Vec<String>,
}

impl View for KrakenConnector {
    type V = Seq<Seq<char>>;

    closed spec fn view(&self) -> Seq<Seq<char>> {
        texts(self.symbols@)
    }
}

/// The request that subscribes `symbols` to the book channel, with 25
/// levels and a snapshot first.
pub open spec fn kraken_book_subscription(symbols: Seq<Seq<char>>) -> JsonModel {
    JsonModel::Object(
        seq![
            ("method"@, JsonModel::Str("subscribe"@)),
            (
                "params"@,
                JsonModel::Object(
                    seq![
                        ("channel"@, JsonModel::Str("book"@)),
                        ("symbol"@, string_array(symbols)),
                        ("depth"@, JsonModel::Number("25"@)),
                        ("snapshot"@, JsonModel::Bool(true)),
                    ],
                ),
            ),
        ],
    )
}

/// The request that subscribes `symbols` to the trade channel.
pub open spec fn kraken_trade_subscription(symbols: Seq<Seq<char>>) -> JsonModel {
    JsonModel::Object(
        seq![
            ("method"@, JsonModel::Str("subscribe"@)),
            (
                "params"@,
                JsonModel::Object(
                    seq![("channel"@, JsonModel::Str("trade"@)), ("symbol"@, string_array(symbols))],
                ),
            ),
        ],
    )
}

/// The level that an object with the numbers `price` and `qty` denotes.
pub open spec fn kraken_level(item: JsonModel) -> Option<(u64, u64)> {
    level_of_texts(member_number(item, "price"@), member_number(item, "qty"@))
}

/// The levels that the objects among `items` denote.
pub open spec fn kraken_levels(items: Seq<JsonModel>) -> Seq<(u64, u64)> {
    readable_levels(Seq::new(items.len(), |i: int| kraken_level(items[i])))
}

/// A signed checksum as an unsigned id: itself where it is not negative,
/// else raised by 2^64.
pub open spec fn unsigned_id(c: i64) -> u64 {
    if c >= 0 {
        c as u64
    } else {
        (c + 0x1_0000_0000_0000_0000) as u64
    }
}

/// The id of a book entry: its checksum, zero where it has none.
pub open spec fn kraken_update_id(entry: JsonModel) -> u64 {
    match member_signed(entry, "checksum"@) {
        Some(c) => unsigned_id(c),
        None => 0,
    }
}

/// What one entry of a book message gives: nothing where it is passed over
/// (a delta without levels), else the event or the error that ends the
/// reading.
pub open spec fn kraken_book_entry(entry: JsonModel, is_snapshot: bool) -> Option<
    Result<MarketMessageView, ParseError>,
> {
    match (
        member_string(entry, "symbol"@),
        member_items(entry, "bids"@),
        member_items(entry, "asks"@),
    ) {
        (Some(symbol), Some(b), Some(a)) => if !is_snapshot && kraken_levels(b).len() == 0
            && kraken_levels(a).len() == 0 {
            None
        } else {
            Some(
                Ok(
                    MarketMessageView::DepthUpdate {
                        exchange: Exchange::Kraken,
                        symbol: canonical_symbol(symbol, "/USD"@),
                        bids: kraken_levels(b),
                        asks: kraken_levels(a),
                        update_id: kraken_update_id(entry),
                        is_snapshot,
                    },
                ),
            )
        },
        _ => Some(Err(ParseError::Malformed)),
    }
}

/// The first entry of a book message that is not passed over.
pub open spec fn kraken_first_book(entries: Seq<JsonModel>, is_snapshot: bool) -> ParseOutcome
    decreases entries.len(),
{
    if entries.len() == 0 {
        Ok(None)
    } else {
        match kraken_book_entry(entries[0], is_snapshot) {
            Some(Ok(m)) => Ok(Some(m)),
            Some(Err(e)) => Err(e),
            None => kraken_first_book(entries.drop_first(), is_snapshot),
        }
    }
}

/// The depth event of a book message.
pub open spec fn kraken_book(msg: JsonModel) -> ParseOutcome {
    match (member_string(msg, "type"@), member_items(msg, "data"@)) {
        (Some(kind), Some(entries)) => kraken_first_book(entries, kind == "snapshot"@),
        _ => Err(ParseError::Malformed),
    }
}

/// The trade that the members of a trade entry give, with `millis` for what
/// was read from its time: none where the price or the quantity is no
/// admissible decimal or the side is neither `buy` nor `sell`. A time that
/// could not be read counts as zero.
pub open spec fn kraken_trade_of(
    symbol: Seq<char>,
    price: Seq<char>,
    qty: Seq<char>,
    side: Seq<char>,
    millis: Option<i64>,
) -> Option<TradeView> {
    match (parse_scaled_spec(price), parse_scaled_spec(qty)) {
        (Some(price), Some(quantity)) => if side == "buy"@ || side == "sell"@ {
            Some(
                TradeView {
                    exchange: "Kraken"@,
                    symbol: canonical_symbol(symbol, "/USD"@),
                    price,
                    quantity,
                    side: if side == "buy"@ {
                        TradeSide::Buy
                    } else {
                        TradeSide::Sell
                    },
                    timestamp: match millis {
                        Some(t) => t,
                        None => 0,
                    },
                },
            )
        } else {
            None
        },
        _ => None,
    }
}

/// What one entry of a trade message gives: nothing where it is passed
/// over, else the trade or the error that ends the reading.
pub open spec fn kraken_trade_entry(entry: JsonModel) -> Option<Result<TradeView, ParseError>> {
    match (
        member_string(entry, "symbol"@),
        member_number(entry, "price"@),
        member_number(entry, "qty"@),
        member_string(entry, "side"@),
        member_string(entry, "timestamp"@),
    ) {
        (Some(symbol), Some(price), Some(qty), Some(side), Some(time)) => match kraken_trade_of(
            symbol,
            price,
            qty,
            side,
            rfc3339_millis(time),
        ) {
            Some(t) => Some(Ok(t)),
            None => None,
        },
        _ => Some(Err(ParseError::Malformed)),
    }
}

/// The first entry of a trade message that is not passed over.
pub open spec fn kraken_first_trade(entries: Seq<JsonModel>) -> ParseOutcome
    decreases entries.len(),
{
    if entries.len() == 0 {
        Ok(None)
    } else {
        match kraken_trade_entry(entries[0]) {
            Some(Ok(t)) => Ok(Some(MarketMessageView::Trade(t))),
            Some(Err(e)) => Err(e),
            None => kraken_first_trade(entries.drop_first()),
        }
    }
}

/// The trade of a trade message.
pub open spec fn kraken_trade(msg: JsonModel) -> ParseOutcome {
    match member_items(msg, "data"@) {
        Some(entries) => kraken_first_trade(entries),
        None => Err(ParseError::Malformed),
    }
}

/// Whether a text is one of the control messages that are ignored unread:
/// subscription answers, heartbeats and status messages.
pub open spec fn is_kraken_control(raw: Seq<char>) -> bool {
    ||| contains_text(raw, "\"method\":\"subscribe\""@)
    ||| contains_text(raw, "\"channel\":\"heartbeat\""@)
    ||| contains_text(raw, "\"channel\":\"status\""@)
}

/// The event of a message whose JSON document is `msg`, by its channel.
pub open spec fn kraken_event_of(msg: JsonModel) -> ParseOutcome {
    match member_string(msg, "channel"@) {
        Some(channel) => if channel == "book"@ {
            kraken_book(msg)
        } else if channel == "trade"@ {
            kraken_trade(msg)
        } else {
            Ok(None)
        },
        None => Ok(None),
    }
}

/// The event of a message, given its text and what reading it as JSON
/// gave. Control messages and texts that are no JSON are ignored.
pub open spec fn kraken_event(raw: Seq<char>, doc: Option<JsonModel>) -> ParseOutcome {
    if is_kraken_control(raw) {
        Ok(None)
    } else {
        match doc {
            Some(msg) => kraken_event_of(msg),
            None => Ok(None),
        }
    }
}

/// The levels framed as objects of two numbers, leaving out what cannot be
/// read.
pub fn read_number_levels(items: &Vec<Json>) -> (r: Vec<(u64, u64)>)
    ensures
        r@ == kraken_levels(models(items@)),
{
    let ghost all = Seq::new(items@.len(), |i: int| kraken_level(models(items@)[i]));
    let mut out: Vec<(u64, u64)> = Vec::new();
    let mut i: usize = 0;
    while i < items.len()
        invariant
            i <= items.len(),
            all == Seq::new(items@.len(), |i: int| kraken_level(models(items@)[i])),
            out@ == readable_levels(all.take(i as int)),
        decreases items.len() - i,
    {
        proof {
            assert(all.take(i as int + 1).drop_last() == all.take(i as int));
        }
        match level_from_texts(items[i].get_number("price"), items[i].get_number("qty")) {
            Some(level) => {
                out.push(level);
            },
            None => {},
        }
        i += 1;
    }
    proof {
        assert(all.take(items.len() as int) == all);
    }
    out
}

/// A signed checksum as an unsigned id.
pub fn to_unsigned_id(c: i64) -> (r: u64)
    ensures
        r == unsigned_id(c),
{
    if c >= 0 {
        c as u64
    } else {
        (c as i128 + 0x1_0000_0000_0000_0000i128) as u64
    }
}

/// The trade that the members of a trade entry give, with `millis` for what
/// was read from its time.
pub fn trade_from_fields(
    symbol: &str,
    price: &str,
    qty: &str,
    side: &str,
    millis: Option<i64>,
) -> (r: Option<Trade>)
    ensures
        match r {
            Some(t) => kraken_trade_of(symbol@, price@, qty@, side@, millis) == Some(t@),
            None => kraken_trade_of(symbol@, price@, qty@, side@, millis) is None,
        },
{
    match (parse_scaled(price), parse_scaled(qty)) {
        (Some(price), Some(quantity)) => {
            let buy = str_eq(side, "buy");
            let sell = str_eq(side, "sell");
            if buy || sell {
                Some(
                    Trade {
                        exchange: "Kraken".to_owned(),
                        symbol: to_canonical_symbol(symbol, "/USD"),
                        price,
                        quantity,
                        side: if buy {
                            TradeSide::Buy
                        } else {
                            TradeSide::Sell
                        },
                        timestamp: match millis {
                            Some(t) => t,
                            None => 0,
                        },
                    },
                )
            } else {
                None
            }
        },
        _ => None,
    }
}

impl KrakenConnector {
/// A connector for the given symbols, in their canonical form.
    pub fn new(symbols: Vec<String>) -> (r: Self)
        ensures
            r@ == texts(symbols@),
    {
        Self { symbols }
    }

    /// The address of the stream. Subscriptions are not part of it.
    pub fn build_subscription_url(&self, _symbols: &[&str]) -> (r: String)
        ensures
            r@ == "wss://ws.kraken.com/v2"@,
    {
        "wss://ws.kraken.com/v2".to_owned()
    }

    /// The request that subscribes the connector's symbols to the book
    /// channel.
    pub fn book_subscription(&self) -> (r: Json)
        ensures
            r@ == kraken_book_subscription(venue_symbols(self@, "/USD"@)),
    {
        let symbols = to_venue_symbols(&self.symbols, "/USD");
        let list = text_array(&symbols);
        proof {
            assert(Seq::new(symbols@.len(), |i: int| symbols@[i]@) == texts(symbols@));
        }
        let mut params: Vec<(String, Json)> = Vec::new();
        params.push(("channel".to_owned(), Json::Str("book".to_owned())));
        params.push(("symbol".to_owned(), list));
        params.push(("depth".to_owned(), Json::Number("25".to_owned())));
        params.push(("snapshot".to_owned(), Json::Bool(true)));
        proof {
            assert(member_models(params@) =~= seq![
                ("channel"@, JsonModel::Str("book"@)),
                ("symbol"@, string_array(venue_symbols(self@, "/USD"@))),
                ("depth"@, JsonModel::Number("25"@)),
                ("snapshot"@, JsonModel::Bool(true)),
            ]);
        }
        let inner = Json::object(params);
        let mut members: Vec<(String, Json)> = Vec::new();
        members.push(("method".to_owned(), Json::Str("subscribe".to_owned())));
        members.push(("params".to_owned(), inner));
        proof {
            assert(member_models(members@) =~= seq![
                ("method"@, JsonModel::Str("subscribe"@)),
                ("params"@, inner@),
            ]);
        }
        Json::object(members)
    }

    /// The request that subscribes the connector's symbols to the trade
    /// channel.
    pub fn trade_subscription(&self) -> (r: Json)
        ensures
            r@ == kraken_trade_subscription(venue_symbols(self@, "/USD"@)),
    {
        let symbols = to_venue_symbols(&self.symbols, "/USD");
        let list = text_array(&symbols);
        proof {
            assert(Seq::new(symbols@.len(), |i: int| symbols@[i]@) == texts(symbols@));
        }
        let mut params: Vec<(String, Json)> = Vec::new();
        params.push(("channel".to_owned(), Json::Str("trade".to_owned())));
        params.push(("symbol".to_owned(), list));
        proof {
            assert(member_models(params@) =~= seq![
                ("channel"@, JsonModel::Str("trade"@)),
                ("symbol"@, string_array(venue_symbols(self@, "/USD"@))),
            ]);
        }
        let inner = Json::object(params);
        let mut members: Vec<(String, Json)> = Vec::new();
        members.push(("method".to_owned(), Json::Str("subscribe".to_owned())));
        members.push(("params".to_owned(), inner));
        proof {
            assert(member_models(members@) =~= seq![
                ("method"@, JsonModel::Str("subscribe"@)),
                ("params"@, inner@),
            ]);
        }
        Json::object(members)
    }

    /// The frames to send after the connection is made: one request for
    /// the book channel, one for the trades.
    pub fn get_subscription_messages(&self) -> (r: Vec<String>)
        ensures
            texts(r@) == seq![
                json_text(kraken_book_subscription(venue_symbols(self@, "/USD"@))),
                json_text(kraken_trade_subscription(venue_symbols(self@, "/USD"@))),
            ],
    {
        let book = self.book_subscription();
        let trades = self.trade_subscription();
        let mut out: Vec<String> = Vec::new();
        out.push(json_to_string(&book));
        out.push(json_to_string(&trades));
        proof {
            assert(texts(out@) =~= seq![
                json_text(kraken_book_subscription(venue_symbols(self@, "/USD"@))),
                json_text(kraken_trade_subscription(venue_symbols(self@, "/USD"@))),
            ]);
        }
        out
    }

    /// What one entry of a book message gives.
    pub fn book_entry(entry: &Json, is_snapshot: bool) -> (r: Option<
        Result<MarketMessage, ParseError>,
    >)
        ensures
            match r {
                Some(Ok(m)) => kraken_book_entry(entry@, is_snapshot) == Some(
                    Ok::<MarketMessageView, ParseError>(m@),
                ),
                Some(Err(e)) => kraken_book_entry(entry@, is_snapshot) == Some(
                    Err::<MarketMessageView, ParseError>(e),
                ),
                None => kraken_book_entry(entry@, is_snapshot) is None,
            },
    {
        match (entry.get_str("symbol"), entry.get_array("bids"), entry.get_array("asks")) {
            (Some(symbol), Some(b), Some(a)) => {
                let bids = read_number_levels(b);
                let asks = read_number_levels(a);
                if !is_snapshot && bids.len() == 0 && asks.len() == 0 {
                    None
                } else {
                    let update_id = match entry.get_i64("checksum") {
                        Some(c) => to_unsigned_id(c),
                        None => 0,
                    };
                    Some(
                        Ok(
                            MarketMessage::DepthUpdate {
                                exchange: Exchange::Kraken,
                                symbol: to_canonical_symbol(symbol, "/USD"),
                                bids,
                                asks,
                                update_id,
                                is_snapshot,
                            },
                        ),
                    )
                }
            },
            _ => Some(Err(ParseError::Malformed)),
        }
    }

    /// The depth event of a book message: the first entry that is a
    /// snapshot or holds a level.
    pub fn parse_book_message(msg: &Json) -> (r: Result<Option<MarketMessage>, ParseError>)
        ensures
            outcome_of(r) == kraken_book(msg@),
    {
        match (msg.get_str("type"), msg.get_array("data")) {
            (Some(kind), Some(entries)) => {
                let is_snapshot = str_eq(kind, "snapshot");
                Self::first_book(entries, is_snapshot)
            },
            _ => Err(ParseError::Malformed),
        }
    }

    /// The first entry of a book message that is not passed over.
    pub fn first_book(entries: &Vec<Json>, is_snapshot: bool) -> (r: Result<
        Option<MarketMessage>,
        ParseError,
    >)
        ensures
            outcome_of(r) == kraken_first_book(models(entries@), is_snapshot),
    {
        let ghost all = models(entries@);
        let mut i: usize = 0;
        proof {
            assert(all.skip(0) == all);
        }
        while i < entries.len()
            invariant
                i <= entries.len(),
                all == models(entries@),
                kraken_first_book(all, is_snapshot) == kraken_first_book(
                    all.skip(i as int),
                    is_snapshot,
                ),
            decreases entries.len() - i,
        {
            proof {
                assert(all.skip(i as int).drop_first() == all.skip(i as int + 1));
                assert(all.skip(i as int)[0] == entries@[i as int]@);
            }
            match Self::book_entry(&entries[i], is_snapshot) {
                Some(Ok(m)) => {
                    return Ok(Some(m));
                },
                Some(Err(e)) => {
                    return Err(e);
                },
                None => {},
            }
            i += 1;
        }
        Ok(None)
    }

    /// What one entry of a trade message gives.
    pub fn trade_entry(entry: &Json) -> (r: Option<Result<Trade, ParseError>>)
        ensures
            match r {
                Some(Ok(t)) => kraken_trade_entry(entry@) == Some(Ok::<TradeView, ParseError>(t@)),
                Some(Err(e)) => kraken_trade_entry(entry@) == Some(Err::<TradeView, ParseError>(e)),
                None => kraken_trade_entry(entry@) is None,
            },
    {
        match (
            entry.get_str("symbol"),
            entry.get_number("price"),
            entry.get_number("qty"),
            entry.get_str("side"),
            entry.get_str("timestamp"),
        ) {
            (Some(symbol), Some(price), Some(qty), Some(side), Some(time)) => {
                let millis = parse_rfc3339_millis(time);
                match trade_from_fields(symbol, price, qty, side, millis) {
                    Some(t) => Some(Ok(t)),
                    None => None,
                }
            },
            _ => Some(Err(ParseError::Malformed)),
        }
    }

    /// The trade of a trade message: the first entry that can be read.
    pub fn parse_trade_message(msg: &Json) -> (r: Result<Option<MarketMessage>, ParseError>)
        ensures
            outcome_of(r) == kraken_trade(msg@),
    {
        match msg.get_array("data") {
            Some(entries) => Self::first_trade(entries),
            None => Err(ParseError::Malformed),
        }
    }

    /// The first entry of a trade message that is not passed over.
    pub fn first_trade(entries: &Vec<Json>) -> (r: Result<Option<MarketMessage>, ParseError>)
        ensures
            outcome_of(r) == kraken_first_trade(models(entries@)),
    {
        let ghost all = models(entries@);
        let mut i: usize = 0;
        proof {
            assert(all.skip(0) == all);
        }
        while i < entries.len()
            invariant
                i <= entries.len(),
                all == models(entries@),
                kraken_first_trade(all) == kraken_first_trade(all.skip(i as int)),
            decreases entries.len() - i,
        {
            proof {
                assert(all.skip(i as int).drop_first() == all.skip(i as int + 1));
                assert(all.skip(i as int)[0] == entries@[i as int]@);
            }
            match Self::trade_entry(&entries[i]) {
                Some(Ok(t)) => {
                    return Ok(Some(MarketMessage::Trade(t)));
                },
                Some(Err(e)) => {
                    return Err(e);
                },
                None => {},
            }
            i += 1;
        }
        Ok(None)
    }

    /// The event of a message whose JSON document is `msg`.
    pub fn event_of(msg: &Json) -> (r: Result<Option<MarketMessage>, ParseError>)
        ensures
            outcome_of(r) == kraken_event_of(msg@),
    {
        match msg.get_str("channel") {
            Some(channel) => {
                if str_eq(channel, "book") {
                    Self::parse_book_message(msg)
                } else if str_eq(channel, "trade") {
                    Self::parse_trade_message(msg)
                } else {
                    Ok(None)
                }
            },
            None => Ok(None),
        }
    }

    /// Reads a message of the stream. Subscription answers, heartbeats,
    /// status messages, texts that are no JSON and messages of other
    /// channels are ignored; a book or trade message without the members of
    /// its kind is an error.
    pub fn parse_message(&self, raw: &str) -> (r: Result<Option<MarketMessage>, ParseError>)
        ensures
            outcome_of(r) == kraken_event(raw@, json_document(raw@)),
    {
        if str_contains(raw, "\"method\":\"subscribe\"") || str_contains(
            raw,
            "\"channel\":\"heartbeat\"",
        ) || str_contains(raw, "\"channel\":\"status\"") {
            return Ok(None);
        }
        match json_from_str(raw) {
            Ok(msg) => Self::event_of(&msg),
            Err(_) => Ok(None),
        }
    }

    /// No REST snapshot is asked for: the stream sends one.
    pub fn snapshot_url(&self, _symbol: &str, _limit: usize) -> (r: Option<String>)
        ensures
            r is None,
    {
        None
    }

/// The symbols that the connector was made for.
    pub fn supported_symbols(&self) -> (r: Vec<String>)
        ensures
            texts(r@) == self@,
    {
        clone_strings(&self.symbols)
    }
}

} // verus!

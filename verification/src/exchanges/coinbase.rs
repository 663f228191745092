use vstd::prelude::*;
use crate::exchanges::bybit::clone_strings;
use crate::exchanges::{
    canonical_symbol, level_from_texts, level_of_texts, outcome_of, readable_levels, texts,
    to_canonical_symbol, to_venue_symbols, venue_symbols, Exchange, MarketMessage,
    MarketMessageView, ParseError, ParseOutcome,
};
use crate::json::{
    json_document, json_from_str, json_text, json_to_string, member_items, member_models,
    member_string, member_unsigned, models, string_array, text_array, Json, JsonModel,
};
use crate::numeric::{parse_scaled, parse_scaled_spec};
use crate::text::{contains_text, str_contains, str_eq};
use crate::timestamp::{parse_rfc3339_millis, rfc3339_millis};
use crate::types::{Trade, TradeSide, TradeView};

verus! {

/// The connector of Coinbase's advanced-trade stream: two subscription
/// frames are sent after the connection is made, symbols are quoted in
/// dollars, and times are RFC 3339 texts.
#[derive(Debug, Clone)]
pub struct CoinbaseConnector {
    symbols: Vec<String>,
}

impl View for CoinbaseConnector {
    type V = Seq<Seq<char>>;

    closed spec fn view(&self) -> Seq<Seq<char>> {
        texts(self.symbols@)
    }
}

/// The request that subscribes `products` to `channel`.
pub open spec fn coinbase_subscription(products: Seq<Seq<char>>, channel: Seq<char>) -> JsonModel {
    JsonModel::Object(
        seq![
            ("type"@, JsonModel::Str("subscribe"@)),
            ("product_ids"@, string_array(products)),
            ("channel"@, JsonModel::Str(channel)),
        ],
    )
}

/// The level that an update gives to `side`: none where the update is of
/// the other side or cannot be read.
pub open spec fn coinbase_level(update: JsonModel, side: Seq<char>) -> Option<(u64, u64)> {
    if member_string(update, "side"@) == Some(side) {
        level_of_texts(member_string(update, "price_level"@), member_string(update, "new_quantity"@))
    } else {
        None
    }
}

/// The levels that the updates give to `side`.
pub open spec fn coinbase_levels(updates: Seq<JsonModel>, side: Seq<char>) -> Seq<(u64, u64)> {
    readable_levels(Seq::new(updates.len(), |i: int| coinbase_level(updates[i], side)))
}

/// Whether an update has its three members, each a string.
pub open spec fn is_coinbase_update(update: JsonModel) -> bool {
    &&& member_string(update, "side"@) is Some
    &&& member_string(update, "price_level"@) is Some
    &&& member_string(update, "new_quantity"@) is Some
}

/// Whether every update has its three string members.
pub open spec fn all_coinbase_updates(updates: Seq<JsonModel>) -> bool {
    forall|i: int| 0 <= i < updates.len() ==> is_coinbase_update(#[trigger] updates[i])
}

/// The depth event of a level-2 message: the updates of its first event,
/// bids from the side `bid` and asks from the side `offer`.
pub open spec fn coinbase_level2(msg: JsonModel) -> ParseOutcome {
    match (member_unsigned(msg, "sequence_num"@), member_items(msg, "events"@)) {
        (Some(sequence), Some(events)) => if events.len() == 0 {
            Ok(None)
        } else {
            match (
                member_string(events[0], "type"@),
                member_string(events[0], "product_id"@),
                member_items(events[0], "updates"@),
            ) {
                (Some(kind), Some(product), Some(updates)) => if all_coinbase_updates(updates) {
                    Ok(
                        Some(
                            MarketMessageView::DepthUpdate {
                                exchange: Exchange::Coinbase,
                                symbol: canonical_symbol(product, "-USD"@),
                                bids: coinbase_levels(updates, "bid"@),
                                asks: coinbase_levels(updates, "offer"@),
                                update_id: sequence,
                                is_snapshot: kind == "snapshot"@,
                            },
                        ),
                    )
                } else {
                    Err(ParseError::Malformed)
                },
                _ => Err(ParseError::Malformed),
            }
        },
        _ => Err(ParseError::Malformed),
    }
}

/// The trade that the members of a trade entry give, with `millis` for what
/// was read from its time: none where the price or the size is no
/// admissible decimal or the side is neither `BUY` nor `SELL`. A time that
/// could not be read counts as zero.
pub open spec fn coinbase_trade_of(
    product: Seq<char>,
    price: Seq<char>,
    size: Seq<char>,
    side: Seq<char>,
    millis: Option<i64>,
) -> Option<TradeView> {
    match (parse_scaled_spec(price), parse_scaled_spec(size)) {
        (Some(price), Some(quantity)) => if side == "BUY"@ || side == "SELL"@ {
            Some(
                TradeView {
                    exchange: "Coinbase"@,
                    symbol: canonical_symbol(product, "-USD"@),
                    price,
                    quantity,
                    side: if side == "BUY"@ {
                        TradeSide::Buy
                    } else {
                        TradeSide::Sell
                    },
                    timestamp: match millis {
                        Some(t) => t,
                        None => 0,
                    },
                },
            )
        } else {
            None
        },
        _ => None,
    }
}

/// The trade of a trade message: the first trade of its first event.
pub open spec fn coinbase_trade(msg: JsonModel) -> ParseOutcome {
    match member_items(msg, "events"@) {
        Some(events) => if events.len() == 0 {
            Ok(None)
        } else {
            match member_items(events[0], "trades"@) {
                Some(trades) => if trades.len() == 0 {
                    Ok(None)
                } else {
                    match (
                        member_string(trades[0], "product_id"@),
                        member_string(trades[0], "price"@),
                        member_string(trades[0], "size"@),
                        member_string(trades[0], "side"@),
                        member_string(trades[0], "time"@),
                    ) {
                        (Some(product), Some(price), Some(size), Some(side), Some(time)) => {
                            match coinbase_trade_of(
                                product,
                                price,
                                size,
                                side,
                                rfc3339_millis(time),
                            ) {
                                Some(t) => Ok(Some(MarketMessageView::Trade(t))),
                                None => Ok(None),
                            }
                        },
                        _ => Err(ParseError::Malformed),
                    }
                },
                None => Err(ParseError::Malformed),
            }
        },
        None => Err(ParseError::Malformed),
    }
}

/// Whether a text is one of the control messages that are ignored unread:
/// subscription lists and heartbeats.
pub open spec fn is_coinbase_control(raw: Seq<char>) -> bool {
    ||| contains_text(raw, "\"channel\":\"subscriptions\""@)
    ||| contains_text(raw, "\"channel\":\"heartbeats\""@)
    ||| contains_text(raw, "\"subscriptions\":{"@)
}

/// The event of a message whose JSON document is `msg`, by its channel.
pub open spec fn coinbase_event_of(msg: JsonModel) -> ParseOutcome {
    match member_string(msg, "channel"@) {
        Some(channel) => if channel == "l2_data"@ {
            coinbase_level2(msg)
        } else if channel == "market_trades"@ {
            coinbase_trade(msg)
        } else {
            Ok(None)
        },
        None => Ok(None),
    }
}

/// The event of a message, given its text and what reading it as JSON
/// gave. Control messages and texts that are no JSON are ignored.
pub open spec fn coinbase_event(raw: Seq<char>, doc: Option<JsonModel>) -> ParseOutcome {
    if is_coinbase_control(raw) {
        Ok(None)
    } else {
        match doc {
            Some(msg) => coinbase_event_of(msg),
            None => Ok(None),
        }
    }
}

/// Whether every update has its three string members.
pub fn check_updates(updates: &Vec<Json>) -> (r: bool)
    ensures
        r == all_coinbase_updates(models(updates@)),
{
    let mut i: usize = 0;
    while i < updates.len()
        invariant
            i <= updates.len(),
            forall|k: int| 0 <= k < i ==> is_coinbase_update(#[trigger] models(updates@)[k]),
        decreases updates.len() - i,
    {
        let u = &updates[i];
        if u.get_str("side").is_none() || u.get_str("price_level").is_none() || u.get_str(
            "new_quantity",
        ).is_none() {
            proof {
                assert(!is_coinbase_update(models(updates@)[i as int]));
            }
            return false;
        }
        proof {
            assert(is_coinbase_update(models(updates@)[i as int]));
        }
        i += 1;
    }
    true
}

/// The levels that the updates give to `side`.
pub fn read_levels(updates: &Vec<Json>, side: &str) -> (r: Vec<(u64, u64)>)
    ensures
        r@ == coinbase_levels(models(updates@), side@),
{
    let ghost all = Seq::new(
        updates@.len(),
        |i: int| coinbase_level(models(updates@)[i], side@),
    );
    let mut out: Vec<(u64, u64)> = Vec::new();
    let mut i: usize = 0;
    while i < updates.len()
        invariant
            i <= updates.len(),
            all == Seq::new(updates@.len(), |i: int| coinbase_level(models(updates@)[i], side@)),
            out@ == readable_levels(all.take(i as int)),
        decreases updates.len() - i,
    {
        proof {
            assert(all.take(i as int + 1).drop_last() == all.take(i as int));
        }
        let u = &updates[i];
        let of_side = match u.get_str("side") {
            Some(s) => str_eq(s, side),
            None => false,
        };
        if of_side {
            match level_from_texts(u.get_str("price_level"), u.get_str("new_quantity")) {
                Some(level) => {
                    out.push(level);
                },
                None => {},
            }
        }
        i += 1;
    }
    proof {
        assert(all.take(updates.len() as int) == all);
    }
    out
}

/// The trade that the members of a trade entry give, with `millis` for what
/// was read from its time.
pub fn trade_from_fields(
    product: &str,
    price: &str,
    size: &str,
    side: &str,
    millis: Option<i64>,
) -> (r: Option<Trade>)
    ensures
        match r {
            Some(t) => coinbase_trade_of(product@, price@, size@, side@, millis) == Some(t@),
            None => coinbase_trade_of(product@, price@, size@, side@, millis) is None,
        },
{
    match (parse_scaled(price), parse_scaled(size)) {
        (Some(price), Some(quantity)) => {
            let buy = str_eq(side, "BUY");
            let sell = str_eq(side, "SELL");
            if buy || sell {
                Some(
                    Trade {
                        exchange: "Coinbase".to_owned(),
                        symbol: to_canonical_symbol(product, "-USD"),
                        price,
                        quantity,
                        side: if buy {
                            TradeSide::Buy
                        } else {
                            TradeSide::Sell
                        },
                        timestamp: match millis {
                            Some(t) => t,
                            None => 0,
                        },
                    },
                )
            } else {
                None
            }
        },
        _ => None,
    }
}

impl CoinbaseConnector {
/// A connector for the given symbols, in their canonical form.
    pub fn new(symbols: Vec<String>) -> (r: Self)
        ensures
            r@ == texts(symbols@),
    {
        Self { symbols }
    }

    /// The address of the stream. Subscriptions are not part of it.
    pub fn build_subscription_url(&self, _symbols: &[&str]) -> (r: String)
        ensures
            r@ == "wss://advanced-trade-ws.coinbase.com"@,
    {
        "wss://advanced-trade-ws.coinbase.com".to_owned()
    }

    /// The request that subscribes the connector's symbols to `channel`.
    pub fn subscription_request(&self, channel: &str) -> (r: Json)
        ensures
            r@ == coinbase_subscription(venue_symbols(self@, "-USD"@), channel@),
    {
        let products = to_venue_symbols(&self.symbols, "-USD");
        let list = text_array(&products);
        proof {
            assert(Seq::new(products@.len(), |i: int| products@[i]@) == texts(products@));
        }
        let mut members: Vec<(String, Json)> = Vec::new();
        members.push(("type".to_owned(), Json::Str("subscribe".to_owned())));
        members.push(("product_ids".to_owned(), list));
        members.push(("channel".to_owned(), Json::Str(channel.to_owned())));
        proof {
            assert(member_models(members@) =~= seq![
                ("type"@, JsonModel::Str("subscribe"@)),
                ("product_ids"@, string_array(venue_symbols(self@, "-USD"@))),
                ("channel"@, JsonModel::Str(channel@)),
            ]);
        }
        Json::object(members)
    }

    /// The frames to send after the connection is made: one request for
    /// the level-2 channel, one for the trades.
    pub fn get_subscription_messages(&self) -> (r: Vec<String>)
        ensures
            texts(r@) == seq![
                json_text(coinbase_subscription(venue_symbols(self@, "-USD"@), "level2"@)),
                json_text(coinbase_subscription(venue_symbols(self@, "-USD"@), "market_trades"@)),
            ],
    {
        let book = self.subscription_request("level2");
        let trades = self.subscription_request("market_trades");
        let mut out: Vec<String> = Vec::new();
        out.push(json_to_string(&book));
        out.push(json_to_string(&trades));
        proof {
            assert(texts(out@) =~= seq![
                json_text(coinbase_subscription(venue_symbols(self@, "-USD"@), "level2"@)),
                json_text(coinbase_subscription(venue_symbols(self@, "-USD"@), "market_trades"@)),
            ]);
        }
        out
    }

    /// The depth event of a level-2 message.
    pub fn parse_level2_message(msg: &Json) -> (r: Result<Option<MarketMessage>, ParseError>)
        ensures
            outcome_of(r) == coinbase_level2(msg@),
    {
        match (msg.get_u64("sequence_num"), msg.get_array("events")) {
            (Some(sequence), Some(events)) => {
                if events.len() == 0 {
                    return Ok(None);
                }
                let event = &events[0];
                match (event.get_str("type"), event.get_str("product_id"), event.get_array("updates")) {
                    (Some(kind), Some(product), Some(updates)) => {
                        if !check_updates(updates) {
                            return Err(ParseError::Malformed);
                        }
                        Ok(
                            Some(
                                MarketMessage::DepthUpdate {
                                    exchange: Exchange::Coinbase,
                                    symbol: to_canonical_symbol(product, "-USD"),
                                    bids: read_levels(updates, "bid"),
                                    asks: read_levels(updates, "offer"),
                                    update_id: sequence,
                                    is_snapshot: str_eq(kind, "snapshot"),
                                },
                            ),
                        )
                    },
                    _ => Err(ParseError::Malformed),
                }
            },
            _ => Err(ParseError::Malformed),
        }
    }

    /// The trade of a trade message.
    pub fn parse_trade_message(msg: &Json) -> (r: Result<Option<MarketMessage>, ParseError>)
        ensures
            outcome_of(r) == coinbase_trade(msg@),
    {
        let events = match msg.get_array("events") {
            Some(e) => e,
            None => {
                return Err(ParseError::Malformed);
            },
        };
        if events.len() == 0 {
            return Ok(None);
        }
        let trades = match events[0].get_array("trades") {
            Some(t) => t,
            None => {
                return Err(ParseError::Malformed);
            },
        };
        if trades.len() == 0 {
            return Ok(None);
        }
        let entry = &trades[0];
        match (
            entry.get_str("product_id"),
            entry.get_str("price"),
            entry.get_str("size"),
            entry.get_str("side"),
            entry.get_str("time"),
        ) {
            (Some(product), Some(price), Some(size), Some(side), Some(time)) => {
                let millis = parse_rfc3339_millis(time);
                match trade_from_fields(product, price, size, side, millis) {
                    Some(t) => Ok(Some(MarketMessage::Trade(t))),
                    None => Ok(None),
                }
            },
            _ => Err(ParseError::Malformed),
        }
    }

    /// The event of a message whose JSON document is `msg`.
    pub fn event_of(msg: &Json) -> (r: Result<Option<MarketMessage>, ParseError>)
        ensures
            outcome_of(r) == coinbase_event_of(msg@),
    {
        match msg.get_str("channel") {
            Some(channel) => {
                if str_eq(channel, "l2_data") {
                    Self::parse_level2_message(msg)
                } else if str_eq(channel, "market_trades") {
                    Self::parse_trade_message(msg)
                } else {
                    Ok(None)
                }
            },
            None => Ok(None),
        }
    }

    /// Reads a message of the stream. Subscription lists, heartbeats, texts
    /// that are no JSON and messages of other channels are ignored; a
    /// level-2 or trade message without the members of its kind is an error.
    pub fn parse_message(&self, raw: &str) -> (r: Result<Option<MarketMessage>, ParseError>)
        ensures
            outcome_of(r) == coinbase_event(raw@, json_document(raw@)),
    {
        if str_contains(raw, "\"channel\":\"subscriptions\"") || str_contains(
            raw,
            "\"channel\":\"heartbeats\"",
        ) || str_contains(raw, "\"subscriptions\":{") {
            return Ok(None);
        }
        match json_from_str(raw) {
            Ok(msg) => Self::event_of(&msg),
            Err(_) => Ok(None),
        }
    }

    /// No REST snapshot is asked for: the stream sends one.
    pub fn snapshot_url(&self, _symbol: &str, _limit: usize) -> (r: Option<String>)
        ensures
            r is None,
    {
        None
    }

/// The symbols that the connector was made for.
    pub fn supported_symbols(&self) -> (r: Vec<String>)
        ensures
            texts(r@) == self@,
    {
        clone_strings(&self.symbols)
    }
}

} // verus!

use vstd::prelude::*;
use crate::exchanges::{
    outcome_of, read_string_pairs, string_pair_levels, texts, Exchange, MarketMessage,
    MarketMessageView, ParseError, ParseOutcome,
};
use crate::json::{
    json_document, json_from_str, json_member, json_text, json_to_string, member_items,
    member_models, member_signed, member_string, member_unsigned, models, string_array, text_array,
    Json, JsonModel,
};
use crate::numeric::{parse_scaled, parse_scaled_spec};
use crate::text::{
    chars_of, push_str, split, split_on, starts_with, starts_with_text, str_eq,
    string_of,
};
use crate::types::{Trade, TradeSide, TradeView};

verus! {

/// The connector of Bybit's linear public stream: subscriptions are sent as
/// a frame after the connection is made, and the first depth message of a
/// topic is a snapshot.
#[derive(Debug, Clone)]
pub struct BybitConnector {
    symbols: Vec<String>,
}

impl View for BybitConnector {
    type V = Seq<Seq<char>>;

    closed spec fn view(&self) -> Seq<Seq<char>> {
        texts(self.symbols@)
    }
}

/// The topics of the symbols: for each its book of 50 levels, then its
/// trades.
pub open spec fn bybit_topics(symbols: Seq<Seq<char>>) -> Seq<Seq<char>>
    decreases symbols.len(),
{
    if symbols.len() == 0 {
        Seq::empty()
    } else {
        bybit_topics(symbols.drop_last()).push("orderbook.50."@ + symbols.last()).push(
            "publicTrade."@ + symbols.last(),
        )
    }
}

/// The subscription request for `symbols`: an object with the topics under
/// `args` and `"subscribe"` under `op`.
pub open spec fn bybit_subscription(symbols: Seq<Seq<char>>) -> JsonModel {
    JsonModel::Object(
        seq![
            ("args"@, string_array(bybit_topics(symbols))),
            ("op"@, JsonModel::Str("subscribe"@)),
        ],
    )
}

/// The depth event of a message on an order-book topic.
pub open spec fn bybit_depth(msg: JsonModel, symbol: Seq<char>) -> MarketMessageView {
    let data = json_member(msg, "data"@);
    MarketMessageView::DepthUpdate {
        exchange: Exchange::Bybit,
        symbol,
        bids: match data {
            Some(d) => match member_items(d, "b"@) {
                Some(items) => string_pair_levels(items),
                None => Seq::empty(),
            },
            None => Seq::empty(),
        },
        asks: match data {
            Some(d) => match member_items(d, "a"@) {
                Some(items) => string_pair_levels(items),
                None => Seq::empty(),
            },
            None => Seq::empty(),
        },
        update_id: match data {
            Some(d) => match member_unsigned(d, "u"@) {
                Some(u) => u,
                None => 0,
            },
            None => 0,
        },
        is_snapshot: member_string(msg, "type"@) == Some("snapshot"@),
    }
}

/// What one element of a trade message gives: nothing where it is passed
/// over, else the trade or the error that ends the reading.
pub open spec fn bybit_trade(item: JsonModel, symbol: Seq<char>) -> Option<
    Result<TradeView, ParseError>,
> {
    match (member_string(item, "p"@), member_string(item, "v"@), member_string(item, "S"@)) {
        (Some(p), Some(v), Some(side)) => match (parse_scaled_spec(p), parse_scaled_spec(v)) {
            (Some(price), Some(quantity)) => if side == "Buy"@ || side == "Sell"@ {
                Some(
                    Ok(
                        TradeView {
                            exchange: "Bybit"@,
                            symbol,
                            price,
                            quantity,
                            side: if side == "Buy"@ {
                                TradeSide::Buy
                            } else {
                                TradeSide::Sell
                            },
                            timestamp: match member_signed(item, "T"@) {
                                Some(t) => t,
                                None => 0,
                            },
                        },
                    ),
                )
            } else {
                None
            },
            _ => Some(Err(ParseError::InvalidNumber)),
        },
        _ => None,
    }
}

/// The first trade among the elements of a trade message that is not passed
/// over.
pub open spec fn bybit_first_trade(items: Seq<JsonModel>, symbol: Seq<char>) -> ParseOutcome
    decreases items.len(),
{
    if items.len() == 0 {
        Ok(None)
    } else {
        match bybit_trade(items[0], symbol) {
            Some(Ok(t)) => Ok(Some(MarketMessageView::Trade(t))),
            Some(Err(e)) => Err(e),
            None => bybit_first_trade(items.drop_first(), symbol),
        }
    }
}

/// The event of a message whose JSON document is `msg`.
pub open spec fn bybit_event_of(msg: JsonModel) -> ParseOutcome {
    match member_string(msg, "topic"@) {
        Some(topic) => {
            let parts = split_on(topic, '.');
            if starts_with_text(topic, "orderbook"@) {
                if parts.len() >= 3 {
                    Ok(Some(bybit_depth(msg, parts[2])))
                } else {
                    Ok(None)
                }
            } else if starts_with_text(topic, "publicTrade"@) {
                if parts.len() >= 2 {
                    match member_items(msg, "data"@) {
                        Some(items) => bybit_first_trade(items, parts[1]),
                        None => Ok(None),
                    }
                } else {
                    Ok(None)
                }
            } else {
                Ok(None)
            }
        },
        None => Ok(None),
    }
}

/// The event of a message, given what reading its text as JSON gave.
pub open spec fn bybit_event(doc: Option<JsonModel>) -> ParseOutcome {
    match doc {
        Some(msg) => bybit_event_of(msg),
        None => Err(ParseError::InvalidJson),
    }
}

impl BybitConnector {
/// A connector for the given symbols, in their canonical form.
    pub fn new(symbols: Vec<String>) -> (r: Self)
        ensures
            r@ == texts(symbols@),
    {
        Self { symbols }
    }

    /// The address of the stream. Subscriptions are not part of it.
    pub fn build_subscription_url(&self, _symbols: &[&str]) -> (r: String)
        ensures
            r@ == "wss://stream.bybit.com/v5/public/linear"@,
    {
        "wss://stream.bybit.com/v5/public/linear".to_owned()
    }

    /// The subscription request for `symbols` as a value.
    pub fn subscription_request(symbols: &[&str]) -> (r: Json)
        ensures
            r@ == bybit_subscription(texts(symbols@)),
    {
        let mut topics: Vec<String> = Vec::new();
        let mut i: usize = 0;
        let ghost names = texts(symbols@);
        while i < symbols.len()
            invariant
                i <= symbols.len(),
                names == texts(symbols@),
                texts(topics@) == bybit_topics(names.take(i as int)),
            decreases symbols.len() - i,
        {
            proof {
                assert(names.take(i as int + 1).drop_last() == names.take(i as int));
                assert(names.take(i as int + 1).last() == symbols@[i as int]@);
            }
            let ghost before = texts(topics@);
            let mut book: Vec<char> = Vec::new();
            push_str(&mut book, "orderbook.50.");
            push_str(&mut book, symbols[i]);
            let mut trade: Vec<char> = Vec::new();
            push_str(&mut trade, "publicTrade.");
            push_str(&mut trade, symbols[i]);
            topics.push(string_of(&book));
            topics.push(string_of(&trade));
            proof {
                assert(texts(topics@) =~= before.push("orderbook.50."@ + symbols@[i as int]@).push(
                    "publicTrade."@ + symbols@[i as int]@,
                ));
            }
            i += 1;
        }
        proof {
            assert(names.take(symbols.len() as int) == names);
            assert(texts(topics@) == Seq::new(topics@.len(), |i: int| topics@[i]@));
        }
        let args = text_array(&topics);
        let mut members: Vec<(String, Json)> = Vec::new();
        members.push(("args".to_owned(), args));
        members.push(("op".to_owned(), Json::Str("subscribe".to_owned())));
        proof {
            assert(member_models(members@) =~= seq![
                ("args"@, string_array(bybit_topics(names))),
                ("op"@, JsonModel::Str("subscribe"@)),
            ]);
        }
        Json::object(members)
    }

    /// The frames to send after the connection is made: one request that
    /// subscribes to the book and the trades of every symbol.
    pub fn get_subscription_messages(&self, symbols: &[&str]) -> (r: Vec<String>)
        ensures
            texts(r@) == seq![json_text(bybit_subscription(texts(symbols@)))],
    {
        let request = Self::subscription_request(symbols);
        let mut out: Vec<String> = Vec::new();
        out.push(json_to_string(&request));
        proof {
            assert(texts(out@) =~= seq![json_text(bybit_subscription(texts(symbols@)))]);
        }
        out
    }

    /// The depth event of a message on an order-book topic.
    pub fn depth_event(msg: &Json, symbol: String) -> (r: MarketMessage)
        ensures
            r@ == bybit_depth(msg@, symbol@),
    {
        let data = msg.get("data");
        let bids = match data {
            Some(d) => match d.get_array("b") {
                Some(items) => read_string_pairs(items),
                None => Vec::new(),
            },
            None => Vec::new(),
        };
        let asks = match data {
            Some(d) => match d.get_array("a") {
                Some(items) => read_string_pairs(items),
                None => Vec::new(),
            },
            None => Vec::new(),
        };
        let update_id = match data {
            Some(d) => match d.get_u64("u") {
                Some(u) => u,
                None => 0,
            },
            None => 0,
        };
        let is_snapshot = match msg.get_str("type") {
            Some(t) => str_eq(t, "snapshot"),
            None => false,
        };
        MarketMessage::DepthUpdate {
            exchange: Exchange::Bybit,
            symbol,
            bids,
            asks,
            update_id,
            is_snapshot,
        }
    }

    /// What one element of a trade message gives.
    pub fn trade_of(item: &Json, symbol: &Vec<char>) -> (r: Option<Result<Trade, ParseError>>)
        ensures
            match r {
                Some(Ok(t)) => bybit_trade(item@, symbol@) == Some(Ok::<TradeView, ParseError>(t@)),
                Some(Err(e)) => bybit_trade(item@, symbol@) == Some(Err::<TradeView, ParseError>(e)),
                None => bybit_trade(item@, symbol@) is None,
            },
    {
        match (item.get_str("p"), item.get_str("v"), item.get_str("S")) {
            (Some(p), Some(v), Some(side)) => match (parse_scaled(p), parse_scaled(v)) {
                (Some(price), Some(quantity)) => {
                    let buy = str_eq(side, "Buy");
                    let sell = str_eq(side, "Sell");
                    if buy || sell {
                        let timestamp = match item.get_i64("T") {
                            Some(t) => t,
                            None => 0,
                        };
                        Some(
                            Ok(
                                Trade {
                                    exchange: "Bybit".to_owned(),
                                    symbol: string_of(symbol),
                                    price,
                                    quantity,
                                    side: if buy {
                                        TradeSide::Buy
                                    } else {
                                        TradeSide::Sell
                                    },
                                    timestamp,
                                },
                            ),
                        )
                    } else {
                        None
                    }
                },
                _ => Some(Err(ParseError::InvalidNumber)),
            },
            _ => None,
        }
    }

    /// The first trade among the elements of a trade message that is not
    /// passed over.
    pub fn first_trade(items: &Vec<Json>, symbol: &Vec<char>) -> (r: Result<
        Option<MarketMessage>,
        ParseError,
    >)
        ensures
            outcome_of(r) == bybit_first_trade(models(items@), symbol@),
    {
        let ghost all = models(items@);
        let mut i: usize = 0;
        proof {
            assert(all.skip(0) == all);
        }
        while i < items.len()
            invariant
                i <= items.len(),
                all == models(items@),
                bybit_first_trade(all, symbol@) == bybit_first_trade(all.skip(i as int), symbol@),
            decreases items.len() - i,
        {
            proof {
                assert(all.skip(i as int).drop_first() == all.skip(i as int + 1));
                assert(all.skip(i as int)[0] == items@[i as int]@);
            }
            match Self::trade_of(&items[i], symbol) {
                Some(Ok(t)) => {
                    return Ok(Some(MarketMessage::Trade(t)));
                },
                Some(Err(e)) => {
                    return Err(e);
                },
                None => {},
            }
            i += 1;
        }
        Ok(None)
    }

    /// The event of a message whose JSON document is `msg`.
    pub fn event_of(msg: &Json) -> (r: Result<Option<MarketMessage>, ParseError>)
        ensures
            outcome_of(r) == bybit_event_of(msg@),
    {
        let topic = match msg.get_str("topic") {
            Some(t) => chars_of(t),
            None => {
                return Ok(None);
            },
        };
        let parts = split(&topic, '.');
        let book_prefix = chars_of("orderbook");
        let trade_prefix = chars_of("publicTrade");
        if starts_with(&topic, &book_prefix) {
            if parts.len() >= 3 {
                Ok(Some(Self::depth_event(msg, string_of(&parts[2]))))
            } else {
                Ok(None)
            }
        } else if starts_with(&topic, &trade_prefix) {
            if parts.len() >= 2 {
                match msg.get_array("data") {
                    Some(items) => Self::first_trade(items, &parts[1]),
                    None => Ok(None),
                }
            } else {
                Ok(None)
            }
        } else {
            Ok(None)
        }
    }

    /// Reads a message of the stream: a depth event for an order-book
    /// topic, the first trade of a trade topic, nothing for anything else.
    /// A text that is no JSON document is an error.
    pub fn parse_message(&self, raw: &str) -> (r: Result<Option<MarketMessage>, ParseError>)
        ensures
            outcome_of(r) == bybit_event(json_document(raw@)),
    {
        match json_from_str(raw) {
            Ok(msg) => Self::event_of(&msg),
            Err(_) => Err(ParseError::InvalidJson),
        }
    }

    /// No REST snapshot is asked for: the stream sends one.
    pub fn snapshot_url(&self, _symbol: &str, _limit: usize) -> (r: Option<String>)
        ensures
            r is None,
    {
        None
    }

/// The symbols that the connector was made for.
    pub fn supported_symbols(&self) -> (r: Vec<String>)
        ensures
            texts(r@) == self@,
    {
        clone_strings(&self.symbols)
    }
}

/// A copy of a list of strings.
pub fn clone_strings(v: &Vec<String>) -> (r: Vec<String>)
    ensures
        texts(r@) == texts(v@),
{
    let mut out: Vec<String> = Vec::new();
    let mut i: usize = 0;
    while i < v.len()
        invariant
            i <= v.len(),
            out@.len() == i,
            forall|k: int| 0 <= k < i ==> (#[trigger] out@[k])@ == v@[k]@,
        decreases v.len() - i,
    {
        out.push(v[i].clone());
        i += 1;
    }
    proof {
        assert(texts(out@) =~= texts(v@));
    }
    out
}

} // verus!

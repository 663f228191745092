use vstd::prelude::*;
use crate::exchanges::bybit::clone_strings;
use crate::exchanges::{
    entry_texts, outcome_of, texts, DepthSnapshot, DepthSnapshotView, Exchange, MarketMessage,
    MarketMessageView, ParseError, ParseOutcome,
};
use crate::json::{
    json_document, json_from_str, json_items, json_member, json_string, member_bool, member_items,
    member_signed, member_string, member_unsigned, models, Json, JsonModel,
};
use crate::numeric::{nat_digits, parse_scaled, parse_scaled_spec, push_nat_digits};
use crate::text::{
    chars_of, contains_text, lowercase, push_str, split, split_on, str_contains,
    string_of, to_lowercase, to_uppercase, uppercase,
};
use crate::types::{
    BinanceAggTrade, BinanceAggTradeView, BinanceDepthUpdate, BinanceDepthUpdateView, Trade,
    TradeSide, TradeView,
};

verus! {

/// The connector of Binance's futures stream: subscriptions are part of the
/// address, the book starts from a REST snapshot, and the stream sends
/// deltas only.
#[derive(Debug, Clone)]
pub struct BinanceConnector {
    symbols: Vec<String>,
}

impl View for BinanceConnector {
    type V = Seq<Seq<char>>;

    closed spec fn view(&self) -> Seq<Seq<char>> {
        texts(self.symbols@)
    }
}

/// The two streams of a symbol: its depth at 100 ms and its aggregate
/// trades.
pub open spec fn binance_streams_of(symbol: Seq<char>) -> Seq<char> {
    lowercase(symbol) + "@depth@100ms"@ + "/"@ + lowercase(symbol) + "@aggTrade"@
}

/// The streams of the symbols, separated by slashes.
pub open spec fn binance_streams(symbols: Seq<Seq<char>>) -> Seq<char>
    decreases symbols.len(),
{
    if symbols.len() == 0 {
        Seq::empty()
    } else if symbols.len() == 1 {
        binance_streams_of(symbols[0])
    } else {
        binance_streams(symbols.drop_last()) + "/"@ + binance_streams_of(symbols.last())
    }
}

/// The address of the combined stream of the symbols.
pub open spec fn binance_url(symbols: Seq<Seq<char>>) -> Seq<char> {
    "wss://fstream.binance.com/stream?streams="@ + binance_streams(symbols)
}

/// The address of the REST snapshot of a symbol.
pub open spec fn binance_snapshot_url(symbol: Seq<char>, limit: nat) -> Seq<char> {
    "https://fapi.binance.com/fapi/v1/depth?symbol="@ + symbol + "&limit="@ + nat_digits(limit)
}

/// Whether `j` is an array of exactly two strings.
pub open spec fn is_string_pair(j: JsonModel) -> bool {
    match json_items(j) {
        Some(items) => items.len() == 2 && json_string(items[0]) is Some && json_string(
            items[1],
        ) is Some,
        None => false,
    }
}

/// Whether every element is an array of exactly two strings.
pub open spec fn all_string_pairs(items: Seq<JsonModel>) -> bool {
    forall|i: int| 0 <= i < items.len() ==> is_string_pair(#[trigger] items[i])
}

/// `o`, or `d` where there is none.
pub open spec fn or_default<T>(o: Option<T>, d: T) -> T {
    match o {
        Some(v) => v,
        None => d,
    }
}

/// The depth update under the `data` member of a stream message. It must
/// have the symbol under `s`, the ids under `U` and `u`, and the levels
/// under `b` and `a`, each a pair of strings. The event type under `e` and
/// the event time under `E` count as empty and zero where they are missing.
pub open spec fn depth_update_of(data: JsonModel) -> Option<BinanceDepthUpdateView> {
    match (
        member_string(data, "s"@),
        member_unsigned(data, "U"@),
        member_unsigned(data, "u"@),
        member_items(data, "b"@),
        member_items(data, "a"@),
    ) {
        (Some(symbol), Some(first_update_id), Some(final_update_id), Some(b), Some(a)) => {
            if all_string_pairs(b) && all_string_pairs(a) {
                Some(
                    BinanceDepthUpdateView {
                        event_type: or_default(member_string(data, "e"@), Seq::empty()),
                        event_time: or_default(member_signed(data, "E"@), 0),
                        symbol,
                        first_update_id,
                        final_update_id,
                        bids: pair_texts(b),
                        asks: pair_texts(a),
                    },
                )
            } else {
                None
            }
        },
        _ => None,
    }
}

/// The normalized form of a depth update: a delta with the admissible
/// levels and the final update id.
pub open spec fn depth_message(update: BinanceDepthUpdateView) -> MarketMessageView {
    MarketMessageView::DepthUpdate {
        exchange: Exchange::Binance,
        symbol: update.symbol,
        bids: scaled_entries(update.bids),
        asks: scaled_entries(update.asks),
        update_id: update.final_update_id,
        is_snapshot: false,
    }
}

/// The depth event of a stream message.
pub open spec fn binance_depth(msg: JsonModel) -> ParseOutcome {
    match (member_string(msg, "stream"@), json_member(msg, "data"@)) {
        (Some(_), Some(data)) => match depth_update_of(data) {
            Some(update) => Ok(Some(depth_message(update))),
            None => Err(ParseError::Malformed),
        },
        _ => Err(ParseError::Malformed),
    }
}

/// The aggregate trade under the `data` member of a stream message. It must
/// have the symbol under `s`, the event time under `E`, price and quantity
/// as strings under `p` and `q`, and the maker flag under `m`. The other
/// members count as empty and zero where they are missing.
pub open spec fn agg_trade_of(data: JsonModel) -> Option<BinanceAggTradeView> {
    match (
        member_string(data, "s"@),
        member_signed(data, "E"@),
        member_string(data, "p"@),
        member_string(data, "q"@),
        member_bool(data, "m"@),
    ) {
        (Some(symbol), Some(event_time), Some(price), Some(quantity), Some(is_buyer_maker)) => {
            Some(
                BinanceAggTradeView {
                    event_type: or_default(member_string(data, "e"@), Seq::empty()),
                    event_time,
                    symbol,
                    agg_trade_id: or_default(member_unsigned(data, "a"@), 0),
                    price,
                    quantity,
                    first_trade_id: or_default(member_unsigned(data, "f"@), 0),
                    last_trade_id: or_default(member_unsigned(data, "l"@), 0),
                    trade_time: or_default(member_signed(data, "T"@), 0),
                    is_buyer_maker,
                },
            )
        },
        _ => None,
    }
}

/// The trade of an aggregate trade, where its price and quantity are
/// admissible decimals. The buyer being the maker makes it a sell; its time
/// is the event time.
pub open spec fn agg_trade_message(trade: BinanceAggTradeView) -> Option<TradeView> {
    match (parse_scaled_spec(trade.price), parse_scaled_spec(trade.quantity)) {
        (Some(price), Some(quantity)) => Some(
            TradeView {
                exchange: "Binance"@,
                symbol: trade.symbol,
                price,
                quantity,
                side: if trade.is_buyer_maker {
                    TradeSide::Sell
                } else {
                    TradeSide::Buy
                },
                timestamp: trade.event_time,
            },
        ),
        _ => None,
    }
}

/// The trade of a stream message.
pub open spec fn binance_trade(msg: JsonModel) -> ParseOutcome {
    match (member_string(msg, "stream"@), json_member(msg, "data"@)) {
        (Some(_), Some(data)) => match agg_trade_of(data) {
            Some(trade) => match agg_trade_message(trade) {
                Some(t) => Ok(Some(MarketMessageView::Trade(t))),
                None => Err(ParseError::InvalidNumber),
            },
            None => Err(ParseError::Malformed),
        },
        _ => Err(ParseError::Malformed),
    }
}

/// The event of a message, given its text and what reading it as JSON
/// gave: a depth event where the text holds `@depth`, a trade otherwise.
pub open spec fn binance_event(raw: Seq<char>, doc: Option<JsonModel>) -> ParseOutcome {
    match doc {
        Some(msg) => if contains_text(raw, "@depth"@) {
            binance_depth(msg)
        } else {
            binance_trade(msg)
        },
        None => Err(ParseError::InvalidJson),
    }
}

/// The two texts of each pair.
pub open spec fn pair_texts(items: Seq<JsonModel>) -> Seq<(Seq<char>, Seq<char>)> {
    Seq::new(
        items.len(),
        |i: int|
            (
                json_string(json_items(items[i])->0[0])->0,
                json_string(json_items(items[i])->0[1])->0,
            ),
    )
}

/// The snapshot that the JSON document of a REST response holds: the id
/// under `lastUpdateId` and the levels under `bids` and `asks`, each a pair
/// of strings.
pub open spec fn binance_snapshot_of(msg: JsonModel) -> Result<DepthSnapshotView, ParseError> {
    match (
        member_unsigned(msg, "lastUpdateId"@),
        member_items(msg, "bids"@),
        member_items(msg, "asks"@),
    ) {
        (Some(id), Some(b), Some(a)) => if all_string_pairs(b) && all_string_pairs(a) {
            Ok(DepthSnapshotView { bids: pair_texts(b), asks: pair_texts(a), last_update_id: id })
        } else {
            Err(ParseError::Malformed)
        },
        _ => Err(ParseError::Malformed),
    }
}

/// The snapshot that a REST response holds, given what reading it as JSON
/// gave.
pub open spec fn binance_snapshot(doc: Option<JsonModel>) -> Result<DepthSnapshotView, ParseError> {
    match doc {
        Some(msg) => binance_snapshot_of(msg),
        None => Err(ParseError::InvalidJson),
    }
}

/// The view of what reading a snapshot gave.
pub open spec fn snapshot_result(r: Result<DepthSnapshot, ParseError>) -> Result<
    DepthSnapshotView,
    ParseError,
> {
    match r {
        Ok(s) => Ok(s@),
        Err(e) => Err(e),
    }
}

/// The levels of a snapshot that are admissible decimals, scaled.
pub open spec fn scaled_entries(entries: Seq<(Seq<char>, Seq<char>)>) -> Seq<(u64, u64)>
    decreases entries.len(),
{
    if entries.len() == 0 {
        Seq::empty()
    } else {
        let rest = scaled_entries(entries.drop_last());
        match (parse_scaled_spec(entries.last().0), parse_scaled_spec(entries.last().1)) {
            (Some(price), Some(qty)) => rest.push((price, qty)),
            _ => rest,
        }
    }
}

/// Whether every element is an array of exactly two strings.
pub fn check_string_pairs(items: &Vec<Json>) -> (r: bool)
    ensures
        r == all_string_pairs(models(items@)),
{
    let mut i: usize = 0;
    while i < items.len()
        invariant
            i <= items.len(),
            forall|k: int| 0 <= k < i ==> is_string_pair(#[trigger] models(items@)[k]),
        decreases items.len() - i,
    {
        let ok = match items[i].as_array() {
            Some(pair) => pair.len() == 2 && pair[0].as_str().is_some() && pair[1].as_str().is_some(),
            None => false,
        };
        proof {
            assert(ok == is_string_pair(models(items@)[i as int]));
        }
        if !ok {
            return false;
        }
        i += 1;
    }
    true
}

/// The string pairs as owned strings.
pub fn copy_string_pairs(items: &Vec<Json>) -> (r: Vec<(String, String)>)
    requires
        all_string_pairs(models(items@)),
    ensures
        entry_texts(r@) == pair_texts(models(items@)),
{
    let mut out: Vec<(String, String)> = Vec::new();
    let mut i: usize = 0;
    while i < items.len()
        invariant
            i <= items.len(),
            all_string_pairs(models(items@)),
            out@.len() == i,
            forall|k: int| 0 <= k < i ==> entry_texts(out@)[k] == pair_texts(models(items@))[k],
        decreases items.len() - i,
    {
        proof {
            assert(is_string_pair(models(items@)[i as int]));
        }
        let entry = match items[i].as_array() {
            Some(pair) => if pair.len() == 2 {
                match (pair[0].as_str(), pair[1].as_str()) {
                    (Some(p), Some(q)) => (p.to_owned(), q.to_owned()),
                    _ => (String::new(), String::new()),
                }
            } else {
                (String::new(), String::new())
            },
            None => (String::new(), String::new()),
        };
        let ghost before = out@;
        out.push(entry);
        proof {
            assert forall|k: int| 0 <= k < i + 1 implies entry_texts(out@)[k] == pair_texts(
                models(items@),
            )[k] by {
                if k < i {
                    assert(entry_texts(before)[k] == pair_texts(models(items@))[k]);
                    assert(out@[k] == before[k]);
                }
            }
        }
        i += 1;
    }
    proof {
        assert(entry_texts(out@) =~= pair_texts(models(items@)));
    }
    out
}

/// The admissible levels of a snapshot, scaled. A level whose price or
/// quantity is no admissible decimal is left out.
pub fn scaled_levels(entries: &Vec<(String, String)>) -> (r: Vec<(u64, u64)>)
    ensures
        r@ == scaled_entries(entry_texts(entries@)),
{
    let ghost all = entry_texts(entries@);
    let mut out: Vec<(u64, u64)> = Vec::new();
    let mut i: usize = 0;
    while i < entries.len()
        invariant
            i <= entries.len(),
            all == entry_texts(entries@),
            out@ == scaled_entries(all.take(i as int)),
        decreases entries.len() - i,
    {
        proof {
            assert(all.take(i as int + 1).drop_last() == all.take(i as int));
        }
        match (parse_scaled(entries[i].0.as_str()), parse_scaled(entries[i].1.as_str())) {
            (Some(price), Some(qty)) => {
                out.push((price, qty));
            },
            _ => {},
        }
        i += 1;
    }
    proof {
        assert(all.take(entries.len() as int) == all);
    }
    out
}

/// The symbol of a stream name: what stands before the first `@`, in upper
/// case.
pub fn extract_symbol_from_stream(stream: &str) -> (r: String)
    ensures
        r@ == uppercase(split_on(stream@, '@')[0]),
{
    let cs = chars_of(stream);
    let parts = split(&cs, '@');
    proof {
        assert(split_on(stream@, '@').len() >= 1);
    }
    let head = string_of(&parts[0]);
    to_uppercase(head.as_str())
}

/// The address of the combined stream that carries the depth and the
/// aggregate trades of every symbol.
pub fn build_binance_ws_url(symbols: &[&str]) -> (r: String)
    ensures
        r@ == binance_url(texts(symbols@)),
{
    let ghost names = texts(symbols@);
    let mut out: Vec<char> = Vec::new();
    push_str(&mut out, "wss://fstream.binance.com/stream?streams=");
    let ghost prefix = out@;
    let mut i: usize = 0;
    proof {
        assert(prefix + Seq::<char>::empty() == prefix);
    }
    while i < symbols.len()
        invariant
            i <= symbols.len(),
            names == texts(symbols@),
            prefix == "wss://fstream.binance.com/stream?streams="@,
            out@ == prefix + binance_streams(names.take(i as int)),
        decreases symbols.len() - i,
    {
        let ghost before = binance_streams(names.take(i as int));
        proof {
            assert(names.take(i as int + 1).drop_last() == names.take(i as int));
            assert(names.take(i as int + 1).last() == symbols@[i as int]@);
            assert(names.take(i as int + 1)[0] == names[0]);
        }
        if i > 0 {
            push_str(&mut out, "/");
        }
        let lower = to_lowercase(symbols[i]);
        push_str(&mut out, lower.as_str());
        push_str(&mut out, "@depth@100ms");
        push_str(&mut out, "/");
        push_str(&mut out, lower.as_str());
        push_str(&mut out, "@aggTrade");
        proof {
            let s = binance_streams_of(symbols@[i as int]@);
            if i > 0 {
                assert(out@ == prefix + (before + "/"@ + s));
            } else {
                assert(before == Seq::<char>::empty());
                assert(out@ == prefix + s);
            }
        }
        i += 1;
    }
    proof {
        assert(names.take(symbols.len() as int) == names);
    }
    string_of(&out)
}

impl BinanceDepthUpdate {
    /// The normalized form of the update.
    pub fn to_market_message(&self) -> (r: MarketMessage)
        ensures
            r@ == depth_message(self@),
    {
        proof {
            assert(self@.bids == entry_texts(self.bids@));
            assert(self@.asks == entry_texts(self.asks@));
        }
        MarketMessage::DepthUpdate {
            exchange: Exchange::Binance,
            symbol: self.symbol.clone(),
            bids: scaled_levels(&self.bids),
            asks: scaled_levels(&self.asks),
            update_id: self.final_update_id,
            is_snapshot: false,
        }
    }
}

impl BinanceAggTrade {
    /// The trade in normalized form, where its price and quantity are
    /// admissible decimals.
    pub fn to_trade(&self) -> (r: Option<Trade>)
        ensures
            match r {
                Some(t) => agg_trade_message(self@) == Some(t@),
                None => agg_trade_message(self@) is None,
            },
    {
        match (parse_scaled(self.price.as_str()), parse_scaled(self.quantity.as_str())) {
            (Some(price), Some(quantity)) => Some(
                Trade {
                    exchange: "Binance".to_owned(),
                    symbol: self.symbol.clone(),
                    price,
                    quantity,
                    side: if self.is_buyer_maker {
                        TradeSide::Sell
                    } else {
                        TradeSide::Buy
                    },
                    timestamp: self.event_time,
                },
            ),
            _ => None,
        }
    }
}

impl BinanceConnector {
/// A connector for the given symbols, in their canonical form.
    pub fn new(symbols: Vec<String>) -> (r: Self)
        ensures
            r@ == texts(symbols@),
    {
        Self { symbols }
    }

    /// The address of the stream, which carries the subscriptions.
    pub fn build_subscription_url(&self, symbols: &[&str]) -> (r: String)
        ensures
            r@ == binance_url(texts(symbols@)),
    {
        build_binance_ws_url(symbols)
    }

    /// The depth update under the `data` member of a stream message.
    pub fn read_depth_update(data: &Json) -> (r: Option<BinanceDepthUpdate>)
        ensures
            match r {
                Some(update) => depth_update_of(data@) == Some(update@),
                None => depth_update_of(data@) is None,
            },
    {
        match (
            data.get_str("s"),
            data.get_u64("U"),
            data.get_u64("u"),
            data.get_array("b"),
            data.get_array("a"),
        ) {
            (Some(symbol), Some(first_update_id), Some(final_update_id), Some(b), Some(a)) => {
                if check_string_pairs(b) && check_string_pairs(a) {
                    Some(
                        BinanceDepthUpdate {
                            event_type: match data.get_str("e") {
                                Some(e) => e.to_owned(),
                                None => String::new(),
                            },
                            event_time: match data.get_i64("E") {
                                Some(t) => t,
                                None => 0,
                            },
                            symbol: symbol.to_owned(),
                            first_update_id,
                            final_update_id,
                            bids: copy_string_pairs(b),
                            asks: copy_string_pairs(a),
                        },
                    )
                } else {
                    None
                }
            },
            _ => None,
        }
    }

    /// The depth event of a stream message.
    pub fn depth_event(msg: &Json) -> (r: Result<Option<MarketMessage>, ParseError>)
        ensures
            outcome_of(r) == binance_depth(msg@),
    {
        match (msg.get_str("stream"), msg.get("data")) {
            (Some(_), Some(data)) => match Self::read_depth_update(data) {
                Some(update) => Ok(Some(update.to_market_message())),
                None => Err(ParseError::Malformed),
            },
            _ => Err(ParseError::Malformed),
        }
    }

    /// The aggregate trade under the `data` member of a stream message.
    pub fn read_agg_trade(data: &Json) -> (r: Option<BinanceAggTrade>)
        ensures
            match r {
                Some(trade) => agg_trade_of(data@) == Some(trade@),
                None => agg_trade_of(data@) is None,
            },
    {
        match (
            data.get_str("s"),
            data.get_i64("E"),
            data.get_str("p"),
            data.get_str("q"),
            data.get_bool("m"),
        ) {
            (Some(symbol), Some(event_time), Some(price), Some(quantity), Some(is_buyer_maker)) => {
                Some(
                    BinanceAggTrade {
                        event_type: match data.get_str("e") {
                            Some(e) => e.to_owned(),
                            None => String::new(),
                        },
                        event_time,
                        symbol: symbol.to_owned(),
                        agg_trade_id: match data.get_u64("a") {
                            Some(v) => v,
                            None => 0,
                        },
                        price: price.to_owned(),
                        quantity: quantity.to_owned(),
                        first_trade_id: match data.get_u64("f") {
                            Some(v) => v,
                            None => 0,
                        },
                        last_trade_id: match data.get_u64("l") {
                            Some(v) => v,
                            None => 0,
                        },
                        trade_time: match data.get_i64("T") {
                            Some(v) => v,
                            None => 0,
                        },
                        is_buyer_maker,
                    },
                )
            },
            _ => None,
        }
    }

    /// The trade of a stream message.
    pub fn trade_event(msg: &Json) -> (r: Result<Option<MarketMessage>, ParseError>)
        ensures
            outcome_of(r) == binance_trade(msg@),
    {
        match (msg.get_str("stream"), msg.get("data")) {
            (Some(_), Some(data)) => match Self::read_agg_trade(data) {
                Some(trade) => match trade.to_trade() {
                    Some(t) => Ok(Some(MarketMessage::Trade(t))),
                    None => Err(ParseError::InvalidNumber),
                },
                None => Err(ParseError::Malformed),
            },
            _ => Err(ParseError::Malformed),
        }
    }

    /// Reads a message of the stream: a depth delta where the text holds
    /// `@depth`, an aggregate trade otherwise. A text that is no JSON
    /// document, a message without the members of its kind, and a trade
    /// whose price or quantity is no admissible decimal are errors.
    pub fn parse_message(&self, raw: &str) -> (r: Result<Option<MarketMessage>, ParseError>)
        ensures
            outcome_of(r) == binance_event(raw@, json_document(raw@)),
    {
        let is_depth = str_contains(raw, "@depth");
        match json_from_str(raw) {
            Ok(msg) => {
                if is_depth {
                    Self::depth_event(&msg)
                } else {
                    Self::trade_event(&msg)
                }
            },
            Err(_) => Err(ParseError::InvalidJson),
        }
    }

    /// The address from which the REST snapshot of a symbol is fetched.
    pub fn snapshot_url(&self, symbol: &str, limit: usize) -> (r: Option<String>)
        ensures
            r matches Some(url) && url@ == binance_snapshot_url(symbol@, limit as nat),
    {
        let mut out: Vec<char> = Vec::new();
        push_str(&mut out, "https://fapi.binance.com/fapi/v1/depth?symbol=");
        push_str(&mut out, symbol);
        push_str(&mut out, "&limit=");
        push_nat_digits(&mut out, limit as u64);
        Some(string_of(&out))
    }

    /// The snapshot that the JSON document of a REST response holds.
    pub fn snapshot_of(msg: &Json) -> (r: Result<DepthSnapshot, ParseError>)
        ensures
            snapshot_result(r) == binance_snapshot_of(msg@),
    {
        match (msg.get_u64("lastUpdateId"), msg.get_array("bids"), msg.get_array("asks")) {
            (Some(id), Some(b), Some(a)) => {
                if check_string_pairs(b) && check_string_pairs(a) {
                    Ok(
                        DepthSnapshot {
                            bids: copy_string_pairs(b),
                            asks: copy_string_pairs(a),
                            last_update_id: id,
                        },
                    )
                } else {
                    Err(ParseError::Malformed)
                }
            },
            _ => Err(ParseError::Malformed),
        }
    }

    /// Reads the response of the REST snapshot. A text that is no JSON
    /// document and a document without the members of a snapshot are
    /// errors.
    pub fn parse_snapshot(&self, raw: &str) -> (r: Result<DepthSnapshot, ParseError>)
        ensures
            snapshot_result(r) == binance_snapshot(json_document(raw@)),
    {
        match json_from_str(raw) {
            Ok(msg) => Self::snapshot_of(&msg),
            Err(_) => Err(ParseError::InvalidJson),
        }
    }

/// The symbols that the connector was made for.
    pub fn supported_symbols(&self) -> (r: Vec<String>)
        ensures
            texts(r@) == self@,
    {
        clone_strings(&self.symbols)
    }
}

} // verus!

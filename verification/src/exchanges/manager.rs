use vstd::prelude::*;
use crate::exchanges::binance::{scaled_entries, scaled_levels};
use crate::exchanges::{
    exchange_name, outcome_of, venue_event, DepthSnapshot, Exchange, ExchangeConnector,
    MarketMessage, ParseError, ParseOutcome,
};
use crate::json::json_document;
use crate::metrics::{collector_recorded, wrap_add, CollectorModel, MetricsCollector};
use crate::orderbook::{snapshot_model, BookModel};
use crate::registry::{
    book_key_of, book_of, books_after, broadcast_of, crossed_after, OrderBookManager,
};
use crate::types::{ClientMessage, ClientMessageView};

verus! {

/// Seconds to wait before a venue's connection is made anew.
pub const RECONNECT_BACKOFF_SECS: u64 = 5;

/// Number of levels asked for in a REST snapshot.
pub const REST_SNAPSHOT_LIMIT: usize = 10;

/// Where the supervisor of one venue's connection stands.
#[derive(Debug, Clone, Copy, PartialEq, Eq, Structural)]
pub enum ConnectionState {
    /// The cycle starts: REST snapshots are fetched where the venue has
    /// them.
    Initializing,
    /// The snapshots are in; the connection is being made.
    SnapshotReady,
    /// The connection is made; the subscription frames are being sent.
    Subscribing,
    /// Frames of the stream are read and applied.
    Streaming,
    /// The connection was lost; the supervisor waits before the next cycle.
    Backoff,
}

/// The kinds of frame that a venue's stream sends.
#[derive(Debug, Clone, Copy, PartialEq, Eq, Structural)]
pub enum FrameKind {
    Text,
    Binary,
    Ping,
    Pong,
    Close,
}

/// What the supervisor of a connection is told.
#[derive(Debug, Clone, Copy, PartialEq, Eq, Structural)]
pub enum ConnectionEvent {
    /// The REST snapshots were fetched, each with or without success.
    SnapshotsFetched,
    Connected,
    ConnectFailed,
    SubscriptionsSent,
    SubscriptionFailed,
    Frame(FrameKind),
    StreamError,
    StreamEnded,
    BackoffElapsed,
}

/// What the supervisor of a connection is to do next.
#[derive(Debug, Clone, Copy, PartialEq, Eq, Structural)]
pub enum ConnectionAction {
    /// Fetch the REST snapshot of every symbol and apply it.
    FetchSnapshots,
    /// Open the connection to the venue's address.
    Connect,
    /// Send the venue's subscription frames.
    SendSubscriptions,
    /// Read the next frame.
    ReadFrame,
    /// Hand the text of the frame to the connector, then read on.
    ProcessText,
    /// Count a reconnection and wait for the backoff.
    Reconnect,
    /// Go on waiting.
    Wait,
}

/// The action with which a cycle starts.
pub open spec fn first_action(uses_rest: bool) -> ConnectionAction {
    if uses_rest {
        ConnectionAction::FetchSnapshots
    } else {
        ConnectionAction::Connect
    }
}

/// The state and the action that follow an event. A venue without REST
/// snapshots goes from the start of the cycle straight to subscribing once
/// it is connected. Every failure, the close of the stream and every event
/// out of its place lead to the backoff, after which the cycle starts anew.
pub open spec fn transition(state: ConnectionState, event: ConnectionEvent, uses_rest: bool) -> (
    ConnectionState,
    ConnectionAction,
) {
    match (state, event) {
        (ConnectionState::Backoff, ConnectionEvent::BackoffElapsed) => (
            ConnectionState::Initializing,
            first_action(uses_rest),
        ),
        (ConnectionState::Backoff, _) => (ConnectionState::Backoff, ConnectionAction::Wait),
        (ConnectionState::Initializing, ConnectionEvent::SnapshotsFetched) => if uses_rest {
            (ConnectionState::SnapshotReady, ConnectionAction::Connect)
        } else {
            (ConnectionState::Backoff, ConnectionAction::Reconnect)
        },
        (ConnectionState::Initializing, ConnectionEvent::Connected) => if uses_rest {
            (ConnectionState::Backoff, ConnectionAction::Reconnect)
        } else {
            (ConnectionState::Subscribing, ConnectionAction::SendSubscriptions)
        },
        (ConnectionState::SnapshotReady, ConnectionEvent::Connected) => (
            ConnectionState::Subscribing,
            ConnectionAction::SendSubscriptions,
        ),
        (ConnectionState::Subscribing, ConnectionEvent::SubscriptionsSent) => (
            ConnectionState::Streaming,
            ConnectionAction::ReadFrame,
        ),
        (ConnectionState::Streaming, ConnectionEvent::Frame(kind)) => match kind {
            FrameKind::Text => (ConnectionState::Streaming, ConnectionAction::ProcessText),
            FrameKind::Close => (ConnectionState::Backoff, ConnectionAction::Reconnect),
            _ => (ConnectionState::Streaming, ConnectionAction::ReadFrame),
        },
        _ => (ConnectionState::Backoff, ConnectionAction::Reconnect),
    }
}

/// The state and the action that follow an event.
pub fn next_step(state: ConnectionState, event: ConnectionEvent, uses_rest: bool) -> (r: (
    ConnectionState,
    ConnectionAction,
))
    ensures
        r == transition(state, event, uses_rest),
{
    match (state, event) {
        (ConnectionState::Backoff, ConnectionEvent::BackoffElapsed) => (
            ConnectionState::Initializing,
            if uses_rest {
                ConnectionAction::FetchSnapshots
            } else {
                ConnectionAction::Connect
            },
        ),
        (ConnectionState::Backoff, _) => (ConnectionState::Backoff, ConnectionAction::Wait),
        (ConnectionState::Initializing, ConnectionEvent::SnapshotsFetched) => if uses_rest {
            (ConnectionState::SnapshotReady, ConnectionAction::Connect)
        } else {
            (ConnectionState::Backoff, ConnectionAction::Reconnect)
        },
        (ConnectionState::Initializing, ConnectionEvent::Connected) => if uses_rest {
            (ConnectionState::Backoff, ConnectionAction::Reconnect)
        } else {
            (ConnectionState::Subscribing, ConnectionAction::SendSubscriptions)
        },
        (ConnectionState::SnapshotReady, ConnectionEvent::Connected) => (
            ConnectionState::Subscribing,
            ConnectionAction::SendSubscriptions,
        ),
        (ConnectionState::Subscribing, ConnectionEvent::SubscriptionsSent) => (
            ConnectionState::Streaming,
            ConnectionAction::ReadFrame,
        ),
        (ConnectionState::Streaming, ConnectionEvent::Frame(kind)) => match kind {
            FrameKind::Text => (ConnectionState::Streaming, ConnectionAction::ProcessText),
            FrameKind::Close => (ConnectionState::Backoff, ConnectionAction::Reconnect),
            _ => (ConnectionState::Streaming, ConnectionAction::ReadFrame),
        },
        _ => (ConnectionState::Backoff, ConnectionAction::Reconnect),
    }
}

/// What handling the text of a frame gave.
#[derive(Debug, Clone)]
pub struct TextOutcome {
    /// The record to hand on to the subscribers, where there is one.
    pub broadcast: Option<ClientMessage>,
    /// Whether the text held an event, which was applied.
    pub processed: bool,
    /// Whether the event counts as a message of the venue.
    pub relevant: bool,
    /// Whether the book that the event went to is crossed after it.
    pub crossed: bool,
    /// Why the text could not be read, where it could not.
    pub error: Option<ParseError>,
}

/// The content of an outcome.
pub struct TextOutcomeView {
    pub broadcast: Option<ClientMessageView>,
    pub processed: bool,
    pub relevant: bool,
    pub crossed: bool,
    pub error: Option<ParseError>,
}

impl View for TextOutcome {
    type V = TextOutcomeView;

    open spec fn view(&self) -> TextOutcomeView {
        TextOutcomeView {
            broadcast: match self.broadcast {
                Some(m) => Some(m@),
                None => None,
            },
            processed: self.processed,
            relevant: self.relevant,
            crossed: self.crossed,
            error: self.error,
        }
    }
}

/// The books after what a connector read from a frame was applied.
pub open spec fn books_after_outcome(
    books: Map<Seq<char>, BookModel>,
    parsed: ParseOutcome,
) -> Map<Seq<char>, BookModel> {
    match parsed {
        Ok(Some(msg)) => books_after(books, msg),
        _ => books,
    }
}

/// What is reported of what a connector read from a frame and of its
/// effect on the books as they were.
pub open spec fn outcome_for(
    books: Map<Seq<char>, BookModel>,
    parsed: ParseOutcome,
) -> TextOutcomeView {
    match parsed {
        Ok(Some(msg)) => TextOutcomeView {
            broadcast: broadcast_of(msg),
            processed: true,
            relevant: !(msg is Raw),
            crossed: crossed_after(books, msg),
            error: None,
        },
        Ok(None) => TextOutcomeView {
            broadcast: None,
            processed: false,
            relevant: false,
            crossed: false,
            error: None,
        },
        Err(e) => TextOutcomeView {
            broadcast: None,
            processed: false,
            relevant: false,
            crossed: false,
            error: Some(e),
        },
    }
}

/// The books after the REST snapshot of a symbol was applied: the book of
/// the venue and symbol replaced by the snapshot's admissible levels.
pub open spec fn books_after_snapshot(
    books: Map<Seq<char>, BookModel>,
    exchange: Seq<char>,
    symbol: Seq<char>,
    bids: Seq<(Seq<char>, Seq<char>)>,
    asks: Seq<(Seq<char>, Seq<char>)>,
    last_update_id: u64,
) -> Map<Seq<char>, BookModel> {
    books.insert(
        book_key_of(exchange, symbol),
        snapshot_model(
            book_of(books, exchange, symbol),
            scaled_entries(bids),
            scaled_entries(asks),
            last_update_id,
        ),
    )
}

/// Applies what a connector read from a frame: an event to the books; an
/// ignored message and an error to nothing.
pub fn apply_parsed(
    books: &mut OrderBookManager,
    parsed: Result<Option<MarketMessage>, ParseError>,
) -> (r: TextOutcome)
    requires
        old(books).wf(),
    ensures
        final(books).wf(),
        final(books)@ == books_after_outcome(old(books)@, outcome_of(parsed)),
        r@ == outcome_for(old(books)@, outcome_of(parsed)),
{
    match parsed {
        Ok(Some(msg)) => {
            let relevant = match &msg {
                MarketMessage::Raw(_) => false,
                _ => true,
            };
            let dispatch = books.process_market_message(msg);
            TextOutcome {
                broadcast: dispatch.broadcast,
                processed: true,
                relevant,
                crossed: dispatch.crossed,
                error: None,
            }
        },
        Ok(None) => TextOutcome {
            broadcast: None,
            processed: false,
            relevant: false,
            crossed: false,
            error: None,
        },
        Err(e) => TextOutcome {
            broadcast: None,
            processed: false,
            relevant: false,
            crossed: false,
            error: Some(e),
        },
    }
}

/// Handles the text of a frame of a venue's stream: counts its bytes, has
/// the connector read it, and applies the event to the books. An error of
/// reading is reported and ends nothing.
pub fn handle_text_message(
    text: &str,
    connector: &ExchangeConnector,
    books: &mut OrderBookManager,
    metrics: &mut MetricsCollector,
) -> (r: TextOutcome)
    requires
        old(books).wf(),
    ensures
        final(books).wf(),
        final(books)@ == books_after_outcome(
            old(books)@,
            venue_event(connector.venue(), text@, json_document(text@)),
        ),
        r@ == outcome_for(
            old(books)@,
            venue_event(connector.venue(), text@, json_document(text@)),
        ),
        final(metrics)@ == (CollectorModel {
            bytes_received: wrap_add(old(metrics)@.bytes_received, text.len() as u64),
            ..old(metrics)@
        }),
{
    metrics.record_bytes(text.len() as u64);
    let parsed = connector.parse_message(text);
    apply_parsed(books, parsed)
}

/// The collector after a handled frame was accounted for with the time it
/// took: the latency of a processed event is recorded, and a relevant one
/// is counted as a message.
pub open spec fn collector_after_outcome(
    m: CollectorModel,
    processed: bool,
    relevant: bool,
    latency_us: u64,
) -> CollectorModel {
    if !processed {
        m
    } else if relevant {
        CollectorModel {
            message_count: wrap_add(m.message_count, 1),
            ..collector_recorded(m, latency_us)
        }
    } else {
        collector_recorded(m, latency_us)
    }
}

/// Accounts for a handled frame with the time it took.
pub fn record_outcome(metrics: &mut MetricsCollector, outcome: &TextOutcome, latency_us: u64)
    requires
        old(metrics).wf(),
    ensures
        final(metrics).wf(),
        final(metrics)@ == collector_after_outcome(
            old(metrics)@,
            outcome.processed,
            outcome.relevant,
            latency_us,
        ),
{
    if outcome.processed {
        metrics.record_latency(latency_us);
        if outcome.relevant {
            metrics.record_message();
        }
    }
}

/// Replaces the book of a venue and symbol by a REST snapshot. A level
/// whose price or quantity is no admissible decimal is left out.
pub fn apply_rest_snapshot(
    books: &mut OrderBookManager,
    exchange: Exchange,
    symbol: &str,
    snapshot: &DepthSnapshot,
)
    requires
        old(books).wf(),
    ensures
        final(books).wf(),
        final(books)@ == books_after_snapshot(
            old(books)@,
            exchange_name(exchange),
            symbol@,
            snapshot@.bids,
            snapshot@.asks,
            snapshot@.last_update_id,
        ),
{
    let bids = scaled_levels(&snapshot.bids);
    let asks = scaled_levels(&snapshot.asks);
    books.apply_snapshot(exchange.name(), symbol, bids, asks, snapshot.last_update_id);
}

/// The connectors of the venues and the state of each one's connection.
#[derive(Debug, Clone)]
pub struct ExchangeManager {
    connectors: Vec<ExchangeConnector>,
    states: Vec<ConnectionState>,
}

impl ExchangeManager {
/// The connectors of the venues.
    pub closed spec fn connectors(&self) -> Seq<ExchangeConnector> {
        self.connectors@
    }

/// The state of each venue's connection.
    pub closed spec fn states(&self) -> Seq<ConnectionState> {
        self.states@
    }

    /// The invariant of a manager: one state for each connector.
    pub open spec fn wf(&self) -> bool {
        self.states().len() == self.connectors().len()
    }

    /// Whether the venue of connector `i` starts its books from REST
    /// snapshots.
    pub open spec fn uses_rest(&self, i: int) -> bool {
        self.connectors()[i].venue() == Exchange::Binance
    }

    /// A manager of the connectors, each at the start of its cycle.
    pub fn new(connectors: Vec<ExchangeConnector>) -> (r: Self)
        ensures
            r.wf(),
            r.connectors() == connectors@,
            forall|i: int|
                0 <= i < r.states().len() ==> r.states()[i] == ConnectionState::Initializing,
    {
        let mut states: Vec<ConnectionState> = Vec::new();
        let mut i: usize = 0;
        while i < connectors.len()
            invariant
                i <= connectors.len(),
                states@.len() == i,
                forall|k: int| 0 <= k < i ==> states@[k] == ConnectionState::Initializing,
            decreases connectors.len() - i,
        {
            states.push(ConnectionState::Initializing);
            i += 1;
        }
        Self { connectors, states }
    }

    /// The number of venues.
    pub fn len(&self) -> (r: usize)
        ensures
            r == self.connectors().len(),
    {
        self.connectors.len()
    }

/// The connector of venue `i`.
    pub fn connector(&self, i: usize) -> (r: &ExchangeConnector)
        requires
            i < self.connectors().len(),
        ensures
            *r == self.connectors()[i as int],
    {
        &self.connectors[i]
    }

/// The state of the connection of venue `i`.
    pub fn state(&self, i: usize) -> (r: ConnectionState)
        requires
            self.wf(),
            i < self.connectors().len(),
        ensures
            r == self.states()[i as int],
    {
        self.states[i]
    }

    /// The action with which the cycle of venue `i` starts.
    pub fn start(&self, i: usize) -> (r: ConnectionAction)
        requires
            i < self.connectors().len(),
        ensures
            r == first_action(self.uses_rest(i as int)),
    {
        match self.connectors[i].exchange() {
            Exchange::Binance => ConnectionAction::FetchSnapshots,
            _ => ConnectionAction::Connect,
        }
    }

    /// Moves the connection of venue `i` on by an event and gives the
    /// action that follows. A reconnection is counted in the metrics.
    pub fn advance(&mut self, i: usize, event: ConnectionEvent, metrics: &mut MetricsCollector) -> (r:
        ConnectionAction)
        requires
            old(self).wf(),
            i < old(self).connectors().len(),
        ensures
            final(self).wf(),
            final(self).connectors() == old(self).connectors(),
            final(self).states() == old(self).states().update(
                i as int,
                transition(old(self).states()[i as int], event, old(self).uses_rest(i as int)).0,
            ),
            r == transition(old(self).states()[i as int], event, old(self).uses_rest(i as int)).1,
            final(metrics)@ == if r == ConnectionAction::Reconnect {
                CollectorModel {
                    ws_reconnects: wrap_add(old(metrics)@.ws_reconnects, 1),
                    ..old(metrics)@
                }
            } else {
                old(metrics)@
            },
    {
        let uses_rest = match self.connectors[i].exchange() {
            Exchange::Binance => true,
            _ => false,
        };
        let (state, action) = next_step(self.states[i], event, uses_rest);
        self.states.set(i, state);
        match action {
            ConnectionAction::Reconnect => {
                metrics.record_reconnect();
            },
            _ => {},
        }
        action
    }
}

} // verus!

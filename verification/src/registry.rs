use vstd::prelude::*;
use crate::exchanges::{exchange_name, MarketMessage, MarketMessageView};
use crate::orderbook::{
    delta_changes, delta_model, model_crossed, side_wf, snapshot_model, BookModel, OrderBook,
};
use crate::text::{push_str, string_of};
use crate::types::{ClientMessage, ClientMessageView, ORDERBOOK_DEPTH};

verus! {

/// `dashmap::DashMap`, a hash map in shards, each behind its own lock.
#[verifier::external_type_specification]
#[verifier::external_body]
#[verifier::reject_recursive_types(K)]
#[verifier::reject_recursive_types(V)]
#[verifier::reject_recursive_types(S)]
pub struct ExDashMap<K, V, S>(dashmap::DashMap<K, V, S>);

/// The concurrent map in which the books are kept.
pub type BookMap = dashmap::DashMap<String, OrderBook>;

/// The books that a map holds, by key.
pub uninterp spec fn held_books(books: BookMap) -> Map<Seq<char>, BookModel>;

/// The content of a map without books.
pub open spec fn no_books() -> Map<Seq<char>, BookModel> {
    Map::empty()
}

/// An empty map, by `DashMap::new`.
#[verifier::external_body]
fn books_new() -> (r: BookMap)
    ensures
        held_books(r) == no_books(),
{
    dashmap::DashMap::new()
}

/// Takes the book under `key` out of the map, by `DashMap::remove`, which
/// gives the entry that it removed.
#[verifier::external_body]
fn books_take(books: &mut BookMap, key: &str) -> (r: Option<OrderBook>)
    ensures
        held_books(*final(books)) == held_books(*old(books)).remove(key@),
        match r {
            Some(book) => held_books(*old(books)).contains_key(key@) && book@ == held_books(
                *old(books),
            )[key@],
            None => !held_books(*old(books)).contains_key(key@),
        },
{
    books.remove(key).map(|entry| entry.1)
}

/// Puts a book under `key`, by `DashMap::insert`, which replaces what the
/// key held.
#[verifier::external_body]
fn books_put(books: &mut BookMap, key: String, book: OrderBook)
    ensures
        held_books(*final(books)) == held_books(*old(books)).insert(key@, book@),
{
    books.insert(key, book);
}

/// A copy of the book under `key`, by `DashMap::get`.
#[verifier::external_body]
fn books_get(books: &BookMap, key: &str) -> (r: Option<OrderBook>)
    ensures
        match r {
            Some(book) => held_books(*books).contains_key(key@) && book@ == held_books(
                *books,
            )[key@],
            None => !held_books(*books).contains_key(key@),
        },
{
    books.get(key).map(|entry| entry.value().clone_book())
}

/// Copies of all entries, by `DashMap::iter`, in the order in which the map
/// walks them: every key once, with its book.
#[verifier::external_body]
fn books_entries(books: &BookMap) -> (r: Vec<(String, OrderBook)>)
    ensures
        forall|i: int|
            0 <= i < r@.len() ==> held_books(*books).contains_key((#[trigger] r@[i]).0@)
                && r@[i].1@ == held_books(*books)[r@[i].0@],
        forall|key: Seq<char>|
            held_books(*books).contains_key(key) ==> exists|i: int|
                0 <= i < r@.len() && (#[trigger] r@[i]).0@ == key,
        forall|i: int, j: int| 0 <= i < j < r@.len() ==> r@[i].0@ != r@[j].0@,
{
    books.iter().map(|entry| (entry.key().clone(), entry.value().clone_book())).collect()
}

/// The key of a book: the venue's name, a colon, the symbol.
pub open spec fn book_key_of(exchange: Seq<char>, symbol: Seq<char>) -> Seq<char> {
    exchange + ":"@ + symbol
}

/// The key of a book: the venue's name, a colon, the symbol.
pub fn book_key(exchange: &str, symbol: &str) -> (r: String)
    ensures
        r@ == book_key_of(exchange@, symbol@),
{
    let mut key: Vec<char> = Vec::new();
    push_str(&mut key, exchange);
    push_str(&mut key, ":");
    push_str(&mut key, symbol);
    string_of(&key)
}

/// The invariant of a book, on its content.
pub open spec fn book_wf(m: BookModel) -> bool {
    &&& side_wf(m.bids, m.max_depth, true)
    &&& side_wf(m.asks, m.max_depth, false)
}

/// The content of a new book.
pub open spec fn new_book(symbol: Seq<char>, exchange: Seq<char>) -> BookModel {
    BookModel {
        symbol,
        exchange,
        bids: Seq::empty(),
        asks: Seq::empty(),
        last_update_id: 0,
        initialized: false,
        max_depth: ORDERBOOK_DEPTH as nat,
    }
}

/// The book of a venue and symbol as the registry has it: the one it
/// holds, or a new one.
pub open spec fn book_of(
    books: Map<Seq<char>, BookModel>,
    exchange: Seq<char>,
    symbol: Seq<char>,
) -> BookModel {
    if books.contains_key(book_key_of(exchange, symbol)) {
        books[book_key_of(exchange, symbol)]
    } else {
        new_book(symbol, exchange)
    }
}

/// The registry after a message of a venue: a depth event replaces or
/// updates the book of its venue and symbol, which is made where it was not
/// there; other messages leave the books as they are.
pub open spec fn books_after(books: Map<Seq<char>, BookModel>, msg: MarketMessageView) -> Map<
    Seq<char>,
    BookModel,
> {
    match msg {
        MarketMessageView::DepthUpdate { exchange, symbol, bids, asks, update_id, is_snapshot } => {
            let before = book_of(books, exchange_name(exchange), symbol);
            books.insert(
                book_key_of(exchange_name(exchange), symbol),
                if is_snapshot {
                    snapshot_model(before, bids, asks, update_id)
                } else {
                    delta_model(before, bids, asks, update_id)
                },
            )
        },
        _ => books,
    }
}

/// Whether the book that a depth event went to is crossed after it. Other
/// messages cross nothing.
pub open spec fn crossed_after(books: Map<Seq<char>, BookModel>, msg: MarketMessageView) -> bool {
    match msg {
        MarketMessageView::DepthUpdate { exchange, symbol, .. } => model_crossed(
            books_after(books, msg)[book_key_of(exchange_name(exchange), symbol)],
        ),
        _ => false,
    }
}

/// What applying a message of a venue gave.
#[derive(Debug, Clone)]
pub struct Dispatch {
    /// The record to hand on to the subscribers, where there is one.
    pub broadcast: Option<ClientMessage>,
    /// Whether the book that the message went to is crossed after it.
    pub crossed: bool,
}

/// What is handed on to the subscribers for a message of a venue: a trade.
/// Book changes are not handed on; subscribers poll the books.
pub open spec fn broadcast_of(msg: MarketMessageView) -> Option<ClientMessageView> {
    match msg {
        MarketMessageView::Trade(t) => Some(ClientMessageView::Trade(t)),
        _ => None,
    }
}

/// Whether every book is well-formed.
pub open spec fn books_wf(books: Map<Seq<char>, BookModel>) -> bool {
    forall|key: Seq<char>| books.contains_key(key) ==> book_wf(#[trigger] books[key])
}

/// A book taken out of a well-formed registry is well-formed.
proof fn lemma_taken(before: Map<Seq<char>, BookModel>, key: Seq<char>, book: BookModel)
    requires
        books_wf(before),
        before.contains_key(key) ==> book == before[key],
        !before.contains_key(key) ==> book_wf(book),
    ensures
        book_wf(book),
{
    if before.contains_key(key) {
        assert(book_wf(before[key]));
    }
}

/// A well-formed book put back leaves the registry well-formed.
proof fn lemma_put_back(before: Map<Seq<char>, BookModel>, key: Seq<char>, book: BookModel)
    requires
        books_wf(before),
        book_wf(book),
    ensures
        books_wf(before.remove(key).insert(key, book)),
        before.remove(key).insert(key, book) == before.insert(key, book),
{
    let after = before.remove(key).insert(key, book);
    assert(after =~= before.insert(key, book));
    assert forall|k: Seq<char>| after.contains_key(k) implies book_wf(#[trigger] after[k]) by {
        if k != key {
            assert(book_wf(before[k]));
        }
    }
}

/// The books of every venue and symbol, each under its key.
pub struct OrderBookManager {
    books: BookMap,
}

impl View for OrderBookManager {
    type V = Map<Seq<char>, BookModel>;

    closed spec fn view(&self) -> Map<Seq<char>, BookModel> {
        held_books(self.books)
    }
}

impl OrderBookManager {
    /// The invariant of the registry: every book it holds is well-formed.
    pub open spec fn wf(&self) -> bool {
        books_wf(self@)
    }

    /// A registry without books. Books are made when their venue and symbol
    /// are first seen.
    pub fn with_symbols(_symbols: &[&str]) -> (r: Self)
        ensures
            r.wf(),
            r@ == no_books(),
    {
        Self { books: books_new() }
    }

    /// The book of a venue and symbol, which is made where it was not
    /// there. The result is a copy.
    pub fn get_or_create(&mut self, exchange: &str, symbol: &str) -> (r: OrderBook)
        requires
            old(self).wf(),
        ensures
            final(self).wf(),
            final(self)@ == old(self)@.insert(
                book_key_of(exchange@, symbol@),
                book_of(old(self)@, exchange@, symbol@),
            ),
            r@ == book_of(old(self)@, exchange@, symbol@),
            r.wf(),
    {
        let ghost before = self@;
        let key = book_key(exchange, symbol);
        let book = match books_take(&mut self.books, key.as_str()) {
            Some(b) => b,
            None => OrderBook::new(symbol, exchange),
        };
        proof {
            lemma_taken(before, key@, book@);
        }
        let copy = book.clone_book();
        books_put(&mut self.books, key, book);
        proof {
            lemma_put_back(before, key@, book@);
        }
        copy
    }

    /// Replaces the book of a venue and symbol by a snapshot, and says
    /// whether the book is crossed after it.
    pub fn apply_snapshot(
        &mut self,
        exchange: &str,
        symbol: &str,
        bids: Vec<(u64, u64)>,
        asks: Vec<(u64, u64)>,
        last_update_id: u64,
    ) -> (crossed: bool)
        requires
            old(self).wf(),
        ensures
            final(self).wf(),
            final(self)@ == old(self)@.insert(
                book_key_of(exchange@, symbol@),
                snapshot_model(
                    book_of(old(self)@, exchange@, symbol@),
                    bids@,
                    asks@,
                    last_update_id,
                ),
            ),
            crossed == model_crossed(
                snapshot_model(
                    book_of(old(self)@, exchange@, symbol@),
                    bids@,
                    asks@,
                    last_update_id,
                ),
            ),
    {
        let ghost before = self@;
        let key = book_key(exchange, symbol);
        let mut book = match books_take(&mut self.books, key.as_str()) {
            Some(b) => b,
            None => OrderBook::new(symbol, exchange),
        };
        book.initialize_from_snapshot(bids, asks, last_update_id);
        let crossed = book.is_crossed();
        books_put(&mut self.books, key, book);
        proof {
            lemma_put_back(before, key@, book@);
        }
        crossed
    }

    /// Applies a delta to the book of a venue and symbol, and says whether
    /// a level changed and whether the book is crossed after it.
    pub fn apply_update(
        &mut self,
        exchange: &str,
        symbol: &str,
        bids: Vec<(u64, u64)>,
        asks: Vec<(u64, u64)>,
        first_update_id: u64,
        final_update_id: u64,
    ) -> (r: (bool, bool))
        requires
            old(self).wf(),
        ensures
            final(self).wf(),
            final(self)@ == old(self)@.insert(
                book_key_of(exchange@, symbol@),
                delta_model(
                    book_of(old(self)@, exchange@, symbol@),
                    bids@,
                    asks@,
                    final_update_id,
                ),
            ),
            r.0 == delta_changes(book_of(old(self)@, exchange@, symbol@), bids@, asks@),
            r.1 == model_crossed(
                delta_model(
                    book_of(old(self)@, exchange@, symbol@),
                    bids@,
                    asks@,
                    final_update_id,
                ),
            ),
    {
        let ghost before = self@;
        let key = book_key(exchange, symbol);
        let mut book = match books_take(&mut self.books, key.as_str()) {
            Some(b) => b,
            None => OrderBook::new(symbol, exchange),
        };
        proof {
            lemma_taken(before, key@, book@);
        }
        let changed = book.apply_update(bids, asks, first_update_id, final_update_id);
        let crossed = book.is_crossed();
        books_put(&mut self.books, key, book);
        proof {
            lemma_put_back(before, key@, book@);
        }
        (changed, crossed)
    }

    /// Applies a message of a venue: a depth event to the book of its venue
    /// and symbol, as a snapshot or as a delta. Gives what is to be handed
    /// on to the subscribers, the trade of a trade message, and whether the
    /// book is crossed.
    pub fn process_market_message(&mut self, msg: MarketMessage) -> (r: Dispatch)
        requires
            old(self).wf(),
        ensures
            final(self).wf(),
            final(self)@ == books_after(old(self)@, msg@),
            match r.broadcast {
                Some(m) => broadcast_of(msg@) == Some(m@),
                None => broadcast_of(msg@) is None,
            },
            r.crossed == crossed_after(old(self)@, msg@),
    {
        match msg {
            MarketMessage::DepthUpdate { exchange, symbol, bids, asks, update_id, is_snapshot } => {
                let crossed = if is_snapshot {
                    self.apply_snapshot(exchange.name(), symbol.as_str(), bids, asks, update_id)
                } else {
                    self.apply_update(exchange.name(), symbol.as_str(), bids, asks, 0, update_id).1
                };
                Dispatch { broadcast: None, crossed }
            },
            MarketMessage::Trade(trade) => Dispatch {
                broadcast: Some(ClientMessage::Trade(trade)),
                crossed: false,
            },
            MarketMessage::Raw(_) => Dispatch { broadcast: None, crossed: false },
        }
    }

    /// A copy of the book of a venue and symbol, where there is one.
    pub fn get(&self, exchange: &str, symbol: &str) -> (r: Option<OrderBook>)
        requires
            self.wf(),
        ensures
            match r {
                Some(book) => self@.contains_key(book_key_of(exchange@, symbol@)) && book@
                    == self@[book_key_of(exchange@, symbol@)] && book.wf(),
                None => !self@.contains_key(book_key_of(exchange@, symbol@)),
            },
    {
        let key = book_key(exchange, symbol);
        books_get(&self.books, key.as_str())
    }

    /// Copies of all books with their keys, in no particular order.
    pub fn iter(&self) -> (r: Vec<(String, OrderBook)>)
        requires
            self.wf(),
        ensures
            forall|i: int|
                0 <= i < r@.len() ==> self@.contains_key((#[trigger] r@[i]).0@) && r@[i].1@
                    == self@[r@[i].0@] && r@[i].1.wf(),
            forall|key: Seq<char>|
                self@.contains_key(key) ==> exists|i: int|
                    0 <= i < r@.len() && (#[trigger] r@[i]).0@ == key,
            forall|i: int, j: int| 0 <= i < j < r@.len() ==> r@[i].0@ != r@[j].0@,
    {
        books_entries(&self.books)
    }
}

} // verus!

use vstd::prelude::*;
use crate::orderbook::{client_update, BookModel, OrderBook};
use crate::text::str_eq;
use crate::types::{ClientMessage, ClientMessageView, Metrics};

verus! {

/// Milliseconds between two polls of the books by a subscriber session.
pub const BOOK_POLL_MS: u64 = 200;

/// The ids last sent, by key: a later entry of a key counts.
pub open spec fn sent_map(entries: Seq<(String, u64)>) -> Map<Seq<char>, u64>
    decreases entries.len(),
{
    if entries.len() == 0 {
        Map::empty()
    } else {
        sent_map(entries.drop_last()).insert(entries.last().0@, entries.last().1)
    }
}

/// Whether no key stands twice among the entries.
pub open spec fn keys_unique(entries: Seq<(String, u64)>) -> bool {
    forall|i: int, j: int| 0 <= i < j < entries.len() ==> entries[i].0@ != entries[j].0@
}

/// The id of the last frame for `key` among `frames`.
pub open spec fn last_frame(frames: Seq<(Seq<char>, u64)>, key: Seq<char>) -> Option<u64>
    decreases frames.len(),
{
    if frames.len() == 0 {
        None
    } else if frames.last().0 == key {
        Some(frames.last().1)
    } else {
        last_frame(frames.drop_last(), key)
    }
}

/// Whether no frame repeats the id of the frame before it for the same
/// key.
pub open spec fn no_repeat(frames: Seq<(Seq<char>, u64)>) -> bool
    decreases frames.len(),
{
    if frames.len() == 0 {
        true
    } else {
        no_repeat(frames.drop_last()) && last_frame(frames.drop_last(), frames.last().0) != Some(
            frames.last().1,
        )
    }
}

/// The id last sent for `key`.
pub open spec fn sent_id(sent: Map<Seq<char>, u64>, key: Seq<char>) -> Option<u64> {
    if sent.contains_key(key) {
        Some(sent[key])
    } else {
        None
    }
}

/// Whether a book is due to be sent: it is initialized, and its update id
/// is not the one last sent for its key.
pub open spec fn book_due(sent: Map<Seq<char>, u64>, key: Seq<char>, book: BookModel) -> bool {
    book.initialized && sent_id(sent, key) != Some(book.last_update_id)
}

/// The ids last sent after a poll of `books`.
pub open spec fn sent_after(
    sent: Map<Seq<char>, u64>,
    books: Seq<(Seq<char>, BookModel)>,
) -> Map<Seq<char>, u64>
    decreases books.len(),
{
    if books.len() == 0 {
        sent
    } else {
        let before = sent_after(sent, books.drop_last());
        if book_due(before, books.last().0, books.last().1) {
            before.insert(books.last().0, books.last().1.last_update_id)
        } else {
            before
        }
    }
}

/// The frames that a poll of `books` sends: key and update id of every book
/// that is due when its turn comes.
pub open spec fn poll_frames(
    sent: Map<Seq<char>, u64>,
    books: Seq<(Seq<char>, BookModel)>,
) -> Seq<(Seq<char>, u64)>
    decreases books.len(),
{
    if books.len() == 0 {
        Seq::empty()
    } else {
        let before = sent_after(sent, books.drop_last());
        let frames = poll_frames(sent, books.drop_last());
        if book_due(before, books.last().0, books.last().1) {
            frames.push((books.last().0, books.last().1.last_update_id))
        } else {
            frames
        }
    }
}

/// The book updates that a poll of `books` sends.
pub open spec fn poll_messages(
    sent: Map<Seq<char>, u64>,
    books: Seq<(Seq<char>, BookModel)>,
    levels: nat,
) -> Seq<ClientMessageView>
    decreases books.len(),
{
    if books.len() == 0 {
        Seq::empty()
    } else {
        let before = sent_after(sent, books.drop_last());
        let messages = poll_messages(sent, books.drop_last(), levels);
        if book_due(before, books.last().0, books.last().1) {
            messages.push(client_update(books.last().1, levels))
        } else {
            messages
        }
    }
}

/// Keys and contents of a list of books.
pub open spec fn book_models(books: Seq<(String, OrderBook)>) -> Seq<(Seq<char>, BookModel)> {
    Seq::new(books.len(), |i: int| (books[i].0@, books[i].1@))
}

/// The views of a list of messages.
pub open spec fn message_views(messages: Seq<ClientMessage>) -> Seq<ClientMessageView> {
    Seq::new(messages.len(), |i: int| messages[i]@)
}

/// With unique keys, a key maps to the id of its entry.
proof fn lemma_sent_lookup(entries: Seq<(String, u64)>, i: int)
    requires
        keys_unique(entries),
        0 <= i < entries.len(),
    ensures
        sent_map(entries).contains_key(entries[i].0@),
        sent_map(entries)[entries[i].0@] == entries[i].1,
    decreases entries.len(),
{
    if i < entries.len() - 1 {
        let head = entries.drop_last();
        assert(keys_unique(head)) by {
            assert forall|a: int, b: int| 0 <= a < b < head.len() implies head[a].0@
                != head[b].0@ by {
                assert(head[a] == entries[a] && head[b] == entries[b]);
            }
        }
        assert(head[i] == entries[i]);
        lemma_sent_lookup(head, i);
    }
}

/// A key of no entry is not on record.
proof fn lemma_sent_absent(entries: Seq<(String, u64)>, key: Seq<char>)
    requires
        forall|i: int| 0 <= i < entries.len() ==> (#[trigger] entries[i]).0@ != key,
    ensures
        !sent_map(entries).contains_key(key),
    decreases entries.len(),
{
    if entries.len() > 0 {
        let head = entries.drop_last();
        assert forall|i: int| 0 <= i < head.len() implies (#[trigger] head[i]).0@ != key by {
            assert(head[i] == entries[i]);
        }
        lemma_sent_absent(head, key);
        assert(entries.last() == entries[entries.len() - 1]);
    }
}

/// Putting a new id into the entry of a key records it for that key and
/// leaves the keys unique.
proof fn lemma_sent_update(entries: Seq<(String, u64)>, i: int, entry: (String, u64))
    requires
        keys_unique(entries),
        0 <= i < entries.len(),
        entry.0@ == entries[i].0@,
    ensures
        keys_unique(entries.update(i, entry)),
        sent_map(entries.update(i, entry)) == sent_map(entries).insert(entry.0@, entry.1),
    decreases entries.len(),
{
    let after = entries.update(i, entry);
    assert forall|a: int, b: int| 0 <= a < b < after.len() implies after[a].0@ != after[b].0@ by {
        assert(after[a].0@ == entries[a].0@);
        assert(after[b].0@ == entries[b].0@);
    }
    let head = entries.drop_last();
    if i == entries.len() - 1 {
        assert(after.drop_last() == head);
        assert(sent_map(after) =~= sent_map(entries).insert(entry.0@, entry.1));
    } else {
        assert(keys_unique(head)) by {
            assert forall|a: int, b: int| 0 <= a < b < head.len() implies head[a].0@
                != head[b].0@ by {
                assert(head[a] == entries[a] && head[b] == entries[b]);
            }
        }
        assert(head[i] == entries[i]);
        lemma_sent_update(head, i, entry);
        assert(after.drop_last() == head.update(i, entry));
        assert(after.last() == entries.last());
        assert(entries.last().0@ != entry.0@) by {
            assert(entries.last() == entries[entries.len() - 1]);
        }
        assert(sent_map(after) =~= sent_map(entries).insert(entry.0@, entry.1));
    }
}

/// What a subscriber was sent last of each book, from which a session
/// decides what to send next.
pub struct SubscriberSession {
    last_sent: Vec<(String, u64)>,
    frames: Ghost<Seq<(Seq<char>, u64)>>,
}

impl SubscriberSession {
    /// The update id last sent of each book, by key.
    pub closed spec fn sent(&self) -> Map<Seq<char>, u64> {
        sent_map(self.last_sent@)
    }

    /// Key and update id of every book update that the session has handed
    /// out to be sent, in order.
    pub closed spec fn frames(&self) -> Seq<(Seq<char>, u64)> {
        self.frames@
    }

    /// The invariant of a session: the id on record for a key is that of
    /// the last frame for it, and no frame repeats the id of the frame
    /// before it for its key.
    pub closed spec fn wf(&self) -> bool {
        &&& keys_unique(self.last_sent@)
        &&& no_repeat(self.frames@)
        &&& forall|key: Seq<char>| #[trigger]
            sent_id(sent_map(self.last_sent@), key) == last_frame(self.frames@, key)
    }

    /// A session that has sent nothing.
    pub fn new() -> (r: Self)
        ensures
            r.wf(),
            r.sent() == Map::<Seq<char>, u64>::empty(),
            r.frames() == Seq::<(Seq<char>, u64)>::empty(),
    {
        Self { last_sent: Vec::new(), frames: Ghost(Seq::empty()) }
    }

    /// The id last sent for `key`.
    pub fn last_sent_update_id(&self, key: &str) -> (r: Option<u64>)
        requires
            self.wf(),
        ensures
            r == sent_id(self.sent(), key@),
    {
        match self.position(key) {
            Some(i) => Some(self.last_sent[i].1),
            None => None,
        }
    }

/// The index of the entry of `key`, where there is one.
    fn position(&self, key: &str) -> (r: Option<usize>)
        requires
            self.wf(),
        ensures
            match r {
                Some(i) => i < self.last_sent@.len() && self.last_sent@[i as int].0@ == key@
                    && sent_id(self.sent(), key@) == Some(self.last_sent@[i as int].1),
                None => sent_id(self.sent(), key@) is None && forall|i: int|
                    0 <= i < self.last_sent@.len() ==> (#[trigger] self.last_sent@[i]).0@ != key@,
            },
    {
        let mut i: usize = 0;
        while i < self.last_sent.len()
            invariant
                i <= self.last_sent.len(),
                keys_unique(self.last_sent@),
                forall|k: int| 0 <= k < i ==> (#[trigger] self.last_sent@[k]).0@ != key@,
            decreases self.last_sent.len() - i,
        {
            if str_eq(self.last_sent[i].0.as_str(), key) {
                proof {
                    lemma_sent_lookup(self.last_sent@, i as int);
                }
                return Some(i);
            }
            i += 1;
        }
        proof {
            lemma_sent_absent(self.last_sent@, key@);
        }
        None
    }

    /// Whether a book is due to be sent under `key`.
    pub fn is_due(&self, key: &str, book: &OrderBook) -> (r: bool)
        requires
            self.wf(),
        ensures
            r == book_due(self.sent(), key@, book@),
    {
        if !book.is_initialized() {
            return false;
        }
        match self.last_sent_update_id(key) {
            Some(id) => id != book.last_update_id(),
            None => true,
        }
    }

    /// Hands out the update of a book where it is due, and takes its id on
    /// record as sent. A book that is not due gives nothing and changes
    /// nothing.
    pub fn poll_book(&mut self, key: &str, book: &OrderBook, levels: usize) -> (r: Option<
        ClientMessage,
    >)
        requires
            old(self).wf(),
        ensures
            final(self).wf(),
            match r {
                Some(m) => book_due(old(self).sent(), key@, book@) && m@ == client_update(
                    book@,
                    levels as nat,
                ) && final(self).sent() == old(self).sent().insert(key@, book@.last_update_id)
                    && final(self).frames() == old(self).frames().push(
                    (key@, book@.last_update_id),
                ),
                None => !book_due(old(self).sent(), key@, book@) && final(self).sent() == old(
                    self,
                ).sent() && final(self).frames() == old(self).frames(),
            },
    {
        if !book.is_initialized() {
            return None;
        }
        let id = book.last_update_id();
        let ghost before = self.last_sent@;
        let ghost frames = self.frames@;
        match self.position(key) {
            Some(i) => {
                if self.last_sent[i].1 == id {
                    return None;
                }
                let entry = (key.to_owned(), id);
                proof {
                    lemma_sent_update(before, i as int, entry);
                }
                self.last_sent.set(i, entry);
            },
            None => {
                self.last_sent.push((key.to_owned(), id));
                proof {
                    assert(self.last_sent@.drop_last() == before);
                    assert forall|a: int, b: int|
                        0 <= a < b < self.last_sent@.len() implies self.last_sent@[a].0@
                        != self.last_sent@[b].0@ by {
                        if b < before.len() {
                            assert(self.last_sent@[a] == before[a] && self.last_sent@[b]
                                == before[b]);
                        } else {
                            assert(self.last_sent@[a] == before[a]);
                        }
                    }
                }
            },
        }
        proof {
            let after = frames.push((key@, id));
            assert(after.drop_last() == frames);
            assert(sent_id(sent_map(before), key@) == last_frame(frames, key@));
            assert forall|k: Seq<char>| #[trigger]
                sent_id(sent_map(self.last_sent@), k) == last_frame(after, k) by {
                assert(sent_id(sent_map(before), k) == last_frame(frames, k));
            }
        }
        self.frames = Ghost(frames.push((key@, id)));
        Some(book.to_client_message(levels))
    }

    /// Polls the books in the order given, and hands out the updates of
    /// those that are due.
    pub fn poll(&mut self, books: &Vec<(String, OrderBook)>, levels: usize) -> (r: Vec<
        ClientMessage,
    >)
        requires
            old(self).wf(),
        ensures
            final(self).wf(),
            final(self).sent() == sent_after(old(self).sent(), book_models(books@)),
            final(self).frames() == old(self).frames() + poll_frames(
                old(self).sent(),
                book_models(books@),
            ),
            message_views(r@) == poll_messages(
                old(self).sent(),
                book_models(books@),
                levels as nat,
            ),
    {
        let ghost all = book_models(books@);
        let ghost start = self.sent();
        let ghost first = self.frames();
        let mut out: Vec<ClientMessage> = Vec::new();
        let mut i: usize = 0;
        proof {
            assert(first + Seq::<(Seq<char>, u64)>::empty() == first);
            assert(message_views(out@) =~= Seq::<ClientMessageView>::empty());
        }
        while i < books.len()
            invariant
                i <= books.len(),
                all == book_models(books@),
                self.wf(),
                self.sent() == sent_after(start, all.take(i as int)),
                self.frames() == first + poll_frames(start, all.take(i as int)),
                message_views(out@) == poll_messages(start, all.take(i as int), levels as nat),
            decreases books.len() - i,
        {
            proof {
                assert(all.take(i as int + 1).drop_last() == all.take(i as int));
                assert(all.take(i as int + 1).last() == (books@[i as int].0@, books@[i as int].1@));
            }
            let ghost before = out@;
            let ghost frames = poll_frames(start, all.take(i as int));
            match self.poll_book(books[i].0.as_str(), &books[i].1, levels) {
                Some(m) => {
                    out.push(m);
                    proof {
                        assert(message_views(out@) =~= message_views(before).push(
                            client_update(books@[i as int].1@, levels as nat),
                        ));
                        assert(first + frames.push(
                            (books@[i as int].0@, books@[i as int].1@.last_update_id),
                        ) == (first + frames).push(
                            (books@[i as int].0@, books@[i as int].1@.last_update_id),
                        ));
                    }
                },
                None => {},
            }
            i += 1;
        }
        proof {
            assert(all.take(books.len() as int) == all);
        }
        out
    }

    /// The frames with which a session opens: the list of symbols, the
    /// update of every initialized book, and the present metrics. The books
    /// are taken on record as sent.
    pub fn greeting(
        &mut self,
        symbols: Vec<String>,
        books: &Vec<(String, OrderBook)>,
        metrics: Metrics,
        levels: usize,
    ) -> (r: Vec<ClientMessage>)
        requires
            old(self).wf(),
        ensures
            final(self).wf(),
            final(self).sent() == sent_after(old(self).sent(), book_models(books@)),
            final(self).frames() == old(self).frames() + poll_frames(
                old(self).sent(),
                book_models(books@),
            ),
            message_views(r@) == seq![ClientMessage::SymbolList(symbols)@] + poll_messages(
                old(self).sent(),
                book_models(books@),
                levels as nat,
            ) + seq![ClientMessageView::Metrics(metrics)],
    {
        let ghost list = ClientMessage::SymbolList(symbols)@;
        let mut out: Vec<ClientMessage> = Vec::new();
        out.push(ClientMessage::SymbolList(symbols));
        let mut updates = self.poll(books, levels);
        let ghost polled = message_views(updates@);
        out.append(&mut updates);
        out.push(ClientMessage::Metrics(metrics));
        proof {
            assert(message_views(out@) =~= seq![list] + polled + seq![
                ClientMessageView::Metrics(metrics),
            ]);
        }
        out
    }
}

/// A frame that a subscriber sent.
#[derive(Debug, Clone, PartialEq, Eq)]
pub enum ClientFrame {
    Close,
    Ping(Vec<u8>),
    Other,
}

/// What a session waits for.
#[derive(Debug, Clone)]
pub enum SessionEvent {
    /// The poll timer fired.
    PollTick,
    /// A record arrived on the broadcast channel.
    Broadcast(ClientMessage),
    /// The session fell behind on the broadcast channel and records were
    /// dropped.
    BroadcastLagged,
    /// The broadcast channel was closed.
    BroadcastClosed,
    /// The subscriber sent a frame.
    Inbound(ClientFrame),
    /// Reading from the subscriber failed.
    InboundError,
    /// The subscriber's connection ended.
    InboundEnd,
    /// Writing to the subscriber failed.
    SendFailed,
}

/// What a session does next.
#[derive(Debug, Clone)]
pub enum SessionAction {
    /// Poll the books and send the updates that are due.
    PollBooks,
    /// Send a record to the subscriber.
    Send(ClientMessage),
    /// Answer a ping with its payload.
    SendPong(Vec<u8>),
    /// Go on waiting.
    Continue,
    /// End the session.
    Terminate,
}

/// The content of an action.
pub enum SessionActionView {
    PollBooks,
    Send(ClientMessageView),
    SendPong(Seq<u8>),
    Continue,
    Terminate,
}

impl View for SessionAction {
    type V = SessionActionView;

    open spec fn view(&self) -> SessionActionView {
        match self {
            SessionAction::PollBooks => SessionActionView::PollBooks,
            SessionAction::Send(m) => SessionActionView::Send(m@),
            SessionAction::SendPong(p) => SessionActionView::SendPong(p@),
            SessionAction::Continue => SessionActionView::Continue,
            SessionAction::Terminate => SessionActionView::Terminate,
        }
    }
}

/// The action that follows an event: a poll on the timer; trades and
/// metrics of the broadcast channel are sent on, book updates on it are
/// not; dropped records are not replayed; a ping is answered; a closed
/// channel, a close frame, a read or write failure and the end of the
/// connection end the session.
pub open spec fn action_for(event: SessionEvent) -> SessionActionView {
    match event {
        SessionEvent::PollTick => SessionActionView::PollBooks,
        SessionEvent::Broadcast(m) => match m {
            ClientMessage::BookUpdate { .. } => SessionActionView::Continue,
            _ => SessionActionView::Send(m@),
        },
        SessionEvent::BroadcastLagged => SessionActionView::Continue,
        SessionEvent::BroadcastClosed => SessionActionView::Terminate,
        SessionEvent::Inbound(frame) => match frame {
            ClientFrame::Close => SessionActionView::Terminate,
            ClientFrame::Ping(payload) => SessionActionView::SendPong(payload@),
            ClientFrame::Other => SessionActionView::Continue,
        },
        SessionEvent::InboundError => SessionActionView::Terminate,
        SessionEvent::InboundEnd => SessionActionView::Terminate,
        SessionEvent::SendFailed => SessionActionView::Terminate,
    }
}

/// The action that follows an event.
pub fn on_event(event: SessionEvent) -> (r: SessionAction)
    ensures
        r@ == action_for(event),
{
    match event {
        SessionEvent::PollTick => SessionAction::PollBooks,
        SessionEvent::Broadcast(m) => match m {
            ClientMessage::BookUpdate { .. } => SessionAction::Continue,
            _ => SessionAction::Send(m),
        },
        SessionEvent::BroadcastLagged => SessionAction::Continue,
        SessionEvent::BroadcastClosed => SessionAction::Terminate,
        SessionEvent::Inbound(frame) => match frame {
            ClientFrame::Close => SessionAction::Terminate,
            ClientFrame::Ping(payload) => SessionAction::SendPong(payload),
            ClientFrame::Other => SessionAction::Continue,
        },
        SessionEvent::InboundError => SessionAction::Terminate,
        SessionEvent::InboundEnd => SessionAction::Terminate,
        SessionEvent::SendFailed => SessionAction::Terminate,
    }
}

/// No session is handed two updates in a row for the same book with the
/// same update id.
pub proof fn lemma_no_repeated_frame(session: SubscriberSession, i: int, j: int)
    requires
        session.wf(),
        0 <= i < j < session.frames().len(),
        session.frames()[i].0 == session.frames()[j].0,
        forall|k: int| i < k < j ==> session.frames()[k].0 != session.frames()[i].0,
    ensures
        session.frames()[i].1 != session.frames()[j].1,
{
    lemma_frames(session.frames(), i, j);
}

/// In a sequence of frames without repeats, a frame and the next one for
/// its key differ in their ids.
pub proof fn lemma_frames(frames: Seq<(Seq<char>, u64)>, i: int, j: int)
    requires
        no_repeat(frames),
        0 <= i < j < frames.len(),
        frames[i].0 == frames[j].0,
        forall|k: int| i < k < j ==> frames[k].0 != frames[i].0,
    ensures
        frames[i].1 != frames[j].1,
    decreases frames.len(),
{
    let head = frames.drop_last();
    if j == frames.len() - 1 {
        lemma_last_frame(head, frames[j].0, i);
    } else {
        assert(head[i] == frames[i] && head[j] == frames[j]);
        assert forall|k: int| i < k < j implies head[k].0 != head[i].0 by {
            assert(head[k] == frames[k]);
        }
        lemma_frames(head, i, j);
    }
}

/// The last frame for a key is the frame for it with none after it.
pub proof fn lemma_last_frame(frames: Seq<(Seq<char>, u64)>, key: Seq<char>, i: int)
    requires
        0 <= i < frames.len(),
        frames[i].0 == key,
        forall|k: int| i < k < frames.len() ==> frames[k].0 != key,
    ensures
        last_frame(frames, key) == Some(frames[i].1),
    decreases frames.len(),
{
    if i < frames.len() - 1 {
        let head = frames.drop_last();
        assert(head[i] == frames[i]);
        assert forall|k: int| i < k < head.len() implies head[k].0 != key by {
            assert(head[k] == frames[k]);
        }
        assert(frames.last() == frames[frames.len() - 1]);
        lemma_last_frame(head, key, i);
    }
}

} // verus!

use vstd::prelude::*;
use crate::numeric::{decimal_div, decimal_quotient};
use crate::types::{ClientMessage, ClientMessageView, DecimalValue, PriceLevel, ORDERBOOK_DEPTH};

verus! {

/// One price level of a book side. Price and quantity are scaled by 10^8.
#[derive(Debug, Clone, Copy, PartialEq, Eq, Structural)]
pub struct Level {
    pub price: u64,
    pub qty: u64,
}

/// Whether price `a` stands before price `b` on a side: the higher price on
/// a descending side (bids), the lower one on an ascending side (asks).
pub open spec fn precedes(a: u64, b: u64, descending: bool) -> bool {
    if descending {
        a > b
    } else {
        a < b
    }
}

/// Prices strictly monotone: no price occurs twice.
pub open spec fn side_sorted(s: Seq<Level>, descending: bool) -> bool {
    forall|i: int, j: int| 0 <= i < j < s.len() ==> precedes(s[i].price, s[j].price, descending)
}

/// No level with quantity zero.
pub open spec fn side_positive(s: Seq<Level>) -> bool {
    forall|i: int| 0 <= i < s.len() ==> (#[trigger] s[i]).qty > 0
}

/// What holds of each side of a book after every operation.
pub open spec fn side_wf(s: Seq<Level>, cap: nat, descending: bool) -> bool {
    &&& side_sorted(s, descending)
    &&& side_positive(s)
    &&& s.len() <= cap
}

/// The number of levels at the head of `s` that stand before `price`: on a
/// sorted side, the index at which `price` is stored or would be inserted.
pub open spec fn rank(s: Seq<Level>, price: u64, descending: bool) -> int
    decreases s.len(),
{
    if s.len() == 0 || !precedes(s[0].price, price, descending) {
        0
    } else {
        1 + rank(s.drop_first(), price, descending)
    }
}

/// Whether `s` stores a level at `price`.
pub open spec fn holds_price(s: Seq<Level>, price: u64, descending: bool) -> bool {
    let i = rank(s, price, descending);
    i < s.len() && s[i].price == price
}

/// `s` with the level at `price` set to `qty`: replaced where the price is
/// stored, inserted in order where it is not.
pub open spec fn upsert(s: Seq<Level>, price: u64, qty: u64, descending: bool) -> Seq<Level> {
    let i = rank(s, price, descending);
    if holds_price(s, price, descending) {
        s.update(i, Level { price, qty })
    } else {
        s.insert(i, Level { price, qty })
    }
}

/// `s` cut down to its first `cap` levels.
pub open spec fn truncated(s: Seq<Level>, cap: nat) -> Seq<Level> {
    if s.len() > cap {
        s.take(cap as int)
    } else {
        s
    }
}

/// One delta entry applied to a side that holds at most `cap` levels.
///
/// A stored price is removed by quantity zero and updated by any other. A
/// new price with a positive quantity is inserted where its place lies
/// inside the window of `cap` levels, and the farthest level leaves where
/// the side would grow beyond it.
pub open spec fn apply_level(
    s: Seq<Level>,
    price: u64,
    qty: u64,
    cap: nat,
    descending: bool,
) -> Seq<Level> {
    let i = rank(s, price, descending);
    if holds_price(s, price, descending) {
        if qty == 0 {
            s.remove(i)
        } else {
            s.update(i, Level { price, qty })
        }
    } else if qty > 0 && i < cap {
        truncated(s.insert(i, Level { price, qty }), cap)
    } else {
        s
    }
}

/// The entries of `delta` applied to `s` one after the other.
pub open spec fn apply_levels(
    s: Seq<Level>,
    delta: Seq<(u64, u64)>,
    cap: nat,
    descending: bool,
) -> Seq<Level>
    decreases delta.len(),
{
    if delta.len() == 0 {
        s
    } else {
        apply_level(
            apply_levels(s, delta.drop_last(), cap, descending),
            delta.last().0,
            delta.last().1,
            cap,
            descending,
        )
    }
}

/// Whether some entry of `delta` changed the side when it was applied.
pub open spec fn levels_changed(
    s: Seq<Level>,
    delta: Seq<(u64, u64)>,
    cap: nat,
    descending: bool,
) -> bool
    decreases delta.len(),
{
    if delta.len() == 0 {
        false
    } else {
        let before = apply_levels(s, delta.drop_last(), cap, descending);
        levels_changed(s, delta.drop_last(), cap, descending) || apply_level(
            before,
            delta.last().0,
            delta.last().1,
            cap,
            descending,
        ) != before
    }
}

/// The entries of a snapshot with a positive quantity, in price order. Where
/// a price occurs more than once, its last entry counts.
pub open spec fn sort_levels(input: Seq<(u64, u64)>, descending: bool) -> Seq<Level>
    decreases input.len(),
{
    if input.len() == 0 {
        Seq::empty()
    } else {
        let rest = sort_levels(input.drop_last(), descending);
        if input.last().1 > 0 {
            upsert(rest, input.last().0, input.last().1, descending)
        } else {
            rest
        }
    }
}

/// The side that a snapshot gives: its positive entries, sorted, cut down to
/// `cap` levels.
pub open spec fn snapshot_side(input: Seq<(u64, u64)>, cap: nat, descending: bool) -> Seq<Level> {
    truncated(sort_levels(input, descending), cap)
}

/// Whether `l` is an entry of the snapshot with a positive quantity.
pub open spec fn is_entry(input: Seq<(u64, u64)>, l: Level) -> bool {
    exists|j: int|
        0 <= j < input.len() && l.qty > 0 && (#[trigger] input[j]).0 == l.price && input[j].1
            == l.qty
}

/// Whether no later entry with a positive quantity has the price of entry
/// `j`.
pub open spec fn last_at_price(input: Seq<(u64, u64)>, j: int) -> bool {
    forall|k: int|
        j < k < input.len() && (#[trigger] input[k]).1 > 0 ==> input[k].0 != input[j].0
}

/// The mathematical content of an order book.
pub struct BookModel {
    pub symbol: Seq<char>,
    pub exchange: Seq<char>,
    pub bids: Seq<Level>,
    pub asks: Seq<Level>,
    pub last_update_id: u64,
    pub initialized: bool,
    pub max_depth: nat,
}

/// The book after a snapshot: both sides replaced, the update id set to the
/// snapshot's whatever it was before, the book marked initialized.
pub open spec fn snapshot_model(
    m: BookModel,
    bids: Seq<(u64, u64)>,
    asks: Seq<(u64, u64)>,
    last_update_id: u64,
) -> BookModel {
    BookModel {
        bids: snapshot_side(bids, m.max_depth, true),
        asks: snapshot_side(asks, m.max_depth, false),
        last_update_id,
        initialized: true,
        ..m
    }
}

/// The book after a delta: each side with its entries applied, the update
/// id set to the delta's.
pub open spec fn delta_model(
    m: BookModel,
    bids: Seq<(u64, u64)>,
    asks: Seq<(u64, u64)>,
    final_update_id: u64,
) -> BookModel {
    BookModel {
        bids: apply_levels(m.bids, bids, m.max_depth, true),
        asks: apply_levels(m.asks, asks, m.max_depth, false),
        last_update_id: final_update_id,
        ..m
    }
}

/// Whether a delta changes a level on either side.
pub open spec fn delta_changes(m: BookModel, bids: Seq<(u64, u64)>, asks: Seq<(u64, u64)>) -> bool {
    levels_changed(m.bids, bids, m.max_depth, true) || levels_changed(
        m.asks,
        asks,
        m.max_depth,
        false,
    )
}

/// Whether a book is crossed: both sides hold a level and the best bid is
/// at or above the best ask.
pub open spec fn model_crossed(m: BookModel) -> bool {
    m.bids.len() > 0 && m.asks.len() > 0 && m.bids[0].price >= m.asks[0].price
}

/// The first `n` levels of a side in their external form.
pub open spec fn top_levels(s: Seq<Level>, n: nat) -> Seq<PriceLevel> {
    Seq::new(
        if s.len() < n {
            s.len()
        } else {
            n
        },
        |i: int|
            PriceLevel {
                price: DecimalValue::of_scaled(s[i].price),
                quantity: DecimalValue::of_scaled(s[i].qty),
            },
    )
}

/// The quotient from which the spread in percent is taken: `200 (ask - bid)`
/// over `ask + bid`, both with eight digits behind the point.
pub open spec fn percent_quotient(bid: u64, ask: u64) -> Option<(i128, u32)> {
    decimal_quotient(200 * (ask - bid), 8, ask + bid, 8)
}

/// Spread and spread in percent of the mid price, for the best bid and ask
/// and the quotient computed for them. Where both prices are zero, or no
/// quotient was computed, the percentage is zero.
pub open spec fn spread_value(bid: u64, ask: u64, quotient: Option<(i128, u32)>) -> (
    DecimalValue,
    DecimalValue,
) {
    (
        DecimalValue { mantissa: (ask - bid) as i128, scale: 8 },
        if bid + ask > 0 {
            match quotient {
                Some((mantissa, scale)) => DecimalValue { mantissa, scale },
                None => DecimalValue::zero(),
            }
        } else {
            DecimalValue::zero()
        },
    )
}

/// The spread and the spread in percent of a book, zero where a side is
/// empty.
pub open spec fn book_spread(m: BookModel) -> (DecimalValue, DecimalValue) {
    if m.bids.len() > 0 && m.asks.len() > 0 {
        spread_value(
            m.bids[0].price,
            m.asks[0].price,
            percent_quotient(m.bids[0].price, m.asks[0].price),
        )
    } else {
        (DecimalValue::zero(), DecimalValue::zero())
    }
}

/// The book update that is sent to subscribers for a book.
pub open spec fn client_update(m: BookModel, levels: nat) -> ClientMessageView {
    ClientMessageView::BookUpdate {
        exchange: m.exchange,
        symbol: m.symbol,
        bids: top_levels(m.bids, levels),
        asks: top_levels(m.asks, levels),
        spread: book_spread(m).0,
        spread_percent: book_spread(m).1,
    }
}

/// The rank lies inside the side or at its end; every level before it
/// precedes the price, and the level at it does not.
pub proof fn lemma_rank(s: Seq<Level>, price: u64, descending: bool)
    ensures
        0 <= rank(s, price, descending) <= s.len(),
        forall|i: int|
            0 <= i < rank(s, price, descending) ==> precedes(
                (#[trigger] s[i]).price,
                price,
                descending,
            ),
        rank(s, price, descending) < s.len() ==> !precedes(
            s[rank(s, price, descending)].price,
            price,
            descending,
        ),
    decreases s.len(),
{
    if s.len() > 0 && precedes(s[0].price, price, descending) {
        let t = s.drop_first();
        lemma_rank(t, price, descending);
        assert forall|i: int| 0 <= i < rank(s, price, descending) implies precedes(
            (#[trigger] s[i]).price,
            price,
            descending,
        ) by {
            if i > 0 {
                assert(s[i] == t[i - 1]);
            }
        }
    }
}

/// The rank is the one index with only preceding prices before it and none
/// at it.
pub proof fn lemma_rank_is(s: Seq<Level>, price: u64, descending: bool, idx: int)
    requires
        0 <= idx <= s.len(),
        forall|i: int| 0 <= i < idx ==> precedes((#[trigger] s[i]).price, price, descending),
        idx < s.len() ==> !precedes(s[idx].price, price, descending),
    ensures
        rank(s, price, descending) == idx,
{
    lemma_rank(s, price, descending);
    let r = rank(s, price, descending);
    if r < idx {
        assert(precedes(s[r].price, price, descending));
    } else if idx < r {
        assert(precedes(s[idx].price, price, descending));
    }
}

/// `upsert` keeps a side sorted and positive, and stores the level.
pub proof fn lemma_upsert(s: Seq<Level>, price: u64, qty: u64, descending: bool)
    requires
        side_sorted(s, descending),
        side_positive(s),
        qty > 0,
    ensures
        side_sorted(upsert(s, price, qty, descending), descending),
        side_positive(upsert(s, price, qty, descending)),
        upsert(s, price, qty, descending).len() <= s.len() + 1,
        rank(upsert(s, price, qty, descending), price, descending) == rank(s, price, descending),
        upsert(s, price, qty, descending)[rank(s, price, descending)] == (Level { price, qty }),
{
    lemma_rank(s, price, descending);
    let i = rank(s, price, descending);
    let t = upsert(s, price, qty, descending);
    if holds_price(s, price, descending) {
        assert forall|a: int, b: int| 0 <= a < b < t.len() implies precedes(
            t[a].price,
            t[b].price,
            descending,
        ) by {
            assert(t[a].price == s[a].price);
            assert(t[b].price == s[b].price);
        }
        assert forall|a: int| 0 <= a < t.len() implies (#[trigger] t[a]).qty > 0 by {
            if a != i {
                assert(t[a] == s[a]);
            }
        }
    } else {
        assert forall|a: int, b: int| 0 <= a < b < t.len() implies precedes(
            t[a].price,
            t[b].price,
            descending,
        ) by {
            if b < i {
                assert(t[a] == s[a] && t[b] == s[b]);
            } else if b == i {
                assert(t[a] == s[a]);
            } else if a < i {
                assert(t[a] == s[a] && t[b] == s[b - 1]);
            } else if a == i {
                assert(t[b] == s[b - 1]);
                if i < b - 1 {
                    assert(precedes(s[i].price, s[b - 1].price, descending));
                }
            } else {
                assert(t[a] == s[a - 1] && t[b] == s[b - 1]);
            }
        }
        assert forall|a: int| 0 <= a < t.len() implies (#[trigger] t[a]).qty > 0 by {
            if a < i {
                assert(t[a] == s[a]);
            } else if a > i {
                assert(t[a] == s[a - 1]);
            }
        }
    }
    assert forall|a: int| 0 <= a < i implies precedes((#[trigger] t[a]).price, price, descending) by {
        assert(t[a] == s[a]);
    }
    lemma_rank_is(t, price, descending, i);
}

/// Cutting a well-formed side down keeps it well-formed.
pub proof fn lemma_truncated(s: Seq<Level>, cap: nat, descending: bool)
    requires
        side_sorted(s, descending),
        side_positive(s),
    ensures
        side_wf(truncated(s, cap), cap, descending),
{
    let t = truncated(s, cap);
    assert forall|a: int, b: int| 0 <= a < b < t.len() implies precedes(
        t[a].price,
        t[b].price,
        descending,
    ) by {
        assert(t[a] == s[a] && t[b] == s[b]);
    }
    assert forall|a: int| 0 <= a < t.len() implies (#[trigger] t[a]).qty > 0 by {
        assert(t[a] == s[a]);
    }
}

/// One delta entry keeps a side sorted, free of zero quantities and inside
/// its window.
pub proof fn lemma_apply_level(s: Seq<Level>, price: u64, qty: u64, cap: nat, descending: bool)
    requires
        side_wf(s, cap, descending),
    ensures
        side_wf(apply_level(s, price, qty, cap, descending), cap, descending),
{
    lemma_rank(s, price, descending);
    let i = rank(s, price, descending);
    let t = apply_level(s, price, qty, cap, descending);
    if holds_price(s, price, descending) {
        if qty == 0 {
            assert forall|a: int, b: int| 0 <= a < b < t.len() implies precedes(
                t[a].price,
                t[b].price,
                descending,
            ) by {
                let a0 = if a < i { a } else { a + 1 };
                let b0 = if b < i { b } else { b + 1 };
                assert(t[a] == s[a0] && t[b] == s[b0]);
            }
            assert forall|a: int| 0 <= a < t.len() implies (#[trigger] t[a]).qty > 0 by {
                let a0 = if a < i { a } else { a + 1 };
                assert(t[a] == s[a0]);
            }
        } else {
            lemma_upsert(s, price, qty, descending);
        }
    } else if qty > 0 && i < cap {
        lemma_upsert(s, price, qty, descending);
        lemma_truncated(upsert(s, price, qty, descending), cap, descending);
    }
}

/// A delta keeps a side well-formed.
pub proof fn lemma_apply_levels(s: Seq<Level>, delta: Seq<(u64, u64)>, cap: nat, descending: bool)
    requires
        side_wf(s, cap, descending),
    ensures
        side_wf(apply_levels(s, delta, cap, descending), cap, descending),
    decreases delta.len(),
{
    if delta.len() > 0 {
        lemma_apply_levels(s, delta.drop_last(), cap, descending);
        lemma_apply_level(
            apply_levels(s, delta.drop_last(), cap, descending),
            delta.last().0,
            delta.last().1,
            cap,
            descending,
        );
    }
}

/// The sorted entries of a snapshot are strictly monotone and positive, and
/// no more than the snapshot has entries.
pub proof fn lemma_sort_levels(input: Seq<(u64, u64)>, descending: bool)
    ensures
        side_sorted(sort_levels(input, descending), descending),
        side_positive(sort_levels(input, descending)),
        sort_levels(input, descending).len() <= input.len(),
    decreases input.len(),
{
    if input.len() > 0 {
        lemma_sort_levels(input.drop_last(), descending);
        if input.last().1 > 0 {
            lemma_upsert(
                sort_levels(input.drop_last(), descending),
                input.last().0,
                input.last().1,
                descending,
            );
        }
    }
}


/// What `upsert` stores: the level itself, and the levels of other prices
/// that were there.
pub proof fn lemma_upsert_content(s: Seq<Level>, price: u64, qty: u64, descending: bool)
    requires
        side_sorted(s, descending),
        side_positive(s),
        qty > 0,
    ensures
        upsert(s, price, qty, descending).contains(Level { price, qty }),
        forall|l: Level|
            #[trigger] upsert(s, price, qty, descending).contains(l) ==> l == (Level { price, qty })
                || (s.contains(l) && l.price != price),
        forall|l: Level|
            #[trigger] s.contains(l) && l.price != price ==> upsert(
                s,
                price,
                qty,
                descending,
            ).contains(l),
{
    lemma_rank(s, price, descending);
    lemma_upsert(s, price, qty, descending);
    let i = rank(s, price, descending);
    let t = upsert(s, price, qty, descending);
    let new = Level { price, qty };
    assert(t[i] == new);
    assert forall|l: Level| #[trigger] t.contains(l) implies l == new || (s.contains(l) && l.price
        != price) by {
        let k = choose|k: int| 0 <= k < t.len() && t[k] == l;
        if k != i {
            if holds_price(s, price, descending) {
                assert(t[k] == s[k]);
                if k < i {
                    assert(precedes(s[k].price, s[i].price, descending));
                } else {
                    assert(precedes(s[i].price, s[k].price, descending));
                }
            } else if k < i {
                assert(t[k] == s[k]);
                assert(precedes(s[k].price, price, descending));
            } else {
                assert(t[k] == s[k - 1]);
                if s[k - 1].price == price {
                    if k - 1 > i {
                        assert(precedes(s[i].price, s[k - 1].price, descending));
                    }
                }
            }
        }
    }
    assert forall|l: Level| #[trigger] s.contains(l) && l.price != price implies t.contains(l) by {
        let k = choose|k: int| 0 <= k < s.len() && s[k] == l;
        if holds_price(s, price, descending) {
            assert(t[k] == s[k]);
        } else if k < i {
            assert(t[k] == s[k]);
        } else {
            assert(t[k + 1] == s[k]);
        }
    }
}

/// The sorted side of a snapshot holds entries of the snapshot only, and
/// each entry with a positive quantity that no later one replaces.
pub proof fn lemma_sort_levels_content(input: Seq<(u64, u64)>, descending: bool)
    ensures
        forall|l: Level| #[trigger]
            sort_levels(input, descending).contains(l) ==> is_entry(input, l),
        forall|j: int|
            0 <= j < input.len() && (#[trigger] input[j]).1 > 0 && last_at_price(input, j)
                ==> sort_levels(input, descending).contains(
                Level { price: input[j].0, qty: input[j].1 },
            ),
    decreases input.len(),
{
    let sorted = sort_levels(input, descending);
    if input.len() > 0 {
        let head = input.drop_last();
        let rest = sort_levels(head, descending);
        let n = input.len() - 1;
        let (price, qty) = input.last();
        lemma_sort_levels_content(head, descending);
        lemma_sort_levels(head, descending);
        if qty > 0 {
            lemma_upsert_content(rest, price, qty, descending);
        }
        assert forall|l: Level| #[trigger] sorted.contains(l) implies is_entry(input, l) by {
            if qty > 0 && l == (Level { price, qty }) {
                assert(input[n].0 == l.price && input[n].1 == l.qty);
            } else {
                assert(rest.contains(l));
                assert(is_entry(head, l));
                let j = choose|j: int|
                    0 <= j < head.len() && l.qty > 0 && (#[trigger] head[j]).0 == l.price
                        && head[j].1 == l.qty;
                assert(input[j] == head[j]);
            }
        }
        assert forall|j: int|
            0 <= j < input.len() && (#[trigger] input[j]).1 > 0 && last_at_price(
                input,
                j,
            ) implies sorted.contains(Level { price: input[j].0, qty: input[j].1 }) by {
            let l = Level { price: input[j].0, qty: input[j].1 };
            if j < n {
                assert(head[j] == input[j]);
                assert(last_at_price(head, j)) by {
                    assert forall|k: int| j < k < head.len() && (#[trigger] head[k]).1
                        > 0 implies head[k].0 != head[j].0 by {
                        assert(head[k] == input[k]);
                    }
                }
                assert(rest.contains(l));
                if qty > 0 {
                    assert(input[n].1 > 0);
                    assert(input[n].0 != input[j].0);
                }
            }
        }
    }
}

/// Finds `price` on a sorted side by binary search: the index at which it
/// is stored or would be inserted, and whether it is stored.
pub fn find_level(side: &Vec<Level>, price: u64, descending: bool) -> (r: (usize, bool))
    requires
        side_sorted(side@, descending),
    ensures
        r.0 as int == rank(side@, price, descending),
        r.0 <= side.len(),
        r.1 == holds_price(side@, price, descending),
{
    let mut lo: usize = 0;
    let mut hi: usize = side.len();
    while lo < hi
        invariant
            0 <= lo <= hi <= side.len(),
            side_sorted(side@, descending),
            forall|i: int| 0 <= i < lo ==> precedes((#[trigger] side@[i]).price, price, descending),
            forall|i: int|
                hi <= i < side.len() ==> !precedes((#[trigger] side@[i]).price, price, descending),
        decreases hi - lo,
    {
        let mid = lo + (hi - lo) / 2;
        let p = side[mid].price;
        let before = if descending {
            p > price
        } else {
            p < price
        };
        if before {
            assert forall|i: int| 0 <= i < mid + 1 implies precedes(
                (#[trigger] side@[i]).price,
                price,
                descending,
            ) by {
                if i < mid {
                    assert(precedes(side@[i].price, side@[mid as int].price, descending));
                }
            }
            lo = mid + 1;
        } else {
            assert forall|i: int| mid <= i < side.len() implies !precedes(
                (#[trigger] side@[i]).price,
                price,
                descending,
            ) by {
                if mid < i {
                    assert(precedes(side@[mid as int].price, side@[i].price, descending));
                }
            }
            hi = mid;
        }
    }
    proof {
        lemma_rank_is(side@, price, descending, lo as int);
    }
    let found = lo < side.len() && side[lo].price == price;
    (lo, found)
}

/// Sets the level at `price` to `qty` on a sorted side.
pub fn upsert_level(side: &mut Vec<Level>, price: u64, qty: u64, descending: bool)
    requires
        side_sorted(old(side)@, descending),
        side_positive(old(side)@),
        qty > 0,
    ensures
        final(side)@ == upsert(old(side)@, price, qty, descending),
        side_sorted(final(side)@, descending),
        side_positive(final(side)@),
{
    proof {
        lemma_upsert(side@, price, qty, descending);
    }
    let (idx, found) = find_level(side, price, descending);
    if found {
        side.set(idx, Level { price, qty });
    } else {
        side.insert(idx, Level { price, qty });
    }
}

/// Applies one delta entry to a side that holds at most `cap` levels, and
/// says whether the side changed.
pub fn apply_level_to(
    side: &mut Vec<Level>,
    price: u64,
    qty: u64,
    cap: usize,
    descending: bool,
) -> (changed: bool)
    requires
        side_wf(old(side)@, cap as nat, descending),
    ensures
        final(side)@ == apply_level(old(side)@, price, qty, cap as nat, descending),
        changed == (final(side)@ != old(side)@),
        side_wf(final(side)@, cap as nat, descending),
{
    proof {
        lemma_apply_level(side@, price, qty, cap as nat, descending);
        lemma_rank(side@, price, descending);
    }
    let ghost before = side@;
    let (idx, found) = find_level(side, price, descending);
    if found {
        if qty == 0 {
            side.remove(idx);
            true
        } else if side[idx].qty != qty {
            side.set(idx, Level { price, qty });
            assert(side@[idx as int] != before[idx as int]);
            true
        } else {
            false
        }
    } else if qty > 0 && idx < cap {
        side.insert(idx, Level { price, qty });
        if side.len() > cap {
            side.pop();
            assert(side@ =~= truncated(before.insert(idx as int, Level { price, qty }), cap as nat));
            assert(side@[idx as int] != before[idx as int]);
        }
        true
    } else {
        false
    }
}


/// Applies the entries of `delta` to a side one after the other, and says
/// whether any of them changed it.
pub fn apply_side(side: &mut Vec<Level>, delta: &Vec<(u64, u64)>, cap: usize, descending: bool) -> (changed:
    bool)
    requires
        side_wf(old(side)@, cap as nat, descending),
    ensures
        final(side)@ == apply_levels(old(side)@, delta@, cap as nat, descending),
        changed == levels_changed(old(side)@, delta@, cap as nat, descending),
        side_wf(final(side)@, cap as nat, descending),
{
    let ghost start = side@;
    let mut changed = false;
    let mut i: usize = 0;
    while i < delta.len()
        invariant
            0 <= i <= delta.len(),
            side_wf(side@, cap as nat, descending),
            side@ == apply_levels(start, delta@.take(i as int), cap as nat, descending),
            changed == levels_changed(start, delta@.take(i as int), cap as nat, descending),
        decreases delta.len() - i,
    {
        proof {
            assert(delta@.take(i as int + 1).drop_last() == delta@.take(i as int));
        }
        let (price, qty) = delta[i];
        let step = apply_level_to(side, price, qty, cap, descending);
        changed = changed || step;
        i += 1;
    }
    proof {
        assert(delta@.take(delta.len() as int) == delta@);
    }
    changed
}

/// Fills an empty side from the entries of a snapshot that have a positive
/// quantity, in price order.
pub fn sort_side(input: &Vec<(u64, u64)>, descending: bool) -> (side: Vec<Level>)
    ensures
        side@ == sort_levels(input@, descending),
        side_sorted(side@, descending),
        side_positive(side@),
{
    let mut side: Vec<Level> = Vec::new();
    let mut i: usize = 0;
    while i < input.len()
        invariant
            0 <= i <= input.len(),
            side@ == sort_levels(input@.take(i as int), descending),
            side_sorted(side@, descending),
            side_positive(side@),
        decreases input.len() - i,
    {
        proof {
            assert(input@.take(i as int + 1).drop_last() == input@.take(i as int));
        }
        let (price, qty) = input[i];
        if qty > 0 {
            upsert_level(&mut side, price, qty, descending);
        }
        i += 1;
    }
    proof {
        assert(input@.take(input.len() as int) == input@);
    }
    side
}

/// A copy of the levels of a side.
pub fn copy_levels(side: &Vec<Level>) -> (r: Vec<Level>)
    ensures
        r@ == side@,
{
    let mut out: Vec<Level> = Vec::new();
    let mut i: usize = 0;
    while i < side.len()
        invariant
            i <= side.len(),
            out@ == side@.take(i as int),
        decreases side.len() - i,
    {
        out.push(side[i]);
        proof {
            assert(side@.take(i as int + 1) == side@.take(i as int).push(side@[i as int]));
        }
        i += 1;
    }
    proof {
        assert(side@.take(side.len() as int) == side@);
    }
    out
}

/// The first `n` levels of a side in their external form.
pub fn external_levels(side: &Vec<Level>, n: usize) -> (r: Vec<PriceLevel>)
    ensures
        r@ == top_levels(side@, n as nat),
{
    let count = if side.len() < n {
        side.len()
    } else {
        n
    };
    let mut out: Vec<PriceLevel> = Vec::new();
    let mut i: usize = 0;
    while i < count
        invariant
            0 <= i <= count <= side.len(),
            count == top_levels(side@, n as nat).len(),
            out@ == top_levels(side@, n as nat).take(i as int),
        decreases count - i,
    {
        out.push(
            PriceLevel {
                price: DecimalValue::from_scaled(side[i].price),
                quantity: DecimalValue::from_scaled(side[i].qty),
            },
        );
        proof {
            assert(out@ =~= top_levels(side@, n as nat).take(i as int + 1));
        }
        i += 1;
    }
    proof {
        assert(top_levels(side@, n as nat).take(count as int) == top_levels(side@, n as nat));
    }
    out
}

/// Spread and spread in percent from the best prices and a computed
/// quotient.
pub fn spread_from_quotient(bid: u64, ask: u64, quotient: Option<(i128, u32)>) -> (r: (
    DecimalValue,
    DecimalValue,
))
    ensures
        r == spread_value(bid, ask, quotient),
{
    let spread = DecimalValue { mantissa: ask as i128 - bid as i128, scale: 8 };
    let percent = if bid > 0 || ask > 0 {
        match quotient {
            Some((mantissa, scale)) => DecimalValue { mantissa, scale },
            None => DecimalValue { mantissa: 0, scale: 0 },
        }
    } else {
        DecimalValue { mantissa: 0, scale: 0 }
    };
    (spread, percent)
}

/// A depth-limited order book of one symbol on one venue.
#[derive(Debug, Clone)]
pub struct OrderBook {
    symbol: String,
    exchange: String,
    bids: Vec<Level>,
    asks: Vec<Level>,
    last_update_id: u64,
    initialized: bool,
    max_depth: usize,
}

impl View for OrderBook {
    type V = BookModel;

    closed spec fn view(&self) -> BookModel {
        BookModel {
            symbol: self.symbol@,
            exchange: self.exchange@,
            bids: self.bids@,
            asks: self.asks@,
            last_update_id: self.last_update_id,
            initialized: self.initialized,
            max_depth: self.max_depth as nat,
        }
    }
}

impl OrderBook {
    /// The invariant of a book: bids strictly decreasing and asks strictly
    /// increasing in price, no quantity zero, no side longer than the depth.
    pub open spec fn wf(&self) -> bool {
        &&& side_wf(self@.bids, self@.max_depth, true)
        &&& side_wf(self@.asks, self@.max_depth, false)
    }

    /// An empty, uninitialized book of the default depth.
    pub fn new(symbol: &str, exchange: &str) -> (book: Self)
        ensures
            book.wf(),
            book@ == (BookModel {
                symbol: symbol@,
                exchange: exchange@,
                bids: Seq::empty(),
                asks: Seq::empty(),
                last_update_id: 0,
                initialized: false,
                max_depth: ORDERBOOK_DEPTH as nat,
            }),
    {
        Self::with_depth(symbol, exchange, ORDERBOOK_DEPTH)
    }

    /// An empty, uninitialized book that keeps `max_depth` levels a side.
    pub fn with_depth(symbol: &str, exchange: &str, max_depth: usize) -> (book: Self)
        ensures
            book.wf(),
            book@ == (BookModel {
                symbol: symbol@,
                exchange: exchange@,
                bids: Seq::empty(),
                asks: Seq::empty(),
                last_update_id: 0,
                initialized: false,
                max_depth: max_depth as nat,
            }),
    {
        OrderBook {
            symbol: symbol.to_owned(),
            exchange: exchange.to_owned(),
            bids: Vec::new(),
            asks: Vec::new(),
            last_update_id: 0,
            initialized: false,
            max_depth,
        }
    }

    /// Replaces the book by a snapshot: the entries with a positive
    /// quantity, sorted and cut down to the depth.
    pub fn initialize_from_snapshot(
        &mut self,
        bids: Vec<(u64, u64)>,
        asks: Vec<(u64, u64)>,
        last_update_id: u64,
    )
        ensures
            final(self).wf(),
            final(self)@ == snapshot_model(old(self)@, bids@, asks@, last_update_id),
    {
        self.bids = sort_side(&bids, true);
        self.asks = sort_side(&asks, false);
        self.truncate_books();
        self.last_update_id = last_update_id;
        self.initialized = true;
    }

    /// Applies a delta to both sides and says whether any level changed.
    /// The update id becomes `final_update_id`, so it does not fall where
    /// the venue's ids do not.
    pub fn apply_update(
        &mut self,
        bids: Vec<(u64, u64)>,
        asks: Vec<(u64, u64)>,
        _first_update_id: u64,
        final_update_id: u64,
    ) -> (changed: bool)
        requires
            old(self).wf(),
        ensures
            final(self).wf(),
            final(self)@ == delta_model(old(self)@, bids@, asks@, final_update_id),
            changed == delta_changes(old(self)@, bids@, asks@),
            final_update_id >= old(self)@.last_update_id ==> final(self)@.last_update_id >= old(
                self,
            )@.last_update_id,
    {
        let bids_changed = apply_side(&mut self.bids, &bids, self.max_depth, true);
        let asks_changed = apply_side(&mut self.asks, &asks, self.max_depth, false);
        self.last_update_id = final_update_id;
        bids_changed || asks_changed
    }

    /// Cuts both sides down to the depth.
    pub fn truncate_books(&mut self)
        requires
            side_sorted(old(self)@.bids, true),
            side_positive(old(self)@.bids),
            side_sorted(old(self)@.asks, false),
            side_positive(old(self)@.asks),
        ensures
            final(self).wf(),
            final(self)@ == (BookModel {
                bids: truncated(old(self)@.bids, old(self)@.max_depth),
                asks: truncated(old(self)@.asks, old(self)@.max_depth),
                ..old(self)@
            }),
    {
        proof {
            lemma_truncated(self.bids@, self.max_depth as nat, true);
            lemma_truncated(self.asks@, self.max_depth as nat, false);
        }
        if self.bids.len() > self.max_depth {
            self.bids.truncate(self.max_depth);
        }
        if self.asks.len() > self.max_depth {
            self.asks.truncate(self.max_depth);
        }
    }

    /// The highest bid price, where there is a bid.
    pub fn best_bid(&self) -> (r: Option<DecimalValue>)
        ensures
            r == if self@.bids.len() > 0 {
                Some(DecimalValue::of_scaled(self@.bids[0].price))
            } else {
                None
            },
    {
        if self.bids.len() > 0 {
            Some(DecimalValue::from_scaled(self.bids[0].price))
        } else {
            None
        }
    }

    /// The lowest ask price, where there is an ask.
    pub fn best_ask(&self) -> (r: Option<DecimalValue>)
        ensures
            r == if self@.asks.len() > 0 {
                Some(DecimalValue::of_scaled(self@.asks[0].price))
            } else {
                None
            },
    {
        if self.asks.len() > 0 {
            Some(DecimalValue::from_scaled(self.asks[0].price))
        } else {
            None
        }
    }

    /// Whether the best bid is at or above the best ask.
    pub fn is_crossed(&self) -> (r: bool)
        ensures
            r == model_crossed(self@),
    {
        self.bids.len() > 0 && self.asks.len() > 0 && self.bids[0].price >= self.asks[0].price
    }

    /// The first `n` levels of each side in their external form.
    pub fn get_top_levels(&self, n: usize) -> (r: (Vec<PriceLevel>, Vec<PriceLevel>))
        ensures
            r.0@ == top_levels(self@.bids, n as nat),
            r.1@ == top_levels(self@.asks, n as nat),
    {
        (external_levels(&self.bids, n), external_levels(&self.asks, n))
    }

    /// Spread and spread in percent of the mid price, where both sides
    /// hold a level.
    pub fn spread(&self) -> (r: Option<(DecimalValue, DecimalValue)>)
        ensures
            r == if self@.bids.len() > 0 && self@.asks.len() > 0 {
                Some(
                    spread_value(
                        self@.bids[0].price,
                        self@.asks[0].price,
                        percent_quotient(self@.bids[0].price, self@.asks[0].price),
                    ),
                )
            } else {
                None
            },
    {
        if self.bids.len() > 0 && self.asks.len() > 0 {
            let bid = self.bids[0].price;
            let ask = self.asks[0].price;
            let quotient = if bid > 0 || ask > 0 {
                decimal_div(200 * (ask as i128 - bid as i128), 8, ask as i128 + bid as i128, 8)
            } else {
                None
            };
            Some(spread_from_quotient(bid, ask, quotient))
        } else {
            None
        }
    }

    /// The book update that is sent to subscribers: the first `levels`
    /// levels of each side and the spread, zero where there is none.
    pub fn to_client_message(&self, levels: usize) -> (r: ClientMessage)
        ensures
            r@ == client_update(self@, levels as nat),
    {
        let (bids, asks) = self.get_top_levels(levels);
        let (spread, spread_percent) = match self.spread() {
            Some(pair) => pair,
            None => (DecimalValue { mantissa: 0, scale: 0 }, DecimalValue { mantissa: 0, scale: 0 }),
        };
        ClientMessage::BookUpdate {
            exchange: self.exchange.clone(),
            symbol: self.symbol.clone(),
            bids,
            asks,
            spread,
            spread_percent,
        }
    }

    /// A copy of the book.
    pub fn clone_book(&self) -> (r: Self)
        ensures
            r@ == self@,
    {
        OrderBook {
            symbol: self.symbol.clone(),
            exchange: self.exchange.clone(),
            bids: copy_levels(&self.bids),
            asks: copy_levels(&self.asks),
            last_update_id: self.last_update_id,
            initialized: self.initialized,
            max_depth: self.max_depth,
        }
    }

    /// Whether a snapshot has been applied.
    pub fn is_initialized(&self) -> (r: bool)
        ensures
            r == self@.initialized,
    {
        self.initialized
    }

    /// The update id of the last snapshot or delta that was applied.
    pub fn last_update_id(&self) -> (r: u64)
        ensures
            r == self@.last_update_id,
    {
        self.last_update_id
    }

    /// The symbol of the book.
    pub fn symbol(&self) -> (r: &str)
        ensures
            r@ == self@.symbol,
    {
        self.symbol.as_str()
    }

    /// The name of the book's venue.
    pub fn exchange(&self) -> (r: &str)
        ensures
            r@ == self@.exchange,
    {
        self.exchange.as_str()
    }

    /// The number of levels that the book keeps on each side.
    pub fn max_depth(&self) -> (r: usize)
        ensures
            r as nat == self@.max_depth,
    {
        self.max_depth
    }

    /// The number of levels stored on the bid side and on the ask side.
    pub fn depth(&self) -> (r: (usize, usize))
        ensures
            r.0 == self@.bids.len(),
            r.1 == self@.asks.len(),
    {
        (self.bids.len(), self.asks.len())
    }
}

/// Every book that the operations produce has both sides strictly monotone
/// in price and no longer than its depth, and stores no quantity zero.
pub proof fn lemma_book_invariant(book: OrderBook)
    requires
        book.wf(),
    ensures
        forall|i: int, j: int|
            0 <= i < j < book@.bids.len() ==> book@.bids[i].price > book@.bids[j].price,
        forall|i: int, j: int|
            0 <= i < j < book@.asks.len() ==> book@.asks[i].price < book@.asks[j].price,
        book@.bids.len() <= book@.max_depth,
        book@.asks.len() <= book@.max_depth,
        forall|i: int| 0 <= i < book@.bids.len() ==> (#[trigger] book@.bids[i]).qty != 0,
        forall|i: int| 0 <= i < book@.asks.len() ==> (#[trigger] book@.asks[i]).qty != 0,
{
    assert forall|i: int, j: int| 0 <= i < j < book@.bids.len() implies book@.bids[i].price
        > book@.bids[j].price by {
        assert(precedes(book@.bids[i].price, book@.bids[j].price, true));
    }
    assert forall|i: int, j: int| 0 <= i < j < book@.asks.len() implies book@.asks[i].price
        < book@.asks[j].price by {
        assert(precedes(book@.asks[i].price, book@.asks[j].price, false));
    }
}

/// An accepted delta whose id is not below the book's leaves the book's id
/// no lower than it was.
pub proof fn lemma_delta_update_id(
    m: BookModel,
    bids: Seq<(u64, u64)>,
    asks: Seq<(u64, u64)>,
    final_update_id: u64,
)
    requires
        final_update_id >= m.last_update_id,
    ensures
        delta_model(m, bids, asks, final_update_id).last_update_id >= m.last_update_id,
{
}

/// After a snapshot each side is strictly monotone, holds only entries of
/// the snapshot with a positive quantity, and is the head of their sorted
/// sequence: every such entry that no later one replaces is stored, or lies
/// behind the depth.
pub proof fn lemma_snapshot_sides(
    m: BookModel,
    bids: Seq<(u64, u64)>,
    asks: Seq<(u64, u64)>,
    last_update_id: u64,
)
    ensures
        side_wf(snapshot_model(m, bids, asks, last_update_id).bids, m.max_depth, true),
        side_wf(snapshot_model(m, bids, asks, last_update_id).asks, m.max_depth, false),
        snapshot_model(m, bids, asks, last_update_id).bids == truncated(
            sort_levels(bids, true),
            m.max_depth,
        ),
        snapshot_model(m, bids, asks, last_update_id).asks == truncated(
            sort_levels(asks, false),
            m.max_depth,
        ),
        forall|l: Level| #[trigger] sort_levels(bids, true).contains(l) ==> is_entry(bids, l),
        forall|l: Level| #[trigger] sort_levels(asks, false).contains(l) ==> is_entry(asks, l),
        forall|j: int|
            0 <= j < bids.len() && (#[trigger] bids[j]).1 > 0 && last_at_price(bids, j)
                ==> sort_levels(bids, true).contains(Level { price: bids[j].0, qty: bids[j].1 }),
        forall|j: int|
            0 <= j < asks.len() && (#[trigger] asks[j]).1 > 0 && last_at_price(asks, j)
                ==> sort_levels(asks, false).contains(Level { price: asks[j].0, qty: asks[j].1 }),
        snapshot_model(m, bids, asks, last_update_id).last_update_id == last_update_id,
        snapshot_model(m, bids, asks, last_update_id).initialized,
{
    lemma_sort_levels(bids, true);
    lemma_sort_levels(asks, false);
    lemma_truncated(sort_levels(bids, true), m.max_depth, true);
    lemma_truncated(sort_levels(asks, false), m.max_depth, false);
    lemma_sort_levels_content(bids, true);
    lemma_sort_levels_content(asks, false);
}

/// A snapshot applied a second time leaves the book as the first left it.
pub proof fn lemma_snapshot_idempotent(
    m: BookModel,
    bids: Seq<(u64, u64)>,
    asks: Seq<(u64, u64)>,
    last_update_id: u64,
)
    ensures
        snapshot_model(snapshot_model(m, bids, asks, last_update_id), bids, asks, last_update_id)
            == snapshot_model(m, bids, asks, last_update_id),
{
}

/// A delta without entries changes no level and leaves everything but the
/// update id as it was; with the book's own id it leaves the book as it was.
pub proof fn lemma_empty_delta(m: BookModel, final_update_id: u64)
    ensures
        !delta_changes(m, Seq::empty(), Seq::empty()),
        delta_model(m, Seq::empty(), Seq::empty(), final_update_id) == (BookModel {
            last_update_id: final_update_id,
            ..m
        }),
        final_update_id == m.last_update_id ==> delta_model(
            m,
            Seq::empty(),
            Seq::empty(),
            final_update_id,
        ) == m,
{
}

} // verus!

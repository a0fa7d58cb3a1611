use vstd::prelude::*;

use crate::card::Card;
use crate::db::DBManager;
use crate::db::{
    card_at, compact_fits, compact_pos, compacted, ids_unique, moved, moved_pos, same_but_pos,
    shift_fits, shifted_pos, with_pos,
};

verus! {

/// Number of cards of deck `deck_id`.
pub open spec fn deck_size(cards: Seq<Card>, deck_id: u64) -> nat
    decreases cards.len(),
{
    if cards.len() == 0 {
        0
    } else {
        deck_size(cards.drop_last(), deck_id) + if cards.last().deck_id == deck_id {
            1nat
        } else {
            0nat
        }
    }
}

/// Every card of deck `deck_id` sits in `1..=N`, where N is the number of
/// cards of the deck, and no two of them share a position: the positions held
/// are exactly `1..=N`, each by one card.
pub open spec fn dense(cards: Seq<Card>, deck_id: u64) -> bool {
    &&& forall|i: int|
        0 <= i < cards.len() && #[trigger] cards[i].deck_id == deck_id ==> 1 <= cards[i].deck_pos
            <= deck_size(cards, deck_id)
    &&& positions_distinct(cards, deck_id)
}

/// The positions held by the cards of deck `deck_id`.
pub open spec fn deck_positions(cards: Seq<Card>, deck_id: u64) -> Set<int> {
    Set::new(
        |p: int|
            exists|i: int|
                0 <= i < cards.len() && #[trigger] cards[i].deck_id == deck_id && cards[i].deck_pos
                    == p,
    )
}

/// No two cards of deck `deck_id` share a position.
pub open spec fn positions_distinct(cards: Seq<Card>, deck_id: u64) -> bool {
    forall|i: int, j: int|
        0 <= i < cards.len() && 0 <= j < cards.len() && i != j && #[trigger] cards[i].deck_id
            == deck_id && #[trigger] cards[j].deck_id == deck_id ==> cards[i].deck_pos
            != cards[j].deck_pos
}

/// Where positions are distinct, a deck of N cards holds N positions.
proof fn lemma_positions_len(cards: Seq<Card>, deck_id: u64)
    requires
        positions_distinct(cards, deck_id),
    ensures
        deck_positions(cards, deck_id).finite(),
        deck_positions(cards, deck_id).len() == deck_size(cards, deck_id),
    decreases cards.len(),
{
    let ps = deck_positions(cards, deck_id);
    if cards.len() == 0 {
        assert(ps =~= Set::<int>::empty());
    } else {
        let s0 = cards.drop_last();
        let x = cards.last();
        let last = cards.len() - 1;
        assert forall|i: int| 0 <= i < s0.len() implies #[trigger] s0[i] == cards[i] by {
        }
        assert(positions_distinct(s0, deck_id)) by {
            assert forall|i: int, j: int|
                0 <= i < s0.len() && 0 <= j < s0.len() && i != j && #[trigger] s0[i].deck_id
                    == deck_id && #[trigger] s0[j].deck_id == deck_id implies s0[i].deck_pos
                != s0[j].deck_pos by {
                assert(s0[i] == cards[i]);
                assert(s0[j] == cards[j]);
            }
        }
        lemma_positions_len(s0, deck_id);
        let p0 = deck_positions(s0, deck_id);
        if x.deck_id == deck_id {
            assert(!p0.contains(x.deck_pos as int)) by {
                if p0.contains(x.deck_pos as int) {
                    let i = choose|i: int|
                        0 <= i < s0.len() && #[trigger] s0[i].deck_id == deck_id && s0[i].deck_pos
                            == x.deck_pos as int;
                    assert(cards[i].deck_id == deck_id);
                    assert(cards[last].deck_id == deck_id);
                }
            }
            assert forall|p: int| ps.contains(p) <==> #[trigger] p0.insert(x.deck_pos as int).contains(p) by {
                if ps.contains(p) {
                    let i = choose|i: int|
                        0 <= i < cards.len() && #[trigger] cards[i].deck_id == deck_id
                            && cards[i].deck_pos == p;
                    if i < last {
                        assert(s0[i].deck_id == deck_id);
                    }
                }
                if p0.contains(p) {
                    let i = choose|i: int|
                        0 <= i < s0.len() && #[trigger] s0[i].deck_id == deck_id && s0[i].deck_pos == p;
                    assert(cards[i].deck_id == deck_id);
                }
                if p == x.deck_pos as int {
                    assert(cards[last].deck_id == deck_id);
                }
            }
            assert(ps =~= p0.insert(x.deck_pos as int));
        } else {
            assert forall|p: int| ps.contains(p) <==> #[trigger] p0.contains(p) by {
                if ps.contains(p) {
                    let i = choose|i: int|
                        0 <= i < cards.len() && #[trigger] cards[i].deck_id == deck_id
                            && cards[i].deck_pos == p;
                    assert(i < last);
                    assert(s0[i].deck_id == deck_id);
                }
                if p0.contains(p) {
                    let i = choose|i: int|
                        0 <= i < s0.len() && #[trigger] s0[i].deck_id == deck_id && s0[i].deck_pos == p;
                    assert(cards[i].deck_id == deck_id);
                }
            }
            assert(ps =~= p0);
        }
    }
}

/// In a dense deck of N cards the positions held are exactly `1..=N`.
pub proof fn lemma_dense_positions(cards: Seq<Card>, deck_id: u64)
    requires
        dense(cards, deck_id),
    ensures
        deck_positions(cards, deck_id) == Set::new(|p: int| 1 <= p <= deck_size(cards, deck_id)),
{
    let n = deck_size(cards, deck_id) as int;
    let ps = deck_positions(cards, deck_id);
    let range = vstd::set_lib::set_int_range(1, n + 1);
    lemma_positions_len(cards, deck_id);
    vstd::set_lib::lemma_int_range(1, n + 1);
    assert(ps.subset_of(range));
    vstd::set_lib::lemma_subset_equality(ps, range);
    assert(Set::new(|p: int| 1 <= p <= n) =~= range);
}

/// The number of cards of a deck depends only on the deck of each row.
pub proof fn lemma_deck_size_same_decks(s: Seq<Card>, t: Seq<Card>, deck_id: u64)
    requires
        s.len() == t.len(),
        forall|i: int| 0 <= i < s.len() ==> #[trigger] s[i].deck_id == t[i].deck_id,
    ensures
        deck_size(s, deck_id) == deck_size(t, deck_id),
    decreases s.len(),
{
    if s.len() > 0 {
        assert forall|i: int| 0 <= i < s.drop_last().len() implies #[trigger] s.drop_last()[i].deck_id
            == t.drop_last()[i].deck_id by {
            assert(s.drop_last()[i] == s[i]);
            assert(t.drop_last()[i] == t[i]);
        }
        lemma_deck_size_same_decks(s.drop_last(), t.drop_last(), deck_id);
    }
}

/// Removing a row of the deck takes one from its size; any other row leaves
/// the size as it is.
pub proof fn lemma_deck_size_remove(s: Seq<Card>, i: int, deck_id: u64)
    requires
        0 <= i < s.len(),
    ensures
        deck_size(s.remove(i), deck_id) + (if s[i].deck_id == deck_id {
            1nat
        } else {
            0nat
        }) == deck_size(s, deck_id),
    decreases s.len(),
{
    if i == s.len() - 1 {
        assert(s.remove(i) =~= s.drop_last());
    } else {
        let r = s.remove(i);
        assert(r.drop_last() =~= s.drop_last().remove(i));
        assert(r.last() == s.last());
        lemma_deck_size_remove(s.drop_last(), i, deck_id);
    }
}

/// A move changes no card's deck, so it keeps the size of every deck.
pub proof fn lemma_deck_size_moved(cards: Seq<Card>, deck_id: u64, card_id: u64, orig: int, new: int, d: u64)
    ensures
        deck_size(moved(cards, deck_id, card_id, orig, new), d) == deck_size(cards, d),
{
    let m = moved(cards, deck_id, card_id, orig, new);
    assert forall|i: int| 0 <= i < cards.len() implies #[trigger] m[i].deck_id == cards[i].deck_id by {
    }
    lemma_deck_size_same_decks(m, cards, d);
}

/// A move inside a dense deck, from the card's true position to a position
/// in `1..=N`, keeps every position within `u16` and keeps every deck dense.
pub proof fn lemma_move_keeps_dense(
    cards: Seq<Card>,
    deck_id: u64,
    card_id: u64,
    orig: int,
    new: int,
    d: u64,
)
    requires
        ids_unique(cards),
        dense(cards, deck_id),
        dense(cards, d),
        card_at(cards, deck_id, card_id, orig),
        1 <= new <= deck_size(cards, deck_id),
        new <= u16::MAX,
    ensures
        shift_fits(cards, deck_id, card_id, orig, new),
        dense(moved(cards, deck_id, card_id, orig, new), d),
{
    let m = moved(cards, deck_id, card_id, orig, new);
    let n = deck_size(cards, deck_id);
    let w = choose|w: int|
        0 <= w < cards.len() && #[trigger] cards[w].id == card_id && cards[w].deck_id == deck_id
            && cards[w].deck_pos == orig;
    assert(1 <= cards[w].deck_pos <= n);
    assert forall|i: int| 0 <= i < cards.len() && #[trigger] cards[i].id == card_id implies i == w by {
    }
    assert forall|i: int| 0 <= i < cards.len() && #[trigger] cards[i].deck_id == deck_id && i != w implies cards[i].deck_pos != orig && cards[i].id != card_id by {
    }
    assert forall|i: int| 0 <= i < cards.len() implies 0 <= #[trigger] shifted_pos(
        cards[i],
        deck_id,
        card_id,
        orig,
        new,
    ) <= u16::MAX by {
        if cards[i].deck_id == deck_id && i != w {
            assert(cards[i].deck_pos != orig);
        }
    }
    lemma_deck_size_moved(cards, deck_id, card_id, orig, new, d);
    assert forall|i: int|
        0 <= i < m.len() && #[trigger] m[i].deck_id == d implies 1 <= m[i].deck_pos <= deck_size(m, d) by {
        assert(m[i] == with_pos(cards[i], moved_pos(cards[i], deck_id, card_id, orig, new)));
        assert(0 <= shifted_pos(cards[i], deck_id, card_id, orig, new) <= u16::MAX);
        assert(cards[i].deck_id == d);
        assert(1 <= cards[i].deck_pos <= deck_size(cards, d));
        assert(deck_size(m, d) == deck_size(cards, d));
        if d == deck_id {
            if i == w {
                assert(m[i].deck_pos == new);
            } else {
                let p = cards[i].deck_pos as int;
                assert(cards[i].id != card_id);
                assert(p != orig);
                if new < orig && new <= p <= orig {
                    assert(m[i].deck_pos == p + 1);
                } else if orig < new && orig <= p <= new {
                    assert(m[i].deck_pos == p - 1);
                } else {
                    assert(m[i].deck_pos == p);
                }
            }
        } else {
            assert(i != w);
            assert(m[i].deck_pos == cards[i].deck_pos);
        }
    }
    assert forall|i: int, j: int|
        0 <= i < m.len() && 0 <= j < m.len() && i != j && #[trigger] m[i].deck_id == d
            && #[trigger] m[j].deck_id == d implies m[i].deck_pos != m[j].deck_pos by {
        assert(m[i] == with_pos(cards[i], moved_pos(cards[i], deck_id, card_id, orig, new)));
        assert(m[j] == with_pos(cards[j], moved_pos(cards[j], deck_id, card_id, orig, new)));
        assert(0 <= shifted_pos(cards[i], deck_id, card_id, orig, new) <= u16::MAX);
        assert(0 <= shifted_pos(cards[j], deck_id, card_id, orig, new) <= u16::MAX);
        assert(cards[i].deck_id == d);
        assert(cards[j].deck_id == d);
        if d == deck_id {
            assert(cards[i].deck_pos != cards[j].deck_pos);
            if i != w {
                assert(cards[i].deck_pos != orig);
            }
            if j != w {
                assert(cards[j].deck_pos != orig);
            }
        }
    }
}

/// Appending a card at `N + 1` of its deck keeps every deck dense.
pub proof fn lemma_insert_keeps_dense(cards: Seq<Card>, card: Card, d: u64)
    requires
        dense(cards, d),
        card.deck_id == d ==> card.deck_pos == deck_size(cards, d) + 1,
    ensures
        dense(cards.push(card), d),
{
    let s = cards.push(card);
    assert(s.drop_last() =~= cards);
    assert forall|i: int| 0 <= i < cards.len() implies #[trigger] s[i] == cards[i] by {
    }
}

/// Deleting a card of a dense deck and compacting keeps every position within
/// `u16` and keeps every deck dense.
pub proof fn lemma_delete_keeps_dense(cards: Seq<Card>, i: int, d: u64)
    requires
        0 <= i < cards.len(),
        dense(cards, cards[i].deck_id),
        dense(cards, d),
    ensures
        compact_fits(cards.remove(i), cards[i].deck_id, cards[i].deck_pos as int),
        dense(compacted(cards.remove(i), cards[i].deck_id, cards[i].deck_pos as int), d),
{
    let deck_id = cards[i].deck_id;
    let k = cards[i].deck_pos as int;
    let rest = cards.remove(i);
    let m = compacted(rest, deck_id, k);
    assert(1 <= cards[i].deck_pos);
    assert forall|j: int| 0 <= j < rest.len() implies #[trigger] rest[j] == cards[if j < i {
        j
    } else {
        j + 1
    }] by {
    }
    assert forall|j: int| 0 <= j < rest.len() implies 0 <= #[trigger] compact_pos(rest[j], deck_id, k) by {
        let j0 = if j < i { j } else { j + 1 };
        assert(rest[j] == cards[j0]);
    }
    lemma_deck_size_remove(cards, i, d);
    assert forall|j: int| 0 <= j < rest.len() implies #[trigger] m[j].deck_id == rest[j].deck_id by {
    }
    lemma_deck_size_same_decks(m, rest, d);
    assert forall|j: int|
        0 <= j < m.len() && #[trigger] m[j].deck_id == d implies 1 <= m[j].deck_pos <= deck_size(m, d) by {
        let j0 = if j < i { j } else { j + 1 };
        assert(rest[j] == cards[j0]);
        assert(cards[j0].deck_id == d);
        assert(m[j] == with_pos(rest[j], compact_pos(rest[j], deck_id, k)));
        if d == deck_id {
            assert(cards[j0].deck_pos != cards[i].deck_pos);
        }
    }
    assert forall|a: int, b: int|
        0 <= a < m.len() && 0 <= b < m.len() && a != b && #[trigger] m[a].deck_id == d
            && #[trigger] m[b].deck_id == d implies m[a].deck_pos != m[b].deck_pos by {
        let a0 = if a < i { a } else { a + 1 };
        let b0 = if b < i { b } else { b + 1 };
        assert(rest[a] == cards[a0]);
        assert(rest[b] == cards[b0]);
        assert(cards[a0].deck_id == d);
        assert(cards[b0].deck_id == d);
        assert(m[a] == with_pos(rest[a], compact_pos(rest[a], deck_id, k)));
        assert(m[b] == with_pos(rest[b], compact_pos(rest[b], deck_id, k)));
        if d == deck_id {
            assert(cards[a0].deck_pos != cards[i].deck_pos);
            assert(cards[b0].deck_pos != cards[i].deck_pos);
            assert(cards[a0].deck_pos != cards[b0].deck_pos);
        }
    }
}

/// A move whose caller believes the card one place past where it truly is
/// finds no row to evacuate, so the store answers `NotFound` and leaves every
/// row as it was.
pub proof fn lemma_stale_position_not_found(cards: Seq<Card>, i: int)
    requires
        ids_unique(cards),
        0 <= i < cards.len(),
    ensures
        !card_at(cards, cards[i].deck_id, cards[i].id, cards[i].deck_pos + 1),
{
    assert forall|j: int|
        0 <= j < cards.len() && #[trigger] cards[j].id == cards[i].id implies j == i by {
        if j != i {
            assert(cards[j].id != cards[i].id);
        }
    }
}

/// Deleting the card at position `k` of a dense deck of N cards leaves N - 1
/// cards at exactly `1..=N-1`: each card that was after `k` is one place
/// earlier, each card before `k` keeps its place, and nothing else changes.
pub proof fn lemma_delete_compaction(cards: Seq<Card>, i: int)
    requires
        0 <= i < cards.len(),
        dense(cards, cards[i].deck_id),
    ensures
        ({
            let d = cards[i].deck_id;
            let k = cards[i].deck_pos as int;
            let rest = cards.remove(i);
            let after = compacted(rest, d, k);
            &&& deck_size(after, d) + 1 == deck_size(cards, d)
            &&& dense(after, d)
            &&& deck_positions(after, d) == Set::new(|p: int| 1 <= p <= deck_size(cards, d) - 1)
            &&& after.len() == rest.len()
            &&& forall|j: int|
                0 <= j < after.len() ==> same_but_pos(#[trigger] after[j], rest[j])
            &&& forall|j: int|
                0 <= j < after.len() && #[trigger] rest[j].deck_id == d && rest[j].deck_pos > k
                    ==> after[j].deck_pos == rest[j].deck_pos - 1
            &&& forall|j: int|
                0 <= j < after.len() && #[trigger] rest[j].deck_id == d && rest[j].deck_pos < k
                    ==> after[j].deck_pos == rest[j].deck_pos
        }),
{
    let d = cards[i].deck_id;
    let k = cards[i].deck_pos as int;
    let rest = cards.remove(i);
    let after = compacted(rest, d, k);
    lemma_delete_keeps_dense(cards, i, d);
    lemma_deck_size_remove(cards, i, d);
    assert forall|j: int| 0 <= j < rest.len() implies #[trigger] after[j].deck_id == rest[j].deck_id by {
    }
    lemma_deck_size_same_decks(after, rest, d);
    lemma_dense_positions(after, d);
    assert(Set::new(|p: int| 1 <= p <= deck_size(after, d)) =~= Set::new(
        |p: int| 1 <= p <= deck_size(cards, d) - 1,
    ));
    assert forall|j: int| 0 <= j < after.len() implies same_but_pos(#[trigger] after[j], rest[j]) by {
        assert(0 <= compact_pos(rest[j], d, k));
        assert(compact_pos(rest[j], d, k) <= u16::MAX);
    }
}

/// In a store whose decks are all dense, the cards of each deck hold
/// exactly the positions `1..=N`, N being the number of its cards.
pub proof fn lemma_store_positions(m: &DBManager, deck_id: u64)
    requires
        m.all_dense(),
    ensures
        deck_positions(m.card_rows(), deck_id) == Set::new(
            |p: int| 1 <= p <= deck_size(m.card_rows(), deck_id),
        ),
{
    assert(dense(m.card_rows(), deck_id));
    lemma_dense_positions(m.card_rows(), deck_id);
}

} // verus!

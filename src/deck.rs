use vstd::prelude::*;
use crate::card::{Card, Rank, Suit, rank_of_value, rank_value, suit_at, suit_index};
use crate::outside::shuffle_cards;

verus! {

/// The card at position `i` (0 <= i < 52) of a fresh deck: suits in order, ranks Ace to King
/// within each suit.
pub open spec fn card_at(i: int) -> Card {
    Card { suit: suit_at(i / 13), rank: rank_of_value(i % 13 + 1) }
}

/// Position of a card in a fresh deck.
pub open spec fn card_position(c: Card) -> int {
    suit_index(c.suit) * 13 + rank_value(c.rank) - 1
}

/// The 52 cards of a fresh, unshuffled deck.
pub open spec fn full_deck() -> Seq<Card> {
    Seq::new(52, |i: int| card_at(i))
}

/// Positions and cards correspond one to one.
pub proof fn lemma_card_position(i: int, c: Card)
    ensures
        0 <= i < 52 ==> card_position(card_at(i)) == i,
        0 <= card_position(c) < 52,
        card_at(card_position(c)) == c,
{
    let p = card_position(c);
    assert(p / 13 == suit_index(c.suit) && p % 13 == rank_value(c.rank) - 1);
}

/// Every card occurs in a fresh deck exactly once.
pub proof fn lemma_full_deck_distinct()
    ensures
        full_deck().no_duplicates(),
        full_deck().len() == 52,
        forall|c: Card| #[trigger] full_deck().to_multiset().count(c) == 1,
{
    let d = full_deck();
    assert forall|i: int, j: int| 0 <= i < 52 && 0 <= j < 52 && i != j implies d[i] != d[j] by {
        lemma_card_position(i, d[i]);
        lemma_card_position(j, d[j]);
    }
    d.lemma_multiset_has_no_duplicates();
    assert forall|c: Card| #[trigger] d.to_multiset().count(c) == 1 by {
        lemma_card_position(0, c);
        broadcast use vstd::seq_lib::to_multiset_contains;
        assert(d[card_position(c)] == c);
        assert(d.contains(c));
    }
}

/// A stack of cards drawn from the top (the end of `cards`).
pub struct Deck {
    pub cards: Vec<Card>,
}

impl Deck {
    /// A fresh deck of 52 cards in canonical order.
    pub fn new() -> (r: Deck)
        ensures
            r.cards@ == full_deck(),
    {
        let mut cards: Vec<Card> = Vec::with_capacity(52);
        let suits = Suit::all();
        let ranks = Rank::all();
        let mut si: usize = 0;
        while si < 4
            invariant
                si <= 4,
                cards@ == full_deck().take(si as int * 13),
                forall|i: int| 0 <= i < 4 ==> #[trigger] suits@[i] == suit_at(i),
                forall|i: int| 0 <= i < 13 ==> #[trigger] ranks@[i] == rank_of_value(i + 1),
            decreases 4 - si,
        {
            let mut ri: usize = 0;
            while ri < 13
                invariant
                    si < 4,
                    ri <= 13,
                    cards@ == full_deck().take(si as int * 13 + ri as int),
                    forall|i: int| 0 <= i < 4 ==> #[trigger] suits@[i] == suit_at(i),
                    forall|i: int| 0 <= i < 13 ==> #[trigger] ranks@[i] == rank_of_value(i + 1),
                decreases 13 - ri,
            {
                let c = Card::new(suits[si], ranks[ri]);
                proof {
                    let k = si as int * 13 + ri as int;
                    assert(k / 13 == si as int && k % 13 == ri as int);
                    assert(c == card_at(k));
                    assert(full_deck().take(k + 1) =~= full_deck().take(k).push(c));
                }
                cards.push(c);
                ri = ri + 1;
            }
            si = si + 1;
        }
        assert(cards@ =~= full_deck());
        Deck { cards }
    }

    /// Puts the cards in a random order.
    pub fn shuffle(&mut self)
        ensures
            final(self).cards@.to_multiset() == old(self).cards@.to_multiset(),
            final(self).cards@.len() == old(self).cards@.len(),
    {
        shuffle_cards(&mut self.cards);
    }

    /// Takes the top card, if any.
    pub fn draw(&mut self) -> (r: Option<Card>)
        ensures
            old(self).cards@.len() == 0 ==> r.is_none() && final(self).cards@ == old(self).cards@,
            old(self).cards@.len() > 0 ==> r == Some(old(self).cards@.last())
                && final(self).cards@ == old(self).cards@.drop_last(),
    {
        self.cards.pop()
    }

    /// Takes up to `count` cards from the top, the top card first.
    pub fn draw_many(&mut self, count: usize) -> (r: Vec<Card>)
        ensures
            r@.len() == if count <= old(self).cards@.len() { count as int } else { old(self).cards@.len() as int },
            final(self).cards@ == old(self).cards@.take(old(self).cards@.len() - r@.len()),
            forall|i: int| 0 <= i < r@.len() ==> #[trigger] r@[i] == old(self).cards@[old(self).cards@.len() - 1 - i],
    {
        let ghost start = self.cards@;
        let mut drawn: Vec<Card> = Vec::new();
        let mut k: usize = 0;
        while k < count
            invariant
                k <= count,
                drawn@.len() == k,
                k <= start.len(),
                self.cards@ == start.take(start.len() - k),
                forall|i: int| 0 <= i < k ==> #[trigger] drawn@[i] == start[start.len() - 1 - i],
            ensures
                k <= count,
                drawn@.len() == k,
                k <= start.len(),
                self.cards@ == start.take(start.len() - k),
                forall|i: int| 0 <= i < k ==> #[trigger] drawn@[i] == start[start.len() - 1 - i],
                k == count || k == start.len(),
            decreases count - k,
        {
            match self.cards.pop() {
                Some(card) => {
                    drawn.push(card);
                    k = k + 1;
                    assert(self.cards@ =~= start.take(start.len() - k));
                },
                None => {
                    break;
                },
            }
        }
        drawn
    }

    pub fn is_empty(&self) -> (r: bool)
        ensures
            r == (self.cards@.len() == 0),
    {
        self.cards.is_empty()
    }

    /// Number of cards left.
    pub fn remaining(&self) -> (r: usize)
        ensures
            r == self.cards@.len(),
    {
        self.cards.len()
    }

    /// Back to a full deck, shuffled.
    pub fn reset(&mut self)
        ensures
            final(self).cards@.to_multiset() == full_deck().to_multiset(),
            final(self).cards@.len() == 52,
    {
        *self = Deck::new();
        self.shuffle();
    }
}

} // verus!

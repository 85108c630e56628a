use vstd::prelude::*;
use vstd::multiset::Multiset;
use vstd::string::StringExecFns;
use crate::card::{Card, PlayerId, Rank, card_points, copy_cards};
use crate::deck::{Deck, card_at, card_position, full_deck, lemma_card_position};

verus! {

broadcast use vstd::seq_lib::group_to_multiset_ensures;

/// A player with more captured cards than this holds the majority of the deck.
pub const MAJORITY: usize = 26;

/// The abstract state of a game: what every rule below is stated over.
pub struct GameModel {
    pub deck: Seq<Card>,
    pub hands: Seq<Seq<Card>>,
    pub table: Seq<Card>,
    pub won: Seq<Seq<Card>>,
    pub turn: PlayerId,
    pub last_capture: Option<PlayerId>,
    pub over: bool,
    pub kseri: Seq<int>,
}

/// Every card of the game, wherever it lies, counted with multiplicity.
pub open spec fn cards_in_play(m: GameModel) -> Multiset<Card> {
    m.deck.to_multiset().add(m.hands[0].to_multiset()).add(m.hands[1].to_multiset()).add(
        m.table.to_multiset(),
    ).add(m.won[0].to_multiset()).add(m.won[1].to_multiset())
}

/// Every card of the game as one sequence: deck, hands, table, captured piles.
pub open spec fn all_cards(m: GameModel) -> Seq<Card> {
    m.deck + m.hands[0] + m.hands[1] + m.table + m.won[0] + m.won[1]
}

/// The invariant of a game in progress or over.
pub open spec fn model_wf(m: GameModel) -> bool {
    &&& m.hands.len() == 2
    &&& m.won.len() == 2
    &&& m.kseri.len() == 2
    &&& cards_in_play(m) == full_deck().to_multiset()
    &&& m.turn.0 < 2
    &&& (m.last_capture matches Some(p) ==> p.0 < 2)
    &&& (m.won[0].len() > 0 || m.won[1].len() > 0 ==> m.last_capture is Some)
    &&& 0 <= m.kseri[0] <= m.won[0].len()
    &&& 0 <= m.kseri[1] <= m.won[1].len()
    &&& (m.over ==> m.deck.len() == 0 && m.hands[0].len() == 0 && m.hands[1].len() == 0 && (
    m.last_capture is Some ==> m.table.len() == 0))
}

/// One card moves from the top of the deck to the hand of `seat`, if the deck is not empty.
pub open spec fn deal_one(deck: Seq<Card>, hands: Seq<Seq<Card>>, seat: int) -> (Seq<Card>, Seq<Seq<Card>>) {
    if deck.len() == 0 {
        (deck, hands)
    } else {
        (deck.drop_last(), hands.update(seat, hands[seat].push(deck.last())))
    }
}

/// The deck and hands after `k` single deals that alternate seat 0, seat 1, seat 0, ...
pub open spec fn deal_steps(deck: Seq<Card>, hands: Seq<Seq<Card>>, k: nat) -> (Seq<Card>, Seq<Seq<Card>>)
    decreases k,
{
    if k == 0 {
        (deck, hands)
    } else {
        let prev = deal_steps(deck, hands, (k - 1) as nat);
        deal_one(prev.0, prev.1, (k - 1) as int % 2)
    }
}

/// Moving cards from the deck to the hands loses none and adds none.
pub proof fn lemma_deal_steps_conserve(deck: Seq<Card>, hands: Seq<Seq<Card>>, k: nat)
    requires
        hands.len() == 2,
    ensures
        deal_steps(deck, hands, k).1.len() == 2,
        deal_steps(deck, hands, k).0.to_multiset().add(deal_steps(deck, hands, k).1[0].to_multiset()).add(
            deal_steps(deck, hands, k).1[1].to_multiset(),
        ) == deck.to_multiset().add(hands[0].to_multiset()).add(hands[1].to_multiset()),
        deal_steps(deck, hands, k).0.len() <= deck.len(),
        deck.len() > 0 && k > 0 ==> deal_steps(deck, hands, k).1[0].len() > hands[0].len(),
    decreases k,
{
    if k > 0 {
        lemma_deal_steps_conserve(deck, hands, (k - 1) as nat);
        let prev = deal_steps(deck, hands, (k - 1) as nat);
        let d = prev.0;
        if d.len() > 0 {
            assert(d.drop_last().push(d.last()) =~= d);
            assert(d.to_multiset() == d.drop_last().to_multiset().insert(d.last()));
            let seat = (k - 1) as int % 2;
            let h = prev.1[seat];
            assert(h.push(d.last()).to_multiset() == h.to_multiset().insert(d.last()));
            assert(deal_steps(deck, hands, k).0.to_multiset().add(deal_steps(deck, hands, k).1[0].to_multiset()).add(
                deal_steps(deck, hands, k).1[1].to_multiset()) =~= d.to_multiset().add(prev.1[0].to_multiset()).add(
                prev.1[1].to_multiset()));
        }
    }
}

/// The lengths of the deck and hands after `k` single deals from a deck that holds at least `k` cards.
pub proof fn lemma_deal_steps_len(deck: Seq<Card>, hands: Seq<Seq<Card>>, k: nat)
    requires
        hands.len() == 2,
        k <= deck.len(),
    ensures
        deal_steps(deck, hands, k).1.len() == 2,
        deal_steps(deck, hands, k).0.len() == deck.len() - k,
        deal_steps(deck, hands, k).1[0].len() == hands[0].len() + (k + 1) / 2,
        deal_steps(deck, hands, k).1[1].len() == hands[1].len() + k / 2,
    decreases k,
{
    if k > 0 {
        lemma_deal_steps_len(deck, hands, (k - 1) as nat);
    }
}

/// Whether `card`, played on `table`, takes the table: the table is not empty and the card
/// is a Jack or has the rank of the top card.
pub open spec fn captures(table: Seq<Card>, card: Card) -> bool {
    table.len() > 0 && (card.rank == Rank::Jack || table.last().rank == card.rank)
}

/// Whether the play is a Kseri: a capture of a lone card of the same rank, not by a Jack.
pub open spec fn makes_kseri(table: Seq<Card>, card: Card) -> bool {
    captures(table, card) && table.len() == 1 && card.rank != Rank::Jack && table[0].rank == card.rank
}

/// What a play takes: the whole table followed by the played card, or nothing.
pub open spec fn captured_by(table: Seq<Card>, card: Card) -> Seq<Card> {
    if captures(table, card) {
        table.push(card)
    } else {
        Seq::empty()
    }
}

/// `i` is the first position of `c` in `s`.
pub open spec fn is_first_position(s: Seq<Card>, c: Card, i: int) -> bool {
    0 <= i < s.len() && s[i] == c && forall|j: int| 0 <= j < i ==> s[j] != c
}

/// The first position of `c` in `s` (meaningful when `s` holds `c`).
pub open spec fn first_position(s: Seq<Card>, c: Card) -> int {
    choose|i: int| is_first_position(s, c, i)
}

/// Steps 1 to 6 of a play by `seat`: the card leaves the hand, captures or lands on the
/// table, and the turn passes.
pub open spec fn place_card(m: GameModel, seat: int, card: Card) -> GameModel {
    let hand = m.hands[seat].remove(first_position(m.hands[seat], card));
    let cap = captures(m.table, card);
    GameModel {
        deck: m.deck,
        hands: m.hands.update(seat, hand),
        table: if cap { Seq::empty() } else { m.table.push(card) },
        won: if cap { m.won.update(seat, m.won[seat] + m.table.push(card)) } else { m.won },
        turn: PlayerId((1 - seat) as u8),
        last_capture: if cap { Some(PlayerId(seat as u8)) } else { m.last_capture },
        over: m.over,
        kseri: if makes_kseri(m.table, card) { m.kseri.update(seat, m.kseri[seat] + 1) } else { m.kseri },
    }
}

/// End of game: residual table cards go to the last capturer, if any, and the game is over.
pub open spec fn finish(m: GameModel) -> GameModel {
    match m.last_capture {
        Some(q) => if m.table.len() > 0 {
            GameModel {
                table: Seq::empty(),
                won: m.won.update(q.0 as int, m.won[q.0 as int] + m.table),
                over: true,
                ..m
            }
        } else {
            GameModel { over: true, ..m }
        },
        None => GameModel { over: true, ..m },
    }
}

/// Step 7: when both hands are empty, deal four more each, or end the game if the deck is empty.
pub open spec fn settle(m: GameModel) -> GameModel {
    if m.hands[0].len() == 0 && m.hands[1].len() == 0 {
        if m.deck.len() > 0 {
            let d = deal_steps(m.deck, m.hands, 8);
            GameModel { deck: d.0, hands: d.1, ..m }
        } else {
            finish(m)
        }
    } else {
        m
    }
}

/// The state after a legal play of `card` by `seat`.
pub open spec fn play_model(m: GameModel, seat: int, card: Card) -> GameModel {
    settle(place_card(m, seat, card))
}

/// Removing the card at `i` takes exactly that card out of the multiset.
proof fn lemma_remove_ms(s: Seq<Card>, i: int)
    requires
        0 <= i < s.len(),
    ensures
        s.to_multiset() == s.remove(i).to_multiset().insert(s[i]),
{
}

/// A legal play keeps the game invariant.
pub proof fn lemma_play_preserves_wf(m: GameModel, seat: int, card: Card, i: int)
    requires
        model_wf(m),
        !m.over,
        m.turn.0 == seat,
        is_first_position(m.hands[seat], card, i),
    ensures
        first_position(m.hands[seat], card) == i,
        model_wf(place_card(m, seat, card)),
        model_wf(play_model(m, seat, card)),
{
    broadcast use vstd::seq_lib::lemma_multiset_commutative;
    let h = m.hands[seat];
    assert(is_first_position(h, card, first_position(h, card)));
    let j = first_position(h, card);
    assert(j == i) by {
        if j < i {
            assert(h[j] != card);
        } else if i < j {
            assert(h[i] != card);
        }
    }
    lemma_remove_ms(h, i);
    let t = m.table;
    let a = place_card(m, seat, card);
    assert(t.push(card).to_multiset() == t.to_multiset().insert(card));
    if captures(t, card) {
        assert((m.won[seat] + t.push(card)).to_multiset() == m.won[seat].to_multiset().add(t.push(card).to_multiset()));
    }
    assert(cards_in_play(a) =~= cards_in_play(m));
    if makes_kseri(t, card) {
        assert(t.len() == 1);
    }
    let b = settle(a);
    if a.hands[0].len() == 0 && a.hands[1].len() == 0 {
        if a.deck.len() > 0 {
            lemma_deal_steps_conserve(a.deck, a.hands, 8);
            assert(cards_in_play(b) =~= cards_in_play(a));
        } else {
            if let Some(q) = a.last_capture {
                if a.table.len() > 0 {
                    let qi = q.0 as int;
                    assert((a.won[qi] + a.table).to_multiset() == a.won[qi].to_multiset().add(a.table.to_multiset()));
                    assert(cards_in_play(b) =~= cards_in_play(a));
                }
            }
            assert(cards_in_play(b) =~= cards_in_play(a));
        }
    }
}

/// Sum of the points of a pile of captured cards.
pub open spec fn points(s: Seq<Card>) -> int
    decreases s.len(),
{
    if s.len() == 0 {
        0
    } else {
        points(s.drop_last()) + card_points(s.last())
    }
}

/// Score of `seat`: card points, 10 per Kseri, and 3 for a strict majority of the 52 cards
/// (more than 26 captured).
pub open spec fn score(m: GameModel, seat: int) -> int {
    points(m.won[seat]) + 10 * m.kseri[seat] + if m.won[seat].len() > MAJORITY {
        3int
    } else {
        0int
    }
}

/// The winner of a finished game: the higher score; none on a tie or while the game runs.
pub open spec fn winner(m: GameModel) -> Option<PlayerId> {
    if !m.over {
        None
    } else if score(m, 0) > score(m, 1) {
        Some(PlayerId(0))
    } else if score(m, 1) > score(m, 0) {
        Some(PlayerId(1))
    } else {
        None
    }
}

/// Each card is worth at most 3 points.
pub proof fn lemma_points_bounds(s: Seq<Card>)
    ensures
        0 <= points(s) <= 3 * s.len(),
        forall|k: int| 0 <= k <= s.len() ==> #[trigger] points(s.take(k)) <= points(s),
    decreases s.len(),
{
    if s.len() > 0 {
        lemma_points_bounds(s.drop_last());
        assert forall|k: int| 0 <= k <= s.len() implies #[trigger] points(s.take(k)) <= points(s) by {
            if k < s.len() {
                assert(s.take(k) =~= s.drop_last().take(k));
            } else {
                assert(s.take(k) =~= s);
            }
        }
    }
}

/// Points of a pile after taking out the card at `i`.
proof fn lemma_points_remove(s: Seq<Card>, i: int)
    requires
        0 <= i < s.len(),
    ensures
        points(s) == points(s.remove(i)) + card_points(s[i]),
    decreases s.len(),
{
    if i < s.len() - 1 {
        lemma_points_remove(s.drop_last(), i);
        assert(s.remove(i).drop_last() =~= s.drop_last().remove(i));
        assert(s.remove(i).last() == s.last());
    } else {
        assert(s.remove(i) =~= s.drop_last());
    }
}

/// Points only grow when cards are added to a pile, whatever their order.
pub proof fn lemma_points_sub_multiset(a: Seq<Card>, b: Seq<Card>)
    requires
        a.to_multiset().subset_of(b.to_multiset()),
    ensures
        points(a) <= points(b),
        a.len() <= b.len(),
    decreases a.len(),
{
    broadcast use vstd::multiset::group_multiset_axioms;
    if a.len() == 0 {
        lemma_points_bounds(b);
    } else {
        let x = a.last();
        assert(a.drop_last().push(x) =~= a);
        assert(a.to_multiset().count(x) > 0);
        assert(b.to_multiset().count(x) > 0);
        assert(b.contains(x));
        let j = choose|j: int| 0 <= j < b.len() && b[j] == x;
        lemma_points_remove(b, j);
        let b2 = b.remove(j);
        assert(b.to_multiset() == b2.to_multiset().insert(x));
        assert(a.to_multiset() == a.drop_last().to_multiset().insert(x));
        assert(a.drop_last().to_multiset().subset_of(b2.to_multiset()));
        lemma_points_sub_multiset(a.drop_last(), b2);
    }
}

/// Score monotonicity: a player's score does not fall when that player's captured pile gains
/// cards, the Kseri tallies staying as they are.
pub proof fn lemma_score_monotone(m: GameModel, n: GameModel, seat: int)
    requires
        seat == 0 || seat == 1,
        m.won.len() == 2,
        n.won.len() == 2,
        m.kseri == n.kseri,
        m.won[seat].to_multiset().subset_of(n.won[seat].to_multiset()),
    ensures
        score(m, seat) <= score(n, seat),
{
    lemma_points_sub_multiset(m.won[seat], n.won[seat]);
}

/// In a well-formed game every pile holds at most 52 cards and the scores stay small.
pub proof fn lemma_score_bounds(m: GameModel)
    requires
        model_wf(m),
    ensures
        m.won[0].len() <= 52,
        m.won[1].len() <= 52,
        m.deck.len() <= 52,
        m.hands[0].len() <= 52,
        m.hands[1].len() <= 52,
        m.table.len() <= 52,
        0 <= score(m, 0) <= 679,
        0 <= score(m, 1) <= 679,
{
    broadcast use vstd::multiset::group_multiset_axioms;
    crate::deck::lemma_full_deck_distinct();
    assert(cards_in_play(m).len() == 52);
    lemma_points_bounds(m.won[0]);
    lemma_points_bounds(m.won[1]);
}

/// Conservation: in a well-formed game the cards number exactly 52 and none appears twice.
pub proof fn lemma_conservation(m: GameModel)
    requires
        model_wf(m),
    ensures
        all_cards(m).len() == 52,
        all_cards(m).no_duplicates(),
{
    broadcast use vstd::multiset::group_multiset_axioms;
    broadcast use vstd::seq_lib::lemma_multiset_commutative;
    crate::deck::lemma_full_deck_distinct();
    let a = all_cards(m);
    assert(a.to_multiset() =~= cards_in_play(m));
    assert forall|x: Card| a.to_multiset().contains(x) implies a.to_multiset().count(x) == 1 by {
        assert(full_deck().to_multiset().count(x) == 1);
    }
    a.lemma_multiset_has_no_duplicates_conv();
    vstd::seq_lib::to_multiset_len(a);
    vstd::seq_lib::to_multiset_len(full_deck());
}

/// The turn passes to the other seat on every legal play.
pub proof fn lemma_turn_flips(m: GameModel, seat: int, card: Card)
    requires
        seat == 0 || seat == 1,
    ensures
        play_model(m, seat, card).turn == PlayerId((1 - seat) as u8),
        play_model(m, seat, card).turn.0 < 2,
{
}

/// A Jack never adds to the Kseri tallies.
pub proof fn lemma_jack_never_kseri(m: GameModel, seat: int, card: Card)
    requires
        card.rank == Rank::Jack,
    ensures
        play_model(m, seat, card).kseri == m.kseri,
{
}

/// Once any capture has happened the last capturer is known.
pub proof fn lemma_capture_sets_last(m: GameModel, seat: int, card: Card)
    requires
        model_wf(m),
        seat == 0 || seat == 1,
    ensures
        captures(m.table, card) ==> play_model(m, seat, card).last_capture == Some(PlayerId(seat as u8)),
        (m.won[0].len() > 0 || m.won[1].len() > 0) ==> m.last_capture is Some,
{
}

/// A finished game has an empty deck and empty hands, and an empty table when anyone ever
/// captured.
pub proof fn lemma_finished_state(m: GameModel)
    requires
        model_wf(m),
        m.over,
    ensures
        m.deck.len() == 0,
        m.hands[0].len() == 0,
        m.hands[1].len() == 0,
        m.last_capture is Some ==> m.table.len() == 0,
{
}

/// A card held somewhere in a sequence has a first position there.
pub proof fn lemma_first_position_exists(s: Seq<Card>, c: Card, i: int)
    requires
        0 <= i < s.len(),
        s[i] == c,
    ensures
        is_first_position(s, c, first_position(s, c)),
    decreases i,
{
    if exists|j: int| 0 <= j < i && s[j] == c {
        let j = choose|j: int| 0 <= j < i && s[j] == c;
        lemma_first_position_exists(s, c, j);
    } else {
        assert(is_first_position(s, c, i));
    }
}

/// A matching play on a lone table card, with cards left in hand: both cards go to the
/// player's pile, the play is a Kseri and is tallied, the table empties and the turn passes.
pub proof fn lemma_match_capture(m: GameModel, seat: int, card: Card)
    requires
        seat == 0 || seat == 1,
        m.hands.len() == 2,
        m.won.len() == 2,
        m.kseri.len() == 2,
        m.table.len() == 1,
        m.table[0].rank == card.rank,
        card.rank != Rank::Jack,
        m.hands[seat].contains(card),
        m.hands[seat].len() > 1,
    ensures
        captured_by(m.table, card) == seq![m.table[0], card],
        makes_kseri(m.table, card),
        play_model(m, seat, card).won[seat] == m.won[seat] + seq![m.table[0], card],
        play_model(m, seat, card).won[1 - seat] == m.won[1 - seat],
        play_model(m, seat, card).kseri[seat] == m.kseri[seat] + 1,
        play_model(m, seat, card).table.len() == 0,
        play_model(m, seat, card).turn == PlayerId((1 - seat) as u8),
        play_model(m, seat, card).last_capture == Some(PlayerId(seat as u8)),
{
    let k = choose|k: int| 0 <= k < m.hands[seat].len() && m.hands[seat][k] == card;
    lemma_first_position_exists(m.hands[seat], card, k);
    assert(m.table.push(card) =~= seq![m.table[0], card]);
    let a = place_card(m, seat, card);
    assert(a.hands[seat].len() == m.hands[seat].len() - 1);
}

/// A Kseri game as the server holds it.
pub struct KseriGameState {
    pub deck: Vec<Card>,
    pub player_hands: [Vec<Card>; 2],
    pub table_cards: Vec<Card>,
    pub player_scores: [Vec<Card>; 2],
    pub current_turn: PlayerId,
    pub last_capture_player: Option<PlayerId>,
    pub game_over: bool,
    pub kseri_count: [u32; 2],
}

impl View for KseriGameState {
    type V = GameModel;

    open spec fn view(&self) -> GameModel {
        GameModel {
            deck: self.deck@,
            hands: seq![self.player_hands[0]@, self.player_hands[1]@],
            table: self.table_cards@,
            won: seq![self.player_scores[0]@, self.player_scores[1]@],
            turn: self.current_turn,
            last_capture: self.last_capture_player,
            over: self.game_over,
            kseri: seq![self.kseri_count[0] as int, self.kseri_count[1] as int],
        }
    }
}

/// What a play did.
pub struct PlayCardResult {
    pub captured_cards: Vec<Card>,
    pub is_kseri: bool,
    pub game_ended: bool,
}

/// Position of the first copy of `card` in `cards`, if any.
fn find_card(cards: &Vec<Card>, card: &Card) -> (r: Option<usize>)
    ensures
        r matches Some(i) ==> is_first_position(cards@, *card, i as int),
        r is None ==> !cards@.contains(*card),
{
    let mut i: usize = 0;
    while i < cards.len()
        invariant
            i <= cards@.len(),
            forall|j: int| 0 <= j < i ==> cards@[j] != *card,
        decreases cards@.len() - i,
    {
        if cards[i] == *card {
            return Some(i);
        }
        i = i + 1;
    }
    None
}

/// Position of a card in a fresh deck.
fn position_of(c: &Card) -> (r: usize)
    ensures
        r as int == card_position(*c),
        r < 52,
{
    proof {
        lemma_card_position(0, *c);
    }
    let s: usize = match c.suit {
        crate::card::Suit::Hearts => 0,
        crate::card::Suit::Diamonds => 1,
        crate::card::Suit::Clubs => 2,
        crate::card::Suit::Spades => 3,
    };
    s * 13 + c.rank.value() as usize - 1
}

/// A sequence with a repeated card keeps it when more cards follow.
proof fn lemma_dup_extends(p: Seq<Card>, q: Seq<Card>)
    requires
        !p.no_duplicates(),
    ensures
        !(p + q).no_duplicates(),
{
    let (i, j) = choose|i: int, j: int| 0 <= i < p.len() && 0 <= j < p.len() && i != j && p[i] == p[j];
    assert((p + q)[i] == (p + q)[j]);
}

/// Records the cards of `pile` in `seen` (indexed by deck position); false as soon as a card
/// is seen twice, counting those already in `prefix`.
fn mark_pile(seen: &mut Vec<bool>, pile: &Vec<Card>, Ghost(prefix): Ghost<Seq<Card>>) -> (r: bool)
    requires
        old(seen)@.len() == 52,
        prefix.no_duplicates(),
        forall|k: int| 0 <= k < 52 ==> #[trigger] old(seen)@[k] == prefix.contains(card_at(k)),
    ensures
        r == (prefix + pile@).no_duplicates(),
        final(seen)@.len() == 52,
        r ==> forall|k: int| 0 <= k < 52 ==> #[trigger] final(seen)@[k] == (prefix + pile@).contains(card_at(k)),
{
    let mut i: usize = 0;
    while i < pile.len()
        invariant
            i <= pile@.len(),
            seen@.len() == 52,
            (prefix + pile@.take(i as int)).no_duplicates(),
            forall|k: int| 0 <= k < 52 ==> #[trigger] seen@[k] == (prefix + pile@.take(i as int)).contains(card_at(k)),
        decreases pile@.len() - i,
    {
        let c = pile[i];
        let k = position_of(&c);
        let ghost cur = prefix + pile@.take(i as int);
        proof {
            lemma_card_position(k as int, c);
            assert(cur.push(c) =~= prefix + pile@.take(i as int + 1));
        }
        if seen[k] {
            proof {
                assert(cur.contains(c));
                let j = choose|j: int| 0 <= j < cur.len() && cur[j] == c;
                let full = prefix + pile@;
                assert(full[j] == c);
                assert(full[prefix.len() + i] == c);
                assert(!full.no_duplicates());
            }
            return false;
        }
        seen.set(k, true);
        proof {
            assert(!cur.contains(c));
            assert forall|x: int| 0 <= x < 52 implies #[trigger] seen@[x] == cur.push(c).contains(card_at(x)) by {
                lemma_card_position(x, card_at(x));
                if x != k as int {
                    assert(card_at(x) != c);
                    if cur.push(c).contains(card_at(x)) {
                        let y = choose|y: int| 0 <= y < cur.push(c).len() && cur.push(c)[y] == card_at(x);
                        assert(cur[y] == card_at(x));
                    }
                    if cur.contains(card_at(x)) {
                        let y = choose|y: int| 0 <= y < cur.len() && cur[y] == card_at(x);
                        assert(cur.push(c)[y] == card_at(x));
                    }
                } else {
                    assert(cur.push(c)[cur.len() as int] == c);
                }
            }
        }
        i = i + 1;
    }
    assert(pile@.take(i as int) =~= pile@);
    true
}

impl KseriGameState {
    /// A fresh game: a shuffled deck, four cards on the table, four in each hand, seat 0 to play.
    pub fn new() -> (r: KseriGameState)
        ensures
            r.wf(),
            r@.deck.len() == 40,
            r@.table.len() == 4,
            r@.hands[0].len() == 4,
            r@.hands[1].len() == 4,
            r@.won[0].len() == 0,
            r@.won[1].len() == 0,
            r.current_turn == PlayerId(0),
            r.last_capture_player.is_none(),
            !r.game_over,
            r.kseri_count == [0u32, 0u32],
    {
        let mut deck = Deck::new();
        deck.shuffle();
        let mut state = KseriGameState {
            deck: deck.cards,
            player_hands: [Vec::new(), Vec::new()],
            table_cards: Vec::new(),
            player_scores: [Vec::new(), Vec::new()],
            current_turn: PlayerId(0),
            last_capture_player: None,
            game_over: false,
            kseri_count: [0, 0],
        };
        proof {
            crate::deck::lemma_full_deck_distinct();
            assert(cards_in_play(state@) =~= state@.deck.to_multiset());
        }
        state.deal_initial_cards();
        proof {
            lemma_deal_steps_len(state@.deck, state@.hands, 0);
        }
        state
    }

    /// Four cards from the top of the deck to the table, then four to each seat.
    fn deal_initial_cards(&mut self)
        requires
            old(self)@.deck.len() == 52,
            old(self)@.table.len() == 0,
            old(self)@.hands[0].len() == 0,
            old(self)@.hands[1].len() == 0,
            cards_in_play(old(self)@) == old(self)@.deck.to_multiset(),
        ensures
            cards_in_play(final(self)@) == cards_in_play(old(self)@),
            final(self)@.deck.len() == 40,
            final(self)@.table.len() == 4,
            final(self)@.hands[0].len() == 4,
            final(self)@.hands[1].len() == 4,
            final(self)@.won == old(self)@.won,
            final(self).current_turn == old(self).current_turn,
            final(self).last_capture_player == old(self).last_capture_player,
            final(self).game_over == old(self).game_over,
            final(self).kseri_count == old(self).kseri_count,
    {
        let mut k: usize = 0;
        while k < 4
            invariant
                k <= 4,
                self@.deck.len() == 52 - k,
                self@.table.len() == k,
                self@.hands == old(self)@.hands,
                self@.won == old(self)@.won,
                cards_in_play(self@) == cards_in_play(old(self)@),
                self.current_turn == old(self).current_turn,
                self.last_capture_player == old(self).last_capture_player,
                self.game_over == old(self).game_over,
                self.kseri_count == old(self).kseri_count,
            decreases 4 - k,
        {
            let ghost before = self@;
            let card = self.deck.pop().unwrap();
            self.table_cards.push(card);
            proof {
                assert(before.deck.drop_last().push(before.deck.last()) =~= before.deck);
                assert(cards_in_play(self@) =~= cards_in_play(before));
            }
            k = k + 1;
        }
        let ghost mid = self@;
        self.deal_round();
        proof {
            lemma_deal_steps_conserve(mid.deck, mid.hands, 8);
            lemma_deal_steps_len(mid.deck, mid.hands, 8);
            assert(cards_in_play(self@) =~= cards_in_play(mid));
        }
    }

    /// Deals four more cards to each seat; false, with nothing changed, when the deck is empty.
    pub fn deal_new_hands(&mut self) -> (r: bool)
        ensures
            r == (old(self)@.deck.len() > 0),
            r ==> (final(self)@.deck, final(self)@.hands) == deal_steps(old(self)@.deck, old(self)@.hands, 8),
            !r ==> final(self)@ == old(self)@,
            final(self)@.table == old(self)@.table,
            final(self)@.won == old(self)@.won,
            final(self).current_turn == old(self).current_turn,
            final(self).last_capture_player == old(self).last_capture_player,
            final(self).game_over == old(self).game_over,
            final(self).kseri_count == old(self).kseri_count,
    {
        if self.deck.is_empty() {
            return false;
        }
        self.deal_round();
        true
    }

    /// Ends the game, giving what is left on the table to the last capturer.
    fn handle_game_end(&mut self)
        requires
            old(self).last_capture_player matches Some(q) ==> q.0 < 2,
        ensures
            final(self)@ == finish(old(self)@),
    {
        self.game_over = true;
        if !self.table_cards.is_empty() {
            match self.last_capture_player {
                Some(last_player) => {
                    let mut remaining: Vec<Card> = Vec::new();
                    std::mem::swap(&mut remaining, &mut self.table_cards);
                    self.player_scores[last_player.0 as usize].append(&mut remaining);
                },
                None => {},
            }
        }
        proof {
            assert(self@.won =~= finish(old(self)@).won);
            assert(self@ =~= finish(old(self)@));
        }
    }

    /// Plays `card` from the hand of `player`.
    ///
    /// Fails, changing nothing, when it is not `player`'s turn, when the game is over, or when
    /// the card is not in that hand (checked in that order). Otherwise the play follows the rules of `play_model`.
    pub fn play_card(&mut self, player: PlayerId, card: Card) -> (r: Result<PlayCardResult, String>)
        requires
            old(self).current_turn.0 < 2,
            old(self).last_capture_player matches Some(q) ==> q.0 < 2,
            old(self).kseri_count[0] < u32::MAX,
            old(self).kseri_count[1] < u32::MAX,
        ensures
            old(self).current_turn != player ==> (r matches Err(e) && e@ == "Not your turn"@),
            old(self).current_turn == player && old(self).game_over ==> (r matches Err(e) && e@
                == "Game is over"@),
            old(self).current_turn == player && !old(self).game_over && !old(self)@.hands[player.0 as int].contains(card)
                ==> (r matches Err(e) && e@ == "Card not in hand"@),
            r is Err ==> *final(self) == *old(self),
            r is Ok <==> (!old(self).game_over && old(self).current_turn == player
                && old(self)@.hands[player.0 as int].contains(card)),
            r matches Ok(res) ==> {
                &&& final(self)@ == play_model(old(self)@, player.0 as int, card)
                &&& res.captured_cards@ == captured_by(old(self)@.table, card)
                &&& res.is_kseri == makes_kseri(old(self)@.table, card)
                &&& res.game_ended == final(self).game_over
            },
            old(self).wf() ==> final(self).wf(),
    {
        proof {
            reveal_strlit("Game is over");
            reveal_strlit("Not your turn");
            reveal_strlit("Card not in hand");
        }
        if self.current_turn != player {
            return Err(String::from_str("Not your turn"));
        }
        if self.game_over {
            return Err(String::from_str("Game is over"));
        }
        let player_idx: usize = player.0 as usize;
        let card_pos = match find_card(&self.player_hands[player_idx], &card) {
            Some(i) => i,
            None => {
                return Err(String::from_str("Card not in hand"));
            },
        };
        let ghost m0 = self@;
        proof {
            let h = m0.hands[player_idx as int];
            assert(is_first_position(h, card, first_position(h, card)));
            let j = first_position(h, card);
            assert(j == card_pos as int) by {
                if j < card_pos as int {
                    assert(h[j] != card);
                } else if (card_pos as int) < j {
                    assert(h[card_pos as int] != card);
                }
            }
            if m0.over == false && self.wf() {
                lemma_play_preserves_wf(m0, player_idx as int, card, card_pos as int);
            }
        }
        self.player_hands[player_idx].remove(card_pos);
        let mut captured_cards: Vec<Card> = Vec::new();
        let mut is_kseri = false;
        if self.table_cards.len() > 0 {
            let top = self.table_cards[self.table_cards.len() - 1];
            let should_capture = card.rank == Rank::Jack || top.rank == card.rank;
            if should_capture {
                std::mem::swap(&mut captured_cards, &mut self.table_cards);
                if captured_cards.len() == 1 && card.rank != Rank::Jack && captured_cards[0].rank == card.rank {
                    is_kseri = true;
                    self.kseri_count[player_idx] = self.kseri_count[player_idx] + 1;
                }
                captured_cards.push(card);
                let mut taken = copy_cards(&captured_cards);
                self.player_scores[player_idx].append(&mut taken);
                self.last_capture_player = Some(player);
            } else {
                self.table_cards.push(card);
            }
        } else {
            self.table_cards.push(card);
        }
        self.current_turn = PlayerId(1 - player.0);
        proof {
            let a = place_card(m0, player_idx as int, card);
            assert(self@.hands =~= a.hands);
            assert(self@.won =~= a.won);
            assert(self@.kseri =~= a.kseri);
            assert(self@.table =~= a.table);
            assert(self@ =~= a);
        }
        if self.player_hands[0].len() == 0 && self.player_hands[1].len() == 0 {
            if !self.deal_new_hands() {
                self.handle_game_end();
            }
        }
        Ok(PlayCardResult { captured_cards, is_kseri, game_ended: self.game_over })
    }

    /// Both scores, seat 0 first.
    pub fn calculate_scores(&self) -> (r: [u32; 2])
        requires
            score(self@, 0) <= u32::MAX,
            score(self@, 1) <= u32::MAX,
        ensures
            r[0] as int == score(self@, 0),
            r[1] as int == score(self@, 1),
    {
        let s0 = self.seat_score(0);
        let s1 = self.seat_score(1);
        [s0, s1]
    }

    /// Score of one seat.
    fn seat_score(&self, seat: usize) -> (r: u32)
        requires
            seat < 2,
            score(self@, seat as int) <= u32::MAX,
        ensures
            r as int == score(self@, seat as int),
    {
        let pile = &self.player_scores[seat];
        let ghost w = pile@;
        proof {
            lemma_points_bounds(w);
        }
        let mut total: u32 = 0;
        let mut i: usize = 0;
        while i < pile.len()
            invariant
                i <= w.len(),
                w == pile@,
                total as int == points(w.take(i as int)),
                points(w) + 10 * self.kseri_count[seat as int] <= u32::MAX,
                forall|k: int| 0 <= k <= w.len() ==> #[trigger] points(w.take(k)) <= points(w),
                points(w) >= 0,
            decreases w.len() - i,
        {
            proof {
                assert(w.take(i as int + 1).drop_last() =~= w.take(i as int));
                assert(points(w.take(i as int + 1)) <= points(w));
            }
            total = total + pile[i].kseri_value();
            i = i + 1;
        }
        proof {
            assert(w.take(w.len() as int) =~= w);
        }
        total = total + self.kseri_count[seat] * 10;
        if self.player_scores[seat].len() > MAJORITY {
            total = total + 3;
        }
        total
    }

    /// The winner once the game is over: the higher score, none on a tie.
    pub fn get_winner(&self) -> (r: Option<PlayerId>)
        requires
            score(self@, 0) <= u32::MAX,
            score(self@, 1) <= u32::MAX,
        ensures
            r == winner(self@),
    {
        if !self.game_over {
            return None;
        }
        let scores = self.calculate_scores();
        if scores[0] > scores[1] {
            Some(PlayerId(0))
        } else if scores[1] > scores[0] {
            Some(PlayerId(1))
        } else {
            None
        }
    }

    /// Checks conservation: 52 cards in all, none twice.
    pub fn validate_state(&self) -> (r: Result<(), String>)
        ensures
            r is Ok <==> all_cards(self@).len() == 52 && all_cards(self@).no_duplicates(),
            all_cards(self@).len() != 52 ==> (r matches Err(e) && e@ == "Invalid card count"@),
            all_cards(self@).len() == 52 && !all_cards(self@).no_duplicates() ==> (r matches Err(e)
                && e@ == "Duplicate cards found"@),
    {
        proof {
            reveal_strlit("Invalid card count");
            reveal_strlit("Duplicate cards found");
        }
        let total: u128 = self.deck.len() as u128 + self.player_hands[0].len() as u128
            + self.player_hands[1].len() as u128 + self.table_cards.len() as u128
            + self.player_scores[0].len() as u128 + self.player_scores[1].len() as u128;
        if total != 52 {
            return Err(String::from_str("Invalid card count"));
        }
        let ghost m = self@;
        let mut seen: Vec<bool> = vec![false; 52];
        let ghost none_yet = Seq::<Card>::empty();
        proof {
            assert forall|k: int| 0 <= k < 52 implies #[trigger] seen@[k] == none_yet.contains(card_at(k)) by {}
            assert(none_yet.no_duplicates());
        }
        let ghost upto_deck = none_yet + m.deck;
        let ghost upto_hand0 = upto_deck + m.hands[0];
        let ghost upto_hand1 = upto_hand0 + m.hands[1];
        let ghost upto_table = upto_hand1 + m.table;
        let ghost upto_won0 = upto_table + m.won[0];
        let ghost upto_won1 = upto_won0 + m.won[1];
        proof {
            assert(upto_won1 =~= all_cards(m));
        }
        let ok = mark_pile(&mut seen, &self.deck, Ghost(none_yet))
            && mark_pile(&mut seen, &self.player_hands[0], Ghost(upto_deck))
            && mark_pile(&mut seen, &self.player_hands[1], Ghost(upto_hand0))
            && mark_pile(&mut seen, &self.table_cards, Ghost(upto_hand1))
            && mark_pile(&mut seen, &self.player_scores[0], Ghost(upto_table))
            && mark_pile(&mut seen, &self.player_scores[1], Ghost(upto_won0));
        proof {
            if !ok {
                if !upto_deck.no_duplicates() {
                    lemma_dup_extends(upto_deck, m.hands[0]);
                }
                if !upto_hand0.no_duplicates() {
                    lemma_dup_extends(upto_hand0, m.hands[1]);
                }
                if !upto_hand1.no_duplicates() {
                    lemma_dup_extends(upto_hand1, m.table);
                }
                if !upto_table.no_duplicates() {
                    lemma_dup_extends(upto_table, m.won[0]);
                }
                if !upto_won0.no_duplicates() {
                    lemma_dup_extends(upto_won0, m.won[1]);
                }
            }
        }
        if !ok {
            return Err(String::from_str("Duplicate cards found"));
        }
        Ok(())
    }

    /// The game invariant: the 52 cards are all present exactly once, and the flags agree
    /// with the piles.
    pub open spec fn wf(&self) -> bool {
        model_wf(self@)
    }

    /// Deals up to four cards to each seat, alternating seats, from the top of the deck.
    fn deal_round(&mut self)
        ensures
            (final(self)@.deck, final(self)@.hands) == deal_steps(old(self)@.deck, old(self)@.hands, 8),
            final(self)@.table == old(self)@.table,
            final(self)@.won == old(self)@.won,
            final(self).current_turn == old(self).current_turn,
            final(self).last_capture_player == old(self).last_capture_player,
            final(self).game_over == old(self).game_over,
            final(self).kseri_count == old(self).kseri_count,
    {
        let ghost d0 = self@.deck;
        let ghost h0 = self@.hands;
        let mut k: usize = 0;
        while k < 8
            invariant
                k <= 8,
                (self@.deck, self@.hands) == deal_steps(d0, h0, k as nat),
                self@.table == old(self)@.table,
                self@.won == old(self)@.won,
                self.current_turn == old(self).current_turn,
                self.last_capture_player == old(self).last_capture_player,
                self.game_over == old(self).game_over,
                self.kseri_count == old(self).kseri_count,
            decreases 8 - k,
        {
            let seat: usize = k % 2;
            match self.deck.pop() {
                Some(card) => {
                    self.player_hands[seat].push(card);
                },
                None => {},
            }
            proof {
                assert(self@.hands =~= deal_steps(d0, h0, (k + 1) as nat).1);
            }
            k = k + 1;
        }
    }
}

} // verus!

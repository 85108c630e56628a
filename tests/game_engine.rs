use kseri::card::{Card, PlayerId, Rank, Suit};
use kseri::deck::Deck;
use kseri::game_engine::KseriGameState;

fn c(suit: Suit, rank: Rank) -> Card {
    Card::new(suit, rank)
}

#[test]
fn test_new_game_state() {
    let state = KseriGameState::new();

    assert_eq!(state.deck.len(), 40);
    assert_eq!(state.table_cards.len(), 4);
    assert_eq!(state.player_hands[0].len(), 4);
    assert_eq!(state.player_hands[1].len(), 4);
    assert_eq!(state.player_scores[0].len(), 0);
    assert_eq!(state.player_scores[1].len(), 0);
    assert_eq!(state.current_turn, PlayerId(0));
    assert!(!state.game_over);

    assert!(state.validate_state().is_ok());
}

#[test]
fn test_play_card_capture() {
    let mut state = KseriGameState::new();

    state.table_cards = vec![c(Suit::Hearts, Rank::Seven)];
    state.player_hands[0] = vec![c(Suit::Diamonds, Rank::Seven), c(Suit::Clubs, Rank::Ace)];

    let result = state.play_card(PlayerId(0), c(Suit::Diamonds, Rank::Seven)).unwrap();

    assert_eq!(result.captured_cards.len(), 2);
    assert!(result.is_kseri);
    assert_eq!(state.table_cards.len(), 0);
    assert_eq!(state.player_scores[0].len(), 2);
    assert_eq!(state.current_turn, PlayerId(1));
}

#[test]
fn test_jack_captures_all() {
    let mut state = KseriGameState::new();

    state.table_cards = vec![
        c(Suit::Hearts, Rank::Seven),
        c(Suit::Clubs, Rank::King),
        c(Suit::Diamonds, Rank::Three),
    ];
    state.player_hands[0] = vec![c(Suit::Spades, Rank::Jack)];

    let result = state.play_card(PlayerId(0), c(Suit::Spades, Rank::Jack)).unwrap();

    assert_eq!(result.captured_cards.len(), 4);
    assert!(!result.is_kseri);
    assert_eq!(state.table_cards.len(), 0);
    assert_eq!(state.player_scores[0].len(), 4);
}

/// A consistent game from the canonical deck: `table` and the two hands are taken from it,
/// the rest stays in the deck.
fn arranged(table: &[Card], hand0: &[Card], hand1: &[Card]) -> KseriGameState {
    let mut state = KseriGameState::new();
    let used: Vec<Card> = table.iter().chain(hand0.iter()).chain(hand1.iter()).copied().collect();
    state.deck = Deck::new().cards.into_iter().filter(|x| !used.contains(x)).collect();
    state.table_cards = table.to_vec();
    state.player_hands = [hand0.to_vec(), hand1.to_vec()];
    state.player_scores = [Vec::new(), Vec::new()];
    state.current_turn = PlayerId(0);
    state.last_capture_player = None;
    state.game_over = false;
    state.kseri_count = [0, 0];
    state
}

#[test]
fn match_capture_is_kseri_and_counts() {
    let mut state = arranged(&[c(Suit::Hearts, Rank::Seven)], &[c(Suit::Diamonds, Rank::Seven)], &[c(Suit::Clubs, Rank::Two)]);
    let r = state.play_card(PlayerId(0), c(Suit::Diamonds, Rank::Seven)).unwrap();
    assert_eq!(r.captured_cards, vec![c(Suit::Hearts, Rank::Seven), c(Suit::Diamonds, Rank::Seven)]);
    assert!(r.is_kseri);
    assert_eq!(state.kseri_count, [1, 0]);
    assert_eq!(state.player_scores[0], vec![c(Suit::Hearts, Rank::Seven), c(Suit::Diamonds, Rank::Seven)]);
    assert_eq!(state.last_capture_player, Some(PlayerId(0)));
    assert_eq!(state.current_turn, PlayerId(1));
    assert!(state.validate_state().is_ok());
}

#[test]
fn jack_on_a_lone_card_is_no_kseri() {
    let mut state = arranged(&[c(Suit::Hearts, Rank::Jack)], &[c(Suit::Spades, Rank::Jack)], &[c(Suit::Clubs, Rank::Two)]);
    let r = state.play_card(PlayerId(0), c(Suit::Spades, Rank::Jack)).unwrap();
    assert_eq!(r.captured_cards.len(), 2);
    assert!(!r.is_kseri);
    assert_eq!(state.kseri_count, [0, 0]);
}

#[test]
fn jack_on_empty_table_stays_there() {
    let mut state = arranged(&[], &[c(Suit::Spades, Rank::Jack), c(Suit::Hearts, Rank::Two)], &[c(Suit::Clubs, Rank::Two)]);
    let r = state.play_card(PlayerId(0), c(Suit::Spades, Rank::Jack)).unwrap();
    assert!(r.captured_cards.is_empty());
    assert!(!r.is_kseri);
    assert_eq!(state.table_cards, vec![c(Suit::Spades, Rank::Jack)]);
    assert_eq!(state.last_capture_player, None);
    assert!(state.player_scores[0].is_empty());
}

#[test]
fn top_card_only_decides_a_capture() {
    let mut state = arranged(
        &[c(Suit::Hearts, Rank::Five), c(Suit::Clubs, Rank::King)],
        &[c(Suit::Diamonds, Rank::Five)],
        &[c(Suit::Clubs, Rank::Two)],
    );
    let r = state.play_card(PlayerId(0), c(Suit::Diamonds, Rank::Five)).unwrap();
    assert!(r.captured_cards.is_empty());
    assert_eq!(state.table_cards.len(), 3);
    assert_eq!(state.current_turn, PlayerId(1));
}

#[test]
fn illegal_plays_change_nothing() {
    let mut state = arranged(&[c(Suit::Hearts, Rank::Five)], &[c(Suit::Diamonds, Rank::Five)], &[c(Suit::Clubs, Rank::Two)]);
    let e = state.play_card(PlayerId(1), c(Suit::Clubs, Rank::Two)).err().unwrap();
    assert_eq!(e, "Not your turn");
    let e = state.play_card(PlayerId(0), c(Suit::Clubs, Rank::Two)).err().unwrap();
    assert_eq!(e, "Card not in hand");
    assert_eq!(state.player_hands[0], vec![c(Suit::Diamonds, Rank::Five)]);
    assert_eq!(state.table_cards, vec![c(Suit::Hearts, Rank::Five)]);
    state.game_over = true;
    let e = state.play_card(PlayerId(0), c(Suit::Diamonds, Rank::Five)).err().unwrap();
    assert_eq!(e, "Game is over");
}

#[test]
fn turn_alternates_over_plays() {
    let mut state = KseriGameState::new();
    for _ in 0..6 {
        let turn = state.current_turn;
        let card = state.player_hands[turn.0 as usize][0];
        state.play_card(turn, card).unwrap();
        assert_eq!(state.current_turn, PlayerId(1 - turn.0));
        assert!(state.validate_state().is_ok());
    }
}

#[test]
fn empty_hands_are_refilled_from_the_deck() {
    let mut state = arranged(&[c(Suit::Hearts, Rank::Five)], &[c(Suit::Diamonds, Rank::Nine)], &[]);
    let before = state.deck.len();
    let r = state.play_card(PlayerId(0), c(Suit::Diamonds, Rank::Nine)).unwrap();
    assert!(!r.game_ended);
    assert_eq!(state.deck.len(), before - 8);
    assert_eq!(state.player_hands[0].len(), 4);
    assert_eq!(state.player_hands[1].len(), 4);
    assert_eq!(state.table_cards.len(), 2);
    assert!(state.validate_state().is_ok());
}

#[test]
fn last_card_ends_game_and_awards_table() {
    let deck = Deck::new().cards;
    let table = vec![c(Suit::Hearts, Rank::Five), c(Suit::Clubs, Rank::King)];
    let last = c(Suit::Diamonds, Rank::Nine);
    let mut state = KseriGameState::new();
    let rest: Vec<Card> = deck.into_iter().filter(|x| !table.contains(x) && *x != last).collect();
    state.deck = Vec::new();
    state.table_cards = table.clone();
    state.player_hands = [vec![last], Vec::new()];
    state.player_scores = [rest[..24].to_vec(), rest[24..].to_vec()];
    state.current_turn = PlayerId(0);
    state.last_capture_player = Some(PlayerId(1));
    state.game_over = false;
    state.kseri_count = [0, 0];
    assert!(state.validate_state().is_ok());

    let r = state.play_card(PlayerId(0), last).unwrap();
    assert!(r.game_ended);
    assert!(state.game_over);
    assert!(state.table_cards.is_empty());
    assert_eq!(state.player_scores[1].len(), 25 + 3);
    assert!(state.player_scores[1].ends_with(&[c(Suit::Hearts, Rank::Five), c(Suit::Clubs, Rank::King), last]));
    assert!(state.validate_state().is_ok());
    assert_eq!(state.deal_new_hands(), false);
}

#[test]
fn majority_of_captured_cards_earns_three() {
    let deck = Deck::new().cards;
    let mut state = KseriGameState::new();
    state.deck = Vec::new();
    state.table_cards = Vec::new();
    state.player_hands = [Vec::new(), Vec::new()];
    state.player_scores = [deck[..28].to_vec(), deck[28..].to_vec()];
    state.kseri_count = [0, 0];
    state.game_over = true;
    let points0: u32 = deck[..28].iter().map(|x| x.kseri_value()).sum();
    let points1: u32 = deck[28..].iter().map(|x| x.kseri_value()).sum();
    assert_eq!(state.calculate_scores(), [points0 + 3, points1]);
    // All hearts and diamonds, then the Ace and Two of Clubs: 1 + 1 + 3 + 1 + 1 + 2 points,
    // and 3 for the majority.
    assert_eq!(state.calculate_scores()[0], 12);
    // The rest of the clubs and all spades: only the Ace of Spades counts.
    assert_eq!(state.calculate_scores()[1], 1);
    assert_eq!(state.get_winner(), Some(PlayerId(0)));
}

#[test]
fn equal_piles_earn_no_bonus_and_kseris_count_ten() {
    let deck = Deck::new().cards;
    let mut state = KseriGameState::new();
    state.deck = Vec::new();
    state.table_cards = Vec::new();
    state.player_hands = [Vec::new(), Vec::new()];
    state.player_scores = [deck[..26].to_vec(), deck[26..].to_vec()];
    state.kseri_count = [0, 1];
    let s = state.calculate_scores();
    assert_eq!(s, [1 + 1 + 3 + 1, 1 + 2 + 1 + 10]);
    state.game_over = false;
    assert_eq!(state.get_winner(), None);
    state.game_over = true;
    assert_eq!(state.get_winner(), Some(PlayerId(1)));
    state.kseri_count = [0, 0];
    state.player_scores = [vec![c(Suit::Hearts, Rank::Ace)], vec![c(Suit::Spades, Rank::Ace)]];
    assert_eq!(state.get_winner(), None);
}

#[test]
fn majority_needs_more_than_half_the_deck() {
    let deck = Deck::new().cards;
    let mut state = KseriGameState::new();
    state.player_scores = [deck[13..39].to_vec(), deck[39..44].to_vec()];
    state.kseri_count = [0, 0];
    // Diamonds and clubs: 1 + 3 + 1 + 1 + 2 points, 26 cards, no bonus.
    assert_eq!(state.calculate_scores()[0], 8);
    state.player_scores[0].push(deck[0]);
    // The Ace of Hearts adds 1, and the 27th card the bonus.
    assert_eq!(state.calculate_scores()[0], 12);
}

#[test]
fn scores_do_not_fall_as_a_pile_grows() {
    let deck = Deck::new().cards;
    let mut state = KseriGameState::new();
    state.player_scores = [Vec::new(), deck[40..].to_vec()];
    state.kseri_count = [0, 0];
    let mut last = state.calculate_scores()[0];
    for card in &deck[..40] {
        state.player_scores[0].push(*card);
        let now = state.calculate_scores()[0];
        assert!(now >= last);
        last = now;
    }
}

#[test]
fn validation_reports_count_and_duplicates() {
    let mut state = KseriGameState::new();
    state.deck.pop();
    assert_eq!(state.validate_state().err().unwrap(), "Invalid card count");
    let dup = state.table_cards[0];
    state.deck.push(dup);
    assert_eq!(state.validate_state().err().unwrap(), "Duplicate cards found");
}

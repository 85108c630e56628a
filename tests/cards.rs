use kseri::card::{Card, PlayerId, Rank, Suit};
use kseri::deck::Deck;
use std::collections::HashSet;

#[test]
fn test_card_creation() {
    let card = Card::new(Suit::Hearts, Rank::Ace);
    assert_eq!(card.suit, Suit::Hearts);
    assert_eq!(card.rank, Rank::Ace);
}

#[test]
fn test_card_display() {
    let card = Card::new(Suit::Spades, Rank::King);
    assert_eq!(card.to_string(), "K♠");

    let card2 = Card::new(Suit::Hearts, Rank::Ten);
    assert_eq!(card2.to_string(), "10♥");
}

#[test]
fn test_can_capture() {
    let jack = Card::new(Suit::Hearts, Rank::Jack);
    let five = Card::new(Suit::Diamonds, Rank::Five);
    let another_five = Card::new(Suit::Clubs, Rank::Five);
    let king = Card::new(Suit::Spades, Rank::King);

    assert!(jack.can_capture(&five));
    assert!(jack.can_capture(&king));
    assert!(five.can_capture(&another_five));
    assert!(!five.can_capture(&king));
}

#[test]
fn test_kseri_values() {
    assert_eq!(Card::new(Suit::Clubs, Rank::Two).kseri_value(), 2);
    assert_eq!(Card::new(Suit::Diamonds, Rank::Ten).kseri_value(), 3);
    assert_eq!(Card::new(Suit::Diamonds, Rank::Jack).kseri_value(), 1);

    assert_eq!(Card::new(Suit::Hearts, Rank::Ace).kseri_value(), 1);
    assert_eq!(Card::new(Suit::Spades, Rank::Ace).kseri_value(), 1);

    assert_eq!(Card::new(Suit::Hearts, Rank::Five).kseri_value(), 0);
}

#[test]
fn test_makes_kseri() {
    let five = Card::new(Suit::Hearts, Rank::Five);
    let jack = Card::new(Suit::Spades, Rank::Jack);

    assert!(five.makes_kseri(1));
    assert!(!jack.makes_kseri(1));
    assert!(!five.makes_kseri(3));
}

#[test]
fn test_deck_creation() {
    let deck = Deck::new();
    assert_eq!(deck.remaining(), 52);
    assert!(!deck.is_empty());
}

#[test]
fn test_deck_contains_all_cards() {
    let deck = Deck::new();
    let mut card_set = HashSet::new();

    for card in &deck.cards {
        card_set.insert((card.suit, card.rank));
    }

    assert_eq!(card_set.len(), 52);

    for suit in Suit::all() {
        for rank in Rank::all() {
            assert!(card_set.contains(&(suit, rank)));
        }
    }
}

#[test]
fn test_deck_draw() {
    let mut deck = Deck::new();

    let card = deck.draw();
    assert!(card.is_some());
    assert_eq!(deck.remaining(), 51);

    let cards = deck.draw_many(10);
    assert_eq!(cards.len(), 10);
    assert_eq!(deck.remaining(), 41);

    let remaining = deck.draw_many(100);
    assert_eq!(remaining.len(), 41);
    assert!(deck.is_empty());

    assert!(deck.draw().is_none());
}

#[test]
fn test_deck_shuffle_changes_order() {
    let deck1 = Deck::new();
    let mut deck2 = Deck::new();

    let unshuffled: Vec<Card> = deck1.cards.clone();

    deck2.shuffle();

    assert_ne!(unshuffled, deck2.cards);

    let mut sorted1 = unshuffled;
    let mut sorted2 = deck2.cards.clone();
    sorted1.sort_by_key(|c| (c.suit as u8, c.rank as u8));
    sorted2.sort_by_key(|c| (c.suit as u8, c.rank as u8));
    assert_eq!(sorted1, sorted2);
}

#[test]
fn fresh_deck_order_is_suits_then_ranks() {
    let deck = Deck::new();
    assert_eq!(deck.cards[0], Card::new(Suit::Hearts, Rank::Ace));
    assert_eq!(deck.cards[12], Card::new(Suit::Hearts, Rank::King));
    assert_eq!(deck.cards[13], Card::new(Suit::Diamonds, Rank::Ace));
    assert_eq!(deck.cards[51], Card::new(Suit::Spades, Rank::King));
}

#[test]
fn draw_takes_from_the_top() {
    let mut deck = Deck::new();
    assert_eq!(deck.draw(), Some(Card::new(Suit::Spades, Rank::King)));
    let two = deck.draw_many(2);
    assert_eq!(two, vec![Card::new(Suit::Spades, Rank::Queen), Card::new(Suit::Spades, Rank::Jack)]);
}

#[test]
fn reset_restores_a_full_deck() {
    let mut deck = Deck::new();
    deck.draw_many(30);
    deck.reset();
    assert_eq!(deck.remaining(), 52);
    let set: HashSet<(Suit, Rank)> = deck.cards.iter().map(|c| (c.suit, c.rank)).collect();
    assert_eq!(set.len(), 52);
}

#[test]
fn rank_values_symbols_and_points() {
    assert_eq!(Rank::Ace.value(), 1);
    assert_eq!(Rank::Jack.value(), 11);
    assert_eq!(Rank::King.value(), 13);
    assert_eq!(Rank::Ten.symbol(), "10");
    assert_eq!(Rank::Queen.symbol(), "Q");
    assert_eq!(Suit::Clubs.symbol(), "♣");
    assert_eq!(Rank::Two.kseri_points(), 2);
    assert_eq!(Rank::Seven.kseri_points(), 0);
    assert_eq!(Suit::all(), [Suit::Hearts, Suit::Diamonds, Suit::Clubs, Suit::Spades]);
    assert_eq!(PlayerId(0).opponent(), PlayerId(1));
    assert_eq!(PlayerId(1).opponent(), PlayerId(0));
}

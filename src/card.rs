use vstd::prelude::*;
use vstd::string::StringExecFns;

verus! {

/// The four French suits.
#[derive(Debug, Clone, Copy, PartialEq, Eq, Hash, PartialOrd, Ord, Structural)]
pub enum Suit {
    Hearts,
    Diamonds,
    Clubs,
    Spades,
}

/// Ranks from Ace (1) to King (13).
#[derive(Debug, Clone, Copy, PartialEq, Eq, Hash, PartialOrd, Ord, Structural)]
pub enum Rank {
    Ace,
    Two,
    Three,
    Four,
    Five,
    Six,
    Seven,
    Eight,
    Nine,
    Ten,
    Jack,
    Queen,
    King,
}

/// Position of a suit in the order Hearts, Diamonds, Clubs, Spades.
pub open spec fn suit_index(s: Suit) -> int {
    match s {
        Suit::Hearts => 0,
        Suit::Diamonds => 1,
        Suit::Clubs => 2,
        Suit::Spades => 3,
    }
}

/// The suit at a position of the order Hearts, Diamonds, Clubs, Spades.
pub open spec fn suit_at(i: int) -> Suit {
    if i == 0 {
        Suit::Hearts
    } else if i == 1 {
        Suit::Diamonds
    } else if i == 2 {
        Suit::Clubs
    } else {
        Suit::Spades
    }
}

/// Numeric value of a rank: Ace is 1, King is 13.
pub open spec fn rank_value(r: Rank) -> int {
    match r {
        Rank::Ace => 1,
        Rank::Two => 2,
        Rank::Three => 3,
        Rank::Four => 4,
        Rank::Five => 5,
        Rank::Six => 6,
        Rank::Seven => 7,
        Rank::Eight => 8,
        Rank::Nine => 9,
        Rank::Ten => 10,
        Rank::Jack => 11,
        Rank::Queen => 12,
        Rank::King => 13,
    }
}

/// The rank whose value is `v` (for 1 <= v <= 13).
pub open spec fn rank_of_value(v: int) -> Rank {
    if v == 1 {
        Rank::Ace
    } else if v == 2 {
        Rank::Two
    } else if v == 3 {
        Rank::Three
    } else if v == 4 {
        Rank::Four
    } else if v == 5 {
        Rank::Five
    } else if v == 6 {
        Rank::Six
    } else if v == 7 {
        Rank::Seven
    } else if v == 8 {
        Rank::Eight
    } else if v == 9 {
        Rank::Nine
    } else if v == 10 {
        Rank::Ten
    } else if v == 11 {
        Rank::Jack
    } else if v == 12 {
        Rank::Queen
    } else {
        Rank::King
    }
}

impl Suit {
    /// All suits in their canonical order.
    pub fn all() -> (r: [Suit; 4])
        ensures
            forall|i: int| 0 <= i < 4 ==> #[trigger] r@[i] == suit_at(i),
    {
        [Suit::Hearts, Suit::Diamonds, Suit::Clubs, Suit::Spades]
    }

    /// The suit's symbol as text.
    pub fn symbol(&self) -> (r: &'static str)
        ensures
            r@ == suit_symbol(*self),
    {
        match self {
            Suit::Hearts => {
                proof {
                    reveal_strlit("\u{2665}");
                }
                "\u{2665}"
            },
            Suit::Diamonds => {
                proof {
                    reveal_strlit("\u{2666}");
                }
                "\u{2666}"
            },
            Suit::Clubs => {
                proof {
                    reveal_strlit("\u{2663}");
                }
                "\u{2663}"
            },
            Suit::Spades => {
                proof {
                    reveal_strlit("\u{2660}");
                }
                "\u{2660}"
            },
        }
    }
}

/// The symbol of a suit: one heart, diamond, club or spade character.
pub open spec fn suit_symbol(s: Suit) -> Seq<char> {
    match s {
        Suit::Hearts => seq!['\u{2665}'],
        Suit::Diamonds => seq!['\u{2666}'],
        Suit::Clubs => seq!['\u{2663}'],
        Suit::Spades => seq!['\u{2660}'],
    }
}

/// Text of a rank: its digits for 2 to 10, else A, J, Q or K.
pub open spec fn rank_symbol(r: Rank) -> Seq<char> {
    match r {
        Rank::Ace => seq!['A'],
        Rank::Two => seq!['2'],
        Rank::Three => seq!['3'],
        Rank::Four => seq!['4'],
        Rank::Five => seq!['5'],
        Rank::Six => seq!['6'],
        Rank::Seven => seq!['7'],
        Rank::Eight => seq!['8'],
        Rank::Nine => seq!['9'],
        Rank::Ten => seq!['1', '0'],
        Rank::Jack => seq!['J'],
        Rank::Queen => seq!['Q'],
        Rank::King => seq!['K'],
    }
}

/// Points that a rank carries regardless of suit, as the client displays them.
pub open spec fn rank_points(r: Rank) -> int {
    match r {
        Rank::Ace => 1,
        Rank::Two => 2,
        Rank::Ten => 3,
        Rank::Jack => 1,
        _ => 0,
    }
}

impl Rank {
    /// All ranks from Ace to King.
    pub fn all() -> (r: [Rank; 13])
        ensures
            forall|i: int| 0 <= i < 13 ==> #[trigger] r@[i] == rank_of_value(i + 1),
    {
        [Rank::Ace, Rank::Two, Rank::Three, Rank::Four, Rank::Five, Rank::Six, Rank::Seven, Rank::Eight, Rank::Nine, Rank::Ten, Rank::Jack, Rank::Queen, Rank::King]
    }

    /// Numeric value: Ace is 1, King is 13.
    pub fn value(&self) -> (r: u8)
        ensures
            r as int == rank_value(*self),
    {
        match self {
            Rank::Ace => 1,
            Rank::Two => 2,
            Rank::Three => 3,
            Rank::Four => 4,
            Rank::Five => 5,
            Rank::Six => 6,
            Rank::Seven => 7,
            Rank::Eight => 8,
            Rank::Nine => 9,
            Rank::Ten => 10,
            Rank::Jack => 11,
            Rank::Queen => 12,
            Rank::King => 13,
        }
    }

    /// The rank's text.
    pub fn symbol(&self) -> (r: &'static str)
        ensures
            r@ == rank_symbol(*self),
    {
        match self {
            Rank::Ace => {
                proof {
                    reveal_strlit("A");
                }
                "A"
            },
            Rank::Two => {
                proof {
                    reveal_strlit("2");
                }
                "2"
            },
            Rank::Three => {
                proof {
                    reveal_strlit("3");
                }
                "3"
            },
            Rank::Four => {
                proof {
                    reveal_strlit("4");
                }
                "4"
            },
            Rank::Five => {
                proof {
                    reveal_strlit("5");
                }
                "5"
            },
            Rank::Six => {
                proof {
                    reveal_strlit("6");
                }
                "6"
            },
            Rank::Seven => {
                proof {
                    reveal_strlit("7");
                }
                "7"
            },
            Rank::Eight => {
                proof {
                    reveal_strlit("8");
                }
                "8"
            },
            Rank::Nine => {
                proof {
                    reveal_strlit("9");
                }
                "9"
            },
            Rank::Ten => {
                proof {
                    reveal_strlit("10");
                }
                "10"
            },
            Rank::Jack => {
                proof {
                    reveal_strlit("J");
                }
                "J"
            },
            Rank::Queen => {
                proof {
                    reveal_strlit("Q");
                }
                "Q"
            },
            Rank::King => {
                proof {
                    reveal_strlit("K");
                }
                "K"
            },
        }
    }

    /// Points by rank alone: Ace 1, Two 2, Ten 3, Jack 1, others 0.
    pub fn kseri_points(&self) -> (r: u32)
        ensures
            r as int == rank_points(*self),
    {
        match self {
            Rank::Ace => 1,
            Rank::Two => 2,
            Rank::Ten => 3,
            Rank::Jack => 1,
            _ => 0,
        }
    }
}

/// A playing card.
#[derive(Debug, Clone, Copy, PartialEq, Eq, Hash, Structural)]
pub struct Card {
    pub suit: Suit,
    pub rank: Rank,
}

/// Points of a captured card: Ten of Diamonds 3, Two of Clubs 2, any Ace 1,
/// Jack of Diamonds 1, every other card 0.
pub open spec fn card_points(c: Card) -> int {
    if c.suit == Suit::Diamonds && c.rank == Rank::Ten {
        3
    } else if c.suit == Suit::Clubs && c.rank == Rank::Two {
        2
    } else if c.rank == Rank::Ace {
        1
    } else if c.suit == Suit::Diamonds && c.rank == Rank::Jack {
        1
    } else {
        0
    }
}

/// Text of a card: its rank's text followed by its suit's symbol.
pub open spec fn card_text(c: Card) -> Seq<char> {
    rank_symbol(c.rank) + suit_symbol(c.suit)
}

impl Card {
    pub fn new(suit: Suit, rank: Rank) -> (r: Card)
        ensures
            r == (Card { suit, rank }),
    {
        Card { suit, rank }
    }

    /// Whether this card, played on `other`, takes it: same rank, or this card is a Jack.
    pub fn can_capture(&self, other: &Card) -> (r: bool)
        ensures
            r == (self.rank == other.rank || self.rank == Rank::Jack),
    {
        self.rank == other.rank || self.rank == Rank::Jack
    }

    /// Points this card is worth once captured.
    pub fn kseri_value(&self) -> (r: u32)
        ensures
            r as int == card_points(*self),
    {
        match (self.suit, self.rank) {
            (Suit::Clubs, Rank::Two) => 2,
            (Suit::Diamonds, Rank::Ten) => 3,
            (Suit::Diamonds, Rank::Jack) => 1,
            (_, Rank::Ace) => 1,
            _ => 0,
        }
    }

    /// Whether a matching capture of a table of `table_count` cards with this card is a Kseri:
    /// the table holds exactly one card and this card is not a Jack.
    pub fn makes_kseri(&self, table_count: usize) -> (r: bool)
        ensures
            r == (table_count == 1 && self.rank != Rank::Jack),
    {
        table_count == 1 && self.rank != Rank::Jack
    }

    /// The card as text, such as `10` followed by the heart symbol.
    pub fn to_string(&self) -> (r: String)
        ensures
            r@ == card_text(*self),
    {
        let text = String::from_str(self.rank.symbol());
        text.concat(self.suit.symbol())
    }
}

/// Seat of a player: 0 or 1.
#[derive(Debug, Clone, Copy, PartialEq, Eq, Hash, Structural)]
pub struct PlayerId(pub u8);

/// The other seat of a two-player game.
pub open spec fn other_seat(p: PlayerId) -> PlayerId {
    PlayerId((1 - p.0) as u8)
}

impl PlayerId {
    /// The opponent's seat (seat 0 for every seat but 0).
    pub fn opponent(&self) -> (r: PlayerId)
        ensures
            self.0 < 2 ==> r == other_seat(*self),
    {
        if self.0 == 0 {
            PlayerId(1)
        } else {
            PlayerId(0)
        }
    }
}

/// A copy of a list of cards.
pub fn copy_cards(cards: &Vec<Card>) -> (r: Vec<Card>)
    ensures
        r@ == cards@,
{
    let mut out: Vec<Card> = Vec::with_capacity(cards.len());
    let mut i: usize = 0;
    while i < cards.len()
        invariant
            i <= cards@.len(),
            out@ == cards@.take(i as int),
        decreases cards@.len() - i,
    {
        out.push(cards[i]);
        i = i + 1;
        assert(out@ =~= cards@.take(i as int));
    }
    assert(out@ =~= cards@);
    out
}

} // verus!

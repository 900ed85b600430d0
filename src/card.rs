use vstd::prelude::*;

verus! {

/// The four suits of a playing card.
#[derive(Debug, Clone, Copy, PartialEq, Eq, Hash, Structural)]
pub enum Suit {
    Hearts,
    Diamonds,
    Clubs,
    Spades,
}

impl Suit {
    pub open spec fn spec_symbol(self) -> char {
        match self {
            Suit::Hearts => '♥',
            Suit::Diamonds => '♦',
            Suit::Clubs => '♣',
            Suit::Spades => '♠',
        }
    }

    /// The suit's symbol as a one-character string.
    pub open spec fn spec_symbol_str(self) -> Seq<char> {
        seq![self.spec_symbol()]
    }

    pub fn symbol(&self) -> (c: char)
        ensures
            c == self.spec_symbol(),
    {
        match self {
            Suit::Hearts => '♥',
            Suit::Diamonds => '♦',
            Suit::Clubs => '♣',
            Suit::Spades => '♠',
        }
    }

    pub(crate) fn symbol_str(&self) -> (s: &'static str)
        ensures
            s@ == self.spec_symbol_str(),
    {
        match self {
            Suit::Hearts => {
                proof {
                    reveal_strlit("♥");
                }
                "♥"
            },
            Suit::Diamonds => {
                proof {
                    reveal_strlit("♦");
                }
                "♦"
            },
            Suit::Clubs => {
                proof {
                    reveal_strlit("♣");
                }
                "♣"
            },
            Suit::Spades => {
                proof {
                    reveal_strlit("♠");
                }
                "♠"
            },
        }
    }

    pub open spec fn spec_is_red(self) -> bool {
        self == Suit::Hearts || self == Suit::Diamonds
    }

    /// Hearts and Diamonds are red; Clubs and Spades are black.
    pub fn is_red(&self) -> (r: bool)
        ensures
            r == self.spec_is_red(),
    {
        match self {
            Suit::Hearts | Suit::Diamonds => true,
            _ => false,
        }
    }
}

/// The ranks of a card: the numbered ranks, the Ace (animal companion), the
/// three face ranks that enemies are made of, and the Jester.
#[derive(Debug, Clone, Copy, PartialEq, Eq, Hash, Structural)]
pub enum Rank {
    Two,
    Three,
    Four,
    Five,
    Six,
    Seven,
    Eight,
    Nine,
    Ten,
    Ace,
    Jack,
    Queen,
    King,
    Jester,
}

impl Rank {
    /// The value of the rank when played or discarded.
    pub open spec fn spec_value(self) -> u8 {
        match self {
            Rank::Ace => 1,
            Rank::Two => 2,
            Rank::Three => 3,
            Rank::Four => 4,
            Rank::Five => 5,
            Rank::Six => 6,
            Rank::Seven => 7,
            Rank::Eight => 8,
            Rank::Nine => 9,
            Rank::Ten => 10,
            Rank::Jack => 10,
            Rank::Queen => 15,
            Rank::King => 20,
            Rank::Jester => 0,
        }
    }

    /// Jack, Queen and King: the ranks an enemy can have.
    pub open spec fn is_face(self) -> bool {
        self == Rank::Jack || self == Rank::Queen || self == Rank::King
    }

    /// Ace through Ten: the ranks the player's deck is built from.
    pub open spec fn is_numeric(self) -> bool {
        !self.is_face() && self != Rank::Jester
    }

    /// Returns the base value of the rank when played or discarded.
    pub fn value(&self) -> (v: u8)
        ensures
            v == self.spec_value(),
            v <= 20,
    {
        match self {
            Rank::Ace => 1,
            Rank::Two => 2,
            Rank::Three => 3,
            Rank::Four => 4,
            Rank::Five => 5,
            Rank::Six => 6,
            Rank::Seven => 7,
            Rank::Eight => 8,
            Rank::Nine => 9,
            Rank::Ten => 10,
            Rank::Jack => 10,
            Rank::Queen => 15,
            Rank::King => 20,
            Rank::Jester => 0,
        }
    }

    pub open spec fn spec_display(self) -> Seq<char> {
        match self {
            Rank::Ace => "A"@,
            Rank::Two => "2"@,
            Rank::Three => "3"@,
            Rank::Four => "4"@,
            Rank::Five => "5"@,
            Rank::Six => "6"@,
            Rank::Seven => "7"@,
            Rank::Eight => "8"@,
            Rank::Nine => "9"@,
            Rank::Ten => "10"@,
            Rank::Jack => "J"@,
            Rank::Queen => "Q"@,
            Rank::King => "K"@,
            Rank::Jester => "*"@,
        }
    }

    /// The short label of the rank ("A", "2", ..., "10", "J", "Q", "K", "*").
    pub fn display(&self) -> (s: String)
        ensures
            s@ == self.spec_display(),
    {
        let label = match self {
            Rank::Ace => "A",
            Rank::Two => "2",
            Rank::Three => "3",
            Rank::Four => "4",
            Rank::Five => "5",
            Rank::Six => "6",
            Rank::Seven => "7",
            Rank::Eight => "8",
            Rank::Nine => "9",
            Rank::Ten => "10",
            Rank::Jack => "J",
            Rank::Queen => "Q",
            Rank::King => "K",
            Rank::Jester => "*",
        };
        String::from_str(label)
    }
}

/// A playing card.
#[derive(Debug, Clone, Copy, PartialEq, Eq, Hash, Structural)]
pub struct Card {
    pub suit: Suit,
    pub rank: Rank,
}

impl Card {
    pub fn new(suit: Suit, rank: Rank) -> (c: Card)
        ensures
            c == (Card { suit, rank }),
    {
        Card { suit, rank }
    }

    pub open spec fn spec_value(self) -> u8 {
        self.rank.spec_value()
    }

    /// Returns the attack value of the card.
    pub fn value(&self) -> (v: u8)
        ensures
            v == self.spec_value(),
            v <= 20,
    {
        self.rank.value()
    }

    /// Returns true if this is an animal companion (an Ace).
    pub fn is_companion(&self) -> (r: bool)
        ensures
            r == (self.rank == Rank::Ace),
    {
        self.rank == Rank::Ace
    }

    /// Returns true if this is a Jester.
    pub fn is_jester(&self) -> (r: bool)
        ensures
            r == (self.rank == Rank::Jester),
    {
        self.rank == Rank::Jester
    }

    pub open spec fn spec_display(self) -> Seq<char> {
        self.rank.spec_display() + self.suit.spec_symbol_str()
    }

    /// The card's label: its rank's label followed by its suit's symbol.
    pub fn display(&self) -> (s: String)
        ensures
            s@ == self.spec_display(),
    {
        let label = self.rank.display();
        label.concat(self.suit.symbol_str())
    }
}

/// The summed value of a sequence of cards.
pub open spec fn sum_values(cards: Seq<Card>) -> nat
    decreases cards.len(),
{
    if cards.len() == 0 {
        0
    } else {
        sum_values(cards.drop_last()) + cards.last().spec_value() as nat
    }
}

/// Summing a concatenation sums the parts.
pub proof fn lemma_sum_values_concat(a: Seq<Card>, b: Seq<Card>)
    ensures
        sum_values(a + b) == sum_values(a) + sum_values(b),
    decreases b.len(),
{
    if b.len() == 0 {
        assert(a + b =~= a);
    } else {
        lemma_sum_values_concat(a, b.drop_last());
        assert((a + b).drop_last() =~= a + b.drop_last());
    }
}

/// No card is worth more than twenty.
pub proof fn lemma_sum_values_bound(cards: Seq<Card>)
    ensures
        sum_values(cards) <= 20 * cards.len(),
    decreases cards.len(),
{
    if cards.len() > 0 {
        lemma_sum_values_bound(cards.drop_last());
    }
}

} // verus!

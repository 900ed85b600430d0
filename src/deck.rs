use crate::card::{Card, Rank, Suit};
use rand::seq::SliceRandom;
use vstd::prelude::*;

verus! {

broadcast use vstd::seq_lib::group_to_multiset_ensures;

/// Relies on rand's `SliceRandom::shuffle` with the thread-local generator:
/// it only swaps elements, so the result is a permutation of the input.
#[verifier::external_body]
fn shuffle_cards(cards: &mut Vec<Card>)
    ensures
        final(cards)@.len() == old(cards)@.len(),
        final(cards)@.to_multiset() == old(cards)@.to_multiset(),
{
    cards.shuffle(&mut rand::thread_rng());
}

/// The suit at position `i` (0 to 3) of the order Hearts, Diamonds, Clubs, Spades.
pub open spec fn suit_at(i: int) -> Suit {
    if i == 0 {
        Suit::Hearts
    } else if i == 1 {
        Suit::Diamonds
    } else if i == 2 {
        Suit::Clubs
    } else {
        Suit::Spades
    }
}

pub open spec fn suit_index(s: Suit) -> int {
    match s {
        Suit::Hearts => 0,
        Suit::Diamonds => 1,
        Suit::Clubs => 2,
        Suit::Spades => 3,
    }
}

/// The numeric rank of value `i + 1`, for `i` from 0 (Ace) to 9 (Ten).
pub open spec fn numeric_rank_at(i: int) -> Rank {
    if i == 0 {
        Rank::Ace
    } else if i == 1 {
        Rank::Two
    } else if i == 2 {
        Rank::Three
    } else if i == 3 {
        Rank::Four
    } else if i == 4 {
        Rank::Five
    } else if i == 5 {
        Rank::Six
    } else if i == 6 {
        Rank::Seven
    } else if i == 7 {
        Rank::Eight
    } else if i == 8 {
        Rank::Nine
    } else {
        Rank::Ten
    }
}

/// The face rank of castle layer `i`: Jacks on top, then Queens, then Kings.
pub open spec fn layer_rank(i: int) -> Rank {
    if i == 0 {
        Rank::Jack
    } else if i == 1 {
        Rank::Queen
    } else {
        Rank::King
    }
}

/// The four cards of one rank, one of each suit.
pub open spec fn full_layer(r: Rank) -> Seq<Card> {
    seq![
        Card { suit: Suit::Hearts, rank: r },
        Card { suit: Suit::Diamonds, rank: r },
        Card { suit: Suit::Clubs, rank: r },
        Card { suit: Suit::Spades, rank: r },
    ]
}

/// The card that stands for a Jester in the player's deck.
pub open spec fn jester_card() -> Card {
    Card { suit: Suit::Hearts, rank: Rank::Jester }
}

/// How often `c` occurs in a fresh player deck with `jesters` Jesters: each
/// numeric card once, the Jester `jesters` times, nothing else.
pub open spec fn tavern_count(c: Card, jesters: nat) -> nat {
    if c.rank.is_numeric() {
        1
    } else if c == jester_card() {
        jesters
    } else {
        0
    }
}

/// The position of a numeric card in suit-major order; used to build the
/// player's deck one card at a time.
spec fn numeric_position(c: Card) -> int {
    suit_index(c.suit) * 10 + (c.rank.spec_value() - 1)
}

/// Twelve face cards in three layers of four, Jacks on top, then Queens,
/// then Kings, each layer holding one card of every suit.
pub open spec fn castle_layout(cards: Seq<Card>) -> bool {
    &&& cards.len() == 12
    &&& forall|i: int| 0 <= i < 12 ==> #[trigger] cards[i].rank == layer_rank(i / 4)
    &&& forall|k: int|
        0 <= k < 3 ==> (#[trigger] cards.subrange(4 * k, 4 * k + 4)).to_multiset()
            == full_layer(layer_rank(k)).to_multiset()
}

/// Every card from Ace to Ten of every suit once, and `jesters` Jesters.
pub open spec fn tavern_layout(cards: Seq<Card>, jesters: nat) -> bool {
    &&& cards.len() == 40 + jesters
    &&& forall|c: Card| cards.to_multiset().count(c) == #[trigger] tavern_count(c, jesters)
}

/// How many cards of rank `r` a sequence of cards holds.
pub open spec fn rank_count(cards: Seq<Card>, r: Rank) -> nat {
    let m = cards.to_multiset();
    m.count(Card { suit: Suit::Hearts, rank: r }) + m.count(Card { suit: Suit::Diamonds, rank: r })
        + m.count(Card { suit: Suit::Clubs, rank: r }) + m.count(Card { suit: Suit::Spades, rank: r })
}

/// A player's deck built without Jesters holds forty cards: four of each rank
/// from Ace to Ten, and nothing else.
pub proof fn lemma_tavern_rank_counts(cards: Seq<Card>)
    requires
        tavern_layout(cards, 0),
    ensures
        cards.len() == 40,
        forall|r: Rank| #[trigger] rank_count(cards, r) == if r.is_numeric() { 4nat } else { 0nat },
{
    assert forall|r: Rank| #[trigger] rank_count(cards, r) == if r.is_numeric() { 4nat } else { 0nat } by {
        assert(tavern_count(Card { suit: Suit::Hearts, rank: r }, 0) == cards.to_multiset().count(Card { suit: Suit::Hearts, rank: r }));
        assert(tavern_count(Card { suit: Suit::Diamonds, rank: r }, 0) == cards.to_multiset().count(Card { suit: Suit::Diamonds, rank: r }));
        assert(tavern_count(Card { suit: Suit::Clubs, rank: r }, 0) == cards.to_multiset().count(Card { suit: Suit::Clubs, rank: r }));
        assert(tavern_count(Card { suit: Suit::Spades, rank: r }, 0) == cards.to_multiset().count(Card { suit: Suit::Spades, rank: r }));
    }
}

fn suit_from_index(i: usize) -> (s: Suit)
    requires
        i < 4,
    ensures
        s == suit_at(i as int),
{
    if i == 0 {
        Suit::Hearts
    } else if i == 1 {
        Suit::Diamonds
    } else if i == 2 {
        Suit::Clubs
    } else {
        Suit::Spades
    }
}

fn numeric_rank_from_index(i: usize) -> (r: Rank)
    requires
        i < 10,
    ensures
        r == numeric_rank_at(i as int),
{
    if i == 0 {
        Rank::Ace
    } else if i == 1 {
        Rank::Two
    } else if i == 2 {
        Rank::Three
    } else if i == 3 {
        Rank::Four
    } else if i == 4 {
        Rank::Five
    } else if i == 5 {
        Rank::Six
    } else if i == 6 {
        Rank::Seven
    } else if i == 7 {
        Rank::Eight
    } else if i == 8 {
        Rank::Nine
    } else {
        Rank::Ten
    }
}

/// A numeric card sits at exactly one position, and that position names it.
proof fn lemma_numeric_position(c: Card, k: int)
    requires
        0 <= k < 40,
    ensures
        c.rank.is_numeric() ==> (c == (Card { suit: suit_at(k / 10), rank: numeric_rank_at(k % 10) })
            <==> numeric_position(c) == k),
        (Card { suit: suit_at(k / 10), rank: numeric_rank_at(k % 10) }).rank.is_numeric(),
{
}

/// An ordered pile of cards; the front of `cards` is the top.
#[derive(Debug, Clone)]
pub struct Deck {
    pub cards: Vec<Card>,
}

impl Deck {
    pub fn new() -> (d: Deck)
        ensures
            d.cards@ == Seq::<Card>::empty(),
    {
        Deck { cards: Vec::new() }
    }

    pub fn len(&self) -> (n: usize)
        ensures
            n == self.cards@.len(),
    {
        self.cards.len()
    }

    pub fn is_empty(&self) -> (r: bool)
        ensures
            r == (self.cards@.len() == 0),
    {
        self.cards.len() == 0
    }

    /// Removes and returns the top card, or `None` when the deck is empty.
    pub fn draw(&mut self) -> (c: Option<Card>)
        ensures
            old(self).cards@.len() == 0 ==> c.is_none() && final(self).cards@ == old(self).cards@,
            old(self).cards@.len() > 0 ==> c == Some(old(self).cards@[0]) && final(self).cards@
                == old(self).cards@.drop_first(),
    {
        if self.cards.len() == 0 {
            None
        } else {
            Some(self.cards.remove(0))
        }
    }

    /// Draws up to `n` cards from the top, fewer when the deck runs out.
    pub fn draw_multiple(&mut self, n: usize) -> (drawn: Vec<Card>)
        ensures
            drawn@.len() == if n < old(self).cards@.len() { n as int } else { old(self).cards@.len() as int },
            old(self).cards@ == drawn@ + final(self).cards@,
    {
        let mut drawn: Vec<Card> = Vec::new();
        while drawn.len() < n && self.cards.len() > 0
            invariant
                drawn@.len() <= n,
                old(self).cards@ == drawn@ + self.cards@,
            decreases self.cards@.len(),
        {
            let c = self.cards.remove(0);
            drawn.push(c);
            assert(old(self).cards@ =~= drawn@ + self.cards@);
        }
        drawn
    }

    /// Puts a card on top of the deck.
    pub fn add_to_top(&mut self, card: Card)
        ensures
            final(self).cards@ == seq![card] + old(self).cards@,
    {
        self.cards.insert(0, card);
        assert(self.cards@ =~= seq![card] + old(self).cards@);
    }

    /// Puts cards under the deck, keeping their order.
    pub fn add_multiple_to_bottom(&mut self, cards: Vec<Card>)
        ensures
            final(self).cards@ == old(self).cards@ + cards@,
    {
        let mut cards = cards;
        self.cards.append(&mut cards);
    }

    /// Puts the cards in a random order.
    pub fn shuffle(&mut self)
        ensures
            final(self).cards@.len() == old(self).cards@.len(),
            final(self).cards@.to_multiset() == old(self).cards@.to_multiset(),
    {
        shuffle_cards(&mut self.cards);
    }

    /// The castle: twelve enemies in three layers of four, Jacks on top, then
    /// Queens, then Kings, each layer holding one card of every suit in a
    /// random order.
    pub fn create_castle_deck() -> (d: Deck)
        ensures
            castle_layout(d.cards@),
    {
        let mut cards: Vec<Card> = Vec::new();
        let mut k: usize = 0;
        while k < 3
            invariant
                k <= 3,
                cards@.len() == 4 * k,
                forall|i: int| 0 <= i < 4 * k ==> #[trigger] cards@[i].rank == layer_rank(i / 4),
                forall|j: int|
                    0 <= j < k ==> (#[trigger] cards@.subrange(4 * j, 4 * j + 4)).to_multiset()
                        == full_layer(layer_rank(j)).to_multiset(),
            decreases 3 - k,
        {
            let rank = if k == 0 {
                Rank::Jack
            } else if k == 1 {
                Rank::Queen
            } else {
                Rank::King
            };
            let mut layer: Vec<Card> = vec![
                Card::new(Suit::Hearts, rank),
                Card::new(Suit::Diamonds, rank),
                Card::new(Suit::Clubs, rank),
                Card::new(Suit::Spades, rank),
            ];
            assert(layer@ =~= full_layer(layer_rank(k as int)));
            shuffle_cards(&mut layer);
            let ghost shuffled = layer@;
            let ghost fl = full_layer(layer_rank(k as int));
            assert forall|i: int| 0 <= i < 4 implies #[trigger] shuffled[i].rank == rank by {
                let x = shuffled[i];
                assert(shuffled.contains(x));
                assert(shuffled.to_multiset().count(x) > 0);
                assert(fl.to_multiset().count(x) > 0);
                assert(fl.contains(x));
                let m = choose|m: int| 0 <= m < fl.len() && fl[m] == x;
                assert(fl[m].rank == rank);
            }
            let ghost before = cards@;
            cards.append(&mut layer);
            assert(cards@.subrange(4 * k as int, 4 * k as int + 4) =~= shuffled);
            assert forall|j: int| 0 <= j < k implies #[trigger] cards@.subrange(4 * j, 4 * j + 4)
                =~= before.subrange(4 * j, 4 * j + 4) by {}
            assert forall|i: int| 0 <= i < 4 * (k + 1) implies #[trigger] cards@[i].rank == layer_rank(i / 4) by {
                if i >= 4 * k {
                    assert(cards@[i] == shuffled[i - 4 * k]);
                } else {
                    assert(cards@[i] == before[i]);
                }
            }
            k = k + 1;
        }
        Deck { cards }
    }

    /// The player's deck: every card from Ace to Ten of every suit, and
    /// `num_jesters` Jesters, in a random order.
    pub fn create_tavern_deck(num_jesters: usize) -> (d: Deck)
        requires
            num_jesters <= usize::MAX - 40,
        ensures
            tavern_layout(d.cards@, num_jesters as nat),
    {
        let mut cards: Vec<Card> = Vec::new();
        let mut k: usize = 0;
        while k < 40
            invariant
                k <= 40,
                cards@.len() == k,
                forall|c: Card| #[trigger] cards@.to_multiset().count(c) == if c.rank.is_numeric() && numeric_position(c) < k { 1nat } else { 0nat },
            decreases 40 - k,
        {
            let card = Card::new(suit_from_index(k / 10), numeric_rank_from_index(k % 10));
            let ghost before = cards@;
            cards.push(card);
            assert forall|c: Card| #[trigger] cards@.to_multiset().count(c) == if c.rank.is_numeric() && numeric_position(c) < k + 1 { 1nat } else { 0nat } by {
                lemma_numeric_position(c, k as int);
                assert(cards@ == before.push(card));
            }
            k = k + 1;
        }
        let mut j: usize = 0;
        while j < num_jesters
            invariant
                j <= num_jesters,
                num_jesters <= usize::MAX - 40,
                cards@.len() == 40 + j,
                forall|c: Card| #[trigger] cards@.to_multiset().count(c) == if c.rank.is_numeric() { 1nat } else if c == jester_card() { j as nat } else { 0nat },
            decreases num_jesters - j,
        {
            let ghost before = cards@;
            cards.push(Card::new(Suit::Hearts, Rank::Jester));
            assert forall|c: Card| #[trigger] cards@.to_multiset().count(c) == if c.rank.is_numeric() { 1nat } else if c == jester_card() { j as nat + 1 } else { 0nat } by {
                assert(cards@ == before.push(jester_card()));
            }
            j = j + 1;
        }
        let mut deck = Deck { cards };
        deck.shuffle();
        deck
    }
}

} // verus!

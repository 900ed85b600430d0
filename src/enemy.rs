use crate::card::{Card, Rank, Suit};
use vstd::prelude::*;

verus! {

/// Hit points of an enemy of the given face rank.
pub open spec fn max_hp_of(rank: Rank) -> u8 {
    match rank {
        Rank::Jack => 20,
        Rank::Queen => 30,
        _ => 40,
    }
}

/// Attack power of an enemy of the given face rank.
pub open spec fn attack_of(rank: Rank) -> u8 {
    match rank {
        Rank::Jack => 10,
        Rank::Queen => 15,
        _ => 20,
    }
}

/// `n` copies of the character `c`.
pub open spec fn repeated(c: char, n: nat) -> Seq<char> {
    Seq::new(n, |i: int| c)
}

/// An enemy of the castle, made from one face card.
#[derive(Debug, Clone, Copy)]
pub struct Enemy {
    pub card: Card,
    pub max_hp: u8,
    pub current_hp: u8,
    pub attack: u8,
    /// Set once a Jester has been played against this enemy.
    pub immunity_cancelled: bool,
}

impl Enemy {
    /// A face card, with the hit points and attack of its rank, and hit points
    /// never above the maximum.
    pub open spec fn wf(&self) -> bool {
        &&& self.card.rank.is_face()
        &&& self.max_hp == max_hp_of(self.card.rank)
        &&& self.attack == attack_of(self.card.rank)
        &&& self.current_hp <= self.max_hp
    }

    pub open spec fn spec_is_immune_to(&self, suit: Suit) -> bool {
        !self.immunity_cancelled && self.card.suit == suit
    }

    pub open spec fn spec_attack_after_shields(&self, shield_value: u8) -> u8 {
        if self.attack > shield_value {
            (self.attack - shield_value) as u8
        } else {
            0
        }
    }

    /// Creates an enemy at full health from a face card.
    pub fn new(card: Card) -> (e: Enemy)
        requires
            card.rank.is_face(),
        ensures
            e.wf(),
            e.card == card,
            e.current_hp == e.max_hp,
            !e.immunity_cancelled,
    {
        let (max_hp, attack): (u8, u8) = match card.rank {
            Rank::Jack => (20, 10),
            Rank::Queen => (30, 15),
            _ => (40, 20),
        };
        Enemy { card, max_hp, current_hp: max_hp, attack, immunity_cancelled: false }
    }

    /// Whether the enemy blocks the power of cards of the given suit: its own
    /// suit, until a Jester cancels the immunity.
    pub fn is_immune_to(&self, card_suit: Suit) -> (r: bool)
        ensures
            r == self.spec_is_immune_to(card_suit),
    {
        !self.immunity_cancelled && self.card.suit == card_suit
    }

    /// Applies damage; hit points stop at zero.
    pub fn take_damage(&mut self, damage: u8)
        ensures
            final(self).current_hp == (if old(self).current_hp > damage {
                (old(self).current_hp - damage) as u8
            } else {
                0u8
            }),
            final(self).card == old(self).card,
            final(self).max_hp == old(self).max_hp,
            final(self).attack == old(self).attack,
            final(self).immunity_cancelled == old(self).immunity_cancelled,
    {
        self.current_hp = self.current_hp.saturating_sub(damage);
    }

    pub fn is_defeated(&self) -> (r: bool)
        ensures
            r == (self.current_hp == 0),
    {
        self.current_hp == 0
    }

    /// Whether the damage dealt this encounter equals the enemy's hit points
    /// exactly, which captures the enemy.
    pub fn defeated_exactly(&self, total_damage: u8) -> (r: bool)
        ensures
            r == (total_damage == self.max_hp),
    {
        total_damage == self.max_hp
    }

    /// Cancels the enemy's immunity for good.
    pub fn cancel_immunity(&mut self)
        ensures
            final(self).immunity_cancelled,
            final(self).card == old(self).card,
            final(self).max_hp == old(self).max_hp,
            final(self).current_hp == old(self).current_hp,
            final(self).attack == old(self).attack,
    {
        self.immunity_cancelled = true;
    }

    /// The enemy's attack reduced by the shield, never below zero.
    pub fn get_attack_after_shields(&self, shield_value: u8) -> (r: u8)
        ensures
            r == self.spec_attack_after_shields(shield_value),
    {
        self.attack.saturating_sub(shield_value)
    }

    pub open spec fn spec_name(&self) -> Seq<char> {
        let rank_name = match self.card.rank {
            Rank::Jack => "Jack"@,
            Rank::Queen => "Queen"@,
            Rank::King => "King"@,
            _ => "Unknown"@,
        };
        let suit_name = match self.card.suit {
            Suit::Hearts => "Hearts"@,
            Suit::Diamonds => "Diamonds"@,
            Suit::Clubs => "Clubs"@,
            Suit::Spades => "Spades"@,
        };
        rank_name + " of "@ + suit_name
    }

    /// The enemy's name, such as "Queen of Spades".
    pub fn name(&self) -> (s: String)
        ensures
            s@ == self.spec_name(),
    {
        let rank_name = match self.card.rank {
            Rank::Jack => "Jack",
            Rank::Queen => "Queen",
            Rank::King => "King",
            _ => "Unknown",
        };
        let suit_name = match self.card.suit {
            Suit::Hearts => "Hearts",
            Suit::Diamonds => "Diamonds",
            Suit::Clubs => "Clubs",
            Suit::Spades => "Spades",
        };
        let s = String::from_str(rank_name);
        let s = s.concat(" of ");
        s.concat(suit_name)
    }

    /// How many of `width` cells of a health bar are filled: the share of hit
    /// points left, rounded down.
    pub open spec fn bar_filled(&self, width: nat) -> nat {
        (self.current_hp as nat * width) / (self.max_hp as nat)
    }

    pub open spec fn spec_hp_bar(&self, width: nat) -> Seq<char> {
        let filled = self.bar_filled(width);
        seq!['['] + repeated('█', filled) + repeated(' ', (width - filled) as nat) + seq![']']
    }

    /// The health bar: `width` cells between brackets, the filled ones first.
    pub fn hp_bar(&self, width: usize) -> (s: String)
        requires
            self.wf(),
        ensures
            s@ == self.spec_hp_bar(width as nat),
    {
        assert((self.current_hp as u128) * (width as u128) <= 255 * 0x1_0000_0000_0000_0000u128)
            by (nonlinear_arith)
            requires
                self.current_hp <= 255,
                width < 0x1_0000_0000_0000_0000u128,
        ;
        let product: u128 = (self.current_hp as u128) * (width as u128);
        let filled_wide: u128 = product / (self.max_hp as u128);
        proof {
            assert(filled_wide <= width) by (nonlinear_arith)
                requires
                    filled_wide == product / (self.max_hp as u128),
                    product == (self.current_hp as u128) * (width as u128),
                    self.current_hp <= self.max_hp,
                    self.max_hp > 0,
            ;
        }
        let filled: usize = filled_wide as usize;
        let empty: usize = width - filled;
        proof {
            reveal_strlit("[");
            reveal_strlit("]");
            reveal_strlit("█");
            reveal_strlit(" ");
        }
        let mut s = String::from_str("[");
        let mut i: usize = 0;
        while i < filled
            invariant
                i <= filled,
                s@ == seq!['['] + repeated('█', i as nat),
            decreases filled - i,
        {
            proof {
                reveal_strlit("█");
            }
            s.append("█");
            i = i + 1;
            assert(s@ =~= seq!['['] + repeated('█', i as nat));
        }
        let mut j: usize = 0;
        while j < empty
            invariant
                j <= empty,
                s@ == seq!['['] + repeated('█', filled as nat) + repeated(' ', j as nat),
            decreases empty - j,
        {
            proof {
                reveal_strlit(" ");
            }
            s.append(" ");
            j = j + 1;
            assert(s@ =~= seq!['['] + repeated('█', filled as nat) + repeated(' ', j as nat));
        }
        s.append("]");
        s
    }
}

} // verus!

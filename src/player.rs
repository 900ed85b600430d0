use crate::card::{Card, sum_values, lemma_sum_values_bound};
use vstd::prelude::*;

verus! {

/// The largest hand a player can hold.
pub const MAX_HAND_SIZE: usize = 8;

/// Indices that name distinct positions of a hand of `len` cards.
pub open spec fn valid_indices(len: nat, idx: Seq<usize>) -> bool {
    &&& forall|i: int| 0 <= i < idx.len() ==> #[trigger] idx[i] < len
    &&& idx.no_duplicates()
}

/// The cards at the given positions, in the order of the positions.
pub open spec fn selected(hand: Seq<Card>, idx: Seq<usize>) -> Seq<Card> {
    idx.map_values(|i: usize| hand[i as int])
}

/// The hand with the given positions taken out, the rest in their order.
pub open spec fn without_positions(hand: Seq<Card>, idx: Seq<usize>) -> Seq<Card>
    decreases hand.len(),
{
    if hand.len() == 0 {
        Seq::empty()
    } else {
        let rest = without_positions(hand.drop_last(), idx);
        if idx.contains((hand.len() - 1) as usize) {
            rest
        } else {
            rest.push(hand.last())
        }
    }
}

/// Taking out distinct positions leaves as many cards fewer.
pub proof fn lemma_without_positions_len(hand: Seq<Card>, idx: Seq<usize>)
    requires
        valid_indices(hand.len(), idx),
        hand.len() <= usize::MAX,
    ensures
        without_positions(hand, idx).len() == hand.len() - idx.len(),
    decreases hand.len(),
{
    if hand.len() == 0 {
        assert(idx.len() == 0) by {
            if idx.len() > 0 {
                assert(idx[0] < 0);
            }
        }
    } else {
        let last = (hand.len() - 1) as usize;
        if idx.contains(last) {
            let k = choose|k: int| 0 <= k < idx.len() && idx[k] == last;
            let idx2 = idx.remove(k);
            assert forall|i: int| 0 <= i < idx2.len() implies #[trigger] idx2[i] < hand.len() - 1 by {
                if i < k {
                    assert(idx2[i] == idx[i]);
                } else {
                    assert(idx2[i] == idx[i + 1]);
                }
            }
            assert(idx2.no_duplicates());
            assert forall|i: usize| i < hand.len() - 1 implies (idx.contains(i) <==> idx2.contains(i)) by {
                if idx.contains(i) {
                    let m = choose|m: int| 0 <= m < idx.len() && idx[m] == i;
                    assert(m != k);
                    if m < k {
                        assert(idx2[m] == i);
                    } else {
                        assert(idx2[m - 1] == i);
                    }
                }
                if idx2.contains(i) {
                    let m = choose|m: int| 0 <= m < idx2.len() && idx2[m] == i;
                    if m < k {
                        assert(idx[m] == i);
                    } else {
                        assert(idx[m + 1] == i);
                    }
                }
            }
            lemma_without_positions_len(hand.drop_last(), idx2);
            lemma_without_positions_agree(hand.drop_last(), idx, idx2);
        } else {
            assert forall|i: int| 0 <= i < idx.len() implies #[trigger] idx[i] < hand.len() - 1 by {
                assert(idx[i] != last);
            }
            lemma_without_positions_len(hand.drop_last(), idx);
        }
    }
}

/// Two index lists that agree on the positions of a hand select the same rest.
proof fn lemma_without_positions_agree(hand: Seq<Card>, a: Seq<usize>, b: Seq<usize>)
    requires
        forall|i: usize|
            #![trigger a.contains(i)]
            #![trigger b.contains(i)]
            i < hand.len() ==> (a.contains(i) <==> b.contains(i)),
    ensures
        without_positions(hand, a) == without_positions(hand, b),
    decreases hand.len(),
{
    if hand.len() > 0 {
        lemma_without_positions_agree(hand.drop_last(), a, b);
        assert(a.contains((hand.len() - 1) as usize) <==> b.contains((hand.len() - 1) as usize));
    }
}

/// The hero: a hand of cards with a fixed maximum size.
#[derive(Debug, Clone)]
pub struct Player {
    pub name: String,
    pub hand: Vec<Card>,
    pub max_hand_size: usize,
}

impl Player {
    pub open spec fn wf(&self) -> bool {
        self.hand@.len() <= self.max_hand_size <= MAX_HAND_SIZE
    }

    pub fn new(name: String, max_hand_size: usize) -> (p: Player)
        requires
            max_hand_size <= MAX_HAND_SIZE,
        ensures
            p.wf(),
            p.name@ == name@,
            p.hand@ == Seq::<Card>::empty(),
            p.max_hand_size == max_hand_size,
    {
        Player { name, hand: Vec::new(), max_hand_size }
    }

    pub fn hand_size(&self) -> (n: usize)
        ensures
            n == self.hand@.len(),
    {
        self.hand.len()
    }

    pub fn is_hand_full(&self) -> (r: bool)
        ensures
            r == (self.hand@.len() >= self.max_hand_size),
    {
        self.hand.len() >= self.max_hand_size
    }

    /// Adds a card to the hand unless it is full; says whether it was added.
    pub fn draw_card(&mut self, card: Card) -> (added: bool)
        ensures
            added == (old(self).hand@.len() < old(self).max_hand_size),
            final(self).hand@ == if added { old(self).hand@.push(card) } else { old(self).hand@ },
            final(self).max_hand_size == old(self).max_hand_size,
            final(self).name == old(self).name,
    {
        if self.hand.len() < self.max_hand_size {
            self.hand.push(card);
            true
        } else {
            false
        }
    }

    /// Adds cards in order until the hand is full; returns those that did not fit.
    pub fn draw_multiple(&mut self, cards: Vec<Card>) -> (left: Vec<Card>)
        ensures
            ({
                let room = if old(self).hand@.len() < old(self).max_hand_size {
                    old(self).max_hand_size - old(self).hand@.len()
                } else {
                    0
                };
                let n = if cards@.len() < room { cards@.len() as int } else { room as int };
                &&& final(self).hand@ == old(self).hand@ + cards@.take(n)
                &&& left@ == cards@.skip(n)
            }),
            final(self).max_hand_size == old(self).max_hand_size,
            final(self).name == old(self).name,
    {
        let mut i: usize = 0;
        let mut left: Vec<Card> = Vec::new();
        while i < cards.len()
            invariant
                i <= cards@.len(),
                ({
                    let room = if old(self).hand@.len() < old(self).max_hand_size {
                        old(self).max_hand_size - old(self).hand@.len()
                    } else {
                        0
                    };
                    let n = if (i as int) < room { i as int } else { room as int };
                    &&& self.hand@ == old(self).hand@ + cards@.take(n)
                    &&& left@ == cards@.subrange(n, i as int)
                }),
                self.max_hand_size == old(self).max_hand_size,
                self.name == old(self).name,
            decreases cards@.len() - i,
        {
            if self.hand.len() < self.max_hand_size {
                self.hand.push(cards[i]);
            } else {
                left.push(cards[i]);
            }
            i = i + 1;
            proof {
                let room = if old(self).hand@.len() < old(self).max_hand_size {
                    old(self).max_hand_size - old(self).hand@.len()
                } else {
                    0
                };
                let n = if (i as int) < room { i as int } else { room as int };
                assert(self.hand@ =~= old(self).hand@ + cards@.take(n));
                assert(left@ =~= cards@.subrange(n, i as int));
            }
        }
        assert(left@ =~= cards@.skip(
            if cards@.len() < (if old(self).hand@.len() < old(self).max_hand_size {
                old(self).max_hand_size - old(self).hand@.len()
            } else {
                0
            }) { cards@.len() as int } else { (if old(self).hand@.len() < old(self).max_hand_size {
                old(self).max_hand_size - old(self).hand@.len()
            } else {
                0
            }) as int },
        ));
        left
    }

    /// Takes the cards at the given positions out of the hand and returns
    /// them in the order of the positions.
    pub fn play_cards(&mut self, indices: &[usize]) -> (played: Vec<Card>)
        requires
            valid_indices(old(self).hand@.len(), indices@),
        ensures
            played@ == selected(old(self).hand@, indices@),
            final(self).hand@ == without_positions(old(self).hand@, indices@),
            final(self).max_hand_size == old(self).max_hand_size,
            final(self).name == old(self).name,
    {
        let mut played: Vec<Card> = Vec::new();
        let mut j: usize = 0;
        while j < indices.len()
            invariant
                j <= indices@.len(),
                valid_indices(self.hand@.len(), indices@),
                played@ == selected(self.hand@, indices@).take(j as int),
            decreases indices@.len() - j,
        {
            played.push(self.hand[indices[j]]);
            j = j + 1;
            assert(played@ =~= selected(self.hand@, indices@).take(j as int));
        }
        assert(played@ =~= selected(self.hand@, indices@));
        let mut kept: Vec<Card> = Vec::new();
        let mut i: usize = 0;
        while i < self.hand.len()
            invariant
                i <= self.hand@.len(),
                kept@ == without_positions(self.hand@.take(i as int), indices@),
            decreases self.hand@.len() - i,
        {
            let mut taken = false;
            let mut k: usize = 0;
            while k < indices.len()
                invariant
                    k <= indices@.len(),
                    taken == (exists|m: int| 0 <= m < k && indices@[m] == i),
                decreases indices@.len() - k,
            {
                if indices[k] == i {
                    taken = true;
                }
                k = k + 1;
            }
            assert(self.hand@.take(i + 1).drop_last() =~= self.hand@.take(i as int));
            if !taken {
                kept.push(self.hand[i]);
            }
            i = i + 1;
        }
        assert(self.hand@.take(i as int) =~= self.hand@);
        self.hand = kept;
        played
    }

    /// The summed value of the cards at the given positions.
    pub fn calculate_value(&self, indices: &[usize]) -> (v: u8)
        requires
            self.wf(),
            valid_indices(self.hand@.len(), indices@),
        ensures
            v == sum_values(selected(self.hand@, indices@)),
    {
        proof {
            lemma_indices_fit(self.hand@.len(), indices@);
        }
        let mut total: u8 = 0;
        let mut j: usize = 0;
        while j < indices.len()
            invariant
                j <= indices@.len() <= MAX_HAND_SIZE,
                valid_indices(self.hand@.len(), indices@),
                total == sum_values(selected(self.hand@, indices@).take(j as int)),
            decreases indices@.len() - j,
        {
            proof {
                let s = selected(self.hand@, indices@);
                assert(s.take(j + 1).drop_last() =~= s.take(j as int));
                lemma_sum_values_bound(s.take(j as int));
            }
            total = total + self.hand[indices[j]].value();
            j = j + 1;
        }
        assert(selected(self.hand@, indices@).take(j as int) =~= selected(self.hand@, indices@));
        total
    }

    /// The summed value of the whole hand.
    pub open spec fn hand_value(&self) -> nat {
        sum_values(self.hand@)
    }

    /// Whether the hand is worth at least `damage`, so that discarding it
    /// all would survive an attack of that size.
    pub fn can_survive(&self, damage: u8) -> (r: bool)
        requires
            self.wf(),
        ensures
            r == (self.hand_value() >= damage),
    {
        let mut total: u8 = 0;
        let mut i: usize = 0;
        while i < self.hand.len()
            invariant
                i <= self.hand@.len() <= MAX_HAND_SIZE,
                total == sum_values(self.hand@.take(i as int)),
            decreases self.hand@.len() - i,
        {
            proof {
                assert(self.hand@.take(i + 1).drop_last() =~= self.hand@.take(i as int));
                lemma_sum_values_bound(self.hand@.take(i as int));
            }
            total = total + self.hand[i].value();
            i = i + 1;
        }
        assert(self.hand@.take(i as int) =~= self.hand@);
        total >= damage
    }
}

/// Distinct positions of a hand are no more than the hand's cards.
pub proof fn lemma_indices_fit(len: nat, idx: Seq<usize>)
    requires
        valid_indices(len, idx),
    ensures
        idx.len() <= len,
{
    let f = |i: usize| i as int;
    assert(vstd::relations::injective(f)) by {
        assert forall|x: usize, y: usize| #[trigger] f(x) == #[trigger] f(y) implies x == y by {}
    }
    idx.lemma_no_duplicates_injective(f);
    let ints = idx.map_values(f);
    ints.unique_seq_to_set();
    vstd::set_lib::lemma_int_range(0, len as int);
    assert forall|x: int| #[trigger] ints.to_set().contains(x) implies vstd::set_lib::set_int_range(0, len as int).contains(x) by {
        assert(ints.contains(x));
        let k = choose|k: int| 0 <= k < ints.len() && ints[k] == x;
        assert(idx[k] < len);
    }
    vstd::set_lib::lemma_len_subset(ints.to_set(), vstd::set_lib::set_int_range(0, len as int));
}

} // verus!

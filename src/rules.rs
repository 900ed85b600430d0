use crate::card::{Card, Rank, Suit, sum_values};
use crate::game::{GameView, GameState, fresh_enemy, has_rank, has_suit, play_rejection, suit_sum};
use crate::player::{selected, without_positions, valid_indices};
use vstd::prelude::*;

verus! {

/// A combo's attack is the summed value of its cards. Unless the enemy falls,
/// it loses exactly that many hit points, or twice as many when the combo
/// holds a Club the enemy is not immune to; the damage counter grows by the
/// same amount. When the enemy falls, the damage was at least its hit points.
pub proof fn lemma_combo_damage(g: GameView, idx: Seq<usize>, healed: Seq<Card>, rest: Seq<Card>)
    requires
        g.wf(),
        g.enemy.is_some(),
        play_rejection(g.hand, idx).is_none(),
        !has_rank(selected(g.hand, idx), Rank::Jester),
    ensures
        ({
            let cards = selected(g.hand, idx);
            let e = g.enemy.unwrap();
            let loss = if has_suit(cards, Suit::Clubs) && !e.spec_is_immune_to(Suit::Clubs) {
                2 * sum_values(cards)
            } else {
                sum_values(cards)
            };
            let out = g.combo_outcome(idx, healed, rest);
            &&& g.combo_defeats(idx) <==> loss >= e.current_hp
            &&& !g.combo_defeats(idx) ==> out.enemy.unwrap().current_hp == e.current_hp - loss
                && out.total_damage == g.total_damage + loss
        }),
{
}

/// Clubs double only the combo they are played in: the damage of a play
/// depends on its own cards and the enemy alone, not on the cards played
/// earlier this encounter, and a combo without Clubs deals its value.
pub proof fn lemma_clubs_scoped(g: GameView, earlier: Seq<Card>, cards: Seq<Card>)
    ensures
        (GameView { played: earlier, ..g }).damage(cards) == g.damage(cards),
        !has_suit(cards, Suit::Clubs) ==> g.damage(cards) == sum_values(cards),
{
}

/// Hearts resolve before Diamonds: when both powers apply, the cards the
/// Hearts return to the player's deck can already be drawn by the Diamonds,
/// and the discard pile shrinks by the healed count.
pub proof fn lemma_hearts_before_diamonds(g: GameView, idx: Seq<usize>, healed: Seq<Card>, rest: Seq<Card>)
    requires
        g.wf(),
        g.enemy.is_some(),
        play_rejection(g.hand, idx).is_none(),
        !has_rank(selected(g.hand, idx), Rank::Jester),
        g.power(selected(g.hand, idx), Suit::Hearts),
        g.power(selected(g.hand, idx), Suit::Diamonds),
        g.heal_split(g.heal_count(selected(g.hand, idx)), healed, rest),
        !g.combo_defeats(idx),
    ensures
        ({
            let cards = selected(g.hand, idx);
            let atk = sum_values(cards) as int;
            let n = g.heal_count(cards) as int;
            let kept = without_positions(g.hand, idx);
            let room = g.max_hand_size - kept.len();
            let out = g.combo_outcome(idx, healed, rest);
            &&& n == vstd::math::min(atk, g.discard.len() as int)
            &&& out.discard.len() == g.discard.len() - n
            &&& out.hand.len() == kept.len() + vstd::math::min(
                vstd::math::min(atk, room),
                g.tavern.len() + n,
            )
        }),
{
    let cards = selected(g.hand, idx);
    crate::player::lemma_indices_fit(g.hand.len(), idx);
    crate::player::lemma_without_positions_len(g.hand, idx);
    if g.heal_count(cards) > 0 {
        assert((healed + rest).to_multiset().len() == g.discard.to_multiset().len());
        vstd::seq_lib::lemma_multiset_commutative(healed, rest);
        healed.to_multiset_ensures();
        rest.to_multiset_ensures();
        g.discard.to_multiset_ensures();
        (healed + rest).to_multiset_ensures();
    }
}

/// The shield never shrinks while the same enemy stands, and a newly revealed
/// enemy starts with no shield.
pub proof fn lemma_shield_per_encounter(g: GameView, idx: Seq<usize>, healed: Seq<Card>, rest: Seq<Card>)
    requires
        g.wf(),
        g.enemy.is_some(),
        play_rejection(g.hand, idx).is_none(),
    ensures
        has_rank(selected(g.hand, idx), Rank::Jester) ==> g.jester_outcome(idx).shield >= g.shield,
        !has_rank(selected(g.hand, idx), Rank::Jester) && !g.combo_defeats(idx) ==> g.combo_outcome(
            idx,
            healed,
            rest,
        ).shield >= g.shield,
        !has_rank(selected(g.hand, idx), Rank::Jester) && g.combo_defeats(idx) && g.castle.len() > 0
            ==> g.combo_outcome(idx, healed, rest).shield == 0 && g.combo_outcome(idx, healed, rest).enemy
            == Some(fresh_enemy(g.castle[0])),
        g.castle.len() > 0 ==> g.after_reveal().shield == 0 && g.after_reveal().total_damage == 0,
{
}

/// A Jester against a Spades enemy whose immunity stands adds the value of the
/// Spades played against it so far to the shield; against any other enemy, or
/// once the immunity is gone, it adds nothing. So a second Jester adds nothing.
pub proof fn lemma_jester_spades(g: GameView, idx: Seq<usize>, idx2: Seq<usize>)
    requires
        g.enemy.is_some(),
    ensures
        ({
            let e = g.enemy.unwrap();
            let out = g.jester_outcome(idx);
            &&& out.enemy.unwrap().immunity_cancelled
            &&& out.shield == g.shield + if e.card.suit == Suit::Spades && !e.immunity_cancelled {
                suit_sum(g.played, Suit::Spades)
            } else {
                0
            }
            &&& out.jester_outcome(idx2).shield == out.shield
        }),
{
}

/// Defeat of an enemy: with damage equal to its hit points it is captured on
/// top of the player's deck, otherwise it goes to the discard pile; either way
/// this encounter's cards go to the discard pile, and the next enemy is
/// revealed, or the game is won when the castle is empty.
pub proof fn lemma_defeat_routing(g: GameView)
    requires
        g.enemy.is_some(),
    ensures
        ({
            let e = g.enemy.unwrap();
            let out = g.after_defeat();
            &&& g.total_damage == e.max_hp ==> out.tavern == seq![e.card] + g.tavern
                && out.discard == g.discard + g.played
            &&& g.total_damage != e.max_hp ==> out.tavern == g.tavern
                && out.discard == g.discard.push(e.card) + g.played
            &&& g.castle.len() > 0 ==> out.enemy == Some(fresh_enemy(g.castle[0])) && out.castle
                == g.castle.drop_first() && out.played.len() == 0
            &&& g.castle.len() == 0 ==> out.enemy.is_none() && out.state == GameState::Victory
                && out.played.len() == 0
        }),
{
}

/// `n` uses of the Jester power in a row, `None` if one of them fails.
pub open spec fn jester_power_times(g: GameView, n: nat) -> Option<GameView>
    decreases n,
{
    if n == 0 {
        Some(g)
    } else {
        match jester_power_times(g, (n - 1) as nat) {
            Some(h) => h.jester_power(),
            None => None,
        }
    }
}

/// With no use spent, the Jester power succeeds `jester_count` times in a row
/// and fails on the next use; each success refills the hand to its maximum
/// size, or with what the player's deck has left.
pub proof fn lemma_jester_power_count(g: GameView, n: nat)
    requires
        g.jesters_used == 0,
        n <= g.jester_count,
    ensures
        jester_power_times(g, n).is_some(),
        jester_power_times(g, n).unwrap().jesters_used == n,
        n == g.jester_count ==> jester_power_times(g, n).unwrap().jester_power().is_none(),
        n < g.jester_count ==> jester_power_times(g, n).unwrap().jester_count == g.jester_count,
        ({
            let h = jester_power_times(g, n).unwrap();
            n < g.jester_count ==> h.jester_power().unwrap().hand.len() == vstd::math::min(
                h.max_hand_size as int,
                h.tavern.len() as int,
            )
        }),
    decreases n,
{
    if n > 0 {
        lemma_jester_power_count(g, (n - 1) as nat);
    }
}

/// The shapes of playable selections: a lone Jester is playable and a Jester
/// with any other card is not; an Ace with exactly one other card (of any rank
/// but the Jester) is playable, and an Ace with two or more others is not.
pub proof fn lemma_play_shapes(hand: Seq<Card>, idx: Seq<usize>)
    requires
        valid_indices(hand.len(), idx),
    ensures
        idx.len() == 1 ==> play_rejection(hand, idx).is_none(),
        idx.len() >= 2 && has_rank(selected(hand, idx), Rank::Jester) ==> play_rejection(hand, idx)
            == Some("Jester must be played alone"@),
        idx.len() == 2 && has_rank(selected(hand, idx), Rank::Ace) && !has_rank(selected(hand, idx), Rank::Jester)
            ==> play_rejection(hand, idx).is_none(),
        idx.len() >= 3 && has_rank(selected(hand, idx), Rank::Ace) && !has_rank(selected(hand, idx), Rank::Jester)
            ==> play_rejection(hand, idx) == Some("Ace can only be paired with one other card"@),
{
}

} // verus!

use crate::card::{Card, Rank, Suit, sum_values, lemma_sum_values_bound, lemma_sum_values_concat};
use crate::deck::{Deck, castle_layout, tavern_layout};
use crate::enemy::Enemy;
use crate::player::{
    Player, selected, without_positions, valid_indices, lemma_indices_fit,
    lemma_without_positions_len, MAX_HAND_SIZE,
};
use crate::text::{decimal, number_text};
use chrono::Local;
use vstd::prelude::*;

verus! {

/// The most entries the event log keeps; older ones are dropped first.
pub const LOG_CAPACITY: usize = 100;

/// Whether the game goes on, is won, or is lost (with the reason).
#[derive(Debug, Clone)]
pub enum GameState {
    Playing,
    Victory,
    Defeat(String),
}

/// Relies on chrono's `Local::now` formatted with "%H:%M:%S": hour, minute
/// and second, each as two zero-padded digits, separated by colons.
#[verifier::external_body]
fn clock_time() -> (s: String)
    ensures
        s@.len() == 8,
        s@[2] == ':',
        s@[5] == ':',
{
    Local::now().format("%H:%M:%S").to_string()
}

/// A log line: the time between brackets, then the message.
pub open spec fn log_line(stamp: Seq<char>, message: Seq<char>) -> Seq<char> {
    seq!['['] + stamp + seq![']', ' '] + message
}

/// The log after appending `line`, oldest entries dropped beyond the capacity.
pub open spec fn appended_log(log: Seq<Seq<char>>, line: Seq<char>) -> Seq<Seq<char>> {
    let longer = log.push(line);
    if longer.len() > LOG_CAPACITY {
        longer.drop_first()
    } else {
        longer
    }
}

/// A fresh enemy at full health made from `card`.
pub open spec fn fresh_enemy(card: Card) -> Enemy {
    Enemy {
        card,
        max_hp: crate::enemy::max_hp_of(card.rank),
        current_hp: crate::enemy::max_hp_of(card.rank),
        attack: crate::enemy::attack_of(card.rank),
        immunity_cancelled: false,
    }
}

/// Whether some card of `cards` has suit `s`.
pub open spec fn has_suit(cards: Seq<Card>, s: Suit) -> bool {
    exists|i: int| 0 <= i < cards.len() && #[trigger] cards[i].suit == s
}

/// Whether some card of `cards` has rank `r`.
pub open spec fn has_rank(cards: Seq<Card>, r: Rank) -> bool {
    exists|i: int| 0 <= i < cards.len() && #[trigger] cards[i].rank == r
}

/// Whether all cards of `cards` share the rank of the first.
pub open spec fn same_rank(cards: Seq<Card>) -> bool {
    forall|i: int| 0 <= i < cards.len() ==> #[trigger] cards[i].rank == cards[0].rank
}

/// The summed value of the cards of suit `s`.
pub open spec fn suit_sum(cards: Seq<Card>, s: Suit) -> nat
    decreases cards.len(),
{
    if cards.len() == 0 {
        0
    } else {
        suit_sum(cards.drop_last(), s) + if cards.last().suit == s {
            cards.last().spec_value() as nat
        } else {
            0
        }
    }
}

/// Why the cards at positions `idx` of `hand` cannot be played together, or
/// `None` when they can.
pub open spec fn play_rejection(hand: Seq<Card>, idx: Seq<usize>) -> Option<Seq<char>> {
    let cards = selected(hand, idx);
    if idx.len() == 0 {
        Some("Must select at least one card"@)
    } else if !valid_indices(hand.len(), idx) {
        Some("Invalid card indices"@)
    } else if has_rank(cards, Rank::Jester) {
        if cards.len() > 1 {
            Some("Jester must be played alone"@)
        } else {
            None
        }
    } else if cards.len() == 1 {
        None
    } else if has_rank(cards, Rank::Ace) {
        if cards.len() == 2 {
            None
        } else {
            Some("Ace can only be paired with one other card"@)
        }
    } else if cards.len() > 4 {
        Some("Cannot play more than 4 cards at once"@)
    } else if !same_rank(cards) {
        Some("Combo cards must all have the same rank (or use Ace + 1 card)"@)
    } else if sum_values(cards) > 10 {
        Some("Combo total must be 10 or less"@)
    } else {
        None
    }
}

/// What the game looks like to its rules: piles, hand, enemy and counters.
/// The event log is left out.
pub struct GameView {
    pub castle: Seq<Card>,
    pub tavern: Seq<Card>,
    pub discard: Seq<Card>,
    pub enemy: Option<Enemy>,
    pub hand: Seq<Card>,
    pub max_hand_size: nat,
    pub played: Seq<Card>,
    pub shield: nat,
    pub total_damage: nat,
    pub state: GameState,
    pub jester_count: nat,
    pub jesters_used: nat,
    pub jester_played_this_turn: bool,
}

impl GameView {
    /// The invariant of a game between two operations.
    pub open spec fn wf(self) -> bool {
        &&& self.hand.len() <= self.max_hand_size <= MAX_HAND_SIZE
        &&& forall|i: int| 0 <= i < self.castle.len() ==> (#[trigger] self.castle[i]).rank.is_face()
        &&& self.shield <= self.total_damage
        &&& sum_values(self.played) <= self.total_damage
        &&& self.jesters_used <= 255
        &&& match self.enemy {
            Some(e) => {
                &&& e.wf()
                &&& e.current_hp + self.total_damage == e.max_hp
                &&& (e.card.suit == Suit::Spades && !e.immunity_cancelled ==> self.shield == 0)
            },
            None => self.total_damage <= 255,
        }
    }

    /// The state at the start of a turn.
    pub open spec fn turn_started(self) -> GameView {
        GameView { jester_played_this_turn: false, ..self }
    }

    pub open spec fn with_hand(self, hand: Seq<Card>) -> GameView {
        GameView { hand, ..self }
    }

    /// The next enemy comes out of the castle with fresh counters, or, with the
    /// castle empty, the game is won.
    pub open spec fn after_reveal(self) -> GameView {
        if self.castle.len() > 0 {
            GameView {
                enemy: Some(fresh_enemy(self.castle[0])),
                castle: self.castle.drop_first(),
                shield: 0,
                total_damage: 0,
                played: Seq::empty(),
                ..self
            }
        } else {
            GameView { state: GameState::Victory, ..self }
        }
    }

    /// The enemy, at zero hit points, is captured onto the player's deck when
    /// the damage matched its hit points exactly, else discarded; the played
    /// cards are discarded; the next enemy comes.
    pub open spec fn after_defeat(self) -> GameView {
        let e = self.enemy.unwrap();
        let captured = self.total_damage == e.max_hp;
        GameView {
            enemy: None,
            tavern: if captured { seq![e.card] + self.tavern } else { self.tavern },
            discard: (if captured { self.discard } else { self.discard.push(e.card) }) + self.played,
            played: Seq::empty(),
            ..self
        }.after_reveal()
    }

    /// Whether the enemy blocks the power of suit `s`.
    pub open spec fn immune(self, s: Suit) -> bool {
        self.enemy.unwrap().spec_is_immune_to(s)
    }

    /// Whether the power of suit `s` applies to a play of `cards`.
    pub open spec fn power(self, cards: Seq<Card>, s: Suit) -> bool {
        has_suit(cards, s) && !self.immune(s)
    }

    /// The damage a play of `cards` deals: its value, doubled by Clubs.
    pub open spec fn damage(self, cards: Seq<Card>) -> nat {
        if self.power(cards, Suit::Clubs) {
            2 * sum_values(cards)
        } else {
            sum_values(cards)
        }
    }

    /// How many discarded cards the Hearts power of a play of `cards` returns.
    pub open spec fn heal_count(self, cards: Seq<Card>) -> nat {
        if self.power(cards, Suit::Hearts) {
            vstd::math::min(sum_values(cards) as int, self.discard.len() as int) as nat
        } else {
            0
        }
    }

    /// `healed` and `rest` split the discard pile for a heal of `n` cards:
    /// nothing moves when `n` is zero; otherwise `n` cards picked at random go
    /// and the rest stay, in some order.
    pub open spec fn heal_split(self, n: nat, healed: Seq<Card>, rest: Seq<Card>) -> bool {
        if n == 0 {
            healed == Seq::<Card>::empty() && rest == self.discard
        } else {
            &&& healed.len() == n
            &&& (healed + rest).to_multiset() == self.discard.to_multiset()
        }
    }

    /// The healed cards go under the player's deck.
    pub open spec fn after_heal(self, healed: Seq<Card>, rest: Seq<Card>) -> GameView {
        GameView { tavern: self.tavern + healed, discard: rest, ..self }
    }

    /// Free places in the hand.
    pub open spec fn room(self) -> nat {
        if self.hand.len() < self.max_hand_size {
            (self.max_hand_size - self.hand.len()) as nat
        } else {
            0
        }
    }

    /// How many cards a draw of up to `n` takes: it stops when the hand is
    /// full or the player's deck is empty.
    pub open spec fn draw_count(self, n: nat) -> nat {
        vstd::math::min(vstd::math::min(n as int, self.room() as int), self.tavern.len() as int) as nat
    }

    pub open spec fn after_draw(self, n: nat) -> GameView {
        let k = self.draw_count(n) as int;
        GameView { hand: self.hand + self.tavern.take(k), tavern: self.tavern.skip(k), ..self }
    }

    /// The played cards join this encounter's cards, and their damage is dealt.
    pub open spec fn after_strike(self, cards: Seq<Card>, dmg: nat) -> GameView {
        let e = self.enemy.unwrap();
        let hp = if e.current_hp > dmg { (e.current_hp - dmg) as u8 } else { 0u8 };
        GameView {
            played: self.played + cards,
            total_damage: self.total_damage + dmg,
            enemy: Some(Enemy { current_hp: hp, ..e }),
            ..self
        }
    }

    /// The suit powers of a combo play of `cards`, taken from the hand
    /// already, given how the Hearts power split the discard pile: Hearts,
    /// then Diamonds, then Spades. Clubs act on the damage.
    pub open spec fn powers_outcome(self, cards: Seq<Card>, healed: Seq<Card>, rest: Seq<Card>) -> GameView {
        let atk = sum_values(cards);
        let g1 = self.after_heal(healed, rest);
        let g2 = if self.power(cards, Suit::Diamonds) { g1.after_draw(atk) } else { g1 };
        GameView { shield: self.shield + if self.power(cards, Suit::Spades) { atk } else { 0 }, ..g2 }
    }

    /// The steps of a combo play of `cards`, taken from the hand already: the
    /// suit powers, then the damage (doubled by Clubs) and, at zero hit
    /// points, the enemy's defeat.
    pub open spec fn combo_steps(self, cards: Seq<Card>, healed: Seq<Card>, rest: Seq<Card>) -> GameView {
        let g3 = self.powers_outcome(cards, healed, rest);
        let g4 = g3.after_strike(cards, self.damage(cards));
        if g4.enemy.unwrap().current_hp == 0 {
            g4.after_defeat()
        } else {
            g4
        }
    }

    /// The state after playing the combo (no Jester) at positions `idx`.
    pub open spec fn combo_outcome(self, idx: Seq<usize>, healed: Seq<Card>, rest: Seq<Card>) -> GameView {
        self.turn_started().with_hand(without_positions(self.hand, idx)).combo_steps(
            selected(self.hand, idx),
            healed,
            rest,
        )
    }

    /// The solo Jester power, while uses are left: the hand is discarded and
    /// a fresh one drawn, as many cards as the hand holds or as the player's
    /// deck has left. `None` once every use is spent.
    pub open spec fn jester_power(self) -> Option<GameView> {
        if self.jesters_used < self.jester_count {
            let k = vstd::math::min(self.max_hand_size as int, self.tavern.len() as int);
            Some(GameView {
                discard: self.discard + self.hand,
                hand: self.tavern.take(k),
                tavern: self.tavern.skip(k),
                jesters_used: self.jesters_used + 1,
                ..self
            })
        } else {
            None
        }
    }

    /// How a play of the cards at `idx` relates the state before to the state
    /// `after`, with `outcome` the result: `None` when the play is refused (an
    /// unplayable selection, or no enemy), else whether the enemy fell. A
    /// refused play only starts the turn; a Jester play is exact; a combo is
    /// exact up to which cards the Hearts power picked.
    pub open spec fn play_spec(self, idx: Seq<usize>, outcome: Option<bool>, after: GameView) -> bool {
        let cards = selected(self.hand, idx);
        if play_rejection(self.hand, idx).is_some() || self.enemy.is_none() {
            outcome.is_none() && after == self.turn_started()
        } else if has_rank(cards, Rank::Jester) {
            outcome == Some(false) && after == self.jester_outcome(idx)
        } else {
            &&& outcome == Some(self.combo_defeats(idx))
            &&& exists|healed: Seq<Card>, rest: Seq<Card>|
                self.heal_split(self.heal_count(cards), healed, rest)
                && after == #[trigger] self.combo_outcome(idx, healed, rest)
        }
    }

    /// Whether a combo play defeats the enemy.
    pub open spec fn combo_defeats(self, idx: Seq<usize>) -> bool {
        self.damage(selected(self.hand, idx)) >= self.enemy.unwrap().current_hp
    }

    /// The Spades value a Jester brings back: when it cancels the immunity of a
    /// Spades enemy, the Spades cards played against it so far were blocked.
    pub open spec fn jester_shield(self) -> nat {
        let e = self.enemy.unwrap();
        if e.card.suit == Suit::Spades && !e.immunity_cancelled {
            suit_sum(self.played, Suit::Spades)
        } else {
            0
        }
    }

    /// The state after playing a lone Jester: the enemy's immunity is cancelled,
    /// blocked Spades count towards the shield, the Jester is discarded, and the
    /// enemy's attack is skipped this turn.
    pub open spec fn jester_outcome(self, idx: Seq<usize>) -> GameView {
        let e = self.enemy.unwrap();
        GameView {
            hand: without_positions(self.hand, idx),
            discard: self.discard + selected(self.hand, idx),
            enemy: Some(Enemy { immunity_cancelled: true, ..e }),
            shield: self.shield + self.jester_shield(),
            jester_played_this_turn: true,
            ..self
        }
    }
}

/// The whole state of one solo game.
#[derive(Debug, Clone)]
pub struct Game {
    pub castle_deck: Deck,
    pub tavern_deck: Deck,
    pub discard_pile: Vec<Card>,
    pub current_enemy: Option<Enemy>,
    pub player: Player,
    pub played_cards: Vec<Card>,
    /// Damage blocked from the enemy's attack, built by Spades this encounter.
    pub shield_value: u8,
    /// Damage dealt to the current enemy this encounter.
    pub total_damage: u8,
    pub game_state: GameState,
    pub game_log: Vec<String>,
    pub jester_count: u8,
    pub jesters_used: u8,
    /// Set when this turn's play was a Jester, which skips the enemy's attack.
    pub jester_played_this_turn: bool,
}

impl View for Game {
    type V = GameView;

    open spec fn view(&self) -> GameView {
        GameView {
            castle: self.castle_deck.cards@,
            tavern: self.tavern_deck.cards@,
            discard: self.discard_pile@,
            enemy: self.current_enemy,
            hand: self.player.hand@,
            max_hand_size: self.player.max_hand_size as nat,
            played: self.played_cards@,
            shield: self.shield_value as nat,
            total_damage: self.total_damage as nat,
            state: self.game_state,
            jester_count: self.jester_count as nat,
            jesters_used: self.jesters_used as nat,
            jester_played_this_turn: self.jester_played_this_turn,
        }
    }
}

impl Game {
    pub open spec fn log_text(&self) -> Seq<Seq<char>> {
        self.game_log@.map_values(|s: String| s@)
    }

    pub open spec fn wf(&self) -> bool {
        self@.wf() && self.game_log@.len() <= LOG_CAPACITY
    }

    /// Adds a line to the event log, stamped with the local time; the log
    /// keeps the latest hundred lines.
    pub fn log(&mut self, message: &str)
        requires
            old(self).game_log@.len() <= LOG_CAPACITY,
        ensures
            final(self)@ == old(self)@,
            final(self).player.name == old(self).player.name,
            final(self).game_log@.len() <= LOG_CAPACITY,
            exists|stamp: Seq<char>| #![auto] stamp.len() == 8
                && final(self).log_text() == appended_log(old(self).log_text(), log_line(stamp, message@)),
    {
        let stamp = clock_time();
        proof {
            reveal_strlit("[");
            reveal_strlit("] ");
        }
        let line = String::from_str("[").concat(stamp.as_str()).concat("] ").concat(message);
        assert(line@ =~= log_line(stamp@, message@));
        let ghost before = self.log_text();
        self.game_log.push(line);
        assert(self.log_text() =~= before.push(line@));
        if self.game_log.len() > LOG_CAPACITY {
            self.game_log.remove(0);
            assert(self.log_text() =~= before.push(line@).drop_first());
        }
    }
}


/// Whether `idx` names distinct positions of a hand of `len` cards.
fn indices_valid(len: usize, idx: &[usize]) -> (b: bool)
    ensures
        b == valid_indices(len as nat, idx@),
{
    let mut i: usize = 0;
    while i < idx.len()
        invariant
            i <= idx@.len(),
            forall|a: int| 0 <= a < i ==> #[trigger] idx@[a] < len,
            forall|a: int, b: int| 0 <= a < b < i ==> idx@[a] != idx@[b],
        decreases idx@.len() - i,
    {
        if idx[i] >= len {
            return false;
        }
        let mut j: usize = 0;
        while j < i
            invariant
                j <= i < idx@.len(),
                forall|a: int| 0 <= a < j ==> idx@[a] != idx@[i as int],
            decreases i - j,
        {
            if idx[j] == idx[i] {
                assert(!idx@.no_duplicates());
                return false;
            }
            j = j + 1;
        }
        i = i + 1;
    }
    true
}

/// The cards at the given positions of `hand`.
fn pick_cards(hand: &Vec<Card>, idx: &[usize]) -> (cards: Vec<Card>)
    requires
        valid_indices(hand@.len(), idx@),
    ensures
        cards@ == selected(hand@, idx@),
{
    let mut cards: Vec<Card> = Vec::new();
    let mut j: usize = 0;
    while j < idx.len()
        invariant
            j <= idx@.len(),
            valid_indices(hand@.len(), idx@),
            cards@ == selected(hand@, idx@).take(j as int),
        decreases idx@.len() - j,
    {
        cards.push(hand[idx[j]]);
        j = j + 1;
        assert(cards@ =~= selected(hand@, idx@).take(j as int));
    }
    assert(cards@ =~= selected(hand@, idx@));
    cards
}

fn any_rank(cards: &Vec<Card>, r: Rank) -> (b: bool)
    ensures
        b == has_rank(cards@, r),
{
    let mut i: usize = 0;
    while i < cards.len()
        invariant
            i <= cards@.len(),
            forall|a: int| 0 <= a < i ==> (#[trigger] cards@[a]).rank != r,
        decreases cards@.len() - i,
    {
        if cards[i].rank == r {
            return true;
        }
        i = i + 1;
    }
    false
}

fn any_suit(cards: &Vec<Card>, s: Suit) -> (b: bool)
    ensures
        b == has_suit(cards@, s),
{
    let mut i: usize = 0;
    while i < cards.len()
        invariant
            i <= cards@.len(),
            forall|a: int| 0 <= a < i ==> (#[trigger] cards@[a]).suit != s,
        decreases cards@.len() - i,
    {
        if cards[i].suit == s {
            return true;
        }
        i = i + 1;
    }
    false
}

fn all_same_rank(cards: &Vec<Card>) -> (b: bool)
    requires
        cards@.len() > 0,
    ensures
        b == same_rank(cards@),
{
    let first = cards[0].rank;
    let mut i: usize = 0;
    while i < cards.len()
        invariant
            i <= cards@.len(),
            first == cards@[0].rank,
            forall|a: int| 0 <= a < i ==> (#[trigger] cards@[a]).rank == first,
        decreases cards@.len() - i,
    {
        if cards[i].rank != first {
            return false;
        }
        i = i + 1;
    }
    true
}

/// The summed value of a handful of cards.
fn total_value(cards: &Vec<Card>) -> (v: u8)
    requires
        cards@.len() <= MAX_HAND_SIZE,
    ensures
        v == sum_values(cards@),
{
    let mut total: u8 = 0;
    let mut i: usize = 0;
    while i < cards.len()
        invariant
            i <= cards@.len() <= MAX_HAND_SIZE,
            total == sum_values(cards@.take(i as int)),
        decreases cards@.len() - i,
    {
        proof {
            assert(cards@.take(i + 1).drop_last() =~= cards@.take(i as int));
            lemma_sum_values_bound(cards@.take(i as int));
        }
        total = total + cards[i].value();
        i = i + 1;
    }
    assert(cards@.take(i as int) =~= cards@);
    total
}

/// The summed value of the Spades among `cards`.
fn spades_value(cards: &Vec<Card>) -> (v: u8)
    requires
        sum_values(cards@) <= 255,
    ensures
        v == suit_sum(cards@, Suit::Spades),
{
    let mut total: u8 = 0;
    let mut i: usize = 0;
    while i < cards.len()
        invariant
            i <= cards@.len(),
            sum_values(cards@) <= 255,
            total == suit_sum(cards@.take(i as int), Suit::Spades),
        decreases cards@.len() - i,
    {
        proof {
            assert(cards@.take(i + 1).drop_last() =~= cards@.take(i as int));
            lemma_suit_sum_le(cards@.take(i + 1), Suit::Spades);
            lemma_sum_values_concat(cards@.take(i + 1), cards@.skip(i + 1));
            assert(cards@.take(i + 1) + cards@.skip(i + 1) =~= cards@);
        }
        if cards[i].suit == Suit::Spades {
            total = total + cards[i].value();
        }
        i = i + 1;
    }
    assert(cards@.take(i as int) =~= cards@);
    total
}

/// The cards of one suit are worth no more than all the cards.
pub proof fn lemma_suit_sum_le(cards: Seq<Card>, s: Suit)
    ensures
        suit_sum(cards, s) <= sum_values(cards),
    decreases cards.len(),
{
    if cards.len() > 0 {
        lemma_suit_sum_le(cards.drop_last(), s);
    }
}

/// The cards' labels separated by commas.
fn cards_text(cards: &Vec<Card>) -> String {
    let mut s = String::new();
    let mut i: usize = 0;
    while i < cards.len()
        invariant
            i <= cards@.len(),
        decreases cards@.len() - i,
    {
        if i > 0 {
            s.append(", ");
        }
        let label = cards[i].display();
        s.append(label.as_str());
        i = i + 1;
    }
    s
}

/// Why discarding the cards at `idx` does not answer the enemy's attack, or
/// `None` when it does.
pub open spec fn discard_rejection(g: GameView, idx: Seq<usize>) -> Option<Seq<char>> {
    if !valid_indices(g.hand.len(), idx) {
        Some("Invalid card indices"@)
    } else if g.enemy.is_none() {
        Some("No current enemy"@)
    } else {
        let need = g.enemy.unwrap().spec_attack_after_shields(g.shield as u8) as nat;
        let have = sum_values(selected(g.hand, idx));
        if have < need {
            Some("Not enough value (need "@ + decimal(need) + ", have "@ + decimal(have) + ")"@)
        } else {
            None
        }
    }
}

impl Game {
    /// Reveals the next enemy, or declares victory when the castle is empty.
    fn reveal_next_enemy(&mut self)
        requires
            old(self).game_log@.len() <= LOG_CAPACITY,
            forall|i: int| 0 <= i < old(self)@.castle.len() ==> (#[trigger] old(self)@.castle[i]).rank.is_face(),
        ensures
            final(self)@ == old(self)@.after_reveal(),
            final(self).game_log@.len() <= LOG_CAPACITY,
    {
        let drawn = self.castle_deck.draw();
        match drawn {
            Some(card) => {
                let enemy = Enemy::new(card);
                let name = enemy.name();
                let msg = String::from_str("A ").concat(name.as_str()).concat(" appears!");
                self.log(msg.as_str());
                self.current_enemy = Some(enemy);
                self.shield_value = 0;
                self.total_damage = 0;
                self.played_cards.clear();
                assert(self@ =~= old(self)@.after_reveal());
            },
            None => {
                self.game_state = GameState::Victory;
                self.log("Victory! All enemies have been defeated!");
                assert(self@ =~= old(self)@.after_reveal());
            },
        }
    }

    /// Resolves the defeat of the current enemy, which has no hit points left.
    fn enemy_defeated(&mut self)
        requires
            old(self).game_log@.len() <= LOG_CAPACITY,
            forall|i: int| 0 <= i < old(self)@.castle.len() ==> (#[trigger] old(self)@.castle[i]).rank.is_face(),
            old(self).current_enemy.is_some(),
            old(self).total_damage <= 255,
        ensures
            final(self)@ == old(self)@.after_defeat(),
            final(self).game_log@.len() <= LOG_CAPACITY,
    {
        let enemy = self.current_enemy.unwrap();
        self.current_enemy = None;
        let name = enemy.name();
        if enemy.defeated_exactly(self.total_damage) {
            let msg = String::from_str("Exact damage! ").concat(name.as_str()).concat(" captured!");
            self.log(msg.as_str());
            self.tavern_deck.add_to_top(enemy.card);
        } else {
            let msg = name.concat(" defeated!");
            self.log(msg.as_str());
            self.discard_pile.push(enemy.card);
        }
        self.discard_pile.append(&mut self.played_cards);
        let ghost mid = self@;
        assert(mid =~= GameView {
            enemy: None,
            tavern: if old(self)@.total_damage == enemy.max_hp { seq![enemy.card] + old(self)@.tavern } else { old(self)@.tavern },
            discard: (if old(self)@.total_damage == enemy.max_hp { old(self)@.discard } else { old(self)@.discard.push(enemy.card) }) + old(self)@.played,
            played: Seq::empty(),
            ..old(self)@
        });
        self.reveal_next_enemy();
    }
}


impl Game {
    /// A new solo game: a shuffled player's deck of forty cards without
    /// Jesters, a full hand of eight, the first Jack of the castle revealed,
    /// and two uses of the Jester power.
    pub fn new_solo() -> (g: Game)
        ensures
            g.wf(),
            g@.state == GameState::Playing,
            g@.enemy.is_some(),
            castle_layout(seq![g@.enemy.unwrap().card] + g@.castle),
            g@.enemy == Some(fresh_enemy(g@.enemy.unwrap().card)),
            tavern_layout(g@.hand + g@.tavern, 0),
            g@.hand.len() == 8,
            g@.max_hand_size == 8,
            g@.discard == Seq::<Card>::empty(),
            g@.played == Seq::<Card>::empty(),
            g@.shield == 0,
            g@.total_damage == 0,
            g@.jester_count == 2,
            g@.jesters_used == 0,
            !g@.jester_played_this_turn,
    {
        let mut tavern_deck = Deck::create_tavern_deck(0);
        let castle_deck = Deck::create_castle_deck();
        let mut player = Player::new(String::from_str("Hero"), MAX_HAND_SIZE);
        let ghost all = tavern_deck.cards@;
        let initial_cards = tavern_deck.draw_multiple(MAX_HAND_SIZE);
        let _ = player.draw_multiple(initial_cards);
        assert(player.hand@ + tavern_deck.cards@ =~= all);
        let mut game = Game {
            castle_deck,
            tavern_deck,
            discard_pile: Vec::new(),
            current_enemy: None,
            player,
            played_cards: Vec::new(),
            shield_value: 0,
            total_damage: 0,
            game_state: GameState::Playing,
            game_log: Vec::new(),
            jester_count: 2,
            jesters_used: 0,
            jester_played_this_turn: false,
        };
        let ghost castle = game@.castle;
        assert forall|i: int| 0 <= i < castle.len() implies (#[trigger] castle[i]).rank.is_face() by {
            assert(castle[i].rank == crate::deck::layer_rank(i / 4));
        }
        game.reveal_next_enemy();
        assert(seq![game@.enemy.unwrap().card] + game@.castle =~= castle);
        game.log("Game started! Defeat all 12 enemies to win.");
        assert forall|i: int| 0 <= i < game@.castle.len() implies (#[trigger] game@.castle[i]).rank.is_face() by {
            assert(game@.castle[i] == castle[i + 1]);
        }
        game
    }

    /// Checks whether the cards at `card_indices` of the hand can be played
    /// together, and why not.
    pub fn validate_play(&self, card_indices: &[usize]) -> (r: Result<(), String>)
        requires
            self.wf(),
        ensures
            match r {
                Ok(()) => play_rejection(self@.hand, card_indices@).is_none(),
                Err(m) => play_rejection(self@.hand, card_indices@) == Some(m@),
            },
    {
        if card_indices.len() == 0 {
            return Err(String::from_str("Must select at least one card"));
        }
        if !indices_valid(self.player.hand.len(), card_indices) {
            return Err(String::from_str("Invalid card indices"));
        }
        proof {
            lemma_indices_fit(self@.hand.len(), card_indices@);
        }
        let cards = pick_cards(&self.player.hand, card_indices);
        if any_rank(&cards, Rank::Jester) {
            if cards.len() > 1 {
                return Err(String::from_str("Jester must be played alone"));
            }
            return Ok(());
        }
        if cards.len() == 1 {
            return Ok(());
        }
        if any_rank(&cards, Rank::Ace) {
            if cards.len() == 2 {
                return Ok(());
            }
            return Err(String::from_str("Ace can only be paired with one other card"));
        }
        if cards.len() > 4 {
            return Err(String::from_str("Cannot play more than 4 cards at once"));
        }
        if !all_same_rank(&cards) {
            return Err(String::from_str("Combo cards must all have the same rank (or use Ace + 1 card)"));
        }
        let total = total_value(&cards);
        if total > 10 {
            return Err(String::from_str("Combo total must be 10 or less"));
        }
        Ok(())
    }

    /// Passes the turn without playing; the enemy's attack comes next.
    pub fn yield_turn(&mut self) -> (r: Result<(), String>)
        requires
            old(self).wf(),
        ensures
            final(self).wf(),
            r.is_ok(),
            final(self)@ == old(self)@.turn_started(),
    {
        self.jester_played_this_turn = false;
        self.log("Yielded turn");
        assert(self@ =~= old(self)@.turn_started());
        Ok(())
    }

    /// The damage the enemy's attack deals through the shield.
    pub fn enemy_attack(&mut self) -> (r: Result<u8, String>)
        requires
            old(self).wf(),
        ensures
            final(self).wf(),
            final(self)@ == old(self)@,
            match old(self).current_enemy {
                Some(e) => r == Ok::<u8, String>(e.spec_attack_after_shields(old(self).shield_value)),
                None => r.is_err() && r.unwrap_err()@ == "No current enemy"@,
            },
    {
        match self.current_enemy {
            None => Err(String::from_str("No current enemy")),
            Some(enemy) => {
                let damage = enemy.get_attack_after_shields(self.shield_value);
                if damage > 0 {
                    let msg = String::from_str("Enemy attacks for ").concat(
                        number_text(damage as u64).as_str(),
                    ).concat(" damage!");
                    self.log(msg.as_str());
                } else {
                    self.log("Enemy attack fully blocked by shields!");
                }
                Ok(damage)
            },
        }
    }

    /// Discards the cards at `card_indices` to absorb the enemy's attack; they
    /// must be worth at least the attack after shields.
    pub fn discard_to_survive(&mut self, card_indices: Vec<usize>) -> (r: Result<(), String>)
        requires
            old(self).wf(),
        ensures
            final(self).wf(),
            match discard_rejection(old(self)@, card_indices@) {
                Some(m) => r.is_err() && r.unwrap_err()@ == m && final(self)@ == old(self)@,
                None => r.is_ok() && final(self)@ == (GameView {
                    hand: without_positions(old(self)@.hand, card_indices@),
                    discard: old(self)@.discard + selected(old(self)@.hand, card_indices@),
                    ..old(self)@
                }),
            },
    {
        if !indices_valid(self.player.hand.len(), card_indices.as_slice()) {
            return Err(String::from_str("Invalid card indices"));
        }
        let value = self.player.calculate_value(card_indices.as_slice());
        let enemy = match self.current_enemy {
            None => {
                return Err(String::from_str("No current enemy"));
            },
            Some(e) => e,
        };
        let required = enemy.get_attack_after_shields(self.shield_value);
        if value < required {
            let msg = String::from_str("Not enough value (need ").concat(
                number_text(required as u64).as_str(),
            ).concat(", have ").concat(number_text(value as u64).as_str()).concat(")");
            return Err(msg);
        }
        let discarded = self.player.play_cards(card_indices.as_slice());
        let msg = String::from_str("Discarded: ").concat(cards_text(&discarded).as_str()).concat(
            " (Value: ",
        ).concat(number_text(value as u64).as_str()).concat(")");
        self.log(msg.as_str());
        let mut discarded = discarded;
        self.discard_pile.append(&mut discarded);
        proof {
            lemma_without_positions_len(old(self)@.hand, card_indices@);
        }
        assert(self@ =~= GameView {
            hand: without_positions(old(self)@.hand, card_indices@),
            discard: old(self)@.discard + selected(old(self)@.hand, card_indices@),
            ..old(self)@
        });
        Ok(())
    }

    /// The solo Jester power: discards the whole hand and draws a fresh one,
    /// as many cards as the hand holds or as the player's deck has left.
    pub fn use_jester(&mut self) -> (r: Result<(), String>)
        requires
            old(self).wf(),
        ensures
            final(self).wf(),
            match old(self)@.jester_power() {
                Some(v) => r.is_ok() && final(self)@ == v,
                None => r.is_err() && r.unwrap_err()@ == "No Jesters remaining"@ && final(self)@
                    == old(self)@,
            },
    {
        if self.jesters_used >= self.jester_count {
            return Err(String::from_str("No Jesters remaining"));
        }
        let hand_size = self.player.hand.len();
        self.discard_pile.append(&mut self.player.hand);
        let cards = self.tavern_deck.draw_multiple(self.player.max_hand_size);
        let _ = self.player.draw_multiple(cards);
        self.jesters_used = self.jesters_used + 1;
        let msg = String::from_str("Used Jester power! Discarded ").concat(
            number_text(hand_size as u64).as_str(),
        ).concat(" cards and drew fresh hand (").concat(
            number_text((self.jester_count - self.jesters_used) as u64).as_str(),
        ).concat(" Jesters remaining)");
        self.log(msg.as_str());
        proof {
            let k = vstd::math::min(old(self)@.max_hand_size as int, old(self)@.tavern.len() as int);
            assert(self@.hand =~= old(self)@.tavern.take(k));
            assert(old(self)@.tavern =~= old(self)@.tavern.take(k) + self@.tavern);
            assert(self@.tavern =~= old(self)@.tavern.skip(k));
        }
        assert(self@ =~= old(self)@.jester_power().unwrap());
        Ok(())
    }
}


/// Appends `src` to `dst`, keeping the order.
fn extend_cards(dst: &mut Vec<Card>, src: &Vec<Card>)
    ensures
        final(dst)@ == old(dst)@ + src@,
{
    let mut i: usize = 0;
    while i < src.len()
        invariant
            i <= src@.len(),
            dst@ == old(dst)@ + src@.take(i as int),
        decreases src@.len() - i,
    {
        dst.push(src[i]);
        i = i + 1;
        assert(dst@ =~= old(dst)@ + src@.take(i as int));
    }
    assert(src@.take(i as int) =~= src@);
}

/// A playable selection without a Jester is worth at most twenty-one: one
/// card, an Ace with one other card, or a combo worth ten or less.
proof fn lemma_play_value(hand: Seq<Card>, idx: Seq<usize>)
    requires
        play_rejection(hand, idx).is_none(),
        !has_rank(selected(hand, idx), Rank::Jester),
    ensures
        sum_values(selected(hand, idx)) <= 21,
        selected(hand, idx).len() >= 1,
{
    let cards = selected(hand, idx);
    if cards.len() == 1 {
        assert(cards.drop_last() =~= Seq::<Card>::empty());
    } else if has_rank(cards, Rank::Ace) && cards.len() == 2 {
        assert(cards.drop_last().drop_last() =~= Seq::<Card>::empty());
        let d = cards.drop_last();
        assert(d.last() == cards[0]);
        assert(sum_values(d.drop_last()) == 0);
        assert(sum_values(d) == cards[0].spec_value());
        assert(sum_values(cards) == cards[0].spec_value() + cards[1].spec_value());
        let a = choose|a: int| 0 <= a < cards.len() && #[trigger] cards[a].rank == Rank::Ace;
        assert(cards[a].spec_value() == 1);
    }
}

impl Game {
    /// The Hearts power: `n` cards picked at random from the discard pile go
    /// under the player's deck.
    fn apply_hearts(&mut self, n: usize)
        requires
            n <= old(self)@.discard.len(),
            old(self).game_log@.len() <= LOG_CAPACITY,
        ensures
            exists|healed: Seq<Card>, rest: Seq<Card>|
                old(self)@.heal_split(n as nat, healed, rest)
                && final(self)@ == #[trigger] old(self)@.after_heal(healed, rest),
            final(self).game_log@.len() <= LOG_CAPACITY,
    {
        if n == 0 {
            assert(old(self)@.heal_split(0, Seq::empty(), old(self)@.discard));
            assert(self@ =~= old(self)@.after_heal(Seq::empty(), old(self)@.discard));
            return;
        }
        let mut pile = Deck::new();
        pile.cards.append(&mut self.discard_pile);
        pile.shuffle();
        let healed = pile.draw_multiple(n);
        let ghost rest = pile.cards@;
        let mut remaining: Vec<Card> = Vec::new();
        remaining.append(&mut pile.cards);
        self.discard_pile = remaining;
        self.tavern_deck.add_multiple_to_bottom(healed);
        let msg = String::from_str("Healed ").concat(number_text(n as u64).as_str()).concat(
            " cards from discard to tavern deck",
        );
        self.log(msg.as_str());
        assert(old(self)@.heal_split(n as nat, healed@, rest));
        assert(self@ =~= old(self)@.after_heal(healed@, rest));
    }

    /// The Diamonds power: draws up to `n` cards, stopping when the hand is
    /// full or the player's deck is empty.
    fn draw_cards(&mut self, n: usize)
        requires
            old(self).game_log@.len() <= LOG_CAPACITY,
        ensures
            final(self)@ == old(self)@.after_draw(n as nat),
            final(self).game_log@.len() <= LOG_CAPACITY,
    {
        let ghost h0 = self@.hand;
        let ghost t0 = self@.tavern;
        let ghost room = old(self)@.room();
        let mut drawn: usize = 0;
        while drawn < n && !self.player.is_hand_full() && !self.tavern_deck.is_empty()
            invariant
                drawn <= n,
                drawn <= room,
                drawn <= t0.len(),
                room == old(self)@.room(),
                h0 == old(self)@.hand,
                t0 == old(self)@.tavern,
                self.player.max_hand_size == old(self).player.max_hand_size,
                self@.hand == h0 + t0.take(drawn as int),
                self@.tavern == t0.skip(drawn as int),
                self@ == (GameView { hand: self@.hand, tavern: self@.tavern, ..old(self)@ }),
                self.game_log@.len() <= LOG_CAPACITY,
            decreases n - drawn,
        {
            assert(self.player.hand@.len() == h0.len() + drawn);
            assert(drawn < room);
            let card = self.tavern_deck.draw();
            let c = card.unwrap();
            self.player.draw_card(c);
            drawn = drawn + 1;
            assert(t0.take(drawn as int) =~= t0.take(drawn - 1).push(c));
            assert(self@.tavern =~= t0.skip(drawn as int));
            assert(self@.hand =~= h0 + t0.take(drawn as int));
        }
        if drawn > 0 {
            let msg = String::from_str("Drew ").concat(number_text(drawn as u64).as_str()).concat(
                " cards",
            );
            self.log(msg.as_str());
        }
        assert(drawn == old(self)@.draw_count(n as nat));
        assert(self@ =~= old(self)@.after_draw(n as nat));
    }
}


impl Game {
    /// Adds the played cards to this encounter's cards, then deals their
    /// damage (doubled by an unblocked Club) and resolves a defeat.
    fn deal_damage(&mut self, cards: &Vec<Card>, attack_value: u8) -> (defeated: bool)
        requires
            old(self).game_log@.len() <= LOG_CAPACITY,
            forall|i: int| 0 <= i < old(self)@.castle.len() ==> (#[trigger] old(self)@.castle[i]).rank.is_face(),
            old(self).current_enemy.is_some(),
            old(self).current_enemy.unwrap().wf(),
            old(self).current_enemy.unwrap().current_hp + old(self).total_damage
                == old(self).current_enemy.unwrap().max_hp,
            attack_value == sum_values(cards@),
            attack_value <= 21,
        ensures
            ({
                let g = old(self)@.after_strike(cards@, old(self)@.damage(cards@));
                &&& defeated == (g.enemy.unwrap().current_hp == 0)
                &&& final(self)@ == if defeated { g.after_defeat() } else { g }
            }),
            final(self).game_log@.len() <= LOG_CAPACITY,
    {
        extend_cards(&mut self.played_cards, cards);
        let mut enemy = self.current_enemy.unwrap();
        let clubs = any_suit(cards, Suit::Clubs) && !enemy.is_immune_to(Suit::Clubs);
        let damage: u8 = if clubs {
            attack_value * 2
        } else {
            attack_value
        };
        self.total_damage = self.total_damage + damage;
        let max_hp = enemy.max_hp;
        enemy.take_damage(damage);
        self.current_enemy = Some(enemy);
        let msg = String::from_str("Dealt ").concat(number_text(damage as u64).as_str()).concat(
            " damage (Total: ",
        ).concat(number_text(self.total_damage as u64).as_str()).concat("/").concat(
            number_text(max_hp as u64).as_str(),
        ).concat(")");
        self.log(msg.as_str());
        let ghost g = old(self)@.after_strike(cards@, old(self)@.damage(cards@));
        assert(self@ =~= g);
        if enemy.is_defeated() {
            self.enemy_defeated();
            true
        } else {
            false
        }
    }

    /// Plays the cards at `card_indices` of the hand against the current enemy
    /// and says whether the enemy was defeated.
    ///
    /// A lone Jester cancels the enemy's immunity (against a Spades enemy, the
    /// Spades blocked so far then count towards the shield) and skips the
    /// enemy's attack. Any other play applies the suit powers of its total
    /// value in the order Hearts, Diamonds, Clubs, Spades, joins this
    /// encounter's cards, and deals its damage. Nothing changes but the turn
    /// flag when the play is refused.
    pub fn play_cards(&mut self, card_indices: Vec<usize>) -> (r: Result<bool, String>)
        requires
            old(self).wf(),
        ensures
            final(self).wf(),
            old(self)@.play_spec(
                card_indices@,
                match r {
                    Ok(d) => Some(d),
                    Err(_) => None,
                },
                final(self)@,
            ),
            r.is_err() ==> r.unwrap_err()@ == match play_rejection(old(self)@.hand, card_indices@) {
                Some(m) => m,
                None => "No current enemy"@,
            },
    {
        self.jester_played_this_turn = false;
        match self.validate_play(card_indices.as_slice()) {
            Err(m) => {
                return Err(m);
            },
            Ok(()) => {},
        }
        if self.current_enemy.is_none() {
            return Err(String::from_str("No current enemy"));
        }
        let ghost g0 = self@;
        let ghost idx = card_indices@;
        let ghost sel = selected(old(self)@.hand, idx);
        proof {
            lemma_indices_fit(g0.hand.len(), idx);
            lemma_without_positions_len(g0.hand, idx);
        }
        let cards = self.player.play_cards(card_indices.as_slice());
        if cards[0].is_jester() {
            assert(has_rank(sel, Rank::Jester));
            self.play_jester(cards);
            assert(self@ =~= old(self)@.jester_outcome(idx));
            proof {
                lemma_jester_wf(old(self)@, idx);
            }
            return Ok(false);
        }
        assert(!has_rank(sel, Rank::Jester));
        proof {
            lemma_play_value(g0.hand, idx);
        }
        let attack_value = total_value(&cards);
        let ghost pre = self@;
        let defeated = self.play_combo(cards, attack_value);
        let ghost (healed, rest) = choose|healed: Seq<Card>, rest: Seq<Card>|
            pre.heal_split(pre.heal_count(sel), healed, rest) && self@ == #[trigger] pre.combo_steps(sel, healed, rest);
        assert(pre == old(self)@.turn_started().with_hand(without_positions(g0.hand, idx)));
        assert(old(self)@.heal_split(old(self)@.heal_count(sel), healed, rest));
        assert(self@ == old(self)@.combo_outcome(idx, healed, rest));
        proof {
            lemma_combo_wf(old(self)@, idx, healed, rest);
        }
        Ok(defeated)
    }
}


impl Game {
    /// A lone Jester: cancels the enemy's immunity, brings back blocked Spades
    /// against a Spades enemy, and is discarded.
    fn play_jester(&mut self, cards: Vec<Card>)
        requires
            old(self).game_log@.len() <= LOG_CAPACITY,
            old(self).current_enemy.is_some(),
            sum_values(old(self)@.played) <= old(self)@.total_damage,
            old(self)@.total_damage <= 40,
            old(self)@.jester_shield() > 0 ==> old(self)@.shield == 0,
        ensures
            final(self)@ == (GameView {
                discard: old(self)@.discard + cards@,
                enemy: Some(Enemy { immunity_cancelled: true, ..old(self)@.enemy.unwrap() }),
                shield: old(self)@.shield + old(self)@.jester_shield(),
                jester_played_this_turn: true,
                ..old(self)@
            }),
            final(self).game_log@.len() <= LOG_CAPACITY,
    {
        self.log("Played Jester - Enemy immunity cancelled!");
        let mut e = self.current_enemy.unwrap();
        let was_cancelled = e.immunity_cancelled;
        e.cancel_immunity();
        self.current_enemy = Some(e);
        if e.card.suit == Suit::Spades && !was_cancelled {
            proof {
                lemma_suit_sum_le(self@.played, Suit::Spades);
            }
            let retro = spades_value(&self.played_cards);
            if retro > 0 {
                self.shield_value = self.shield_value + retro;
                let msg = String::from_str("Spades now active! Shield increased by ").concat(
                    number_text(retro as u64).as_str(),
                ).concat(" (Total: ").concat(number_text(self.shield_value as u64).as_str()).concat(
                    ")",
                );
                self.log(msg.as_str());
            }
        }
        let mut cards = cards;
        self.discard_pile.append(&mut cards);
        self.jester_played_this_turn = true;
    }

    /// The suit powers of a combo already taken from the hand, each unless
    /// the enemy is immune to it: Hearts return discarded cards under the
    /// player's deck, then Diamonds draw, then Spades raise the shield.
    fn apply_suit_powers(&mut self, cards: &Vec<Card>, attack_value: u8)
        requires
            old(self).game_log@.len() <= LOG_CAPACITY,
            old(self).current_enemy.is_some(),
            old(self)@.shield <= old(self)@.total_damage,
            old(self)@.total_damage <= 40,
            attack_value == sum_values(cards@),
            attack_value <= 21,
        ensures
            exists|healed: Seq<Card>, rest: Seq<Card>|
                old(self)@.heal_split(old(self)@.heal_count(cards@), healed, rest)
                && final(self)@ == #[trigger] old(self)@.powers_outcome(cards@, healed, rest),
            final(self).game_log@.len() <= LOG_CAPACITY,
    {
        let enemy = self.current_enemy.unwrap();
        let mut i: usize = 0;
        while i < cards.len()
            invariant
                self@ == old(self)@,
                self.game_log@.len() <= LOG_CAPACITY,
            decreases cards@.len() - i,
        {
            let suit = cards[i].suit;
            if enemy.is_immune_to(suit) {
                match suit {
                    Suit::Hearts => self.log("Hearts power blocked by immunity"),
                    Suit::Diamonds => self.log("Diamonds power blocked by immunity"),
                    Suit::Clubs => self.log("Clubs power blocked by immunity (double damage negated)"),
                    Suit::Spades => self.log("Spades power blocked by immunity"),
                }
            }
            i = i + 1;
        }
        let hearts = any_suit(cards, Suit::Hearts) && !enemy.is_immune_to(Suit::Hearts);
        let heal_count: usize = if hearts {
            if (attack_value as usize) < self.discard_pile.len() {
                attack_value as usize
            } else {
                self.discard_pile.len()
            }
        } else {
            0
        };
        let ghost g0 = self@;
        self.apply_hearts(heal_count);
        let ghost (healed, rest) = choose|healed: Seq<Card>, rest: Seq<Card>|
            g0.heal_split(heal_count as nat, healed, rest) && self@ == #[trigger] g0.after_heal(healed, rest);
        assert(heal_count == old(self)@.heal_count(cards@));
        if any_suit(cards, Suit::Diamonds) && !enemy.is_immune_to(Suit::Diamonds) {
            self.draw_cards(attack_value as usize);
        }
        if any_suit(cards, Suit::Clubs) && !enemy.is_immune_to(Suit::Clubs) {
            self.log("Clubs active - double damage!");
        }
        if any_suit(cards, Suit::Spades) && !enemy.is_immune_to(Suit::Spades) {
            self.shield_value = self.shield_value + attack_value;
            let msg = String::from_str("Shield increased by ").concat(
                number_text(attack_value as u64).as_str(),
            ).concat(" (Total: ").concat(number_text(self.shield_value as u64).as_str()).concat(")");
            self.log(msg.as_str());
        }
        assert(self@ == old(self)@.powers_outcome(cards@, healed, rest));
    }

    /// A combo already taken from the hand: its suit powers, then its damage.
    fn play_combo(&mut self, cards: Vec<Card>, attack_value: u8) -> (defeated: bool)
        requires
            old(self).game_log@.len() <= LOG_CAPACITY,
            forall|i: int| 0 <= i < old(self)@.castle.len() ==> (#[trigger] old(self)@.castle[i]).rank.is_face(),
            old(self).current_enemy.is_some(),
            old(self).current_enemy.unwrap().wf(),
            old(self).current_enemy.unwrap().current_hp + old(self).total_damage
                == old(self).current_enemy.unwrap().max_hp,
            old(self)@.shield <= old(self)@.total_damage,
            attack_value == sum_values(cards@),
            attack_value <= 21,
        ensures
            defeated == (old(self)@.damage(cards@) >= old(self)@.enemy.unwrap().current_hp),
            exists|healed: Seq<Card>, rest: Seq<Card>|
                old(self)@.heal_split(old(self)@.heal_count(cards@), healed, rest)
                && final(self)@ == #[trigger] old(self)@.combo_steps(cards@, healed, rest),
            final(self).game_log@.len() <= LOG_CAPACITY,
    {
        self.apply_suit_powers(&cards, attack_value);
        let ghost (healed, rest) = choose|healed: Seq<Card>, rest: Seq<Card>|
            old(self)@.heal_split(old(self)@.heal_count(cards@), healed, rest)
            && self@ == #[trigger] old(self)@.powers_outcome(cards@, healed, rest);
        let ghost g3 = self@;
        let defeated = self.deal_damage(&cards, attack_value);
        assert(g3.damage(cards@) == old(self)@.damage(cards@));
        assert(self@ == old(self)@.combo_steps(cards@, healed, rest));
        defeated
    }
}

/// A Jester play keeps the game's invariant.
proof fn lemma_jester_wf(g: GameView, idx: Seq<usize>)
    requires
        g.wf(),
        g.enemy.is_some(),
        play_rejection(g.hand, idx).is_none(),
    ensures
        g.jester_outcome(idx).wf(),
{
    lemma_indices_fit(g.hand.len(), idx);
    lemma_without_positions_len(g.hand, idx);
    lemma_suit_sum_le(g.played, Suit::Spades);
}

/// A combo play keeps the game's invariant.
proof fn lemma_combo_wf(g: GameView, idx: Seq<usize>, healed: Seq<Card>, rest: Seq<Card>)
    requires
        g.wf(),
        g.enemy.is_some(),
        play_rejection(g.hand, idx).is_none(),
        !has_rank(selected(g.hand, idx), Rank::Jester),
    ensures
        g.combo_outcome(idx, healed, rest).wf(),
{
    let cards = selected(g.hand, idx);
    lemma_indices_fit(g.hand.len(), idx);
    lemma_without_positions_len(g.hand, idx);
    lemma_play_value(g.hand, idx);
    lemma_sum_values_concat(g.played, cards);
}

} // verus!

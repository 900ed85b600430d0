use crate::card::sum_values;
use crate::game::{discard_rejection, Game, GameState, GameView};
use crate::player::{selected, without_positions};
use crate::text::{decimal, number_text};
use vstd::prelude::*;

verus! {

broadcast use vstd::seq_lib::group_to_multiset_ensures;

/// The phase of the turn cycle an interactive session is in.
#[derive(Debug, Clone, Copy, PartialEq, Eq, Structural)]
pub enum AppState {
    Playing,
    DiscardPhase { required_damage: u8 },
    Victory,
    Defeat,
    RestartConfirmation,
    QuitConfirmation,
}

pub open spec fn sorted(s: Seq<usize>) -> bool {
    forall|i: int, j: int| 0 <= i < j < s.len() ==> s[i] <= s[j]
}

/// `t` holds the positions of `s` in ascending order.
pub open spec fn sorted_from(s: Seq<usize>, t: Seq<usize>) -> bool {
    sorted(t) && t.to_multiset() == s.to_multiset()
}

/// The enemy's attack after shields, when an enemy stands.
pub open spec fn pending_attack(g: GameView) -> u8 {
    g.enemy.unwrap().spec_attack_after_shields(g.shield as u8)
}

/// Whether the enemy's attack would defeat the hero: it deals damage and the
/// whole hand is worth less.
pub open spec fn attack_kills(g: GameView) -> bool {
    g.enemy.is_some() && pending_attack(g) > 0 && sum_values(g.hand) < pending_attack(g)
}

/// The phase after the enemy attacks: unchanged when no enemy stands or the
/// shield blocks everything, lost when the hand cannot cover the damage, else
/// the discard phase for that damage.
pub open spec fn phase_after_attack(g: GameView, prev: AppState) -> AppState {
    if g.enemy.is_none() || pending_attack(g) == 0 {
        prev
    } else if attack_kills(g) {
        AppState::Defeat
    } else {
        AppState::DiscardPhase { required_damage: pending_attack(g) }
    }
}

/// The game after the enemy attacks: lost, with its reason, when the attack
/// kills; otherwise unchanged.
pub open spec fn game_after_attack(before: GameView, after: &Game) -> bool {
    &&& after@ == (GameView { state: after@.state, ..before })
    &&& attack_kills(before) ==> match after.game_state {
        GameState::Defeat(reason) => reason@ == "Cannot survive enemy attack!"@,
        _ => false,
    }
    &&& !attack_kills(before) ==> after@.state == before.state
}

/// The prompt shown for each phase.
pub open spec fn prompt_text(state: AppState) -> Seq<char> {
    match state {
        AppState::Playing => "⚔️  ATTACK: Select cards (1-8) and press Enter to play, or Space to yield"@,
        AppState::DiscardPhase { required_damage } => "🛡️  DEFEND: Enemy attacks! Discard cards worth "@
            + decimal(required_damage as nat) + " value or more"@,
        AppState::Victory => "Press 'r' to Restart or 'q' to Quit"@,
        AppState::Defeat => "Press 'r' to Restart or 'q' to Quit"@,
        AppState::RestartConfirmation => "Restart game? Press 'y' to confirm or 'n' to cancel"@,
        AppState::QuitConfirmation => "Quit game? Press 'y' to confirm or 'n' to cancel"@,
    }
}

/// Sorts positions in ascending order.
fn sort_indices(v: &Vec<usize>) -> (out: Vec<usize>)
    ensures
        sorted_from(v@, out@),
{
    let mut out: Vec<usize> = Vec::new();
    let mut i: usize = 0;
    while i < v.len()
        invariant
            i <= v@.len(),
            sorted(out@),
            out@.to_multiset() == v@.take(i as int).to_multiset(),
        decreases v@.len() - i,
    {
        let x = v[i];
        let mut p: usize = 0;
        while p < out.len() && out[p] <= x
            invariant
                p <= out@.len(),
                forall|k: int| 0 <= k < p ==> out@[k] <= x,
            decreases out@.len() - p,
        {
            p = p + 1;
        }
        let ghost before = out@;
        out.insert(p, x);
        proof {
            vstd::seq_lib::to_multiset_insert(before, p as int, x);
            assert(v@.take(i + 1) =~= v@.take(i as int).push(x));
            assert forall|a: int, b: int| 0 <= a < b < out@.len() implies out@[a] <= out@[b] by {
                if b < p {
                } else if b == p {
                    assert(out@[a] == before[a]);
                } else if a < p {
                    assert(out@[b] == before[b - 1]);
                    if p < before.len() {
                        assert(before[p as int] > x);
                        assert(before[p as int] <= before[b - 1]);
                    }
                } else if a == p {
                    assert(out@[b] == before[b - 1]);
                    assert(before[p as int] > x);
                    assert(before[p as int] <= before[b - 1]);
                } else {
                }
            }
        }
        i = i + 1;
    }
    assert(v@.take(i as int) =~= v@);
    out
}

fn copy_indices(v: &Vec<usize>) -> (out: Vec<usize>)
    ensures
        out@ == v@,
{
    let mut out: Vec<usize> = Vec::new();
    let mut i: usize = 0;
    while i < v.len()
        invariant
            i <= v@.len(),
            out@ == v@.take(i as int),
        decreases v@.len() - i,
    {
        out.push(v[i]);
        i = i + 1;
        assert(out@ =~= v@.take(i as int));
    }
    assert(v@.take(i as int) =~= v@);
    out
}

/// An interactive session around one game: the selected cards, the phase
/// of the turn, and scroll positions of the log, guide and help panes.
pub struct App {
    pub game: Game,
    pub selected_cards: Vec<usize>,
    pub state: AppState,
    pub show_help: bool,
    pub log_scroll_offset: usize,
    pub guide_scroll_offset: usize,
    pub help_scroll_offset: usize,
}

impl App {
    pub open spec fn wf(&self) -> bool {
        self.game.wf()
    }

    pub fn new() -> (app: App)
        ensures
            app.wf(),
            app.state == AppState::Playing,
            app.selected_cards@.len() == 0,
            !app.show_help,
            app.log_scroll_offset == 0,
            app.guide_scroll_offset == 0,
            app.help_scroll_offset == 0,
    {
        App {
            game: Game::new_solo(),
            selected_cards: Vec::new(),
            state: AppState::Playing,
            show_help: false,
            log_scroll_offset: 0,
            guide_scroll_offset: 0,
            help_scroll_offset: 0,
        }
    }

    /// Scrolls the log back in history, at most to its oldest line.
    pub fn scroll_log_up(&mut self)
        ensures
            final(self).log_scroll_offset == if old(self).log_scroll_offset < old(self).game.game_log@.len() {
                old(self).log_scroll_offset + 1
            } else {
                old(self).log_scroll_offset as int
            },
            final(self).game == old(self).game,
            final(self).state == old(self).state,
            final(self).selected_cards == old(self).selected_cards,
    {
        let max_scroll = self.game.game_log.len();
        if self.log_scroll_offset < max_scroll {
            self.log_scroll_offset = self.log_scroll_offset + 1;
        }
    }

    /// Scrolls the log forward, at most to its latest line.
    pub fn scroll_log_down(&mut self)
        ensures
            final(self).log_scroll_offset == if old(self).log_scroll_offset > 0 {
                old(self).log_scroll_offset - 1
            } else {
                0
            },
            final(self).game == old(self).game,
            final(self).state == old(self).state,
            final(self).selected_cards == old(self).selected_cards,
    {
        if self.log_scroll_offset > 0 {
            self.log_scroll_offset = self.log_scroll_offset - 1;
        }
    }

    /// Shows the latest log lines.
    pub fn reset_log_scroll(&mut self)
        ensures
            final(self).log_scroll_offset == 0,
            final(self).game == old(self).game,
            final(self).state == old(self).state,
            final(self).selected_cards == old(self).selected_cards,
    {
        self.log_scroll_offset = 0;
    }

    pub fn scroll_guide_up(&mut self)
        ensures
            final(self).guide_scroll_offset == if old(self).guide_scroll_offset > 0 {
                old(self).guide_scroll_offset - 1
            } else {
                0
            },
            final(self).game == old(self).game,
    {
        if self.guide_scroll_offset > 0 {
            self.guide_scroll_offset = self.guide_scroll_offset - 1;
        }
    }

    /// Scrolls the guide down while ten lines or more remain below.
    pub fn scroll_guide_down(&mut self, max_lines: usize)
        ensures
            final(self).guide_scroll_offset == if old(self).guide_scroll_offset + 10 < max_lines {
                old(self).guide_scroll_offset + 1
            } else {
                old(self).guide_scroll_offset as int
            },
            final(self).game == old(self).game,
    {
        let max_scroll = max_lines.saturating_sub(10);
        if self.guide_scroll_offset < max_scroll {
            self.guide_scroll_offset = self.guide_scroll_offset + 1;
        }
    }

    pub fn scroll_help_up(&mut self)
        ensures
            final(self).help_scroll_offset == if old(self).help_scroll_offset > 0 {
                old(self).help_scroll_offset - 1
            } else {
                0
            },
            final(self).game == old(self).game,
    {
        if self.help_scroll_offset > 0 {
            self.help_scroll_offset = self.help_scroll_offset - 1;
        }
    }

    /// Scrolls the help down while ten lines or more remain below.
    pub fn scroll_help_down(&mut self, max_lines: usize)
        ensures
            final(self).help_scroll_offset == if old(self).help_scroll_offset + 10 < max_lines {
                old(self).help_scroll_offset + 1
            } else {
                old(self).help_scroll_offset as int
            },
            final(self).game == old(self).game,
    {
        let max_scroll = max_lines.saturating_sub(10);
        if self.help_scroll_offset < max_scroll {
            self.help_scroll_offset = self.help_scroll_offset + 1;
        }
    }

    /// Starts a new game with a clean selection and scroll positions.
    pub fn restart_game(&mut self)
        ensures
            final(self).wf(),
            final(self).state == AppState::Playing,
            final(self).selected_cards@.len() == 0,
            final(self).log_scroll_offset == 0,
            final(self).guide_scroll_offset == 0,
            final(self).help_scroll_offset == 0,
            final(self).show_help == old(self).show_help,
    {
        self.game = Game::new_solo();
        self.selected_cards.clear();
        self.state = AppState::Playing;
        self.log_scroll_offset = 0;
        self.guide_scroll_offset = 0;
        self.help_scroll_offset = 0;
    }

    /// Selects the hand position `index`, or unselects it when selected;
    /// positions beyond the hand are ignored.
    pub fn toggle_card_selection(&mut self, index: usize)
        ensures
            final(self).game == old(self).game,
            final(self).state == old(self).state,
            index >= old(self).game.player.hand@.len() ==> final(self).selected_cards@
                == old(self).selected_cards@,
            index < old(self).game.player.hand@.len() && !old(self).selected_cards@.contains(index)
                ==> final(self).selected_cards@ == old(self).selected_cards@.push(index),
            index < old(self).game.player.hand@.len() && old(self).selected_cards@.contains(index)
                ==> exists|k: int|
                0 <= k < old(self).selected_cards@.len() && old(self).selected_cards@[k] == index
                    && final(self).selected_cards@ == old(self).selected_cards@.remove(k),
    {
        if index >= self.game.player.hand_size() {
            return;
        }
        let mut pos: usize = 0;
        while pos < self.selected_cards.len() && self.selected_cards[pos] != index
            invariant
                pos <= self.selected_cards@.len(),
                forall|k: int| 0 <= k < pos ==> self.selected_cards@[k] != index,
            decreases self.selected_cards@.len() - pos,
        {
            pos = pos + 1;
        }
        if pos < self.selected_cards.len() {
            self.selected_cards.remove(pos);
        } else {
            self.selected_cards.push(index);
        }
    }

    /// The enemy's attack: the discard phase when the hand can cover it, the
    /// lost game when it cannot, nothing when the shield blocks it.
    fn counterattack(&mut self)
        requires
            old(self).wf(),
        ensures
            final(self).wf(),
            game_after_attack(old(self).game@, &final(self).game),
            final(self).state == phase_after_attack(old(self).game@, old(self).state),
            final(self).selected_cards == old(self).selected_cards,
    {
        match self.game.enemy_attack() {
            Ok(damage) => {
                self.reset_log_scroll();
                if damage > 0 {
                    if !self.game.player.can_survive(damage) {
                        self.state = AppState::Defeat;
                        self.game.game_state = GameState::Defeat(
                            String::from_str("Cannot survive enemy attack!"),
                        );
                    } else {
                        self.state = AppState::DiscardPhase { required_damage: damage };
                    }
                }
            },
            Err(_) => {},
        }
    }

    /// Plays the selected cards, in ascending order of position, and moves
    /// the session on: to the end of the game when it is won or lost, else to
    /// the enemy's attack unless the enemy fell or a Jester was played. A
    /// refused play is logged and keeps the (sorted) selection.
    pub fn play_selected_cards(&mut self)
        requires
            old(self).wf(),
        ensures
            final(self).wf(),
            old(self).selected_cards@.len() == 0 ==> final(self).game@ == old(self).game@
                && final(self).state == old(self).state && final(self).selected_cards
                == old(self).selected_cards,
            old(self).selected_cards@.len() > 0 ==> exists|picked: Seq<usize>, after: GameView, outcome: Option<bool>|
                #![trigger old(self).game@.play_spec(picked, outcome, after)]
                sorted_from(old(self).selected_cards@, picked)
                && old(self).game@.play_spec(picked, outcome, after)
                && match outcome {
                    None => final(self).game@ == after && final(self).state == old(self).state
                        && final(self).selected_cards@ == picked,
                    Some(defeated) => final(self).selected_cards@.len() == 0 && match after.state {
                        GameState::Victory => final(self).state == AppState::Victory && final(self).game@ == after,
                        GameState::Defeat(_) => final(self).state == AppState::Defeat && final(self).game@ == after,
                        GameState::Playing => if defeated || after.jester_played_this_turn {
                            final(self).state == old(self).state && final(self).game@ == after
                        } else {
                            final(self).state == phase_after_attack(after, old(self).state)
                                && game_after_attack(after, &final(self).game)
                        },
                    },
                },
    {
        if self.selected_cards.len() == 0 {
            self.game.log("No cards selected");
            self.reset_log_scroll();
            return;
        }
        let picked = sort_indices(&self.selected_cards);
        self.selected_cards = copy_indices(&picked);
        let result = self.game.play_cards(picked);
        let ghost after = self.game@;
        match result {
            Ok(enemy_defeated) => {
                self.selected_cards.clear();
                self.reset_log_scroll();
                match self.game.game_state {
                    GameState::Victory => {
                        self.state = AppState::Victory;
                        return;
                    },
                    GameState::Defeat(_) => {
                        self.state = AppState::Defeat;
                        return;
                    },
                    GameState::Playing => {},
                }
                if !enemy_defeated && !self.game.jester_played_this_turn {
                    self.counterattack();
                }
            },
            Err(e) => {
                let msg = String::from_str("Error: ").concat(e.as_str());
                self.game.log(msg.as_str());
                self.reset_log_scroll();
            },
        }
    }

    /// Yields the turn; the enemy attacks.
    pub fn yield_turn(&mut self)
        requires
            old(self).wf(),
        ensures
            final(self).wf(),
            final(self).state == phase_after_attack(old(self).game@.turn_started(), old(self).state),
            game_after_attack(old(self).game@.turn_started(), &final(self).game),
            final(self).selected_cards == old(self).selected_cards,
    {
        if self.game.yield_turn().is_ok() {
            self.reset_log_scroll();
            self.counterattack();
        }
    }

    /// Discards the selected cards, in ascending order of position, against
    /// the enemy's attack; on success the next turn begins.
    pub fn discard_selected_cards(&mut self, _required: u8)
        requires
            old(self).wf(),
        ensures
            final(self).wf(),
            old(self).selected_cards@.len() == 0 ==> final(self).game@ == old(self).game@
                && final(self).state == old(self).state && final(self).selected_cards
                == old(self).selected_cards,
            old(self).selected_cards@.len() > 0 ==> exists|picked: Seq<usize>|
                #![trigger discard_rejection(old(self).game@, picked)]
                sorted_from(old(self).selected_cards@, picked) && match discard_rejection(old(self).game@, picked) {
                    Some(_) => final(self).game@ == old(self).game@ && final(self).state == old(self).state
                        && final(self).selected_cards@ == picked,
                    None => final(self).state == AppState::Playing && final(self).selected_cards@.len() == 0
                        && final(self).game@ == (GameView {
                            hand: without_positions(old(self).game@.hand, picked),
                            discard: old(self).game@.discard + selected(old(self).game@.hand, picked),
                            ..old(self).game@
                        }),
                },
    {
        if self.selected_cards.len() == 0 {
            self.game.log("No cards selected to discard");
            self.reset_log_scroll();
            return;
        }
        let picked = sort_indices(&self.selected_cards);
        self.selected_cards = copy_indices(&picked);
        let ghost p = picked@;
        match self.game.discard_to_survive(picked) {
            Ok(()) => {
                self.selected_cards.clear();
                self.reset_log_scroll();
                self.state = AppState::Playing;
                self.game.log("Survived enemy attack! New turn begins.");
                self.reset_log_scroll();
            },
            Err(e) => {
                let msg = String::from_str("Error: ").concat(e.as_str());
                self.game.log(msg.as_str());
                self.reset_log_scroll();
            },
        }
    }

    /// Uses the solo Jester power; a refusal is logged.
    pub fn use_jester(&mut self)
        requires
            old(self).wf(),
        ensures
            final(self).wf(),
            final(self).state == old(self).state,
            final(self).selected_cards == old(self).selected_cards,
            final(self).game@ == match old(self).game@.jester_power() {
                Some(v) => v,
                None => old(self).game@,
            },
    {
        match self.game.use_jester() {
            Ok(()) => {
                self.reset_log_scroll();
            },
            Err(e) => {
                let msg = String::from_str("Error: ").concat(e.as_str());
                self.game.log(msg.as_str());
                self.reset_log_scroll();
            },
        }
    }

    /// The prompt for the current phase.
    pub fn get_action_prompt(&self) -> (s: String)
        ensures
            s@ == prompt_text(self.state),
    {
        match self.state {
            AppState::Playing => String::from_str(
                "⚔️  ATTACK: Select cards (1-8) and press Enter to play, or Space to yield",
            ),
            AppState::DiscardPhase { required_damage } => String::from_str(
                "🛡️  DEFEND: Enemy attacks! Discard cards worth ",
            ).concat(number_text(required_damage as u64).as_str()).concat(" value or more"),
            AppState::Victory => String::from_str("Press 'r' to Restart or 'q' to Quit"),
            AppState::Defeat => String::from_str("Press 'r' to Restart or 'q' to Quit"),
            AppState::RestartConfirmation => String::from_str(
                "Restart game? Press 'y' to confirm or 'n' to cancel",
            ),
            AppState::QuitConfirmation => String::from_str(
                "Quit game? Press 'y' to confirm or 'n' to cancel",
            ),
        }
    }
}

} // verus!

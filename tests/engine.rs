use regicide::card::{Card, Rank, Suit};
use regicide::deck::Deck;
use regicide::enemy::Enemy;
use regicide::game::{Game, GameState};
use regicide::layout::{get_game_guide_line_count, get_help_line_count, render_card_small};
use regicide::session::{App, AppState};

fn game_against(suit: Suit, rank: Rank, hand: Vec<Card>) -> Game {
    let mut game = Game::new_solo();
    game.current_enemy = Some(Enemy::new(Card::new(suit, rank)));
    game.player.hand.clear();
    for c in hand {
        game.player.hand.push(c);
    }
    game
}

#[test]
fn plain_damage_equals_card_value() {
    let mut game = game_against(Suit::Hearts, Rank::Jack, vec![Card::new(Suit::Spades, Rank::Seven)]);
    assert_eq!(game.play_cards(vec![0]), Ok(false));
    assert_eq!(game.total_damage, 7);
    assert_eq!(game.current_enemy.as_ref().unwrap().current_hp, 13);
}

#[test]
fn clubs_blocked_by_clubs_enemy_do_not_double() {
    let mut game = game_against(Suit::Clubs, Rank::Queen, vec![Card::new(Suit::Clubs, Rank::Four)]);
    assert_eq!(game.play_cards(vec![0]), Ok(false));
    assert_eq!(game.total_damage, 4);
    assert_eq!(game.current_enemy.as_ref().unwrap().current_hp, 26);
}

#[test]
fn clubs_then_spades_second_turn_not_doubled() {
    let mut game = game_against(
        Suit::Hearts,
        Rank::King,
        vec![Card::new(Suit::Clubs, Rank::Two), Card::new(Suit::Spades, Rank::Two)],
    );
    assert!(game.play_cards(vec![0]).is_ok());
    assert_eq!(game.total_damage, 4);
    assert!(game.play_cards(vec![0]).is_ok());
    assert_eq!(game.total_damage, 6);
}

#[test]
fn hearts_refill_deck_before_diamonds_draw() {
    let mut game = game_against(
        Suit::Clubs,
        Rank::Jack,
        vec![Card::new(Suit::Hearts, Rank::Ace), Card::new(Suit::Diamonds, Rank::Ace)],
    );
    game.tavern_deck.cards.clear();
    game.discard_pile.push(Card::new(Suit::Spades, Rank::Nine));
    game.discard_pile.push(Card::new(Suit::Spades, Rank::Eight));
    assert!(game.play_cards(vec![0, 1]).is_ok());
    assert_eq!(game.player.hand.len(), 2);
    assert_eq!(game.discard_pile.len(), 0);
    assert_eq!(game.tavern_deck.len(), 0);
}

#[test]
fn shield_resets_when_next_enemy_appears() {
    let mut game = game_against(
        Suit::Hearts,
        Rank::Jack,
        vec![Card::new(Suit::Spades, Rank::Ten), Card::new(Suit::Clubs, Rank::Ten)],
    );
    assert!(game.play_cards(vec![0]).is_ok());
    assert_eq!(game.shield_value, 10);
    assert_eq!(game.play_cards(vec![0]), Ok(true));
    assert_eq!(game.shield_value, 0);
    assert_eq!(game.total_damage, 0);
    assert!(game.played_cards.is_empty());
    assert_eq!(game.castle_deck.len(), 10);
}

#[test]
fn jester_against_other_suit_adds_no_shield() {
    let mut game = game_against(
        Suit::Clubs,
        Rank::Jack,
        vec![Card::new(Suit::Spades, Rank::Three), Card::new(Suit::Hearts, Rank::Jester)],
    );
    assert!(game.play_cards(vec![0]).is_ok());
    assert_eq!(game.shield_value, 3);
    assert_eq!(game.play_cards(vec![0]), Ok(false));
    assert_eq!(game.shield_value, 3);
}

#[test]
fn second_jester_adds_blocked_spades_only_once() {
    let mut game = game_against(
        Suit::Spades,
        Rank::Queen,
        vec![
            Card::new(Suit::Spades, Rank::Four),
            Card::new(Suit::Hearts, Rank::Jester),
            Card::new(Suit::Hearts, Rank::Jester),
        ],
    );
    assert!(game.play_cards(vec![0]).is_ok());
    assert_eq!(game.shield_value, 0);
    assert!(game.play_cards(vec![0]).is_ok());
    assert_eq!(game.shield_value, 4);
    assert!(game.play_cards(vec![0]).is_ok());
    assert_eq!(game.shield_value, 4);
    assert_eq!(game.discard_pile.len(), 2);
}

#[test]
fn overkill_sends_enemy_to_discard() {
    let mut game = game_against(Suit::Hearts, Rank::Jack, vec![Card::new(Suit::Clubs, Rank::King)]);
    let tavern_before = game.tavern_deck.len();
    assert_eq!(game.play_cards(vec![0]), Ok(true));
    assert_eq!(game.tavern_deck.len(), tavern_before);
    assert_eq!(game.discard_pile.len(), 2);
    assert!(game.discard_pile.contains(&Card::new(Suit::Hearts, Rank::Jack)));
    assert!(game.discard_pile.contains(&Card::new(Suit::Clubs, Rank::King)));
}

#[test]
fn exact_kill_puts_enemy_on_top_of_deck() {
    let mut game = game_against(Suit::Hearts, Rank::Jack, vec![Card::new(Suit::Clubs, Rank::Ten)]);
    assert_eq!(game.play_cards(vec![0]), Ok(true));
    assert_eq!(game.tavern_deck.cards[0], Card::new(Suit::Hearts, Rank::Jack));
    assert_eq!(game.discard_pile, vec![Card::new(Suit::Clubs, Rank::Ten)]);
}

#[test]
fn last_enemy_defeated_wins() {
    let mut game = game_against(Suit::Hearts, Rank::Jack, vec![Card::new(Suit::Clubs, Rank::Ten)]);
    game.castle_deck.cards.clear();
    assert_eq!(game.play_cards(vec![0]), Ok(true));
    assert!(matches!(game.game_state, GameState::Victory));
    assert!(game.current_enemy.is_none());
    assert_eq!(game.enemy_attack().unwrap_err(), "No current enemy");
}

#[test]
fn jester_power_refills_with_what_is_left() {
    let mut game = Game::new_solo();
    game.tavern_deck.cards.truncate(3);
    assert!(game.use_jester().is_ok());
    assert_eq!(game.player.hand.len(), 3);
    assert_eq!(game.discard_pile.len(), 8);
    assert_eq!(game.tavern_deck.len(), 0);
}

#[test]
fn selection_shapes() {
    let mut game = game_against(
        Suit::Hearts,
        Rank::Jack,
        vec![
            Card::new(Suit::Hearts, Rank::Jester),
            Card::new(Suit::Clubs, Rank::Five),
            Card::new(Suit::Clubs, Rank::Ace),
            Card::new(Suit::Spades, Rank::King),
            Card::new(Suit::Diamonds, Rank::Ace),
            Card::new(Suit::Spades, Rank::Two),
            Card::new(Suit::Hearts, Rank::Two),
            Card::new(Suit::Diamonds, Rank::Three),
        ],
    );
    assert_eq!(game.validate_play(&[0]), Ok(()));
    assert_eq!(game.validate_play(&[0, 1]).unwrap_err(), "Jester must be played alone");
    assert_eq!(game.validate_play(&[2, 3]), Ok(()));
    assert_eq!(game.validate_play(&[2, 4]), Ok(()));
    assert_eq!(
        game.validate_play(&[2, 1, 5]).unwrap_err(),
        "Ace can only be paired with one other card"
    );
    assert_eq!(game.validate_play(&[]).unwrap_err(), "Must select at least one card");
    assert_eq!(game.validate_play(&[8]).unwrap_err(), "Invalid card indices");
    assert_eq!(game.validate_play(&[1, 1]).unwrap_err(), "Invalid card indices");
    assert_eq!(
        game.validate_play(&[1, 5]).unwrap_err(),
        "Combo cards must all have the same rank (or use Ace + 1 card)"
    );
    assert_eq!(game.validate_play(&[5, 6]), Ok(()));
    game.player.hand.clear();
    for s in [Suit::Hearts, Suit::Diamonds, Suit::Clubs, Suit::Spades, Suit::Hearts] {
        game.player.hand.push(Card::new(s, Rank::Two));
    }
    assert_eq!(
        game.validate_play(&[0, 1, 2, 3, 4]).unwrap_err(),
        "Cannot play more than 4 cards at once"
    );
    assert_eq!(game.validate_play(&[0, 1, 2, 3]), Ok(()));
    game.player.hand.clear();
    game.player.hand.push(Card::new(Suit::Hearts, Rank::Six));
    game.player.hand.push(Card::new(Suit::Clubs, Rank::Six));
    assert_eq!(game.validate_play(&[0, 1]).unwrap_err(), "Combo total must be 10 or less");
}

#[test]
fn refused_play_leaves_hand() {
    let mut game = game_against(
        Suit::Hearts,
        Rank::Jack,
        vec![Card::new(Suit::Hearts, Rank::Six), Card::new(Suit::Clubs, Rank::Six)],
    );
    assert_eq!(game.play_cards(vec![0, 1]).unwrap_err(), "Combo total must be 10 or less");
    assert_eq!(game.player.hand.len(), 2);
    assert_eq!(game.total_damage, 0);
    game.current_enemy = None;
    assert_eq!(game.play_cards(vec![0]).unwrap_err(), "No current enemy");
    assert_eq!(game.player.hand.len(), 2);
}

#[test]
fn castle_layers_hold_each_suit_once() {
    let castle = Deck::create_castle_deck();
    for layer in 0..3 {
        let mut seen = Vec::new();
        for s in castle.cards[layer * 4..layer * 4 + 4].iter().map(|c| c.suit) {
            assert!(!seen.contains(&s));
            seen.push(s);
        }
        assert_eq!(seen.len(), 4);
    }
}

#[test]
fn tavern_has_four_of_each_numeric_rank() {
    let tavern = Deck::create_tavern_deck(0);
    for r in [
        Rank::Ace,
        Rank::Two,
        Rank::Three,
        Rank::Four,
        Rank::Five,
        Rank::Six,
        Rank::Seven,
        Rank::Eight,
        Rank::Nine,
        Rank::Ten,
    ] {
        assert_eq!(tavern.cards.iter().filter(|c| c.rank == r).count(), 4);
    }
    let with_jesters = Deck::create_tavern_deck(2);
    assert_eq!(with_jesters.len(), 42);
    assert_eq!(with_jesters.cards.iter().filter(|c| c.rank == Rank::Jester).count(), 2);
}

#[test]
fn tavern_is_shuffled() {
    let tavern = Deck::create_tavern_deck(0);
    let mut in_order = Vec::new();
    for s in [Suit::Hearts, Suit::Diamonds, Suit::Clubs, Suit::Spades] {
        for r in [
            Rank::Ace,
            Rank::Two,
            Rank::Three,
            Rank::Four,
            Rank::Five,
            Rank::Six,
            Rank::Seven,
            Rank::Eight,
            Rank::Nine,
            Rank::Ten,
        ] {
            in_order.push(Card::new(s, r));
        }
    }
    assert_ne!(tavern.cards, in_order);
}

#[test]
fn discard_with_too_little_value_is_refused() {
    let mut game = game_against(
        Suit::Hearts,
        Rank::Jack,
        vec![Card::new(Suit::Hearts, Rank::Five), Card::new(Suit::Clubs, Rank::Two)],
    );
    assert_eq!(
        game.discard_to_survive(vec![0]).unwrap_err(),
        "Not enough value (need 10, have 5)"
    );
    assert_eq!(game.player.hand.len(), 2);
    assert_eq!(game.discard_to_survive(vec![0, 0]).unwrap_err(), "Invalid card indices");
    game.shield_value = 4;
    assert_eq!(game.discard_to_survive(vec![0, 1]), Ok(()));
    assert!(game.player.hand.is_empty());
    assert_eq!(game.discard_pile.len(), 2);
}

#[test]
fn enemy_attack_through_shield() {
    let mut game = game_against(Suit::Hearts, Rank::Queen, vec![]);
    game.shield_value = 4;
    assert_eq!(game.enemy_attack(), Ok(11));
    game.shield_value = 20;
    assert_eq!(game.enemy_attack(), Ok(0));
}

#[test]
fn enemy_stats_and_names() {
    let king = Enemy::new(Card::new(Suit::Spades, Rank::King));
    assert_eq!(king.max_hp, 40);
    assert_eq!(king.attack, 20);
    assert_eq!(king.name(), "King of Spades");
    let mut queen = Enemy::new(Card::new(Suit::Diamonds, Rank::Queen));
    assert_eq!((queen.max_hp, queen.attack), (30, 15));
    assert!(queen.is_immune_to(Suit::Diamonds));
    assert!(!queen.is_immune_to(Suit::Hearts));
    queen.cancel_immunity();
    assert!(!queen.is_immune_to(Suit::Diamonds));
    queen.take_damage(200);
    assert_eq!(queen.current_hp, 0);
    assert!(queen.is_defeated());
    assert!(queen.defeated_exactly(30));
    assert!(!queen.defeated_exactly(31));
}

#[test]
fn health_bar_drawing() {
    let mut jack = Enemy::new(Card::new(Suit::Hearts, Rank::Jack));
    jack.take_damage(10);
    assert_eq!(jack.hp_bar(10), "[█████     ]");
    jack.take_damage(3);
    assert_eq!(jack.hp_bar(4), "[█   ]");
}

#[test]
fn card_labels() {
    assert_eq!(Card::new(Suit::Hearts, Rank::Ten).display(), "10♥");
    assert_eq!(Card::new(Suit::Spades, Rank::Jester).display(), "*♠");
    assert_eq!(Rank::Queen.display(), "Q");
    assert_eq!(Suit::Clubs.symbol(), '♣');
    assert!(Suit::Diamonds.is_red());
    assert!(!Suit::Spades.is_red());
    assert!(Card::new(Suit::Clubs, Rank::Ace).is_companion());
    assert!(Card::new(Suit::Clubs, Rank::Jester).is_jester());
}

#[test]
fn small_card_art() {
    let lines = render_card_small(&Card::new(Suit::Hearts, Rank::Ten));
    assert_eq!(lines, vec![".------.", "|10    |", "|  ♥   |", "|    10|", "'------'"]);
    let lines = render_card_small(&Card::new(Suit::Clubs, Rank::Ace));
    assert_eq!(lines[1], "|A     |");
    assert_eq!(lines[3], "|     A|");
    assert_eq!(get_game_guide_line_count(), 64);
    assert_eq!(get_help_line_count(), 177);
}

#[test]
fn log_lines_carry_a_time_stamp() {
    let mut game = Game::new_solo();
    assert!(game.yield_turn().is_ok());
    let line = game.game_log.last().unwrap().clone();
    let chars: Vec<char> = line.chars().collect();
    assert_eq!(chars[0], '[');
    assert_eq!(chars[3], ':');
    assert_eq!(chars[6], ':');
    assert_eq!(chars[9], ']');
    assert!(line.ends_with("] Yielded turn"));
}

#[test]
fn log_keeps_latest_hundred() {
    let mut game = Game::new_solo();
    for _ in 0..150 {
        game.log("tick");
    }
    game.log("last");
    assert_eq!(game.game_log.len(), 100);
    assert!(game.game_log[99].ends_with("] last"));
}

#[test]
fn session_turn_cycle() {
    let mut app = App::new();
    app.game.current_enemy = Some(Enemy::new(Card::new(Suit::Hearts, Rank::Jack)));
    app.game.player.hand.clear();
    for r in [Rank::Two, Rank::Five, Rank::Five, Rank::Three] {
        app.game.player.hand.push(Card::new(Suit::Spades, r));
    }
    app.toggle_card_selection(9);
    assert!(app.selected_cards.is_empty());
    app.toggle_card_selection(0);
    app.toggle_card_selection(3);
    app.toggle_card_selection(3);
    assert_eq!(app.selected_cards, vec![0]);
    app.play_selected_cards();
    assert!(app.selected_cards.is_empty());
    assert_eq!(app.state, AppState::DiscardPhase { required_damage: 8 });
    assert_eq!(
        app.get_action_prompt(),
        "🛡️  DEFEND: Enemy attacks! Discard cards worth 8 value or more"
    );
    app.toggle_card_selection(1);
    app.toggle_card_selection(0);
    app.discard_selected_cards(8);
    assert_eq!(app.state, AppState::Playing);
    assert_eq!(app.game.player.hand.len(), 1);
    app.yield_turn();
    assert_eq!(app.state, AppState::Defeat);
    assert!(matches!(app.game.game_state, GameState::Defeat(_)));
}

#[test]
fn session_scrolling() {
    let mut app = App::new();
    app.scroll_log_up();
    assert_eq!(app.log_scroll_offset, 1);
    app.scroll_log_down();
    app.scroll_log_down();
    assert_eq!(app.log_scroll_offset, 0);
    app.scroll_guide_down(12);
    app.scroll_guide_down(12);
    app.scroll_guide_down(12);
    assert_eq!(app.guide_scroll_offset, 2);
    app.scroll_help_down(5);
    assert_eq!(app.help_scroll_offset, 0);
    app.use_jester();
    app.use_jester();
    app.use_jester();
    assert_eq!(app.game.jesters_used, 2);
    app.restart_game();
    assert_eq!(app.game.jesters_used, 0);
    assert_eq!(app.state, AppState::Playing);
}

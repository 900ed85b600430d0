use regicide::card::{Card, Rank, Suit};
use regicide::deck::Deck;
use regicide::enemy::Enemy;
use regicide::game::Game;

#[test]
fn test_jester_skips_step_4() {
    let mut game = Game::new_solo();

    let jester = Card::new(Suit::Hearts, Rank::Jester);
    game.player.hand.clear();
    game.player.hand.push(jester);

    let result = game.play_cards(vec![0]);

    assert!(result.is_ok());
    assert_eq!(result.unwrap(), false);
    assert_eq!(game.jester_played_this_turn, true);
    assert_eq!(
        game.current_enemy.as_ref().unwrap().immunity_cancelled,
        true
    );
}

#[test]
fn test_jester_flag_resets_on_next_turn() {
    let mut game = Game::new_solo();
    game.jester_played_this_turn = true;

    let card = Card::new(Suit::Hearts, Rank::Five);
    game.player.hand.clear();
    game.player.hand.push(card);

    let result = game.play_cards(vec![0]);
    assert!(result.is_ok());
    assert_eq!(game.jester_played_this_turn, false);
}

#[test]
fn test_jester_flag_resets_on_yield() {
    let mut game = Game::new_solo();
    game.jester_played_this_turn = true;

    let result = game.yield_turn();
    assert!(result.is_ok());
    assert_eq!(game.jester_played_this_turn, false);
}

#[test]
fn test_solo_jester_power_at_step_4() {
    let mut game = Game::new_solo();

    game.player.hand.clear();
    game.player.hand.push(Card::new(Suit::Hearts, Rank::Two));
    game.player.hand.push(Card::new(Suit::Hearts, Rank::Two));

    let jesters_before = game.jesters_used;

    let result = game.use_jester();
    assert!(result.is_ok());
    assert_eq!(game.player.hand.len(), 8, "Hand should be refilled to 8");
    assert_eq!(
        game.jesters_used,
        jesters_before + 1,
        "Jesters used should increment"
    );
    assert_eq!(game.jester_count - game.jesters_used, 1);
}

#[test]
fn test_solo_jester_power_limit() {
    let mut game = Game::new_solo();

    assert!(game.use_jester().is_ok());
    assert!(game.use_jester().is_ok());

    let result = game.use_jester();
    assert!(result.is_err());
    assert_eq!(result.unwrap_err(), "No Jesters remaining");
}

#[test]
fn test_jester_retroactive_spades() {
    let mut game = Game::new_solo();
    game.current_enemy = Some(Enemy::new(Card::new(Suit::Spades, Rank::Jack)));

    game.player.hand.clear();
    game.player.hand.push(Card::new(Suit::Spades, Rank::Five));
    game.player.hand.push(Card::new(Suit::Hearts, Rank::Jester));
    game.player.hand.push(Card::new(Suit::Hearts, Rank::Five));

    let result = game.play_cards(vec![0]);
    assert!(result.is_ok());
    assert_eq!(
        game.shield_value, 0,
        "Shield should be 0 (blocked by immunity)"
    );
    assert_eq!(game.played_cards.len(), 1, "One card in played_cards");

    let result = game.play_cards(vec![0]);
    assert!(result.is_ok());
    assert_eq!(
        game.current_enemy.as_ref().unwrap().immunity_cancelled,
        true,
        "Immunity should be cancelled"
    );
    assert_eq!(
        game.shield_value, 5,
        "Shield should retroactively include the 5♠"
    );

    let result = game.play_cards(vec![0]);
    assert!(result.is_ok());

    let enemy_attack = game
        .current_enemy
        .as_ref()
        .unwrap()
        .get_attack_after_shields(game.shield_value);
    assert_eq!(enemy_attack, 5, "Enemy attack should be 5 (10 - 5 shield)");
}

#[test]
fn test_clubs_power_does_not_persist() {
    let mut game = Game::new_solo();
    game.current_enemy = Some(Enemy::new(Card::new(Suit::Hearts, Rank::Jack)));

    game.player.hand.clear();
    game.player.hand.push(Card::new(Suit::Clubs, Rank::Five));
    game.player.hand.push(Card::new(Suit::Hearts, Rank::Five));

    let result = game.play_cards(vec![0]);
    assert!(result.is_ok());
    assert_eq!(game.total_damage, 10, "Clubs should double damage to 10");

    let result = game.play_cards(vec![0]);
    assert!(result.is_ok());
    assert_eq!(
        game.total_damage, 15,
        "Second turn should NOT benefit from Clubs doubling (10 + 5 = 15)"
    );
}

#[test]
fn test_clubs_combo_doubles_total_damage() {
    let mut game = Game::new_solo();
    game.current_enemy = Some(Enemy::new(Card::new(Suit::Hearts, Rank::Jack)));

    game.player.hand.clear();
    game.player.hand.push(Card::new(Suit::Clubs, Rank::Three));
    game.player.hand.push(Card::new(Suit::Hearts, Rank::Three));
    game.player.hand.push(Card::new(Suit::Diamonds, Rank::Three));

    let result = game.play_cards(vec![0, 1, 2]);
    assert!(result.is_ok(), "Combo should be valid");
    assert_eq!(
        game.total_damage, 18,
        "Clubs in combo should double total damage: (3+3+3)*2 = 18"
    );
}

#[test]
fn test_castle_deck_construction() {
    let castle = Deck::create_castle_deck();
    assert_eq!(castle.len(), 12, "Castle deck should have 12 enemies");

    let mut test_castle = castle.clone();
    for _ in 0..4 {
        let card = test_castle.draw().unwrap();
        assert_eq!(card.rank, Rank::Jack, "First 4 cards should be Jacks");
    }
    for _ in 0..4 {
        let card = test_castle.draw().unwrap();
        assert_eq!(card.rank, Rank::Queen, "Next 4 cards should be Queens");
    }
    for _ in 0..4 {
        let card = test_castle.draw().unwrap();
        assert_eq!(card.rank, Rank::King, "Last 4 cards should be Kings");
    }
}

#[test]
fn test_tavern_deck_construction() {
    let tavern = Deck::create_tavern_deck(0);
    assert_eq!(
        tavern.len(),
        40,
        "Tavern deck should have 40 cards for solo"
    );

    let mut aces = 0;
    let mut numbered = 0;
    for card in &tavern.cards {
        match card.rank {
            Rank::Ace => aces += 1,
            Rank::Two
            | Rank::Three
            | Rank::Four
            | Rank::Five
            | Rank::Six
            | Rank::Seven
            | Rank::Eight
            | Rank::Nine
            | Rank::Ten => numbered += 1,
            _ => {}
        }
    }
    assert_eq!(aces, 4, "Should have 4 Aces");
    assert_eq!(numbered, 36, "Should have 36 numbered cards (2-10)");
}

#[test]
fn test_card_values() {
    assert_eq!(Card::new(Suit::Hearts, Rank::Ace).value(), 1);
    assert_eq!(Card::new(Suit::Hearts, Rank::Five).value(), 5);
    assert_eq!(Card::new(Suit::Hearts, Rank::Ten).value(), 10);
    assert_eq!(Card::new(Suit::Hearts, Rank::Jack).value(), 10);
    assert_eq!(Card::new(Suit::Hearts, Rank::Queen).value(), 15);
    assert_eq!(Card::new(Suit::Hearts, Rank::King).value(), 20);
    assert_eq!(Card::new(Suit::Hearts, Rank::Jester).value(), 0);
}

#[test]
fn test_hearts_power() {
    let mut game = Game::new_solo();
    game.current_enemy = Some(Enemy::new(Card::new(Suit::Spades, Rank::Jack)));

    for _ in 0..10 {
        game.discard_pile.push(Card::new(Suit::Hearts, Rank::Two));
    }
    let discard_before = game.discard_pile.len();
    let tavern_before = game.tavern_deck.len();

    game.player.hand.clear();
    game.player.hand.push(Card::new(Suit::Hearts, Rank::Five));
    let result = game.play_cards(vec![0]);

    assert!(result.is_ok());
    assert_eq!(
        game.discard_pile.len(),
        discard_before - 5,
        "Should move 5 cards from discard"
    );
    assert_eq!(
        game.tavern_deck.len(),
        tavern_before + 5,
        "Should add 5 cards to tavern deck"
    );
}

#[test]
fn test_diamonds_power() {
    let mut game = Game::new_solo();
    game.current_enemy = Some(Enemy::new(Card::new(Suit::Spades, Rank::Jack)));

    game.player.hand.clear();
    game.player.hand.push(Card::new(Suit::Diamonds, Rank::Five));

    let result = game.play_cards(vec![0]);
    assert!(result.is_ok());
    assert_eq!(game.player.hand.len(), 5, "Should draw 5 cards");
}

#[test]
fn test_spades_power_cumulative() {
    let mut game = Game::new_solo();
    game.current_enemy = Some(Enemy::new(Card::new(Suit::Hearts, Rank::Jack)));

    game.player.hand.clear();
    game.player.hand.push(Card::new(Suit::Spades, Rank::Five));
    game.player.hand.push(Card::new(Suit::Spades, Rank::Three));
    let result = game.play_cards(vec![0]);
    assert!(result.is_ok());
    assert_eq!(game.shield_value, 5);

    let result = game.play_cards(vec![0]);
    assert!(result.is_ok());
    assert_eq!(game.shield_value, 8, "Shield should be cumulative");
}

#[test]
fn test_enemy_immunity() {
    let mut game = Game::new_solo();
    game.current_enemy = Some(Enemy::new(Card::new(Suit::Hearts, Rank::Jack)));

    game.player.hand.clear();
    game.player.hand.push(Card::new(Suit::Hearts, Rank::Five));
    game.discard_pile.push(Card::new(Suit::Clubs, Rank::Two));
    let tavern_before = game.tavern_deck.len();

    let result = game.play_cards(vec![0]);
    assert!(result.is_ok());
    assert_eq!(
        game.tavern_deck.len(),
        tavern_before,
        "Hearts power should be blocked"
    );
}

#[test]
fn test_animal_companion_pairing() {
    let mut game = Game::new_solo();
    game.current_enemy = Some(Enemy::new(Card::new(Suit::Hearts, Rank::Jack)));

    game.player.hand.clear();
    game.player.hand.push(Card::new(Suit::Clubs, Rank::Ace));
    game.player.hand.push(Card::new(Suit::Hearts, Rank::Five));

    let result = game.play_cards(vec![0, 1]);
    assert!(result.is_ok());
    assert_eq!(
        game.total_damage, 12,
        "Ace + 5 with Clubs should deal 12 damage"
    );
}

#[test]
fn test_combo_validation() {
    let mut game = Game::new_solo();

    game.player.hand.clear();
    game.player.hand.push(Card::new(Suit::Hearts, Rank::Three));
    game.player.hand.push(Card::new(Suit::Clubs, Rank::Three));
    game.player.hand.push(Card::new(Suit::Diamonds, Rank::Three));

    let result = game.validate_play(&[0, 1, 2]);
    assert!(result.is_ok(), "3+3+3 should be valid combo");

    game.player.hand.clear();
    game.player.hand.push(Card::new(Suit::Hearts, Rank::Six));
    game.player.hand.push(Card::new(Suit::Clubs, Rank::Six));

    let result = game.validate_play(&[0, 1]);
    assert!(result.is_err(), "6+6=12 should be invalid (>10)");
}

#[test]
fn test_exact_damage_capture() {
    let mut game = Game::new_solo();
    game.current_enemy = Some(Enemy::new(Card::new(Suit::Hearts, Rank::Jack)));

    game.player.hand.clear();
    game.player.hand.push(Card::new(Suit::Clubs, Rank::Ten));

    let tavern_before = game.tavern_deck.len();
    let result = game.play_cards(vec![0]);
    assert!(result.is_ok());
    assert_eq!(
        game.tavern_deck.len(),
        tavern_before + 1,
        "Captured enemy should be on tavern deck"
    );
}

#[test]
fn test_discard_to_survive() {
    let mut game = Game::new_solo();
    game.current_enemy = Some(Enemy::new(Card::new(Suit::Hearts, Rank::Jack)));

    game.player.hand.clear();
    game.player.hand.push(Card::new(Suit::Hearts, Rank::Five));
    game.player.hand.push(Card::new(Suit::Hearts, Rank::Five));
    game.player.hand.push(Card::new(Suit::Hearts, Rank::Two));

    assert!(
        game.player.can_survive(10),
        "Player should be able to survive"
    );

    let result = game.discard_to_survive(vec![0, 1]);
    assert!(result.is_ok(), "Should successfully discard to survive");
}

#[test]
fn test_hearts_before_diamonds() {
    let mut game = Game::new_solo();
    game.current_enemy = Some(Enemy::new(Card::new(Suit::Clubs, Rank::Jack)));

    for _ in 0..10 {
        game.discard_pile.push(Card::new(Suit::Clubs, Rank::Two));
    }

    game.player.hand.clear();
    game.player.hand.push(Card::new(Suit::Hearts, Rank::Ace));
    game.player.hand.push(Card::new(Suit::Diamonds, Rank::Ace));
    let _tavern_before = game.tavern_deck.len();
    let discard_before = game.discard_pile.len();

    let result = game.play_cards(vec![0, 1]);
    assert!(result.is_ok(), "Ace+Ace combo should be valid");
    assert_eq!(
        game.discard_pile.len(),
        discard_before - 2,
        "2 cards should have been moved from discard to tavern by Hearts"
    );
    assert_eq!(
        game.player.hand.len(),
        2,
        "Diamonds should have drawn 2 cards"
    );
}

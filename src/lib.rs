//! A solo combat engine for a face-card deck battler: a hero plays cards from
//! a hand against a castle of twelve face-card enemies, using suit powers,
//! combos and a limited hand-refresh power.
pub mod card;
pub mod deck;
pub mod enemy;
pub mod game;
pub mod layout;
pub mod player;
pub mod rules;
pub mod session;
pub mod text;

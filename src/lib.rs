pub mod ask_tag;
pub mod base;
pub mod basic_supply;
pub mod construct;
pub mod card;
pub mod card_instance;
pub mod card_util;
pub mod copy;
pub mod deck;
pub mod effect;
pub mod effect_stack;
pub mod game;
pub mod moves;
pub mod number;
pub mod player;
pub mod resolve;
pub mod selector;
pub mod step;
pub mod zone;

use crate::effect::{CardEffect, EffectTrigger};
use crate::number::Number;
use vstd::prelude::*;

verus! {

/// A type tag of a card; a card may carry several.
#[derive(Clone, Copy, Debug, PartialEq, Eq, Structural)]
pub enum CardType {
    Action,
    Treasure,
    Victory,
    Reaction,
    Curse,
    Attack,
}

} // verus!

verus! {

/// A catalog entry: what every copy of a card shares.
#[derive(Debug)]
pub struct Card {
    pub name: String,
    pub localized_name: String,
    pub cost: Number,
    pub vp: Number,
    pub rules: Vec<(EffectTrigger, CardEffect)>,
    pub types: Vec<CardType>,
}

} // verus!

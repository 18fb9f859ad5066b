use crate::card::CardType;
use crate::number::{Number, NumberRange};
use crate::zone::Zone;
use vstd::prelude::*;

verus! {

/// A predicate on a card.
#[derive(Debug)]
pub enum CardNameSelector {
    Name(String),
    NameAnd(Vec<CardNameSelector>),
    NameOr(Vec<CardNameSelector>),
    NameNot(Box<CardNameSelector>),
    HasType(CardType),
    Cost(Box<NumberRange<Number>>),
    Any,
}

/// The cards of the listed zones that satisfy the name predicate.
#[derive(Debug)]
pub struct CardSelector {
    pub name: CardNameSelector,
    pub zone: Vec<Zone>,
}

} // verus!

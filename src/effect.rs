use crate::ask_tag::{AskCardTag, AskOptionTag};
use crate::number::{Number, NumberRange};
use crate::selector::{CardNameSelector, CardSelector};
use crate::zone::Zone;
use vstd::prelude::*;

verus! {

/// A condition on the game, for `If`, `While` and `Until`.
#[derive(Debug)]
pub enum EffectCond {
    Leq(Number, Number),
    Geq(Number, Number),
    Eq(Number, Number),
    CondAnd(Vec<EffectCond>),
    CondOr(Vec<EffectCond>),
    CondNot(Box<EffectCond>),
}

/// The event on which a rule of a card fires.
#[derive(Debug)]
pub enum EffectTrigger {
    Attacked,
    PlayAsAction,
    PlayAsTreasure,
    CardPlayed,
    Cleanup,
    MyTurnStart,
    MyTurnEnd,
    OncePerTurn(Box<EffectTrigger>),
}

/// One node of the instruction tree that says what a card does.
#[derive(Debug)]
pub enum CardEffect {
    Noop,
    Sequence(Vec<CardEffect>),
    AtomicSequence(Vec<CardEffect>),
    Optional(AskOptionTag, Box<CardEffect>),
    FocusAll(CardSelector, Box<CardEffect>),
    Select(AskCardTag, NumberRange<Number>, CardSelector, Box<CardEffect>),
    TrashSelect(NumberRange<Number>, CardSelector, Box<CardEffect>),
    DiscardSelect(NumberRange<Number>, CardSelector, Box<CardEffect>),
    RevealTop(Number, Box<CardEffect>),
    LookAtTop(Number, Box<CardEffect>),
    DrawFocus(Number, Box<CardEffect>),
    DrawFrom(CardSelector),
    If(EffectCond, Box<CardEffect>),
    While(EffectCond, Box<CardEffect>),
    Until(EffectCond, Box<CardEffect>),
    UseCard(CardSelector),
    PlusDraw(Number),
    PlusAction(Number),
    PlusBuy(Number),
    PlusCoin(Number),
    TrashCard(CardSelector),
    DiscardCard(CardSelector),
    GainCard(CardNameSelector),
    GainCardToHand(CardNameSelector),
    MoveCard(CardSelector, Zone),
    AllOpponents(Box<CardEffect>),
    AttackAllOpponents(Box<CardEffect>),
    PreventDefault,
}

} // verus!

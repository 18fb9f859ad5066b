use crate::card::{Card, CardType};
use crate::effect::{CardEffect, EffectTrigger};
use crate::number::Number;
use crate::selector::{CardNameSelector, CardSelector};
use crate::zone::Zone;
use vstd::prelude::*;

verus! {

/// The effect of a card that only adds to the turn counters.
pub fn vanilla_effect(draw: i32, action: i32, buy: i32, coin: i32) -> (r: CardEffect)
    ensures
        r matches CardEffect::Sequence(v) && v@ == seq![
            CardEffect::PlusDraw(Number::Constant(draw)),
            CardEffect::PlusAction(Number::Constant(action)),
            CardEffect::PlusBuy(Number::Constant(buy)),
            CardEffect::PlusCoin(Number::Constant(coin)),
        ],
{
    let v = vec![
        CardEffect::PlusDraw(Number::Constant(draw)),
        CardEffect::PlusAction(Number::Constant(action)),
        CardEffect::PlusBuy(Number::Constant(buy)),
        CardEffect::PlusCoin(Number::Constant(coin)),
    ];
    proof {
        assert(v@ =~= seq![
            CardEffect::PlusDraw(Number::Constant(draw)),
            CardEffect::PlusAction(Number::Constant(action)),
            CardEffect::PlusBuy(Number::Constant(buy)),
            CardEffect::PlusCoin(Number::Constant(coin)),
        ]);
    }
    CardEffect::Sequence(v)
}

/// An action card that only adds to the turn counters.
pub fn vanilla_action_card(
    name: &str,
    localized_name: &str,
    cost: i32,
    draw: i32,
    action: i32,
    buy: i32,
    coin: i32,
) -> (r: Card)
    ensures
        r.name@ == name@,
        r.localized_name@ == localized_name@,
        r.cost == Number::Constant(cost),
        r.vp == Number::Constant(0),
        r.types@ == seq![CardType::Action],
        r.rules@.len() == 1,
        r.rules@[0].0 == EffectTrigger::PlayAsAction,
        r.rules@[0].1 matches CardEffect::Sequence(v) && v@ == seq![
            CardEffect::PlusDraw(Number::Constant(draw)),
            CardEffect::PlusAction(Number::Constant(action)),
            CardEffect::PlusBuy(Number::Constant(buy)),
            CardEffect::PlusCoin(Number::Constant(coin)),
        ],
{
    Card {
        name: name.to_owned(),
        localized_name: localized_name.to_owned(),
        cost: Number::Constant(cost),
        vp: Number::Constant(0),
        rules: vec![(EffectTrigger::PlayAsAction, vanilla_effect(draw, action, buy, coin))],
        types: vec![CardType::Action],
    }
}

/// A treasure that adds `coin` when played.
pub fn vanilla_treasure_card(name: &str, localized_name: &str, cost: i32, coin: i32) -> (r: Card)
    ensures
        r.name@ == name@,
        r.localized_name@ == localized_name@,
        r.cost == Number::Constant(cost),
        r.vp == Number::Constant(0),
        r.types@ == seq![CardType::Treasure],
        r.rules@.len() == 1,
        r.rules@[0].0 == EffectTrigger::PlayAsTreasure,
        r.rules@[0].1 matches CardEffect::Sequence(v) && v@ == seq![
            CardEffect::PlusDraw(Number::Constant(0)),
            CardEffect::PlusAction(Number::Constant(0)),
            CardEffect::PlusBuy(Number::Constant(0)),
            CardEffect::PlusCoin(Number::Constant(coin)),
        ],
{
    Card {
        name: name.to_owned(),
        localized_name: localized_name.to_owned(),
        cost: Number::Constant(cost),
        vp: Number::Constant(0),
        rules: vec![(EffectTrigger::PlayAsTreasure, vanilla_effect(0, 0, 0, coin))],
        types: vec![CardType::Treasure],
    }
}

/// A victory card worth a fixed `vp`.
pub fn vanilla_vp_card(name: &str, localized_name: &str, cost: i32, vp: i32) -> (r: Card)
    ensures
        r.name@ == name@,
        r.localized_name@ == localized_name@,
        r.cost == Number::Constant(cost),
        r.vp == Number::Constant(vp),
        r.types@ == seq![CardType::Victory],
        r.rules@.len() == 0,
{
    Card {
        name: name.to_owned(),
        localized_name: localized_name.to_owned(),
        cost: Number::Constant(cost),
        vp: Number::Constant(vp),
        rules: Vec::new(),
        types: vec![CardType::Victory],
    }
}

/// The curse: costs nothing, worth -1.
pub fn vanilla_curse_card() -> (r: Card)
    ensures
        r.name@ == "Curse"@,
        r.cost == Number::Constant(0),
        r.vp == Number::Constant(-1i32),
        r.types@ == seq![CardType::Curse],
        r.rules@.len() == 0,
{
    Card {
        name: "Curse".to_owned(),
        localized_name: "呪い".to_owned(),
        cost: Number::Constant(0),
        vp: Number::Constant(-1),
        rules: Vec::new(),
        types: vec![CardType::Curse],
    }
}

/// A card of fixed cost, worth nothing, with the given rules and types.
pub fn simple_rule_card(
    name: &str,
    localized_name: &str,
    cost: i32,
    rules: Vec<(EffectTrigger, CardEffect)>,
    types: Vec<CardType>,
) -> (r: Card)
    ensures
        r.name@ == name@,
        r.localized_name@ == localized_name@,
        r.cost == Number::Constant(cost),
        r.vp == Number::Constant(0),
        r.rules == rules,
        r.types == types,
{
    Card {
        name: name.to_owned(),
        localized_name: localized_name.to_owned(),
        cost: Number::Constant(cost),
        vp: Number::Constant(0),
        rules,
        types,
    }
}

/// An action card (an attack too, where `has_attack`) whose one rule is
/// `effect` when played.
pub fn simple_action_card(
    name: &str,
    localized_name: &str,
    cost: i32,
    has_attack: bool,
    effect: CardEffect,
) -> (r: Card)
    ensures
        r.name@ == name@,
        r.localized_name@ == localized_name@,
        r.cost == Number::Constant(cost),
        r.vp == Number::Constant(0),
        r.rules@ == seq![(EffectTrigger::PlayAsAction, effect)],
        r.types@ == if has_attack {
            seq![CardType::Action, CardType::Attack]
        } else {
            seq![CardType::Action]
        },
{
    let rules = vec![(EffectTrigger::PlayAsAction, effect)];
    let types = if has_attack {
        vec![CardType::Action, CardType::Attack]
    } else {
        vec![CardType::Action]
    };
    proof {
        assert(rules@ =~= seq![(EffectTrigger::PlayAsAction, effect)]);
        if has_attack {
            assert(types@ =~= seq![CardType::Action, CardType::Attack]);
        } else {
            assert(types@ =~= seq![CardType::Action]);
        }
    }
    simple_rule_card(name, localized_name, cost, rules, types)
}

/// Every card in `zone`.
pub fn in_zone(zone: Zone) -> (r: CardSelector)
    ensures
        r.name == CardNameSelector::Any,
        r.zone@ == seq![zone],
{
    let v = vec![zone];
    proof {
        assert(v@ =~= seq![zone]);
    }
    CardSelector { name: CardNameSelector::Any, zone: v }
}

/// The focused cards.
pub fn focused() -> (r: CardSelector)
    ensures
        r.name == CardNameSelector::Any,
        r.zone@ == seq![Zone::Focused],
{
    in_zone(Zone::Focused)
}

/// The cards in hand.
pub fn hand() -> (r: CardSelector)
    ensures
        r.name == CardNameSelector::Any,
        r.zone@ == seq![Zone::Hand],
{
    in_zone(Zone::Hand)
}

/// The cards in the discard pile.
pub fn discarded() -> (r: CardSelector)
    ensures
        r.name == CardNameSelector::Any,
        r.zone@ == seq![Zone::Discard],
{
    in_zone(Zone::Discard)
}

/// All the cards of a player.
pub fn all_my_cards() -> (r: CardSelector)
    ensures
        r.name == CardNameSelector::Any,
        r.zone@ == seq![Zone::AllMyCards],
{
    in_zone(Zone::AllMyCards)
}

} // verus!

use crate::card::{Card, CardType};
use crate::card_util::{vanilla_curse_card, vanilla_treasure_card, vanilla_vp_card};
use crate::effect::{CardEffect, EffectTrigger};
use crate::number::Number;
use vstd::prelude::*;

verus! {

pub fn copper() -> (r: Card)
    ensures
        r.name@ == "Copper"@,
        r.cost == Number::Constant(0),
        r.types@ == seq![CardType::Treasure],
        r.vp == Number::Constant(0),
        r.rules@.len() == 1,
        r.rules@[0].0 == EffectTrigger::PlayAsTreasure,
        r.rules@[0].1 matches CardEffect::Sequence(v) && v@ == seq![
            CardEffect::PlusDraw(Number::Constant(0)),
            CardEffect::PlusAction(Number::Constant(0)),
            CardEffect::PlusBuy(Number::Constant(0)),
            CardEffect::PlusCoin(Number::Constant(1)),
        ],
{
    vanilla_treasure_card("Copper", "銅貨", 0, 1)
}

pub fn silver() -> (r: Card)
    ensures
        r.name@ == "Silver"@,
        r.cost == Number::Constant(3),
        r.types@ == seq![CardType::Treasure],
        r.vp == Number::Constant(0),
        r.rules@.len() == 1,
        r.rules@[0].0 == EffectTrigger::PlayAsTreasure,
        r.rules@[0].1 matches CardEffect::Sequence(v) && v@ == seq![
            CardEffect::PlusDraw(Number::Constant(0)),
            CardEffect::PlusAction(Number::Constant(0)),
            CardEffect::PlusBuy(Number::Constant(0)),
            CardEffect::PlusCoin(Number::Constant(2)),
        ],
{
    vanilla_treasure_card("Silver", "銀貨", 3, 2)
}

pub fn gold() -> (r: Card)
    ensures
        r.name@ == "Gold"@,
        r.cost == Number::Constant(6),
        r.types@ == seq![CardType::Treasure],
        r.vp == Number::Constant(0),
        r.rules@.len() == 1,
        r.rules@[0].0 == EffectTrigger::PlayAsTreasure,
        r.rules@[0].1 matches CardEffect::Sequence(v) && v@ == seq![
            CardEffect::PlusDraw(Number::Constant(0)),
            CardEffect::PlusAction(Number::Constant(0)),
            CardEffect::PlusBuy(Number::Constant(0)),
            CardEffect::PlusCoin(Number::Constant(3)),
        ],
{
    vanilla_treasure_card("Gold", "金貨", 6, 3)
}

pub fn estate() -> (r: Card)
    ensures
        r.name@ == "Estate"@,
        r.cost == Number::Constant(2),
        r.vp == Number::Constant(1),
        r.types@ == seq![CardType::Victory],
        r.rules@.len() == 0,
{
    vanilla_vp_card("Estate", "屋敷", 2, 1)
}

pub fn duchy() -> (r: Card)
    ensures
        r.name@ == "Duchy"@,
        r.cost == Number::Constant(5),
        r.vp == Number::Constant(3),
        r.types@ == seq![CardType::Victory],
        r.rules@.len() == 0,
{
    vanilla_vp_card("Duchy", "公領", 5, 3)
}

pub fn province() -> (r: Card)
    ensures
        r.name@ == "Province"@,
        r.cost == Number::Constant(8),
        r.vp == Number::Constant(6),
        r.types@ == seq![CardType::Victory],
        r.rules@.len() == 0,
{
    vanilla_vp_card("Province", "属州", 8, 6)
}

pub fn curse() -> (r: Card)
    ensures
        r.name@ == "Curse"@,
        r.cost == Number::Constant(0),
        r.vp == Number::Constant(-1i32),
        r.types@ == seq![CardType::Curse],
        r.rules@.len() == 0,
{
    vanilla_curse_card()
}

/// The basic cards: the treasures, the victory cards and the curse.
pub fn basic_supply() -> (r: Vec<Card>)
    ensures
        r@.len() == 7,
        r@[0].name@ == "Copper"@ && r@[0].cost == Number::Constant(0) && r@[0].types@ == seq![CardType::Treasure] && r@[0].vp == Number::Constant(0i32),
        r@[1].name@ == "Silver"@ && r@[1].cost == Number::Constant(3) && r@[1].types@ == seq![CardType::Treasure] && r@[1].vp == Number::Constant(0i32),
        r@[2].name@ == "Gold"@ && r@[2].cost == Number::Constant(6) && r@[2].types@ == seq![CardType::Treasure] && r@[2].vp == Number::Constant(0i32),
        r@[3].name@ == "Estate"@ && r@[3].cost == Number::Constant(2) && r@[3].types@ == seq![CardType::Victory] && r@[3].vp == Number::Constant(1i32),
        r@[4].name@ == "Duchy"@ && r@[4].cost == Number::Constant(5) && r@[4].types@ == seq![CardType::Victory] && r@[4].vp == Number::Constant(3i32),
        r@[5].name@ == "Province"@ && r@[5].cost == Number::Constant(8) && r@[5].types@ == seq![CardType::Victory] && r@[5].vp == Number::Constant(6i32),
        r@[6].name@ == "Curse"@ && r@[6].cost == Number::Constant(0) && r@[6].types@ == seq![CardType::Curse] && r@[6].vp == Number::Constant(-1i32),
{
    let r = vec![copper(), silver(), gold(), estate(), duchy(), province(), curse()];
    r
}

} // verus!

use crate::ask_tag::{AskCardTag, AskOptionTag};
use crate::card::{Card, CardType};
use crate::card_util::{
    all_my_cards, discarded, focused, hand, in_zone, simple_action_card, simple_rule_card,
    vanilla_action_card,
};
use crate::effect::{CardEffect, EffectCond, EffectTrigger};
use crate::number::{Number, NumberRange};
use crate::selector::{CardNameSelector, CardSelector};
use crate::zone::Zone;
use vstd::prelude::*;

verus! {

/// `s` selects every card of zone `z`.
pub open spec fn every_in(s: CardSelector, z: Zone) -> bool {
    s.name == CardNameSelector::Any && s.zone@ == seq![z]
}

/// What Library does with the card it looks at: the card goes aside
/// pending; if it is an action, the player may set it aside; what is still
/// pending is then drawn.
pub open spec fn library_look(e: CardEffect) -> bool {
    match e {
        CardEffect::Sequence(u) => u@.len() == 3 && (u@[0] matches CardEffect::MoveCard(f, z) && every_in(f, Zone::Focused)
            && z == Zone::Pending) && (u@[2] matches CardEffect::DrawFrom(p) && every_in(p, Zone::Pending)) && match u@[1] {
            CardEffect::If(EffectCond::Eq(Number::CountCard(a), one), pick) => a.name == CardNameSelector::HasType(CardType::Action)
                && a.zone@ == seq![Zone::Pending] && one == Number::Constant(1) && match *pick {
                CardEffect::Select(tag, range, sel, then) => tag.tag@ == "library"@ && tag.localized_prompt@
                    == "このカードを脇に避けますか？"@ && range == NumberRange::<Number>::AnyNumber && every_in(sel, Zone::Focused)
                    && (*then matches CardEffect::Sequence(m) && m@.len() == 1 && (m@[0] matches CardEffect::MoveCard(q, z)
                    && every_in(q, Zone::Pending) && z == Zone::Aside)),
                _ => false,
            },
            _ => false,
        },
        _ => false,
    }
}

/// `e` moves the focused cards to the top of the deck.
pub open spec fn focused_to_deck_top(e: CardEffect) -> bool {
    e matches CardEffect::MoveCard(s, z) && every_in(s, Zone::Focused) && z == Zone::DeckTop
}

/// +1 action; discard any number of cards, then draw as many.
pub fn cellar() -> (r: Card)
    ensures
        r.name@ == "Cellar"@,
        r.cost == Number::Constant(2),
        r.vp == Number::Constant(0),
        r.types@ == seq![CardType::Action],
        r.rules@.len() == 1,
        r.rules@[0].0 == EffectTrigger::PlayAsAction,
        r.rules@[0].1 matches CardEffect::Sequence(v) && v@.len() == 2 && v@[0]
            == CardEffect::PlusAction(Number::Constant(1)) && match v@[1] {
            CardEffect::Select(tag, range, sel, then) => tag.tag@ == "cellar"@ && tag.localized_prompt@ == "捨て札にするカードを選んでください"@ && range == NumberRange::<Number>::AnyNumber
                && sel.name == CardNameSelector::Any && sel.zone@ == seq![Zone::Hand] && match *then {
                CardEffect::Sequence(w) => w@.len() == 2 && match (w@[0], w@[1]) {
                    (CardEffect::PlusDraw(Number::CountCard(f)), CardEffect::DiscardCard(g)) => f.name
                        == CardNameSelector::Any && f.zone@ == seq![Zone::Focused] && g.name
                        == CardNameSelector::Any && g.zone@ == seq![Zone::Focused],
                    _ => false,
                },
                _ => false,
            },
            _ => false,
        },
{
    let then = vec![
        CardEffect::PlusDraw(Number::CountCard(focused())),
        CardEffect::DiscardCard(focused()),
    ];
    let select = CardEffect::Select(
        AskCardTag::new("cellar", "捨て札にするカードを選んでください"),
        NumberRange::AnyNumber,
        hand(),
        Box::new(CardEffect::Sequence(then)),
    );
    let steps = vec![CardEffect::PlusAction(Number::Constant(1)), select];
    simple_action_card("Cellar", "地下貯蔵庫", 2, false, CardEffect::Sequence(steps))
}

/// Trash up to 4 cards from hand.
pub fn chapel() -> (r: Card)
    ensures
        r.name@ == "Chapel"@,
        r.cost == Number::Constant(2),
        r.vp == Number::Constant(0),
        r.types@ == seq![CardType::Action],
        r.rules@.len() == 1,
        r.rules@[0].0 == EffectTrigger::PlayAsAction,
        match r.rules@[0].1 {
            CardEffect::TrashSelect(range, sel, then) => range == NumberRange::UpTo(Number::Constant(4))
                && sel.name == CardNameSelector::Any && sel.zone@ == seq![Zone::Hand] && *then
                == CardEffect::Noop,
            _ => false,
        },
{
    simple_action_card(
        "Chapel",
        "礼拝堂",
        2,
        false,
        CardEffect::TrashSelect(
            NumberRange::UpTo(Number::Constant(4)),
            hand(),
            Box::new(CardEffect::Noop),
        ),
    )
}

/// +2 coins; reveal the top card of the deck, and if it is an action, you may play it.
pub fn chancellor() -> (r: Card)
    ensures
        r.name@ == "Chancellor"@,
        r.cost == Number::Constant(3),
        r.vp == Number::Constant(0),
        r.types@ == seq![CardType::Action],
        r.rules@.len() == 1,
        r.rules@[0].0 == EffectTrigger::PlayAsAction,
        r.rules@[0].1 matches CardEffect::Sequence(v) && v@.len() == 2 && v@[0]
            == CardEffect::PlusCoin(Number::Constant(2)) && match v@[1] {
            CardEffect::RevealTop(n, e) => n == Number::Constant(1) && match *e {
                CardEffect::FocusAll(sel, o) => sel.name == CardNameSelector::HasType(CardType::Action)
                    && sel.zone@ == seq![Zone::Focused] && match *o {
                    CardEffect::Optional(tag, body) => tag.tag@ == "chancellor"@ && tag.localized_prompt@ == "このカードを使用しますか？"@ && tag.default == Some(true) && match *body {
                        CardEffect::Sequence(w) => w@.len() == 2 && (w@[0] matches CardEffect::UseCard(a)
                            && every_in(a, Zone::Focused)) && (w@[1] matches CardEffect::DiscardCard(b)
                            && every_in(b, Zone::Focused)),
                        _ => false,
                    },
                    _ => false,
                },
                _ => false,
            },
            _ => false,
        },
{
    simple_action_card(
        "Chancellor",
        "家臣",
        3,
        false,
        CardEffect::Sequence(vec![
            CardEffect::PlusCoin(Number::Constant(2)),
            CardEffect::RevealTop(
                Number::Constant(1),
                Box::new(CardEffect::FocusAll(
                    CardSelector {
                        name: CardNameSelector::HasType(CardType::Action),
                        zone: vec![Zone::Focused],
                    },
                    Box::new(CardEffect::Optional(
                        AskOptionTag::new("chancellor", "このカードを使用しますか？", Some(true)),
                        Box::new(CardEffect::Sequence(vec![
                            CardEffect::UseCard(focused()),
                            CardEffect::DiscardCard(focused()),
                        ])),
                    )),
                )),
            ),
        ]),
    )
}

/// Gain a card costing up to 4.
pub fn workshop() -> (r: Card)
    ensures
        r.name@ == "Workshop"@,
        r.cost == Number::Constant(3),
        r.vp == Number::Constant(0),
        r.types@ == seq![CardType::Action],
        r.rules@.len() == 1,
        r.rules@[0].0 == EffectTrigger::PlayAsAction,
        r.rules@[0].1 == CardEffect::GainCard(
            CardNameSelector::Cost(Box::new(NumberRange::UpTo(Number::Constant(4)))),
        ),
{
    simple_action_card(
        "Workshop",
        "工房",
        3,
        false,
        CardEffect::GainCard(
            CardNameSelector::Cost(Box::new(NumberRange::UpTo(Number::Constant(4)))),
        ),
    )
}

/// +1 card, +1 action; put a card from the discard pile onto the deck.
pub fn harbinger() -> (r: Card)
    ensures
        r.name@ == "Harbinger"@,
        r.cost == Number::Constant(3),
        r.vp == Number::Constant(0),
        r.types@ == seq![CardType::Action],
        r.rules@.len() == 1,
        r.rules@[0].0 == EffectTrigger::PlayAsAction,
        r.rules@[0].1 matches CardEffect::Sequence(v) && v@.len() == 3 && v@[0]
            == CardEffect::PlusDraw(Number::Constant(1)) && v@[1] == CardEffect::PlusAction(
            Number::Constant(1),
        ) && match v@[2] {
            CardEffect::Select(tag, range, sel, then) => tag.tag@ == "harbinger"@ && tag.localized_prompt@ == "デッキトップに置くカードを選んでください"@ && range == NumberRange::Exact(Number::Constant(1))
                && every_in(sel, Zone::Discard) && focused_to_deck_top(*then),
            _ => false,
        },
{
    simple_action_card(
        "Harbinger",
        "前駆者",
        3,
        false,
        CardEffect::Sequence(vec![
            CardEffect::PlusDraw(Number::Constant(1)),
            CardEffect::PlusAction(Number::Constant(1)),
            CardEffect::Select(
                AskCardTag::new("harbinger", "デッキトップに置くカードを選んでください"),
                NumberRange::Exact(Number::Constant(1)),
                discarded(),
                Box::new(CardEffect::MoveCard(focused(), Zone::DeckTop)),
            ),
        ]),
    )
}

/// +1 card, +2 actions.
pub fn village() -> (r: Card)
    ensures
        r.name@ == "Village"@,
        r.cost == Number::Constant(3),
        r.vp == Number::Constant(0),
        r.types@ == seq![CardType::Action],
        r.rules@.len() == 1,
        r.rules@[0].0 == EffectTrigger::PlayAsAction,
        r.rules@[0].1 matches CardEffect::Sequence(v) && v@ == seq![
            CardEffect::PlusDraw(Number::Constant(1)),
            CardEffect::PlusAction(Number::Constant(2)),
            CardEffect::PlusBuy(Number::Constant(0)),
            CardEffect::PlusCoin(Number::Constant(0)),
        ],
{
    vanilla_action_card("Village", "村", 3, 1, 2, 0, 0)
}

/// Trash a card from hand; gain a card costing up to 2 more.
pub fn remodel() -> (r: Card)
    ensures
        r.name@ == "Remodel"@,
        r.cost == Number::Constant(4),
        r.vp == Number::Constant(0),
        r.types@ == seq![CardType::Action],
        r.rules@.len() == 1,
        r.rules@[0].0 == EffectTrigger::PlayAsAction,
        match r.rules@[0].1 {
            CardEffect::TrashSelect(range, sel, then) => range == NumberRange::Exact(Number::Constant(1))
                && every_in(sel, Zone::Hand) && match *then {
                CardEffect::GainCard(CardNameSelector::Cost(c)) => match *c {
                    NumberRange::UpTo(Number::Plus(a, b)) => *b == Number::Constant(2) && (*a matches Number::CountCost(f)
                        && every_in(f, Zone::Focused)),
                    _ => false,
                },
                _ => false,
            },
            _ => false,
        },
{
    simple_action_card(
        "Remodel",
        "改築",
        4,
        false,
        CardEffect::TrashSelect(
            NumberRange::Exact(Number::Constant(1)),
            hand(),
            Box::new(CardEffect::GainCard(CardNameSelector::Cost(Box::new(NumberRange::UpTo(
                Number::Plus(
                    Box::new(Number::CountCost(focused())),
                    Box::new(Number::Constant(2)),
                ),
            ))))),
        ),
    )
}

/// +3 cards.
pub fn smithy() -> (r: Card)
    ensures
        r.name@ == "Smithy"@,
        r.cost == Number::Constant(4),
        r.vp == Number::Constant(0),
        r.types@ == seq![CardType::Action],
        r.rules@.len() == 1,
        r.rules@[0].0 == EffectTrigger::PlayAsAction,
        r.rules@[0].1 matches CardEffect::Sequence(v) && v@ == seq![
            CardEffect::PlusDraw(Number::Constant(3)),
            CardEffect::PlusAction(Number::Constant(0)),
            CardEffect::PlusBuy(Number::Constant(0)),
            CardEffect::PlusCoin(Number::Constant(0)),
        ],
{
    vanilla_action_card("Smithy", "鍛冶屋", 4, 3, 0, 0, 0)
}

/// You may trash a Copper from hand; if you do, +3 coins.
pub fn moneylender() -> (r: Card)
    ensures
        r.name@ == "Moneylender"@,
        r.cost == Number::Constant(4),
        r.vp == Number::Constant(0),
        r.types@ == seq![CardType::Action],
        r.rules@.len() == 1,
        r.rules@[0].0 == EffectTrigger::PlayAsAction,
        match r.rules@[0].1 {
            CardEffect::Optional(tag, body) => tag.tag@ == "moneylender"@ && tag.localized_prompt@ == "銅貨を破棄しますか？"@ && tag.default == Some(true) && match *body {
                CardEffect::TrashSelect(range, sel, then) => range == NumberRange::Exact(Number::Constant(1))
                    && (sel.name matches CardNameSelector::Name(n) && n@ == "Copper"@) && sel.zone@
                    == seq![Zone::Hand] && match *then {
                    CardEffect::AtomicSequence(w) => w@.len() == 2 && (w@[0] matches CardEffect::TrashCard(a)
                        && every_in(a, Zone::Focused)) && w@[1] == CardEffect::PlusCoin(Number::Constant(3)),
                    _ => false,
                },
                _ => false,
            },
            _ => false,
        },
{
    simple_action_card(
        "Moneylender",
        "金貸し",
        4,
        false,
        CardEffect::Optional(
            AskOptionTag::new("moneylender", "銅貨を破棄しますか？", Some(true)),
            Box::new(CardEffect::TrashSelect(
                NumberRange::Exact(Number::Constant(1)),
                CardSelector {
                    name: CardNameSelector::Name("Copper".to_owned()),
                    zone: vec![Zone::Hand],
                },
                Box::new(CardEffect::AtomicSequence(vec![
                    CardEffect::TrashCard(focused()),
                    CardEffect::PlusCoin(Number::Constant(3)),
                ])),
            )),
        ),
    )
}

/// Play an action card from hand twice.
pub fn throne_room() -> (r: Card)
    ensures
        r.name@ == "Throne Room"@,
        r.cost == Number::Constant(4),
        r.vp == Number::Constant(0),
        r.types@ == seq![CardType::Action],
        r.rules@.len() == 1,
        r.rules@[0].0 == EffectTrigger::PlayAsAction,
        match r.rules@[0].1 {
            CardEffect::Select(tag, range, sel, then) => tag.tag@ == "throne_room"@ && tag.localized_prompt@ == "使用するカードを選んでください"@ && range == NumberRange::Exact(Number::Constant(1))
                && sel.name == CardNameSelector::HasType(CardType::Action) && sel.zone@ == seq![Zone::Hand]
                && match *then {
                CardEffect::Sequence(w) => w@.len() == 2 && (w@[0] matches CardEffect::UseCard(a)
                    && every_in(a, Zone::Focused)) && (w@[1] matches CardEffect::UseCard(b)
                    && every_in(b, Zone::Focused)),
                _ => false,
            },
            _ => false,
        },
{
    simple_action_card(
        "Throne Room",
        "玉座の間",
        4,
        false,
        CardEffect::Select(
            AskCardTag::new("throne_room", "使用するカードを選んでください"),
            NumberRange::Exact(Number::Constant(1)),
            CardSelector {
                name: CardNameSelector::HasType(CardType::Action),
                zone: vec![Zone::Hand],
            },
            Box::new(CardEffect::Sequence(vec![
                CardEffect::UseCard(focused()),
                CardEffect::UseCard(focused()),
            ])),
        ),
    )
}

/// +1 card, +1 action, +1 coin; discard a card per empty supply pile.
pub fn poacher() -> (r: Card)
    ensures
        r.name@ == "Poacher"@,
        r.cost == Number::Constant(4),
        r.vp == Number::Constant(0),
        r.types@ == seq![CardType::Action],
        r.rules@.len() == 1,
        r.rules@[0].0 == EffectTrigger::PlayAsAction,
        r.rules@[0].1 matches CardEffect::Sequence(v) && v@.len() == 4 && v@[0]
            == CardEffect::PlusDraw(Number::Constant(1)) && v@[1] == CardEffect::PlusAction(
            Number::Constant(1),
        ) && v@[2] == CardEffect::PlusCoin(Number::Constant(1)) && match v@[3] {
            CardEffect::DiscardSelect(range, sel, then) => range == NumberRange::Exact(
                Number::CountEmptyPiles,
            ) && every_in(sel, Zone::Hand) && (*then matches CardEffect::DiscardCard(f) && every_in(
                f,
                Zone::Focused,
            )),
            _ => false,
        },
{
    simple_action_card(
        "Poacher",
        "密猟者",
        4,
        false,
        CardEffect::Sequence(vec![
            CardEffect::PlusDraw(Number::Constant(1)),
            CardEffect::PlusAction(Number::Constant(1)),
            CardEffect::PlusCoin(Number::Constant(1)),
            CardEffect::DiscardSelect(
                NumberRange::Exact(Number::CountEmptyPiles),
                hand(),
                Box::new(CardEffect::DiscardCard(focused())),
            ),
        ]),
    )
}

/// +2 coins; each other player discards down to 3 cards in hand.
pub fn militia() -> (r: Card)
    ensures
        r.name@ == "Militia"@,
        r.cost == Number::Constant(4),
        r.vp == Number::Constant(0),
        r.types@ == seq![CardType::Action, CardType::Attack],
        r.rules@.len() == 1,
        r.rules@[0].0 == EffectTrigger::PlayAsAction,
        r.rules@[0].1 matches CardEffect::Sequence(v) && v@.len() == 2 && v@[0]
            == CardEffect::PlusCoin(Number::Constant(2)) && match v@[1] {
            CardEffect::AttackAllOpponents(e) => match *e {
                CardEffect::If(EffectCond::Geq(Number::CountCard(h), four), body) => every_in(h, Zone::Hand)
                    && four == Number::Constant(4) && match *body {
                    CardEffect::DiscardSelect(NumberRange::Exact(Number::Minus(a, b)), sel, then) => (*a matches Number::CountCard(h2)
                        && every_in(h2, Zone::Hand)) && *b == Number::Constant(3) && every_in(sel, Zone::Hand)
                        && (*then matches CardEffect::DiscardCard(f) && every_in(f, Zone::Focused)),
                    _ => false,
                },
                _ => false,
            },
            _ => false,
        },
{
    simple_action_card(
        "Militia",
        "民兵",
        4,
        true,
        CardEffect::Sequence(vec![
            CardEffect::PlusCoin(Number::Constant(2)),
            CardEffect::AttackAllOpponents(Box::new(CardEffect::If(
                EffectCond::Geq(Number::CountCard(hand()), Number::Constant(4)),
                Box::new(CardEffect::DiscardSelect(
                    NumberRange::Exact(Number::Minus(
                        Box::new(Number::CountCard(hand())),
                        Box::new(Number::Constant(3)),
                    )),
                    hand(),
                    Box::new(CardEffect::DiscardCard(focused())),
                )),
            ))),
        ]),
    )
}

/// +2 coins; each other player puts a victory card from hand onto the deck.
pub fn bureaucrat() -> (r: Card)
    ensures
        r.name@ == "Bureaucrat"@,
        r.cost == Number::Constant(4),
        r.vp == Number::Constant(0),
        r.types@ == seq![CardType::Action, CardType::Attack],
        r.rules@.len() == 1,
        r.rules@[0].0 == EffectTrigger::PlayAsAction,
        r.rules@[0].1 matches CardEffect::Sequence(v) && v@.len() == 2 && v@[0]
            == CardEffect::PlusCoin(Number::Constant(2)) && match v@[1] {
            CardEffect::AttackAllOpponents(e) => match *e {
                CardEffect::Select(tag, range, sel, then) => tag.tag@ == "bureaucrat"@ && tag.localized_prompt@ == "デッキトップに置く勝利点カードを選んでください"@ && range == NumberRange::Exact(Number::Constant(1))
                    && sel.name == CardNameSelector::HasType(CardType::Victory) && sel.zone@ == seq![Zone::Hand]
                    && focused_to_deck_top(*then),
                _ => false,
            },
            _ => false,
        },
{
    simple_action_card(
        "Bureaucrat",
        "役人",
        4,
        true,
        CardEffect::Sequence(vec![
            CardEffect::PlusCoin(Number::Constant(2)),
            CardEffect::AttackAllOpponents(Box::new(CardEffect::Select(
                AskCardTag::new("bureaucrat", "デッキトップに置く勝利点カードを選んでください"),
                NumberRange::Exact(Number::Constant(1)),
                CardSelector {
                    name: CardNameSelector::HasType(CardType::Victory),
                    zone: vec![Zone::Hand],
                },
                Box::new(CardEffect::MoveCard(focused(), Zone::DeckTop)),
            ))),
        ]),
    )
}

/// +1 card, +1 action, +1 buy, +1 coin.
pub fn market() -> (r: Card)
    ensures
        r.name@ == "Market"@,
        r.cost == Number::Constant(5),
        r.vp == Number::Constant(0),
        r.types@ == seq![CardType::Action],
        r.rules@.len() == 1,
        r.rules@[0].0 == EffectTrigger::PlayAsAction,
        r.rules@[0].1 matches CardEffect::Sequence(v) && v@ == seq![
            CardEffect::PlusDraw(Number::Constant(1)),
            CardEffect::PlusAction(Number::Constant(1)),
            CardEffect::PlusBuy(Number::Constant(1)),
            CardEffect::PlusCoin(Number::Constant(1)),
        ],
{
    vanilla_action_card("Market", "市場", 5, 1, 1, 1, 1)
}

/// +1 card, +1 action; look at the top 2 cards, trash or discard any, put the rest back.
pub fn sentry() -> (r: Card)
    ensures
        r.name@ == "Sentry"@,
        r.cost == Number::Constant(5),
        r.vp == Number::Constant(0),
        r.types@ == seq![CardType::Action],
        r.rules@.len() == 1,
        r.rules@[0].0 == EffectTrigger::PlayAsAction,
        r.rules@[0].1 matches CardEffect::Sequence(v) && v@.len() == 3 && v@[0]
            == CardEffect::PlusDraw(Number::Constant(1)) && v@[1] == CardEffect::PlusAction(
            Number::Constant(1),
        ) && match v@[2] {
            CardEffect::LookAtTop(n, e) => n == Number::Constant(2) && match *e {
                CardEffect::Sequence(w) => w@.len() == 4 && (w@[0] matches CardEffect::MoveCard(a, z)
                    && every_in(a, Zone::Focused) && z == Zone::Pending) && (w@[1] matches CardEffect::TrashSelect(r1, s1, n1)
                    && r1 == NumberRange::<Number>::AnyNumber && every_in(s1, Zone::Pending) && *n1 == CardEffect::Noop)
                    && (w@[2] matches CardEffect::DiscardSelect(r2, s2, n2) && r2 == NumberRange::<Number>::AnyNumber
                    && every_in(s2, Zone::Pending) && *n2 == CardEffect::Noop) && (w@[3] matches CardEffect::MoveCard(b, z2)
                    && every_in(b, Zone::Pending) && z2 == Zone::DeckTop),
                _ => false,
            },
            _ => false,
        },
{
    simple_action_card(
        "Sentry",
        "衛兵",
        5,
        false,
        CardEffect::Sequence(vec![
            CardEffect::PlusDraw(Number::Constant(1)),
            CardEffect::PlusAction(Number::Constant(1)),
            CardEffect::LookAtTop(
                Number::Constant(2),
                Box::new(CardEffect::Sequence(vec![
                    CardEffect::MoveCard(focused(), Zone::Pending),
                    CardEffect::TrashSelect(
                        NumberRange::AnyNumber,
                        in_zone(Zone::Pending),
                        Box::new(CardEffect::Noop),
                    ),
                    CardEffect::DiscardSelect(
                        NumberRange::AnyNumber,
                        in_zone(Zone::Pending),
                        Box::new(CardEffect::Noop),
                    ),
                    CardEffect::MoveCard(in_zone(Zone::Pending), Zone::DeckTop),
                ])),
            ),
        ]),
    )
}

/// +4 cards, +1 action, +1 buy; each other player draws a card.
pub fn council_room() -> (r: Card)
    ensures
        r.name@ == "Council Room"@,
        r.cost == Number::Constant(5),
        r.vp == Number::Constant(0),
        r.types@ == seq![CardType::Action, CardType::Attack],
        r.rules@.len() == 1,
        r.rules@[0].0 == EffectTrigger::PlayAsAction,
        r.rules@[0].1 matches CardEffect::Sequence(v) && v@ == seq![
            CardEffect::PlusDraw(Number::Constant(4)),
            CardEffect::PlusAction(Number::Constant(1)),
            CardEffect::PlusBuy(Number::Constant(1)),
            CardEffect::AllOpponents(Box::new(CardEffect::PlusDraw(Number::Constant(1)))),
        ],
{
    simple_action_card(
        "Council Room",
        "議事堂",
        5,
        true,
        CardEffect::Sequence(vec![
            CardEffect::PlusDraw(Number::Constant(4)),
            CardEffect::PlusAction(Number::Constant(1)),
            CardEffect::PlusBuy(Number::Constant(1)),
            CardEffect::AllOpponents(Box::new(CardEffect::PlusDraw(Number::Constant(1)))),
        ]),
    )
}

/// +2 cards, +1 action.
pub fn laboratory() -> (r: Card)
    ensures
        r.name@ == "Laboratory"@,
        r.cost == Number::Constant(5),
        r.vp == Number::Constant(0),
        r.types@ == seq![CardType::Action],
        r.rules@.len() == 1,
        r.rules@[0].0 == EffectTrigger::PlayAsAction,
        r.rules@[0].1 matches CardEffect::Sequence(v) && v@ == seq![
            CardEffect::PlusDraw(Number::Constant(2)),
            CardEffect::PlusAction(Number::Constant(1)),
            CardEffect::PlusBuy(Number::Constant(0)),
            CardEffect::PlusCoin(Number::Constant(0)),
        ],
{
    vanilla_action_card("Laboratory", "研究所", 5, 2, 1, 0, 0)
}

/// You may trash a treasure from hand; gain a treasure costing up to 3 more.
pub fn mine() -> (r: Card)
    ensures
        r.name@ == "Mine"@,
        r.cost == Number::Constant(5),
        r.vp == Number::Constant(0),
        r.types@ == seq![CardType::Action],
        r.rules@.len() == 1,
        r.rules@[0].0 == EffectTrigger::PlayAsAction,
        match r.rules@[0].1 {
            CardEffect::Optional(tag, body) => tag.tag@ == "mine"@ && tag.localized_prompt@ == "財宝を破棄しますか？"@ && tag.default == Some(true) && match *body {
                CardEffect::TrashSelect(range, sel, then) => range == NumberRange::Exact(Number::Constant(1))
                    && sel.name == CardNameSelector::HasType(CardType::Treasure) && sel.zone@ == seq![Zone::Hand]
                    && match *then {
                    CardEffect::AtomicSequence(w) => w@.len() == 2 && (w@[0] matches CardEffect::TrashCard(a)
                        && every_in(a, Zone::Focused)) && match w@[1] {
                        CardEffect::GainCard(CardNameSelector::NameAnd(ns)) => ns@.len() == 2 && ns@[0]
                            == CardNameSelector::HasType(CardType::Treasure) && match ns@[1] {
                            CardNameSelector::Cost(c) => match *c {
                                NumberRange::UpTo(Number::Plus(x, y)) => *y == Number::Constant(3) && (*x matches Number::CountCost(f)
                                    && every_in(f, Zone::Focused)),
                                _ => false,
                            },
                            _ => false,
                        },
                        _ => false,
                    },
                    _ => false,
                },
                _ => false,
            },
            _ => false,
        },
{
    simple_action_card(
        "Mine",
        "鉱山",
        5,
        false,
        CardEffect::Optional(
            AskOptionTag::new("mine", "財宝を破棄しますか？", Some(true)),
            Box::new(CardEffect::TrashSelect(
                NumberRange::Exact(Number::Constant(1)),
                CardSelector {
                    name: CardNameSelector::HasType(CardType::Treasure),
                    zone: vec![Zone::Hand],
                },
                Box::new(CardEffect::AtomicSequence(vec![
                    CardEffect::TrashCard(focused()),
                    CardEffect::GainCard(CardNameSelector::NameAnd(vec![
                        CardNameSelector::HasType(CardType::Treasure),
                        CardNameSelector::Cost(Box::new(NumberRange::UpTo(Number::Plus(
                            Box::new(Number::CountCost(focused())),
                            Box::new(Number::Constant(3)),
                        )))),
                    ])),
                ])),
            )),
        ),
    )
}

/// +2 actions, +1 buy, +2 coins.
pub fn festival() -> (r: Card)
    ensures
        r.name@ == "Festival"@,
        r.cost == Number::Constant(5),
        r.vp == Number::Constant(0),
        r.types@ == seq![CardType::Action],
        r.rules@.len() == 1,
        r.rules@[0].0 == EffectTrigger::PlayAsAction,
        r.rules@[0].1 matches CardEffect::Sequence(v) && v@ == seq![
            CardEffect::PlusDraw(Number::Constant(0)),
            CardEffect::PlusAction(Number::Constant(2)),
            CardEffect::PlusBuy(Number::Constant(1)),
            CardEffect::PlusCoin(Number::Constant(2)),
        ],
{
    vanilla_action_card("Festival", "祝祭", 5, 0, 2, 1, 2)
}

/// Draw until 7 cards in hand, setting aside action cards as you choose; discard those set aside.
pub fn library() -> (r: Card)
    ensures
        r.name@ == "Library"@,
        r.cost == Number::Constant(5),
        r.vp == Number::Constant(0),
        r.types@ == seq![CardType::Action],
        r.rules@.len() == 1,
        r.rules@[0].0 == EffectTrigger::PlayAsAction,
        r.rules@[0].1 matches CardEffect::Sequence(v) && v@.len() == 2 && (v@[1] matches CardEffect::DiscardCard(a)
            && every_in(a, Zone::Aside)) && match v@[0] {
            CardEffect::Until(EffectCond::CondOr(cs), body) => cs@.len() == 2 && (cs@[0] matches EffectCond::Geq(
                Number::CountCard(h),
                seven,
            ) && every_in(h, Zone::Hand) && seven == Number::Constant(7)) && (cs@[1] matches EffectCond::Leq(
                Number::CountCard(dd),
                zero,
            ) && dd.name == CardNameSelector::Any && dd.zone@ == seq![Zone::Discard, Zone::Deck] && zero == Number::Constant(0)) && match *body {
                CardEffect::Sequence(w) => w@.len() == 1 && (w@[0] matches CardEffect::LookAtTop(n, inner) && n
                    == Number::Constant(1) && library_look(*inner)),
                _ => false,
            },
            _ => false,
        },
{
    let both = vec![Zone::Discard, Zone::Deck];
    let pending_actions = vec![Zone::Pending];
    let set_aside = vec![CardEffect::MoveCard(in_zone(Zone::Pending), Zone::Aside)];
    proof {
        assert(both@ =~= seq![Zone::Discard, Zone::Deck]);
        assert(pending_actions@ =~= seq![Zone::Pending]);
    }
    let pick = CardEffect::Select(
        AskCardTag::new("library", "このカードを脇に避けますか？"),
        NumberRange::AnyNumber,
        focused(),
        Box::new(CardEffect::Sequence(set_aside)),
    );
    let if_action = CardEffect::If(
        EffectCond::Eq(
            Number::CountCard(
                CardSelector { name: CardNameSelector::HasType(CardType::Action), zone: pending_actions },
            ),
            Number::Constant(1),
        ),
        Box::new(pick),
    );
    let look = vec![
        CardEffect::MoveCard(focused(), Zone::Pending),
        if_action,
        CardEffect::DrawFrom(in_zone(Zone::Pending)),
    ];
    let inner = CardEffect::Sequence(look);
    proof {
        assert(library_look(inner));
    }
    let until = CardEffect::Until(
        EffectCond::CondOr(
            vec![
                EffectCond::Geq(Number::CountCard(hand()), Number::Constant(7)),
                EffectCond::Leq(
                    Number::CountCard(CardSelector { name: CardNameSelector::Any, zone: both }),
                    Number::Constant(0),
                ),
            ],
        ),
        Box::new(CardEffect::Sequence(vec![CardEffect::LookAtTop(Number::Constant(1), Box::new(inner))])),
    );
    let steps = vec![until, CardEffect::DiscardCard(in_zone(Zone::Aside))];
    simple_action_card("Library", "書庫", 5, false, CardEffect::Sequence(steps))
}

/// Gain a Gold; each other player reveals 2 cards and trashes a revealed treasure.
pub fn bandit() -> (r: Card)
    ensures
        r.name@ == "Bandit"@,
        r.cost == Number::Constant(5),
        r.vp == Number::Constant(0),
        r.types@ == seq![CardType::Action, CardType::Attack],
        r.rules@.len() == 1,
        r.rules@[0].0 == EffectTrigger::PlayAsAction,
        r.rules@[0].1 matches CardEffect::Sequence(v) && v@.len() == 2 && (v@[0] matches CardEffect::GainCard(CardNameSelector::Name(g))
            && g@ == "Gold"@) && match v@[1] {
            CardEffect::AttackAllOpponents(e) => match *e {
                CardEffect::RevealTop(n, body) => n == Number::Constant(2) && match *body {
                    CardEffect::TrashSelect(range, sel, then) => range == NumberRange::Exact(Number::Constant(1))
                        && sel.name == CardNameSelector::HasType(CardType::Treasure) && sel.zone@ == seq![Zone::Focused]
                        && (*then matches CardEffect::TrashCard(f) && every_in(f, Zone::Focused)),
                    _ => false,
                },
                _ => false,
            },
            _ => false,
        },
{
    simple_action_card(
        "Bandit",
        "山賊",
        5,
        true,
        CardEffect::Sequence(vec![
            CardEffect::GainCard(CardNameSelector::Name("Gold".to_owned())),
            CardEffect::AttackAllOpponents(Box::new(CardEffect::RevealTop(
                Number::Constant(2),
                Box::new(CardEffect::TrashSelect(
                    NumberRange::Exact(Number::Constant(1)),
                    CardSelector {
                        name: CardNameSelector::HasType(CardType::Treasure),
                        zone: vec![Zone::Focused],
                    },
                    Box::new(CardEffect::TrashCard(focused())),
                )),
            ))),
        ]),
    )
}

/// +2 cards; each other player gains a Curse.
pub fn witch() -> (r: Card)
    ensures
        r.name@ == "Witch"@,
        r.cost == Number::Constant(5),
        r.vp == Number::Constant(0),
        r.types@ == seq![CardType::Action, CardType::Attack],
        r.rules@.len() == 1,
        r.rules@[0].0 == EffectTrigger::PlayAsAction,
        r.rules@[0].1 matches CardEffect::Sequence(v) && v@.len() == 2 && v@[0]
            == CardEffect::PlusDraw(Number::Constant(2)) && match v@[1] {
            CardEffect::AttackAllOpponents(e) => match *e {
                CardEffect::GainCard(CardNameSelector::Name(n)) => n@ == "Curse"@,
                _ => false,
            },
            _ => false,
        },
{
    let curse = "Curse".to_owned();
    let steps = vec![
        CardEffect::PlusDraw(Number::Constant(2)),
        CardEffect::AttackAllOpponents(Box::new(CardEffect::GainCard(CardNameSelector::Name(curse)))),
    ];
    simple_action_card("Witch", "魔女", 5, true, CardEffect::Sequence(steps))
}

/// Gain a card costing up to 5 to hand; put a card from hand onto the deck.
pub fn artisan() -> (r: Card)
    ensures
        r.name@ == "Artisan"@,
        r.cost == Number::Constant(6),
        r.vp == Number::Constant(0),
        r.types@ == seq![CardType::Action],
        r.rules@.len() == 1,
        r.rules@[0].0 == EffectTrigger::PlayAsAction,
        r.rules@[0].1 matches CardEffect::Sequence(v) && v@.len() == 2 && v@[0]
            == CardEffect::GainCardToHand(
            CardNameSelector::Cost(Box::new(NumberRange::UpTo(Number::Constant(5)))),
        ) && match v@[1] {
            CardEffect::Select(tag, range, sel, then) => tag.tag@ == "artisan"@ && tag.localized_prompt@ == "デッキトップに置くカードを選んでください"@ && range == NumberRange::Exact(Number::Constant(1))
                && every_in(sel, Zone::Hand) && focused_to_deck_top(*then),
            _ => false,
        },
{
    simple_action_card(
        "Artisan",
        "職人",
        6,
        false,
        CardEffect::Sequence(vec![
            CardEffect::GainCardToHand(
                CardNameSelector::Cost(Box::new(NumberRange::UpTo(Number::Constant(5)))),
            ),
            CardEffect::Select(
                AskCardTag::new("artisan", "デッキトップに置くカードを選んでください"),
                NumberRange::Exact(Number::Constant(1)),
                hand(),
                Box::new(CardEffect::MoveCard(focused(), Zone::DeckTop)),
            ),
        ]),
    )
}

/// +2 cards; when attacked, revealing it from hand cancels the attack.
pub fn moat() -> (r: Card)
    ensures
        r.name@ == "Moat"@,
        r.cost == Number::Constant(2),
        r.vp == Number::Constant(0),
        r.types@ == seq![CardType::Action, CardType::Reaction],
        r.rules@.len() == 2,
        r.rules@[0].0 == EffectTrigger::PlayAsAction,
        r.rules@[1].0 == EffectTrigger::Attacked,
        r.rules@[0].1 matches CardEffect::Sequence(u) && u@ == seq![CardEffect::PlusDraw(Number::Constant(2))],
        r.rules@[1].1 matches CardEffect::Sequence(v) && v@ == seq![CardEffect::PreventDefault],
{
    let types = vec![CardType::Action, CardType::Reaction];
    let rules = vec![
        (EffectTrigger::PlayAsAction, CardEffect::Sequence(vec![CardEffect::PlusDraw(Number::Constant(2))])),
        (EffectTrigger::Attacked, CardEffect::Sequence(vec![CardEffect::PreventDefault])),
    ];
    proof {
        assert(rules@[0].1->Sequence_0@ =~= seq![CardEffect::PlusDraw(Number::Constant(2))]);
        assert(rules@[1].1->Sequence_0@ =~= seq![CardEffect::PreventDefault]);
        assert(types@ =~= seq![CardType::Action, CardType::Reaction]);
    }
    simple_rule_card("Moat", "堀", 2, rules, types)
}

/// +1 card, +1 action; the first Silver played this turn gives +1 coin.
pub fn merchant() -> (r: Card)
    ensures
        r.name@ == "Merchant"@,
        r.cost == Number::Constant(3),
        r.vp == Number::Constant(0),
        r.types@ == seq![CardType::Action],
        r.rules@.len() == 2,
        r.rules@[0].0 == EffectTrigger::PlayAsAction,
        r.rules@[1].0 == EffectTrigger::CardPlayed,
        r.rules@[0].1 matches CardEffect::Sequence(u) && u@ == seq![
            CardEffect::PlusDraw(Number::Constant(1)),
            CardEffect::PlusAction(Number::Constant(1)),
        ],
        r.rules@[1].1 matches CardEffect::Sequence(w) && w@.len() == 1 && match w@[0] {
            CardEffect::If(EffectCond::Eq(Number::CountCard(a), Number::CountCard(b)), then) => (a.name matches CardNameSelector::Name(x)
                && x@ == "Silver"@) && a.zone@ == seq![Zone::Focused] && (b.name matches CardNameSelector::Name(y)
                && y@ == "Silver"@) && b.zone@ == seq![Zone::Play] && *then == CardEffect::PlusCoin(Number::Constant(1)),
            _ => false,
        },
{
    let types = vec![CardType::Action];
    let rules = vec![
        (
            EffectTrigger::PlayAsAction,
            CardEffect::Sequence(vec![
                CardEffect::PlusDraw(Number::Constant(1)),
                CardEffect::PlusAction(Number::Constant(1)),
            ]),
        ),
        (
            EffectTrigger::CardPlayed,
            CardEffect::Sequence(vec![CardEffect::If(
                EffectCond::Eq(
                    Number::CountCard(CardSelector {
                        name: CardNameSelector::Name("Silver".to_owned()),
                        zone: vec![Zone::Focused],
                    }),
                    Number::CountCard(CardSelector {
                        name: CardNameSelector::Name("Silver".to_owned()),
                        zone: vec![Zone::Play],
                    }),
                ),
                Box::new(CardEffect::PlusCoin(Number::Constant(1))),
            )]),
        ),
    ];
    proof {
        assert(types@ =~= seq![CardType::Action]);
    }
    simple_rule_card("Merchant", "商人", 3, rules, types)
}

/// The victory points of Gardens: the owner's cards, divided by 10.
pub open spec fn gardens_vp_is(vp: Number) -> bool {
    vp matches Number::Div(a, b) && *b == Number::Constant(10) && match *a {
        Number::CountCard(s) => s.name == CardNameSelector::Any && s.zone@ == seq![Zone::AllMyCards],
        _ => false,
    }
}

/// Worth 1 victory point per 10 cards owned, rounded down.
pub fn gardens() -> (r: Card)
    ensures
        r.name@ == "Gardens"@,
        r.cost == Number::Constant(4),
        r.types@ == seq![CardType::Victory],
        r.rules@.len() == 0,
        gardens_vp_is(r.vp),
{
    let types = vec![CardType::Victory];
    proof {
        assert(types@ =~= seq![CardType::Victory]);
    }
    Card {
        name: "Gardens".to_owned(),
        localized_name: "庭園".to_owned(),
        cost: Number::Constant(4),
        vp: Number::Div(Box::new(Number::CountCard(all_my_cards())), Box::new(Number::Constant(10))),
        rules: Vec::new(),
        types,
    }
}

/// The kingdom cards of the base set.
pub fn base_set() -> (r: Vec<Card>)
    ensures
        r@.len() == 26,
        r@[0].name@ == "Cellar"@ && r@[0].cost == Number::Constant(2) && r@[0].vp == Number::Constant(0),
        r@[1].name@ == "Chapel"@ && r@[1].cost == Number::Constant(2) && r@[1].vp == Number::Constant(0),
        r@[2].name@ == "Moat"@ && r@[2].cost == Number::Constant(2) && r@[2].vp == Number::Constant(0),
        r@[3].name@ == "Chancellor"@ && r@[3].cost == Number::Constant(3) && r@[3].vp == Number::Constant(0),
        r@[4].name@ == "Workshop"@ && r@[4].cost == Number::Constant(3) && r@[4].vp == Number::Constant(0),
        r@[5].name@ == "Merchant"@ && r@[5].cost == Number::Constant(3) && r@[5].vp == Number::Constant(0),
        r@[6].name@ == "Harbinger"@ && r@[6].cost == Number::Constant(3) && r@[6].vp == Number::Constant(0),
        r@[7].name@ == "Village"@ && r@[7].cost == Number::Constant(3) && r@[7].vp == Number::Constant(0),
        r@[8].name@ == "Remodel"@ && r@[8].cost == Number::Constant(4) && r@[8].vp == Number::Constant(0),
        r@[9].name@ == "Smithy"@ && r@[9].cost == Number::Constant(4) && r@[9].vp == Number::Constant(0),
        r@[10].name@ == "Moneylender"@ && r@[10].cost == Number::Constant(4) && r@[10].vp == Number::Constant(0),
        r@[11].name@ == "Throne Room"@ && r@[11].cost == Number::Constant(4) && r@[11].vp == Number::Constant(0),
        r@[12].name@ == "Poacher"@ && r@[12].cost == Number::Constant(4) && r@[12].vp == Number::Constant(0),
        r@[13].name@ == "Militia"@ && r@[13].cost == Number::Constant(4) && r@[13].vp == Number::Constant(0),
        r@[14].name@ == "Bureaucrat"@ && r@[14].cost == Number::Constant(4) && r@[14].vp == Number::Constant(0),
        r@[15].name@ == "Gardens"@ && r@[15].cost == Number::Constant(4),
        r@[16].name@ == "Market"@ && r@[16].cost == Number::Constant(5) && r@[16].vp == Number::Constant(0),
        r@[17].name@ == "Sentry"@ && r@[17].cost == Number::Constant(5) && r@[17].vp == Number::Constant(0),
        r@[18].name@ == "Council Room"@ && r@[18].cost == Number::Constant(5) && r@[18].vp == Number::Constant(0),
        r@[19].name@ == "Laboratory"@ && r@[19].cost == Number::Constant(5) && r@[19].vp == Number::Constant(0),
        r@[20].name@ == "Mine"@ && r@[20].cost == Number::Constant(5) && r@[20].vp == Number::Constant(0),
        r@[21].name@ == "Festival"@ && r@[21].cost == Number::Constant(5) && r@[21].vp == Number::Constant(0),
        r@[22].name@ == "Library"@ && r@[22].cost == Number::Constant(5) && r@[22].vp == Number::Constant(0),
        r@[23].name@ == "Bandit"@ && r@[23].cost == Number::Constant(5) && r@[23].vp == Number::Constant(0),
        r@[24].name@ == "Witch"@ && r@[24].cost == Number::Constant(5) && r@[24].vp == Number::Constant(0),
        r@[25].name@ == "Artisan"@ && r@[25].cost == Number::Constant(6) && r@[25].vp == Number::Constant(0),
        gardens_vp_is(r@[15].vp),
{
    vec![
        cellar(),
        chapel(),
        moat(),
        chancellor(),
        workshop(),
        merchant(),
        harbinger(),
        village(),
        remodel(),
        smithy(),
        moneylender(),
        throne_room(),
        poacher(),
        militia(),
        bureaucrat(),
        gardens(),
        market(),
        sentry(),
        council_room(),
        laboratory(),
        mine(),
        festival(),
        library(),
        bandit(),
        witch(),
        artisan(),
    ]
}

} // verus!

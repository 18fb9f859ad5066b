use deckbuilder::ask_tag::AskCardTag;
use deckbuilder::base::cellar;
use deckbuilder::basic_supply::{copper, estate, gold, silver};
use deckbuilder::card_instance::{CardAddress, CardInstanceId};
use deckbuilder::card_util::{focused, hand};
use deckbuilder::construct::setup;
use deckbuilder::deck::shuffle_by;
use deckbuilder::effect::{CardEffect, EffectCond};
use deckbuilder::effect_stack::{ChoiceError, EffectStepResult};
use deckbuilder::game::Game;
use deckbuilder::number::{Number, NumberRange};
use deckbuilder::player::PlayerId;
use deckbuilder::selector::{CardNameSelector, CardSelector};
use deckbuilder::step::check_choice;
use deckbuilder::zone::Zone;

fn alice() -> PlayerId {
    PlayerId::new(0)
}

fn bob() -> PlayerId {
    PlayerId::new(1)
}

fn add(game: &mut Game, card: usize, zone: Zone) -> CardInstanceId {
    game.add_instance(card, alice(), zone).unwrap()
}

fn num(game: &Game, n: Number) -> Option<i32> {
    game.resolve_number(alice(), &n)
}

fn bin(f: fn(Box<Number>, Box<Number>) -> Number, a: i32, b: i32) -> Number {
    f(Box::new(Number::Constant(a)), Box::new(Number::Constant(b)))
}

#[test]
fn range_contains_shapes() {
    assert!(NumberRange::UpTo(4).contains(4));
    assert!(!NumberRange::UpTo(4).contains(5));
    assert!(!NumberRange::UpTo(4).contains(-1));
    assert!(NumberRange::UpTo(4).contains(0));
    assert!(NumberRange::Exact(2).contains(2));
    assert!(!NumberRange::Exact(2).contains(3));
    assert!(NumberRange::AtLeast(2).contains(2));
    assert!(!NumberRange::AtLeast(2).contains(1));
    assert!(NumberRange::Range(1, 3).contains(1));
    assert!(NumberRange::Range(1, 3).contains(3));
    assert!(!NumberRange::Range(1, 3).contains(4));
    assert!(!NumberRange::Range(1, 3).contains(0));
    assert!(NumberRange::<i32>::AnyNumber.contains(i32::MIN));
}

#[test]
fn arithmetic_truncates_toward_zero() {
    let game = setup();
    assert_eq!(num(&game, bin(Number::Plus, 2, 3)), Some(5));
    assert_eq!(num(&game, bin(Number::Minus, 2, 3)), Some(-1));
    assert_eq!(num(&game, bin(Number::Times, -4, 3)), Some(-12));
    assert_eq!(num(&game, bin(Number::Div, 7, 2)), Some(3));
    assert_eq!(num(&game, bin(Number::Div, -7, 2)), Some(-3));
    assert_eq!(num(&game, bin(Number::Div, 7, -2)), Some(-3));
    assert_eq!(num(&game, bin(Number::Mod, -7, 2)), Some(-1));
    assert_eq!(num(&game, bin(Number::Mod, 7, -2)), Some(1));
}

#[test]
fn division_by_zero_fails() {
    let game = setup();
    assert_eq!(num(&game, bin(Number::Div, 7, 0)), None);
    assert_eq!(num(&game, bin(Number::Mod, 7, 0)), None);
    assert_eq!(num(&game, bin(Number::Plus, i32::MAX, 1)), None);
    assert_eq!(num(&game, bin(Number::Div, i32::MIN, -1)), None);
}

#[test]
fn count_cost_and_empty_piles() {
    let mut game = setup();
    let c = game.add_card(copper());
    let s = game.add_card(silver());
    let g = game.add_card(gold());
    add(&mut game, c, Zone::Hand);
    add(&mut game, s, Zone::Hand);
    add(&mut game, g, Zone::Hand);
    assert_eq!(num(&game, Number::CountCost(hand())), Some(9));
    game.add_supply_pile(c, 0).unwrap();
    game.add_supply_pile(s, 3).unwrap();
    game.add_supply_pile(g, 0).unwrap();
    assert_eq!(num(&game, Number::CountEmptyPiles), Some(2));
}

#[test]
fn all_my_cards_counts_every_zone_once() {
    let mut game = setup();
    let c = game.add_card(copper());
    let zones = [Zone::Deck, Zone::Hand, Zone::Discard, Zone::Play, Zone::Pending, Zone::Aside, Zone::Revealed];
    let mut ids = vec![];
    for (k, z) in zones.iter().enumerate() {
        for _ in 0..(k + 1) {
            ids.push(add(&mut game, c, *z));
        }
    }
    let all = game.resolve_zone(alice(), &Zone::AllMyCards);
    assert_eq!(all.len(), 28);
    let mut sorted: Vec<usize> = all.iter().map(|i| i.id).collect();
    sorted.sort();
    sorted.dedup();
    assert_eq!(sorted.len(), 28);
    assert_eq!(game.resolve_zone(bob(), &Zone::AllMyCards).len(), 0);
}

#[test]
fn deck_top_is_last_card() {
    let mut game = setup();
    let c = game.add_card(copper());
    add(&mut game, c, Zone::Deck);
    let top = add(&mut game, c, Zone::Deck);
    assert_eq!(game.resolve_zone(alice(), &Zone::DeckTop), vec![top]);
    assert_eq!(game.look_at_top(alice(), 1), vec![top]);
    assert_eq!(game.resolve_zone(bob(), &Zone::DeckTop), vec![]);
}

#[test]
fn draw_with_enough_deck_leaves_discard() {
    let mut game = setup();
    let c = game.add_card(copper());
    let d0 = add(&mut game, c, Zone::Deck);
    let d1 = add(&mut game, c, Zone::Deck);
    let d2 = add(&mut game, c, Zone::Deck);
    let x = add(&mut game, c, Zone::Discard);
    let drawn = game.draw_with_reshuffle(alice(), 2);
    assert_eq!(drawn, vec![d2, d1]);
    assert_eq!(game.players[0].deck, vec![d0]);
    assert_eq!(game.players[0].discard, vec![x]);
}

#[test]
fn draw_reshuffles_once_when_short() {
    let mut game = setup();
    let c = game.add_card(copper());
    add(&mut game, c, Zone::Deck);
    for _ in 0..3 {
        add(&mut game, c, Zone::Discard);
    }
    let drawn = game.draw_with_reshuffle(alice(), 3);
    assert_eq!(drawn.len(), 3);
    assert_eq!(game.players[0].discard.len(), 0);
    assert_eq!(game.players[0].deck.len(), 1);
}

#[test]
fn draw_more_than_stock_takes_all() {
    let mut game = setup();
    let c = game.add_card(copper());
    add(&mut game, c, Zone::Deck);
    add(&mut game, c, Zone::Discard);
    add(&mut game, c, Zone::Discard);
    let drawn = game.draw_with_reshuffle(alice(), 10);
    assert_eq!(drawn.len(), 3);
    assert_eq!(game.players[0].deck.len(), 0);
    assert_eq!(game.players[0].discard.len(), 0);
    assert_eq!(game.draw_with_reshuffle(alice(), -1).len(), 0);
}

#[test]
fn shuffle_by_picks_is_fisher_yates() {
    let ids: Vec<CardInstanceId> = (0..4).map(CardInstanceId::new).collect();
    let mut deck = ids.clone();
    // position 3 <-> 0, position 2 <-> 2, position 1 <-> 0
    shuffle_by(&mut deck, &vec![0, 2, 0]);
    let order: Vec<usize> = deck.iter().map(|i| i.id).collect();
    assert_eq!(order, vec![1, 3, 2, 0]);
}

#[test]
fn random_shuffle_keeps_the_cards() {
    let mut game = setup();
    let c = game.add_card(copper());
    for _ in 0..10 {
        add(&mut game, c, Zone::Deck);
    }
    game.shuffle(alice());
    let mut order: Vec<usize> = game.players[0].deck.iter().map(|i| i.id).collect();
    order.sort();
    assert_eq!(order, (0..10).collect::<Vec<usize>>());
}

#[test]
fn sequence_of_noops_ends_on_third_step() {
    let mut game = setup();
    game.push_frame(CardEffect::Sequence(vec![CardEffect::Noop, CardEffect::Noop]), alice(), alice(), None);
    assert!(matches!(game.step(), EffectStepResult::Continue));
    assert!(matches!(game.step(), EffectStepResult::Continue));
    assert!(matches!(game.step(), EffectStepResult::End));
    assert!(matches!(game.step(), EffectStepResult::End));
}

#[test]
fn atomic_sequence_aborts_on_failed_gain() {
    let mut game = setup();
    let c = game.add_card(copper());
    let x = add(&mut game, c, Zone::Hand);
    let effect = CardEffect::AtomicSequence(vec![
        CardEffect::TrashCard(hand()),
        CardEffect::GainCard(CardNameSelector::Name("Nonexistent".to_owned())),
        CardEffect::PlusCoin(Number::Constant(3)),
    ]);
    game.push_frame(effect, alice(), alice(), None);
    assert!(matches!(game.step(), EffectStepResult::Continue));
    assert!(matches!(game.step(), EffectStepResult::Continue));
    assert!(matches!(game.step(), EffectStepResult::Error(_)));
    // the trash stays committed; the rest of the atomic queue is dropped
    assert_eq!(game.instances[x.id].address, CardAddress::Trash);
    assert_eq!(game.trash, vec![x]);
    assert_eq!(game.resources.coins, 0);
    assert_eq!(game.stack.len(), 1);
    assert!(matches!(game.step(), EffectStepResult::End));
}

#[test]
fn failed_gain_outside_atomic_is_skipped() {
    let mut game = setup();
    game.push_frame(CardEffect::GainCard(CardNameSelector::Name("Nonexistent".to_owned())), alice(), alice(), None);
    assert!(matches!(game.step(), EffectStepResult::SkipContinue));
    assert!(matches!(game.step(), EffectStepResult::End));
}

#[test]
fn gain_takes_top_of_matching_pile() {
    let mut game = setup();
    let e = game.add_card(estate());
    let s = game.add_card(silver());
    game.add_supply_pile(e, 2).unwrap();
    game.add_supply_pile(s, 2).unwrap();
    game.push_frame(CardEffect::GainCard(CardNameSelector::Name("Silver".to_owned())), alice(), alice(), None);
    assert!(matches!(game.step(), EffectStepResult::Continue));
    assert_eq!(game.supply[1].len(), 1);
    assert_eq!(game.players[0].discard.len(), 1);
    let gained = game.players[0].discard[0];
    assert_eq!(game.instances[gained.id].card, s);
    assert_eq!(game.instances[gained.id].address, CardAddress::PlayerOwned(alice(), Zone::Discard));
}

#[test]
fn cellar_discards_and_draws() {
    let mut game = setup();
    let c = game.add_card(copper());
    let a = add(&mut game, c, Zone::Hand);
    let b = add(&mut game, c, Zone::Hand);
    let cc = add(&mut game, c, Zone::Hand);
    let effect = cellar().rules.remove(0).1;
    game.push_frame(effect, alice(), alice(), None);
    assert!(matches!(game.step(), EffectStepResult::Continue));
    match game.step() {
        EffectStepResult::AskCard(who, _, range, candidates) => {
            assert_eq!(who, alice());
            assert!(matches!(range, NumberRange::AnyNumber));
            let ids: Vec<CardInstanceId> = candidates.iter().map(|i| i.instance_id).collect();
            assert_eq!(ids, vec![a, b, cc]);
        }
        _ => panic!("expected a request for cards"),
    }
    assert_eq!(game.commit_cards(vec![a, b]), Ok(()));
    let mut steps = 0;
    loop {
        match game.step() {
            EffectStepResult::End => break,
            EffectStepResult::Continue => {}
            _ => panic!("unexpected step result"),
        }
        steps += 1;
        assert!(steps < 20);
    }
    assert_eq!(game.resources.actions, 1);
    assert_eq!(game.resources.draws, 2);
    assert_eq!(game.players[0].discard, vec![a, b]);
    assert_eq!(game.players[0].hand, vec![cc]);
}

#[test]
fn commit_rejects_bad_choices() {
    let mut game = setup();
    assert_eq!(game.commit_cards(vec![]), Err(ChoiceError::NotAsked));
    let c = game.add_card(copper());
    let a = add(&mut game, c, Zone::Hand);
    let b = add(&mut game, c, Zone::Hand);
    let other = add(&mut game, c, Zone::Deck);
    let effect = CardEffect::Select(
        AskCardTag::new("pick", "pick one"),
        NumberRange::Exact(Number::Constant(1)),
        hand(),
        Box::new(CardEffect::Noop),
    );
    game.push_frame(effect, alice(), alice(), None);
    assert!(matches!(game.step(), EffectStepResult::AskCard(..)));
    assert_eq!(game.commit_cards(vec![a, b]), Err(ChoiceError::CountOutOfRange));
    assert_eq!(game.commit_cards(vec![other]), Err(ChoiceError::NotOffered));
    assert_eq!(game.commit_cards(vec![b]), Ok(()));
    assert_eq!(game.stack.last().unwrap().focus, vec![b]);
    assert_eq!(
        check_choice(&NumberRange::AnyNumber, &vec![a, b], &vec![a, a]),
        Err(ChoiceError::Repeated)
    );
}

#[test]
fn optional_answered_no_skips_frame() {
    let mut game = setup();
    let effect = CardEffect::Optional(
        deckbuilder::ask_tag::AskOptionTag::new("q", "really?", Some(true)),
        Box::new(CardEffect::PlusCoin(Number::Constant(3))),
    );
    game.push_frame(effect.duplicate(), alice(), alice(), None);
    assert!(matches!(game.step(), EffectStepResult::AskOptional(..)));
    assert_eq!(game.answer_optional(false), Ok(()));
    while !matches!(game.step(), EffectStepResult::End) {}
    assert_eq!(game.resources.coins, 0);

    game.push_frame(effect, alice(), alice(), None);
    assert!(matches!(game.step(), EffectStepResult::AskOptional(..)));
    assert_eq!(game.answer_optional(true), Ok(()));
    while !matches!(game.step(), EffectStepResult::End) {}
    assert_eq!(game.resources.coins, 3);
    assert_eq!(game.answer_optional(true), Err(ChoiceError::NotAsked));
}

#[test]
fn until_loops_while_condition_fails() {
    let mut game = setup();
    let c = game.add_card(copper());
    for _ in 0..5 {
        add(&mut game, c, Zone::Deck);
    }
    // draw the top card into hand until the hand holds 3
    let effect = CardEffect::Until(
        EffectCond::Geq(Number::CountCard(hand()), Number::Constant(3)),
        Box::new(CardEffect::MoveCard(
            CardSelector { name: CardNameSelector::Any, zone: vec![Zone::DeckTop] },
            Zone::Hand,
        )),
    );
    game.push_frame(effect, alice(), alice(), None);
    while !matches!(game.step(), EffectStepResult::End) {}
    assert_eq!(game.players[0].hand.len(), 3);
    assert_eq!(game.players[0].deck.len(), 2);
}

#[test]
fn focus_all_and_move_to_deck_top() {
    let mut game = setup();
    let c = game.add_card(copper());
    let g = game.add_card(gold());
    let x = add(&mut game, g, Zone::Hand);
    add(&mut game, c, Zone::Hand);
    let effect = CardEffect::FocusAll(
        CardSelector { name: CardNameSelector::Name("Gold".to_owned()), zone: vec![Zone::Hand] },
        Box::new(CardEffect::MoveCard(focused(), Zone::DeckTop)),
    );
    game.push_frame(effect, alice(), alice(), None);
    while !matches!(game.step(), EffectStepResult::End) {}
    assert_eq!(game.resolve_zone(alice(), &Zone::DeckTop), vec![x]);
    assert_eq!(game.players[0].hand.len(), 1);
    assert_eq!(game.instances[x.id].address, CardAddress::PlayerOwned(alice(), Zone::Deck));
}

#[test]
fn moving_into_a_view_is_an_error() {
    let mut game = setup();
    game.push_frame(CardEffect::MoveCard(hand(), Zone::AllMyCards), alice(), alice(), None);
    assert!(matches!(game.step(), EffectStepResult::Error(_)));
}

#[test]
fn step_on_empty_stack_ends() {
    let mut game = setup();
    assert!(matches!(game.step(), EffectStepResult::End));
}

#[test]
fn step_counter_counts_working_steps() {
    let mut game = setup();
    game.push_frame(CardEffect::Sequence(vec![CardEffect::Noop, CardEffect::Noop]), alice(), alice(), None);
    while !matches!(game.step(), EffectStepResult::End) {}
    assert_eq!(game.steps, 3);
    assert!(matches!(game.step(), EffectStepResult::End));
    assert_eq!(game.steps, 3);
}

fn witch_game(bob_has_moat: bool) -> Game {
    let mut game = setup();
    let curse = game.add_card(deckbuilder::basic_supply::curse());
    game.add_supply_pile(curse, 10).unwrap();
    if bob_has_moat {
        let m = game.add_card(deckbuilder::base::moat());
        game.add_instance(m, bob(), Zone::Hand).unwrap();
    }
    let effect = deckbuilder::base::witch().rules.remove(0).1;
    game.push_frame(effect, alice(), alice(), None);
    let mut steps = 0;
    while !matches!(game.step(), EffectStepResult::End) {
        steps += 1;
        assert!(steps < 50);
    }
    game
}

#[test]
fn witch_gives_opponent_a_curse() {
    let game = witch_game(false);
    assert_eq!(game.resources.draws, 2);
    assert_eq!(game.players[1].discard.len(), 1);
    assert_eq!(game.players[0].discard.len(), 0);
    assert_eq!(game.supply[0].len(), 9);
}

#[test]
fn moat_cancels_the_attack() {
    let game = witch_game(true);
    assert_eq!(game.resources.draws, 2);
    assert_eq!(game.players[1].discard.len(), 0);
    assert_eq!(game.supply[0].len(), 10);
}

#[test]
fn look_at_top_focuses_without_moving() {
    let mut game = setup();
    let c = game.add_card(copper());
    let d0 = add(&mut game, c, Zone::Deck);
    let d1 = add(&mut game, c, Zone::Deck);
    let d2 = add(&mut game, c, Zone::Deck);
    let effect = CardEffect::LookAtTop(Number::Constant(2), Box::new(CardEffect::Noop));
    game.push_frame(effect, alice(), alice(), None);
    assert!(matches!(game.step(), EffectStepResult::Continue));
    assert_eq!(game.stack.last().unwrap().focus, vec![d1, d2]);
    assert_eq!(game.players[0].deck, vec![d0, d1, d2]);
}

#[test]
fn reveal_top_moves_cards_to_revealed() {
    let mut game = setup();
    let c = game.add_card(copper());
    add(&mut game, c, Zone::Deck);
    let d1 = add(&mut game, c, Zone::Deck);
    let effect = CardEffect::RevealTop(Number::Constant(1), Box::new(CardEffect::Noop));
    game.push_frame(effect, alice(), alice(), None);
    assert!(matches!(game.step(), EffectStepResult::Continue));
    assert_eq!(game.stack.last().unwrap().focus, vec![d1]);
    assert_eq!(game.players[0].revealed, vec![d1]);
    assert_eq!(game.players[0].deck.len(), 1);
}

#[test]
fn throne_room_plays_a_card_twice() {
    let mut game = setup();
    let v = game.add_card(deckbuilder::base::village());
    let x = add(&mut game, v, Zone::Hand);
    let effect = deckbuilder::base::throne_room().rules.remove(0).1;
    game.push_frame(effect, alice(), alice(), None);
    assert!(matches!(game.step(), EffectStepResult::AskCard(..)));
    assert_eq!(game.commit_cards(vec![x]), Ok(()));
    while !matches!(game.step(), EffectStepResult::End) {}
    assert_eq!(game.resources.draws, 2);
    assert_eq!(game.resources.actions, 4);
}

#[test]
fn random_shuffle_reorders_a_deck() {
    let mut game = setup();
    let c = game.add_card(copper());
    for _ in 0..20 {
        add(&mut game, c, Zone::Deck);
    }
    let start: Vec<usize> = (0..20).collect();
    let mut moved = false;
    for _ in 0..5 {
        game.shuffle(alice());
        let order: Vec<usize> = game.players[0].deck.iter().map(|i| i.id).collect();
        if order != start {
            moved = true;
        }
    }
    assert!(moved);
}

fn priced(name: &str, cost: Number) -> deckbuilder::card::Card {
    let mut card = copper();
    card.name = name.to_owned();
    card.cost = cost;
    card
}

#[test]
fn cost_may_depend_on_other_costs() {
    let mut game = setup();
    let c = game.add_card(copper());
    let s = game.add_card(silver());
    // costs as much as the cards in Alice's deck together
    let v = game.add_card(priced(
        "Variable",
        Number::CountCost(CardSelector { name: CardNameSelector::Any, zone: vec![Zone::Deck] }),
    ));
    add(&mut game, s, Zone::Deck);
    add(&mut game, c, Zone::Deck);
    add(&mut game, v, Zone::Hand);
    let cheap = CardSelector {
        name: CardNameSelector::Cost(Box::new(NumberRange::Exact(Number::Constant(3)))),
        zone: vec![Zone::Hand],
    };
    assert_eq!(game.resolve_selector(alice(), &cheap).unwrap().len(), 1);
    assert_eq!(num(&game, Number::CountCost(hand())), Some(3));
}

#[test]
fn self_referential_cost_fails() {
    let mut game = setup();
    // costs as much as the cards in Alice's hand, itself among them
    let v = game.add_card(priced("Loop", Number::CountCost(hand())));
    add(&mut game, v, Zone::Hand);
    assert_eq!(num(&game, Number::CountCost(hand())), None);
}

#[test]
fn reshuffle_readdresses_discard_cards() {
    let mut game = setup();
    let c = game.add_card(copper());
    let x = add(&mut game, c, Zone::Discard);
    let y = add(&mut game, c, Zone::Discard);
    game.reshuffle(alice());
    assert_eq!(game.players[0].deck.len(), 2);
    assert_eq!(game.instances[x.id].address, CardAddress::PlayerOwned(alice(), Zone::Deck));
    assert_eq!(game.instances[y.id].address, CardAddress::PlayerOwned(alice(), Zone::Deck));
    // a card moved out of the deck afterwards leaves the deck
    assert!(game.move_card(x, alice(), Zone::Hand));
    assert_eq!(game.players[0].deck, vec![y]);
    assert_eq!(game.players[0].hand, vec![x]);
}

#[test]
fn costs_resolve_with_an_empty_catalog() {
    let game = setup();
    assert_eq!(num(&game, Number::CountCost(hand())), Some(0));
    let selector = CardNameSelector::Cost(Box::new(NumberRange::UpTo(Number::Constant(3))));
    assert_eq!(game.resolve_name(alice(), &selector, &copper()), Some(true));
}

#[test]
fn chain_of_costs_as_long_as_the_catalog_resolves() {
    let mut game = setup();
    // A's cost is the cost of the cards in the deck (one B); B costs 2
    let a = game.add_card(priced(
        "A",
        Number::CountCost(CardSelector { name: CardNameSelector::Any, zone: vec![Zone::Deck] }),
    ));
    let b = game.add_card(priced("B", Number::Constant(2)));
    add(&mut game, a, Zone::Hand);
    add(&mut game, b, Zone::Deck);
    assert_eq!(num(&game, Number::CountCost(hand())), Some(2));
}

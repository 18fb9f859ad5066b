use deckbuilder::base::{bandit, base_set, moat};
use deckbuilder::basic_supply::{basic_supply, copper, gold, silver};
use deckbuilder::card::{Card, CardType};
use deckbuilder::construct::setup;
use deckbuilder::game::Game;
use deckbuilder::number::{Number, NumberRange};
use deckbuilder::player::PlayerId;
use deckbuilder::selector::{CardNameSelector, CardSelector};
use deckbuilder::zone::Zone;
use std::collections::HashMap;

fn alice() -> PlayerId {
    PlayerId::new(0)
}

fn put_in_hand(game: &mut Game, cards: Vec<Card>) {
    for card in cards {
        let c = game.add_card(card);
        game.add_instance(c, alice(), Zone::Hand).unwrap();
    }
}

fn count(game: &Game, selector: &CardSelector) -> usize {
    game.resolve_selector(alice(), selector).unwrap().len()
}

/// Every card of the basic supply and the base set, in the catalog, by name.
fn supply(game: &mut Game) -> HashMap<String, usize> {
    let mut names = HashMap::new();
    let mut all = basic_supply();
    all.extend(base_set());
    for card in all {
        let name = card.name.clone();
        let c = game.add_card(card);
        names.insert(name, c);
    }
    names
}

/// Alice holds:
/// hand: Copper, Silver, Gold, Moat, Bandit;
/// deck: Estate, Militia, Bureaucrat, Gardens, Market;
/// discard: Chapel, Harbinger, Witch, Artisan, Mine;
/// play: Cellar, Poacher, Sentry;
/// pending: Merchant, Throne Room.
fn setup2() -> (Game, HashMap<String, usize>) {
    let mut game = setup();
    let names = supply(&mut game);
    let zones: [(Zone, &[&str]); 5] = [
        (Zone::Hand, &["Copper", "Silver", "Gold", "Moat", "Bandit"]),
        (Zone::Deck, &["Estate", "Militia", "Bureaucrat", "Gardens", "Market"]),
        (Zone::Discard, &["Chapel", "Harbinger", "Witch", "Artisan", "Mine"]),
        (Zone::Play, &["Cellar", "Poacher", "Sentry"]),
        (Zone::Pending, &["Merchant", "Throne Room"]),
    ];
    for (zone, cards) in zones.iter() {
        for name in cards.iter() {
            game.add_instance(names[*name], alice(), *zone).unwrap();
        }
    }
    (game, names)
}

#[test]
fn main_cardname_exact() {
    let mut game = setup();
    put_in_hand(&mut game, vec![copper(), copper(), copper()]);
    let selector = CardSelector {
        name: CardNameSelector::Name("Copper".to_owned()),
        zone: vec![Zone::Hand],
    };
    assert_eq!(count(&game, &selector), 3);
}

#[test]
fn main_cardname_cost() {
    let mut game = setup();
    put_in_hand(&mut game, vec![copper(), silver(), silver(), gold()]);
    let selector = CardSelector {
        name: CardNameSelector::Cost(Box::new(NumberRange::Exact(Number::Constant(3)))),
        zone: vec![Zone::Hand],
    };
    assert_eq!(count(&game, &selector), 2);
}

#[test]
fn main_cardname_costupto() {
    let mut game = setup();
    put_in_hand(&mut game, vec![copper(), silver(), silver(), gold()]);
    let selector = CardSelector {
        name: CardNameSelector::Cost(Box::new(NumberRange::UpTo(Number::Constant(3)))),
        zone: vec![Zone::Hand],
    };
    assert_eq!(count(&game, &selector), 3);
}

#[test]
fn main_cardname_or() {
    let mut game = setup();
    put_in_hand(&mut game, vec![copper(), silver(), gold()]);
    let selector = CardSelector {
        name: CardNameSelector::NameOr(vec![
            CardNameSelector::Name("Copper".to_owned()),
            CardNameSelector::Name("Silver".to_owned()),
        ]),
        zone: vec![Zone::Hand],
    };
    assert_eq!(count(&game, &selector), 2);
}

#[test]
fn main_cardname_type() {
    let mut game = setup();
    put_in_hand(&mut game, vec![copper(), silver(), gold(), moat(), bandit()]);
    let selector_t = CardSelector {
        name: CardNameSelector::HasType(CardType::Treasure),
        zone: vec![Zone::Hand],
    };
    let selector_a = CardSelector {
        name: CardNameSelector::HasType(CardType::Action),
        zone: vec![Zone::Hand],
    };
    let selector_r = CardSelector {
        name: CardNameSelector::HasType(CardType::Reaction),
        zone: vec![Zone::Hand],
    };
    assert_eq!(count(&game, &selector_t), 3);
    assert_eq!(count(&game, &selector_a), 2);
    assert_eq!(count(&game, &selector_r), 1);
}

#[test]
fn main_cardname_any() {
    let mut game = setup();
    put_in_hand(&mut game, vec![copper(), silver(), gold(), moat(), bandit()]);
    let selector = CardSelector { name: CardNameSelector::Any, zone: vec![Zone::Hand] };
    assert_eq!(count(&game, &selector), 5);
}

#[test]
fn main_cardselector_hand() {
    let (game, _) = setup2();
    let selector = CardSelector { name: CardNameSelector::Any, zone: vec![Zone::Hand] };
    assert_eq!(count(&game, &selector), 5);
}

#[test]
fn main_cardselector_all() {
    let (game, _) = setup2();
    let selector = CardSelector {
        name: CardNameSelector::Cost(Box::new(NumberRange::Exact(Number::Constant(2)))),
        zone: vec![Zone::AllMyCards],
    };
    // Estate, Cellar, Chapel, Moat
    assert_eq!(count(&game, &selector), 4);
}

#[test]
fn main_gardens_vp() {
    let (mut game, names) = setup2();
    // Estate (1) and Gardens with 20 cards (2)
    assert_eq!(game.calculate_vp(alice()), Some(3));
    for _ in 20..28 {
        game.add_instance(names["Copper"], alice(), Zone::Deck).unwrap();
    }
    // Gardens with 28 cards is still worth 2
    assert_eq!(game.calculate_vp(alice()), Some(3));
    for _ in 28..30 {
        game.add_instance(names["Copper"], alice(), Zone::Deck).unwrap();
    }
    // Gardens with 30 cards is worth 3
    assert_eq!(game.calculate_vp(alice()), Some(4));
}

#[test]
fn tests_cardname_exact() {
    let mut game = setup();
    put_in_hand(&mut game, vec![copper(), copper(), copper()]);
    let selector = CardSelector {
        name: CardNameSelector::Name("Copper".to_owned()),
        zone: vec![Zone::Hand],
    };
    assert_eq!(count(&game, &selector), 3);
}

#[test]
fn tests_cardname_cost() {
    let mut game = setup();
    put_in_hand(&mut game, vec![copper(), silver(), silver(), gold()]);
    let selector = CardSelector {
        name: CardNameSelector::Cost(Box::new(NumberRange::Exact(Number::Constant(3)))),
        zone: vec![Zone::Hand],
    };
    assert_eq!(count(&game, &selector), 2);
}

#[test]
fn tests_cardname_costupto() {
    let mut game = setup();
    put_in_hand(&mut game, vec![copper(), silver(), silver(), gold()]);
    let selector = CardSelector {
        name: CardNameSelector::Cost(Box::new(NumberRange::UpTo(Number::Constant(3)))),
        zone: vec![Zone::Hand],
    };
    assert_eq!(count(&game, &selector), 3);
}

#[test]
fn tests_cardname_or() {
    let mut game = setup();
    put_in_hand(&mut game, vec![copper(), silver(), gold()]);
    let selector = CardSelector {
        name: CardNameSelector::NameOr(vec![
            CardNameSelector::Name("Copper".to_owned()),
            CardNameSelector::Name("Silver".to_owned()),
        ]),
        zone: vec![Zone::Hand],
    };
    assert_eq!(count(&game, &selector), 2);
}

#[test]
fn tests_cardname_type() {
    let mut game = setup();
    put_in_hand(&mut game, vec![copper(), silver(), gold(), moat(), bandit()]);
    let selector_t = CardSelector {
        name: CardNameSelector::HasType(CardType::Treasure),
        zone: vec![Zone::Hand],
    };
    let selector_a = CardSelector {
        name: CardNameSelector::HasType(CardType::Action),
        zone: vec![Zone::Hand],
    };
    let selector_r = CardSelector {
        name: CardNameSelector::HasType(CardType::Reaction),
        zone: vec![Zone::Hand],
    };
    assert_eq!(count(&game, &selector_t), 3);
    assert_eq!(count(&game, &selector_a), 2);
    assert_eq!(count(&game, &selector_r), 1);
}

#[test]
fn tests_cardname_any() {
    let mut game = setup();
    put_in_hand(&mut game, vec![copper(), silver(), gold(), moat(), bandit()]);
    let selector = CardSelector { name: CardNameSelector::Any, zone: vec![Zone::Hand] };
    assert_eq!(count(&game, &selector), 5);
}

#[test]
fn tests_cardselector_hand() {
    let (game, _) = setup2();
    let selector = CardSelector { name: CardNameSelector::Any, zone: vec![Zone::Hand] };
    assert_eq!(count(&game, &selector), 5);
}

#[test]
fn tests_cardselector_all() {
    let (game, _) = setup2();
    let selector = CardSelector {
        name: CardNameSelector::Cost(Box::new(NumberRange::Exact(Number::Constant(2)))),
        zone: vec![Zone::AllMyCards],
    };
    // Estate, Cellar, Chapel, Moat
    assert_eq!(count(&game, &selector), 4);
}

#[test]
fn tests_gardens_vp() {
    let (mut game, names) = setup2();
    // Estate (1) and Gardens with 20 cards (2)
    assert_eq!(game.calculate_vp(alice()), Some(3));
    for _ in 20..28 {
        game.add_instance(names["Copper"], alice(), Zone::Deck).unwrap();
    }
    // Gardens with 28 cards is still worth 2
    assert_eq!(game.calculate_vp(alice()), Some(3));
    for _ in 28..30 {
        game.add_instance(names["Copper"], alice(), Zone::Deck).unwrap();
    }
    // Gardens with 30 cards is worth 3
    assert_eq!(game.calculate_vp(alice()), Some(4));
}

use crate::card::{Card, CardType};
use crate::card_instance::CardInstanceId;
use crate::effect::EffectCond;
use crate::game::{as_int, checked, count_empty, trunc_div, trunc_rem, Game};
use crate::number::{range_contains, Number, NumberRange};
use crate::player::PlayerId;
use crate::selector::{CardNameSelector, CardSelector};
use crate::zone::Zone;
use vstd::prelude::*;

verus! {

/// A copy of a list of ids.
pub fn copy_ids(v: &Vec<CardInstanceId>) -> (r: Vec<CardInstanceId>)
    ensures
        r@ == v@,
{
    let mut r: Vec<CardInstanceId> = Vec::new();
    let mut i: usize = 0;
    while i < v.len()
        invariant
            i <= v@.len(),
            r@ == v@.take(i as int),
        decreases v.len() - i,
    {
        r.push(v[i]);
        i = i + 1;
        proof {
            assert(r@ =~= v@.take(i as int));
        }
    }
    proof {
        assert(r@ =~= v@);
    }
    r
}

/// Appends a copy of `v` to `r`.
pub fn append_ids(r: &mut Vec<CardInstanceId>, v: &Vec<CardInstanceId>)
    ensures
        final(r)@ == old(r)@ + v@,
{
    let mut i: usize = 0;
    while i < v.len()
        invariant
            i <= v@.len(),
            r@ == old(r)@ + v@.take(i as int),
        decreases v.len() - i,
    {
        r.push(v[i]);
        i = i + 1;
        proof {
            assert(r@ =~= old(r)@ + v@.take(i as int));
        }
    }
    proof {
        assert(v@.take(v@.len() as int) =~= v@);
    }
}

fn has_type(types: &Vec<CardType>, t: CardType) -> (r: bool)
    ensures
        r == types@.contains(t),
{
    let mut i: usize = 0;
    while i < types.len()
        invariant
            i <= types@.len(),
            forall|j: int| 0 <= j < i ==> types@[j] != t,
        decreases types.len() - i,
    {
        if types[i] == t {
            return true;
        }
        i = i + 1;
    }
    false
}

fn checked_i64(x: i64) -> (r: Option<i32>)
    ensures
        as_int(r) == checked(x as int),
{
    if x >= i32::MIN as i64 && x <= i32::MAX as i64 {
        Some(x as i32)
    } else {
        None
    }
}

fn div_trunc(a: i32, b: i32) -> (r: Option<i32>)
    requires
        b != 0,
    ensures
        as_int(r) == checked(trunc_div(a as int, b as int)),
{
    let ua: u64 = if a < 0 { (-(a as i64)) as u64 } else { a as u64 };
    let ub: u64 = if b < 0 { (-(b as i64)) as u64 } else { b as u64 };
    let q: u64 = ua / ub;
    proof {
        assert(q <= ua) by (nonlinear_arith)
            requires q == ua / ub, ub >= 1;
    }
    let sq: i64 = if (a < 0) == (b < 0) { q as i64 } else { -(q as i64) };
    checked_i64(sq)
}

fn rem_trunc(a: i32, b: i32) -> (r: Option<i32>)
    requires
        b != 0,
    ensures
        as_int(r) == checked(trunc_rem(a as int, b as int)),
{
    let ua: u64 = if a < 0 { (-(a as i64)) as u64 } else { a as u64 };
    let ub: u64 = if b < 0 { (-(b as i64)) as u64 } else { b as u64 };
    let m: u64 = ua % ub;
    proof {
        assert(m < ub) by (nonlinear_arith)
            requires m == ua % ub, ub >= 1;
    }
    let sm: i64 = if a < 0 { -(m as i64) } else { m as i64 };
    checked_i64(sm)
}

impl Game {
    /// The evaluation budget of card costs (see `fuel`).
    fn fuel_budget(&self) -> (r: usize)
        ensures
            r as nat == self.fuel(),
    {
        if self.catalog.len() < usize::MAX {
            self.catalog.len() + 1
        } else {
            self.catalog.len()
        }
    }

    /// The catalog entry of a card instance, if the instance is known.
    pub fn card_ref(&self, id: CardInstanceId) -> (r: Option<&Card>)
        ensures
            match r {
                Some(c) => self.card_of(id) == Some(*c),
                None => self.card_of(id) is None,
            },
    {
        if id.id < self.instances.len() && self.instances[id.id].card < self.catalog.len() {
            Some(&self.catalog[self.instances[id.id].card])
        } else {
            None
        }
    }

    /// The card instances that `zone` holds for `playerid`, in positional
    /// order (the top of the deck last); empty for an unknown player.
    pub fn resolve_zone(&self, playerid: PlayerId, zone: &Zone) -> (r: Vec<CardInstanceId>)
        ensures
            r@ == self.zone_ids(playerid, *zone),
    {
        if !(playerid.id < self.players.len() && self.players[playerid.id].id == playerid) {
            return Vec::new();
        }
        let player = &self.players[playerid.id];
        match zone {
            Zone::Deck => copy_ids(&player.deck),
            Zone::Hand => copy_ids(&player.hand),
            Zone::Discard => copy_ids(&player.discard),
            Zone::Play => copy_ids(&player.play),
            Zone::Pending => copy_ids(&player.pending),
            Zone::Aside => copy_ids(&player.aside),
            Zone::Revealed => copy_ids(&player.revealed),
            Zone::DeckTop => {
                let mut r: Vec<CardInstanceId> = Vec::new();
                if player.deck.len() > 0 {
                    r.push(player.deck[player.deck.len() - 1]);
                }
                proof {
                    assert(r@ =~= self.zone_ids(playerid, *zone));
                }
                r
            },
            Zone::AllMyCards => {
                let mut r = copy_ids(&player.deck);
                append_ids(&mut r, &player.hand);
                append_ids(&mut r, &player.discard);
                append_ids(&mut r, &player.play);
                append_ids(&mut r, &player.pending);
                append_ids(&mut r, &player.aside);
                append_ids(&mut r, &player.revealed);
                r
            },
            Zone::Focused => {
                if self.stack.len() > 0 {
                    copy_ids(&self.stack[self.stack.len() - 1].focus)
                } else {
                    Vec::new()
                }
            },
            Zone::Itself => {
                let mut r: Vec<CardInstanceId> = Vec::new();
                if self.stack.len() > 0 {
                    match self.stack[self.stack.len() - 1].cause {
                        Some(c) => r.push(c),
                        None => {},
                    }
                }
                proof {
                    assert(r@ =~= self.zone_ids(playerid, *zone));
                }
                r
            },
        }
    }
}

impl Game {
    proof fn lemma_filter_none(
        self,
        p: PlayerId,
        name: CardNameSelector,
        ids: Seq<CardInstanceId>,
        i: int,
        fuel: nat,
    )
        requires
            0 <= i <= ids.len(),
            self.filter_ids(p, name, ids.take(i), fuel as nat) is None,
        ensures
            self.filter_ids(p, name, ids, fuel as nat) is None,
        decreases ids.len(),
    {
        if i == ids.len() {
            assert(ids.take(i) =~= ids);
        } else {
            assert(ids.drop_last().take(i) =~= ids.take(i));
            self.lemma_filter_none(p, name, ids.drop_last(), i, fuel as nat);
        }
    }

    proof fn lemma_sum_none(self, p: PlayerId, s: CardSelector, ids: Seq<CardInstanceId>, i: int, fuel: nat)
        requires
            0 <= i <= ids.len(),
            self.sum_costs(p, s, ids.take(i), fuel) is None,
        ensures
            self.sum_costs(p, s, ids, fuel) is None,
        decreases ids.len(),
    {
        if i == ids.len() {
            assert(ids.take(i) =~= ids);
        } else {
            assert(ids.drop_last().take(i) =~= ids.take(i));
            self.lemma_sum_none(p, s, ids.drop_last(), i, fuel);
        }
    }

    fn count_empty_piles(&self) -> (r: usize)
        ensures
            r as int == count_empty(self.supply@),
    {
        let mut n: usize = 0;
        let mut i: usize = 0;
        while i < self.supply.len()
            invariant
                i <= self.supply@.len(),
                n as int == count_empty(self.supply@.take(i as int)),
                n <= i,
            decreases self.supply.len() - i,
        {
            proof {
                assert(self.supply@.take(i + 1).drop_last() =~= self.supply@.take(i as int));
            }
            if self.supply[i].len() == 0 {
                n = n + 1;
            }
            i = i + 1;
        }
        proof {
            assert(self.supply@.take(i as int) =~= self.supply@);
        }
        n
    }

    fn resolve_selector_mode(&self, target: PlayerId, selector: &CardSelector, fuel: usize) -> (r:
        Option<Vec<CardInstanceId>>)
        ensures
            match r {
                Some(v) => self.eval_selector(target, *selector, fuel as nat) == Some(v@),
                None => self.eval_selector(target, *selector, fuel as nat) is None,
            },
        decreases fuel, *selector,
    {
        let mut all: Vec<CardInstanceId> = Vec::new();
        let mut i: usize = 0;
        while i < selector.zone.len()
            invariant
                i <= selector.zone@.len(),
                all@ == self.zones_ids(target, selector.zone@.take(i as int)),
            decreases selector.zone.len() - i,
        {
            let z = self.resolve_zone(target, &selector.zone[i]);
            append_ids(&mut all, &z);
            proof {
                assert(selector.zone@.take(i + 1).drop_last() =~= selector.zone@.take(i as int));
            }
            i = i + 1;
        }
        proof {
            assert(selector.zone@.take(i as int) =~= selector.zone@);
        }
        let mut kept: Vec<CardInstanceId> = Vec::new();
        let mut j: usize = 0;
        while j < all.len()
            invariant
                j <= all@.len(),
                all@ == self.zones_ids(target, selector.zone@),
                self.filter_ids(target, selector.name, all@.take(j as int), fuel as nat) == Some(kept@),
            decreases all.len() - j,
        {
            let id = all[j];
            proof {
                assert(all@.take(j + 1).drop_last() =~= all@.take(j as int));
                assert(all@.take(j + 1).last() == all@[j as int]);
            }
            let card = match self.card_ref(id) {
                Some(c) => c,
                None => {
                    proof {
                        self.lemma_filter_none(target, selector.name, all@, j + 1, fuel as nat);
                    }
                    return None;
                },
            };
            match self.resolve_name_mode(target, &selector.name, card, fuel) {
                Some(ok) => {
                    if ok {
                        kept.push(id);
                    }
                },
                None => {
                    proof {
                        self.lemma_filter_none(target, selector.name, all@, j + 1, fuel as nat);
                    }
                    return None;
                },
            }
            j = j + 1;
        }
        proof {
            assert(all@.take(j as int) =~= all@);
        }
        Some(kept)
    }

    fn resolve_name_mode(
        &self,
        player: PlayerId,
        selector: &CardNameSelector,
        card: &Card,
        fuel: usize,
    ) -> (r: Option<bool>)
        ensures
            r == self.eval_name(player, *selector, *card, fuel as nat),
        decreases fuel, *selector,
    {
        match selector {
            CardNameSelector::Name(name) => Some(card.name == *name),
            CardNameSelector::NameAnd(selectors) => {
                let mut i: usize = 0;
                proof {
                    assert(selectors@.subrange(0, selectors@.len() as int) =~= selectors@);
                }
                while i < selectors.len()
                    invariant
                        i <= selectors@.len(),
                        *selector == CardNameSelector::NameAnd(*selectors),
                        self.eval_name(player, *selector, *card, fuel as nat) == self.all_names(
                            player,
                            selectors@.subrange(i as int, selectors@.len() as int),
                            *card,
                            fuel as nat,
                        ),
                    decreases selectors.len() - i,
                {
                    let ghost rest = selectors@.subrange(i as int, selectors@.len() as int);
                    proof {
                        assert(rest[0] == selectors@[i as int]);
                        assert(rest.subrange(1, rest.len() as int) =~= selectors@.subrange(
                            i + 1,
                            selectors@.len() as int,
                        ));
                    }
                    proof {
                        assert(decreases_to!(*selector => selectors@[i as int]));
                    }
                    match self.resolve_name_mode(player, &selectors[i], card, fuel) {
                        Some(true) => {},
                        other => {
                            return other;
                        },
                    }
                    i = i + 1;
                }
                Some(true)
            },
            CardNameSelector::NameOr(selectors) => {
                let mut i: usize = 0;
                proof {
                    assert(selectors@.subrange(0, selectors@.len() as int) =~= selectors@);
                }
                while i < selectors.len()
                    invariant
                        i <= selectors@.len(),
                        *selector == CardNameSelector::NameOr(*selectors),
                        self.eval_name(player, *selector, *card, fuel as nat) == self.any_names(
                            player,
                            selectors@.subrange(i as int, selectors@.len() as int),
                            *card,
                            fuel as nat,
                        ),
                    decreases selectors.len() - i,
                {
                    let ghost rest = selectors@.subrange(i as int, selectors@.len() as int);
                    proof {
                        assert(rest[0] == selectors@[i as int]);
                        assert(rest.subrange(1, rest.len() as int) =~= selectors@.subrange(
                            i + 1,
                            selectors@.len() as int,
                        ));
                    }
                    proof {
                        assert(decreases_to!(*selector => selectors@[i as int]));
                    }
                    match self.resolve_name_mode(player, &selectors[i], card, fuel) {
                        Some(false) => {},
                        other => {
                            return other;
                        },
                    }
                    i = i + 1;
                }
                Some(false)
            },
            CardNameSelector::NameNot(inner) => match self.resolve_name_mode(
                player,
                inner,
                card,
                fuel,
            ) {
                Some(b) => Some(!b),
                None => None,
            },
            CardNameSelector::HasType(t) => Some(has_type(&card.types, *t)),
            CardNameSelector::Cost(range) => {
                if fuel == 0 {
                    return None;
                }
                let rr = self.resolve_number_range_mode(player, range, fuel);
                let c = self.resolve_number_mode(player, &card.cost, fuel - 1);
                match (rr, c) {
                    (Some(rr), Some(c)) => Some(rr.contains(c)),
                    _ => None,
                }
            },
            CardNameSelector::Any => Some(true),
        }
    }

    fn resolve_number_range_mode(
        &self,
        player: PlayerId,
        n: &NumberRange<Number>,
        fuel: usize,
    ) -> (r: Option<NumberRange<i32>>)
        ensures
            r == self.eval_range(player, *n, fuel as nat),
        decreases fuel, *n,
    {
        match n {
            NumberRange::Exact(a) => match self.resolve_number_mode(player, a, fuel) {
                Some(x) => Some(NumberRange::Exact(x)),
                None => None,
            },
            NumberRange::UpTo(a) => match self.resolve_number_mode(player, a, fuel) {
                Some(x) => Some(NumberRange::UpTo(x)),
                None => None,
            },
            NumberRange::AtLeast(a) => match self.resolve_number_mode(player, a, fuel) {
                Some(x) => Some(NumberRange::AtLeast(x)),
                None => None,
            },
            NumberRange::Range(a, b) => {
                let x = self.resolve_number_mode(player, a, fuel);
                let y = self.resolve_number_mode(player, b, fuel);
                match (x, y) {
                    (Some(x), Some(y)) => Some(NumberRange::Range(x, y)),
                    _ => None,
                }
            },
            NumberRange::AnyNumber => Some(NumberRange::AnyNumber),
        }
    }

    fn resolve_number_mode(&self, player: PlayerId, n: &Number, fuel: usize) -> (r: Option<i32>)
        ensures
            as_int(r) == self.eval_number(player, *n, fuel as nat),
        decreases fuel, *n,
    {
        match n {
            Number::Constant(c) => Some(*c),
            Number::CountCard(selector) => match self.resolve_selector_mode(
                player,
                selector,
                fuel,
            ) {
                Some(v) => {
                    if v.len() <= i32::MAX as usize {
                        Some(v.len() as i32)
                    } else {
                        None
                    }
                },
                None => None,
            },
            Number::CountCost(selector) => {
                if fuel == 0 {
                    return None;
                }
                let ids = match self.resolve_selector_mode(player, selector, fuel) {
                    Some(v) => v,
                    None => {
                        return None;
                    },
                };
                let mut total: i32 = 0;
                let mut i: usize = 0;
                while i < ids.len()
                    invariant
                        i <= ids@.len(),
                        fuel > 0,
                        *n == Number::CountCost(*selector),
                        self.eval_selector(player, *selector, fuel as nat) == Some(ids@),
                        self.sum_costs(player, *selector, ids@.take(i as int), fuel as nat) == Some(
                            total as int,
                        ),
                    decreases ids.len() - i,
                {
                    proof {
                        assert(ids@.take(i + 1).drop_last() =~= ids@.take(i as int));
                        assert(ids@.take(i + 1).last() == ids@[i as int]);
                    }
                    let card = match self.card_ref(ids[i]) {
                        Some(c) => c,
                        None => {
                            proof {
                                self.lemma_sum_none(player, *selector, ids@, i + 1, fuel as nat);
                            }
                            return None;
                        },
                    };
                    let c = match self.resolve_number_mode(player, &card.cost, fuel - 1) {
                        Some(c) => c,
                        None => {
                            proof {
                                self.lemma_sum_none(player, *selector, ids@, i + 1, fuel as nat);
                            }
                            return None;
                        },
                    };
                    match checked_i64(total as i64 + c as i64) {
                        Some(t) => {
                            total = t;
                        },
                        None => {
                            proof {
                                self.lemma_sum_none(player, *selector, ids@, i + 1, fuel as nat);
                            }
                            return None;
                        },
                    }
                    i = i + 1;
                }
                proof {
                    assert(ids@.take(i as int) =~= ids@);
                }
                Some(total)
            },
            Number::CountEmptyPiles => {
                let c = self.count_empty_piles();
                if c <= i32::MAX as usize {
                    Some(c as i32)
                } else {
                    None
                }
            },
            Number::Plus(a, b) => {
                let x = self.resolve_number_mode(player, a, fuel);
                let y = self.resolve_number_mode(player, b, fuel);
                match (x, y) {
                    (Some(x), Some(y)) => checked_i64(x as i64 + y as i64),
                    _ => None,
                }
            },
            Number::Minus(a, b) => {
                let x = self.resolve_number_mode(player, a, fuel);
                let y = self.resolve_number_mode(player, b, fuel);
                match (x, y) {
                    (Some(x), Some(y)) => checked_i64(x as i64 - y as i64),
                    _ => None,
                }
            },
            Number::Times(a, b) => {
                let x = self.resolve_number_mode(player, a, fuel);
                let y = self.resolve_number_mode(player, b, fuel);
                match (x, y) {
                    (Some(x), Some(y)) => {
                        proof {
                            assert(-0x4000_0000_0000_0000 <= (x as int) * (y as int)
                                <= 0x4000_0000_0000_0000) by (nonlinear_arith)
                                requires
                                    -0x8000_0000 <= x <= 0x7fff_ffff,
                                    -0x8000_0000 <= y <= 0x7fff_ffff,
                            ;
                        }
                        checked_i64(x as i64 * y as i64)
                    },
                    _ => None,
                }
            },
            Number::Div(a, b) => {
                let x = self.resolve_number_mode(player, a, fuel);
                let y = self.resolve_number_mode(player, b, fuel);
                match (x, y) {
                    (Some(x), Some(y)) => if y == 0 {
                        None
                    } else {
                        div_trunc(x, y)
                    },
                    _ => None,
                }
            },
            Number::Mod(a, b) => {
                let x = self.resolve_number_mode(player, a, fuel);
                let y = self.resolve_number_mode(player, b, fuel);
                match (x, y) {
                    (Some(x), Some(y)) => if y == 0 {
                        None
                    } else {
                        rem_trunc(x, y)
                    },
                    _ => None,
                }
            },
        }
    }

    /// The value of `n` for `player`; `None` where evaluation fails (a
    /// division or remainder by zero, a value outside `i32`, an unknown
    /// card instance, or a chain of card costs that depend on card costs
    /// which comes back to a card already in it and so never settles).
    pub fn resolve_number(&self, player: PlayerId, n: &Number) -> (r: Option<i32>)
        ensures
            as_int(r) == self.eval_number(player, *n, self.fuel()),
    {
        self.resolve_number_mode(player, n, self.fuel_budget())
    }

    /// A range with its bounds evaluated for `player`, shape kept.
    pub fn resolve_number_range(&self, player: PlayerId, n: &NumberRange<Number>) -> (r: Option<
        NumberRange<i32>,
    >)
        ensures
            r == self.eval_range(player, *n, self.fuel()),
    {
        self.resolve_number_range_mode(player, n, self.fuel_budget())
    }

    /// Whether `card` satisfies `selector`, evaluated for `player`.
    pub fn resolve_name(&self, player: PlayerId, selector: &CardNameSelector, card: &Card) -> (r:
        Option<bool>)
        ensures
            r == self.eval_name(player, *selector, *card, self.fuel()),
    {
        self.resolve_name_mode(player, selector, card, self.fuel_budget())
    }

    /// The card instances that `selector` matches for `target`: each listed
    /// zone in turn, filtered by the predicate, duplicates kept.
    pub fn resolve_selector(&self, target: PlayerId, selector: &CardSelector) -> (r: Option<
        Vec<CardInstanceId>,
    >)
        ensures
            match r {
                Some(v) => self.eval_selector(target, *selector, self.fuel()) == Some(v@),
                None => self.eval_selector(target, *selector, self.fuel()) is None,
            },
    {
        self.resolve_selector_mode(target, selector, self.fuel_budget())
    }
}

impl Game {
    proof fn lemma_vps_none(self, p: PlayerId, ids: Seq<CardInstanceId>, i: int)
        requires
            0 <= i <= ids.len(),
            self.sum_vps(p, ids.take(i)) is None,
        ensures
            self.sum_vps(p, ids) is None,
        decreases ids.len(),
    {
        if i == ids.len() {
            assert(ids.take(i) =~= ids);
        } else {
            assert(ids.drop_last().take(i) =~= ids.take(i));
            self.lemma_vps_none(p, ids.drop_last(), i);
        }
    }

    /// The victory points of all the cards of `player`; `None` where a
    /// card's value cannot be evaluated or the sum leaves `i32`.
    pub fn calculate_vp(&self, player: PlayerId) -> (r: Option<i32>)
        ensures
            as_int(r) == self.total_vp(player),
    {
        let ids = self.resolve_zone(player, &Zone::AllMyCards);
        let mut total: i32 = 0;
        let mut i: usize = 0;
        while i < ids.len()
            invariant
                i <= ids@.len(),
                ids@ == self.zone_ids(player, Zone::AllMyCards),
                self.sum_vps(player, ids@.take(i as int)) == Some(total as int),
            decreases ids.len() - i,
        {
            proof {
                assert(ids@.take(i + 1).drop_last() =~= ids@.take(i as int));
                assert(ids@.take(i + 1).last() == ids@[i as int]);
            }
            let card = match self.card_ref(ids[i]) {
                Some(c) => c,
                None => {
                    proof {
                        self.lemma_vps_none(player, ids@, i + 1);
                    }
                    return None;
                },
            };
            let v = match self.resolve_number(player, &card.vp) {
                Some(v) => v,
                None => {
                    proof {
                        self.lemma_vps_none(player, ids@, i + 1);
                    }
                    return None;
                },
            };
            match checked_i64(total as i64 + v as i64) {
                Some(t) => {
                    total = t;
                },
                None => {
                    proof {
                        self.lemma_vps_none(player, ids@, i + 1);
                    }
                    return None;
                },
            }
            i = i + 1;
        }
        proof {
            assert(ids@.take(i as int) =~= ids@);
        }
        Some(total)
    }
}

impl Game {
    /// Whether `cond` holds for `player`; `None` where one of its
    /// quantities cannot be evaluated.
    pub fn resolve_cond(&self, player: PlayerId, cond: &EffectCond) -> (r: Option<bool>)
        ensures
            r == self.eval_cond(player, *cond),
        decreases *cond,
    {
        match cond {
            EffectCond::Leq(a, b) => {
                let x = self.resolve_number(player, a);
                let y = self.resolve_number(player, b);
                match (x, y) {
                    (Some(x), Some(y)) => Some(x <= y),
                    _ => None,
                }
            },
            EffectCond::Geq(a, b) => {
                let x = self.resolve_number(player, a);
                let y = self.resolve_number(player, b);
                match (x, y) {
                    (Some(x), Some(y)) => Some(x >= y),
                    _ => None,
                }
            },
            EffectCond::Eq(a, b) => {
                let x = self.resolve_number(player, a);
                let y = self.resolve_number(player, b);
                match (x, y) {
                    (Some(x), Some(y)) => Some(x == y),
                    _ => None,
                }
            },
            EffectCond::CondAnd(conds) => {
                let mut i: usize = 0;
                proof {
                    assert(conds@.subrange(0, conds@.len() as int) =~= conds@);
                }
                while i < conds.len()
                    invariant
                        i <= conds@.len(),
                        *cond == EffectCond::CondAnd(*conds),
                        self.eval_cond(player, *cond) == self.all_conds(
                            player,
                            conds@.subrange(i as int, conds@.len() as int),
                        ),
                    decreases conds.len() - i,
                {
                    let ghost rest = conds@.subrange(i as int, conds@.len() as int);
                    proof {
                        assert(rest[0] == conds@[i as int]);
                        assert(rest.subrange(1, rest.len() as int) =~= conds@.subrange(
                            i + 1,
                            conds@.len() as int,
                        ));
                        assert(decreases_to!(*cond => conds@[i as int]));
                    }
                    match self.resolve_cond(player, &conds[i]) {
                        Some(true) => {},
                        other => {
                            return other;
                        },
                    }
                    i = i + 1;
                }
                Some(true)
            },
            EffectCond::CondOr(conds) => {
                let mut i: usize = 0;
                proof {
                    assert(conds@.subrange(0, conds@.len() as int) =~= conds@);
                }
                while i < conds.len()
                    invariant
                        i <= conds@.len(),
                        *cond == EffectCond::CondOr(*conds),
                        self.eval_cond(player, *cond) == self.any_conds(
                            player,
                            conds@.subrange(i as int, conds@.len() as int),
                        ),
                    decreases conds.len() - i,
                {
                    let ghost rest = conds@.subrange(i as int, conds@.len() as int);
                    proof {
                        assert(rest[0] == conds@[i as int]);
                        assert(rest.subrange(1, rest.len() as int) =~= conds@.subrange(
                            i + 1,
                            conds@.len() as int,
                        ));
                        assert(decreases_to!(*cond => conds@[i as int]));
                    }
                    match self.resolve_cond(player, &conds[i]) {
                        Some(false) => {},
                        other => {
                            return other;
                        },
                    }
                    i = i + 1;
                }
                Some(false)
            },
            EffectCond::CondNot(inner) => match self.resolve_cond(player, inner) {
                Some(b) => Some(!b),
                None => None,
            },
        }
    }
}

} // verus!

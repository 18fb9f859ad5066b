use crate::card::{Card, CardType};
use crate::card_instance::{CardAddress, CardInstance, CardInstanceId};
use crate::effect::EffectCond;
use crate::effect_stack::EffectStackFrame;
use crate::number::{range_contains, Number, NumberRange};
use crate::player::{PlayerData, PlayerId};
use crate::selector::{CardNameSelector, CardSelector};
use crate::zone::Zone;
use vstd::prelude::*;

verus! {

/// The phases of a turn.
#[derive(Clone, Copy, Debug, PartialEq, Eq, Structural)]
pub enum TurnPhase {
    Action,
    Buy,
    Cleanup,
}

/// The per-turn counters that `Plus*` effects add to.
#[derive(Clone, Copy, Debug, PartialEq, Eq, Structural)]
pub struct TurnResources {
    pub draws: i32,
    pub actions: i32,
    pub buys: i32,
    pub coins: i32,
}

/// The whole state of one game: the players and their zones, the supply
/// piles, the trash, the effect stack, the card catalog and every copy of a
/// card, which zones, piles and frames name by id.
#[derive(Debug)]
pub struct Game {
    pub players: Vec<PlayerData>,
    pub supply: Vec<Vec<CardInstanceId>>,
    pub trash: Vec<CardInstanceId>,
    pub turn: i32,
    pub stack: Vec<EffectStackFrame>,
    pub catalog: Vec<Card>,
    pub instances: Vec<CardInstance>,
    pub resources: TurnResources,
    /// How many steps found a frame to work on: lets a test harness catch
    /// card definitions that never terminate.
    pub steps: u64,
}

pub open spec fn in_i32(x: int) -> bool {
    i32::MIN <= x <= i32::MAX
}

/// `x`, where it fits in an `i32`.
pub open spec fn checked(x: int) -> Option<int> {
    if in_i32(x) {
        Some(x)
    } else {
        None
    }
}

pub open spec fn abs(x: int) -> int {
    if x < 0 {
        -x
    } else {
        x
    }
}

/// Integer division that truncates toward zero.
pub open spec fn trunc_div(a: int, b: int) -> int {
    let q = abs(a) / abs(b);
    if (a < 0) == (b < 0) {
        q
    } else {
        -q
    }
}

/// The remainder that goes with `trunc_div`: it takes the sign of `a`.
pub open spec fn trunc_rem(a: int, b: int) -> int {
    let r = abs(a) % abs(b);
    if a < 0 {
        -r
    } else {
        r
    }
}

/// The integer that an evaluation returned, if any.
pub open spec fn as_int(r: Option<i32>) -> Option<int> {
    match r {
        Some(x) => Some(x as int),
        None => None,
    }
}

/// The contents of a concrete zone of a player.
pub open spec fn concrete_zone(pd: PlayerData, z: Zone) -> Seq<CardInstanceId> {
    match z {
        Zone::Deck => pd.deck@,
        Zone::Hand => pd.hand@,
        Zone::Discard => pd.discard@,
        Zone::Play => pd.play@,
        Zone::Pending => pd.pending@,
        Zone::Aside => pd.aside@,
        Zone::Revealed => pd.revealed@,
        _ => seq![],
    }
}

/// Every card of a player, zone after zone.
pub open spec fn all_cards(pd: PlayerData) -> Seq<CardInstanceId> {
    pd.deck@ + pd.hand@ + pd.discard@ + pd.play@ + pd.pending@ + pd.aside@ + pd.revealed@
}

/// The number of empty piles.
pub open spec fn count_empty(piles: Seq<Vec<CardInstanceId>>) -> int
    decreases piles.len(),
{
    if piles.len() == 0 {
        0
    } else {
        count_empty(piles.drop_last()) + if piles.last()@.len() == 0 {
            1int
        } else {
            0int
        }
    }
}

/// Some entry of `ids` has index `k`.
pub open spec fn lists_index(ids: Seq<CardInstanceId>, k: int) -> bool {
    exists|j: int| 0 <= j < ids.len() && (#[trigger] ids[j]).id == k
}

/// The entries of `ids` up to `j + 1` list index `k` where those up to `j`
/// do or entry `j` does.
pub proof fn lemma_lists_index_step(ids: Seq<CardInstanceId>, j: int, k: int)
    requires
        0 <= j < ids.len(),
    ensures
        lists_index(ids.take(j + 1), k) == (lists_index(ids.take(j), k) || ids[j].id == k),
{
    if lists_index(ids.take(j + 1), k) {
        let w = choose|w: int| 0 <= w < j + 1 && (#[trigger] ids.take(j + 1)[w]).id == k;
        if w < j {
            assert(ids.take(j)[w].id == k);
        }
    }
    if lists_index(ids.take(j), k) {
        let w = choose|w: int| 0 <= w < j && (#[trigger] ids.take(j)[w]).id == k;
        assert(ids.take(j + 1)[w].id == k);
    }
    if ids[j].id == k {
        assert(ids.take(j + 1)[j].id == k);
    }
}

/// The copies listed in `ids` have address `a` in `new`; every other copy
/// keeps its address from `old`.
pub open spec fn readdressed(old: Game, new: Game, ids: Seq<CardInstanceId>, a: CardAddress) -> bool {
    forall|k: int|
        0 <= k < old.instances@.len() ==> (#[trigger] new.instances@[k]).address == if lists_index(ids, k) {
            a
        } else {
            old.instances@[k].address
        }
}

/// `new` is `old` with at most the deck and the discard of player `p` and
/// the addresses of card copies changed.
pub open spec fn same_but_deck_discard(old: Game, new: Game, p: PlayerId) -> bool {
    &&& new.supply@ == old.supply@
    &&& new.trash@ == old.trash@
    &&& new.turn == old.turn
    &&& new.stack@ == old.stack@
    &&& new.catalog@ == old.catalog@
    &&& new.instances@.len() == old.instances@.len()
    &&& forall|k: int|
        0 <= k < old.instances@.len() ==> (#[trigger] new.instances@[k]).card == old.instances@[k].card
            && new.instances@[k].id == old.instances@[k].id
    &&& new.resources == old.resources
    &&& new.steps == old.steps
    &&& new.players@.len() == old.players@.len()
    &&& forall|k: int|
        0 <= k < old.players@.len() && k != p.id ==> new.players@[k] == old.players@[k]
    &&& new.players@[p.id as int].name == old.players@[p.id as int].name
    &&& new.players@[p.id as int].id == old.players@[p.id as int].id
    &&& new.players@[p.id as int].hand@ == old.players@[p.id as int].hand@
    &&& new.players@[p.id as int].play@ == old.players@[p.id as int].play@
    &&& new.players@[p.id as int].pending@ == old.players@[p.id as int].pending@
    &&& new.players@[p.id as int].aside@ == old.players@[p.id as int].aside@
    &&& new.players@[p.id as int].revealed@ == old.players@[p.id as int].revealed@
}

impl Game {
    /// The deck of player `p` (last = top).
    pub open spec fn deck_of(self, p: PlayerId) -> Seq<CardInstanceId> {
        self.players@[p.id as int].deck@
    }

    /// The discard pile of player `p`.
    pub open spec fn discard_of(self, p: PlayerId) -> Seq<CardInstanceId> {
        self.players@[p.id as int].discard@
    }

    /// The evaluation budget of card costs: one more than the catalog has
    /// cards, so that it runs out only on a chain of costs that comes back
    /// to a card already in it (capped at the largest `usize`).
    pub open spec fn fuel(self) -> nat {
        if self.catalog@.len() < usize::MAX {
            (self.catalog@.len() + 1) as nat
        } else {
            self.catalog@.len()
        }
    }

    /// The player that `p` names.
    pub open spec fn player_of(self, p: PlayerId) -> Option<PlayerData> {
        if p.id < self.players@.len() && self.players@[p.id as int].id == p {
            Some(self.players@[p.id as int])
        } else {
            None
        }
    }

    /// The card instances that `z` resolves to for `p`, in order.
    pub open spec fn zone_ids(self, p: PlayerId, z: Zone) -> Seq<CardInstanceId> {
        match self.player_of(p) {
            None => seq![],
            Some(pd) => match z {
                Zone::DeckTop => if pd.deck@.len() > 0 {
                    seq![pd.deck@.last()]
                } else {
                    seq![]
                },
                Zone::AllMyCards => all_cards(pd),
                Zone::Focused => if self.stack@.len() > 0 {
                    self.stack@.last().focus@
                } else {
                    seq![]
                },
                Zone::Itself => if self.stack@.len() > 0 {
                    match self.stack@.last().cause {
                        Some(c) => seq![c],
                        None => seq![],
                    }
                } else {
                    seq![]
                },
                _ => concrete_zone(pd, z),
            },
        }
    }

    /// The zones of `zs` resolved one after the other.
    pub open spec fn zones_ids(self, p: PlayerId, zs: Seq<Zone>) -> Seq<CardInstanceId>
        decreases zs.len(),
    {
        if zs.len() == 0 {
            seq![]
        } else {
            self.zones_ids(p, zs.drop_last()) + self.zone_ids(p, zs.last())
        }
    }

    /// The catalog entry of a card instance.
    pub open spec fn card_of(self, id: CardInstanceId) -> Option<Card> {
        if id.id < self.instances@.len() && self.instances@[id.id as int].card
            < self.catalog@.len() {
            Some(self.catalog@[self.instances@[id.id as int].card as int])
        } else {
            None
        }
    }

    /// The value of `n` for player `p`; `None` where it divides by zero,
    /// leaves the range of `i32` or names an unknown card. Evaluating a
    /// card's cost spends one unit of `fuel`; with none left, a cost cannot
    /// be evaluated (`None`). Called with one unit more than the catalog has
    /// cards (`fuel()`), this happens only where a chain of costs depending
    /// on costs comes back to a card already in it, which no amount of
    /// evaluation would ever settle.
    pub open spec fn eval_number(self, p: PlayerId, n: Number, fuel: nat) -> Option<int>
        decreases fuel, n, 0int,
    {
        match n {
            Number::Constant(c) => Some(c as int),
            Number::CountCard(s) => match self.eval_selector(p, s, fuel) {
                Some(ids) => checked(ids.len() as int),
                None => None,
            },
            Number::CountCost(s) => if fuel == 0 {
                None
            } else {
                match self.eval_selector(p, s, fuel) {
                    Some(ids) => self.sum_costs(p, s, ids, fuel),
                    None => None,
                }
            },
            Number::CountEmptyPiles => checked(count_empty(self.supply@)),
            Number::Plus(a, b) => match (
                self.eval_number(p, *a, fuel),
                self.eval_number(p, *b, fuel),
            ) {
                (Some(x), Some(y)) => checked(x + y),
                _ => None,
            },
            Number::Minus(a, b) => match (
                self.eval_number(p, *a, fuel),
                self.eval_number(p, *b, fuel),
            ) {
                (Some(x), Some(y)) => checked(x - y),
                _ => None,
            },
            Number::Times(a, b) => match (
                self.eval_number(p, *a, fuel),
                self.eval_number(p, *b, fuel),
            ) {
                (Some(x), Some(y)) => checked(x * y),
                _ => None,
            },
            Number::Div(a, b) => match (
                self.eval_number(p, *a, fuel),
                self.eval_number(p, *b, fuel),
            ) {
                (Some(x), Some(y)) => if y == 0 {
                    None
                } else {
                    checked(trunc_div(x, y))
                },
                _ => None,
            },
            Number::Mod(a, b) => match (
                self.eval_number(p, *a, fuel),
                self.eval_number(p, *b, fuel),
            ) {
                (Some(x), Some(y)) => if y == 0 {
                    None
                } else {
                    checked(trunc_rem(x, y))
                },
                _ => None,
            },
        }
    }

    /// The sum of the costs of `ids`, added from the first.
    pub open spec fn sum_costs(
        self,
        p: PlayerId,
        s: CardSelector,
        ids: Seq<CardInstanceId>,
        fuel: nat,
    ) -> Option<
        int,
    >
        decreases fuel, s, ids.len(),
    {
        if fuel == 0 {
            None
        } else if ids.len() == 0 {
            Some(0)
        } else {
            match (self.sum_costs(p, s, ids.drop_last(), fuel), self.card_of(ids.last())) {
                (Some(t), Some(card)) => match self.eval_number(p, card.cost, (fuel - 1) as nat) {
                    Some(c) => checked(t + c),
                    None => None,
                },
                _ => None,
            }
        }
    }

    /// A range whose bounds are evaluated.
    pub open spec fn eval_range(self, p: PlayerId, r: NumberRange<Number>, fuel: nat) -> Option<
        NumberRange<i32>,
    >
        decreases fuel, r, 0int,
    {
        match r {
            NumberRange::Exact(n) => match self.eval_number(p, n, fuel) {
                Some(x) => Some(NumberRange::Exact(x as i32)),
                None => None,
            },
            NumberRange::UpTo(n) => match self.eval_number(p, n, fuel) {
                Some(x) => Some(NumberRange::UpTo(x as i32)),
                None => None,
            },
            NumberRange::AtLeast(n) => match self.eval_number(p, n, fuel) {
                Some(x) => Some(NumberRange::AtLeast(x as i32)),
                None => None,
            },
            NumberRange::Range(a, b) => match (
                self.eval_number(p, a, fuel),
                self.eval_number(p, b, fuel),
            ) {
                (Some(x), Some(y)) => Some(NumberRange::Range(x as i32, y as i32)),
                _ => None,
            },
            NumberRange::AnyNumber => Some(NumberRange::AnyNumber),
        }
    }

    /// Whether `card` satisfies the predicate `s`.
    pub open spec fn eval_name(
        self,
        p: PlayerId,
        s: CardNameSelector,
        card: Card,
        fuel: nat,
    ) -> Option<bool>
        decreases fuel, s, 0int,
    {
        match s {
            CardNameSelector::Name(nm) => Some(card.name@ == nm@),
            CardNameSelector::NameAnd(v) => self.all_names(p, v@, card, fuel),
            CardNameSelector::NameOr(v) => self.any_names(p, v@, card, fuel),
            CardNameSelector::NameNot(b) => match self.eval_name(p, *b, card, fuel) {
                Some(x) => Some(!x),
                None => None,
            },
            CardNameSelector::HasType(t) => Some(card.types@.contains(t)),
            CardNameSelector::Cost(r) => if fuel == 0 {
                None
            } else {
                match (self.eval_range(p, *r, fuel), self.eval_number(p, card.cost, (fuel - 1) as nat)) {
                    (Some(rr), Some(c)) => Some(range_contains(rr, c)),
                    _ => None,
                }
            },
            CardNameSelector::Any => Some(true),
        }
    }

    /// All of the predicates hold, tried from the first until one fails.
    pub open spec fn all_names(
        self,
        p: PlayerId,
        ss: Seq<CardNameSelector>,
        card: Card,
        fuel: nat,
    ) -> Option<bool>
        decreases fuel, ss, 0int,
    {
        if ss.len() == 0 {
            Some(true)
        } else {
            match self.eval_name(p, ss[0], card, fuel) {
                Some(true) => self.all_names(p, ss.subrange(1, ss.len() as int), card, fuel),
                other => other,
            }
        }
    }

    /// One of the predicates holds, tried from the first until one holds.
    pub open spec fn any_names(
        self,
        p: PlayerId,
        ss: Seq<CardNameSelector>,
        card: Card,
        fuel: nat,
    ) -> Option<bool>
        decreases fuel, ss, 0int,
    {
        if ss.len() == 0 {
            Some(false)
        } else {
            match self.eval_name(p, ss[0], card, fuel) {
                Some(false) => self.any_names(p, ss.subrange(1, ss.len() as int), card, fuel),
                other => other,
            }
        }
    }

    /// The instances of `ids` whose card satisfies `name`, in order.
    pub open spec fn filter_ids(
        self,
        p: PlayerId,
        name: CardNameSelector,
        ids: Seq<CardInstanceId>,
        fuel: nat,
    ) -> Option<Seq<CardInstanceId>>
        decreases fuel, name, ids.len(),
    {
        if ids.len() == 0 {
            Some(seq![])
        } else {
            match (self.filter_ids(p, name, ids.drop_last(), fuel), self.card_of(ids.last())) {
                (Some(kept), Some(card)) => match self.eval_name(p, name, card, fuel) {
                    Some(true) => Some(kept.push(ids.last())),
                    Some(false) => Some(kept),
                    None => None,
                },
                _ => None,
            }
        }
    }

    /// The cards that a selector matches for `p`: its zones in order, each
    /// filtered by its predicate; not deduplicated.
    pub open spec fn eval_selector(self, p: PlayerId, s: CardSelector, fuel: nat) -> Option<
        Seq<CardInstanceId>,
    >
        decreases fuel, s, 0int,
    {
        self.filter_ids(p, s.name, self.zones_ids(p, s.zone@), fuel)
    }
}

impl Game {
    /// The victory points of `ids`, added from the first.
    pub open spec fn sum_vps(self, p: PlayerId, ids: Seq<CardInstanceId>) -> Option<int>
        decreases ids.len(),
    {
        if ids.len() == 0 {
            Some(0)
        } else {
            match (self.sum_vps(p, ids.drop_last()), self.card_of(ids.last())) {
                (Some(t), Some(card)) => match self.eval_number(p, card.vp, self.fuel()) {
                    Some(v) => checked(t + v),
                    None => None,
                },
                _ => None,
            }
        }
    }

    /// The victory points of all the cards of player `p`.
    pub open spec fn total_vp(self, p: PlayerId) -> Option<int> {
        self.sum_vps(p, self.zone_ids(p, Zone::AllMyCards))
    }
}

impl Game {
    /// Whether condition `c` holds for player `p`; `None` where one of its
    /// quantities cannot be evaluated.
    pub open spec fn eval_cond(self, p: PlayerId, c: EffectCond) -> Option<bool>
        decreases c, 0int,
    {
        match c {
            EffectCond::Leq(a, b) => match (
                self.eval_number(p, a, self.fuel()),
                self.eval_number(p, b, self.fuel()),
            ) {
                (Some(x), Some(y)) => Some(x <= y),
                _ => None,
            },
            EffectCond::Geq(a, b) => match (
                self.eval_number(p, a, self.fuel()),
                self.eval_number(p, b, self.fuel()),
            ) {
                (Some(x), Some(y)) => Some(x >= y),
                _ => None,
            },
            EffectCond::Eq(a, b) => match (
                self.eval_number(p, a, self.fuel()),
                self.eval_number(p, b, self.fuel()),
            ) {
                (Some(x), Some(y)) => Some(x == y),
                _ => None,
            },
            EffectCond::CondAnd(v) => self.all_conds(p, v@),
            EffectCond::CondOr(v) => self.any_conds(p, v@),
            EffectCond::CondNot(inner) => match self.eval_cond(p, *inner) {
                Some(x) => Some(!x),
                None => None,
            },
        }
    }

    /// All of the conditions hold, tried from the first until one fails.
    pub open spec fn all_conds(self, p: PlayerId, cs: Seq<EffectCond>) -> Option<bool>
        decreases cs, 0int,
    {
        if cs.len() == 0 {
            Some(true)
        } else {
            match self.eval_cond(p, cs[0]) {
                Some(true) => self.all_conds(p, cs.subrange(1, cs.len() as int)),
                other => other,
            }
        }
    }

    /// One of the conditions holds, tried from the first until one holds.
    pub open spec fn any_conds(self, p: PlayerId, cs: Seq<EffectCond>) -> Option<bool>
        decreases cs, 0int,
    {
        if cs.len() == 0 {
            Some(false)
        } else {
            match self.eval_cond(p, cs[0]) {
                Some(false) => self.any_conds(p, cs.subrange(1, cs.len() as int)),
                other => other,
            }
        }
    }
}

/// `AllMyCards`, resolved for a known player, holds exactly the cards of the
/// player's seven concrete zones: as many as they hold together, each card
/// as often as the zones hold it, none omitted and none added.
pub proof fn law_all_my_cards_union(g: Game, p: PlayerId)
    requires
        g.player_of(p) is Some,
    ensures
        ({
            let pd = g.players@[p.id as int];
            let all = g.zone_ids(p, Zone::AllMyCards);
            &&& all.len() == pd.deck@.len() + pd.hand@.len() + pd.discard@.len() + pd.play@.len()
                + pd.pending@.len() + pd.aside@.len() + pd.revealed@.len()
            &&& all.to_multiset() == pd.deck@.to_multiset().add(pd.hand@.to_multiset()).add(
                pd.discard@.to_multiset(),
            ).add(pd.play@.to_multiset()).add(pd.pending@.to_multiset()).add(
                pd.aside@.to_multiset(),
            ).add(pd.revealed@.to_multiset())
        }),
{
    let pd = g.players@[p.id as int];
    let a1 = pd.deck@ + pd.hand@;
    let a2 = a1 + pd.discard@;
    let a3 = a2 + pd.play@;
    let a4 = a3 + pd.pending@;
    let a5 = a4 + pd.aside@;
    let a6 = a5 + pd.revealed@;
    vstd::seq_lib::lemma_multiset_commutative(pd.deck@, pd.hand@);
    vstd::seq_lib::lemma_multiset_commutative(a1, pd.discard@);
    vstd::seq_lib::lemma_multiset_commutative(a2, pd.play@);
    vstd::seq_lib::lemma_multiset_commutative(a3, pd.pending@);
    vstd::seq_lib::lemma_multiset_commutative(a4, pd.aside@);
    vstd::seq_lib::lemma_multiset_commutative(a5, pd.revealed@);
    assert(g.zone_ids(p, Zone::AllMyCards) == a6);
}

} // verus!

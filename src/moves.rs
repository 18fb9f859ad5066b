use crate::card_instance::{CardAddress, CardInstance, CardInstanceId};
use crate::game::{concrete_zone, Game};
use crate::player::{PlayerData, PlayerId};
use crate::selector::CardNameSelector;
use crate::zone::Zone;
use vstd::prelude::*;

verus! {

/// The container that a destination zone stands for: `DeckTop` is the deck.
pub open spec fn storage_of(z: Zone) -> Zone {
    if z == Zone::DeckTop {
        Zone::Deck
    } else {
        z
    }
}

/// `pd` with concrete zone `z` replaced by `v`.
pub open spec fn with_zone(pd: PlayerData, z: Zone, v: Vec<CardInstanceId>) -> PlayerData {
    match z {
        Zone::Deck => PlayerData { deck: v, ..pd },
        Zone::Hand => PlayerData { hand: v, ..pd },
        Zone::Discard => PlayerData { discard: v, ..pd },
        Zone::Play => PlayerData { play: v, ..pd },
        Zone::Pending => PlayerData { pending: v, ..pd },
        Zone::Aside => PlayerData { aside: v, ..pd },
        Zone::Revealed => PlayerData { revealed: v, ..pd },
        _ => pd,
    }
}

/// The container of concrete zone `z`.
pub open spec fn zone_vec(pd: PlayerData, z: Zone) -> Vec<CardInstanceId> {
    match z {
        Zone::Hand => pd.hand,
        Zone::Discard => pd.discard,
        Zone::Play => pd.play,
        Zone::Pending => pd.pending,
        Zone::Aside => pd.aside,
        Zone::Revealed => pd.revealed,
        _ => pd.deck,
    }
}

pub(crate) fn zone_mut(pd: &mut PlayerData, z: Zone) -> (r: &mut Vec<CardInstanceId>)
    requires
        z.is_concrete(),
    ensures
        *r == zone_vec(*old(pd), z),
        *final(pd) == with_zone(*old(pd), z, *final(r)),
{
    match z {
        Zone::Hand => &mut pd.hand,
        Zone::Discard => &mut pd.discard,
        Zone::Play => &mut pd.play,
        Zone::Pending => &mut pd.pending,
        Zone::Aside => &mut pd.aside,
        Zone::Revealed => &mut pd.revealed,
        _ => &mut pd.deck,
    }
}

/// `s` without its first occurrence of `x` (unchanged where there is none).
pub open spec fn remove_first(s: Seq<CardInstanceId>, x: CardInstanceId) -> Seq<CardInstanceId>
    decreases s.len(),
{
    if s.len() == 0 {
        s
    } else if s[0] == x {
        s.drop_first()
    } else {
        seq![s[0]].add(remove_first(s.drop_first(), x))
    }
}

proof fn lemma_remove_first_at(s: Seq<CardInstanceId>, x: CardInstanceId, i: int)
    requires
        0 <= i <= s.len(),
        forall|j: int| 0 <= j < i ==> s[j] != x,
        i < s.len() ==> s[i] == x,
    ensures
        remove_first(s, x) == if i < s.len() {
            s.remove(i)
        } else {
            s
        },
    decreases i,
{
    if i > 0 {
        lemma_remove_first_at(s.drop_first(), x, i - 1);
        if i < s.len() {
            assert(seq![s[0]].add(s.drop_first().remove(i - 1)) =~= s.remove(i));
        } else {
            assert(seq![s[0]].add(s.drop_first()) =~= s);
        }
    } else if s.len() > 0 {
        assert(s.drop_first() =~= s.remove(0));
    }
}

/// Removes the first occurrence of `id`, if any.
fn remove_id(v: &mut Vec<CardInstanceId>, id: CardInstanceId) -> (found: bool)
    ensures
        found == old(v)@.contains(id),
        final(v)@ == remove_first(old(v)@, id),
{
    let mut i: usize = 0;
    while i < v.len()
        invariant
            i <= v@.len(),
            v@ == old(v)@,
            forall|j: int| 0 <= j < i ==> v@[j] != id,
        decreases v.len() - i,
    {
        if v[i] == id {
            proof {
                lemma_remove_first_at(v@, id, i as int);
                assert(v@.contains(id));
            }
            v.remove(i);
            return true;
        }
        i = i + 1;
    }
    proof {
        lemma_remove_first_at(v@, id, i as int);
        assert(!v@.contains(id));
    }
    false
}

/// `s` without the first occurrence of `x` where `taken` holds.
pub open spec fn taken(s: Seq<CardInstanceId>, x: CardInstanceId, taken: bool) -> Seq<CardInstanceId> {
    if taken {
        remove_first(s, x)
    } else {
        s
    }
}

/// Whether `a` names zone `z` of the player with index `k` (as the place a
/// card is taken from).
pub open spec fn names_zone(a: CardAddress, k: int, z: Zone) -> bool {
    match a {
        CardAddress::PlayerOwned(q, w) => q.id == k && w == z && z.is_concrete(),
        _ => false,
    }
}

/// Card `id` was taken out of the container that address `from` names and
/// put onto the end of zone `to_zone` of the player with index `to_k`
/// (`to_k == -1`: onto the end of the trash); every other container is
/// unchanged and the players keep their names and ids.
pub open spec fn containers_after_move(
    old: Game,
    new: Game,
    id: CardInstanceId,
    from: CardAddress,
    to_k: int,
    to_zone: Zone,
) -> bool {
    &&& new.players@.len() == old.players@.len()
    &&& forall|k: int, z: Zone|
        0 <= k < old.players@.len() && z.is_concrete() ==> #[trigger] concrete_zone(
            new.players@[k],
            z,
        ) == taken(concrete_zone(old.players@[k], z), id, names_zone(from, k, z)) + if k == to_k
            && z == to_zone {
            seq![id]
        } else {
            seq![]
        }
    &&& forall|k: int|
        0 <= k < old.players@.len() ==> (#[trigger] new.players@[k]).id == old.players@[k].id
            && new.players@[k].name == old.players@[k].name
    &&& new.trash@ == taken(old.trash@, id, from is Trash) + if to_k == -1 {
        seq![id]
    } else {
        seq![]
    }
    &&& new.supply@.len() == old.supply@.len()
    &&& forall|i: int|
        0 <= i < old.supply@.len() ==> (#[trigger] new.supply@[i])@ == taken(
            old.supply@[i]@,
            id,
            from matches CardAddress::Supply(p, _) && p == i,
        )
}

/// Everything of `new` but the players, the trash, the supply and the
/// addresses of the instances is as in `old`.
pub open spec fn same_but_places(old: Game, new: Game) -> bool {
    &&& new.turn == old.turn
    &&& new.steps == old.steps
    &&& new.stack@ == old.stack@
    &&& new.catalog@ == old.catalog@
    &&& new.resources == old.resources
    &&& new.players@.len() == old.players@.len()
    &&& new.supply@.len() == old.supply@.len()
    &&& new.instances@.len() == old.instances@.len()
    &&& forall|k: int|
        0 <= k < old.players@.len() ==> (#[trigger] new.players@[k]).id == old.players@[k].id
    &&& forall|k: int|
        0 <= k < old.instances@.len() ==> (#[trigger] new.instances@[k]).card
            == old.instances@[k].card && new.instances@[k].id == old.instances@[k].id
}

impl Game {
    /// Takes instance `id` out of the container that its address names.
    fn detach(&mut self, id: CardInstanceId)
        requires
            id.id < old(self).instances@.len(),
        ensures
            same_but_places(*old(self), *final(self)),
            final(self).instances@ == old(self).instances@,
            containers_after_move(*old(self), *final(self), id, old(self).instances@[id.id as int].address, -2, Zone::Deck),
    {
        match self.instances[id.id].address {
            CardAddress::PlayerOwned(q, z) => {
                if q.id < self.players.len() && z.concrete() {
                    let v = zone_mut(&mut self.players[q.id], z);
                    remove_id(v, id);
                }
            },
            CardAddress::Trash => {
                remove_id(&mut self.trash, id);
            },
            CardAddress::Supply(pile, _) => {
                if pile < self.supply.len() {
                    remove_id(&mut self.supply[pile], id);
                }
            },
        }
    }

    pub(crate) fn set_address(&mut self, id: CardInstanceId, address: CardAddress)
        requires
            id.id < old(self).instances@.len(),
        ensures
            same_but_places(*old(self), *final(self)),
            final(self).players@ == old(self).players@,
            final(self).trash@ == old(self).trash@,
            final(self).supply@ == old(self).supply@,
            final(self).instances@ == old(self).instances@.update(
                id.id as int,
                CardInstance { address, ..old(self).instances@[id.id as int] },
            ),
    {
        let old_instance = self.instances[id.id];
        self.instances.set(
            id.id,
            CardInstance { card: old_instance.card, id: old_instance.id, address },
        );
    }

    /// Moves instance `id` to zone `dest` of player `to`: out of the place
    /// its address names, onto the end of the destination (for `DeckTop`,
    /// the top of the deck), with its address updated. Returns false, and
    /// changes nothing, for an unknown instance or player or a zone that is
    /// no destination.
    pub fn move_card(&mut self, id: CardInstanceId, to: PlayerId, dest: Zone) -> (ok: bool)
        ensures
            ok == (id.id < old(self).instances@.len() && old(self).player_of(to) is Some
                && dest.is_destination()),
            same_but_places(*old(self), *final(self)),
            !ok ==> *final(self) == *old(self),
            ok ==> final(self).instances@[id.id as int].address == CardAddress::PlayerOwned(
                to,
                storage_of(dest),
            ),
            ok ==> concrete_zone(final(self).players@[to.id as int], storage_of(dest)).last()
                == id,
            ok ==> containers_after_move(
                *old(self),
                *final(self),
                id,
                old(self).instances@[id.id as int].address,
                to.id as int,
                storage_of(dest),
            ),
            ok ==> final(self).instances@ == old(self).instances@.update(
                id.id as int,
                CardInstance {
                    address: CardAddress::PlayerOwned(to, storage_of(dest)),
                    ..old(self).instances@[id.id as int]
                },
            ),
            old(self).wf() ==> final(self).wf(),
            forall|k: int|
                0 <= k < old(self).instances@.len() && k != id.id
                    ==> final(self).instances@[k] == old(self).instances@[k],
    {
        if !(id.id < self.instances.len() && to.id < self.players.len()
            && self.players[to.id].id == to) {
            return false;
        }
        let z = match dest {
            Zone::DeckTop => Zone::Deck,
            Zone::Deck => Zone::Deck,
            Zone::Hand => Zone::Hand,
            Zone::Discard => Zone::Discard,
            Zone::Play => Zone::Play,
            Zone::Pending => Zone::Pending,
            Zone::Aside => Zone::Aside,
            Zone::Revealed => Zone::Revealed,
            _ => {
                return false;
            },
        };
        self.detach(id);
        let ghost mid = *self;
        let v = zone_mut(&mut self.players[to.id], z);
        v.push(id);
        proof {
            assert forall|k: int, w: Zone|
                0 <= k < mid.players@.len() && w.is_concrete() implies #[trigger] concrete_zone(
                self.players@[k],
                w,
            ) == concrete_zone(mid.players@[k], w) + if k == to.id && w == z {
                seq![id]
            } else {
                seq![]
            } by {
                if k == to.id && w == z {
                } else {
                    assert(concrete_zone(mid.players@[k], w) + seq![] =~= concrete_zone(mid.players@[k], w));
                }
            }
        }
        self.set_address(id, CardAddress::PlayerOwned(to, z));
        proof {
            if old(self).wf() {
                lemma_move_keeps_wf(*old(self), *self, id, to.id as int, z, CardAddress::PlayerOwned(to, z));
            }
        }
        true
    }

    /// Moves instance `id` to the trash: out of the place its address
    /// names, onto the end of the trash, with its address updated. Returns
    /// false, and changes nothing, for an unknown instance.
    pub fn trash_card(&mut self, id: CardInstanceId) -> (ok: bool)
        ensures
            ok == (id.id < old(self).instances@.len()),
            same_but_places(*old(self), *final(self)),
            !ok ==> *final(self) == *old(self),
            ok ==> final(self).instances@[id.id as int].address == CardAddress::Trash,
            ok ==> final(self).trash@.last() == id,
            ok ==> containers_after_move(
                *old(self),
                *final(self),
                id,
                old(self).instances@[id.id as int].address,
                -1,
                Zone::Deck,
            ),
            ok ==> final(self).instances@ == old(self).instances@.update(
                id.id as int,
                CardInstance { address: CardAddress::Trash, ..old(self).instances@[id.id as int] },
            ),
            old(self).wf() ==> final(self).wf(),
            forall|k: int|
                0 <= k < old(self).instances@.len() && k != id.id
                    ==> final(self).instances@[k] == old(self).instances@[k],
    {
        if id.id >= self.instances.len() {
            return false;
        }
        self.detach(id);
        self.trash.push(id);
        self.set_address(id, CardAddress::Trash);
        proof {
            if old(self).wf() {
                lemma_move_keeps_wf(*old(self), *self, id, -1, Zone::Deck, CardAddress::Trash);
            }
        }
        true
    }
}

/// Whether pile `i` offers a card satisfying `name` to `target`: an empty
/// pile offers none; otherwise its top card is tested (`None` where that
/// fails).
pub open spec fn pile_offers(g: Game, target: PlayerId, name: CardNameSelector, i: int) -> Option<bool> {
    let pile = g.supply@[i]@;
    if pile.len() == 0 {
        Some(false)
    } else {
        match g.card_of(pile.last()) {
            Some(card) => g.eval_name(target, name, card, g.fuel()),
            None => None,
        }
    }
}

/// The piles `0..n` tried in order: `Some(Some(i))` for the first that
/// offers a card, `Some(None)` where none does, `None` where a test fails
/// before a pile offers one.
pub open spec fn scan_piles(g: Game, target: PlayerId, name: CardNameSelector, n: int) -> Option<
    Option<int>,
>
    decreases n,
{
    if n <= 0 {
        Some(None)
    } else {
        match scan_piles(g, target, name, n - 1) {
            Some(None) => match pile_offers(g, target, name, n - 1) {
                Some(true) => Some(Some(n - 1)),
                Some(false) => Some(None),
                None => None,
            },
            other => other,
        }
    }
}

/// The top card of pile `i` has gone onto the end of zone `dest` of
/// `target`, with its address updated; nothing else changed.
pub open spec fn gain_done(old: Game, new: Game, target: PlayerId, i: int, dest: Zone) -> bool {
    let id = old.supply@[i]@.last();
    &&& new.turn == old.turn
    &&& new.stack@ == old.stack@
    &&& new.catalog@ == old.catalog@
    &&& new.resources == old.resources
    &&& new.trash@ == old.trash@
    &&& new.steps == old.steps
    &&& new.supply@.len() == old.supply@.len()
    &&& new.supply@[i]@ == old.supply@[i]@.drop_last()
    &&& forall|j: int| 0 <= j < old.supply@.len() && j != i ==> #[trigger] new.supply@[j] == old.supply@[j]
    &&& new.players@.len() == old.players@.len()
    &&& forall|k: int| 0 <= k < old.players@.len() && k != target.id ==> #[trigger] new.players@[k] == old.players@[k]
    &&& new.players@[target.id as int].id == old.players@[target.id as int].id
    &&& new.players@[target.id as int].name == old.players@[target.id as int].name
    &&& forall|z: Zone| z.is_concrete() ==> #[trigger] concrete_zone(new.players@[target.id as int], z)
        == if z == dest {
        concrete_zone(old.players@[target.id as int], z).push(id)
    } else {
        concrete_zone(old.players@[target.id as int], z)
    }
    &&& new.instances@ == old.instances@.update(
        id.id as int,
        CardInstance { address: CardAddress::PlayerOwned(target, dest), ..old.instances@[id.id as int] },
    )
}

impl Game {
    /// Gains a card for `target` from the first supply pile, in pile order,
    /// whose top card satisfies `name`: the top instance of that pile goes
    /// onto the end of zone `dest` of `target`, with its address updated.
    /// `Some(false)`, with nothing changed, where no pile offers such a
    /// card; `None`, with nothing changed, where the predicate cannot be
    /// evaluated on a top card tried before a pile offers one.
    pub fn gain_card(&mut self, target: PlayerId, name: &CardNameSelector, dest: Zone) -> (r:
        Option<bool>)
        requires
            old(self).player_of(target) is Some,
            dest.is_concrete(),
        ensures
            match scan_piles(*old(self), target, *name, old(self).supply@.len() as int) {
                None => r is None && *final(self) == *old(self),
                Some(None) => r == Some(false) && *final(self) == *old(self),
                Some(Some(i)) => r == Some(true) && gain_done(*old(self), *final(self), target, i, dest),
            },
            old(self).wf() ==> final(self).wf(),
    {
        let mut i: usize = 0;
        while i < self.supply.len()
            invariant
                i <= self.supply@.len(),
                *self == *old(self),
                self.player_of(target) is Some,
                dest.is_concrete(),
                scan_piles(*self, target, *name, i as int) == Some(None::<int>),
            decreases self.supply.len() - i,
        {
            let n = self.supply[i].len();
            if n > 0 {
                let id = self.supply[i][n - 1];
                let card = match self.card_ref(id) {
                    Some(c) => c,
                    None => {
                        proof {
                            lemma_scan_stops(*self, target, *name, i as int + 1, self.supply@.len() as int);
                        }
                        return None;
                    },
                };
                match self.resolve_name(target, name, card) {
                    None => {
                        proof {
                            lemma_scan_stops(*self, target, *name, i as int + 1, self.supply@.len() as int);
                        }
                        return None;
                    },
                    Some(false) => {},
                    Some(true) => {
                        proof {
                            assert(self.supply@[i as int]@.last() == id);
                            assert(pile_offers(*self, target, *name, i as int) == Some(true));
                            assert(scan_piles(*self, target, *name, i + 1) == Some(Some(i as int)));
                            lemma_scan_stops(*self, target, *name, i as int + 1, self.supply@.len() as int);
                        }
                        let ghost before = *self;
                        self.supply[i].pop();
                        let v = zone_mut(&mut self.players[target.id], dest);
                        v.push(id);
                        self.set_address(id, CardAddress::PlayerOwned(target, dest));
                        proof {
                            assert(self.supply@[i as int]@ =~= before.supply@[i as int]@.drop_last());
                            assert forall|z: Zone| z.is_concrete() implies #[trigger] concrete_zone(
                                self.players@[target.id as int],
                                z,
                            ) == if z == dest {
                                concrete_zone(before.players@[target.id as int], z).push(id)
                            } else {
                                concrete_zone(before.players@[target.id as int], z)
                            } by {}
                            assert(self.supply@.len() == before.supply@.len());
                            assert(forall|j: int| 0 <= j < before.supply@.len() && j != i ==> #[trigger] self.supply@[j] == before.supply@[j]);
                            assert(self.instances@ == before.instances@.update(
                                id.id as int,
                                CardInstance { address: CardAddress::PlayerOwned(target, dest), ..before.instances@[id.id as int] },
                            ));
                            assert(gain_done(before, *self, target, i as int, dest));
                            if before.wf() {
                                let pile = before.supply@[i as int]@;
                                assert(pile.no_duplicates());
                                lemma_remove_first_at(pile, id, (pile.len() - 1) as int);
                                assert(pile.remove(pile.len() - 1) =~= pile.drop_last());
                                assert(pile.contains(id));
                                assert(before.instances@[id.id as int].address matches CardAddress::Supply(p, _) && p == i);
                                let from = before.instances@[id.id as int].address;
                                assert forall|k: int, z: Zone|
                                    0 <= k < before.players@.len() && z.is_concrete() implies #[trigger] concrete_zone(
                                    self.players@[k],
                                    z,
                                ) == taken(concrete_zone(before.players@[k], z), id, names_zone(from, k, z)) + if k == target.id
                                    && z == dest {
                                    seq![id]
                                } else {
                                    seq![]
                                } by {
                                    if k == target.id && z == dest {
                                    } else {
                                        assert(concrete_zone(before.players@[k], z) + seq![] =~= concrete_zone(before.players@[k], z));
                                    }
                                }
                                assert(self.trash@ =~= taken(before.trash@, id, from is Trash) + seq![]);
                                assert(containers_after_move(before, *self, id, from, target.id as int, dest));
                                assert(before.players@[target.id as int].id == target);
                                lemma_move_keeps_wf(before, *self, id, target.id as int, dest, CardAddress::PlayerOwned(target, dest));
                            }
                        }
                        return Some(true);
                    },
                }
            }
            i = i + 1;
        }
        Some(false)
    }
}

/// Once the scan of the first `n` piles has settled (found a pile or
/// failed), scanning more piles settles it the same way.
proof fn lemma_scan_stops(g: Game, target: PlayerId, name: CardNameSelector, n: int, m: int)
    requires
        0 <= n <= m,
        scan_piles(g, target, name, n) != Some(None::<int>),
    ensures
        scan_piles(g, target, name, m) == scan_piles(g, target, name, n),
    decreases m - n,
{
    if m > n {
        lemma_scan_stops(g, target, name, n, m - 1);
    }
}


/// Whether `a` is a slot of pile `i`.
pub open spec fn in_pile(a: CardAddress, i: int) -> bool {
    a matches CardAddress::Supply(p, _) && p == i
}

/// Whether the container that address `a` names holds `id`.
pub open spec fn holds(g: Game, a: CardAddress, id: CardInstanceId) -> bool {
    match a {
        CardAddress::PlayerOwned(q, z) => q.id < g.players@.len() && z.is_concrete()
            && concrete_zone(g.players@[q.id as int], z).contains(id),
        CardAddress::Trash => g.trash@.contains(id),
        CardAddress::Supply(p, _) => p < g.supply@.len() && g.supply@[p as int]@.contains(id),
    }
}

impl Game {
    /// The placement invariant: players and card copies are numbered by
    /// their index; every container holds each card at most once, and only
    /// cards whose address names that container; and every card is held by
    /// the container its address names. So every card is in exactly one
    /// place, the one its address gives.
    pub open spec fn wf(self) -> bool {
        &&& forall|k: int| 0 <= k < self.players@.len() ==> (#[trigger] self.players@[k]).id.id == k
        &&& forall|k: int| 0 <= k < self.instances@.len() ==> (#[trigger] self.instances@[k]).id.id == k
        &&& forall|k: int, z: Zone|
            0 <= k < self.players@.len() && z.is_concrete() ==> {
                let c = #[trigger] concrete_zone(self.players@[k], z);
                &&& c.no_duplicates()
                &&& forall|y: CardInstanceId|
                    c.contains(y) ==> y.id < self.instances@.len() && #[trigger] self.instances@[y.id as int].address
                        == CardAddress::PlayerOwned(self.players@[k].id, z)
            }
        &&& self.trash@.no_duplicates()
        &&& forall|y: CardInstanceId|
            self.trash@.contains(y) ==> y.id < self.instances@.len() && #[trigger] self.instances@[y.id as int].address
                == CardAddress::Trash
        &&& forall|i: int|
            0 <= i < self.supply@.len() ==> {
                let c = (#[trigger] self.supply@[i])@;
                &&& c.no_duplicates()
                &&& forall|y: CardInstanceId|
                    c.contains(y) ==> y.id < self.instances@.len() && in_pile(#[trigger] self.instances@[y.id as int].address, i)
            }
        &&& forall|k: int|
            0 <= k < self.instances@.len() ==> holds(self, (#[trigger] self.instances@[k]).address, self.instances@[k].id)
    }
}

proof fn lemma_remove_first(s: Seq<CardInstanceId>, x: CardInstanceId)
    ensures
        forall|y: CardInstanceId| remove_first(s, x).contains(y) ==> s.contains(y),
        forall|y: CardInstanceId| y != x && s.contains(y) ==> remove_first(s, x).contains(y),
        s.no_duplicates() ==> remove_first(s, x).no_duplicates() && !remove_first(s, x).contains(x),
    decreases s.len(),
{
    if s.len() > 0 {
        lemma_remove_first(s.drop_first(), x);
        let r = remove_first(s, x);
        let t = s.drop_first();
        assert forall|y: CardInstanceId| r.contains(y) implies s.contains(y) by {
            let j = choose|j: int| 0 <= j < r.len() && r[j] == y;
            if s[0] == x {
                assert(s[j + 1] == y);
            } else if j == 0 {
                assert(s[0] == y);
            } else {
                let rt = remove_first(t, x);
                assert(r == seq![s[0]] + rt);
                assert(r[j] == rt[j - 1]);
                assert(rt.contains(y));
                assert(t.contains(y));
                let m = choose|m: int| 0 <= m < t.len() && t[m] == y;
                assert(s[m + 1] == y);
            }
        }
        assert forall|y: CardInstanceId| y != x && s.contains(y) implies r.contains(y) by {
            let j = choose|j: int| 0 <= j < s.len() && s[j] == y;
            if s[0] == x {
                assert(j > 0);
                assert(r[j - 1] == y);
            } else if j == 0 {
                assert(r[0] == y);
            } else {
                assert(t[j - 1] == y);
                assert(t.contains(y));
                assert(remove_first(t, x).contains(y));
                let m = choose|m: int| 0 <= m < remove_first(t, x).len() && remove_first(t, x)[m] == y;
                assert(r[m + 1] == y);
            }
        }
        if s.no_duplicates() {
            assert(t.no_duplicates());
            if s[0] == x {
                assert forall|y: CardInstanceId| r.contains(y) implies y != x by {
                    let j = choose|j: int| 0 <= j < r.len() && r[j] == y;
                    assert(s[j + 1] == y);
                }
            } else {
                assert(!remove_first(t, x).contains(s[0])) by {
                    if remove_first(t, x).contains(s[0]) {
                        assert(t.contains(s[0]));
                        let m = choose|m: int| 0 <= m < t.len() && t[m] == s[0];
                        assert(s[m + 1] == s[0]);
                    }
                }
                assert forall|a: int, b: int| 0 <= a < r.len() && 0 <= b < r.len() && a != b implies r[a] != r[b] by {
                    if a == 0 {
                        assert(remove_first(t, x).contains(r[b]));
                    } else if b == 0 {
                        assert(remove_first(t, x).contains(r[a]));
                    } else {
                        assert(r[a] == remove_first(t, x)[a - 1]);
                        assert(r[b] == remove_first(t, x)[b - 1]);
                    }
                }
                assert(!r.contains(x)) by {
                    if r.contains(x) {
                        let j = choose|j: int| 0 <= j < r.len() && r[j] == x;
                        if j > 0 {
                            assert(remove_first(t, x)[j - 1] == x);
                            assert(remove_first(t, x).contains(x));
                        }
                    }
                }
            }
        }
    }
}

/// Moving a card as `containers_after_move` describes, with its address
/// set to `to_addr` (which names the destination), keeps the placement
/// invariant.
proof fn lemma_move_keeps_wf(
    old: Game,
    new: Game,
    id: CardInstanceId,
    to_k: int,
    to_zone: Zone,
    to_addr: CardAddress,
)
    requires
        old.wf(),
        id.id < old.instances@.len(),
        containers_after_move(old, new, id, old.instances@[id.id as int].address, to_k, to_zone),
        new.instances@ == old.instances@.update(
            id.id as int,
            CardInstance { address: to_addr, ..old.instances@[id.id as int] },
        ),
        to_k == -1 ==> to_addr == CardAddress::Trash,
        to_k != -1 ==> 0 <= to_k < old.players@.len() && to_zone.is_concrete()
            && to_addr == CardAddress::PlayerOwned(old.players@[to_k].id, to_zone),
    ensures
        new.wf(),
{
    let from = old.instances@[id.id as int].address;
    assert(old.instances@[id.id as int].id == id);
    // every container other than the source does not hold `id`
    assert forall|k: int, z: Zone|
        0 <= k < old.players@.len() && z.is_concrete() && !names_zone(from, k, z) implies !#[trigger] concrete_zone(
        old.players@[k],
        z,
    ).contains(id) by {
        if concrete_zone(old.players@[k], z).contains(id) {
            assert(old.instances@[id.id as int].address == CardAddress::PlayerOwned(old.players@[k].id, z));
        }
    }
    assert(!(from is Trash) ==> !old.trash@.contains(id));
    assert forall|i: int|
        0 <= i < old.supply@.len() && !(from matches CardAddress::Supply(p, _) && p == i) implies !(#[trigger] old.supply@[i])@.contains(id) by {
        if old.supply@[i]@.contains(id) {
            let c = old.supply@[i]@;
            assert(c.contains(id));
        }
    }
    // zones
    assert forall|k: int, z: Zone| 0 <= k < new.players@.len() && z.is_concrete() implies {
        let c = #[trigger] concrete_zone(new.players@[k], z);
        &&& c.no_duplicates()
        &&& forall|y: CardInstanceId|
            c.contains(y) ==> y.id < new.instances@.len() && #[trigger] new.instances@[y.id as int].address
                == CardAddress::PlayerOwned(new.players@[k].id, z)
    } by {
        let oc = concrete_zone(old.players@[k], z);
        let src = names_zone(from, k, z);
        let t = taken(oc, id, src);
        lemma_remove_first(oc, id);
        assert(!t.contains(id));
        let c = concrete_zone(new.players@[k], z);
        assert(t.no_duplicates());
        if k == to_k && z == to_zone {
            assert(c == t.push(id));
            assert forall|a: int, b: int| 0 <= a < c.len() && 0 <= b < c.len() && a != b implies c[a] != c[b] by {
                if a == c.len() - 1 {
                    assert(t.contains(c[b]));
                } else if b == c.len() - 1 {
                    assert(t.contains(c[a]));
                }
            }
        } else {
            assert(c =~= t);
        }
        assert forall|y: CardInstanceId| c.contains(y) implies y.id < new.instances@.len() && #[trigger] new.instances@[y.id as int].address
            == CardAddress::PlayerOwned(new.players@[k].id, z) by {
            if y == id {
                assert(k == to_k && z == to_zone) by {
                    if !(k == to_k && z == to_zone) {
                        assert(c =~= t);
                    }
                }
            } else {
                assert(t.contains(y)) by {
                    if k == to_k && z == to_zone {
                        let j = choose|j: int| 0 <= j < c.len() && c[j] == y;
                        assert(j < t.len());
                        assert(t[j] == y);
                    }
                }
                assert(oc.contains(y));
                assert(old.instances@[y.id as int].id == y) by {
                    assert(old.instances@[y.id as int].address == CardAddress::PlayerOwned(old.players@[k].id, z));
                }
                assert(y.id != id.id);
            }
        }
    }
    // trash
    {
        let t = taken(old.trash@, id, from is Trash);
        lemma_remove_first(old.trash@, id);
        assert(!t.contains(id));
        assert(new.trash@.no_duplicates()) by {
            if to_k == -1 {
                let c = new.trash@;
                assert(c == t.push(id));
                assert forall|a: int, b: int| 0 <= a < c.len() && 0 <= b < c.len() && a != b implies c[a] != c[b] by {
                    if a == c.len() - 1 {
                        assert(t.contains(c[b]));
                    } else if b == c.len() - 1 {
                        assert(t.contains(c[a]));
                    }
                }
            } else {
                assert(new.trash@ =~= t);
            }
        }
        assert forall|y: CardInstanceId| new.trash@.contains(y) implies y.id < new.instances@.len() && #[trigger] new.instances@[y.id as int].address
            == CardAddress::Trash by {
            if y != id {
                assert(t.contains(y)) by {
                    if to_k == -1 {
                        let j = choose|j: int| 0 <= j < new.trash@.len() && new.trash@[j] == y;
                        assert(t[j] == y);
                    } else {
                        assert(new.trash@ =~= t);
                    }
                }
                assert(old.trash@.contains(y));
                assert(old.instances@[y.id as int].id == y);
            } else {
                if to_k != -1 {
                    assert(new.trash@ =~= t);
                }
            }
        }
    }
    // piles
    assert forall|i: int| 0 <= i < new.supply@.len() implies {
        let c = (#[trigger] new.supply@[i])@;
        &&& c.no_duplicates()
        &&& forall|y: CardInstanceId|
            c.contains(y) ==> y.id < new.instances@.len() && in_pile(#[trigger] new.instances@[y.id as int].address, i)
    } by {
        let oc = old.supply@[i]@;
        lemma_remove_first(oc, id);
        let c = new.supply@[i]@;
        assert forall|y: CardInstanceId| c.contains(y) implies y.id < new.instances@.len() && in_pile(#[trigger] new.instances@[y.id as int].address, i) by {
            assert(oc.contains(y));
            assert(old.instances@[y.id as int].id == y);
        }
    }
    // every card is held where its address says
    assert forall|k: int| 0 <= k < new.instances@.len() implies holds(new, (#[trigger] new.instances@[k]).address, new.instances@[k].id) by {
        if k == id.id {
            if to_k == -1 {
                assert(new.trash@.last() == id);
            } else {
                assert(concrete_zone(new.players@[to_k], to_zone).last() == id);
                assert(new.players@[to_k].id == old.players@[to_k].id);
                assert(old.players@[to_k].id.id == to_k);
            }
        } else {
            let y = old.instances@[k].id;
            assert(y.id == k);
            assert(y != id);
            lemma_remove_first(old.trash@, id);
            match old.instances@[k].address {
                CardAddress::PlayerOwned(q, z) => {
                    lemma_remove_first(concrete_zone(old.players@[q.id as int], z), id);
                    let c = concrete_zone(new.players@[q.id as int], z);
                    let t = taken(concrete_zone(old.players@[q.id as int], z), id, names_zone(from, q.id as int, z));
                    assert(t.contains(y));
                    if q.id as int == to_k && z == to_zone {
                        assert(c[t.len() - 1 + 0] == c[t.len() - 1]);
                        let j = choose|j: int| 0 <= j < t.len() && t[j] == y;
                        assert(c[j] == y);
                    } else {
                        assert(c =~= t);
                    }
                },
                CardAddress::Trash => {
                    let t = taken(old.trash@, id, from is Trash);
                    assert(t.contains(y));
                    if to_k == -1 {
                        let j = choose|j: int| 0 <= j < t.len() && t[j] == y;
                        assert(new.trash@[j] == y);
                    } else {
                        assert(new.trash@ =~= t);
                    }
                },
                CardAddress::Supply(p, _) => {
                    lemma_remove_first(old.supply@[p as int]@, id);
                },
            }
        }
    }
}

} // verus!

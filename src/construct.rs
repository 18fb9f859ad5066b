use crate::card::Card;
use crate::card_instance::{CardAddress, CardInstance, CardInstanceId};
use crate::game::{concrete_zone, Game, TurnResources};
use crate::moves::{holds, in_pile};
use crate::player::{PlayerData, PlayerId};
use crate::zone::Zone;
use vstd::prelude::*;

verus! {

impl Game {
    /// A game with no players, cards, piles or frames, and zero counters.
    pub fn new() -> (r: Game)
        ensures
            r.players@.len() == 0,
            r.supply@.len() == 0,
            r.trash@.len() == 0,
            r.stack@.len() == 0,
            r.catalog@.len() == 0,
            r.instances@.len() == 0,
            r.turn == 0,
            r.steps == 0,
            r.resources == (TurnResources { draws: 0, actions: 0, buys: 0, coins: 0 }),
            r.wf(),
    {
        Game {
            players: Vec::new(),
            supply: Vec::new(),
            trash: Vec::new(),
            turn: 0,
            stack: Vec::new(),
            catalog: Vec::new(),
            instances: Vec::new(),
            resources: TurnResources { draws: 0, actions: 0, buys: 0, coins: 0 },
            steps: 0,
        }
    }

    /// Adds a player with empty zones; their id is their index.
    pub fn add_player(&mut self, name: &str) -> (r: PlayerId)
        ensures
            r.id == old(self).players@.len(),
            final(self).players@.len() == old(self).players@.len() + 1,
            final(self).players@.drop_last() == old(self).players@,
            final(self).player_of(r) is Some,
            final(self).players@.last().deck@.len() == 0,
            final(self).players@.last().hand@.len() == 0,
            final(self).players@.last().discard@.len() == 0,
            final(self).players@.last().play@.len() == 0,
            final(self).players@.last().pending@.len() == 0,
            final(self).players@.last().aside@.len() == 0,
            final(self).players@.last().revealed@.len() == 0,
            final(self).players@.last().name@ == name@,
            final(self).trash == old(self).trash,
            final(self).stack == old(self).stack,
            final(self).catalog == old(self).catalog,
            final(self).instances == old(self).instances,
            final(self).supply == old(self).supply,
            old(self).wf() ==> final(self).wf(),
    {
        let id = PlayerId::new(self.players.len());
        self.players.push(PlayerData::new(id, name));
        proof {
            assert(self.players@.drop_last() =~= old(self).players@);
        }
        id
    }

    /// Adds a card to the catalog; returns its index.
    pub fn add_card(&mut self, card: Card) -> (r: usize)
        ensures
            r == old(self).catalog@.len(),
            final(self).catalog@ == old(self).catalog@.push(card),
            final(self).players == old(self).players,
            final(self).stack == old(self).stack,
            final(self).instances == old(self).instances,
            final(self).supply == old(self).supply,
            old(self).wf() ==> final(self).wf(),
    {
        let r = self.catalog.len();
        self.catalog.push(card);
        r
    }

    /// Creates a copy of catalog card `card` at the end of zone `zone` of
    /// `player`. `None`, with nothing changed, for an unknown card or player
    /// or a zone that is not a container.
    pub fn add_instance(&mut self, card: usize, player: PlayerId, zone: Zone) -> (r: Option<
        CardInstanceId,
    >)
        ensures
            r is None <==> !(card < old(self).catalog@.len() && old(self).player_of(player) is Some
                && zone.is_concrete()),
            r is None ==> *final(self) == *old(self),
            r matches Some(id) ==> {
                &&& id.id == old(self).instances@.len()
                &&& final(self).instances@ == old(self).instances@.push(
                    CardInstance { card, id, address: CardAddress::PlayerOwned(player, zone) },
                )
                &&& concrete_zone(final(self).players@[player.id as int], zone) == concrete_zone(
                    old(self).players@[player.id as int],
                    zone,
                ).push(id)
                &&& final(self).card_of(id) == Some(old(self).catalog@[card as int])
                &&& final(self).players@.len() == old(self).players@.len()
                &&& forall|k: int| 0 <= k < old(self).players@.len() && k != player.id ==> #[trigger] final(self).players@[k] == old(self).players@[k]
                &&& forall|w: Zone| w.is_concrete() && w != zone ==> #[trigger] concrete_zone(final(self).players@[player.id as int], w) == concrete_zone(old(self).players@[player.id as int], w)
                &&& final(self).players@[player.id as int].id == old(self).players@[player.id as int].id
                &&& final(self).supply == old(self).supply
                &&& final(self).trash == old(self).trash
                &&& final(self).stack == old(self).stack
                &&& final(self).catalog == old(self).catalog
            },
            old(self).wf() ==> final(self).wf(),
    {
        if !(card < self.catalog.len() && player.id < self.players.len()
            && self.players[player.id].id == player && zone.concrete()) {
            return None;
        }
        let id = CardInstanceId::new(self.instances.len());
        self.instances.push(
            CardInstance { card, id, address: CardAddress::PlayerOwned(player, zone) },
        );
        let pd = &mut self.players[player.id];
        match zone {
            Zone::Deck => pd.deck.push(id),
            Zone::Hand => pd.hand.push(id),
            Zone::Discard => pd.discard.push(id),
            Zone::Play => pd.play.push(id),
            Zone::Pending => pd.pending.push(id),
            Zone::Aside => pd.aside.push(id),
            _ => pd.revealed.push(id),
        }
        proof {
            let o = *old(self);
            let n = o.instances@.len();
            if o.wf() {
                assert forall|k: int, z: Zone| 0 <= k < self.players@.len() && z.is_concrete() implies {
                    let c = #[trigger] concrete_zone(self.players@[k], z);
                    &&& c.no_duplicates()
                    &&& forall|y: CardInstanceId|
                        c.contains(y) ==> y.id < self.instances@.len() && #[trigger] self.instances@[y.id as int].address
                            == CardAddress::PlayerOwned(self.players@[k].id, z)
                } by {
                    let oc = concrete_zone(o.players@[k], z);
                    let c = concrete_zone(self.players@[k], z);
                    assert(self.players@.len() == o.players@.len());
                    assert(oc.no_duplicates());
                    assert forall|y: CardInstanceId| oc.contains(y) implies y.id < n && self.instances@[y.id as int] == o.instances@[y.id as int] by {
                        assert(o.instances@[y.id as int].address == CardAddress::PlayerOwned(o.players@[k].id, z));
                    }
                    if k == player.id && z == zone {
                        assert(c == oc.push(id));
                        assert(!oc.contains(id));
                        assert forall|a: int, b: int| 0 <= a < c.len() && 0 <= b < c.len() && a != b implies c[a] != c[b] by {
                            if a == c.len() - 1 {
                                assert(oc.contains(c[b]));
                            } else if b == c.len() - 1 {
                                assert(oc.contains(c[a]));
                            }
                        }
                        assert forall|y: CardInstanceId| c.contains(y) implies y.id < self.instances@.len() && #[trigger] self.instances@[y.id as int].address
                            == CardAddress::PlayerOwned(self.players@[k].id, z) by {
                            if y != id {
                                let j = choose|j: int| 0 <= j < c.len() && c[j] == y;
                                assert(oc[j] == y);
                                assert(oc.contains(y));
                            }
                        }
                    } else {
                        assert(c == oc);
                    }
                }
                assert forall|i: int| 0 <= i < self.supply@.len() implies {
                    let c = (#[trigger] self.supply@[i])@;
                    &&& c.no_duplicates()
                    &&& forall|y: CardInstanceId|
                        c.contains(y) ==> y.id < self.instances@.len() && in_pile(#[trigger] self.instances@[y.id as int].address, i)
                } by {
                    let c = self.supply@[i]@;
                    assert(c == (o.supply@[i])@);
                    assert forall|y: CardInstanceId| c.contains(y) implies y.id < self.instances@.len() && in_pile(#[trigger] self.instances@[y.id as int].address, i) by {
                        assert(in_pile(o.instances@[y.id as int].address, i));
                        assert(self.instances@[y.id as int] == o.instances@[y.id as int]);
                    }
                }
                assert forall|k: int| 0 <= k < self.players@.len() implies (#[trigger] self.players@[k]).id.id == k by {
                    assert(self.players@[k].id == o.players@[k].id);
                }
                assert forall|k: int| 0 <= k < self.instances@.len() implies (#[trigger] self.instances@[k]).id.id == k by {
                    if k < n {
                        assert(self.instances@[k] == o.instances@[k]);
                    }
                }
                assert forall|y: CardInstanceId| self.trash@.contains(y) implies y.id < self.instances@.len() && #[trigger] self.instances@[y.id as int].address
                    == CardAddress::Trash by {
                    assert(o.trash@.contains(y));
                    assert(self.instances@[y.id as int] == o.instances@[y.id as int]);
                }
                assert forall|k: int| 0 <= k < self.instances@.len() implies holds(*self, (#[trigger] self.instances@[k]).address, self.instances@[k].id) by {
                    if k < n {
                        assert(self.instances@[k] == o.instances@[k]);
                        assert(holds(o, o.instances@[k].address, o.instances@[k].id));
                        match o.instances@[k].address {
                            CardAddress::PlayerOwned(q, z) => {
                                let oc = concrete_zone(o.players@[q.id as int], z);
                                let c = concrete_zone(self.players@[q.id as int], z);
                                let y = o.instances@[k].id;
                                assert(oc.contains(y));
                                if q.id == player.id && z == zone {
                                    let j = choose|j: int| 0 <= j < oc.len() && oc[j] == y;
                                    assert(c[j] == y);
                                } else {
                                    assert(c == oc);
                                }
                            },
                            _ => {},
                        }
                    } else {
                        assert(concrete_zone(self.players@[player.id as int], zone).last() == id);
                    }
                }
                assert(self.wf());
            }
        }
        Some(id)
    }

    /// Adds a supply pile of `count` fresh copies of catalog card `card`;
    /// returns the pile's index. `None`, with nothing changed, for an
    /// unknown card.
    pub fn add_supply_pile(&mut self, card: usize, count: usize) -> (r: Option<usize>)
        ensures
            r is None <==> card >= old(self).catalog@.len(),
            r is None ==> *final(self) == *old(self),
            r matches Some(i) ==> {
                &&& i == old(self).supply@.len()
                &&& final(self).supply@ == old(self).supply@.push(final(self).supply@[i as int])
                &&& final(self).supply@[i as int]@.len() == count
                &&& final(self).instances@.len() == old(self).instances@.len() + count
                &&& final(self).instances@.take(old(self).instances@.len() as int) == old(self).instances@
                &&& forall|k: int| 0 <= k < count ==> {
                    let id = #[trigger] final(self).supply@[i as int]@[k];
                    &&& id.id == old(self).instances@.len() + k
                    &&& final(self).instances@[id.id as int] == (CardInstance {
                        card,
                        id,
                        address: CardAddress::Supply(i, k as usize),
                    })
                }
                &&& final(self).players == old(self).players
                &&& final(self).catalog == old(self).catalog
                &&& final(self).stack == old(self).stack
            },
            old(self).wf() ==> final(self).wf(),
    {
        if card >= self.catalog.len() {
            return None;
        }
        let pile_index = self.supply.len();
        let mut pile: Vec<CardInstanceId> = Vec::new();
        let mut k: usize = 0;
        let ghost start = self.instances@.len();
        while k < count
            invariant
                k <= count,
                pile@.len() == k,
                self.instances@.len() == start + k,
                start == old(self).instances@.len(),
                self.supply == old(self).supply,
                self.catalog == old(self).catalog,
                self.players == old(self).players,
                self.stack == old(self).stack,
                self.trash == old(self).trash,
                pile_index == old(self).supply@.len(),
                self.instances@.take(start as int) == old(self).instances@,
                forall|m: int| 0 <= m < k ==> {
                    let id = #[trigger] pile@[m];
                    &&& id.id == start + m
                    &&& self.instances@[id.id as int] == (CardInstance {
                        card,
                        id,
                        address: CardAddress::Supply(pile_index, m as usize),
                    })
                },
            decreases count - k,
        {
            let id = CardInstanceId::new(self.instances.len());
            self.instances.push(
                CardInstance { card, id, address: CardAddress::Supply(pile_index, k) },
            );
            pile.push(id);
            proof {
                assert(self.instances@.take(start as int) =~= old(self).instances@);
            }
            k = k + 1;
        }
        self.supply.push(pile);
        proof {
            assert(self.supply@ =~= old(self).supply@.push(self.supply@[pile_index as int]));
            let o = *old(self);
            let c = self.supply@[pile_index as int]@;
            assert(c == pile@);
            if o.wf() {
                assert forall|y: CardInstanceId| #[trigger] c.contains(y) implies start <= y.id < self.instances@.len()
                    && self.instances@[y.id as int].address == CardAddress::Supply(pile_index, (y.id - start) as usize) by {
                    let m = choose|m: int| 0 <= m < c.len() && c[m] == y;
                    assert(pile@[m] == y);
                }
                assert(c.no_duplicates()) by {
                    assert forall|a: int, b: int| 0 <= a < c.len() && 0 <= b < c.len() && a != b implies c[a] != c[b] by {
                        assert(pile@[a].id == start + a);
                        assert(pile@[b].id == start + b);
                    }
                }
                assert forall|k: int| 0 <= k < start implies #[trigger] self.instances@[k] == o.instances@[k] by {
                    assert(self.instances@.take(start as int)[k] == self.instances@[k]);
                }
                assert forall|k: int, z: Zone| 0 <= k < self.players@.len() && z.is_concrete() implies {
                    let c = #[trigger] concrete_zone(self.players@[k], z);
                    &&& c.no_duplicates()
                    &&& forall|y: CardInstanceId|
                        c.contains(y) ==> y.id < self.instances@.len() && #[trigger] self.instances@[y.id as int].address
                            == CardAddress::PlayerOwned(self.players@[k].id, z)
                } by {
                    let oc = concrete_zone(o.players@[k], z);
                    assert forall|y: CardInstanceId| oc.contains(y) implies y.id < start && self.instances@[y.id as int] == o.instances@[y.id as int] by {
                        assert(o.instances@[y.id as int].address == CardAddress::PlayerOwned(o.players@[k].id, z));
                    }
                }
                assert forall|y: CardInstanceId| self.trash@.contains(y) implies y.id < self.instances@.len() && #[trigger] self.instances@[y.id as int].address
                    == CardAddress::Trash by {
                    assert(o.trash@.contains(y));
                    assert(self.instances@[y.id as int] == o.instances@[y.id as int]);
                }
                assert forall|i: int| 0 <= i < self.supply@.len() implies {
                    let c = (#[trigger] self.supply@[i])@;
                    &&& c.no_duplicates()
                    &&& forall|y: CardInstanceId|
                        c.contains(y) ==> y.id < self.instances@.len() && in_pile(#[trigger] self.instances@[y.id as int].address, i)
                } by {
                    if i < o.supply@.len() {
                        let c = self.supply@[i]@;
                        assert(c == (o.supply@[i])@);
                        assert forall|y: CardInstanceId| c.contains(y) implies y.id < self.instances@.len() && in_pile(#[trigger] self.instances@[y.id as int].address, i) by {
                            assert(in_pile(o.instances@[y.id as int].address, i));
                            assert(self.instances@[y.id as int] == o.instances@[y.id as int]);
                        }
                    }
                }
                assert forall|k: int| 0 <= k < self.instances@.len() implies (#[trigger] self.instances@[k]).id.id == k
                    && holds(*self, self.instances@[k].address, self.instances@[k].id) by {
                    if k < start {
                        assert(self.instances@[k] == o.instances@[k]);
                        assert(holds(o, o.instances@[k].address, o.instances@[k].id));
                        match o.instances@[k].address {
                            CardAddress::Supply(p, _) => {
                                assert(self.supply@[p as int] == o.supply@[p as int]);
                            },
                            _ => {},
                        }
                    } else {
                        let m = k - start;
                        assert(pile@[m].id == start + m);
                        assert(c[m] == pile@[m]);
                    }
                }
                assert(self.wf());
            }
        }
        Some(pile_index)
    }
}

/// A game with two players, Alice (id 0) and Bob (id 1), and nothing else.
pub fn setup() -> (r: Game)
    ensures
        r.players@.len() == 2,
        r.players@[0].id == (PlayerId { id: 0 }),
        r.players@[1].id == (PlayerId { id: 1 }),
        r.player_of((PlayerId { id: 0 })) is Some,
        r.player_of((PlayerId { id: 1 })) is Some,
        forall|k: int, z: Zone| 0 <= k < 2 && z.is_concrete() ==> #[trigger] concrete_zone(r.players@[k], z).len() == 0,
        r.players@[0].name@ == "Alice"@,
        r.players@[1].name@ == "Bob"@,
        r.supply@.len() == 0,
        r.trash@.len() == 0,
        r.stack@.len() == 0,
        r.catalog@.len() == 0,
        r.instances@.len() == 0,
        r.wf(),
{
    let mut g = Game::new();
    g.add_player("Alice");
    let ghost one = g;
    g.add_player("Bob");
    proof {
        assert(g.players@[0] == one.players@[0]);
    }
    g
}

} // verus!

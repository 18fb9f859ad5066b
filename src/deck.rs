use crate::card_instance::CardInstanceId;
use crate::card_instance::CardAddress;
use crate::game::{lists_index, readdressed, same_but_deck_discard, Game};
use crate::resolve::copy_ids;
use crate::zone::Zone;
use crate::player::PlayerId;
use vstd::prelude::*;

verus! {

/// Relies on rand::random_range: a value drawn by the thread-local generator
/// from the inclusive range `0..=hi`, which the value lies in.
#[verifier::external_body]
fn random_at_most(hi: usize) -> (r: usize)
    ensures
        r <= hi,
{
    rand::random_range(0..=hi)
}

/// `s` with the elements at `i` and `j` exchanged.
pub open spec fn swap_at(s: Seq<CardInstanceId>, i: int, j: int) -> Seq<CardInstanceId> {
    s.update(i, s[j]).update(j, s[i])
}

/// Picks for a Fisher–Yates shuffle of `n` cards: one for each position
/// from the last down to the second, the one for position `i` in `0..=i`.
pub open spec fn valid_picks(n: int, picks: Seq<usize>) -> bool {
    &&& picks.len() == if n > 0 {
        n - 1
    } else {
        0
    }
    &&& forall|k: int| 0 <= k < picks.len() ==> picks[k] <= n - 1 - k
}

/// Fisher–Yates from position `i` down to position 1: position `i` is
/// exchanged with `picks[0]`, the next with `picks[1]`, and so on.
pub open spec fn fisher_yates(s: Seq<CardInstanceId>, i: int, picks: Seq<usize>) -> Seq<
    CardInstanceId,
>
    decreases i,
{
    if i < 1 || picks.len() == 0 {
        s
    } else {
        fisher_yates(swap_at(s, i, picks[0] as int), i - 1, picks.drop_first())
    }
}

/// The shuffle of a whole deck by `picks`.
pub open spec fn shuffled(s: Seq<CardInstanceId>, picks: Seq<usize>) -> Seq<CardInstanceId> {
    fisher_yates(s, s.len() - 1, picks)
}

/// The number of cards a draw of `n` takes from a deck and discard of
/// `total` cards: `n` capped at `total`, and none for a negative `n`.
pub open spec fn draw_count(n: int, total: int) -> int {
    if n < 0 {
        0
    } else if n < total {
        n
    } else {
        total
    }
}

proof fn lemma_swap_multiset(s: Seq<CardInstanceId>, i: int, j: int)
    requires
        0 <= i < s.len(),
        0 <= j < s.len(),
    ensures
        swap_at(s, i, j).to_multiset() == s.to_multiset(),
        swap_at(s, i, j).len() == s.len(),
{
    broadcast use vstd::seq_lib::to_multiset_update;
    broadcast use vstd::multiset::group_multiset_properties;

    let t = s.update(i, s[j]);
    assert(t[j] == if i == j { s[j] } else { s[j] });
    assert(t.to_multiset() == s.to_multiset().insert(s[j]).remove(s[i]));
    assert(t.update(j, s[i]).to_multiset() == t.to_multiset().insert(s[i]).remove(t[j]));
    assert(s.to_multiset().insert(s[j]).remove(s[i]).insert(s[i]).remove(s[j])
        =~= s.to_multiset()) by {
        assert(s.to_multiset().count(s[i]) > 0) by {
            assert(s.contains(s[i]));
            vstd::seq_lib::to_multiset_contains(s, s[i]);
        }
    }
}

/// Shuffles `deck` in place by Fisher–Yates with the given picks: position
/// `len - 1 - k` is exchanged with position `picks[k]`.
pub fn shuffle_by(deck: &mut Vec<CardInstanceId>, picks: &Vec<usize>)
    requires
        valid_picks(old(deck)@.len() as int, picks@),
    ensures
        final(deck)@ == shuffled(old(deck)@, picks@),
        final(deck)@.to_multiset() == old(deck)@.to_multiset(),
        final(deck)@.len() == old(deck)@.len(),
{
    let n = deck.len();
    if n < 2 {
        return;
    }
    let mut i: usize = n - 1;
    proof {
        assert(picks@.subrange(0, picks@.len() as int) =~= picks@);
    }
    while i >= 1
        invariant
            n == deck@.len() == old(deck)@.len(),
            n >= 2,
            i < n,
            valid_picks(n as int, picks@),
            shuffled(old(deck)@, picks@) == fisher_yates(
                deck@,
                i as int,
                picks@.subrange(n - 1 - i, picks@.len() as int),
            ),
            deck@.to_multiset() == old(deck)@.to_multiset(),
        decreases i,
    {
        let k = n - 1 - i;
        let j = picks[k];
        let ghost rest = picks@.subrange(k as int, picks@.len() as int);
        proof {
            assert(rest[0] == j);
            assert(rest.drop_first() =~= picks@.subrange(k + 1, picks@.len() as int));
            lemma_swap_multiset(deck@, i as int, j as int);
        }
        let ghost prev = deck@;
        let a = deck[i];
        let b = deck[j];
        deck.set(i, b);
        deck.set(j, a);
        proof {
            assert(deck@ =~= swap_at(prev, i as int, j as int));
        }
        i = i - 1;
    }
    proof {
        assert(picks@.subrange(n - 1, picks@.len() as int).len() == 0);
    }
}

/// Picks for a shuffle of `n` cards, drawn at random.
fn random_picks(n: usize) -> (r: Vec<usize>)
    ensures
        valid_picks(n as int, r@),
{
    let mut picks: Vec<usize> = Vec::new();
    if n < 2 {
        return picks;
    }
    let mut k: usize = 0;
    while k < n - 1
        invariant
            n >= 2,
            k <= n - 1,
            picks@.len() == k,
            forall|m: int| 0 <= m < k ==> picks@[m] <= n - 1 - m,
        decreases n - 1 - k,
    {
        let j = random_at_most(n - 1 - k);
        picks.push(j);
        k = k + 1;
    }
    picks
}

/// The top `m` cards taken off `deck`, the top first.
fn take_top(deck: &mut Vec<CardInstanceId>, m: usize) -> (r: Vec<CardInstanceId>)
    requires
        m <= old(deck)@.len(),
    ensures
        final(deck)@ == old(deck)@.take(old(deck)@.len() - m),
        r@ == old(deck)@.skip(old(deck)@.len() - m).reverse(),
{
    let mut r: Vec<CardInstanceId> = Vec::new();
    let ghost d = deck@;
    let ghost base = d.len() - m;
    let mut k: usize = 0;
    while k < m
        invariant
            k <= m,
            m <= d.len(),
            base == d.len() - m,
            deck@ == d.take(d.len() - k),
            r@ == d.skip(d.len() - k).reverse(),
        decreases m - k,
    {
        let c = deck.pop().unwrap();
        r.push(c);
        k = k + 1;
        proof {
            assert(deck@ =~= d.take(d.len() - k));
            assert(r@ =~= d.skip(d.len() - k).reverse());
        }
    }
    r
}

impl Game {
    /// Shuffles the deck of `player` by Fisher–Yates with the given picks:
    /// position `len - 1 - k` is exchanged with position `picks[k]`.
    pub fn shuffle_with(&mut self, player: PlayerId, picks: &Vec<usize>)
        requires
            old(self).player_of(player) is Some,
            valid_picks(old(self).deck_of(player).len() as int, picks@),
        ensures
            same_but_deck_discard(*old(self), *final(self), player),
            final(self).deck_of(player) == shuffled(old(self).deck_of(player), picks@),
            final(self).instances@ == old(self).instances@,
            final(self).deck_of(player).to_multiset() == old(self).deck_of(player).to_multiset(),
            final(self).deck_of(player).len() == old(self).deck_of(player).len(),
            final(self).discard_of(player) == old(self).discard_of(player),
    {
        let idx = player.id;
        let mut deck: Vec<CardInstanceId> = Vec::new();
        std::mem::swap(&mut deck, &mut self.players[idx].deck);
        shuffle_by(&mut deck, picks);
        std::mem::swap(&mut deck, &mut self.players[idx].deck);
    }

    /// Shuffles the deck of `player` with picks from the random source.
    pub fn shuffle(&mut self, player: PlayerId)
        requires
            old(self).player_of(player) is Some,
        ensures
            same_but_deck_discard(*old(self), *final(self), player),
            final(self).instances@ == old(self).instances@,
            exists|picks: Seq<usize>|
                valid_picks(old(self).deck_of(player).len() as int, picks) && final(self).deck_of(player)
                    == shuffled(old(self).deck_of(player), picks),
            final(self).deck_of(player).to_multiset() == old(self).deck_of(player).to_multiset(),
            final(self).deck_of(player).len() == old(self).deck_of(player).len(),
            final(self).discard_of(player) == old(self).discard_of(player),
    {
        let picks = random_picks(self.players[player.id].deck.len());
        self.shuffle_with(player, &picks);
        proof {
            assert(valid_picks(old(self).deck_of(player).len() as int, picks@));
        }
    }

    /// Puts the discard of `player` into the deck, then shuffles the deck.
    pub fn reshuffle(&mut self, player: PlayerId)
        requires
            old(self).player_of(player) is Some,
        ensures
            same_but_deck_discard(*old(self), *final(self), player),
            final(self).deck_of(player).to_multiset() == old(self).deck_of(
                player,
            ).to_multiset().add(old(self).discard_of(player).to_multiset()),
            final(self).deck_of(player).len() == old(self).deck_of(player).len() + old(
                self,
            ).discard_of(player).len(),
            final(self).discard_of(player).len() == 0,
            readdressed(
                *old(self),
                *final(self),
                old(self).discard_of(player),
                CardAddress::PlayerOwned(player, Zone::Deck),
            ),
    {
        let idx = player.id;
        let moved = copy_ids(&self.players[idx].discard);
        let mut deck: Vec<CardInstanceId> = Vec::new();
        let mut discard: Vec<CardInstanceId> = Vec::new();
        std::mem::swap(&mut deck, &mut self.players[idx].deck);
        std::mem::swap(&mut discard, &mut self.players[idx].discard);
        let ghost d0 = deck@;
        let ghost c0 = discard@;
        deck.append(&mut discard);
        proof {
            vstd::seq_lib::lemma_multiset_commutative(d0, c0);
        }
        std::mem::swap(&mut deck, &mut self.players[idx].deck);
        std::mem::swap(&mut discard, &mut self.players[idx].discard);
        let ghost joined = *self;
        let mut j: usize = 0;
        while j < moved.len()
            invariant
                j <= moved@.len(),
                moved@ == old(self).discard_of(player),
                same_but_deck_discard(joined, *self, player),
                self.players@ == joined.players@,
                self.instances@.len() == old(self).instances@.len(),
                forall|k: int|
                    0 <= k < old(self).instances@.len() ==> (#[trigger] self.instances@[k]).address == if lists_index(moved@.take(j as int), k) {
                        CardAddress::PlayerOwned(player, Zone::Deck)
                    } else {
                        old(self).instances@[k].address
                    },
            decreases moved.len() - j,
        {
            let id = moved[j];
            if id.id < self.instances.len() {
                self.set_address(id, CardAddress::PlayerOwned(player, Zone::Deck));
            }
            proof {
                assert forall|k: int| 0 <= k < old(self).instances@.len() implies lists_index(moved@.take(j + 1), k)
                    == (lists_index(moved@.take(j as int), k) || moved@[j as int].id == k) by {
                    if lists_index(moved@.take(j + 1), k) {
                        let w = choose|w: int| 0 <= w < j + 1 && (#[trigger] moved@.take(j + 1)[w]).id == k;
                        if w < j {
                            assert(moved@.take(j as int)[w].id == k);
                        }
                    }
                    if lists_index(moved@.take(j as int), k) {
                        let w = choose|w: int| 0 <= w < j && (#[trigger] moved@.take(j as int)[w]).id == k;
                        assert(moved@.take(j + 1)[w].id == k);
                    }
                    if moved@[j as int].id == k {
                        assert(moved@.take(j + 1)[j as int].id == k);
                    }
                }
            }
            j = j + 1;
        }
        proof {
            assert(moved@.take(j as int) =~= moved@);
        }
        self.shuffle(player);
    }
}

impl Game {
    /// Takes up to `n` cards off the top of the deck of `player`, the top
    /// first. Where the deck holds fewer than that and the discard can make
    /// up the difference, the discard is first shuffled into the deck. Takes
    /// `n` capped at deck and discard together, and none for a negative `n`.
    pub fn draw_with_reshuffle(&mut self, player: PlayerId, n: i32) -> (r: Vec<CardInstanceId>)
        requires
            old(self).player_of(player) is Some,
        ensures
            same_but_deck_discard(*old(self), *final(self), player),
            ({
                let od = old(self).deck_of(player);
                let oc = old(self).discard_of(player);
                let m = draw_count(n as int, (od.len() + oc.len()) as int);
                &&& r@.len() == m
                &&& od.len() >= m ==> {
                    &&& final(self).instances@ == old(self).instances@
                    &&& final(self).deck_of(player) == od.take(od.len() - m)
                    &&& final(self).discard_of(player) == oc
                    &&& r@ == od.skip(od.len() - m).reverse()
                }
                &&& od.len() < m ==> {
                    &&& readdressed(*old(self), *final(self), oc, CardAddress::PlayerOwned(player, Zone::Deck))
                    &&& final(self).discard_of(player).len() == 0
                    &&& r@.to_multiset().add(final(self).deck_of(player).to_multiset())
                        == od.to_multiset().add(oc.to_multiset())
                }
            }),
    {
        let idx = player.id;
        let dl = self.players[idx].deck.len();
        let cl = self.players[idx].discard.len();
        let m: usize = if n < 0 {
            0
        } else if (n as usize) <= dl {
            n as usize
        } else if (n as usize) - dl <= cl {
            n as usize
        } else {
            dl + cl
        };
        let ghost mid = *self;
        if dl < m {
            self.reshuffle(player);
        }
        let ghost nd = self.deck_of(player);
        let mut deck: Vec<CardInstanceId> = Vec::new();
        std::mem::swap(&mut deck, &mut self.players[idx].deck);
        let r = take_top(&mut deck, m);
        std::mem::swap(&mut deck, &mut self.players[idx].deck);
        proof {
            if dl < m {
                let k = nd.len() - m;
                assert(nd.take(k) + nd.skip(k) =~= nd);
                vstd::seq_lib::lemma_multiset_commutative(nd.take(k), nd.skip(k));
                nd.skip(k).lemma_reverse_to_multiset();
                assert(r@.to_multiset().add(self.deck_of(player).to_multiset())
                    =~= nd.to_multiset());
            }
        }
        r
    }

    /// The top `n` cards of the deck of `player` (all of them where it holds
    /// fewer), in deck order, top last; nothing moves and nothing shuffles.
    pub fn look_at_top(&self, player: PlayerId, n: i32) -> (r: Vec<CardInstanceId>)
        requires
            self.player_of(player) is Some,
        ensures
            r@ == self.deck_of(player).skip(
                self.deck_of(player).len() - draw_count(n as int, self.deck_of(player).len() as int),
            ),
    {
        let deck = &self.players[player.id].deck;
        let k: usize = if n < 0 {
            0
        } else if (n as usize) < deck.len() {
            n as usize
        } else {
            deck.len()
        };
        let mut r: Vec<CardInstanceId> = Vec::new();
        let start = deck.len() - k;
        let mut i: usize = start;
        while i < deck.len()
            invariant
                start <= i <= deck@.len(),
                start == deck@.len() - k,
                *deck == self.players@[player.id as int].deck,
                r@ == deck@.subrange(start as int, i as int),
            decreases deck.len() - i,
        {
            r.push(deck[i]);
            i = i + 1;
            proof {
                assert(r@ =~= deck@.subrange(start as int, i as int));
            }
        }
        proof {
            assert(r@ =~= deck@.skip(start as int));
        }
        r
    }
}

} // verus!

use crate::card_instance::{CardInstanceId, CardInstanceInfo};
use crate::ask_tag::AskCardTag;
use crate::effect::{CardEffect, EffectCond, EffectTrigger};
use crate::effect_stack::{splice_front, Awaiting, ChoiceError, EffectStackFrame, EffectStepResult};
use crate::card_instance::CardAddress;
use crate::game::{checked, concrete_zone, in_i32, lemma_lists_index_step, lists_index, readdressed, same_but_deck_discard, Game, TurnResources};
use crate::copy::{same_cond, same_effect};
use crate::deck::draw_count;
use crate::moves::{gain_done, holds, in_pile, same_but_places, scan_piles, storage_of, zone_mut};
use crate::number::{range_contains, NumberRange};
use crate::player::PlayerId;
use crate::resolve::copy_ids;
use crate::selector::{CardNameSelector, CardSelector};
use crate::zone::Zone;
use std::collections::VecDeque;
use vstd::prelude::*;

verus! {

/// The selector of the focused cards.
pub fn focused_cards() -> (r: CardSelector)
    ensures
        r.name == CardNameSelector::Any,
        r.zone@ == seq![Zone::Focused],
{
    CardSelector { name: CardNameSelector::Any, zone: vec![Zone::Focused] }
}

fn one_effect(e: CardEffect) -> (r: Vec<CardEffect>)
    ensures
        r@ == seq![e],
{
    let mut v: Vec<CardEffect> = Vec::new();
    v.push(e);
    v
}

fn two_effects(a: CardEffect, b: CardEffect) -> (r: Vec<CardEffect>)
    ensures
        r@ == seq![a, b],
{
    let mut v: Vec<CardEffect> = Vec::new();
    v.push(a);
    v.push(b);
    proof {
        assert(v@ =~= seq![a, b]);
    }
    v
}

/// A frame whose queue holds `effects` in order.
fn frame_with(
    player: PlayerId,
    target: PlayerId,
    cause: Option<CardInstanceId>,
    effects: Vec<CardEffect>,
    focus: Vec<CardInstanceId>,
    atomic: bool,
    awaiting: Awaiting,
) -> (r: EffectStackFrame)
    ensures
        r.player == player,
        r.target == target,
        r.cause == cause,
        r.effect_queue@ == effects@,
        r.focus == focus,
        r.atomic == atomic,
        !r.attack,
        !r.prevented,
        r.awaiting == awaiting,
{
    let mut queue: VecDeque<CardEffect> = VecDeque::new();
    splice_front(&mut queue, effects);
    proof {
        assert(queue@ =~= effects@);
    }
    EffectStackFrame {
        player,
        target,
        effect_queue: queue,
        focus,
        cause,
        atomic,
        attack: false,
        prevented: false,
        awaiting,
    }
}

/// The effects of the rules that fire: on `Attacked` where `attacked`, on
/// `PlayAsAction` otherwise, in rule order.
pub open spec fn firing(rules: Seq<(EffectTrigger, CardEffect)>, attacked: bool) -> Seq<CardEffect>
    decreases rules.len(),
{
    if rules.len() == 0 {
        seq![]
    } else {
        let rest = firing(rules.drop_last(), attacked);
        let t = rules.last().0;
        if (attacked && t == EffectTrigger::Attacked) || (!attacked && t == EffectTrigger::PlayAsAction) {
            rest.push(rules.last().1)
        } else {
            rest
        }
    }
}

/// `b` holds a copy of each effect of `a`, in order.
pub open spec fn copies(a: Seq<CardEffect>, b: Seq<CardEffect>) -> bool {
    a.len() == b.len() && forall|i: int| 0 <= i < a.len() ==> same_effect(a[i], #[trigger] b[i])
}

fn rule_effects(rules: &Vec<(EffectTrigger, CardEffect)>, attacked: bool) -> (r: Vec<CardEffect>)
    ensures
        copies(firing(rules@, attacked), r@),
{
    let mut v: Vec<CardEffect> = Vec::new();
    let mut i: usize = 0;
    while i < rules.len()
        invariant
            i <= rules@.len(),
            copies(firing(rules@.take(i as int), attacked), v@),
        decreases rules.len() - i,
    {
        proof {
            assert(rules@.take(i + 1).drop_last() =~= rules@.take(i as int));
            assert(rules@.take(i + 1).last() == rules@[i as int]);
        }
        let fires = if attacked {
            matches!(rules[i].0, EffectTrigger::Attacked)
        } else {
            matches!(rules[i].0, EffectTrigger::PlayAsAction)
        };
        if fires {
            v.push(rules[i].1.duplicate());
        }
        i = i + 1;
    }
    proof {
        assert(rules@.take(i as int) =~= rules@);
    }
    v
}

impl Game {
    /// What a player is shown of the cards `ids`; `None` if one of them is
    /// unknown.
    fn infos(&self, ids: &Vec<CardInstanceId>) -> (r: Option<Vec<CardInstanceInfo>>)
        ensures
            (forall|k: int| 0 <= k < ids@.len() ==> self.card_of(#[trigger] ids@[k]) is Some)
                ==> r is Some,
            r matches Some(v) ==> shown(*self, v@, ids@),
    {
        let mut v: Vec<CardInstanceInfo> = Vec::new();
        let mut i: usize = 0;
        while i < ids.len()
            invariant
                i <= ids@.len(),
                v@.len() == i,
                forall|k: int|
                    0 <= k < i ==> (#[trigger] v@[k]).instance_id == ids@[k] && self.card_of(ids@[k])
                        is Some && v@[k].name == self.card_of(ids@[k]).unwrap().name
                        && v@[k].localized_name == self.card_of(ids@[k]).unwrap().localized_name,
            decreases ids.len() - i,
        {
            match self.card_ref(ids[i]) {
                Some(card) => {
                    v.push(
                        CardInstanceInfo {
                            name: card.name.clone(),
                            localized_name: card.localized_name.clone(),
                            instance_id: ids[i],
                        },
                    );
                },
                None => {
                    return None;
                },
            }
            i = i + 1;
        }
        Some(v)
    }

    fn push_child(
        &mut self,
        effects: Vec<CardEffect>,
        focus: Vec<CardInstanceId>,
        atomic: bool,
        awaiting: Awaiting,
    )
        requires
            old(self).stack@.len() > 0,
        ensures
            final(self).stack@.len() == old(self).stack@.len() + 1,
            final(self).stack@.drop_last() == old(self).stack@,
            final(self).stack@.last().player == old(self).stack@.last().player,
            final(self).stack@.last().target == old(self).stack@.last().target,
            final(self).stack@.last().cause == old(self).stack@.last().cause,
            final(self).stack@.last().effect_queue@ == effects@,
            final(self).stack@.last().focus == focus,
            final(self).stack@.last().atomic == atomic,
            final(self).stack@.last().awaiting == awaiting,
            !final(self).stack@.last().attack,
            !final(self).stack@.last().prevented,
            final(self).players == old(self).players,
            final(self).supply == old(self).supply,
            final(self).trash == old(self).trash,
            final(self).turn == old(self).turn,
            final(self).catalog == old(self).catalog,
            final(self).instances == old(self).instances,
            final(self).steps == old(self).steps,
            final(self).resources == old(self).resources,
    {
        let t = self.stack.len() - 1;
        let f = frame_with(
            self.stack[t].player,
            self.stack[t].target,
            self.stack[t].cause,
            effects,
            focus,
            atomic,
            awaiting,
        );
        self.stack.push(f);
        proof {
            assert(self.stack@.drop_last() =~= old(self).stack@);
        }
    }
}

/// `new` is `old` but for the queue of the top frame.
pub open spec fn same_but_top_queue(old: Game, new: Game) -> bool {
    &&& new.players == old.players
    &&& new.supply == old.supply
    &&& new.trash == old.trash
    &&& new.turn == old.turn
    &&& new.catalog == old.catalog
    &&& new.instances == old.instances
    &&& new.resources == old.resources
    &&& new.stack@.len() == old.stack@.len()
    &&& new.stack@.drop_last() == old.stack@.drop_last()
    &&& new.stack@.last().player == old.stack@.last().player
    &&& new.stack@.last().target == old.stack@.last().target
    &&& new.stack@.last().cause == old.stack@.last().cause
    &&& new.stack@.last().focus == old.stack@.last().focus
    &&& new.stack@.last().atomic == old.stack@.last().atomic
    &&& new.stack@.last().attack == old.stack@.last().attack
    &&& new.stack@.last().prevented == old.stack@.last().prevented
    &&& new.stack@.last().awaiting == old.stack@.last().awaiting
}

/// `new` is `old` with a child of its top frame pushed, whose queue is
/// `queue`; nothing else changed.
pub open spec fn pushed_child(old: Game, new: Game, queue: Seq<CardEffect>) -> bool {
    &&& new.players == old.players
    &&& new.supply == old.supply
    &&& new.trash == old.trash
    &&& new.turn == old.turn
    &&& new.catalog == old.catalog
    &&& new.instances == old.instances
    &&& new.resources == old.resources
    &&& new.stack@.len() == old.stack@.len() + 1
    &&& new.stack@.drop_last() == old.stack@
    &&& new.stack@.last().player == old.stack@.last().player
    &&& new.stack@.last().target == old.stack@.last().target
    &&& new.stack@.last().cause == old.stack@.last().cause
    &&& new.stack@.last().effect_queue@ == queue
    &&& !new.stack@.last().attack
    &&& !new.stack@.last().prevented
}

/// The counters with `x` added to one of them (0: draws, 1: actions, 2:
/// buys, 3: coins).
pub open spec fn plus(r: TurnResources, which: int, x: int) -> TurnResources {
    if which == 0 {
        TurnResources { draws: (r.draws + x) as i32, ..r }
    } else if which == 1 {
        TurnResources { actions: (r.actions + x) as i32, ..r }
    } else if which == 2 {
        TurnResources { buys: (r.buys + x) as i32, ..r }
    } else {
        TurnResources { coins: (r.coins + x) as i32, ..r }
    }
}

pub open spec fn counter(r: TurnResources, which: int) -> int {
    if which == 0 {
        r.draws as int
    } else if which == 1 {
        r.actions as int
    } else if which == 2 {
        r.buys as int
    } else {
        r.coins as int
    }
}

/// What a `Plus*` node on counter `which` with quantity `n` leaves.
#[verifier::opaque]
pub open spec fn plus_done(
    old: Game,
    new: Game,
    r: EffectStepResult,
    which: int,
    n: crate::number::Number,
) -> bool {
    match old.eval_number(old.stack@.last().target, n, old.fuel()) {
        Some(x) => if in_i32(counter(old.resources, which) + x) {
            &&& r is Continue
            &&& new.resources == plus(old.resources, which, x)
            &&& new.players == old.players
            &&& new.stack == old.stack
            &&& new.instances == old.instances
            &&& new.supply == old.supply
            &&& new.trash == old.trash
        } else {
            r is Error && new == old
        },
        None => r is Error && new == old,
    }
}

/// What moving the cards of `sel` to zone `z` of the target leaves.
#[verifier::opaque]
pub open spec fn moved_to(old: Game, new: Game, r: EffectStepResult, sel: CardSelector, z: Zone) -> bool {
    let tg = old.stack@.last().target;
    match old.eval_selector(tg, sel, old.fuel()) {
        Some(ids) => {
            &&& r is Continue
            &&& same_but_places(old, new)
            &&& old.player_of(tg) is Some ==> forall|k: int|
                0 <= k < ids.len() ==> new.instances@[(#[trigger] ids[k]).id as int].address
                    == CardAddress::PlayerOwned(tg, storage_of(z))
            &&& old.wf() ==> new.wf()
            &&& old.player_of(tg) is Some ==> forall|k: int|
                0 <= k < old.instances@.len() && !lists_index(ids, k) ==> #[trigger] new.instances@[k] == old.instances@[k]
        },
        None => r is Error && new == old,
    }
}

/// What gaining a card satisfying `ns` into zone `dest` of the target
/// leaves: the first pile that offers one gives its top card (`Continue`);
/// where none does, nothing changes (`SkipContinue`); where a test fails
/// first or the target is unknown, nothing changes (`Error`).
#[verifier::opaque]
pub open spec fn gained(old: Game, new: Game, r: EffectStepResult, ns: CardNameSelector, dest: Zone) -> bool {
    let tg = old.stack@.last().target;
    if old.player_of(tg) is Some {
        match scan_piles(old, tg, ns, old.supply@.len() as int) {
            Some(Some(i)) => r is Continue && gain_done(old, new, tg, i, dest) && (old.wf() ==> new.wf()),
            Some(None) => r is SkipContinue && new == old,
            None => r is Error && new == old,
        }
    } else {
        r is Error && new == old
    }
}

/// `infos` shows the cards `ids`, in order: their ids and names.
pub open spec fn shown(g: Game, infos: Seq<CardInstanceInfo>, ids: Seq<CardInstanceId>) -> bool {
    &&& infos.len() == ids.len()
    &&& forall|k: int|
        0 <= k < ids.len() ==> (#[trigger] infos[k]).instance_id == ids[k] && g.card_of(ids[k])
            is Some && infos[k].name == g.card_of(ids[k]).unwrap().name && infos[k].localized_name
            == g.card_of(ids[k]).unwrap().localized_name
}

impl Game {
    proof fn lemma_filter_known(
        self,
        p: PlayerId,
        name: CardNameSelector,
        ids: Seq<CardInstanceId>,
        fuel: nat,
    )
        requires
            self.filter_ids(p, name, ids, fuel) is Some,
        ensures
            forall|k: int|
                0 <= k < self.filter_ids(p, name, ids, fuel).unwrap().len() ==> self.card_of(
                    #[trigger] self.filter_ids(p, name, ids, fuel).unwrap()[k],
                ) is Some,
        decreases ids.len(),
    {
        if ids.len() > 0 {
            self.lemma_filter_known(p, name, ids.drop_last(), fuel);
        }
    }

    /// Adds the value of `n` for the target to counter `which`.
    fn add_counter(&mut self, which: u8, n: &crate::number::Number) -> (r: EffectStepResult)
        requires
            old(self).stack@.len() > 0,
            which < 4,
        ensures
            plus_done(*old(self), *final(self), r, which as int, *n),
            !(r is End),
    {
        proof {
            reveal(plus_done);
        }
        let target = self.stack[self.stack.len() - 1].target;
        let x = match self.resolve_number(target, n) {
            Some(x) => x,
            None => {
                return EffectStepResult::Error("a quantity cannot be evaluated".to_string());
            },
        };
        let cur: i32 = if which == 0 {
            self.resources.draws
        } else if which == 1 {
            self.resources.actions
        } else if which == 2 {
            self.resources.buys
        } else {
            self.resources.coins
        };
        let sum: i64 = cur as i64 + x as i64;
        if sum < i32::MIN as i64 || sum > i32::MAX as i64 {
            return EffectStepResult::Error("a turn counter overflows".to_string());
        }
        let v = sum as i32;
        if which == 0 {
            self.resources.draws = v;
        } else if which == 1 {
            self.resources.actions = v;
        } else if which == 2 {
            self.resources.buys = v;
        } else {
            self.resources.coins = v;
        }
        EffectStepResult::Continue
    }
}

impl Game {
    /// Moves each of `ids`, in order, to zone `dest` of `to`.
    fn move_all(&mut self, ids: &Vec<CardInstanceId>, to: PlayerId, dest: Zone)
        requires
            old(self).player_of(to) is Some,
            dest.is_destination(),
        ensures
            same_but_places(*old(self), *final(self)),
            final(self).stack@ == old(self).stack@,
            forall|k: int|
                0 <= k < ids@.len() && (#[trigger] ids@[k]).id < old(self).instances@.len()
                    ==> final(self).instances@[ids@[k].id as int].address
                    == CardAddress::PlayerOwned(to, storage_of(dest)),
            old(self).wf() ==> final(self).wf(),
            forall|k: int|
                0 <= k < old(self).instances@.len() && !lists_index(ids@, k) ==> #[trigger] final(self).instances@[k] == old(self).instances@[k],
    {
        let mut i: usize = 0;
        while i < ids.len()
            invariant
                i <= ids@.len(),
                same_but_places(*old(self), *self),
                self.stack@ == old(self).stack@,
                self.player_of(to) is Some,
                dest.is_destination(),
                old(self).wf() ==> self.wf(),
                forall|k: int|
                    0 <= k < i && (#[trigger] ids@[k]).id < old(self).instances@.len()
                        ==> self.instances@[ids@[k].id as int].address == CardAddress::PlayerOwned(
                        to,
                        storage_of(dest),
                    ),
                forall|k: int|
                    0 <= k < old(self).instances@.len() && !lists_index(ids@.take(i as int), k) ==> #[trigger] self.instances@[k] == old(self).instances@[k],
            decreases ids.len() - i,
        {
            self.move_card(ids[i], to, dest);
            proof {
                assert forall|k: int| 0 <= k < old(self).instances@.len() implies lists_index(ids@.take(i + 1), k)
                    == (lists_index(ids@.take(i as int), k) || ids@[i as int].id == k) by {
                    lemma_lists_index_step(ids@, i as int, k);
                }
            }
            i = i + 1;
        }
        proof {
            assert(ids@.take(i as int) =~= ids@);
        }
    }

    /// Moves each of `ids`, in order, to the trash.
    fn trash_all(&mut self, ids: &Vec<CardInstanceId>)
        ensures
            same_but_places(*old(self), *final(self)),
            final(self).stack@ == old(self).stack@,
            forall|k: int|
                0 <= k < ids@.len() && (#[trigger] ids@[k]).id < old(self).instances@.len()
                    ==> final(self).instances@[ids@[k].id as int].address == CardAddress::Trash,
            old(self).wf() ==> final(self).wf(),
            forall|k: int|
                0 <= k < old(self).instances@.len() && !lists_index(ids@, k) ==> #[trigger] final(self).instances@[k] == old(self).instances@[k],
    {
        let mut i: usize = 0;
        while i < ids.len()
            invariant
                i <= ids@.len(),
                same_but_places(*old(self), *self),
                self.stack@ == old(self).stack@,
                old(self).wf() ==> self.wf(),
                forall|k: int|
                    0 <= k < i && (#[trigger] ids@[k]).id < old(self).instances@.len()
                        ==> self.instances@[ids@[k].id as int].address == CardAddress::Trash,
                forall|k: int|
                    0 <= k < old(self).instances@.len() && !lists_index(ids@.take(i as int), k) ==> #[trigger] self.instances@[k] == old(self).instances@[k],
            decreases ids.len() - i,
        {
            self.trash_card(ids[i]);
            proof {
                assert forall|k: int| 0 <= k < old(self).instances@.len() implies lists_index(ids@.take(i + 1), k)
                    == (lists_index(ids@.take(i as int), k) || ids@[i as int].id == k) by {
                    lemma_lists_index_step(ids@, i as int, k);
                }
            }
            i = i + 1;
        }
        proof {
            assert(ids@.take(i as int) =~= ids@);
        }
    }
}

/// What executing `effect` in the scope of the top frame of `old` leaves.
#[verifier::opaque]
pub open spec fn node_done(old: Game, new: Game, r: EffectStepResult, effect: CardEffect) -> bool {
    let top = old.stack@.last();
    let tg = top.target;
    match effect {
        CardEffect::Noop => r is Continue && new == old,
        CardEffect::Sequence(v) => r is Continue && same_but_top_queue(old, new)
            && new.stack@.last().effect_queue@ == v@ + top.effect_queue@,
        CardEffect::AtomicSequence(v) => r is Continue && pushed_child(old, new, v@)
            && new.stack@.last().atomic && new.stack@.last().focus@.len() == 0,
        CardEffect::Optional(tag, e) => r == EffectStepResult::AskOptional(tg, tag) && pushed_child(
            old,
            new,
            seq![*e],
        ) && new.stack@.last().awaiting is YesNo,
        CardEffect::FocusAll(sel, e) => focused_all(old, new, r, sel, *e),
        CardEffect::Select(tag, range, sel, e) => offered(old, new, range, sel) && match (
            old.eval_range(tg, range, old.fuel()),
            old.eval_selector(tg, sel, old.fuel()),
        ) {
            (Some(rr), Some(ids)) => new.stack@.last().effect_queue@ == seq![*e] && match r {
                EffectStepResult::AskCard(who, t, rg, infos) => who == tg && t == tag && rg == rr
                    && shown(old, infos@, ids),
                _ => false,
            },
            _ => r is Error,
        },
        CardEffect::TrashSelect(range, sel, e) => offered(old, new, range, sel) && match (
            old.eval_range(tg, range, old.fuel()),
            old.eval_selector(tg, sel, old.fuel()),
        ) {
            (Some(rr), Some(ids)) => on_focus_then(new.stack@.last().effect_queue@, true, *e)
                && match r {
                EffectStepResult::AskTrash(who, rg, infos) => who == tg && rg == rr && shown(
                    old,
                    infos@,
                    ids,
                ),
                _ => false,
            },
            _ => r is Error,
        },
        CardEffect::DiscardSelect(range, sel, e) => offered(old, new, range, sel) && match (
            old.eval_range(tg, range, old.fuel()),
            old.eval_selector(tg, sel, old.fuel()),
        ) {
            (Some(rr), Some(ids)) => on_focus_then(new.stack@.last().effect_queue@, false, *e)
                && match r {
                EffectStepResult::AskDiscard(who, rg, infos) => who == tg && rg == rr && shown(
                    old,
                    infos@,
                    ids,
                ),
                _ => false,
            },
            _ => r is Error,
        },
        CardEffect::If(c, e) => branched(old, new, r, c, *e),
        CardEffect::While(c, e) => looped(old, new, r, c, *e, true),
        CardEffect::Until(c, e) => looped(old, new, r, c, *e, false),
        CardEffect::PlusDraw(n) => plus_done(old, new, r, 0, n),
        CardEffect::PlusAction(n) => plus_done(old, new, r, 1, n),
        CardEffect::PlusBuy(n) => plus_done(old, new, r, 2, n),
        CardEffect::PlusCoin(n) => plus_done(old, new, r, 3, n),
        CardEffect::TrashCard(sel) => trashed(old, new, r, sel),
        CardEffect::DiscardCard(sel) => moved_to(old, new, r, sel, Zone::Discard),
        CardEffect::DrawFrom(sel) => moved_to(old, new, r, sel, Zone::Hand),
        CardEffect::MoveCard(sel, z) => if z.is_destination() {
            moved_to(old, new, r, sel, z)
        } else {
            r is Error && new == old
        },
        CardEffect::GainCard(ns) => gained(old, new, r, ns, Zone::Discard),
        CardEffect::GainCardToHand(ns) => gained(old, new, r, ns, Zone::Hand),
        CardEffect::LookAtTop(n, e) => looked(old, new, r, n, *e),
        CardEffect::UseCard(sel) => used(old, new, r, sel),
        CardEffect::AllOpponents(e) => dispatched(old, new, r, *e, false),
        CardEffect::AttackAllOpponents(e) => dispatched(old, new, r, *e, true),
        CardEffect::RevealTop(n, e) => took(old, new, r, n, *e, Zone::Revealed),
        CardEffect::DrawFocus(n, e) => took(old, new, r, n, *e, Zone::Hand),
        CardEffect::PreventDefault => prevented(old, new, r),
    }
}

/// `RevealTop` (into `dest` = `Revealed`) or `DrawFocus` (`Hand`): cards
/// are drawn from the target's deck as `draw_with_reshuffle` draws them,
/// go onto the end of zone `dest`, and a child running `e` is focused on
/// them, the top card first.
#[verifier::opaque]
pub open spec fn took(
    old: Game,
    new: Game,
    r: EffectStepResult,
    n: crate::number::Number,
    e: CardEffect,
    dest: Zone,
) -> bool {
    let tg = old.stack@.last().target;
    match old.eval_number(tg, n, old.fuel()) {
        Some(k) => if old.player_of(tg) is Some {
            let focus = new.stack@.last().focus@;
            let od = old.deck_of(tg);
            let oc = old.discard_of(tg);
            let m = draw_count(k, (od.len() + oc.len()) as int);
            &&& r is Continue
            &&& new.stack@.len() == old.stack@.len() + 1
            &&& new.stack@.drop_last() == old.stack@
            &&& new.stack@.last().effect_queue@ == seq![e]
            &&& new.stack@.last().player == old.stack@.last().player
            &&& new.stack@.last().target == tg
            &&& new.stack@.last().cause == old.stack@.last().cause
            &&& focus.len() == m
            &&& od.len() >= m ==> {
                &&& new.deck_of(tg) == od.take(od.len() - m)
                &&& new.discard_of(tg) == oc
                &&& focus == od.skip(od.len() - m).reverse()
            }
            &&& od.len() < m ==> {
                &&& new.discard_of(tg).len() == 0
                &&& focus.to_multiset().add(new.deck_of(tg).to_multiset()) == od.to_multiset().add(
                    oc.to_multiset(),
                )
            }
            &&& concrete_zone(new.players@[tg.id as int], dest) == concrete_zone(
                old.players@[tg.id as int],
                dest,
            ) + focus
            &&& new.players@.len() == old.players@.len()
            &&& forall|q: int| 0 <= q < old.players@.len() && q != tg.id ==> #[trigger] new.players@[q] == old.players@[q]
            &&& new.players@[tg.id as int].id == old.players@[tg.id as int].id
            &&& new.players@[tg.id as int].name == old.players@[tg.id as int].name
            &&& forall|z: Zone| z.is_concrete() && z != Zone::Deck && z != Zone::Discard && z != dest
                ==> #[trigger] concrete_zone(new.players@[tg.id as int], z) == concrete_zone(old.players@[tg.id as int], z)
            &&& new.supply@ == old.supply@
            &&& new.trash@ == old.trash@
            &&& new.resources == old.resources
            &&& new.catalog@ == old.catalog@
            &&& new.steps == old.steps
            &&& forall|i: int|
                0 <= i < focus.len() && (#[trigger] focus[i]).id < old.instances@.len()
                    ==> new.instances@[focus[i].id as int].address == CardAddress::PlayerOwned(tg, dest)
            &&& old.wf() ==> new.wf()
        } else {
            r is Error && new == old
        },
        None => r is Error && new == old,
    }
}

/// Among the frames from `base` up there is one of `top`'s player and
/// cause, applying a copy of `e` to `target` (as an attack where `attack`).
pub open spec fn frame_for(
    stack: Seq<EffectStackFrame>,
    base: int,
    target: PlayerId,
    e: CardEffect,
    attack: bool,
    top: EffectStackFrame,
) -> bool {
    exists|i: int|
        base <= i < stack.len() && (#[trigger] stack[i]).target == target && stack[i].attack == attack
            && stack[i].player == top.player && stack[i].cause == top.cause
            && stack[i].effect_queue@.len() == 1 && same_effect(e, stack[i].effect_queue@[0])
}

/// Pushing a frame keeps every `frame_for` that held.
proof fn keep_frames(
    before: Seq<EffectStackFrame>,
    after: Seq<EffectStackFrame>,
    base: int,
    e: CardEffect,
    attack: bool,
    top: EffectStackFrame,
)
    requires
        0 <= base,
        after.len() == before.len() + 1,
        forall|i: int| 0 <= i < before.len() ==> after[i] == before[i],
    ensures
        forall|t: PlayerId| frame_for(before, base, t, e, attack, top) ==> #[trigger] frame_for(after, base, t, e, attack, top),
{
    assert forall|t: PlayerId| frame_for(before, base, t, e, attack, top) implies #[trigger] frame_for(after, base, t, e, attack, top) by {
        let i = choose|i: int|
            base <= i < before.len() && (#[trigger] before[i]).target == t && before[i].attack == attack
                && before[i].player == top.player && before[i].cause == top.cause
                && before[i].effect_queue@.len() == 1 && same_effect(e, before[i].effect_queue@[0]);
        assert(after[i] == before[i]);
    }
}

/// `AllOpponents` or `AttackAllOpponents`: for every other player, one
/// frame applying a copy of the effect to them; frames are pushed above the
/// existing ones and nothing else changes. Each pushed frame applies to a
/// player other than the acting one; for an attack, a frame is either the
/// attack on that player or one of that player's reactions.
#[verifier::opaque]
pub open spec fn dispatched(
    old: Game,
    new: Game,
    r: EffectStepResult,
    e: CardEffect,
    attack: bool,
) -> bool {
    let top = old.stack@.last();
    let base = old.stack@.len();
    &&& forall|q: int|
        0 <= q < old.players@.len() && (#[trigger] old.players@[q]).id != top.player
            ==> frame_for(new.stack@, base as int, old.players@[q].id, e, attack, top)
    &&& r is Continue
    &&& new.players == old.players
    &&& new.supply == old.supply
    &&& new.trash == old.trash
    &&& new.instances == old.instances
    &&& new.resources == old.resources
    &&& new.stack@.len() >= base
    &&& new.stack@.take(base as int) == old.stack@
    &&& forall|i: int|
        base <= i < new.stack@.len() ==> {
            let f = #[trigger] new.stack@[i];
            &&& f.target != top.player
            &&& f.attack == attack || (attack && f.player == f.target)
            &&& !f.atomic
        }
}

/// `UseCard`: for each card that `sel` matches, a frame of the acting
/// player caused by that card (holding copies of its play effects) is
/// pushed, the first card's on top.
#[verifier::opaque]
pub open spec fn used(old: Game, new: Game, r: EffectStepResult, sel: CardSelector) -> bool {
    let top = old.stack@.last();
    let base = old.stack@.len();
    match old.eval_selector(top.target, sel, old.fuel()) {
        Some(ids) => {
            &&& r is Continue
            &&& new.players == old.players
            &&& new.instances == old.instances
            &&& new.supply == old.supply
            &&& new.trash == old.trash
            &&& new.resources == old.resources
            &&& new.catalog == old.catalog
            &&& new.steps == old.steps
            &&& new.stack@.len() == base + ids.len()
            &&& new.stack@.take(base as int) == old.stack@
            &&& forall|i: int|
                0 <= i < ids.len() ==> {
                    let f = #[trigger] new.stack@[base + ids.len() - 1 - i];
                    &&& f.cause == Some(ids[i])
                    &&& f.player == top.player
                    &&& f.target == top.player
                    &&& copies(firing(old.card_of(ids[i]).unwrap().rules@, false), f.effect_queue@)
                    &&& f.focus@.len() == 0
                    &&& !f.atomic
                }
        },
        None => r is Error && new == old,
    }
}

/// `LookAtTop`: a child focused on the top cards of the target's deck;
/// nothing moves.
#[verifier::opaque]
pub open spec fn looked(old: Game, new: Game, r: EffectStepResult, n: crate::number::Number, e: CardEffect) -> bool {
    let tg = old.stack@.last().target;
    match old.eval_number(tg, n, old.fuel()) {
        Some(k) => if old.player_of(tg) is Some {
            let deck = old.deck_of(tg);
            &&& r is Continue
            &&& pushed_child(old, new, seq![e])
            &&& new.stack@.last().focus@ == deck.skip(deck.len() - draw_count(k, deck.len() as int))
        } else {
            r is Error && new == old
        },
        None => r is Error && new == old,
    }
}

/// The index of the last attack frame among the first `t` frames, or -1.
pub open spec fn nearest_attack(stack: Seq<EffectStackFrame>, t: int) -> int
    decreases t,
{
    if t <= 0 {
        -1
    } else if stack[t - 1].attack {
        t - 1
    } else {
        nearest_attack(stack, t - 1)
    }
}

/// `PreventDefault`: the nearest attack frame below the top is cancelled;
/// where there is none, nothing changes and the node is skipped.
#[verifier::opaque]
pub open spec fn prevented(old: Game, new: Game, r: EffectStepResult) -> bool {
    let j = nearest_attack(old.stack@, old.stack@.len() - 1);
    if j >= 0 {
        &&& r is Continue
        &&& new.players == old.players
        &&& new.supply == old.supply
        &&& new.trash == old.trash
        &&& new.instances == old.instances
        &&& new.resources == old.resources
        &&& new.catalog == old.catalog
        &&& new.steps == old.steps
        &&& new.stack@.len() == old.stack@.len()
        &&& new.stack@[j].prevented
        &&& new.stack@[j].player == old.stack@[j].player
        &&& new.stack@[j].target == old.stack@[j].target
        &&& new.stack@[j].effect_queue == old.stack@[j].effect_queue
        &&& new.stack@[j].focus == old.stack@[j].focus
        &&& new.stack@[j].cause == old.stack@[j].cause
        &&& new.stack@[j].atomic == old.stack@[j].atomic
        &&& new.stack@[j].attack == old.stack@[j].attack
        &&& new.stack@[j].awaiting == old.stack@[j].awaiting
        &&& forall|i: int| 0 <= i < old.stack@.len() && i != j ==> #[trigger] new.stack@[i] == old.stack@[i]
    } else {
        r is SkipContinue && new == old
    }
}

/// A queue that trashes (or discards) the focused cards, then runs `e`.
#[verifier::opaque]
pub open spec fn on_focus_then(q: Seq<CardEffect>, trash: bool, e: CardEffect) -> bool {
    &&& q.len() == 2
    &&& q[1] == e
    &&& match q[0] {
        CardEffect::TrashCard(s) => trash && s.name == CardNameSelector::Any && s.zone@ == seq![
            Zone::Focused,
        ],
        CardEffect::DiscardCard(s) => !trash && s.name == CardNameSelector::Any && s.zone@
            == seq![Zone::Focused],
        _ => false,
    }
}

/// `FocusAll`: a child whose focus is what `sel` matches now.
#[verifier::opaque]
pub open spec fn focused_all(old: Game, new: Game, r: EffectStepResult, sel: CardSelector, e: CardEffect) -> bool {
    match old.eval_selector(old.stack@.last().target, sel, old.fuel()) {
        Some(ids) => r is Continue && pushed_child(old, new, seq![e]) && new.stack@.last().focus@
            == ids,
        None => r is Error && new == old,
    }
}

/// A choice offered: a child with empty focus, waiting for a
/// choice among what `sel` matches, as many as the range admits.
#[verifier::opaque]
pub open spec fn offered(
    old: Game,
    new: Game,
    range: NumberRange<crate::number::Number>,
    sel: CardSelector,
) -> bool {
    let tg = old.stack@.last().target;
    match (old.eval_range(tg, range, old.fuel()), old.eval_selector(tg, sel, old.fuel())) {
        (Some(rr), Some(ids)) => pushed_child(old, new, new.stack@.last().effect_queue@) && new.stack@.last().focus@.len()
            == 0 && match new.stack@.last().awaiting {
            Awaiting::Cards(fr, fc) => fr == rr && fc@ == ids,
            _ => false,
        },
        _ => new == old,
    }
}

/// `If`: the body goes in front of the queue where the condition holds.
#[verifier::opaque]
pub open spec fn branched(old: Game, new: Game, r: EffectStepResult, c: EffectCond, e: CardEffect) -> bool {
    match old.eval_cond(old.stack@.last().target, c) {
        Some(true) => r is Continue && same_but_top_queue(old, new)
            && new.stack@.last().effect_queue@ == seq![e] + old.stack@.last().effect_queue@,
        Some(false) => r is Continue && new == old,
        None => r is Error && new == old,
    }
}

/// `While` (`go_on`) or `Until` (`!go_on`): where the condition is
/// `go_on`, the body and a copy of the loop go in front of the queue.
#[verifier::opaque]
pub open spec fn looped(
    old: Game,
    new: Game,
    r: EffectStepResult,
    c: EffectCond,
    e: CardEffect,
    go_on: bool,
) -> bool {
    let q = new.stack@.last().effect_queue@;
    match old.eval_cond(old.stack@.last().target, c) {
        Some(b) => if b == go_on {
            &&& r is Continue
            &&& same_but_top_queue(old, new)
            &&& q.len() == old.stack@.last().effect_queue@.len() + 2
            &&& q[0] == e
            &&& q.skip(2) == old.stack@.last().effect_queue@
            &&& match q[1] {
                CardEffect::While(c2, e2) => go_on && same_cond(c, c2) && same_effect(e, *e2),
                CardEffect::Until(c2, e2) => !go_on && same_cond(c, c2) && same_effect(e, *e2),
                _ => false,
            }
        } else {
            r is Continue && new == old
        },
        None => r is Error && new == old,
    }
}

/// `TrashCard`: every card that `sel` matches is in the trash.
#[verifier::opaque]
pub open spec fn trashed(old: Game, new: Game, r: EffectStepResult, sel: CardSelector) -> bool {
    match old.eval_selector(old.stack@.last().target, sel, old.fuel()) {
        Some(ids) => r is Continue && same_but_places(old, new) && (old.wf() ==> new.wf()) && (forall|k: int|
            0 <= k < old.instances@.len() && !lists_index(ids, k) ==> #[trigger] new.instances@[k] == old.instances@[k]) && forall|k: int|
            0 <= k < ids.len() ==> new.instances@[(#[trigger] ids[k]).id as int].address
                == CardAddress::Trash,
        None => r is Error && new == old,
    }
}

impl Game {
    /// Executes one effect node in the scope of the top frame, as the
    /// effect grammar says. An inapplicable node returns `SkipContinue`;
    /// whether that aborts is the caller's decision (see `step`).
    pub fn exec_effect_one(&mut self, effect: CardEffect) -> (r: EffectStepResult)
        requires
            old(self).stack@.len() > 0,
        ensures
            node_done(*old(self), *final(self), r, effect),
            !(r is End),
    {
        match effect {
            CardEffect::Noop | CardEffect::Sequence(_) | CardEffect::AtomicSequence(_)
            | CardEffect::Optional(_, _) | CardEffect::FocusAll(_, _) | CardEffect::If(_, _)
            | CardEffect::While(_, _) | CardEffect::Until(_, _) => self.exec_control(effect),
            CardEffect::Select(_, _, _, _) | CardEffect::TrashSelect(_, _, _)
            | CardEffect::DiscardSelect(_, _, _) => self.exec_choice(effect),
            _ => self.exec_state(effect),
        }
    }

    fn exec_control(&mut self, effect: CardEffect) -> (r: EffectStepResult)
        requires
            old(self).stack@.len() > 0,
            effect is Noop || effect is Sequence || effect is AtomicSequence || effect is Optional
                || effect is FocusAll || effect is If || effect is While || effect is Until,
        ensures
            node_done(*old(self), *final(self), r, effect),
            !(r is End),
    {
        proof {
            reveal(node_done);
        }
        let target = self.stack[self.stack.len() - 1].target;
        match effect {
            CardEffect::Sequence(effects) => {
                self.splice_top(effects);
                EffectStepResult::Continue
            },
            CardEffect::AtomicSequence(effects) => {
                self.push_child(effects, Vec::new(), true, Awaiting::Nothing);
                EffectStepResult::Continue
            },
            CardEffect::Optional(tag, e) => {
                self.push_child(one_effect(*e), Vec::new(), false, Awaiting::YesNo);
                EffectStepResult::AskOptional(target, tag)
            },
            CardEffect::FocusAll(sel, e) => self.focus_all(&sel, *e),
            CardEffect::If(c, e) => self.branch(&c, *e),
            CardEffect::While(c, e) => self.repeat(c, *e, true),
            CardEffect::Until(c, e) => self.repeat(c, *e, false),
            _ => EffectStepResult::Continue,
        }
    }

    fn exec_choice(&mut self, effect: CardEffect) -> (r: EffectStepResult)
        requires
            old(self).stack@.len() > 0,
            effect is Select || effect is TrashSelect || effect is DiscardSelect,
        ensures
            node_done(*old(self), *final(self), r, effect),
            !(r is End),
    {
        match effect {
            CardEffect::Select(tag, range, sel, e) => self.exec_select(tag, range, sel, *e),
            CardEffect::TrashSelect(range, sel, e) => self.exec_select_then(range, sel, *e, true),
            CardEffect::DiscardSelect(range, sel, e) => self.exec_select_then(range, sel, *e, false),
            _ => EffectStepResult::Continue,
        }
    }

    fn exec_select(
        &mut self,
        tag: AskCardTag,
        range: NumberRange<crate::number::Number>,
        sel: CardSelector,
        e: CardEffect,
    ) -> (r: EffectStepResult)
        requires
            old(self).stack@.len() > 0,
        ensures
            node_done(*old(self), *final(self), r, CardEffect::Select(tag, range, sel, Box::new(e))),
            !(r is End),
    {
        proof {
            reveal(node_done);
        }
        let target = self.stack[self.stack.len() - 1].target;
        match self.offer(&range, &sel, one_effect(e)) {
            Some((rr, infos)) => EffectStepResult::AskCard(target, tag, rr, infos),
            None => EffectStepResult::Error("a choice cannot be evaluated".to_string()),
        }
    }

    fn exec_select_then(
        &mut self,
        range: NumberRange<crate::number::Number>,
        sel: CardSelector,
        e: CardEffect,
        trash: bool,
    ) -> (r: EffectStepResult)
        requires
            old(self).stack@.len() > 0,
        ensures
            trash ==> node_done(*old(self), *final(self), r, CardEffect::TrashSelect(range, sel, Box::new(e))),
            !trash ==> node_done(*old(self), *final(self), r, CardEffect::DiscardSelect(range, sel, Box::new(e))),
            !(r is End),
    {
        proof {
            reveal(node_done);
            reveal(on_focus_then);
        }
        let target = self.stack[self.stack.len() - 1].target;
        let first = if trash {
            CardEffect::TrashCard(focused_cards())
        } else {
            CardEffect::DiscardCard(focused_cards())
        };
        let q = two_effects(first, e);
        match self.offer(&range, &sel, q) {
            Some((rr, infos)) => if trash {
                EffectStepResult::AskTrash(target, rr, infos)
            } else {
                EffectStepResult::AskDiscard(target, rr, infos)
            },
            None => EffectStepResult::Error("a choice cannot be evaluated".to_string()),
        }
    }

    fn exec_state(&mut self, effect: CardEffect) -> (r: EffectStepResult)
        requires
            old(self).stack@.len() > 0,
            !(effect is Noop || effect is Sequence || effect is AtomicSequence || effect is Optional
                || effect is FocusAll || effect is If || effect is While || effect is Until
                || effect is Select || effect is TrashSelect || effect is DiscardSelect),
        ensures
            node_done(*old(self), *final(self), r, effect),
            !(r is End),
    {
        proof {
            reveal(node_done);
        }
        match effect {
            CardEffect::RevealTop(n, e) => self.take_top_and_focus(&n, *e, Zone::Revealed),
            CardEffect::LookAtTop(n, e) => self.look_and_focus(&n, *e),
            CardEffect::DrawFocus(n, e) => self.take_top_and_focus(&n, *e, Zone::Hand),
            CardEffect::DrawFrom(sel) => self.move_selected(&sel, Zone::Hand),
            CardEffect::UseCard(sel) => self.use_cards(&sel),
            CardEffect::PlusDraw(n) => self.add_counter(0, &n),
            CardEffect::PlusAction(n) => self.add_counter(1, &n),
            CardEffect::PlusBuy(n) => self.add_counter(2, &n),
            CardEffect::PlusCoin(n) => self.add_counter(3, &n),
            CardEffect::TrashCard(sel) => self.trash_selected(&sel),
            CardEffect::DiscardCard(sel) => self.move_selected(&sel, Zone::Discard),
            CardEffect::MoveCard(sel, z) => {
                if !z.destination() {
                    return EffectStepResult::Error("cards cannot be moved to a view".to_string());
                }
                self.move_selected(&sel, z)
            },
            CardEffect::GainCard(ns) => self.gain_for_target(&ns, Zone::Discard),
            CardEffect::GainCardToHand(ns) => self.gain_for_target(&ns, Zone::Hand),
            CardEffect::AllOpponents(e) => self.push_for_opponents(&e, false),
            CardEffect::AttackAllOpponents(e) => self.push_for_opponents(&e, true),
            CardEffect::PreventDefault => self.prevent_default(),
            _ => EffectStepResult::Continue,
        }
    }
}

impl Game {
    fn splice_top(&mut self, effects: Vec<CardEffect>)
        requires
            old(self).stack@.len() > 0,
        ensures
            same_but_top_queue(*old(self), *final(self)),
            final(self).stack@.last().effect_queue@ == effects@ + old(self).stack@.last().effect_queue@,
    {
        let t = self.stack.len() - 1;
        splice_front(&mut self.stack[t].effect_queue, effects);
        proof {
            assert(self.stack@.drop_last() =~= old(self).stack@.drop_last());
        }
    }

    fn focus_all(&mut self, sel: &CardSelector, e: CardEffect) -> (r: EffectStepResult)
        requires
            old(self).stack@.len() > 0,
        ensures
            focused_all(*old(self), *final(self), r, *sel, e),
            !(r is End),
    {
        proof {
            reveal(focused_all);
        }
        let target = self.stack[self.stack.len() - 1].target;
        match self.resolve_selector(target, sel) {
            Some(ids) => {
                self.push_child(one_effect(e), ids, false, Awaiting::Nothing);
                EffectStepResult::Continue
            },
            None => EffectStepResult::Error("a selector cannot be evaluated".to_string()),
        }
    }

    /// Offers a choice: pushes a child with `queue`, waiting for cards
    /// among what `sel` matches; returns the resolved range and what the
    /// player is shown of the candidates.
    fn offer(
        &mut self,
        range: &NumberRange<crate::number::Number>,
        sel: &CardSelector,
        queue: Vec<CardEffect>,
    ) -> (r: Option<(NumberRange<i32>, Vec<CardInstanceInfo>)>)
        requires
            old(self).stack@.len() > 0,
        ensures
            offered(*old(self), *final(self), *range, *sel),
            r is Some ==> final(self).stack@.last().effect_queue@ == queue@,
            ({
                let tg = old(self).stack@.last().target;
                match (
                    old(self).eval_range(tg, *range, old(self).fuel()),
                    old(self).eval_selector(tg, *sel, old(self).fuel()),
                ) {
                    (Some(rr), Some(ids)) => match r {
                        Some((a, c)) => a == rr && shown(*old(self), c@, ids),
                        None => false,
                    },
                    _ => r is None,
                }
            }),
    {
        proof {
            reveal(offered);
        }
        let target = self.stack[self.stack.len() - 1].target;
        let rr = match self.resolve_number_range(target, range) {
            Some(rr) => rr,
            None => {
                return None;
            },
        };
        let ids = match self.resolve_selector(target, sel) {
            Some(ids) => ids,
            None => {
                return None;
            },
        };
        proof {
            self.lemma_filter_known(target, sel.name, self.zones_ids(target, sel.zone@), self.fuel());
        }
        let infos = match self.infos(&ids) {
            Some(infos) => infos,
            None => {
                return None;
            },
        };
        let offered_range = rr.duplicate();
        self.push_child(queue, Vec::new(), false, Awaiting::Cards(offered_range, ids));
        Some((rr, infos))
    }

    /// Puts `ids`, in order, onto the end of zone `dest` of `to`, with
    /// their addresses updated; they are taken out of nowhere.
    fn place_all(&mut self, ids: &Vec<CardInstanceId>, to: PlayerId, dest: Zone)
        requires
            old(self).player_of(to) is Some,
            dest.is_concrete(),
        ensures
            final(self).stack@ == old(self).stack@,
            final(self).supply@ == old(self).supply@,
            final(self).trash@ == old(self).trash@,
            final(self).resources == old(self).resources,
            final(self).catalog@ == old(self).catalog@,
            final(self).steps == old(self).steps,
            final(self).players@[to.id as int].id == old(self).players@[to.id as int].id,
            final(self).players@[to.id as int].name == old(self).players@[to.id as int].name,
            final(self).players@.len() == old(self).players@.len(),
            forall|q: int| 0 <= q < old(self).players@.len() && q != to.id ==> #[trigger] final(self).players@[q] == old(self).players@[q],
            forall|z: Zone| z.is_concrete() ==> #[trigger] concrete_zone(final(self).players@[to.id as int], z)
                == if z == dest {
                concrete_zone(old(self).players@[to.id as int], z) + ids@
            } else {
                concrete_zone(old(self).players@[to.id as int], z)
            },
            forall|i: int|
                0 <= i < ids@.len() && (#[trigger] ids@[i]).id < old(self).instances@.len()
                    ==> final(self).instances@[ids@[i].id as int].address == CardAddress::PlayerOwned(to, dest),
            final(self).instances@.len() == old(self).instances@.len(),
            forall|k: int|
                0 <= k < old(self).instances@.len() ==> (#[trigger] final(self).instances@[k]).card == old(self).instances@[k].card
                    && final(self).instances@[k].id == old(self).instances@[k].id,
            forall|k: int|
                0 <= k < old(self).instances@.len() && !lists_index(ids@, k) ==> #[trigger] final(self).instances@[k] == old(self).instances@[k],
    {
        let mut i: usize = 0;
        while i < ids.len()
            invariant
                i <= ids@.len(),
                old(self).player_of(to) is Some,
                dest.is_concrete(),
                self.stack@ == old(self).stack@,
                self.supply@ == old(self).supply@,
                self.trash@ == old(self).trash@,
                self.resources == old(self).resources,
                self.catalog@ == old(self).catalog@,
                self.steps == old(self).steps,
                self.players@[to.id as int].id == old(self).players@[to.id as int].id,
                self.players@[to.id as int].name == old(self).players@[to.id as int].name,
                self.instances@.len() == old(self).instances@.len(),
                self.players@.len() == old(self).players@.len(),
                forall|q: int| 0 <= q < old(self).players@.len() && q != to.id ==> #[trigger] self.players@[q] == old(self).players@[q],
                forall|z: Zone| z.is_concrete() ==> #[trigger] concrete_zone(self.players@[to.id as int], z)
                    == if z == dest {
                    concrete_zone(old(self).players@[to.id as int], z) + ids@.take(i as int)
                } else {
                    concrete_zone(old(self).players@[to.id as int], z)
                },
                forall|j: int|
                    0 <= j < i && (#[trigger] ids@[j]).id < old(self).instances@.len()
                        ==> self.instances@[ids@[j].id as int].address == CardAddress::PlayerOwned(to, dest),
                forall|k: int|
                    0 <= k < old(self).instances@.len() ==> (#[trigger] self.instances@[k]).card == old(self).instances@[k].card
                        && self.instances@[k].id == old(self).instances@[k].id,
                forall|k: int|
                    0 <= k < old(self).instances@.len() && !lists_index(ids@.take(i as int), k) ==> #[trigger] self.instances@[k] == old(self).instances@[k],
            decreases ids.len() - i,
        {
            let id = ids[i];
            let ghost before = *self;
            let v = zone_mut(&mut self.players[to.id], dest);
            v.push(id);
            if id.id < self.instances.len() {
                self.set_address(id, CardAddress::PlayerOwned(to, dest));
            }
            proof {
                assert(ids@.take(i + 1) =~= ids@.take(i as int).push(id));
                assert forall|z: Zone| z.is_concrete() implies #[trigger] concrete_zone(self.players@[to.id as int], z)
                    == if z == dest {
                    concrete_zone(old(self).players@[to.id as int], z) + ids@.take(i + 1)
                } else {
                    concrete_zone(old(self).players@[to.id as int], z)
                } by {
                    assert(concrete_zone(self.players@[to.id as int], z) == if z == dest {
                        concrete_zone(before.players@[to.id as int], z).push(id)
                    } else {
                        concrete_zone(before.players@[to.id as int], z)
                    });
                    if z == dest {
                        assert(concrete_zone(old(self).players@[to.id as int], z) + ids@.take(i + 1)
                            =~= (concrete_zone(old(self).players@[to.id as int], z) + ids@.take(i as int)).push(id));
                    }
                }
            }
            proof {
                assert forall|k: int| 0 <= k < old(self).instances@.len() implies lists_index(ids@.take(i + 1), k)
                    == (lists_index(ids@.take(i as int), k) || ids@[i as int].id == k) by {
                    lemma_lists_index_step(ids@, i as int, k);
                }
            }
            i = i + 1;
        }
        proof {
            assert(ids@.take(i as int) =~= ids@);
        }
    }

    /// Takes cards off the top of the target's deck (reshuffling as a draw
    /// does), puts them in zone `dest` and focuses a child on them.
    fn take_top_and_focus(&mut self, n: &crate::number::Number, e: CardEffect, dest: Zone) -> (r:
        EffectStepResult)
        requires
            old(self).stack@.len() > 0,
            dest == Zone::Revealed || dest == Zone::Hand,
        ensures
            took(*old(self), *final(self), r, *n, e, dest),
            !(r is End),
    {
        proof {
            reveal(took);
        }
        let target = self.stack[self.stack.len() - 1].target;
        let k = match self.resolve_number(target, n) {
            Some(k) => k,
            None => {
                return EffectStepResult::Error("a quantity cannot be evaluated".to_string());
            },
        };
        if !(target.id < self.players.len() && self.players[target.id].id == target) {
            return EffectStepResult::Error("unknown target player".to_string());
        }
        let ghost before_draw = *self;
        let cards = self.draw_with_reshuffle(target, k);
        let ghost drawn = *self;
        proof {
            assert forall|z: Zone| z.is_concrete() && z != Zone::Deck && z != Zone::Discard implies #[trigger] concrete_zone(
                drawn.players@[target.id as int],
                z,
            ) == concrete_zone(before_draw.players@[target.id as int], z) by {}
        }
        self.place_all(&cards, target, dest);
        proof {
            if before_draw.wf() {
                reveal(took_setup);
                assert(took_setup(before_draw, drawn, *self, target, dest, cards@));
                lemma_took_keeps_wf(before_draw, drawn, *self, target, dest, cards@);
            }
            assert forall|z: Zone| z.is_concrete() && z != Zone::Deck && z != Zone::Discard && z != dest implies #[trigger] concrete_zone(
                self.players@[target.id as int],
                z,
            ) == concrete_zone(before_draw.players@[target.id as int], z) by {
                assert(concrete_zone(drawn.players@[target.id as int], z) == concrete_zone(before_draw.players@[target.id as int], z));
            }
            assert(concrete_zone(self.players@[target.id as int], Zone::Deck) == concrete_zone(drawn.players@[target.id as int], Zone::Deck));
            assert(concrete_zone(self.players@[target.id as int], Zone::Discard) == concrete_zone(drawn.players@[target.id as int], Zone::Discard));
            assert(concrete_zone(self.players@[target.id as int], dest) == concrete_zone(drawn.players@[target.id as int], dest) + cards@);
        }
        self.push_child(one_effect(e), cards, false, Awaiting::Nothing);
        EffectStepResult::Continue
    }

    /// Focuses a child on the top cards of the target's deck; nothing
    /// moves.
    fn look_and_focus(&mut self, n: &crate::number::Number, e: CardEffect) -> (r: EffectStepResult)
        requires
            old(self).stack@.len() > 0,
        ensures
            looked(*old(self), *final(self), r, *n, e),
            !(r is End),
    {
        proof {
            reveal(looked);
        }
        let target = self.stack[self.stack.len() - 1].target;
        let k = match self.resolve_number(target, n) {
            Some(k) => k,
            None => {
                return EffectStepResult::Error("a quantity cannot be evaluated".to_string());
            },
        };
        if !(target.id < self.players.len() && self.players[target.id].id == target) {
            return EffectStepResult::Error("unknown target player".to_string());
        }
        let cards = self.look_at_top(target, k);
        self.push_child(one_effect(e), cards, false, Awaiting::Nothing);
        EffectStepResult::Continue
    }

    fn branch(&mut self, c: &EffectCond, e: CardEffect) -> (r: EffectStepResult)
        requires
            old(self).stack@.len() > 0,
        ensures
            branched(*old(self), *final(self), r, *c, e),
            !(r is End),
    {
        proof {
            reveal(branched);
        }
        let target = self.stack[self.stack.len() - 1].target;
        match self.resolve_cond(target, c) {
            Some(true) => {
                self.splice_top(one_effect(e));
                EffectStepResult::Continue
            },
            Some(false) => EffectStepResult::Continue,
            None => EffectStepResult::Error("a condition cannot be evaluated".to_string()),
        }
    }

    fn repeat(&mut self, c: EffectCond, e: CardEffect, go_on: bool) -> (r: EffectStepResult)
        requires
            old(self).stack@.len() > 0,
        ensures
            looped(*old(self), *final(self), r, c, e, go_on),
            !(r is End),
    {
        proof {
            reveal(looped);
        }
        let target = self.stack[self.stack.len() - 1].target;
        match self.resolve_cond(target, &c) {
            Some(b) => {
                if b == go_on {
                    let c2 = c.duplicate();
                    let e2 = e.duplicate();
                    let again = if go_on {
                        CardEffect::While(c2, Box::new(e2))
                    } else {
                        CardEffect::Until(c2, Box::new(e2))
                    };
                    self.splice_top(two_effects(e, again));
                    proof {
                        assert(self.stack@.last().effect_queue@.skip(2) =~= old(
                            self,
                        ).stack@.last().effect_queue@);
                    }
                }
                EffectStepResult::Continue
            },
            None => EffectStepResult::Error("a condition cannot be evaluated".to_string()),
        }
    }

    fn trash_selected(&mut self, sel: &CardSelector) -> (r: EffectStepResult)
        requires
            old(self).stack@.len() > 0,
        ensures
            trashed(*old(self), *final(self), r, *sel),
            !(r is End),
    {
        proof {
            reveal(trashed);
        }
        let target = self.stack[self.stack.len() - 1].target;
        match self.resolve_selector(target, sel) {
            Some(ids) => {
                proof {
                    self.lemma_filter_known(target, sel.name, self.zones_ids(target, sel.zone@), self.fuel());
                }
                self.trash_all(&ids);
                EffectStepResult::Continue
            },
            None => EffectStepResult::Error("a selector cannot be evaluated".to_string()),
        }
    }

    /// Cancels the rest of the nearest attack frame below the top.
    fn prevent_default(&mut self) -> (r: EffectStepResult)
        requires
            old(self).stack@.len() > 0,
        ensures
            prevented(*old(self), *final(self), r),
            !(r is End),
    {
        proof {
            reveal(prevented);
        }
        let t = self.stack.len() - 1;
        let mut k: usize = t;
        while k > 0
            invariant
                k <= t,
                t == self.stack@.len() - 1,
                *self == *old(self),
                nearest_attack(self.stack@, t as int) == nearest_attack(self.stack@, k as int),
            decreases k,
        {
            k = k - 1;
            if self.stack[k].attack {
                proof {
                    assert(nearest_attack(old(self).stack@, (k + 1) as int) == k as int);
                }
                self.stack[k].prevented = true;
                proof {
                    reveal(prevented);
                    assert(forall|i: int|
                        0 <= i < old(self).stack@.len() && i != k ==> #[trigger] self.stack@[i]
                            == old(self).stack@[i]);
                }
                return EffectStepResult::Continue;
            }
        }
        EffectStepResult::SkipContinue
    }

    /// Moves the cards of `sel` to zone `dest` of the target.
    fn move_selected(&mut self, sel: &CardSelector, dest: Zone) -> (r: EffectStepResult)
        requires
            old(self).stack@.len() > 0,
            dest.is_destination(),
        ensures
            moved_to(*old(self), *final(self), r, *sel, dest),
            !(r is End),
    {
        proof {
            reveal(moved_to);
        }
        let target = self.stack[self.stack.len() - 1].target;
        match self.resolve_selector(target, sel) {
            Some(ids) => {
                proof {
                    self.lemma_filter_known(target, sel.name, self.zones_ids(target, sel.zone@), self.fuel());
                }
                if target.id < self.players.len() && self.players[target.id].id == target {
                    self.move_all(&ids, target, dest);
                }
                EffectStepResult::Continue
            },
            None => EffectStepResult::Error("a selector cannot be evaluated".to_string()),
        }
    }

    /// Gains a card satisfying `ns` into zone `dest` of the target.
    fn gain_for_target(&mut self, ns: &CardNameSelector, dest: Zone) -> (r: EffectStepResult)
        requires
            old(self).stack@.len() > 0,
            dest.is_concrete(),
        ensures
            gained(*old(self), *final(self), r, *ns, dest),
            !(r is End),
    {
        proof {
            reveal(gained);
        }
        let target = self.stack[self.stack.len() - 1].target;
        if !(target.id < self.players.len() && self.players[target.id].id == target) {
            return EffectStepResult::Error("unknown target player".to_string());
        }
        match self.gain_card(target, ns, dest) {
            Some(true) => EffectStepResult::Continue,
            Some(false) => EffectStepResult::SkipContinue,
            None => EffectStepResult::Error("a card predicate cannot be evaluated".to_string()),
        }
    }

    /// Plays each card of `sel` again: for each, a frame of the acting
    /// player holding the card's play effects, the first card's on top.
    fn use_cards(&mut self, sel: &CardSelector) -> (r: EffectStepResult)
        requires
            old(self).stack@.len() > 0,
        ensures
            used(*old(self), *final(self), r, *sel),
            !(r is End),
    {
        proof {
            reveal(used);
        }
        let t = self.stack.len() - 1;
        let player = self.stack[t].player;
        let target = self.stack[t].target;
        let ids = match self.resolve_selector(target, sel) {
            Some(ids) => ids,
            None => {
                return EffectStepResult::Error("a selector cannot be evaluated".to_string());
            },
        };
        proof {
            self.lemma_filter_known(target, sel.name, self.zones_ids(target, sel.zone@), self.fuel());
        }
        let ghost base = self.stack@.len();
        let n = ids.len();
        let mut i: usize = n;
        while i > 0
            invariant
                i <= n,
                n == ids@.len(),
                base == old(self).stack@.len(),
                self.stack@.len() == base + (n - i),
                self.stack@.take(base as int) == old(self).stack@,
                self.players == old(self).players,
                self.instances == old(self).instances,
                self.catalog == old(self).catalog,
                self.supply == old(self).supply,
                self.trash == old(self).trash,
                self.resources == old(self).resources,
                self.steps == old(self).steps,
                player == old(self).stack@.last().player,
                forall|k: int| 0 <= k < n ==> old(self).card_of(#[trigger] ids@[k]) is Some,
                forall|j: int|
                    i <= j < n ==> {
                        let f = #[trigger] self.stack@[base + n - 1 - j];
                        &&& f.cause == Some(ids@[j])
                        &&& f.player == player
                        &&& f.target == player
                        &&& copies(firing(old(self).card_of(ids@[j]).unwrap().rules@, false), f.effect_queue@)
                        &&& f.focus@.len() == 0
                        &&& !f.atomic
                    },
            decreases i,
        {
            i = i - 1;
            let effects = match self.card_ref(ids[i]) {
                Some(card) => rule_effects(&card.rules, false),
                None => Vec::new(),
            };
            let f = frame_with(
                player,
                player,
                Some(ids[i]),
                effects,
                Vec::new(),
                false,
                Awaiting::Nothing,
            );
            let ghost before = self.stack@;
            self.stack.push(f);
            proof {
                assert(self.stack@.take(base as int) =~= before.take(base as int));
                assert forall|j: int| i <= j < n implies {
                    let f = #[trigger] self.stack@[base + n - 1 - j];
                    &&& f.cause == Some(ids@[j])
                    &&& f.player == player
                    &&& f.target == player
                    &&& copies(firing(old(self).card_of(ids@[j]).unwrap().rules@, false), f.effect_queue@)
                    &&& f.focus@.len() == 0
                    &&& !f.atomic
                } by {
                    if j > i {
                        assert(self.stack@[base + n - 1 - j] == before[base + n - 1 - j]);
                    }
                }
            }
        }
        EffectStepResult::Continue
    }

    /// For each player but the acting one, a frame targeting that player
    /// and holding a copy of `e`, the first player's on top. For an attack,
    /// each such frame may be cancelled by a reaction: above it go frames
    /// with the `Attacked` rules of the cards in that player's hand.
    fn push_for_opponents(&mut self, e: &CardEffect, attack: bool) -> (r: EffectStepResult)
        requires
            old(self).stack@.len() > 0,
        ensures
            dispatched(*old(self), *final(self), r, *e, attack),
            !(r is End),
    {
        proof {
            reveal(dispatched);
        }
        let t = self.stack.len() - 1;
        let player = self.stack[t].player;
        let cause = self.stack[t].cause;
        let ghost base = self.stack@.len();
        let mut q: usize = self.players.len();
        while q > 0
            invariant
                q <= self.players@.len(),
                player == old(self).stack@.last().player,
                cause == old(self).stack@.last().cause,
                base == old(self).stack@.len(),
                forall|q2: int|
                    q <= q2 < old(self).players@.len() && (#[trigger] old(self).players@[q2]).id != player
                        ==> frame_for(self.stack@, base as int, old(self).players@[q2].id, *e, attack, old(self).stack@.last()),

                self.players == old(self).players,
                self.supply == old(self).supply,
                self.trash == old(self).trash,
                self.instances == old(self).instances,
                self.resources == old(self).resources,
                self.stack@.len() >= base,
                self.stack@.take(base as int) == old(self).stack@,
                forall|i: int|
                    base <= i < self.stack@.len() ==> {
                        let f = #[trigger] self.stack@[i];
                        &&& f.target != player
                        &&& f.attack == attack || (attack && f.player == f.target)
                        &&& !f.atomic
                    },
            decreases q,
        {
            q = q - 1;
            let opp = self.players[q].id;
            if opp != player {
                let mut f = frame_with(
                    player,
                    opp,
                    cause,
                    one_effect(e.duplicate()),
                    Vec::new(),
                    false,
                    Awaiting::Nothing,
                );
                f.attack = attack;
                let ghost before = self.stack@;
                self.stack.push(f);
                proof {
                    assert(self.stack@.take(base as int) =~= before.take(base as int));
                    keep_frames(before, self.stack@, base as int, *e, attack, old(self).stack@.last());
                    let last = self.stack@.len() - 1;
                    assert(self.stack@[last].target == opp);
                    assert(frame_for(self.stack@, base as int, opp, *e, attack, old(self).stack@.last()));
                }
                if attack {
                    let hand = copy_ids(&self.players[q].hand);
                    let mut h: usize = hand.len();
                    while h > 0
                        invariant
                            h <= hand@.len(),
                            q < self.players@.len(),
                            opp != player,
                            opp == old(self).players@[q as int].id,
                            player == old(self).stack@.last().player,
                            cause == old(self).stack@.last().cause,
                            base == old(self).stack@.len(),
                forall|q2: int|
                    q <= q2 < old(self).players@.len() && (#[trigger] old(self).players@[q2]).id != player
                        ==> frame_for(self.stack@, base as int, old(self).players@[q2].id, *e, attack, old(self).stack@.last()),

                            self.players == old(self).players,
                            self.supply == old(self).supply,
                            self.trash == old(self).trash,
                            self.instances == old(self).instances,
                            self.resources == old(self).resources,
                            self.stack@.len() >= base,
                            self.stack@.take(base as int) == old(self).stack@,
                            forall|i: int|
                                base <= i < self.stack@.len() ==> {
                                    let f = #[trigger] self.stack@[i];
                                    &&& f.target != player
                                    &&& f.attack == attack || (attack && f.player == f.target)
                                    &&& !f.atomic
                                },
                        decreases h,
                    {
                        h = h - 1;
                        let reactions = match self.card_ref(hand[h]) {
                            Some(card) => rule_effects(&card.rules, true),
                            None => Vec::new(),
                        };
                        if reactions.len() > 0 {
                            let rf = frame_with(
                                opp,
                                opp,
                                Some(hand[h]),
                                reactions,
                                Vec::new(),
                                false,
                                Awaiting::Nothing,
                            );
                            let ghost before2 = self.stack@;
                            self.stack.push(rf);
                            proof {
                                assert(self.stack@.take(base as int) =~= before2.take(base as int));
                                keep_frames(before2, self.stack@, base as int, *e, attack, old(self).stack@.last());
                            }
                        }
                    }
                }
            }
        }
        EffectStepResult::Continue
    }
}

/// A choice of `chosen` answers an offer of `candidates` with range `rr`:
/// as many cards as the range admits, each a candidate, none twice.
pub open spec fn valid_choice(rr: NumberRange<i32>, candidates: Seq<CardInstanceId>, chosen: Seq<
    CardInstanceId,
>) -> bool {
    &&& chosen.len() <= i32::MAX
    &&& range_contains(rr, chosen.len() as int)
    &&& forall|k: int| 0 <= k < chosen.len() ==> candidates.contains(#[trigger] chosen[k])
    &&& chosen.no_duplicates()
}

/// `new` is `old` but for the focus and what the top frame waits for.
pub open spec fn same_but_top_focus(old: Game, new: Game) -> bool {
    &&& new.players == old.players
    &&& new.supply == old.supply
    &&& new.trash == old.trash
    &&& new.turn == old.turn
    &&& new.catalog == old.catalog
    &&& new.instances == old.instances
    &&& new.resources == old.resources
    &&& new.stack@.len() == old.stack@.len()
    &&& new.stack@.drop_last() == old.stack@.drop_last()
    &&& new.stack@.last().player == old.stack@.last().player
    &&& new.stack@.last().target == old.stack@.last().target
    &&& new.stack@.last().cause == old.stack@.last().cause
    &&& new.stack@.last().effect_queue == old.stack@.last().effect_queue
    &&& new.stack@.last().atomic == old.stack@.last().atomic
    &&& new.stack@.last().attack == old.stack@.last().attack
    &&& new.stack@.last().prevented == old.stack@.last().prevented
}

/// `mid` is `old` with the first effect taken off the queue of its top
/// frame, which waits for nothing any more; the step counter may differ.
pub open spec fn dequeued(old: Game, mid: Game) -> bool {
    &&& mid.players == old.players
    &&& mid.supply == old.supply
    &&& mid.trash == old.trash
    &&& mid.turn == old.turn
    &&& mid.catalog == old.catalog
    &&& mid.instances == old.instances
    &&& mid.resources == old.resources
    &&& mid.stack@.len() == old.stack@.len()
    &&& mid.stack@.drop_last() == old.stack@.drop_last()
    &&& mid.stack@.last().effect_queue@ == old.stack@.last().effect_queue@.drop_first()
    &&& mid.stack@.last().player == old.stack@.last().player
    &&& mid.stack@.last().target == old.stack@.last().target
    &&& mid.stack@.last().cause == old.stack@.last().cause
    &&& mid.stack@.last().focus == old.stack@.last().focus
    &&& mid.stack@.last().atomic == old.stack@.last().atomic
    &&& mid.stack@.last().attack == old.stack@.last().attack
    &&& mid.stack@.last().prevented == old.stack@.last().prevented
    &&& mid.stack@.last().awaiting is Nothing
}

/// `new` is `after` but for the step counter and, where `keep` is less
/// than the height of the stack, the frames from `keep` up.
pub open spec fn same_but_steps(after: Game, new: Game, keep: int) -> bool {
    &&& new.players == after.players
    &&& new.supply == after.supply
    &&& new.trash == after.trash
    &&& new.turn == after.turn
    &&& new.catalog == after.catalog
    &&& new.instances == after.instances
    &&& new.resources == after.resources
    &&& new.stack@ == if keep < after.stack@.len() {
        after.stack@.take(keep)
    } else {
        after.stack@
    }
}

/// `new` is `old` with its top frame popped.
pub open spec fn popped(old: Game, new: Game) -> bool {
    &&& new.players == old.players
    &&& new.supply == old.supply
    &&& new.trash == old.trash
    &&& new.turn == old.turn
    &&& new.catalog == old.catalog
    &&& new.instances == old.instances
    &&& new.resources == old.resources
    &&& new.stack@ == old.stack@.drop_last()
}

impl Game {
    /// Seeds the stack with a frame for `player`'s card applied to
    /// `target`. A `Sequence` becomes the frame's queue; any other effect
    /// is its only entry.
    pub fn push_frame(
        &mut self,
        initial_effect: CardEffect,
        player: PlayerId,
        target: PlayerId,
        cause: Option<CardInstanceId>,
    )
        ensures
            final(self).stack@.len() == old(self).stack@.len() + 1,
            final(self).stack@.drop_last() == old(self).stack@,
            final(self).stack@.last().player == player,
            final(self).stack@.last().target == target,
            final(self).stack@.last().cause == cause,
            final(self).stack@.last().focus@.len() == 0,
            !final(self).stack@.last().atomic,
            !final(self).stack@.last().attack,
            !final(self).stack@.last().prevented,
            final(self).stack@.last().awaiting is Nothing,
            match initial_effect {
                CardEffect::Sequence(v) => final(self).stack@.last().effect_queue@ == v@,
                _ => final(self).stack@.last().effect_queue@ == seq![initial_effect],
            },
            final(self).players == old(self).players,
            final(self).supply == old(self).supply,
            final(self).trash == old(self).trash,
            final(self).instances == old(self).instances,
            final(self).resources == old(self).resources,
    {
        let effects = match initial_effect {
            CardEffect::Sequence(v) => v,
            other => one_effect(other),
        };
        let f = frame_with(player, target, cause, effects, Vec::new(), false, Awaiting::Nothing);
        self.stack.push(f);
        proof {
            assert(self.stack@.drop_last() =~= old(self).stack@);
        }
    }

    /// One interpreter step: reports `End` on an empty stack; pops a top
    /// frame that is exhausted or cancelled (reporting `End` if that empties
    /// the stack); otherwise takes the first effect off the top frame's
    /// queue and executes it. In an atomic frame an inapplicable effect
    /// aborts the frame: it is popped with the rest of its queue and the
    /// step reports an error.
    pub fn step(&mut self) -> (r: EffectStepResult)
        ensures
            old(self).stack@.len() == 0 ==> r is End && *final(self) == *old(self),
            old(self).stack@.len() > 0 && old(self).steps < u64::MAX ==> final(self).steps
                == old(self).steps + 1,
            old(self).stack@.len() > 0 && (old(self).stack@.last().prevented
                || old(self).stack@.last().effect_queue@.len() == 0) ==> popped(
                *old(self),
                *final(self),
            ) && (if old(self).stack@.len() == 1 {
                r is End
            } else {
                r is Continue
            }),
            old(self).stack@.len() > 0 && !old(self).stack@.last().prevented
                && old(self).stack@.last().effect_queue@.len() > 0 ==> !(r is End) && !(
            old(self).stack@.last().atomic && r is SkipContinue) && exists|
                mid: Game,
                after: Game,
                r0: EffectStepResult,
            |
                {
                    &&& dequeued(*old(self), mid)
                    &&& node_done(mid, after, r0, old(self).stack@.last().effect_queue@[0])
                    &&& if old(self).stack@.last().atomic && r0 is SkipContinue {
                        r is Error && same_but_steps(after, *final(self), old(self).stack@.len() - 1)
                    } else {
                        r == r0 && same_but_steps(after, *final(self), after.stack@.len() as int)
                    }
                },
    {
        if self.stack.len() == 0 {
            return EffectStepResult::End;
        }
        if self.steps < u64::MAX {
            self.steps = self.steps + 1;
        }
        let t = self.stack.len() - 1;
        if self.stack[t].prevented || self.stack[t].effect_queue.len() == 0 {
            self.stack.pop();
            proof {
                assert(self.stack@ =~= old(self).stack@.drop_last());
            }
            if self.stack.len() == 0 {
                return EffectStepResult::End;
            }
            return EffectStepResult::Continue;
        }
        let atomic = self.stack[t].atomic;
        let effect = self.stack[t].effect_queue.pop_front().unwrap();
        self.stack[t].awaiting = Awaiting::Nothing;
        let ghost mid = *self;
        proof {
            assert(mid.stack@.drop_last() =~= old(self).stack@.drop_last());
        }
        let counted = self.steps;
        let r = self.exec_effect_one(effect);
        let ghost after = *self;
        self.steps = counted;
        if atomic && matches!(r, EffectStepResult::SkipContinue) {
            self.stack.truncate(t);
            proof {
                if t < after.stack@.len() {
                    assert(self.stack@ =~= after.stack@.take(t as int));
                } else {
                    assert(self.stack@ =~= after.stack@);
                }
                assert(dequeued(*old(self), mid));
                assert(node_done(mid, after, r, old(self).stack@.last().effect_queue@[0]));
                assert(same_but_steps(after, *self, old(self).stack@.len() - 1));
            }
            return EffectStepResult::Error(
                "an effect of an atomic sequence cannot be carried out".to_string(),
            );
        }
        proof {
            assert(dequeued(*old(self), mid));
            assert(node_done(mid, after, r, old(self).stack@.last().effect_queue@[0]));
            assert(same_but_steps(after, *self, after.stack@.len() as int));
        }
        r
    }

    /// Commits a driver's choice of cards to the top frame, which must be
    /// waiting for one: the choice must fit the offered range, name only
    /// offered cards and none twice. It then becomes the frame's focus.
    pub fn commit_cards(&mut self, chosen: Vec<CardInstanceId>) -> (r: Result<(), ChoiceError>)
        ensures
            r is Ok <==> (old(self).stack@.len() > 0 && match old(self).stack@.last().awaiting {
                Awaiting::Cards(rr, c) => valid_choice(rr, c@, chosen@),
                _ => false,
            }),
            r is Ok ==> same_but_top_focus(*old(self), *final(self))
                && final(self).stack@.last().focus@ == chosen@
                && final(self).stack@.last().awaiting is Nothing,
            r is Err ==> *final(self) == *old(self),
    {
        if self.stack.len() == 0 {
            return Err(ChoiceError::NotAsked);
        }
        let t = self.stack.len() - 1;
        let ok = match &self.stack[t].awaiting {
            Awaiting::Cards(rr, candidates) => check_choice(rr, candidates, &chosen),
            _ => Err(ChoiceError::NotAsked),
        };
        match ok {
            Ok(()) => {
                self.stack[t].focus = chosen;
                self.stack[t].awaiting = Awaiting::Nothing;
                proof {
                    assert(self.stack@.drop_last() =~= old(self).stack@.drop_last());
                }
                Ok(())
            },
            Err(e) => Err(e),
        }
    }

    /// Answers the yes/no question of the top frame: yes lets the frame
    /// run; no discards it unexecuted.
    pub fn answer_optional(&mut self, yes: bool) -> (r: Result<(), ChoiceError>)
        ensures
            r is Ok <==> (old(self).stack@.len() > 0 && old(self).stack@.last().awaiting is YesNo),
            r is Ok && !yes ==> popped(*old(self), *final(self)),
            r is Ok && yes ==> same_but_top_focus(*old(self), *final(self))
                && final(self).stack@.last().focus == old(self).stack@.last().focus
                && final(self).stack@.last().awaiting is Nothing,
            r is Err ==> *final(self) == *old(self),
    {
        if self.stack.len() == 0 {
            return Err(ChoiceError::NotAsked);
        }
        let t = self.stack.len() - 1;
        if !matches!(self.stack[t].awaiting, Awaiting::YesNo) {
            return Err(ChoiceError::NotAsked);
        }
        if yes {
            self.stack[t].awaiting = Awaiting::Nothing;
            proof {
                assert(self.stack@.drop_last() =~= old(self).stack@.drop_last());
            }
        } else {
            self.stack.pop();
            proof {
                assert(self.stack@ =~= old(self).stack@.drop_last());
            }
        }
        Ok(())
    }
}

/// Checks a choice against an offer.
pub fn check_choice(
    rr: &NumberRange<i32>,
    candidates: &Vec<CardInstanceId>,
    chosen: &Vec<CardInstanceId>,
) -> (r: Result<(), ChoiceError>)
    ensures
        r is Ok <==> valid_choice(*rr, candidates@, chosen@),
{
    if chosen.len() > i32::MAX as usize || !rr.contains(chosen.len() as i32) {
        return Err(ChoiceError::CountOutOfRange);
    }
    let mut i: usize = 0;
    while i < chosen.len()
        invariant
            i <= chosen@.len(),
            forall|k: int| 0 <= k < i ==> candidates@.contains(#[trigger] chosen@[k]),
            forall|a: int, b: int| 0 <= a < b < i ==> chosen@[a] != chosen@[b],
        decreases chosen.len() - i,
    {
        let c = chosen[i];
        let mut found = false;
        let mut j: usize = 0;
        while j < candidates.len()
            invariant
                j <= candidates@.len(),
                found ==> candidates@.contains(c),
                !found ==> forall|m: int| 0 <= m < j ==> candidates@[m] != c,
            decreases candidates.len() - j,
        {
            if candidates[j] == c {
                found = true;
            }
            j = j + 1;
        }
        if !found {
            return Err(ChoiceError::NotOffered);
        }
        let mut k: usize = 0;
        while k < i
            invariant
                k <= i,
                i < chosen@.len(),
                c == chosen@[i as int],
                forall|m: int| 0 <= m < k ==> chosen@[m] != c,
            decreases i - k,
        {
            if chosen[k] == c {
                proof {
                    assert(!chosen@.no_duplicates());
                }
                return Err(ChoiceError::Repeated);
            }
            k = k + 1;
        }
        i = i + 1;
    }
    Ok(())
}

} // verus!

verus! {

/// Three lists that together hold, as a multiset, exactly the cards of two
/// disjoint duplicate-free lists are duplicate-free, pairwise disjoint, and
/// hold exactly those cards.
proof fn lemma_partition(
    d: Seq<CardInstanceId>,
    c: Seq<CardInstanceId>,
    f: Seq<CardInstanceId>,
    n1: Seq<CardInstanceId>,
    n2: Seq<CardInstanceId>,
)
    requires
        d.no_duplicates(),
        c.no_duplicates(),
        forall|y: CardInstanceId| !(d.contains(y) && c.contains(y)),
        (f + n1 + n2).to_multiset() == (d + c).to_multiset(),
    ensures
        f.no_duplicates(),
        n1.no_duplicates(),
        n2.no_duplicates(),
        forall|y: CardInstanceId| !(f.contains(y) && n1.contains(y)),
        forall|y: CardInstanceId| !(f.contains(y) && n2.contains(y)),
        forall|y: CardInstanceId| !(n1.contains(y) && n2.contains(y)),
        forall|y: CardInstanceId|
            (f.contains(y) || n1.contains(y) || n2.contains(y)) <==> (d.contains(y) || c.contains(y)),
{
    broadcast use vstd::seq_lib::to_multiset_contains;

    let dc = d + c;
    let x = f + n1 + n2;
    assert(dc.no_duplicates()) by {
        assert forall|i: int, j: int| 0 <= i < dc.len() && 0 <= j < dc.len() && i != j implies dc[i] != dc[j] by {
            if i < d.len() && j >= d.len() {
                assert(d.contains(dc[i]));
                assert(c[j - d.len()] == dc[j]);
                assert(c.contains(dc[j]));
            } else if j < d.len() && i >= d.len() {
                assert(d.contains(dc[j]));
                assert(c[i - d.len()] == dc[i]);
                assert(c.contains(dc[i]));
            } else if i >= d.len() {
                assert(c[i - d.len()] == dc[i]);
                assert(c[j - d.len()] == dc[j]);
            }
        }
    }
    dc.lemma_multiset_has_no_duplicates();
    x.lemma_multiset_has_no_duplicates_conv();
    assert forall|y: CardInstanceId| x.contains(y) <==> dc.contains(y) by {
        vstd::seq_lib::to_multiset_contains(x, y);
        vstd::seq_lib::to_multiset_contains(dc, y);
    }
    assert forall|y: CardInstanceId| dc.contains(y) <==> (d.contains(y) || c.contains(y)) by {
        if dc.contains(y) {
            let i = choose|i: int| 0 <= i < dc.len() && dc[i] == y;
            if i >= d.len() {
                assert(c[i - d.len()] == y);
            }
        }
        if d.contains(y) {
            let i = choose|i: int| 0 <= i < d.len() && d[i] == y;
            assert(dc[i] == y);
        }
        if c.contains(y) {
            let i = choose|i: int| 0 <= i < c.len() && c[i] == y;
            assert(dc[d.len() + i] == y);
        }
    }
    let a = f.len();
    let b = n1.len();
    assert forall|y: CardInstanceId| x.contains(y) <==> (f.contains(y) || n1.contains(y) || n2.contains(y)) by {
        if x.contains(y) {
            let i = choose|i: int| 0 <= i < x.len() && x[i] == y;
            if i < a {
                assert(f[i] == y);
            } else if i < a + b {
                assert(n1[i - a] == y);
            } else {
                assert(n2[i - a - b] == y);
            }
        }
        if f.contains(y) {
            let i = choose|i: int| 0 <= i < f.len() && f[i] == y;
            assert(x[i] == y);
        }
        if n1.contains(y) {
            let i = choose|i: int| 0 <= i < n1.len() && n1[i] == y;
            assert(x[a + i] == y);
        }
        if n2.contains(y) {
            let i = choose|i: int| 0 <= i < n2.len() && n2[i] == y;
            assert(x[a + b + i] == y);
        }
    }
    assert forall|i: int, j: int| 0 <= i < f.len() && 0 <= j < f.len() && i != j implies f[i] != f[j] by {
        assert(x[i] == f[i] && x[j] == f[j]);
    }
    assert forall|i: int, j: int| 0 <= i < n1.len() && 0 <= j < n1.len() && i != j implies n1[i] != n1[j] by {
        assert(x[a + i] == n1[i] && x[a + j] == n1[j]);
    }
    assert forall|i: int, j: int| 0 <= i < n2.len() && 0 <= j < n2.len() && i != j implies n2[i] != n2[j] by {
        assert(x[a + b + i] == n2[i] && x[a + b + j] == n2[j]);
    }
    assert forall|y: CardInstanceId| !(f.contains(y) && n1.contains(y)) by {
        if f.contains(y) && n1.contains(y) {
            let i = choose|i: int| 0 <= i < f.len() && f[i] == y;
            let j = choose|j: int| 0 <= j < n1.len() && n1[j] == y;
            assert(x[i] == x[a + j]);
        }
    }
    assert forall|y: CardInstanceId| !(f.contains(y) && n2.contains(y)) by {
        if f.contains(y) && n2.contains(y) {
            let i = choose|i: int| 0 <= i < f.len() && f[i] == y;
            let j = choose|j: int| 0 <= j < n2.len() && n2[j] == y;
            assert(x[i] == x[a + b + j]);
        }
    }
    assert forall|y: CardInstanceId| !(n1.contains(y) && n2.contains(y)) by {
        if n1.contains(y) && n2.contains(y) {
            let i = choose|i: int| 0 <= i < n1.len() && n1[i] == y;
            let j = choose|j: int| 0 <= j < n2.len() && n2[j] == y;
            assert(x[a + i] == x[a + b + j]);
        }
    }
}

} // verus!

verus! {

/// Under the placement invariant, a card id names the instance whose own
/// id it is, so two ids of one instance are equal.
proof fn lemma_same_instance(g: Game, y: CardInstanceId, w: CardInstanceId)
    requires
        g.wf(),
        y.id == w.id,
    ensures
        y == w,
{
}

/// What drawing cards from the deck of `tg` (reshuffling as a draw does)
/// and putting them, `f`, onto the end of zone `dest` leaves: `drawn` after
/// the draw, `fin` after the placing.
#[verifier::opaque]
pub open spec fn took_setup(old: Game, drawn: Game, fin: Game, tg: PlayerId, dest: Zone, f: Seq<CardInstanceId>) -> bool {
    &&& old.wf()
    &&& old.player_of(tg) is Some
    &&& dest == Zone::Revealed || dest == Zone::Hand
    &&& same_but_deck_discard(old, drawn, tg)
    &&& ({
            let od = old.deck_of(tg);
            let oc = old.discard_of(tg);
            let m = f.len();
            ||| (od.len() >= m && drawn.instances@ == old.instances@ && drawn.deck_of(tg) == od.take(od.len() - m)
                && drawn.discard_of(tg) == oc && f == od.skip(od.len() - m).reverse())
            ||| (od.len() < m && readdressed(old, drawn, oc, CardAddress::PlayerOwned(tg, Zone::Deck))
                && drawn.discard_of(tg).len() == 0 && f.to_multiset().add(drawn.deck_of(tg).to_multiset())
                == od.to_multiset().add(oc.to_multiset()))
        })
    &&& fin.supply@ == drawn.supply@
    &&& fin.trash@ == drawn.trash@
    &&& fin.players@.len() == drawn.players@.len()
    &&& fin.players@[tg.id as int].id == drawn.players@[tg.id as int].id
    &&& forall|q: int| 0 <= q < drawn.players@.len() && q != tg.id ==> #[trigger] fin.players@[q] == drawn.players@[q]
    &&& forall|z: Zone| z.is_concrete() ==> #[trigger] concrete_zone(fin.players@[tg.id as int], z) == if z == dest {
            concrete_zone(drawn.players@[tg.id as int], z) + f
        } else {
            concrete_zone(drawn.players@[tg.id as int], z)
        }
    &&& fin.instances@.len() == drawn.instances@.len()
    &&& forall|k: int|
            0 <= k < drawn.instances@.len() ==> (#[trigger] fin.instances@[k]).card == drawn.instances@[k].card
                && fin.instances@[k].id == drawn.instances@[k].id
    &&& forall|k: int|
            0 <= k < drawn.instances@.len() && !lists_index(f, k) ==> #[trigger] fin.instances@[k] == drawn.instances@[k]
    &&& forall|i: int|
            0 <= i < f.len() && (#[trigger] f[i]).id < drawn.instances@.len()
                ==> fin.instances@[f[i].id as int].address == CardAddress::PlayerOwned(tg, dest)
}

/// What follows of `took_setup` under the placement invariant: the drawn
/// cards, the new deck and the new discard split the old deck and discard,
/// and each card has the address of where it now is.
#[verifier::opaque]
pub open spec fn took_facts(old: Game, drawn: Game, fin: Game, tg: PlayerId, dest: Zone, f: Seq<CardInstanceId>) -> bool {
    let od = old.deck_of(tg);
    let oc = old.discard_of(tg);
    let n1 = drawn.deck_of(tg);
    let n2 = drawn.discard_of(tg);
    &&& n1.no_duplicates()
    &&& n2.no_duplicates()
    &&& f.no_duplicates()
    &&& forall|y: CardInstanceId| (od.contains(y) || oc.contains(y)) <==> (f.contains(y) || n1.contains(y) || n2.contains(y))
    &&& forall|y: CardInstanceId| od.contains(y) ==> y.id < old.instances@.len() && old.instances@[y.id as int].address
        == CardAddress::PlayerOwned(tg, Zone::Deck)
    &&& forall|y: CardInstanceId| oc.contains(y) ==> y.id < old.instances@.len() && old.instances@[y.id as int].address
        == CardAddress::PlayerOwned(tg, Zone::Discard)
    &&& forall|y: CardInstanceId| n1.contains(y) ==> y.id < fin.instances@.len() && #[trigger] fin.instances@[y.id as int].address
        == CardAddress::PlayerOwned(tg, Zone::Deck)
    &&& forall|y: CardInstanceId| n2.contains(y) ==> y.id < fin.instances@.len() && #[trigger] fin.instances@[y.id as int].address
        == CardAddress::PlayerOwned(tg, Zone::Discard)
    &&& forall|y: CardInstanceId| f.contains(y) ==> y.id < fin.instances@.len() && #[trigger] fin.instances@[y.id as int].address
        == CardAddress::PlayerOwned(tg, dest)
    &&& forall|k: int| 0 <= k < old.instances@.len() && !(old.instances@[k].address == CardAddress::PlayerOwned(tg, Zone::Deck)
        || old.instances@[k].address == CardAddress::PlayerOwned(tg, Zone::Discard)) ==> #[trigger] fin.instances@[k] == old.instances@[k]
}

#[verifier::rlimit(100)]
proof fn lemma_took_facts(old: Game, drawn: Game, fin: Game, tg: PlayerId, dest: Zone, f: Seq<CardInstanceId>)
    requires
        old.wf(),
        took_setup(old, drawn, fin, tg, dest, f),
    ensures
        took_facts(old, drawn, fin, tg, dest, f),
{
    broadcast use vstd::seq_lib::to_multiset_contains;

    let t = tg.id as int;
    let od = old.deck_of(tg);
    let oc = old.discard_of(tg);
    let m = f.len();
    let deck_addr = CardAddress::PlayerOwned(tg, Zone::Deck);
    let disc_addr = CardAddress::PlayerOwned(tg, Zone::Discard);
    let n1 = drawn.deck_of(tg);
    let n2 = drawn.discard_of(tg);
    reveal(took_setup);
    reveal(took_facts);
    let reshuffled = od.len() < m;
    assert(old.players@[t].id == tg);
    assert(concrete_zone(old.players@[t], Zone::Deck) == od);
    assert(concrete_zone(old.players@[t], Zone::Discard) == oc);
    // the old deck and discard
    assert forall|y: CardInstanceId| od.contains(y) implies y.id < old.instances@.len() && old.instances@[y.id as int].address
        == deck_addr by {}
    assert forall|y: CardInstanceId| oc.contains(y) implies y.id < old.instances@.len() && old.instances@[y.id as int].address
        == disc_addr by {}
    assert forall|y: CardInstanceId| !(od.contains(y) && oc.contains(y)) by {
        if od.contains(y) && oc.contains(y) {
            assert(old.instances@[y.id as int].address == deck_addr);
        }
    }
    // the drawn cards, the new deck and the new discard partition them
    if !reshuffled {
        let k = od.len() - m;
        assert(od.take(k) + od.skip(k) =~= od);
        od.skip(k).lemma_reverse_to_multiset();
        vstd::seq_lib::lemma_multiset_commutative(od.take(k), od.skip(k));
        vstd::seq_lib::lemma_multiset_commutative(f, n1);
        vstd::seq_lib::lemma_multiset_commutative(f + n1, n2);
        vstd::seq_lib::lemma_multiset_commutative(od, oc);
        assert((f + n1 + n2).to_multiset() =~= (od + oc).to_multiset());
    } else {
        assert(n2 =~= Seq::<CardInstanceId>::empty());
        assert(f + n1 + n2 =~= f + n1);
        vstd::seq_lib::lemma_multiset_commutative(f, n1);
        vstd::seq_lib::lemma_multiset_commutative(od, oc);
    }
    lemma_partition(od, oc, f, n1, n2);
    // an index listed by the drawn cards names a drawn card
    assert forall|y: CardInstanceId| (od.contains(y) || oc.contains(y)) implies (lists_index(f, y.id as int) <==> f.contains(y)) by {
        if lists_index(f, y.id as int) {
            let j = choose|j: int| 0 <= j < f.len() && (#[trigger] f[j]).id == y.id;
            lemma_same_instance(old, f[j], y);
        }
        if f.contains(y) {
            let j = choose|j: int| 0 <= j < f.len() && f[j] == y;
            assert(f[j].id == y.id);
        }
    }
    // where a card of the deck or the discard ends up
    assert forall|k: int| 0 <= k < old.instances@.len() && !(old.instances@[k].address == deck_addr
        || old.instances@[k].address == disc_addr) implies !lists_index(f, k) && !lists_index(oc, k)
        && #[trigger] fin.instances@[k] == old.instances@[k] by {
        if lists_index(f, k) {
            let j = choose|j: int| 0 <= j < f.len() && (#[trigger] f[j]).id == k;
            assert(od.contains(f[j]) || oc.contains(f[j]));
        }
        if lists_index(oc, k) {
            let j = choose|j: int| 0 <= j < oc.len() && (#[trigger] oc[j]).id == k;
            assert(oc.contains(oc[j]));
        }
        assert(drawn.instances@[k] == old.instances@[k]);
    }
    assert forall|y: CardInstanceId| n1.contains(y) implies y.id < fin.instances@.len() && #[trigger] fin.instances@[y.id as int].address
        == deck_addr by {
        assert(od.contains(y) || oc.contains(y));
        assert(!f.contains(y));
        assert(!lists_index(f, y.id as int));
        if !reshuffled {
            assert(od.contains(y)) by {
                let i = choose|i: int| 0 <= i < n1.len() && n1[i] == y;
                assert(od[i] == y);
            }
        } else {
            if oc.contains(y) {
                let j = choose|j: int| 0 <= j < oc.len() && oc[j] == y;
                assert(oc[j].id == y.id);
                assert(lists_index(oc, y.id as int));
            } else {
                assert(!lists_index(oc, y.id as int)) by {
                    if lists_index(oc, y.id as int) {
                        let j = choose|j: int| 0 <= j < oc.len() && (#[trigger] oc[j]).id == y.id;
                        lemma_same_instance(old, oc[j], y);
                    }
                }
            }
        }
    }
    assert forall|y: CardInstanceId| n2.contains(y) implies y.id < fin.instances@.len() && #[trigger] fin.instances@[y.id as int].address
        == disc_addr by {
        assert(!f.contains(y));
        assert(!lists_index(f, y.id as int));
    }
    assert forall|y: CardInstanceId| f.contains(y) implies y.id < fin.instances@.len() && #[trigger] fin.instances@[y.id as int].address
        == CardAddress::PlayerOwned(tg, dest) by {
        let j = choose|j: int| 0 <= j < f.len() && f[j] == y;
        assert(od.contains(y) || oc.contains(y));
    }
}

#[verifier::rlimit(100)]
proof fn lemma_took_zones(old: Game, drawn: Game, fin: Game, tg: PlayerId, dest: Zone, f: Seq<CardInstanceId>)
    requires
        old.wf(),
        took_setup(old, drawn, fin, tg, dest, f),
        took_facts(old, drawn, fin, tg, dest, f),
    ensures
        forall|k: int, z: Zone| 0 <= k < fin.players@.len() && z.is_concrete() ==> {
            let c = #[trigger] concrete_zone(fin.players@[k], z);
            &&& c.no_duplicates()
            &&& forall|y: CardInstanceId|
                c.contains(y) ==> y.id < fin.instances@.len() && #[trigger] fin.instances@[y.id as int].address
                    == CardAddress::PlayerOwned(fin.players@[k].id, z)
        },
{
    broadcast use vstd::seq_lib::to_multiset_contains;

    let t = tg.id as int;
    let od = old.deck_of(tg);
    let oc = old.discard_of(tg);
    let m = f.len();
    let deck_addr = CardAddress::PlayerOwned(tg, Zone::Deck);
    let disc_addr = CardAddress::PlayerOwned(tg, Zone::Discard);
    let n1 = drawn.deck_of(tg);
    let n2 = drawn.discard_of(tg);
    reveal(took_setup);
    reveal(took_facts);
    assert(old.players@[t].id == tg);
    // zones
    assert forall|k: int, z: Zone| 0 <= k < fin.players@.len() && z.is_concrete() implies {
        let c = #[trigger] concrete_zone(fin.players@[k], z);
        &&& c.no_duplicates()
        &&& forall|y: CardInstanceId|
            c.contains(y) ==> y.id < fin.instances@.len() && #[trigger] fin.instances@[y.id as int].address
                == CardAddress::PlayerOwned(fin.players@[k].id, z)
    } by {
        let c = concrete_zone(fin.players@[k], z);
        let oz = concrete_zone(old.players@[k], z);
        if k == t && z == Zone::Deck {
            assert(c == n1);
        } else if k == t && z == Zone::Discard {
            assert(c == n2);
        } else {
            assert(concrete_zone(drawn.players@[k], z) == oz);
            assert forall|y: CardInstanceId| oz.contains(y) implies y.id < fin.instances@.len() && fin.instances@[y.id as int]
                == old.instances@[y.id as int] by {
                assert(old.instances@[y.id as int].address == CardAddress::PlayerOwned(old.players@[k].id, z));
            }
            if k == t && z == dest {
                assert(c == oz + f);
                assert forall|y: CardInstanceId| !(oz.contains(y) && f.contains(y)) by {
                    if oz.contains(y) && f.contains(y) {
                        assert(old.instances@[y.id as int].address == CardAddress::PlayerOwned(tg, dest));
                    }
                }
                assert forall|a: int, b: int| 0 <= a < c.len() && 0 <= b < c.len() && a != b implies c[a] != c[b] by {
                    if a < oz.len() && b < oz.len() {
                    } else if a >= oz.len() && b >= oz.len() {
                        assert(c[a] == f[a - oz.len()] && c[b] == f[b - oz.len()]);
                    } else if a < oz.len() {
                        assert(oz.contains(c[a]));
                        assert(f.contains(c[b])) by { assert(c[b] == f[b - oz.len()]); }
                    } else {
                        assert(oz.contains(c[b]));
                        assert(f.contains(c[a])) by { assert(c[a] == f[a - oz.len()]); }
                    }
                }
                assert forall|y: CardInstanceId| c.contains(y) implies y.id < fin.instances@.len() && #[trigger] fin.instances@[y.id as int].address
                    == CardAddress::PlayerOwned(fin.players@[k].id, z) by {
                    let j = choose|j: int| 0 <= j < c.len() && c[j] == y;
                    if j < oz.len() {
                        assert(oz.contains(y));
                    } else {
                        assert(f[j - oz.len()] == y);
                        assert(f.contains(y));
                    }
                }
            } else {
                assert(c == oz);
            }
        }
    }
}

/// Cards drawn from a player's deck (reshuffling as a draw does) and put
/// onto the end of zone `dest` keep the placement invariant.
#[verifier::rlimit(100)]
proof fn lemma_took_keeps_wf(old: Game, drawn: Game, fin: Game, tg: PlayerId, dest: Zone, f: Seq<CardInstanceId>)
    requires
        old.wf(),
        took_setup(old, drawn, fin, tg, dest, f),
    ensures
        fin.wf(),
{
    lemma_took_facts(old, drawn, fin, tg, dest, f);
    lemma_took_zones(old, drawn, fin, tg, dest, f);
    broadcast use vstd::seq_lib::to_multiset_contains;

    let t = tg.id as int;
    let od = old.deck_of(tg);
    let oc = old.discard_of(tg);
    let m = f.len();
    let deck_addr = CardAddress::PlayerOwned(tg, Zone::Deck);
    let disc_addr = CardAddress::PlayerOwned(tg, Zone::Discard);
    let n1 = drawn.deck_of(tg);
    let n2 = drawn.discard_of(tg);
    reveal(took_setup);
    reveal(took_facts);
    assert(old.players@[t].id == tg);
    assert(concrete_zone(old.players@[t], Zone::Deck) == od);
    assert(concrete_zone(old.players@[t], Zone::Discard) == oc);
    assert forall|k: int| 0 <= k < fin.players@.len() implies (#[trigger] fin.players@[k]).id.id == k by {
        if k != t {
            assert(fin.players@[k] == drawn.players@[k]);
        }
    }
    assert forall|k: int| 0 <= k < fin.instances@.len() implies (#[trigger] fin.instances@[k]).id.id == k by {
        assert(old.instances@[k].id.id == k);
    }
    assert forall|y: CardInstanceId| fin.trash@.contains(y) implies y.id < fin.instances@.len() && #[trigger] fin.instances@[y.id as int].address
        == CardAddress::Trash by {
        assert(old.instances@[y.id as int].address == CardAddress::Trash);
    }
    assert forall|i: int| 0 <= i < fin.supply@.len() implies {
        let c = (#[trigger] fin.supply@[i])@;
        &&& c.no_duplicates()
        &&& forall|y: CardInstanceId|
            c.contains(y) ==> y.id < fin.instances@.len() && in_pile(#[trigger] fin.instances@[y.id as int].address, i)
    } by {
        let c = fin.supply@[i]@;
        assert(c == (old.supply@[i])@);
        assert forall|y: CardInstanceId| c.contains(y) implies y.id < fin.instances@.len() && in_pile(#[trigger] fin.instances@[y.id as int].address, i) by {
            assert(in_pile(old.instances@[y.id as int].address, i));
        }
    }
    assert forall|k: int| 0 <= k < fin.instances@.len() implies holds(fin, (#[trigger] fin.instances@[k]).address, fin.instances@[k].id) by {
        let y = old.instances@[k].id;
        assert(y.id == k);
        assert(holds(old, old.instances@[k].address, y));
        let a = old.instances@[k].address;
        if a == deck_addr || a == disc_addr {
            assert(od.contains(y) || oc.contains(y));
            if f.contains(y) {
                assert(fin.instances@[k].address == CardAddress::PlayerOwned(tg, dest));
                assert(concrete_zone(fin.players@[t], dest) == concrete_zone(drawn.players@[t], dest) + f);
                let j = choose|j: int| 0 <= j < f.len() && f[j] == y;
                assert(concrete_zone(fin.players@[t], dest)[concrete_zone(drawn.players@[t], dest).len() + j] == y);
            } else if n1.contains(y) {
                assert(concrete_zone(fin.players@[t], Zone::Deck) == n1);
            } else {
                assert(n2.contains(y));
                assert(concrete_zone(fin.players@[t], Zone::Discard) == n2);
            }
        } else {
            assert(fin.instances@[k] == old.instances@[k]);
            match a {
                CardAddress::PlayerOwned(q, z) => {
                    let oz = concrete_zone(old.players@[q.id as int], z);
                    assert(concrete_zone(drawn.players@[q.id as int], z) == oz) by {
                        if q.id as int == t {
                            assert(z != Zone::Deck && z != Zone::Discard);
                        }
                    }
                    if q.id as int == t && z == dest {
                        let j = choose|j: int| 0 <= j < oz.len() && oz[j] == y;
                        assert(concrete_zone(fin.players@[t], dest)[j] == y);
                    }
                },
                _ => {},
            }
        }
    }
}

} // verus!

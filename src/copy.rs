use crate::ask_tag::{AskCardTag, AskOptionTag};
use crate::effect::{CardEffect, EffectCond, EffectTrigger};
use crate::number::{Number, NumberRange};
use crate::selector::{CardNameSelector, CardSelector};
use crate::zone::Zone;
use vstd::prelude::*;

verus! {

// Two trees are copies of each other when they have the same shape and the
// same leaves; lists are compared element by element.

pub open spec fn same_number(a: Number, b: Number) -> bool
    decreases a,
{
    match (a, b) {
        (Number::Constant(x), Number::Constant(y)) => x == y,
        (Number::CountCard(x), Number::CountCard(y)) => same_selector(x, y),
        (Number::CountCost(x), Number::CountCost(y)) => same_selector(x, y),
        (Number::CountEmptyPiles, Number::CountEmptyPiles) => true,
        (Number::Plus(x1, x2), Number::Plus(y1, y2)) => same_number(*x1, *y1) && same_number(*x2, *y2),
        (Number::Minus(x1, x2), Number::Minus(y1, y2)) => same_number(*x1, *y1) && same_number(*x2, *y2),
        (Number::Times(x1, x2), Number::Times(y1, y2)) => same_number(*x1, *y1) && same_number(*x2, *y2),
        (Number::Div(x1, x2), Number::Div(y1, y2)) => same_number(*x1, *y1) && same_number(*x2, *y2),
        (Number::Mod(x1, x2), Number::Mod(y1, y2)) => same_number(*x1, *y1) && same_number(*x2, *y2),
        _ => false,
    }
}

pub open spec fn same_range(a: NumberRange<Number>, b: NumberRange<Number>) -> bool
    decreases a,
{
    match (a, b) {
        (NumberRange::Exact(x), NumberRange::Exact(y)) => same_number(x, y),
        (NumberRange::UpTo(x), NumberRange::UpTo(y)) => same_number(x, y),
        (NumberRange::AtLeast(x), NumberRange::AtLeast(y)) => same_number(x, y),
        (NumberRange::Range(x1, x2), NumberRange::Range(y1, y2)) => same_number(x1, y1)
            && same_number(x2, y2),
        (NumberRange::AnyNumber, NumberRange::AnyNumber) => true,
        _ => false,
    }
}

pub open spec fn same_name(a: CardNameSelector, b: CardNameSelector) -> bool
    decreases a,
{
    match (a, b) {
        (CardNameSelector::Name(x), CardNameSelector::Name(y)) => x == y,
        (CardNameSelector::NameAnd(v), CardNameSelector::NameAnd(w)) => v@.len() == w@.len()
            && forall|i: int| 0 <= i < v@.len() ==> same_name(v@[i], w@[i]),
        (CardNameSelector::NameOr(v), CardNameSelector::NameOr(w)) => v@.len() == w@.len()
            && forall|i: int| 0 <= i < v@.len() ==> same_name(v@[i], w@[i]),
        (CardNameSelector::NameNot(x), CardNameSelector::NameNot(y)) => same_name(*x, *y),
        (CardNameSelector::HasType(x), CardNameSelector::HasType(y)) => x == y,
        (CardNameSelector::Cost(x), CardNameSelector::Cost(y)) => same_range(*x, *y),
        (CardNameSelector::Any, CardNameSelector::Any) => true,
        _ => false,
    }
}

pub open spec fn same_selector(a: CardSelector, b: CardSelector) -> bool
    decreases a,
{
    same_name(a.name, b.name) && a.zone@ == b.zone@
}

pub open spec fn same_cond(a: EffectCond, b: EffectCond) -> bool
    decreases a,
{
    match (a, b) {
        (EffectCond::Leq(x1, x2), EffectCond::Leq(y1, y2)) => same_number(x1, y1) && same_number(x2, y2),
        (EffectCond::Geq(x1, x2), EffectCond::Geq(y1, y2)) => same_number(x1, y1) && same_number(x2, y2),
        (EffectCond::Eq(x1, x2), EffectCond::Eq(y1, y2)) => same_number(x1, y1) && same_number(x2, y2),
        (EffectCond::CondAnd(v), EffectCond::CondAnd(w)) => v@.len() == w@.len() && forall|i: int|
            0 <= i < v@.len() ==> same_cond(v@[i], w@[i]),
        (EffectCond::CondOr(v), EffectCond::CondOr(w)) => v@.len() == w@.len() && forall|i: int|
            0 <= i < v@.len() ==> same_cond(v@[i], w@[i]),
        (EffectCond::CondNot(x), EffectCond::CondNot(y)) => same_cond(*x, *y),
        _ => false,
    }
}

pub open spec fn same_effect(a: CardEffect, b: CardEffect) -> bool
    decreases a,
{
    match (a, b) {
        (CardEffect::Noop, CardEffect::Noop) => true,
        (CardEffect::Sequence(v), CardEffect::Sequence(w)) => v@.len() == w@.len() && forall|i: int|
            0 <= i < v@.len() ==> same_effect(v@[i], w@[i]),
        (CardEffect::AtomicSequence(v), CardEffect::AtomicSequence(w)) => v@.len() == w@.len()
            && forall|i: int| 0 <= i < v@.len() ==> same_effect(v@[i], w@[i]),
        (CardEffect::Optional(t, x), CardEffect::Optional(u, y)) => t == u && same_effect(*x, *y),
        (CardEffect::FocusAll(s, x), CardEffect::FocusAll(t, y)) => same_selector(s, t)
            && same_effect(*x, *y),
        (CardEffect::Select(g, r, s, x), CardEffect::Select(h, q, t, y)) => g == h && same_range(r, q)
            && same_selector(s, t) && same_effect(*x, *y),
        (CardEffect::TrashSelect(r, s, x), CardEffect::TrashSelect(q, t, y)) => same_range(r, q)
            && same_selector(s, t) && same_effect(*x, *y),
        (CardEffect::DiscardSelect(r, s, x), CardEffect::DiscardSelect(q, t, y)) => same_range(r, q)
            && same_selector(s, t) && same_effect(*x, *y),
        (CardEffect::RevealTop(n, x), CardEffect::RevealTop(m, y)) => same_number(n, m)
            && same_effect(*x, *y),
        (CardEffect::LookAtTop(n, x), CardEffect::LookAtTop(m, y)) => same_number(n, m)
            && same_effect(*x, *y),
        (CardEffect::DrawFocus(n, x), CardEffect::DrawFocus(m, y)) => same_number(n, m)
            && same_effect(*x, *y),
        (CardEffect::DrawFrom(s), CardEffect::DrawFrom(t)) => same_selector(s, t),
        (CardEffect::If(c, x), CardEffect::If(d, y)) => same_cond(c, d) && same_effect(*x, *y),
        (CardEffect::While(c, x), CardEffect::While(d, y)) => same_cond(c, d) && same_effect(*x, *y),
        (CardEffect::Until(c, x), CardEffect::Until(d, y)) => same_cond(c, d) && same_effect(*x, *y),
        (CardEffect::UseCard(s), CardEffect::UseCard(t)) => same_selector(s, t),
        (CardEffect::PlusDraw(n), CardEffect::PlusDraw(m)) => same_number(n, m),
        (CardEffect::PlusAction(n), CardEffect::PlusAction(m)) => same_number(n, m),
        (CardEffect::PlusBuy(n), CardEffect::PlusBuy(m)) => same_number(n, m),
        (CardEffect::PlusCoin(n), CardEffect::PlusCoin(m)) => same_number(n, m),
        (CardEffect::TrashCard(s), CardEffect::TrashCard(t)) => same_selector(s, t),
        (CardEffect::DiscardCard(s), CardEffect::DiscardCard(t)) => same_selector(s, t),
        (CardEffect::GainCard(s), CardEffect::GainCard(t)) => same_name(s, t),
        (CardEffect::GainCardToHand(s), CardEffect::GainCardToHand(t)) => same_name(s, t),
        (CardEffect::MoveCard(s, z), CardEffect::MoveCard(t, w)) => same_selector(s, t) && z == w,
        (CardEffect::AllOpponents(x), CardEffect::AllOpponents(y)) => same_effect(*x, *y),
        (CardEffect::AttackAllOpponents(x), CardEffect::AttackAllOpponents(y)) => same_effect(
            *x,
            *y,
        ),
        (CardEffect::PreventDefault, CardEffect::PreventDefault) => true,
        _ => false,
    }
}

fn copy_zones(v: &Vec<Zone>) -> (r: Vec<Zone>)
    ensures
        r@ == v@,
{
    let mut r: Vec<Zone> = Vec::new();
    let mut i: usize = 0;
    while i < v.len()
        invariant
            i <= v@.len(),
            r@ == v@.take(i as int),
        decreases v.len() - i,
    {
        r.push(v[i]);
        i = i + 1;
        proof {
            assert(r@ =~= v@.take(i as int));
        }
    }
    proof {
        assert(r@ =~= v@);
    }
    r
}

impl Number {
    /// A deep copy.
    pub fn duplicate(&self) -> (r: Number)
        ensures
            same_number(*self, r),
        decreases *self, 1int,
    {
        match self {
            Number::Constant(c) => Number::Constant(*c),
            Number::CountCard(s) => Number::CountCard(s.duplicate()),
            Number::CountCost(s) => Number::CountCost(s.duplicate()),
            Number::CountEmptyPiles => Number::CountEmptyPiles,
            Number::Plus(a, b) => Number::Plus(Box::new(a.duplicate()), Box::new(b.duplicate())),
            Number::Minus(a, b) => Number::Minus(Box::new(a.duplicate()), Box::new(b.duplicate())),
            Number::Times(a, b) => Number::Times(Box::new(a.duplicate()), Box::new(b.duplicate())),
            Number::Div(a, b) => Number::Div(Box::new(a.duplicate()), Box::new(b.duplicate())),
            Number::Mod(a, b) => Number::Mod(Box::new(a.duplicate()), Box::new(b.duplicate())),
        }
    }
}

impl NumberRange<Number> {
    /// A deep copy.
    pub fn duplicate(&self) -> (r: NumberRange<Number>)
        ensures
            same_range(*self, r),
        decreases *self, 1int,
    {
        match self {
            NumberRange::Exact(n) => NumberRange::Exact(n.duplicate()),
            NumberRange::UpTo(n) => NumberRange::UpTo(n.duplicate()),
            NumberRange::AtLeast(n) => NumberRange::AtLeast(n.duplicate()),
            NumberRange::Range(a, b) => NumberRange::Range(a.duplicate(), b.duplicate()),
            NumberRange::AnyNumber => NumberRange::AnyNumber,
        }
    }
}

impl CardNameSelector {
    /// A deep copy.
    pub fn duplicate(&self) -> (r: CardNameSelector)
        ensures
            same_name(*self, r),
        decreases *self, 1int,
    {
        match self {
            CardNameSelector::Name(n) => CardNameSelector::Name(n.clone()),
            CardNameSelector::NameAnd(v) => CardNameSelector::NameAnd(copy_names(v, self)),
            CardNameSelector::NameOr(v) => CardNameSelector::NameOr(copy_names(v, self)),
            CardNameSelector::NameNot(b) => CardNameSelector::NameNot(Box::new(b.duplicate())),
            CardNameSelector::HasType(t) => CardNameSelector::HasType(*t),
            CardNameSelector::Cost(r) => CardNameSelector::Cost(Box::new(r.duplicate())),
            CardNameSelector::Any => CardNameSelector::Any,
        }
    }
}

/// A deep copy of the operands of `parent`.
fn copy_names(v: &Vec<CardNameSelector>, parent: &CardNameSelector) -> (r: Vec<CardNameSelector>)
    requires
        *parent == CardNameSelector::NameAnd(*v) || *parent == CardNameSelector::NameOr(*v),
    ensures
        r@.len() == v@.len(),
        forall|i: int| 0 <= i < v@.len() ==> same_name(v@[i], r@[i]),
    decreases *parent, 0int,
{
    let mut r: Vec<CardNameSelector> = Vec::new();
    let mut i: usize = 0;
    while i < v.len()
        invariant
            i <= v@.len(),
            r@.len() == i,
            forall|j: int| 0 <= j < i ==> same_name(v@[j], r@[j]),
            *parent == CardNameSelector::NameAnd(*v) || *parent == CardNameSelector::NameOr(*v),
        decreases v.len() - i,
    {
        proof {
            if *parent == CardNameSelector::NameAnd(*v) {
                assert(parent->NameAnd_0 == *v);
                assert(decreases_to!(*parent => parent->NameAnd_0@[i as int]));
            } else {
                assert(parent->NameOr_0 == *v);
                assert(decreases_to!(*parent => parent->NameOr_0@[i as int]));
            }
        }
        r.push(v[i].duplicate());
        i = i + 1;
    }
    r
}

impl CardSelector {
    /// A deep copy.
    pub fn duplicate(&self) -> (r: CardSelector)
        ensures
            same_selector(*self, r),
        decreases *self, 1int,
    {
        CardSelector { name: self.name.duplicate(), zone: copy_zones(&self.zone) }
    }
}

impl EffectCond {
    /// A deep copy.
    pub fn duplicate(&self) -> (r: EffectCond)
        ensures
            same_cond(*self, r),
        decreases *self, 1int,
    {
        match self {
            EffectCond::Leq(a, b) => EffectCond::Leq(a.duplicate(), b.duplicate()),
            EffectCond::Geq(a, b) => EffectCond::Geq(a.duplicate(), b.duplicate()),
            EffectCond::Eq(a, b) => EffectCond::Eq(a.duplicate(), b.duplicate()),
            EffectCond::CondAnd(v) => EffectCond::CondAnd(copy_conds(v, self)),
            EffectCond::CondOr(v) => EffectCond::CondOr(copy_conds(v, self)),
            EffectCond::CondNot(c) => EffectCond::CondNot(Box::new(c.duplicate())),
        }
    }
}

/// A deep copy of the operands of `parent`.
fn copy_conds(v: &Vec<EffectCond>, parent: &EffectCond) -> (r: Vec<EffectCond>)
    requires
        *parent == EffectCond::CondAnd(*v) || *parent == EffectCond::CondOr(*v),
    ensures
        r@.len() == v@.len(),
        forall|i: int| 0 <= i < v@.len() ==> same_cond(v@[i], r@[i]),
    decreases *parent, 0int,
{
    let mut r: Vec<EffectCond> = Vec::new();
    let mut i: usize = 0;
    while i < v.len()
        invariant
            i <= v@.len(),
            r@.len() == i,
            forall|j: int| 0 <= j < i ==> same_cond(v@[j], r@[j]),
            *parent == EffectCond::CondAnd(*v) || *parent == EffectCond::CondOr(*v),
        decreases v.len() - i,
    {
        proof {
            if *parent == EffectCond::CondAnd(*v) {
                assert(parent->CondAnd_0 == *v);
                assert(decreases_to!(*parent => parent->CondAnd_0@[i as int]));
            } else {
                assert(parent->CondOr_0 == *v);
                assert(decreases_to!(*parent => parent->CondOr_0@[i as int]));
            }
        }
        r.push(v[i].duplicate());
        i = i + 1;
    }
    r
}

impl EffectTrigger {
    /// A copy.
    pub fn duplicate(&self) -> (r: EffectTrigger)
        ensures
            r == *self,
        decreases *self,
    {
        match self {
            EffectTrigger::Attacked => EffectTrigger::Attacked,
            EffectTrigger::PlayAsAction => EffectTrigger::PlayAsAction,
            EffectTrigger::PlayAsTreasure => EffectTrigger::PlayAsTreasure,
            EffectTrigger::CardPlayed => EffectTrigger::CardPlayed,
            EffectTrigger::Cleanup => EffectTrigger::Cleanup,
            EffectTrigger::MyTurnStart => EffectTrigger::MyTurnStart,
            EffectTrigger::MyTurnEnd => EffectTrigger::MyTurnEnd,
            EffectTrigger::OncePerTurn(t) => EffectTrigger::OncePerTurn(Box::new(t.duplicate())),
        }
    }
}

impl CardEffect {
    /// A deep copy.
    pub fn duplicate(&self) -> (r: CardEffect)
        ensures
            same_effect(*self, r),
        decreases *self, 1int,
    {
        match self {
            CardEffect::Noop => CardEffect::Noop,
            CardEffect::Sequence(v) => CardEffect::Sequence(copy_effects(v, self)),
            CardEffect::AtomicSequence(v) => CardEffect::AtomicSequence(copy_effects(v, self)),
            CardEffect::Optional(t, e) => CardEffect::Optional(t.duplicate(), Box::new(e.duplicate())),
            CardEffect::FocusAll(s, e) => CardEffect::FocusAll(s.duplicate(), Box::new(e.duplicate())),
            CardEffect::Select(t, r, s, e) => CardEffect::Select(
                t.duplicate(),
                r.duplicate(),
                s.duplicate(),
                Box::new(e.duplicate()),
            ),
            CardEffect::TrashSelect(r, s, e) => CardEffect::TrashSelect(
                r.duplicate(),
                s.duplicate(),
                Box::new(e.duplicate()),
            ),
            CardEffect::DiscardSelect(r, s, e) => CardEffect::DiscardSelect(
                r.duplicate(),
                s.duplicate(),
                Box::new(e.duplicate()),
            ),
            CardEffect::RevealTop(n, e) => CardEffect::RevealTop(n.duplicate(), Box::new(e.duplicate())),
            CardEffect::LookAtTop(n, e) => CardEffect::LookAtTop(n.duplicate(), Box::new(e.duplicate())),
            CardEffect::DrawFocus(n, e) => CardEffect::DrawFocus(n.duplicate(), Box::new(e.duplicate())),
            CardEffect::DrawFrom(s) => CardEffect::DrawFrom(s.duplicate()),
            CardEffect::If(c, e) => CardEffect::If(c.duplicate(), Box::new(e.duplicate())),
            CardEffect::While(c, e) => CardEffect::While(c.duplicate(), Box::new(e.duplicate())),
            CardEffect::Until(c, e) => CardEffect::Until(c.duplicate(), Box::new(e.duplicate())),
            CardEffect::UseCard(s) => CardEffect::UseCard(s.duplicate()),
            CardEffect::PlusDraw(n) => CardEffect::PlusDraw(n.duplicate()),
            CardEffect::PlusAction(n) => CardEffect::PlusAction(n.duplicate()),
            CardEffect::PlusBuy(n) => CardEffect::PlusBuy(n.duplicate()),
            CardEffect::PlusCoin(n) => CardEffect::PlusCoin(n.duplicate()),
            CardEffect::TrashCard(s) => CardEffect::TrashCard(s.duplicate()),
            CardEffect::DiscardCard(s) => CardEffect::DiscardCard(s.duplicate()),
            CardEffect::GainCard(s) => CardEffect::GainCard(s.duplicate()),
            CardEffect::GainCardToHand(s) => CardEffect::GainCardToHand(s.duplicate()),
            CardEffect::MoveCard(s, z) => CardEffect::MoveCard(s.duplicate(), *z),
            CardEffect::AllOpponents(e) => CardEffect::AllOpponents(Box::new(e.duplicate())),
            CardEffect::AttackAllOpponents(e) => CardEffect::AttackAllOpponents(
                Box::new(e.duplicate()),
            ),
            CardEffect::PreventDefault => CardEffect::PreventDefault,
        }
    }
}

/// A deep copy of the children of `parent`.
fn copy_effects(v: &Vec<CardEffect>, parent: &CardEffect) -> (r: Vec<CardEffect>)
    requires
        *parent == CardEffect::Sequence(*v) || *parent == CardEffect::AtomicSequence(*v),
    ensures
        r@.len() == v@.len(),
        forall|i: int| 0 <= i < v@.len() ==> same_effect(v@[i], r@[i]),
    decreases *parent, 0int,
{
    let mut r: Vec<CardEffect> = Vec::new();
    let mut i: usize = 0;
    while i < v.len()
        invariant
            i <= v@.len(),
            r@.len() == i,
            forall|j: int| 0 <= j < i ==> same_effect(v@[j], r@[j]),
            *parent == CardEffect::Sequence(*v) || *parent == CardEffect::AtomicSequence(*v),
        decreases v.len() - i,
    {
        proof {
            if *parent == CardEffect::Sequence(*v) {
                assert(parent->Sequence_0 == *v);
                assert(decreases_to!(*parent => parent->Sequence_0@[i as int]));
            } else {
                assert(parent->AtomicSequence_0 == *v);
                assert(decreases_to!(*parent => parent->AtomicSequence_0@[i as int]));
            }
        }
        r.push(v[i].duplicate());
        i = i + 1;
    }
    r
}

} // verus!

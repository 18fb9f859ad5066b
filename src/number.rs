use crate::selector::CardSelector;
use vstd::prelude::*;

verus! {

/// A quantity, evaluated against the game from one player's point of view.
#[derive(Debug)]
pub enum Number {
    Constant(i32),
    CountCard(CardSelector),
    CountCost(CardSelector),
    CountEmptyPiles,
    Plus(Box<Number>, Box<Number>),
    Minus(Box<Number>, Box<Number>),
    Times(Box<Number>, Box<Number>),
    Div(Box<Number>, Box<Number>),
    Mod(Box<Number>, Box<Number>),
}

/// A range of quantities: `Exact(n)` is `n`, `UpTo(n)` is `0..=n`,
/// `AtLeast(n)` is `n..`, `Range(a, b)` is `a..=b`; `AnyNumber` admits every
/// integer.
#[derive(Debug)]
pub enum NumberRange<N> {
    Exact(N),
    UpTo(N),
    AtLeast(N),
    Range(N, N),
    AnyNumber,
}

/// Whether a resolved range admits `n`.
pub open spec fn range_contains(r: NumberRange<i32>, n: int) -> bool {
    match r {
        NumberRange::Exact(m) => n == m,
        NumberRange::UpTo(m) => 0 <= n <= m,
        NumberRange::AtLeast(m) => n >= m,
        NumberRange::Range(a, b) => a <= n <= b,
        NumberRange::AnyNumber => true,
    }
}

impl NumberRange<i32> {
    pub fn contains(&self, n: i32) -> (r: bool)
        ensures
            r == range_contains(*self, n as int),
    {
        match self {
            NumberRange::Exact(m) => n == *m,
            NumberRange::UpTo(m) => n >= 0 && n <= *m,
            NumberRange::AtLeast(m) => n >= *m,
            NumberRange::Range(a, b) => n >= *a && n <= *b,
            NumberRange::AnyNumber => true,
        }
    }

    /// A copy of a resolved range.
    pub fn duplicate(&self) -> (r: NumberRange<i32>)
        ensures
            r == *self,
    {
        match self {
            NumberRange::Exact(m) => NumberRange::Exact(*m),
            NumberRange::UpTo(m) => NumberRange::UpTo(*m),
            NumberRange::AtLeast(m) => NumberRange::AtLeast(*m),
            NumberRange::Range(a, b) => NumberRange::Range(*a, *b),
            NumberRange::AnyNumber => NumberRange::AnyNumber,
        }
    }
}

} // verus!

use vstd::prelude::*;

verus! {

/// Where a card can be, seen from one player.
///
/// The first seven are real containers on a player. The others are views:
/// `DeckTop` is the last card of the deck (and may also be a destination),
/// `AllMyCards` is every concrete zone together, `Focused` is the focus set of
/// the innermost stack frame and `Itself` is the card that caused that frame.
#[derive(Clone, Copy, Debug, PartialEq, Eq, Structural)]
pub enum Zone {
    Deck,
    Hand,
    Discard,
    Play,
    Pending,
    Aside,
    Revealed,
    DeckTop,
    AllMyCards,
    Focused,
    Itself,
}

impl Zone {
    /// A zone that is a real container on a player.
    pub open spec fn is_concrete(self) -> bool {
        match self {
            Zone::Deck | Zone::Hand | Zone::Discard | Zone::Play | Zone::Pending | Zone::Aside
            | Zone::Revealed => true,
            _ => false,
        }
    }

    /// Whether this is a real container on a player.
    pub fn concrete(&self) -> (r: bool)
        ensures
            r == self.is_concrete(),
    {
        match self {
            Zone::Deck | Zone::Hand | Zone::Discard | Zone::Play | Zone::Pending | Zone::Aside
            | Zone::Revealed => true,
            _ => false,
        }
    }

    /// Whether cards may be moved into this zone.
    pub fn destination(&self) -> (r: bool)
        ensures
            r == self.is_destination(),
    {
        match self {
            Zone::AllMyCards | Zone::Focused | Zone::Itself => false,
            _ => true,
        }
    }

    /// A zone that cards may be moved into.
    pub open spec fn is_destination(self) -> bool {
        self.is_concrete() || self == Zone::DeckTop
    }
}

} // verus!

use crate::card::Card;
use crate::player::PlayerId;
use crate::zone::Zone;
use vstd::prelude::*;

verus! {

/// Names one physical copy of a card; in a well-formed game it is the
/// copy's index among the game's instances.
#[derive(Clone, Copy, Debug, PartialEq, Eq, Structural)]
pub struct CardInstanceId {
    pub id: usize,
}

impl CardInstanceId {
    pub fn new(id: usize) -> (r: CardInstanceId)
        ensures
            r.id == id,
    {
        CardInstanceId { id }
    }
}

/// The id of a copy of a card.
pub type CardId = CardInstanceId;

/// Where a copy of a card is: a slot of a supply pile, a zone of a player,
/// or the trash.
#[derive(Clone, Copy, Debug, PartialEq, Eq, Structural)]
pub enum CardAddress {
    Supply(usize, usize),
    PlayerOwned(PlayerId, Zone),
    Trash,
}

/// One physical copy of a card: the index of its catalog entry, its id and
/// its address.
#[derive(Clone, Copy, Debug, PartialEq, Eq, Structural)]
pub struct CardInstance {
    pub card: usize,
    pub id: CardInstanceId,
    pub address: CardAddress,
}

/// What a player is shown of a copy of a card.
#[derive(Debug)]
pub struct CardInstanceInfo {
    pub name: String,
    pub localized_name: String,
    pub instance_id: CardInstanceId,
}

impl CardInstance {
    /// What a player is shown of this copy, given its catalog entry.
    pub fn info(&self, card: &Card) -> (r: CardInstanceInfo)
        ensures
            r.name == card.name,
            r.localized_name == card.localized_name,
            r.instance_id == self.id,
    {
        CardInstanceInfo {
            name: card.name.clone(),
            localized_name: card.localized_name.clone(),
            instance_id: self.id,
        }
    }
}

} // verus!

use crate::card_instance::CardInstanceId;
use vstd::prelude::*;

verus! {

/// Names a player; in a well-formed game it is the player's index.
#[derive(Clone, Copy, Debug, PartialEq, Eq, Structural)]
pub struct PlayerId {
    pub id: usize,
}

impl PlayerId {
    pub fn new(id: usize) -> (r: PlayerId)
        ensures
            r.id == id,
    {
        PlayerId { id }
    }
}

/// A player and the concrete zones that they own. The last card of `deck`
/// is the top of the deck.
#[derive(Debug)]
pub struct PlayerData {
    pub name: String,
    pub deck: Vec<CardInstanceId>,
    pub hand: Vec<CardInstanceId>,
    pub play: Vec<CardInstanceId>,
    pub pending: Vec<CardInstanceId>,
    pub aside: Vec<CardInstanceId>,
    pub revealed: Vec<CardInstanceId>,
    pub discard: Vec<CardInstanceId>,
    pub id: PlayerId,
}

impl PlayerData {
    /// A player with every zone empty.
    pub fn new(id: PlayerId, name: &str) -> (r: PlayerData)
        ensures
            r.id == id,
            r.name@ == name@,
            r.deck@.len() == 0,
            r.hand@.len() == 0,
            r.play@.len() == 0,
            r.pending@.len() == 0,
            r.aside@.len() == 0,
            r.revealed@.len() == 0,
            r.discard@.len() == 0,
    {
        PlayerData {
            name: name.to_owned(),
            deck: Vec::new(),
            hand: Vec::new(),
            play: Vec::new(),
            pending: Vec::new(),
            aside: Vec::new(),
            revealed: Vec::new(),
            discard: Vec::new(),
            id,
        }
    }
}

} // verus!

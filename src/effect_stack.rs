use crate::ask_tag::{AskCardTag, AskOptionTag};
use crate::card_instance::{CardInstanceId, CardInstanceInfo};
use crate::effect::CardEffect;
use crate::number::NumberRange;
use crate::player::PlayerId;
use std::collections::VecDeque;
use vstd::prelude::*;

verus! {

/// What a suspended frame waits for before its queue may run.
#[derive(Debug)]
pub enum Awaiting {
    /// Nothing: the frame runs on the next step.
    Nothing,
    /// A choice of cards among `candidates`, as many as the range admits.
    Cards(NumberRange<i32>, Vec<CardInstanceId>),
    /// A yes or no; a no discards the frame unexecuted.
    YesNo,
}

/// One scope of effect execution.
#[derive(Debug)]
pub struct EffectStackFrame {
    /// The player whose card is resolving.
    pub player: PlayerId,
    /// The player whom the effect currently applies to.
    pub target: PlayerId,
    pub effect_queue: VecDeque<CardEffect>,
    /// The cards the effect currently operates on.
    pub focus: Vec<CardInstanceId>,
    /// The card whose play caused this chain.
    pub cause: Option<CardInstanceId>,
    /// An atomic frame aborts with an error where others skip.
    pub atomic: bool,
    /// The frame holds the default resolution of an attack on `target`.
    pub attack: bool,
    /// A reaction has cancelled the rest of this frame.
    pub prevented: bool,
    pub awaiting: Awaiting,
}

/// The outcome of one interpreter step.
#[derive(Debug)]
pub enum EffectStepResult {
    Continue,
    Error(String),
    AskCard(PlayerId, AskCardTag, NumberRange<i32>, Vec<CardInstanceInfo>),
    AskTrash(PlayerId, NumberRange<i32>, Vec<CardInstanceInfo>),
    AskDiscard(PlayerId, NumberRange<i32>, Vec<CardInstanceInfo>),
    AskOptional(PlayerId, AskOptionTag),
    SkipContinue,
    End,
}

/// Puts `effects` in front of `queue`, keeping their order.
pub fn splice_front(queue: &mut VecDeque<CardEffect>, effects: Vec<CardEffect>)
    ensures
        final(queue)@ == effects@ + old(queue)@,
{
    let mut effects = effects;
    let ghost all = effects@;
    let ghost start = queue@;
    // take the effects off the back, each onto the front of the queue
    while effects.len() > 0
        invariant
            effects@ + queue@ == all + start,
        decreases effects.len(),
    {
        let e = effects.pop().unwrap();
        proof {
            assert(effects@.push(e) + queue@ =~= effects@ + queue@.insert(0, e));
        }
        queue.push_front(e);
    }
    proof {
        assert(effects@ + queue@ =~= queue@);
    }
}

impl EffectStackFrame {
    /// A frame for `player`'s card applied to `target`, whose queue holds
    /// `effects` in order.
    pub fn new(
        player: PlayerId,
        target: PlayerId,
        effects: Vec<CardEffect>,
        cause: Option<CardInstanceId>,
    ) -> (r: EffectStackFrame)
        ensures
            r.player == player,
            r.target == target,
            r.effect_queue@ == effects@,
            r.focus@.len() == 0,
            r.cause == cause,
            !r.atomic,
            !r.attack,
            !r.prevented,
            r.awaiting is Nothing,
    {
        let mut queue: VecDeque<CardEffect> = VecDeque::new();
        splice_front(&mut queue, effects);
        proof { assert(queue@ =~= effects@); }
        EffectStackFrame {
            player,
            target,
            effect_queue: queue,
            focus: Vec::new(),
            cause,
            atomic: false,
            attack: false,
            prevented: false,
            awaiting: Awaiting::Nothing,
        }
    }
}

/// Why a choice handed back by a driver was refused.
#[derive(Clone, Copy, Debug, PartialEq, Eq, Structural)]
pub enum ChoiceError {
    /// The top frame asks for no such choice.
    NotAsked,
    /// The number of cards chosen is outside the range offered.
    CountOutOfRange,
    /// A chosen card was not among the candidates.
    NotOffered,
    /// A card was chosen twice.
    Repeated,
}

} // verus!

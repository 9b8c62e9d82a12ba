use vstd::prelude::*;

verus! {

/// The special actions that advances, wonders and civilizations grant.
#[derive(Clone, Copy, Debug, PartialEq, Eq, Structural)]
pub enum CustomActionType {
    ArtsInfluenceCultureAttempt,
    Bartering,
    CityPlanning,
    ConstructWonder,
    ForcedLabor,
    FreeEconomyCollect,
    Philosophy,
    Sports,
    Taxes,
    Theaters,
    VotingIncreaseHappiness,
}

/// What follows once the handler of a custom phase event has run.
#[derive(Clone, Copy, Debug, PartialEq, Eq, Structural)]
pub enum PhaseStep {
    /// The event now on top needs no answer: run its phase for this player at once.
    Continue(usize),
    /// The event now on top waits for its player's answer.
    WaitForAnswer,
    /// No event is left.
    Done,
}

/// Decides the step after a custom phase event, given the event now on top of the stack as
/// its player and whether a request waits for that player's answer.
pub fn next_phase_step(top: Option<(usize, bool)>) -> (r: PhaseStep)
    ensures
        r == match top {
            None => PhaseStep::Done,
            Some((player, waiting)) => if waiting {
                PhaseStep::WaitForAnswer
            } else {
                PhaseStep::Continue(player)
            },
        },
{
    match top {
        None => PhaseStep::Done,
        Some((player, waiting)) => if waiting {
            PhaseStep::WaitForAnswer
        } else {
            PhaseStep::Continue(player)
        },
    }
}

} // verus!

use vstd::prelude::*;

verus! {

/// The two sides of a combat.
#[derive(Clone, Copy, Debug, PartialEq, Eq, Structural)]
pub enum CombatRole {
    Attacker,
    Defender,
}

impl CombatRole {
    pub fn is_attacker(&self) -> (r: bool)
        ensures
            r == (*self is Attacker),
    {
        matches!(self, CombatRole::Attacker)
    }

    pub fn is_defender(&self) -> (r: bool)
        ensures
            r == (*self is Defender),
    {
        matches!(self, CombatRole::Defender)
    }
}

} // verus!

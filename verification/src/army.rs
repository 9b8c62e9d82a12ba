use vstd::prelude::*;

use crate::position::Position;

verus! {

/// The kinds of army units.
#[derive(Clone, Copy, Debug, PartialEq, Eq, Structural)]
pub enum ArmyUnitType {
    Infantry,
    Cavalry,
    Elephant,
    Leader,
}

/// The kinds of units, with army units grouped.
#[derive(Clone, Copy, Debug, PartialEq, Eq, Structural)]
pub enum UnitType {
    Ship,
    ArmyUnit(ArmyUnitType),
    Settler,
}

/// A unit on the map, owned by a named player.
#[derive(Clone, Debug)]
pub struct Unit {
    pub player: String,
    pub unit_type: UnitType,
    pub transporter: Option<Position>,
    pub can_attack: bool,
}

} // verus!

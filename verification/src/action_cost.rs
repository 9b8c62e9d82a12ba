use vstd::prelude::*;

use crate::custom_actions::CustomActionType;
use crate::resource_pile::{empty_pile, ResourcePile};

verus! {

/// What an action costs besides the action itself.
#[derive(Clone, Copy, Debug, PartialEq, Eq, Structural)]
pub enum ActionResourceCost {
    Free,
    Resources(ResourcePile),
    Tokens(u8),
    AdvanceCostWithoutDiscount,
}

impl ActionResourceCost {
    pub fn free() -> (r: ActionResourceCost)
        ensures
            r == ActionResourceCost::Free,
    {
        ActionResourceCost::Free
    }

    /// A resource cost; an empty pile costs nothing.
    pub fn resources(cost: ResourcePile) -> (r: ActionResourceCost)
        ensures
            r == if cost == empty_pile() {
                ActionResourceCost::Free
            } else {
                ActionResourceCost::Resources(cost)
            },
    {
        if cost.is_empty() {
            return ActionResourceCost::Free;
        }
        ActionResourceCost::Resources(cost)
    }

    /// A cost in tokens of any kind; zero tokens cost nothing.
    pub fn tokens(tokens: u8) -> (r: ActionResourceCost)
        ensures
            r == if tokens == 0 {
                ActionResourceCost::Free
            } else {
                ActionResourceCost::Tokens(tokens)
            },
    {
        if tokens == 0 {
            return ActionResourceCost::Free;
        }
        ActionResourceCost::Tokens(tokens)
    }
}

/// The cost of an action: whether it takes one of the player's actions, and its resources.
#[derive(Clone, Copy, Debug, PartialEq, Eq, Structural)]
pub struct ActionCost {
    pub free: bool,
    pub cost: ActionResourceCost,
}

/// Why an action cannot be taken.
#[derive(Clone, Copy, Debug, PartialEq, Eq, Structural)]
pub enum ActionCostError {
    NotEnoughResources,
    NoActionsLeft,
}

impl ActionCost {
    pub fn new(free: bool, cost: ActionResourceCost) -> (r: ActionCost)
        ensures
            r == (ActionCost { free, cost }),
    {
        ActionCost { free, cost }
    }

    /// Whether the action can be taken: always during a replay; otherwise the player must
    /// afford the cost (`can_afford`, as the payment options of the player decide) and have
    /// an action left unless the action is free.
    pub fn is_available(&self, replay: bool, can_afford: bool, actions_left: u32) -> (r: Result<(), ActionCostError>)
        ensures
            replay ==> r is Ok,
            !replay && !can_afford ==> r == Err::<(), ActionCostError>(ActionCostError::NotEnoughResources),
            !replay && can_afford && !self.free && actions_left == 0 ==> r == Err::<(), ActionCostError>(
                ActionCostError::NoActionsLeft,
            ),
            !replay && can_afford && (self.free || actions_left > 0) ==> r is Ok,
    {
        if replay {
            return Ok(());
        }
        if !can_afford {
            return Err(ActionCostError::NotEnoughResources);
        }
        if !(self.free || actions_left > 0) {
            return Err(ActionCostError::NoActionsLeft);
        }
        Ok(())
    }
}

/// A cost with the rule on how often the action may be taken per turn.
#[derive(Clone, Copy, Debug, PartialEq, Eq, Structural)]
pub struct ActionCostOncePerTurn {
    pub cost: ActionCost,
    pub once_per_turn: Option<CustomActionType>,
}

impl ActionCostOncePerTurn {
    pub fn new(free: bool, once_per_turn: Option<CustomActionType>, cost: ActionResourceCost) -> (r: ActionCostOncePerTurn)
        ensures
            r == (ActionCostOncePerTurn { cost: ActionCost { free, cost }, once_per_turn }),
    {
        ActionCostOncePerTurn { cost: ActionCost::new(free, cost), once_per_turn }
    }
}

/// First step of describing a cost: how often per turn.
#[derive(Clone, Copy, Debug, PartialEq, Eq, Structural)]
pub struct ActionCostOncePerTurnBuilder {
    pub action: CustomActionType,
}

impl ActionCostOncePerTurnBuilder {
    pub fn new(action: CustomActionType) -> (r: ActionCostOncePerTurnBuilder)
        ensures
            r.action == action,
    {
        ActionCostOncePerTurnBuilder { action }
    }

    /// No limit per turn.
    pub fn any_times(self) -> (r: ActionCostBuilder)
        ensures
            r.once_per_turn is None,
    {
        ActionCostBuilder::new(None)
    }

    /// At most once per turn.
    pub fn once_per_turn(self) -> (r: ActionCostBuilder)
        ensures
            r.once_per_turn == Some(self.action),
    {
        ActionCostBuilder::new(Some(self.action))
    }

    /// At most once per turn, counted together with another action.
    pub fn once_per_turn_mutually_exclusive(self, mutually_exclusive: CustomActionType) -> (r: ActionCostBuilder)
        ensures
            r.once_per_turn == Some(mutually_exclusive),
    {
        ActionCostBuilder::new(Some(mutually_exclusive))
    }
}

/// Second step of describing a cost: whether it takes an action.
#[derive(Clone, Copy, Debug, PartialEq, Eq, Structural)]
pub struct ActionCostBuilder {
    pub once_per_turn: Option<CustomActionType>,
}

impl ActionCostBuilder {
    pub fn new(once_per_turn: Option<CustomActionType>) -> (r: ActionCostBuilder)
        ensures
            r.once_per_turn == once_per_turn,
    {
        ActionCostBuilder { once_per_turn }
    }

    /// Takes one of the player's actions.
    pub fn action(self) -> (r: ActionResourceCostBuilder)
        ensures
            r.once_per_turn == self.once_per_turn,
            !r.free,
    {
        ActionResourceCostBuilder::new(self.once_per_turn, false)
    }

    /// Takes none of the player's actions.
    pub fn free_action(self) -> (r: ActionResourceCostBuilder)
        ensures
            r.once_per_turn == self.once_per_turn,
            r.free,
    {
        ActionResourceCostBuilder::new(self.once_per_turn, true)
    }
}

/// Last step of describing a cost: the resources.
#[derive(Clone, Copy, Debug, PartialEq, Eq, Structural)]
pub struct ActionResourceCostBuilder {
    pub once_per_turn: Option<CustomActionType>,
    pub free: bool,
}

impl ActionResourceCostBuilder {
    fn new(once_per_turn: Option<CustomActionType>, free: bool) -> (r: ActionResourceCostBuilder)
        ensures
            r == (ActionResourceCostBuilder { once_per_turn, free }),
    {
        ActionResourceCostBuilder { once_per_turn, free }
    }

    pub fn no_resources(self) -> (r: ActionCostOncePerTurn)
        ensures
            r == (ActionCostOncePerTurn {
                cost: ActionCost { free: self.free, cost: ActionResourceCost::Free },
                once_per_turn: self.once_per_turn,
            }),
    {
        ActionCostOncePerTurn::new(self.free, self.once_per_turn, ActionResourceCost::free())
    }

    pub fn resources(self, cost: ResourcePile) -> (r: ActionCostOncePerTurn)
        ensures
            r.once_per_turn == self.once_per_turn,
            r.cost.free == self.free,
            r.cost.cost == if cost == empty_pile() {
                ActionResourceCost::Free
            } else {
                ActionResourceCost::Resources(cost)
            },
    {
        ActionCostOncePerTurn::new(self.free, self.once_per_turn, ActionResourceCost::resources(cost))
    }

    pub fn culture_tokens(self, cost: u8) -> (r: ActionCostOncePerTurn)
        ensures
            r.once_per_turn == self.once_per_turn,
            r.cost.free == self.free,
            r.cost.cost == if cost == 0 {
                ActionResourceCost::Free
            } else {
                ActionResourceCost::Resources(ResourcePile { culture_tokens: cost, ..empty_pile() })
            },
    {
        self.resources(ResourcePile::culture_tokens(cost))
    }

    pub fn tokens(self, cost: u8) -> (r: ActionCostOncePerTurn)
        ensures
            r.once_per_turn == self.once_per_turn,
            r.cost.free == self.free,
            r.cost.cost == if cost == 0 {
                ActionResourceCost::Free
            } else {
                ActionResourceCost::Tokens(cost)
            },
    {
        ActionCostOncePerTurn::new(self.free, self.once_per_turn, ActionResourceCost::tokens(cost))
    }

    pub fn advance_cost_without_discounts(self) -> (r: ActionCostOncePerTurn)
        ensures
            r == (ActionCostOncePerTurn {
                cost: ActionCost { free: self.free, cost: ActionResourceCost::AdvanceCostWithoutDiscount },
                once_per_turn: self.once_per_turn,
            }),
    {
        ActionCostOncePerTurn::new(
            self.free,
            self.once_per_turn,
            ActionResourceCost::AdvanceCostWithoutDiscount,
        )
    }
}

} // verus!

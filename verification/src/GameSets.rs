//! Ordered system sets of the in-game states.
use vstd::prelude::*;

verus! {

/// Systems run on entering the game, in run order.
#[derive(Debug, Clone, Copy, PartialEq, Eq, Structural, Hash)]
pub enum OnEnter {
    Initialize,
    Ui,
    Rest,
}

/// Systems of the in-game `PreUpdate` schedule, in run order.
#[derive(Debug, Clone, Copy, PartialEq, Eq, Structural, Hash)]
pub enum PreUpdate {
    PlayerInput,
    Rest,
}

/// Systems of the in-game `Update` schedule, in run order.
#[derive(Debug, Clone, Copy, PartialEq, Eq, Structural, Hash)]
pub enum Update {
    PlayerInput,
    PlayerPhysics,
    WorldInput,
    WorldPhysics,
    Networking,
    Rendering,
    Ui,
    Rest,
}

/// Systems of the in-game `FixedPreUpdate` schedule, in run order.
#[derive(Debug, Clone, Copy, PartialEq, Eq, Structural, Hash)]
pub enum FixedPreUpdate {
    Networking,
    Rest,
}

/// Systems of the in-game `FixedUpdate` schedule, in run order.
#[derive(Debug, Clone, Copy, PartialEq, Eq, Structural, Hash)]
pub enum FixedUpdate {
    Networking,
    Rest,
}

/// Systems of the in-game `PostUpdate` schedule, in run order.
#[derive(Debug, Clone, Copy, PartialEq, Eq, Structural, Hash)]
pub enum PostUpdate {
    Rendering,
    Rest,
}

/// Systems run on leaving the game, in run order.
#[derive(Debug, Clone, Copy, PartialEq, Eq, Structural, Hash)]
pub enum OnExit {
    World,
    Networking,
    Rest,
}

} // verus!

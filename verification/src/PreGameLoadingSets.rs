//! Ordered system sets of the pre-game loading state.
use vstd::prelude::*;

verus! {

/// Systems of the pre-game loading `Update` schedule, in run order.
#[derive(Debug, Clone, Copy, PartialEq, Eq, Structural, Hash)]
pub enum Update {
    Initialize,
    Networking,
    Rest,
}

/// Systems run on entering the pre-game loading state, in run order.
#[derive(Debug, Clone, Copy, PartialEq, Eq, Structural, Hash)]
pub enum OnEnter {
    Initialize,
    Networking,
    Resources,
    Ui,
    Rest,
}

} // verus!

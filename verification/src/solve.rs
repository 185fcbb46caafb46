//! The solve-log data model: an action is something done to a cube together
//! with the reason it was done.  A future solving layer records its work as
//! these values; the move core does not depend on them.

use vstd::prelude::*;
use crate::moves::Move;

verus! {

/// An action is something you can do on a cube, and that you have a reason
/// for doing.
#[derive(Debug)]
pub struct Action {
    /// Why (at a base level) this action was done.
    pub reason: ActionReason,
    /// Arbitrary further information about why this action was done.
    pub description: Option<String>,
    /// The steps performed to execute this action.
    pub steps: ActionSteps,
}

/// The base-level reason for an action.
#[derive(Debug)]
pub enum ActionReason {
    /// The action was one step in a solve method.
    SolveStep { step_name: String },
}

/// The steps that execute an action.
#[derive(Debug)]
pub enum ActionSteps {
    /// No steps at all.
    Nothing,
    /// A single move.
    Move { mv: Move },
    /// A sequence of further actions, performed in order.
    Sequence { actions: Vec<Action> },
}

impl Action {
    /// An action built from its parts.
    pub fn new(reason: ActionReason, description: Option<String>, steps: ActionSteps) -> (r:
        Action)
        ensures
            r.reason == reason,
            r.description == description,
            r.steps == steps,
    {
        Action { reason, description, steps }
    }
}

} // verus!

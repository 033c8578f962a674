//! What a component's update hands back to its parent.
use vstd::prelude::*;

verus! {

/// At most one instruction for the parent, and messages to feed back into the
/// same component afterwards.
pub struct Action<I, M> {
    pub instruction: Option<I>,
    pub task: Vec<M>,
}

impl<I, M> Action<I, M> {
    /// Nothing for the parent, nothing to follow.
    pub fn none() -> (r: Self)
        ensures
            r.instruction is None,
            r.task@.len() == 0,
    {
        Action { instruction: None, task: Vec::new() }
    }

    /// One instruction for the parent, nothing to follow.
    pub fn new(instruction: I) -> (r: Self)
        ensures
            r.instruction == Some(instruction),
            r.task@.len() == 0,
    {
        Action { instruction: Some(instruction), task: Vec::new() }
    }
}

} // verus!

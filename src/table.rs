//! The table of bots: it has no events or requests of its own yet, so its
//! message and instruction types cannot be built outside this module.
use vstd::prelude::*;

use crate::action::Action;

verus! {

/// Requests from the table to its parent; there are none yet.
pub struct Instruction {
    none: bool,
}

/// Events of the table; there are none yet.
#[derive(Debug, Clone)]
pub struct Message {
    none: bool,
}

pub fn update(message: Message) -> (r: Action<Instruction, Message>)
    ensures
        r.instruction is None,
        r.task@.len() == 0,
{
    Action::none()
}

} // verus!

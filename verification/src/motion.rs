//! The jump-left motion stub: a placeholder stage that emits no command.

use vstd::prelude::*;

verus! {

/// A motion stage that is not yet implemented; each cycle emits nothing.
pub struct JumpLeft {}

impl JumpLeft {
    pub fn new() -> (r: JumpLeft) {
        JumpLeft {  }
    }

    /// One cycle of the stub: never a joints command.
    pub fn cycle(&mut self) -> (r: Option<()>)
        ensures
            r is None,
    {
        None
    }
}

} // verus!

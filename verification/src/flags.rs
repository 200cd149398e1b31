//! Flags handed to the compile orchestrator.

use vstd::prelude::*;

verus! {

/// Settings for one compilation: the optimization level requested by the
/// caller, an integer from 0 (none) to 3 (aggressive).
#[derive(Debug, Clone)]
pub struct CompilerFlags {
    pub optimization_level: u8,
}

impl CompilerFlags {
    pub fn new(optimization_level: u8) -> (r: Self)
        ensures
            r.optimization_level == optimization_level,
    {
        CompilerFlags { optimization_level }
    }
}

} // verus!

//! Flags that switch optional behaviour of the engine.

use vstd::prelude::*;

verus! {

#[derive(Debug, Clone, Copy, PartialEq, Eq, Structural)]
pub struct Flags {
    pub require_ndc_capabilities: bool,
}

impl Default for Flags {
    fn default() -> (r: Flags)
        ensures
            !r.require_ndc_capabilities,
    {
        Flags { require_ndc_capabilities: false }
    }
}

} // verus!

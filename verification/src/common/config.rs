//! Rules by which a latched fault may be cleared.

use vstd::prelude::*;

use super::debounce::IpcDuration;
use super::types::ShortString;

verus! {

/// When a latched fault ages out.
#[derive(Clone, Copy, Debug, PartialEq, Eq)]
pub enum ResetTrigger {
    /// After this many power cycles without an occurrence.
    PowerCycles(u32),
    /// After this many cycles of the named kind without an occurrence.
    OperationCycles {
        /// Number of cycles.
        min_cycles: u32,
        /// Name of the cycle counter.
        cycle_ref: ShortString,
    },
    /// After this time without an occurrence.
    StableFor(IpcDuration),
    /// Never by itself; only a tool clears the fault.
    ToolOnly,
}

/// When a latched fault ages out, and how long it must be kept at least.
#[derive(Clone, Copy, Debug, PartialEq, Eq)]
pub struct ResetPolicy {
    /// What ages the fault out.
    pub trigger: ResetTrigger,
    /// Number of power cycles that must pass in any case.
    pub min_operating_cycles_before_clear: Option<u32>,
}

} // verus!

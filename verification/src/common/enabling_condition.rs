//! Status of enabling conditions.

use vstd::prelude::*;

use super::types::ShortString;

verus! {

/// Whether the condition that gates fault detection is met.
#[derive(Clone, Copy, Debug, PartialEq, Eq, Hash, Structural)]
pub enum EnablingConditionStatus {
    /// The condition is met; detection may proceed.
    Active,
    /// The condition is not met; detection should pause.
    Inactive,
}

/// Broadcast by the fault manager when a condition changes.
#[derive(Clone, Copy, Debug, PartialEq, Eq)]
pub struct EnablingConditionNotification {
    /// Entity name of the condition.
    pub id: ShortString,
    /// Its new status.
    pub status: EnablingConditionStatus,
}

} // verus!

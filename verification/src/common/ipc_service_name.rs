//! Names of the services over which reporters and the fault manager talk.
//!
//! A name is made of a subsystem, a channel and at times a qualifier, with slashes
//! in between and none at the ends.

use vstd::prelude::*;

verus! {

/// Events from reporters to the fault manager.
pub const DIAGNOSTIC_FAULT_MANAGER_EVENT_SERVICE_NAME: &'static str = "dfm/event";

/// Replies of the fault manager to catalog hashes.
pub const DIAGNOSTIC_FAULT_MANAGER_HASH_CHECK_RESPONSE_SERVICE_NAME: &'static str = "dfm/event/hash/response";

/// Enabling-condition changes from the fault manager to reporters.
pub const ENABLING_CONDITION_NOTIFICATION_SERVICE_NAME: &'static str = "dfm/enabling_condition/notification";

/// Queries of diagnostic tools.
pub const DFM_QUERY_SERVICE_NAME: &'static str = "dfm/query";

} // verus!

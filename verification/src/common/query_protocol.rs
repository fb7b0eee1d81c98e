//! Requests and responses of the query service, with fixed-size fields.

use vstd::prelude::*;

use super::fixed_vec::FixedVec;
use super::types::{LongString, ShortString};

verus! {

/// Most faults that one response holds.
pub const MAX_FAULTS_PER_RESPONSE: usize = 64;

/// A fault with fixed-size fields.
///
/// Texts are cut to the capacity of their field; an optional text is encoded by a flag
/// beside it.
#[derive(Clone, Copy, Debug)]
pub struct IpcSovdFault {
    /// Code of the fault.
    pub code: ShortString,
    /// Code for display.
    pub display_code: ShortString,
    /// Scope of the fault.
    pub scope: ShortString,
    /// Name of the fault.
    pub fault_name: ShortString,
    /// Translation key of the name.
    pub fault_translation_id: ShortString,
    /// Severity level.
    pub severity: u32,
    /// The status byte.
    pub status_mask: u8,
    /// The last test failed.
    pub test_failed: bool,
    /// A test failed in this operation cycle.
    pub test_failed_this_operation_cycle: bool,
    /// The fault is suspected.
    pub pending_dtc: bool,
    /// The fault is confirmed.
    pub confirmed_dtc: bool,
    /// No test was completed since the last clear.
    pub test_not_completed_since_last_clear: bool,
    /// A test failed since the last clear.
    pub test_failed_since_last_clear: bool,
    /// No test was completed in this operation cycle.
    pub test_not_completed_this_operation_cycle: bool,
    /// A warning lamp is asked for.
    pub warning_indicator_requested: bool,
    /// Number of occurrences.
    pub occurrence_counter: u32,
    /// Number of times the fault aged out.
    pub aging_counter: u32,
    /// Number of times the fault was healed.
    pub healing_counter: u32,
    /// Time of the first occurrence in seconds since 1970, or zero.
    pub first_occurrence_secs: u64,
    /// Time of the last occurrence in seconds since 1970, or zero.
    pub last_occurrence_secs: u64,
    /// Symptom; counts only beside `has_symptom`.
    pub symptom: LongString,
    /// There is a symptom.
    pub has_symptom: bool,
    /// Translation key of the symptom; counts only beside `has_symptom_translation_id`.
    pub symptom_translation_id: ShortString,
    /// There is a translation key of the symptom.
    pub has_symptom_translation_id: bool,
}

/// A fault with fixed-size fields, as a mathematical value: its texts are byte strings.
pub struct IpcFaultView {
    /// Code of the fault.
    pub code: Seq<u8>,
    /// Code for display.
    pub display_code: Seq<u8>,
    /// Scope of the fault.
    pub scope: Seq<u8>,
    /// Name of the fault.
    pub fault_name: Seq<u8>,
    /// Translation key of the name.
    pub fault_translation_id: Seq<u8>,
    /// Severity level.
    pub severity: u32,
    /// The status byte.
    pub status_mask: u8,
    /// The last test failed.
    pub test_failed: bool,
    /// A test failed in this operation cycle.
    pub test_failed_this_operation_cycle: bool,
    /// The fault is suspected.
    pub pending_dtc: bool,
    /// The fault is confirmed.
    pub confirmed_dtc: bool,
    /// No test was completed since the last clear.
    pub test_not_completed_since_last_clear: bool,
    /// A test failed since the last clear.
    pub test_failed_since_last_clear: bool,
    /// No test was completed in this operation cycle.
    pub test_not_completed_this_operation_cycle: bool,
    /// A warning lamp is asked for.
    pub warning_indicator_requested: bool,
    /// Number of occurrences.
    pub occurrence_counter: u32,
    /// Number of times the fault aged out.
    pub aging_counter: u32,
    /// Number of times the fault was healed.
    pub healing_counter: u32,
    /// Time of the first occurrence in seconds since 1970, or zero.
    pub first_occurrence_secs: u64,
    /// Time of the last occurrence in seconds since 1970, or zero.
    pub last_occurrence_secs: u64,
    /// Symptom.
    pub symptom: Seq<u8>,
    /// There is a symptom.
    pub has_symptom: bool,
    /// Translation key of the symptom.
    pub symptom_translation_id: Seq<u8>,
    /// There is a translation key of the symptom.
    pub has_symptom_translation_id: bool,
}

impl View for IpcSovdFault {
    type V = IpcFaultView;

    open spec fn view(&self) -> IpcFaultView {
        IpcFaultView {
            code: self.code@,
            display_code: self.display_code@,
            scope: self.scope@,
            fault_name: self.fault_name@,
            fault_translation_id: self.fault_translation_id@,
            severity: self.severity,
            status_mask: self.status_mask,
            test_failed: self.test_failed,
            test_failed_this_operation_cycle: self.test_failed_this_operation_cycle,
            pending_dtc: self.pending_dtc,
            confirmed_dtc: self.confirmed_dtc,
            test_not_completed_since_last_clear: self.test_not_completed_since_last_clear,
            test_failed_since_last_clear: self.test_failed_since_last_clear,
            test_not_completed_this_operation_cycle: self.test_not_completed_this_operation_cycle,
            warning_indicator_requested: self.warning_indicator_requested,
            occurrence_counter: self.occurrence_counter,
            aging_counter: self.aging_counter,
            healing_counter: self.healing_counter,
            first_occurrence_secs: self.first_occurrence_secs,
            last_occurrence_secs: self.last_occurrence_secs,
            symptom: self.symptom@,
            has_symptom: self.has_symptom,
            symptom_translation_id: self.symptom_translation_id@,
            has_symptom_translation_id: self.has_symptom_translation_id,
        }
    }
}

/// Environment data with fixed-size fields, up to 8 entries.
pub type IpcEnvData = FixedVec<(ShortString, ShortString), 8>;

/// Faults of an entity, as far as they fit.
#[derive(Clone, Copy, Debug)]
pub struct IpcFaultListResponse {
    /// The first faults of the entity.
    pub faults: FixedVec<IpcSovdFault, 64>,
    /// Number of all faults of the entity.
    pub total_count: u32,
}

/// A request to the query service.
#[derive(Clone, Copy, Debug)]
pub enum DfmQueryRequest {
    /// List the faults of the entity at a path.
    GetAllFaults(LongString),
    /// Read one fault by path and code.
    GetFault(LongString, ShortString),
    /// Remove the states of all faults of the entity at a path.
    DeleteAllFaults(LongString),
    /// Remove the state of one fault by path and code.
    DeleteFault(LongString, ShortString),
}

/// Why a request fails.
#[derive(Clone, Copy, Debug)]
pub enum DfmQueryError {
    /// The path or the code is not acceptable.
    BadArgument,
    /// There is no such fault.
    NotFound,
    /// The storage failed; holds the beginning of its message.
    StorageError(ShortString),
}

/// The answer of the query service.
#[derive(Clone, Copy, Debug)]
pub enum DfmQueryResponse {
    /// The faults of an entity.
    FaultList(IpcFaultListResponse),
    /// One fault with its environment data.
    SingleFault(IpcSovdFault, IpcEnvData),
    /// The states were removed.
    Done,
    /// The request failed.
    Error(DfmQueryError),
}

} // verus!

//! Queries of diagnostic tools: listing, reading and clearing faults.

use std::sync::Arc;
use vstd::prelude::*;
use vstd::string::*;

use super::fault_catalog_registry::FaultCatalogRegistry;
use super::fault_code::{code_decodes, fault_code, fault_id_from_code, fault_id_to_code};
use super::fault_key::storage_key;
use super::kvs::text_map;
use super::sovd_fault_storage::{
    FaultStateView, SovdEnvData, SovdFaultState, SovdFaultStateStorage, StorageError, StoredStates,
};
use super::timestamp::{format_unix_timestamp, timestamp_text};
use crate::common::assoc_map::AssocMap;
use crate::common::catalog::FaultCatalog;
use crate::common::fault::{FaultDescriptor, FaultId};
use crate::common::fixed_string::escaped;
use crate::common::text::{byte_hex_upper, push_byte_hex_upper};

verus! {

/// Why a query fails.
#[derive(Clone, Debug, PartialEq, Eq)]
pub enum Error {
    /// The path or the code is not acceptable.
    BadArgument,
    /// There is no such fault.
    NotFound,
    /// The storage failed; holds its message.
    Storage(String),
}

impl Error {
    /// The message of the error.
    pub open spec fn message(self) -> Seq<char> {
        match self {
            Error::BadArgument => "bad argument"@,
            Error::NotFound => "not found"@,
            Error::Storage(m) => "storage error: "@ + m@,
        }
    }

    /// The message of the error.
    pub fn to_string(&self) -> (r: String)
        ensures
            r@ == self.message(),
    {
        match self {
            Error::BadArgument => String::from_str("bad argument"),
            Error::NotFound => String::from_str("not found"),
            Error::Storage(m) => String::from_str("storage error: ").concat(m.as_str()),
        }
    }
}

/// The text of an optional string.
pub open spec fn opt_text(s: Option<String>) -> Option<Seq<char>> {
    match s {
        Some(t) => Some(t@),
        None => None,
    }
}

/// Status bits of a fault, as far as they are known.
#[derive(Clone, Debug, PartialEq, Eq)]
pub struct SovdFaultStatus {
    /// The last test failed.
    pub test_failed: Option<bool>,
    /// A test failed in this operation cycle.
    pub test_failed_this_operation_cycle: Option<bool>,
    /// The fault is suspected.
    pub pending_dtc: Option<bool>,
    /// The fault is confirmed.
    pub confirmed_dtc: Option<bool>,
    /// No test was completed since the last clear.
    pub test_not_completed_since_last_clear: Option<bool>,
    /// A test failed since the last clear.
    pub test_failed_since_last_clear: Option<bool>,
    /// No test was completed in this operation cycle.
    pub test_not_completed_this_operation_cycle: Option<bool>,
    /// A warning lamp is asked for.
    pub warning_indicator_requested: Option<bool>,
    /// The bits as a hexadecimal byte.
    pub mask: Option<String>,
}

/// Status bits as a mathematical value.
pub struct StatusView {
    /// The last test failed.
    pub test_failed: Option<bool>,
    /// A test failed in this operation cycle.
    pub test_failed_this_operation_cycle: Option<bool>,
    /// The fault is suspected.
    pub pending_dtc: Option<bool>,
    /// The fault is confirmed.
    pub confirmed_dtc: Option<bool>,
    /// No test was completed since the last clear.
    pub test_not_completed_since_last_clear: Option<bool>,
    /// A test failed since the last clear.
    pub test_failed_since_last_clear: Option<bool>,
    /// No test was completed in this operation cycle.
    pub test_not_completed_this_operation_cycle: Option<bool>,
    /// A warning lamp is asked for.
    pub warning_indicator_requested: Option<bool>,
    /// The bits as a hexadecimal byte.
    pub mask: Option<Seq<char>>,
}

impl View for SovdFaultStatus {
    type V = StatusView;

    open spec fn view(&self) -> StatusView {
        StatusView {
            test_failed: self.test_failed,
            test_failed_this_operation_cycle: self.test_failed_this_operation_cycle,
            pending_dtc: self.pending_dtc,
            confirmed_dtc: self.confirmed_dtc,
            test_not_completed_since_last_clear: self.test_not_completed_since_last_clear,
            test_failed_since_last_clear: self.test_failed_since_last_clear,
            test_not_completed_this_operation_cycle: self.test_not_completed_this_operation_cycle,
            warning_indicator_requested: self.warning_indicator_requested,
            mask: opt_text(self.mask),
        }
    }
}

/// The weight of a bit if its flag is known and set, else nothing.
pub open spec fn bit(flag: Option<bool>, weight: u8) -> u8 {
    if flag == Some(true) {
        weight
    } else {
        0
    }
}

/// A flag and its value as text, if it is known.
pub open spec fn with_flag(
    m: Map<Seq<char>, Seq<char>>,
    name: Seq<char>,
    flag: Option<bool>,
) -> Map<Seq<char>, Seq<char>> {
    match flag {
        Some(v) => m.insert(
            name,
            if v {
                "1"@
            } else {
                "0"@
            },
        ),
        None => m,
    }
}

impl StatusView {
    /// The status byte: each set flag contributes its bit.
    pub open spec fn mask_byte(self) -> u8 {
        (bit(self.test_failed, 1) + bit(self.test_failed_this_operation_cycle, 2) + bit(
            self.pending_dtc,
            4,
        ) + bit(self.confirmed_dtc, 8) + bit(self.test_not_completed_since_last_clear, 16) + bit(
            self.test_failed_since_last_clear,
            32,
        ) + bit(self.test_not_completed_this_operation_cycle, 64) + bit(
            self.warning_indicator_requested,
            128,
        )) as u8
    }

    /// The known flags and the mask as texts by name.
    pub open spec fn as_map(self) -> Map<Seq<char>, Seq<char>> {
        let m = Map::empty();
        let m = with_flag(m, "testFailed"@, self.test_failed);
        let m = with_flag(
            m,
            "testFailedThisOperationCycle"@,
            self.test_failed_this_operation_cycle,
        );
        let m = with_flag(m, "pendingDTC"@, self.pending_dtc);
        let m = with_flag(m, "confirmedDTC"@, self.confirmed_dtc);
        let m = with_flag(
            m,
            "testNotCompletedSinceLastClear"@,
            self.test_not_completed_since_last_clear,
        );
        let m = with_flag(m, "testFailedSinceLastClear"@, self.test_failed_since_last_clear);
        let m = with_flag(
            m,
            "testNotCompletedThisOperationCycle"@,
            self.test_not_completed_this_operation_cycle,
        );
        let m = with_flag(m, "warningIndicatorRequested"@, self.warning_indicator_requested);
        match self.mask {
            Some(t) => m.insert("mask"@, t),
            None => m,
        }
    }

    /// The status of a stored state.
    pub open spec fn of_state(s: FaultStateView) -> Self {
        let flags = StatusView {
            test_failed: Some(s.test_failed),
            test_failed_this_operation_cycle: Some(s.test_failed_this_operation_cycle),
            pending_dtc: Some(s.pending_dtc),
            confirmed_dtc: Some(s.confirmed_dtc),
            test_not_completed_since_last_clear: Some(s.test_not_completed_since_last_clear),
            test_failed_since_last_clear: Some(s.test_failed_since_last_clear),
            test_not_completed_this_operation_cycle: Some(
                s.test_not_completed_this_operation_cycle,
            ),
            warning_indicator_requested: Some(s.warning_indicator_requested),
            mask: None,
        };
        StatusView { mask: Some(mask_text(flags.mask_byte())), ..flags }
    }
}

/// A status byte as text.
pub open spec fn mask_text(mask: u8) -> Seq<char> {
    seq!['0', 'x'] + byte_hex_upper(mask)
}

/// A status byte as text.
pub fn format_mask(mask: u8) -> (r: String)
    ensures
        r@ == mask_text(mask),
{
    let mut out = String::new();
    out.push('0');
    out.push('x');
    push_byte_hex_upper(&mut out, mask);
    assert(out@ =~= mask_text(mask));
    out
}

/// In the status byte, bit 0 is test failed, bit 1 test failed this operation cycle,
/// bit 2 pending, bit 3 confirmed, bit 4 test not completed since the last clear, bit
/// 5 test failed since the last clear, bit 6 test not completed this operation cycle
/// and bit 7 warning indicator requested.
pub proof fn law_mask_bits(s: StatusView)
    ensures
        s.mask_byte() & 1 == bit(s.test_failed, 1),
        s.mask_byte() & 2 == bit(s.test_failed_this_operation_cycle, 2),
        s.mask_byte() & 4 == bit(s.pending_dtc, 4),
        s.mask_byte() & 8 == bit(s.confirmed_dtc, 8),
        s.mask_byte() & 16 == bit(s.test_not_completed_since_last_clear, 16),
        s.mask_byte() & 32 == bit(s.test_failed_since_last_clear, 32),
        s.mask_byte() & 64 == bit(s.test_not_completed_this_operation_cycle, 64),
        s.mask_byte() & 128 == bit(s.warning_indicator_requested, 128),
{
    let a = bit(s.test_failed, 1);
    let b = bit(s.test_failed_this_operation_cycle, 2);
    let c = bit(s.pending_dtc, 4);
    let d = bit(s.confirmed_dtc, 8);
    let e = bit(s.test_not_completed_since_last_clear, 16);
    let f = bit(s.test_failed_since_last_clear, 32);
    let g = bit(s.test_not_completed_this_operation_cycle, 64);
    let h = bit(s.warning_indicator_requested, 128);
    let m = s.mask_byte();
    assert(m & 1 == a && m & 2 == b && m & 4 == c && m & 8 == d && m & 16 == e && m & 32 == f && m
        & 64 == g && m & 128 == h) by (bit_vector)
        requires
            a == 0 || a == 1,
            b == 0 || b == 2,
            c == 0 || c == 4,
            d == 0 || d == 8,
            e == 0 || e == 16,
            f == 0 || f == 32,
            g == 0 || g == 64,
            h == 0 || h == 128,
            m == (a + b + c + d + e + f + g + h) as u8,
    ;
}

/// The texts of a map with one more entry.
proof fn lemma_text_map_insert(m: Map<Seq<char>, String>, k: Seq<char>, v: String)
    ensures
        text_map(m.insert(k, v)) == text_map(m).insert(k, v@),
{
    assert(text_map(m.insert(k, v)) =~= text_map(m).insert(k, v@));
}

fn put_flag(m: &mut AssocMap<String, String>, name: &str, flag: Option<bool>)
    ensures
        text_map(final(m)@) == with_flag(text_map(old(m)@), name@, flag),
{
    match flag {
        Some(v) => {
            let value = if v {
                String::from_str("1")
            } else {
                String::from_str("0")
            };
            proof {
                lemma_text_map_insert(m@, name@, value);
            }
            m.insert(String::from_str(name), value);
        },
        None => {},
    }
}

/// The weight of a bit if its flag is known and set, else nothing.
fn flag_bit(flag: Option<bool>, weight: u8) -> (r: u8)
    ensures
        r == bit(flag, weight),
{
    match flag {
        Some(v) => if v {
            weight
        } else {
            0
        },
        None => 0,
    }
}

impl SovdFaultStatus {
    /// The status of a stored state, with the mask filled in.
    pub fn from_state(state: &SovdFaultState) -> (r: Self)
        ensures
            r@ == StatusView::of_state(state@),
    {
        let mut status = SovdFaultStatus {
            test_failed: Some(state.test_failed),
            test_failed_this_operation_cycle: Some(state.test_failed_this_operation_cycle),
            pending_dtc: Some(state.pending_dtc),
            confirmed_dtc: Some(state.confirmed_dtc),
            test_not_completed_since_last_clear: Some(state.test_not_completed_since_last_clear),
            test_failed_since_last_clear: Some(state.test_failed_since_last_clear),
            test_not_completed_this_operation_cycle: Some(
                state.test_not_completed_this_operation_cycle,
            ),
            warning_indicator_requested: Some(state.warning_indicator_requested),
            mask: None,
        };
        let mask: u8 = status.compute_mask();
        status.mask = Some(format_mask(mask));
        status
    }

    /// The status byte.
    pub fn compute_mask(&self) -> (r: u8)
        ensures
            r == self@.mask_byte(),
    {
        flag_bit(self.test_failed, 1) + flag_bit(self.test_failed_this_operation_cycle, 2)
            + flag_bit(self.pending_dtc, 4) + flag_bit(self.confirmed_dtc, 8) + flag_bit(
            self.test_not_completed_since_last_clear,
            16,
        ) + flag_bit(self.test_failed_since_last_clear, 32) + flag_bit(
            self.test_not_completed_this_operation_cycle,
            64,
        ) + flag_bit(self.warning_indicator_requested, 128)
    }

    /// The known flags and the mask as texts by name.
    pub fn to_hash_map(&self) -> (r: AssocMap<String, String>)
        ensures
            text_map(r@) == self@.as_map(),
    {
        let mut m: AssocMap<String, String> = AssocMap::new();
        assert(text_map(m@) =~= Map::empty());
        put_flag(&mut m, "testFailed", self.test_failed);
        put_flag(
            &mut m,
            "testFailedThisOperationCycle",
            self.test_failed_this_operation_cycle,
        );
        put_flag(&mut m, "pendingDTC", self.pending_dtc);
        put_flag(&mut m, "confirmedDTC", self.confirmed_dtc);
        put_flag(
            &mut m,
            "testNotCompletedSinceLastClear",
            self.test_not_completed_since_last_clear,
        );
        put_flag(&mut m, "testFailedSinceLastClear", self.test_failed_since_last_clear);
        put_flag(
            &mut m,
            "testNotCompletedThisOperationCycle",
            self.test_not_completed_this_operation_cycle,
        );
        put_flag(&mut m, "warningIndicatorRequested", self.warning_indicator_requested);
        if let Some(text) = &self.mask {
            proof {
                lemma_text_map_insert(m@, "mask"@, *text);
            }
            m.insert(String::from_str("mask"), text.clone());
        }
        m
    }
}

impl Default for SovdFaultStatus {
    fn default() -> (r: Self)
        ensures
            r@ == (StatusView {
                test_failed: None,
                test_failed_this_operation_cycle: None,
                pending_dtc: None,
                confirmed_dtc: None,
                test_not_completed_since_last_clear: None,
                test_failed_since_last_clear: None,
                test_not_completed_this_operation_cycle: None,
                warning_indicator_requested: None,
                mask: None,
            }),
    {
        SovdFaultStatus {
            test_failed: None,
            test_failed_this_operation_cycle: None,
            pending_dtc: None,
            confirmed_dtc: None,
            test_not_completed_since_last_clear: None,
            test_failed_since_last_clear: None,
            test_not_completed_this_operation_cycle: None,
            warning_indicator_requested: None,
            mask: None,
        }
    }
}

/// A fault as it is shown to diagnostic tools.
#[derive(Clone, Debug, PartialEq, Eq)]
pub struct SovdFault {
    /// Code of the fault.
    pub code: String,
    /// Code for display.
    pub display_code: String,
    /// Scope of the fault.
    pub scope: String,
    /// Name of the fault.
    pub fault_name: String,
    /// Translation key of the name.
    pub fault_translation_id: String,
    /// Severity level.
    pub severity: u32,
    /// Status as texts by name; follows the typed status.
    pub status: AssocMap<String, String>,
    /// Symptom, from the summary of the fault.
    pub symptom: Option<String>,
    /// Translation key of the symptom.
    pub symptom_translation_id: Option<String>,
    /// Schema of extended data.
    pub schema: Option<String>,
    /// Status bits.
    pub typed_status: Option<SovdFaultStatus>,
    /// Number of occurrences.
    pub occurrence_counter: Option<u32>,
    /// Number of times the fault aged out.
    pub aging_counter: Option<u32>,
    /// Number of times the fault was healed.
    pub healing_counter: Option<u32>,
    /// Time of the first occurrence.
    pub first_occurrence: Option<String>,
    /// Time of the last occurrence.
    pub last_occurrence: Option<String>,
}

/// A shown fault as a mathematical value.
pub struct SovdFaultView {
    /// Code of the fault.
    pub code: Seq<char>,
    /// Code for display.
    pub display_code: Seq<char>,
    /// Scope of the fault.
    pub scope: Seq<char>,
    /// Name of the fault.
    pub fault_name: Seq<char>,
    /// Translation key of the name.
    pub fault_translation_id: Seq<char>,
    /// Severity level.
    pub severity: u32,
    /// Status as texts by name.
    pub status: Map<Seq<char>, Seq<char>>,
    /// Symptom.
    pub symptom: Option<Seq<char>>,
    /// Translation key of the symptom.
    pub symptom_translation_id: Option<Seq<char>>,
    /// Schema of extended data.
    pub schema: Option<Seq<char>>,
    /// Status bits.
    pub typed_status: Option<StatusView>,
    /// Number of occurrences.
    pub occurrence_counter: Option<u32>,
    /// Number of times the fault aged out.
    pub aging_counter: Option<u32>,
    /// Number of times the fault was healed.
    pub healing_counter: Option<u32>,
    /// Time of the first occurrence.
    pub first_occurrence: Option<Seq<char>>,
    /// Time of the last occurrence.
    pub last_occurrence: Option<Seq<char>>,
}

impl Default for SovdFault {
    fn default() -> (r: Self)
        ensures
            r@ == (SovdFaultView {
                code: seq![],
                display_code: seq![],
                scope: seq![],
                fault_name: seq![],
                fault_translation_id: seq![],
                severity: 0,
                status: Map::empty(),
                symptom: None,
                symptom_translation_id: None,
                schema: None,
                typed_status: None,
                occurrence_counter: None,
                aging_counter: None,
                healing_counter: None,
                first_occurrence: None,
                last_occurrence: None,
            }),
    {
        let r = SovdFault {
            code: String::new(),
            display_code: String::new(),
            scope: String::new(),
            fault_name: String::new(),
            fault_translation_id: String::new(),
            severity: 0,
            status: AssocMap::new(),
            symptom: None,
            symptom_translation_id: None,
            schema: None,
            typed_status: None,
            occurrence_counter: None,
            aging_counter: None,
            healing_counter: None,
            first_occurrence: None,
            last_occurrence: None,
        };
        assert(text_map(r.status@) =~= Map::empty());
        r
    }
}

impl View for SovdFault {
    type V = SovdFaultView;

    open spec fn view(&self) -> SovdFaultView {
        SovdFaultView {
            code: self.code@,
            display_code: self.display_code@,
            scope: self.scope@,
            fault_name: self.fault_name@,
            fault_translation_id: self.fault_translation_id@,
            severity: self.severity,
            status: text_map(self.status@),
            symptom: opt_text(self.symptom),
            symptom_translation_id: opt_text(self.symptom_translation_id),
            schema: opt_text(self.schema),
            typed_status: match self.typed_status {
                Some(s) => Some(s@),
                None => None,
            },
            occurrence_counter: self.occurrence_counter,
            aging_counter: self.aging_counter,
            healing_counter: self.healing_counter,
            first_occurrence: opt_text(self.first_occurrence),
            last_occurrence: opt_text(self.last_occurrence),
        }
    }
}

/// The text of a time in seconds, unless it is zero.
pub open spec fn occurrence_text(secs: u64) -> Option<Seq<char>> {
    if secs > 0 {
        Some(timestamp_text(secs))
    } else {
        None
    }
}

/// How a described fault with a given state is shown.
pub open spec fn shown_fault(descriptor: FaultDescriptor, s: FaultStateView) -> SovdFaultView {
    let code = fault_code(descriptor.id);
    let status = StatusView::of_state(s);
    SovdFaultView {
        code,
        display_code: code,
        scope: "ecu"@,
        fault_name: escaped(descriptor.name@),
        fault_translation_id: "fault."@ + code,
        severity: descriptor.severity.level(),
        status: status.as_map(),
        symptom: match descriptor.summary {
            Some(t) => Some(escaped(t@)),
            None => None,
        },
        symptom_translation_id: match descriptor.summary {
            Some(t) => Some("symptom."@ + code),
            None => None,
        },
        schema: None,
        typed_status: Some(status),
        occurrence_counter: Some(s.occurrence_counter),
        aging_counter: Some(s.aging_counter),
        healing_counter: Some(s.healing_counter),
        first_occurrence: occurrence_text(s.first_occurrence_secs),
        last_occurrence: occurrence_text(s.last_occurrence_secs),
    }
}

/// The text of a time in seconds, unless it is zero.
pub fn format_occurrence(secs: u64) -> (r: Option<String>)
    ensures
        opt_text(r) == occurrence_text(secs),
{
    if secs > 0 {
        Some(format_unix_timestamp(secs))
    } else {
        None
    }
}

impl SovdFault {
    /// A described fault with a given state.
    pub fn new(descriptor: &FaultDescriptor, state: &SovdFaultState) -> (r: Self)
        ensures
            r@ == shown_fault(*descriptor, state@),
    {
        let code = fault_id_to_code(&descriptor.id);
        let typed_status = SovdFaultStatus::from_state(state);
        let status = typed_status.to_hash_map();
        let symptom: Option<String> = match &descriptor.summary {
            Some(t) => Some(t.to_string()),
            None => None,
        };
        let symptom_translation_id: Option<String> = match &descriptor.summary {
            Some(_) => Some(String::from_str("symptom.").concat(code.as_str())),
            None => None,
        };
        SovdFault {
            display_code: code.clone(),
            fault_translation_id: String::from_str("fault.").concat(code.as_str()),
            symptom,
            symptom_translation_id,
            schema: None,
            code,
            scope: String::from_str("ecu"),
            fault_name: descriptor.name.to_string(),
            severity: descriptor.severity.as_u32(),
            status,
            typed_status: Some(typed_status),
            occurrence_counter: Some(state.occurrence_counter),
            aging_counter: Some(state.aging_counter),
            healing_counter: Some(state.healing_counter),
            first_occurrence: format_occurrence(state.first_occurrence_secs),
            last_occurrence: format_occurrence(state.last_occurrence_secs),
        }
    }
}

/// The stored state of a fault, or the clear state if there is none.
pub open spec fn state_or_clear(
    stored: StoredStates,
    path: Seq<char>,
    id: FaultId,
) -> FaultStateView {
    if stored.contains_key((path, storage_key(id))) {
        stored[(path, storage_key(id))]
    } else {
        FaultStateView::clear()
    }
}

/// The state of a fault as far as it can be read, or the clear state.
pub open spec fn known_state<S: SovdFaultStateStorage>(
    storage: &S,
    path: Seq<char>,
    id: FaultId,
) -> FaultStateView {
    if storage.readable(path, storage_key(id)) {
        state_or_clear(storage.stored(), path, id)
    } else {
        FaultStateView::clear()
    }
}

/// The state that a read of the storage stands for; a fault without a stored state
/// is clear.
pub open spec fn read_state(
    read: Result<Option<SovdFaultState>, StorageError>,
) -> Option<FaultStateView> {
    match read {
        Ok(Some(s)) => Some(s@),
        Ok(None) => Some(FaultStateView::clear()),
        Err(_) => None,
    }
}

/// Shows a fault of a listing, given what reading its state gave. A state that cannot
/// be read is an error.
pub fn listed_fault(
    descriptor: &FaultDescriptor,
    read: Result<Option<SovdFaultState>, StorageError>,
) -> (r: Result<SovdFault, Error>)
    ensures
        match read_state(read) {
            Some(s) => r matches Ok(shown) && shown@ == shown_fault(*descriptor, s),
            None => r matches Err(Error::Storage(m)) && m@ == read->Err_0.debug_text(),
        },
{
    match read {
        Ok(Some(s)) => Ok(SovdFault::new(descriptor, &s)),
        Ok(None) => Ok(SovdFault::new(descriptor, &SovdFaultState::default())),
        Err(e) => Err(Error::Storage(e.to_debug_string())),
    }
}

/// Shows a single fault with its environment data, given what reading its state
/// gave. A state that cannot be read is an error.
pub fn single_fault(
    descriptor: &FaultDescriptor,
    read: Result<Option<SovdFaultState>, StorageError>,
) -> (r: Result<(SovdFault, SovdEnvData), Error>)
    ensures
        match read_state(read) {
            Some(s) => r matches Ok(found) && found.0@ == shown_fault(*descriptor, s) && text_map(
                found.1@,
            ) == s.env_data,
            None => r matches Err(Error::Storage(m)) && m@ == read->Err_0.debug_text(),
        },
{
    let state: SovdFaultState = match read {
        Ok(Some(s)) => s,
        Ok(None) => SovdFaultState::default(),
        Err(e) => {
            return Err(Error::Storage(e.to_debug_string()));
        },
    };
    let fault = SovdFault::new(descriptor, &state);
    Ok((fault, state.env_data))
}

/// What a query makes of the outcome of a deletion.
pub open spec fn deletion_outcome(outcome: Result<(), StorageError>, r: Result<(), Error>) -> bool {
    match outcome {
        Ok(_) => r == Ok::<(), Error>(()),
        Err(StorageError::NotFound) => r == Err::<(), _>(Error::NotFound),
        Err(e) => r matches Err(Error::Storage(m)) && m@ == e.message(),
    }
}

/// What a query makes of the outcome of deleting one fault.
pub fn deleted_one(outcome: Result<(), StorageError>) -> (r: Result<(), Error>)
    ensures
        deletion_outcome(outcome, r),
{
    match outcome {
        Ok(_) => Ok(()),
        Err(StorageError::NotFound) => Err(Error::NotFound),
        Err(e) => Err(Error::Storage(e.to_string())),
    }
}

/// What a query makes of the outcome of deleting a path.
pub fn deleted_all(outcome: Result<(), StorageError>) -> (r: Result<(), Error>)
    ensures
        match outcome {
            Ok(_) => r == Ok::<(), Error>(()),
            Err(e) => r matches Err(Error::Storage(m)) && m@ == e.message(),
        },
{
    match outcome {
        Ok(_) => Ok(()),
        Err(e) => Err(Error::Storage(e.to_string())),
    }
}

/// `e` tells of a failed read of the state of a fault.
pub open spec fn reading_fails<S: SovdFaultStateStorage>(
    storage: &S,
    path: Seq<char>,
    id: FaultId,
    e: Error,
) -> bool {
    exists|s: StorageError| #[trigger]
        storage.read_error(path, storage_key(id), s) && (e matches Error::Storage(m) && m@
            == s.debug_text())
}

/// The state of the fault at a place of a listing is the first one that cannot be read.
pub open spec fn first_unreadable<S: SovdFaultStateStorage>(
    storage: &S,
    path: Seq<char>,
    listed: Seq<FaultDescriptor>,
    i: int,
) -> bool {
    &&& 0 <= i < listed.len()
    &&& !storage.readable(path, storage_key(listed[i].id))
    &&& forall|j: int|
        0 <= j < i ==> storage.readable(path, storage_key((#[trigger] listed[j]).id))
}

/// What listing the faults of an entity gives: every described fault with its state, if
/// all states can be read, and otherwise the error of the first one that cannot. An
/// unknown path is refused.
pub open spec fn lists_faults<S: SovdFaultStateStorage>(
    catalogs: Map<Seq<char>, FaultCatalog>,
    storage: &S,
    path: Seq<char>,
    r: Result<Vec<SovdFault>, Error>,
) -> bool {
    if !catalogs.contains_key(path) {
        r == Err::<Vec<SovdFault>, _>(Error::BadArgument)
    } else {
        let listed = catalogs[path].listed();
        match r {
            Ok(all) => {
                &&& all@.len() == listed.len()
                &&& forall|i: int|
                    0 <= i < listed.len() ==> (#[trigger] all@[i])@ == shown_fault(
                        listed[i],
                        state_or_clear(storage.stored(), path, listed[i].id),
                    )
                &&& forall|i: int|
                    0 <= i < listed.len() ==> storage.readable(
                        path,
                        storage_key((#[trigger] listed[i]).id),
                    )
            },
            Err(e) => exists|i: int| #[trigger]
                first_unreadable(storage, path, listed, i) && reading_fails(
                    storage,
                    path,
                    listed[i].id,
                    e,
                ),
        }
    }
}

/// What reading one fault gives, when its code stands for `id`.
pub open spec fn reads_fault<S: SovdFaultStateStorage>(
    catalog: FaultCatalog,
    storage: &S,
    path: Seq<char>,
    id: Result<FaultId, Error>,
    r: Result<(SovdFault, SovdEnvData), Error>,
) -> bool {
    match id {
        Err(e) => r == Err::<(SovdFault, SovdEnvData), _>(e),
        Ok(id) => if !catalog.by_id().contains_key(id) {
            r == Err::<(SovdFault, SovdEnvData), _>(Error::NotFound)
        } else {
            match r {
                Ok(found) => {
                    let s = state_or_clear(storage.stored(), path, id);
                    &&& storage.readable(path, storage_key(id))
                    &&& found.0@ == shown_fault(catalog.by_id()[id], s)
                    &&& text_map(found.1@) == s.env_data
                },
                Err(e) => !storage.readable(path, storage_key(id)) && reading_fails(
                    storage,
                    path,
                    id,
                    e,
                ),
            }
        },
    }
}

/// What reading one fault by its code gives: an unknown path is refused, and a code
/// that stands for no described fault is not found.
pub open spec fn finds_fault<S: SovdFaultStateStorage>(
    catalogs: Map<Seq<char>, FaultCatalog>,
    storage: &S,
    path: Seq<char>,
    code: Seq<char>,
    r: Result<(SovdFault, SovdEnvData), Error>,
) -> bool {
    if !catalogs.contains_key(path) {
        r == Err::<(SovdFault, SovdEnvData), _>(Error::BadArgument)
    } else {
        exists|id: Result<FaultId, Error>| #[trigger]
            code_decodes(code, id) && reads_fault(catalogs[path], storage, path, id, r)
    }
}

/// What removing every state of an entity does. Afterwards all of its states can be
/// read; those of other entities can be read as before.
pub open spec fn deletes_path<S: SovdFaultStateStorage>(
    before: &S,
    after: &S,
    path: Seq<char>,
    r: Result<(), Error>,
) -> bool {
    &&& path.len() == 0 ==> r == Err::<(), _>(Error::BadArgument) && after == before
    &&& path.len() > 0 ==> (r is Ok <==> before.clearable(path))
    &&& path.len() > 0 && r is Err ==> exists|s: StorageError| #[trigger]
        before.clear_error(path, s) && (r matches Err(Error::Storage(m)) && m@ == s.message())
    &&& r is Ok ==> after.stored() == before.stored().remove_keys(
        Set::new(|pk: (Seq<char>, Seq<char>)| pk.0 == path),
    )
    &&& r is Err ==> after.stored() == before.stored()
    &&& r is Ok ==> after.listable(path) && forall|k: Seq<char>| #[trigger] after.readable(path, k)
    &&& forall|p: Seq<char>, k: Seq<char>|
        r is Err || p != path ==> #[trigger] after.readable(p, k) == before.readable(p, k)
    &&& forall|p: Seq<char>|
        r is Err || p != path ==> #[trigger] after.listable(p) == before.listable(p)
}

/// What removing the state of one fault does, when its code stands for `id`. A fault
/// without a state is not found; the error of a removal that fails otherwise is passed
/// on. The removed state can be read afterwards, the others can be read as before.
pub open spec fn deletes_fault<S: SovdFaultStateStorage>(
    before: &S,
    after: &S,
    path: Seq<char>,
    id: Result<FaultId, Error>,
    r: Result<(), Error>,
) -> bool {
    match id {
        Err(e) => r == Err::<(), _>(e) && after == before,
        Ok(id) => {
            let key = storage_key(id);
            &&& r is Ok <==> before.removable(path, key)
            &&& !before.stored().contains_key((path, key)) ==> r == Err::<(), _>(Error::NotFound)
            &&& before.stored().contains_key((path, key)) && r is Err ==> exists|s: StorageError|
                #[trigger] before.removal_error(path, key, s) && (r matches Err(Error::Storage(m))
                    && m@ == s.message())
            &&& r is Ok ==> after.stored() == before.stored().remove((path, key))
            &&& r is Err ==> after.stored() == before.stored()
            &&& r is Ok ==> after.readable(path, key)
            &&& forall|p: Seq<char>, k: Seq<char>|
                r is Err || p != path || k != key ==> #[trigger] after.readable(p, k)
                    == before.readable(p, k)
            &&& forall|p: Seq<char>|
                r is Err || p != path ==> #[trigger] after.listable(p) == before.listable(p)
            &&& before.listable(path) ==> after.listable(path)
        },
    }
}

/// What removing the state of one fault by its code does. An empty path or code is
/// refused; whether the path has a catalog does not matter.
pub open spec fn deletes_code<S: SovdFaultStateStorage>(
    before: &S,
    after: &S,
    path: Seq<char>,
    code: Seq<char>,
    r: Result<(), Error>,
) -> bool {
    if path.len() == 0 || code.len() == 0 {
        r == Err::<(), _>(Error::BadArgument) && after == before
    } else {
        exists|id: Result<FaultId, Error>| #[trigger]
            code_decodes(code, id) && deletes_fault(before, after, path, id, r)
    }
}

/// What clearing an entity on behalf of a tool does: a path without a catalog is
/// refused, every state of any other one is removed.
pub open spec fn clears_path<S: SovdFaultStateStorage>(
    catalogs: Map<Seq<char>, FaultCatalog>,
    before: &S,
    after: &S,
    path: Seq<char>,
    r: Result<(), Error>,
) -> bool {
    if !catalogs.contains_key(path) {
        r == Err::<(), _>(Error::BadArgument) && after == before
    } else {
        deletes_path(before, after, path, r)
    }
}

/// What clearing one fault on behalf of a tool does: an empty path or code and a code
/// that stands for no fault are refused, a path without a catalog has no faults to be
/// found, and of any other one the state of the fault is removed.
pub open spec fn clears_code<S: SovdFaultStateStorage>(
    catalogs: Map<Seq<char>, FaultCatalog>,
    before: &S,
    after: &S,
    path: Seq<char>,
    code: Seq<char>,
    r: Result<(), Error>,
) -> bool {
    if path.len() == 0 || code.len() == 0 {
        r == Err::<(), _>(Error::BadArgument) && after == before
    } else {
        exists|id: Result<FaultId, Error>| #[trigger]
            code_decodes(code, id) && if id is Ok && !catalogs.contains_key(path) {
                r == Err::<(), _>(Error::NotFound) && after == before
            } else {
                deletes_fault(before, after, path, id, r)
            }
    }
}

/// Answers queries about the faults of the known catalogs.
#[derive(Debug)]
pub struct SovdFaultManager {
    /// The known catalogs.
    pub registry: Arc<FaultCatalogRegistry>,
}

impl SovdFaultManager {
    /// A manager over the given catalogs.
    pub fn new(registry: Arc<FaultCatalogRegistry>) -> (r: Self)
        ensures
            r.registry == registry,
    {
        SovdFaultManager { registry }
    }

    /// Every described fault of an entity with its state; faults that were never
    /// reported are shown clear.
    pub fn get_all_faults<S: SovdFaultStateStorage>(&self, storage: &S, path: &str) -> (r: Result<
        Vec<SovdFault>,
        Error,
    >)
        ensures
            lists_faults(self.registry@, storage, path@, r),
    {
        let catalog = match self.registry.get(path) {
            Some(c) => c,
            None => {
                return Err(Error::BadArgument);
            },
        };
        let descriptors = catalog.descriptors();
        let mut faults: Vec<SovdFault> = Vec::new();
        let mut i: usize = 0;
        while i < descriptors.len()
            invariant
                i <= descriptors@.len(),
                faults@.len() == i,
                self.registry@.contains_key(path@),
                descriptors@ == self.registry@[path@].listed(),
                forall|j: int|
                    0 <= j < i ==> (#[trigger] faults@[j])@ == shown_fault(
                        descriptors@[j],
                        state_or_clear(storage.stored(), path@, descriptors@[j].id),
                    ),
                forall|j: int|
                    0 <= j < i ==> storage.readable(
                        path@,
                        storage_key((#[trigger] descriptors@[j]).id),
                    ),
            decreases descriptors@.len() - i,
        {
            let descriptor: FaultDescriptor = descriptors[i];
            let read = storage.get(path, &descriptor.id);
            match listed_fault(&descriptor, read) {
                Ok(fault) => {
                    faults.push(fault);
                },
                Err(e) => {
                    proof {
                        assert(storage.read_error(
                            path@,
                            storage_key(descriptor.id),
                            read->Err_0,
                        ));
                        assert(first_unreadable(storage, path@, descriptors@, i as int));
                    }
                    return Err(e);
                },
            }
            i += 1;
        }
        Ok(faults)
    }

    /// One fault with its environment data.
    pub fn get_fault<S: SovdFaultStateStorage>(
        &self,
        storage: &S,
        path: &str,
        fault_code: &str,
    ) -> (r: Result<(SovdFault, SovdEnvData), Error>)
        ensures
            finds_fault(self.registry@, storage, path@, fault_code@, r),
    {
        let catalog = match self.registry.get(path) {
            Some(c) => c,
            None => {
                return Err(Error::BadArgument);
            },
        };
        let fault_id: FaultId = match fault_id_from_code(fault_code) {
            Ok(id) => id,
            Err(e) => {
                assert(code_decodes(fault_code@, Err(e)));
                return Err(e);
            },
        };
        assert(code_decodes(fault_code@, Ok(fault_id)));
        match catalog.descriptor(&fault_id) {
            Some(descriptor) => {
                let read = storage.get(path, &fault_id);
                assert(read is Err ==> storage.read_error(
                    path@,
                    storage_key(fault_id),
                    read->Err_0,
                ));
                single_fault(descriptor, read)
            },
            None => Err(Error::NotFound),
        }
    }

    /// Removes every state of an entity.
    pub fn delete_all_faults<S: SovdFaultStateStorage>(&self, storage: &mut S, path: &str) -> (r:
        Result<(), Error>)
        ensures
            deletes_path(old(storage), final(storage), path@, r),
    {
        if path.is_empty() {
            return Err(Error::BadArgument);
        }
        let ghost before = *storage;
        let outcome = storage.delete_all(path);
        assert(outcome is Err ==> before.clear_error(path@, outcome->Err_0));
        deleted_all(outcome)
    }

    /// Removes the state of one fault.
    pub fn delete_fault<S: SovdFaultStateStorage>(
        &self,
        storage: &mut S,
        path: &str,
        fault_code: &str,
    ) -> (r: Result<(), Error>)
        ensures
            deletes_code(old(storage), final(storage), path@, fault_code@, r),
    {
        if path.is_empty() || fault_code.is_empty() {
            return Err(Error::BadArgument);
        }
        let fault_id: FaultId = match fault_id_from_code(fault_code) {
            Ok(id) => id,
            Err(e) => {
                assert(code_decodes(fault_code@, Err(e)));
                return Err(e);
            },
        };
        assert(code_decodes(fault_code@, Ok(fault_id)));
        let ghost before = *storage;
        let outcome = storage.delete(path, &fault_id);
        assert(outcome is Err && before.stored().contains_key((path@, storage_key(fault_id)))
            ==> before.removal_error(path@, storage_key(fault_id), outcome->Err_0));
        deleted_one(outcome)
    }

    /// Removes every state of an entity on behalf of a tool.
    pub fn clear_faults<S: SovdFaultStateStorage>(&self, storage: &mut S, path: &str) -> (r: Result<
        (),
        Error,
    >)
        ensures
            clears_path(self.registry@, old(storage), final(storage), path@, r),
    {
        if self.registry.get(path).is_none() {
            return Err(Error::BadArgument);
        }
        self.delete_all_faults(storage, path)
    }

    /// Removes the state of one fault on behalf of a tool.
    pub fn clear_fault<S: SovdFaultStateStorage>(
        &self,
        storage: &mut S,
        path: &str,
        fault_code: &str,
    ) -> (r: Result<(), Error>)
        ensures
            clears_code(self.registry@, old(storage), final(storage), path@, fault_code@, r),
    {
        if path.is_empty() || fault_code.is_empty() {
            return Err(Error::BadArgument);
        }
        if self.registry.get(path).is_none() {
            return match fault_id_from_code(fault_code) {
                Ok(id) => {
                    assert(code_decodes(fault_code@, Ok(id)));
                    Err(Error::NotFound)
                },
                Err(e) => {
                    assert(code_decodes(fault_code@, Err(e)));
                    Err(e)
                },
            };
        }
        self.delete_fault(storage, path, fault_code)
    }
}

/// After its state was removed, or all states of its entity were, a fault is shown
/// clear; a fault of another entity, or with another key, is shown as before.
pub proof fn law_deleted_faults_are_clear(
    stored: StoredStates,
    path: Seq<char>,
    id: FaultId,
    other_path: Seq<char>,
    other: FaultId,
)
    ensures
        ({
            let one = stored.remove((path, storage_key(id)));
            let all = stored.remove_keys(Set::new(|pk: (Seq<char>, Seq<char>)| pk.0 == path));
            &&& state_or_clear(one, path, id) == FaultStateView::clear()
            &&& state_or_clear(all, path, id) == FaultStateView::clear()
            &&& other_path != path || storage_key(other) != storage_key(id) ==> state_or_clear(
                one,
                other_path,
                other,
            ) == state_or_clear(stored, other_path, other)
            &&& other_path != path ==> state_or_clear(all, other_path, other) == state_or_clear(
                stored,
                other_path,
                other,
            )
        }),
{
}

/// After an entity was cleared its faults can be listed, and all of them are shown clear,
/// whether or not they could be listed before.
pub proof fn law_cleared_entity_is_listed_clear<S: SovdFaultStateStorage>(
    catalogs: Map<Seq<char>, FaultCatalog>,
    before: S,
    after: S,
    path: Seq<char>,
    listing: Result<Vec<SovdFault>, Error>,
)
    requires
        catalogs.contains_key(path),
        clears_path(catalogs, &before, &after, path, Ok(())),
        lists_faults(catalogs, &after, path, listing),
    ensures
        listing matches Ok(all) && all@.len() == catalogs[path].listed().len() && forall|i: int|
            0 <= i < all@.len() ==> (#[trigger] all@[i])@ == shown_fault(
                catalogs[path].listed()[i],
                FaultStateView::clear(),
            ),
{
    let listed = catalogs[path].listed();
    if listing is Err {
        let i = choose|i: int| #[trigger]
            first_unreadable(&after, path, listed, i) && reading_fails(
                &after,
                path,
                listed[i].id,
                listing->Err_0,
            );
        assert(after.readable(path, storage_key(listed[i].id)));
    }
}

/// After a fault was cleared it can be read and is shown clear, whether or not it could
/// be read before.
pub proof fn law_cleared_fault_is_read_clear<S: SovdFaultStateStorage>(
    catalog: FaultCatalog,
    before: S,
    after: S,
    path: Seq<char>,
    id: FaultId,
    reading: Result<(SovdFault, SovdEnvData), Error>,
)
    requires
        catalog.by_id().contains_key(id),
        deletes_fault(&before, &after, path, Ok(id), Ok(())),
        reads_fault(catalog, &after, path, Ok(id), reading),
    ensures
        reading matches Ok(found) && found.0@ == shown_fault(
            catalog.by_id()[id],
            FaultStateView::clear(),
        ) && text_map(found.1@) == FaultStateView::clear().env_data,
{
}

/// Each bit of the status byte is set exactly if the flag of its place is known and set.
pub proof fn law_status_byte_bits(s: StatusView)
    ensures
        s.mask_byte() & 1 == 1 <==> s.test_failed == Some(true),
        s.mask_byte() & 2 == 2 <==> s.test_failed_this_operation_cycle == Some(true),
        s.mask_byte() & 4 == 4 <==> s.pending_dtc == Some(true),
        s.mask_byte() & 8 == 8 <==> s.confirmed_dtc == Some(true),
        s.mask_byte() & 16 == 16 <==> s.test_not_completed_since_last_clear == Some(true),
        s.mask_byte() & 32 == 32 <==> s.test_failed_since_last_clear == Some(true),
        s.mask_byte() & 64 == 64 <==> s.test_not_completed_this_operation_cycle == Some(true),
        s.mask_byte() & 128 == 128 <==> s.warning_indicator_requested == Some(true),
{
    law_mask_bits(s);
}

/// Each bit of the shown status is the bit of the same name in the stored state, and so
/// is each bit of the status byte, which the mask shows in hexadecimal.
pub proof fn law_status_shows_the_state(s: FaultStateView)
    ensures
        StatusView::of_state(s).test_failed == Some(s.test_failed),
        StatusView::of_state(s).test_failed_this_operation_cycle == Some(s.test_failed_this_operation_cycle),
        StatusView::of_state(s).pending_dtc == Some(s.pending_dtc),
        StatusView::of_state(s).confirmed_dtc == Some(s.confirmed_dtc),
        StatusView::of_state(s).test_not_completed_since_last_clear == Some(s.test_not_completed_since_last_clear),
        StatusView::of_state(s).test_failed_since_last_clear == Some(s.test_failed_since_last_clear),
        StatusView::of_state(s).test_not_completed_this_operation_cycle == Some(s.test_not_completed_this_operation_cycle),
        StatusView::of_state(s).warning_indicator_requested == Some(s.warning_indicator_requested),
        StatusView::of_state(s).mask_byte() & 1 == 1 <==> s.test_failed,
        StatusView::of_state(s).mask_byte() & 2 == 2 <==> s.test_failed_this_operation_cycle,
        StatusView::of_state(s).mask_byte() & 4 == 4 <==> s.pending_dtc,
        StatusView::of_state(s).mask_byte() & 8 == 8 <==> s.confirmed_dtc,
        StatusView::of_state(s).mask_byte() & 16 == 16 <==> s.test_not_completed_since_last_clear,
        StatusView::of_state(s).mask_byte() & 32 == 32 <==> s.test_failed_since_last_clear,
        StatusView::of_state(s).mask_byte() & 64 == 64 <==> s.test_not_completed_this_operation_cycle,
        StatusView::of_state(s).mask_byte() & 128 == 128 <==> s.warning_indicator_requested,
        StatusView::of_state(s).mask == Some(
            mask_text(StatusView::of_state(s).mask_byte()),
        ),
{
    law_status_byte_bits(StatusView::of_state(s));
}

/// The status that is made from a state has its bits, and the byte that is computed from
/// the status has them too.
pub proof fn law_made_status_has_the_bits(state: SovdFaultState, status: SovdFaultStatus, byte: u8)
    requires
        call_ensures(SovdFaultStatus::from_state, (&state,), status),
        call_ensures(SovdFaultStatus::compute_mask, (&status,), byte),
    ensures
        status.test_failed == Some(state.test_failed),
        status.test_failed_this_operation_cycle == Some(state.test_failed_this_operation_cycle),
        status.pending_dtc == Some(state.pending_dtc),
        status.confirmed_dtc == Some(state.confirmed_dtc),
        status.test_not_completed_since_last_clear == Some(state.test_not_completed_since_last_clear),
        status.test_failed_since_last_clear == Some(state.test_failed_since_last_clear),
        status.test_not_completed_this_operation_cycle == Some(state.test_not_completed_this_operation_cycle),
        status.warning_indicator_requested == Some(state.warning_indicator_requested),
        byte & 1 == 1 <==> state.test_failed,
        byte & 2 == 2 <==> state.test_failed_this_operation_cycle,
        byte & 4 == 4 <==> state.pending_dtc,
        byte & 8 == 8 <==> state.confirmed_dtc,
        byte & 16 == 16 <==> state.test_not_completed_since_last_clear,
        byte & 32 == 32 <==> state.test_failed_since_last_clear,
        byte & 64 == 64 <==> state.test_not_completed_this_operation_cycle,
        byte & 128 == 128 <==> state.warning_indicator_requested,
        status.mask matches Some(text) && text@ == mask_text(byte),
{
    law_status_shows_the_state(state@);
    assert(status@ == StatusView::of_state(state@));
}

/// A status byte is shown as `0x` and two digits: the upper half, then the lower one, with
/// `A` to `F` for ten to fifteen.
pub proof fn law_mask_is_hexadecimal(mask: u8)
    ensures
        mask_text(mask).len() == 4,
        mask_text(mask)[0] == '0',
        mask_text(mask)[1] == 'x',
        ({
            let high = mask_text(mask)[2] as int;
            let low = mask_text(mask)[3] as int;
            let upper = if high <= '9' as int {
                high - '0' as int
            } else {
                high - 'A' as int + 10
            };
            let lower = if low <= '9' as int {
                low - '0' as int
            } else {
                low - 'A' as int + 10
            };
            &&& 0 <= upper < 16
            &&& 0 <= lower < 16
            &&& mask == 16 * upper + lower
        }),
{
}

/// The names of the flags differ.
proof fn lemma_flag_names()
    ensures
        "testFailed"@.len() == 10,
        "testFailedThisOperationCycle"@.len() == 28,
        "pendingDTC"@.len() == 10,
        "confirmedDTC"@.len() == 12,
        "testNotCompletedSinceLastClear"@.len() == 30,
        "testFailedSinceLastClear"@.len() == 24,
        "testNotCompletedThisOperationCycle"@.len() == 34,
        "warningIndicatorRequested"@.len() == 25,
        "mask"@.len() == 4,
        "testFailed"@[0] == 't',
        "pendingDTC"@[0] == 'p',
{
    reveal_strlit("testFailed");
    reveal_strlit("testFailedThisOperationCycle");
    reveal_strlit("pendingDTC");
    reveal_strlit("confirmedDTC");
    reveal_strlit("testNotCompletedSinceLastClear");
    reveal_strlit("testFailedSinceLastClear");
    reveal_strlit("testNotCompletedThisOperationCycle");
    reveal_strlit("warningIndicatorRequested");
    reveal_strlit("mask");
}

/// Each flag stands in the status texts under its name if it is known, as `1` or `0`.
pub proof fn law_flags_are_listed_by_name(s: StatusView)
    ensures
        s.test_failed is Some <==> s.as_map().contains_key("testFailed"@),
        s.test_failed matches Some(b) ==> s.as_map()["testFailed"@] == if b {
            "1"@
        } else {
            "0"@
        },
        s.test_failed_this_operation_cycle is Some <==> s.as_map().contains_key("testFailedThisOperationCycle"@),
        s.test_failed_this_operation_cycle matches Some(b) ==> s.as_map()["testFailedThisOperationCycle"@] == if b {
            "1"@
        } else {
            "0"@
        },
        s.pending_dtc is Some <==> s.as_map().contains_key("pendingDTC"@),
        s.pending_dtc matches Some(b) ==> s.as_map()["pendingDTC"@] == if b {
            "1"@
        } else {
            "0"@
        },
        s.confirmed_dtc is Some <==> s.as_map().contains_key("confirmedDTC"@),
        s.confirmed_dtc matches Some(b) ==> s.as_map()["confirmedDTC"@] == if b {
            "1"@
        } else {
            "0"@
        },
        s.test_not_completed_since_last_clear is Some <==> s.as_map().contains_key("testNotCompletedSinceLastClear"@),
        s.test_not_completed_since_last_clear matches Some(b) ==> s.as_map()["testNotCompletedSinceLastClear"@] == if b {
            "1"@
        } else {
            "0"@
        },
        s.test_failed_since_last_clear is Some <==> s.as_map().contains_key("testFailedSinceLastClear"@),
        s.test_failed_since_last_clear matches Some(b) ==> s.as_map()["testFailedSinceLastClear"@] == if b {
            "1"@
        } else {
            "0"@
        },
        s.test_not_completed_this_operation_cycle is Some <==> s.as_map().contains_key("testNotCompletedThisOperationCycle"@),
        s.test_not_completed_this_operation_cycle matches Some(b) ==> s.as_map()["testNotCompletedThisOperationCycle"@] == if b {
            "1"@
        } else {
            "0"@
        },
        s.warning_indicator_requested is Some <==> s.as_map().contains_key("warningIndicatorRequested"@),
        s.warning_indicator_requested matches Some(b) ==> s.as_map()["warningIndicatorRequested"@] == if b {
            "1"@
        } else {
            "0"@
        },
        s.mask is Some <==> s.as_map().contains_key("mask"@),
        s.mask matches Some(t) ==> s.as_map()["mask"@] == t,
{
    lemma_flag_names();
}

/// A fault is shown with the bits, the counters and the times of its state: a bit as such
/// and as text, a time as its text, and no time where there was no occurrence.
pub proof fn law_shown_fault_has_its_state(d: FaultDescriptor, s: FaultStateView)
    ensures
        ({
            let shown = shown_fault(d, s);
            &&& shown.typed_status matches Some(t) && {
                &&& t.test_failed == Some(s.test_failed)
                &&& t.test_failed_this_operation_cycle == Some(s.test_failed_this_operation_cycle)
                &&& t.pending_dtc == Some(s.pending_dtc)
                &&& t.confirmed_dtc == Some(s.confirmed_dtc)
                &&& t.test_not_completed_since_last_clear == Some(s.test_not_completed_since_last_clear)
                &&& t.test_failed_since_last_clear == Some(s.test_failed_since_last_clear)
                &&& t.test_not_completed_this_operation_cycle == Some(s.test_not_completed_this_operation_cycle)
                &&& t.warning_indicator_requested == Some(s.warning_indicator_requested)
            }
            &&& shown.status.contains_key("testFailed"@) && shown.status["testFailed"@] == if s.test_failed {
                "1"@
            } else {
                "0"@
            }
            &&& shown.status.contains_key("testFailedThisOperationCycle"@) && shown.status["testFailedThisOperationCycle"@] == if s.test_failed_this_operation_cycle {
                "1"@
            } else {
                "0"@
            }
            &&& shown.status.contains_key("pendingDTC"@) && shown.status["pendingDTC"@] == if s.pending_dtc {
                "1"@
            } else {
                "0"@
            }
            &&& shown.status.contains_key("confirmedDTC"@) && shown.status["confirmedDTC"@] == if s.confirmed_dtc {
                "1"@
            } else {
                "0"@
            }
            &&& shown.status.contains_key("testNotCompletedSinceLastClear"@) && shown.status["testNotCompletedSinceLastClear"@] == if s.test_not_completed_since_last_clear {
                "1"@
            } else {
                "0"@
            }
            &&& shown.status.contains_key("testFailedSinceLastClear"@) && shown.status["testFailedSinceLastClear"@] == if s.test_failed_since_last_clear {
                "1"@
            } else {
                "0"@
            }
            &&& shown.status.contains_key("testNotCompletedThisOperationCycle"@) && shown.status["testNotCompletedThisOperationCycle"@] == if s.test_not_completed_this_operation_cycle {
                "1"@
            } else {
                "0"@
            }
            &&& shown.status.contains_key("warningIndicatorRequested"@) && shown.status["warningIndicatorRequested"@] == if s.warning_indicator_requested {
                "1"@
            } else {
                "0"@
            }
            &&& shown.occurrence_counter == Some(s.occurrence_counter)
            &&& shown.aging_counter == Some(s.aging_counter)
            &&& shown.healing_counter == Some(s.healing_counter)
            &&& s.first_occurrence_secs == 0 ==> shown.first_occurrence is None
            &&& s.first_occurrence_secs != 0 ==> shown.first_occurrence == Some(
                timestamp_text(s.first_occurrence_secs),
            )
            &&& s.last_occurrence_secs == 0 ==> shown.last_occurrence is None
            &&& s.last_occurrence_secs != 0 ==> shown.last_occurrence == Some(
                timestamp_text(s.last_occurrence_secs),
            )
        }),
{
    law_status_shows_the_state(s);
    law_flags_are_listed_by_name(StatusView::of_state(s));
}

/// A fault is shown with what its description says: its code, also for display and in the
/// translation keys, its name and its severity, and its summary as symptom if it has one.
pub proof fn law_shown_fault_has_its_description(d: FaultDescriptor, s: FaultStateView)
    ensures
        ({
            let shown = shown_fault(d, s);
            &&& shown.code == fault_code(d.id)
            &&& shown.display_code == shown.code
            &&& shown.fault_translation_id == "fault."@ + shown.code
            &&& shown.scope == "ecu"@
            &&& shown.fault_name == escaped(d.name@)
            &&& shown.severity == d.severity.level()
            &&& shown.schema is None
            &&& d.summary is None ==> shown.symptom is None && shown.symptom_translation_id is None
            &&& d.summary matches Some(t) ==> shown.symptom == Some(escaped(t@))
                && shown.symptom_translation_id == Some("symptom."@ + shown.code)
        }),
{
}

/// States that differ in a bit are shown with a different status.
pub proof fn law_shown_status_tells_states_apart(
    d: FaultDescriptor,
    a: FaultStateView,
    b: FaultStateView,
)
    requires
        shown_fault(d, a).typed_status == shown_fault(d, b).typed_status,
    ensures
        a.test_failed == b.test_failed,
        a.test_failed_this_operation_cycle == b.test_failed_this_operation_cycle,
        a.pending_dtc == b.pending_dtc,
        a.confirmed_dtc == b.confirmed_dtc,
        a.test_not_completed_since_last_clear == b.test_not_completed_since_last_clear,
        a.test_failed_since_last_clear == b.test_failed_since_last_clear,
        a.test_not_completed_this_operation_cycle == b.test_not_completed_this_operation_cycle,
        a.warning_indicator_requested == b.warning_indicator_requested,
{
    law_status_shows_the_state(a);
    law_status_shows_the_state(b);
}

/// The state of a fault is what is stored under its key, as far as it can be read; a fault
/// without one is clear.
pub proof fn law_state_is_looked_up<S: SovdFaultStateStorage>(
    storage: S,
    path: Seq<char>,
    id: FaultId,
)
    ensures
        storage.stored().contains_key((path, storage_key(id))) ==> state_or_clear(
            storage.stored(),
            path,
            id,
        ) == storage.stored()[(path, storage_key(id))],
        !storage.stored().contains_key((path, storage_key(id))) ==> state_or_clear(
            storage.stored(),
            path,
            id,
        ) == FaultStateView::clear(),
        storage.readable(path, storage_key(id)) ==> known_state(&storage, path, id)
            == state_or_clear(storage.stored(), path, id),
        !storage.readable(path, storage_key(id)) ==> known_state(&storage, path, id)
            == FaultStateView::clear(),
{
}

/// A listing that succeeds shows every described fault of the entity, in the order of the
/// catalog, each with the state that is stored for it. An unknown entity is refused.
pub proof fn law_listing_shows_stored_states<S: SovdFaultStateStorage>(
    catalogs: Map<Seq<char>, FaultCatalog>,
    storage: S,
    path: Seq<char>,
    listing: Result<Vec<SovdFault>, Error>,
    i: int,
)
    requires
        lists_faults(catalogs, &storage, path, listing),
    ensures
        !catalogs.contains_key(path) ==> listing == Err::<Vec<SovdFault>, _>(Error::BadArgument),
        listing matches Ok(all) ==> catalogs.contains_key(path) && all@.len()
            == catalogs[path].listed().len(),
        listing matches Ok(all) ==> (0 <= i < all@.len() ==> {
            let d = catalogs[path].listed()[i];
            let k = (path, storage_key(d.id));
            &&& all@[i]@.code == fault_code(d.id)
            &&& storage.stored().contains_key(k) ==> all@[i]@ == shown_fault(
                d,
                storage.stored()[k],
            )
            &&& !storage.stored().contains_key(k) ==> all@[i]@ == shown_fault(
                d,
                FaultStateView::clear(),
            )
        }),
        catalogs.contains_key(path) && (forall|j: int|
            0 <= j < catalogs[path].listed().len() ==> storage.readable(
                path,
                storage_key((#[trigger] catalogs[path].listed()[j]).id),
            )) ==> listing is Ok,
        catalogs.contains_key(path) && 0 <= i < catalogs[path].listed().len() && !storage.readable(
            path,
            storage_key(catalogs[path].listed()[i].id),
        ) ==> (listing matches Err(e) && e is Storage),
{
    if catalogs.contains_key(path) && listing is Err {
        let listed = catalogs[path].listed();
        let j = choose|j: int| #[trigger]
            first_unreadable(&storage, path, listed, j) && reading_fails(
                &storage,
                path,
                listed[j].id,
                listing->Err_0,
            );
        assert(!storage.readable(path, storage_key(listed[j].id)));
    }
}

/// Reading a fault by its identity shows the state that is stored for it together with its
/// environment data; a fault that the catalog does not describe is not found.
pub proof fn law_reading_shows_the_stored_state<S: SovdFaultStateStorage>(
    catalog: FaultCatalog,
    storage: S,
    path: Seq<char>,
    id: FaultId,
    reading: Result<(SovdFault, SovdEnvData), Error>,
)
    requires
        reads_fault(catalog, &storage, path, Ok(id), reading),
    ensures
        !catalog.by_id().contains_key(id) ==> reading == Err::<(SovdFault, SovdEnvData), _>(
            Error::NotFound,
        ),
        catalog.by_id().contains_key(id) ==> (reading is Ok <==> storage.readable(
            path,
            storage_key(id),
        )),
        catalog.by_id().contains_key(id) && reading is Err ==> reading->Err_0 is Storage,
        reading matches Ok(found) ==> {
            let k = (path, storage_key(id));
            &&& storage.stored().contains_key(k) ==> found.0@ == shown_fault(
                catalog.by_id()[id],
                storage.stored()[k],
            ) && text_map(found.1@) == storage.stored()[k].env_data
            &&& !storage.stored().contains_key(k) ==> found.0@ == shown_fault(
                catalog.by_id()[id],
                FaultStateView::clear(),
            ) && text_map(found.1@) == Map::<Seq<char>, Seq<char>>::empty()
        },
{
}

/// Removing the state of a fault takes its state away and no other one; a fault without a
/// state is not found, and an empty path or code is refused.
pub proof fn law_removal_takes_one_state<S: SovdFaultStateStorage>(
    before: S,
    after: S,
    path: Seq<char>,
    id: FaultId,
    r: Result<(), Error>,
    pk: (Seq<char>, Seq<char>),
)
    requires
        deletes_fault(&before, &after, path, Ok(id), r),
    ensures
        r is Ok ==> !after.stored().contains_key((path, storage_key(id))),
        pk != (path, storage_key(id)) || r is Err ==> after.stored().contains_key(pk)
            == before.stored().contains_key(pk) && (before.stored().contains_key(pk)
            ==> after.stored()[pk] == before.stored()[pk]),
        !before.stored().contains_key((path, storage_key(id))) ==> r == Err::<(), _>(
            Error::NotFound,
        ),
{
}

/// Clearing an entity takes all of its states away and none of another one. An entity that
/// is not known is refused.
pub proof fn law_clearing_takes_all_states<S: SovdFaultStateStorage>(
    catalogs: Map<Seq<char>, FaultCatalog>,
    before: S,
    after: S,
    path: Seq<char>,
    r: Result<(), Error>,
    pk: (Seq<char>, Seq<char>),
)
    requires
        clears_path(catalogs, &before, &after, path, r),
    ensures
        r is Ok && pk.0 == path ==> !after.stored().contains_key(pk),
        pk.0 != path || r is Err ==> after.stored().contains_key(pk)
            == before.stored().contains_key(pk) && (before.stored().contains_key(pk)
            ==> after.stored()[pk] == before.stored()[pk]),
        !catalogs.contains_key(path) || path.len() == 0 ==> r == Err::<(), _>(Error::BadArgument),
        catalogs.contains_key(path) && path.len() > 0 && before.clearable(path) ==> r is Ok,
{
}

/// The message of a query error names its cause; the details of the storage stand behind.
pub proof fn law_query_messages_name_the_cause(m: String)
    ensures
        Error::BadArgument.message() == "bad argument"@,
        Error::NotFound.message() == "not found"@,
        Error::Storage(m).message() == "storage error: "@ + m@,
{
}

/// A fault is found by its code exactly as by the identifier that the code stands for; a
/// path without a catalog and a code that stands for nothing are refused.
pub proof fn law_fault_is_found_by_its_code<S: SovdFaultStateStorage>(
    catalogs: Map<Seq<char>, FaultCatalog>,
    storage: S,
    path: Seq<char>,
    code: Seq<char>,
    r: Result<(SovdFault, SovdEnvData), Error>,
)
    requires
        finds_fault(catalogs, &storage, path, code, r),
    ensures
        !catalogs.contains_key(path) ==> r == Err::<(SovdFault, SovdEnvData), _>(
            Error::BadArgument,
        ),
        catalogs.contains_key(path) && r is Ok ==> exists|id: FaultId| #[trigger]
            code_decodes(code, Ok(id)) && catalogs[path].by_id().contains_key(id) && reads_fault(
                catalogs[path],
                &storage,
                path,
                Ok(id),
                r,
            ),
        catalogs.contains_key(path) && (r matches Err(e) && e is NotFound) ==> exists|
            id: FaultId,
        | #[trigger]
            code_decodes(code, Ok(id)) && !catalogs[path].by_id().contains_key(id),
        catalogs.contains_key(path) && (r matches Err(e) && e is BadArgument) ==> code_decodes(
            code,
            Err(Error::BadArgument),
        ),
{
    if catalogs.contains_key(path) {
        let id = choose|id: Result<FaultId, Error>| #[trigger]
            code_decodes(code, id) && reads_fault(catalogs[path], &storage, path, id, r);
    }
}

/// A state is removed by the code of its fault, and nothing else is. An empty path or code
/// and a code that stands for no fault are refused; a fault without a state is not found,
/// and on behalf of a tool neither is one of a path without a catalog.
pub proof fn law_state_is_removed_by_code<S: SovdFaultStateStorage>(
    catalogs: Map<Seq<char>, FaultCatalog>,
    before: S,
    after: S,
    path: Seq<char>,
    code: Seq<char>,
    r: Result<(), Error>,
    by_tool: bool,
    pk: (Seq<char>, Seq<char>),
)
    requires
        by_tool ==> clears_code(catalogs, &before, &after, path, code, r),
        !by_tool ==> deletes_code(&before, &after, path, code, r),
    ensures
        path.len() == 0 || code.len() == 0 ==> r == Err::<(), _>(Error::BadArgument),
        by_tool && path.len() > 0 && code.len() > 0 && !catalogs.contains_key(path) ==> r is Err,
        r is Ok ==> exists|id: FaultId| #[trigger]
            code_decodes(code, Ok(id)) && before.stored().contains_key((path, storage_key(id)))
                && !after.stored().contains_key((path, storage_key(id))) && (pk != (
                path,
                storage_key(id),
            ) ==> after.stored().contains_key(pk) == before.stored().contains_key(pk) && (
            before.stored().contains_key(pk) ==> after.stored()[pk] == before.stored()[pk])),
        r is Err ==> after.stored() == before.stored(),
        path.len() > 0 && code.len() > 0 && (r matches Err(e) && e is NotFound) ==> exists|
            id: FaultId,
        | #[trigger]
            code_decodes(code, Ok(id)) && (!before.stored().contains_key((path, storage_key(id)))
                || (by_tool && !catalogs.contains_key(path))),
        path.len() > 0 && code.len() > 0 && (r matches Err(e) && e is BadArgument) ==> code_decodes(
            code,
            Err(Error::BadArgument),
        ),
{
    if path.len() > 0 && code.len() > 0 {
        let id = if by_tool {
            choose|id: Result<FaultId, Error>| #[trigger]
                code_decodes(code, id) && if id is Ok && !catalogs.contains_key(path) {
                    r == Err::<(), _>(Error::NotFound) && after == before
                } else {
                    deletes_fault(&before, &after, path, id, r)
                }
        } else {
            choose|id: Result<FaultId, Error>| #[trigger]
                code_decodes(code, id) && deletes_fault(&before, &after, path, id, r)
        };
        assert(code_decodes(code, id));
        if let Ok(f) = id {
            if !(by_tool && !catalogs.contains_key(path)) {
                law_removal_takes_one_state(before, after, path, f, r, pk);
            }
        }
    }
}

/// What a query makes of a deletion: it succeeds exactly if the storage does, a fault
/// without a state is not found, and any other failure keeps the message of the storage.
pub proof fn law_deletions_keep_their_outcome(
    outcome: Result<(), StorageError>,
    r: Result<(), Error>,
)
    requires
        call_ensures(deleted_one, (outcome,), r),
    ensures
        r is Ok <==> outcome is Ok,
        outcome matches Err(e) ==> (r->Err_0 is NotFound <==> e is NotFound),
        outcome matches Err(e) ==> (!(e is NotFound) ==> r->Err_0 is Storage
            && r->Err_0->Storage_0@ == e.message()),
{
}

/// A listed fault is shown with the state that was read, or as clear if there is none; a
/// state that cannot be read is an error of the storage.
pub proof fn law_listed_fault_shows_what_was_read(
    descriptor: FaultDescriptor,
    read: Result<Option<SovdFaultState>, StorageError>,
    r: Result<SovdFault, Error>,
)
    requires
        call_ensures(listed_fault, (&descriptor, read), r),
    ensures
        r is Ok <==> read is Ok,
        read matches Ok(Some(s)) ==> r->Ok_0@ == shown_fault(descriptor, s@),
        read == Ok::<Option<SovdFaultState>, StorageError>(None) ==> r->Ok_0@ == shown_fault(
            descriptor,
            FaultStateView::clear(),
        ),
        r matches Err(e) ==> e is Storage && e->Storage_0@ == read->Err_0.debug_text(),
{
}

/// A reading that fails shows the error that the storage reported.
pub proof fn law_failed_reading_shows_the_error<S: SovdFaultStateStorage>(
    storage: S,
    path: Seq<char>,
    id: FaultId,
    e: Error,
)
    requires
        reading_fails(&storage, path, id, e),
    ensures
        e is Storage,
        exists|s: StorageError| #[trigger]
            storage.read_error(path, storage_key(id), s) && e->Storage_0@ == s.debug_text(),
{
}

} // verus!

//! Faults and environment data in the fixed-size form of the query service, and back.
//!
//! Texts are cut to the capacity of their field, the schema is left out, and a status
//! bit that is not known counts as not set.

use vstd::prelude::*;
use vstd::string::*;
use vstd::utf8::*;

use super::fault_key::{lemma_escaped_printable, printable};
use super::fault_record_processor::{env_data_texts, env_texts};
use super::kvs::text_map;
use super::sovd_fault_manager::{
    format_mask, format_occurrence, law_status_byte_bits, mask_text, occurrence_text, opt_text, shown_fault, SovdFault,
    SovdFaultStatus, SovdFaultView, StatusView,
};
use super::sovd_fault_storage::{FaultStateView, SovdEnvData};
use super::timestamp::{
    law_far_times_are_clamped, law_timestamp_round_trip, parse_iso_timestamp, parsed_timestamp,
    timestamp_text, MAX_TIMESTAMP_SECS,
};
use crate::common::assoc_map::{entries_map, key_index, keys_distinct, lemma_entry};
use crate::common::fault::FaultDescriptor;
use crate::common::fixed_string::{all_string_bytes, escaped, is_string_byte, truncated};
use crate::common::query_protocol::{IpcEnvData, IpcFaultView, IpcSovdFault};
use crate::common::text::{chars_of, lemma_ascii_bytes};
use crate::common::types::{LongString, ShortString};

verus! {

/// What a field of the given capacity holds of a text: its first bytes, or nothing if
/// one of them is zero or not 7-bit.
pub open spec fn carried(s: Seq<char>, cap: nat) -> Seq<u8> {
    let bytes = truncated(encode_utf8(s), cap);
    if all_string_bytes(bytes) {
        bytes
    } else {
        seq![]
    }
}

/// What a field of the given capacity holds of an optional text.
pub open spec fn carried_opt(s: Option<Seq<char>>, cap: nat) -> Seq<u8> {
    match s {
        Some(t) => carried(t, cap),
        None => seq![],
    }
}

/// The beginning of a text, as a [`ShortString`].
pub fn short_str(s: &str) -> (r: ShortString)
    ensures
        r.wf(),
        r@ == carried(s@, 64),
{
    match ShortString::from_str_truncated(s) {
        Ok(t) => t,
        Err(_) => ShortString::new(),
    }
}

/// The beginning of a text, as a [`LongString`].
pub fn long_str(s: &str) -> (r: LongString)
    ensures
        r.wf(),
        r@ == carried(s@, 128),
{
    match LongString::from_str_truncated(s) {
        Ok(t) => t,
        Err(_) => LongString::new(),
    }
}

/// The flags of a status; a status that is not there has none.
pub open spec fn flags_of(status: Option<StatusView>) -> StatusView {
    match status {
        Some(s) => s,
        None => StatusView {
            test_failed: None,
            test_failed_this_operation_cycle: None,
            pending_dtc: None,
            confirmed_dtc: None,
            test_not_completed_since_last_clear: None,
            test_failed_since_last_clear: None,
            test_not_completed_this_operation_cycle: None,
            warning_indicator_requested: None,
            mask: None,
        },
    }
}

/// The bytes of an optional text.
pub open spec fn opt_bytes(s: Option<Seq<char>>) -> Option<Seq<u8>> {
    match s {
        Some(t) => Some(encode_utf8(t)),
        None => None,
    }
}

/// The counter, or zero.
pub open spec fn count_or_zero(n: Option<u32>) -> u32 {
    match n {
        Some(c) => c,
        None => 0,
    }
}

/// A fault in its fixed-size form.
pub open spec fn ipc_of(f: SovdFaultView) -> IpcFaultView {
    let status = flags_of(f.typed_status);
    IpcFaultView {
        code: carried(f.code, 64),
        display_code: carried(f.display_code, 64),
        scope: carried(f.scope, 64),
        fault_name: carried(f.fault_name, 64),
        fault_translation_id: carried(f.fault_translation_id, 64),
        severity: f.severity,
        status_mask: status.mask_byte(),
        test_failed: status.test_failed == Some(true),
        test_failed_this_operation_cycle: status.test_failed_this_operation_cycle == Some(true),
        pending_dtc: status.pending_dtc == Some(true),
        confirmed_dtc: status.confirmed_dtc == Some(true),
        test_not_completed_since_last_clear: status.test_not_completed_since_last_clear == Some(
            true,
        ),
        test_failed_since_last_clear: status.test_failed_since_last_clear == Some(true),
        test_not_completed_this_operation_cycle: status.test_not_completed_this_operation_cycle
            == Some(true),
        warning_indicator_requested: status.warning_indicator_requested == Some(true),
        occurrence_counter: count_or_zero(f.occurrence_counter),
        aging_counter: count_or_zero(f.aging_counter),
        healing_counter: count_or_zero(f.healing_counter),
        first_occurrence_secs: parsed_timestamp(opt_bytes(f.first_occurrence)) as u64,
        last_occurrence_secs: parsed_timestamp(opt_bytes(f.last_occurrence)) as u64,
        symptom: carried_opt(f.symptom, 128),
        has_symptom: f.symptom is Some,
        symptom_translation_id: carried_opt(f.symptom_translation_id, 64),
        has_symptom_translation_id: f.symptom_translation_id is Some,
    }
}

/// A fault from its fixed-size form.
pub open spec fn sovd_of(v: IpcFaultView) -> SovdFaultView {
    let status = StatusView {
        test_failed: Some(v.test_failed),
        test_failed_this_operation_cycle: Some(v.test_failed_this_operation_cycle),
        pending_dtc: Some(v.pending_dtc),
        confirmed_dtc: Some(v.confirmed_dtc),
        test_not_completed_since_last_clear: Some(v.test_not_completed_since_last_clear),
        test_failed_since_last_clear: Some(v.test_failed_since_last_clear),
        test_not_completed_this_operation_cycle: Some(v.test_not_completed_this_operation_cycle),
        warning_indicator_requested: Some(v.warning_indicator_requested),
        mask: Some(mask_text(v.status_mask)),
    };
    SovdFaultView {
        code: escaped(v.code),
        display_code: escaped(v.display_code),
        scope: escaped(v.scope),
        fault_name: escaped(v.fault_name),
        fault_translation_id: escaped(v.fault_translation_id),
        severity: v.severity,
        status: status.as_map(),
        symptom: if v.has_symptom {
            Some(escaped(v.symptom))
        } else {
            None
        },
        symptom_translation_id: if v.has_symptom_translation_id {
            Some(escaped(v.symptom_translation_id))
        } else {
            None
        },
        schema: None,
        typed_status: Some(status),
        occurrence_counter: Some(v.occurrence_counter),
        aging_counter: Some(v.aging_counter),
        healing_counter: Some(v.healing_counter),
        first_occurrence: occurrence_text(v.first_occurrence_secs),
        last_occurrence: occurrence_text(v.last_occurrence_secs),
    }
}

fn set(flag: Option<bool>) -> (r: bool)
    ensures
        r == (flag == Some(true)),
{
    match flag {
        Some(v) => v,
        None => false,
    }
}

fn count(n: Option<u32>) -> (r: u32)
    ensures
        r == count_or_zero(n),
{
    match n {
        Some(c) => c,
        None => 0,
    }
}

fn seconds(time: &Option<String>) -> (r: u64)
    ensures
        r == parsed_timestamp(opt_bytes(opt_text(*time))),
{
    match time {
        Some(t) => parse_iso_timestamp(Some(t.as_str())),
        None => parse_iso_timestamp(None),
    }
}

/// Converts a fault to its fixed-size form.
pub fn sovd_fault_to_ipc(fault: &SovdFault) -> (r: IpcSovdFault)
    ensures
        r@ == ipc_of(fault@),
{
    let unknown = SovdFaultStatus::default();
    let status: &SovdFaultStatus = match &fault.typed_status {
        Some(s) => s,
        None => &unknown,
    };
    assert(status@ == flags_of(fault@.typed_status));
    let symptom: LongString = match &fault.symptom {
        Some(t) => long_str(t.as_str()),
        None => LongString::new(),
    };
    let symptom_translation_id: ShortString = match &fault.symptom_translation_id {
        Some(t) => short_str(t.as_str()),
        None => ShortString::new(),
    };
    IpcSovdFault {
        code: short_str(fault.code.as_str()),
        display_code: short_str(fault.display_code.as_str()),
        scope: short_str(fault.scope.as_str()),
        fault_name: short_str(fault.fault_name.as_str()),
        fault_translation_id: short_str(fault.fault_translation_id.as_str()),
        severity: fault.severity,
        status_mask: status.compute_mask(),
        test_failed: set(status.test_failed),
        test_failed_this_operation_cycle: set(status.test_failed_this_operation_cycle),
        pending_dtc: set(status.pending_dtc),
        confirmed_dtc: set(status.confirmed_dtc),
        test_not_completed_since_last_clear: set(status.test_not_completed_since_last_clear),
        test_failed_since_last_clear: set(status.test_failed_since_last_clear),
        test_not_completed_this_operation_cycle: set(
            status.test_not_completed_this_operation_cycle,
        ),
        warning_indicator_requested: set(status.warning_indicator_requested),
        occurrence_counter: count(fault.occurrence_counter),
        aging_counter: count(fault.aging_counter),
        healing_counter: count(fault.healing_counter),
        first_occurrence_secs: seconds(&fault.first_occurrence),
        last_occurrence_secs: seconds(&fault.last_occurrence),
        symptom,
        has_symptom: fault.symptom.is_some(),
        symptom_translation_id,
        has_symptom_translation_id: fault.symptom_translation_id.is_some(),
    }
}

/// Converts a fault back from its fixed-size form.
pub fn ipc_fault_to_sovd(ipc: &IpcSovdFault) -> (r: SovdFault)
    ensures
        r@ == sovd_of(ipc@),
{
    let typed_status = SovdFaultStatus {
        test_failed: Some(ipc.test_failed),
        test_failed_this_operation_cycle: Some(ipc.test_failed_this_operation_cycle),
        pending_dtc: Some(ipc.pending_dtc),
        confirmed_dtc: Some(ipc.confirmed_dtc),
        test_not_completed_since_last_clear: Some(ipc.test_not_completed_since_last_clear),
        test_failed_since_last_clear: Some(ipc.test_failed_since_last_clear),
        test_not_completed_this_operation_cycle: Some(ipc.test_not_completed_this_operation_cycle),
        warning_indicator_requested: Some(ipc.warning_indicator_requested),
        mask: Some(format_mask(ipc.status_mask)),
    };
    let status = typed_status.to_hash_map();
    let symptom: Option<String> = if ipc.has_symptom {
        Some(ipc.symptom.to_string())
    } else {
        None
    };
    let symptom_translation_id: Option<String> = if ipc.has_symptom_translation_id {
        Some(ipc.symptom_translation_id.to_string())
    } else {
        None
    };
    SovdFault {
        code: ipc.code.to_string(),
        display_code: ipc.display_code.to_string(),
        scope: ipc.scope.to_string(),
        fault_name: ipc.fault_name.to_string(),
        fault_translation_id: ipc.fault_translation_id.to_string(),
        severity: ipc.severity,
        status,
        symptom,
        symptom_translation_id,
        schema: None,
        typed_status: Some(typed_status),
        occurrence_counter: Some(ipc.occurrence_counter),
        aging_counter: Some(ipc.aging_counter),
        healing_counter: Some(ipc.healing_counter),
        first_occurrence: format_occurrence(ipc.first_occurrence_secs),
        last_occurrence: format_occurrence(ipc.last_occurrence_secs),
    }
}

/// `sent` holds the first entries of the environment data, cut to size, as many as fit.
pub open spec fn env_carried(
    items: Seq<(String, String)>,
    sent: Seq<(ShortString, ShortString)>,
) -> bool {
    &&& sent.len() == if items.len() < 8 {
        items.len()
    } else {
        8
    }
    &&& forall|i: int|
        0 <= i < sent.len() ==> (#[trigger] sent[i]).0@ == carried(items[i].0@, 64) && sent[i].1@
            == carried(items[i].1@, 64)
}

/// Converts environment data to its fixed-size form; what does not fit is left out.
pub fn env_data_to_ipc(env: &SovdEnvData) -> (r: IpcEnvData)
    ensures
        r.wf(),
        env_carried(env.items(), r@),
{
    let mut ipc: IpcEnvData = IpcEnvData::new();
    let n: usize = env.len();
    let mut i: usize = 0;
    while i < n && i < 8
        invariant
            i <= n,
            i <= 8,
            n == env.items().len(),
            ipc.wf(),
            ipc@.len() == i,
            forall|j: int|
                0 <= j < i ==> (#[trigger] ipc@[j]).0@ == carried(env.items()[j].0@, 64)
                    && ipc@[j].1@ == carried(env.items()[j].1@, 64),
        decreases n - i,
    {
        let entry = env.at(i);
        let _ = ipc.push((short_str(entry.0.as_str()), short_str(entry.1.as_str())));
        i += 1;
    }
    ipc
}

/// Converts environment data back from its fixed-size form.
pub fn ipc_env_data_to_sovd(ipc: &IpcEnvData) -> (r: SovdEnvData)
    ensures
        text_map(r@) == env_texts(ipc@),
{
    env_data_texts(ipc)
}

/// A text of printable ASCII characters that fits into a field of the given capacity.
pub open spec fn fits(t: Seq<char>, cap: nat) -> bool {
    t.len() <= cap && forall|i: int| 0 <= i < t.len() ==> ' ' <= #[trigger] t[i] <= '\u{7f}'
}

/// Every text of the fault fits into its field.
pub open spec fn texts_fit(f: SovdFaultView) -> bool {
    &&& fits(f.code, 64)
    &&& fits(f.display_code, 64)
    &&& fits(f.scope, 64)
    &&& fits(f.fault_name, 64)
    &&& fits(f.fault_translation_id, 64)
    &&& f.symptom matches Some(t) ==> fits(t, 128)
    &&& f.symptom_translation_id matches Some(t) ==> fits(t, 64)
}

/// A text that fits, such as a path or a code, is carried and printed as it is.
pub proof fn law_fitting_text_survives(t: Seq<char>, cap: nat)
    requires
        fits(t, cap),
    ensures
        escaped(carried(t, cap)) == t,
        carried(t, cap) == encode_utf8(t),
        chars_of(encode_utf8(t)) == t,
{
    assert(is_ascii_chars(t)) by {
        assert forall|i: int| 0 <= i < t.len() implies '\0' <= #[trigger] t[i] <= '\u{7f}' by {
            assert(' ' <= t[i] <= '\u{7f}');
        }
    }
    lemma_ascii_bytes(t);
    let b = encode_utf8(t);
    assert forall|i: int| 0 <= i < b.len() implies 0x20 <= #[trigger] b[i] <= 0x7f && b[i] as char
        == t[i] by {
        assert(b[i] == t[i] as u8);
        assert(' ' <= t[i] <= '\u{7f}');
    }
    assert(chars_of(b) =~= t);
    lemma_escaped_printable(b);
}

/// A printable byte string that fits is printed and carried as it is.
proof fn lemma_fitting_bytes(b: Seq<u8>, cap: nat)
    requires
        printable(b),
        all_string_bytes(b),
        b.len() <= cap,
    ensures
        carried(escaped(b), cap) == b,
{
    lemma_escaped_printable(b);
    let t = chars_of(b);
    lemma_ascii_bytes(t);
    assert forall|i: int| 0 <= i < b.len() implies encode_utf8(t)[i] == #[trigger] b[i] by {
        assert(0x20 <= b[i] <= 0x7f);
        assert(encode_utf8(t)[i] == t[i] as u8);
    }
    assert(encode_utf8(t) =~= b);
}

/// The text of a time survives the way to seconds and back.
proof fn lemma_time_survives(secs: u64)
    ensures
        occurrence_text(parsed_timestamp(opt_bytes(occurrence_text(secs))) as u64)
            == occurrence_text(secs),
        secs <= MAX_TIMESTAMP_SECS ==> parsed_timestamp(opt_bytes(occurrence_text(secs))) == secs,
{
    if secs > MAX_TIMESTAMP_SECS {
        law_far_times_are_clamped(secs);
        law_timestamp_round_trip(MAX_TIMESTAMP_SECS);
    } else if secs > 0 {
        law_timestamp_round_trip(secs);
    }
}

/// Whatever its texts, a shown fault that travels in its fixed-size form keeps its
/// status, severity, counters and times, and whether it has a symptom.
pub proof fn law_status_survives_transport(descriptor: FaultDescriptor, s: FaultStateView)
    ensures
        ({
            let f = shown_fault(descriptor, s);
            let g = sovd_of(ipc_of(f));
            &&& g.typed_status == f.typed_status
            &&& g.status == f.status
            &&& g.severity == f.severity
            &&& g.schema == f.schema
            &&& g.occurrence_counter == f.occurrence_counter
            &&& g.aging_counter == f.aging_counter
            &&& g.healing_counter == f.healing_counter
            &&& g.first_occurrence == f.first_occurrence
            &&& g.last_occurrence == f.last_occurrence
            &&& g.symptom is Some == f.symptom is Some
            &&& g.symptom_translation_id is Some == f.symptom_translation_id is Some
        }),
{
    lemma_time_survives(s.first_occurrence_secs);
    lemma_time_survives(s.last_occurrence_secs);
}

/// A shown fault whose texts fit travels in its fixed-size form without loss.
pub proof fn law_fault_survives_transport(descriptor: FaultDescriptor, s: FaultStateView)
    requires
        texts_fit(shown_fault(descriptor, s)),
    ensures
        sovd_of(ipc_of(shown_fault(descriptor, s))) == shown_fault(descriptor, s),
{
    let f = shown_fault(descriptor, s);
    law_status_survives_transport(descriptor, s);
    law_fitting_text_survives(f.code, 64);
    law_fitting_text_survives(f.scope, 64);
    law_fitting_text_survives(f.fault_name, 64);
    law_fitting_text_survives(f.fault_translation_id, 64);
    if let Some(t) = f.symptom {
        law_fitting_text_survives(t, 128);
    }
    if let Some(t) = f.symptom_translation_id {
        law_fitting_text_survives(t, 64);
    }
}

/// A byte string that a field of the given capacity holds and that is printable.
pub open spec fn printable_field(b: Seq<u8>, cap: nat) -> bool {
    printable(b) && all_string_bytes(b) && b.len() <= cap
}

/// The fixed-size form of a fault with printable texts, a status byte that agrees with
/// its flags and times up to the year 9999 survives the way back and forth.
pub proof fn law_fixed_form_survives(v: IpcFaultView)
    requires
        printable_field(v.code, 64),
        printable_field(v.display_code, 64),
        printable_field(v.scope, 64),
        printable_field(v.fault_name, 64),
        printable_field(v.fault_translation_id, 64),
        printable_field(v.symptom, 128),
        printable_field(v.symptom_translation_id, 64),
        !v.has_symptom ==> v.symptom.len() == 0,
        !v.has_symptom_translation_id ==> v.symptom_translation_id.len() == 0,
        sovd_of(v).typed_status->0.mask_byte() == v.status_mask,
        v.first_occurrence_secs <= MAX_TIMESTAMP_SECS,
        v.last_occurrence_secs <= MAX_TIMESTAMP_SECS,
    ensures
        ipc_of(sovd_of(v)) == v,
{
    lemma_time_survives(v.first_occurrence_secs);
    lemma_time_survives(v.last_occurrence_secs);
    lemma_fitting_bytes(v.code, 64);
    lemma_fitting_bytes(v.display_code, 64);
    lemma_fitting_bytes(v.scope, 64);
    lemma_fitting_bytes(v.fault_name, 64);
    lemma_fitting_bytes(v.fault_translation_id, 64);
    lemma_fitting_bytes(v.symptom, 128);
    lemma_fitting_bytes(v.symptom_translation_id, 64);
    assert(v.symptom.len() == 0 ==> v.symptom =~= seq![]);
    assert(v.symptom_translation_id.len() == 0 ==> v.symptom_translation_id =~= seq![]);
}

/// Up to eight entries of environment data whose texts fit travel without loss.
pub proof fn law_environment_survives_transport(
    env: SovdEnvData,
    sent: Seq<(ShortString, ShortString)>,
)
    requires
        env.wf(),
        env_carried(env.items(), sent),
        env.items().len() <= 8,
        forall|i: int|
            0 <= i < env.items().len() ==> fits((#[trigger] env.items()[i]).0@, 64) && fits(
                env.items()[i].1@,
                64,
            ),
    ensures
        env_texts(sent) == text_map(env@),
{
    env.lemma_view();
    let items = env.items();
    lemma_environment_prefix(items, sent, items.len() as int);
    assert(sent.take(items.len() as int) =~= sent);
    assert(items.take(items.len() as int) =~= items);
}

proof fn lemma_environment_prefix(
    items: Seq<(String, String)>,
    sent: Seq<(ShortString, ShortString)>,
    n: int,
)
    requires
        keys_distinct(items),
        env_carried(items, sent),
        0 <= n <= items.len() <= 8,
        forall|i: int|
            0 <= i < items.len() ==> fits((#[trigger] items[i]).0@, 64) && fits(items[i].1@, 64),
    ensures
        env_texts(sent.take(n)) == text_map(entries_map(items.take(n))),
    decreases n,
{
    let have = items.take(n);
    if n == 0 {
        assert(text_map(entries_map(have)) =~= Map::empty());
    } else {
        let before = items.take(n - 1);
        lemma_environment_prefix(items, sent, n - 1);
        assert(sent.take(n).drop_last() =~= sent.take(n - 1));
        let last = items[n - 1];
        assert(fits(last.0@, 64));
        law_fitting_text_survives(last.0@, 64);
        law_fitting_text_survives(last.1@, 64);
        assert(sent.take(n).last() == sent[n - 1]);
        assert(keys_distinct(have)) by {
            assert forall|i: int, j: int| 0 <= i < j < have.len() implies (#[trigger] have[i]).0@
                != (#[trigger] have[j]).0@ by {
                assert(items[i].0@ != items[j].0@);
            }
        }
        assert(keys_distinct(before)) by {
            assert forall|i: int, j: int| 0 <= i < j < before.len() implies (
            #[trigger] before[i]).0@ != (#[trigger] before[j]).0@ by {
                assert(items[i].0@ != items[j].0@);
            }
        }
        let a = entries_map(have);
        let b = entries_map(before).insert(last.0@, last.1);
        assert forall|k: Seq<char>| #[trigger] a.contains_key(k) == b.contains_key(k) && (
        a.contains_key(k) ==> a[k] == b[k]) by {
            if a.contains_key(k) {
                let i = key_index(have, k);
                lemma_entry(have, i);
                if i < n - 1 {
                    assert(before[i] == have[i]);
                    lemma_entry(before, i);
                    assert(items[i].0@ != items[n - 1].0@);
                }
            }
            if b.contains_key(k) {
                if k == last.0@ {
                    assert(have[n - 1] == last);
                    lemma_entry(have, n - 1);
                } else {
                    let i = key_index(before, k);
                    assert(have[i] == before[i]);
                    lemma_entry(have, i);
                }
            }
        }
        assert(a =~= b);
        assert(text_map(b) =~= text_map(entries_map(before)).insert(last.0@, last.1@));
    }
}

/// What a field holds of an ASCII text without zeros is its beginning, as much as fits. Of
/// a text whose beginning has anything else it holds nothing.
pub proof fn law_fields_hold_the_beginning(s: Seq<char>, cap: nat, i: int)
    ensures
        carried(s, cap).len() <= cap,
        0 <= i < carried(s, cap).len() ==> carried(s, cap)[i] == encode_utf8(s)[i],
        carried(s, cap).len() > 0 ==> carried(s, cap).len() == if encode_utf8(s).len() <= cap {
            encode_utf8(s).len()
        } else {
            cap
        },
        carried(s, cap).len() == 0 && encode_utf8(s).len() > 0 && cap > 0 ==> exists|j: int|
            0 <= j < cap && j < encode_utf8(s).len() && !(0 < (#[trigger] encode_utf8(s)[j])
                < 128),
        0 <= i < carried(s, cap).len() ==> 0 < carried(s, cap)[i] < 128,
{
    let b = encode_utf8(s);
    let t = truncated(b, cap);
    if all_string_bytes(t) {
        if 0 <= i < t.len() {
            assert(is_string_byte(t[i]));
        }
    } else {
        let j = choose|j: int| 0 <= j < t.len() && !is_string_byte(#[trigger] t[j]);
        assert(t[j] == b[j]);
    }
}

/// Every field of a fault in its fixed-size form is the one of the same name, cut to size:
/// a flag is set exactly if the status has it set, a counter that is not there is zero,
/// and a text that is not there is empty.
pub proof fn law_fixed_form_has_every_field(f: SovdFaultView)
    ensures
        ipc_of(f).code == carried(f.code, 64),
        ipc_of(f).display_code == carried(f.display_code, 64),
        ipc_of(f).scope == carried(f.scope, 64),
        ipc_of(f).fault_name == carried(f.fault_name, 64),
        ipc_of(f).fault_translation_id == carried(f.fault_translation_id, 64),
        ipc_of(f).severity == f.severity,
        ipc_of(f).has_symptom <==> f.symptom is Some,
        f.symptom matches Some(t) ==> ipc_of(f).symptom == carried(t, 128),
        f.symptom is None ==> ipc_of(f).symptom.len() == 0,
        ipc_of(f).has_symptom_translation_id <==> f.symptom_translation_id is Some,
        f.symptom_translation_id matches Some(t) ==> ipc_of(f).symptom_translation_id == carried(
            t,
            64,
        ),
        f.symptom_translation_id is None ==> ipc_of(f).symptom_translation_id.len() == 0,
        f.occurrence_counter matches Some(n) ==> ipc_of(f).occurrence_counter == n,
        f.occurrence_counter is None ==> ipc_of(f).occurrence_counter == 0,
        f.aging_counter matches Some(n) ==> ipc_of(f).aging_counter == n,
        f.aging_counter is None ==> ipc_of(f).aging_counter == 0,
        f.healing_counter matches Some(n) ==> ipc_of(f).healing_counter == n,
        f.healing_counter is None ==> ipc_of(f).healing_counter == 0,
        f.first_occurrence is None ==> ipc_of(f).first_occurrence_secs == 0,
        f.last_occurrence is None ==> ipc_of(f).last_occurrence_secs == 0,
        f.first_occurrence matches Some(t) ==> ipc_of(f).first_occurrence_secs == parsed_timestamp(
            Some(encode_utf8(t)),
        ) as u64,
        f.last_occurrence matches Some(t) ==> ipc_of(f).last_occurrence_secs == parsed_timestamp(
            Some(encode_utf8(t)),
        ) as u64,
{
}

/// Every flag of a fault in its fixed-size form is set exactly if the status of the fault
/// has the flag of the same name set, and so is its bit of the status byte.
pub proof fn law_fixed_form_has_every_flag(f: SovdFaultView)
    ensures
        ({
            let v = ipc_of(f);
            let m = v.status_mask;
            &&& f.typed_status is None ==> !v.test_failed && !v.test_failed_this_operation_cycle
                && !v.pending_dtc && !v.confirmed_dtc && !v.test_not_completed_since_last_clear
                && !v.test_failed_since_last_clear && !v.test_not_completed_this_operation_cycle
                && !v.warning_indicator_requested
            &&& f.typed_status matches Some(s) ==> {
                &&& v.test_failed <==> s.test_failed == Some(true)
                &&& v.test_failed_this_operation_cycle <==> s.test_failed_this_operation_cycle
                    == Some(true)
                &&& v.pending_dtc <==> s.pending_dtc == Some(true)
                &&& v.confirmed_dtc <==> s.confirmed_dtc == Some(true)
                &&& v.test_not_completed_since_last_clear <==> s.test_not_completed_since_last_clear
                    == Some(true)
                &&& v.test_failed_since_last_clear <==> s.test_failed_since_last_clear == Some(true)
                &&& v.test_not_completed_this_operation_cycle
                    <==> s.test_not_completed_this_operation_cycle == Some(true)
                &&& v.warning_indicator_requested <==> s.warning_indicator_requested == Some(true)
            }
            &&& m & 1 == 1 <==> v.test_failed
            &&& m & 2 == 2 <==> v.test_failed_this_operation_cycle
            &&& m & 4 == 4 <==> v.pending_dtc
            &&& m & 8 == 8 <==> v.confirmed_dtc
            &&& m & 16 == 16 <==> v.test_not_completed_since_last_clear
            &&& m & 32 == 32 <==> v.test_failed_since_last_clear
            &&& m & 64 == 64 <==> v.test_not_completed_this_operation_cycle
            &&& m & 128 == 128 <==> v.warning_indicator_requested
        }),
{
    law_status_byte_bits(flags_of(f.typed_status));
}

/// A fault that comes back from its fixed-size form has every field of the same name: all
/// flags and counters are known, texts print as they are held, the mask shows the status
/// byte, a time of zero is no time, and there is no schema.
pub proof fn law_fault_comes_back_with_every_field(v: IpcFaultView)
    ensures
        sovd_of(v).code == escaped(v.code),
        sovd_of(v).display_code == escaped(v.display_code),
        sovd_of(v).scope == escaped(v.scope),
        sovd_of(v).fault_name == escaped(v.fault_name),
        sovd_of(v).fault_translation_id == escaped(v.fault_translation_id),
        sovd_of(v).severity == v.severity,
        sovd_of(v).schema is None,
        sovd_of(v).symptom is Some <==> v.has_symptom,
        v.has_symptom ==> sovd_of(v).symptom == Some(escaped(v.symptom)),
        sovd_of(v).symptom_translation_id is Some <==> v.has_symptom_translation_id,
        v.has_symptom_translation_id ==> sovd_of(v).symptom_translation_id == Some(
            escaped(v.symptom_translation_id),
        ),
        sovd_of(v).occurrence_counter == Some(v.occurrence_counter),
        sovd_of(v).aging_counter == Some(v.aging_counter),
        sovd_of(v).healing_counter == Some(v.healing_counter),
        sovd_of(v).first_occurrence is None <==> v.first_occurrence_secs == 0,
        sovd_of(v).last_occurrence is None <==> v.last_occurrence_secs == 0,
        v.first_occurrence_secs != 0 ==> sovd_of(v).first_occurrence == Some(
            timestamp_text(v.first_occurrence_secs),
        ),
        v.last_occurrence_secs != 0 ==> sovd_of(v).last_occurrence == Some(
            timestamp_text(v.last_occurrence_secs),
        ),
        sovd_of(v).typed_status matches Some(s) && s.test_failed == Some(v.test_failed)
            && s.test_failed_this_operation_cycle == Some(v.test_failed_this_operation_cycle)
            && s.pending_dtc == Some(v.pending_dtc) && s.confirmed_dtc == Some(v.confirmed_dtc)
            && s.test_not_completed_since_last_clear == Some(v.test_not_completed_since_last_clear)
            && s.test_failed_since_last_clear == Some(v.test_failed_since_last_clear)
            && s.test_not_completed_this_operation_cycle == Some(
            v.test_not_completed_this_operation_cycle,
        ) && s.warning_indicator_requested == Some(v.warning_indicator_requested) && s.mask == Some(
            mask_text(v.status_mask),
        ),
        sovd_of(v).status == sovd_of(v).typed_status->0.as_map(),
{
}

/// Of the environment data the first eight entries are sent, in their order.
pub proof fn law_first_entries_are_sent(
    items: Seq<(String, String)>,
    sent: Seq<(ShortString, ShortString)>,
    i: int,
)
    requires
        env_carried(items, sent),
    ensures
        items.len() <= 8 ==> sent.len() == items.len(),
        items.len() > 8 ==> sent.len() == 8,
        0 <= i < sent.len() ==> sent[i].0@ == carried(items[i].0@, 64) && sent[i].1@ == carried(
            items[i].1@,
            64,
        ),
{
    if 0 <= i < sent.len() {
        assert(sent[i].0@ == carried(items[i].0@, 64));
    }
}

} // verus!

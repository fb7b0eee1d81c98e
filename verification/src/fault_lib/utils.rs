//! Help with the declaration of faults.

use vstd::prelude::*;
use vstd::utf8::*;

use crate::common::config::ResetPolicy;
use crate::common::debounce::DebounceMode;
use crate::common::fault::{
    ComplianceTag, ComplianceVec, FaultDescriptor, FaultId, FaultSeverity, FaultType,
};
use crate::common::fixed_string::{all_string_bytes, stored_bytes, StringModificationError};
use crate::common::types::{
    to_static_long_string, to_static_short_string, LongString, ShortString,
};

verus! {

/// The name, or else the summary, cannot be stored.
pub open spec fn text_refused(name: Seq<char>, summary: Option<Seq<char>>) -> Option<
    StringModificationError,
> {
    match stored_bytes(encode_utf8(name), 64) {
        Err(e) => Some(e),
        Ok(_) => match summary {
            Some(t) => match stored_bytes(encode_utf8(t), 128) {
                Err(e) => Some(e),
                Ok(_) => None,
            },
            None => None,
        },
    }
}

/// Declares a fault that is filtered and reset on the reporter side only. It fails when
/// the name or the summary does not fit; tags beyond the eighth are left out.
pub fn fault_descriptor(
    id: FaultId,
    name: &str,
    kind: FaultType,
    severity: FaultSeverity,
    compliance: &[ComplianceTag],
    summary: Option<&str>,
    debounce: Option<DebounceMode>,
    reset: Option<ResetPolicy>,
) -> (r: Result<FaultDescriptor, StringModificationError>)
    ensures
        match text_refused(
            name@,
            match summary {
                Some(t) => Some(t@),
                None => None,
            },
        ) {
            Some(e) => r == Err::<FaultDescriptor, _>(e),
            None => {
                &&& r matches Ok(d)
                &&& d.id == id
                &&& d.name@ == encode_utf8(name@)
                &&& d.category == kind
                &&& d.severity == severity
                &&& d.compliance@ == compliance@.take(
                    if compliance@.len() < 8 {
                        compliance@.len() as int
                    } else {
                        8
                    },
                )
                &&& d.reporter_side_debounce == debounce
                &&& d.reporter_side_reset == reset
                &&& d.manager_side_debounce is None
                &&& d.manager_side_reset is None
                &&& match summary {
                    Some(t) => d.summary matches Some(s) && s@ == encode_utf8(t@),
                    None => d.summary is None,
                }
            },
        },
{
    let name: ShortString = match to_static_short_string(name) {
        Ok(s) => s,
        Err(e) => {
            return Err(e);
        },
    };
    let summary: Option<LongString> = match summary {
        Some(t) => match to_static_long_string(t) {
            Ok(s) => Some(s),
            Err(e) => {
                return Err(e);
            },
        },
        None => None,
    };
    let mut tags: ComplianceVec = ComplianceVec::new();
    let mut i: usize = 0;
    assert(tags@ =~= compliance@.take(0));
    while i < compliance.len() && i < 8
        invariant
            i <= compliance@.len(),
            i <= 8,
            tags@ == compliance@.take(i as int),
        decreases compliance@.len() - i,
    {
        let _ = tags.push(compliance[i]);
        i += 1;
        assert(tags@ =~= compliance@.take(i as int));
    }
    Ok(
        FaultDescriptor {
            id,
            name,
            summary,
            category: kind,
            severity,
            compliance: tags,
            reporter_side_debounce: debounce,
            reporter_side_reset: reset,
            manager_side_debounce: None,
            manager_side_reset: None,
        },
    )
}

/// A fault is declared exactly if its name has up to 64 and its summary, if there is one,
/// up to 128 ASCII characters other than NUL. It has what it was declared with, the first
/// eight tags, and nothing on the side of the fault manager.
pub proof fn law_declared_fault(
    id: FaultId,
    name: &str,
    kind: FaultType,
    severity: FaultSeverity,
    compliance: &[ComplianceTag],
    summary: Option<&str>,
    debounce: Option<DebounceMode>,
    reset: Option<ResetPolicy>,
    r: Result<FaultDescriptor, StringModificationError>,
    i: int,
)
    requires
        call_ensures(
            fault_descriptor,
            (id, name, kind, severity, compliance, summary, debounce, reset),
            r,
        ),
    ensures
        r is Ok <==> encode_utf8(name@).len() <= 64 && all_string_bytes(encode_utf8(name@)) && (
        summary matches Some(t) ==> encode_utf8(t@).len() <= 128 && all_string_bytes(
            encode_utf8(t@),
        )),
        r matches Ok(d) ==> {
            &&& d.id == id
            &&& d.name@ == encode_utf8(name@)
            &&& d.category == kind
            &&& d.severity == severity
            &&& d.reporter_side_debounce == debounce
            &&& d.reporter_side_reset == reset
            &&& d.manager_side_debounce is None
            &&& d.manager_side_reset is None
            &&& d.summary is Some <==> summary is Some
            &&& summary matches Some(t) ==> d.summary->0@ == encode_utf8(t@)
            &&& compliance@.len() <= 8 ==> d.compliance@.len() == compliance@.len()
            &&& compliance@.len() > 8 ==> d.compliance@.len() == 8
            &&& 0 <= i < d.compliance@.len() ==> d.compliance@[i] == compliance@[i]
        },
{
}

} // verus!

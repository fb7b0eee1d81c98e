//! What holds all the way from a reporter through the fault manager to a diagnostic tool.

use vstd::prelude::*;
use vstd::utf8::*;

use crate::common::catalog::FaultCatalog;
use crate::common::fault::{FaultId, FaultRecord, LifecycleStage};
use crate::common::fixed_string::escaped;
use crate::common::text::{chars_of, lemma_ascii_chars};
use crate::common::sink_error::SinkError;
use crate::common::types::{DiagnosticEvent, LongString};
use crate::dfm_lib::diagnostic_fault_manager::DiagnosticFaultManager;
use crate::dfm_lib::fault_code::{
    code_decodes, fault_code, has_hex_prefix, law_fault_code_round_trip, looks_like_uuid,
};
use crate::dfm_lib::fault_key::{lemma_escaped_printable, printable, storage_key};
use crate::dfm_lib::fault_lib_communicator::{handles_event, DfmLoopAction};
use crate::dfm_lib::fault_record_processor::{
    described, processes_record, ProcessorView,
};
use crate::dfm_lib::sovd_fault_manager::{
    finds_fault, first_unreadable, known_state, lists_faults, reading_fails, reads_fault,
    shown_fault, state_or_clear, Error, SovdFault,
};
use crate::dfm_lib::sovd_fault_storage::{SovdEnvData, SovdFaultStateStorage};
use crate::fault_lib::fault_manager_sink::{
    enqueued, path_char, path_refused, publishes, FaultManagerSink, WorkerMsg,
};

verus! {

/// Text of printable ASCII characters is read from its bytes as it was written.
proof fn lemma_printable_arrives(text: Seq<char>)
    requires
        printable(encode_utf8(text)),
    ensures
        escaped(encode_utf8(text)) == text,
{
    let b = encode_utf8(text);
    assert forall|i: int| 0 <= i < b.len() implies #[trigger] b[i] <= 0x7f by {
        assert(0x20 <= b[i] <= 0x7f);
    }
    lemma_ascii_chars(text);
    lemma_escaped_printable(b);
}

/// A record arrives at the fault manager as it was published, and under the same path.
pub proof fn law_record_arrives(path: Seq<char>, record: FaultRecord, event: DiagnosticEvent)
    requires
        path_refused(path) is None,
        event matches DiagnosticEvent::Fault((p, f)) && p@ == encode_utf8(path) && f == record,
    ensures
        event matches DiagnosticEvent::Fault((p, f)) && escaped(p@) == path && f == record,
{
    let b = encode_utf8(path);
    assert forall|i: int| 0 <= i < b.len() implies #[trigger] b[i] <= 0x7f by {
        assert(crate::common::fixed_string::is_string_byte(b[i]));
    }
    lemma_ascii_chars(path);
    assert forall|i: int| 0 <= i < b.len() implies 0x20 <= #[trigger] b[i] <= 0x7f by {
        assert(path[i] == chars_of(b)[i]);
        assert(path_char(path[i]));
    }
    lemma_printable_arrives(path);
}

/// A record that the sink takes is the last message to the worker, behind those that
/// wait already, and it arrives at the fault manager as it was published.
pub proof fn law_published_record_is_queued(
    before: FaultManagerSink,
    path: Seq<char>,
    record: FaultRecord,
    r: Result<(), SinkError>,
    after: FaultManagerSink,
)
    requires
        publishes(before, path, record, r, after),
        r is Ok,
    ensures
        after.queue@.drop_last() == before.queue@,
        after.queue@.last() matches WorkerMsg::Event(DiagnosticEvent::Fault((p, f))) && escaped(p@)
            == path && f == record,
{
    let p = choose|p: LongString| p@ == encode_utf8(path) && #[trigger] enqueued(
        before,
        WorkerMsg::Event(DiagnosticEvent::Fault((p, record))),
        "Cannot send event: channel disconnected"@,
        r,
        after,
    );
    law_record_arrives(path, record, DiagnosticEvent::Fault((p, record)));
    assert(after.queue@.drop_last() =~= before.queue@);
}

/// The fault manager confirms a reporter's catalog exactly when it knows a catalog with
/// the same name and the same hash, as long as the name holds no control characters.
pub proof fn law_catalogs_are_compared<S: SovdFaultStateStorage>(
    catalog: FaultCatalog,
    event: DiagnosticEvent,
    before: DiagnosticFaultManager<S>,
    after: DiagnosticFaultManager<S>,
    now: u128,
    now_secs: u64,
    action: DfmLoopAction,
)
    requires
        printable(encode_utf8(catalog.id@)),
        event matches DiagnosticEvent::Hash((i, h)) && i@ == encode_utf8(catalog.id@) && h@
            == catalog.hash(),
        handles_event(before, after, event, now, now_secs, action),
    ensures
        ({
            let known = before.processor.catalogs();
            action == DfmLoopAction::PublishHashResponse(
                known.contains_key(catalog.id@) && known[catalog.id@].hash() == catalog.hash(),
            )
        }),
{
    lemma_printable_arrives(catalog.id@);
}

/// What was reported is what a tool sees: a record that passes the filter and can be
/// stored is shown in the next listing of its entity, if the states of the entity can be
/// read. A confirmed failure is shown as failed and confirmed, unless its reset policy
/// heals it at once.
pub proof fn law_report_is_shown<S: SovdFaultStateStorage>(
    catalogs: Map<Seq<char>, FaultCatalog>,
    before: ProcessorView,
    after: ProcessorView,
    storage_before: &S,
    storage_after: &S,
    counts: Map<Seq<char>, u64>,
    path: Seq<char>,
    record: FaultRecord,
    now: u128,
    now_secs: u64,
    i: int,
    r: Result<Vec<SovdFault>, Error>,
)
    requires
        processes_record(
            catalogs,
            before,
            after,
            storage_before,
            storage_after,
            counts,
            path,
            record,
            now,
            now_secs,
        ),
        lists_faults(catalogs, storage_after, path, r),
        catalogs.contains_key(path),
        0 <= i < catalogs[path].listed().len(),
        catalogs[path].listed()[i].id == record.id,
        forall|j: int|
            0 <= j < catalogs[path].listed().len() ==> storage_before.readable(
                path,
                storage_key((#[trigger] catalogs[path].listed()[j]).id),
            ),
        ({
            let key = (path, record.id);
            let d = described(catalogs, path, record.id);
            let s = known_state(storage_before, path, record.id);
            &&& before.admits(key, record.lifecycle_stage, d, now)
            &&& storage_before.writable(
                path,
                storage_key(record.id),
                before.state_after(key, s, record, d, counts, now, now_secs),
            )
        }),
    ensures
        r matches Ok(all) && i < all@.len() && ({
            let key = (path, record.id);
            let d = described(catalogs, path, record.id);
            let s = known_state(storage_before, path, record.id);
            let stage = record.lifecycle_stage;
            let shown = all@[i]@;
            &&& shown == shown_fault(
                catalogs[path].listed()[i],
                before.state_after(key, s, record, d, counts, now, now_secs),
            )
            &&& stage == LifecycleStage::Failed && !before.ages_out(key, stage, d, counts, now)
                ==> (shown.typed_status matches Some(t) && t.test_failed == Some(true)
                && t.confirmed_dtc == Some(true))
        }),
{
    let listed = catalogs[path].listed();
    assert forall|j: int| 0 <= j < listed.len() implies storage_after.readable(
        path,
        storage_key((#[trigger] listed[j]).id),
    ) by {
        let k = storage_key(listed[j].id);
        assert(k != storage_key(record.id) ==> storage_after.readable(path, k)
            == storage_before.readable(path, k));
    }
    if r is Err {
        let j = choose|j: int| #[trigger]
            first_unreadable(storage_after, path, listed, j) && reading_fails(
                storage_after,
                path,
                listed[j].id,
                r->Err_0,
            );
        assert(storage_after.readable(path, storage_key(listed[j].id)));
    }
    assert(r->Ok_0@[i]@ == shown_fault(
        listed[i],
        state_or_clear(storage_after.stored(), path, record.id),
    ));
}

/// Entities are kept apart: a record of one changes no state of another one, and neither
/// what can be read of it.
pub proof fn law_entities_are_isolated<S: SovdFaultStateStorage>(
    catalogs: Map<Seq<char>, FaultCatalog>,
    before: ProcessorView,
    after: ProcessorView,
    storage_before: &S,
    storage_after: &S,
    counts: Map<Seq<char>, u64>,
    path: Seq<char>,
    record: FaultRecord,
    now: u128,
    now_secs: u64,
    other: Seq<char>,
    id: FaultId,
)
    requires
        processes_record(
            catalogs,
            before,
            after,
            storage_before,
            storage_after,
            counts,
            path,
            record,
            now,
            now_secs,
        ),
        other != path,
    ensures
        state_or_clear(storage_after.stored(), other, id) == state_or_clear(
            storage_before.stored(),
            other,
            id,
        ),
        storage_after.readable(other, storage_key(id)) == storage_before.readable(
            other,
            storage_key(id),
        ),
        storage_after.listable(other) == storage_before.listable(other),
{
}

/// The code of a listed fault leads to that fault: reading it gives what the listing
/// shows. This holds of faults whose text holds no control
/// characters and does not itself look like a hexadecimal number or a UUID.
pub proof fn law_listed_fault_can_be_read<S: SovdFaultStateStorage>(
    catalogs: Map<Seq<char>, FaultCatalog>,
    storage: &S,
    path: Seq<char>,
    i: int,
    all: Result<Vec<SovdFault>, Error>,
    one: Result<(SovdFault, SovdEnvData), Error>,
)
    requires
        catalogs.contains_key(path),
        lists_faults(catalogs, storage, path, all),
        all is Ok,
        0 <= i < catalogs[path].listed().len(),
        ({
            let d = catalogs[path].listed()[i];
            &&& d.id.wf()
            &&& d.id matches FaultId::Text(t) ==> printable(t@) && !has_hex_prefix(t@)
                && !looks_like_uuid(t@)
            &&& catalogs[path].by_id().contains_key(d.id)
            &&& catalogs[path].by_id()[d.id] == d
        }),
        finds_fault(catalogs, storage, path, all->Ok_0@[i]@.code, one),
    ensures
        one matches Ok(found) && found.0@ == all->Ok_0@[i]@,
{
    let d = catalogs[path].listed()[i];
    assert(all->Ok_0@[i]@ == shown_fault(d, state_or_clear(storage.stored(), path, d.id)));
    assert(storage.readable(path, storage_key(d.id)));
    assert(all->Ok_0@[i]@.code == fault_code(d.id));
    let id = choose|id: Result<FaultId, Error>| #[trigger]
        code_decodes(fault_code(d.id), id) && reads_fault(catalogs[path], storage, path, id, one);
    law_fault_code_round_trip(d.id, id);
}

} // verus!

//! Reporters: each one reports one fault of a component.

use vstd::prelude::*;
use vstd::string::*;

use super::sink::{FaultSinkApi, LogHook};
use crate::common::catalog::FaultCatalog;
use crate::common::debounce::{after_events, Debounce, DebounceModel, Debouncer};
use crate::common::fault::{
    FaultDescriptor, FaultId, FaultRecord, IpcTimestamp, LifecyclePhase, LifecycleStage,
};
use crate::common::ids::SourceId;
use crate::common::sink_error::SinkError;
use crate::common::types::MetadataVec;

verus! {

/// What all records of a reporter have in common.
#[derive(Clone, Copy, Debug)]
pub struct ReporterConfig {
    /// Who reports.
    pub source: SourceId,
    /// Phase of the reporting component.
    pub lifecycle_phase: LifecyclePhase,
    /// Environment data that goes into each record.
    pub default_env_data: MetadataVec,
}

/// Why a reporter cannot be made.
#[derive(Debug)]
#[non_exhaustive]
pub enum ReporterError {
    /// There is no catalog.
    CatalogNotInitialized,
    /// The catalog does not describe the fault.
    FaultIdNotFound(FaultId),
    /// There is no sink; holds the reason.
    SinkNotAvailable(SinkError),
}

impl ReporterError {
    /// The message of the error.
    pub open spec fn message(self) -> Seq<char> {
        match self {
            ReporterError::CatalogNotInitialized => "fault catalog not initialized"@,
            ReporterError::FaultIdNotFound(id) => "fault ID not found in catalog: "@
                + id.debug_text(),
            ReporterError::SinkNotAvailable(e) => "sink not available: "@ + e.message(),
        }
    }

    /// The message of the error.
    pub fn to_string(&self) -> (r: String)
        ensures
            r@ == self.message(),
    {
        match self {
            ReporterError::CatalogNotInitialized => String::from_str(
                "fault catalog not initialized",
            ),
            ReporterError::FaultIdNotFound(id) => {
                let text = id.to_debug_string();
                String::from_str("fault ID not found in catalog: ").concat(text.as_str())
            },
            ReporterError::SinkNotAvailable(e) => {
                let text = e.to_string();
                String::from_str("sink not available: ").concat(text.as_str())
            },
        }
    }
}

/// Reports one fault. Records pass through the filter of its description before they
/// reach the sink.
#[derive(Debug)]
pub struct Reporter<K: FaultSinkApi, H: LogHook> {
    /// Takes the records.
    pub sink: K,
    /// Description of the fault.
    pub descriptor: FaultDescriptor,
    /// What all records have in common.
    pub config: ReporterConfig,
    /// Filters the records, if the description asks for it.
    pub debouncer: Option<Debouncer>,
    /// Stage of the last record.
    pub last_stage: LifecycleStage,
    /// Is told what became of the records.
    pub log_hook: Option<H>,
}

/// The state of an optional filter.
pub open spec fn filter_model(d: Option<Debouncer>) -> Option<DebounceModel> {
    match d {
        Some(f) => Some(f.model()),
        None => None,
    }
}

/// Going from one stage to another starts the filter anew: the fault had cleared and
/// occurs again.
pub open spec fn occurs_again(last: LifecycleStage, new: LifecycleStage) -> bool {
    last == LifecycleStage::Passed && (new == LifecycleStage::Failed || new
        == LifecycleStage::PreFailed)
}

/// The filter just before it sees a record of the given stage.
pub open spec fn filter_before(
    filter: Option<DebounceModel>,
    last: LifecycleStage,
    new: LifecycleStage,
    now: u128,
) -> Option<DebounceModel> {
    match filter {
        Some(m) => Some(
            if occurs_again(last, new) {
                m.after_reset(now)
            } else {
                m
            },
        ),
        None => None,
    }
}

/// The record goes to the sink. Without a filter every record does.
pub open spec fn forwarded(
    filter: Option<DebounceModel>,
    last: LifecycleStage,
    new: LifecycleStage,
    now: u128,
) -> bool {
    match filter_before(filter, last, new, now) {
        Some(m) => m.passes(now),
        None => true,
    }
}

/// The filter after it saw the record.
pub open spec fn filter_after(
    filter: Option<DebounceModel>,
    last: LifecycleStage,
    new: LifecycleStage,
    now: u128,
) -> Option<DebounceModel> {
    match filter_before(filter, last, new, now) {
        Some(m) => Some(m.after_event(now)),
        None => None,
    }
}

/// The hook after it was told what became of a record: the error if the sink did not
/// take it.
pub open spec fn told<H: LogHook>(
    before: Option<H>,
    record: FaultRecord,
    r: Result<(), SinkError>,
    after: Option<H>,
) -> bool {
    match before {
        Some(h) => after matches Some(g) && h.noted(
            record,
            match r {
                Ok(_) => None,
                Err(e) => Some(e),
            },
            &g,
        ),
        None => after is None,
    }
}

impl<K: FaultSinkApi, H: LogHook> Reporter<K, H> {
    /// A reporter for a fault of the catalog. What stands for the sink is looked at
    /// first, then the catalog, then the fault.
    pub fn new(
        sink: Result<K, SinkError>,
        catalog: Option<&FaultCatalog>,
        log_hook: Option<H>,
        id: &FaultId,
        config: ReporterConfig,
    ) -> (r: Result<Self, ReporterError>)
        ensures
            match (sink, catalog) {
                (Err(e), _) => r == Err::<Self, _>(ReporterError::SinkNotAvailable(e)),
                (Ok(_), None) => r == Err::<Self, _>(ReporterError::CatalogNotInitialized),
                (Ok(k), Some(c)) => if !c.by_id().contains_key(*id) {
                    r == Err::<Self, _>(ReporterError::FaultIdNotFound(*id))
                } else {
                    &&& r matches Ok(p)
                    &&& p.sink == k
                    &&& p.descriptor == c.by_id()[*id]
                    &&& p.config == config
                    &&& filter_model(p.debouncer) == match p.descriptor.reporter_side_debounce {
                        Some(mode) => Some(DebounceModel::initial(mode)),
                        None => None,
                    }
                    &&& p.last_stage == LifecycleStage::NotTested
                    &&& p.log_hook == log_hook
                },
            },
    {
        let sink = match sink {
            Ok(k) => k,
            Err(e) => {
                return Err(ReporterError::SinkNotAvailable(e));
            },
        };
        let catalog = match catalog {
            Some(c) => c,
            None => {
                return Err(ReporterError::CatalogNotInitialized);
            },
        };
        let descriptor: FaultDescriptor = match catalog.descriptor(id) {
            Some(d) => *d,
            None => {
                return Err(ReporterError::FaultIdNotFound(*id));
            },
        };
        let debouncer: Option<Debouncer> = match descriptor.reporter_side_debounce {
            Some(mode) => Some(mode.into_debouncer()),
            None => None,
        };
        Ok(
            Reporter {
                sink,
                descriptor,
                config,
                debouncer,
                last_stage: LifecycleStage::NotTested,
                log_hook,
            },
        )
    }

    /// A record of the given stage that carries the given time.
    pub fn create_record(&self, lifecycle_stage: LifecycleStage, time: IpcTimestamp) -> (r:
        FaultRecord)
        ensures
            r == (FaultRecord {
                id: self.descriptor.id,
                time,
                source: self.config.source,
                lifecycle_phase: self.config.lifecycle_phase,
                lifecycle_stage,
                env_data: self.config.default_env_data,
            }),
    {
        FaultRecord {
            id: self.descriptor.id,
            time,
            source: self.config.source,
            lifecycle_phase: self.config.lifecycle_phase,
            lifecycle_stage,
            env_data: self.config.default_env_data,
        }
    }

    /// Going from one stage to another starts the filter anew.
    pub fn should_reset_debouncer(last_stage: LifecycleStage, new_stage: LifecycleStage) -> (r:
        bool)
        ensures
            r == occurs_again(last_stage, new_stage),
    {
        match (last_stage, new_stage) {
            (LifecycleStage::Passed, LifecycleStage::Failed) => true,
            (LifecycleStage::Passed, LifecycleStage::PreFailed) => true,
            _ => false,
        }
    }

    /// Publishes a record under a path. A record that the filter holds back is passed
    /// over in silence: neither the sink nor the hook sees it. Otherwise the sink gets
    /// it as it is, the hook is told what became of it, and so is the caller. `now` is
    /// the time on the monotonic clock.
    pub fn publish(&mut self, path: &str, record: FaultRecord, now: u128) -> (r: Result<
        (),
        SinkError,
    >)
        ensures
            final(self).descriptor == old(self).descriptor,
            final(self).config == old(self).config,
            final(self).last_stage == record.lifecycle_stage,
            ({
                let filter = filter_model(old(self).debouncer);
                let last = old(self).last_stage;
                let stage = record.lifecycle_stage;
                &&& filter_model(final(self).debouncer) == filter_after(filter, last, stage, now)
                &&& if forwarded(filter, last, stage, now) {
                    &&& old(self).sink.published(path@, record, r, &final(self).sink)
                    &&& told(old(self).log_hook, record, r, final(self).log_hook)
                } else {
                    &&& r == Ok::<(), SinkError>(())
                    &&& final(self).sink == old(self).sink
                    &&& final(self).log_hook == old(self).log_hook
                }
            }),
    {
        let stage: LifecycleStage = record.lifecycle_stage;
        let reset: bool = Self::should_reset_debouncer(self.last_stage, stage);
        self.last_stage = stage;
        let mut passes: bool = true;
        if let Some(filter) = &mut self.debouncer {
            if reset {
                filter.reset(now);
            }
            passes = filter.on_event(now);
        }
        if !passes {
            return Ok(());
        }
        let result = self.sink.publish(path, record);
        if let Some(hook) = &mut self.log_hook {
            match &result {
                Ok(_) => hook.on_publish(&record),
                Err(e) => hook.on_error(&record, e),
            }
        }
        result
    }
}

/// Without a filter every record goes to the sink.
pub proof fn law_unfiltered_records_are_forwarded(
    last: LifecycleStage,
    new: LifecycleStage,
    now: u128,
)
    ensures
        forwarded(None, last, new, now),
        filter_after(None, last, new, now) is None,
{
}

/// A fault that cleared and fails again starts its filter anew: what the filter saw
/// before does not count.
pub proof fn law_new_occurrence_restarts_filter(
    filter: DebounceModel,
    last: LifecycleStage,
    new: LifecycleStage,
    now: u128,
)
    requires
        occurs_again(last, new),
    ensures
        forwarded(Some(filter), last, new, now) == filter.after_reset(now).passes(now),
        filter_after(Some(filter), last, new, now) == Some(
            filter.after_reset(now).after_event(now),
        ),
{
}

/// A first failure is no reason to start the filter anew: only one that follows a passed
/// test is.
pub proof fn law_first_failure_keeps_filter(
    filter: DebounceModel,
    last: LifecycleStage,
    new: LifecycleStage,
    now: u128,
)
    requires
        last != LifecycleStage::Passed,
    ensures
        forwarded(Some(filter), last, new, now) == filter.passes(now),
        filter_after(Some(filter), last, new, now) == Some(filter.after_event(now)),
{
}

/// Every record is an event for the filter of its reporter, which decides whether the
/// record goes to the sink. The filter starts over exactly when the fault had passed and
/// now shows a failure, confirmed or not.
pub proof fn law_reporter_filter_sees_every_record(
    filter: DebounceModel,
    last: LifecycleStage,
    new: LifecycleStage,
    now: u128,
)
    ensures
        ({
            let again = last is Passed && (new is Failed || new is PreFailed);
            let seen = if again {
                filter.after_reset(now)
            } else {
                filter
            };
            &&& forwarded(Some(filter), last, new, now) <==> seen.passes(now)
            &&& filter_after(Some(filter), last, new, now) == Some(seen.after_event(now))
        }),
{
}

/// The filter after a series of records.
pub open spec fn filter_after_records(
    filter: DebounceModel,
    first: LifecycleStage,
    records: Seq<(LifecycleStage, u128)>,
) -> DebounceModel
    decreases records.len(),
{
    if records.len() == 0 {
        filter
    } else {
        let before = filter_after_records(filter, first, records.drop_last());
        let last = if records.len() > 1 {
            records[records.len() - 2].0
        } else {
            first
        };
        filter_after(Some(before), last, records.last().0, records.last().1)->0
    }
}

/// As long as no failure follows a passed test, the filter of a reporter sees the times of
/// the records and nothing else: it is as if they were its events.
pub proof fn law_records_are_events(
    filter: DebounceModel,
    first: LifecycleStage,
    records: Seq<(LifecycleStage, u128)>,
)
    requires
        first != LifecycleStage::Passed,
        forall|i: int| 0 <= i < records.len() - 1 ==> (#[trigger] records[i]).0
            != LifecycleStage::Passed,
    ensures
        filter_after_records(filter, first, records) == after_events(
            filter,
            records.map_values(|r: (LifecycleStage, u128)| r.1),
        ),
    decreases records.len(),
{
    let times = records.map_values(|r: (LifecycleStage, u128)| r.1);
    if records.len() > 0 {
        let rest = records.drop_last();
        assert forall|i: int| 0 <= i < rest.len() - 1 implies (#[trigger] rest[i]).0
            != LifecycleStage::Passed by {
            assert(rest[i] == records[i]);
        }
        law_records_are_events(filter, first, rest);
        assert(times.drop_last() =~= rest.map_values(|r: (LifecycleStage, u128)| r.1));
        assert(records.len() > 1 ==> records[records.len() - 2].0 != LifecycleStage::Passed);
    }
}

/// The hook is told of a record once, with the error if the sink did not take it and
/// without one if it did; without a hook nobody is told.
pub proof fn law_hook_learns_the_outcome<H: LogHook>(
    before: Option<H>,
    record: FaultRecord,
    r: Result<(), SinkError>,
    after: Option<H>,
)
    requires
        told(before, record, r, after),
    ensures
        before is None ==> after is None,
        before is Some ==> after is Some,
        before is Some && r is Ok ==> before->0.noted(record, None, &after->0),
        before is Some && r is Err ==> before->0.noted(record, Some(r->Err_0), &after->0),
{
}

/// A reporter is made exactly if there is a sink and a catalog that describes the fault. It
/// reports that fault, with a new filter if the description has one for reporters, and
/// regards the fault as not tested.
pub proof fn law_reporter_is_made_from_the_catalog<K: FaultSinkApi, H: LogHook>(
    sink: Result<K, SinkError>,
    catalog: Option<&FaultCatalog>,
    log_hook: Option<H>,
    id: FaultId,
    config: ReporterConfig,
    r: Result<Reporter<K, H>, ReporterError>,
)
    requires
        call_ensures(Reporter::<K, H>::new, (sink, catalog, log_hook, &id, config), r),
    ensures
        r is Ok <==> sink is Ok && (catalog matches Some(c) && c.by_id().contains_key(id)),
        sink is Err ==> r->Err_0 == ReporterError::SinkNotAvailable(sink->Err_0),
        sink is Ok && catalog is None ==> r->Err_0 is CatalogNotInitialized,
        r matches Ok(p) ==> {
            &&& p.sink == sink->Ok_0
            &&& p.descriptor == catalog->0.by_id()[id]
            &&& p.last_stage is NotTested
            &&& p.log_hook == log_hook
            &&& p.config == config
            &&& p.debouncer is Some <==> p.descriptor.reporter_side_debounce is Some
            &&& p.debouncer matches Some(f) ==> f.model() == DebounceModel::initial(
                p.descriptor.reporter_side_debounce->0,
            )
        },
{
    if let Ok(p) = r {
        assert(filter_model(p.debouncer) is Some <==> p.descriptor.reporter_side_debounce is Some);
    }
}

/// A record names the fault of its reporter and carries the source, the phase and the
/// environment of the reporter with the stage and the time that were asked for.
pub proof fn law_record_is_the_reporters_own<K: FaultSinkApi, H: LogHook>(
    reporter: Reporter<K, H>,
    stage: LifecycleStage,
    time: IpcTimestamp,
    r: FaultRecord,
)
    requires
        call_ensures(Reporter::<K, H>::create_record, (&reporter, stage, time), r),
    ensures
        r.id == reporter.descriptor.id,
        r.time == time,
        r.lifecycle_stage == stage,
        r.source == reporter.config.source,
        r.lifecycle_phase == reporter.config.lifecycle_phase,
        r.env_data == reporter.config.default_env_data,
{
}

/// The message of an error names what is missing.
pub proof fn law_reporter_messages_name_the_cause(id: FaultId, e: SinkError)
    ensures
        ReporterError::CatalogNotInitialized.message() == "fault catalog not initialized"@,
        ReporterError::FaultIdNotFound(id).message() == "fault ID not found in catalog: "@
            + id.debug_text(),
        ReporterError::SinkNotAvailable(e).message() == "sink not available: "@ + e.message(),
{
}

} // verus!

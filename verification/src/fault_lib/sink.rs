//! What reporters need from their surroundings: a sink for records and a hook for logs.

use vstd::prelude::*;

use crate::common::fault::FaultRecord;
use crate::common::sink_error::SinkError;
use crate::common::types::DiagnosticEvent;

verus! {

/// Is told what became of each published record.
pub trait LogHook {
    /// Being told of a record, and of the error if there was one, may turn this hook
    /// into `after`. Unless a hook says more, anything may become of it.
    open spec fn noted(&self, record: FaultRecord, error: Option<SinkError>, after: &Self) -> bool {
        true
    }

    /// The record was handed to the sink.
    fn on_publish(&mut self, record: &FaultRecord)
        ensures
            old(self).noted(*record, None, final(self)),
    ;

    /// The sink did not take the record.
    fn on_error(&mut self, record: &FaultRecord, error: &SinkError)
        ensures
            old(self).noted(*record, Some(*error), final(self)),
    ;
}

/// A hook that does nothing.
#[derive(Clone, Copy, Debug)]
pub struct NoOpLogHook;

impl LogHook for NoOpLogHook {
    open spec fn noted(&self, record: FaultRecord, error: Option<SinkError>, after: &Self) -> bool {
        after == self
    }

    fn on_publish(&mut self, record: &FaultRecord) {
    }

    fn on_error(&mut self, record: &FaultRecord, error: &SinkError) {
    }
}

/// The way to the fault manager. A sink only enqueues; it does not wait for delivery.
pub trait FaultSinkApi {
    /// Publishing a record under a path may give `r` and turn this sink into `after`.
    /// Unless a sink says more, anything may come of it.
    open spec fn published(
        &self,
        path: Seq<char>,
        record: FaultRecord,
        r: Result<(), SinkError>,
        after: &Self,
    ) -> bool {
        true
    }

    /// Sending an event may give `r` and turn this sink into `after`. Unless a sink
    /// says more, anything may come of it.
    open spec fn sent(&self, event: DiagnosticEvent, r: Result<(), SinkError>, after: &Self) -> bool {
        true
    }

    /// Enqueues a record.
    fn publish(&mut self, path: &str, record: FaultRecord) -> (r: Result<(), SinkError>)
        ensures
            old(self).published(path@, record, r, final(self)),
    ;

    /// Asks the fault manager whether it has the same catalog.
    fn check_fault_catalog(&mut self) -> Result<bool, SinkError>;

    /// Enqueues an event of another kind.
    fn send_event(&mut self, event: DiagnosticEvent) -> (r: Result<(), SinkError>)
        ensures
            old(self).sent(event, r, final(self)),
    ;
}

/// A sink that keeps the published records.
#[derive(Debug)]
pub struct RecordingSink {
    /// The records, in the order in which they came.
    pub records: Vec<FaultRecord>,
}

impl RecordingSink {
    /// A sink that has seen no record.
    pub fn new() -> (r: Self)
        ensures
            r.records@ == Seq::<FaultRecord>::empty(),
    {
        RecordingSink { records: Vec::new() }
    }

    /// A copy of the records.
    pub fn received_records(&self) -> (r: Vec<FaultRecord>)
        ensures
            r@ == self.records@,
    {
        let mut out: Vec<FaultRecord> = Vec::new();
        let mut i: usize = 0;
        while i < self.records.len()
            invariant
                i <= self.records@.len(),
                out@ == self.records@.take(i as int),
            decreases self.records@.len() - i,
        {
            out.push(self.records[i]);
            i += 1;
            assert(out@ =~= self.records@.take(i as int));
        }
        assert(out@ =~= self.records@);
        out
    }

    /// Number of records.
    pub fn count(&self) -> (r: usize)
        ensures
            r == self.records@.len(),
    {
        self.records.len()
    }
}

impl Default for RecordingSink {
    fn default() -> (r: Self)
        ensures
            r.records@ == Seq::<FaultRecord>::empty(),
    {
        Self::new()
    }
}

impl FaultSinkApi for RecordingSink {
    open spec fn published(
        &self,
        path: Seq<char>,
        record: FaultRecord,
        r: Result<(), SinkError>,
        after: &Self,
    ) -> bool {
        r == Ok::<(), SinkError>(()) && after.records@ == self.records@.push(record)
    }

    open spec fn sent(
        &self,
        event: DiagnosticEvent,
        r: Result<(), SinkError>,
        after: &Self,
    ) -> bool {
        r == Ok::<(), SinkError>(()) && after == self
    }

    fn publish(&mut self, path: &str, record: FaultRecord) -> (r: Result<(), SinkError>) {
        self.records.push(record);
        Ok(())
    }

    fn check_fault_catalog(&mut self) -> (r: Result<bool, SinkError>)
        ensures
            r == Ok::<bool, SinkError>(true),
            *final(self) == *old(self),
    {
        Ok(true)
    }

    fn send_event(&mut self, event: DiagnosticEvent) -> (r: Result<(), SinkError>) {
        Ok(())
    }
}

/// Copies an error.
pub fn copy_error(e: &SinkError) -> (r: SinkError)
    ensures
        r == *e,
{
    match e {
        SinkError::TransportDown => SinkError::TransportDown,
        SinkError::RateLimited => SinkError::RateLimited,
        SinkError::PermissionDenied => SinkError::PermissionDenied,
        SinkError::BadDescriptor(m) => SinkError::BadDescriptor(m.clone()),
        SinkError::Other(m) => SinkError::Other(m.clone()),
        SinkError::InvalidServiceName => SinkError::InvalidServiceName,
        SinkError::Timeout => SinkError::Timeout,
        SinkError::QueueFull => SinkError::QueueFull,
    }
}

/// A sink that takes nothing and always gives the same error.
#[derive(Debug)]
pub struct FailingSink {
    /// The error.
    pub error: SinkError,
}

impl FailingSink {
    /// A sink that gives the given error.
    pub fn new(error: SinkError) -> (r: Self)
        ensures
            r.error == error,
    {
        FailingSink { error }
    }

    /// A sink whose transport is not available.
    pub fn transport_down() -> (r: Self)
        ensures
            r.error == SinkError::TransportDown,
    {
        Self::new(SinkError::TransportDown)
    }

    /// A sink that is never answered in time.
    pub fn timeout() -> (r: Self)
        ensures
            r.error == SinkError::Timeout,
    {
        Self::new(SinkError::Timeout)
    }
}

impl FaultSinkApi for FailingSink {
    open spec fn published(
        &self,
        path: Seq<char>,
        record: FaultRecord,
        r: Result<(), SinkError>,
        after: &Self,
    ) -> bool {
        r == Err::<(), _>(self.error) && after == self
    }

    open spec fn sent(
        &self,
        event: DiagnosticEvent,
        r: Result<(), SinkError>,
        after: &Self,
    ) -> bool {
        r == Ok::<(), SinkError>(()) && after == self
    }

    fn publish(&mut self, path: &str, record: FaultRecord) -> (r: Result<(), SinkError>) {
        Err(copy_error(&self.error))
    }

    fn check_fault_catalog(&mut self) -> (r: Result<bool, SinkError>)
        ensures
            r == Err::<bool, _>(old(self).error),
            *final(self) == *old(self),
    {
        Err(copy_error(&self.error))
    }

    fn send_event(&mut self, event: DiagnosticEvent) -> (r: Result<(), SinkError>) {
        Ok(())
    }
}

/// A recording sink takes every record and keeps it behind those that it has; events of
/// other kinds leave no trace.
pub proof fn law_records_are_kept(
    sink: RecordingSink,
    path: Seq<char>,
    record: FaultRecord,
    event: DiagnosticEvent,
    r: Result<(), SinkError>,
    after: RecordingSink,
)
    ensures
        sink.published(path, record, r, &after) ==> r is Ok && after.records@.len()
            == sink.records@.len() + 1 && after.records@.last() == record
            && after.records@.drop_last() == sink.records@,
        sink.sent(event, r, &after) ==> r is Ok && after == sink,
{
    if sink.published(path, record, r, &after) {
        assert(after.records@.drop_last() =~= sink.records@);
    }
}

/// A failing sink takes no record and always gives its error.
pub proof fn law_failing_sink_gives_its_error(
    sink: FailingSink,
    path: Seq<char>,
    record: FaultRecord,
    r: Result<(), SinkError>,
    after: FailingSink,
)
    requires
        sink.published(path, record, r, &after),
    ensures
        r == Err::<(), SinkError>(sink.error),
        after == sink,
{
}

/// A hook that does nothing stays as it is, whatever it is told.
pub proof fn law_idle_hook_stays(
    hook: NoOpLogHook,
    record: FaultRecord,
    error: Option<SinkError>,
    after: NoOpLogHook,
)
    requires
        hook.noted(record, error, &after),
    ensures
        after == hook,
{
}

} // verus!

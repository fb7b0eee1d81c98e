//! The diagnostic fault manager: everything that it keeps, in one place.

use std::sync::Arc;
use vstd::prelude::*;

use super::enabling_condition_registry::EnablingConditionRegistry;
use super::fault_catalog_registry::FaultCatalogRegistry;
use super::fault_record_processor::{FaultRecordProcessor, ProcessorView};
use super::operation_cycle::OperationCycleTracker;
use super::query_server::DfmQueryServer;
use super::sovd_fault_manager::SovdFaultManager;
use super::sovd_fault_storage::SovdFaultStateStorage;
use crate::common::enabling_condition::EnablingConditionStatus;

verus! {

/// The state of the diagnostic fault manager. Whoever owns it feeds it with events; see
/// [`dfm_loop_step`](super::fault_lib_communicator::dfm_loop_step).
#[derive(Debug)]
pub struct DiagnosticFaultManager<S: SovdFaultStateStorage> {
    /// The stored states.
    pub storage: S,
    /// The known catalogs.
    pub registry: Arc<FaultCatalogRegistry>,
    /// Processes fault records.
    pub processor: FaultRecordProcessor,
    /// The enabling conditions.
    pub ec_registry: EnablingConditionRegistry,
    /// Counts the operation cycles.
    pub cycle_tracker: OperationCycleTracker,
    /// Answers queries of other processes, if that is wanted.
    pub query_server: Option<DfmQueryServer>,
    /// A provider of operation-cycle events is attached.
    pub has_cycle_provider: bool,
}

impl<S: SovdFaultStateStorage> DiagnosticFaultManager<S> {
    /// Nothing has happened yet: no record, condition or cycle is known.
    pub open spec fn is_fresh(self, storage: S, registry: Arc<FaultCatalogRegistry>) -> bool {
        &&& self.storage == storage
        &&& self.registry == registry
        &&& self.processor.catalogs() == registry@
        &&& self.processor@ == (ProcessorView {
            debouncers: Map::empty(),
            last_stages: Map::empty(),
            aging: Map::empty(),
        })
        &&& self.ec_registry@ == Map::<Seq<char>, EnablingConditionStatus>::empty()
        &&& self.cycle_tracker@ == Map::<Seq<char>, u64>::empty()
    }

    /// A manager without a provider of operation cycles that answers no queries of other
    /// processes.
    pub fn new(storage: S, registry: Arc<FaultCatalogRegistry>) -> (r: Self)
        ensures
            r.is_fresh(storage, registry),
            r.query_server is None,
            !r.has_cycle_provider,
    {
        Self::with_cycle_provider(storage, registry, false)
    }

    /// A manager that polls a provider of operation cycles, if there is one, and answers
    /// queries of other processes, if that is wanted.
    pub fn with_transport(
        storage: S,
        registry: Arc<FaultCatalogRegistry>,
        has_cycle_provider: bool,
        enable_query_server: bool,
    ) -> (r: Self)
        ensures
            r.is_fresh(storage, registry),
            r.has_cycle_provider == has_cycle_provider,
            match r.query_server {
                Some(q) => enable_query_server && q.sovd_manager.registry == registry,
                None => !enable_query_server,
            },
    {
        let processor = FaultRecordProcessor::new(registry.clone());
        let query_server: Option<DfmQueryServer> = if enable_query_server {
            Some(DfmQueryServer::new(SovdFaultManager::new(registry.clone())))
        } else {
            None
        };
        DiagnosticFaultManager {
            storage,
            registry,
            processor,
            ec_registry: EnablingConditionRegistry::new(),
            cycle_tracker: OperationCycleTracker::new(),
            query_server,
            has_cycle_provider,
        }
    }

    /// A manager that polls a provider of operation cycles, if there is one.
    pub fn with_cycle_provider(
        storage: S,
        registry: Arc<FaultCatalogRegistry>,
        has_cycle_provider: bool,
    ) -> (r: Self)
        ensures
            r.is_fresh(storage, registry),
            r.query_server is None,
            r.has_cycle_provider == has_cycle_provider,
    {
        Self::with_transport(storage, registry, has_cycle_provider, false)
    }

    /// A manager that answers queries of other processes.
    pub fn with_query_server(storage: S, registry: Arc<FaultCatalogRegistry>) -> (r: Self)
        ensures
            r.is_fresh(storage, registry),
            r.query_server matches Some(q) && q.sovd_manager.registry == registry,
            !r.has_cycle_provider,
    {
        Self::with_transport(storage, registry, false, true)
    }

    /// The counts of the operation cycles.
    pub fn cycle_tracker(&mut self) -> (r: &mut OperationCycleTracker)
        ensures
            *r == old(self).cycle_tracker,
            *final(self) == (DiagnosticFaultManager { cycle_tracker: *final(r), ..*old(self) }),
    {
        &mut self.cycle_tracker
    }

    /// A manager of queries over the same catalogs.
    pub fn create_sovd_fault_manager(&self) -> (r: SovdFaultManager)
        ensures
            r.registry == self.registry,
    {
        SovdFaultManager::new(self.registry.clone())
    }
}

/// A new manager knows the catalogs that it is given and nothing else: no filter, no stage
/// and no aging of any fault, no condition and no cycle.
pub proof fn law_new_manager_knows_nothing<S: SovdFaultStateStorage>(
    storage: S,
    registry: Arc<FaultCatalogRegistry>,
    provider: bool,
    server: bool,
    r: DiagnosticFaultManager<S>,
)
    requires
        call_ensures(
            DiagnosticFaultManager::<S>::with_transport,
            (storage, registry, provider, server),
            r,
        ),
    ensures
        r.storage == storage,
        r.registry == registry,
        r.processor.catalogs() == registry@,
        r.processor@.debouncers.dom() =~= Set::empty(),
        r.processor@.last_stages.dom() =~= Set::empty(),
        r.processor@.aging.dom() =~= Set::empty(),
        r.ec_registry@.dom() =~= Set::empty(),
        r.cycle_tracker@.dom() =~= Set::empty(),
        r.has_cycle_provider == provider,
        r.query_server is Some <==> server,
        r.query_server matches Some(q) ==> q.sovd_manager.registry == registry,
{
}

} // verus!

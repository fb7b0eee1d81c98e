//! The reporter side of an application as a whole: initialised once, asked from
//! everywhere.

use vstd::prelude::*;
use vstd::string::*;

use super::enabling_condition::{
    next_number, registers, EnablingCondition, EnablingConditionError, EnablingConditionManager,
    FaultMonitor, MonitorEntry,
};
use super::fault_manager_sink::SinkInitError;
use super::sink::{FaultSinkApi, LogHook};
use crate::common::catalog::FaultCatalog;
use crate::common::enabling_condition::EnablingConditionStatus;
use crate::common::sink_error::SinkError;

verus! {

/// Why the initialisation fails.
#[derive(Debug)]
#[non_exhaustive]
pub enum InitError {
    /// It was done before.
    AlreadyInitialized,
    /// The catalog is not the one of the fault manager, or that could not be found out.
    CatalogVerification(SinkError),
    /// The sink cannot be set up.
    SinkInit(SinkInitError),
}

impl InitError {
    /// The message of the error.
    pub open spec fn message(self) -> Seq<char> {
        match self {
            InitError::AlreadyInitialized => "FaultApi already initialized"@,
            InitError::CatalogVerification(e) => "catalog hash verification failed: "@
                + e.message(),
            InitError::SinkInit(e) => "IPC sink initialization failed: "@ + e.message(),
        }
    }

    /// The message of the error.
    pub fn to_string(&self) -> (r: String)
        ensures
            r@ == self.message(),
    {
        match self {
            InitError::AlreadyInitialized => String::from_str("FaultApi already initialized"),
            InitError::CatalogVerification(e) => {
                let text = e.to_string();
                String::from_str("catalog hash verification failed: ").concat(text.as_str())
            },
            InitError::SinkInit(e) => {
                let text = e.to_string();
                String::from_str("IPC sink initialization failed: ").concat(text.as_str())
            },
        }
    }
}

/// What an initialised reporter side consists of.
#[derive(Debug)]
pub struct FaultApiState<K: FaultSinkApi> {
    /// The way to the fault manager.
    pub sink: K,
    /// The catalog that both sides agree on.
    pub catalog: FaultCatalog,
    /// The enabling conditions.
    pub ec_manager: EnablingConditionManager<K>,
}

/// The life of the reporter side: it is initialised at most once, and never again after
/// it was dropped.
#[derive(Debug)]
pub enum ApiSlot<K: FaultSinkApi> {
    /// Not initialised yet.
    Empty,
    /// In use.
    Ready(FaultApiState<K>),
    /// Dropped.
    Dropped,
}

/// The reporter side of an application.
#[derive(Debug)]
pub struct FaultApi<K: FaultSinkApi, H: LogHook> {
    /// What it consists of.
    pub slot: ApiSlot<K>,
    /// Is told what became of published records.
    pub log_hook: Option<H>,
}

/// What the initialisation gives. That it was done before is found out first, then what
/// became of the sink, then what the fault manager said of the catalog. A failure
/// changes nothing.
pub open spec fn initialises<K: FaultSinkApi, H: LogHook>(
    before: FaultApi<K, H>,
    after: FaultApi<K, H>,
    catalog: FaultCatalog,
    sink: Result<(K, K), SinkInitError>,
    agreed: Result<bool, SinkError>,
    r: Result<(), InitError>,
) -> bool {
    if before.slot !is Empty {
        r == Err::<(), _>(InitError::AlreadyInitialized) && after == before
    } else {
        match (sink, agreed) {
            (Err(e), _) => r == Err::<(), _>(InitError::SinkInit(e)) && after == before,
            (Ok(_), Err(e)) => r == Err::<(), _>(InitError::CatalogVerification(e)) && after
                == before,
            (Ok(_), Ok(false)) => {
                &&& r matches Err(InitError::CatalogVerification(SinkError::Other(m)))
                &&& m@ == "catalog hash mismatch with DFM"@
                &&& after == before
            },
            (Ok(k), Ok(true)) => {
                &&& r == Ok::<(), InitError>(())
                &&& after.log_hook == before.log_hook
                &&& after.slot matches ApiSlot::Ready(s)
                &&& s.sink == k.0
                &&& s.catalog == catalog
                &&& s.ec_manager.sink == Some(k.1)
                &&& s.ec_manager.conditions@ == Map::<Seq<char>, EnablingConditionStatus>::empty()
                &&& s.ec_manager.monitors@ == Seq::<MonitorEntry>::empty()
                &&& s.ec_manager.next_monitor_id == 0
            },
        }
    }
}

impl<K: FaultSinkApi, H: LogHook> FaultApi<K, H> {
    /// A reporter side that is not initialised.
    pub fn new() -> (r: Self)
        ensures
            r.slot is Empty,
            r.log_hook is None,
    {
        FaultApi { slot: ApiSlot::Empty, log_hook: None }
    }

    /// Fails when the initialisation was done before.
    pub fn check_uninitialized(&self) -> (r: Result<(), InitError>)
        ensures
            r == (if self.slot is Empty {
                Ok::<(), InitError>(())
            } else {
                Err(InitError::AlreadyInitialized)
            }),
    {
        match self.slot {
            ApiSlot::Empty => Ok(()),
            _ => Err(InitError::AlreadyInitialized),
        }
    }

    /// Initialises the reporter side with a catalog, given what setting up the sink gave
    /// (two handles of it, one for the enabling conditions) and whether the fault manager
    /// agrees on the catalog.
    pub fn try_new(
        &mut self,
        catalog: FaultCatalog,
        sink: Result<(K, K), SinkInitError>,
        agreed: Result<bool, SinkError>,
    ) -> (r: Result<(), InitError>)
        ensures
            initialises(*old(self), *final(self), catalog, sink, agreed, r),
    {
        match self.slot {
            ApiSlot::Empty => {},
            _ => {
                return Err(InitError::AlreadyInitialized);
            },
        }
        let handles: (K, K) = match sink {
            Ok(k) => k,
            Err(e) => {
                return Err(InitError::SinkInit(e));
            },
        };
        let matching: bool = match agreed {
            Ok(b) => b,
            Err(e) => {
                return Err(InitError::CatalogVerification(e));
            },
        };
        if !matching {
            return Err(
                InitError::CatalogVerification(
                    SinkError::Other(String::from_str("catalog hash mismatch with DFM")),
                ),
            );
        }
        let mut ec_manager: EnablingConditionManager<K> = EnablingConditionManager::new();
        ec_manager.set_sink(handles.1);
        self.slot = ApiSlot::Ready(FaultApiState { sink: handles.0, catalog, ec_manager });
        Ok(())
    }

    /// Drops what the reporter side consists of. Gives the enabling conditions, for those
    /// who still hold one or watch one: changes are still passed on among them, but there
    /// is no sink any more.
    pub fn release(&mut self) -> (r: Option<EnablingConditionManager<K>>)
        ensures
            final(self).log_hook == old(self).log_hook,
            old(self).slot is Empty ==> final(self).slot is Empty,
            old(self).slot !is Empty ==> final(self).slot is Dropped,
            match old(self).slot {
                ApiSlot::Ready(s) => r == Some(
                    EnablingConditionManager { sink: None, ..s.ec_manager },
                ),
                _ => r is None,
            },
    {
        match self.slot {
            ApiSlot::Empty => {
                return None;
            },
            _ => {},
        }
        let mut slot: ApiSlot<K> = ApiSlot::Dropped;
        std::mem::swap(&mut slot, &mut self.slot);
        match slot {
            ApiSlot::Ready(s) => Some(EnablingConditionManager { sink: None, ..s.ec_manager }),
            _ => None,
        }
    }

    /// The sink.
    pub fn try_get_fault_sink(&self) -> (r: Result<&K, SinkError>)
        ensures
            match self.slot {
                ApiSlot::Empty => r matches Err(SinkError::Other(m)) && m@
                    == "FaultApi not initialized"@,
                ApiSlot::Ready(s) => r == Ok::<&K, SinkError>(&s.sink),
                ApiSlot::Dropped => r matches Err(SinkError::Other(m)) && m@
                    == "FaultApi has been dropped"@,
            },
    {
        match &self.slot {
            ApiSlot::Empty => Err(SinkError::Other(String::from_str("FaultApi not initialized"))),
            ApiSlot::Ready(s) => Ok(&s.sink),
            ApiSlot::Dropped => Err(
                SinkError::Other(String::from_str("FaultApi has been dropped")),
            ),
        }
    }

    /// The sink of an initialised reporter side.
    pub fn get_fault_sink(&self) -> (r: &K)
        requires
            self.slot is Ready,
        ensures
            *r == self.slot->Ready_0.sink,
    {
        match &self.slot {
            ApiSlot::Ready(s) => &s.sink,
            _ => vstd::pervasive::unreached(),
        }
    }

    /// The catalog.
    pub fn try_get_fault_catalog(&self) -> (r: Option<&FaultCatalog>)
        ensures
            match self.slot {
                ApiSlot::Ready(s) => r == Some(&s.catalog),
                _ => r is None,
            },
    {
        match &self.slot {
            ApiSlot::Ready(s) => Some(&s.catalog),
            _ => None,
        }
    }

    /// The catalog of an initialised reporter side.
    pub fn get_fault_catalog(&self) -> (r: &FaultCatalog)
        requires
            self.slot is Ready,
        ensures
            *r == self.slot->Ready_0.catalog,
    {
        match &self.slot {
            ApiSlot::Ready(s) => &s.catalog,
            _ => vstd::pervasive::unreached(),
        }
    }

    /// Registers a log hook, once; a second one is handed back.
    pub fn set_log_hook(&mut self, hook: H) -> (r: Result<(), H>)
        ensures
            final(self).slot == old(self).slot,
            match old(self).log_hook {
                None => r is Ok && final(self).log_hook == Some(hook),
                Some(_) => r == Err::<(), H>(hook) && final(self).log_hook == old(self).log_hook,
            },
    {
        match &self.log_hook {
            Some(_) => Err(hook),
            None => {
                self.log_hook = Some(hook);
                Ok(())
            },
        }
    }

    /// The log hook.
    pub fn try_get_log_hook(&self) -> (r: Option<&H>)
        ensures
            match self.log_hook {
                Some(h) => r == Some(&h),
                None => r is None,
            },
    {
        match &self.log_hook {
            Some(h) => Some(h),
            None => None,
        }
    }

    /// The enabling conditions.
    pub fn try_get_ec_manager(&self) -> (r: Option<&EnablingConditionManager<K>>)
        ensures
            match self.slot {
                ApiSlot::Ready(s) => r == Some(&s.ec_manager),
                _ => r is None,
            },
    {
        match &self.slot {
            ApiSlot::Ready(s) => Some(&s.ec_manager),
            _ => None,
        }
    }

    /// Registers an enabling condition.
    pub fn get_enabling_condition(&mut self, entity: &str) -> (r: Result<
        EnablingCondition,
        EnablingConditionError,
    >)
        ensures
            final(self).log_hook == old(self).log_hook,
            match old(self).slot {
                ApiSlot::Ready(s) => {
                    &&& final(self).slot matches ApiSlot::Ready(t)
                    &&& t.sink == s.sink
                    &&& t.catalog == s.catalog
                    &&& registers(s.ec_manager, t.ec_manager, entity@, r)
                },
                _ => {
                    &&& r == Err::<EnablingCondition, _>(EnablingConditionError::NotInitialized)
                    &&& *final(self) == *old(self)
                },
            },
    {
        match &mut self.slot {
            ApiSlot::Ready(s) => s.ec_manager.register_condition(entity),
            _ => Err(EnablingConditionError::NotInitialized),
        }
    }

    /// Registers a watcher of the given conditions.
    pub fn create_fault_monitor(&mut self, condition_ids: Vec<String>) -> (r: Result<
        FaultMonitor,
        EnablingConditionError,
    >)
        ensures
            final(self).log_hook == old(self).log_hook,
            match old(self).slot {
                ApiSlot::Ready(s) => {
                    &&& final(self).slot matches ApiSlot::Ready(t)
                    &&& r matches Ok(m)
                    &&& t.sink == s.sink
                    &&& t.catalog == s.catalog
                    &&& m.monitor_id == s.ec_manager.next_monitor_id
                    &&& t.ec_manager.monitors@ == s.ec_manager.monitors@.push(
                        (MonitorEntry { id: m.monitor_id, condition_ids }),
                    )
                    &&& t.ec_manager.next_monitor_id == next_number(s.ec_manager.next_monitor_id)
                    &&& t.ec_manager.conditions == s.ec_manager.conditions
                    &&& t.ec_manager.sink == s.ec_manager.sink
                },
                _ => {
                    &&& r == Err::<FaultMonitor, _>(EnablingConditionError::NotInitialized)
                    &&& *final(self) == *old(self)
                },
            },
    {
        match &mut self.slot {
            ApiSlot::Ready(s) => Ok(s.ec_manager.register_monitor(condition_ids)),
            _ => Err(EnablingConditionError::NotInitialized),
        }
    }

    /// The status of an enabling condition.
    pub fn get_enabling_condition_status(&self, entity: &str) -> (r: Option<
        EnablingConditionStatus,
    >)
        ensures
            r == (match self.slot {
                ApiSlot::Ready(s) => if s.ec_manager.conditions@.contains_key(entity@) {
                    Some(s.ec_manager.conditions@[entity@])
                } else {
                    None
                },
                _ => None,
            }),
    {
        match &self.slot {
            ApiSlot::Ready(s) => s.ec_manager.get_status(entity),
            _ => None,
        }
    }
}

impl<K: FaultSinkApi, H: LogHook> Default for FaultApi<K, H> {
    fn default() -> (r: Self)
        ensures
            r.slot is Empty,
            r.log_hook is None,
    {
        Self::new()
    }
}

/// The reporter side is initialised at most once: after a success every further attempt
/// fails and changes nothing.
pub proof fn law_initialised_once<K: FaultSinkApi, H: LogHook>(
    first: FaultApi<K, H>,
    second: FaultApi<K, H>,
    third: FaultApi<K, H>,
    catalog: FaultCatalog,
    sink: Result<(K, K), SinkInitError>,
    agreed: Result<bool, SinkError>,
    r: Result<(), InitError>,
    other_catalog: FaultCatalog,
    other_sink: Result<(K, K), SinkInitError>,
    other_agreed: Result<bool, SinkError>,
    s: Result<(), InitError>,
)
    requires
        initialises(first, second, catalog, sink, agreed, r),
        r is Ok,
        initialises(second, third, other_catalog, other_sink, other_agreed, s),
    ensures
        s == Err::<(), _>(InitError::AlreadyInitialized),
        third == second,
{
}

/// A failed initialisation leaves nothing behind, so it can be tried again.
pub proof fn law_failed_initialisation_changes_nothing<K: FaultSinkApi, H: LogHook>(
    before: FaultApi<K, H>,
    after: FaultApi<K, H>,
    catalog: FaultCatalog,
    sink: Result<(K, K), SinkInitError>,
    agreed: Result<bool, SinkError>,
    r: Result<(), InitError>,
)
    requires
        initialises(before, after, catalog, sink, agreed, r),
        r is Err,
    ensures
        after == before,
{
}

/// An initialisation succeeds exactly if there was none before, the sink could be set up
/// and the fault manager has the same catalog. The reporter side then has the catalog and
/// the sink, and enabling conditions that send to it, of which none is known or watched
/// yet.
pub proof fn law_initialised_reporter_side<K: FaultSinkApi, H: LogHook>(
    before: FaultApi<K, H>,
    after: FaultApi<K, H>,
    catalog: FaultCatalog,
    sink: Result<(K, K), SinkInitError>,
    agreed: Result<bool, SinkError>,
    r: Result<(), InitError>,
)
    requires
        initialises(before, after, catalog, sink, agreed, r),
    ensures
        r is Ok <==> before.slot is Empty && sink is Ok && agreed == Ok::<bool, SinkError>(true),
        r is Ok ==> (after.slot matches ApiSlot::Ready(s) && s.catalog == catalog && s.sink
            == sink->Ok_0.0 && s.ec_manager.sink == Some(sink->Ok_0.1)
            && s.ec_manager.monitors@.len() == 0 && s.ec_manager.next_monitor_id == 0
            && s.ec_manager.conditions@.dom() == Set::<Seq<char>>::empty()),
        r is Err ==> after == before,
        !(before.slot is Empty) ==> r->Err_0 is AlreadyInitialized,
        before.slot is Empty && sink is Err ==> r->Err_0 == InitError::SinkInit(sink->Err_0),
        before.slot is Empty && sink is Ok && agreed != Ok::<bool, SinkError>(true)
            ==> r->Err_0 is CatalogVerification,
{
}

/// The message of an error names what the initialisation failed at, with the message of
/// the cause behind it.
pub proof fn law_initialisation_messages_name_the_cause(e: SinkError, i: SinkInitError)
    ensures
        InitError::AlreadyInitialized.message() == "FaultApi already initialized"@,
        InitError::CatalogVerification(e).message() == "catalog hash verification failed: "@
            + e.message(),
        InitError::SinkInit(i).message() == "IPC sink initialization failed: "@ + i.message(),
{
}

/// What the reporter side has is handed out exactly while it is initialised, and its parts
/// are the ones that it was initialised with; the hook is independent of that.
pub proof fn law_parts_are_handed_out<K: FaultSinkApi, H: LogHook>(
    api: FaultApi<K, H>,
    sink: Result<&K, SinkError>,
    catalog: Option<&FaultCatalog>,
    manager: Option<&EnablingConditionManager<K>>,
    hook: Option<&H>,
    free: Result<(), InitError>,
)
    requires
        call_ensures(FaultApi::<K, H>::try_get_fault_sink, (&api,), sink),
        call_ensures(FaultApi::<K, H>::try_get_fault_catalog, (&api,), catalog),
        call_ensures(FaultApi::<K, H>::try_get_ec_manager, (&api,), manager),
        call_ensures(FaultApi::<K, H>::try_get_log_hook, (&api,), hook),
        call_ensures(FaultApi::<K, H>::check_uninitialized, (&api,), free),
    ensures
        sink is Ok <==> api.slot is Ready,
        catalog is Some <==> api.slot is Ready,
        manager is Some <==> api.slot is Ready,
        api.slot matches ApiSlot::Ready(s) ==> *sink->Ok_0 == s.sink && *catalog->0 == s.catalog
            && *manager->0 == s.ec_manager,
        sink matches Err(e) ==> e is Other,
        hook is Some <==> api.log_hook is Some,
        hook matches Some(h) ==> Some(*h) == api.log_hook,
        free is Ok <==> api.slot is Empty,
        free matches Err(e) ==> e is AlreadyInitialized,
{
}

} // verus!

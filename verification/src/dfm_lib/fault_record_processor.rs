//! Processing of fault records: filtering per source, the effect of each lifecycle
//! stage on the stored state, and aging.

use std::sync::Arc;
use vstd::prelude::*;
use vstd::string::*;

use super::aging_manager::{AgingManager, AgingState, AgingView};
use super::fault_catalog_registry::FaultCatalogRegistry;
use super::fault_key::{key_decodes, law_fault_id_key_round_trip, storage_key};
use super::kvs::text_map;
use super::operation_cycle::{count_of, OperationCycleTracker};
use super::sovd_fault_manager::known_state;
use super::sovd_fault_storage::{
    lists_path, reads_keys, FaultStateView, KvsSovdFaultStateStorage, SovdEnvData, SovdFaultState,
    SovdFaultStateStorage, StoredStates,
};
use crate::common::assoc_map::{AssocMap, MapKey};
use crate::common::catalog::FaultCatalog;
use crate::common::config::{ResetPolicy, ResetTrigger};
use crate::common::debounce::{Debounce, DebounceModel, Debouncer};
use crate::common::fault::{
    ComplianceTag, FaultDescriptor, FaultId, FaultRecord, LifecycleStage,
};
use crate::common::fixed_string::escaped;
use crate::common::types::{LongString, MetadataVec, Sha256Vec, ShortString};

verus! {

/// Names a fault of one source, so that each source is filtered by itself.
#[derive(Debug)]
pub struct FaultKey {
    /// Path of the reporting entity.
    pub source: String,
    /// The fault.
    pub fault_id: FaultId,
}

impl View for FaultKey {
    type V = (Seq<char>, FaultId);

    open spec fn view(&self) -> (Seq<char>, FaultId) {
        (self.source@, self.fault_id)
    }
}

impl MapKey for FaultKey {
    fn same(&self, other: &Self) -> (r: bool) {
        self.source == other.source && self.fault_id == other.fault_id
    }
}

impl Clone for FaultKey {
    fn clone(&self) -> (r: Self)
        ensures
            r@ == self@,
    {
        FaultKey { source: self.source.clone(), fault_id: self.fault_id }
    }
}

impl FaultKey {
    /// The key of a fault of a source.
    pub fn new(source: &str, fault_id: &FaultId) -> (r: Self)
        ensures
            r@ == (source@, *fault_id),
    {
        FaultKey { source: String::from_str(source), fault_id: *fault_id }
    }
}

/// What the processor remembers, as a mathematical value.
pub struct ProcessorView {
    /// Filters by source and fault.
    pub debouncers: Map<(Seq<char>, FaultId), DebounceModel>,
    /// Last reported stages by source and fault.
    pub last_stages: Map<(Seq<char>, FaultId), LifecycleStage>,
    /// Aging by source and fault.
    pub aging: Map<(Seq<char>, FaultId), AgingView>,
}

/// The description of a fault of an entity, if it is known.
pub open spec fn described(
    catalogs: Map<Seq<char>, FaultCatalog>,
    path: Seq<char>,
    id: FaultId,
) -> Option<FaultDescriptor> {
    if catalogs.contains_key(path) && catalogs[path].by_id().contains_key(id) {
        Some(catalogs[path].by_id()[id])
    } else {
        None
    }
}

/// Going from one stage to another starts the filter anew: the fault had cleared and
/// occurs again.
pub open spec fn restarts_filter(last: LifecycleStage, new: LifecycleStage) -> bool {
    match (last, new) {
        (LifecycleStage::Passed, LifecycleStage::Failed) => true,
        (LifecycleStage::NotTested, LifecycleStage::Failed) => true,
        (LifecycleStage::Passed, LifecycleStage::PreFailed) => true,
        _ => false,
    }
}

/// The stage is a sign of fault activity.
pub open spec fn is_failure(stage: LifecycleStage) -> bool {
    stage == LifecycleStage::Failed || stage == LifecycleStage::PreFailed
}

/// A description asks for a warning lamp.
pub open spec fn asks_for_warning(descriptor: Option<FaultDescriptor>) -> bool {
    descriptor matches Some(d) && exists|i: int|
        0 <= i < d.compliance@.len() && ((#[trigger] d.compliance@[i])
            == ComplianceTag::SafetyCritical || d.compliance@[i]
            == ComplianceTag::EmissionRelevant)
}

/// The reset policy of a description.
pub open spec fn policy_of(descriptor: Option<FaultDescriptor>) -> Option<ResetPolicy> {
    match descriptor {
        Some(d) => d.manager_side_reset,
        None => None,
    }
}

/// The state of a fault after a report of the given stage, aging and environment
/// data aside.
pub open spec fn after_stage(
    s: FaultStateView,
    stage: LifecycleStage,
    descriptor: Option<FaultDescriptor>,
    now_secs: u64,
) -> FaultStateView {
    match stage {
        LifecycleStage::Failed => FaultStateView {
            test_failed: true,
            confirmed_dtc: true,
            pending_dtc: false,
            test_failed_this_operation_cycle: true,
            test_failed_since_last_clear: true,
            warning_indicator_requested: s.warning_indicator_requested || asks_for_warning(
                descriptor,
            ),
            ..s
        }.with_occurrence(now_secs),
        LifecycleStage::Passed => FaultStateView {
            test_failed: false,
            pending_dtc: false,
            confirmed_dtc: s.confirmed_dtc && policy_of(descriptor) is Some,
            ..s
        },
        LifecycleStage::PreFailed => FaultStateView {
            test_failed: true,
            pending_dtc: true,
            test_failed_this_operation_cycle: true,
            test_failed_since_last_clear: true,
            warning_indicator_requested: s.warning_indicator_requested || asks_for_warning(
                descriptor,
            ),
            ..s
        }.with_occurrence(now_secs),
        LifecycleStage::PrePassed => FaultStateView {
            test_failed: false,
            pending_dtc: false,
            ..s
        },
        LifecycleStage::NotTested => FaultStateView {
            test_not_completed_this_operation_cycle: true,
            test_not_completed_since_last_clear: true,
            ..s
        },
    }
}

/// Environment data of a record as texts; of entries with the same name the last
/// counts.
pub open spec fn env_texts(entries: Seq<(ShortString, ShortString)>) -> Map<Seq<char>, Seq<char>>
    decreases entries.len(),
{
    if entries.len() == 0 {
        Map::empty()
    } else {
        env_texts(entries.drop_last()).insert(
            escaped(entries.last().0@),
            escaped(entries.last().1@),
        )
    }
}

impl ProcessorView {
    /// The filter of a fault, before the event that a record is.
    pub open spec fn filter_before(
        self,
        key: (Seq<char>, FaultId),
        stage: LifecycleStage,
        descriptor: Option<FaultDescriptor>,
        now: u128,
    ) -> Option<DebounceModel> {
        if self.debouncers.contains_key(key) {
            if self.last_stages.contains_key(key) && restarts_filter(self.last_stages[key], stage) {
                Some(self.debouncers[key].after_reset(now))
            } else {
                Some(self.debouncers[key])
            }
        } else {
            match descriptor {
                Some(d) => match d.manager_side_debounce {
                    Some(mode) => Some(DebounceModel::initial(mode)),
                    None => None,
                },
                None => None,
            }
        }
    }

    /// The record passes the filter of its fault.
    pub open spec fn admits(
        self,
        key: (Seq<char>, FaultId),
        stage: LifecycleStage,
        descriptor: Option<FaultDescriptor>,
        now: u128,
    ) -> bool {
        match self.filter_before(key, stage, descriptor, now) {
            Some(f) => f.passes(now),
            None => true,
        }
    }

    /// What is remembered after the filter saw a record.
    pub open spec fn filtered(
        self,
        key: (Seq<char>, FaultId),
        stage: LifecycleStage,
        descriptor: Option<FaultDescriptor>,
        now: u128,
    ) -> Self {
        ProcessorView {
            debouncers: match self.filter_before(key, stage, descriptor, now) {
                Some(f) => self.debouncers.insert(key, f.after_event(now)),
                None => self.debouncers,
            },
            last_stages: self.last_stages.insert(key, stage),
            aging: self.aging,
        }
    }

    /// The aging of a fault after an admitted record, before a reset.
    pub open spec fn aging_before_reset(
        self,
        key: (Seq<char>, FaultId),
        stage: LifecycleStage,
        counts: Map<Seq<char>, u64>,
        now: u128,
    ) -> Map<(Seq<char>, FaultId), AgingView> {
        if is_failure(stage) {
            let known = if self.aging.contains_key(key) {
                self.aging[key]
            } else {
                AgingView::fresh(now)
            };
            self.aging.insert(key, known.activated(counts, now))
        } else {
            self.aging
        }
    }

    /// The fault ages out with an admitted record.
    pub open spec fn ages_out(
        self,
        key: (Seq<char>, FaultId),
        stage: LifecycleStage,
        descriptor: Option<FaultDescriptor>,
        counts: Map<Seq<char>, u64>,
        now: u128,
    ) -> bool {
        let aging = self.aging_before_reset(key, stage, counts, now);
        policy_of(descriptor) matches Some(policy) && aging.contains_key(key)
            && aging[key].policy_met(policy, counts, now)
    }

    /// What is remembered after a record.
    pub open spec fn after_record(
        self,
        key: (Seq<char>, FaultId),
        stage: LifecycleStage,
        descriptor: Option<FaultDescriptor>,
        counts: Map<Seq<char>, u64>,
        now: u128,
    ) -> Self {
        let filtered = self.filtered(key, stage, descriptor, now);
        if self.admits(key, stage, descriptor, now) {
            let aging = self.aging_before_reset(key, stage, counts, now);
            ProcessorView {
                aging: if self.ages_out(key, stage, descriptor, counts, now) {
                    aging.insert(key, aging[key].aged_out())
                } else {
                    aging
                },
                ..filtered
            }
        } else {
            filtered
        }
    }

    /// The state of a fault after an admitted record.
    pub open spec fn state_after(
        self,
        key: (Seq<char>, FaultId),
        s: FaultStateView,
        record: FaultRecord,
        descriptor: Option<FaultDescriptor>,
        counts: Map<Seq<char>, u64>,
        now: u128,
        now_secs: u64,
    ) -> FaultStateView {
        let stage = record.lifecycle_stage;
        let staged = after_stage(s, stage, descriptor, now_secs);
        let aged = if self.ages_out(key, stage, descriptor, counts, now) {
            staged.healed()
        } else {
            staged
        };
        FaultStateView {
            env_data: if is_failure(stage) {
                env_texts(record.env_data@)
            } else {
                aged.env_data
            },
            ..aged
        }
    }
}

/// Storing a state, if that works.
pub open spec fn stored_if_writable<S: SovdFaultStateStorage>(
    storage: S,
    path: Seq<char>,
    key: Seq<char>,
    state: FaultStateView,
) -> StoredStates {
    if storage.writable(path, key, state) {
        storage.stored().insert((path, key), state)
    } else {
        storage.stored()
    }
}

/// What processing a record from the entity at `path` does to what is remembered and to
/// the storage. A record that the filter holds back leaves the storage alone; one that
/// it lets through changes the state of its fault alone, which can then be read. What
/// else is stored can be read and listed as before.
pub open spec fn processes_record<S: SovdFaultStateStorage>(
    catalogs: Map<Seq<char>, FaultCatalog>,
    before: ProcessorView,
    after: ProcessorView,
    storage_before: &S,
    storage_after: &S,
    counts: Map<Seq<char>, u64>,
    path: Seq<char>,
    record: FaultRecord,
    now: u128,
    now_secs: u64,
) -> bool {
    let key = (path, record.id);
    let stage = record.lifecycle_stage;
    let d = described(catalogs, path, record.id);
    let s = known_state(storage_before, path, record.id);
    let t = before.state_after(key, s, record, d, counts, now, now_secs);
    let k = storage_key(record.id);
    &&& after == before.after_record(key, stage, d, counts, now)
    &&& before.admits(key, stage, d, now) ==> storage_after.stored() == stored_if_writable(
        *storage_before,
        path,
        k,
        t,
    )
    &&& before.admits(key, stage, d, now) && storage_before.writable(path, k, t)
        ==> storage_after.readable(path, k)
    &&& !before.admits(key, stage, d, now) ==> storage_after == storage_before
    &&& forall|p: Seq<char>, q: Seq<char>|
        p != path || q != k ==> #[trigger] storage_after.readable(p, q) == storage_before.readable(
            p,
            q,
        )
    &&& forall|p: Seq<char>|
        p != path ==> #[trigger] storage_after.listable(p) == storage_before.listable(p)
    &&& storage_before.listable(path) ==> storage_after.listable(path)
}

/// A set of status flags that is reset for all faults of an entity at once.
#[derive(Clone, Copy, Debug, PartialEq, Eq, Structural)]
pub enum FlagReset {
    /// The flags that count since the last clear.
    SinceLastClear,
    /// The flags that count within the operation cycle.
    ThisOperationCycle,
}

impl FlagReset {
    /// A state with the flags reset; all else stays.
    pub open spec fn applied(self, s: FaultStateView) -> FaultStateView {
        match self {
            FlagReset::SinceLastClear => FaultStateView {
                test_failed_since_last_clear: false,
                test_not_completed_since_last_clear: false,
                ..s
            },
            FlagReset::ThisOperationCycle => FaultStateView {
                test_failed_this_operation_cycle: false,
                test_not_completed_this_operation_cycle: false,
                ..s
            },
        }
    }
}

/// Every key stored under a path is the key of the fault that it stands for.
pub open spec fn canonical(stored: StoredStates, path: Seq<char>) -> bool {
    forall|k: Seq<char>, id: FaultId|
        stored.contains_key((path, k)) && #[trigger] key_decodes(k, Ok(id)) ==> storage_key(id)
            == k
}

/// Each state under a path can be stored again with its flags reset, whatever else is
/// stored.
pub open spec fn reset_writable<S: SovdFaultStateStorage>(
    stored: StoredStates,
    path: Seq<char>,
    what: FlagReset,
) -> bool {
    forall|t: S, k: Seq<char>|
        stored.contains_key((path, k)) ==> #[trigger] t.writable(
            path,
            k,
            what.applied(stored[(path, k)]),
        )
}

/// The storage goes from `run[0]` to the last of `run` by storing, for each key in order,
/// the state with its flags reset, if that works.
pub open spec fn resets_in_turn<S: SovdFaultStateStorage>(
    stored: StoredStates,
    path: Seq<char>,
    what: FlagReset,
    keys: Seq<Seq<char>>,
    ids: Seq<FaultId>,
    run: Seq<S>,
) -> bool {
    &&& ids.len() == keys.len()
    &&& run.len() == keys.len() + 1
    &&& forall|i: int|
        0 <= i < keys.len() ==> key_decodes(#[trigger] keys[i], Ok(ids[i])) && run[i + 1].stored()
            == stored_if_writable(
            run[i],
            path,
            storage_key(ids[i]),
            what.applied(stored[(path, keys[i])]),
        )
}

/// One more key is dealt with.
proof fn lemma_one_more_reset<S: SovdFaultStateStorage>(
    stored: StoredStates,
    path: Seq<char>,
    what: FlagReset,
    keys: Seq<Seq<char>>,
    ids: Seq<FaultId>,
    run: Seq<S>,
    next: S,
    i: int,
)
    requires
        0 <= i < keys.len(),
        ids.len() == keys.len(),
        resets_in_turn(stored, path, what, keys.take(i), ids.take(i), run),
        key_decodes(keys[i], Ok(ids[i])),
        next.stored() == stored_if_writable(
            run.last(),
            path,
            storage_key(ids[i]),
            what.applied(stored[(path, keys[i])]),
        ),
    ensures
        resets_in_turn(stored, path, what, keys.take(i + 1), ids.take(i + 1), run.push(next)),
{
    let after = run.push(next);
    assert forall|j: int| 0 <= j < i + 1 implies key_decodes(
        #[trigger] keys.take(i + 1)[j],
        Ok(ids.take(i + 1)[j]),
    ) && after[j + 1].stored() == stored_if_writable(
        after[j],
        path,
        storage_key(ids.take(i + 1)[j]),
        what.applied(stored[(path, keys.take(i + 1)[j])]),
    ) by {
        if j < i {
            assert(keys.take(i)[j] == keys[j]);
            assert(ids.take(i)[j] == ids[j]);
        }
    }
}

/// What is stored under other paths is left alone.
proof fn lemma_resets_stay_at_path<S: SovdFaultStateStorage>(
    stored: StoredStates,
    path: Seq<char>,
    what: FlagReset,
    keys: Seq<Seq<char>>,
    ids: Seq<FaultId>,
    run: Seq<S>,
    n: nat,
    pk: (Seq<char>, Seq<char>),
)
    requires
        resets_in_turn(stored, path, what, keys, ids, run),
        run[0].stored() == stored,
        n <= keys.len(),
        pk.0 != path,
    ensures
        run[n as int].stored().contains_key(pk) == stored.contains_key(pk),
        stored.contains_key(pk) ==> run[n as int].stored()[pk] == stored[pk],
    decreases n,
{
    if n > 0 {
        let m = n - 1;
        lemma_resets_stay_at_path(stored, path, what, keys, ids, run, m as nat, pk);
        assert(key_decodes(keys[m], Ok(ids[m])));
        assert(run[m + 1].stored() == stored_if_writable(
            run[m],
            path,
            storage_key(ids[m]),
            what.applied(stored[(path, keys[m])]),
        ));
    }
}

/// With canonical keys no entry comes or goes. The states of the first `n` keys are reset
/// as far as they can be written, the others are as they were.
proof fn lemma_canonical_resets<S: SovdFaultStateStorage>(
    stored: StoredStates,
    path: Seq<char>,
    what: FlagReset,
    keys: Seq<Seq<char>>,
    ids: Seq<FaultId>,
    run: Seq<S>,
    n: nat,
)
    requires
        lists_path(stored, path, keys),
        resets_in_turn(stored, path, what, keys, ids, run),
        canonical(stored, path),
        run[0].stored() == stored,
        n <= keys.len(),
    ensures
        run[n as int].stored().dom() == stored.dom(),
        forall|j: int|
            0 <= j < n ==> run[n as int].stored()[(path, #[trigger] keys[j])] == stored[(
                path,
                keys[j],
            )] || run[n as int].stored()[(path, keys[j])] == what.applied(stored[(path, keys[j])]),
        reset_writable::<S>(stored, path, what) ==> forall|j: int|
            0 <= j < n ==> run[n as int].stored()[(path, #[trigger] keys[j])] == what.applied(
                stored[(path, keys[j])],
            ),
        forall|j: int|
            n <= j < keys.len() ==> run[n as int].stored()[(path, #[trigger] keys[j])] == stored[(
                path,
                keys[j],
            )],
    decreases n,
{
    if n > 0 {
        let m = n - 1;
        lemma_canonical_resets(stored, path, what, keys, ids, run, m as nat);
        let k = keys[m];
        assert(stored.contains_key((path, k)));
        assert(key_decodes(k, Ok(ids[m])));
        assert(storage_key(ids[m]) == k);
        assert(run[n as int].stored().dom() =~= stored.dom());
        assert(reset_writable::<S>(stored, path, what) ==> run[m].writable(
            path,
            k,
            what.applied(stored[(path, k)]),
        ));
    }
}

/// What resetting flags at a path does to the stored states: if the states can be listed,
/// each is stored again with its flags reset, in some order. Other paths are left
/// alone, and what can be listed stays so. If the keys are canonical no entry comes or
/// goes, and each state is either reset or, if it could not be read or written, left
/// alone; all are reset if reading and writing work.
pub open spec fn flags_reset<S: SovdFaultStateStorage>(
    before: S,
    after: S,
    path: Seq<char>,
    what: FlagReset,
) -> bool {
    &&& forall|pk: (Seq<char>, Seq<char>)|
        pk.0 != path ==> #[trigger] after.stored().contains_key(pk)
            == before.stored().contains_key(pk) && (before.stored().contains_key(pk)
            ==> after.stored()[pk] == before.stored()[pk])
    &&& forall|p: Seq<char>, k: Seq<char>|
        p != path ==> #[trigger] after.readable(p, k) == before.readable(p, k)
    &&& forall|p: Seq<char>| p != path ==> #[trigger] after.listable(p) == before.listable(p)
    &&& before.listable(path) == after.listable(path)
    &&& !before.listable(path) ==> after == before
    &&& before.listable(path) ==> exists|keys: Seq<Seq<char>>, ids: Seq<FaultId>, run: Seq<S>|
        lists_path(before.stored(), path, keys) && #[trigger] resets_in_turn(
            before.stored(),
            path,
            what,
            keys,
            ids,
            run,
        ) && run.first() == before && run.last() == after
    &&& canonical(before.stored(), path) ==> {
        &&& after.stored().dom() == before.stored().dom()
        &&& forall|k: Seq<char>| #[trigger]
            before.stored().contains_key((path, k)) ==> after.stored()[(path, k)]
                == before.stored()[(path, k)] || after.stored()[(path, k)] == what.applied(
                before.stored()[(path, k)],
            )
        &&& before.listable(path) && reset_writable::<S>(before.stored(), path, what) ==> forall|
            k: Seq<char>,
        | #[trigger]
            before.stored().contains_key((path, k)) ==> after.stored()[(path, k)] == what.applied(
                before.stored()[(path, k)],
            )
    }
}

/// Processes fault records of all sources.
#[derive(Debug)]
pub struct FaultRecordProcessor {
    catalog_registry: Arc<FaultCatalogRegistry>,
    debouncers: AssocMap<FaultKey, Debouncer>,
    last_stages: AssocMap<FaultKey, LifecycleStage>,
    aging_manager: AgingManager,
    aging_states: AssocMap<FaultKey, AgingState>,
}

impl View for FaultRecordProcessor {
    type V = ProcessorView;

    closed spec fn view(&self) -> ProcessorView {
        ProcessorView {
            debouncers: self.debouncers@.map_values(|d: Debouncer| d.model()),
            last_stages: self.last_stages@,
            aging: self.aging_states@.map_values(|a: AgingState| a@),
        }
    }
}

/// Environment data of a record as texts.
pub fn env_data_texts(entries: &MetadataVec) -> (r: SovdEnvData)
    ensures
        text_map(r@) == env_texts(entries@),
{
    let mut out: SovdEnvData = AssocMap::new();
    let n: usize = entries.len();
    let mut i: usize = 0;
    assert(entries@.take(0) =~= seq![]);
    assert(text_map(out@) =~= Map::empty());
    while i < n
        invariant
            i <= n,
            n == entries@.len(),
            text_map(out@) == env_texts(entries@.take(i as int)),
        decreases n - i,
    {
        let entry: (ShortString, ShortString) = entries.at(i);
        let name = entry.0.to_string();
        let value = entry.1.to_string();
        let ghost before = out@;
        let ghost next = entries@.take(i + 1);
        assert(next.drop_last() =~= entries@.take(i as int));
        out.insert(name, value);
        assert(text_map(out@) =~= text_map(before).insert(name@, value@));
        i += 1;
    }
    assert(entries@.take(i as int) =~= entries@);
    out
}

impl FaultRecordProcessor {
    /// The known catalogs.
    pub closed spec fn catalogs(self) -> Map<Seq<char>, FaultCatalog> {
        self.catalog_registry@
    }

    /// A processor that has seen no record.
    pub fn new(catalog_registry: Arc<FaultCatalogRegistry>) -> (r: Self)
        ensures
            r.catalogs() == catalog_registry@,
            r@ == (ProcessorView {
                debouncers: Map::empty(),
                last_stages: Map::empty(),
                aging: Map::empty(),
            }),
    {
        let r = FaultRecordProcessor {
            catalog_registry,
            debouncers: AssocMap::new(),
            last_stages: AssocMap::new(),
            aging_manager: AgingManager::new(),
            aging_states: AssocMap::new(),
        };
        assert(r@.debouncers =~= Map::empty());
        assert(r@.aging =~= Map::empty());
        r
    }

    /// The description of a fault of an entity.
    fn describe(&self, source: &str, fault_id: &FaultId) -> (r: Option<FaultDescriptor>)
        ensures
            r == described(self.catalogs(), source@, *fault_id),
    {
        match self.catalog_registry.get(source) {
            Some(catalog) => match catalog.descriptor(fault_id) {
                Some(d) => Some(*d),
                None => None,
            },
            None => None,
        }
    }

    /// Processes a record that came from the entity at `path`. `now` is the time on
    /// the monotonic clock, `now_secs` the time of day in seconds since the Unix
    /// epoch.
    #[verifier::rlimit(30)]
    pub fn process_record<S: SovdFaultStateStorage>(
        &mut self,
        storage: &mut S,
        cycle_tracker: &OperationCycleTracker,
        path: &LongString,
        record: &FaultRecord,
        now: u128,
        now_secs: u64,
    )
        ensures
            final(self).catalogs() == old(self).catalogs(),
            processes_record(
                old(self).catalogs(),
                old(self)@,
                final(self)@,
                old(storage),
                final(storage),
                cycle_tracker@,
                escaped(path@),
                *record,
                now,
                now_secs,
            ),
    {
        let path_str = path.to_string();
        let key = FaultKey::new(path_str.as_str(), &record.id);
        let stage: LifecycleStage = record.lifecycle_stage;
        let ghost start = self@;
        let ghost p = escaped(path@);
        let ghost d = described(self.catalogs(), p, record.id);

        self.handle_lifecycle_transition(&key, stage, now);
        self.last_stages.insert(key.clone(), stage);
        let ghost staged = self@;
        let admitted: bool = self.check_debounce(&key, now);
        proof {
            assert(staged.last_stages == start.last_stages.insert(key@, stage));
            assert(admitted == start.admits(key@, stage, d, now));
            assert(self@.debouncers =~= start.filtered(key@, stage, d, now).debouncers);
            assert(self@ == start.filtered(key@, stage, d, now));
        }
        if !admitted {
            return;
        }
        let mut state: SovdFaultState = match storage.get(path_str.as_str(), &record.id) {
            Ok(Some(s)) => s,
            Ok(None) => SovdFaultState::default(),
            Err(_) => SovdFaultState::default(),
        };
        let ghost s = known_state(storage, p, record.id);
        assert(state@ == s);
        let descriptor: Option<FaultDescriptor> = self.describe(key.source.as_str(), &record.id);
        let reset_policy: Option<ResetPolicy> = Self::reset_policy(&descriptor);
        let warning: bool = Self::is_warning_indicator_relevant(&descriptor);
        match stage {
            LifecycleStage::Failed => {
                state.test_failed = true;
                state.confirmed_dtc = true;
                state.pending_dtc = false;
                state.test_failed_this_operation_cycle = true;
                state.test_failed_since_last_clear = true;
                if warning {
                    state.warning_indicator_requested = true;
                }
                state.record_occurrence(now_secs);
                self.mark_aging_active(&key, cycle_tracker, now);
            },
            LifecycleStage::Passed => {
                state.test_failed = false;
                state.pending_dtc = false;
                if reset_policy.is_none() {
                    state.confirmed_dtc = false;
                }
            },
            LifecycleStage::PreFailed => {
                state.test_failed = true;
                state.pending_dtc = true;
                state.test_failed_this_operation_cycle = true;
                state.test_failed_since_last_clear = true;
                if warning {
                    state.warning_indicator_requested = true;
                }
                state.record_occurrence(now_secs);
                self.mark_aging_active(&key, cycle_tracker, now);
            },
            LifecycleStage::PrePassed => {
                state.test_failed = false;
                state.pending_dtc = false;
            },
            LifecycleStage::NotTested => {
                state.test_not_completed_this_operation_cycle = true;
                state.test_not_completed_since_last_clear = true;
            },
        }
        assert(state@ == after_stage(s, stage, d, now_secs));
        assert(self@.aging == start.aging_before_reset(key@, stage, cycle_tracker@, now));
        self.age(&key, &reset_policy, &mut state, cycle_tracker, now);
        let failure: bool = match stage {
            LifecycleStage::Failed | LifecycleStage::PreFailed => true,
            _ => false,
        };
        if failure {
            state.env_data = env_data_texts(&record.env_data);
        }
        assert(state@ == start.state_after(
            key@,
            s,
            *record,
            d,
            cycle_tracker@,
            now,
            now_secs,
        ));
        let _ = storage.put(path_str.as_str(), &record.id, state);
    }

    /// Heals the fault if its reset policy is met.
    fn age(
        &mut self,
        key: &FaultKey,
        reset_policy: &Option<ResetPolicy>,
        state: &mut SovdFaultState,
        cycle_tracker: &OperationCycleTracker,
        now: u128,
    )
        ensures
            final(self).catalogs() == old(self).catalogs(),
            final(self)@.debouncers == old(self)@.debouncers,
            final(self)@.last_stages == old(self)@.last_stages,
            ({
                let met = *reset_policy matches Some(policy) && old(self)@.aging.contains_key(key@)
                    && old(self)@.aging[key@].policy_met(policy, cycle_tracker@, now);
                &&& final(self)@.aging == (if met {
                    old(self)@.aging.insert(key@, old(self)@.aging[key@].aged_out())
                } else {
                    old(self)@.aging
                })
                &&& final(state)@ == (if met {
                    old(state)@.healed()
                } else {
                    old(state)@
                })
            }),
    {
        if let Some(policy) = reset_policy {
            if let Some(found) = self.aging_states.remove(key) {
                let mut aging_state: AgingState = found;
                if self.aging_manager.should_reset(policy, &aging_state, cycle_tracker, now) {
                    self.aging_manager.apply_reset(&mut aging_state, state);
                }
                self.aging_states.insert(key.clone(), aging_state);
            }
        }
        assert(self@.aging =~= (if *reset_policy is Some && old(self)@.aging.contains_key(key@)
            && old(self)@.aging[key@].policy_met(reset_policy->0, cycle_tracker@, now) {
            old(self)@.aging.insert(key@, old(self)@.aging[key@].aged_out())
        } else {
            old(self)@.aging
        }));
    }

    /// Shows an event to the filter of its fault, which is made from the description
    /// when there is none yet; says whether the event passes.
    fn check_debounce(&mut self, key: &FaultKey, now: u128) -> (r: bool)
        ensures
            final(self).catalogs() == old(self).catalogs(),
            final(self)@.last_stages == old(self)@.last_stages,
            final(self)@.aging == old(self)@.aging,
            ({
                let d = described(old(self).catalogs(), key@.0, key@.1);
                let filter = if old(self)@.debouncers.contains_key(key@) {
                    Some(old(self)@.debouncers[key@])
                } else {
                    match d {
                        Some(d) => match d.manager_side_debounce {
                            Some(mode) => Some(DebounceModel::initial(mode)),
                            None => None,
                        },
                        None => None,
                    }
                };
                match filter {
                    Some(f) => r == f.passes(now) && final(self)@.debouncers == old(self)@.debouncers.insert(key@, f.after_event(now)),
                    None => r && final(self)@.debouncers == old(self)@.debouncers,
                }
            }),
    {
        match self.get_or_create_debouncer(key) {
            Some(found) => {
                let mut debouncer: Debouncer = found;
                let passes: bool = debouncer.on_event(now);
                let ghost model = debouncer.model();
                let ghost others = self@.debouncers;
                self.debouncers.insert(key.clone(), debouncer);
                assert(self@.debouncers =~= others.insert(key@, model));
                assert(self@.debouncers =~= old(self)@.debouncers.insert(key@, model));
                passes
            },
            None => {
                assert(self@.debouncers =~= old(self)@.debouncers);
                true
            },
        }
    }

    /// Takes the filter of a fault out of the map, or makes a new one from the
    /// description. The map is left without one.
    fn get_or_create_debouncer(&mut self, key: &FaultKey) -> (r: Option<Debouncer>)
        ensures
            final(self).catalogs() == old(self).catalogs(),
            final(self)@.last_stages == old(self)@.last_stages,
            final(self)@.aging == old(self)@.aging,
            final(self)@.debouncers == old(self)@.debouncers.remove(key@),
            ({
                let d = described(old(self).catalogs(), key@.0, key@.1);
                match r {
                    Some(f) => if old(self)@.debouncers.contains_key(key@) {
                        f.model() == old(self)@.debouncers[key@]
                    } else {
                        d is Some && d->0.manager_side_debounce is Some && f.model()
                            == DebounceModel::initial(d->0.manager_side_debounce->0)
                    },
                    None => !old(self)@.debouncers.contains_key(key@) && (d is None
                        || d->0.manager_side_debounce is None),
                }
            }),
    {
        let found = self.debouncers.remove(key);
        assert(self@.debouncers =~= old(self)@.debouncers.remove(key@));
        if let Some(d) = found {
            return Some(d);
        }
        match self.describe(key.source.as_str(), &key.fault_id) {
            Some(descriptor) => match descriptor.manager_side_debounce {
                Some(mode) => Some(mode.into_debouncer()),
                None => None,
            },
            None => None,
        }
    }

    /// Starts the filter of a fault anew when the fault had cleared and occurs again.
    fn handle_lifecycle_transition(
        &mut self,
        key: &FaultKey,
        new_stage: LifecycleStage,
        now: u128,
    )
        ensures
            final(self).catalogs() == old(self).catalogs(),
            final(self)@.last_stages == old(self)@.last_stages,
            final(self)@.aging == old(self)@.aging,
            final(self)@.debouncers == (if old(self)@.last_stages.contains_key(key@)
                && restarts_filter(old(self)@.last_stages[key@], new_stage) && old(self)@.debouncers.contains_key(key@) {
                old(self)@.debouncers.insert(key@, old(self)@.debouncers[key@].after_reset(now))
            } else {
                old(self)@.debouncers
            }),
    {
        let restart: bool = match self.last_stages.get(key) {
            Some(last) => Self::should_reset_debounce(*last, new_stage),
            None => false,
        };
        if restart {
            if let Some(found) = self.debouncers.remove(key) {
                let mut debouncer: Debouncer = found;
                debouncer.reset(now);
                self.debouncers.insert(key.clone(), debouncer);
            }
        }
        assert(self@.debouncers =~= (if old(self)@.last_stages.contains_key(key@)
            && restarts_filter(old(self)@.last_stages[key@], new_stage) && old(self)@.debouncers.contains_key(key@) {
            old(self)@.debouncers.insert(key@, old(self)@.debouncers[key@].after_reset(now))
        } else {
            old(self)@.debouncers
        }));
    }

    /// Whether going from one stage to another starts the filter anew.
    pub fn should_reset_debounce(last: LifecycleStage, new: LifecycleStage) -> (r: bool)
        ensures
            r == restarts_filter(last, new),
    {
        match (last, new) {
            (LifecycleStage::Passed, LifecycleStage::Failed) => true,
            (LifecycleStage::NotTested, LifecycleStage::Failed) => true,
            (LifecycleStage::Passed, LifecycleStage::PreFailed) => true,
            _ => false,
        }
    }

    /// Notes that a fault is active.
    fn mark_aging_active(
        &mut self,
        key: &FaultKey,
        cycle_tracker: &OperationCycleTracker,
        now: u128,
    )
        ensures
            final(self).catalogs() == old(self).catalogs(),
            final(self)@.debouncers == old(self)@.debouncers,
            final(self)@.last_stages == old(self)@.last_stages,
            ({
                let known = if old(self)@.aging.contains_key(key@) {
                    old(self)@.aging[key@]
                } else {
                    AgingView::fresh(now)
                };
                final(self)@.aging == old(self)@.aging.insert(
                    key@,
                    known.activated(cycle_tracker@, now),
                )
            }),
    {
        let mut aging_state: AgingState = match self.aging_states.remove(key) {
            Some(a) => a,
            None => AgingState::new(now),
        };
        aging_state.mark_active(cycle_tracker, now);
        let ghost view = aging_state@;
        self.aging_states.insert(key.clone(), aging_state);
        assert(self@.aging =~= old(self)@.aging.insert(key@, view));
    }

    /// Whether a description asks for a warning lamp.
    fn is_warning_indicator_relevant(descriptor: &Option<FaultDescriptor>) -> (r: bool)
        ensures
            r == asks_for_warning(*descriptor),
    {
        match descriptor {
            Some(d) => {
                let n: usize = d.compliance.len();
                let mut i: usize = 0;
                while i < n
                    invariant
                        i <= n,
                        n == d.compliance@.len(),
                        *descriptor == Some(*d),
                        forall|j: int|
                            0 <= j < i ==> (#[trigger] d.compliance@[j])
                                != ComplianceTag::SafetyCritical && d.compliance@[j]
                                != ComplianceTag::EmissionRelevant,
                    decreases n - i,
                {
                    let tag: ComplianceTag = d.compliance.at(i);
                    if tag == ComplianceTag::SafetyCritical || tag
                        == ComplianceTag::EmissionRelevant {
                        assert(d.compliance@[i as int] == tag);
                        return true;
                    }
                    i += 1;
                }
                false
            },
            None => false,
        }
    }

    /// The reset policy of a description.
    fn reset_policy(descriptor: &Option<FaultDescriptor>) -> (r: Option<ResetPolicy>)
        ensures
            r == policy_of(*descriptor),
    {
        match descriptor {
            Some(d) => d.manager_side_reset,
            None => None,
        }
    }

    /// Resets flags of every fault stored under a path.
    fn reset_flags<S: SovdFaultStateStorage>(storage: &mut S, path: &str, what: FlagReset)
        ensures
            flags_reset(*old(storage), *final(storage), path@, what),
    {
        let ghost before = storage.stored();
        let all = match storage.get_all(path) {
            Ok(all) => all,
            Err(_) => {
                return ;
            },
        };
        let ghost keys = choose|keys: Seq<Seq<char>>| #[trigger]
            lists_path(before, path@, keys) && reads_keys(before, path@, keys, all@);
        let ghost ids = Seq::new(keys.len(), |j: int| all@[j].0);
        let ghost mut run: Seq<S> = seq![*storage];
        let n: usize = all.len();
        let mut i: usize = 0;
        while i < n
            invariant
                i <= n,
                n == all@.len(),
                before == old(storage).stored(),
                ids == Seq::new(keys.len(), |j: int| all@[j].0),
                run.len() == i + 1,
                run.first() == *old(storage),
                run.last() == *storage,
                resets_in_turn(
                    before,
                    path@,
                    what,
                    keys.take(i as int),
                    ids.take(i as int),
                    run,
                ),
                lists_path(before, path@, keys),
                reads_keys(before, path@, keys, all@),
                forall|p: Seq<char>, k: Seq<char>|
                    p != path@ ==> #[trigger] storage.readable(p, k) == old(storage).readable(p, k),
                forall|p: Seq<char>|
                    p != path@ ==> #[trigger] storage.listable(p) == old(storage).listable(p),
                storage.listable(path@),
            decreases n - i,
        {
            let id: FaultId = all[i].0;
            let mut state: SovdFaultState = all[i].1.clone();
            match what {
                FlagReset::SinceLastClear => {
                    state.test_failed_since_last_clear = false;
                    state.test_not_completed_since_last_clear = false;
                },
                FlagReset::ThisOperationCycle => {
                    state.test_failed_this_operation_cycle = false;
                    state.test_not_completed_this_operation_cycle = false;
                },
            }
            let ghost k = keys[i as int];
            assert(key_decodes(k, Ok(id)));
            assert(state@ == what.applied(before[(path@, k)]));
            let ghost last = *storage;
            let ghost written = state@;
            let _ = storage.put(path, &id, state);
            proof {
                assert(storage.stored() == stored_if_writable(
                    last,
                    path@,
                    storage_key(id),
                    written,
                ));
                lemma_one_more_reset(before, path@, what, keys, ids, run, *storage, i as int);
                run = run.push(*storage);
            }
            i += 1;
        }
        proof {
            assert(keys.take(i as int) =~= keys);
            assert(ids.take(i as int) =~= ids);
            assert forall|pk: (Seq<char>, Seq<char>)| pk.0 != path@ implies #[trigger]
                run.last().stored().contains_key(pk) == before.contains_key(pk) && (
            before.contains_key(pk) ==> run.last().stored()[pk] == before[pk]) by {
                lemma_resets_stay_at_path(before, path@, what, keys, ids, run, keys.len(), pk);
            }
            if canonical(before, path@) {
                lemma_canonical_resets(before, path@, what, keys, ids, run, keys.len());
                assert forall|k: Seq<char>| #[trigger] before.contains_key((path@, k)) implies (
                storage.stored()[(path@, k)] == before[(path@, k)] || storage.stored()[(path@, k)]
                    == what.applied(before[(path@, k)])) && (reset_writable::<S>(before, path@, what)
                    ==> storage.stored()[(path@, k)] == what.applied(before[(path@, k)])) by {
                    let j = choose|j: int| 0 <= j < keys.len() && keys[j] == k;
                    assert(keys[j] == k);
                }
            }
        }
    }

    /// Carries out a clear command of a tool: resets the flags that count since the
    /// last clear, for every fault stored under the path.
    pub fn clear_dtc<S: SovdFaultStateStorage>(&self, storage: &mut S, path: &str)
        ensures
            flags_reset(*old(storage), *final(storage), path@, FlagReset::SinceLastClear),
    {
        Self::reset_flags(storage, path, FlagReset::SinceLastClear);
    }

    /// Begins a new operation cycle: resets the flags that count within the cycle, for
    /// every fault stored under the path.
    pub fn on_new_operation_cycle<S: SovdFaultStateStorage>(&self, storage: &mut S, path: &str)
        ensures
            flags_reset(*old(storage), *final(storage), path@, FlagReset::ThisOperationCycle),
    {
        Self::reset_flags(storage, path, FlagReset::ThisOperationCycle);
    }

    /// The reset policy of a fault of an entity.
    pub fn lookup_reset_policy(&self, source: &str, fault_id: &FaultId) -> (r: Option<ResetPolicy>)
        ensures
            r == policy_of(described(self.catalogs(), source@, *fault_id)),
    {
        let descriptor: Option<FaultDescriptor> = self.describe(source, fault_id);
        Self::reset_policy(&descriptor)
    }

    /// Whether the hash that a reporter sent is that of the catalog at `path`.
    pub fn check_hash_sum(&self, path: &LongString, hash_sum: &Sha256Vec) -> (r: bool)
        ensures
            r == (self.catalogs().contains_key(escaped(path@)) && self.catalogs()[escaped(
                path@,
            )].hash() == hash_sum@),
    {
        let path_str = path.to_string();
        match self.catalog_registry.get(path_str.as_str()) {
            Some(catalog) => {
                let expected = catalog.config_hash();
                let n: usize = hash_sum.len();
                if expected.len() != n {
                    return false;
                }
                let mut i: usize = 0;
                while i < n
                    invariant
                        i <= n,
                        n == hash_sum@.len(),
                        n == expected@.len(),
                        expected@ == self.catalogs()[escaped(path@)].hash(),
                        forall|j: int| 0 <= j < i ==> #[trigger] expected@[j] == hash_sum@[j],
                    decreases n - i,
                {
                    if expected[i] != hash_sum.at(i) {
                        return false;
                    }
                    i += 1;
                }
                assert(expected@ =~= hash_sum@);
                true
            },
            None => false,
        }
    }
}

/// A record leaves what is remembered of every other source and fault alone.
pub proof fn law_sources_are_independent(
    v: ProcessorView,
    key: (Seq<char>, FaultId),
    other: (Seq<char>, FaultId),
    stage: LifecycleStage,
    descriptor: Option<FaultDescriptor>,
    counts: Map<Seq<char>, u64>,
    now: u128,
)
    requires
        key != other,
    ensures
        ({
            let after = v.after_record(key, stage, descriptor, counts, now);
            &&& after.debouncers.contains_key(other) == v.debouncers.contains_key(other)
            &&& v.debouncers.contains_key(other) ==> after.debouncers[other]
                == v.debouncers[other]
            &&& after.last_stages.contains_key(other) == v.last_stages.contains_key(other)
            &&& v.last_stages.contains_key(other) ==> after.last_stages[other]
                == v.last_stages[other]
            &&& after.aging.contains_key(other) == v.aging.contains_key(other)
            &&& v.aging.contains_key(other) ==> after.aging[other] == v.aging[other]
        }),
{
}

/// A record that the filter holds back changes neither the aging of its fault nor,
/// apart from the filter and the last stage, anything that is remembered.
pub proof fn law_suppressed_record_only_filters(
    v: ProcessorView,
    key: (Seq<char>, FaultId),
    stage: LifecycleStage,
    descriptor: Option<FaultDescriptor>,
    counts: Map<Seq<char>, u64>,
    now: u128,
)
    requires
        !v.admits(key, stage, descriptor, now),
    ensures
        ({
            let after = v.after_record(key, stage, descriptor, counts, now);
            &&& after.aging == v.aging
            &&& after.last_stages == v.last_stages.insert(key, stage)
        }),
{
}

/// A confirmed failure is counted, confirmed and no longer pending, unless its reset
/// policy heals it at once.
pub proof fn law_failed_confirms(
    v: ProcessorView,
    key: (Seq<char>, FaultId),
    s: FaultStateView,
    record: FaultRecord,
    descriptor: Option<FaultDescriptor>,
    counts: Map<Seq<char>, u64>,
    now: u128,
    now_secs: u64,
)
    requires
        record.lifecycle_stage == LifecycleStage::Failed,
    ensures
        ({
            let after = v.state_after(key, s, record, descriptor, counts, now, now_secs);
            &&& after.test_failed_this_operation_cycle
            &&& after.test_failed_since_last_clear
            &&& !after.pending_dtc
            &&& after.last_occurrence_secs == now_secs
            &&& s.first_occurrence_secs != 0 ==> after.first_occurrence_secs
                == s.first_occurrence_secs
            &&& s.occurrence_counter < u32::MAX ==> after.occurrence_counter
                == s.occurrence_counter + 1
            &&& after.env_data == env_texts(record.env_data@)
            &&& after.confirmed_dtc == after.test_failed
            &&& after.confirmed_dtc <==> !v.ages_out(
                key,
                LifecycleStage::Failed,
                descriptor,
                counts,
                now,
            )
        }),
{
}

/// While a fault has a reset policy that is not met, a passed test leaves it
/// confirmed; without a policy a passed test clears it.
pub proof fn law_passed_latches_confirmed(
    v: ProcessorView,
    key: (Seq<char>, FaultId),
    s: FaultStateView,
    record: FaultRecord,
    descriptor: Option<FaultDescriptor>,
    counts: Map<Seq<char>, u64>,
    now: u128,
    now_secs: u64,
)
    requires
        record.lifecycle_stage == LifecycleStage::Passed,
    ensures
        ({
            let after = v.state_after(key, s, record, descriptor, counts, now, now_secs);
            let aged = v.ages_out(key, LifecycleStage::Passed, descriptor, counts, now);
            &&& !after.test_failed
            &&& !after.pending_dtc
            &&& policy_of(descriptor) is None ==> !after.confirmed_dtc
            &&& policy_of(descriptor) is Some ==> after.confirmed_dtc == (s.confirmed_dtc && !aged)
        }),
{
}

/// Only failures are counted as occurrences and replace the environment data.
pub proof fn law_only_failures_are_recorded(
    v: ProcessorView,
    key: (Seq<char>, FaultId),
    s: FaultStateView,
    record: FaultRecord,
    descriptor: Option<FaultDescriptor>,
    counts: Map<Seq<char>, u64>,
    now: u128,
    now_secs: u64,
)
    requires
        !is_failure(record.lifecycle_stage),
    ensures
        ({
            let after = v.state_after(key, s, record, descriptor, counts, now, now_secs);
            &&& after.occurrence_counter == s.occurrence_counter
            &&& after.first_occurrence_secs == s.first_occurrence_secs
            &&& after.last_occurrence_secs == s.last_occurrence_secs
            &&& after.env_data == s.env_data
        }),
{
}

/// A fault that keeps failing does not age: an admitted failure starts the aging
/// anew, so a policy that asks for at least one cycle or some time is not met by it.
pub proof fn law_failure_restarts_aging(
    v: ProcessorView,
    key: (Seq<char>, FaultId),
    stage: LifecycleStage,
    descriptor: Option<FaultDescriptor>,
    counts: Map<Seq<char>, u64>,
    now: u128,
)
    requires
        is_failure(stage),
        v.admits(key, stage, descriptor, now),
        policy_of(descriptor) matches Some(policy) ==> match policy.trigger {
            crate::common::config::ResetTrigger::PowerCycles(n) => n > 0,
            crate::common::config::ResetTrigger::OperationCycles { min_cycles, .. } => min_cycles
                > 0,
            crate::common::config::ResetTrigger::StableFor(d) => d.total_nanos() > 0,
            crate::common::config::ResetTrigger::ToolOnly => true,
        },
    ensures
        !v.ages_out(key, stage, descriptor, counts, now),
        ({
            let after = v.after_record(key, stage, descriptor, counts, now);
            &&& after.aging.contains_key(key)
            &&& after.aging[key].cycles == counts
            &&& after.aging[key].time == now
            &&& !after.aging[key].healed
        }),
{
}

/// Resetting flags twice is resetting them once, the order of two resets does not
/// matter, and a reset leaves the confirmed, pending and failed bits, the counters, the
/// times and the environment data alone.
pub proof fn law_flag_reset_is_narrow(what: FlagReset, other: FlagReset, s: FaultStateView)
    ensures
        what.applied(what.applied(s)) == what.applied(s),
        what.applied(other.applied(s)) == other.applied(what.applied(s)),
        ({
            let t = what.applied(s);
            &&& t.test_failed == s.test_failed
            &&& t.pending_dtc == s.pending_dtc
            &&& t.confirmed_dtc == s.confirmed_dtc
            &&& t.warning_indicator_requested == s.warning_indicator_requested
            &&& t.env_data == s.env_data
            &&& t.occurrence_counter == s.occurrence_counter
            &&& t.aging_counter == s.aging_counter
            &&& t.healing_counter == s.healing_counter
            &&& t.first_occurrence_secs == s.first_occurrence_secs
            &&& t.last_occurrence_secs == s.last_occurrence_secs
        }),
{
}

/// A reset under canonical keys, where reading and writing work, resets every state under
/// its path and nothing else: no entry comes or goes, and other paths are left alone.
pub proof fn law_reset_is_complete<S: SovdFaultStateStorage>(
    before: S,
    after: S,
    path: Seq<char>,
    what: FlagReset,
)
    requires
        flags_reset(before, after, path, what),
        canonical(before.stored(), path),
        before.listable(path),
        reset_writable::<S>(before.stored(), path, what),
    ensures
        after.stored() == Map::new(
            |pk: (Seq<char>, Seq<char>)| before.stored().contains_key(pk),
            |pk: (Seq<char>, Seq<char>)|
                if pk.0 == path {
                    what.applied(before.stored()[pk])
                } else {
                    before.stored()[pk]
                },
        ),
        canonical(after.stored(), path),
{
    let all = Map::new(
        |pk: (Seq<char>, Seq<char>)| before.stored().contains_key(pk),
        |pk: (Seq<char>, Seq<char>)|
            if pk.0 == path {
                what.applied(before.stored()[pk])
            } else {
                before.stored()[pk]
            },
    );
    assert forall|pk: (Seq<char>, Seq<char>)| #[trigger]
        after.stored().contains_key(pk) == all.contains_key(pk) && (all.contains_key(pk)
            ==> after.stored()[pk] == all[pk]) by {
        assert(after.stored().dom().contains(pk) == before.stored().dom().contains(pk));
        if pk.0 == path {
            assert(pk == (path, pk.1));
        }
    }
    assert(after.stored() =~= all);
    assert forall|k: Seq<char>, id: FaultId|
        after.stored().contains_key((path, k)) && #[trigger] key_decodes(k, Ok(id)) implies
        storage_key(id) == k by {
        assert(before.stored().contains_key((path, k)));
    }
}

/// States that a key-value storage can list can be stored again with their flags reset.
pub proof fn law_listed_states_can_be_reset(
    storage: KvsSovdFaultStateStorage,
    path: Seq<char>,
    what: FlagReset,
)
    requires
        storage.listable(path),
    ensures
        reset_writable::<KvsSovdFaultStateStorage>(storage.stored(), path, what),
{
    assert forall|t: KvsSovdFaultStateStorage, k: Seq<char>|
        storage.stored().contains_key((path, k)) implies #[trigger] t.writable(
        path,
        k,
        what.applied(storage.stored()[(path, k)]),
    ) by {
        storage.lemma_stored(path, k);
        assert(storage.values().contains_key((path, k)));
    }
}

/// Clearing the trouble codes of an entity a second time changes nothing, and neither does
/// beginning an operation cycle twice. This holds under canonical keys, where reading and
/// writing work.
pub proof fn law_second_reset_changes_nothing<S: SovdFaultStateStorage>(
    before: S,
    once: S,
    twice: S,
    path: Seq<char>,
    what: FlagReset,
)
    requires
        flags_reset(before, once, path, what),
        flags_reset(once, twice, path, what),
        canonical(before.stored(), path),
        before.listable(path),
        reset_writable::<S>(before.stored(), path, what),
    ensures
        twice.stored() == once.stored(),
{
    law_reset_is_complete(before, once, path, what);
    assert forall|pk: (Seq<char>, Seq<char>)| #[trigger]
        twice.stored().contains_key(pk) == once.stored().contains_key(pk) && (
    once.stored().contains_key(pk) ==> twice.stored()[pk] == once.stored()[pk]) by {
        assert(twice.stored().dom().contains(pk) == once.stored().dom().contains(pk));
        if pk.0 == path && once.stored().contains_key(pk) {
            assert(pk == (path, pk.1));
            law_flag_reset_is_narrow(what, what, before.stored()[pk]);
        }
    }
    assert(twice.stored() =~= once.stored());
}

/// Clearing the trouble codes of an entity and beginning an operation cycle give the same
/// states in either order. This holds under canonical keys, where reading and writing
/// work.
pub proof fn law_resets_commute<S: SovdFaultStateStorage>(
    before: S,
    cleared: S,
    cleared_begun: S,
    begun: S,
    begun_cleared: S,
    path: Seq<char>,
)
    requires
        flags_reset(before, cleared, path, FlagReset::SinceLastClear),
        flags_reset(cleared, cleared_begun, path, FlagReset::ThisOperationCycle),
        flags_reset(before, begun, path, FlagReset::ThisOperationCycle),
        flags_reset(begun, begun_cleared, path, FlagReset::SinceLastClear),
        canonical(before.stored(), path),
        before.listable(path),
        reset_writable::<S>(before.stored(), path, FlagReset::SinceLastClear),
        reset_writable::<S>(cleared.stored(), path, FlagReset::ThisOperationCycle),
        reset_writable::<S>(before.stored(), path, FlagReset::ThisOperationCycle),
        reset_writable::<S>(begun.stored(), path, FlagReset::SinceLastClear),
    ensures
        cleared_begun.stored() == begun_cleared.stored(),
{
    let (clear, cycle) = (FlagReset::SinceLastClear, FlagReset::ThisOperationCycle);
    law_reset_is_complete(before, cleared, path, clear);
    law_reset_is_complete(cleared, cleared_begun, path, cycle);
    law_reset_is_complete(before, begun, path, cycle);
    law_reset_is_complete(begun, begun_cleared, path, clear);
    assert forall|pk: (Seq<char>, Seq<char>)| #[trigger]
        cleared_begun.stored().contains_key(pk) == begun_cleared.stored().contains_key(pk) && (
    begun_cleared.stored().contains_key(pk) ==> cleared_begun.stored()[pk]
        == begun_cleared.stored()[pk]) by {
        law_flag_reset_is_narrow(clear, cycle, before.stored()[pk]);
    }
    assert(cleared_begun.stored() =~= begun_cleared.stored());
}

/// Keys stay canonical when the state of a fault is stored.
pub proof fn law_storing_keeps_keys_canonical(
    stored: StoredStates,
    path: Seq<char>,
    id: FaultId,
    s: FaultStateView,
)
    requires
        canonical(stored, path),
        id.wf(),
    ensures
        canonical(stored.insert((path, storage_key(id)), s), path),
{
    let after = stored.insert((path, storage_key(id)), s);
    assert forall|k: Seq<char>, found: FaultId|
        after.contains_key((path, k)) && #[trigger] key_decodes(k, Ok(found)) implies storage_key(
        found,
    ) == k by {
        if k == storage_key(id) {
            law_fault_id_key_round_trip(id, Ok(found));
        }
    }
}

/// A confirmed failure that is admitted is stored as failed and confirmed and no longer as
/// pending, in this cycle and since the last clear. It is counted, its time and its
/// environment are kept, and a fault tagged as safety critical or emission relevant asks
/// for a warning. A fault that ages out with the record is stored as healed.
pub proof fn law_failed_record_is_stored<S: SovdFaultStateStorage>(
    catalogs: Map<Seq<char>, FaultCatalog>,
    before: ProcessorView,
    after: ProcessorView,
    storage_before: S,
    storage_after: S,
    counts: Map<Seq<char>, u64>,
    path: Seq<char>,
    record: FaultRecord,
    now: u128,
    now_secs: u64,
)
    requires
        processes_record(
            catalogs,
            before,
            after,
            &storage_before,
            &storage_after,
            counts,
            path,
            record,
            now,
            now_secs,
        ),
        record.lifecycle_stage == LifecycleStage::Failed,
        ({
            let key = (path, record.id);
            let d = described(catalogs, path, record.id);
            let s = known_state(&storage_before, path, record.id);
            &&& before.admits(key, record.lifecycle_stage, d, now)
            &&& storage_before.writable(
                path,
                storage_key(record.id),
                before.state_after(key, s, record, d, counts, now, now_secs),
            )
        }),
    ensures
        ({
            let d = described(catalogs, path, record.id);
            let s = known_state(&storage_before, path, record.id);
            let aged = before.ages_out((path, record.id), record.lifecycle_stage, d, counts, now);
            let t = storage_after.stored()[(path, storage_key(record.id))];
            &&& storage_after.stored().contains_key((path, storage_key(record.id)))
            &&& storage_after.readable(path, storage_key(record.id))
            &&& t.test_failed == !aged
            &&& t.confirmed_dtc == !aged
            &&& !t.pending_dtc
            &&& t.test_failed_this_operation_cycle
            &&& t.test_failed_since_last_clear
            &&& t.test_not_completed_this_operation_cycle == s.test_not_completed_this_operation_cycle
            &&& t.test_not_completed_since_last_clear == s.test_not_completed_since_last_clear
            &&& t.warning_indicator_requested <==> !aged && (s.warning_indicator_requested || (
            d matches Some(x) && (x.compliance@.contains(ComplianceTag::SafetyCritical)
                || x.compliance@.contains(ComplianceTag::EmissionRelevant))))
            &&& s.occurrence_counter < u32::MAX ==> t.occurrence_counter == s.occurrence_counter + 1
            &&& s.occurrence_counter == u32::MAX ==> t.occurrence_counter == u32::MAX
            &&& s.first_occurrence_secs == 0 ==> t.first_occurrence_secs == now_secs
            &&& s.first_occurrence_secs != 0 ==> t.first_occurrence_secs == s.first_occurrence_secs
            &&& t.last_occurrence_secs == now_secs
            &&& t.env_data == env_texts(record.env_data@)
            &&& !aged ==> t.aging_counter == s.aging_counter && t.healing_counter
                == s.healing_counter
            &&& aged && s.aging_counter < u32::MAX ==> t.aging_counter == s.aging_counter + 1
            &&& aged && s.healing_counter < u32::MAX ==> t.healing_counter == s.healing_counter + 1
        }),
{
    lemma_warning_tags(described(catalogs, path, record.id));
}

/// An unconfirmed failure that is admitted is stored as failed and pending, in this cycle
/// and since the last clear; whether the fault is confirmed stays as it was. It is counted,
/// its time and its environment are kept, and a fault tagged as safety critical or
/// emission relevant asks for a warning. A fault that ages out with the record is stored
/// as healed.
pub proof fn law_prefailed_record_is_stored<S: SovdFaultStateStorage>(
    catalogs: Map<Seq<char>, FaultCatalog>,
    before: ProcessorView,
    after: ProcessorView,
    storage_before: S,
    storage_after: S,
    counts: Map<Seq<char>, u64>,
    path: Seq<char>,
    record: FaultRecord,
    now: u128,
    now_secs: u64,
)
    requires
        processes_record(
            catalogs,
            before,
            after,
            &storage_before,
            &storage_after,
            counts,
            path,
            record,
            now,
            now_secs,
        ),
        record.lifecycle_stage == LifecycleStage::PreFailed,
        ({
            let key = (path, record.id);
            let d = described(catalogs, path, record.id);
            let s = known_state(&storage_before, path, record.id);
            &&& before.admits(key, record.lifecycle_stage, d, now)
            &&& storage_before.writable(
                path,
                storage_key(record.id),
                before.state_after(key, s, record, d, counts, now, now_secs),
            )
        }),
    ensures
        ({
            let d = described(catalogs, path, record.id);
            let s = known_state(&storage_before, path, record.id);
            let aged = before.ages_out((path, record.id), record.lifecycle_stage, d, counts, now);
            let t = storage_after.stored()[(path, storage_key(record.id))];
            &&& storage_after.stored().contains_key((path, storage_key(record.id)))
            &&& storage_after.readable(path, storage_key(record.id))
            &&& t.test_failed == !aged
            &&& t.confirmed_dtc == (s.confirmed_dtc && !aged)
            &&& t.pending_dtc == !aged
            &&& t.test_failed_this_operation_cycle
            &&& t.test_failed_since_last_clear
            &&& t.test_not_completed_this_operation_cycle == s.test_not_completed_this_operation_cycle
            &&& t.test_not_completed_since_last_clear == s.test_not_completed_since_last_clear
            &&& t.warning_indicator_requested <==> !aged && (s.warning_indicator_requested || (
            d matches Some(x) && (x.compliance@.contains(ComplianceTag::SafetyCritical)
                || x.compliance@.contains(ComplianceTag::EmissionRelevant))))
            &&& s.occurrence_counter < u32::MAX ==> t.occurrence_counter == s.occurrence_counter + 1
            &&& s.occurrence_counter == u32::MAX ==> t.occurrence_counter == u32::MAX
            &&& s.first_occurrence_secs == 0 ==> t.first_occurrence_secs == now_secs
            &&& s.first_occurrence_secs != 0 ==> t.first_occurrence_secs == s.first_occurrence_secs
            &&& t.last_occurrence_secs == now_secs
            &&& t.env_data == env_texts(record.env_data@)
            &&& !aged ==> t.aging_counter == s.aging_counter && t.healing_counter
                == s.healing_counter
            &&& aged && s.aging_counter < u32::MAX ==> t.aging_counter == s.aging_counter + 1
            &&& aged && s.healing_counter < u32::MAX ==> t.healing_counter == s.healing_counter + 1
        }),
{
    lemma_warning_tags(described(catalogs, path, record.id));
}

/// A passed test that is admitted ends that the fault is failed and pending. With a reset
/// policy the fault stays confirmed until it ages out, without one it is no longer
/// confirmed. The warning stays until the fault ages out. All else stays.
pub proof fn law_passed_record_is_stored<S: SovdFaultStateStorage>(
    catalogs: Map<Seq<char>, FaultCatalog>,
    before: ProcessorView,
    after: ProcessorView,
    storage_before: S,
    storage_after: S,
    counts: Map<Seq<char>, u64>,
    path: Seq<char>,
    record: FaultRecord,
    now: u128,
    now_secs: u64,
)
    requires
        processes_record(
            catalogs,
            before,
            after,
            &storage_before,
            &storage_after,
            counts,
            path,
            record,
            now,
            now_secs,
        ),
        record.lifecycle_stage == LifecycleStage::Passed,
        ({
            let key = (path, record.id);
            let d = described(catalogs, path, record.id);
            let s = known_state(&storage_before, path, record.id);
            &&& before.admits(key, record.lifecycle_stage, d, now)
            &&& storage_before.writable(
                path,
                storage_key(record.id),
                before.state_after(key, s, record, d, counts, now, now_secs),
            )
        }),
    ensures
        ({
            let d = described(catalogs, path, record.id);
            let s = known_state(&storage_before, path, record.id);
            let aged = before.ages_out((path, record.id), record.lifecycle_stage, d, counts, now);
            let t = storage_after.stored()[(path, storage_key(record.id))];
            &&& storage_after.stored().contains_key((path, storage_key(record.id)))
            &&& storage_after.readable(path, storage_key(record.id))
            &&& !t.test_failed
            &&& !t.pending_dtc
            &&& t.confirmed_dtc <==> s.confirmed_dtc && !aged && (d matches Some(x)
                && x.manager_side_reset is Some)
            &&& t.warning_indicator_requested == (s.warning_indicator_requested && !aged)
            &&& t.test_failed_this_operation_cycle == s.test_failed_this_operation_cycle
            &&& t.test_failed_since_last_clear == s.test_failed_since_last_clear
            &&& t.test_not_completed_this_operation_cycle == s.test_not_completed_this_operation_cycle
            &&& t.test_not_completed_since_last_clear == s.test_not_completed_since_last_clear
            &&& t.occurrence_counter == s.occurrence_counter
            &&& t.first_occurrence_secs == s.first_occurrence_secs
            &&& t.last_occurrence_secs == s.last_occurrence_secs
            &&& t.env_data == s.env_data
            &&& !aged ==> t.aging_counter == s.aging_counter && t.healing_counter
                == s.healing_counter
            &&& aged && s.aging_counter < u32::MAX ==> t.aging_counter == s.aging_counter + 1
            &&& aged && s.healing_counter < u32::MAX ==> t.healing_counter == s.healing_counter + 1
        }),
{
}

/// A sign of recovery that is admitted ends that the fault is failed and pending, and
/// nothing else, unless the fault ages out: whether it is confirmed, the warning, the
/// flags of the cycle and those since the last clear stay as they were.
pub proof fn law_prepassed_record_is_stored<S: SovdFaultStateStorage>(
    catalogs: Map<Seq<char>, FaultCatalog>,
    before: ProcessorView,
    after: ProcessorView,
    storage_before: S,
    storage_after: S,
    counts: Map<Seq<char>, u64>,
    path: Seq<char>,
    record: FaultRecord,
    now: u128,
    now_secs: u64,
)
    requires
        processes_record(
            catalogs,
            before,
            after,
            &storage_before,
            &storage_after,
            counts,
            path,
            record,
            now,
            now_secs,
        ),
        record.lifecycle_stage == LifecycleStage::PrePassed,
        ({
            let key = (path, record.id);
            let d = described(catalogs, path, record.id);
            let s = known_state(&storage_before, path, record.id);
            &&& before.admits(key, record.lifecycle_stage, d, now)
            &&& storage_before.writable(
                path,
                storage_key(record.id),
                before.state_after(key, s, record, d, counts, now, now_secs),
            )
        }),
    ensures
        ({
            let d = described(catalogs, path, record.id);
            let s = known_state(&storage_before, path, record.id);
            let aged = before.ages_out((path, record.id), record.lifecycle_stage, d, counts, now);
            let t = storage_after.stored()[(path, storage_key(record.id))];
            &&& storage_after.stored().contains_key((path, storage_key(record.id)))
            &&& storage_after.readable(path, storage_key(record.id))
            &&& !t.test_failed
            &&& !t.pending_dtc
            &&& t.confirmed_dtc == (s.confirmed_dtc && !aged)
            &&& t.warning_indicator_requested == (s.warning_indicator_requested && !aged)
            &&& t.test_failed_this_operation_cycle == s.test_failed_this_operation_cycle
            &&& t.test_failed_since_last_clear == s.test_failed_since_last_clear
            &&& t.test_not_completed_this_operation_cycle == s.test_not_completed_this_operation_cycle
            &&& t.test_not_completed_since_last_clear == s.test_not_completed_since_last_clear
            &&& t.occurrence_counter == s.occurrence_counter
            &&& t.first_occurrence_secs == s.first_occurrence_secs
            &&& t.last_occurrence_secs == s.last_occurrence_secs
            &&& t.env_data == s.env_data
            &&& !aged ==> t.aging_counter == s.aging_counter && t.healing_counter
                == s.healing_counter
            &&& aged && s.aging_counter < u32::MAX ==> t.aging_counter == s.aging_counter + 1
            &&& aged && s.healing_counter < u32::MAX ==> t.healing_counter == s.healing_counter + 1
        }),
{
}

/// That a fault was not tested is noted for this cycle and since the last clear, and
/// changes nothing else, unless the fault ages out.
pub proof fn law_not_tested_record_is_stored<S: SovdFaultStateStorage>(
    catalogs: Map<Seq<char>, FaultCatalog>,
    before: ProcessorView,
    after: ProcessorView,
    storage_before: S,
    storage_after: S,
    counts: Map<Seq<char>, u64>,
    path: Seq<char>,
    record: FaultRecord,
    now: u128,
    now_secs: u64,
)
    requires
        processes_record(
            catalogs,
            before,
            after,
            &storage_before,
            &storage_after,
            counts,
            path,
            record,
            now,
            now_secs,
        ),
        record.lifecycle_stage == LifecycleStage::NotTested,
        ({
            let key = (path, record.id);
            let d = described(catalogs, path, record.id);
            let s = known_state(&storage_before, path, record.id);
            &&& before.admits(key, record.lifecycle_stage, d, now)
            &&& storage_before.writable(
                path,
                storage_key(record.id),
                before.state_after(key, s, record, d, counts, now, now_secs),
            )
        }),
    ensures
        ({
            let d = described(catalogs, path, record.id);
            let s = known_state(&storage_before, path, record.id);
            let aged = before.ages_out((path, record.id), record.lifecycle_stage, d, counts, now);
            let t = storage_after.stored()[(path, storage_key(record.id))];
            &&& storage_after.stored().contains_key((path, storage_key(record.id)))
            &&& storage_after.readable(path, storage_key(record.id))
            &&& t.test_not_completed_this_operation_cycle
            &&& t.test_not_completed_since_last_clear
            &&& t.test_failed == (s.test_failed && !aged)
            &&& t.pending_dtc == (s.pending_dtc && !aged)
            &&& t.confirmed_dtc == (s.confirmed_dtc && !aged)
            &&& t.warning_indicator_requested == (s.warning_indicator_requested && !aged)
            &&& t.test_failed_this_operation_cycle == s.test_failed_this_operation_cycle
            &&& t.test_failed_since_last_clear == s.test_failed_since_last_clear
            &&& t.occurrence_counter == s.occurrence_counter
            &&& t.first_occurrence_secs == s.first_occurrence_secs
            &&& t.last_occurrence_secs == s.last_occurrence_secs
            &&& t.env_data == s.env_data
            &&& !aged ==> t.aging_counter == s.aging_counter && t.healing_counter
                == s.healing_counter
            &&& aged && s.aging_counter < u32::MAX ==> t.aging_counter == s.aging_counter + 1
            &&& aged && s.healing_counter < u32::MAX ==> t.healing_counter == s.healing_counter + 1
        }),
{
}

/// A description asks for a warning exactly if it bears one of the two tags.
proof fn lemma_warning_tags(descriptor: Option<FaultDescriptor>)
    ensures
        asks_for_warning(descriptor) <==> (descriptor matches Some(x) && (x.compliance@.contains(
            ComplianceTag::SafetyCritical,
        ) || x.compliance@.contains(ComplianceTag::EmissionRelevant))),
{
    if let Some(x) = descriptor {
        if x.compliance@.contains(ComplianceTag::SafetyCritical) {
            let i = choose|i: int|
                0 <= i < x.compliance@.len() && x.compliance@[i] == ComplianceTag::SafetyCritical;
            assert(x.compliance@[i] == ComplianceTag::SafetyCritical);
        }
        if x.compliance@.contains(ComplianceTag::EmissionRelevant) {
            let i = choose|i: int|
                0 <= i < x.compliance@.len() && x.compliance@[i]
                    == ComplianceTag::EmissionRelevant;
            assert(x.compliance@[i] == ComplianceTag::EmissionRelevant);
        }
    }
}

/// A record that is held back, or whose state cannot be written, changes no stored state.
/// Any other record changes the state of its fault alone.
pub proof fn law_record_changes_one_state<S: SovdFaultStateStorage>(
    catalogs: Map<Seq<char>, FaultCatalog>,
    before: ProcessorView,
    after: ProcessorView,
    storage_before: S,
    storage_after: S,
    counts: Map<Seq<char>, u64>,
    path: Seq<char>,
    record: FaultRecord,
    now: u128,
    now_secs: u64,
    pk: (Seq<char>, Seq<char>),
)
    requires
        processes_record(
            catalogs,
            before,
            after,
            &storage_before,
            &storage_after,
            counts,
            path,
            record,
            now,
            now_secs,
        ),
    ensures
        pk != (path, storage_key(record.id)) ==> storage_after.stored().contains_key(pk)
            == storage_before.stored().contains_key(pk) && (storage_before.stored().contains_key(pk)
            ==> storage_after.stored()[pk] == storage_before.stored()[pk]),
        !before.admits(
            (path, record.id),
            record.lifecycle_stage,
            described(catalogs, path, record.id),
            now,
        ) ==> storage_after == storage_before,
        (forall|s: FaultStateView|
            !#[trigger] storage_before.writable(path, storage_key(record.id), s))
            ==> storage_after.stored() == storage_before.stored(),
        after.last_stages == before.last_stages.insert(
            (path, record.id),
            record.lifecycle_stage,
        ),
{
}

/// The description of a fault is the one in the catalog of its entity.
pub proof fn law_description_is_looked_up(
    catalogs: Map<Seq<char>, FaultCatalog>,
    path: Seq<char>,
    id: FaultId,
)
    ensures
        catalogs.contains_key(path) && catalogs[path].by_id().contains_key(id) ==> described(
            catalogs,
            path,
            id,
        ) == Some(catalogs[path].by_id()[id]),
        !catalogs.contains_key(path) || !catalogs[path].by_id().contains_key(id) ==> described(
            catalogs,
            path,
            id,
        ) is None,
        described(catalogs, path, id) matches Some(d) ==> policy_of(Some(d))
            == d.manager_side_reset,
        policy_of(None) is None,
{
}

/// A fault ages out only under a reset policy, and only if it was active: one that never
/// was does not. With a record that is no failure it ages out exactly if the policy is met
/// since its last activity.
pub proof fn law_aging_out_follows_the_policy(
    v: ProcessorView,
    key: (Seq<char>, FaultId),
    stage: LifecycleStage,
    descriptor: Option<FaultDescriptor>,
    counts: Map<Seq<char>, u64>,
    now: u128,
)
    ensures
        descriptor is None ==> !v.ages_out(key, stage, descriptor, counts, now),
        descriptor matches Some(d) && d.manager_side_reset is None ==> !v.ages_out(
            key,
            stage,
            descriptor,
            counts,
            now,
        ),
        (stage is Passed || stage is PrePassed || stage is NotTested) && !v.aging.contains_key(key)
            ==> !v.ages_out(key, stage, descriptor, counts, now),
        (stage is Passed || stage is PrePassed || stage is NotTested) && v.aging.contains_key(key)
            ==> (descriptor matches Some(d) ==> (d.manager_side_reset matches Some(policy) ==> (
        v.ages_out(key, stage, descriptor, counts, now) <==> v.aging[key].policy_met(
            policy,
            counts,
            now,
        )))),
        (stage is Failed || stage is PreFailed) ==> (descriptor matches Some(d) ==> (
        d.manager_side_reset matches Some(policy) ==> (v.ages_out(
            key,
            stage,
            descriptor,
            counts,
            now,
        ) <==> AgingView::fresh(now).activated(counts, now).policy_met(policy, counts, now)))),
{
}

/// What is remembered of the aging of a fault follows its admitted records: a failure is
/// noted as activity, aging out is noted as such, and any other record leaves it alone.
pub proof fn law_aging_follows_records(
    v: ProcessorView,
    key: (Seq<char>, FaultId),
    stage: LifecycleStage,
    descriptor: Option<FaultDescriptor>,
    counts: Map<Seq<char>, u64>,
    now: u128,
)
    requires
        v.admits(key, stage, descriptor, now),
    ensures
        ({
            let after = v.after_record(key, stage, descriptor, counts, now);
            let aged = v.ages_out(key, stage, descriptor, counts, now);
            let active = stage is Failed || stage is PreFailed;
            &&& !active && !aged ==> after.aging == v.aging
            &&& active ==> after.aging.contains_key(key) && after.aging[key].cycles == counts
                && after.aging[key].time == now && after.aging[key].healed == aged
            &&& active && v.aging.contains_key(key) && !aged ==> after.aging[key].counter
                == v.aging[key].counter
            &&& active && !v.aging.contains_key(key) && !aged ==> after.aging[key].counter == 0
            &&& !active && aged ==> after.aging[key].healed && after.aging[key].cycles
                == v.aging[key].cycles && after.aging[key].time == v.aging[key].time
            &&& aged && v.aging.contains_key(key) && v.aging[key].counter < u32::MAX
                ==> after.aging[key].counter == v.aging[key].counter + 1
        }),
{
}

/// A confirmed fault with a reset policy stays confirmed over passed tests until the policy
/// is met, counted from the failure: as many power cycles as the policy asks for at least,
/// and as many cycles or as much time as its trigger asks for. It is then healed, once.
pub proof fn law_confirmed_until_the_policy_is_met(
    v: ProcessorView,
    key: (Seq<char>, FaultId),
    s: FaultStateView,
    failed: FaultRecord,
    passed: FaultRecord,
    d: FaultDescriptor,
    policy: ResetPolicy,
    counts: Map<Seq<char>, u64>,
    later_counts: Map<Seq<char>, u64>,
    failed_at: u128,
    passed_at: u128,
    failed_secs: u64,
    passed_secs: u64,
)
    requires
        failed.lifecycle_stage == LifecycleStage::Failed,
        passed.lifecycle_stage == LifecycleStage::Passed,
        d.manager_side_reset == Some(policy),
        v.admits(key, LifecycleStage::Failed, Some(d), failed_at),
        !v.ages_out(key, LifecycleStage::Failed, Some(d), counts, failed_at),
        v.after_record(key, LifecycleStage::Failed, Some(d), counts, failed_at).admits(
            key,
            LifecycleStage::Passed,
            Some(d),
            passed_at,
        ),
    ensures
        ({
            let mid = v.after_record(key, LifecycleStage::Failed, Some(d), counts, failed_at);
            let s1 = v.state_after(key, s, failed, Some(d), counts, failed_at, failed_secs);
            let s2 = mid.state_after(
                key,
                s1,
                passed,
                Some(d),
                later_counts,
                passed_at,
                passed_secs,
            );
            let power = count_of(later_counts, "power"@) - count_of(counts, "power"@);
            let enough = policy.min_operating_cycles_before_clear matches Some(n) ==> n == 0
                || power >= n;
            let due = match policy.trigger {
                ResetTrigger::PowerCycles(n) => n == 0 || power >= n,
                ResetTrigger::OperationCycles { min_cycles, cycle_ref } => min_cycles == 0
                    || count_of(later_counts, escaped(cycle_ref@)) - count_of(
                    counts,
                    escaped(cycle_ref@),
                ) >= min_cycles,
                ResetTrigger::StableFor(t) => (t.secs == 0 && t.nanos == 0) || passed_at
                    >= failed_at + t.secs * 1_000_000_000 + t.nanos,
                ResetTrigger::ToolOnly => false,
            };
            &&& s1.confirmed_dtc
            &&& s2.confirmed_dtc <==> !(enough && due)
            &&& s1.healing_counter < u32::MAX ==> s2.healing_counter == s1.healing_counter + if enough
                && due {
                1int
            } else {
                0int
            }
        }),
{
}

/// A fault without a filter and without a described one is always admitted and stays
/// without a filter. The first record of a fault with a described filter meets a new one.
pub proof fn law_filter_is_made_from_the_description(
    v: ProcessorView,
    key: (Seq<char>, FaultId),
    stage: LifecycleStage,
    descriptor: Option<FaultDescriptor>,
    counts: Map<Seq<char>, u64>,
    now: u128,
)
    requires
        !v.debouncers.contains_key(key),
    ensures
        ({
            let after = v.after_record(key, stage, descriptor, counts, now);
            &&& descriptor is None ==> v.admits(key, stage, descriptor, now) && after.debouncers
                == v.debouncers
            &&& descriptor matches Some(d) ==> {
                &&& d.manager_side_debounce is None ==> v.admits(key, stage, descriptor, now)
                    && after.debouncers == v.debouncers
                &&& d.manager_side_debounce matches Some(mode) ==> {
                    let fresh = DebounceModel::initial(mode);
                    &&& v.admits(key, stage, descriptor, now) <==> fresh.passes(now)
                    &&& after.debouncers == v.debouncers.insert(key, fresh.after_event(now))
                }
            }
        }),
{
}

/// Every record of a fault with a filter is an event for that filter, which decides whether
/// the record is admitted. The filter starts over exactly when the fault had passed and now
/// shows a failure, confirmed or not, or had not been tested and now fails.
pub proof fn law_filter_sees_every_record(
    v: ProcessorView,
    key: (Seq<char>, FaultId),
    stage: LifecycleStage,
    descriptor: Option<FaultDescriptor>,
    counts: Map<Seq<char>, u64>,
    now: u128,
)
    requires
        v.debouncers.contains_key(key),
    ensures
        ({
            let after = v.after_record(key, stage, descriptor, counts, now);
            let known = v.last_stages.contains_key(key);
            let last = v.last_stages[key];
            let again = known && ((last is Passed && (stage is Failed || stage is PreFailed)) || (
            last is NotTested && stage is Failed));
            let filter = if again {
                v.debouncers[key].after_reset(now)
            } else {
                v.debouncers[key]
            };
            &&& v.admits(key, stage, descriptor, now) <==> filter.passes(now)
            &&& after.debouncers == v.debouncers.insert(key, filter.after_event(now))
            &&& after.last_stages == v.last_stages.insert(key, stage)
        }),
{
}

/// Environment data is kept by name: every name of the record and no other one has a
/// value, and of entries with the same name the last one counts.
pub proof fn law_last_environment_entry_counts(
    entries: Seq<(ShortString, ShortString)>,
    i: int,
    name: Seq<char>,
)
    requires
        0 <= i < entries.len(),
        forall|j: int|
            i < j < entries.len() ==> escaped((#[trigger] entries[j]).0@) != escaped(entries[i].0@),
    ensures
        env_texts(entries).contains_key(escaped(entries[i].0@)),
        env_texts(entries)[escaped(entries[i].0@)] == escaped(entries[i].1@),
        env_texts(entries).contains_key(name) ==> exists|j: int|
            0 <= j < entries.len() && escaped((#[trigger] entries[j]).0@) == name,
    decreases entries.len(),
{
    lemma_environment_names(entries, name);
    let rest = entries.drop_last();
    if i < entries.len() - 1 {
        assert(escaped(entries[entries.len() - 1].0@) != escaped(entries[i].0@));
        assert forall|j: int| i < j < rest.len() implies escaped((#[trigger] rest[j]).0@)
            != escaped(rest[i].0@) by {
            assert(rest[j] == entries[j]);
        }
        law_last_environment_entry_counts(rest, i, name);
    }
}

/// Only the names of the entries have a value.
proof fn lemma_environment_names(entries: Seq<(ShortString, ShortString)>, name: Seq<char>)
    ensures
        env_texts(entries).contains_key(name) ==> exists|j: int|
            0 <= j < entries.len() && escaped((#[trigger] entries[j]).0@) == name,
    decreases entries.len(),
{
    if entries.len() > 0 {
        let rest = entries.drop_last();
        lemma_environment_names(rest, name);
        if env_texts(entries).contains_key(name) {
            if escaped(entries.last().0@) == name {
                assert(escaped(entries[entries.len() - 1].0@) == name);
            } else {
                let j = choose|j: int|
                    0 <= j < rest.len() && escaped((#[trigger] rest[j]).0@) == name;
                assert(escaped(entries[j].0@) == name);
            }
        }
    }
}

/// A clear command resets the two flags that count since the last clear, the begin of an
/// operation cycle the two that count within the cycle. All else stays.
pub proof fn law_flag_reset_clears_its_flags(s: FaultStateView)
    ensures
        ({
            let t = FlagReset::SinceLastClear.applied(s);
            &&& !t.test_failed_since_last_clear
            &&& !t.test_not_completed_since_last_clear
            &&& t.test_failed_this_operation_cycle == s.test_failed_this_operation_cycle
            &&& t.test_not_completed_this_operation_cycle
                == s.test_not_completed_this_operation_cycle
        }),
        ({
            let t = FlagReset::ThisOperationCycle.applied(s);
            &&& !t.test_failed_this_operation_cycle
            &&& !t.test_not_completed_this_operation_cycle
            &&& t.test_failed_since_last_clear == s.test_failed_since_last_clear
            &&& t.test_not_completed_since_last_clear == s.test_not_completed_since_last_clear
        }),
{
}

/// After a reset that works, the flags that it is about are not set in any state under the
/// path, and each state is otherwise as it was. States under other paths are untouched.
pub proof fn law_reset_states<S: SovdFaultStateStorage>(
    before: S,
    after: S,
    path: Seq<char>,
    what: FlagReset,
    pk: (Seq<char>, Seq<char>),
)
    requires
        flags_reset(before, after, path, what),
        canonical(before.stored(), path),
        before.listable(path),
        reset_writable::<S>(before.stored(), path, what),
    ensures
        after.stored().contains_key(pk) == before.stored().contains_key(pk),
        before.stored().contains_key(pk) && pk.0 != path ==> after.stored()[pk]
            == before.stored()[pk],
        before.stored().contains_key(pk) && pk.0 == path ==> ({
            let s = before.stored()[pk];
            let t = after.stored()[pk];
            &&& what is SinceLastClear ==> !t.test_failed_since_last_clear
                && !t.test_not_completed_since_last_clear && t.test_failed_this_operation_cycle
                == s.test_failed_this_operation_cycle && t.test_not_completed_this_operation_cycle
                == s.test_not_completed_this_operation_cycle
            &&& what is ThisOperationCycle ==> !t.test_failed_this_operation_cycle
                && !t.test_not_completed_this_operation_cycle && t.test_failed_since_last_clear
                == s.test_failed_since_last_clear && t.test_not_completed_since_last_clear
                == s.test_not_completed_since_last_clear
            &&& t.test_failed == s.test_failed
            &&& t.pending_dtc == s.pending_dtc
            &&& t.confirmed_dtc == s.confirmed_dtc
            &&& t.warning_indicator_requested == s.warning_indicator_requested
            &&& t.occurrence_counter == s.occurrence_counter
            &&& t.aging_counter == s.aging_counter
            &&& t.healing_counter == s.healing_counter
            &&& t.first_occurrence_secs == s.first_occurrence_secs
            &&& t.last_occurrence_secs == s.last_occurrence_secs
            &&& t.env_data == s.env_data
        }),
{
    law_reset_is_complete(before, after, path, what);
    assert(after.stored().dom().contains(pk) == before.stored().dom().contains(pk));
}

/// The manager confirms a hash exactly if it is that of the catalog at the path, byte for
/// byte.
pub proof fn law_hash_is_compared(
    processor: FaultRecordProcessor,
    path: LongString,
    hash_sum: Sha256Vec,
    confirmed: bool,
)
    requires
        call_ensures(FaultRecordProcessor::check_hash_sum, (&processor, &path, &hash_sum), confirmed),
    ensures
        !processor.catalogs().contains_key(escaped(path@)) ==> !confirmed,
        processor.catalogs().contains_key(escaped(path@)) ==> (confirmed <==> processor.catalogs()[
        escaped(path@)].hash() == hash_sum@),
{
}

} // verus!

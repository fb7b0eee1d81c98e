//! Storage of fault states.

use vstd::prelude::*;
use vstd::string::*;

use super::fault_key::{
    fault_id_from_key, fault_id_to_key, key_decodes, key_readable, law_fault_id_key_round_trip,
    lemma_key_decodes_to_itself, storage_key,
};
use super::kvs::{
    bool_field, env_field, from_texts, get_bool, get_env, get_u32, get_u64, text_map, texts_of,
    u32_field, u64_field, KvsError, KvsMap, KvsValue,
};
use crate::common::assoc_map::{entries_map, has_key, key_index, AssocMap};
use crate::common::fault::FaultId;
use crate::common::path_map::PathMap;
use crate::common::text::{debug_quoted, quoted};

verus! {

/// Failures of the storage.
#[derive(Debug, PartialEq, Eq)]
pub enum StorageError {
    /// A state could not be encoded.
    Serialization(String),
    /// A stored state or key could not be decoded.
    Deserialization(String),
    /// The backend failed.
    Backend(String),
    /// The backend could not be set up.
    Init(String),
    /// There is no such entry.
    NotFound,
}

impl StorageError {
    /// The message of the error.
    pub open spec fn message(self) -> Seq<char> {
        match self {
            StorageError::Serialization(m) => "serialization failed: "@ + m@,
            StorageError::Deserialization(m) => "deserialization failed: "@ + m@,
            StorageError::Backend(m) => "storage backend error: "@ + m@,
            StorageError::Init(m) => "storage initialization failed: "@ + m@,
            StorageError::NotFound => "entry not found"@,
        }
    }

    /// The message of the error.
    pub fn to_string(&self) -> (r: String)
        ensures
            r@ == self.message(),
    {
        match self {
            StorageError::Serialization(m) => String::from_str("serialization failed: ").concat(
                m.as_str(),
            ),
            StorageError::Deserialization(m) => String::from_str("deserialization failed: ").concat(
                m.as_str(),
            ),
            StorageError::Backend(m) => String::from_str("storage backend error: ").concat(
                m.as_str(),
            ),
            StorageError::Init(m) => String::from_str("storage initialization failed: ").concat(
                m.as_str(),
            ),
            StorageError::NotFound => String::from_str("entry not found"),
        }
    }
}

impl StorageError {
    /// The error as it is shown in messages.
    pub open spec fn debug_text(self) -> Seq<char> {
        match self {
            StorageError::Serialization(m) => "Serialization("@ + quoted(m@) + ")"@,
            StorageError::Deserialization(m) => "Deserialization("@ + quoted(m@) + ")"@,
            StorageError::Backend(m) => "Backend("@ + quoted(m@) + ")"@,
            StorageError::Init(m) => "Init("@ + quoted(m@) + ")"@,
            StorageError::NotFound => "NotFound"@,
        }
    }

    /// The error as it is shown in messages.
    pub fn to_debug_string(&self) -> (r: String)
        ensures
            r@ == self.debug_text(),
    {
        match self {
            StorageError::Serialization(m) => String::from_str("Serialization(").concat(
                debug_quoted(m.as_str()).as_str(),
            ).concat(")"),
            StorageError::Deserialization(m) => String::from_str("Deserialization(").concat(
                debug_quoted(m.as_str()).as_str(),
            ).concat(")"),
            StorageError::Backend(m) => String::from_str("Backend(").concat(
                debug_quoted(m.as_str()).as_str(),
            ).concat(")"),
            StorageError::Init(m) => String::from_str("Init(").concat(
                debug_quoted(m.as_str()).as_str(),
            ).concat(")"),
            StorageError::NotFound => String::from_str("NotFound"),
        }
    }
}

/// Environment data of a fault: texts by name.
pub type SovdEnvData = AssocMap<String, String>;

/// What is kept of a fault: the status bits, the environment at the last failure
/// and the counters.
#[derive(Debug, PartialEq, Eq)]
pub struct SovdFaultState {
    /// The last test failed.
    pub test_failed: bool,
    /// A test failed in this operation cycle.
    pub test_failed_this_operation_cycle: bool,
    /// A test failed since the last clear.
    pub test_failed_since_last_clear: bool,
    /// No test was completed in this operation cycle.
    pub test_not_completed_this_operation_cycle: bool,
    /// No test was completed since the last clear.
    pub test_not_completed_since_last_clear: bool,
    /// The fault is suspected.
    pub pending_dtc: bool,
    /// The fault is confirmed.
    pub confirmed_dtc: bool,
    /// A warning lamp is asked for.
    pub warning_indicator_requested: bool,
    /// Environment at the last failure.
    pub env_data: SovdEnvData,
    /// Number of occurrences.
    pub occurrence_counter: u32,
    /// Number of times the fault aged out.
    pub aging_counter: u32,
    /// Number of times the fault was healed.
    pub healing_counter: u32,
    /// First occurrence in seconds since the Unix epoch; zero if there was none.
    pub first_occurrence_secs: u64,
    /// Last occurrence in seconds since the Unix epoch; zero if there was none.
    pub last_occurrence_secs: u64,
}

/// A fault state as a mathematical value.
#[verifier::ext_equal]
pub struct FaultStateView {
    /// The last test failed.
    pub test_failed: bool,
    /// A test failed in this operation cycle.
    pub test_failed_this_operation_cycle: bool,
    /// A test failed since the last clear.
    pub test_failed_since_last_clear: bool,
    /// No test was completed in this operation cycle.
    pub test_not_completed_this_operation_cycle: bool,
    /// No test was completed since the last clear.
    pub test_not_completed_since_last_clear: bool,
    /// The fault is suspected.
    pub pending_dtc: bool,
    /// The fault is confirmed.
    pub confirmed_dtc: bool,
    /// A warning lamp is asked for.
    pub warning_indicator_requested: bool,
    /// Environment at the last failure.
    pub env_data: Map<Seq<char>, Seq<char>>,
    /// Number of occurrences.
    pub occurrence_counter: u32,
    /// Number of times the fault aged out.
    pub aging_counter: u32,
    /// Number of times the fault was healed.
    pub healing_counter: u32,
    /// First occurrence in seconds since the Unix epoch; zero if there was none.
    pub first_occurrence_secs: u64,
    /// Last occurrence in seconds since the Unix epoch; zero if there was none.
    pub last_occurrence_secs: u64,
}

impl View for SovdFaultState {
    type V = FaultStateView;

    open spec fn view(&self) -> FaultStateView {
        FaultStateView {
            test_failed: self.test_failed,
            test_failed_this_operation_cycle: self.test_failed_this_operation_cycle,
            test_failed_since_last_clear: self.test_failed_since_last_clear,
            test_not_completed_this_operation_cycle: self.test_not_completed_this_operation_cycle,
            test_not_completed_since_last_clear: self.test_not_completed_since_last_clear,
            pending_dtc: self.pending_dtc,
            confirmed_dtc: self.confirmed_dtc,
            warning_indicator_requested: self.warning_indicator_requested,
            env_data: text_map(self.env_data@),
            occurrence_counter: self.occurrence_counter,
            aging_counter: self.aging_counter,
            healing_counter: self.healing_counter,
            first_occurrence_secs: self.first_occurrence_secs,
            last_occurrence_secs: self.last_occurrence_secs,
        }
    }
}

/// `n` and one more, as far as it can be counted.
pub open spec fn count_up(n: u32) -> u32 {
    if n < u32::MAX {
        (n + 1) as u32
    } else {
        n
    }
}

impl FaultStateView {
    /// The state of a fault that was never reported.
    pub open spec fn clear() -> Self {
        FaultStateView {
            test_failed: false,
            test_failed_this_operation_cycle: false,
            test_failed_since_last_clear: false,
            test_not_completed_this_operation_cycle: false,
            test_not_completed_since_last_clear: false,
            pending_dtc: false,
            confirmed_dtc: false,
            warning_indicator_requested: false,
            env_data: Map::empty(),
            occurrence_counter: 0,
            aging_counter: 0,
            healing_counter: 0,
            first_occurrence_secs: 0,
            last_occurrence_secs: 0,
        }
    }

    /// The state after one more occurrence.
    pub open spec fn with_occurrence(self, now_secs: u64) -> Self {
        FaultStateView {
            occurrence_counter: count_up(self.occurrence_counter),
            first_occurrence_secs: if self.first_occurrence_secs == 0 {
                now_secs
            } else {
                self.first_occurrence_secs
            },
            last_occurrence_secs: now_secs,
            ..self
        }
    }
}

impl Default for SovdFaultState {
    fn default() -> (r: Self)
        ensures
            r@ == FaultStateView::clear(),
    {
        let r = SovdFaultState {
            test_failed: false,
            test_failed_this_operation_cycle: false,
            test_failed_since_last_clear: false,
            test_not_completed_this_operation_cycle: false,
            test_not_completed_since_last_clear: false,
            pending_dtc: false,
            confirmed_dtc: false,
            warning_indicator_requested: false,
            env_data: AssocMap::new(),
            occurrence_counter: 0,
            aging_counter: 0,
            healing_counter: 0,
            first_occurrence_secs: 0,
            last_occurrence_secs: 0,
        };
        assert(r@ =~= FaultStateView::clear());
        r
    }
}

impl Clone for SovdFaultState {
    fn clone(&self) -> (r: Self)
        ensures
            r@ == self@,
    {
        SovdFaultState {
            test_failed: self.test_failed,
            test_failed_this_operation_cycle: self.test_failed_this_operation_cycle,
            test_failed_since_last_clear: self.test_failed_since_last_clear,
            test_not_completed_this_operation_cycle: self.test_not_completed_this_operation_cycle,
            test_not_completed_since_last_clear: self.test_not_completed_since_last_clear,
            pending_dtc: self.pending_dtc,
            confirmed_dtc: self.confirmed_dtc,
            warning_indicator_requested: self.warning_indicator_requested,
            env_data: self.env_data.clone(),
            occurrence_counter: self.occurrence_counter,
            aging_counter: self.aging_counter,
            healing_counter: self.healing_counter,
            first_occurrence_secs: self.first_occurrence_secs,
            last_occurrence_secs: self.last_occurrence_secs,
        }
    }
}

/// What reading a stored value gives, or the message why it cannot be read.
pub open spec fn decoded(v: KvsValue) -> Result<FaultStateView, Seq<char>> {
    match v {
        KvsValue::Object(o) => {
            let m = o@;
            let env = env_field(m);
            let b1 = bool_field(m, "test_failed"@);
            let b2 = bool_field(m, "test_failed_this_operation_cycle"@);
            let b3 = bool_field(m, "test_failed_since_last_clear"@);
            let b4 = bool_field(m, "test_not_completed_this_operation_cycle"@);
            let b5 = bool_field(m, "test_not_completed_since_last_clear"@);
            let b6 = bool_field(m, "pending_dtc"@);
            let b7 = bool_field(m, "confirmed_dtc"@);
            let b8 = bool_field(m, "warning_indicator_requested"@);
            let n1 = u32_field(m, "occurrence_counter"@);
            let n2 = u32_field(m, "aging_counter"@);
            let n3 = u32_field(m, "healing_counter"@);
            let t1 = u64_field(m, "first_occurrence_secs"@);
            let t2 = u64_field(m, "last_occurrence_secs"@);
            if env is Err {
                Err(env->Err_0)
            } else if b1 is Err {
                Err(b1->Err_0)
            } else if b2 is Err {
                Err(b2->Err_0)
            } else if b3 is Err {
                Err(b3->Err_0)
            } else if b4 is Err {
                Err(b4->Err_0)
            } else if b5 is Err {
                Err(b5->Err_0)
            } else if b6 is Err {
                Err(b6->Err_0)
            } else if b7 is Err {
                Err(b7->Err_0)
            } else if b8 is Err {
                Err(b8->Err_0)
            } else if n1 is Err {
                Err(n1->Err_0)
            } else if n2 is Err {
                Err(n2->Err_0)
            } else if n3 is Err {
                Err(n3->Err_0)
            } else if t1 is Err {
                Err(t1->Err_0)
            } else if t2 is Err {
                Err(t2->Err_0)
            } else {
                Ok(
                    FaultStateView {
                        test_failed: b1->Ok_0,
                        test_failed_this_operation_cycle: b2->Ok_0,
                        test_failed_since_last_clear: b3->Ok_0,
                        test_not_completed_this_operation_cycle: b4->Ok_0,
                        test_not_completed_since_last_clear: b5->Ok_0,
                        pending_dtc: b6->Ok_0,
                        confirmed_dtc: b7->Ok_0,
                        warning_indicator_requested: b8->Ok_0,
                        env_data: env->Ok_0,
                        occurrence_counter: n1->Ok_0,
                        aging_counter: n2->Ok_0,
                        healing_counter: n3->Ok_0,
                        first_occurrence_secs: t1->Ok_0,
                        last_occurrence_secs: t2->Ok_0,
                    },
                )
            }
        },
        _ => Err("expected KvsValue::Object for SovdFaultState"@),
    }
}

/// The names of the stored fields.
pub open spec fn field_names() -> Set<Seq<char>> {
    set![
        "test_failed"@,
        "test_failed_this_operation_cycle"@,
        "test_failed_since_last_clear"@,
        "test_not_completed_this_operation_cycle"@,
        "test_not_completed_since_last_clear"@,
        "pending_dtc"@,
        "confirmed_dtc"@,
        "warning_indicator_requested"@,
        "env_data"@,
        "occurrence_counter"@,
        "aging_counter"@,
        "healing_counter"@,
        "first_occurrence_secs"@,
        "last_occurrence_secs"@,
    ]
}

/// `v` is how a state is stored: an object with exactly the named fields.
pub open spec fn encodes(s: FaultStateView, v: KvsValue) -> bool {
    v matches KvsValue::Object(o) && {
        let m = o@;
        &&& m.dom() == field_names()
        &&& m["test_failed"@] == KvsValue::Boolean(s.test_failed)
        &&& m["test_failed_this_operation_cycle"@] == KvsValue::Boolean(
            s.test_failed_this_operation_cycle,
        )
        &&& m["test_failed_since_last_clear"@] == KvsValue::Boolean(s.test_failed_since_last_clear)
        &&& m["test_not_completed_this_operation_cycle"@] == KvsValue::Boolean(
            s.test_not_completed_this_operation_cycle,
        )
        &&& m["test_not_completed_since_last_clear"@] == KvsValue::Boolean(
            s.test_not_completed_since_last_clear,
        )
        &&& m["pending_dtc"@] == KvsValue::Boolean(s.pending_dtc)
        &&& m["confirmed_dtc"@] == KvsValue::Boolean(s.confirmed_dtc)
        &&& m["warning_indicator_requested"@] == KvsValue::Boolean(s.warning_indicator_requested)
        &&& m["env_data"@] matches KvsValue::Object(e) && e@.dom() == s.env_data.dom() && forall|
            k: Seq<char>,
        | #[trigger]
            e@.contains_key(k) ==> (e@[k] is Text && e@[k]->Text_0@ == s.env_data[k])
        &&& m["occurrence_counter"@] == KvsValue::I64(s.occurrence_counter as i64)
        &&& m["aging_counter"@] == KvsValue::I64(s.aging_counter as i64)
        &&& m["healing_counter"@] == KvsValue::I64(s.healing_counter as i64)
        &&& m["first_occurrence_secs"@] == KvsValue::I64(s.first_occurrence_secs as i64)
        &&& m["last_occurrence_secs"@] == KvsValue::I64(s.last_occurrence_secs as i64)
    }
}

/// The field names differ by their lengths or first letters.
proof fn lemma_field_names()
    ensures
        "test_failed"@.len() == 11,
        "test_failed"@[0] == 't',
        "test_failed_this_operation_cycle"@.len() == 32,
        "test_failed_since_last_clear"@.len() == 28,
        "test_not_completed_this_operation_cycle"@.len() == 39,
        "test_not_completed_since_last_clear"@.len() == 35,
        "pending_dtc"@.len() == 11,
        "pending_dtc"@[0] == 'p',
        "confirmed_dtc"@.len() == 13,
        "confirmed_dtc"@[0] == 'c',
        "warning_indicator_requested"@.len() == 27,
        "env_data"@.len() == 8,
        "occurrence_counter"@.len() == 18,
        "aging_counter"@.len() == 13,
        "aging_counter"@[0] == 'a',
        "healing_counter"@.len() == 15,
        "first_occurrence_secs"@.len() == 21,
        "last_occurrence_secs"@.len() == 20,
{
    reveal_strlit("test_failed");
    reveal_strlit("test_failed_this_operation_cycle");
    reveal_strlit("test_failed_since_last_clear");
    reveal_strlit("test_not_completed_this_operation_cycle");
    reveal_strlit("test_not_completed_since_last_clear");
    reveal_strlit("pending_dtc");
    reveal_strlit("confirmed_dtc");
    reveal_strlit("warning_indicator_requested");
    reveal_strlit("env_data");
    reveal_strlit("occurrence_counter");
    reveal_strlit("aging_counter");
    reveal_strlit("healing_counter");
    reveal_strlit("first_occurrence_secs");
    reveal_strlit("last_occurrence_secs");
}

/// Reading a stored state gives the state back.
pub proof fn law_kvs_round_trip(s: FaultStateView, v: KvsValue)
    requires
        s.first_occurrence_secs <= i64::MAX,
        s.last_occurrence_secs <= i64::MAX,
        encodes(s, v),
    ensures
        decoded(v) == Ok::<_, Seq<char>>(s),
{
    let m = v->Object_0@;
    assert(field_names().contains("test_failed"@));
    assert forall|k: Seq<char>| field_names().contains(k) implies m.contains_key(k) by {}
    let e = m["env_data"@]->Object_0;
    assert(texts_of(e@) =~= s.env_data);
}

impl SovdFaultState {
    /// Counts an occurrence and notes its time.
    pub fn record_occurrence(&mut self, now_secs: u64)
        ensures
            final(self)@ == old(self)@.with_occurrence(now_secs),
            final(self).env_data == old(self).env_data,
    {
        self.occurrence_counter = self.occurrence_counter.saturating_add(1);
        if self.first_occurrence_secs == 0 {
            self.first_occurrence_secs = now_secs;
        }
        self.last_occurrence_secs = now_secs;
    }

    /// The state as a stored value; fails when a time does not fit.
    pub fn to_kvs(&self) -> (r: Result<KvsValue, KvsError>)
        ensures
            if self.first_occurrence_secs > i64::MAX {
                r matches Err(KvsError::SerializationFailed(m)) && m@
                    == "first_occurrence_secs out of i64 range"@
            } else if self.last_occurrence_secs > i64::MAX {
                r matches Err(KvsError::SerializationFailed(m)) && m@
                    == "last_occurrence_secs out of i64 range"@
            } else {
                r matches Ok(v) && encodes(self@, v)
            },
    {
        if self.first_occurrence_secs > i64::MAX as u64 {
            return Err(
                KvsError::SerializationFailed(
                    String::from_str("first_occurrence_secs out of i64 range"),
                ),
            );
        }
        if self.last_occurrence_secs > i64::MAX as u64 {
            return Err(
                KvsError::SerializationFailed(
                    String::from_str("last_occurrence_secs out of i64 range"),
                ),
            );
        }
        let mut m: KvsMap = AssocMap::new();
        m.insert(String::from_str("test_failed"), KvsValue::Boolean(self.test_failed));
        m.insert(
            String::from_str("test_failed_this_operation_cycle"),
            KvsValue::Boolean(self.test_failed_this_operation_cycle),
        );
        m.insert(
            String::from_str("test_failed_since_last_clear"),
            KvsValue::Boolean(self.test_failed_since_last_clear),
        );
        m.insert(
            String::from_str("test_not_completed_this_operation_cycle"),
            KvsValue::Boolean(self.test_not_completed_this_operation_cycle),
        );
        m.insert(
            String::from_str("test_not_completed_since_last_clear"),
            KvsValue::Boolean(self.test_not_completed_since_last_clear),
        );
        m.insert(String::from_str("pending_dtc"), KvsValue::Boolean(self.pending_dtc));
        m.insert(String::from_str("confirmed_dtc"), KvsValue::Boolean(self.confirmed_dtc));
        m.insert(
            String::from_str("warning_indicator_requested"),
            KvsValue::Boolean(self.warning_indicator_requested),
        );
        let env = from_texts(&self.env_data);
        m.insert(String::from_str("env_data"), KvsValue::Object(env));
        m.insert(
            String::from_str("occurrence_counter"),
            KvsValue::I64(self.occurrence_counter as i64),
        );
        m.insert(String::from_str("aging_counter"), KvsValue::I64(self.aging_counter as i64));
        m.insert(String::from_str("healing_counter"), KvsValue::I64(self.healing_counter as i64));
        m.insert(
            String::from_str("first_occurrence_secs"),
            KvsValue::I64(self.first_occurrence_secs as i64),
        );
        m.insert(
            String::from_str("last_occurrence_secs"),
            KvsValue::I64(self.last_occurrence_secs as i64),
        );
        proof {
            lemma_field_names();
            assert(m@.dom() =~= field_names());
            assert(env@.dom() =~= self@.env_data.dom());
        }
        Ok(KvsValue::Object(m))
    }

    /// Reads a stored value. The fields are read in a fixed order and the first that
    /// cannot be read decides; counters that are missing are zero.
    pub fn from_kvs(kvs_value: &KvsValue) -> (r: Result<Self, KvsError>)
        ensures
            match decoded(*kvs_value) {
                Ok(s) => r matches Ok(t) && t@ == s,
                Err(m) => r matches Err(KvsError::DeserializationFailed(t)) && t@ == m,
            },
    {
        match kvs_value {
            KvsValue::Object(m) => {
                let env_data = match get_env(m) {
                    Ok(e) => e,
                    Err(e) => return Err(e),
                };
                let test_failed: bool = match get_bool(m, "test_failed") {
                    Ok(b) => b,
                    Err(e) => return Err(e),
                };
                let test_failed_this_operation_cycle: bool = match get_bool(
                    m,
                    "test_failed_this_operation_cycle",
                ) {
                    Ok(b) => b,
                    Err(e) => return Err(e),
                };
                let test_failed_since_last_clear: bool = match get_bool(
                    m,
                    "test_failed_since_last_clear",
                ) {
                    Ok(b) => b,
                    Err(e) => return Err(e),
                };
                let test_not_completed_this_operation_cycle: bool = match get_bool(
                    m,
                    "test_not_completed_this_operation_cycle",
                ) {
                    Ok(b) => b,
                    Err(e) => return Err(e),
                };
                let test_not_completed_since_last_clear: bool = match get_bool(
                    m,
                    "test_not_completed_since_last_clear",
                ) {
                    Ok(b) => b,
                    Err(e) => return Err(e),
                };
                let pending_dtc: bool = match get_bool(m, "pending_dtc") {
                    Ok(b) => b,
                    Err(e) => return Err(e),
                };
                let confirmed_dtc: bool = match get_bool(m, "confirmed_dtc") {
                    Ok(b) => b,
                    Err(e) => return Err(e),
                };
                let warning_indicator_requested: bool = match get_bool(
                    m,
                    "warning_indicator_requested",
                ) {
                    Ok(b) => b,
                    Err(e) => return Err(e),
                };
                let occurrence_counter: u32 = match get_u32(m, "occurrence_counter") {
                    Ok(n) => n,
                    Err(e) => return Err(e),
                };
                let aging_counter: u32 = match get_u32(m, "aging_counter") {
                    Ok(n) => n,
                    Err(e) => return Err(e),
                };
                let healing_counter: u32 = match get_u32(m, "healing_counter") {
                    Ok(n) => n,
                    Err(e) => return Err(e),
                };
                let first_occurrence_secs: u64 = match get_u64(m, "first_occurrence_secs") {
                    Ok(n) => n,
                    Err(e) => return Err(e),
                };
                let last_occurrence_secs: u64 = match get_u64(m, "last_occurrence_secs") {
                    Ok(n) => n,
                    Err(e) => return Err(e),
                };
                Ok(
                    SovdFaultState {
                        test_failed,
                        test_failed_this_operation_cycle,
                        test_failed_since_last_clear,
                        test_not_completed_this_operation_cycle,
                        test_not_completed_since_last_clear,
                        pending_dtc,
                        confirmed_dtc,
                        warning_indicator_requested,
                        env_data,
                        occurrence_counter,
                        aging_counter,
                        healing_counter,
                        first_occurrence_secs,
                        last_occurrence_secs,
                    },
                )
            },
            _ => Err(
                KvsError::DeserializationFailed(
                    String::from_str("expected KvsValue::Object for SovdFaultState"),
                ),
            ),
        }
    }
}

/// Stored states by path and storage key.
pub type StoredStates = Map<(Seq<char>, Seq<char>), FaultStateView>;

/// `keys` lists every key that has a state under the path, once.
pub open spec fn lists_path(stored: StoredStates, path: Seq<char>, keys: Seq<Seq<char>>) -> bool {
    &&& forall|i: int, j: int| 0 <= i < j < keys.len() ==> keys[i] != keys[j]
    &&& forall|k: Seq<char>| #[trigger]
        stored.contains_key((path, k)) <==> exists|i: int| 0 <= i < keys.len() && keys[i] == k
}

/// `all` holds, for each of the keys in order, the fault that it stands for and its
/// state.
pub open spec fn reads_keys(
    stored: StoredStates,
    path: Seq<char>,
    keys: Seq<Seq<char>>,
    all: Seq<(FaultId, SovdFaultState)>,
) -> bool {
    &&& all.len() == keys.len()
    &&& forall|i: int|
        0 <= i < keys.len() ==> key_decodes(#[trigger] keys[i], Ok(all[i].0)) && all[i].1@
            == stored[(path, keys[i])]
}

/// Storage of fault states by path and fault.
pub trait SovdFaultStateStorage {
    /// What is stored.
    spec fn stored(&self) -> StoredStates;

    /// Reading what is stored, if anything, under a path and key works.
    spec fn readable(&self, path: Seq<char>, key: Seq<char>) -> bool;

    /// Listing what is stored under a path works.
    spec fn listable(&self, path: Seq<char>) -> bool;

    /// Storing a state under a path and key works.
    spec fn writable(&self, path: Seq<char>, key: Seq<char>, state: FaultStateView) -> bool;

    /// Removing every state under a path works.
    spec fn clearable(&self, path: Seq<char>) -> bool;

    /// Removing what is stored under a path and key works.
    spec fn removable(&self, path: Seq<char>, key: Seq<char>) -> bool;

    /// `e` is the error of a read that fails.
    spec fn read_error(&self, path: Seq<char>, key: Seq<char>, e: StorageError) -> bool;

    /// `e` is the error of a removal of a path that fails.
    spec fn clear_error(&self, path: Seq<char>, e: StorageError) -> bool;

    /// `e` is the error of a removal of a stored state that fails.
    spec fn removal_error(&self, path: Seq<char>, key: Seq<char>, e: StorageError) -> bool;

    /// Stores the state of a fault in place of an earlier one; it can then be read. A
    /// write that fails changes nothing. What else is stored can be read as before.
    fn put(&mut self, path: &str, fault_id: &FaultId, state: SovdFaultState) -> (r: Result<
        (),
        StorageError,
    >)
        ensures
            r is Ok <==> old(self).writable(path@, storage_key(*fault_id), state@),
            r is Ok ==> final(self).stored() == old(self).stored().insert(
                (path@, storage_key(*fault_id)),
                state@,
            ),
            r is Ok ==> final(self).readable(path@, storage_key(*fault_id)),
            r is Err ==> final(self).stored() == old(self).stored(),
            forall|p: Seq<char>, k: Seq<char>|
                r is Err || p != path@ || k != storage_key(*fault_id) ==> (
                #[trigger] final(self).readable(p, k) == old(self).readable(p, k)),
            forall|p: Seq<char>|
                r is Err || p != path@ ==> (#[trigger] final(self).listable(p) == old(
                    self,
                ).listable(p)),
            old(self).listable(path@) ==> final(self).listable(path@),
    ;

    /// Every fault stored under a path with its state; none if the path is unknown.
    fn get_all(&self, path: &str) -> (r: Result<Vec<(FaultId, SovdFaultState)>, StorageError>)
        ensures
            r is Ok <==> self.listable(path@),
            r matches Ok(all) ==> exists|keys: Seq<Seq<char>>| #[trigger]
                lists_path(self.stored(), path@, keys) && reads_keys(
                    self.stored(),
                    path@,
                    keys,
                    all@,
                ),
    ;

    /// The state of a fault, if there is one.
    fn get(&self, path: &str, fault_id: &FaultId) -> (r: Result<
        Option<SovdFaultState>,
        StorageError,
    >)
        ensures
            r is Ok <==> self.readable(path@, storage_key(*fault_id)),
            match r {
                Ok(Some(s)) => self.stored().contains_key((path@, storage_key(*fault_id))) && s@
                    == self.stored()[(path@, storage_key(*fault_id))],
                Ok(None) => !self.stored().contains_key((path@, storage_key(*fault_id))),
                Err(e) => self.read_error(path@, storage_key(*fault_id), e),
            },
    ;

    /// Removes every state under a path. What is stored under other paths can be read as
    /// before.
    fn delete_all(&mut self, path: &str) -> (r: Result<(), StorageError>)
        ensures
            r is Ok <==> old(self).clearable(path@),
            r is Ok ==> final(self).stored() == old(self).stored().remove_keys(
                Set::new(|pk: (Seq<char>, Seq<char>)| pk.0 == path@),
            ),
            r is Err ==> final(self).stored() == old(self).stored(),
            r matches Err(e) ==> old(self).clear_error(path@, e),
            r is Ok ==> final(self).listable(path@) && forall|k: Seq<char>| #[trigger]
                final(self).readable(path@, k),
            forall|p: Seq<char>, k: Seq<char>|
                r is Err || p != path@ ==> (#[trigger] final(self).readable(p, k) == old(
                    self,
                ).readable(p, k)),
            forall|p: Seq<char>|
                r is Err || p != path@ ==> (#[trigger] final(self).listable(p) == old(
                    self,
                ).listable(p)),
    ;

    /// Removes the state of a fault; if there is none it is not found. What else is
    /// stored can be read as before.
    fn delete(&mut self, path: &str, fault_id: &FaultId) -> (r: Result<(), StorageError>)
        ensures
            r is Ok <==> old(self).removable(path@, storage_key(*fault_id)),
            r is Ok ==> old(self).stored().contains_key((path@, storage_key(*fault_id)))
                && final(self).stored() == old(self).stored().remove(
                (path@, storage_key(*fault_id)),
            ),
            r is Err ==> final(self).stored() == old(self).stored(),
            !old(self).stored().contains_key((path@, storage_key(*fault_id))) ==> r == Err::<(), _>(
                StorageError::NotFound,
            ),
            r is Err && old(self).stored().contains_key((path@, storage_key(*fault_id)))
                ==> r->Err_0 !is NotFound && old(self).removal_error(
                path@,
                storage_key(*fault_id),
                r->Err_0,
            ),
            r is Ok ==> final(self).readable(path@, storage_key(*fault_id)),
            forall|p: Seq<char>, k: Seq<char>|
                r is Err || p != path@ || k != storage_key(*fault_id) ==> (
                #[trigger] final(self).readable(p, k) == old(self).readable(p, k)),
            forall|p: Seq<char>|
                r is Err || p != path@ ==> (#[trigger] final(self).listable(p) == old(
                    self,
                ).listable(p)),
            old(self).listable(path@) ==> final(self).listable(path@),
    ;
}

/// Storage that keeps the states in memory and never fails.
#[derive(Debug)]
pub struct InMemoryStorage {
    states: PathMap<SovdFaultState>,
}

impl InMemoryStorage {
    /// A storage without states.
    pub fn new() -> (r: Self)
        ensures
            r.stored() == Map::<(Seq<char>, Seq<char>), FaultStateView>::empty(),
    {
        let r = InMemoryStorage { states: PathMap::new() };
        assert(r.stored() =~= Map::<(Seq<char>, Seq<char>), FaultStateView>::empty());
        r
    }
}

/// Where the same keys are stored under a path, listing it works alike.
proof fn lemma_memory_lists_alike(a: InMemoryStorage, b: InMemoryStorage, path: Seq<char>)
    requires
        forall|p: Seq<char>, k: Seq<char>|
            p != path ==> #[trigger] a.stored().contains_key((p, k)) == b.stored().contains_key(
                (p, k),
            ),
    ensures
        forall|p: Seq<char>| p != path ==> #[trigger] a.listable(p) == b.listable(p),
{
    assert forall|p: Seq<char>| p != path implies #[trigger] a.listable(p) == b.listable(p) by {
        assert forall|k: Seq<char>| a.stored().contains_key((p, k)) == #[trigger] b.stored().contains_key(
            (p, k),
        ) by {
            assert(a.stored().contains_key((p, k)) == b.stored().contains_key((p, k)));
        }
    }
}

impl SovdFaultStateStorage for InMemoryStorage {
    closed spec fn stored(&self) -> StoredStates {
        self.states@.map_values(|s: SovdFaultState| s@)
    }

    open spec fn readable(&self, path: Seq<char>, key: Seq<char>) -> bool {
        true
    }

    /// Every key under the path stands for a fault.
    open spec fn listable(&self, path: Seq<char>) -> bool {
        forall|k: Seq<char>| #[trigger]
            self.stored().contains_key((path, k)) ==> key_readable(k)
    }

    open spec fn writable(&self, path: Seq<char>, key: Seq<char>, state: FaultStateView) -> bool {
        true
    }

    open spec fn clearable(&self, path: Seq<char>) -> bool {
        true
    }

    /// There is something to remove.
    open spec fn removable(&self, path: Seq<char>, key: Seq<char>) -> bool {
        self.stored().contains_key((path, key))
    }

    /// Reading never fails.
    open spec fn read_error(&self, path: Seq<char>, key: Seq<char>, e: StorageError) -> bool {
        false
    }

    /// Removing a path never fails.
    open spec fn clear_error(&self, path: Seq<char>, e: StorageError) -> bool {
        false
    }

    /// Removing a stored state never fails.
    open spec fn removal_error(&self, path: Seq<char>, key: Seq<char>, e: StorageError) -> bool {
        false
    }

    fn put(&mut self, path: &str, fault_id: &FaultId, state: SovdFaultState) -> (r: Result<
        (),
        StorageError,
    >) {
        let key = fault_id_to_key(fault_id);
        proof {
            lemma_key_decodes_to_itself(*fault_id);
        }
        self.states.insert(path, key, state);
        assert(self.stored() =~= old(self).stored().insert(
            (path@, storage_key(*fault_id)),
            state@,
        ));
        proof {
            lemma_memory_lists_alike(*self, *old(self), path@);
        }
        Ok(())
    }

    /// Fails when a key cannot be decoded, which no key of a fault does.
    fn get_all(&self, path: &str) -> (r: Result<Vec<(FaultId, SovdFaultState)>, StorageError>)
        ensures
            r matches Err(e) ==> exists|k: Seq<char>| #[trigger]
                self.stored().contains_key((path@, k)) && key_decodes(k, Err(e)),
    {
        let mut out: Vec<(FaultId, SovdFaultState)> = Vec::new();
        match self.states.path(path) {
            Some(m) => {
                let n: usize = m.len();
                let mut i: usize = 0;
                let ghost keys = Seq::new(m.items().len(), |j: int| m.items()[j].0@);
                while i < n
                    invariant
                        i <= n,
                        n == m.items().len(),
                        keys.len() == n,
                        forall|j: int| 0 <= j < n ==> #[trigger] keys[j] == m.items()[j].0@,
                        forall|k: Seq<char>| #[trigger]
                            m@.contains_key(k) == self.states@.contains_key((path@, k)) && (
                            m@.contains_key(k) ==> m@[k] == self.states@[(path@, k)]),
                        out@.len() == i,
                        forall|j: int|
                            0 <= j < i ==> key_decodes(#[trigger] keys[j], Ok(out@[j].0))
                                && key_readable(keys[j]) && out@[j].1@ == self.stored()[(
                                path@,
                                keys[j],
                            )],
                    decreases n - i,
                {
                    let entry = m.at(i);
                    assert(self.stored().contains_key((path@, entry.0@)));
                    let id: FaultId = match fault_id_from_key(entry.0.as_str()) {
                        Ok(id) => id,
                        Err(e) => return Err(e),
                    };
                    assert(self.states@.contains_key((path@, keys[i as int])));
                    out.push((id, entry.1.clone()));
                    i += 1;
                }
                proof {
                    m.lemma_view();
                    lemma_lists_entries(m.items(), keys);
                    assert forall|k: Seq<char>| #[trigger]
                        self.stored().contains_key((path@, k)) <==> exists|j: int|
                            0 <= j < keys.len() && keys[j] == k by {
                        assert(m@.contains_key(k) == self.states@.contains_key((path@, k)));
                    }
                    assert(lists_path(self.stored(), path@, keys));
                    assert(reads_keys(self.stored(), path@, keys, out@));
                }
            },
            None => {
                proof {
                    let keys = Seq::<Seq<char>>::empty();
                    assert forall|k: Seq<char>| !(#[trigger] self.stored().contains_key(
                        (path@, k),
                    )) by {
                        self.states.lemma_known(path@, k);
                    }
                    assert(lists_path(self.stored(), path@, keys));
                    assert(reads_keys(self.stored(), path@, keys, out@));
                }
            },
        }
        Ok(out)
    }

    fn get(&self, path: &str, fault_id: &FaultId) -> (r: Result<
        Option<SovdFaultState>,
        StorageError,
    >) {
        let key = fault_id_to_key(fault_id);
        match self.states.get(path, &key) {
            Some(s) => Ok(Some(s.clone())),
            None => Ok(None),
        }
    }

    fn delete_all(&mut self, path: &str) -> (r: Result<(), StorageError>)
    {
        let _ = self.states.remove_path(path);
        assert(self.stored() =~= old(self).stored().remove_keys(
            Set::new(|pk: (Seq<char>, Seq<char>)| pk.0 == path@),
        ));
        proof {
            lemma_memory_lists_alike(*self, *old(self), path@);
        }
        Ok(())
    }

    fn delete(&mut self, path: &str, fault_id: &FaultId) -> (r: Result<(), StorageError>) {
        let key = fault_id_to_key(fault_id);
        if self.states.remove(path, &key) {
            assert(self.stored() =~= old(self).stored().remove((path@, storage_key(*fault_id))));
            proof {
                lemma_memory_lists_alike(*self, *old(self), path@);
            }
            Ok(())
        } else {
            assert(self.stored() =~= old(self).stored());
            Err(StorageError::NotFound)
        }
    }
}

/// The keys of distinct entries list the map of the entries.
proof fn lemma_lists_entries<V>(items: Seq<(String, V)>, keys: Seq<Seq<char>>)
    requires
        crate::common::assoc_map::keys_distinct(items),
        keys.len() == items.len(),
        forall|j: int| 0 <= j < keys.len() ==> #[trigger] keys[j] == items[j].0@,
    ensures
        forall|i: int, j: int| 0 <= i < j < keys.len() ==> keys[i] != keys[j],
        forall|k: Seq<char>| #[trigger]
            entries_map(items).contains_key(k) <==> exists|i: int| 0 <= i < keys.len() && keys[i]
                == k,
{
    assert forall|i: int, j: int| 0 <= i < j < keys.len() implies keys[i] != keys[j] by {
        assert(items[i].0@ != items[j].0@);
    }
    assert forall|k: Seq<char>| #[trigger]
        entries_map(items).contains_key(k) <==> exists|i: int| 0 <= i < keys.len() && keys[i]
            == k by {
        if has_key(items, k) {
            let i = key_index(items, k);
            assert(keys[i] == k);
        }
        if exists|i: int| 0 <= i < keys.len() && keys[i] == k {
            let i = choose|i: int| 0 <= i < keys.len() && keys[i] == k;
            assert(items[i].0@ == k);
        }
    }
}

/// The error for a stored value that cannot be read, given the reason.
pub open spec fn undecodable(reason: Seq<char>, e: StorageError) -> bool {
    e matches StorageError::Deserialization(m) && m@ == "DeserializationFailed("@ + quoted(reason)
        + ")"@
}

/// Storage that keeps the states as values of a key-value store, one object per
/// path. The store's contents are handed over when it is made and can be taken out
/// to be written back.
#[derive(Debug)]
pub struct KvsSovdFaultStateStorage {
    kvs: PathMap<KvsValue>,
}

impl KvsSovdFaultStateStorage {
    /// The values by path and storage key.
    pub closed spec fn values(self) -> Map<(Seq<char>, Seq<char>), KvsValue> {
        self.kvs@
    }

    /// The path has an object.
    pub closed spec fn has_path(self, path: Seq<char>) -> bool {
        self.kvs.knows(path)
    }

    /// A storage with the given contents.
    pub fn new(kvs: PathMap<KvsValue>) -> (r: Self)
        ensures
            r.values() == kvs@,
            forall|p: Seq<char>| #[trigger] r.has_path(p) == kvs.knows(p),
    {
        KvsSovdFaultStateStorage { kvs }
    }

    /// The contents.
    pub fn contents(&self) -> (r: &PathMap<KvsValue>)
        ensures
            r@ == self.values(),
            forall|p: Seq<char>| #[trigger] self.has_path(p) == r.knows(p),
    {
        &self.kvs
    }

    /// A state can be read wherever one can be decoded.
    pub proof fn lemma_stored(self, path: Seq<char>, key: Seq<char>)
        ensures
            self.stored().contains_key((path, key)) <==> self.values().contains_key((path, key)),
            self.values().contains_key((path, key)) ==> self.stored()[(path, key)] == decoded(
                self.values()[(path, key)],
            )->Ok_0,
    {
    }
}

/// Where the same values are stored under a path, listing it works alike.
proof fn lemma_kvs_lists_alike(
    a: KvsSovdFaultStateStorage,
    b: KvsSovdFaultStateStorage,
    path: Seq<char>,
)
    requires
        forall|p: Seq<char>, k: Seq<char>|
            p != path ==> #[trigger] a.values().contains_key((p, k)) == b.values().contains_key(
                (p, k),
            ) && (b.values().contains_key((p, k)) ==> a.values()[(p, k)] == b.values()[(p, k)]),
    ensures
        forall|p: Seq<char>| p != path ==> #[trigger] a.listable(p) == b.listable(p),
{
    assert forall|p: Seq<char>| p != path implies #[trigger] a.listable(p) == b.listable(p) by {
        assert forall|k: Seq<char>| #[trigger] b.values().contains_key((p, k)) implies
            a.values().contains_key((p, k)) && a.values()[(p, k)] == b.values()[(p, k)] by {
            assert(a.values().contains_key((p, k)) == b.values().contains_key((p, k)));
        }
    }
}

impl SovdFaultStateStorage for KvsSovdFaultStateStorage {
    closed spec fn stored(&self) -> StoredStates {
        self.kvs@.map_values(|v: KvsValue| decoded(v)->Ok_0)
    }

    open spec fn readable(&self, path: Seq<char>, key: Seq<char>) -> bool {
        self.values().contains_key((path, key)) ==> decoded(self.values()[(path, key)]) is Ok
    }

    /// Every key under the path stands for a fault, and its value for a state.
    open spec fn listable(&self, path: Seq<char>) -> bool {
        forall|k: Seq<char>| #[trigger]
            self.values().contains_key((path, k)) ==> decoded(self.values()[(path, k)]) is Ok
                && key_readable(k)
    }

    /// The times of the state fit the store.
    open spec fn writable(&self, path: Seq<char>, key: Seq<char>, state: FaultStateView) -> bool {
        state.first_occurrence_secs <= i64::MAX && state.last_occurrence_secs <= i64::MAX
    }

    /// The path is known.
    open spec fn clearable(&self, path: Seq<char>) -> bool {
        self.has_path(path)
    }

    /// There is something to remove.
    open spec fn removable(&self, path: Seq<char>, key: Seq<char>) -> bool {
        self.stored().contains_key((path, key))
    }

    /// The value cannot be decoded.
    open spec fn read_error(&self, path: Seq<char>, key: Seq<char>, e: StorageError) -> bool {
        undecodable(decoded(self.values()[(path, key)])->Err_0, e)
    }

    /// The path is unknown.
    open spec fn clear_error(&self, path: Seq<char>, e: StorageError) -> bool {
        e matches StorageError::Backend(m) && m@ == "KeyNotFound"@
    }

    /// Removing a stored state never fails.
    open spec fn removal_error(&self, path: Seq<char>, key: Seq<char>, e: StorageError) -> bool {
        false
    }

    fn put(&mut self, path: &str, fault_id: &FaultId, state: SovdFaultState) -> (r: Result<
        (),
        StorageError,
    >)
        ensures
            r matches Err(e) ==> e matches StorageError::Serialization(m) && m@
                == "SerializationFailed("@ + quoted(
                if state.first_occurrence_secs > i64::MAX {
                    "first_occurrence_secs out of i64 range"@
                } else {
                    "last_occurrence_secs out of i64 range"@
                },
            ) + ")"@,
    {
        let key = fault_id_to_key(fault_id);
        match state.to_kvs() {
            Ok(v) => {
                proof {
                    law_kvs_round_trip(state@, v);
                    lemma_key_decodes_to_itself(*fault_id);
                }
                self.kvs.insert(path, key, v);
                assert(self.stored() =~= old(self).stored().insert(
                    (path@, storage_key(*fault_id)),
                    state@,
                ));
                proof {
                    lemma_kvs_lists_alike(*self, *old(self), path@);
                }
                Ok(())
            },
            Err(e) => Err(StorageError::Serialization(e.to_debug_string())),
        }
    }

    /// Fails when a value or a key cannot be decoded.
    fn get_all(&self, path: &str) -> (r: Result<Vec<(FaultId, SovdFaultState)>, StorageError>)
        ensures
            r matches Err(e) ==> exists|k: Seq<char>| #[trigger]
                self.values().contains_key((path@, k)) && match decoded(self.values()[(path@, k)]) {
                    Ok(_) => key_decodes(k, Err(e)),
                    Err(m) => undecodable(m, e),
                },
            !self.has_path(path@) ==> r is Ok && r->Ok_0@.len() == 0,
    {
        let mut out: Vec<(FaultId, SovdFaultState)> = Vec::new();
        match self.kvs.path(path) {
            Some(m) => {
                let n: usize = m.len();
                let mut i: usize = 0;
                let ghost keys = Seq::new(m.items().len(), |j: int| m.items()[j].0@);
                while i < n
                    invariant
                        i <= n,
                        n == m.items().len(),
                        keys.len() == n,
                        self.has_path(path@),
                        forall|j: int| 0 <= j < n ==> #[trigger] keys[j] == m.items()[j].0@,
                        forall|k: Seq<char>| #[trigger]
                            m@.contains_key(k) == self.kvs@.contains_key((path@, k)) && (
                            m@.contains_key(k) ==> m@[k] == self.kvs@[(path@, k)]),
                        out@.len() == i,
                        forall|j: int|
                            0 <= j < i ==> key_decodes(#[trigger] keys[j], Ok(out@[j].0))
                                && key_readable(keys[j]) && decoded(
                                self.kvs@[(path@, keys[j])],
                            ) is Ok && out@[j].1@ == self.stored()[(path@, keys[j])],
                    decreases n - i,
                {
                    let entry = m.at(i);
                    assert(self.values().contains_key((path@, entry.0@)));
                    let state: SovdFaultState = match SovdFaultState::from_kvs(&entry.1) {
                        Ok(s) => s,
                        Err(e) => return Err(StorageError::Deserialization(e.to_debug_string())),
                    };
                    let id: FaultId = match fault_id_from_key(entry.0.as_str()) {
                        Ok(id) => id,
                        Err(e) => return Err(e),
                    };
                    assert(self.kvs@.contains_key((path@, keys[i as int])));
                    out.push((id, state));
                    i += 1;
                }
                proof {
                    m.lemma_view();
                    lemma_lists_entries(m.items(), keys);
                    assert forall|k: Seq<char>| #[trigger]
                        self.stored().contains_key((path@, k)) <==> exists|j: int|
                            0 <= j < keys.len() && keys[j] == k by {
                        assert(m@.contains_key(k) == self.kvs@.contains_key((path@, k)));
                    }
                    assert(lists_path(self.stored(), path@, keys));
                    assert(reads_keys(self.stored(), path@, keys, out@));
                    assert forall|k: Seq<char>| #[trigger]
                        self.values().contains_key((path@, k)) implies decoded(
                        self.values()[(path@, k)],
                    ) is Ok && key_readable(k) by {
                        assert(self.stored().contains_key((path@, k)));
                        let j = choose|j: int| 0 <= j < keys.len() && keys[j] == k;
                        assert(key_readable(keys[j]));
                    }
                }
            },
            None => {
                proof {
                    let keys = Seq::<Seq<char>>::empty();
                    assert forall|k: Seq<char>| !(#[trigger] self.values().contains_key(
                        (path@, k),
                    )) by {
                        self.kvs.lemma_known(path@, k);
                    }
                    assert forall|k: Seq<char>| !(#[trigger] self.stored().contains_key(
                        (path@, k),
                    )) by {
                        assert(!self.values().contains_key((path@, k)));
                    }
                    assert(lists_path(self.stored(), path@, keys));
                    assert(reads_keys(self.stored(), path@, keys, out@));
                }
            },
        }
        Ok(out)
    }

    /// Fails when the value of the fault cannot be decoded.
    fn get(&self, path: &str, fault_id: &FaultId) -> (r: Result<
        Option<SovdFaultState>,
        StorageError,
    >)
    {
        let key = fault_id_to_key(fault_id);
        match self.kvs.get(path, &key) {
            Some(v) => match SovdFaultState::from_kvs(v) {
                Ok(s) => Ok(Some(s)),
                Err(e) => Err(StorageError::Deserialization(e.to_debug_string())),
            },
            None => Ok(None),
        }
    }

    /// Fails when the path is unknown.
    fn delete_all(&mut self, path: &str) -> (r: Result<(), StorageError>)
        ensures
            r is Ok ==> !final(self).has_path(path@),
    {
        if self.kvs.remove_path(path) {
            assert(self.stored() =~= old(self).stored().remove_keys(
                Set::new(|pk: (Seq<char>, Seq<char>)| pk.0 == path@),
            ));
            proof {
                lemma_kvs_lists_alike(*self, *old(self), path@);
            }
            Ok(())
        } else {
            assert(self.kvs@ =~= old(self).kvs@) by {
                assert forall|pk: (Seq<char>, Seq<char>)|
                    old(self).kvs@.contains_key(pk) implies pk.0 != path@ by {
                    old(self).kvs.lemma_known(pk.0, pk.1);
                }
            }
            Err(StorageError::Backend(KvsError::KeyNotFound.to_debug_string()))
        }
    }

    fn delete(&mut self, path: &str, fault_id: &FaultId) -> (r: Result<(), StorageError>) {
        let key = fault_id_to_key(fault_id);
        if self.kvs.remove(path, &key) {
            assert(self.stored() =~= old(self).stored().remove((path@, storage_key(*fault_id))));
            proof {
                lemma_kvs_lists_alike(*self, *old(self), path@);
            }
            Ok(())
        } else {
            assert(self.values() =~= old(self).values());
            assert(self.stored() =~= old(self).stored());
            Err(StorageError::NotFound)
        }
    }
}

/// What was stored last for a fault is what is read, and nothing else changes: neither
/// under another path nor for another fault of the same path.
pub proof fn law_stored_state_is_read(
    stored: StoredStates,
    path: Seq<char>,
    id: FaultId,
    s: FaultStateView,
    other_path: Seq<char>,
    other: FaultId,
)
    requires
        id.wf(),
        other.wf(),
    ensures
        ({
            let after = stored.insert((path, storage_key(id)), s);
            &&& after.contains_key((path, storage_key(id)))
            &&& after[(path, storage_key(id))] == s
            &&& other_path != path || other != id ==> after.contains_key(
                (other_path, storage_key(other)),
            ) == stored.contains_key((other_path, storage_key(other))) && (stored.contains_key(
                (other_path, storage_key(other)),
            ) ==> after[(other_path, storage_key(other))] == stored[(
                other_path,
                storage_key(other),
            )])
        }),
{
    if other != id {
        law_faults_have_their_own_keys(id, other);
    }
}

/// A storage that is made anew from the contents of another one holds the same states,
/// and can do what the other one can.
pub proof fn law_restart_keeps_states(
    before: KvsSovdFaultStateStorage,
    after: KvsSovdFaultStateStorage,
)
    requires
        after.values() == before.values(),
        forall|p: Seq<char>| #[trigger] after.has_path(p) == before.has_path(p),
    ensures
        after.stored() == before.stored(),
        forall|p: Seq<char>, k: Seq<char>| #[trigger]
            after.readable(p, k) == before.readable(p, k),
        forall|p: Seq<char>| #[trigger] after.listable(p) == before.listable(p),
        forall|p: Seq<char>| #[trigger] after.clearable(p) == before.clearable(p),
{
    assert forall|pk: (Seq<char>, Seq<char>)| #[trigger]
        after.stored().contains_key(pk) == before.stored().contains_key(pk) && (
    before.stored().contains_key(pk) ==> after.stored()[pk] == before.stored()[pk]) by {
        after.lemma_stored(pk.0, pk.1);
        before.lemma_stored(pk.0, pk.1);
    }
    assert(after.stored() =~= before.stored());
}

/// Different faults have different keys.
pub proof fn law_faults_have_their_own_keys(a: FaultId, b: FaultId)
    requires
        a.wf(),
        b.wf(),
        a != b,
    ensures
        storage_key(a) != storage_key(b),
{
    if storage_key(a) == storage_key(b) {
        lemma_key_decodes_to_itself(a);
        law_fault_id_key_round_trip(b, Ok(a));
    }
}

/// Deleting a fault removes its state alone; deleting a path removes the states of that
/// path alone.
pub proof fn law_deletion_is_exact(
    stored: StoredStates,
    path: Seq<char>,
    key: Seq<char>,
    pk: (Seq<char>, Seq<char>),
)
    ensures
        stored.remove((path, key)).contains_key(pk) <==> stored.contains_key(pk) && pk != (
            path,
            key,
        ),
        ({
            let rest = stored.remove_keys(Set::new(|pk: (Seq<char>, Seq<char>)| pk.0 == path));
            &&& rest.contains_key(pk) <==> stored.contains_key(pk) && pk.0 != path
            &&& rest.contains_key(pk) ==> rest[pk] == stored[pk]
        }),
        pk != (path, key) && stored.contains_key(pk) ==> stored.remove((path, key))[pk]
            == stored[pk],
{
}

/// A state is seen as it is: bit by bit, number by number and text by text.
pub proof fn law_state_is_seen_as_it_is(s: SovdFaultState, name: Seq<char>)
    ensures
        s@.test_failed == s.test_failed,
        s@.test_failed_this_operation_cycle == s.test_failed_this_operation_cycle,
        s@.test_failed_since_last_clear == s.test_failed_since_last_clear,
        s@.test_not_completed_this_operation_cycle == s.test_not_completed_this_operation_cycle,
        s@.test_not_completed_since_last_clear == s.test_not_completed_since_last_clear,
        s@.pending_dtc == s.pending_dtc,
        s@.confirmed_dtc == s.confirmed_dtc,
        s@.warning_indicator_requested == s.warning_indicator_requested,
        s@.occurrence_counter == s.occurrence_counter,
        s@.aging_counter == s.aging_counter,
        s@.healing_counter == s.healing_counter,
        s@.first_occurrence_secs == s.first_occurrence_secs,
        s@.last_occurrence_secs == s.last_occurrence_secs,
        s@.env_data.contains_key(name) == s.env_data@.contains_key(name),
        s.env_data@.contains_key(name) ==> s@.env_data[name] == s.env_data@[name]@,
{
}

/// A fault that was never reported has no bit set, no occurrence and no environment data.
pub proof fn law_unreported_fault_is_clear()
    ensures
        !FaultStateView::clear().test_failed,
        !FaultStateView::clear().test_failed_this_operation_cycle,
        !FaultStateView::clear().test_failed_since_last_clear,
        !FaultStateView::clear().test_not_completed_this_operation_cycle,
        !FaultStateView::clear().test_not_completed_since_last_clear,
        !FaultStateView::clear().pending_dtc,
        !FaultStateView::clear().confirmed_dtc,
        !FaultStateView::clear().warning_indicator_requested,
        FaultStateView::clear().occurrence_counter == 0,
        FaultStateView::clear().aging_counter == 0,
        FaultStateView::clear().healing_counter == 0,
        FaultStateView::clear().first_occurrence_secs == 0,
        FaultStateView::clear().last_occurrence_secs == 0,
        FaultStateView::clear().env_data == Map::<Seq<char>, Seq<char>>::empty(),
{
}

/// An occurrence is counted, as far as it can be, and is the last one. It is the first one
/// if there was none before; otherwise the first one stays. Nothing else changes.
pub proof fn law_occurrence_is_recorded(s: FaultStateView, now_secs: u64)
    ensures
        s.first_occurrence_secs == 0 ==> s.with_occurrence(now_secs).first_occurrence_secs
            == now_secs,
        s.first_occurrence_secs != 0 ==> s.with_occurrence(now_secs).first_occurrence_secs
            == s.first_occurrence_secs,
        s.with_occurrence(now_secs).last_occurrence_secs == now_secs,
        s.occurrence_counter < u32::MAX ==> s.with_occurrence(now_secs).occurrence_counter
            == s.occurrence_counter + 1,
        s.occurrence_counter == u32::MAX ==> s.with_occurrence(now_secs).occurrence_counter
            == u32::MAX,
        s.with_occurrence(now_secs).test_failed == s.test_failed,
        s.with_occurrence(now_secs).test_failed_this_operation_cycle == s.test_failed_this_operation_cycle,
        s.with_occurrence(now_secs).test_failed_since_last_clear == s.test_failed_since_last_clear,
        s.with_occurrence(now_secs).test_not_completed_this_operation_cycle == s.test_not_completed_this_operation_cycle,
        s.with_occurrence(now_secs).test_not_completed_since_last_clear == s.test_not_completed_since_last_clear,
        s.with_occurrence(now_secs).pending_dtc == s.pending_dtc,
        s.with_occurrence(now_secs).confirmed_dtc == s.confirmed_dtc,
        s.with_occurrence(now_secs).warning_indicator_requested == s.warning_indicator_requested,
        s.with_occurrence(now_secs).env_data == s.env_data,
        s.with_occurrence(now_secs).aging_counter == s.aging_counter,
        s.with_occurrence(now_secs).healing_counter == s.healing_counter,
{
}

/// The state after occurrences at the given times.
pub open spec fn with_occurrences(s: FaultStateView, times: Seq<u64>) -> FaultStateView
    decreases times.len(),
{
    if times.len() == 0 {
        s
    } else {
        with_occurrences(s, times.drop_last()).with_occurrence(times.last())
    }
}

/// Of a series of occurrences of a fault that was not reported before, the first one stays
/// the first for ever, the last one is the last, and all of them are counted.
pub proof fn law_occurrence_history(s: FaultStateView, times: Seq<u64>)
    requires
        times.len() > 0,
        s.first_occurrence_secs == 0,
        times[0] != 0,
        s.occurrence_counter + times.len() <= u32::MAX,
    ensures
        with_occurrences(s, times).first_occurrence_secs == times[0],
        with_occurrences(s, times).last_occurrence_secs == times.last(),
        with_occurrences(s, times).occurrence_counter == s.occurrence_counter + times.len(),
    decreases times.len(),
{
    if times.len() > 1 {
        law_occurrence_history(s, times.drop_last());
        assert(times.drop_last()[0] == times[0]);
    } else {
        assert(with_occurrences(s, times.drop_last()) == s);
    }
}

/// A state is stored under the names of its bits and numbers, and its environment data as
/// texts under theirs.
pub proof fn law_stored_form(s: FaultStateView, v: KvsValue, name: Seq<char>)
    requires
        encodes(s, v),
    ensures
        v matches KvsValue::Object(o) && ({
            let m = o@;
            &&& m.contains_key("test_failed"@) && m["test_failed"@] == KvsValue::Boolean(s.test_failed)
            &&& m.contains_key("test_failed_this_operation_cycle"@) && m["test_failed_this_operation_cycle"@] == KvsValue::Boolean(s.test_failed_this_operation_cycle)
            &&& m.contains_key("test_failed_since_last_clear"@) && m["test_failed_since_last_clear"@] == KvsValue::Boolean(s.test_failed_since_last_clear)
            &&& m.contains_key("test_not_completed_this_operation_cycle"@) && m["test_not_completed_this_operation_cycle"@] == KvsValue::Boolean(s.test_not_completed_this_operation_cycle)
            &&& m.contains_key("test_not_completed_since_last_clear"@) && m["test_not_completed_since_last_clear"@] == KvsValue::Boolean(s.test_not_completed_since_last_clear)
            &&& m.contains_key("pending_dtc"@) && m["pending_dtc"@] == KvsValue::Boolean(s.pending_dtc)
            &&& m.contains_key("confirmed_dtc"@) && m["confirmed_dtc"@] == KvsValue::Boolean(s.confirmed_dtc)
            &&& m.contains_key("warning_indicator_requested"@) && m["warning_indicator_requested"@] == KvsValue::Boolean(s.warning_indicator_requested)
            &&& m.contains_key("occurrence_counter"@) && m["occurrence_counter"@] == KvsValue::I64(s.occurrence_counter as i64)
            &&& m.contains_key("aging_counter"@) && m["aging_counter"@] == KvsValue::I64(s.aging_counter as i64)
            &&& m.contains_key("healing_counter"@) && m["healing_counter"@] == KvsValue::I64(s.healing_counter as i64)
            &&& m.contains_key("first_occurrence_secs"@) && m["first_occurrence_secs"@] == KvsValue::I64(s.first_occurrence_secs as i64)
            &&& m.contains_key("last_occurrence_secs"@) && m["last_occurrence_secs"@] == KvsValue::I64(s.last_occurrence_secs as i64)
            &&& m.contains_key("env_data"@)
            &&& m["env_data"@] matches KvsValue::Object(e)
            &&& e@.contains_key(name) <==> s.env_data.contains_key(name)
            &&& e@.contains_key(name) ==> (e@[name] matches KvsValue::Text(t) && t@
                == s.env_data[name])
        }),
{
    let m = v->Object_0@;
    assert forall|k: Seq<char>| field_names().contains(k) implies m.contains_key(k) by {}
    let e = m["env_data"@]->Object_0@;
    assert(e.dom().contains(name) == s.env_data.dom().contains(name));
}

/// What is read of a stored value is what stands under the names of the bits and numbers;
/// numbers that are missing are zero.
pub proof fn law_read_form(v: KvsValue, s: FaultStateView, name: Seq<char>)
    requires
        decoded(v) == Ok::<FaultStateView, Seq<char>>(s),
    ensures
        v matches KvsValue::Object(o) && ({
            let m = o@;
            &&& m.contains_key("test_failed"@) && m["test_failed"@] == KvsValue::Boolean(s.test_failed)
            &&& m.contains_key("test_failed_this_operation_cycle"@) && m["test_failed_this_operation_cycle"@] == KvsValue::Boolean(s.test_failed_this_operation_cycle)
            &&& m.contains_key("test_failed_since_last_clear"@) && m["test_failed_since_last_clear"@] == KvsValue::Boolean(s.test_failed_since_last_clear)
            &&& m.contains_key("test_not_completed_this_operation_cycle"@) && m["test_not_completed_this_operation_cycle"@] == KvsValue::Boolean(s.test_not_completed_this_operation_cycle)
            &&& m.contains_key("test_not_completed_since_last_clear"@) && m["test_not_completed_since_last_clear"@] == KvsValue::Boolean(s.test_not_completed_since_last_clear)
            &&& m.contains_key("pending_dtc"@) && m["pending_dtc"@] == KvsValue::Boolean(s.pending_dtc)
            &&& m.contains_key("confirmed_dtc"@) && m["confirmed_dtc"@] == KvsValue::Boolean(s.confirmed_dtc)
            &&& m.contains_key("warning_indicator_requested"@) && m["warning_indicator_requested"@] == KvsValue::Boolean(s.warning_indicator_requested)
            &&& m.contains_key("occurrence_counter"@) ==> (m["occurrence_counter"@] matches KvsValue::I64(n) && n == s.occurrence_counter)
            &&& !m.contains_key("occurrence_counter"@) ==> s.occurrence_counter == 0
            &&& m.contains_key("aging_counter"@) ==> (m["aging_counter"@] matches KvsValue::I64(n) && n == s.aging_counter)
            &&& !m.contains_key("aging_counter"@) ==> s.aging_counter == 0
            &&& m.contains_key("healing_counter"@) ==> (m["healing_counter"@] matches KvsValue::I64(n) && n == s.healing_counter)
            &&& !m.contains_key("healing_counter"@) ==> s.healing_counter == 0
            &&& m.contains_key("first_occurrence_secs"@) ==> (m["first_occurrence_secs"@] matches KvsValue::I64(n) && n == s.first_occurrence_secs)
            &&& !m.contains_key("first_occurrence_secs"@) ==> s.first_occurrence_secs == 0
            &&& m.contains_key("last_occurrence_secs"@) ==> (m["last_occurrence_secs"@] matches KvsValue::I64(n) && n == s.last_occurrence_secs)
            &&& !m.contains_key("last_occurrence_secs"@) ==> s.last_occurrence_secs == 0
            &&& m.contains_key("env_data"@)
            &&& m["env_data"@] matches KvsValue::Object(e)
            &&& e@.contains_key(name) <==> s.env_data.contains_key(name)
            &&& e@.contains_key(name) ==> (e@[name] matches KvsValue::Text(t) && t@
                == s.env_data[name])
        }),
{
}

/// A stored value can be read exactly if it is an object that holds every bit, the
/// environment data as texts, and no number that is not one or does not fit.
pub proof fn law_readable_form(v: KvsValue)
    ensures
        decoded(v) is Ok <==> (v matches KvsValue::Object(o) && ({
            let m = o@;
            &&& m.contains_key("test_failed"@) && m["test_failed"@] is Boolean
            &&& m.contains_key("test_failed_this_operation_cycle"@) && m["test_failed_this_operation_cycle"@] is Boolean
            &&& m.contains_key("test_failed_since_last_clear"@) && m["test_failed_since_last_clear"@] is Boolean
            &&& m.contains_key("test_not_completed_this_operation_cycle"@) && m["test_not_completed_this_operation_cycle"@] is Boolean
            &&& m.contains_key("test_not_completed_since_last_clear"@) && m["test_not_completed_since_last_clear"@] is Boolean
            &&& m.contains_key("pending_dtc"@) && m["pending_dtc"@] is Boolean
            &&& m.contains_key("confirmed_dtc"@) && m["confirmed_dtc"@] is Boolean
            &&& m.contains_key("warning_indicator_requested"@) && m["warning_indicator_requested"@] is Boolean
            &&& m.contains_key("occurrence_counter"@) ==> (m["occurrence_counter"@] matches KvsValue::I64(n) && 0 <= n <= u32::MAX)
            &&& m.contains_key("aging_counter"@) ==> (m["aging_counter"@] matches KvsValue::I64(n) && 0 <= n <= u32::MAX)
            &&& m.contains_key("healing_counter"@) ==> (m["healing_counter"@] matches KvsValue::I64(n) && 0 <= n <= u32::MAX)
            &&& m.contains_key("first_occurrence_secs"@) ==> (m["first_occurrence_secs"@] matches KvsValue::I64(n) && 0 <= n)
            &&& m.contains_key("last_occurrence_secs"@) ==> (m["last_occurrence_secs"@] matches KvsValue::I64(n) && 0 <= n)
            &&& m.contains_key("env_data"@)
            &&& m["env_data"@] matches KvsValue::Object(e)
            &&& forall|k: Seq<char>| #[trigger] e@.contains_key(k) ==> e@[k] is Text
        })),
{
}

/// Storage in memory can always be read, written and cleared; it removes what is there,
/// and lists every path under which only keys of faults stand.
pub proof fn law_memory_never_fails(
    storage: InMemoryStorage,
    path: Seq<char>,
    key: Seq<char>,
    s: FaultStateView,
    e: StorageError,
)
    ensures
        storage.readable(path, key),
        storage.writable(path, key, s),
        !storage.read_error(path, key, e),
        !storage.clear_error(path, e),
        !storage.removal_error(path, key, e),
        storage.clearable(path),
        storage.removable(path, key) <==> storage.stored().contains_key((path, key)),
        !storage.stored().contains_key((path, key)) || key_readable(key) || !storage.listable(path),
        (forall|k: Seq<char>| #[trigger]
            storage.stored().contains_key((path, k)) ==> key_readable(k)) ==> storage.listable(path),
{
}

/// A key-value storage reads what it can decode, and whatever is not there. It takes every
/// state whose times fit, clears the paths that it knows and removes what is there.
pub proof fn law_kvs_fails_on_damage_alone(
    storage: KvsSovdFaultStateStorage,
    path: Seq<char>,
    key: Seq<char>,
    s: FaultStateView,
    e: StorageError,
)
    ensures
        storage.read_error(path, key, e) ==> (e matches StorageError::Deserialization(m) && m@
            == "DeserializationFailed("@ + quoted(
            decoded(storage.values()[(path, key)])->Err_0,
        ) + ")"@),
        storage.clear_error(path, e) ==> (e matches StorageError::Backend(m) && m@
            == "KeyNotFound"@),
        !storage.removal_error(path, key, e),
        !storage.values().contains_key((path, key)) ==> storage.readable(path, key),
        storage.values().contains_key((path, key)) ==> (storage.readable(path, key) <==> decoded(
            storage.values()[(path, key)],
        ) is Ok),
        storage.writable(path, key, s) <==> s.first_occurrence_secs <= i64::MAX
            && s.last_occurrence_secs <= i64::MAX,
        storage.clearable(path) <==> storage.has_path(path),
        storage.removable(path, key) <==> storage.stored().contains_key((path, key)),
        storage.stored().contains_key((path, key)) <==> storage.values().contains_key((path, key)),
        storage.values().contains_key((path, key)) && storage.readable(path, key) ==> decoded(
            storage.values()[(path, key)],
        ) == Ok::<FaultStateView, Seq<char>>(storage.stored()[(path, key)]),
        storage.listable(path) && storage.values().contains_key((path, key)) ==> key_readable(key)
            && storage.readable(path, key),
{
    storage.lemma_stored(path, key);
}

/// The message of a storage error names what failed; the details stand behind it.
pub proof fn law_storage_messages_name_the_cause(m: String)
    ensures
        StorageError::Serialization(m).message() == "serialization failed: "@ + m@,
        StorageError::Deserialization(m).message() == "deserialization failed: "@ + m@,
        StorageError::Backend(m).message() == "storage backend error: "@ + m@,
        StorageError::Init(m).message() == "storage initialization failed: "@ + m@,
        StorageError::NotFound.message() == "entry not found"@,
{
}

/// How a storage error shows in messages: by its kind, with its reason in quotes.
pub proof fn law_storage_errors_show_their_kind(m: String)
    ensures
        StorageError::Serialization(m).debug_text() == "Serialization("@ + quoted(m@) + ")"@,
        StorageError::Deserialization(m).debug_text() == "Deserialization("@ + quoted(m@) + ")"@,
        StorageError::Backend(m).debug_text() == "Backend("@ + quoted(m@) + ")"@,
        StorageError::Init(m).debug_text() == "Init("@ + quoted(m@) + ")"@,
        StorageError::NotFound.debug_text() == "NotFound"@,
{
}

/// A listing of a path has every stored state of the path once, under the fault that its
/// key stands for, and no other one.
pub proof fn law_listing_of_a_path(
    stored: StoredStates,
    path: Seq<char>,
    keys: Seq<Seq<char>>,
    all: Seq<(FaultId, SovdFaultState)>,
    k: Seq<char>,
    i: int,
    j: int,
)
    requires
        lists_path(stored, path, keys),
        reads_keys(stored, path, keys, all),
    ensures
        all.len() == keys.len(),
        0 <= i < all.len() ==> stored.contains_key((path, keys[i])) && all[i].1@ == stored[(
            path,
            keys[i],
        )] && key_decodes(keys[i], Ok(all[i].0)),
        stored.contains_key((path, k)) ==> keys.contains(k),
        0 <= i < j < keys.len() ==> keys[i] != keys[j],
{
    if 0 <= i < all.len() {
        assert(key_decodes(keys[i], Ok(all[i].0)));
        assert(stored.contains_key((path, keys[i])));
    }
}

} // verus!

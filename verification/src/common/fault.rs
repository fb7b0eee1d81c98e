//! Faults: their identity, description, lifecycle and records.

use vstd::prelude::*;
use vstd::string::*;

use super::assoc_map::MapKey;
use super::config::ResetPolicy;
use super::debounce::DebounceMode;
use super::fixed_string::escaped;
use super::fixed_vec::FixedVec;
use super::ids::SourceId;
use super::text::{decimal, push_decimal};
use super::types::{LongString, MetadataVec, ShortString};

verus! {

/// Compliance tags of a fault, up to 8.
pub type ComplianceVec = FixedVec<ComplianceTag, 8>;

/// Identifier of a fault.
#[derive(Clone, Copy, Debug, Eq, PartialOrd, Ord, Hash)]
pub enum FaultId {
    /// Numeric, like a trouble code.
    Numeric(u32),
    /// Symbolic.
    Text(ShortString),
    /// Globally unique.
    Uuid([u8; 16]),
}

impl FaultId {
    /// A symbolic identifier is a well-formed string.
    pub open spec fn wf(self) -> bool {
        self matches FaultId::Text(s) ==> s.wf()
    }
}

/// The items of a byte array, with a comma and a space in between.
pub open spec fn byte_list_text(bytes: Seq<u8>) -> Seq<char>
    decreases bytes.len(),
{
    if bytes.len() == 0 {
        seq![]
    } else if bytes.len() == 1 {
        decimal(bytes[0] as nat)
    } else {
        byte_list_text(bytes.drop_last()) + ", "@ + decimal(bytes.last() as nat)
    }
}

impl FaultId {
    /// The identifier as it is shown in messages.
    pub open spec fn debug_text(self) -> Seq<char> {
        match self {
            FaultId::Numeric(n) => "Numeric("@ + decimal(n as nat) + ")"@,
            FaultId::Text(t) => "Text(StaticString<64> { len: "@ + decimal(t@.len())
                + ", data: \""@ + escaped(t@) + "\" })"@,
            FaultId::Uuid(u) => "Uuid(["@ + byte_list_text(u@) + "])"@,
        }
    }

    /// The identifier as it is shown in messages.
    pub fn to_debug_string(&self) -> (r: String)
        ensures
            r@ == self.debug_text(),
    {
        match self {
            FaultId::Numeric(n) => {
                let mut out = String::from_str("Numeric(");
                push_decimal(&mut out, *n as u64);
                out.concat(")")
            },
            FaultId::Text(t) => {
                let mut out = String::from_str("Text(StaticString<64> { len: ");
                push_decimal(&mut out, t.len() as u64);
                out.append(", data: \"");
                out.append(t.to_string().as_str());
                out.concat("\" })")
            },
            FaultId::Uuid(u) => {
                let mut out = String::from_str("Uuid([");
                let ghost head = out@;
                push_decimal(&mut out, u[0] as u64);
                let mut i: usize = 1;
                assert(u@.take(1) =~= seq![u@[0]]);
                while i < 16
                    invariant
                        1 <= i <= 16,
                        out@ == head + byte_list_text(u@.take(i as int)),
                    decreases 16 - i,
                {
                    out.append(", ");
                    push_decimal(&mut out, u[i] as u64);
                    assert(u@.take(i + 1).drop_last() =~= u@.take(i as int));
                    i += 1;
                    assert(out@ =~= head + byte_list_text(u@.take(i as int)));
                }
                assert(u@.take(16) =~= u@);
                out.concat("])")
            },
        }
    }
}

impl View for FaultId {
    type V = FaultId;

    open spec fn view(&self) -> FaultId {
        *self
    }
}

/// Whether two 16-byte values are equal.
fn same_bytes(a: &[u8; 16], b: &[u8; 16]) -> (r: bool)
    ensures
        r == (*a == *b),
{
    let mut i: usize = 0;
    while i < 16
        invariant
            i <= 16,
            forall|j: int| 0 <= j < i ==> a[j] == b[j],
        decreases 16 - i,
    {
        if a[i] != b[i] {
            assert(a@[i as int] != b@[i as int]);
            return false;
        }
        i += 1;
    }
    assert(*a =~= *b);
    true
}

impl PartialEq for FaultId {
    fn eq(&self, other: &Self) -> (r: bool) {
        match (self, other) {
            (FaultId::Numeric(a), FaultId::Numeric(b)) => *a == *b,
            (FaultId::Text(a), FaultId::Text(b)) => *a == *b,
            (FaultId::Uuid(a), FaultId::Uuid(b)) => same_bytes(a, b),
            _ => false,
        }
    }
}

impl vstd::std_specs::cmp::PartialEqSpecImpl for FaultId {
    open spec fn obeys_eq_spec() -> bool {
        true
    }

    open spec fn eq_spec(&self, other: &Self) -> bool {
        *self == *other
    }
}

impl MapKey for FaultId {
    fn same(&self, other: &Self) -> (r: bool) {
        *self == *other
    }
}

/// Kind of fault, for grouping.
#[derive(Clone, Copy, Debug, PartialEq, Eq, Hash)]
pub enum FaultType {
    /// Sensor, actuator and the like.
    Hardware,
    /// Assertion, logic error and the like.
    Software,
    /// Bus timeout, checksum mismatch and the like.
    Communication,
    /// Invalid parameter, schema mismatch and the like.
    Configuration,
    /// Deadline miss, watchdog and the like.
    Timing,
    /// Undervoltage, brownout and the like.
    Power,
    /// A grouping of the domain's own.
    Custom(ShortString),
}

/// How severe a fault is.
#[derive(Clone, Copy, Debug, PartialEq, Eq, Hash, Structural)]
pub enum FaultSeverity {
    /// Finest diagnostic output.
    Trace,
    /// Useful during development.
    Debug,
    /// No error.
    Info,
    /// May need attention.
    Warn,
    /// Needs action.
    Error,
    /// Cannot be recovered from.
    Fatal,
}

impl FaultSeverity {
    /// The level as a number, rising with severity.
    pub open spec fn level(self) -> u32 {
        match self {
            FaultSeverity::Trace => 0,
            FaultSeverity::Debug => 1,
            FaultSeverity::Info => 2,
            FaultSeverity::Warn => 3,
            FaultSeverity::Error => 4,
            FaultSeverity::Fatal => 5,
        }
    }

    /// The level as a number, rising with severity.
    pub fn as_u32(self) -> (r: u32)
        ensures
            r == self.level(),
    {
        match self {
            FaultSeverity::Trace => 0,
            FaultSeverity::Debug => 1,
            FaultSeverity::Info => 2,
            FaultSeverity::Warn => 3,
            FaultSeverity::Error => 4,
            FaultSeverity::Fatal => 5,
        }
    }
}

/// Regulatory tags of a fault.
#[derive(Clone, Copy, Debug, PartialEq, Eq, Hash, Structural)]
pub enum ComplianceTag {
    /// Relevant for emissions regulation.
    EmissionRelevant,
    /// Part of a safety-critical function.
    SafetyCritical,
    /// Has security implications.
    SecurityRelevant,
    /// Must be retained for legal reasons.
    LegalHold,
}

/// Phase of the reporting component.
#[derive(Clone, Copy, Debug, PartialEq, Eq, Hash, Structural)]
pub enum LifecyclePhase {
    /// Starting up.
    Init,
    /// Normal operation.
    Running,
    /// Going to sleep.
    Suspend,
    /// Waking up.
    Resume,
    /// Shutting down in order.
    Shutdown,
}

/// Stage of a fault's lifecycle.
#[derive(Clone, Copy, Debug, PartialEq, Eq, Hash, Structural)]
pub enum LifecycleStage {
    /// Not tested yet in this window.
    NotTested,
    /// A failure was observed but is not confirmed.
    PreFailed,
    /// Confirmed failure.
    Failed,
    /// Returning to health.
    PrePassed,
    /// Tested and healthy.
    Passed,
}

impl LifecycleStage {
    /// Whether the lifecycle allows going from `self` to `to`: anything but going
    /// back from a confirmed to the matching unconfirmed stage, and confirming the
    /// opposite of an unconfirmed stage.
    pub open spec fn allows(self, to: LifecycleStage) -> bool {
        match (self, to) {
            (LifecycleStage::PreFailed, LifecycleStage::Passed) => false,
            (LifecycleStage::Failed, LifecycleStage::PreFailed) => false,
            (LifecycleStage::PrePassed, LifecycleStage::Failed) => false,
            (LifecycleStage::Passed, LifecycleStage::PrePassed) => false,
            _ => true,
        }
    }

    /// Whether the lifecycle allows going from `self` to `to`; staying is allowed.
    pub fn is_valid_transition(&self, to: &LifecycleStage) -> (r: bool)
        ensures
            r == self.allows(*to),
    {
        if *self == *to {
            return true;
        }
        match (*self, *to) {
            (LifecycleStage::NotTested, _) => true,
            (_, LifecycleStage::NotTested) => true,
            (LifecycleStage::PreFailed, LifecycleStage::Failed) => true,
            (LifecycleStage::PreFailed, LifecycleStage::PrePassed) => true,
            (LifecycleStage::Failed, LifecycleStage::PrePassed) => true,
            (LifecycleStage::Failed, LifecycleStage::Passed) => true,
            (LifecycleStage::PrePassed, LifecycleStage::Passed) => true,
            (LifecycleStage::PrePassed, LifecycleStage::PreFailed) => true,
            (LifecycleStage::Passed, LifecycleStage::PreFailed) => true,
            (LifecycleStage::Passed, LifecycleStage::Failed) => true,
            _ => false,
        }
    }
}

/// Static description of a fault.
#[derive(Clone, Copy, Debug, PartialEq, Eq)]
pub struct FaultDescriptor {
    /// Identifier.
    pub id: FaultId,
    /// Display name.
    pub name: ShortString,
    /// Human-readable summary.
    pub summary: Option<LongString>,
    /// Grouping.
    pub category: FaultType,
    /// Default severity.
    pub severity: FaultSeverity,
    /// Regulatory tags.
    pub compliance: ComplianceVec,
    /// Filter in front of the transport.
    pub reporter_side_debounce: Option<DebounceMode>,
    /// Reset rule of the reporter.
    pub reporter_side_reset: Option<ResetPolicy>,
    /// Filter in the fault manager, per source.
    pub manager_side_debounce: Option<DebounceMode>,
    /// Rule by which the fault manager ages the fault out. While it has one, a
    /// confirmed fault stays confirmed after it passed.
    pub manager_side_reset: Option<ResetPolicy>,
}

/// A point in time as seconds and nanoseconds since the Unix epoch.
#[derive(Clone, Copy, Debug, PartialEq, Eq, Hash, Structural)]
pub struct IpcTimestamp {
    /// Whole seconds.
    pub seconds_since_epoch: u64,
    /// Nanoseconds within the second.
    pub nanoseconds: u32,
}

/// Why a timestamp cannot be made.
#[derive(Clone, Copy, Debug, PartialEq, Eq, Structural)]
pub enum IpcTimestampError {
    /// The nanoseconds make up a second or more.
    NanosecondsOutOfRange(u32),
}

impl IpcTimestamp {
    /// Largest number of nanoseconds within a second.
    pub const MAX_NANOS: u32 = 999_999_999;

    /// A timestamp, whose nanoseconds must stay below a second.
    pub fn new(seconds_since_epoch: u64, nanoseconds: u32) -> (r: Result<Self, IpcTimestampError>)
        ensures
            r == (if nanoseconds <= 999_999_999 {
                Ok(IpcTimestamp { seconds_since_epoch, nanoseconds })
            } else {
                Err(IpcTimestampError::NanosecondsOutOfRange(nanoseconds))
            }),
    {
        if nanoseconds > Self::MAX_NANOS {
            return Err(IpcTimestampError::NanosecondsOutOfRange(nanoseconds));
        }
        Ok(IpcTimestamp { seconds_since_epoch, nanoseconds })
    }
}

impl Default for IpcTimestamp {
    fn default() -> (r: Self)
        ensures
            r.seconds_since_epoch == 0,
            r.nanoseconds == 0,
    {
        IpcTimestamp { seconds_since_epoch: 0, nanoseconds: 0 }
    }
}

impl IpcTimestampError {
    /// The message of the error.
    pub fn to_string(&self) -> (r: String)
        ensures
            self matches IpcTimestampError::NanosecondsOutOfRange(n) && r@
                == "nanoseconds out of range: "@ + decimal(n as nat) + " (max: 999_999_999)"@,
    {
        match self {
            IpcTimestampError::NanosecondsOutOfRange(n) => {
                let mut out = String::from_str("nanoseconds out of range: ");
                push_decimal(&mut out, *n as u64);
                out.concat(" (max: 999_999_999)")
            },
        }
    }
}

/// One report of a fault.
#[derive(Clone, Copy, Debug, PartialEq)]
pub struct FaultRecord {
    /// Which fault.
    pub id: FaultId,
    /// When it was reported.
    pub time: IpcTimestamp,
    /// Who reported it.
    pub source: SourceId,
    /// Phase of the reporter.
    pub lifecycle_phase: LifecyclePhase,
    /// Stage of the fault.
    pub lifecycle_stage: LifecycleStage,
    /// Free-form environment data.
    pub env_data: MetadataVec,
}

/// The levels rise with the severity, one by one from zero to five.
pub proof fn law_levels_rise_with_severity()
    ensures
        FaultSeverity::Trace.level() == 0,
        FaultSeverity::Debug.level() == FaultSeverity::Trace.level() + 1,
        FaultSeverity::Info.level() == FaultSeverity::Debug.level() + 1,
        FaultSeverity::Warn.level() == FaultSeverity::Info.level() + 1,
        FaultSeverity::Error.level() == FaultSeverity::Warn.level() + 1,
        FaultSeverity::Fatal.level() == FaultSeverity::Error.level() + 1,
{
}

/// A stage may stay, and may be left for and entered from one that is not tested. Other
/// than that, a confirmed stage does not go back to its unconfirmed one, and an
/// unconfirmed stage is not followed by the confirmation of the opposite; everything else
/// is allowed.
pub proof fn law_stage_transitions(a: LifecycleStage, b: LifecycleStage)
    ensures
        a.allows(a),
        LifecycleStage::NotTested.allows(b),
        a.allows(LifecycleStage::NotTested),
        !LifecycleStage::Failed.allows(LifecycleStage::PreFailed),
        !LifecycleStage::Passed.allows(LifecycleStage::PrePassed),
        !LifecycleStage::PreFailed.allows(LifecycleStage::Passed),
        !LifecycleStage::PrePassed.allows(LifecycleStage::Failed),
        !a.allows(b) ==> (a is Failed && b is PreFailed) || (a is Passed && b is PrePassed) || (
        a is PreFailed && b is Passed) || (a is PrePassed && b is Failed),
{
}

/// A timestamp is made exactly of nanoseconds that stay below a second, and is made of
/// what was given.
pub proof fn law_timestamps_are_checked(
    seconds: u64,
    nanoseconds: u32,
    r: Result<IpcTimestamp, IpcTimestampError>,
)
    requires
        call_ensures(IpcTimestamp::new, (seconds, nanoseconds), r),
    ensures
        nanoseconds < 1_000_000_000 ==> (r matches Ok(t) && t.seconds_since_epoch == seconds
            && t.nanoseconds == nanoseconds),
        nanoseconds >= 1_000_000_000 ==> r == Err::<IpcTimestamp, _>(
            IpcTimestampError::NanosecondsOutOfRange(nanoseconds),
        ),
{
}

/// How identifiers show in messages: by their kind, with the number in decimal, the length
/// and the text, or the bytes in decimal with commas in between.
pub proof fn law_identifiers_show_their_value(n: u32, t: ShortString, u: [u8; 16])
    ensures
        FaultId::Numeric(n).debug_text() == "Numeric("@ + decimal(n as nat) + ")"@,
        FaultId::Text(t).debug_text() == "Text(StaticString<64> { len: "@ + decimal(t@.len())
            + ", data: \""@ + escaped(t@) + "\" })"@,
        FaultId::Uuid(u).debug_text() == "Uuid(["@ + byte_list_text(u@) + "])"@,
{
}

/// A list of bytes shows them in decimal, in order, with a comma and a space between any
/// two.
pub proof fn law_bytes_show_in_order(bytes: Seq<u8>, b: u8)
    ensures
        byte_list_text(Seq::empty()) == Seq::<char>::empty(),
        byte_list_text(seq![b]) == decimal(b as nat),
        bytes.len() > 0 ==> byte_list_text(bytes.push(b)) == byte_list_text(bytes) + ", "@
            + decimal(b as nat),
{
    assert(bytes.push(b).drop_last() =~= bytes);
}

/// Identifiers are compared by their value: two are equal exactly if they are of the same
/// kind with the same number, text or bytes.
pub proof fn law_identifiers_are_compared_by_value(a: FaultId, b: FaultId)
    ensures
        vstd::std_specs::cmp::PartialEqSpec::eq_spec(&a, &b) <==> a == b,
{
}

} // verus!

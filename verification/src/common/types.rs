//! Strings, vectors and the event envelope that cross process boundaries.

use vstd::prelude::*;
use vstd::utf8::*;

use super::enabling_condition::EnablingConditionStatus;
use super::fault::FaultRecord;
use super::fixed_string::{stored_bytes, FixedString, StringModificationError};
use super::fixed_vec::FixedVec;

verus! {

/// Capacity of a [`ShortString`] in bytes.
pub const SHORT_STRING_CAPACITY: usize = 64;

/// Capacity of a [`LongString`] in bytes.
pub const LONG_STRING_CAPACITY: usize = 128;

/// Fixed-size string of up to 64 bytes.
pub type ShortString = FixedString<64>;

/// Fixed-size string of up to 128 bytes.
pub type LongString = FixedString<128>;

/// Key-value metadata, up to 8 entries.
pub type MetadataVec = FixedVec<(ShortString, ShortString), 8>;

/// Bytes of a SHA-256 digest.
pub type Sha256Vec = FixedVec<u8, 32>;

/// Envelope for every kind of event that is sent to the fault manager.
#[derive(Clone, Copy, Debug)]
pub enum DiagnosticEvent {
    /// Catalog hash for the handshake: catalog id and digest.
    Hash((LongString, Sha256Vec)),
    /// Fault record with the path of the reporting entity.
    Fault((LongString, FaultRecord)),
    /// Announces an enabling condition by its entity name.
    EnablingConditionRegister(ShortString),
    /// New status of an enabling condition.
    EnablingConditionStatusChange((ShortString, EnablingConditionStatus)),
}

/// Converts text into a [`ShortString`]; fails on more than 64 bytes and on
/// characters that are NUL or not ASCII.
pub fn to_static_short_string(input: &str) -> (r: Result<ShortString, StringModificationError>)
    ensures
        match r {
            Ok(s) => s.wf() && stored_bytes(encode_utf8(input@), 64) == Ok::<
                _,
                StringModificationError,
            >(s@),
            Err(e) => stored_bytes(encode_utf8(input@), 64) == Err::<Seq<u8>, _>(e),
        },
{
    ShortString::from_bytes(input.as_bytes())
}

/// Converts text into a [`LongString`]; fails on more than 128 bytes and on
/// characters that are NUL or not ASCII.
pub fn to_static_long_string(input: &str) -> (r: Result<LongString, StringModificationError>)
    ensures
        match r {
            Ok(s) => s.wf() && stored_bytes(encode_utf8(input@), 128) == Ok::<
                _,
                StringModificationError,
            >(s@),
            Err(e) => stored_bytes(encode_utf8(input@), 128) == Err::<Seq<u8>, _>(e),
        },
{
    LongString::from_bytes(input.as_bytes())
}

} // verus!

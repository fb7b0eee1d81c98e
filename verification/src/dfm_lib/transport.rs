//! What the event loop of the fault manager needs from its transport.

use vstd::prelude::*;

use crate::common::enabling_condition::EnablingConditionNotification;
use crate::common::sink_error::SinkError;
use crate::common::types::DiagnosticEvent;

verus! {

/// The fault manager's side of a transport.
pub trait DfmTransport {
    /// Takes the next diagnostic event, if there is one, without waiting.
    fn receive_event(&self) -> Result<Option<DiagnosticEvent>, SinkError>;

    /// Tells the reporters whether their catalog is the right one.
    fn publish_hash_response(&self, response: bool) -> Result<(), SinkError>;

    /// Tells the reporters that an enabling condition changed.
    fn publish_ec_notification(&self, notification: EnablingConditionNotification) -> Result<
        (),
        SinkError,
    >;

    /// Waits for one round of the event loop, given in nanoseconds. Gives `false` when
    /// the transport has died.
    fn wait(&self, timeout: u128) -> Result<bool, SinkError>;
}

} // verus!

//! The queue from reporters to the worker, and the checks that records pass before they
//! are put into it.

use std::collections::VecDeque;
use vstd::prelude::*;
use vstd::string::*;
use vstd::utf8::*;

use super::ipc_worker::WorkerInput;
use crate::common::catalog::{CatalogBuildError, FaultCatalog};
use crate::common::fault::FaultRecord;
use crate::common::fixed_string::{all_string_bytes, stored_bytes};
use crate::common::sink_error::SinkError;
use crate::common::text::{decimal, lemma_ascii_bytes, push_decimal};
use crate::common::types::{
    to_static_long_string, DiagnosticEvent, LongString, Sha256Vec, LONG_STRING_CAPACITY,
};

verus! {

/// How long the sink waits for the answer to a hash check.
pub const HASH_CHECK_TIMEOUT_NANOS: u128 = 500_000_000;

/// How long the sink sleeps between two looks for that answer.
pub const HASH_CHECK_POLL_NANOS: u128 = 50_000_000;

/// Most messages that wait for the worker.
pub const CHANNEL_CAPACITY: usize = 1024;

/// Longest path of an entity in bytes.
pub const MAX_PATH_LENGTH: usize = LONG_STRING_CAPACITY;

/// Why the sink or its worker cannot be set up.
#[derive(Clone, Debug)]
#[non_exhaustive]
pub enum SinkInitError {
    /// The worker thread cannot be started.
    ThreadSpawn(String),
    /// The worker cannot set up its resources.
    WorkerInit(String),
    /// A node, service or port cannot be created.
    IpcService(String),
    /// The worker cannot be reached.
    Channel(String),
}

impl SinkInitError {
    /// The message of the error.
    pub open spec fn message(self) -> Seq<char> {
        match self {
            SinkInitError::ThreadSpawn(m) => "thread spawn failed: "@ + m@,
            SinkInitError::WorkerInit(m) => "worker initialization failed: "@ + m@,
            SinkInitError::IpcService(m) => "IPC service creation failed: "@ + m@,
            SinkInitError::Channel(m) => "channel error: "@ + m@,
        }
    }

    /// The message of the error.
    pub fn to_string(&self) -> (r: String)
        ensures
            r@ == self.message(),
    {
        match self {
            SinkInitError::ThreadSpawn(m) => String::from_str("thread spawn failed: ").concat(
                m.as_str(),
            ),
            SinkInitError::WorkerInit(m) => String::from_str(
                "worker initialization failed: ",
            ).concat(m.as_str()),
            SinkInitError::IpcService(m) => String::from_str(
                "IPC service creation failed: ",
            ).concat(m.as_str()),
            SinkInitError::Channel(m) => String::from_str("channel error: ").concat(m.as_str()),
        }
    }
}

/// Why the worker cannot be reached.
#[derive(Clone, Debug, PartialEq, Eq)]
#[non_exhaustive]
pub enum FaultManagerError {
    /// The message could not be sent.
    SendError(String),
    /// No answer in time.
    Timeout,
}

impl FaultManagerError {
    /// The error as callers of the sink see it.
    pub fn into_sink_error(self) -> (r: SinkError)
        ensures
            match self {
                FaultManagerError::SendError(m) => r == SinkError::Other(m),
                FaultManagerError::Timeout => r matches SinkError::Other(m) && m@ == "timeout"@,
            },
    {
        match self {
            FaultManagerError::SendError(m) => SinkError::Other(m),
            FaultManagerError::Timeout => SinkError::Other(String::from_str("timeout")),
        }
    }
}

/// A message to the worker.
#[derive(Clone, Copy, Debug)]
pub enum WorkerMsg {
    /// Asks the worker to tell that it is running.
    Start,
    /// An event to be sent.
    Event(DiagnosticEvent),
    /// Asks the worker to end.
    Exit,
}

/// What `char::is_alphanumeric` says of a character that is not ASCII.
pub uninterp spec fn unicode_alphanumeric(c: char) -> bool;

/// An ASCII letter or digit.
pub open spec fn ascii_alphanumeric(c: char) -> bool {
    '0' <= c <= '9' || 'A' <= c <= 'Z' || 'a' <= c <= 'z'
}

/// A letter or a number.
pub open spec fn alphanumeric(c: char) -> bool {
    if c <= '\u{7f}' {
        ascii_alphanumeric(c)
    } else {
        unicode_alphanumeric(c)
    }
}

/// Says of `char::is_alphanumeric` that among the ASCII characters it holds of the letters
/// and digits. Which other characters count as letters or numbers is left to the Unicode
/// tables; the result depends on the character alone.
pub assume_specification[ char::is_alphanumeric ](c: char) -> (r: bool)
    ensures
        r == (if c <= '\u{7f}' {
            ascii_alphanumeric(c)
        } else {
            unicode_alphanumeric(c)
        }),
;

/// A character that a path may hold.
pub open spec fn path_char(c: char) -> bool {
    alphanumeric(c) || c == '/' || c == '.' || c == '-' || c == '_'
}

/// Two dots in a row begin at `i`.
pub open spec fn dots_at(path: Seq<char>, i: int) -> bool {
    0 <= i && i + 1 < path.len() && path[i] == '.' && path[i + 1] == '.'
}

/// A path begins with a letter or number, does not end with a slash, never has two dots
/// in a row, and holds only letters, numbers and `/`, `.`, `-`, `_`.
pub open spec fn valid_path(path: Seq<char>) -> bool {
    &&& path.len() > 0
    &&& alphanumeric(path[0])
    &&& path.last() != '/'
    &&& forall|i: int| !dots_at(path, i)
    &&& forall|i: int| 0 <= i < path.len() ==> path_char(#[trigger] path[i])
}

/// The format of the path is right; see [`valid_path`].
pub fn is_valid_path(path: &str) -> (r: bool)
    ensures
        r == valid_path(path@),
{
    let n: usize = path.unicode_len();
    if n == 0 {
        return false;
    }
    if !path.get_char(0).is_alphanumeric() {
        return false;
    }
    if path.get_char(n - 1) == '/' {
        return false;
    }
    let mut i: usize = 0;
    let mut after_dot: bool = false;
    while i < n
        invariant
            i <= n,
            n == path@.len(),
            after_dot == (i > 0 && path@[i - 1] == '.'),
            forall|j: int| j + 1 < i ==> !dots_at(path@, j),
            forall|j: int| 0 <= j < i ==> path_char(#[trigger] path@[j]),
        decreases n - i,
    {
        let c: char = path.get_char(i);
        if c == '.' {
            if after_dot {
                assert(dots_at(path@, i - 1));
                return false;
            }
            after_dot = true;
        } else {
            if !(c.is_alphanumeric() || c == '/' || c == '-' || c == '_') {
                assert(!path_char(path@[i as int]));
                return false;
            }
            after_dot = false;
        }
        i += 1;
    }
    true
}

/// What putting a message into the queue gives: it is refused when there is no receiver
/// any more, and when the queue is full.
pub open spec fn enqueued(
    before: FaultManagerSink,
    msg: WorkerMsg,
    lost: Seq<char>,
    r: Result<(), SinkError>,
    after: FaultManagerSink,
) -> bool {
    if !before.connected {
        &&& after == before
        &&& r matches Err(SinkError::Other(m))
        &&& m@ == lost
    } else if before.queue@.len() >= before.capacity {
        after == before && r == Err::<(), _>(SinkError::QueueFull)
    } else {
        &&& r == Ok::<(), SinkError>(())
        &&& after.queue@ == before.queue@.push(msg)
        &&& after.capacity == before.capacity
        &&& after.connected == before.connected
    }
}

/// Why a record cannot be published under the path, if it cannot.
pub open spec fn path_refused(path: Seq<char>) -> Option<Seq<char>> {
    let bytes = encode_utf8(path);
    if bytes.len() > MAX_PATH_LENGTH {
        Some("path too long: "@ + decimal(bytes.len()) + " bytes (max "@ + decimal(128) + ")"@)
    } else if !valid_path(path) {
        Some("invalid path format"@)
    } else if !all_string_bytes(bytes) {
        Some("path exceeds LongString capacity: "@ + decimal(bytes.len()) + " bytes"@)
    } else {
        None
    }
}

/// The event that reports a record under a path, if the path is acceptable: at most 128
/// bytes, in the right format, and ASCII.
pub fn fault_event(path: &str, record: FaultRecord) -> (r: Result<DiagnosticEvent, SinkError>)
    ensures
        match path_refused(path@) {
            Some(message) => r matches Err(SinkError::BadDescriptor(m)) && m@ == message,
            None => r matches Ok(DiagnosticEvent::Fault((p, f))) && p@ == encode_utf8(path@) && f
                == record,
        },
{
    let n: usize = path.as_bytes().len();
    if n > MAX_PATH_LENGTH {
        let mut message = String::from_str("path too long: ");
        push_decimal(&mut message, n as u64);
        message.append(" bytes (max ");
        push_decimal(&mut message, MAX_PATH_LENGTH as u64);
        message.append(")");
        return Err(SinkError::BadDescriptor(message));
    }
    if !is_valid_path(path) {
        return Err(SinkError::BadDescriptor(String::from_str("invalid path format")));
    }
    match to_static_long_string(path) {
        Ok(long_path) => Ok(DiagnosticEvent::Fault((long_path, record))),
        Err(_) => {
            let mut message = String::from_str("path exceeds LongString capacity: ");
            push_decimal(&mut message, n as u64);
            message.append(" bytes");
            Err(SinkError::BadDescriptor(message))
        },
    }
}

/// The event that asks for a check of a catalog: its id and hash. It fails when the id
/// does not fit into a path or the hash is too long.
pub fn hash_event(catalog: &FaultCatalog) -> (r: Result<DiagnosticEvent, SinkError>)
    ensures
        match stored_bytes(encode_utf8(catalog.id@), 128) {
            Err(_) => r matches Err(SinkError::Other(m)) && m@ == "catalog id error: "@
                + CatalogBuildError::IdTooLong(catalog.id).message(),
            Ok(id) => if catalog.hash().len() > 32 {
                r matches Err(SinkError::Other(m)) && m@ == "catalog hash too long for IPC"@
            } else {
                r matches Ok(DiagnosticEvent::Hash((i, h))) && i@ == id && h@ == catalog.hash()
            },
        },
{
    let id: LongString = match catalog.try_id() {
        Ok(id) => id,
        Err(e) => {
            return Err(
                SinkError::Other(String::from_str("catalog id error: ").concat(&e.to_string())),
            );
        },
    };
    match Sha256Vec::try_from(catalog.config_hash()) {
        Ok(hash) => Ok(DiagnosticEvent::Hash((id, hash))),
        Err(_) => Err(SinkError::Other(String::from_str("catalog hash too long for IPC"))),
    }
}

/// What the sink does while it waits for the answer to a hash check.
#[derive(Debug)]
pub enum HashCheckStep {
    /// Look for the answer.
    Receive,
    /// Sleep for a moment, then go on with the time that has passed.
    Sleep,
    /// The answer, or why there is none.
    Done(Result<bool, SinkError>),
}

/// Decides whether the sink goes on waiting, given the time that has passed.
pub fn hash_check_elapsed(elapsed: u128) -> (r: HashCheckStep)
    ensures
        r == (if elapsed < HASH_CHECK_TIMEOUT_NANOS {
            HashCheckStep::Receive
        } else {
            HashCheckStep::Done(Err(SinkError::Timeout))
        }),
{
    if elapsed < HASH_CHECK_TIMEOUT_NANOS {
        HashCheckStep::Receive
    } else {
        HashCheckStep::Done(Err(SinkError::Timeout))
    }
}

/// Decides what to make of a look for the answer; `None` means that the look failed.
pub fn hash_check_received(received: Option<Option<bool>>) -> (r: HashCheckStep)
    ensures
        r == (match received {
            None => HashCheckStep::Done(Err(SinkError::TransportDown)),
            Some(Some(answer)) => HashCheckStep::Done(Ok(answer)),
            Some(None) => HashCheckStep::Sleep,
        }),
{
    match received {
        None => HashCheckStep::Done(Err(SinkError::TransportDown)),
        Some(Some(answer)) => HashCheckStep::Done(Ok(answer)),
        Some(None) => HashCheckStep::Sleep,
    }
}

/// The queue of messages to the worker: bounded, first in, first out.
#[derive(Debug)]
pub struct FaultManagerSink {
    /// The messages that wait.
    pub queue: VecDeque<WorkerMsg>,
    /// Most messages that wait.
    pub capacity: usize,
    /// There is a receiver.
    pub connected: bool,
}

impl FaultManagerSink {
    /// An empty queue of the usual capacity.
    pub fn new() -> (r: Self)
        ensures
            r.queue@ == Seq::<WorkerMsg>::empty(),
            r.capacity == CHANNEL_CAPACITY,
            r.connected,
    {
        Self::with_capacity(CHANNEL_CAPACITY)
    }

    /// An empty queue of the given capacity.
    pub fn with_capacity(capacity: usize) -> (r: Self)
        ensures
            r.queue@ == Seq::<WorkerMsg>::empty(),
            r.capacity == capacity,
            r.connected,
    {
        FaultManagerSink { queue: VecDeque::new(), capacity, connected: true }
    }

    /// Puts a message into the queue; `lost` is the message of the error when there is
    /// no receiver any more.
    fn enqueue(&mut self, msg: WorkerMsg, lost: &str) -> (r: Result<(), SinkError>)
        ensures
            enqueued(*old(self), msg, lost@, r, *final(self)),
    {
        if !self.connected {
            let e = FaultManagerError::SendError(String::from_str(lost));
            return Err(e.into_sink_error());
        }
        if self.queue.len() >= self.capacity {
            return Err(SinkError::QueueFull);
        }
        self.queue.push_back(msg);
        Ok(())
    }

    /// Puts an event into the queue.
    pub fn send_event(&mut self, event: DiagnosticEvent) -> (r: Result<(), SinkError>)
        ensures
            enqueued(
                *old(self),
                WorkerMsg::Event(event),
                "Cannot send event: channel disconnected"@,
                r,
                *final(self),
            ),
    {
        self.enqueue(WorkerMsg::Event(event), "Cannot send event: channel disconnected")
    }

    /// Puts a record into the queue, if its path is acceptable.
    pub fn publish(&mut self, path: &str, record: FaultRecord) -> (r: Result<(), SinkError>)
        ensures
            publishes(*old(self), path@, record, r, *final(self)),
    {
        match fault_event(path, record) {
            Ok(event) => self.send_event(event),
            Err(e) => Err(e),
        }
    }

    /// Puts the question for a check of the catalog into the queue.
    pub fn begin_hash_check(&mut self, catalog: &FaultCatalog) -> (r: Result<(), SinkError>)
        ensures
            match stored_bytes(encode_utf8(catalog.id@), 128) {
                Err(_) => {
                    &&& *final(self) == *old(self)
                    &&& r matches Err(SinkError::Other(m))
                    &&& m@ == "catalog id error: "@ + CatalogBuildError::IdTooLong(
                        catalog.id,
                    ).message()
                },
                Ok(id) => if catalog.hash().len() > 32 {
                    &&& *final(self) == *old(self)
                    &&& r matches Err(SinkError::Other(m))
                    &&& m@ == "catalog hash too long for IPC"@
                } else {
                    exists|i: LongString, h: Sha256Vec|
                        i@ == id && h@ == catalog.hash() && #[trigger] enqueued(
                            *old(self),
                            WorkerMsg::Event(DiagnosticEvent::Hash((i, h))),
                            "Cannot send hash check: channel disconnected"@,
                            r,
                            *final(self),
                        )
                },
            },
    {
        match hash_event(catalog) {
            Ok(event) => self.enqueue(
                WorkerMsg::Event(event),
                "Cannot send hash check: channel disconnected",
            ),
            Err(e) => Err(e),
        }
    }

    /// Asks the worker to tell that it is running, or to end; a full queue or a missing
    /// receiver is passed over.
    pub fn signal(&mut self, msg: WorkerMsg)
        ensures
            final(self).capacity == old(self).capacity,
            final(self).connected == old(self).connected,
            final(self).queue@ == if old(self).connected && old(self).queue@.len() < old(self).capacity {
                old(self).queue@.push(msg)
            } else {
                old(self).queue@
            },
    {
        let _ = self.enqueue(msg, "");
    }

    /// Takes the oldest message out of the queue. Without one, the worker has to wait,
    /// or has nothing more to wait for if `closed` says that no sender is left.
    pub fn receive(&mut self, closed: bool) -> (r: WorkerInput)
        ensures
            final(self).capacity == old(self).capacity,
            final(self).connected == old(self).connected,
            old(self).queue@.len() > 0 ==> r == WorkerInput::Message(old(self).queue@[0]) && final(self).queue@ == old(self).queue@.skip(1),
            old(self).queue@.len() == 0 ==> final(self).queue@ == old(self).queue@ && r == (
            if closed {
                WorkerInput::Disconnected
            } else {
                WorkerInput::Timeout
            }),
    {
        match self.queue.pop_front() {
            Some(msg) => {
                assert(self.queue@ =~= old(self).queue@.skip(1));
                WorkerInput::Message(msg)
            },
            None => if closed {
                WorkerInput::Disconnected
            } else {
                WorkerInput::Timeout
            },
        }
    }

    /// The receiver is gone; nothing more is taken.
    pub fn disconnect(&mut self)
        ensures
            !final(self).connected,
            final(self).queue == old(self).queue,
            final(self).capacity == old(self).capacity,
    {
        self.connected = false;
    }
}

/// What publishing a record does to the queue: a path that is not acceptable is refused,
/// otherwise the record is put into the queue with its path.
pub open spec fn publishes(
    before: FaultManagerSink,
    path: Seq<char>,
    record: FaultRecord,
    r: Result<(), SinkError>,
    after: FaultManagerSink,
) -> bool {
    match path_refused(path) {
        Some(message) => {
            &&& r matches Err(SinkError::BadDescriptor(m))
            &&& m@ == message
            &&& after == before
        },
        None => exists|p: LongString| p@ == encode_utf8(path) && #[trigger] enqueued(
            before,
            WorkerMsg::Event(DiagnosticEvent::Fault((p, record))),
            "Cannot send event: channel disconnected"@,
            r,
            after,
        ),
    }
}

/// The queue never holds more than its capacity.
pub proof fn law_queue_is_bounded(
    before: FaultManagerSink,
    msg: WorkerMsg,
    lost: Seq<char>,
    r: Result<(), SinkError>,
    after: FaultManagerSink,
)
    requires
        before.queue@.len() <= before.capacity,
        enqueued(before, msg, lost, r, after),
    ensures
        after.queue@.len() <= after.capacity,
        r is Ok <==> after.queue@ != before.queue@,
        r is Err ==> after == before,
{
    if r is Ok {
        assert(after.queue@.len() == before.queue@.len() + 1);
    }
}

/// A path that is accepted leads nowhere else: it is not absolute, has no two dots in a
/// row and does not end with a slash. It holds at most 128 bytes, all of them ASCII.
pub proof fn law_accepted_paths_are_contained(path: Seq<char>)
    requires
        path_refused(path) is None,
    ensures
        0 < path.len(),
        path[0] != '/',
        path[0] != '.',
        path.last() != '/',
        forall|i: int| 0 <= i && i + 1 < path.len() && path[i] == '.' ==> #[trigger] path[i + 1]
            != '.',
        encode_utf8(path).len() <= 128,
        all_string_bytes(encode_utf8(path)),
{
    assert forall|i: int| 0 <= i && i + 1 < path.len() && path[i] == '.' implies #[trigger] path[i
        + 1] != '.' by {
        assert(!dots_at(path, i));
    }
}

/// A character of an ASCII path: a letter, a digit, a slash, a dot, a hyphen or an
/// underscore.
pub open spec fn ascii_path_char(c: char) -> bool {
    ('a' <= c && c <= 'z') || ('A' <= c && c <= 'Z') || ('0' <= c && c <= '9') || c == '/' || c
        == '.' || c == '-' || c == '_'
}

/// An ASCII path is accepted exactly if it has 1 to 128 characters, all of them letters,
/// digits, slashes, dots, hyphens and underscores, begins with a letter or a digit, does
/// not end with a slash and never has two dots in a row.
pub proof fn law_ascii_paths_are_accepted(path: Seq<char>)
    requires
        is_ascii_chars(path),
    ensures
        path_refused(path) is None <==> {
            &&& 0 < path.len() <= 128
            &&& forall|i: int| 0 <= i < path.len() ==> ascii_path_char(#[trigger] path[i])
            &&& path[0] != '/' && path[0] != '.' && path[0] != '-' && path[0] != '_'
            &&& path[path.len() - 1] != '/'
            &&& forall|i: int|
                0 < i < path.len() && (#[trigger] path[i]) == '.' ==> path[i - 1] != '.'
        },
{
    lemma_ascii_bytes(path);
    let b = encode_utf8(path);
    let dotted = exists|i: int| 0 < i < path.len() && (#[trigger] path[i]) == '.' && path[i - 1]
        == '.';
    if dotted {
        let i = choose|i: int|
            0 < i < path.len() && (#[trigger] path[i]) == '.' && path[i - 1] == '.';
        assert(dots_at(path, i - 1));
    } else {
        assert forall|i: int| !dots_at(path, i) by {
            if dots_at(path, i) {
                assert(path[i + 1] == '.' && path[i + 1 - 1] == '.');
            }
        }
    }
    assert forall|i: int| 0 <= i < path.len() implies path_char(path[i]) == ascii_path_char(
        #[trigger] path[i],
    ) by {
        assert('\0' <= path[i] <= '\u{7f}');
    }
    if forall|i: int| 0 <= i < path.len() ==> ascii_path_char(#[trigger] path[i]) {
        assert forall|i: int| 0 <= i < b.len() implies crate::common::fixed_string::is_string_byte(
            #[trigger] b[i],
        ) by {
            assert(b[i] == path[i] as u8);
            assert(ascii_path_char(path[i]));
        }
    }
    if path_refused(path) is None {
        assert forall|i: int| 0 <= i < path.len() implies ascii_path_char(#[trigger] path[i]) by {
            assert(path_char(path[i]));
        }
    }
}

/// A message is taken exactly if there is a receiver and room in the queue; it then stands
/// last, behind those that wait. A refused one changes nothing, and the reason tells
/// whether the queue is full or nobody receives.
pub proof fn law_queue_takes_while_there_is_room(
    before: FaultManagerSink,
    msg: WorkerMsg,
    lost: Seq<char>,
    r: Result<(), SinkError>,
    after: FaultManagerSink,
)
    requires
        enqueued(before, msg, lost, r, after),
    ensures
        r is Ok <==> before.connected && before.queue@.len() < before.capacity,
        r is Ok ==> after.queue@.len() == before.queue@.len() + 1 && after.queue@.last() == msg
            && after.queue@.drop_last() == before.queue@ && after.capacity == before.capacity
            && after.connected,
        r is Err ==> after == before,
        before.connected && r is Err ==> r->Err_0 is QueueFull,
        !before.connected ==> (r->Err_0 matches SinkError::Other(m) && m@ == lost),
{
    if r is Ok {
        assert(after.queue@.drop_last() =~= before.queue@);
    }
}

/// A record is refused for its path alone, or for the queue as any message; one that is
/// taken stands last in the queue, with its path.
pub proof fn law_published_record(
    before: FaultManagerSink,
    path: Seq<char>,
    record: FaultRecord,
    r: Result<(), SinkError>,
    after: FaultManagerSink,
)
    requires
        publishes(before, path, record, r, after),
    ensures
        r is Ok <==> path_refused(path) is None && before.connected && before.queue@.len()
            < before.capacity,
        path_refused(path) is Some ==> r->Err_0 is BadDescriptor && after == before,
        r is Err ==> after == before,
        r is Ok ==> (after.queue@.last() matches WorkerMsg::Event(DiagnosticEvent::Fault((p, f)))
            && p@ == encode_utf8(path) && f == record) && after.queue@.drop_last() == before.queue@,
{
    if path_refused(path) is None {
        let p = choose|p: LongString| p@ == encode_utf8(path) && #[trigger] enqueued(
            before,
            WorkerMsg::Event(DiagnosticEvent::Fault((p, record))),
            "Cannot send event: channel disconnected"@,
            r,
            after,
        );
        law_queue_takes_while_there_is_room(
            before,
            WorkerMsg::Event(DiagnosticEvent::Fault((p, record))),
            "Cannot send event: channel disconnected"@,
            r,
            after,
        );
    }
}

/// The sink looks for the answer to a hash check for half a second, and then gives up.
pub proof fn law_hash_check_gives_up_in_time(elapsed: u128, r: HashCheckStep)
    requires
        call_ensures(hash_check_elapsed, (elapsed,), r),
    ensures
        elapsed < 500_000_000 <==> r is Receive,
        elapsed >= 500_000_000 ==> r == HashCheckStep::Done(Err(SinkError::Timeout)),
{
}

/// An answer to a hash check is passed on as it is; a look that fails ends the check, and
/// one that finds nothing goes on.
pub proof fn law_hash_answer_is_passed_on(received: Option<Option<bool>>, r: HashCheckStep)
    requires
        call_ensures(hash_check_received, (received,), r),
    ensures
        received matches Some(Some(b)) ==> r == HashCheckStep::Done(Ok(b)),
        received == Some(None::<bool>) ==> r is Sleep,
        received is None ==> r == HashCheckStep::Done(Err(SinkError::TransportDown)),
{
}

/// A new queue is empty, has a receiver and room for 1024 messages.
pub proof fn law_new_queue(sink: FaultManagerSink)
    requires
        call_ensures(FaultManagerSink::new, (), sink),
    ensures
        sink.queue@.len() == 0,
        sink.connected,
        sink.capacity == 1024,
{
}

/// The message of an error names what could not be set up; the details stand behind it.
pub proof fn law_setup_messages_name_the_cause(m: String)
    ensures
        SinkInitError::ThreadSpawn(m).message() == "thread spawn failed: "@ + m@,
        SinkInitError::WorkerInit(m).message() == "worker initialization failed: "@ + m@,
        SinkInitError::IpcService(m).message() == "IPC service creation failed: "@ + m@,
        SinkInitError::Channel(m).message() == "channel error: "@ + m@,
{
}

/// A path is refused with the reason: one of more than 128 bytes for its length, any other
/// one for its form, and one in the right form for what is not ASCII.
pub proof fn law_refused_paths_have_a_reason(
    before: FaultManagerSink,
    path: Seq<char>,
    record: FaultRecord,
    r: Result<(), SinkError>,
    after: FaultManagerSink,
)
    requires
        publishes(before, path, record, r, after),
    ensures
        ({
            let n = encode_utf8(path).len();
            &&& n > 128 ==> (r matches Err(SinkError::BadDescriptor(m)) && m@ == "path too long: "@
                + decimal(n) + " bytes (max "@ + decimal(128) + ")"@)
            &&& n <= 128 && !valid_path(path) ==> (r matches Err(SinkError::BadDescriptor(m)) && m@
                == "invalid path format"@)
            &&& n <= 128 && valid_path(path) && !all_string_bytes(encode_utf8(path)) ==> (
            r matches Err(SinkError::BadDescriptor(m)) && m@ == "path exceeds LongString capacity: "@
                + decimal(n) + " bytes"@)
            &&& n <= 128 && valid_path(path) && all_string_bytes(encode_utf8(path))
                && !before.connected ==> (r matches Err(SinkError::Other(m)) && m@
                == "Cannot send event: channel disconnected"@)
        }),
{
}

/// The event of a record carries the record and its path as they are, if the path is
/// accepted; the event of a catalog carries its id and its hash, if they fit.
pub proof fn law_events_carry_what_is_reported(
    path: &str,
    record: FaultRecord,
    catalog: FaultCatalog,
    fault: Result<DiagnosticEvent, SinkError>,
    hash: Result<DiagnosticEvent, SinkError>,
)
    requires
        call_ensures(fault_event, (path, record), fault),
        call_ensures(hash_event, (&catalog,), hash),
    ensures
        fault is Ok <==> path_refused(path@) is None,
        fault matches Ok(e) ==> (e matches DiagnosticEvent::Fault((p, f)) && p@ == encode_utf8(
            path@,
        ) && f == record),
        fault matches Err(e) ==> e is BadDescriptor,
        hash is Ok <==> encode_utf8(catalog.id@).len() <= 128 && all_string_bytes(
            encode_utf8(catalog.id@),
        ) && catalog.hash().len() <= 32,
        hash matches Ok(e) ==> (e matches DiagnosticEvent::Hash((i, h)) && i@ == encode_utf8(
            catalog.id@,
        ) && h@ == catalog.hash()),
        hash matches Err(e) ==> e is Other,
{
}

} // verus!

//! Requests to the query service and the reading of its answers.

use vstd::prelude::*;
use vstd::string::*;

use super::fault_record_processor::env_texts;
use super::kvs::text_map;
use super::query_conversion::{
    carried, env_carried, ipc_env_data_to_sovd, ipc_fault_to_sovd, ipc_of, long_str, short_str,
    sovd_of,
};
use super::query_server::{answers_listing, answers_reading, answers_removal, at_most};
use super::sovd_fault_manager::{Error, SovdFault};
use super::sovd_fault_storage::SovdEnvData;
use crate::common::fixed_string::escaped;
use crate::common::query_protocol::{
    DfmQueryError, DfmQueryRequest, DfmQueryResponse, MAX_FAULTS_PER_RESPONSE,
};

verus! {

/// How long a client waits for an answer, unless it is told otherwise, in nanoseconds.
pub const DEFAULT_RESPONSE_TIMEOUT_NANOS: u128 = 1_000_000_000;

/// The request to list the faults of the entity at a path.
pub fn get_all_faults_request(path: &str) -> (r: DfmQueryRequest)
    ensures
        r matches DfmQueryRequest::GetAllFaults(p) && p@ == carried(path@, 128),
{
    DfmQueryRequest::GetAllFaults(long_str(path))
}

/// The request to read one fault.
pub fn get_fault_request(path: &str, fault_code: &str) -> (r: DfmQueryRequest)
    ensures
        r matches DfmQueryRequest::GetFault(p, c) && p@ == carried(path@, 128) && c@ == carried(
            fault_code@,
            64,
        ),
{
    DfmQueryRequest::GetFault(long_str(path), short_str(fault_code))
}

/// The request to remove the states of all faults of the entity at a path.
pub fn delete_all_faults_request(path: &str) -> (r: DfmQueryRequest)
    ensures
        r matches DfmQueryRequest::DeleteAllFaults(p) && p@ == carried(path@, 128),
{
    DfmQueryRequest::DeleteAllFaults(long_str(path))
}

/// The request to remove the state of one fault.
pub fn delete_fault_request(path: &str, fault_code: &str) -> (r: DfmQueryRequest)
    ensures
        r matches DfmQueryRequest::DeleteFault(p, c) && p@ == carried(path@, 128) && c@ == carried(
            fault_code@,
            64,
        ),
{
    DfmQueryRequest::DeleteFault(long_str(path), short_str(fault_code))
}

/// What a client does after it looked for an answer.
#[derive(Debug)]
pub enum ResponseWait {
    /// The answer is there.
    Answered(DfmQueryResponse),
    /// It took too long; holds the error.
    TimedOut(Error),
    /// Sleep for a moment and look again.
    Again,
}

/// Decides how a client goes on, given what has arrived and the time. An answer that
/// has arrived counts even when the deadline has passed.
pub fn response_wait(received: Option<DfmQueryResponse>, now: u128, deadline: u128) -> (r:
    ResponseWait)
    ensures
        match received {
            Some(resp) => r == ResponseWait::Answered(resp),
            None => if now >= deadline {
                r matches ResponseWait::TimedOut(Error::Storage(m)) && m@ == "query timeout"@
            } else {
                r is Again
            },
        },
{
    match received {
        Some(resp) => ResponseWait::Answered(resp),
        None => if now >= deadline {
            ResponseWait::TimedOut(Error::Storage(String::from_str("query timeout")))
        } else {
            ResponseWait::Again
        },
    }
}

/// The error that `x` reports.
pub open spec fn reported(x: DfmQueryError, e: Error) -> bool {
    match x {
        DfmQueryError::BadArgument => e is BadArgument,
        DfmQueryError::NotFound => e is NotFound,
        DfmQueryError::StorageError(t) => e matches Error::Storage(m) && m@ == escaped(t@),
    }
}

/// Converts an error back from its fixed-size form.
pub fn ipc_error_to_sovd(e: &DfmQueryError) -> (r: Error)
    ensures
        reported(*e, r),
{
    match e {
        DfmQueryError::BadArgument => Error::BadArgument,
        DfmQueryError::NotFound => Error::NotFound,
        DfmQueryError::StorageError(t) => Error::Storage(t.to_string()),
    }
}

/// What a client makes of the answer to a listing; nothing if it answers something
/// else.
pub open spec fn decodes_listing(
    resp: DfmQueryResponse,
    out: Option<Result<Vec<SovdFault>, Error>>,
) -> bool {
    match resp {
        DfmQueryResponse::FaultList(list) => {
            &&& out matches Some(Ok(v))
            &&& v@.len() == list.faults@.len()
            &&& forall|i: int| 0 <= i < v@.len() ==> (#[trigger] v@[i])@ == sovd_of(list.faults@[i]@)
        },
        DfmQueryResponse::Error(x) => out matches Some(Err(e)) && reported(x, e),
        _ => out is None,
    }
}

/// What a client makes of the answer to the reading of one fault; nothing if it answers
/// something else.
pub open spec fn decodes_reading(
    resp: DfmQueryResponse,
    out: Option<Result<(SovdFault, SovdEnvData), Error>>,
) -> bool {
    match resp {
        DfmQueryResponse::SingleFault(fault, env) => {
            &&& out matches Some(Ok(found))
            &&& found.0@ == sovd_of(fault@)
            &&& text_map(found.1@) == env_texts(env@)
        },
        DfmQueryResponse::Error(x) => out matches Some(Err(e)) && reported(x, e),
        _ => out is None,
    }
}

/// What a client makes of the answer to a removal; nothing if it answers something
/// else.
pub open spec fn decodes_removal(resp: DfmQueryResponse, out: Option<Result<(), Error>>) -> bool {
    match resp {
        DfmQueryResponse::Done => out == Some(Ok::<(), Error>(())),
        DfmQueryResponse::Error(x) => out matches Some(Err(e)) && reported(x, e),
        _ => out is None,
    }
}

/// Reads the answer to a listing.
pub fn listing_outcome(resp: &DfmQueryResponse) -> (out: Option<Result<Vec<SovdFault>, Error>>)
    ensures
        decodes_listing(*resp, out),
{
    match resp {
        DfmQueryResponse::FaultList(list) => {
            let n: usize = list.faults.len();
            let mut v: Vec<SovdFault> = Vec::new();
            let mut i: usize = 0;
            while i < n
                invariant
                    i <= n,
                    n == list.faults@.len(),
                    v@.len() == i,
                    forall|j: int| 0 <= j < i ==> (#[trigger] v@[j])@ == sovd_of(list.faults@[j]@),
                decreases n - i,
            {
                let fault = list.faults.at(i);
                v.push(ipc_fault_to_sovd(&fault));
                i += 1;
            }
            Some(Ok(v))
        },
        DfmQueryResponse::Error(x) => Some(Err(ipc_error_to_sovd(x))),
        _ => None,
    }
}

/// Reads the answer to the reading of one fault.
pub fn reading_outcome(resp: &DfmQueryResponse) -> (out: Option<
    Result<(SovdFault, SovdEnvData), Error>,
>)
    ensures
        decodes_reading(*resp, out),
{
    match resp {
        DfmQueryResponse::SingleFault(fault, env) => Some(
            Ok((ipc_fault_to_sovd(fault), ipc_env_data_to_sovd(env))),
        ),
        DfmQueryResponse::Error(x) => Some(Err(ipc_error_to_sovd(x))),
        _ => None,
    }
}

/// Reads the answer to a removal.
pub fn removal_outcome(resp: &DfmQueryResponse) -> (out: Option<Result<(), Error>>)
    ensures
        decodes_removal(*resp, out),
{
    match resp {
        DfmQueryResponse::Done => Some(Ok(())),
        DfmQueryResponse::Error(x) => Some(Err(ipc_error_to_sovd(x))),
        _ => None,
    }
}

/// The error for an answer to something else, given how that answer prints.
pub fn unexpected_response(shown: &str) -> (r: Error)
    ensures
        r matches Error::Storage(m) && m@ == "unexpected response: "@ + shown@,
{
    Error::Storage(String::from_str("unexpected response: ").concat(shown))
}

/// The error that reaches a client: the same one, with its message cut to size.
pub open spec fn same_error(sent: Error, got: Error) -> bool {
    match sent {
        Error::BadArgument => got is BadArgument,
        Error::NotFound => got is NotFound,
        Error::Storage(m) => got matches Error::Storage(t) && t@ == escaped(carried(m@, 64)),
    }
}

/// A remote listing gives what a local one gives: the first faults in their fixed-size
/// form, or the same error.
pub proof fn law_remote_listing_agrees(
    local: Result<Vec<SovdFault>, Error>,
    resp: DfmQueryResponse,
    out: Option<Result<Vec<SovdFault>, Error>>,
)
    requires
        answers_listing(local, resp),
        decodes_listing(resp, out),
    ensures
        out is Some,
        match local {
            Ok(v) => {
                &&& out->0 matches Ok(w)
                &&& w@.len() == at_most(v@.len(), MAX_FAULTS_PER_RESPONSE as nat)
                &&& forall|i: int| 0 <= i < w@.len() ==> (#[trigger] w@[i])@ == sovd_of(ipc_of(v@[i]@))
            },
            Err(e) => out->0 matches Err(x) && same_error(e, x),
        },
{
}

/// A remote reading gives what a local one gives: the fault in its fixed-size form with
/// the environment data that fits, or the same error.
pub proof fn law_remote_reading_agrees(
    local: Result<(SovdFault, SovdEnvData), Error>,
    resp: DfmQueryResponse,
    out: Option<Result<(SovdFault, SovdEnvData), Error>>,
)
    requires
        answers_reading(local, resp),
        decodes_reading(resp, out),
    ensures
        out is Some,
        match local {
            Ok(found) => {
                &&& out->0 matches Ok(got)
                &&& got.0@ == sovd_of(ipc_of(found.0@))
                &&& exists|env| #[trigger]
                    env_carried(found.1.items(), env) && text_map(got.1@) == env_texts(env)
            },
            Err(e) => out->0 matches Err(x) && same_error(e, x),
        },
{
}

/// A remote removal succeeds exactly when the local one does, and reports the same
/// error.
pub proof fn law_remote_removal_agrees(
    local: Result<(), Error>,
    resp: DfmQueryResponse,
    out: Option<Result<(), Error>>,
)
    requires
        answers_removal(local, resp),
        decodes_removal(resp, out),
    ensures
        out is Some,
        match local {
            Ok(_) => out->0 is Ok,
            Err(e) => out->0 matches Err(x) && same_error(e, x),
        },
{
}

/// Every request names what it is for: it has the kind of its function and the beginning of
/// the path and the code.
pub proof fn law_requests_name_their_target(
    path: &str,
    code: &str,
    a: DfmQueryRequest,
    b: DfmQueryRequest,
    c: DfmQueryRequest,
    d: DfmQueryRequest,
)
    requires
        call_ensures(get_all_faults_request, (path,), a),
        call_ensures(get_fault_request, (path, code), b),
        call_ensures(delete_all_faults_request, (path,), c),
        call_ensures(delete_fault_request, (path, code), d),
    ensures
        a is GetAllFaults && a->GetAllFaults_0@ == carried(path@, 128),
        b is GetFault && b->GetFault_0@ == carried(path@, 128) && b->GetFault_1@ == carried(
            code@,
            64,
        ),
        c is DeleteAllFaults && c->DeleteAllFaults_0@ == carried(path@, 128),
        d is DeleteFault && d->DeleteFault_0@ == carried(path@, 128) && d->DeleteFault_1@
            == carried(code@, 64),
{
}

/// A client that looks for an answer goes on with it whenever it is there, waits until the
/// deadline if it is not, and fails from then on.
pub proof fn law_client_waits_until_the_deadline(
    received: Option<DfmQueryResponse>,
    now: u128,
    deadline: u128,
    r: ResponseWait,
)
    requires
        call_ensures(response_wait, (received, now, deadline), r),
    ensures
        r is Answered <==> received is Some,
        received is Some ==> r->Answered_0 == received->0,
        r is Again <==> received is None && now < deadline,
        r is TimedOut <==> received is None && now >= deadline,
        r matches ResponseWait::TimedOut(e) ==> e is Storage,
{
}

/// An error that comes back has the kind that was sent.
pub proof fn law_errors_keep_their_kind(x: DfmQueryError, e: Error)
    requires
        reported(x, e),
    ensures
        x is BadArgument <==> e is BadArgument,
        x is NotFound <==> e is NotFound,
        x is StorageError <==> e is Storage,
        x matches DfmQueryError::StorageError(t) ==> e->Storage_0@ == escaped(t@),
{
}

/// An answer is read exactly by the client that asked for it or, if it is an error, by any
/// client; every other client takes it for an unexpected one.
pub proof fn law_answers_fit_their_requests(
    resp: DfmQueryResponse,
    listing: Option<Result<Vec<SovdFault>, Error>>,
    reading: Option<Result<(SovdFault, SovdEnvData), Error>>,
    removal: Option<Result<(), Error>>,
    i: int,
)
    requires
        decodes_listing(resp, listing),
        decodes_reading(resp, reading),
        decodes_removal(resp, removal),
    ensures
        listing is Some <==> resp is FaultList || resp is Error,
        reading is Some <==> resp is SingleFault || resp is Error,
        removal is Some <==> resp is Done || resp is Error,
        resp is Error ==> listing->0 is Err && reading->0 is Err && removal->0 is Err,
        resp is FaultList ==> listing->0 is Ok,
        resp is SingleFault ==> reading->0 is Ok,
        resp is Done ==> removal->0 is Ok,
        resp matches DfmQueryResponse::FaultList(list) ==> listing->0->Ok_0@.len()
            == list.faults@.len() && (0 <= i < list.faults@.len() ==> listing->0->Ok_0@[i]@
            == sovd_of(list.faults@[i]@)),
        resp matches DfmQueryResponse::SingleFault(f, env) ==> reading->0->Ok_0.0@ == sovd_of(f@)
            && text_map(reading->0->Ok_0.1@) == env_texts(env@),
{
}

} // verus!

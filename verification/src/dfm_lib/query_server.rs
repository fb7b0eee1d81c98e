//! The answers of the query service to its requests.

use vstd::prelude::*;
use vstd::string::*;

use super::fault_code::code_decodes;
use super::fault_key::storage_key;
use super::query_conversion::{
    carried, env_carried, env_data_to_ipc, ipc_of, short_str, sovd_fault_to_ipc,
};
use super::sovd_fault_manager::{
    clears_code, clears_path, deletes_fault, finds_fault, law_clearing_takes_all_states,
    law_removal_takes_one_state, lists_faults, Error, SovdFault, SovdFaultManager,
};
use super::sovd_fault_storage::{SovdEnvData, SovdFaultStateStorage};
use crate::common::catalog::FaultCatalog;
use crate::common::fault::FaultId;
use crate::common::fixed_string::escaped;
use crate::common::fixed_vec::FixedVec;
use crate::common::query_protocol::{
    DfmQueryError, DfmQueryRequest, DfmQueryResponse, IpcFaultListResponse, IpcSovdFault,
    MAX_FAULTS_PER_RESPONSE,
};

verus! {

/// The smaller of two numbers.
pub open spec fn at_most(n: nat, bound: nat) -> nat {
    if n < bound {
        n
    } else {
        bound
    }
}

/// `x` reports the error `e`, with its message cut to size.
pub open spec fn reports(e: Error, x: DfmQueryError) -> bool {
    match e {
        Error::BadArgument => x is BadArgument,
        Error::NotFound => x is NotFound,
        Error::Storage(m) => x matches DfmQueryError::StorageError(t) && t@ == carried(m@, 64),
    }
}

/// Converts an error to its fixed-size form.
pub fn sovd_error_to_ipc(e: Error) -> (r: DfmQueryError)
    ensures
        reports(e, r),
{
    match e {
        Error::BadArgument => DfmQueryError::BadArgument,
        Error::NotFound => DfmQueryError::NotFound,
        Error::Storage(m) => DfmQueryError::StorageError(short_str(m.as_str())),
    }
}

/// `resp` answers a listing with the outcome `r`: as many faults as fit, and the number
/// of all of them.
pub open spec fn answers_listing(r: Result<Vec<SovdFault>, Error>, resp: DfmQueryResponse) -> bool {
    match r {
        Ok(v) => {
            &&& resp matches DfmQueryResponse::FaultList(list)
            &&& list.total_count == at_most(v@.len(), u32::MAX as nat)
            &&& list.faults@.len() == at_most(v@.len(), MAX_FAULTS_PER_RESPONSE as nat)
            &&& forall|i: int|
                0 <= i < list.faults@.len() ==> (#[trigger] list.faults@[i])@ == ipc_of(v@[i]@)
        },
        Err(e) => resp matches DfmQueryResponse::Error(x) && reports(e, x),
    }
}

/// `resp` answers the reading of one fault with the outcome `r`.
pub open spec fn answers_reading(
    r: Result<(SovdFault, SovdEnvData), Error>,
    resp: DfmQueryResponse,
) -> bool {
    match r {
        Ok(found) => {
            &&& resp matches DfmQueryResponse::SingleFault(fault, env)
            &&& fault@ == ipc_of(found.0@)
            &&& env_carried(found.1.items(), env@)
        },
        Err(e) => resp matches DfmQueryResponse::Error(x) && reports(e, x),
    }
}

/// `resp` answers a removal with the outcome `r`.
pub open spec fn answers_removal(r: Result<(), Error>, resp: DfmQueryResponse) -> bool {
    match r {
        Ok(_) => resp is Done,
        Err(e) => resp matches DfmQueryResponse::Error(x) && reports(e, x),
    }
}

/// `resp` answers the request, whose path and code count as they print. Listing and
/// reading leave the storage alone.
pub open spec fn answers_request<S: SovdFaultStateStorage>(
    catalogs: Map<Seq<char>, FaultCatalog>,
    before: &S,
    after: &S,
    request: DfmQueryRequest,
    resp: DfmQueryResponse,
) -> bool {
    match request {
        DfmQueryRequest::GetAllFaults(path) => after == before && exists|
            r: Result<Vec<SovdFault>, Error>,
        |
            #[trigger] answers_listing(r, resp) && lists_faults(catalogs, before, escaped(path@), r),
        DfmQueryRequest::GetFault(path, code) => after == before && exists|
            r: Result<(SovdFault, SovdEnvData), Error>,
        |
            #[trigger] answers_reading(r, resp) && finds_fault(
                catalogs,
                before,
                escaped(path@),
                escaped(code@),
                r,
            ),
        DfmQueryRequest::DeleteAllFaults(path) => exists|r: Result<(), Error>| #[trigger]
            answers_removal(r, resp) && clears_path(catalogs, before, after, escaped(path@), r),
        DfmQueryRequest::DeleteFault(path, code) => exists|r: Result<(), Error>| #[trigger]
            answers_removal(r, resp) && clears_code(
                catalogs,
                before,
                after,
                escaped(path@),
                escaped(code@),
                r,
            ),
    }
}

/// The answer to a listing.
pub fn listing_response(r: Result<Vec<SovdFault>, Error>) -> (resp: DfmQueryResponse)
    ensures
        answers_listing(r, resp),
{
    match r {
        Ok(v) => {
            let total_count: u32 = if v.len() < u32::MAX as usize {
                v.len() as u32
            } else {
                u32::MAX
            };
            let mut faults: FixedVec<IpcSovdFault, 64> = FixedVec::new();
            let mut i: usize = 0;
            while i < v.len() && i < MAX_FAULTS_PER_RESPONSE
                invariant
                    i <= v@.len(),
                    i <= MAX_FAULTS_PER_RESPONSE,
                    faults@.len() == i,
                    forall|j: int| 0 <= j < i ==> (#[trigger] faults@[j])@ == ipc_of(v@[j]@),
                decreases v@.len() - i,
            {
                let _ = faults.push(sovd_fault_to_ipc(&v[i]));
                i += 1;
            }
            DfmQueryResponse::FaultList(IpcFaultListResponse { faults, total_count })
        },
        Err(e) => DfmQueryResponse::Error(sovd_error_to_ipc(e)),
    }
}

/// The answer to the reading of one fault.
pub fn reading_response(r: Result<(SovdFault, SovdEnvData), Error>) -> (resp: DfmQueryResponse)
    ensures
        answers_reading(r, resp),
{
    match r {
        Ok(found) => DfmQueryResponse::SingleFault(
            sovd_fault_to_ipc(&found.0),
            env_data_to_ipc(&found.1),
        ),
        Err(e) => DfmQueryResponse::Error(sovd_error_to_ipc(e)),
    }
}

/// The answer to a removal.
pub fn removal_response(r: Result<(), Error>) -> (resp: DfmQueryResponse)
    ensures
        answers_removal(r, resp),
{
    match r {
        Ok(_) => DfmQueryResponse::Done,
        Err(e) => DfmQueryResponse::Error(sovd_error_to_ipc(e)),
    }
}

/// Answers the requests of remote diagnostic tools.
#[derive(Debug)]
pub struct DfmQueryServer {
    /// Answers the queries.
    pub sovd_manager: SovdFaultManager,
}

impl DfmQueryServer {
    /// A server over the given manager.
    pub fn new(sovd_manager: SovdFaultManager) -> (r: Self)
        ensures
            r.sovd_manager == sovd_manager,
    {
        DfmQueryServer { sovd_manager }
    }

    /// Answers one request.
    pub fn handle_request<S: SovdFaultStateStorage>(
        &self,
        storage: &mut S,
        request: &DfmQueryRequest,
    ) -> (resp: DfmQueryResponse)
        ensures
            answers_request(
                self.sovd_manager.registry@,
                old(storage),
                final(storage),
                *request,
                resp,
            ),
    {
        match request {
            DfmQueryRequest::GetAllFaults(path) => {
                let path = path.to_string();
                let r = self.sovd_manager.get_all_faults(&*storage, path.as_str());
                let resp = listing_response(r);
                assert(answers_listing(r, resp));
                resp
            },
            DfmQueryRequest::GetFault(path, code) => {
                let path = path.to_string();
                let code = code.to_string();
                let r = self.sovd_manager.get_fault(&*storage, path.as_str(), code.as_str());
                let resp = reading_response(r);
                assert(answers_reading(r, resp));
                resp
            },
            DfmQueryRequest::DeleteAllFaults(path) => {
                let path = path.to_string();
                let r = self.sovd_manager.clear_faults(storage, path.as_str());
                let resp = removal_response(r);
                assert(answers_removal(r, resp));
                resp
            },
            DfmQueryRequest::DeleteFault(path, code) => {
                let path = path.to_string();
                let code = code.to_string();
                let r = self.sovd_manager.clear_fault(storage, path.as_str(), code.as_str());
                let resp = removal_response(r);
                assert(answers_removal(r, resp));
                resp
            },
        }
    }
}

/// A listing is answered with the first 64 faults, in their order, and with the number of
/// all of them.
pub proof fn law_listing_shows_the_first_faults(v: Vec<SovdFault>, resp: DfmQueryResponse, i: int)
    requires
        answers_listing(Ok(v), resp),
    ensures
        resp is FaultList,
        ({
            let list = resp->FaultList_0;
            &&& v@.len() <= 64 ==> list.faults@.len() == v@.len()
            &&& v@.len() > 64 ==> list.faults@.len() == 64
            &&& v@.len() <= u32::MAX ==> list.total_count == v@.len()
            &&& v@.len() > u32::MAX ==> list.total_count == u32::MAX
            &&& 0 <= i < list.faults@.len() ==> list.faults@[i]@ == ipc_of(v@[i]@)
        }),
{
}

/// One fault that was read is answered with itself and the beginning of its environment
/// data.
pub proof fn law_reading_shows_the_fault(
    fault: SovdFault,
    env: SovdEnvData,
    resp: DfmQueryResponse,
)
    requires
        answers_reading(Ok((fault, env)), resp),
    ensures
        resp is SingleFault,
        resp->SingleFault_0@ == ipc_of(fault@),
        env.items().len() <= 8 ==> resp->SingleFault_1@.len() == env.items().len(),
        env.items().len() > 8 ==> resp->SingleFault_1@.len() == 8,
        forall|i: int|
            0 <= i < resp->SingleFault_1@.len() ==> (#[trigger] resp->SingleFault_1@[i]).0@
                == carried(env.items()[i].0@, 64) && resp->SingleFault_1@[i].1@ == carried(
                env.items()[i].1@,
                64,
            ),
{
}

/// A failure is answered with an error of the same kind, and a success never with an
/// error.
pub proof fn law_failures_are_answered_with_errors(
    listing: Result<Vec<SovdFault>, Error>,
    reading: Result<(SovdFault, SovdEnvData), Error>,
    removal: Result<(), Error>,
    a: DfmQueryResponse,
    b: DfmQueryResponse,
    c: DfmQueryResponse,
)
    requires
        answers_listing(listing, a),
        answers_reading(reading, b),
        answers_removal(removal, c),
    ensures
        a is Error <==> listing is Err,
        b is Error <==> reading is Err,
        c is Error <==> removal is Err,
        removal is Ok ==> c is Done,
        listing is Err ==> (a->Error_0 is NotFound <==> listing->Err_0 is NotFound) && (
        a->Error_0 is BadArgument <==> listing->Err_0 is BadArgument) && (a->Error_0 is StorageError
            <==> listing->Err_0 is Storage),
        reading is Err ==> (b->Error_0 is NotFound <==> reading->Err_0 is NotFound) && (
        b->Error_0 is BadArgument <==> reading->Err_0 is BadArgument) && (b->Error_0 is StorageError
            <==> reading->Err_0 is Storage),
        removal is Err ==> (c->Error_0 is NotFound <==> removal->Err_0 is NotFound) && (
        c->Error_0 is BadArgument <==> removal->Err_0 is BadArgument) && (c->Error_0 is StorageError
            <==> removal->Err_0 is Storage),
        removal matches Err(Error::Storage(m)) ==> c->Error_0->StorageError_0@ == carried(m@, 64),
{
}

/// A query changes nothing that is stored.
pub proof fn law_queries_change_nothing<S: SovdFaultStateStorage>(
    catalogs: Map<Seq<char>, FaultCatalog>,
    before: S,
    after: S,
    request: DfmQueryRequest,
    resp: DfmQueryResponse,
)
    requires
        answers_request(catalogs, &before, &after, request, resp),
        request is GetAllFaults || request is GetFault,
    ensures
        after == before,
        !(resp is Done),
        request is GetAllFaults ==> !(resp is SingleFault),
        request is GetFault ==> !(resp is FaultList),
{
}

/// A request to remove all states of an entity is answered with success exactly if they are
/// gone because of it: then no state of the entity is left and all others stay. A refused
/// one leaves everything stored as it is.
pub proof fn law_removal_request_takes_all_states<S: SovdFaultStateStorage>(
    catalogs: Map<Seq<char>, FaultCatalog>,
    before: S,
    after: S,
    request: DfmQueryRequest,
    resp: DfmQueryResponse,
    pk: (Seq<char>, Seq<char>),
)
    requires
        answers_request(catalogs, &before, &after, request, resp),
        request is DeleteAllFaults,
    ensures
        ({
            let path = escaped(request->DeleteAllFaults_0@);
            &&& resp is Done || resp is Error
            &&& resp is Done && pk.0 == path ==> !after.stored().contains_key(pk)
            &&& resp is Error || pk.0 != path ==> after.stored().contains_key(pk)
                == before.stored().contains_key(pk) && (before.stored().contains_key(pk)
                ==> after.stored()[pk] == before.stored()[pk])
            &&& !catalogs.contains_key(path) ==> (resp matches DfmQueryResponse::Error(x)
                && x is BadArgument)
            &&& catalogs.contains_key(path) && path.len() > 0 && before.clearable(path)
                ==> resp is Done
        }),
{
    let path = escaped(request->DeleteAllFaults_0@);
    let r = choose|r: Result<(), Error>| #[trigger]
        answers_removal(r, resp) && clears_path(catalogs, &before, &after, path, r);
    law_clearing_takes_all_states(catalogs, before, after, path, r, pk);
}

/// A request to remove the state of one fault takes nothing else away: every other state
/// stays, and a refused request leaves everything stored as it is. Success means that a
/// state was there and is gone.
pub proof fn law_removal_request_takes_one_state<S: SovdFaultStateStorage>(
    catalogs: Map<Seq<char>, FaultCatalog>,
    before: S,
    after: S,
    request: DfmQueryRequest,
    resp: DfmQueryResponse,
    pk: (Seq<char>, Seq<char>),
)
    requires
        answers_request(catalogs, &before, &after, request, resp),
        request is DeleteFault,
    ensures
        ({
            let path = escaped(request->DeleteFault_0@);
            let code = escaped(request->DeleteFault_1@);
            &&& resp is Done || resp is Error
            &&& resp is Done ==> exists|id: FaultId| #[trigger]
                code_decodes(code, Ok(id)) && before.stored().contains_key((path, storage_key(id)))
                    && !after.stored().contains_key((path, storage_key(id))) && (pk != (
                    path,
                    storage_key(id),
                ) ==> after.stored().contains_key(pk) == before.stored().contains_key(pk) && (
                before.stored().contains_key(pk) ==> after.stored()[pk] == before.stored()[pk]))
            &&& resp is Error ==> after.stored().contains_key(pk) == before.stored().contains_key(
                pk,
            ) && (before.stored().contains_key(pk) ==> after.stored()[pk] == before.stored()[pk])
            &&& path.len() == 0 || code.len() == 0 ==> (resp matches DfmQueryResponse::Error(x)
                && x is BadArgument)
        }),
{
    let path = escaped(request->DeleteFault_0@);
    let code = escaped(request->DeleteFault_1@);
    let r = choose|r: Result<(), Error>| #[trigger]
        answers_removal(r, resp) && clears_code(catalogs, &before, &after, path, code, r);
    if path.len() > 0 && code.len() > 0 {
        let id = choose|id: Result<FaultId, Error>| #[trigger]
            code_decodes(code, id) && if id is Ok && !catalogs.contains_key(path) {
                r == Err::<(), _>(Error::NotFound) && after == before
            } else {
                deletes_fault(&before, &after, path, id, r)
            };
        if !(id is Ok && !catalogs.contains_key(path)) {
            if let Ok(f) = id {
                law_removal_takes_one_state(before, after, path, f, r, pk);
            }
        }
    }
}

} // verus!

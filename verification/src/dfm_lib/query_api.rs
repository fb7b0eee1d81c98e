//! Queries and removals, whoever answers them.

use std::sync::Arc;
use vstd::prelude::*;

use super::fault_catalog_registry::FaultCatalogRegistry;
use super::sovd_fault_manager::{
    clears_code, clears_path, finds_fault, lists_faults, Error, SovdFault, SovdFaultManager,
};
use super::sovd_fault_storage::{SovdEnvData, SovdFaultStateStorage};

verus! {

/// Queries and removals of faults, in the same process or in another one.
pub trait DfmQueryApi {
    /// Lists the faults of the entity at a path; fails if the path is unknown or the
    /// storage fails.
    fn get_all_faults(&self, path: &str) -> Result<Vec<SovdFault>, Error>;

    /// Reads one fault with its environment data; fails if the path or the code is
    /// unknown.
    fn get_fault(&self, path: &str, fault_code: &str) -> Result<(SovdFault, SovdEnvData), Error>;

    /// Removes the states of all faults of the entity at a path; fails if the path is
    /// unknown or the storage fails.
    fn delete_all_faults(&mut self, path: &str) -> Result<(), Error>;

    /// Removes the state of one fault; fails if the path or the code is unknown.
    fn delete_fault(&mut self, path: &str, fault_code: &str) -> Result<(), Error>;
}

/// Queries that are answered in the same process.
#[derive(Debug)]
pub struct DirectDfmQuery<S: SovdFaultStateStorage> {
    /// Answers the queries.
    pub inner: SovdFaultManager,
    /// The stored states.
    pub storage: S,
}

impl<S: SovdFaultStateStorage> DirectDfmQuery<S> {
    /// Queries over the given storage and catalogs.
    pub fn new(storage: S, registry: Arc<FaultCatalogRegistry>) -> (r: Self)
        ensures
            r.storage == storage,
            r.inner.registry == registry,
    {
        DirectDfmQuery { inner: SovdFaultManager::new(registry), storage }
    }
}

impl<S: SovdFaultStateStorage> DfmQueryApi for DirectDfmQuery<S> {
    fn get_all_faults(&self, path: &str) -> (r: Result<Vec<SovdFault>, Error>)
        ensures
            lists_faults(self.inner.registry@, &self.storage, path@, r),
    {
        self.inner.get_all_faults(&self.storage, path)
    }

    fn get_fault(&self, path: &str, fault_code: &str) -> (r: Result<
        (SovdFault, SovdEnvData),
        Error,
    >)
        ensures
            finds_fault(self.inner.registry@, &self.storage, path@, fault_code@, r),
    {
        self.inner.get_fault(&self.storage, path, fault_code)
    }

    fn delete_all_faults(&mut self, path: &str) -> (r: Result<(), Error>)
        ensures
            final(self).inner == old(self).inner,
            clears_path(
                old(self).inner.registry@,
                &old(self).storage,
                &final(self).storage,
                path@,
                r,
            ),
    {
        self.inner.clear_faults(&mut self.storage, path)
    }

    fn delete_fault(&mut self, path: &str, fault_code: &str) -> (r: Result<(), Error>)
        ensures
            final(self).inner == old(self).inner,
            clears_code(
                old(self).inner.registry@,
                &old(self).storage,
                &final(self).storage,
                path@,
                fault_code@,
                r,
            ),
    {
        self.inner.clear_fault(&mut self.storage, path, fault_code)
    }
}

} // verus!

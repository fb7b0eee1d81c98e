//! The enabling conditions that the fault manager knows.

use vstd::prelude::*;
use vstd::string::*;

use crate::common::assoc_map::AssocMap;
use crate::common::enabling_condition::EnablingConditionStatus;

verus! {

/// Status of enabling conditions by entity name.
#[derive(Debug)]
pub struct EnablingConditionRegistry {
    conditions: AssocMap<String, EnablingConditionStatus>,
}

impl View for EnablingConditionRegistry {
    type V = Map<Seq<char>, EnablingConditionStatus>;

    closed spec fn view(&self) -> Map<Seq<char>, EnablingConditionStatus> {
        self.conditions@
    }
}

impl EnablingConditionRegistry {
    /// A registry without conditions.
    pub fn new() -> (r: Self)
        ensures
            r@ == Map::<Seq<char>, EnablingConditionStatus>::empty(),
    {
        EnablingConditionRegistry { conditions: AssocMap::new() }
    }

    /// Makes a condition known, inactive at first. One that is known already keeps
    /// its status. Gives the status.
    pub fn register(&mut self, entity: &str) -> (r: EnablingConditionStatus)
        ensures
            old(self)@.contains_key(entity@) ==> final(self)@ == old(self)@ && r == old(self)@[entity@],
            !old(self)@.contains_key(entity@) ==> final(self)@ == old(self)@.insert(
                entity@,
                EnablingConditionStatus::Inactive,
            ) && r == EnablingConditionStatus::Inactive,
    {
        if let Some(status) = self.conditions.get_str(entity) {
            return *status;
        }
        let status = EnablingConditionStatus::Inactive;
        self.conditions.insert(String::from_str(entity), status);
        status
    }

    /// Sets the status of a condition, which need not be known. Gives the status if
    /// it changed.
    pub fn update_status(&mut self, entity: &str, status: EnablingConditionStatus) -> (r: Option<
        EnablingConditionStatus,
    >)
        ensures
            final(self)@ == old(self)@.insert(entity@, status),
            r == (if old(self)@.contains_key(entity@) && old(self)@[entity@] == status {
                None::<EnablingConditionStatus>
            } else {
                Some(status)
            }),
    {
        if let Some(current) = self.conditions.get_str(entity) {
            if *current == status {
                assert(self@ =~= old(self)@.insert(entity@, status));
                return None;
            }
        }
        self.conditions.insert(String::from_str(entity), status);
        Some(status)
    }

    /// The status of a condition.
    pub fn get_status(&self, entity: &str) -> (r: Option<EnablingConditionStatus>)
        ensures
            r == (if self@.contains_key(entity@) {
                Some(self@[entity@])
            } else {
                None
            }),
    {
        match self.conditions.get_str(entity) {
            Some(status) => Some(*status),
            None => None,
        }
    }

    /// All conditions with their status.
    pub fn all_conditions(&self) -> (r: &AssocMap<String, EnablingConditionStatus>)
        ensures
            r@ == self@,
    {
        &self.conditions
    }

    /// Number of conditions.
    pub fn len(&self) -> (r: usize)
        ensures
            self@.dom().finite(),
            r == self@.dom().len(),
    {
        self.conditions.len()
    }

    /// There are no conditions.
    pub fn is_empty(&self) -> (r: bool)
        ensures
            r == (self@ == Map::<Seq<char>, EnablingConditionStatus>::empty()),
    {
        let n: usize = self.conditions.len();
        proof {
            if n == 0 {
                assert(self@.dom() =~= Set::<Seq<char>>::empty());
                assert(self@ =~= Map::<Seq<char>, EnablingConditionStatus>::empty());
            }
        }
        n == 0
    }
}

impl Default for EnablingConditionRegistry {
    fn default() -> (r: Self)
        ensures
            r@ == Map::<Seq<char>, EnablingConditionStatus>::empty(),
    {
        Self::new()
    }
}

} // verus!

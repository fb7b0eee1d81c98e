//! The catalogs that the fault manager knows, by entity path.

use vstd::prelude::*;
use vstd::string::*;

use crate::common::assoc_map::AssocMap;
use crate::common::catalog::FaultCatalog;

verus! {

/// Catalogs by their id, which is the path of the entity.
#[derive(Debug)]
pub struct FaultCatalogRegistry {
    catalogs: AssocMap<String, FaultCatalog>,
}

/// The catalogs of a list by id; a later one takes the place of an earlier one with
/// the same id.
pub open spec fn catalogs_by_id(entries: Seq<FaultCatalog>) -> Map<Seq<char>, FaultCatalog>
    decreases entries.len(),
{
    if entries.len() == 0 {
        Map::empty()
    } else {
        catalogs_by_id(entries.drop_last()).insert(entries.last().id@, entries.last())
    }
}

impl View for FaultCatalogRegistry {
    type V = Map<Seq<char>, FaultCatalog>;

    closed spec fn view(&self) -> Map<Seq<char>, FaultCatalog> {
        self.catalogs@
    }
}

impl FaultCatalogRegistry {
    /// A registry of the given catalogs.
    pub fn new(entries: Vec<FaultCatalog>) -> (r: Self)
        ensures
            r@ == catalogs_by_id(entries@),
    {
        let mut rest: Vec<FaultCatalog> = entries;
        let mut catalogs: AssocMap<String, FaultCatalog> = AssocMap::new();
        assert(catalogs_by_id(rest@) =~= catalogs_by_id(rest@).union_prefer_right(catalogs@));
        while rest.len() > 0
            invariant
                catalogs_by_id(entries@) == catalogs_by_id(rest@).union_prefer_right(catalogs@),
            decreases rest@.len(),
        {
            let ghost before = rest@;
            let ghost known = catalogs@;
            match rest.pop() {
                Some(entry) => {
                    let key: String = entry.id.clone();
                    assert(rest@ =~= before.drop_last());
                    if !catalogs.contains_key(&key) {
                        catalogs.insert(key, entry);
                    }
                    assert(catalogs_by_id(before).union_prefer_right(known) =~= catalogs_by_id(
                        rest@,
                    ).union_prefer_right(catalogs@));
                },
                None => {},
            }
        }
        assert(catalogs_by_id(rest@) =~= Map::empty());
        assert(catalogs@ =~= catalogs_by_id(entries@));
        FaultCatalogRegistry { catalogs }
    }

    /// The catalog of an entity.
    pub fn get(&self, path: &str) -> (r: Option<&FaultCatalog>)
        ensures
            r == (if self@.contains_key(path@) {
                Some(&self@[path@])
            } else {
                None
            }),
    {
        self.catalogs.get_str(path)
    }
}

/// The catalog of an entity is the last one of the list with its id; an entity for which
/// there is none has no catalog.
pub proof fn law_last_catalog_counts(entries: Seq<FaultCatalog>, i: int, path: Seq<char>)
    ensures
        0 <= i < entries.len() && (forall|j: int|
            i < j < entries.len() ==> (#[trigger] entries[j]).id@ != entries[i].id@)
            ==> catalogs_by_id(entries).contains_key(entries[i].id@) && catalogs_by_id(
            entries,
        )[entries[i].id@] == entries[i],
        catalogs_by_id(entries).contains_key(path) ==> catalogs_by_id(entries)[path].id@ == path
            && entries.contains(catalogs_by_id(entries)[path]),
        (forall|j: int| 0 <= j < entries.len() ==> (#[trigger] entries[j]).id@ != path)
            ==> !catalogs_by_id(entries).contains_key(path),
    decreases entries.len(),
{
    if entries.len() > 0 {
        let rest = entries.drop_last();
        law_last_catalog_counts(rest, i, path);
        assert(entries[entries.len() - 1] == entries.last());
        assert forall|j: int| 0 <= j < rest.len() implies #[trigger] rest[j] == entries[j] by {}
        if 0 <= i < rest.len() && (forall|j: int|
            i < j < entries.len() ==> (#[trigger] entries[j]).id@ != entries[i].id@) {
            assert forall|j: int| i < j < rest.len() implies (#[trigger] rest[j]).id@
                != rest[i].id@ by {
                assert(entries[j].id@ != entries[i].id@);
            }
            assert(entries[entries.len() - 1].id@ != entries[i].id@);
        }
        if catalogs_by_id(rest).contains_key(path) {
            let k = choose|k: int| 0 <= k < rest.len() && rest[k] == catalogs_by_id(rest)[path];
            assert(entries[k] == catalogs_by_id(rest)[path]);
        }
        if forall|j: int| 0 <= j < entries.len() ==> (#[trigger] entries[j]).id@ != path {
            assert forall|j: int| 0 <= j < rest.len() implies (#[trigger] rest[j]).id@ != path by {
                assert(entries[j].id@ != path);
            }
        }
    }
}

} // verus!

//! A map from a path and a key to a value.

use vstd::prelude::*;
use vstd::string::*;

use super::assoc_map::{entries_map, AssocMap};

verus! {

/// Values under a path and a key. A path stays known after its last value is
/// removed, until the path itself is.
#[derive(Debug)]
pub struct PathMap<V> {
    paths: AssocMap<String, AssocMap<String, V>>,
}

/// The values of all paths, by path and key.
pub open spec fn by_path_and_key<V>(paths: Map<Seq<char>, AssocMap<String, V>>) -> Map<
    (Seq<char>, Seq<char>),
    V,
> {
    Map::new(
        |pk: (Seq<char>, Seq<char>)| paths.contains_key(pk.0) && paths[pk.0]@.contains_key(pk.1),
        |pk: (Seq<char>, Seq<char>)| paths[pk.0]@[pk.1],
    )
}

impl<V> View for PathMap<V> {
    type V = Map<(Seq<char>, Seq<char>), V>;

    closed spec fn view(&self) -> Map<(Seq<char>, Seq<char>), V> {
        by_path_and_key(self.paths@)
    }
}

impl<V> PathMap<V> {
    /// The path is known.
    pub closed spec fn knows(self, path: Seq<char>) -> bool {
        self.paths@.contains_key(path)
    }

    /// The entries of a known path, in order.
    pub closed spec fn entries(self, path: Seq<char>) -> Seq<(String, V)> {
        self.paths@[path].items()
    }

    /// Whatever has a value has a known path.
    pub proof fn lemma_known(self, path: Seq<char>, key: Seq<char>)
        ensures
            self@.contains_key((path, key)) ==> self.knows(path),
            self.knows(path) ==> (self@.contains_key((path, key)) <==> entries_map(
                self.entries(path),
            ).contains_key(key)),
            self@.contains_key((path, key)) ==> self@[(path, key)] == entries_map(
                self.entries(path),
            )[key],
    {
        self.paths@[path].lemma_view();
    }

    /// The map without paths.
    pub fn new() -> (r: Self)
        ensures
            r@ == Map::<(Seq<char>, Seq<char>), V>::empty(),
            forall|p: Seq<char>| !#[trigger] r.knows(p),
    {
        let r = PathMap { paths: AssocMap::new() };
        assert(r@ =~= Map::<(Seq<char>, Seq<char>), V>::empty());
        r
    }

    /// The entries of a path.
    pub fn path(&self, path: &str) -> (r: Option<&AssocMap<String, V>>)
        ensures
            match r {
                Some(m) => self.knows(path@) && m.items() == self.entries(path@) && forall|
                    k: Seq<char>,
                | #[trigger]
                    m@.contains_key(k) == self@.contains_key((path@, k)) && (m@.contains_key(k)
                        ==> m@[k] == self@[(path@, k)]),
                None => !self.knows(path@),
            },
    {
        self.paths.get_str(path)
    }

    /// The value under a path and a key.
    pub fn get(&self, path: &str, key: &String) -> (r: Option<&V>)
        ensures
            r == (if self@.contains_key((path@, key@)) {
                Some(&self@[(path@, key@)])
            } else {
                None
            }),
    {
        match self.paths.get_str(path) {
            Some(m) => m.get(key),
            None => None,
        }
    }

    /// Makes a path known, without values if it was not known before.
    pub fn add_path(&mut self, path: &str)
        ensures
            final(self)@ == old(self)@,
            final(self).knows(path@),
            forall|p: Seq<char>| p != path@ ==> #[trigger] final(self).knows(p) == old(self).knows(p),
            old(self).knows(path@) ==> *final(self) == *old(self),
            !old(self).knows(path@) ==> final(self).entries(path@).len() == 0,
    {
        if self.paths.get_str(path).is_none() {
            self.paths.insert(path.to_owned(), AssocMap::new());
            assert(self@ =~= old(self)@);
        }
    }

    /// Sets the value under a path and a key.
    pub fn insert(&mut self, path: &str, key: String, value: V)
        ensures
            final(self)@ == old(self)@.insert((path@, key@), value),
            final(self).knows(path@),
            forall|p: Seq<char>| p != path@ ==> #[trigger] final(self).knows(p) == old(self).knows(p),
    {
        let owned: String = path.to_owned();
        let mut entries: AssocMap<String, V> = match self.paths.remove(&owned) {
            Some(m) => m,
            None => AssocMap::new(),
        };
        entries.insert(key, value);
        self.paths.insert(owned, entries);
        assert(self@ =~= old(self)@.insert((path@, key@), value));
    }

    /// Forgets a path with all its values; says whether it was known.
    pub fn remove_path(&mut self, path: &str) -> (r: bool)
        ensures
            r == old(self).knows(path@),
            !final(self).knows(path@),
            forall|p: Seq<char>| p != path@ ==> #[trigger] final(self).knows(p) == old(self).knows(p),
            final(self)@ == old(self)@.remove_keys(
                Set::new(|pk: (Seq<char>, Seq<char>)| pk.0 == path@),
            ),
    {
        let owned: String = path.to_owned();
        let removed = self.paths.remove(&owned);
        assert(self@ =~= old(self)@.remove_keys(
            Set::new(|pk: (Seq<char>, Seq<char>)| pk.0 == path@),
        ));
        removed.is_some()
    }

    /// Removes the value under a path and a key; says whether there was one.
    pub fn remove(&mut self, path: &str, key: &String) -> (r: bool)
        ensures
            r == old(self)@.contains_key((path@, key@)),
            final(self)@ == old(self)@.remove((path@, key@)),
            forall|p: Seq<char>| #[trigger] final(self).knows(p) == old(self).knows(p),
    {
        let owned: String = path.to_owned();
        match self.paths.remove(&owned) {
            Some(m) => {
                let mut entries: AssocMap<String, V> = m;
                let removed = entries.remove(key);
                self.paths.insert(owned, entries);
                assert(self@ =~= old(self)@.remove((path@, key@)));
                removed.is_some()
            },
            None => {
                assert(self@ =~= old(self)@.remove((path@, key@)));
                false
            },
        }
    }
}

/// A value stands under a path and a key exactly if the path is known and has a value under
/// the key.
pub proof fn law_values_stand_under_path_and_key<V>(
    paths: Map<Seq<char>, AssocMap<String, V>>,
    path: Seq<char>,
    key: Seq<char>,
)
    ensures
        by_path_and_key(paths).contains_key((path, key)) <==> paths.contains_key(path)
            && paths[path]@.contains_key(key),
        by_path_and_key(paths).contains_key((path, key)) ==> by_path_and_key(paths)[(path, key)]
            == paths[path]@[key],
{
}

/// What is read under a path and a key is the value that stands there, if there is one.
pub proof fn law_values_are_read<V>(map: PathMap<V>, path: &str, key: String, r: Option<&V>)
    requires
        call_ensures(PathMap::<V>::get, (&map, path, &key), r),
    ensures
        r is Some <==> map@.contains_key((path@, key@)),
        r matches Some(v) ==> *v == map@[(path@, key@)],
{
}

} // verus!

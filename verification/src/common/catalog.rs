//! Fault catalogs: the descriptors of an entity under one id and version, with a
//! hash by which reporter and fault manager agree on the revision.

use sha2::{Digest, Sha256};
use vstd::prelude::*;
use vstd::string::*;
use vstd::utf8::*;

use super::assoc_map::{has_key, key_index, lemma_entry, AssocMap};
use super::fault::{FaultDescriptor, FaultId};
use super::fixed_string::stored_bytes;
use super::types::LongString;

verus! {

/// The SHA-256 digest of a byte string.
pub uninterp spec fn sha256(data: Seq<u8>) -> Seq<u8>;

/// Calls `sha2::Sha256::digest`: the result depends on the bytes alone and has 32
/// bytes.
#[verifier::external_body]
fn sha256_digest(data: &[u8]) -> (r: Vec<u8>)
    ensures
        r@ == sha256(data@),
        r@.len() == 32,
{
    Sha256::digest(data).to_vec()
}

/// Why a catalog cannot be built.
#[derive(Clone, Debug, PartialEq, Eq)]
pub enum CatalogBuildError {
    /// The configuration is not valid JSON; holds the parser's message.
    InvalidJson(String),
    /// No configuration was given.
    MissingConfig,
    /// The configuration could not be read; holds the system's message.
    Io(String),
    /// The catalog id does not fit the transport.
    IdTooLong(String),
    /// A configuration was given before.
    AlreadyConfigured,
    /// Two descriptors have the same id.
    DuplicateFaultId(FaultId),
}

impl CatalogBuildError {
    /// The message of the error.
    pub open spec fn message(self) -> Seq<char> {
        match self {
            CatalogBuildError::InvalidJson(m) => "invalid JSON: "@ + m@,
            CatalogBuildError::MissingConfig => "missing configuration"@,
            CatalogBuildError::Io(m) => "I/O error: "@ + m@,
            CatalogBuildError::IdTooLong(id) => "catalog id too long for IPC: "@ + id@,
            CatalogBuildError::AlreadyConfigured => "builder already configured"@,
            CatalogBuildError::DuplicateFaultId(id) => "duplicate FaultId: "@ + id.debug_text(),
        }
    }

    /// The message of the error.
    pub fn to_string(&self) -> (r: String)
        ensures
            r@ == self.message(),
    {
        match self {
            CatalogBuildError::InvalidJson(m) => String::from_str("invalid JSON: ").concat(
                m.as_str(),
            ),
            CatalogBuildError::MissingConfig => String::from_str("missing configuration"),
            CatalogBuildError::Io(m) => String::from_str("I/O error: ").concat(m.as_str()),
            CatalogBuildError::IdTooLong(id) => String::from_str(
                "catalog id too long for IPC: ",
            ).concat(id.as_str()),
            CatalogBuildError::AlreadyConfigured => String::from_str("builder already configured"),
            CatalogBuildError::DuplicateFaultId(id) => {
                let text = id.to_debug_string();
                String::from_str("duplicate FaultId: ").concat(text.as_str())
            },
        }
    }
}

/// The descriptors of an entity.
#[derive(Debug)]
pub struct FaultCatalog {
    /// Identifier of the catalog, which is also the path of the entity.
    pub id: String,
    /// Revision.
    pub version: u64,
    /// Descriptors by fault id.
    pub descriptors: AssocMap<FaultId, FaultDescriptor>,
    /// Hash of the configuration's canonical JSON.
    pub config_hash: Vec<u8>,
}

impl FaultCatalog {
    /// The descriptors by fault id.
    pub open spec fn by_id(self) -> Map<FaultId, FaultDescriptor> {
        self.descriptors@
    }

    /// The descriptors in order of insertion.
    pub open spec fn listed(self) -> Seq<FaultDescriptor> {
        self.descriptors.items().map_values(|e: (FaultId, FaultDescriptor)| e.1)
    }

    /// The hash of the configuration.
    pub open spec fn hash(self) -> Seq<u8> {
        self.config_hash@
    }

    /// A catalog made of ready parts.
    pub fn new(
        id: String,
        version: u64,
        descriptors: AssocMap<FaultId, FaultDescriptor>,
        config_hash: Vec<u8>,
    ) -> (r: Self)
        ensures
            r.id == id,
            r.version == version,
            r.by_id() == descriptors@,
            r.listed() == descriptors.items().map_values(|e: (FaultId, FaultDescriptor)| e.1),
            r.hash() == config_hash@,
    {
        FaultCatalog { id, version, descriptors, config_hash }
    }

    /// Hash of the configuration's canonical JSON.
    pub fn config_hash(&self) -> (r: &[u8])
        ensures
            r@ == self.hash(),
    {
        self.config_hash.as_slice()
    }

    /// The id as a fixed-size string; fails when it does not fit or is not ASCII.
    pub fn try_id(&self) -> (r: Result<LongString, CatalogBuildError>)
        ensures
            match r {
                Ok(s) => s.wf() && stored_bytes(encode_utf8(self.id@), 128) == Ok::<
                    _,
                    super::fixed_string::StringModificationError,
                >(s@),
                Err(e) => stored_bytes(encode_utf8(self.id@), 128) is Err && e
                    == CatalogBuildError::IdTooLong(self.id),
            },
    {
        match LongString::from_bytes(self.id.as_str().as_bytes()) {
            Ok(s) => Ok(s),
            Err(_) => Err(CatalogBuildError::IdTooLong(self.id.clone())),
        }
    }

    /// The id as a fixed-size string.
    pub fn id(&self) -> (r: LongString)
        requires
            stored_bytes(encode_utf8(self.id@), 128) is Ok,
        ensures
            r.wf(),
            r@ == encode_utf8(self.id@),
    {
        match self.try_id() {
            Ok(s) => s,
            Err(_) => vstd::pervasive::unreached(),
        }
    }

    /// The descriptor of a fault.
    pub fn descriptor(&self, id: &FaultId) -> (r: Option<&FaultDescriptor>)
        ensures
            r == (if self.by_id().contains_key(*id) {
                Some(&self.by_id()[*id])
            } else {
                None
            }),
    {
        self.descriptors.get(id)
    }

    /// All descriptors, in order of insertion.
    pub fn descriptors(&self) -> (r: Vec<FaultDescriptor>)
        ensures
            r@ == self.listed(),
            self.by_id().dom().finite(),
            r@.len() == self.by_id().dom().len(),
            forall|i: int|
                0 <= i < r@.len() ==> self.by_id().contains_value(#[trigger] r@[i]),
    {
        let n: usize = self.descriptors.len();
        let mut out: Vec<FaultDescriptor> = Vec::new();
        let mut i: usize = 0;
        while i < n
            invariant
                i <= n,
                n == self.descriptors.items().len(),
                self.by_id() == self.descriptors@,
                out@.len() == i,
                forall|j: int|
                    0 <= j < i ==> #[trigger] out@[j] == self.descriptors.items()[j].1
                        && self.by_id().contains_value(out@[j]),
            decreases n - i,
        {
            let entry = self.descriptors.at(i);
            assert(self.by_id()[entry.0@] == entry.1);
            out.push(entry.1);
            i += 1;
        }
        assert(out@ =~= self.listed());
        out
    }

    /// Number of descriptors.
    pub fn len(&self) -> (r: usize)
        ensures
            self.by_id().dom().finite(),
            r == self.by_id().dom().len(),
            r == self.listed().len(),
    {
        self.descriptors.len()
    }

    /// The catalog has no descriptors.
    pub fn is_empty(&self) -> (r: bool)
        ensures
            r == (self.listed().len() == 0),
            r == (self.by_id() == Map::<FaultId, FaultDescriptor>::empty()),
    {
        let n: usize = self.descriptors.len();
        proof {
            if n == 0 {
                assert(self.by_id().dom() =~= Set::<FaultId>::empty());
                assert(self.by_id() =~= Map::<FaultId, FaultDescriptor>::empty());
            }
        }
        n == 0
    }
}

/// Configuration of a catalog.
#[derive(Clone, Debug)]
pub struct FaultCatalogConfig {
    /// Identifier of the catalog.
    pub id: String,
    /// Revision.
    pub version: u64,
    /// Descriptors in order.
    pub faults: Vec<FaultDescriptor>,
}

/// A configuration together with its canonical JSON, over which it is hashed.
#[derive(Clone, Debug)]
pub struct CatalogSource {
    /// The configuration.
    pub config: FaultCatalogConfig,
    /// Its compact JSON text.
    pub canonical_json: String,
}

/// Where a builder takes its configuration from. A JSON source carries what
/// reading and decoding it gave.
#[derive(Debug)]
pub enum FaultCatalogBuilderInput {
    /// Nothing given yet.
    Unset,
    /// JSON text.
    JsonString(Result<CatalogSource, CatalogBuildError>),
    /// JSON file.
    JsonFile(Result<CatalogSource, CatalogBuildError>),
    /// Ready configuration.
    ConfigStruct(CatalogSource),
}

/// Builds a catalog from exactly one source.
#[derive(Debug)]
pub struct FaultCatalogBuilder {
    input: FaultCatalogBuilderInput,
}

/// The position of the first descriptor whose id occurred before; the length of
/// the list if there is none.
pub open spec fn first_duplicate(faults: Seq<FaultDescriptor>) -> int
    decreases faults.len(),
{
    if faults.len() == 0 {
        0
    } else {
        let before = first_duplicate(faults.drop_last());
        if before < faults.len() - 1 {
            before
        } else if exists|i: int|
            0 <= i < faults.len() - 1 && (#[trigger] faults[i]).id == faults.last().id {
            faults.len() - 1
        } else {
            faults.len() as int
        }
    }
}

/// What building a catalog from a configuration gives.
pub open spec fn built_from(
    source: CatalogSource,
    r: Result<FaultCatalog, CatalogBuildError>,
) -> bool {
    let faults = source.config.faults@;
    let d = first_duplicate(faults);
    match r {
        Ok(c) => {
            &&& d == faults.len()
            &&& c.id == source.config.id
            &&& c.version == source.config.version
            &&& c.listed() == faults
            &&& c.hash() == sha256(encode_utf8(source.canonical_json@))
            &&& c.hash().len() == 32
            &&& forall|id: FaultId| #[trigger]
                c.by_id().contains_key(id) <==> exists|i: int|
                    0 <= i < faults.len() && (#[trigger] faults[i]).id == id
            &&& forall|i: int|
                0 <= i < faults.len() ==> c.by_id()[(#[trigger] faults[i]).id] == faults[i]
        },
        Err(e) => d < faults.len() && e == CatalogBuildError::DuplicateFaultId(faults[d].id),
    }
}

proof fn lemma_first_duplicate(faults: Seq<FaultDescriptor>, k: int)
    requires
        0 <= k < faults.len(),
        forall|i: int, j: int|
            0 <= i < j < k ==> (#[trigger] faults[i]).id != (#[trigger] faults[j]).id,
    ensures
        first_duplicate(faults.take(k)) == k,
        (exists|i: int| 0 <= i < k && (#[trigger] faults[i]).id == faults[k].id)
            ==> first_duplicate(faults) == k,
    decreases faults.len(),
{
    let t = faults.take(k);
    lemma_distinct_no_duplicate(t);
    if exists|i: int| 0 <= i < k && (#[trigger] faults[i]).id == faults[k].id {
        let i = choose|i: int| 0 <= i < k && (#[trigger] faults[i]).id == faults[k].id;
        if k == faults.len() - 1 {
            assert(faults.drop_last() =~= t);
        } else {
            let s = faults.drop_last();
            assert(s[i] == faults[i] && s[k] == faults[k]);
            assert forall|a: int, b: int| 0 <= a < b < k implies (#[trigger] s[a]).id != (
            #[trigger] s[b]).id by {
                assert(faults[a].id != faults[b].id);
            }
            lemma_first_duplicate(s, k);
        }
    }
}

proof fn lemma_distinct_no_duplicate(faults: Seq<FaultDescriptor>)
    requires
        forall|i: int, j: int|
            0 <= i < j < faults.len() ==> (#[trigger] faults[i]).id != (#[trigger] faults[j]).id,
    ensures
        first_duplicate(faults) == faults.len(),
    decreases faults.len(),
{
    if faults.len() > 0 {
        let s = faults.drop_last();
        assert forall|i: int, j: int| 0 <= i < j < s.len() implies (#[trigger] s[i]).id != (
        #[trigger] s[j]).id by {
            assert(faults[i].id != faults[j].id);
        }
        lemma_distinct_no_duplicate(s);
        if exists|i: int|
            0 <= i < faults.len() - 1 && (#[trigger] faults[i]).id == faults.last().id {
            let i = choose|i: int|
                0 <= i < faults.len() - 1 && (#[trigger] faults[i]).id == faults.last().id;
            assert(faults[i].id != faults[faults.len() - 1].id);
        }
    }
}

/// Configurations with the same canonical JSON give catalogs with the same hash, whichever
/// way they were handed over.
pub proof fn law_equal_json_equal_hash(
    a: CatalogSource,
    b: CatalogSource,
    x: FaultCatalog,
    y: FaultCatalog,
)
    requires
        built_from(a, Ok(x)),
        built_from(b, Ok(y)),
        a.canonical_json@ == b.canonical_json@,
    ensures
        x.hash() == y.hash(),
{
}

/// No two faults of a catalog that was built have the same id.
pub proof fn law_built_faults_are_distinct(source: CatalogSource, c: FaultCatalog, i: int, j: int)
    requires
        built_from(source, Ok(c)),
        0 <= i < j < c.listed().len(),
    ensures
        c.listed()[i].id != c.listed()[j].id,
{
    lemma_no_duplicate_distinct(source.config.faults@, i, j);
}

proof fn lemma_no_duplicate_distinct(faults: Seq<FaultDescriptor>, i: int, j: int)
    requires
        first_duplicate(faults) == faults.len(),
        0 <= i < j < faults.len(),
    ensures
        faults[i].id != faults[j].id,
    decreases faults.len(),
{
    let s = faults.drop_last();
    if j < faults.len() - 1 {
        lemma_no_duplicate_distinct(s, i, j);
        assert(s[i] == faults[i] && s[j] == faults[j]);
    }
}

impl FaultCatalogBuilder {
    /// The source given so far.
    pub closed spec fn source(self) -> FaultCatalogBuilderInput {
        self.input
    }

    /// A builder without a source.
    pub fn new() -> (r: Self)
        ensures
            r.source() is Unset,
    {
        FaultCatalogBuilder { input: FaultCatalogBuilderInput::Unset }
    }

    /// Fails when a source was given before.
    fn check_if_not_set(&self) -> (r: Result<(), CatalogBuildError>)
        ensures
            r is Ok <==> self.source() is Unset,
            r matches Err(e) ==> e == CatalogBuildError::AlreadyConfigured,
    {
        match self.input {
            FaultCatalogBuilderInput::Unset => Ok(()),
            _ => Err(CatalogBuildError::AlreadyConfigured),
        }
    }

    /// Takes the configuration from JSON text, given what decoding it gave.
    pub fn json_string(self, decoded: Result<CatalogSource, CatalogBuildError>) -> (r: Result<
        Self,
        CatalogBuildError,
    >)
        ensures
            r is Ok <==> self.source() is Unset,
            r matches Ok(b) ==> b.source() == FaultCatalogBuilderInput::JsonString(decoded),
            r matches Err(e) ==> e == CatalogBuildError::AlreadyConfigured,
    {
        match self.check_if_not_set() {
            Ok(_) => Ok(
                FaultCatalogBuilder { input: FaultCatalogBuilderInput::JsonString(decoded) },
            ),
            Err(e) => Err(e),
        }
    }

    /// Takes the configuration from a JSON file, given what reading and decoding it
    /// gave.
    pub fn json_file(self, decoded: Result<CatalogSource, CatalogBuildError>) -> (r: Result<
        Self,
        CatalogBuildError,
    >)
        ensures
            r is Ok <==> self.source() is Unset,
            r matches Ok(b) ==> b.source() == FaultCatalogBuilderInput::JsonFile(decoded),
            r matches Err(e) ==> e == CatalogBuildError::AlreadyConfigured,
    {
        match self.check_if_not_set() {
            Ok(_) => Ok(FaultCatalogBuilder { input: FaultCatalogBuilderInput::JsonFile(decoded) }),
            Err(e) => Err(e),
        }
    }

    /// Takes a ready configuration, with its canonical JSON.
    pub fn cfg_struct(self, cfg: FaultCatalogConfig, canonical_json: String) -> (r: Result<
        Self,
        CatalogBuildError,
    >)
        ensures
            r is Ok <==> self.source() is Unset,
            r matches Ok(b) ==> b.source() == FaultCatalogBuilderInput::ConfigStruct(
                (CatalogSource { config: cfg, canonical_json }),
            ),
            r matches Err(e) ==> e == CatalogBuildError::AlreadyConfigured,
    {
        match self.check_if_not_set() {
            Ok(_) => Ok(
                FaultCatalogBuilder {
                    input: FaultCatalogBuilderInput::ConfigStruct(
                        CatalogSource { config: cfg, canonical_json },
                    ),
                },
            ),
            Err(e) => Err(e),
        }
    }

    /// What building gives, for each source.
    pub open spec fn outcome(self, r: Result<FaultCatalog, CatalogBuildError>) -> bool {
        match self.source() {
            FaultCatalogBuilderInput::Unset => r == Err::<FaultCatalog, _>(
                CatalogBuildError::MissingConfig,
            ),
            FaultCatalogBuilderInput::ConfigStruct(s) => built_from(s, r),
            FaultCatalogBuilderInput::JsonString(d) => match d {
                Ok(s) => built_from(s, r),
                Err(e) => r == Err::<FaultCatalog, _>(e),
            },
            FaultCatalogBuilderInput::JsonFile(d) => match d {
                Ok(s) => built_from(s, r),
                Err(e) => r == Err::<FaultCatalog, _>(e),
            },
        }
    }

    /// Builds the catalog.
    pub fn try_build(self) -> (r: Result<FaultCatalog, CatalogBuildError>)
        ensures
            self.outcome(r),
    {
        match self.input {
            FaultCatalogBuilderInput::Unset => Err(CatalogBuildError::MissingConfig),
            FaultCatalogBuilderInput::ConfigStruct(s) => Self::from_cfg_struct(s),
            FaultCatalogBuilderInput::JsonString(d) => match d {
                Ok(s) => Self::from_cfg_struct(s),
                Err(e) => Err(e),
            },
            FaultCatalogBuilderInput::JsonFile(d) => match d {
                Ok(s) => Self::from_cfg_struct(s),
                Err(e) => Err(e),
            },
        }
    }

    /// The source holds a configuration whose fault ids are distinct.
    pub open spec fn buildable(self) -> bool {
        match self.source() {
            FaultCatalogBuilderInput::Unset => false,
            FaultCatalogBuilderInput::ConfigStruct(s) => first_duplicate(s.config.faults@)
                == s.config.faults@.len(),
            FaultCatalogBuilderInput::JsonString(d) => d matches Ok(s) && first_duplicate(
                s.config.faults@,
            ) == s.config.faults@.len(),
            FaultCatalogBuilderInput::JsonFile(d) => d matches Ok(s) && first_duplicate(
                s.config.faults@,
            ) == s.config.faults@.len(),
        }
    }

    /// Builds the catalog from a source that is known to be good.
    pub fn build(self) -> (r: FaultCatalog)
        requires
            self.buildable(),
        ensures
            self.outcome(Ok(r)),
    {
        match self.try_build() {
            Ok(c) => c,
            Err(_) => vstd::pervasive::unreached(),
        }
    }

    /// Hash of a configuration's canonical JSON.
    fn calc_config_hash(canonical_json: &str) -> (r: Vec<u8>)
        ensures
            r@ == sha256(encode_utf8(canonical_json@)),
            r@.len() == 32,
    {
        sha256_digest(canonical_json.as_bytes())
    }

    /// Builds a catalog from a configuration; fails at the first fault id that
    /// occurs a second time.
    pub fn from_cfg_struct(source: CatalogSource) -> (r: Result<FaultCatalog, CatalogBuildError>)
        ensures
            built_from(source, r),
    {
        let config_hash = Self::calc_config_hash(source.canonical_json.as_str());
        let faults = source.config.faults;
        let mut descriptors: AssocMap<FaultId, FaultDescriptor> = AssocMap::new();
        let mut i: usize = 0;
        while i < faults.len()
            invariant
                i <= faults@.len(),
                faults@ == source.config.faults@,
                descriptors.wf(),
                descriptors.items().len() == i,
                forall|j: int|
                    0 <= j < i ==> #[trigger] descriptors.items()[j] == (faults@[j].id, faults@[j]),
            decreases faults@.len() - i,
        {
            let descriptor: FaultDescriptor = faults[i];
            let id: FaultId = descriptor.id;
            proof {
                descriptors.lemma_view();
                assert forall|a: int, b: int| 0 <= a < b < i implies (#[trigger] faults@[a]).id != (
                #[trigger] faults@[b]).id by {
                    assert(descriptors.items()[a].0@ != descriptors.items()[b].0@);
                }
                lemma_first_duplicate(faults@, i as int);
            }
            if descriptors.contains_key(&id) {
                proof {
                    let k = key_index(descriptors.items(), id);
                    assert(descriptors.items()[k] == (faults@[k].id, faults@[k]));
                    assert(faults@[k].id == faults@[i as int].id);
                }
                return Err(CatalogBuildError::DuplicateFaultId(id));
            }
            descriptors.insert(id, descriptor);
            i += 1;
        }
        proof {
            descriptors.lemma_view();
            let items = descriptors.items();
            assert forall|a: int, b: int| 0 <= a < b < faults@.len() implies (
            #[trigger] faults@[a]).id != (#[trigger] faults@[b]).id by {
                assert(items[a].0@ != items[b].0@);
            }
            lemma_distinct_no_duplicate(faults@);
            assert(items.map_values(|e: (FaultId, FaultDescriptor)| e.1) =~= faults@);
            assert forall|id: FaultId| #[trigger]
                descriptors@.contains_key(id) <==> exists|j: int|
                    0 <= j < faults@.len() && (#[trigger] faults@[j]).id == id by {
                if has_key(items, id) {
                    let k = key_index(items, id);
                    assert(items[k] == (faults@[k].id, faults@[k]));
                }
                if exists|j: int| 0 <= j < faults@.len() && (#[trigger] faults@[j]).id == id {
                    let k = choose|j: int| 0 <= j < faults@.len() && (#[trigger] faults@[j]).id == id;
                    assert(items[k] == (faults@[k].id, faults@[k]));
                    assert(has_key(items, id));
                }
            }
            assert forall|j: int| 0 <= j < faults@.len() implies descriptors@[(
            #[trigger] faults@[j]).id] == faults@[j] by {
                assert(items[j] == (faults@[j].id, faults@[j]));
                lemma_entry(items, j);
            }
        }
        Ok(FaultCatalog::new(source.config.id, source.config.version, descriptors, config_hash))
    }
}

impl Default for FaultCatalogBuilder {
    fn default() -> (r: Self)
        ensures
            r.source() is Unset,
    {
        Self::new()
    }
}

/// A catalog is built from a configuration exactly if no fault occurs twice. It has the id,
/// the version and the faults of the configuration, in their order and each under its
/// identifier, and the hash of the configuration's canonical JSON.
pub proof fn law_catalog_holds_its_configuration(
    source: CatalogSource,
    r: Result<FaultCatalog, CatalogBuildError>,
    i: int,
    j: int,
    id: FaultId,
)
    requires
        built_from(source, r),
    ensures
        ({
            let faults = source.config.faults@;
            &&& 0 <= i < j < faults.len() && faults[i].id == faults[j].id ==> r is Err
            &&& r is Err ==> exists|a: int, b: int|
                0 <= a < b < faults.len() && (#[trigger] faults[a]).id == (#[trigger] faults[b]).id
                    && r->Err_0 == CatalogBuildError::DuplicateFaultId(faults[b].id)
            &&& r matches Ok(c) ==> {
                &&& c.id@ == source.config.id@
                &&& c.version == source.config.version
                &&& c.listed() == faults
                &&& c.hash() == sha256(encode_utf8(source.canonical_json@))
                &&& 0 <= i < faults.len() ==> c.by_id().contains_key(faults[i].id)
                    && c.by_id()[faults[i].id] == faults[i]
                &&& c.by_id().contains_key(id) ==> c.by_id()[id].id == id && faults.contains(
                    c.by_id()[id],
                )
            }
        }),
{
    let faults = source.config.faults@;
    match r {
        Ok(c) => {
            if 0 <= i < j < faults.len() {
                lemma_no_duplicate_distinct(faults, i, j);
            }
            if c.by_id().contains_key(id) {
                let k = choose|k: int| 0 <= k < faults.len() && (#[trigger] faults[k]).id == id;
                assert(c.by_id()[faults[k].id] == faults[k]);
                assert(faults.contains(faults[k]));
            }
        },
        Err(e) => {
            lemma_duplicate_is_one(faults);
        },
    }
}

/// A fault that is found to occur twice does.
proof fn lemma_duplicate_is_one(faults: Seq<FaultDescriptor>)
    requires
        first_duplicate(faults) < faults.len(),
    ensures
        0 <= first_duplicate(faults),
        exists|a: int|
            0 <= a < first_duplicate(faults) && (#[trigger] faults[a]).id
                == faults[first_duplicate(faults)].id,
    decreases faults.len(),
{
    let rest = faults.drop_last();
    if first_duplicate(rest) < rest.len() {
        lemma_duplicate_is_one(rest);
        let k = first_duplicate(rest);
        let a = choose|a: int| 0 <= a < k && (#[trigger] rest[a]).id == rest[k].id;
        assert(faults[a] == rest[a] && faults[k] == rest[k]);
    }
}

/// A builder without a source builds nothing; one whose source could not be read gives the
/// reason; any other one builds from its configuration, whichever way that was given.
pub proof fn law_builder_uses_its_source(
    builder: FaultCatalogBuilder,
    source: CatalogSource,
    e: CatalogBuildError,
    r: Result<FaultCatalog, CatalogBuildError>,
)
    requires
        builder.outcome(r),
    ensures
        builder.source() is Unset ==> r == Err::<FaultCatalog, _>(CatalogBuildError::MissingConfig),
        builder.source() == FaultCatalogBuilderInput::ConfigStruct(source) ==> built_from(
            source,
            r,
        ),
        builder.source() == FaultCatalogBuilderInput::JsonString(Ok(source)) ==> built_from(
            source,
            r,
        ),
        builder.source() == FaultCatalogBuilderInput::JsonFile(Ok(source)) ==> built_from(
            source,
            r,
        ),
        builder.source() == FaultCatalogBuilderInput::JsonString(Err(e)) ==> r == Err::<
            FaultCatalog,
            _,
        >(e),
        builder.source() == FaultCatalogBuilderInput::JsonFile(Err(e)) ==> r == Err::<
            FaultCatalog,
            _,
        >(e),
{
}

/// The message of an error names its cause; what it is about stands behind the name.
pub proof fn law_catalog_messages_name_the_cause(m: String, id: FaultId)
    ensures
        CatalogBuildError::MissingConfig.message() == "missing configuration"@,
        CatalogBuildError::AlreadyConfigured.message() == "builder already configured"@,
        CatalogBuildError::InvalidJson(m).message() == "invalid JSON: "@ + m@,
        CatalogBuildError::Io(m).message() == "I/O error: "@ + m@,
        CatalogBuildError::IdTooLong(m).message() == "catalog id too long for IPC: "@ + m@,
        CatalogBuildError::DuplicateFaultId(id).message() == "duplicate FaultId: "@
            + id.debug_text(),
{
}

/// A configuration with a fault that occurs twice is refused for the first fault that
/// occurred before: those in front of it are distinct.
pub proof fn law_first_duplicate_is_named(
    source: CatalogSource,
    r: Result<FaultCatalog, CatalogBuildError>,
    j: int,
)
    requires
        built_from(source, r),
        0 <= j < source.config.faults@.len(),
        forall|a: int, b: int|
            0 <= a < b < j ==> (#[trigger] source.config.faults@[a]).id != (
            #[trigger] source.config.faults@[b]).id,
        exists|a: int|
            0 <= a < j && (#[trigger] source.config.faults@[a]).id == source.config.faults@[j].id,
    ensures
        r == Err::<FaultCatalog, _>(
            CatalogBuildError::DuplicateFaultId(source.config.faults@[j].id),
        ),
{
    lemma_first_duplicate(source.config.faults@, j);
}

/// A builder takes one source, as it was given, and refuses every further one.
pub proof fn law_builder_takes_one_source(
    builder: FaultCatalogBuilder,
    decoded: Result<CatalogSource, CatalogBuildError>,
    cfg: FaultCatalogConfig,
    canonical_json: String,
    a: Result<FaultCatalogBuilder, CatalogBuildError>,
    b: Result<FaultCatalogBuilder, CatalogBuildError>,
    c: Result<FaultCatalogBuilder, CatalogBuildError>,
)
    requires
        call_ensures(FaultCatalogBuilder::json_string, (builder, decoded), a),
        call_ensures(FaultCatalogBuilder::json_file, (builder, decoded), b),
        call_ensures(FaultCatalogBuilder::cfg_struct, (builder, cfg, canonical_json), c),
    ensures
        builder.source() is Unset ==> a is Ok && b is Ok && c is Ok,
        builder.source() is Unset ==> a->Ok_0.source() == FaultCatalogBuilderInput::JsonString(
            decoded,
        ) && b->Ok_0.source() == FaultCatalogBuilderInput::JsonFile(decoded),
        builder.source() is Unset ==> c->Ok_0.source() == FaultCatalogBuilderInput::ConfigStruct(
            (CatalogSource { config: cfg, canonical_json }),
        ),
        !(builder.source() is Unset) ==> a == Err::<FaultCatalogBuilder, _>(
            CatalogBuildError::AlreadyConfigured,
        ) && b == Err::<FaultCatalogBuilder, _>(CatalogBuildError::AlreadyConfigured) && c == Err::<
            FaultCatalogBuilder,
            _,
        >(CatalogBuildError::AlreadyConfigured),
{
}

/// The id of a catalog is handed out as it is, if it fits the transport: up to 128 ASCII
/// characters other than NUL.
pub proof fn law_catalog_id_is_handed_out(
    catalog: FaultCatalog,
    r: Result<LongString, CatalogBuildError>,
)
    requires
        call_ensures(FaultCatalog::try_id, (&catalog,), r),
    ensures
        r is Ok <==> encode_utf8(catalog.id@).len() <= 128 && forall|i: int|
            0 <= i < encode_utf8(catalog.id@).len() ==> 0 < (#[trigger] encode_utf8(
                catalog.id@,
            )[i]) < 128,
        r matches Ok(s) ==> s@ == encode_utf8(catalog.id@),
        r matches Err(e) ==> e is IdTooLong && e->IdTooLong_0@ == catalog.id@,
{
    let b = encode_utf8(catalog.id@);
    if super::fixed_string::all_string_bytes(b) {
        assert forall|i: int| 0 <= i < b.len() implies 0 < (#[trigger] b[i]) < 128 by {
            assert(super::fixed_string::is_string_byte(b[i]));
        }
    }
}

/// A descriptor is found under its identifier exactly if the catalog has one, and all of
/// them are listed and counted.
pub proof fn law_descriptors_are_found(
    catalog: FaultCatalog,
    id: FaultId,
    one: Option<&FaultDescriptor>,
    all: Vec<FaultDescriptor>,
    n: usize,
    empty: bool,
)
    requires
        call_ensures(FaultCatalog::descriptor, (&catalog, &id), one),
        call_ensures(FaultCatalog::descriptors, (&catalog,), all),
        call_ensures(FaultCatalog::len, (&catalog,), n),
        call_ensures(FaultCatalog::is_empty, (&catalog,), empty),
    ensures
        one is Some <==> catalog.by_id().contains_key(id),
        one matches Some(d) ==> *d == catalog.by_id()[id],
        all@ == catalog.listed(),
        n == all@.len(),
        empty <==> n == 0,
{
}

/// A catalog can be built exactly from a configuration that was given and read and in which
/// no fault occurs twice.
pub proof fn law_what_can_be_built(
    builder: FaultCatalogBuilder,
    source: CatalogSource,
    i: int,
    j: int,
)
    ensures
        builder.source() is Unset ==> !builder.buildable(),
        builder.source() matches FaultCatalogBuilderInput::JsonString(d) ==> (d is Err
            ==> !builder.buildable()),
        builder.source() matches FaultCatalogBuilderInput::JsonFile(d) ==> (d is Err
            ==> !builder.buildable()),
        builder.source() == FaultCatalogBuilderInput::ConfigStruct(source) || builder.source()
            == FaultCatalogBuilderInput::JsonString(Ok(source)) || builder.source()
            == FaultCatalogBuilderInput::JsonFile(Ok(source)) ==> {
            &&& builder.buildable() && 0 <= i < j < source.config.faults@.len()
                ==> source.config.faults@[i].id != source.config.faults@[j].id
            &&& (forall|a: int, b: int|
                0 <= a < b < source.config.faults@.len() ==> (#[trigger] source.config.faults@[a]).id
                    != (#[trigger] source.config.faults@[b]).id) ==> builder.buildable()
        },
{
    let faults = source.config.faults@;
    if builder.buildable() && first_duplicate(faults) == faults.len() {
        if 0 <= i < j < faults.len() {
            lemma_no_duplicate_distinct(faults, i, j);
        }
    }
    if forall|a: int, b: int|
        0 <= a < b < faults.len() ==> (#[trigger] faults[a]).id != (#[trigger] faults[b]).id {
        lemma_distinct_no_duplicate(faults);
    }
}

} // verus!

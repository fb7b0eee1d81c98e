//! Values of the key-value store in which fault states are kept.

use vstd::prelude::*;
use vstd::string::*;

use crate::common::assoc_map::AssocMap;
use crate::common::text::{debug_quoted, push_signed_decimal, quoted, signed_decimal};

verus! {

/// A stored value.
#[derive(Debug)]
pub enum KvsValue {
    /// Truth value.
    Boolean(bool),
    /// Signed number.
    I64(i64),
    /// Text.
    Text(String),
    /// Named values.
    Object(AssocMap<String, KvsValue>),
    /// A value of a kind that fault states do not use.
    Unsupported,
}

/// Named values.
pub type KvsMap = AssocMap<String, KvsValue>;

/// Failures of the store and of its encoding.
#[derive(Debug, PartialEq, Eq)]
pub enum KvsError {
    /// A value cannot be encoded.
    SerializationFailed(String),
    /// A value cannot be decoded.
    DeserializationFailed(String),
    /// There is no such key.
    KeyNotFound,
}

impl KvsError {
    /// The error as it is shown in messages.
    pub open spec fn debug_text(self) -> Seq<char> {
        match self {
            KvsError::SerializationFailed(m) => "SerializationFailed("@ + quoted(m@) + ")"@,
            KvsError::DeserializationFailed(m) => "DeserializationFailed("@ + quoted(m@) + ")"@,
            KvsError::KeyNotFound => "KeyNotFound"@,
        }
    }

    /// The error as it is shown in messages.
    pub fn to_debug_string(&self) -> (r: String)
        ensures
            r@ == self.debug_text(),
    {
        match self {
            KvsError::SerializationFailed(m) => String::from_str("SerializationFailed(").concat(
                debug_quoted(m.as_str()).as_str(),
            ).concat(")"),
            KvsError::DeserializationFailed(m) => String::from_str("DeserializationFailed(").concat(
                debug_quoted(m.as_str()).as_str(),
            ).concat(")"),
            KvsError::KeyNotFound => String::from_str("KeyNotFound"),
        }
    }
}

/// A truth value among named values, which must be there.
pub open spec fn bool_field(m: Map<Seq<char>, KvsValue>, key: Seq<char>) -> Result<
    bool,
    Seq<char>,
> {
    if !m.contains_key(key) {
        Err(key)
    } else {
        match m[key] {
            KvsValue::Boolean(b) => Ok(b),
            _ => Err(key + ": not a bool"@),
        }
    }
}

/// A 32-bit number among named values; zero when it is missing.
pub open spec fn u32_field(m: Map<Seq<char>, KvsValue>, key: Seq<char>) -> Result<u32, Seq<char>> {
    if !m.contains_key(key) {
        Ok(0)
    } else {
        match m[key] {
            KvsValue::I64(i) => if 0 <= i <= u32::MAX {
                Ok(i as u32)
            } else {
                Err(key + ": value "@ + signed_decimal(i as int) + " out of u32 range"@)
            },
            _ => Err(key + ": not an i64"@),
        }
    }
}

/// A 64-bit number among named values; zero when it is missing.
pub open spec fn u64_field(m: Map<Seq<char>, KvsValue>, key: Seq<char>) -> Result<u64, Seq<char>> {
    if !m.contains_key(key) {
        Ok(0)
    } else {
        match m[key] {
            KvsValue::I64(i) => if 0 <= i {
                Ok(i as u64)
            } else {
                Err(key + ": value "@ + signed_decimal(i as int) + " out of u64 range"@)
            },
            _ => Err(key + ": not an i64"@),
        }
    }
}

/// Text of every value of a map.
pub open spec fn text_map(m: Map<Seq<char>, String>) -> Map<Seq<char>, Seq<char>> {
    m.map_values(|s: String| s@)
}

/// Texts among named values.
pub open spec fn texts_of(m: Map<Seq<char>, KvsValue>) -> Map<Seq<char>, Seq<char>> {
    m.map_values(|v: KvsValue| v->Text_0@)
}

/// The environment data among named values, which must be there and hold only
/// texts.
pub open spec fn env_field(m: Map<Seq<char>, KvsValue>) -> Result<
    Map<Seq<char>, Seq<char>>,
    Seq<char>,
> {
    if !m.contains_key("env_data"@) {
        Err("env_data"@)
    } else {
        match m["env_data"@] {
            KvsValue::Object(e) => if forall|k: Seq<char>| #[trigger]
                e@.contains_key(k) ==> e@[k] is Text {
                Ok(texts_of(e@))
            } else {
                Err("env_data: not a string"@)
            },
            _ => Err("env_data: not an object"@),
        }
    }
}

/// Reads a truth value that must be there.
pub fn get_bool(m: &KvsMap, key: &str) -> (r: Result<bool, KvsError>)
    ensures
        match bool_field(m@, key@) {
            Ok(b) => r == Ok::<_, KvsError>(b),
            Err(e) => r matches Err(KvsError::DeserializationFailed(t)) && t@ == e,
        },
{
    match m.get_str(key) {
        Some(v) => match v {
            KvsValue::Boolean(b) => Ok(*b),
            _ => Err(
                KvsError::DeserializationFailed(String::from_str(key).concat(": not a bool")),
            ),
        },
        None => Err(KvsError::DeserializationFailed(String::from_str(key))),
    }
}

/// Reads a 32-bit number; zero when it is missing.
pub fn get_u32(m: &KvsMap, key: &str) -> (r: Result<u32, KvsError>)
    ensures
        match u32_field(m@, key@) {
            Ok(n) => r == Ok::<_, KvsError>(n),
            Err(e) => r matches Err(KvsError::DeserializationFailed(t)) && t@ == e,
        },
{
    match m.get_str(key) {
        Some(v) => match v {
            KvsValue::I64(i) => {
                let n: i64 = *i;
                if 0 <= n && n <= u32::MAX as i64 {
                    Ok(n as u32)
                } else {
                    let mut out = String::from_str(key).concat(": value ");
                    push_signed_decimal(&mut out, n);
                    Err(KvsError::DeserializationFailed(out.concat(" out of u32 range")))
                }
            },
            _ => Err(
                KvsError::DeserializationFailed(String::from_str(key).concat(": not an i64")),
            ),
        },
        None => Ok(0),
    }
}

/// Reads a 64-bit number; zero when it is missing.
pub fn get_u64(m: &KvsMap, key: &str) -> (r: Result<u64, KvsError>)
    ensures
        match u64_field(m@, key@) {
            Ok(n) => r == Ok::<_, KvsError>(n),
            Err(e) => r matches Err(KvsError::DeserializationFailed(t)) && t@ == e,
        },
{
    match m.get_str(key) {
        Some(v) => match v {
            KvsValue::I64(i) => {
                let n: i64 = *i;
                if 0 <= n {
                    Ok(n as u64)
                } else {
                    let mut out = String::from_str(key).concat(": value ");
                    push_signed_decimal(&mut out, n);
                    Err(KvsError::DeserializationFailed(out.concat(" out of u64 range")))
                }
            },
            _ => Err(
                KvsError::DeserializationFailed(String::from_str(key).concat(": not an i64")),
            ),
        },
        None => Ok(0),
    }
}

/// Turns named values into texts; `None` if one of them is no text.
fn texts(e: &KvsMap) -> (r: Option<AssocMap<String, String>>)
    ensures
        match r {
            Some(t) => (forall|k: Seq<char>| #[trigger] e@.contains_key(k) ==> e@[k] is Text)
                && text_map(t@) == texts_of(e@) && t.items().len() == e.items().len() && forall|
                i: int,
            |
                0 <= i < e.items().len() ==> (#[trigger] t.items()[i]).0 == e.items()[i].0
                    && e.items()[i].1 == KvsValue::Text(t.items()[i].1),
            None => exists|k: Seq<char>| #[trigger] e@.contains_key(k) && !(e@[k] is Text),
        },
{
    let n: usize = e.len();
    let mut out: AssocMap<String, String> = AssocMap::new();
    let mut i: usize = 0;
    proof {
        e.lemma_view();
    }
    while i < n
        invariant
            i <= n,
            n == e.items().len(),
            e.wf(),
            out.wf(),
            out.items().len() == i,
            forall|j: int|
                0 <= j < i ==> (#[trigger] out.items()[j]).0 == e.items()[j].0 && e.items()[j].1
                    == KvsValue::Text(out.items()[j].1),
        decreases n - i,
    {
        let entry = e.at(i);
        match &entry.1 {
            KvsValue::Text(t) => {
                proof {
                    e.lemma_view();
                    let items = out.items();
                    let k = entry.0@;
                    if crate::common::assoc_map::has_key(items, k) {
                        let j = crate::common::assoc_map::key_index(items, k);
                        assert(items[j].0 == e.items()[j].0);
                        assert(e.items()[j].0@ != e.items()[i as int].0@);
                    }
                }
                out.insert(entry.0.clone(), t.clone());
            },
            _ => {
                return None;
            },
        }
        i += 1;
    }
    proof {
        e.lemma_view();
        out.lemma_view();
        let a = e.items();
        let b = out.items();
        assert forall|k: Seq<char>| #[trigger] e@.contains_key(k) implies out@.contains_key(k)
            && e@[k] == KvsValue::Text(out@[k]) by {
            let j = crate::common::assoc_map::key_index(a, k);
            assert(b[j].0 == a[j].0);
            crate::common::assoc_map::lemma_entry(a, j);
            crate::common::assoc_map::lemma_entry(b, j);
        }
        assert forall|k: Seq<char>| #[trigger] out@.contains_key(k) implies e@.contains_key(k) by {
            let j = crate::common::assoc_map::key_index(b, k);
            assert(b[j].0 == a[j].0);
            crate::common::assoc_map::lemma_entry(a, j);
        }
        assert(text_map(out@) =~= texts_of(e@));
    }
    Some(out)
}

/// Reads the environment data.
pub fn get_env(m: &KvsMap) -> (r: Result<AssocMap<String, String>, KvsError>)
    ensures
        match env_field(m@) {
            Ok(e) => r matches Ok(t) && text_map(t@) == e,
            Err(e) => r matches Err(KvsError::DeserializationFailed(t)) && t@ == e,
        },
{
    match m.get_str("env_data") {
        Some(v) => match v {
            KvsValue::Object(e) => match texts(e) {
                Some(t) => Ok(t),
                None => Err(
                    KvsError::DeserializationFailed(String::from_str("env_data: not a string")),
                ),
            },
            _ => Err(KvsError::DeserializationFailed(String::from_str("env_data: not an object"))),
        },
        None => Err(KvsError::DeserializationFailed(String::from_str("env_data"))),
    }
}

/// Turns texts into named values.
pub fn from_texts(t: &AssocMap<String, String>) -> (r: KvsMap)
    ensures
        r@.dom() == t@.dom(),
        forall|k: Seq<char>| #[trigger] r@.contains_key(k) ==> r@[k] == KvsValue::Text(t@[k]),
{
    let n: usize = t.len();
    let mut out: KvsMap = AssocMap::new();
    let mut i: usize = 0;
    while i < n
        invariant
            i <= n,
            n == t.items().len(),
            t.wf(),
            out.wf(),
            out.items().len() == i,
            forall|j: int|
                0 <= j < i ==> (#[trigger] out.items()[j]).0 == t.items()[j].0 && out.items()[j].1
                    == KvsValue::Text(t.items()[j].1),
        decreases n - i,
    {
        let entry = t.at(i);
        proof {
            t.lemma_view();
            let items = out.items();
            let k = entry.0@;
            if crate::common::assoc_map::has_key(items, k) {
                let j = crate::common::assoc_map::key_index(items, k);
                assert(items[j].0 == t.items()[j].0);
                assert(t.items()[j].0@ != t.items()[i as int].0@);
            }
        }
        out.insert(entry.0.clone(), KvsValue::Text(entry.1.clone()));
        i += 1;
    }
    proof {
        t.lemma_view();
        out.lemma_view();
        let a = t.items();
        let b = out.items();
        assert forall|k: Seq<char>| #[trigger] out@.contains_key(k) implies t@.contains_key(k)
            && out@[k] == KvsValue::Text(t@[k]) by {
            let j = crate::common::assoc_map::key_index(b, k);
            assert(b[j].0 == a[j].0);
            crate::common::assoc_map::lemma_entry(a, j);
            crate::common::assoc_map::lemma_entry(b, j);
        }
        assert forall|k: Seq<char>| #[trigger] t@.contains_key(k) implies out@.contains_key(k) by {
            let j = crate::common::assoc_map::key_index(a, k);
            assert(b[j].0 == a[j].0);
            crate::common::assoc_map::lemma_entry(b, j);
        }
        assert(out@.dom() =~= t@.dom());
    }
    out
}

/// A flag is read exactly if it is there as a truth value. The reason of a failure begins
/// with the name of the field.
pub proof fn law_flags_are_read(m: Map<Seq<char>, KvsValue>, key: Seq<char>)
    ensures
        bool_field(m, key) is Ok <==> m.contains_key(key) && m[key] is Boolean,
        m.contains_key(key) && m[key] is Boolean ==> bool_field(m, key)->Ok_0 == m[key]->Boolean_0,
        !m.contains_key(key) ==> bool_field(m, key) == Err::<bool, Seq<char>>(key),
        m.contains_key(key) && !(m[key] is Boolean) ==> bool_field(m, key) == Err::<
            bool,
            Seq<char>,
        >(key + ": not a bool"@),
{
}

/// A number is read if it is there and in range, and counts as zero if it is not there.
pub proof fn law_numbers_are_read(m: Map<Seq<char>, KvsValue>, key: Seq<char>)
    ensures
        !m.contains_key(key) ==> u32_field(m, key) == Ok::<u32, Seq<char>>(0) && u64_field(m, key)
            == Ok::<u64, Seq<char>>(0),
        m.contains_key(key) && !(m[key] is I64) ==> u32_field(m, key) == Err::<u32, Seq<char>>(
            key + ": not an i64"@,
        ) && u64_field(m, key) == Err::<u64, Seq<char>>(key + ": not an i64"@),
        m.contains_key(key) && m[key] is I64 ==> ({
            let i = m[key]->I64_0;
            &&& 0 <= i <= 0xffff_ffff ==> u32_field(m, key) is Ok && u32_field(m, key)->Ok_0 == i
            &&& i < 0 || i > 0xffff_ffff ==> u32_field(m, key) == Err::<u32, Seq<char>>(
                key + ": value "@ + signed_decimal(i as int) + " out of u32 range"@,
            )
            &&& 0 <= i ==> u64_field(m, key) is Ok && u64_field(m, key)->Ok_0 == i
            &&& i < 0 ==> u64_field(m, key) == Err::<u64, Seq<char>>(
                key + ": value "@ + signed_decimal(i as int) + " out of u64 range"@,
            )
        }),
{
}

/// Environment data is read exactly if it is there as named texts, each under its name.
pub proof fn law_environment_is_read(m: Map<Seq<char>, KvsValue>, name: Seq<char>)
    ensures
        env_field(m) is Ok <==> m.contains_key("env_data"@) && (
        m["env_data"@] matches KvsValue::Object(e) && forall|k: Seq<char>| #[trigger]
            e@.contains_key(k) ==> e@[k] is Text),
        env_field(m) is Ok ==> ({
            let e = m["env_data"@]->Object_0;
            let read = env_field(m)->Ok_0;
            &&& read.contains_key(name) <==> e@.contains_key(name)
            &&& e@.contains_key(name) ==> read[name] == e@[name]->Text_0@
        }),
        !m.contains_key("env_data"@) ==> env_field(m)->Err_0 == "env_data"@,
        m.contains_key("env_data"@) && !(m["env_data"@] is Object) ==> env_field(m)->Err_0
            == "env_data: not an object"@,
        m.contains_key("env_data"@) && m["env_data"@] is Object && env_field(m) is Err
            ==> env_field(m)->Err_0 == "env_data: not a string"@,
{
}

/// How an error of the store shows in messages: by its kind, with its reason in quotes.
pub proof fn law_store_errors_show_their_kind(m: String)
    ensures
        KvsError::SerializationFailed(m).debug_text() == "SerializationFailed("@ + quoted(m@)
            + ")"@,
        KvsError::DeserializationFailed(m).debug_text() == "DeserializationFailed("@ + quoted(m@)
            + ")"@,
        KvsError::KeyNotFound.debug_text() == "KeyNotFound"@,
{
}

} // verus!

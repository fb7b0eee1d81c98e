//! Strings with a compile-time capacity, as they travel between processes.

// The string crate logs through whichever logger is linked in.
use iceoryx2_loggers as _;
use vstd::prelude::*;
use vstd::string::*;

use super::text::chars_of;

verus! {

/// Why a byte string cannot be held by a fixed-capacity string.
#[derive(Clone, Copy, Debug, PartialEq, Eq, Structural)]
pub enum StringModificationError {
    /// A byte is zero or lies outside the 7-bit range.
    InvalidCharacter,
    /// There are more bytes than the capacity.
    InsertWouldExceedCapacity,
}

/// A byte that a fixed-capacity string can hold: 7-bit and not NUL.
pub open spec fn is_string_byte(b: u8) -> bool {
    0 < b < 128
}

/// Every byte of `s` can be held.
pub open spec fn all_string_bytes(s: Seq<u8>) -> bool {
    forall|i: int| 0 <= i < s.len() ==> is_string_byte(#[trigger] s[i])
}

/// What storing `bytes` in a string of capacity `cap` gives.
pub open spec fn stored_bytes(bytes: Seq<u8>, cap: nat) -> Result<Seq<u8>, StringModificationError> {
    if bytes.len() > cap {
        Err(StringModificationError::InsertWouldExceedCapacity)
    } else if !all_string_bytes(bytes) {
        Err(StringModificationError::InvalidCharacter)
    } else {
        Ok(bytes)
    }
}

/// The first `cap` bytes of `bytes`, or all of them if there are fewer.
pub open spec fn truncated(bytes: Seq<u8>, cap: nat) -> Seq<u8> {
    if bytes.len() > cap {
        bytes.take(cap as int)
    } else {
        bytes
    }
}

/// The printable form of one byte: tab, carriage return and newline get a
/// backslash escape, other bytes outside `0x20..=0x7f` a hexadecimal one.
pub open spec fn escaped_byte(b: u8) -> Seq<char> {
    if b == 9 {
        seq!['\\', 't']
    } else if b == 13 {
        seq!['\\', 'r']
    } else if b == 10 {
        seq!['\\', 'n']
    } else if 0x20 <= b <= 0x7f {
        seq![b as char]
    } else {
        seq!['\\', 'x', hex_digit(b / 16), hex_digit(b % 16)]
    }
}

/// The lower-case hexadecimal digit of `n`.
pub open spec fn hex_digit(n: u8) -> char {
    if n < 10 {
        (48 + n) as char
    } else {
        (87 + n) as char
    }
}

/// The printable form of a byte string.
pub open spec fn escaped(bytes: Seq<u8>) -> Seq<char>
    decreases bytes.len(),
{
    if bytes.len() == 0 {
        seq![]
    } else {
        escaped(bytes.drop_last()) + escaped_byte(bytes.last())
    }
}

/// Calls `iceoryx2_bb_container::string::StaticString::<CAPACITY>::try_from`.
/// It takes up to `CAPACITY` bytes, all of them 7-bit and not NUL, and holds them
/// as they are; the length is judged before the bytes. A string of capacity zero
/// cannot be made.
#[verifier::external_body]
fn static_string_try_from<const CAPACITY: usize>(bytes: &[u8]) -> (r: Result<
    Vec<u8>,
    StringModificationError,
>)
    requires
        CAPACITY > 0,
    ensures
        match r {
            Ok(v) => stored_bytes(bytes@, CAPACITY as nat) == Ok::<_, StringModificationError>(v@),
            Err(e) => stored_bytes(bytes@, CAPACITY as nat) == Err::<Seq<u8>, _>(e),
        },
{
    match iceoryx2_bb_container::string::StaticString::<CAPACITY>::try_from(bytes) {
        Ok(s) => Ok(s.as_bytes_const().to_vec()),
        Err(iceoryx2_bb_container::string::StringModificationError::InvalidCharacter) => Err(
            StringModificationError::InvalidCharacter,
        ),
        Err(iceoryx2_bb_container::string::StringModificationError::InsertWouldExceedCapacity) => {
            Err(StringModificationError::InsertWouldExceedCapacity)
        },
    }
}

/// Calls `iceoryx2_bb_container::string::StaticString::<CAPACITY>::from_str_truncated`.
/// It cuts the UTF-8 bytes of `s` off behind the first `CAPACITY` and stores what
/// is left as `try_from` would.
#[verifier::external_body]
fn static_string_truncated<const CAPACITY: usize>(s: &str) -> (r: Result<
    Vec<u8>,
    StringModificationError,
>)
    requires
        CAPACITY > 0,
    ensures
        match r {
            Ok(v) => stored_bytes(truncated(vstd::utf8::encode_utf8(s@), CAPACITY as nat), CAPACITY as nat)
                == Ok::<_, StringModificationError>(v@),
            Err(e) => stored_bytes(truncated(vstd::utf8::encode_utf8(s@), CAPACITY as nat), CAPACITY as nat)
                == Err::<Seq<u8>, _>(e),
        },
{
    match iceoryx2_bb_container::string::StaticString::<CAPACITY>::from_str_truncated(s) {
        Ok(s) => Ok(s.as_bytes_const().to_vec()),
        Err(iceoryx2_bb_container::string::StringModificationError::InvalidCharacter) => Err(
            StringModificationError::InvalidCharacter,
        ),
        Err(iceoryx2_bb_container::string::StringModificationError::InsertWouldExceedCapacity) => {
            Err(StringModificationError::InsertWouldExceedCapacity)
        },
    }
}

/// Calls `iceoryx2_bb_container::string::as_escaped_string`, which prints a byte
/// string with escapes for what is not printable. The function would build a
/// broken string from bytes above `0x7f` only if it left them as they are, and it
/// escapes those.
#[verifier::external_body]
fn escaped_string(bytes: &[u8]) -> (r: String)
    ensures
        r@ == escaped(bytes@),
{
    iceoryx2_bb_container::string::as_escaped_string(bytes)
}

/// A string of at most `CAPACITY` bytes that is stored in place.
///
/// The bytes behind the string are zero, so two strings are equal exactly when
/// their contents are.
#[derive(Clone, Copy, Debug, Eq, PartialOrd, Ord, Hash)]
pub struct FixedString<const CAPACITY: usize> {
    data: [u8; CAPACITY],
    len: usize,
}

impl<const CAPACITY: usize> View for FixedString<CAPACITY> {
    type V = Seq<u8>;

    closed spec fn view(&self) -> Seq<u8> {
        self.data@.take(self.len as int)
    }
}

impl<const CAPACITY: usize> FixedString<CAPACITY> {
    /// The contents fit, hold only string bytes, and are followed by zeros.
    #[verifier::type_invariant]
    pub closed spec fn wf(self) -> bool {
        &&& self.len <= CAPACITY
        &&& forall|i: int| 0 <= i < self.len ==> is_string_byte(#[trigger] self.data@[i])
        &&& forall|i: int| self.len <= i < CAPACITY ==> #[trigger] self.data@[i] == 0
    }

    /// Well-formed strings with the same contents are the same string.
    pub proof fn lemma_ext(a: Self, b: Self)
        requires
            a.wf(),
            b.wf(),
            a@ == b@,
        ensures
            a == b,
    {
        assert(a.len == a@.len() && b.len == b@.len());
        assert forall|i: int| 0 <= i < CAPACITY implies a.data[i] == b.data[i] by {
            if i < a.len {
                assert(a@[i] == a.data@[i] && b@[i] == b.data@[i]);
            } else {
                assert(a.data@[i] == 0 && b.data@[i] == 0);
            }
            assert(a.data@[i] == b.data@[i]);
        }
        assert(a.data =~= b.data);
    }

    /// What every well-formed string's contents satisfy.
    pub proof fn lemma_contents(a: Self)
        requires
            a.wf(),
        ensures
            a@.len() <= CAPACITY,
            all_string_bytes(a@),
    {
        assert forall|i: int| 0 <= i < a@.len() implies is_string_byte(#[trigger] a@[i]) by {
            assert(is_string_byte(a.data@[i]));
        }
    }

    /// The string with the given contents.
    fn from_stored(bytes: &Vec<u8>) -> (r: Self)
        requires
            bytes@.len() <= CAPACITY,
            all_string_bytes(bytes@),
        ensures
            r.wf(),
            r@ == bytes@,
    {
        let mut data: [u8; CAPACITY] = [0u8; CAPACITY];
        let mut i: usize = 0;
        while i < bytes.len()
            invariant
                i <= bytes@.len() <= CAPACITY,
                forall|j: int| 0 <= j < i ==> #[trigger] data@[j] == bytes@[j],
                forall|j: int| i <= j < CAPACITY ==> #[trigger] data@[j] == 0,
            decreases bytes@.len() - i,
        {
            data[i] = bytes[i];
            i += 1;
        }
        let ghost d = data@;
        assert forall|j: int| 0 <= j < bytes@.len() implies is_string_byte(#[trigger] d[j]) by {
            assert(is_string_byte(bytes@[j]));
        }
        let r = FixedString { data, len: bytes.len() };
        assert(r@ =~= bytes@);
        r
    }

    /// The empty string.
    pub fn new() -> (r: Self)
        ensures
            r.wf(),
            r@ == Seq::<u8>::empty(),
    {
        let bytes: Vec<u8> = Vec::new();
        Self::from_stored(&bytes)
    }

    /// Stores a byte string; fails on more than `CAPACITY` bytes and on bytes that
    /// are zero or not 7-bit.
    pub fn from_bytes(bytes: &[u8]) -> (r: Result<Self, StringModificationError>)
        requires
            CAPACITY > 0,
        ensures
            match r {
                Ok(s) => s.wf() && stored_bytes(bytes@, CAPACITY as nat) == Ok::<
                    _,
                    StringModificationError,
                >(s@),
                Err(e) => stored_bytes(bytes@, CAPACITY as nat) == Err::<Seq<u8>, _>(e),
            },
    {
        match static_string_try_from::<CAPACITY>(bytes) {
            Ok(v) => Ok(Self::from_stored(&v)),
            Err(e) => Err(e),
        }
    }

    /// Stores the first `CAPACITY` bytes of a string; fails on bytes among them
    /// that are zero or not 7-bit.
    pub fn from_str_truncated(s: &str) -> (r: Result<Self, StringModificationError>)
        requires
            CAPACITY > 0,
        ensures
            match r {
                Ok(t) => t.wf() && all_string_bytes(t@) && t@ == truncated(
                    vstd::utf8::encode_utf8(s@),
                    CAPACITY as nat,
                ),
                Err(e) => e == StringModificationError::InvalidCharacter && !all_string_bytes(
                    truncated(vstd::utf8::encode_utf8(s@), CAPACITY as nat),
                ),
            },
    {
        match static_string_truncated::<CAPACITY>(s) {
            Ok(v) => Ok(Self::from_stored(&v)),
            Err(e) => Err(e),
        }
    }

    /// Number of bytes held.
    pub fn len(&self) -> (r: usize)
        ensures
            r == self@.len(),
            r <= CAPACITY,
    {
        proof {
            use_type_invariant(self);
        }
        self.len
    }

    /// The byte at `i`.
    pub fn byte_at(&self, i: usize) -> (r: u8)
        requires
            i < self@.len(),
        ensures
            r == self@[i as int],
            is_string_byte(r),
    {
        proof {
            use_type_invariant(self);
            Self::lemma_contents(*self);
        }
        self.data[i]
    }

    /// A copy of the bytes held.
    pub fn to_bytes(&self) -> (r: Vec<u8>)
        ensures
            r@ == self@,
            self.wf(),
            r@.len() <= CAPACITY,
            all_string_bytes(r@),
    {
        proof {
            use_type_invariant(self);
            Self::lemma_contents(*self);
        }
        let mut out: Vec<u8> = Vec::new();
        let mut i: usize = 0;
        while i < self.len
            invariant
                i <= self.len <= CAPACITY,
                self@.len() == self.len,
                out@ == self@.take(i as int),
            decreases self.len - i,
        {
            out.push(self.data[i]);
            i += 1;
            assert(out@ =~= self@.take(i as int));
        }
        assert(out@ =~= self@);
        out
    }

    /// The characters held, as they are.
    pub fn to_text(&self) -> (r: String)
        ensures
            r@ == chars_of(self@),
            self.wf(),
    {
        proof {
            use_type_invariant(self);
        }
        let n: usize = self.len();
        let mut out = String::new();
        let mut i: usize = 0;
        assert(out@ =~= chars_of(self@.take(0)));
        while i < n
            invariant
                i <= n,
                n == self@.len(),
                out@ == chars_of(self@.take(i as int)),
            decreases n - i,
        {
            let b: u8 = self.byte_at(i);
            out.push(b as char);
            i += 1;
            assert(out@ =~= chars_of(self@.take(i as int)));
        }
        assert(self@.take(n as int) =~= self@);
        out
    }

    /// The printable form: what is not printable is escaped.
    pub fn to_string(&self) -> (r: String)
        ensures
            r@ == escaped(self@),
            self.wf(),
    {
        let bytes = self.to_bytes();
        escaped_string(bytes.as_slice())
    }
}

impl<const CAPACITY: usize> Default for FixedString<CAPACITY> {
    fn default() -> (r: Self)
        ensures
            r.wf(),
            r@ == Seq::<u8>::empty(),
    {
        Self::new()
    }
}

impl<const CAPACITY: usize> PartialEq for FixedString<CAPACITY> {
    fn eq(&self, other: &Self) -> (r: bool) {
        proof {
            use_type_invariant(self);
            use_type_invariant(other);
        }
        if self.len != other.len {
            return false;
        }
        let mut i: usize = 0;
        while i < self.len
            invariant
                i <= self.len <= CAPACITY,
                self.len == other.len,
                forall|j: int| 0 <= j < i ==> #[trigger] self.data@[j] == other.data@[j],
            decreases self.len - i,
        {
            if self.data[i] != other.data[i] {
                assert(self.data@[i as int] != other.data@[i as int]);
                return false;
            }
            i += 1;
        }
        assert(self@ =~= other@);
        proof {
            Self::lemma_ext(*self, *other);
        }
        true
    }
}

impl<const CAPACITY: usize> vstd::std_specs::cmp::PartialEqSpecImpl for FixedString<CAPACITY> {
    open spec fn obeys_eq_spec() -> bool {
        true
    }

    open spec fn eq_spec(&self, other: &Self) -> bool {
        *self == *other
    }
}

/// A byte string is held as it is, exactly if it fits and all of its bytes are 7-bit and
/// not zero. One that is too long is refused for that, whatever its bytes.
pub proof fn law_strings_are_held_as_they_are(bytes: Seq<u8>, cap: nat)
    ensures
        bytes.len() > cap ==> stored_bytes(bytes, cap) == Err::<Seq<u8>, _>(
            StringModificationError::InsertWouldExceedCapacity,
        ),
        bytes.len() <= cap && (exists|i: int|
            0 <= i < bytes.len() && ((#[trigger] bytes[i]) == 0 || bytes[i] >= 128))
            ==> stored_bytes(bytes, cap) == Err::<Seq<u8>, _>(
            StringModificationError::InvalidCharacter,
        ),
        bytes.len() <= cap && (forall|i: int|
            0 <= i < bytes.len() ==> 1 <= (#[trigger] bytes[i]) <= 127) ==> stored_bytes(bytes, cap)
            == Ok::<_, StringModificationError>(bytes),
{
    if exists|i: int| 0 <= i < bytes.len() && ((#[trigger] bytes[i]) == 0 || bytes[i] >= 128) {
        let i = choose|i: int|
            0 <= i < bytes.len() && ((#[trigger] bytes[i]) == 0 || bytes[i] >= 128);
        assert(!is_string_byte(bytes[i]));
    }
}

/// What is cut to size is a beginning of the bytes, and all of them if they fit.
pub proof fn law_cutting_keeps_the_beginning(bytes: Seq<u8>, cap: nat)
    ensures
        truncated(bytes, cap).len() <= cap,
        truncated(bytes, cap).is_prefix_of(bytes),
        bytes.len() <= cap ==> truncated(bytes, cap) == bytes,
        bytes.len() > cap ==> truncated(bytes, cap).len() == cap,
{
}

/// How a byte prints: printable characters as they are, tabulators and line ends as a
/// backslash and a letter, and all other bytes as two hexadecimal digits behind a
/// backslash and an `x`.
pub proof fn law_how_bytes_print(b: u8)
    ensures
        ' ' as u8 <= b <= 0x7f ==> escaped(seq![b]) == seq![b as char],
        b == '\t' as u8 ==> escaped(seq![b]) == seq!['\\', 't'],
        b == '\n' as u8 ==> escaped(seq![b]) == seq!['\\', 'n'],
        b == '\r' as u8 ==> escaped(seq![b]) == seq!['\\', 'r'],
        b > 0x7f || (b < ' ' as u8 && b != '\t' as u8 && b != '\n' as u8 && b != '\r' as u8)
            ==> escaped(seq![b]) == seq![
            '\\',
            'x',
            "0123456789abcdef"@[(b / 16) as int],
            "0123456789abcdef"@[(b % 16) as int],
        ],
{
    reveal_strlit("0123456789abcdef");
    assert(seq![b].drop_last() =~= seq![]);
    assert(escaped(seq![]) =~= seq![]);
    assert(escaped(seq![b]) =~= escaped_byte(b));
}

/// A string prints byte by byte.
pub proof fn law_strings_print_byte_by_byte(a: Seq<u8>, b: Seq<u8>)
    ensures
        escaped(a + b) == escaped(a) + escaped(b),
    decreases b.len(),
{
    if b.len() == 0 {
        assert(a + b =~= a);
        assert(escaped(a) + escaped(b) =~= escaped(a));
    } else {
        assert((a + b).drop_last() =~= a + b.drop_last());
        law_strings_print_byte_by_byte(a, b.drop_last());
        assert(escaped(a + b) =~= escaped(a) + escaped(b));
    }
}

/// Strings are compared by their contents.
pub proof fn law_strings_are_compared_by_contents<const CAPACITY: usize>(
    a: FixedString<CAPACITY>,
    b: FixedString<CAPACITY>,
)
    requires
        a.wf(),
        b.wf(),
    ensures
        vstd::std_specs::cmp::PartialEqSpec::eq_spec(&a, &b) <==> a@ == b@,
{
    if a@ == b@ {
        FixedString::lemma_ext(a, b);
    }
}

} // verus!

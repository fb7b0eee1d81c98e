//! Storage keys of faults.
//!
//! A key is `n:` and the decimal number, `t:` and the text, or `u:` and 32
//! hexadecimal digits. Keys without such a prefix stand for text.

use vstd::prelude::*;
use vstd::slice::*;
use vstd::string::*;
use vstd::utf8::*;

use super::sovd_fault_storage::StorageError;
use crate::common::fault::FaultId;
use crate::common::fixed_string::{all_string_bytes, escaped, is_string_byte, stored_bytes};
use crate::common::text::{
    byte_hex, chars_of, decimal, digit_of, digit_value, digits_value, law_hexadecimal_digits,
    lemma_ascii_bytes, lemma_decimal_ascii,
    lemma_decimal_value, parse_u32, push_byte_hex, push_decimal, unsigned_value,
};
use crate::common::types::ShortString;

verus! {

/// Bytes as hexadecimal digits.
pub open spec fn hex_text(bytes: Seq<u8>) -> Seq<char>
    decreases bytes.len(),
{
    if bytes.len() == 0 {
        seq![]
    } else {
        hex_text(bytes.drop_last()) + byte_hex(bytes.last())
    }
}

/// The storage key of a fault.
pub open spec fn storage_key(id: FaultId) -> Seq<char> {
    match id {
        FaultId::Numeric(n) => seq!['n', ':'] + decimal(n as nat),
        FaultId::Text(t) => seq!['t', ':'] + chars_of(t@),
        FaultId::Uuid(u) => seq!['u', ':'] + hex_text(u@),
    }
}

/// The byte that two hexadecimal digits stand for.
pub open spec fn hex_byte(high: u8, low: u8) -> u8 {
    (16 * digit_value(high, 16)->0 + digit_value(low, 16)->0) as u8
}

/// The bytes that pairs of hexadecimal digits stand for.
pub open spec fn hex_pairs(s: Seq<u8>) -> Option<Seq<u8>> {
    if forall|i: int| 0 <= i < s.len() ==> digit_value(#[trigger] s[i], 16) is Some {
        Some(Seq::new(s.len() / 2, |i: int| hex_byte(s[2 * i], s[2 * i + 1])))
    } else {
        None
    }
}

/// `s` begins with the letter `c` and a colon.
pub open spec fn has_prefix(s: Seq<u8>, c: u8) -> bool {
    s.len() >= 2 && s[0] == c && s[1] == 58
}

/// What reading a storage key gives.
pub open spec fn key_decodes(key: Seq<char>, r: Result<FaultId, StorageError>) -> bool {
    let b = encode_utf8(key);
    if has_prefix(b, 110) {
        match unsigned_value(b.skip(2), 10, u32::MAX as nat) {
            Some(n) => r == Ok::<_, StorageError>(FaultId::Numeric(n as u32)),
            None => r matches Err(StorageError::Deserialization(m)) && m@
                == "invalid numeric key: "@ + key,
        }
    } else if has_prefix(b, 117) {
        if b.len() != 34 {
            r matches Err(StorageError::Deserialization(m)) && m@
                == "invalid uuid key length (expected 32 hex chars): "@ + key
        } else {
            match hex_pairs(b.skip(2)) {
                Some(bytes) => r matches Ok(FaultId::Uuid(u)) && u@ == bytes,
                None => r matches Err(StorageError::Deserialization(m)) && m@
                    == "invalid uuid hex: "@ + key,
            }
        }
    } else {
        let text = if has_prefix(b, 116) {
            b.skip(2)
        } else {
            b
        };
        if stored_bytes(text, 64) is Ok {
            r matches Ok(FaultId::Text(s)) && s.wf() && s@ == text
        } else {
            r matches Err(StorageError::Deserialization(m)) && m@ == "fault id key too long: "@
                + key
        }
    }
}

/// The key stands for a fault.
pub open spec fn key_readable(key: Seq<char>) -> bool {
    let b = encode_utf8(key);
    if has_prefix(b, 110) {
        unsigned_value(b.skip(2), 10, u32::MAX as nat) is Some
    } else if has_prefix(b, 117) {
        b.len() == 34 && hex_pairs(b.skip(2)) is Some
    } else if has_prefix(b, 116) {
        stored_bytes(b.skip(2), 64) is Ok
    } else {
        stored_bytes(b, 64) is Ok
    }
}

/// Appends 16 bytes as hexadecimal digits.
fn push_hex_text(out: &mut String, u: &[u8; 16])
    ensures
        final(out)@ == old(out)@ + hex_text(u@),
{
    let mut i: usize = 0;
    assert(out@ =~= old(out)@ + hex_text(u@.take(0)));
    while i < 16
        invariant
            i <= 16,
            out@ == old(out)@ + hex_text(u@.take(i as int)),
        decreases 16 - i,
    {
        push_byte_hex(out, u[i]);
        assert(u@.take(i + 1).drop_last() =~= u@.take(i as int));
        i += 1;
        assert(out@ =~= old(out)@ + hex_text(u@.take(i as int)));
    }
    assert(u@.take(16) =~= u@);
}

/// The storage key of a fault.
pub fn fault_id_to_key(fault_id: &FaultId) -> (r: String)
    ensures
        r@ == storage_key(*fault_id),
        fault_id.wf(),
{
    let mut out = String::new();
    match fault_id {
        FaultId::Numeric(n) => {
            out.push('n');
            out.push(':');
            push_decimal(&mut out, *n as u64);
        },
        FaultId::Text(t) => {
            out.push('t');
            out.push(':');
            let text = t.to_text();
            out.append(text.as_str());
        },
        FaultId::Uuid(u) => {
            out.push('u');
            out.push(':');
            push_hex_text(&mut out, u);
        },
    }
    assert(out@ =~= storage_key(*fault_id));
    out
}

/// Reads 32 hexadecimal digits.
pub fn parse_hex_pairs(s: &[u8]) -> (r: Option<[u8; 16]>)
    requires
        s@.len() == 32,
    ensures
        match r {
            Some(u) => hex_pairs(s@) == Some(u@),
            None => hex_pairs(s@) is None,
        },
{
    let mut bytes: [u8; 16] = [0u8; 16];
    let mut i: usize = 0;
    while i < 16
        invariant
            i <= 16,
            s@.len() == 32,
            forall|j: int| 0 <= j < 2 * i ==> digit_value(#[trigger] s@[j], 16) is Some,
            forall|j: int| 0 <= j < i ==> #[trigger] bytes@[j] == hex_byte(s@[2 * j], s@[2 * j + 1]),
        decreases 16 - i,
    {
        let high: u32 = match digit_of(s[2 * i], 16) {
            Some(d) => d,
            None => {
                return None;
            },
        };
        let low: u32 = match digit_of(s[2 * i + 1], 16) {
            Some(d) => d,
            None => {
                return None;
            },
        };
        bytes[i] = (16 * high + low) as u8;
        i += 1;
    }
    assert(hex_pairs(s@)->0 =~= bytes@);
    Some(bytes)
}

/// Reads a storage key.
pub fn fault_id_from_key(key: &str) -> (r: Result<FaultId, StorageError>)
    ensures
        key_decodes(key@, r),
        r is Ok <==> key_readable(key@),
{
    let b = key.as_bytes();
    let prefixed: bool = b.len() >= 2 && b[1] == 58;
    if prefixed && b[0] == 110 {
        let digits = slice_subrange(b, 2, b.len());
        assert(digits@ =~= b@.skip(2));
        return match parse_u32(digits, 10) {
            Some(n) => Ok(FaultId::Numeric(n)),
            None => Err(
                StorageError::Deserialization(String::from_str("invalid numeric key: ").concat(key)),
            ),
        };
    }
    if prefixed && b[0] == 117 {
        if b.len() != 34 {
            return Err(
                StorageError::Deserialization(
                    String::from_str("invalid uuid key length (expected 32 hex chars): ").concat(
                        key,
                    ),
                ),
            );
        }
        let digits = slice_subrange(b, 2, b.len());
        assert(digits@ =~= b@.skip(2));
        return match parse_hex_pairs(digits) {
            Some(u) => Ok(FaultId::Uuid(u)),
            None => Err(
                StorageError::Deserialization(String::from_str("invalid uuid hex: ").concat(key)),
            ),
        };
    }
    let text = if prefixed && b[0] == 116 {
        slice_subrange(b, 2, b.len())
    } else {
        b
    };
    assert(has_prefix(b@, 116) ==> text@ =~= b@.skip(2));
    match ShortString::from_bytes(text) {
        Ok(s) => Ok(FaultId::Text(s)),
        Err(_) => Err(
            StorageError::Deserialization(String::from_str("fault id key too long: ").concat(key)),
        ),
    }
}

/// No byte of the string needs an escape when it is printed.
pub open spec fn printable(s: Seq<u8>) -> bool {
    forall|i: int| 0 <= i < s.len() ==> 0x20 <= #[trigger] s[i] <= 0x7f
}

/// Printable text is printed as it is.
pub proof fn lemma_escaped_printable(s: Seq<u8>)
    requires
        printable(s),
    ensures
        escaped(s) == chars_of(s),
        is_ascii_chars(chars_of(s)),
    decreases s.len(),
{
    if s.len() > 0 {
        let t = s.drop_last();
        assert forall|i: int| 0 <= i < t.len() implies 0x20 <= #[trigger] t[i] <= 0x7f by {
            assert(t[i] == s[i]);
        }
        lemma_escaped_printable(t);
        assert(0x20 <= s[s.len() - 1] <= 0x7f);
        assert(chars_of(s) =~= chars_of(t) + seq![s.last() as char]);
    } else {
        assert(chars_of(s) =~= seq![]);
    }
    assert forall|i: int| 0 <= i < chars_of(s).len() implies '\0' <= #[trigger] chars_of(s)[i]
        <= '\u{7f}' by {
        assert(0x20 <= s[i] <= 0x7f);
    }
}

/// The hexadecimal digits of a list of bytes, one by one.
pub proof fn lemma_hex_text(s: Seq<u8>)
    ensures
        hex_text(s).len() == 2 * s.len(),
        forall|i: int|
            0 <= i < s.len() ==> hex_text(s)[2 * i] == crate::common::fixed_string::hex_digit(
                (#[trigger] s[i]) / 16,
            ) && hex_text(s)[2 * i + 1] == crate::common::fixed_string::hex_digit(s[i] % 16),
    decreases s.len(),
{
    if s.len() > 0 {
        let t = s.drop_last();
        lemma_hex_text(t);
        assert forall|i: int| 0 <= i < s.len() implies hex_text(s)[2 * i]
            == crate::common::fixed_string::hex_digit((#[trigger] s[i]) / 16) && hex_text(s)[2 * i
            + 1] == crate::common::fixed_string::hex_digit(s[i] % 16) by {
            if i < t.len() {
                assert(t[i] == s[i]);
            }
        }
    }
}

/// Hexadecimal digits are ASCII characters.
pub proof fn lemma_hex_text_ascii(s: Seq<u8>)
    ensures
        forall|i: int| 0 <= i < hex_text(s).len() ==> '0' <= #[trigger] hex_text(s)[i] <= 'f',
    decreases s.len(),
{
    if s.len() > 0 {
        let t = s.drop_last();
        lemma_hex_text_ascii(t);
        assert forall|i: int| 0 <= i < hex_text(s).len() implies '0' <= #[trigger] hex_text(s)[i]
            <= 'f' by {
            if i < hex_text(t).len() {
                assert(hex_text(s)[i] == hex_text(t)[i]);
            } else {
                assert(hex_text(s)[i] == byte_hex(s.last())[i - hex_text(t).len()]);
            }
        }
    }
}

/// The hexadecimal digits of bytes give the bytes back.
pub proof fn lemma_hex_pairs_round_trip(u: Seq<u8>, s: Seq<u8>)
    requires
        s.len() == 2 * u.len(),
        forall|i: int| 0 <= i < s.len() ==> #[trigger] s[i] == hex_text(u)[i] as u8,
    ensures
        hex_pairs(s) == Some(u),
{
    lemma_hex_text(u);
    assert forall|i: int| 0 <= i < u.len() implies digit_value(s[2 * i], 16) == Some(
        ((#[trigger] u[i]) / 16) as nat,
    ) && digit_value(s[2 * i + 1], 16) == Some((u[i] % 16) as nat) by {
        assert(s[2 * i] == hex_text(u)[2 * i] as u8 && s[2 * i + 1] == hex_text(u)[2 * i
            + 1] as u8);
    }
    assert forall|i: int| 0 <= i < s.len() implies digit_value(#[trigger] s[i], 16) is Some by {
        let j = i / 2;
        assert(digit_value(s[2 * j], 16) == Some((u[j] / 16) as nat));
        assert(i == 2 * j || i == 2 * j + 1);
    }
    assert forall|i: int| 0 <= i < u.len() implies #[trigger] hex_byte(s[2 * i], s[2 * i + 1])
        == u[i] by {
        assert(u[i] == 16 * (u[i] / 16) + u[i] % 16);
    }
    assert(hex_pairs(s)->0 =~= u);
}

/// The bytes of a fault's key: a letter, a colon and what the letter announces.
proof fn lemma_key_bytes(id: FaultId)
    requires
        id.wf(),
    ensures
        ({
            let b = encode_utf8(storage_key(id));
            let s = b.skip(2);
            &&& b.len() >= 2
            &&& b[1] == 58
            &&& match id {
                FaultId::Numeric(n) => b[0] == 110 && s.len() == decimal(n as nat).len() && forall|
                    i: int,
                |
                    0 <= i < s.len() ==> #[trigger] s[i] == decimal(n as nat)[i] as u8,
                FaultId::Text(t) => b[0] == 116 && s == t@,
                FaultId::Uuid(u) => b[0] == 117 && s.len() == hex_text(u@).len() && forall|i: int|
                    0 <= i < s.len() ==> #[trigger] s[i] == hex_text(u@)[i] as u8,
            }
        }),
{
    let key = storage_key(id);
    let d = key.skip(2);
    match id {
        FaultId::Numeric(n) => {
            lemma_decimal_ascii(n as nat);
            assert(d =~= decimal(n as nat));
        },
        FaultId::Text(t) => {
            ShortString::lemma_contents(t);
            assert(d =~= chars_of(t@));
            assert forall|i: int| 0 <= i < d.len() implies '\0' <= #[trigger] d[i] <= '\u{7f}' by {
                assert(is_string_byte(t@[i]));
            }
        },
        FaultId::Uuid(u) => {
            lemma_hex_text_ascii(u@);
            assert(d =~= hex_text(u@));
        },
    }
    assert forall|i: int| 0 <= i < key.len() implies '\0' <= #[trigger] key[i] <= '\u{7f}' by {
        if i >= 2 {
            assert(key[i] == d[i - 2]);
        }
    }
    lemma_ascii_bytes(key);
    let b = encode_utf8(key);
    let s = b.skip(2);
    assert forall|i: int| 0 <= i < s.len() implies #[trigger] s[i] == d[i] as u8 by {
        assert(s[i] == b[i + 2]);
        assert(key[i + 2] == d[i]);
    }
    assert(b[0] == key[0] as u8 && b[1] == key[1] as u8);
    if let FaultId::Text(t) = id {
        assert forall|i: int| 0 <= i < s.len() implies #[trigger] s[i] == t@[i] by {
            assert(d[i] == t@[i] as char);
            assert(is_string_byte(t@[i]));
        }
        assert(s =~= t@);
    }
}

/// Reading the storage key of a fault gives the fault back.
pub proof fn law_fault_id_key_round_trip(id: FaultId, r: Result<FaultId, StorageError>)
    requires
        id.wf(),
        key_decodes(storage_key(id), r),
    ensures
        r == Ok::<_, StorageError>(id),
{
    lemma_key_bytes(id);
    match id {
        FaultId::Numeric(n) => {
            lemma_decimal_value(n as nat, encode_utf8(storage_key(id)).skip(2));
        },
        FaultId::Text(t) => {
            ShortString::lemma_contents(t);
            ShortString::lemma_ext(r->Ok_0->Text_0, t);
        },
        FaultId::Uuid(u) => {
            lemma_hex_text(u@);
            lemma_hex_pairs_round_trip(u@, encode_utf8(storage_key(id)).skip(2));
            let v = r->Ok_0->Uuid_0;
            assert(v@ == u@);
            assert(v =~= u);
        },
    }
}

/// The key of a fault stands for the fault.
pub proof fn lemma_key_decodes_to_itself(id: FaultId)
    requires
        id.wf(),
    ensures
        key_decodes(storage_key(id), Ok(id)),
        key_readable(storage_key(id)),
{
    lemma_key_bytes(id);
    match id {
        FaultId::Numeric(n) => {
            lemma_decimal_value(n as nat, encode_utf8(storage_key(id)).skip(2));
        },
        FaultId::Text(t) => {
            ShortString::lemma_contents(t);
        },
        FaultId::Uuid(u) => {
            lemma_hex_text(u@);
            lemma_hex_pairs_round_trip(u@, encode_utf8(storage_key(id)).skip(2));
        },
    }
}

/// The forms of storage keys: a numbered fault has `n:` and its number in decimal, one
/// with a text `t:` and the text, and one with a UUID `u:` and its bytes in lower-case
/// hexadecimal digits.
pub proof fn law_key_forms(id: FaultId, i: int)
    requires
        id.wf(),
    ensures
        ({
            let key = storage_key(id);
            let rest = encode_utf8(key).skip(2);
            &&& key.len() >= 2
            &&& key[1] == ':'
            &&& key[0] == match id {
                FaultId::Numeric(_) => 'n',
                FaultId::Text(_) => 't',
                FaultId::Uuid(_) => 'u',
            }
            &&& id matches FaultId::Numeric(n) ==> digits_value(rest, 10) == Some(n as nat) && (2
                <= i < key.len() ==> '0' <= key[i] <= '9')
            &&& id matches FaultId::Text(t) ==> rest == t@
            &&& id matches FaultId::Uuid(u) ==> key.len() == 34 && (0 <= i < 16 ==> key[2 + 2 * i]
                == "0123456789abcdef"@[(u@[i] / 16) as int] && key[2 + 2 * i + 1]
                == "0123456789abcdef"@[(u@[i] % 16) as int])
        }),
{
    lemma_key_bytes(id);
    match id {
        FaultId::Numeric(n) => {
            lemma_decimal_ascii(n as nat);
            lemma_decimal_value(n as nat, encode_utf8(storage_key(id)).skip(2));
            if 2 <= i < storage_key(id).len() {
                assert(storage_key(id)[i] == decimal(n as nat)[i - 2]);
            }
        },
        FaultId::Text(_) => {},
        FaultId::Uuid(u) => {
            lemma_hex_text(u@);
            if 0 <= i < 16 {
                law_hexadecimal_digits(u@[i] / 16);
                law_hexadecimal_digits(u@[i] % 16);
                assert(u@[i] == u@[i]);
                assert(storage_key(id)[2 + 2 * i] == hex_text(u@)[2 * i]);
                assert(storage_key(id)[2 + 2 * i + 1] == hex_text(u@)[2 * i + 1]);
            }
        },
    }
}

/// The keys of two faults differ.
pub proof fn law_keys_tell_faults_apart(a: FaultId, b: FaultId)
    requires
        a.wf(),
        b.wf(),
        storage_key(a) == storage_key(b),
    ensures
        a == b,
{
    lemma_key_decodes_to_itself(a);
    law_fault_id_key_round_trip(b, Ok(a));
}

/// The first two bytes of a key tell what it stands for; without `n:` or `u:` it is a text.
pub proof fn law_prefix_tells_the_kind(key: Seq<char>, r: Result<FaultId, StorageError>)
    requires
        key_decodes(key, r),
    ensures
        ({
            let b = encode_utf8(key);
            let colon = b.len() >= 2 && b[1] == ':' as u8;
            &&& (r matches Ok(id) && id is Numeric) ==> colon && b[0] == 'n' as u8
            &&& (r matches Ok(id) && id is Uuid) ==> colon && b[0] == 'u' as u8
            &&& (r matches Ok(id) && id is Text) ==> !(colon && (b[0] == 'n' as u8 || b[0]
                == 'u' as u8))
            &&& r matches Err(e) ==> e is Deserialization
        }),
{
}

/// What a numeric key stands for: the number behind `n:` in decimal.
pub proof fn law_numeric_keys(key: Seq<char>, r: Result<FaultId, StorageError>)
    requires
        key_decodes(key, r),
        encode_utf8(key).len() > 2,
        encode_utf8(key)[0] == 'n' as u8,
        encode_utf8(key)[1] == ':' as u8,
        encode_utf8(key)[2] != '+' as u8,
    ensures
        r is Ok <==> (digits_value(encode_utf8(key).skip(2), 10) matches Some(v) && v
            <= 0xffff_ffff),
        r is Ok ==> r->Ok_0 is Numeric && digits_value(encode_utf8(key).skip(2), 10) == Some(
            r->Ok_0->Numeric_0 as nat,
        ),
{
    assert(encode_utf8(key).skip(2)[0] == encode_utf8(key)[2]);
}

/// What a UUID key stands for: the 16 bytes whose digits follow `u:`.
pub proof fn law_uuid_keys(key: Seq<char>, r: Result<FaultId, StorageError>, k: int)
    requires
        key_decodes(key, r),
        encode_utf8(key).len() >= 2,
        encode_utf8(key)[0] == 'u' as u8,
        encode_utf8(key)[1] == ':' as u8,
    ensures
        r is Ok <==> encode_utf8(key).len() == 34 && forall|i: int|
            2 <= i < 34 ==> digit_value(#[trigger] encode_utf8(key)[i], 16) is Some,
        r is Ok && 0 <= k < 16 ==> r->Ok_0 is Uuid && r->Ok_0->Uuid_0@[k] == 16 * digit_value(
            encode_utf8(key)[2 + 2 * k],
            16,
        )->0 + digit_value(encode_utf8(key)[2 + 2 * k + 1], 16)->0,
{
    let b = encode_utf8(key);
    let s = b.skip(2);
    if b.len() == 34 {
        assert forall|i: int| 0 <= i < 32 implies #[trigger] s[i] == b[i + 2] by {}
        if hex_pairs(s) is Some {
            assert forall|i: int| 2 <= i < 34 implies digit_value(#[trigger] b[i], 16) is Some by {
                assert(s[i - 2] == b[i]);
            }
            if 0 <= k < 16 {
                assert(s[2 * k] == b[2 + 2 * k] && s[2 * k + 1] == b[2 + 2 * k + 1]);
                assert(digit_value(s[2 * k], 16) is Some && digit_value(s[2 * k + 1], 16) is Some);
                assert(hex_pairs(s)->0[k] == hex_byte(s[2 * k], s[2 * k + 1]));
            }
        } else {
            let i = choose|i: int|
                0 <= i < s.len() && !(digit_value(#[trigger] s[i], 16) is Some);
            assert(s[i] == b[i + 2]);
        }
    }
}

/// What other keys stand for: the text behind `t:`, or the whole key, if that fits.
pub proof fn law_text_keys(key: Seq<char>, r: Result<FaultId, StorageError>)
    requires
        key_decodes(key, r),
        !(encode_utf8(key).len() >= 2 && encode_utf8(key)[1] == ':' as u8 && (encode_utf8(key)[0]
            == 'n' as u8 || encode_utf8(key)[0] == 'u' as u8)),
    ensures
        ({
            let b = encode_utf8(key);
            let prefixed = b.len() >= 2 && b[0] == 't' as u8 && b[1] == ':' as u8;
            &&& prefixed ==> (r is Ok <==> b.len() <= 66 && forall|i: int|
                2 <= i < b.len() ==> 0 < (#[trigger] b[i]) < 128)
            &&& !prefixed ==> (r is Ok <==> b.len() <= 64 && forall|i: int|
                0 <= i < b.len() ==> 0 < (#[trigger] b[i]) < 128)
            &&& r is Ok ==> r->Ok_0 is Text
            &&& r is Ok && prefixed ==> r->Ok_0->Text_0@ == b.subrange(2, b.len() as int)
            &&& r is Ok && !prefixed ==> r->Ok_0->Text_0@ == b
        }),
{
    let b = encode_utf8(key);
    if has_prefix(b, 116) {
        let text = b.skip(2);
        assert(text =~= b.subrange(2, b.len() as int));
        if all_string_bytes(text) {
            assert forall|i: int| 2 <= i < b.len() implies 0 < (#[trigger] b[i]) < 128 by {
                assert(is_string_byte(text[i - 2]));
            }
        } else {
            let i = choose|i: int| 0 <= i < text.len() && !is_string_byte(#[trigger] text[i]);
            assert(text[i] == b[i + 2]);
        }
    } else if all_string_bytes(b) {
        assert forall|i: int| 0 <= i < b.len() implies 0 < (#[trigger] b[i]) < 128 by {
            assert(is_string_byte(b[i]));
        }
    }
}

/// A key stands for a fault exactly if reading it gives one.
pub proof fn law_readable_keys_are_read(key: Seq<char>, r: Result<FaultId, StorageError>)
    requires
        key_decodes(key, r),
    ensures
        key_readable(key) <==> r is Ok,
{
}

/// A key that stands for nothing is refused with the reason and the key.
pub proof fn law_unreadable_keys_have_a_reason(key: Seq<char>, r: Result<FaultId, StorageError>)
    requires
        key_decodes(key, r),
        r is Err,
    ensures
        ({
            let b = encode_utf8(key);
            let colon = b.len() >= 2 && b[1] == ':' as u8;
            let numeric = colon && b[0] == 'n' as u8;
            let uuid = colon && b[0] == 'u' as u8;
            &&& numeric ==> (r matches Err(StorageError::Deserialization(m)) && m@
                == "invalid numeric key: "@ + key)
            &&& uuid && b.len() != 34 ==> (r matches Err(StorageError::Deserialization(m)) && m@
                == "invalid uuid key length (expected 32 hex chars): "@ + key)
            &&& uuid && b.len() == 34 ==> (r matches Err(StorageError::Deserialization(m)) && m@
                == "invalid uuid hex: "@ + key)
            &&& !numeric && !uuid ==> (r matches Err(StorageError::Deserialization(m)) && m@
                == "fault id key too long: "@ + key)
        }),
{
}

} // verus!

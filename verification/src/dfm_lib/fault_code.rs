//! Codes by which diagnostic tools name faults.
//!
//! A code is `0x` and the hexadecimal number, the text itself, or the hyphenated
//! form of a UUID.

use vstd::prelude::*;
use vstd::slice::*;
use vstd::string::*;
use vstd::utf8::*;

use super::fault_key::{
    hex_byte, hex_pairs, hex_text, lemma_escaped_printable, lemma_hex_pairs_round_trip, lemma_hex_text,
    lemma_hex_text_ascii, parse_hex_pairs, printable,
};
use super::sovd_fault_manager::Error;
use crate::common::fault::FaultId;
use crate::common::fixed_string::{all_string_bytes, escaped, is_string_byte, stored_bytes};
use crate::common::text::{
    chars_of, digit_value, digits_value, hex_upper, law_hexadecimal_digits, lemma_ascii_bytes, lemma_hex_ascii, lemma_hex_value, parse_u32,
    push_byte_hex, push_hex_upper, unsigned_value,
};
use crate::common::types::ShortString;

verus! {

/// A UUID in groups of 8, 4, 4, 4 and 12 digits.
pub open spec fn uuid_text(u: Seq<u8>) -> Seq<char> {
    hex_text(u.subrange(0, 4)) + seq!['-'] + hex_text(u.subrange(4, 6)) + seq!['-'] + hex_text(
        u.subrange(6, 8),
    ) + seq!['-'] + hex_text(u.subrange(8, 10)) + seq!['-'] + hex_text(u.subrange(10, 16))
}

/// The code of a fault.
pub open spec fn fault_code(id: FaultId) -> Seq<char> {
    match id {
        FaultId::Numeric(n) => seq!['0', 'x'] + hex_upper(n as nat),
        FaultId::Text(t) => escaped(t@),
        FaultId::Uuid(u) => uuid_text(u@),
    }
}

/// The bytes of a string of 36 where a UUID has its digits.
pub open spec fn uuid_digits(s: Seq<u8>) -> Seq<u8> {
    s.subrange(0, 8) + s.subrange(9, 13) + s.subrange(14, 18) + s.subrange(19, 23) + s.subrange(
        24,
        36,
    )
}

/// The bytes of a UUID, given in groups of 8, 4, 4, 4 and 12 hexadecimal digits with
/// hyphens in between.
pub open spec fn uuid_bytes(s: Seq<u8>) -> Option<Seq<u8>> {
    if s.len() == 36 && s[8] == 45 && s[13] == 45 && s[18] == 45 && s[23] == 45 {
        hex_pairs(uuid_digits(s))
    } else {
        None
    }
}

/// The code begins like a hexadecimal number.
pub open spec fn has_hex_prefix(b: Seq<u8>) -> bool {
    b.len() >= 2 && b[0] == 48 && (b[1] == 120 || b[1] == 88)
}

/// The code is taken for a UUID.
pub open spec fn looks_like_uuid(b: Seq<u8>) -> bool {
    uuid_bytes(b) is Some
}

/// What reading a code gives.
pub open spec fn code_decodes(code: Seq<char>, r: Result<FaultId, Error>) -> bool {
    let b = encode_utf8(code);
    if has_hex_prefix(b) {
        match unsigned_value(b.skip(2), 16, u32::MAX as nat) {
            Some(n) => r == Ok::<_, Error>(FaultId::Numeric(n as u32)),
            None => r == Err::<FaultId, _>(Error::BadArgument),
        }
    } else if looks_like_uuid(b) {
        r matches Ok(FaultId::Uuid(u)) && Some(u@) == uuid_bytes(b)
    } else if stored_bytes(b, 64) is Ok {
        r matches Ok(FaultId::Text(s)) && s.wf() && s@ == b
    } else {
        r == Err::<FaultId, _>(Error::BadArgument)
    }
}

/// Appends bytes of a UUID as hexadecimal digits.
fn push_hex_range(out: &mut String, u: &[u8; 16], from: usize, to: usize)
    requires
        from <= to <= 16,
    ensures
        final(out)@ == old(out)@ + hex_text(u@.subrange(from as int, to as int)),
{
    let mut i: usize = from;
    assert(out@ =~= old(out)@ + hex_text(u@.subrange(from as int, from as int)));
    while i < to
        invariant
            from <= i <= to <= 16,
            out@ == old(out)@ + hex_text(u@.subrange(from as int, i as int)),
        decreases to - i,
    {
        push_byte_hex(out, u[i]);
        let ghost next = u@.subrange(from as int, i + 1);
        assert(next.drop_last() =~= u@.subrange(from as int, i as int));
        i += 1;
        assert(out@ =~= old(out)@ + hex_text(u@.subrange(from as int, i as int)));
    }
}

/// The code of a fault.
pub fn fault_id_to_code(fault_id: &FaultId) -> (r: String)
    ensures
        r@ == fault_code(*fault_id),
{
    match fault_id {
        FaultId::Numeric(n) => {
            let mut out = String::new();
            out.push('0');
            out.push('x');
            push_hex_upper(&mut out, *n);
            assert(out@ =~= fault_code(*fault_id));
            out
        },
        FaultId::Text(t) => t.to_string(),
        FaultId::Uuid(u) => {
            let mut out = String::new();
            push_hex_range(&mut out, u, 0, 4);
            out.push('-');
            push_hex_range(&mut out, u, 4, 6);
            out.push('-');
            push_hex_range(&mut out, u, 6, 8);
            out.push('-');
            push_hex_range(&mut out, u, 8, 10);
            out.push('-');
            push_hex_range(&mut out, u, 10, 16);
            assert(out@ =~= fault_code(*fault_id));
            out
        },
    }
}

/// Appends a part of a byte string.
fn push_bytes(out: &mut Vec<u8>, b: &[u8], from: usize, to: usize)
    requires
        from <= to <= b@.len(),
    ensures
        final(out)@ == old(out)@ + b@.subrange(from as int, to as int),
{
    let mut i: usize = from;
    assert(out@ =~= old(out)@ + b@.subrange(from as int, from as int));
    while i < to
        invariant
            from <= i <= to <= b@.len(),
            out@ == old(out)@ + b@.subrange(from as int, i as int),
        decreases to - i,
    {
        out.push(b[i]);
        i += 1;
        assert(out@ =~= old(out)@ + b@.subrange(from as int, i as int));
    }
}

/// Reads a UUID in groups of 8, 4, 4, 4 and 12 hexadecimal digits with hyphens in
/// between.
pub fn parse_uuid_string(s: &str) -> (r: Option<[u8; 16]>)
    ensures
        match r {
            Some(u) => uuid_bytes(encode_utf8(s@)) == Some(u@),
            None => uuid_bytes(encode_utf8(s@)) is None,
        },
{
    let b = s.as_bytes();
    if b.len() != 36 || b[8] != 45 || b[13] != 45 || b[18] != 45 || b[23] != 45 {
        return None;
    }
    let mut hex: Vec<u8> = Vec::new();
    push_bytes(&mut hex, b, 0, 8);
    push_bytes(&mut hex, b, 9, 13);
    push_bytes(&mut hex, b, 14, 18);
    push_bytes(&mut hex, b, 19, 23);
    push_bytes(&mut hex, b, 24, 36);
    assert(hex@ =~= uuid_digits(b@));
    parse_hex_pairs(hex.as_slice())
}

/// Reads a code.
pub fn fault_id_from_code(fault_code: &str) -> (r: Result<FaultId, Error>)
    ensures
        code_decodes(fault_code@, r),
{
    let b = fault_code.as_bytes();
    if b.len() >= 2 && b[0] == 48 && (b[1] == 120 || b[1] == 88) {
        let digits = slice_subrange(b, 2, b.len());
        assert(digits@ =~= b@.skip(2));
        return match parse_u32(digits, 16) {
            Some(n) => Ok(FaultId::Numeric(n)),
            None => Err(Error::BadArgument),
        };
    }
    if let Some(u) = parse_uuid_string(fault_code) {
        return Ok(FaultId::Uuid(u));
    }
    match ShortString::from_bytes(b) {
        Ok(s) => Ok(FaultId::Text(s)),
        Err(_) => Err(Error::BadArgument),
    }
}

/// Hexadecimal digits are written piece by piece.
proof fn lemma_hex_text_concat(a: Seq<u8>, b: Seq<u8>)
    ensures
        hex_text(a + b) == hex_text(a) + hex_text(b),
    decreases b.len(),
{
    if b.len() == 0 {
        assert(a + b =~= a);
        assert(hex_text(a) + hex_text(b) =~= hex_text(a));
    } else {
        assert((a + b).drop_last() =~= a + b.drop_last());
        lemma_hex_text_concat(a, b.drop_last());
        assert(hex_text(a + b) =~= hex_text(a) + hex_text(b));
    }
}

/// The bytes of ASCII characters.
pub open spec fn bytes_of(s: Seq<char>) -> Seq<u8> {
    s.map_values(|c: char| c as u8)
}

/// The text of a UUID has hyphens between its groups of digits.
proof fn lemma_uuid_text(u: Seq<u8>)
    requires
        u.len() == 16,
    ensures
        ({
            let s = bytes_of(uuid_text(u));
            &&& uuid_text(u).len() == 36
            &&& is_ascii_chars(uuid_text(u))
            &&& s[8] == 45 && s[13] == 45 && s[18] == 45 && s[23] == 45
            &&& uuid_digits(s) == bytes_of(hex_text(u))
        }),
{
    let (a, b, c, d, e) = (
        u.subrange(0, 4),
        u.subrange(4, 6),
        u.subrange(6, 8),
        u.subrange(8, 10),
        u.subrange(10, 16),
    );
    lemma_hex_text_ascii(a);
    lemma_hex_text_ascii(b);
    lemma_hex_text_ascii(c);
    lemma_hex_text_ascii(d);
    lemma_hex_text_ascii(e);
    lemma_hex_text(a);
    lemma_hex_text(b);
    lemma_hex_text(c);
    lemma_hex_text(d);
    lemma_hex_text(e);
    let (ha, hb, hc, hd, he) = (hex_text(a), hex_text(b), hex_text(c), hex_text(d), hex_text(e));
    let t = uuid_text(u);
    let s = bytes_of(t);
    assert(t[8] == '-' && t[13] == '-' && t[18] == '-' && t[23] == '-');
    assert(s[8] == 45 && s[13] == 45 && s[18] == 45 && s[23] == 45);
    assert(s.subrange(0, 8) =~= bytes_of(ha));
    assert(s.subrange(9, 13) =~= bytes_of(hb));
    assert(s.subrange(14, 18) =~= bytes_of(hc));
    assert(s.subrange(19, 23) =~= bytes_of(hd));
    assert(s.subrange(24, 36) =~= bytes_of(he));
    assert(u =~= a + b + c + d + e);
    lemma_hex_text_concat(a, b);
    lemma_hex_text_concat(a + b, c);
    lemma_hex_text_concat(a + b + c, d);
    lemma_hex_text_concat(a + b + c + d, e);
    assert(uuid_digits(s) =~= bytes_of(hex_text(u)));
    assert forall|i: int| 0 <= i < t.len() implies '\0' <= #[trigger] t[i] <= '\u{7f}' by {
        if i < 8 {
            assert(t[i] == ha[i]);
        } else if 9 <= i < 13 {
            assert(t[i] == hb[i - 9]);
        } else if 14 <= i < 18 {
            assert(t[i] == hc[i - 14]);
        } else if 19 <= i < 23 {
            assert(t[i] == hd[i - 19]);
        } else if 24 <= i {
            assert(t[i] == he[i - 24]);
        } else {
            assert(t[i] == '-');
        }
    }
}

/// Reading the code of a fault gives the fault back, as long as its text holds no
/// control characters and does not itself look like a hexadecimal number or a UUID.
pub proof fn law_fault_code_round_trip(id: FaultId, r: Result<FaultId, Error>)
    requires
        id.wf(),
        id matches FaultId::Text(t) ==> printable(t@) && !has_hex_prefix(t@) && !looks_like_uuid(
            t@,
        ),
        code_decodes(fault_code(id), r),
    ensures
        r == Ok::<_, Error>(id),
{
    let code = fault_code(id);
    match id {
        FaultId::Numeric(n) => {
            lemma_hex_ascii(n as nat);
            let d = hex_upper(n as nat);
            assert forall|i: int| 0 <= i < code.len() implies '\0' <= #[trigger] code[i]
                <= '\u{7f}' by {
                if i >= 2 {
                    assert(code[i] == d[i - 2]);
                }
            }
            lemma_ascii_bytes(code);
            let s = encode_utf8(code).skip(2);
            assert forall|i: int| 0 <= i < s.len() implies #[trigger] s[i] == d[i] as u8 by {
                assert(s[i] == encode_utf8(code)[i + 2]);
                assert(code[i + 2] == d[i]);
            }
            assert(encode_utf8(code)[0] == code[0] as u8);
            assert(encode_utf8(code)[1] == code[1] as u8);
            lemma_hex_value(n as nat, s);
        },
        FaultId::Text(t) => {
            lemma_escaped_printable(t@);
            ShortString::lemma_contents(t);
            lemma_ascii_bytes(code);
            let s = encode_utf8(code);
            assert forall|i: int| 0 <= i < s.len() implies #[trigger] s[i] == t@[i] by {
                assert(s[i] == code[i] as u8);
                assert(code[i] == chars_of(t@)[i]);
                assert(0x20 <= t@[i] <= 0x7f);
            }
            assert(s =~= t@);
            ShortString::lemma_ext(r->Ok_0->Text_0, t);
        },
        FaultId::Uuid(u) => {
            lemma_uuid_text(u@);
            lemma_ascii_bytes(code);
            let s = encode_utf8(code);
            assert(s =~= bytes_of(code));
            let hex = uuid_digits(s);
            lemma_hex_text(u@);
            assert forall|i: int| 0 <= i < hex.len() implies #[trigger] hex[i] == hex_text(
                u@,
            )[i] as u8 by {}
            lemma_hex_pairs_round_trip(u@, hex);
            lemma_hex_text(u@.subrange(0, 4));
            assert(code[1] == hex_text(u@.subrange(0, 4))[1]);
            lemma_hex_text_ascii(u@.subrange(0, 4));
            lemma_no_x_in_hex(u@.subrange(0, 4), 1);
            let v = r->Ok_0->Uuid_0;
            assert(v@ == u@);
            assert(v =~= u);
        },
    }
}

/// No hexadecimal digit is the letter x.
proof fn lemma_no_x_in_hex(s: Seq<u8>, i: int)
    requires
        0 <= i < hex_text(s).len(),
    ensures
        hex_text(s)[i] != 'x',
        hex_text(s)[i] != 'X',
    decreases s.len(),
{
    if s.len() > 0 {
        let t = s.drop_last();
        if i < hex_text(t).len() {
            lemma_no_x_in_hex(t, i);
        }
    }
}

/// The code of a numbered fault is `0x` and the number in upper-case hexadecimal digits.
pub proof fn law_code_of_a_number(n: u32, i: int)
    ensures
        ({
            let code = fault_code(FaultId::Numeric(n));
            let digits = encode_utf8(code).skip(2);
            &&& code.len() > 2
            &&& code[0] == '0'
            &&& code[1] == 'x'
            &&& digits_value(digits, 16) == Some(n as nat)
            &&& 2 <= i < code.len() ==> ('0' <= code[i] <= '9') || ('A' <= code[i] <= 'F')
            &&& n >= 16 ==> code[2] != '0'
            &&& n < 16 ==> code.len() == 3
        }),
{
    let code = fault_code(FaultId::Numeric(n));
    let d = hex_upper(n as nat);
    lemma_hex_ascii(n as nat);
    assert forall|j: int| 0 <= j < code.len() implies '\0' <= #[trigger] code[j] <= '\u{7f}' by {
        if j >= 2 {
            assert(code[j] == d[j - 2]);
        }
    }
    lemma_ascii_bytes(code);
    let s = encode_utf8(code).skip(2);
    assert forall|j: int| 0 <= j < s.len() implies #[trigger] s[j] == d[j] as u8 by {
        assert(s[j] == encode_utf8(code)[j + 2]);
        assert(code[j + 2] == d[j]);
    }
    lemma_hex_value(n as nat, s);
    lemma_upper_digits(n as nat);
    if 2 <= i < code.len() {
        assert(code[i] == d[i - 2]);
    }
    assert(code[2] == d[0]);
}

/// Hexadecimal numbers are made of digits and upper-case letters and begin with a zero
/// only if there is nothing else.
proof fn lemma_upper_digits(n: nat)
    ensures
        hex_upper(n).len() > 0,
        forall|i: int|
            0 <= i < hex_upper(n).len() ==> ('0' <= (#[trigger] hex_upper(n)[i]) <= '9') || ('A'
                <= hex_upper(n)[i] <= 'F'),
        n > 0 ==> hex_upper(n)[0] != '0',
    decreases n,
{
    if n >= 16 {
        lemma_upper_digits(n / 16);
        let d = hex_upper(n / 16);
        assert forall|i: int| 0 <= i < hex_upper(n).len() implies ('0' <= (#[trigger] hex_upper(
            n,
        )[i]) <= '9') || ('A' <= hex_upper(n)[i] <= 'F') by {
            if i < d.len() {
                assert(hex_upper(n)[i] == d[i]);
            }
        }
    }
}

/// Where the digits of a byte stand in the text of a UUID: behind four, six, eight and ten
/// bytes there is a hyphen.
pub open spec fn uuid_place(k: int) -> int {
    if k < 4 {
        2 * k
    } else if k < 6 {
        2 * k + 1
    } else if k < 8 {
        2 * k + 2
    } else if k < 10 {
        2 * k + 3
    } else {
        2 * k + 4
    }
}

/// The code of a fault with a UUID has 36 characters: each byte as two lower-case
/// hexadecimal digits, the first byte first, with hyphens between groups of 8, 4, 4, 4
/// and 12.
pub proof fn law_code_of_a_uuid(u: [u8; 16], k: int)
    ensures
        ({
            let code = fault_code(FaultId::Uuid(u));
            &&& code.len() == 36
            &&& code[8] == '-' && code[13] == '-' && code[18] == '-' && code[23] == '-'
            &&& 0 <= k < 16 ==> code[uuid_place(k)] == "0123456789abcdef"@[(u@[k] / 16) as int]
                && code[uuid_place(k) + 1] == "0123456789abcdef"@[(u@[k] % 16) as int]
        }),
{
    let (a, b, c, d, e) = (
        u@.subrange(0, 4),
        u@.subrange(4, 6),
        u@.subrange(6, 8),
        u@.subrange(8, 10),
        u@.subrange(10, 16),
    );
    lemma_hex_text(a);
    lemma_hex_text(b);
    lemma_hex_text(c);
    lemma_hex_text(d);
    lemma_hex_text(e);
    let code = fault_code(FaultId::Uuid(u));
    assert(code.len() == 36);
    if 0 <= k < 16 {
        law_hexadecimal_digits(u@[k] / 16);
        law_hexadecimal_digits(u@[k] % 16);
        if k < 4 {
            assert(a[k] == u@[k]);
            assert(code[2 * k] == hex_text(a)[2 * k]);
            assert(code[2 * k + 1] == hex_text(a)[2 * k + 1]);
        } else if k < 6 {
            let j = k - 4;
            assert(b[j] == u@[k]);
            assert(code[9 + 2 * j] == hex_text(b)[2 * j]);
            assert(code[9 + 2 * j + 1] == hex_text(b)[2 * j + 1]);
        } else if k < 8 {
            let j = k - 6;
            assert(c[j] == u@[k]);
            assert(code[14 + 2 * j] == hex_text(c)[2 * j]);
            assert(code[14 + 2 * j + 1] == hex_text(c)[2 * j + 1]);
        } else if k < 10 {
            let j = k - 8;
            assert(d[j] == u@[k]);
            assert(code[19 + 2 * j] == hex_text(d)[2 * j]);
            assert(code[19 + 2 * j + 1] == hex_text(d)[2 * j + 1]);
        } else {
            let j = k - 10;
            assert(e[j] == u@[k]);
            assert(code[24 + 2 * j] == hex_text(e)[2 * j]);
            assert(code[24 + 2 * j + 1] == hex_text(e)[2 * j + 1]);
        }
    }
}

/// The code of a fault with a text is the text, where it is printable.
pub proof fn law_code_of_a_text(t: ShortString)
    requires
        printable(t@),
    ensures
        fault_code(FaultId::Text(t)).len() == t@.len(),
        forall|i: int|
            0 <= i < t@.len() ==> #[trigger] fault_code(FaultId::Text(t))[i] == t@[i] as char,
{
    lemma_escaped_printable(t@);
}

/// A code that begins with `0x` or `0X` stands for a number, or for nothing. No other code
/// stands for a number.
pub proof fn law_which_codes_are_numbers(code: Seq<char>, r: Result<FaultId, Error>)
    requires
        code_decodes(code, r),
    ensures
        ({
            let b = encode_utf8(code);
            let prefixed = b.len() >= 2 && b[0] == '0' as u8 && (b[1] == 'x' as u8 || b[1]
                == 'X' as u8);
            &&& prefixed ==> r is Err || r->Ok_0 is Numeric
            &&& !prefixed && r is Ok ==> !(r->Ok_0 is Numeric)
            &&& prefixed && b.len() > 2 && b[2] != '+' as u8 ==> (r is Ok <==> (digits_value(
                b.skip(2),
                16,
            ) matches Some(v) && v <= 0xffff_ffff))
            &&& prefixed && b.len() > 2 && b[2] != '+' as u8 && r is Ok ==> digits_value(
                b.skip(2),
                16,
            ) == Some(r->Ok_0->Numeric_0 as nat)
            &&& prefixed && b.len() == 2 ==> r is Err
            &&& r is Err ==> r->Err_0 is BadArgument
        }),
{
    let b = encode_utf8(code);
    if b.len() > 2 {
        assert(b.skip(2)[0] == b[2]);
    }
}

/// A code of 36 characters with hyphens between groups of 8, 4, 4, 4 and 12 hexadecimal
/// digits stands for the UUID with these digits, and no other one does.
pub proof fn law_which_codes_are_uuids(code: Seq<char>, r: Result<FaultId, Error>, k: int)
    requires
        code_decodes(code, r),
    ensures
        ({
            let b = encode_utf8(code);
            let shaped = b.len() == 36 && b[8] == '-' as u8 && b[13] == '-' as u8 && b[18]
                == '-' as u8 && b[23] == '-' as u8 && forall|i: int|
                0 <= i < 36 && i != 8 && i != 13 && i != 18 && i != 23 ==> digit_value(
                    #[trigger] b[i],
                    16,
                ) is Some;
            &&& (r matches Ok(id) && id is Uuid) <==> shaped
            &&& shaped && 0 <= k < 16 ==> r->Ok_0->Uuid_0@[k] == 16 * digit_value(
                b[uuid_place(k)],
                16,
            )->0 + digit_value(b[uuid_place(k) + 1], 16)->0
        }),
{
    let b = encode_utf8(code);
    let d = uuid_digits(b);
    let hyphens = b.len() == 36 && b[8] == 45 && b[13] == 45 && b[18] == 45 && b[23] == 45;
    let all = forall|i: int|
        0 <= i < 36 && i != 8 && i != 13 && i != 18 && i != 23 ==> digit_value(
            #[trigger] b[i],
            16,
        ) is Some;
    if hyphens {
        assert forall|j: int| 0 <= j < 32 implies #[trigger] d[j] == b[digit_place_of(j)] by {}
        if all {
            assert forall|j: int| 0 <= j < d.len() implies digit_value(#[trigger] d[j], 16)
                is Some by {
                assert(d[j] == b[digit_place_of(j)]);
            }
            assert(digit_value(b[1], 16) is Some);
            if 0 <= k < 16 {
                assert(d[2 * k] == b[digit_place_of(2 * k)]);
                assert(d[2 * k + 1] == b[digit_place_of(2 * k + 1)]);
                assert(digit_place_of(2 * k) == uuid_place(k));
                assert(digit_place_of(2 * k + 1) == uuid_place(k) + 1);
                assert(digit_value(d[2 * k], 16) is Some && digit_value(d[2 * k + 1], 16) is Some);
                assert(uuid_bytes(b)->0[k] == hex_byte(d[2 * k], d[2 * k + 1]));
            }
        }
        if uuid_bytes(b) is Some {
            assert forall|i: int|
                0 <= i < 36 && i != 8 && i != 13 && i != 18 && i != 23 implies digit_value(
                #[trigger] b[i],
                16,
            ) is Some by {
                let j = if i < 8 {
                    i
                } else if i < 13 {
                    i - 1
                } else if i < 18 {
                    i - 2
                } else if i < 23 {
                    i - 3
                } else {
                    i - 4
                };
                assert(digit_place_of(j) == i);
                assert(d[j] == b[i]);
            }
        }
    }
}

/// Where a digit stands in the text of a UUID.
spec fn digit_place_of(j: int) -> int {
    if j < 8 {
        j
    } else if j < 12 {
        j + 1
    } else if j < 16 {
        j + 2
    } else if j < 20 {
        j + 3
    } else {
        j + 4
    }
}

/// Every other code stands for its text, if that fits; nothing is lost.
pub proof fn law_which_codes_are_texts(code: Seq<char>, r: Result<FaultId, Error>)
    requires
        code_decodes(code, r),
        !(r matches Ok(FaultId::Numeric(_))) && !(r matches Ok(FaultId::Uuid(_))),
    ensures
        r matches Ok(FaultId::Text(t)) ==> t@ == encode_utf8(code),
        !has_hex_prefix(encode_utf8(code)) ==> (r is Ok <==> encode_utf8(code).len() <= 64
            && forall|i: int|
            0 <= i < encode_utf8(code).len() ==> 0 < (#[trigger] encode_utf8(code)[i]) < 128),
{
    let b = encode_utf8(code);
    assert(all_string_bytes(b) <==> forall|i: int| 0 <= i < b.len() ==> 0 < (#[trigger] b[i])
        < 128) by {
        if all_string_bytes(b) {
            assert forall|i: int| 0 <= i < b.len() implies 0 < (#[trigger] b[i]) < 128 by {
                assert(is_string_byte(b[i]));
            }
        }
    }
}

} // verus!

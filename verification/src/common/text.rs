//! Writing numbers as text and reading them back.

use vstd::prelude::*;
use vstd::string::*;
use vstd::utf8::*;

use super::fixed_string::hex_digit;

verus! {

/// `String::push` appends one character.
pub assume_specification[ String::push ](s: &mut String, c: char)
    ensures
        final(s)@ == old(s)@.push(c),
;

/// Text in double quotes, with escapes for what is not printable.
pub uninterp spec fn quoted(text: Seq<char>) -> Seq<char>;

/// Formats a string with `Debug` of `str`, which quotes and escapes it. The result
/// depends on the text alone.
#[verifier::external_body]
pub(crate) fn debug_quoted(s: &str) -> (r: String)
    ensures
        r@ == quoted(s@),
{
    format!("{s:?}")
}

/// The decimal digit of `d`, which is below ten.
pub open spec fn digit(d: nat) -> char {
    (48 + d) as char
}

/// `n` in decimal, without leading zeros.
pub open spec fn decimal(n: nat) -> Seq<char>
    decreases n,
{
    if n < 10 {
        seq![digit(n)]
    } else {
        decimal(n / 10).push(digit(n % 10))
    }
}

/// `n` in decimal with a sign in front of a negative value.
pub open spec fn signed_decimal(n: int) -> Seq<char> {
    if n < 0 {
        seq!['-'] + decimal((-n) as nat)
    } else {
        decimal(n as nat)
    }
}

/// The upper-case hexadecimal digit of `n`.
pub open spec fn hex_digit_upper(n: nat) -> char {
    if n < 10 {
        (48 + n) as char
    } else {
        (55 + n) as char
    }
}

/// `n` in upper-case hexadecimal, without leading zeros.
pub open spec fn hex_upper(n: nat) -> Seq<char>
    decreases n,
{
    if n < 16 {
        seq![hex_digit_upper(n)]
    } else {
        hex_upper(n / 16).push(hex_digit_upper(n % 16))
    }
}

/// A byte as two lower-case hexadecimal digits.
pub open spec fn byte_hex(b: u8) -> Seq<char> {
    seq![hex_digit(b / 16), hex_digit(b % 16)]
}

/// A byte as two upper-case hexadecimal digits.
pub open spec fn byte_hex_upper(b: u8) -> Seq<char> {
    seq![hex_digit_upper((b / 16) as nat), hex_digit_upper((b % 16) as nat)]
}

/// Two decimal digits of a value below a hundred.
pub open spec fn two_digits(n: nat) -> Seq<char> {
    seq![digit(n / 10), digit(n % 10)]
}

/// Four decimal digits of a value below ten thousand.
pub open spec fn four_digits(n: nat) -> Seq<char> {
    seq![digit(n / 1000), digit(n / 100 % 10), digit(n / 10 % 10), digit(n % 10)]
}

/// `a` comes before `b` in the order of strings: at the first place where they differ
/// it has the smaller character, or it ends there.
pub open spec fn text_before(a: Seq<char>, b: Seq<char>) -> bool {
    exists|i: int|
        0 <= i <= a.len() && i < b.len() && #[trigger] a.take(i) == b.take(i) && (i == a.len()
            || a[i] < b[i])
}

/// The value of the digit `b` in the given radix.
pub open spec fn digit_value(b: u8, radix: nat) -> Option<nat> {
    if 48 <= b <= 57 && b - 48 < radix {
        Some((b - 48) as nat)
    } else if 97 <= b <= 122 && b - 87 < radix {
        Some((b - 87) as nat)
    } else if 65 <= b <= 90 && b - 55 < radix {
        Some((b - 55) as nat)
    } else {
        None
    }
}

/// The value of a string of digits in the given radix; the empty string is zero.
pub open spec fn digits_value(s: Seq<u8>, radix: nat) -> Option<nat>
    decreases s.len(),
{
    if s.len() == 0 {
        Some(0)
    } else {
        match (digits_value(s.drop_last(), radix), digit_value(s.last(), radix)) {
            (Some(high), Some(low)) => Some(high * radix + low),
            _ => None,
        }
    }
}

/// An unsigned number of at most `max`: at least one digit, after at most one plus
/// sign.
pub open spec fn unsigned_value(s: Seq<u8>, radix: nat, max: nat) -> Option<nat> {
    let digits = if s.len() > 0 && s[0] == 43 {
        s.skip(1)
    } else {
        s
    };
    if digits.len() == 0 {
        None
    } else {
        match digits_value(digits, radix) {
            Some(v) => if v <= max {
                Some(v)
            } else {
                None
            },
            None => None,
        }
    }
}

/// The characters of a 7-bit byte string.
pub open spec fn chars_of(bytes: Seq<u8>) -> Seq<char> {
    bytes.map_values(|b: u8| b as char)
}

/// Appends `n` in decimal.
pub fn push_decimal(out: &mut String, n: u64)
    ensures
        final(out)@ == old(out)@ + decimal(n as nat),
    decreases n,
{
    if n >= 10 {
        push_decimal(out, n / 10);
    }
    let ghost before = out@;
    let d: u8 = (n % 10) as u8;
    out.push((48u8 + d) as char);
    assert(out@ =~= old(out)@ + decimal(n as nat));
}

/// Appends `n` in decimal, with a minus sign when it is negative.
pub fn push_signed_decimal(out: &mut String, n: i64)
    ensures
        final(out)@ == old(out)@ + signed_decimal(n as int),
{
    if n < 0 {
        out.push('-');
        let m: i128 = -(n as i128);
        push_decimal(out, m as u64);
        assert(out@ =~= old(out)@ + signed_decimal(n as int));
    } else {
        push_decimal(out, n as u64);
    }
}

/// Appends one upper-case hexadecimal digit.
fn push_hex_digit_upper(out: &mut String, d: u8)
    requires
        d < 16,
    ensures
        final(out)@ == old(out)@.push(hex_digit_upper(d as nat)),
{
    if d < 10 {
        out.push((48u8 + d) as char);
    } else {
        out.push((55u8 + d) as char);
    }
}

/// Appends `n` in upper-case hexadecimal.
pub fn push_hex_upper(out: &mut String, n: u32)
    ensures
        final(out)@ == old(out)@ + hex_upper(n as nat),
    decreases n,
{
    if n >= 16 {
        push_hex_upper(out, n / 16);
    }
    push_hex_digit_upper(out, (n % 16) as u8);
    assert(out@ =~= old(out)@ + hex_upper(n as nat));
}

/// Appends one lower-case hexadecimal digit.
fn push_hex_digit(out: &mut String, d: u8)
    requires
        d < 16,
    ensures
        final(out)@ == old(out)@.push(hex_digit(d)),
{
    if d < 10 {
        out.push((48u8 + d) as char);
    } else {
        out.push((87u8 + d) as char);
    }
}

/// Appends a byte as two lower-case hexadecimal digits.
pub fn push_byte_hex(out: &mut String, b: u8)
    ensures
        final(out)@ == old(out)@ + byte_hex(b),
{
    push_hex_digit(out, b / 16);
    push_hex_digit(out, b % 16);
    assert(out@ =~= old(out)@ + byte_hex(b));
}

/// Appends a byte as two upper-case hexadecimal digits.
pub fn push_byte_hex_upper(out: &mut String, b: u8)
    ensures
        final(out)@ == old(out)@ + byte_hex_upper(b),
{
    push_hex_digit_upper(out, b / 16);
    push_hex_digit_upper(out, b % 16);
    assert(out@ =~= old(out)@ + byte_hex_upper(b));
}

/// Appends a value below a hundred as two digits.
pub fn push_two_digits(out: &mut String, n: u32)
    requires
        n < 100,
    ensures
        final(out)@ == old(out)@ + two_digits(n as nat),
{
    out.push((48u8 + (n / 10) as u8) as char);
    out.push((48u8 + (n % 10) as u8) as char);
    assert(out@ =~= old(out)@ + two_digits(n as nat));
}

/// Appends a value below ten thousand as four digits.
pub fn push_four_digits(out: &mut String, n: u32)
    requires
        n < 10000,
    ensures
        final(out)@ == old(out)@ + four_digits(n as nat),
{
    out.push((48u8 + (n / 1000) as u8) as char);
    out.push((48u8 + (n / 100 % 10) as u8) as char);
    out.push((48u8 + (n / 10 % 10) as u8) as char);
    out.push((48u8 + (n % 10) as u8) as char);
    assert(out@ =~= old(out)@ + four_digits(n as nat));
}

/// The value of one digit.
pub fn digit_of(b: u8, radix: u32) -> (r: Option<u32>)
    requires
        2 <= radix <= 36,
    ensures
        match r {
            Some(v) => digit_value(b, radix as nat) == Some(v as nat) && v < radix,
            None => digit_value(b, radix as nat) is None,
        },
{
    let v: u32 = if 48 <= b && b <= 57 {
        (b - 48) as u32
    } else if 97 <= b && b <= 122 {
        (b - 87) as u32
    } else if 65 <= b && b <= 90 {
        (b - 55) as u32
    } else {
        return None;
    };
    if v < radix {
        Some(v)
    } else {
        None
    }
}

/// Dropping trailing digits never makes a number larger or an invalid one valid.
proof fn lemma_prefix_value(s: Seq<u8>, k: int, radix: nat)
    requires
        0 <= k <= s.len(),
        radix >= 1,
    ensures
        digits_value(s.take(k), radix) is None ==> digits_value(s, radix) is None,
        digits_value(s, radix) matches Some(v) ==> digits_value(s.take(k), radix) matches Some(u)
            && u <= v,
    decreases s.len() - k,
{
    if k < s.len() {
        lemma_prefix_value(s, k + 1, radix);
        let t = s.take(k + 1);
        assert(t.drop_last() =~= s.take(k));
        if let Some(h) = digits_value(s.take(k), radix) {
            assert(h <= h * radix) by (nonlinear_arith)
                requires
                    radix >= 1,
            ;
        }
    } else {
        assert(s.take(k) =~= s);
    }
}

/// Reads an unsigned 32-bit number; `None` on anything that is not one.
pub fn parse_u32(s: &[u8], radix: u32) -> (r: Option<u32>)
    requires
        2 <= radix <= 36,
    ensures
        match r {
            Some(v) => unsigned_value(s@, radix as nat, u32::MAX as nat) == Some(v as nat),
            None => unsigned_value(s@, radix as nat, u32::MAX as nat) is None,
        },
{
    let mut i: usize = 0;
    if s.len() > 0 && s[0] == 43 {
        i = 1;
    }
    let ghost digits = if s@.len() > 0 && s@[0] == 43 {
        s@.skip(1)
    } else {
        s@
    };
    let ghost start = i as int;
    if i == s.len() {
        return None;
    }
    assert(digits.take(0) =~= seq![]);
    let mut acc: u64 = 0;
    while i < s.len()
        invariant
            2 <= radix <= 36,
            start <= i <= s@.len(),
            0 <= start <= 1,
            digits == s@.skip(start),
            digits.len() > 0,
            unsigned_value(s@, radix as nat, u32::MAX as nat) == (match digits_value(
                digits,
                radix as nat,
            ) {
                Some(v) => if v <= u32::MAX {
                    Some(v)
                } else {
                    None
                },
                None => None,
            }),
            acc <= u32::MAX,
            digits_value(digits.take(i - start), radix as nat) == Some(acc as nat),
        decreases s@.len() - i,
    {
        let ghost next = digits.take(i - start + 1);
        assert(next.drop_last() =~= digits.take(i - start));
        assert(next.last() == s@[i as int]);
        proof {
            lemma_prefix_value(digits, i - start + 1, radix as nat);
        }
        match digit_of(s[i], radix) {
            Some(d) => {
                assert(acc * radix <= u32::MAX * 36) by (nonlinear_arith)
                    requires
                        acc <= u32::MAX,
                        radix <= 36,
                ;
                acc = acc * (radix as u64) + d as u64;
                if acc > u32::MAX as u64 {
                    return None;
                }
            },
            None => {
                return None;
            },
        }
        i += 1;
    }
    assert(digits.take(i - start) =~= digits);
    Some(acc as u32)
}

/// The value of a decimal number is what it was written from.
pub proof fn lemma_decimal_value(n: nat, s: Seq<u8>)
    requires
        s.len() == decimal(n).len(),
        forall|i: int| 0 <= i < s.len() ==> #[trigger] s[i] == decimal(n)[i] as u8,
    ensures
        s.len() > 0,
        s[0] != 43,
        digits_value(s, 10) == Some(n),
    decreases n,
{
    let d = decimal(n);
    assert(d.last() == digit(n % 10));
    assert(s.last() == (48 + n % 10) as u8);
    if n < 10 {
        assert(s.drop_last() =~= seq![]);
        assert(digits_value(s.drop_last(), 10) == Some(0nat));
    } else {
        let t = s.drop_last();
        assert forall|i: int| 0 <= i < t.len() implies #[trigger] t[i] == decimal(n / 10)[i] as u8 by {
            assert(t[i] == s[i]);
            assert(d[i] == decimal(n / 10)[i]);
        }
        lemma_decimal_value(n / 10, t);
        assert(t[0] == s[0]);
    }
}

/// The value of a hexadecimal number is what it was written from.
pub proof fn lemma_hex_value(n: nat, s: Seq<u8>)
    requires
        s.len() == hex_upper(n).len(),
        forall|i: int| 0 <= i < s.len() ==> #[trigger] s[i] == hex_upper(n)[i] as u8,
    ensures
        s.len() > 0,
        s[0] != 43,
        digits_value(s, 16) == Some(n),
    decreases n,
{
    let d = hex_upper(n);
    assert(d.last() == hex_digit_upper(n % 16));
    assert(digit_value(s.last(), 16) == Some(n % 16));
    if n < 16 {
        assert(s.drop_last() =~= seq![]);
        assert(digits_value(s.drop_last(), 16) == Some(0nat));
    } else {
        let t = s.drop_last();
        assert forall|i: int| 0 <= i < t.len() implies #[trigger] t[i] == hex_upper(n / 16)[i] as u8 by {
            assert(t[i] == s[i]);
            assert(d[i] == hex_upper(n / 16)[i]);
        }
        lemma_hex_value(n / 16, t);
        assert(t[0] == s[0]);
    }
}

/// Decimal numbers are made of ASCII digits.
pub proof fn lemma_decimal_ascii(n: nat)
    ensures
        decimal(n).len() > 0,
        forall|i: int| 0 <= i < decimal(n).len() ==> '0' <= #[trigger] decimal(n)[i] <= '9',
    decreases n,
{
    if n >= 10 {
        lemma_decimal_ascii(n / 10);
        assert forall|i: int| 0 <= i < decimal(n).len() implies '0' <= #[trigger] decimal(n)[i]
            <= '9' by {
            if i < decimal(n / 10).len() {
                assert(decimal(n)[i] == decimal(n / 10)[i]);
            }
        }
    }
}

/// Hexadecimal numbers are made of ASCII characters.
pub proof fn lemma_hex_ascii(n: nat)
    ensures
        hex_upper(n).len() > 0,
        forall|i: int| 0 <= i < hex_upper(n).len() ==> '0' <= #[trigger] hex_upper(n)[i] <= 'F',
    decreases n,
{
    if n >= 16 {
        lemma_hex_ascii(n / 16);
        assert forall|i: int| 0 <= i < hex_upper(n).len() implies '0' <= #[trigger] hex_upper(n)[i]
            <= 'F' by {
            if i < hex_upper(n / 16).len() {
                assert(hex_upper(n)[i] == hex_upper(n / 16)[i]);
            }
        }
    }
}

/// The UTF-8 bytes of an ASCII string are its characters.
pub proof fn lemma_ascii_bytes(s: Seq<char>)
    requires
        is_ascii_chars(s),
    ensures
        encode_utf8(s).len() == s.len(),
        forall|i: int| 0 <= i < s.len() ==> #[trigger] encode_utf8(s)[i] == s[i] as u8,
{
    is_ascii_chars_encode_utf8(s);
    assert forall|i: int| 0 <= i < s.len() implies #[trigger] encode_utf8(s)[i] == s[i] as u8 by {
        assert(s[i] as u8 == encode_utf8(s)[i]);
    }
}

/// Text whose bytes are all 7-bit consists of the characters of these bytes.
pub proof fn lemma_ascii_chars(s: Seq<char>)
    requires
        forall|i: int| 0 <= i < encode_utf8(s).len() ==> #[trigger] encode_utf8(s)[i] <= 0x7f,
    ensures
        s == chars_of(encode_utf8(s)),
{
    let b = encode_utf8(s);
    let t = chars_of(b);
    assert forall|i: int| 0 <= i < t.len() implies '\0' <= #[trigger] t[i] <= '\u{7f}' by {
        assert(b[i] <= 0x7f);
    }
    lemma_ascii_bytes(t);
    assert forall|i: int| 0 <= i < b.len() implies #[trigger] encode_utf8(t)[i] == b[i] by {
        assert(b[i] <= 0x7f);
        assert(encode_utf8(t)[i] == t[i] as u8);
    }
    assert(encode_utf8(t) =~= b);
    encode_utf8_decode_utf8(s);
    encode_utf8_decode_utf8(t);
}

/// Decimal digits are the characters from `0` to `9`, in the order of their values.
pub proof fn law_decimal_digits(d: nat)
    requires
        d < 10,
    ensures
        digit(d) == "0123456789"@[d as int],
        decimal(d) == seq!["0123456789"@[d as int]],
{
    reveal_strlit("0123456789");
}

/// A digit behind a decimal number makes it ten times as large, and adds the digit.
pub proof fn law_decimal_places(n: nat, d: nat)
    requires
        0 < n,
        d < 10,
    ensures
        decimal(10 * n + d) == decimal(n).push("0123456789"@[d as int]),
{
    law_decimal_digits(d);
    assert((10 * n + d) / 10 == n);
    assert((10 * n + d) % 10 == d);
}

/// A negative number is written as its magnitude behind a minus sign.
pub proof fn law_sign_is_written(n: nat)
    ensures
        signed_decimal(n as int) == decimal(n),
        0 < n ==> signed_decimal(-(n as int)) == seq!['-'] + decimal(n),
{
}

/// Hexadecimal digits are `0` to `9` and `A` to `F`, or `a` to `f`, in the order of their
/// values.
pub proof fn law_hexadecimal_digits(d: u8)
    requires
        d < 16,
    ensures
        hex_digit_upper(d as nat) == "0123456789ABCDEF"@[d as int],
        hex_digit(d) == "0123456789abcdef"@[d as int],
        hex_upper(d as nat) == seq!["0123456789ABCDEF"@[d as int]],
{
    reveal_strlit("0123456789ABCDEF");
    reveal_strlit("0123456789abcdef");
}

/// A digit behind a hexadecimal number makes it sixteen times as large, and adds the digit.
pub proof fn law_hexadecimal_places(n: nat, d: u8)
    requires
        0 < n,
        d < 16,
    ensures
        hex_upper(16 * n + d as nat) == hex_upper(n).push("0123456789ABCDEF"@[d as int]),
{
    law_hexadecimal_digits(d);
    assert((16 * n + d as nat) / 16 == n);
    assert((16 * n + d as nat) % 16 == d as nat);
}

/// A byte is written as its high digit and its low digit.
pub proof fn law_byte_is_two_digits(high: u8, low: u8)
    requires
        high < 16,
        low < 16,
    ensures
        byte_hex((16 * high + low) as u8) == seq![
            "0123456789abcdef"@[high as int],
            "0123456789abcdef"@[low as int],
        ],
        byte_hex_upper((16 * high + low) as u8) == seq![
            "0123456789ABCDEF"@[high as int],
            "0123456789ABCDEF"@[low as int],
        ],
{
    let b = (16 * high + low) as u8;
    assert(b == 16 * high + low);
    assert(b / 16 == high && b % 16 == low);
    law_hexadecimal_digits(high);
    law_hexadecimal_digits(low);
}

/// A number with a fixed number of digits has one digit for each power of ten, the largest
/// first.
pub proof fn law_fixed_digits(a: nat, b: nat, c: nat, d: nat)
    requires
        a < 10,
        b < 10,
        c < 10,
        d < 10,
    ensures
        two_digits(10 * a + b) == seq![digit(a), digit(b)],
        four_digits(1000 * a + 100 * b + 10 * c + d) == seq![
            digit(a),
            digit(b),
            digit(c),
            digit(d),
        ],
{
    let n = 1000 * a + 100 * b + 10 * c + d;
    let (x, y) = (100 * a + 10 * b + c, 10 * a + b);
    assert(n == 10 * x + d && x == 10 * y + c);
    assert(n / 10 == x && n % 10 == d);
    assert(n / 100 == y);
    assert(n / 1000 == a);
    assert(y % 10 == b && y / 10 == a);
    assert(x % 10 == c);
}

/// The digits of a radix up to 36 are `0` to `9` and the letters in either case, as far as
/// their values are below the radix; nothing else is a digit.
pub proof fn law_digit_values(b: u8, v: nat, radix: nat)
    requires
        2 <= radix <= 36,
    ensures
        digit_value(b, radix) == Some(v) <==> v < radix && ((v < 10 && b == '0' as u8 + v) || (10
            <= v && (b == 'a' as u8 + v - 10 || b == 'A' as u8 + v - 10))),
{
}

/// The value of a string of digits is positional: the value of its beginning times the
/// radix, with the last digit added.
pub proof fn law_digits_are_positional(s: Seq<u8>, b: u8, radix: nat)
    ensures
        digits_value(Seq::empty(), radix) == Some(0nat),
        digits_value(s, radix) is Some && digit_value(b, radix) is Some ==> digits_value(
            s.push(b),
            radix,
        ) == Some((digits_value(s, radix)->0 * radix + digit_value(b, radix)->0) as nat),
        digits_value(s, radix) is None || digit_value(b, radix) is None ==> digits_value(
            s.push(b),
            radix,
        ) is None,
{
    assert(s.push(b).drop_last() =~= s);
}

/// A number is read exactly if there is a digit, all characters are digits and the value
/// is not too large. One plus sign in front changes nothing; a second one is no digit.
pub proof fn law_which_numbers_are_read(s: Seq<u8>, radix: nat, max: nat)
    requires
        2 <= radix <= 36,
    ensures
        s.len() == 0 ==> unsigned_value(s, radix, max) is None,
        s.len() > 0 && s[0] != '+' as u8 ==> (unsigned_value(s, radix, max) is Some <==> (
        digits_value(s, radix) matches Some(v) && v <= max)),
        s.len() > 0 && s[0] != '+' as u8 && unsigned_value(s, radix, max) is Some
            ==> unsigned_value(s, radix, max) == digits_value(s, radix),
        s.len() > 0 && s[0] == '+' as u8 ==> digits_value(s, radix) is None,
        s.len() == 0 || s[0] != '+' as u8 ==> unsigned_value(seq!['+' as u8] + s, radix, max)
            == unsigned_value(s, radix, max),
        s.len() > 0 && s[0] == '+' as u8 ==> unsigned_value(seq!['+' as u8] + s, radix, max)
            is None,
{
    assert((seq!['+' as u8] + s).skip(1) =~= s);
    if s.len() > 0 && s[0] == '+' as u8 {
        lemma_prefix_value(s, 1, radix);
        assert(s.take(1).drop_last() =~= seq![]);
        assert(s.take(1).last() == s[0]);
    }
}

/// Texts are ordered by their first characters, and by what follows where these agree; an
/// empty text comes before any other.
pub proof fn law_order_of_texts(a: Seq<char>, b: Seq<char>)
    ensures
        a.len() == 0 ==> (text_before(a, b) <==> b.len() > 0),
        b.len() == 0 ==> !text_before(a, b),
        a.len() > 0 && b.len() > 0 ==> (text_before(a, b) <==> a[0] < b[0] || (a[0] == b[0]
            && text_before(a.skip(1), b.skip(1)))),
{
    if a.len() == 0 && b.len() > 0 {
        assert(a.take(0) =~= b.take(0));
    }
    if a.len() > 0 && b.len() > 0 {
        let (p, q) = (a.skip(1), b.skip(1));
        if text_before(a, b) {
            let i = choose|i: int|
                0 <= i <= a.len() && i < b.len() && #[trigger] a.take(i) == b.take(i) && (i
                    == a.len() || a[i] < b[i]);
            if i > 0 {
                assert(a.take(i)[0] == b.take(i)[0]);
                assert forall|j: int| 0 <= j < i - 1 implies p[j] == q[j] by {
                    assert(a.take(i)[j + 1] == b.take(i)[j + 1]);
                }
                assert(p.take(i - 1) =~= q.take(i - 1));
            }
        }
        if a[0] < b[0] {
            assert(a.take(0) =~= b.take(0));
        } else if a[0] == b[0] && text_before(p, q) {
            let i = choose|i: int|
                0 <= i <= p.len() && i < q.len() && #[trigger] p.take(i) == q.take(i) && (i
                    == p.len() || p[i] < q[i]);
            assert forall|j: int| 0 <= j < i + 1 implies a[j] == b[j] by {
                if j > 0 {
                    assert(p.take(i)[j - 1] == q.take(i)[j - 1]);
                }
            }
            assert(a.take(i + 1) =~= b.take(i + 1));
        }
    }
}

} // verus!

//! Timestamps as text, `YYYY-MM-DDThh:mm:ssZ`.

use vstd::prelude::*;
use vstd::slice::*;
use vstd::string::*;
use vstd::utf8::*;

use super::civil_date::{
    civil_from_days, day_number, days_before_month, days_before_year, days_from_civil, days_in_month,
    is_date, law_dates_are_ordered, law_dates_are_unique, law_years_follow_each_other,
    lemma_years_grow,
};
use crate::common::text::{
    digit, digit_value, digits_value, four_digits, lemma_ascii_bytes, push_four_digits,
    push_two_digits, text_before, two_digits,
};

verus! {

/// The last second of the year 9999.
pub const MAX_TIMESTAMP_SECS: u64 = 253_402_300_799;

/// A date and time as text.
pub open spec fn iso_text(y: int, m: int, d: int, secs_of_day: int) -> Seq<char> {
    four_digits(y as nat) + seq!['-'] + two_digits(m as nat) + seq!['-'] + two_digits(d as nat)
        + seq!['T'] + two_digits((secs_of_day / 3600) as nat) + seq![':'] + two_digits(
        (secs_of_day % 3600 / 60) as nat,
    ) + seq![':'] + two_digits((secs_of_day % 60) as nat) + seq!['Z']
}

/// The date of a day is `date`.
pub open spec fn dated(days: int, date: (int, int, int)) -> bool {
    is_date(date.0, date.1, date.2) && day_number(date.0, date.1, date.2) == days
}

/// The date of a day.
pub open spec fn date_of(days: int) -> (int, int, int) {
    choose|date: (int, int, int)| dated(days, date)
}

/// The text of a point in time, given as seconds since the Unix epoch. Times beyond
/// the year 9999 are shown as its last second.
pub open spec fn timestamp_text(secs: u64) -> Seq<char> {
    if secs > MAX_TIMESTAMP_SECS {
        "9999-12-31T23:59:59Z"@
    } else {
        let date = date_of(secs as int / 86400);
        iso_text(date.0, date.1, date.2, secs as int % 86400)
    }
}

/// The years of the days that can be shown have four digits.
proof fn lemma_shown_years(days: int, y: int, m: int, d: int)
    requires
        0 <= days <= 2_932_896,
        dated(days, (y, m, d)),
    ensures
        1970 <= y <= 9999,
{
    law_years_follow_each_other(y);
    lemma_day_within_year(y, m, d);
    if y >= 10000 {
        lemma_years_grow(10000, y);
    }
    if y < 1970 {
        lemma_years_grow(y + 1, 1970);
    }
}

/// A date lies within its year.
proof fn lemma_day_within_year(y: int, m: int, d: int)
    requires
        is_date(y, m, d),
    ensures
        days_before_year(y) <= day_number(y, m, d) < days_before_year(y + 1),
{
    law_years_follow_each_other(y);
    reveal_with_fuel(days_before_month, 14);
}

/// The text of a point in time.
pub fn format_unix_timestamp(secs: u64) -> (r: String)
    ensures
        r@ == timestamp_text(secs),
{
    if secs > MAX_TIMESTAMP_SECS {
        return String::from_str("9999-12-31T23:59:59Z");
    }
    let days: u64 = secs / 86_400;
    let day_secs: u64 = secs % 86_400;
    let hours: u64 = day_secs / 3_600;
    let minutes: u64 = (day_secs % 3_600) / 60;
    let seconds: u64 = day_secs % 60;
    let (year, month, day) = civil_from_days(days as i64);
    proof {
        let date = (year as int, month as int, day as int);
        assert(dated(days as int, date));
        let chosen = date_of(days as int);
        assert(dated(days as int, chosen));
        law_dates_are_unique(chosen.0, chosen.1, chosen.2, date.0, date.1, date.2);
        lemma_shown_years(days as int, date.0, date.1, date.2);
    }
    let mut out = String::new();
    push_four_digits(&mut out, year as u32);
    out.push('-');
    push_two_digits(&mut out, month);
    out.push('-');
    push_two_digits(&mut out, day);
    out.push('T');
    push_two_digits(&mut out, hours as u32);
    out.push(':');
    push_two_digits(&mut out, minutes as u32);
    out.push(':');
    push_two_digits(&mut out, seconds as u32);
    out.push('Z');
    assert(out@ =~= iso_text(year as int, month as int, day as int, day_secs as int));
    out
}

/// The value of a string of digits; zero if it holds anything else.
pub open spec fn digits_or_zero(s: Seq<u8>) -> nat {
    match digits_value(s, 10) {
        Some(v) => v,
        None => 0,
    }
}

/// A string of digits is below the power of ten of its length.
proof fn lemma_digits_bound(s: Seq<u8>)
    ensures
        digits_value(s, 10) matches Some(v) ==> v < vstd::arithmetic::power::pow(10, s.len()),
    decreases s.len(),
{
    reveal(vstd::arithmetic::power::pow);
    if s.len() > 0 {
        lemma_digits_bound(s.drop_last());
    }
}

/// Digits stop being a number at the first character that is no digit.
proof fn lemma_not_digits(s: Seq<u8>, k: int)
    requires
        0 <= k < s.len(),
        digit_value(s[k], 10) is None,
    ensures
        digits_value(s, 10) is None,
    decreases s.len(),
{
    if k < s.len() - 1 {
        lemma_not_digits(s.drop_last(), k);
    }
}

/// The digits at the beginning of a byte string stand for numbers of 64 bits.
pub open spec fn digits_fit(s: Seq<u8>) -> bool {
    forall|i: int|
        0 <= i <= s.len() ==> (digits_value(#[trigger] s.take(i), 10) matches Some(v) ==> v
            <= u64::MAX)
}

/// The value of a string of digits; zero if it holds anything else.
pub fn parse_u64(bytes: &[u8]) -> (r: u64)
    requires
        digits_fit(bytes@),
    ensures
        r == digits_or_zero(bytes@),
{
    let mut result: u64 = 0;
    let mut i: usize = 0;
    assert(bytes@.take(0) =~= seq![]);
    while i < bytes.len()
        invariant
            i <= bytes@.len(),
            digits_fit(bytes@),
            digits_value(bytes@.take(i as int), 10) == Some(result as nat),
        decreases bytes@.len() - i,
    {
        let b: u8 = bytes[i];
        let ghost next = bytes@.take(i + 1);
        assert(next.drop_last() =~= bytes@.take(i as int));
        assert(next.last() == b);
        if b < 48 || b > 57 {
            proof {
                lemma_not_digits(bytes@, i as int);
            }
            return 0;
        }
        assert(digits_value(next, 10) == Some((result * 10 + (b - 48)) as nat));
        result = result * 10 + (b - 48) as u64;
        i += 1;
    }
    assert(bytes@.take(i as int) =~= bytes@);
    result
}

/// The place in the text of a timestamp holds a digit.
pub open spec fn digit_place(i: int) -> bool {
    0 <= i < 19 && i != 4 && i != 7 && i != 10 && i != 13 && i != 16
}

/// The bytes have the form `YYYY-MM-DDThh:mm:ssZ`.
pub open spec fn iso_shaped(b: Seq<u8>) -> bool {
    &&& b.len() == 20
    &&& b[4] == 45 && b[7] == 45 && b[10] == 84 && b[13] == 58 && b[16] == 58 && b[19] == 90
    &&& forall|i: int| #[trigger] digit_place(i) ==> 48 <= b[i] <= 57
}

/// The point in time that a text of the form `YYYY-MM-DDThh:mm:ssZ` stands for, as
/// seconds since the Unix epoch; zero if it stands for none. Any other text stands for
/// none.
pub open spec fn parsed_timestamp(s: Option<Seq<u8>>) -> nat {
    match s {
        None => 0,
        Some(b) => if !iso_shaped(b) {
            0
        } else {
            let year = digits_or_zero(b.subrange(0, 4));
            let month = digits_or_zero(b.subrange(5, 7));
            let day = digits_or_zero(b.subrange(8, 10));
            let hour = digits_or_zero(b.subrange(11, 13));
            let min = digits_or_zero(b.subrange(14, 16));
            let sec = digits_or_zero(b.subrange(17, 19));
            if year < 1970 || month == 0 || day == 0 || month > 12 || day > 31 || hour >= 24 || min
                >= 60 || sec >= 60 {
                0
            } else {
                (day_number(year as int, month as int, day as int) * 86400 + hour * 3600 + min * 60
                    + sec) as nat
            }
        },
    }
}

/// Whether bytes have the form `YYYY-MM-DDThh:mm:ssZ`.
fn is_iso_shaped(b: &[u8]) -> (r: bool)
    ensures
        r == iso_shaped(b@),
{
    if b.len() != 20 || b[4] != 45 || b[7] != 45 || b[10] != 84 || b[13] != 58 || b[16] != 58
        || b[19] != 90 {
        return false;
    }
    let mut i: usize = 0;
    while i < 19
        invariant
            i <= 19,
            b@.len() == 20,
            forall|j: int| #[trigger] digit_place(j) && j < i ==> 48 <= b@[j] <= 57,
        decreases 19 - i,
    {
        let separator: bool = i == 4 || i == 7 || i == 10 || i == 13 || i == 16;
        if !separator && (b[i] < 48 || b[i] > 57) {
            assert(digit_place(i as int));
            return false;
        }
        i += 1;
    }
    true
}

/// A string of digits of a given length is small.
proof fn lemma_small_digits(s: Seq<u8>)
    requires
        s.len() <= 4,
    ensures
        digits_or_zero(s) < 10000,
        digits_fit(s),
{
    assert forall|i: int| 0 <= i <= s.len() implies (digits_value(#[trigger] s.take(i), 10) matches Some(
        v,
    ) ==> v < 10000) by {
        lemma_digits_bound(s.take(i));
        reveal_with_fuel(vstd::arithmetic::power::pow, 5);
    }
    assert(s.take(s.len() as int) =~= s);
}

/// The days of the years that four digits can name are few.
proof fn lemma_days_bound(y: int, m: int, d: int)
    requires
        1970 <= y <= 9999,
        1 <= m <= 12,
        1 <= d <= 31,
    ensures
        0 <= day_number(y, m, d) <= 3_000_000,
{
    lemma_years_grow(y, 9999);
    lemma_years_grow(1970, y);
    reveal_with_fuel(days_before_month, 14);
}

/// Reads a text as a point in time; zero if it is none.
pub fn parse_iso_timestamp(s: Option<&str>) -> (r: u64)
    ensures
        r == parsed_timestamp(
            match s {
                Some(t) => Some(encode_utf8(t@)),
                None => None,
            },
        ),
{
    let text: &str = match s {
        Some(t) => t,
        None => {
            return 0;
        },
    };
    let b = text.as_bytes();
    if !is_iso_shaped(b) {
        return 0;
    }
    proof {
        lemma_small_digits(b@.subrange(0, 4));
        lemma_small_digits(b@.subrange(5, 7));
        lemma_small_digits(b@.subrange(8, 10));
        lemma_small_digits(b@.subrange(11, 13));
        lemma_small_digits(b@.subrange(14, 16));
        lemma_small_digits(b@.subrange(17, 19));
    }
    let year: u64 = parse_u64(slice_subrange(b, 0, 4));
    let month: u64 = parse_u64(slice_subrange(b, 5, 7));
    let day: u64 = parse_u64(slice_subrange(b, 8, 10));
    let hour: u64 = parse_u64(slice_subrange(b, 11, 13));
    let min: u64 = parse_u64(slice_subrange(b, 14, 16));
    let sec: u64 = parse_u64(slice_subrange(b, 17, 19));
    if year < 1970 || month == 0 || day == 0 {
        return 0;
    }
    if month > 12 || day > 31 {
        return 0;
    }
    if hour >= 24 || min >= 60 || sec >= 60 {
        return 0;
    }
    proof {
        lemma_days_bound(year as int, month as int, day as int);
    }
    let days: u64 = days_from_civil(year as i64, month as u32, day as u32);
    days * 86_400 + hour * 3_600 + min * 60 + sec
}

/// One more digit adds to ten times the value before it.
proof fn lemma_next_digit(s: Seq<u8>, high: nat, low: nat)
    requires
        s.len() > 0,
        digits_value(s.drop_last(), 10) == Some(high),
        digit_value(s.last(), 10) == Some(low),
    ensures
        digits_value(s, 10) == Some((high * 10 + low) as nat),
{
}

/// A written digit is read as its value.
proof fn lemma_digit_read(b: u8, d: nat)
    requires
        d < 10,
        b == digit(d) as u8,
    ensures
        digit_value(b, 10) == Some(d),
{
}

/// Two digits are read as the number they were written from.
proof fn lemma_two_digits_value(n: nat, s: Seq<u8>)
    requires
        n < 100,
        s.len() == 2,
        s[0] == two_digits(n)[0] as u8,
        s[1] == two_digits(n)[1] as u8,
    ensures
        digits_or_zero(s) == n,
{
    lemma_digit_read(s[0], n / 10);
    lemma_digit_read(s[1], n % 10);
    let t = s.take(1);
    assert(t.drop_last().len() == 0);
    lemma_next_digit(t, 0, n / 10);
    assert(s.drop_last() =~= t);
    lemma_next_digit(s, n / 10, n % 10);
}

/// Four digits are read as the number they were written from.
proof fn lemma_four_digits_value(n: nat, s: Seq<u8>)
    requires
        n < 10000,
        s.len() == 4,
        s[0] == four_digits(n)[0] as u8,
        s[1] == four_digits(n)[1] as u8,
        s[2] == four_digits(n)[2] as u8,
        s[3] == four_digits(n)[3] as u8,
    ensures
        digits_or_zero(s) == n,
{
    let (a, b, c, d) = (n / 1000, n / 100 % 10, n / 10 % 10, n % 10);
    lemma_digit_read(s[0], a);
    lemma_digit_read(s[1], b);
    lemma_digit_read(s[2], c);
    lemma_digit_read(s[3], d);
    let s1 = s.take(1);
    let s2 = s.take(2);
    let s3 = s.take(3);
    assert(s1.drop_last().len() == 0);
    lemma_next_digit(s1, 0, a);
    assert(s2.drop_last() =~= s1);
    lemma_next_digit(s2, a, b);
    assert(s3.drop_last() =~= s2);
    lemma_next_digit(s3, a * 10 + b, c);
    assert(s.drop_last() =~= s3);
    lemma_next_digit(s, (a * 10 + b) * 10 + c, d);
    assert(((a * 10 + b) * 10 + c) * 10 + d == n);
}

/// Every day since the epoch has a date.
pub proof fn lemma_every_day_has_a_date(days: int)
    requires
        days >= 0,
    ensures
        dated(days, date_of(days)),
    decreases days,
{
    if days == 0 {
        law_years_follow_each_other(1970);
        reveal_with_fuel(days_before_month, 14);
        assert(dated(0, (1970, 1, 1)));
    } else {
        lemma_every_day_has_a_date(days - 1);
        let (y, m, d) = date_of(days - 1);
        law_years_follow_each_other(y);
        if d < days_in_month(y, m) {
            assert(dated(days, (y, m, d + 1)));
        } else if m < 12 {
            assert(dated(days, (y, m + 1, 1)));
        } else {
            assert(days_before_month(y, 13) == days_before_month(y, 12) + days_in_month(y, 12));
            assert(days_before_month(y + 1, 1) == 0);
            assert(dated(days, (y + 1, 1, 1)));
        }
    }
}

/// The text of a date and time has the form of a timestamp, and its numbers are read as
/// they were written.
proof fn lemma_numbers_read(y: nat, m: nat, d: nat, hour: nat, min: nat, sec: nat, t: Seq<char>)
    requires
        y < 10000,
        m < 100,
        d < 100,
        hour < 100,
        min < 100,
        sec < 100,
        t == four_digits(y) + seq!['-'] + two_digits(m) + seq!['-'] + two_digits(d) + seq!['T']
            + two_digits(hour) + seq![':'] + two_digits(min) + seq![':'] + two_digits(sec) + seq![
            'Z',
        ],
    ensures
        ({
            let b = encode_utf8(t);
            &&& iso_shaped(b)
            &&& digits_or_zero(b.subrange(0, 4)) == y
            &&& digits_or_zero(b.subrange(5, 7)) == m
            &&& digits_or_zero(b.subrange(8, 10)) == d
            &&& digits_or_zero(b.subrange(11, 13)) == hour
            &&& digits_or_zero(b.subrange(14, 16)) == min
            &&& digits_or_zero(b.subrange(17, 19)) == sec
        }),
{
    lemma_text_places(y, m, d, hour, min, sec, t);
    lemma_ascii_bytes(t);
    let b = encode_utf8(t);
    assert(iso_shaped(b)) by {
        assert(b[4] == t[4] as u8 && b[7] == t[7] as u8 && b[10] == t[10] as u8 && b[13]
            == t[13] as u8 && b[16] == t[16] as u8 && b[19] == t[19] as u8);
        assert forall|i: int| #[trigger] digit_place(i) implies 48 <= b[i] <= 57 by {
            assert(b[i] == t[i] as u8);
        }
    }
    assert(digits_or_zero(b.subrange(0, 4)) == y) by {
        assert(b[0] == t[0] as u8 && b[1] == t[1] as u8 && b[2] == t[2] as u8 && b[3]
            == t[3] as u8);
        lemma_four_digits_value(y, b.subrange(0, 4));
    }
    assert(digits_or_zero(b.subrange(5, 7)) == m) by {
        assert(b[5] == t[5] as u8 && b[6] == t[6] as u8);
        lemma_two_digits_value(m, b.subrange(5, 7));
    }
    assert(digits_or_zero(b.subrange(8, 10)) == d) by {
        assert(b[8] == t[8] as u8 && b[9] == t[9] as u8);
        lemma_two_digits_value(d, b.subrange(8, 10));
    }
    assert(digits_or_zero(b.subrange(11, 13)) == hour) by {
        assert(b[11] == t[11] as u8 && b[12] == t[12] as u8);
        lemma_two_digits_value(hour, b.subrange(11, 13));
    }
    assert(digits_or_zero(b.subrange(14, 16)) == min) by {
        assert(b[14] == t[14] as u8 && b[15] == t[15] as u8);
        lemma_two_digits_value(min, b.subrange(14, 16));
    }
    assert(digits_or_zero(b.subrange(17, 19)) == sec) by {
        assert(b[17] == t[17] as u8 && b[18] == t[18] as u8);
        lemma_two_digits_value(sec, b.subrange(17, 19));
    }
}

/// Reading the text of a point in time up to the year 9999 gives the point in time
/// back.
#[verifier::rlimit(30)]
pub proof fn law_timestamp_round_trip(secs: u64)
    requires
        secs <= MAX_TIMESTAMP_SECS,
    ensures
        parsed_timestamp(Some(encode_utf8(timestamp_text(secs)))) == secs,
{
    let days = secs as int / 86400;
    let day_secs = secs as int % 86400;
    let (y, m, d) = date_of(days);
    lemma_every_day_has_a_date(days);
    lemma_shown_years(days, y, m, d);
    let hour = (day_secs / 3600) as nat;
    let min = (day_secs % 3600 / 60) as nat;
    let sec = (day_secs % 60) as nat;
    lemma_numbers_read(y as nat, m as nat, d as nat, hour, min, sec, timestamp_text(secs));
}

/// Points in time beyond the year 9999 have the text of its last second.
pub proof fn law_far_times_are_clamped(secs: u64)
    requires
        secs > MAX_TIMESTAMP_SECS,
    ensures
        timestamp_text(secs) == timestamp_text(MAX_TIMESTAMP_SECS),
{
    let days = MAX_TIMESTAMP_SECS as int / 86400;
    assert(days_before_month(9999, 12) == 334) by {
        reveal_with_fuel(days_before_month, 12);
    }
    assert(dated(days, (9999, 12, 31)));
    let chosen = date_of(days);
    law_dates_are_unique(chosen.0, chosen.1, chosen.2, 9999, 12, 31);
    reveal_strlit("9999-12-31T23:59:59Z");
    assert(iso_text(9999, 12, 31, 86399) =~= "9999-12-31T23:59:59Z"@);
}

/// The text of a point in time has the form `YYYY-MM-DDThh:mm:ssZ`; beyond the year 9999
/// it is that of its last second.
pub proof fn law_timestamp_form(secs: u64)
    ensures
        timestamp_text(secs).len() == 20,
        is_ascii_chars(timestamp_text(secs)),
        iso_shaped(encode_utf8(timestamp_text(secs))),
        secs > MAX_TIMESTAMP_SECS ==> timestamp_text(secs) == "9999-12-31T23:59:59Z"@,
    decreases secs,
{
    if secs > MAX_TIMESTAMP_SECS {
        law_far_times_are_clamped(secs);
        law_timestamp_form(MAX_TIMESTAMP_SECS);
    } else {
        let days = secs as int / 86400;
        let day_secs = secs as int % 86400;
        let (y, m, d) = date_of(days);
        lemma_every_day_has_a_date(days);
        lemma_shown_years(days, y, m, d);
        let hour = (day_secs / 3600) as nat;
        let min = (day_secs % 3600 / 60) as nat;
        let sec = (day_secs % 60) as nat;
        let t = timestamp_text(secs);
        lemma_text_places(y as nat, m as nat, d as nat, hour, min, sec, t);
        lemma_numbers_read(y as nat, m as nat, d as nat, hour, min, sec, t);
    }
}

/// Of two texts of the same length the one with the smaller character where they first
/// differ comes first.
proof fn lemma_before_at(a: Seq<char>, b: Seq<char>, i: int)
    requires
        a.len() == b.len(),
        0 <= i < a.len(),
        forall|j: int| 0 <= j < i ==> a[j] == b[j],
        a[i] < b[i],
    ensures
        text_before(a, b),
{
    assert(a.take(i) =~= b.take(i));
}

/// Smaller numbers have smaller digits where they first differ.
proof fn lemma_two_in_order(a: nat, b: nat)
    requires
        a < b < 100,
    ensures
        two_digits(a)[0] < two_digits(b)[0] || (two_digits(a)[0] == two_digits(b)[0] && two_digits(
            a,
        )[1] < two_digits(b)[1]),
{
    assert(a == 10 * (a / 10) + a % 10 && b == 10 * (b / 10) + b % 10);
}

/// A number is the sum of what its digits stand for.
proof fn lemma_sum_of_digits(n: nat)
    ensures
        n == 1000 * (n / 1000) + 100 * (n / 100 % 10) + 10 * (n / 10 % 10) + n % 10,
{
    assert(n / 100 == n / 10 / 10 && n / 1000 == n / 100 / 10);
}

/// The characters of digits are ordered as the digits are.
proof fn lemma_digit_order(a: nat, b: nat)
    requires
        a < 10,
        b < 10,
    ensures
        a < b <==> digit(a) < digit(b),
{
}

/// Smaller numbers have smaller digits where they first differ.
proof fn lemma_four_in_order(a: nat, b: nat, s: Seq<char>, t: Seq<char>)
    requires
        a < b < 10000,
        s == four_digits(a),
        t == four_digits(b),
    ensures
        s[0] < t[0] || (s[0] == t[0] && (s[1] < t[1] || (s[1] == t[1] && (s[2] < t[2] || (s[2]
            == t[2] && s[3] < t[3]))))),
{
    let (a3, a2, a1, a0) = (a / 1000, a / 100 % 10, a / 10 % 10, a % 10);
    let (b3, b2, b1, b0) = (b / 1000, b / 100 % 10, b / 10 % 10, b % 10);
    lemma_sum_of_digits(a);
    lemma_sum_of_digits(b);
    lemma_first_difference(a3, a2, a1, a0, b3, b2, b1, b0);
    assert(a3 < 10 && b3 < 10);
    lemma_digit_order(a3, b3);
    lemma_digit_order(a2, b2);
    lemma_digit_order(a1, b1);
    lemma_digit_order(a0, b0);
    assert(s[0] == digit(a3) && s[1] == digit(a2) && s[2] == digit(a1) && s[3] == digit(a0));
    assert(t[0] == digit(b3) && t[1] == digit(b2) && t[2] == digit(b1) && t[3] == digit(b0));
}

/// Of two numbers of four digits the smaller one has the smaller digit where they first
/// differ.
proof fn lemma_first_difference(
    a3: nat,
    a2: nat,
    a1: nat,
    a0: nat,
    b3: nat,
    b2: nat,
    b1: nat,
    b0: nat,
)
    requires
        a2 < 10 && a1 < 10 && a0 < 10 && b2 < 10 && b1 < 10 && b0 < 10,
        1000 * a3 + 100 * a2 + 10 * a1 + a0 < 1000 * b3 + 100 * b2 + 10 * b1 + b0,
    ensures
        a3 < b3 || (a3 == b3 && (a2 < b2 || (a2 == b2 && (a1 < b1 || (a1 == b1 && a0 < b0))))),
{
}

/// Of two texts that agree up to a number, the one with the smaller number comes first.
proof fn lemma_before_at_number(s: Seq<char>, t: Seq<char>, i: int, a: nat, b: nat)
    requires
        s.len() == 20,
        t.len() == 20,
        0 <= i < 19,
        forall|j: int| 0 <= j < i ==> s[j] == t[j],
        s[i] == two_digits(a)[0] && s[i + 1] == two_digits(a)[1],
        t[i] == two_digits(b)[0] && t[i + 1] == two_digits(b)[1],
        a < b < 100,
    ensures
        text_before(s, t),
{
    lemma_two_in_order(a, b);
    lemma_before_at(
        s,
        t,
        if s[i] < t[i] {
            i
        } else {
            i + 1
        },
    );
}

/// The text of an earlier date and time comes first.
proof fn lemma_texts_in_order(
    d1: (nat, nat, nat, nat, nat, nat),
    s: Seq<char>,
    d2: (nat, nat, nat, nat, nat, nat),
    t: Seq<char>,
)
    requires
        d2.0 < 10000 && d2.1 < 100 && d2.2 < 100 && d2.3 < 100 && d2.4 < 100 && d2.5 < 100,
        placed(d1.0, d1.1, d1.2, d1.3, d1.4, d1.5, s),
        placed(d2.0, d2.1, d2.2, d2.3, d2.4, d2.5, t),
        d1.0 < d2.0 || (d1.0 == d2.0 && (d1.1 < d2.1 || (d1.1 == d2.1 && (d1.2 < d2.2 || (d1.2
            == d2.2 && (d1.3 < d2.3 || (d1.3 == d2.3 && (d1.4 < d2.4 || (d1.4 == d2.4 && d1.5
            < d2.5))))))))),
    ensures
        text_before(s, t),
{
    if d1.0 < d2.0 {
        lemma_four_in_order(d1.0, d2.0, four_digits(d1.0), four_digits(d2.0));
        let i: int = if s[0] < t[0] {
            0
        } else if s[1] < t[1] {
            1
        } else if s[2] < t[2] {
            2
        } else {
            3
        };
        lemma_before_at(s, t, i);
    } else if d1.1 < d2.1 {
        lemma_before_at_number(s, t, 5, d1.1, d2.1);
    } else if d1.2 < d2.2 {
        lemma_before_at_number(s, t, 8, d1.2, d2.2);
    } else if d1.3 < d2.3 {
        lemma_before_at_number(s, t, 11, d1.3, d2.3);
    } else if d1.4 < d2.4 {
        lemma_before_at_number(s, t, 14, d1.4, d2.4);
    } else {
        lemma_before_at_number(s, t, 17, d1.5, d2.5);
    }
}

/// Of two times of a day the earlier one has the smaller hour, minute or second where
/// they first differ.
proof fn lemma_clock_in_order(r: int, q: int)
    requires
        0 <= r < q,
    ensures
        r / 3600 < q / 3600 || (r / 3600 == q / 3600 && (r % 3600 / 60 < q % 3600 / 60 || (r % 3600
            / 60 == q % 3600 / 60 && r % 60 < q % 60))),
{
    assert(r % 60 == r % 3600 % 60 && q % 60 == q % 3600 % 60);
}

/// Later times have later texts, up to the year 9999; beyond it the texts are the same.
#[verifier::rlimit(30)]
pub proof fn law_later_times_have_later_texts(a: u64, b: u64)
    requires
        a <= b,
    ensures
        a < b <= MAX_TIMESTAMP_SECS ==> text_before(timestamp_text(a), timestamp_text(b)),
        timestamp_text(a) == timestamp_text(b) || text_before(timestamp_text(a), timestamp_text(b)),
    decreases b,
{
    if a < b <= MAX_TIMESTAMP_SECS {
        let (days1, days2) = (a as int / 86400, b as int / 86400);
        let (r1, r2) = (a as int % 86400, b as int % 86400);
        let (y1, m1, d1) = date_of(days1);
        let (y2, m2, d2) = date_of(days2);
        lemma_every_day_has_a_date(days1);
        lemma_every_day_has_a_date(days2);
        lemma_shown_years(days1, y1, m1, d1);
        lemma_shown_years(days2, y2, m2, d2);
        if days1 < days2 {
            law_dates_are_ordered(y1, m1, d1, y2, m2, d2);
        }
        let n1 = ((r1 / 3600) as nat, (r1 % 3600 / 60) as nat, (r1 % 60) as nat);
        let n2 = ((r2 / 3600) as nat, (r2 % 3600 / 60) as nat, (r2 % 60) as nat);
        assert(r1 < r2 ==> n1.0 < n2.0 || (n1.0 == n2.0 && (n1.1 < n2.1 || (n1.1 == n2.1 && n1.2
            < n2.2)))) by {
            if r1 < r2 {
                lemma_clock_in_order(r1, r2);
            }
        }
        let (s, t) = (timestamp_text(a), timestamp_text(b));
        lemma_text_places(y1 as nat, m1 as nat, d1 as nat, n1.0, n1.1, n1.2, s);
        lemma_text_places(y2 as nat, m2 as nat, d2 as nat, n2.0, n2.1, n2.2, t);
        lemma_texts_in_order(
            (y1 as nat, m1 as nat, d1 as nat, n1.0, n1.1, n1.2),
            s,
            (y2 as nat, m2 as nat, d2 as nat, n2.0, n2.1, n2.2),
            t,
        );
    } else if a <= MAX_TIMESTAMP_SECS < b {
        law_far_times_are_clamped(b);
        if a < MAX_TIMESTAMP_SECS {
            law_later_times_have_later_texts(a, MAX_TIMESTAMP_SECS);
        }
    }
}

/// The digits and separators of a date and time stand in their places.
spec fn placed(y: nat, m: nat, d: nat, hour: nat, min: nat, sec: nat, t: Seq<char>) -> bool {
    &&& t.len() == 20
    &&& t[4] == '-' && t[7] == '-' && t[10] == 'T' && t[13] == ':' && t[16] == ':' && t[19] == 'Z'
    &&& t[0] == four_digits(y)[0] && t[1] == four_digits(y)[1] && t[2] == four_digits(y)[2] && t[3]
        == four_digits(y)[3]
    &&& t[5] == two_digits(m)[0] && t[6] == two_digits(m)[1]
    &&& t[8] == two_digits(d)[0] && t[9] == two_digits(d)[1]
    &&& t[11] == two_digits(hour)[0] && t[12] == two_digits(hour)[1]
    &&& t[14] == two_digits(min)[0] && t[15] == two_digits(min)[1]
    &&& t[17] == two_digits(sec)[0] && t[18] == two_digits(sec)[1]
}

/// The characters of the text of a date and time, one by one.
proof fn lemma_text_places(y: nat, m: nat, d: nat, hour: nat, min: nat, sec: nat, t: Seq<char>)
    requires
        y < 10000,
        m < 100,
        d < 100,
        hour < 100,
        min < 100,
        sec < 100,
        t == four_digits(y) + seq!['-'] + two_digits(m) + seq!['-'] + two_digits(d) + seq!['T']
            + two_digits(hour) + seq![':'] + two_digits(min) + seq![':'] + two_digits(sec) + seq![
            'Z',
        ],
    ensures
        is_ascii_chars(t),
        placed(y, m, d, hour, min, sec, t),
        forall|i: int| #[trigger] digit_place(i) ==> '0' <= t[i] <= '9',
{
    assert(t.len() == 20);
    assert(t[0] == digit(y / 1000) && t[1] == digit(y / 100 % 10) && t[2] == digit(y / 10 % 10)
        && t[3] == digit(y % 10));
    assert(t[4] == '-' && t[7] == '-' && t[10] == 'T' && t[13] == ':' && t[16] == ':' && t[19]
        == 'Z');
    assert(t[5] == digit(m / 10) && t[6] == digit(m % 10));
    assert(t[8] == digit(d / 10) && t[9] == digit(d % 10));
    assert(t[11] == digit(hour / 10) && t[12] == digit(hour % 10));
    assert(t[14] == digit(min / 10) && t[15] == digit(min % 10));
    assert(t[17] == digit(sec / 10) && t[18] == digit(sec % 10));
    assert forall|i: int| 0 <= i < t.len() implies '\0' <= #[trigger] t[i] <= '\u{7f}' by {}
}

/// The number that the digits of a text from one place on stand for.
pub open spec fn number_at(t: Seq<char>, from: int, digits: nat) -> int
    decreases digits,
{
    if digits == 0 {
        0
    } else {
        10 * number_at(t, from, (digits - 1) as nat) + (t[from + digits - 1] as int - '0' as int)
    }
}

/// The text of a point in time shows its date and its time of day: four digits for the
/// year and two each for the month, the day, the hour, the minute and the second.
pub proof fn law_timestamp_shows_date_and_time(
    secs: u64,
    y: int,
    m: int,
    d: int,
    hour: int,
    min: int,
    sec: int,
)
    requires
        secs <= MAX_TIMESTAMP_SECS,
        is_date(y, m, d),
        0 <= hour < 24,
        0 <= min < 60,
        0 <= sec < 60,
        secs == day_number(y, m, d) * 86400 + hour * 3600 + min * 60 + sec,
    ensures
        ({
            let t = timestamp_text(secs);
            &&& t.len() == 20
            &&& number_at(t, 0, 4) == y
            &&& number_at(t, 5, 2) == m
            &&& number_at(t, 8, 2) == d
            &&& number_at(t, 11, 2) == hour
            &&& number_at(t, 14, 2) == min
            &&& number_at(t, 17, 2) == sec
            &&& t[4] == '-' && t[7] == '-' && t[10] == 'T' && t[13] == ':' && t[16] == ':' && t[19]
                == 'Z'
        }),
{
    let days = secs as int / 86400;
    let rest = secs as int % 86400;
    lemma_time_of_day(secs as int, day_number(y, m, d), hour, min, sec);
    lemma_every_day_has_a_date(days);
    let (cy, cm, cd) = date_of(days);
    assert(dated(days, (y, m, d)));
    law_dates_are_unique(cy, cm, cd, y, m, d);
    lemma_shown_years(days, y, m, d);
    let t = timestamp_text(secs);
    lemma_text_places(y as nat, m as nat, d as nat, hour as nat, min as nat, sec as nat, t);
    lemma_four_digit_number(t, 0, y as nat);
    lemma_two_digit_number(t, 5, m as nat);
    lemma_two_digit_number(t, 8, d as nat);
    lemma_two_digit_number(t, 11, hour as nat);
    lemma_two_digit_number(t, 14, min as nat);
    lemma_two_digit_number(t, 17, sec as nat);
}

/// The parts of a point in time.
proof fn lemma_time_of_day(secs: int, days: int, hour: int, min: int, sec: int)
    requires
        0 <= hour < 24,
        0 <= min < 60,
        0 <= sec < 60,
        secs == days * 86400 + hour * 3600 + min * 60 + sec,
    ensures
        secs / 86400 == days,
        secs % 86400 == hour * 3600 + min * 60 + sec,
        secs % 86400 / 3600 == hour,
        secs % 86400 % 3600 / 60 == min,
        secs % 86400 % 60 == sec,
{
    let n = hour * 3600 + min * 60 + sec;
    assert(0 <= n < 86400);
    assert(secs / 86400 == days && secs % 86400 == n);
    assert(n / 3600 == hour && n % 3600 == min * 60 + sec);
    assert((min * 60 + sec) / 60 == min);
    assert(n == (hour * 60 + min) * 60 + sec);
    assert(n % 60 == sec);
}

/// Two digits are read as the number that they were written from.
proof fn lemma_two_digit_number(t: Seq<char>, from: int, n: nat)
    requires
        n < 100,
        t[from] == digit(n / 10),
        t[from + 1] == digit(n % 10),
    ensures
        number_at(t, from, 2) == n,
{
    reveal_with_fuel(number_at, 3);
    assert(n == 10 * (n / 10) + n % 10);
}

/// Four digits are read as the number that they were written from.
proof fn lemma_four_digit_number(t: Seq<char>, from: int, n: nat)
    requires
        n < 10000,
        t[from] == digit(n / 1000),
        t[from + 1] == digit(n / 100 % 10),
        t[from + 2] == digit(n / 10 % 10),
        t[from + 3] == digit(n % 10),
    ensures
        number_at(t, from, 4) == n,
{
    reveal_with_fuel(number_at, 5);
    let (a, b, c) = (n / 1000, n / 100, n / 10);
    assert(n == 10 * c + n % 10);
    assert(c == 10 * b + c % 10);
    assert(b == 10 * a + b % 10);
}

/// Times can be shown up to the end of the year 9999.
pub proof fn law_last_shown_second()
    ensures
        MAX_TIMESTAMP_SECS + 1 == day_number(10000, 1, 1) * 86400,
{
    reveal_with_fuel(days_before_month, 2);
}

/// Only texts of the form `YYYY-MM-DDThh:mm:ssZ` with a month, a day and a time of day that
/// can be are read; any other text, and none, gives zero.
pub proof fn law_unreadable_times_are_zero(b: Seq<u8>)
    ensures
        parsed_timestamp(None) == 0,
        b.len() != 20 ==> parsed_timestamp(Some(b)) == 0,
        b.len() == 20 && (b[4] != '-' as u8 || b[7] != '-' as u8 || b[10] != 'T' as u8 || b[13]
            != ':' as u8 || b[16] != ':' as u8 || b[19] != 'Z' as u8) ==> parsed_timestamp(Some(b))
            == 0,
        b.len() == 20 && digits_or_zero(b.subrange(0, 4)) < 1970 ==> parsed_timestamp(Some(b))
            == 0,
        b.len() == 20 && !(1 <= digits_or_zero(b.subrange(5, 7)) <= 12) ==> parsed_timestamp(
            Some(b),
        ) == 0,
        b.len() == 20 && !(1 <= digits_or_zero(b.subrange(8, 10)) <= 31) ==> parsed_timestamp(
            Some(b),
        ) == 0,
        b.len() == 20 && digits_or_zero(b.subrange(11, 13)) >= 24 ==> parsed_timestamp(Some(b))
            == 0,
        b.len() == 20 && digits_or_zero(b.subrange(14, 16)) >= 60 ==> parsed_timestamp(Some(b))
            == 0,
        b.len() == 20 && digits_or_zero(b.subrange(17, 19)) >= 60 ==> parsed_timestamp(Some(b))
            == 0,
{
}

/// A string of digits has its decimal value, and any other string counts as zero.
pub proof fn law_other_strings_count_as_zero(s: Seq<u8>)
    ensures
        digits_value(s, 10) is None ==> digits_or_zero(s) == 0,
        digits_value(s, 10) matches Some(v) ==> digits_or_zero(s) == v,
{
}

/// A text in the right form with a date from 1970 on stands for the seconds from the
/// beginning of 1970: 86400 for each day before it, 3600 for each hour, 60 for each minute
/// and the rest.
pub proof fn law_readable_times_are_counted(b: Seq<u8>)
    requires
        b.len() == 20,
        b[4] == '-' as u8 && b[7] == '-' as u8 && b[10] == 'T' as u8 && b[13] == ':' as u8 && b[16]
            == ':' as u8 && b[19] == 'Z' as u8,
        forall|i: int|
            0 <= i < 19 && i != 4 && i != 7 && i != 10 && i != 13 && i != 16 ==> '0' as u8 <= (
            #[trigger] b[i]) <= '9' as u8,
        digits_value(b.subrange(0, 4), 10)->0 >= 1970,
        1 <= digits_value(b.subrange(5, 7), 10)->0 <= 12,
        1 <= digits_value(b.subrange(8, 10), 10)->0 <= 31,
        digits_value(b.subrange(11, 13), 10)->0 < 24,
        digits_value(b.subrange(14, 16), 10)->0 < 60,
        digits_value(b.subrange(17, 19), 10)->0 < 60,
    ensures
        parsed_timestamp(Some(b)) == day_number(
            digits_value(b.subrange(0, 4), 10)->0 as int,
            digits_value(b.subrange(5, 7), 10)->0 as int,
            digits_value(b.subrange(8, 10), 10)->0 as int,
        ) * 86400 + digits_value(b.subrange(11, 13), 10)->0 * 3600 + digits_value(
            b.subrange(14, 16),
            10,
        )->0 * 60 + digits_value(b.subrange(17, 19), 10)->0,
{
    assert(iso_shaped(b)) by {
        assert forall|i: int| #[trigger] digit_place(i) implies 48 <= b[i] <= 57 by {
            assert('0' as u8 <= b[i] <= '9' as u8);
        }
    }
    lemma_all_digits_have_a_value(b.subrange(0, 4));
    lemma_all_digits_have_a_value(b.subrange(5, 7));
    lemma_all_digits_have_a_value(b.subrange(8, 10));
    lemma_all_digits_have_a_value(b.subrange(11, 13));
    lemma_all_digits_have_a_value(b.subrange(14, 16));
    lemma_all_digits_have_a_value(b.subrange(17, 19));
    let y = digits_or_zero(b.subrange(0, 4)) as int;
    let m = digits_or_zero(b.subrange(5, 7)) as int;
    let d = digits_or_zero(b.subrange(8, 10)) as int;
    lemma_day_number_nonnegative(y, m, d);
}

/// From 1970 on the days are counted upwards from zero.
proof fn lemma_day_number_nonnegative(y: int, m: int, d: int)
    requires
        y >= 1970,
        1 <= d,
    ensures
        day_number(y, m, d) >= 0,
{
    let n = y - 1;
    assert(n / 4 >= 492);
    assert(n / 400 >= 4);
    assert(n / 100 <= 19 + (y - 1970));
    lemma_days_before_month_nonnegative(y, m);
}

/// No days of a year are before its beginning.
proof fn lemma_days_before_month_nonnegative(y: int, m: int)
    ensures
        days_before_month(y, m) >= 0,
    decreases m,
{
    if m > 1 {
        lemma_days_before_month_nonnegative(y, m - 1);
    }
}

/// A string of digits has a value.
proof fn lemma_all_digits_have_a_value(s: Seq<u8>)
    requires
        forall|i: int| 0 <= i < s.len() ==> 48 <= (#[trigger] s[i]) <= 57,
    ensures
        digits_value(s, 10) is Some,
    decreases s.len(),
{
    if s.len() > 0 {
        let t = s.drop_last();
        assert forall|i: int| 0 <= i < t.len() implies 48 <= (#[trigger] t[i]) <= 57 by {
            assert(t[i] == s[i]);
        }
        lemma_all_digits_have_a_value(t);
        assert(48 <= s[s.len() - 1] <= 57);
    }
}

/// A text with anything but a digit where a digit belongs gives zero.
pub proof fn law_times_have_digits(b: Seq<u8>, i: int)
    requires
        b.len() == 20,
        0 <= i < 19,
        i != 4 && i != 7 && i != 10 && i != 13 && i != 16,
        !('0' as u8 <= b[i] <= '9' as u8),
    ensures
        parsed_timestamp(Some(b)) == 0,
{
    assert(digit_place(i));
}

} // verus!

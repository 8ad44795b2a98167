//! Fresh identifiers, random numbers and the local clock, from `uuid`, `rand` and `chrono`.

use crate::numeric::{digit_value, digits_value};
use rand::Rng;
use vstd::prelude::*;

verus! {

/// A lower-case hexadecimal digit.
pub open spec fn is_hex_lower(c: char) -> bool {
    ('0' <= c && c <= '9') || ('a' <= c && c <= 'f')
}

/// The hyphenated lower-case text of a UUID: 36 characters, hyphens at positions
/// 8, 13, 18 and 23, lower-case hexadecimal digits elsewhere.
pub open spec fn hyphenated_uuid_text(s: Seq<char>) -> bool {
    &&& s.len() == 36
    &&& forall|i: int|
        0 <= i < 36 ==> if i == 8 || i == 13 || i == 18 || i == 23 {
            #[trigger] s[i] == '-'
        } else {
            is_hex_lower(s[i])
        }
}

/// The text of a random (version 4) UUID: hyphenated, with the version digit `4` at
/// position 14 and one of the variant digits `8`, `9`, `a`, `b` at position 19.
pub open spec fn is_uuid_text(s: Seq<char>) -> bool {
    &&& hyphenated_uuid_text(s)
    &&& s[14] == '4'
    &&& (s[19] == '8' || s[19] == '9' || s[19] == 'a' || s[19] == 'b')
}

/// The lower-case hexadecimal digit of a value below sixteen.
pub open spec fn hex_digit(n: u8) -> char {
    seq!['0', '1', '2', '3', '4', '5', '6', '7', '8', '9', 'a', 'b', 'c', 'd', 'e', 'f'][n as int]
}

/// The `k`-th hexadecimal digit (of 32) of sixteen bytes: the high half of a byte first.
pub open spec fn uuid_nibble(b: Seq<u8>, k: int) -> u8 {
    if k % 2 == 0 {
        b[k / 2] >> 4
    } else {
        b[k / 2] & 0x0f
    }
}

/// Where the `k`-th hexadecimal digit stands in the hyphenated text: after the hyphens
/// that close the groups of 8, 4, 4 and 4 digits before it.
pub open spec fn uuid_digit_position(k: int) -> int {
    k + (if k >= 8 {
        1int
    } else {
        0
    }) + (if k >= 12 {
        1int
    } else {
        0
    }) + (if k >= 16 {
        1int
    } else {
        0
    }) + (if k >= 20 {
        1int
    } else {
        0
    })
}

#[verifier::external_type_specification]
#[verifier::external_body]
pub struct ExUuid(uuid::Uuid);

/// `uuid::Uuid::new_v4`, handed out as its bytes (`into_bytes`).  The bytes are random,
/// but `new_v4` (`v4.rs`) masks the version and variant bits and sets them: the high
/// half of byte 6 is 4, and the two high bits of byte 8 are `10`.
#[verifier::external_body]
pub(crate) fn new_v4_bytes() -> (r: [u8; 16])
    ensures
        r@[6] >> 4 == 4,
        r@[8] >> 6 == 2,
{
    uuid::Uuid::new_v4().into_bytes()
}

/// `Uuid::to_string` of the UUID with these bytes (`from_bytes`): the crate's `Display`
/// goes through `LowerHex`, which prints `as_hyphenated` by `format_hyphenated`
/// (`fmt.rs`): the 32 lower-case hexadecimal digits of the bytes, high half of each byte
/// first, in groups of 8, 4, 4, 4 and 12 joined by `-`.
#[verifier::external_body]
pub(crate) fn uuid_text(bytes: [u8; 16]) -> (r: String)
    ensures
        hyphenated_uuid_text(r@),
        forall|k: int|
            0 <= k < 32 ==> r@[uuid_digit_position(k)] == hex_digit(#[trigger] uuid_nibble(bytes@, k)),
{
    uuid::Uuid::from_bytes(bytes).to_string()
}

/// A fresh random (version 4) identifier as hyphenated lower-case text.
pub(crate) fn new_uuid_text() -> (r: String)
    ensures
        is_uuid_text(r@),
{
    let bytes = new_v4_bytes();
    let r = uuid_text(bytes);
    proof {
        let b6 = bytes@[6];
        let b8 = bytes@[8];
        assert(uuid_nibble(bytes@, 12) == b6 >> 4);
        assert(uuid_nibble(bytes@, 16) == b8 >> 4);
        assert(uuid_digit_position(12) == 14);
        assert(uuid_digit_position(16) == 19);
        assert(b8 >> 6 == 2 ==> 8 <= (b8 >> 4) <= 11) by (bit_vector);
        let h = b8 >> 4;
        assert(r@[19] == hex_digit(h));
        assert(r@[14] == hex_digit(4));
    }
    r
}

#[verifier::external_type_specification]
#[verifier::external_body]
pub struct ExThreadRng(rand::rngs::ThreadRng);

/// `rand::thread_rng`: the lazily seeded generator of this thread.
#[verifier::external_body]
pub(crate) fn thread_rng() -> rand::rngs::ThreadRng {
    rand::thread_rng()
}

/// `Rng::gen_range(lo..=hi)`, which panics on an empty range: the value lies in the
/// range; which one comes out is chance.
#[verifier::external_body]
pub(crate) fn gen_range_inclusive(rng: &mut rand::rngs::ThreadRng, lo: i64, hi: i64) -> (r: i64)
    requires
        lo <= hi,
    ensures
        lo <= r <= hi,
{
    rng.gen_range(lo..=hi)
}

/// The pattern of a date: day, month and year, separated by dots.
pub open spec fn date_pattern() -> Seq<char> {
    "%d.%m.%Y"@
}

/// The pattern of a time of day: hours, minutes and seconds, separated by colons.
pub open spec fn time_pattern() -> Seq<char> {
    "%H:%M:%S"@
}

/// The pattern of a date and a time, separated by a space.
pub open spec fn datetime_pattern() -> Seq<char> {
    "%d.%m.%Y %H:%M:%S"@
}

/// The `chrono` format patterns that this library prints the local time with.
pub open spec fn known_time_pattern(p: Seq<char>) -> bool {
    p == date_pattern() || p == time_pattern() || p == datetime_pattern()
}

/// A decimal digit.
pub open spec fn is_digit_char(c: char) -> bool {
    '0' <= c && c <= '9'
}

/// A year as chrono's `%Y` prints it: four digits for the years 0 to 9999, else a sign
/// and at least four digits.
pub open spec fn year_text(y: Seq<char>) -> bool {
    ||| (y.len() == 4 && forall|i: int| 0 <= i < 4 ==> is_digit_char(#[trigger] y[i]))
    ||| (y.len() >= 5 && (y[0] == '+' || y[0] == '-') && forall|i: int|
        1 <= i < y.len() ==> is_digit_char(#[trigger] y[i]))
}

/// A date as `%d.%m.%Y` prints it: two digits of the day, a dot, two digits of the month,
/// a dot, and the year.
pub open spec fn date_text(s: Seq<char>) -> bool {
    &&& s.len() >= 10
    &&& is_digit_char(s[0]) && is_digit_char(s[1]) && s[2] == '.'
    &&& is_digit_char(s[3]) && is_digit_char(s[4]) && s[5] == '.'
    &&& year_text(s.skip(6))
}

/// A time of day as `%H:%M:%S` prints it: eight characters, two digits each of the hour,
/// the minute and the second, separated by colons.
pub open spec fn time_text(s: Seq<char>) -> bool {
    &&& s.len() == 8
    &&& s[2] == ':' && s[5] == ':'
    &&& forall|i: int| 0 <= i < 8 && i != 2 && i != 5 ==> is_digit_char(#[trigger] s[i])
}

/// What chrono prints for a known pattern: a date, a time, or a date, a space and a time.
pub open spec fn printed_as(p: Seq<char>, s: Seq<char>) -> bool {
    if p == date_pattern() {
        date_text(s)
    } else if p == time_pattern() {
        time_text(s)
    } else {
        exists|d: Seq<char>, t: Seq<char>|
            #![trigger date_text(d), time_text(t)]
            date_text(d) && time_text(t) && s == d + seq![' '] + t
    }
}

/// `chrono::Local::now`, printed with `DateTime::format` for each of three patterns.
/// Which date and time come out is the clock's and the machine's time zone's, so it is
/// not named; their form is stated: `%d`, `%m`, `%H`, `%M` and `%S` print two
/// zero-padded digits and `%Y` four digits, or a sign and more digits outside the years
/// 0 to 9999 (`format/formatting.rs`, `write_two`, `write_year`, `write_n`).  The three
/// texts come from one reading of the clock, so the date-and-time text is the date text,
/// a space and the time text.  The clock is read once and all three texts are printed
/// from that reading, so the reading and the printing stand in one item.
#[verifier::external_body]
pub(crate) fn local_now_formatted(a: &str, b: &str, c: &str) -> (r: (String, String, String))
    requires
        known_time_pattern(a@),
        known_time_pattern(b@),
        known_time_pattern(c@),
    ensures
        printed_as(a@, r.0@),
        printed_as(b@, r.1@),
        printed_as(c@, r.2@),
        a@ == date_pattern() && b@ == time_pattern() && c@ == datetime_pattern() ==> r.2@ == r.0@
            + seq![' '] + r.1@,
{
    let now = chrono::Local::now();
    (now.format(a).to_string(), now.format(b).to_string(), now.format(c).to_string())
}

/// The text at position `k` of `s` is a two-digit field.
pub open spec fn two_digits_at(s: Seq<char>, k: int) -> bool {
    is_digit_char(s[k]) && is_digit_char(s[k + 1])
}

/// `s` is an RFC 3339 time as chrono's `to_rfc3339` prints it, with a year field of `k`
/// characters and a fraction of `f` characters: the year, `-`, month, `-`, day, `T`,
/// hours, `:`, minutes, `:`, seconds (two digits each), a fraction of the second (none,
/// or a dot and 3, 6 or 9 digits), and the offset from UTC as a sign, two digits of
/// hours, `:` and two digits of minutes.
pub open spec fn rfc3339_parts(s: Seq<char>, k: int, f: int) -> bool {
    &&& 4 <= k
    &&& (f == 0 || f == 4 || f == 7 || f == 10)
    &&& s.len() == k + 15 + f + 6
    &&& year_text(s.take(k))
    &&& s[k] == '-' && two_digits_at(s, k + 1) && s[k + 3] == '-' && two_digits_at(s, k + 4)
    &&& s[k + 6] == 'T' && two_digits_at(s, k + 7) && s[k + 9] == ':' && two_digits_at(s, k + 10)
    &&& s[k + 12] == ':' && two_digits_at(s, k + 13)
    &&& (f > 0 ==> s[k + 15] == '.' && forall|j: int|
        k + 16 <= j < k + 15 + f ==> is_digit_char(#[trigger] s[j]))
    &&& (s[k + 15 + f] == '+' || s[k + 15 + f] == '-') && two_digits_at(s, k + 16 + f)
    &&& s[k + 18 + f] == ':' && two_digits_at(s, k + 19 + f)
}

/// An RFC 3339 time as chrono's `to_rfc3339` prints it (see `rfc3339_parts`).
pub open spec fn rfc3339_text(s: Seq<char>) -> bool {
    exists|k: int, f: int| #[trigger] rfc3339_parts(s, k, f)
}

/// `chrono::Local::now`, printed with `DateTime::to_rfc3339`: which time comes out is
/// the clock's, so it is not named; its form is stated, as `write_rfc3339`
/// (`format/formatting.rs`) prints it with `SecondsFormat::AutoSi` and an offset of hours
/// and minutes (see `rfc3339_parts`).  The clock is read and printed in one item, as in
/// `local_now_formatted`.
#[verifier::external_body]
pub(crate) fn now_rfc3339() -> (r: String)
    ensures
        rfc3339_text(r@),
{
    chrono::Local::now().to_rfc3339()
}

/// The last millisecond of the year 9999 (UTC), in ms since the Unix epoch.
pub const LAST_MILLIS_OF_9999: i64 = 253_402_300_799_999;

/// The days from 1970-01-01 to the given day of the proleptic Gregorian calendar (a
/// negative count before it).
pub open spec fn days_from_civil(y: int, m: int, d: int) -> int {
    let yy = if m <= 2 {
        y - 1
    } else {
        y
    };
    let era = yy / 400;
    let yoe = yy - era * 400;
    let mp = if m > 2 {
        m - 3
    } else {
        m + 9
    };
    let doy = (153 * mp + 2) / 5 + d - 1;
    let doe = yoe * 365 + yoe / 4 - yoe / 100 + doy;
    era * 146097 + doe - 719468
}

/// The number a two-digit field at position `k` writes.
pub open spec fn two_digit_value(s: Seq<char>, k: int) -> int {
    digit_value(s[k]) * 10 + digit_value(s[k + 1])
}

/// The number a year field writes: a leading sign applies to the digits after it.
pub open spec fn year_value(y: Seq<char>) -> int {
    if y.len() > 0 && y[0] == '-' {
        -digits_value(y.skip(1))
    } else if y.len() > 0 && y[0] == '+' {
        digits_value(y.skip(1))
    } else {
        digits_value(y)
    }
}

/// The time that an RFC 3339 text with a year field of `k` characters and a fraction of
/// `f` characters denotes, in whole milliseconds since the Unix epoch: its date and time
/// of day, less its offset from UTC, with the fraction cut to milliseconds.
pub open spec fn rfc3339_instant_at(s: Seq<char>, k: int, f: int) -> int {
    let days = days_from_civil(year_value(s.take(k)), two_digit_value(s, k + 1), two_digit_value(s, k + 4));
    let secs = days * 86400 + two_digit_value(s, k + 7) * 3600 + two_digit_value(s, k + 10) * 60
        + two_digit_value(s, k + 13);
    let offset = two_digit_value(s, k + 16 + f) * 3600 + two_digit_value(s, k + 19 + f) * 60;
    let utc = if s[k + 15 + f] == '-' {
        secs + offset
    } else {
        secs - offset
    };
    let frac = if f == 0 {
        0
    } else {
        digits_value(s.subrange(k + 16, k + 19))
    };
    utc * 1000 + frac
}

/// `s` is RFC 3339 text that denotes the time `millis` (ms since the Unix epoch) to
/// within half a minute: the printed offset from UTC is whole minutes, and chrono rounds
/// an offset that has seconds to the nearest minute, which moves the denoted time by at
/// most 30 seconds.
pub open spec fn rfc3339_near(s: Seq<char>, millis: int) -> bool {
    exists|k: int, f: int|
        #[trigger] rfc3339_parts(s, k, f) && -30_000 <= rfc3339_instant_at(s, k, f) - millis
            <= 30_000
}

/// `chrono::DateTime::<Utc>::from_timestamp_millis`, moved to the machine's time zone with
/// `with_timezone` and printed with `to_rfc3339`; `None` where chrono's range ends.
/// - Where the result is `Some`: `from_timestamp_millis` splits the time into days and
///   seconds of the day and calls `from_timestamp` (`datetime/mod.rs`), which fails only
///   when the day lies outside `i32` or outside `NaiveDate`'s range (about 262,000 years
///   either side of the common era); every time from the epoch to the end of the year
///   9999 lies well inside it.
/// - The text has the form of `now_rfc3339`, and denotes the time given: `with_timezone`
///   keeps the instant (`datetime/mod.rs`), `to_rfc3339` prints the local date and time
///   (the UTC time plus the zone's offset) with that offset rounded to whole minutes
///   (`OffsetFormat::format`, `format/formatting.rs`), so the text denotes the time to
///   within half a minute, and exactly where the offset has no seconds.  Which offset,
///   and so which text, is the machine's time zone's and is not named.
/// The conversion and the printing stand in one item, as in `local_now_formatted`.
#[verifier::external_body]
pub(crate) fn local_rfc3339_from_millis(millis: i64) -> (r: Option<String>)
    ensures
        0 <= millis <= LAST_MILLIS_OF_9999 ==> r is Some,
        r matches Some(t) ==> rfc3339_text(t@) && rfc3339_near(t@, millis as int),
{
    match chrono::DateTime::<chrono::Utc>::from_timestamp_millis(millis) {
        Some(dt) => Some(dt.with_timezone(&chrono::Local).to_rfc3339()),
        None => None,
    }
}

} // verus!

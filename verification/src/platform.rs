//! Calls into the standard library and outside crates whose results the
//! verified code builds on. Each item states what its callers may assume.
use rand::Rng;
use vstd::prelude::*;
use crate::text::{is_digit, is_ascii_alphanumeric};

verus! {

/// Collects a sequence of characters into a `String` (std's
/// `FromIterator<&char> for String`); the string holds exactly those
/// characters, in order.
#[verifier::external_body]
pub fn string_from_chars(chars: &Vec<char>) -> (s: String)
    ensures
        s@ == chars@,
{
    chars.iter().collect()
}

/// What std's `str::to_lowercase` gives for a string (Unicode lower-case
/// mapping, character by character, with the final-sigma rule).
pub uninterp spec fn unicode_lowercase(s: Seq<char>) -> Seq<char>;

/// std's `str::to_lowercase`. Claimed: the result is a function of the
/// argument alone, named `unicode_lowercase`; nothing more is stated of it.
#[verifier::external_body]
pub fn to_lowercase(s: &str) -> (r: String)
    ensures
        r@ == unicode_lowercase(s@),
{
    s.to_lowercase()
}

/// The lower-case hexadecimal SHA-256 digest of the UTF-8 bytes of a string,
/// as `sha256::digest` returns it.
pub uninterp spec fn sha256_hex(input: Seq<char>) -> Seq<char>;

/// Whether `c` is one of `0`..`9`, `a`..`f`.
pub open spec fn is_lower_hex(c: char) -> bool {
    ||| 48 <= c as u32 <= 57
    ||| 97 <= c as u32 <= 102
}

/// `sha256::digest` on a string. Claimed: the result is a function of the
/// input alone (`sha256_hex`), and, as the crate computes it with
/// `hex::encode` of the 32-byte digest, it is 64 characters of lower-case
/// hexadecimal.
#[verifier::external_body]
pub fn sha256_digest(input: &str) -> (h: String)
    ensures
        h@ == sha256_hex(input@),
        h@.len() == 64,
        forall|i: int| 0 <= i < h@.len() ==> is_lower_hex(#[trigger] h@[i]),
{
    sha256::digest(input)
}

/// `len` characters drawn by `rand::thread_rng()` from
/// `rand::distributions::Alphanumeric`. Claimed: exactly `len` characters,
/// each from `A`..`Z`, `a`..`z`, `0`..`9` (the distribution's character set);
/// which ones is left open, as it depends on chance.
#[verifier::external_body]
pub fn random_alphanumeric(len: usize) -> (s: String)
    ensures
        s@.len() == len,
        forall|i: int| 0 <= i < s@.len() ==> is_ascii_alphanumeric(#[trigger] s@[i]),
{
    rand::thread_rng().sample_iter(&rand::distributions::Alphanumeric).take(len).map(char::from).collect()
}

/// Whether `c` is one of the numeric `chrono` specifiers that the library
/// uses: year, day, month, hour, minute, second, nanosecond.
pub open spec fn is_numeric_field(c: char) -> bool {
    ||| c == 'Y'
    ||| c == 'd'
    ||| c == 'm'
    ||| c == 'H'
    ||| c == 'M'
    ||| c == 'S'
    ||| c == 'f'
}

/// A `strftime` pattern made only of the specifiers `%Y`, `%d`, `%m`, `%H`,
/// `%M`, `%S`, `%f`.
pub open spec fn is_numeric_pattern(p: Seq<char>) -> bool
    decreases p.len(),
{
    if p.len() == 0 {
        true
    } else {
        p.len() >= 2 && p[0] == '%' && is_numeric_field(p[1]) && is_numeric_pattern(p.skip(2))
    }
}

/// The number of characters a specifier writes at the least: 4 for the
/// year, 9 for the nanoseconds, 2 for the others.
pub open spec fn field_width(c: char) -> nat {
    if c == 'Y' {
        4
    } else if c == 'f' {
        9
    } else {
        2
    }
}

/// The sum of the field widths of a numeric pattern.
pub open spec fn pattern_width(p: Seq<char>) -> nat
    decreases p.len(),
{
    if p.len() < 2 {
        0
    } else {
        field_width(p[1]) + pattern_width(p.skip(2))
    }
}

/// A reading of the UTC clock as chrono gives it: whole seconds since
/// 1970-01-01T00:00:00Z, not before that instant and not after the last
/// second of chrono's last representable year (262142-12-31T23:59:59Z),
/// and the nanoseconds within the second.
pub open spec fn is_utc_reading(secs: i64, nanos: u32) -> bool {
    0 <= secs <= 8210266876799 && nanos < 1_000_000_000
}

/// The current UTC time, `chrono::Utc::now()`, as (seconds since the Unix
/// epoch, nanoseconds within the second). Which instant comes back depends
/// on the clock; what is claimed holds of every reading: `Utc::now` takes
/// the system time since the epoch (it stops on a clock set before 1970),
/// whose sub-second part is below 10^9, and only returns a time that
/// `DateTime::from_timestamp` accepts.
#[verifier::external_body]
pub fn utc_now() -> (t: (i64, u32))
    ensures
        is_utc_reading(t.0, t.1),
{
    let now = chrono::Utc::now();
    (now.timestamp(), now.timestamp_subsec_nanos())
}

/// What chrono writes for the UTC time `secs`.`nanos` (seconds since the
/// Unix epoch) with the `strftime` pattern `pattern`.
pub uninterp spec fn utc_format(secs: i64, nanos: u32, pattern: Seq<char>) -> Seq<char>;

/// `chrono::DateTime::<Utc>::from_timestamp(secs, nanos)` formatted with
/// `pattern`, written out. Claimed: the text is a function of the three
/// arguments alone (UTC, no time zone or locale), named `utc_format`; and,
/// from chrono's formatting code, each of these specifiers writes
/// zero-padded decimal digits: day, month, hour, minute and second two
/// (values below 100), nanoseconds nine (the value modulo 10^9), the year
/// four for years 0..=9999, and for any later year a `+` followed by its
/// digits. So every character is an ASCII digit or a sign, the text is at
/// least `pattern_width` long, and without a sign it is exactly that long.
/// The time must be one that `from_timestamp` accepts.
#[verifier::external_body]
pub fn format_utc(secs: i64, nanos: u32, pattern: &str) -> (s: String)
    requires
        is_utc_reading(secs, nanos),
        is_numeric_pattern(pattern@),
    ensures
        s@ == utc_format(secs, nanos, pattern@),
        s@.len() >= pattern_width(pattern@),
        (forall|i: int| 0 <= i < s@.len() ==> is_digit(#[trigger] s@[i])) ==> s@.len()
            == pattern_width(pattern@),
        forall|i: int|
            0 <= i < s@.len() ==> is_digit(#[trigger] s@[i]) || s@[i] == '+' || s@[i] == '-',
{
    chrono::DateTime::from_timestamp(secs, nanos).unwrap().format(pattern).to_string()
}

/// The stamp patterns of the library are numeric patterns: `%Y%m%d` of
/// width 8, `%Y%d%m%H%M%S` of width 14, `%Y%d%m%H%M%S%f` of width 23.
pub proof fn lemma_stamp_patterns()
    ensures
        is_numeric_pattern("%Y%m%d"@),
        pattern_width("%Y%m%d"@) == 8,
        is_numeric_pattern("%Y%d%m%H%M%S"@),
        pattern_width("%Y%d%m%H%M%S"@) == 14,
        is_numeric_pattern("%Y%d%m%H%M%S%f"@),
        pattern_width("%Y%d%m%H%M%S%f"@) == 23,
{
    reveal_strlit("%Y%m%d");
    reveal_strlit("%Y%d%m%H%M%S");
    reveal_strlit("%Y%d%m%H%M%S%f");
    reveal_with_fuel(is_numeric_pattern, 8);
    reveal_with_fuel(pattern_width, 8);
    let a = "%Y%m%d"@;
    assert(a.skip(2) =~= seq!['%', 'm', '%', 'd']);
    assert(a.skip(2).skip(2) =~= seq!['%', 'd']);
    assert(a.skip(2).skip(2).skip(2) =~= Seq::<char>::empty());
    let b = "%Y%d%m%H%M%S"@;
    assert(b.skip(2) =~= seq!['%', 'd', '%', 'm', '%', 'H', '%', 'M', '%', 'S']);
    assert(b.skip(2).skip(2) =~= seq!['%', 'm', '%', 'H', '%', 'M', '%', 'S']);
    assert(b.skip(2).skip(2).skip(2) =~= seq!['%', 'H', '%', 'M', '%', 'S']);
    assert(b.skip(2).skip(2).skip(2).skip(2) =~= seq!['%', 'M', '%', 'S']);
    assert(b.skip(2).skip(2).skip(2).skip(2).skip(2) =~= seq!['%', 'S']);
    assert(b.skip(2).skip(2).skip(2).skip(2).skip(2).skip(2) =~= Seq::<char>::empty());
    let c = "%Y%d%m%H%M%S%f"@;
    assert(c.skip(2) =~= seq!['%', 'd', '%', 'm', '%', 'H', '%', 'M', '%', 'S', '%', 'f']);
    assert(c.skip(2).skip(2) =~= seq!['%', 'm', '%', 'H', '%', 'M', '%', 'S', '%', 'f']);
    assert(c.skip(2).skip(2).skip(2) =~= seq!['%', 'H', '%', 'M', '%', 'S', '%', 'f']);
    assert(c.skip(2).skip(2).skip(2).skip(2) =~= seq!['%', 'M', '%', 'S', '%', 'f']);
    assert(c.skip(2).skip(2).skip(2).skip(2).skip(2) =~= seq!['%', 'S', '%', 'f']);
    assert(c.skip(2).skip(2).skip(2).skip(2).skip(2).skip(2) =~= seq!['%', 'f']);
    assert(c.skip(2).skip(2).skip(2).skip(2).skip(2).skip(2).skip(2) =~= Seq::<char>::empty());
}

/// Whether `c` may stand in an HTTP header value: a tab, or any character
/// from the space on except DEL (characters beyond ASCII are encoded in
/// bytes of 128 and more, which are accepted).
pub open spec fn is_header_value_char(c: char) -> bool {
    c == '\t' || (c as u32 >= 32 && c as u32 != 127)
}

/// Whether `reqwest::header::HeaderValue::from_str` accepts `value`.
/// Claimed, from `http`'s source: it accepts exactly when every byte is a
/// tab or at least 32 and not 127, which is `is_header_value_char` for every
/// character.
#[verifier::external_body]
pub fn header_value_accepts(value: &str) -> (ok: bool)
    ensures
        ok == (forall|i: int| 0 <= i < value@.len() ==> is_header_value_char(#[trigger] value@[i])),
{
    reqwest::header::HeaderValue::from_str(value).is_ok()
}

} // verus!

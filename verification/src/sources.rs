//! What the library takes from elsewhere: random draws, identifiers and the
//! clock. Nothing here is proved; each contract says what the function it
//! calls is documented to return.
use rand::distributions::Alphanumeric;
use rand::seq::SliceRandom;
use rand::Rng;
use vstd::prelude::*;

verus! {

/// A letter of the English alphabet or a decimal digit.
pub open spec fn is_alphanumeric(c: char) -> bool {
    ('a' <= c && c <= 'z') || ('A' <= c && c <= 'Z') || ('0' <= c && c <= '9')
}

/// A decimal digit or one of the letters `a` to `f`.
pub open spec fn is_lower_hex(c: char) -> bool {
    ('0' <= c && c <= '9') || ('a' <= c && c <= 'f')
}

/// The hyphenated lower-case form of a random (version 4) identifier:
/// groups of 8, 4, 4, 4 and 12 hexadecimal digits, the third group starting
/// with `4` and the fourth with `8`, `9`, `a` or `b`.
pub open spec fn is_uuid_text(s: Seq<char>) -> bool {
    &&& s.len() == 36
    &&& forall|i: int|
        0 <= i < 36 ==> if i == 8 || i == 13 || i == 18 || i == 23 {
            #[trigger] s[i] == '-'
        } else {
            is_lower_hex(s[i])
        }
    &&& s[14] == '4'
    &&& (s[19] == '8' || s[19] == '9' || s[19] == 'a' || s[19] == 'b')
}

/// A point in time: the seconds since the beginning of 1970 in Coordinated
/// Universal Time, leap seconds not counted, and the nanoseconds since the
/// last whole second.
#[derive(Clone, Copy, Debug, PartialEq, Eq, Structural)]
pub struct Instant {
    pub secs: i64,
    pub nanos: u32,
}

/// Whether the clock's library knows a point in time by these seconds and
/// nanoseconds: the date must lie within its range of years, and the
/// nanoseconds must be less than a second but for a leap second.
pub uninterp spec fn is_instant(secs: int, nanos: int) -> bool;

/// The text of a point in time, in Coordinated Universal Time, in a format
/// of the `strftime` family; nothing where the clock's library knows no such
/// point, or cannot print it in the format: where the format holds a
/// directive that is unknown, or one that is for reading only.
pub uninterp spec fn instant_text(secs: int, nanos: int, format: Seq<char>) -> Option<Seq<char>>;

/// Whether the beginning of 1970 can be printed in a format.
pub open spec fn format_prints(format: Seq<char>) -> bool {
    instant_text(0, 0, format) is Some
}

/// The text of a point in time in the clock's own form: date, time of day
/// and `UTC`.
pub uninterp spec fn instant_plain_text(secs: int, nanos: int) -> Seq<char>;

/// `Rng::gen_range` on the thread's generator: a number drawn from
/// `low..high`, the upper bound left out. The call panics on an empty range.
#[verifier::external_body]
pub(crate) fn random_i32(low: i32, high: i32) -> (r: i32)
    requires
        low < high,
    ensures
        low <= r < high,
{
    rand::thread_rng().gen_range(low, high)
}

/// `Rng::gen_ratio` on the thread's generator: `true` with a chance of
/// `numerator` in `denominator`; certainly `true` where the two are equal and
/// certainly `false` where `numerator` is zero. The call panics where
/// `denominator` is zero or less than `numerator`.
#[verifier::external_body]
pub(crate) fn random_ratio(numerator: u32, denominator: u32) -> (r: bool)
    requires
        0 < denominator,
        numerator <= denominator,
    ensures
        numerator == denominator ==> r,
        numerator == 0 ==> !r,
{
    rand::thread_rng().gen_ratio(numerator, denominator)
}

/// `Rng::sample_iter` with the `Alphanumeric` distribution on the thread's
/// generator, cut off after `len` draws: `len` letters and digits.
#[verifier::external_body]
pub(crate) fn random_alphanumeric(len: usize) -> (s: String)
    ensures
        s@.len() == len,
        forall|i: int| 0 <= i < s@.len() ==> is_alphanumeric(#[trigger] s@[i]),
{
    rand::thread_rng().sample_iter(&Alphanumeric).take(len).collect()
}

/// `SliceRandom::choose` with the thread's generator: one of the items, or
/// nothing where there is none.
#[verifier::external_body]
pub(crate) fn pick_one<T>(values: &Vec<T>) -> (r: Option<&T>)
    ensures
        r is None <==> values@.len() == 0,
        r is Some ==> exists|i: int| 0 <= i < values@.len() && values@[i] == *r->0,
{
    values.choose(&mut rand::thread_rng())
}

/// `Uuid::new_v4`, printed: a fresh random identifier in its hyphenated
/// lower-case form.
#[verifier::external_body]
pub(crate) fn new_uuid_text() -> (s: String)
    ensures
        is_uuid_text(s@),
{
    uuid::Uuid::new_v4().to_string()
}

/// `Utc::now`: the time of the call. The clock makes it from its seconds
/// and nanoseconds as `DateTime::from_timestamp` does, so that they are a
/// point in time that the clock's library knows.
#[verifier::external_body]
pub(crate) fn utc_now() -> (r: Instant)
    ensures
        is_instant(r.secs as int, r.nanos as int),
{
    let now = chrono::Utc::now();
    Instant { secs: now.timestamp(), nanos: now.timestamp_subsec_nanos() }
}

/// `DateTime::from_timestamp`, written by `DelayedFormat::write_to`: the
/// text of a point in time in a format. There is none where the clock's
/// library knows no such point, and none where writing fails, as it does on
/// a directive that is unknown or for reading only.
#[verifier::external_body]
pub(crate) fn format_instant(at: Instant, format: &str) -> (r: Option<String>)
    ensures
        r is Some <==> instant_text(at.secs as int, at.nanos as int, format@) is Some,
        r is Some ==> r->0@ == instant_text(at.secs as int, at.nanos as int, format@)->0,
        r is Some ==> is_instant(at.secs as int, at.nanos as int),
{
    let mut text = String::new();
    match chrono::DateTime::from_timestamp(at.secs, at.nanos) {
        Some(t) => match t.format(format).write_to(&mut text) {
            Ok(()) => Some(text),
            Err(_) => None,
        },
        None => None,
    }
}

/// `DateTime::from_timestamp`, printed by its `Display`: the text of a point
/// in time in the clock's own form, or nothing where the clock's library
/// knows no such point.
#[verifier::external_body]
pub(crate) fn print_instant(at: Instant) -> (r: Option<String>)
    ensures
        r is Some <==> is_instant(at.secs as int, at.nanos as int),
        r is Some ==> r->0@ == instant_plain_text(at.secs as int, at.nanos as int),
{
    match chrono::DateTime::from_timestamp(at.secs, at.nanos) {
        Some(t) => Some(t.to_string()),
        None => None,
    }
}

} // verus!

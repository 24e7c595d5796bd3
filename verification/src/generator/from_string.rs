//! Reading one entry of a list of values from its text.
use crate::error::{GenError, GenErrorKind, GenErrorType};
use crate::text::{chars_of, starts_with};
use vstd::prelude::*;

verus! {

/// The error with which the standard library's integer parsers fail.
#[verifier::external_type_specification]
#[verifier::external_body]
pub struct ExParseIntError(std::num::ParseIntError);

/// A decimal digit.
pub open spec fn is_digit(c: char) -> bool {
    '0' <= c && c <= '9'
}

/// Whether a text holds decimal digits only.
pub open spec fn all_digits(s: Seq<char>) -> bool {
    forall|i: int| 0 <= i < s.len() ==> is_digit(#[trigger] s[i])
}

/// The number that a run of decimal digits denotes.
pub open spec fn digits_value(s: Seq<char>) -> nat
    decreases s.len(),
{
    if s.len() == 0 {
        0
    } else {
        (digits_value(s.drop_last()) * 10 + (s.last() as int - '0' as int)) as nat
    }
}

/// The number that a text denotes where it is a whole number in decimal
/// notation: digits, at least one, after at most one sign.
pub open spec fn decimal(s: Seq<char>) -> Option<int> {
    if s.len() > 0 && (s[0] == '-' || s[0] == '+') {
        let digits = s.skip(1);
        if digits.len() > 0 && all_digits(digits) {
            Some(if s[0] == '-' { -(digits_value(digits) as int) } else { digits_value(digits) as int })
        } else {
            None
        }
    } else if s.len() > 0 && all_digits(s) {
        Some(digits_value(s) as int)
    } else {
        None
    }
}

/// The same for a number without a minus sign.
pub open spec fn natural(s: Seq<char>) -> Option<int> {
    if s.len() > 0 && s[0] == '-' {
        None
    } else {
        decimal(s)
    }
}

/// Whether a number was read and lies between `low` and `high`.
pub open spec fn within(n: Option<int>, low: int, high: int) -> bool {
    n is Some && low <= n->0 <= high
}

/// A text with every space taken out.
pub open spec fn without_spaces(s: Seq<char>) -> Seq<char>
    decreases s.len(),
{
    if s.len() == 0 {
        Seq::empty()
    } else if s.last() == ' ' {
        without_spaces(s.drop_last())
    } else {
        without_spaces(s.drop_last()).push(s.last())
    }
}

/// The text that is read as an entry: as it stands, or without its spaces.
pub open spec fn entry_text(v: Seq<char>, trim_spaces: bool) -> Seq<char> {
    if trim_spaces {
        without_spaces(v)
    } else {
        v
    }
}

/// `str::parse` for `i64`: succeeds on a whole number in decimal notation
/// that fits the type, and returns it.
#[verifier::external_body]
pub(crate) fn parse_i64(v: &str) -> (r: Result<i64, std::num::ParseIntError>)
    ensures
        r is Ok <==> within(decimal(v@), i64::MIN as int, i64::MAX as int),
        r is Ok ==> r->Ok_0 == decimal(v@)->0,
{
    v.parse::<i64>()
}

/// `str::parse` for `i32`: succeeds on a whole number in decimal notation
/// that fits the type, and returns it.
#[verifier::external_body]
pub(crate) fn parse_i32(v: &str) -> (r: Result<i32, std::num::ParseIntError>)
    ensures
        r is Ok <==> within(decimal(v@), i32::MIN as int, i32::MAX as int),
        r is Ok ==> r->Ok_0 == decimal(v@)->0,
{
    v.parse::<i32>()
}

/// `str::parse` for `usize`: succeeds on a whole number in decimal notation
/// without a minus sign that fits the type, and returns it.
#[verifier::external_body]
pub(crate) fn parse_usize(v: &str) -> (r: Result<usize, std::num::ParseIntError>)
    ensures
        r is Ok <==> within(natural(v@), 0, usize::MAX as int),
        r is Ok ==> r->Ok_0 == natural(v@)->0,
{
    v.parse::<usize>()
}

/// `ParseIntError`'s `to_string`: the failure in words.
#[verifier::external_body]
pub(crate) fn int_error_text(e: &std::num::ParseIntError) -> (s: String) {
    e.to_string()
}

/// A text with every space taken out.
pub fn trim_spaces(v: &str) -> (r: String)
    ensures
        r@ == without_spaces(v@),
{
    let chars = chars_of(v);
    let mut r = String::new();
    let mut i: usize = 0;
    while i < chars.len()
        invariant
            i <= chars.len(),
            chars@ == v@,
            r@ == without_spaces(chars@.subrange(0, i as int)),
        decreases chars.len() - i,
    {
        assert(chars@.subrange(0, i + 1).drop_last() == chars@.subrange(0, i as int));
        if chars[i] != ' ' {
            r.push(chars[i]);
        }
        i += 1;
    }
    assert(chars@.subrange(0, i as int) == chars@);
    r
}

/// The text of an entry as it is read.
pub fn entry_of(v: &str, rem_spaces: bool) -> (r: String)
    ensures
        r@ == entry_text(v@, rem_spaces),
{
    if rem_spaces {
        trim_spaces(v)
    } else {
        String::from_str(v)
    }
}

/// How the cause of an error begins that says that an entry is no number
/// of the type named.
pub open spec fn not_a_number_reason(target: Seq<char>) -> Seq<char> {
    "impossible to convert string to "@ + target + " due to "@
}

/// The error for an entry that does not read as a number of the type named:
/// its cause says so, and goes on with the failure in the parser's words.
pub(crate) fn not_a_number(target: &str, e: &std::num::ParseIntError) -> (r: GenError)
    ensures
        r.tpe == GenErrorType::Parser,
        r.kind == GenErrorKind::Construction,
        starts_with(r.reason@, not_a_number_reason(target@)),
{
    let mut what = String::from_str("impossible to convert string to ");
    what.append(target);
    what.append(" due to ");
    let cause = int_error_text(e);
    let r = GenError::of_kind(
        GenErrorKind::Construction,
        GenErrorType::Parser,
        what.as_str(),
        cause.as_str(),
    );
    assert(r.reason@.subrange(0, what@.len() as int) =~= what@);
    r
}

/// Whether `e` is the error for an entry that does not read as a value of
/// the type named: a failure of the parser, of the kind `Construction`,
/// whose cause begins with the words for that type.
pub open spec fn is_not_a_number(e: GenError, target: Seq<char>) -> bool {
    &&& e.tpe == GenErrorType::Parser
    &&& e.kind == GenErrorKind::Construction
    &&& starts_with(e.reason@, not_a_number_reason(target))
}

/// A type whose values can be read from the entries of a list.
pub trait FromStringTo: Sized {
    /// Whether `r` is what the text `v` reads as.
    spec fn is_reading(v: Seq<char>, r: &Self) -> bool;

    /// Whether the text `v` reads as a value at all.
    spec fn readable(v: Seq<char>) -> bool;

    /// The name of the type, as errors give it.
    spec fn target() -> Seq<char>;

    /// Reads a value from `v`, after taking the spaces out of it where
    /// `trim_spaces` is set.
    fn parse(v: &str, trim_spaces: bool) -> (r: Result<Self, GenError>)
        ensures
            r is Ok <==> Self::readable(entry_text(v@, trim_spaces)),
            r is Ok ==> Self::is_reading(entry_text(v@, trim_spaces), &r->Ok_0),
            r is Err ==> is_not_a_number(r->Err_0, Self::target()),
    ;
}

impl FromStringTo for String {
    open spec fn target() -> Seq<char> {
        "String"@
    }

    open spec fn is_reading(v: Seq<char>, r: &Self) -> bool {
        r@ == v
    }

    open spec fn readable(v: Seq<char>) -> bool {
        true
    }

    fn parse(v: &str, rem_spaces: bool) -> (r: Result<Self, GenError>) {
        Ok(entry_of(v, rem_spaces))
    }
}

impl FromStringTo for i64 {
    open spec fn target() -> Seq<char> {
        "i64"@
    }

    open spec fn is_reading(v: Seq<char>, r: &Self) -> bool {
        decimal(v) == Some(*r as int)
    }

    open spec fn readable(v: Seq<char>) -> bool {
        within(decimal(v), i64::MIN as int, i64::MAX as int)
    }

    fn parse(v: &str, rem_spaces: bool) -> (r: Result<Self, GenError>) {
        let value = entry_of(v, rem_spaces);
        match parse_i64(value.as_str()) {
            Ok(n) => Ok(n),
            Err(e) => Err(not_a_number("i64", &e)),
        }
    }
}

impl FromStringTo for i32 {
    open spec fn target() -> Seq<char> {
        "i32"@
    }

    open spec fn is_reading(v: Seq<char>, r: &Self) -> bool {
        decimal(v) == Some(*r as int)
    }

    open spec fn readable(v: Seq<char>) -> bool {
        within(decimal(v), i32::MIN as int, i32::MAX as int)
    }

    fn parse(v: &str, rem_spaces: bool) -> (r: Result<Self, GenError>) {
        let value = entry_of(v, rem_spaces);
        match parse_i32(value.as_str()) {
            Ok(n) => Ok(n),
            Err(e) => Err(not_a_number("i32", &e)),
        }
    }
}

impl FromStringTo for usize {
    open spec fn target() -> Seq<char> {
        "usize"@
    }

    open spec fn is_reading(v: Seq<char>, r: &Self) -> bool {
        natural(v) == Some(*r as int)
    }

    open spec fn readable(v: Seq<char>) -> bool {
        within(natural(v), 0, usize::MAX as int)
    }

    fn parse(v: &str, rem_spaces: bool) -> (r: Result<Self, GenError>) {
        let value = entry_of(v, rem_spaces);
        match parse_usize(value.as_str()) {
            Ok(n) => Ok(n),
            Err(e) => Err(not_a_number("usize", &e)),
        }
    }
}

} // verus!

//! From an expression to a generator.
use crate::error::{GenError, GenErrorKind, GenErrorType};
use crate::files::Files;
use crate::generator::from_string::{decimal, natural, within, FromStringTo};
use crate::generator::generators::{
    all_read, all_readable, entries, CurrentDateTime, RandomArray, RandomBool,
    RandomFromFile, RandomFromList, RandomInt, RandomString, Sequence, UUID,
};
use crate::generator::{Func, Generator};
use crate::parser::{calls, parse, parsed, Call, CallModel};
use crate::sources::format_prints;
use crate::text::{chars_of, same_text, text_of, texts, trim_bounds, trimmed};
use vstd::prelude::*;

verus! {

/// Whether the brackets hold nothing.
pub open spec fn no_args(args: Seq<Seq<char>>) -> bool {
    args.len() == 1 && args[0].len() == 0
}

/// The number of arguments: none where the brackets hold nothing.
pub open spec fn arity(args: Seq<Seq<char>>) -> nat {
    if no_args(args) {
        0
    } else {
        args.len()
    }
}

/// Whether argument `i` is left out: there is none, or it is empty.
pub open spec fn left_out(args: Seq<Seq<char>>, i: int) -> bool {
    !(0 <= i < args.len()) || args[i].len() == 0
}

/// The whole number of `i32` that argument `i` gives: `default` where the
/// argument is left out, the number that it denotes where it denotes one,
/// and nothing where it is written and denotes none.
pub open spec fn i32_arg(args: Seq<Seq<char>>, i: int, default: int) -> Option<int> {
    if left_out(args, i) {
        Some(default)
    } else if within(decimal(args[i]), i32::MIN as int, i32::MAX as int) {
        decimal(args[i])
    } else {
        None
    }
}

/// The same for a number of `usize`.
pub open spec fn usize_arg(args: Seq<Seq<char>>, i: int, default: int) -> Option<int> {
    if left_out(args, i) {
        Some(default)
    } else if within(natural(args[i]), 0, usize::MAX as int) {
        natural(args[i])
    } else {
        None
    }
}

/// The text of argument `i`, or the empty text where there is none.
pub open spec fn text_or_empty(args: Seq<Seq<char>>, i: int) -> Seq<char> {
    if 0 <= i < args.len() {
        args[i]
    } else {
        Seq::empty()
    }
}

/// The format that `dt` prints in: its first argument without the white
/// space around it, or year, month, day and time of day where there is none.
pub open spec fn dt_format(args: Seq<Seq<char>>) -> Seq<char> {
    if args.len() > 0 && args[0].len() > 0 {
        trimmed(args[0])
    } else {
        "%Y-%m-%d %H:%M:%S"@
    }
}

/// Whether every argument is a whole number of `i64`.
pub open spec fn all_numbers(args: Seq<Seq<char>>) -> bool {
    all_readable::<i64>(args)
}

/// The length that `array` is called with: its argument, or one where that
/// is left out; nothing where there are more arguments than one, or the one
/// is written and is no whole number of `usize`.
pub open spec fn array_len(args: Seq<Seq<char>>) -> Option<int> {
    if args.len() <= 1 {
        usize_arg(args, 0, 1)
    } else {
        None
    }
}

/// A file to read a list from, and what parts its entries.
pub struct FileArgs {
    pub path: Seq<char>,
    pub delim: Seq<char>,
}

/// The file and the delimiter that the arguments name: a path alone, whose
/// entries a comma parts; a path and a delimiter; or a path and two empty
/// arguments, which stand for a comma.
pub open spec fn file_args(args: Seq<Seq<char>>) -> Option<FileArgs> {
    if args.len() == 1 && args[0].len() > 0 {
        Some(FileArgs { path: args[0], delim: ","@ })
    } else if args.len() == 2 {
        Some(FileArgs { path: args[0], delim: args[1] })
    } else if args.len() == 3 && args[1].len() == 0 && args[2].len() == 0 {
        Some(FileArgs { path: args[0], delim: ","@ })
    } else {
        None
    }
}

/// Why a list cannot be read from a file, if it cannot.
pub open spec fn file_failure<T: FromStringTo>(args: Seq<Seq<char>>, files: Files) -> Option<
    GenErrorKind,
> {
    match file_args(args) {
        None => Some(GenErrorKind::InvalidArguments),
        Some(a) => if files.text_at(a.path) is Some && all_readable::<T>(
            entries(files.text_at(a.path)->0, a.delim),
        ) {
            None
        } else {
            Some(GenErrorKind::Construction)
        },
    }
}

/// Whether the arguments of `seq` are in order: at most two, each a whole
/// number of `i32` or left out.
pub open spec fn seq_args(args: Seq<Seq<char>>) -> bool {
    arity(args) <= 2 && i32_arg(args, 0, 0) is Some && i32_arg(args, 1, 1) is Some
}

/// Whether the arguments of `str` are in order: at most three, the first a
/// whole number of `usize` or left out.
pub open spec fn str_args(args: Seq<Seq<char>>) -> bool {
    arity(args) <= 3 && usize_arg(args, 0, 0) is Some
}

/// Whether the arguments of `int` are in order: at most two, each a whole
/// number of `i32` or left out, the first less than the second.
pub open spec fn int_args(args: Seq<Seq<char>>) -> bool {
    &&& arity(args) <= 2
    &&& i32_arg(args, 0, 0) is Some
    &&& i32_arg(args, 1, 1000) is Some
    &&& i32_arg(args, 0, 0)->0 < i32_arg(args, 1, 1000)->0
}

/// Whether the arguments of `dt` are in order: at most one, which is a
/// format to print in.
pub open spec fn dt_args(args: Seq<Seq<char>>) -> bool {
    arity(args) <= 1 && (dt_format(args).len() == 0 || format_prints(dt_format(args)))
}

/// What is wrong with the arguments, if they are not in order.
pub open spec fn unless(in_order: bool) -> Option<GenErrorKind> {
    if in_order {
        None
    } else {
        Some(GenErrorKind::InvalidArguments)
    }
}

/// Why no generator can be built from a call, if none can: the function is
/// not known, it has more arguments than it takes, an argument that should
/// be a number is written and is none, or a list cannot be read.
pub open spec fn build_failure(c: CallModel, files: Files) -> Option<GenErrorKind> {
    if c.name == "seq"@ {
        unless(seq_args(c.args))
    } else if c.name == "uuid"@ {
        unless(arity(c.args) == 0)
    } else if c.name == "str"@ {
        unless(str_args(c.args))
    } else if c.name == "bool"@ {
        unless(arity(c.args) == 0)
    } else if c.name == "str_from_list"@ {
        None
    } else if c.name == "int"@ {
        unless(int_args(c.args))
    } else if c.name == "dt"@ {
        unless(dt_args(c.args))
    } else if c.name == "int_from_list"@ {
        unless(no_args(c.args) || all_numbers(c.args))
    } else if c.name == "array"@ {
        unless(array_len(c.args) is Some)
    } else if c.name == "str_from_file"@ {
        file_failure::<String>(c.args, files)
    } else if c.name == "int_from_file"@ {
        file_failure::<i64>(c.args, files)
    } else {
        Some(GenErrorKind::UnknownFunction)
    }
}

/// Why call `k` of a chain cannot be built and take in what stands before
/// it, if it cannot: nothing but `array` takes a generator in.
pub open spec fn step_failure(cs: Seq<CallModel>, files: Files, k: int) -> Option<GenErrorKind> {
    if build_failure(cs[k], files) is Some {
        build_failure(cs[k], files)
    } else if k > 0 && cs[k].name != "array"@ {
        Some(GenErrorKind::Unsupported)
    } else {
        None
    }
}

/// The first failure of a chain from call `k` on, going from left to right.
pub open spec fn first_failure(cs: Seq<CallModel>, files: Files, k: int) -> Option<GenErrorKind>
    decreases cs.len() - k,
{
    if k < 0 || k >= cs.len() {
        None
    } else if step_failure(cs, files, k) is Some {
        step_failure(cs, files, k)
    } else {
        first_failure(cs, files, k + 1)
    }
}

/// Why an expression gives no generator, if it gives none.
pub open spec fn failure(expr: Seq<char>, files: Files) -> Option<GenErrorKind> {
    match parsed(expr) {
        None => Some(GenErrorKind::Syntax),
        Some(cs) => first_failure(cs, files, 0),
    }
}

/// Whether `g` is what the first `n` calls of a chain give: the generator of
/// the first call, taken in by the second, that one by the third, and so on.
pub open spec fn is_chain(cs: Seq<CallModel>, files: Files, n: int, g: Generator) -> bool
    decreases n,
{
    if n <= 0 || n > cs.len() {
        false
    } else if n == 1 {
        is_built(cs[0], files, g)
    } else {
        &&& cs[n - 1].name == "array"@
        &&& g.function is Array
        &&& Some(g.item_count() as int) == array_len(cs[n - 1].args)
        &&& g.item_source() is Some
        &&& is_chain(cs, files, n - 1, g.item_source()->0)
    }
}

/// The file that a call reads, if it reads one.
pub open spec fn call_path(c: CallModel) -> Option<Seq<char>> {
    if (c.name == "str_from_file"@ || c.name == "int_from_file"@) && file_args(c.args) is Some {
        Some(file_args(c.args)->0.path)
    } else {
        None
    }
}

/// The files that the calls of a chain read, from call `k` on, in order.
pub open spec fn paths_from(cs: Seq<CallModel>, k: int) -> Seq<Seq<char>>
    decreases cs.len() - k,
{
    if k < 0 || k >= cs.len() {
        Seq::empty()
    } else {
        match call_path(cs[k]) {
            Some(p) => seq![p] + paths_from(cs, k + 1),
            None => paths_from(cs, k + 1),
        }
    }
}

/// The files that an expression reads, in order; none where the text is no
/// expression.
pub open spec fn expression_paths(expr: Seq<char>) -> Seq<Seq<char>> {
    match parsed(expr) {
        Some(cs) => paths_from(cs, 0),
        None => Seq::empty(),
    }
}

/// Whether the text `a` ends with the text `b`.
pub open spec fn ends_with(a: Seq<char>, b: Seq<char>) -> bool {
    a.len() >= b.len() && a.subrange(a.len() - b.len(), a.len() as int) == b
}

/// Whether `g` is the generator that a call builds.
pub open spec fn is_built(c: CallModel, files: Files, g: Generator) -> bool {
    if c.name == "seq"@ {
        g.function matches Func::Sequence(s) && Some(s.val as int) == i32_arg(c.args, 0, 0) && Some(
            s.step as int,
        ) == i32_arg(c.args, 1, 1)
    } else if c.name == "uuid"@ {
        g.function is Uuid
    } else if c.name == "str"@ {
        g.function matches Func::Str(r) && Some(r.len as int) == usize_arg(c.args, 0, 0) && r.prefix@
            == text_or_empty(c.args, 1) && r.postfix@ == text_or_empty(c.args, 2)
    } else if c.name == "bool"@ {
        g.function is Bool
    } else if c.name == "str_from_list"@ {
        g.function matches Func::StrList(l) && l.values@.len() == c.args.len() && forall|i: int|
            0 <= i < c.args.len() ==> (#[trigger] l.values@[i])@ == trimmed(c.args[i])
    } else if c.name == "int"@ {
        g.function matches Func::Int(r) && Some(r.start as int) == i32_arg(c.args, 0, 0) && Some(
            r.end as int,
        ) == i32_arg(c.args, 1, 1000)
    } else if c.name == "dt"@ {
        g.function matches Func::DateTime(d) && d.format@ == dt_format(c.args)
    } else if c.name == "int_from_list"@ {
        g.function matches Func::IntList(l) && if no_args(c.args) {
            l.values@.len() == 0
        } else {
            all_read::<i64>(c.args, l.values@)
        }
    } else if c.name == "array"@ {
        g.function matches Func::Array(a) && Some(a.len as int) == array_len(c.args) && a.delegate is None
    } else if c.name == "str_from_file"@ {
        g.function matches Func::StrFile(f) && file_args(c.args) is Some && all_read::<String>(
            entries(files.text_at(file_args(c.args)->0.path)->0, file_args(c.args)->0.delim),
            f.delegate.values@,
        )
    } else if c.name == "int_from_file"@ {
        g.function matches Func::IntFile(f) && file_args(c.args) is Some && all_read::<i64>(
            entries(files.text_at(file_args(c.args)->0.path)->0, file_args(c.args)->0.delim),
            f.delegate.values@,
        )
    } else {
        false
    }
}

/// The error for a function that cannot be built from its arguments.
pub fn invalid_arguments() -> (e: GenError)
    ensures
        e.kind == GenErrorKind::InvalidArguments,
        e.tpe == GenErrorType::Parser,
{
    GenError::of_kind(GenErrorKind::InvalidArguments, GenErrorType::Parser, "invalid arguments", "")
}

/// The error for a function that the catalogue does not hold.
pub fn unknown_function(name: &str) -> (e: GenError)
    ensures
        e.kind == GenErrorKind::UnknownFunction,
        e.tpe == GenErrorType::Parser,
        e.reason@ == "unknown function "@ + name@,
{
    GenError::of_kind(GenErrorKind::UnknownFunction, GenErrorType::Parser, "unknown function ", name)
}

/// A text without the white space around it.
pub fn trim_text(v: &str) -> (r: String)
    ensures
        r@ == trimmed(v@),
{
    let chars = chars_of(v);
    let (a, b) = trim_bounds(&chars, 0, chars.len());
    assert(chars@.subrange(0, chars@.len() as int) == chars@);
    text_of(&chars, a, b)
}

/// The number of `i32` that argument `i` gives, `default` where the argument
/// is left out; nothing where it is written and is no such number.
pub fn parse_i32_arg(args: &Vec<String>, i: usize, default: i32) -> (r: Option<i32>)
    ensures
        r is Some <==> i32_arg(texts(args@), i as int, default as int) is Some,
        r is Some ==> Some(r->0 as int) == i32_arg(texts(args@), i as int, default as int),
{
    if i < args.len() {
        assert(texts(args@)[i as int] == args@[i as int]@);
        if args[i].as_str().unicode_len() == 0 {
            Some(default)
        } else {
            match <i32 as FromStringTo>::parse(args[i].as_str(), false) {
                Ok(v) => Some(v),
                Err(_) => None,
            }
        }
    } else {
        Some(default)
    }
}

/// The number of `usize` that argument `i` gives, `default` where the
/// argument is left out; nothing where it is written and is no such number.
pub fn parse_usize_arg(args: &Vec<String>, i: usize, default: usize) -> (r: Option<usize>)
    ensures
        r is Some <==> usize_arg(texts(args@), i as int, default as int) is Some,
        r is Some ==> Some(r->0 as int) == usize_arg(texts(args@), i as int, default as int),
{
    if i < args.len() {
        assert(texts(args@)[i as int] == args@[i as int]@);
        if args[i].as_str().unicode_len() == 0 {
            Some(default)
        } else {
            match <usize as FromStringTo>::parse(args[i].as_str(), false) {
                Ok(v) => Some(v),
                Err(_) => None,
            }
        }
    } else {
        Some(default)
    }
}

/// The number of arguments: none where the brackets hold nothing.
pub fn arity_of(args: &Vec<String>) -> (n: usize)
    ensures
        n == arity(texts(args@)),
{
    if has_no_args(args) {
        0
    } else {
        args.len()
    }
}

/// The text of argument `i`, or the empty text.
pub fn arg_or_empty(args: &Vec<String>, i: usize) -> (r: String)
    ensures
        r@ == text_or_empty(texts(args@), i as int),
{
    if i < args.len() {
        assert(texts(args@)[i as int] == args@[i as int]@);
        args[i].clone()
    } else {
        String::new()
    }
}

/// Whether the brackets hold nothing.
pub fn has_no_args(args: &Vec<String>) -> (b: bool)
    ensures
        b == no_args(texts(args@)),
{
    if args.len() == 1 {
        assert(texts(args@)[0] == args@[0]@);
        args[0].as_str().unicode_len() == 0
    } else {
        false
    }
}

/// The arguments as whole numbers, where each of them is one.
pub fn numbers(args: &Vec<String>) -> (r: Option<Vec<i64>>)
    ensures
        r is Some <==> all_numbers(texts(args@)),
        r is Some ==> all_read::<i64>(texts(args@), r->0@),
{
    let mut out: Vec<i64> = Vec::new();
    let mut i: usize = 0;
    while i < args.len()
        invariant
            i <= args.len(),
            out.len() == i,
            forall|k: int| 0 <= k < i ==> <i64 as FromStringTo>::readable(#[trigger] texts(args@)[k]),
            forall|k: int|
                0 <= k < i ==> <i64 as FromStringTo>::is_reading(texts(args@)[k], #[trigger] &out@[k]),
        decreases args.len() - i,
    {
        assert(texts(args@)[i as int] == args@[i as int]@);
        match <i64 as FromStringTo>::parse(args[i].as_str(), false) {
            Ok(v) => {
                out.push(v);
            },
            Err(_) => {
                assert(!<i64 as FromStringTo>::readable(texts(args@)[i as int]));
                return None;
            },
        }
        i += 1;
    }
    Some(out)
}

/// `seq(start, step)`: numbers at a fixed distance; by default from zero in
/// steps of one.
pub fn sequence(args: &Vec<String>) -> (r: Result<Generator, GenError>)
    ensures
        r is Ok <==> seq_args(texts(args@)),
        r is Ok ==> (r->Ok_0.function matches Func::Sequence(s) && Some(s.val as int) == i32_arg(
            texts(args@),
            0,
            0,
        ) && Some(s.step as int) == i32_arg(texts(args@), 1, 1)),
        r is Err ==> r->Err_0.kind == GenErrorKind::InvalidArguments,
{
    if arity_of(args) > 2 {
        return Err(invalid_arguments());
    }
    match (parse_i32_arg(args, 0, 0), parse_i32_arg(args, 1, 1)) {
        (Some(val), Some(step)) => Ok(Generator { function: Func::Sequence(Sequence { val, step }) }),
        _ => Err(invalid_arguments()),
    }
}

/// `uuid()`: random identifiers.
pub fn uuid(args: &Vec<String>) -> (r: Result<Generator, GenError>)
    ensures
        r is Ok <==> arity(texts(args@)) == 0,
        r is Ok ==> r->Ok_0.function is Uuid,
        r is Err ==> r->Err_0.kind == GenErrorKind::InvalidArguments,
{
    if arity_of(args) == 0 {
        Ok(Generator { function: Func::Uuid(UUID {  }) })
    } else {
        Err(invalid_arguments())
    }
}

/// `bool()`: random booleans.
pub fn boolean(args: &Vec<String>) -> (r: Result<Generator, GenError>)
    ensures
        r is Ok <==> arity(texts(args@)) == 0,
        r is Ok ==> r->Ok_0.function is Bool,
        r is Err ==> r->Err_0.kind == GenErrorKind::InvalidArguments,
{
    if arity_of(args) == 0 {
        Ok(Generator { function: Func::Bool(RandomBool::new()) })
    } else {
        Err(invalid_arguments())
    }
}

/// `str(length, prefix, suffix)`: random texts; by default empty ones.
pub fn random_string(args: &Vec<String>) -> (r: Result<Generator, GenError>)
    ensures
        r is Ok <==> str_args(texts(args@)),
        r is Ok ==> (r->Ok_0.function matches Func::Str(g) && Some(g.len as int) == usize_arg(
            texts(args@),
            0,
            0,
        ) && g.prefix@ == text_or_empty(texts(args@), 1) && g.postfix@ == text_or_empty(
            texts(args@),
            2,
        )),
        r is Err ==> r->Err_0.kind == GenErrorKind::InvalidArguments,
{
    if arity_of(args) > 3 {
        return Err(invalid_arguments());
    }
    match parse_usize_arg(args, 0, 0) {
        Some(n) => {
            let prefix = arg_or_empty(args, 1);
            let suffix = arg_or_empty(args, 2);
            Ok(Generator { function: Func::Str(RandomString::new_with(n, prefix, suffix)) })
        },
        None => Err(invalid_arguments()),
    }
}

/// `int(lower, upper)`: random numbers from `lower` up to, but not
/// including, `upper`; by default from zero to a thousand. A range that
/// holds no number is refused.
pub fn random_int(args: &Vec<String>) -> (r: Result<Generator, GenError>)
    ensures
        r is Ok <==> int_args(texts(args@)),
        r is Ok ==> (r->Ok_0.function matches Func::Int(g) && Some(g.start as int) == i32_arg(
            texts(args@),
            0,
            0,
        ) && Some(g.end as int) == i32_arg(texts(args@), 1, 1000)),
        r is Err ==> r->Err_0.kind == GenErrorKind::InvalidArguments,
{
    if arity_of(args) > 2 {
        return Err(invalid_arguments());
    }
    match (parse_i32_arg(args, 0, 0), parse_i32_arg(args, 1, 1000)) {
        (Some(lower), Some(upper)) => {
            if lower < upper {
                Ok(Generator { function: Func::Int(RandomInt::new(lower, upper)) })
            } else {
                Err(invalid_arguments())
            }
        },
        _ => Err(invalid_arguments()),
    }
}

/// `dt(format)`: the current date and time. A format that cannot be printed
/// in is refused.
pub fn current_dt(args: &Vec<String>) -> (r: Result<Generator, GenError>)
    ensures
        r is Ok <==> dt_args(texts(args@)),
        r is Ok ==> (r->Ok_0.function matches Func::DateTime(d) && d.format@ == dt_format(
            texts(args@),
        )),
        r is Err ==> r->Err_0.kind == GenErrorKind::InvalidArguments,
{
    if arity_of(args) > 1 {
        return Err(invalid_arguments());
    }
    let format = if args.len() > 0 && args[0].as_str().unicode_len() > 0 {
        assert(texts(args@)[0] == args@[0]@);
        trim_text(args[0].as_str())
    } else {
        proof {
            if args.len() > 0 {
                assert(texts(args@)[0] == args@[0]@);
            }
        }
        String::from_str("%Y-%m-%d %H:%M:%S")
    };
    let dt = CurrentDateTime { format };
    if dt.is_ready() {
        Ok(Generator { function: Func::DateTime(dt) })
    } else {
        Err(invalid_arguments())
    }
}

/// `str_from_list(v1, v2, ..)`: a random pick from the arguments, each
/// without the white space around it.
pub fn random_str_from_list(args: &Vec<String>) -> (g: Generator)
    ensures
        g.function matches Func::StrList(l) && l.values@.len() == args@.len() && forall|i: int|
            0 <= i < args@.len() ==> (#[trigger] l.values@[i])@ == trimmed(texts(args@)[i]),
{
    let mut values: Vec<String> = Vec::new();
    let mut i: usize = 0;
    while i < args.len()
        invariant
            i <= args.len(),
            values.len() == i,
            forall|k: int| 0 <= k < i ==> (#[trigger] values@[k])@ == trimmed(texts(args@)[k]),
        decreases args.len() - i,
    {
        assert(texts(args@)[i as int] == args@[i as int]@);
        values.push(trim_text(args[i].as_str()));
        i += 1;
    }
    Generator { function: Func::StrList(RandomFromList::new(values)) }
}

/// `int_from_list(v1, v2, ..)`: a random pick from the arguments, each a
/// whole number.
pub fn random_int_from_list(args: &Vec<String>) -> (r: Result<Generator, GenError>)
    ensures
        r is Ok <==> no_args(texts(args@)) || all_numbers(texts(args@)),
        r is Ok ==> (r->Ok_0.function matches Func::IntList(l) && if no_args(texts(args@)) {
            l.values@.len() == 0
        } else {
            all_read::<i64>(texts(args@), l.values@)
        }),
        r is Err ==> r->Err_0.kind == GenErrorKind::InvalidArguments,
{
    if has_no_args(args) {
        Ok(Generator { function: Func::IntList(RandomFromList::new(Vec::new())) })
    } else {
        match numbers(args) {
            Some(values) => Ok(Generator { function: Func::IntList(RandomFromList::new(values)) }),
            None => Err(invalid_arguments()),
        }
    }
}

/// `array(length)`: an array of the given length, by default one, whose
/// items are yet to be given a generator.
pub fn random_array_empty(args: &Vec<String>) -> (r: Result<Generator, GenError>)
    ensures
        r is Ok <==> array_len(texts(args@)) is Some,
        r is Ok ==> (r->Ok_0.function matches Func::Array(a) && Some(a.len as int) == array_len(
            texts(args@),
        ) && a.delegate is None),
        r is Err ==> r->Err_0.kind == GenErrorKind::InvalidArguments,
{
    if args.len() > 1 {
        return Err(invalid_arguments());
    }
    match parse_usize_arg(args, 0, 1) {
        Some(len) => Ok(Generator { function: Func::Array(RandomArray::new_size(len)) }),
        None => Err(invalid_arguments()),
    }
}

/// A random pick from the entries of a file, each read as a `T`.
pub fn random_from_file<T: FromStringTo + crate::generator::generators::IntoValue>(
    args: &Vec<String>,
    files: &Files,
) -> (r: Result<RandomFromFile<T>, GenError>)
    ensures
        r is Ok <==> file_failure::<T>(texts(args@), *files) is None,
        r is Ok ==> all_read::<T>(
            entries(
                files.text_at(file_args(texts(args@))->0.path)->0,
                file_args(texts(args@))->0.delim,
            ),
            r->Ok_0.delegate.values@,
        ),
        r is Err ==> Some(r->Err_0.kind) == file_failure::<T>(texts(args@), *files),
{
    proof {
        if args.len() > 0 {
            assert(texts(args@)[0] == args@[0]@);
        }
        if args.len() > 1 {
            assert(texts(args@)[1] == args@[1]@);
        }
        if args.len() > 2 {
            assert(texts(args@)[2] == args@[2]@);
        }
    }
    if args.len() == 1 && args[0].as_str().unicode_len() > 0 {
        RandomFromFile::<T>::new(args[0].as_str(), ",", files)
    } else if args.len() == 2 {
        RandomFromFile::<T>::new(args[0].as_str(), args[1].as_str(), files)
    } else if args.len() == 3 && args[1].as_str().unicode_len() == 0 && args[2].as_str().unicode_len()
        == 0 {
        RandomFromFile::<T>::new(args[0].as_str(), ",", files)
    } else {
        Err(invalid_arguments())
    }
}

/// `str_from_file(path, delimiter)`: a random pick from the entries of a
/// file.
pub fn random_str_from_file(args: &Vec<String>, files: &Files) -> (r: Result<Generator, GenError>)
    ensures
        r is Ok <==> file_failure::<String>(texts(args@), *files) is None,
        r is Ok ==> (r->Ok_0.function matches Func::StrFile(f) && all_read::<String>(
            entries(
                files.text_at(file_args(texts(args@))->0.path)->0,
                file_args(texts(args@))->0.delim,
            ),
            f.delegate.values@,
        )),
        r is Err ==> Some(r->Err_0.kind) == file_failure::<String>(texts(args@), *files),
{
    match random_from_file::<String>(args, files) {
        Ok(f) => Ok(Generator { function: Func::StrFile(f) }),
        Err(e) => Err(e),
    }
}

/// `int_from_file(path, delimiter)`: a random pick from the entries of a
/// file, each a whole number.
pub fn random_int_from_file(args: &Vec<String>, files: &Files) -> (r: Result<Generator, GenError>)
    ensures
        r is Ok <==> file_failure::<i64>(texts(args@), *files) is None,
        r is Ok ==> (r->Ok_0.function matches Func::IntFile(f) && all_read::<i64>(
            entries(
                files.text_at(file_args(texts(args@))->0.path)->0,
                file_args(texts(args@))->0.delim,
            ),
            f.delegate.values@,
        )),
        r is Err ==> Some(r->Err_0.kind) == file_failure::<i64>(texts(args@), *files),
{
    match random_from_file::<i64>(args, files) {
        Ok(f) => Ok(Generator { function: Func::IntFile(f) }),
        Err(e) => Err(e),
    }
}

/// Builds the generator of one call. An argument that is left out, or is
/// written as nothing, has its default. A call of a function that is not
/// known is refused, and so is one with more arguments than the function
/// takes, or with something other than a number where a number belongs.
pub fn atomic_generator(call: &Call, files: &Files) -> (r: Result<Generator, GenError>)
    ensures
        r is Ok <==> build_failure(call@, *files) is None,
        r is Ok ==> is_built(call@, *files, r->Ok_0) && r->Ok_0.ready(),
        r is Err ==> Some(r->Err_0.kind) == build_failure(call@, *files),
{
    let name = call.name.as_str();
    if same_text(name, "seq") {
        sequence(&call.args)
    } else if same_text(name, "uuid") {
        uuid(&call.args)
    } else if same_text(name, "str") {
        random_string(&call.args)
    } else if same_text(name, "bool") {
        boolean(&call.args)
    } else if same_text(name, "str_from_list") {
        Ok(random_str_from_list(&call.args))
    } else if same_text(name, "int") {
        random_int(&call.args)
    } else if same_text(name, "dt") {
        current_dt(&call.args)
    } else if same_text(name, "int_from_list") {
        random_int_from_list(&call.args)
    } else if same_text(name, "array") {
        random_array_empty(&call.args)
    } else if same_text(name, "str_from_file") {
        random_str_from_file(&call.args, files)
    } else if same_text(name, "int_from_file") {
        random_int_from_file(&call.args, files)
    } else {
        Err(unknown_function(name))
    }
}

/// The files that an expression reads, in order. Whoever compiles the
/// expression loads them first and hands their texts over.
pub fn paths(expr: &str) -> (r: Vec<String>)
    ensures
        texts(r@) == expression_paths(expr@),
{
    let mut out: Vec<String> = Vec::new();
    let list = match parse(expr) {
        Some(list) => list,
        None => {
            assert(texts(out@) =~= Seq::empty());
            return out;
        },
    };
    let ghost cs = calls(list@);
    let mut k: usize = list.len();
    assert(texts(out@) =~= paths_from(cs, k as int));
    while k > 0
        invariant
            k <= list.len(),
            cs == calls(list@),
            texts(out@) == paths_from(cs, k as int),
        decreases k,
    {
        k -= 1;
        let call = &list[k];
        assert(cs[k as int] == call@);
        let reads = same_text(call.name.as_str(), "str_from_file") || same_text(
            call.name.as_str(),
            "int_from_file",
        );
        proof {
            if call.args.len() > 0 {
                assert(texts(call.args@)[0] == call.args@[0]@);
            }
            if call.args.len() > 1 {
                assert(texts(call.args@)[1] == call.args@[1]@);
            }
            if call.args.len() > 2 {
                assert(texts(call.args@)[2] == call.args@[2]@);
            }
        }
        let named = (call.args.len() == 1 && call.args[0].as_str().unicode_len() > 0)
            || call.args.len() == 2 || (call.args.len() == 3 && call.args[1].as_str().unicode_len()
            == 0 && call.args[2].as_str().unicode_len() == 0);
        if reads && named {
            let ghost before = texts(out@);
            out.insert(0, call.args[0].clone());
            assert(texts(out@) =~= seq![call.args@[0]@] + before);
        }
    }
    out
}

/// No other function of the catalogue is called `array`.
pub proof fn lemma_array_name()
    ensures
        "array"@ != "seq"@,
        "array"@ != "uuid"@,
        "array"@ != "str"@,
        "array"@ != "bool"@,
        "array"@ != "str_from_list"@,
        "array"@ != "int"@,
        "array"@ != "dt"@,
        "array"@ != "int_from_list"@,
{
    reveal_strlit("array");
    reveal_strlit("seq");
    reveal_strlit("uuid");
    reveal_strlit("str");
    reveal_strlit("bool");
    reveal_strlit("str_from_list");
    reveal_strlit("int");
    reveal_strlit("dt");
    reveal_strlit("int_from_list");
    assert("array"@.len() == 5);
    assert("seq"@.len() == 3);
    assert("uuid"@.len() == 4);
    assert("str"@.len() == 3);
    assert("bool"@.len() == 4);
    assert("str_from_list"@.len() == 13);
    assert("int"@.len() == 3);
    assert("dt"@.len() == 2);
    assert("int_from_list"@.len() == 13);
}

/// The error for a text that is no expression: a failure of the parser, of
/// the kind `Syntax`, whose cause reads `malformed expression`.
pub fn malformed() -> (e: GenError)
    ensures
        e.kind == GenErrorKind::Syntax,
        e.tpe == GenErrorType::Parser,
        e.reason@ == "malformed expression"@,
{
    let e = GenError::of_kind(GenErrorKind::Syntax, GenErrorType::Parser, "malformed expression", "");
    proof {
        reveal_strlit("");
        assert("malformed expression"@ + ""@ =~= "malformed expression"@);
    }
    e
}

/// The same error, with the expression it came from at the end of its
/// cause.
pub fn in_expression(e: GenError, expr: &str) -> (r: GenError)
    ensures
        r.kind == e.kind,
        r.tpe == e.tpe,
        r.reason@ == e.reason@ + " in the expression: "@ + expr@,
        ends_with(r.reason@, expr@),
{
    let mut reason = e.reason;
    reason.append(" in the expression: ");
    reason.append(expr);
    assert(reason@.subrange(reason@.len() - expr@.len(), reason@.len() as int) =~= expr@);
    GenError { reason, tpe: e.tpe, kind: e.kind }
}

/// Builds the generator of a chain of calls: each call after the first
/// takes in what the calls before it gave.
pub fn chain_generator(list: &Vec<Call>, files: &Files) -> (r: Result<Generator, GenError>)
    requires
        list@.len() > 0,
    ensures
        r is Ok <==> first_failure(calls(list@), *files, 0) is None,
        r is Ok ==> is_chain(calls(list@), *files, list@.len() as int, r->Ok_0) && r->Ok_0.ready(),
        r is Err ==> Some(r->Err_0.kind) == first_failure(calls(list@), *files, 0),
{
    let ghost cs = calls(list@);
    assert(cs[0] == list@[0]@);
    let mut acc = match atomic_generator(&list[0], files) {
        Ok(g) => g,
        Err(e) => {
            return Err(e);
        },
    };
    let mut k: usize = 1;
    while k < list.len()
        invariant
            1 <= k <= list.len(),
            cs == calls(list@),
            first_failure(cs, *files, 0) == first_failure(cs, *files, k as int),
            is_chain(cs, *files, k as int, acc),
            acc.ready(),
        decreases list.len() - k,
    {
        assert(cs[k as int] == list@[k as int]@);
        let g = match atomic_generator(&list[k], files) {
            Ok(g) => g,
            Err(e) => {
                return Err(e);
            },
        };
        proof {
            lemma_array_name();
        }
        match g.merge(acc) {
            Ok(m) => {
                acc = m;
            },
            Err(e) => {
                return Err(e);
            },
        }
        k += 1;
    }
    Ok(acc)
}

/// Reads an expression and builds its generator. Files that the expression
/// names are looked up among `files`.
///
/// The text must be a chain of calls from its first character to its last.
/// The calls are built from left to right, and each call after the first
/// must be one that takes a generator in; the first failure on the way is
/// the error returned, with the expression at the end of its cause.
pub fn generator(i: &str, files: &Files) -> (r: Result<Generator, GenError>)
    ensures
        r is Ok <==> failure(i@, *files) is None,
        r is Ok ==> is_chain(parsed(i@)->0, *files, parsed(i@)->0.len() as int, r->Ok_0)
            && r->Ok_0.ready(),
        r is Err ==> Some(r->Err_0.kind) == failure(i@, *files) && ends_with(r->Err_0.reason@, i@),
{
    match parse(i) {
        None => Err(in_expression(malformed(), i)),
        Some(list) => match chain_generator(&list, files) {
            Ok(g) => Ok(g),
            Err(e) => Err(in_expression(e, i)),
        },
    }
}

} // verus!

//! The catalogue of generators.
use crate::error::{GenError, GenErrorKind, GenErrorType};
use crate::files::Files;
use crate::generator::from_string::{entry_text, is_not_a_number, FromStringTo};
use crate::generator::{cannot_merge, Func, Generator, GeneratorFunc};
use crate::sources::{
    format_instant, format_prints, instant_plain_text, instant_text, is_alphanumeric, is_instant,
    is_uuid_text, new_uuid_text, pick_one, print_instant, random_alphanumeric, random_i32,
    random_ratio, utc_now, Instant,
};
use crate::text::{chars_of, pieces, same_chars, split, texts, trim_bounds, trimmed};
use crate::value::{JsonModel, JsonValue, Number};
use vstd::prelude::*;

verus! {

/// A value that can stand in a list to pick from.
pub trait IntoValue: Sized {
    /// The JSON value that this value becomes.
    spec fn model(&self) -> JsonModel;

    /// This value as a JSON value.
    fn to_value(&self) -> (v: JsonValue)
        ensures
            v@ == self.model(),
    ;
}

impl IntoValue for String {
    open spec fn model(&self) -> JsonModel {
        JsonModel::Text(self@)
    }

    fn to_value(&self) -> (v: JsonValue) {
        JsonValue::String(self.clone())
    }
}

impl IntoValue for i64 {
    open spec fn model(&self) -> JsonModel {
        JsonModel::Int(*self as int)
    }

    fn to_value(&self) -> (v: JsonValue) {
        JsonValue::Number(Number::Int(*self))
    }
}

/// Always `null`.
#[derive(Debug)]
pub struct Null {}

/// A fresh random identifier at every call.
#[derive(Debug)]
pub struct UUID {}

/// Whole numbers at a fixed distance from one another.
#[derive(Debug)]
pub struct Sequence {
    /// The number produced last. The first number produced is `val + step`.
    pub val: i32,
    /// The distance from one number to the next.
    pub step: i32,
}

/// A random boolean.
#[derive(Debug)]
pub struct RandomBool {}

/// A random whole number from a range.
#[derive(Debug)]
pub struct RandomInt {
    /// The least number that may come.
    pub start: i32,
    /// The least number above those that may come.
    pub end: i32,
}

/// A random text between a fixed beginning and a fixed end.
#[derive(Debug)]
pub struct RandomString {
    /// The number of random characters.
    pub len: usize,
    /// What the text begins with.
    pub prefix: String,
    /// What the text ends with.
    pub postfix: String,
}

/// The current date and time.
#[derive(Debug)]
pub struct CurrentDateTime {
    /// The format to print in; empty for the clock's own.
    pub format: String,
}

/// A random pick from a list of values.
#[derive(Debug)]
pub struct RandomFromList<T: IntoValue> {
    /// The values to pick from.
    pub values: Vec<T>,
}

/// A random pick from the entries of a file.
#[derive(Debug)]
pub struct RandomFromFile<T: FromStringTo + IntoValue> {
    /// The entries, read once.
    pub delegate: RandomFromList<T>,
}

/// An array of values from another generator.
#[derive(Debug)]
pub struct RandomArray {
    /// The number of items.
    pub len: usize,
    /// What produces the items; without one, every item is `null`.
    pub delegate: Option<Box<Generator>>,
}

impl Null {
    /// What a call may return.
    pub open spec fn admits(&self, v: JsonModel) -> bool {
        v == JsonModel::Null
    }

    /// `null`.
    pub fn produce(&self) -> (v: JsonValue)
        ensures
            self.admits(v@),
    {
        JsonValue::Null
    }
}

impl UUID {
    /// What a call may return.
    pub open spec fn admits(&self, v: JsonModel) -> bool {
        v is Text && is_uuid_text(v->Text_0)
    }

    /// A fresh identifier.
    pub fn produce(&self) -> (v: JsonValue)
        ensures
            self.admits(v@),
    {
        JsonValue::String(new_uuid_text())
    }
}

impl Sequence {
    /// The number that comes after `k` earlier calls.
    pub open spec fn value_at(&self, k: nat) -> int {
        self.val + (k + 1) * self.step
    }

    /// Whether `n` more numbers can be produced within the range of `i32`.
    pub open spec fn can_step(&self, n: nat) -> bool {
        i32::MIN <= self.val + n * self.step <= i32::MAX
    }

    /// The sequence after `n` calls.
    pub open spec fn advance(&self, n: nat) -> Sequence {
        Sequence { val: (self.val + n * self.step) as i32, step: self.step }
    }

    /// Adds the step to the running number and returns the sum.
    pub fn produce(&mut self) -> (v: JsonValue)
        requires
            old(self).can_step(1),
        ensures
            v@ == JsonModel::Int(old(self).value_at(0)),
            *final(self) == old(self).advance(1),
    {
        assert(1 * self.step == self.step) by (nonlinear_arith);
        self.val = self.val + self.step;
        JsonValue::Number(Number::Int(self.val as i64))
    }
}

impl Default for RandomBool {
    fn default() -> (r: Self) {
        RandomBool {  }
    }
}

impl RandomBool {
    /// What a call may return.
    pub open spec fn admits(&self, v: JsonModel) -> bool {
        v is Bool
    }

    /// A generator of booleans.
    pub fn new() -> (r: Self) {
        RandomBool {  }
    }

    /// `true` two times in five.
    pub fn produce(&self) -> (v: JsonValue)
        ensures
            self.admits(v@),
    {
        JsonValue::Bool(random_ratio(2, 5))
    }
}

impl RandomInt {
    /// Whether there is a number to draw.
    pub open spec fn ready(&self) -> bool {
        self.start < self.end
    }

    /// What a call may return.
    pub open spec fn admits(&self, v: JsonModel) -> bool {
        v is Int && self.start <= v->Int_0 < self.end
    }

    /// A generator of numbers from `start` up to, but not including, `end`.
    pub fn new(start: i32, end: i32) -> (r: Self)
        ensures
            r.start == start,
            r.end == end,
    {
        RandomInt { start, end }
    }

    /// A number from `start` up to, but not including, `end`.
    pub fn produce(&self) -> (v: JsonValue)
        requires
            self.ready(),
        ensures
            self.admits(v@),
    {
        JsonValue::Number(Number::Int(random_i32(self.start, self.end) as i64))
    }
}

impl RandomString {
    /// What a call may return: the prefix, `len` letters and digits, the
    /// suffix.
    pub open spec fn admits(&self, v: JsonModel) -> bool {
        &&& v is Text
        &&& v->Text_0.len() == self.prefix@.len() + self.len + self.postfix@.len()
        &&& v->Text_0.subrange(0, self.prefix@.len() as int) == self.prefix@
        &&& v->Text_0.subrange(self.prefix@.len() + self.len, v->Text_0.len() as int)
            == self.postfix@
        &&& forall|i: int|
            self.prefix@.len() <= i < self.prefix@.len() + self.len ==> is_alphanumeric(
                #[trigger] v->Text_0[i],
            )
    }

    /// A generator of texts of `len` random characters between `prefix` and
    /// `postfix`.
    pub fn new_with(len: usize, prefix: String, postfix: String) -> (r: Self)
        ensures
            r.len == len,
            r.prefix == prefix,
            r.postfix == postfix,
    {
        RandomString { len, prefix, postfix }
    }

    /// A generator of texts of `len` random characters.
    pub fn new(len: usize) -> (r: Self)
        ensures
            r.len == len,
            r.prefix@.len() == 0,
            r.postfix@.len() == 0,
    {
        RandomString { len, prefix: String::new(), postfix: String::new() }
    }

    /// The prefix, fresh random characters, the suffix.
    pub fn produce(&self) -> (v: JsonValue)
        ensures
            self.admits(v@),
    {
        let random = random_alphanumeric(self.len);
        let mut text = self.prefix.clone();
        text.append(random.as_str());
        text.append(self.postfix.as_str());
        assert(text@.subrange(0, self.prefix@.len() as int) =~= self.prefix@);
        assert(text@.subrange(self.prefix@.len() + self.len, text@.len() as int) =~= self.postfix@);
        assert forall|i: int|
            self.prefix@.len() <= i < self.prefix@.len() + self.len implies is_alphanumeric(
            #[trigger] text@[i],
        ) by {
            assert(text@[i] == random@[i - self.prefix@.len()]);
        }
        JsonValue::String(text)
    }
}

impl CurrentDateTime {
    /// Whether the format is one to print in: it is empty, or the beginning
    /// of 1970 can be printed in it.
    pub open spec fn ready(&self) -> bool {
        self.format@.len() == 0 || format_prints(self.format@)
    }

    /// Whether the format is one to print in.
    pub fn is_ready(&self) -> (b: bool)
        ensures
            b == self.ready(),
    {
        self.format.as_str().unicode_len() == 0 || format_instant(
            Instant { secs: 0, nanos: 0 },
            self.format.as_str(),
        ).is_some()
    }

    /// The text that stands for a point in time: printed in the format, or
    /// in the clock's own form where the format is empty. There is none
    /// where the clock's library knows no such point or cannot print it in
    /// the format.
    pub open spec fn text_at(&self, secs: int, nanos: int) -> Option<Seq<char>> {
        if self.format@.len() > 0 {
            instant_text(secs, nanos, self.format@)
        } else if is_instant(secs, nanos) {
            Some(instant_plain_text(secs, nanos))
        } else {
            None
        }
    }

    /// The value that stands for a point in time: its text, or `null` where
    /// it has none.
    pub open spec fn value_for(&self, secs: int, nanos: int) -> JsonModel {
        match self.text_at(secs, nanos) {
            Some(text) => JsonModel::Text(text),
            None => JsonModel::Null,
        }
    }

    /// What a call may return: the value that stands for some point in
    /// time.
    pub open spec fn admits(&self, v: JsonModel) -> bool {
        exists|secs: int, nanos: int| #[trigger]
            is_instant(secs, nanos) && v == self.value_for(secs, nanos)
    }

    /// The text of the point in time `at` as a value, where it has a text.
    pub fn value_at(&self, at: Instant) -> (r: Option<JsonValue>)
        ensures
            r is Some <==> self.text_at(at.secs as int, at.nanos as int) is Some,
            r is Some ==> r->0@ == JsonModel::Text(
                self.text_at(at.secs as int, at.nanos as int)->0,
            ),
    {
        let text = if self.format.as_str().unicode_len() == 0 {
            print_instant(at)
        } else {
            format_instant(at, self.format.as_str())
        };
        match text {
            Some(s) => Some(JsonValue::String(s)),
            None => None,
        }
    }

    /// The time of the call, in Coordinated Universal Time, as a value: its
    /// text in the format, or `null` where it cannot be printed in the
    /// format.
    pub fn produce(&self) -> (v: JsonValue)
        ensures
            self.admits(v@),
    {
        let at = utc_now();
        let v = match self.value_at(at) {
            Some(v) => v,
            None => JsonValue::Null,
        };
        assert(is_instant(at.secs as int, at.nanos as int) && v@ == self.value_for(
            at.secs as int,
            at.nanos as int,
        ));
        v
    }
}

impl<T: IntoValue> RandomFromList<T> {
    /// What a call may return: one of the values, or `null` where there is
    /// none.
    pub open spec fn admits(&self, v: JsonModel) -> bool {
        if self.values@.len() == 0 {
            v == JsonModel::Null
        } else {
            exists|i: int| 0 <= i < self.values@.len() && v == (#[trigger] self.values@[i]).model()
        }
    }

    /// A generator that picks from `values`.
    pub fn new(values: Vec<T>) -> (r: Self)
        ensures
            r.values == values,
    {
        RandomFromList { values }
    }

    /// One of the values.
    pub fn produce(&self) -> (v: JsonValue)
        ensures
            self.admits(v@),
    {
        match pick_one(&self.values) {
            None => JsonValue::Null,
            Some(t) => t.to_value(),
        }
    }
}

/// The delimiter that the text `d` stands for: the escapes `\n`, `\r`,
/// `\r\n` and `\n\r`, with or without white space around them, stand
/// for the control characters; anything else stands for itself.
pub open spec fn delimiter(d: Seq<char>) -> Seq<char> {
    let t = trimmed(d);
    if t == seq!['\\', 'r', '\\', 'n'] {
        seq!['\r', '\n']
    } else if t == seq!['\\', 'n'] {
        seq!['\n']
    } else if t == seq!['\\', 'r'] {
        seq!['\r']
    } else if t == seq!['\\', 'n', '\\', 'r'] {
        seq!['\n', '\r']
    } else {
        d
    }
}

/// Whether spaces are taken out of the entries that `delim` parts: they are,
/// unless the delimiter is itself one space.
pub open spec fn drops_spaces(delim: Seq<char>) -> bool {
    delim != seq![' ']
}

/// The texts of the entries of `content` as they are read.
pub open spec fn entries(content: Seq<char>, d: Seq<char>) -> Seq<Seq<char>> {
    let delim = delimiter(d);
    Seq::new(
        pieces(content, delim).len(),
        |i: int| entry_text(pieces(content, delim)[i], drops_spaces(delim)),
    )
}

/// Whether `values` are what the texts `from` read as, one for one.
pub open spec fn all_read<T: FromStringTo>(from: Seq<Seq<char>>, values: Seq<T>) -> bool {
    &&& values.len() == from.len()
    &&& forall|i: int| 0 <= i < from.len() ==> T::is_reading(from[i], #[trigger] &values[i])
}

/// Whether every text of `from` reads as a value.
pub open spec fn all_readable<T: FromStringTo>(from: Seq<Seq<char>>) -> bool {
    forall|i: int| 0 <= i < from.len() ==> T::readable(#[trigger] from[i])
}

/// The delimiter that the text `d` stands for.
pub fn delimiter_of(d: &str) -> (r: Vec<char>)
    ensures
        r@ == delimiter(d@),
{
    let chars = chars_of(d);
    let (a, b) = trim_bounds(&chars, 0, chars.len());
    assert(chars@.subrange(0, chars@.len() as int) == chars@);
    let mut t: Vec<char> = Vec::new();
    let mut i: usize = a;
    while i < b
        invariant
            a <= i <= b <= chars.len(),
            t@ == chars@.subrange(a as int, i as int),
        decreases b - i,
    {
        t.push(chars[i]);
        i += 1;
    }
    let rn: Vec<char> = vec!['\\', 'r', '\\', 'n'];
    let n: Vec<char> = vec!['\\', 'n'];
    let r: Vec<char> = vec!['\\', 'r'];
    let nr: Vec<char> = vec!['\\', 'n', '\\', 'r'];
    assert(rn@ =~= seq!['\\', 'r', '\\', 'n']);
    assert(n@ =~= seq!['\\', 'n']);
    assert(r@ =~= seq!['\\', 'r']);
    assert(nr@ =~= seq!['\\', 'n', '\\', 'r']);
    if same_chars(&t, &rn) {
        let out: Vec<char> = vec!['\r', '\n'];
        assert(out@ =~= seq!['\r', '\n']);
        out
    } else if same_chars(&t, &n) {
        let out: Vec<char> = vec!['\n'];
        assert(out@ =~= seq!['\n']);
        out
    } else if same_chars(&t, &r) {
        let out: Vec<char> = vec!['\r'];
        assert(out@ =~= seq!['\r']);
        out
    } else if same_chars(&t, &nr) {
        let out: Vec<char> = vec!['\n', '\r'];
        assert(out@ =~= seq!['\n', '\r']);
        out
    } else {
        chars
    }
}

/// Reads the entries of a list from its text: the text is cut at every
/// occurrence of the delimiter and each piece is read as a `T`. One piece
/// that does not read fails the whole list.
pub fn process_string<T: FromStringTo>(v: String, d: &str) -> (r: Result<Vec<T>, GenError>)
    ensures
        r is Ok <==> all_readable::<T>(entries(v@, d@)),
        r is Ok ==> all_read::<T>(entries(v@, d@), r->Ok_0@),
        r is Err ==> is_not_a_number(r->Err_0, T::target()),
{
    let del = delimiter_of(d);
    let one_space: Vec<char> = vec![' '];
    assert(one_space@ =~= seq![' ']);
    let trim_spaces = !same_chars(&del, &one_space);
    let content = chars_of(v.as_str());
    let tokens = split(&content, &del);
    let ghost from = entries(v@, d@);
    assert(from.len() == tokens.len()) by {
        assert(texts(tokens@).len() == tokens@.len());
    }
    let mut res: Vec<T> = Vec::new();
    let mut i: usize = 0;
    while i < tokens.len()
        invariant
            i <= tokens.len(),
            from == entries(v@, d@),
            from.len() == tokens.len(),
            texts(tokens@) == pieces(v@, delimiter(d@)),
            trim_spaces == drops_spaces(delimiter(d@)),
            res.len() == i,
            forall|k: int| 0 <= k < i ==> T::readable(#[trigger] from[k]),
            forall|k: int| 0 <= k < i ==> T::is_reading(from[k], #[trigger] &res@[k]),
        decreases tokens.len() - i,
    {
        assert(texts(tokens@)[i as int] == tokens@[i as int]@);
        assert(from[i as int] == entry_text(tokens@[i as int]@, trim_spaces));
        match T::parse(tokens[i].as_str(), trim_spaces) {
            Ok(value) => {
                res.push(value);
            },
            Err(e) => {
                assert(!T::readable(from[i as int]));
                return Err(e);
            },
        }
        i += 1;
    }
    Ok(res)
}

/// The error for a file that was not handed to the library.
pub fn no_such_file(path: &str) -> (e: GenError)
    ensures
        e.kind == GenErrorKind::Construction,
        e.tpe == GenErrorType::Generator,
        e.reason@ == "the file is not available: "@ + path@,
{
    GenError::of_kind(
        GenErrorKind::Construction,
        GenErrorType::Generator,
        "the file is not available: ",
        path,
    )
}

impl<T: FromStringTo + IntoValue> RandomFromFile<T> {
    /// A generator that picks from the entries of the file at `path`, parted
    /// by `delim`. The file is looked up among `files`; it must be there, and
    /// each of its entries must read as a `T`.
    pub fn new(path: &str, delim: &str, files: &Files) -> (r: Result<Self, GenError>)
        ensures
            r is Ok <==> files.text_at(path@) is Some && all_readable::<T>(
                entries(files.text_at(path@)->0, delim@),
            ),
            r is Ok ==> all_read::<T>(
                entries(files.text_at(path@)->0, delim@),
                r->Ok_0.delegate.values@,
            ),
            r is Err ==> r->Err_0.kind == GenErrorKind::Construction,
            r is Err && files.text_at(path@) is None ==> r->Err_0.reason@
                == "the file is not available: "@ + path@,
    {
        match files.get(path) {
            None => Err(no_such_file(path)),
            Some(content) => {
                match process_string::<T>(String::from_str(content), delim) {
                    Ok(values) => Ok(RandomFromFile { delegate: RandomFromList { values } }),
                    Err(e) => Err(e),
                }
            },
        }
    }
}

impl RandomArray {
    /// A generator of arrays of `len` values of `delegate`.
    pub fn new(len: usize, delegate: Generator) -> (r: Self)
        ensures
            r.len == len,
            r.delegate == Some(Box::new(delegate)),
    {
        RandomArray { len, delegate: Some(Box::new(delegate)) }
    }

    /// A generator of arrays of `len` items, yet without a generator for them.
    pub fn new_size(len: usize) -> (r: Self)
        ensures
            r.len == len,
            r.delegate is None,
    {
        RandomArray { len, delegate: None }
    }

    /// The number of items of each array.
    pub fn len(&self) -> (n: usize)
        ensures
            n == self.len,
    {
        self.len
    }

    /// Whether the arrays are empty.
    pub fn is_empty(&self) -> (b: bool)
        ensures
            b == (self.len == 0),
    {
        self.len == 0
    }

    /// This array as a generator.
    pub open spec fn as_generator(&self) -> Generator {
        Generator { function: Func::Array(*self) }
    }

    /// An array of `len` fresh values of the delegate, in the order they
    /// were produced.
    pub fn produce(&mut self) -> (v: JsonValue)
        requires
            old(self).as_generator().ready(),
            old(self).as_generator().can_step(1),
        ensures
            old(self).as_generator().admits(v@),
            final(self).as_generator() == old(self).as_generator().advance(1),
        decreases old(self).as_generator().depth(), 0nat,
    {
        let ghost start = old(self).as_generator();
        let ghost source = start.item_source();
        let len = self.len;
        proof {
            assert(1 * len as nat == len as nat) by (nonlinear_arith);
            if source is Some {
                source->0.lemma_can_step_less(0, len as nat);
                source->0.lemma_advance_zero();
            }
            assert(start.midway(0) == start);
        }
        let mut items: Vec<JsonValue> = Vec::new();
        let mut i: usize = 0;
        while i < len
            invariant
                i <= len,
                start == old(self).as_generator(),
                len == start.item_count(),
                source == start.item_source(),
                start.ready(),
                source is Some ==> source->0.can_step(len as nat),
                self.as_generator() == start.midway(i as nat),
                items.len() == i,
                forall|j: int|
                    0 <= j < i ==> match source {
                        Some(d) => d.admits_at(j as nat, #[trigger] items@[j]@),
                        None => items@[j]@ == JsonModel::Null,
                    },
            decreases len - i,
        {
            let item = match &mut self.delegate {
                Some(d) => {
                    proof {
                        let s = source->0;
                        s.lemma_can_step_less(i as nat, len as nat);
                        s.lemma_can_step_less((i + 1) as nat, len as nat);
                        s.lemma_advance_add(i as nat, 1);
                        s.lemma_advance_depth(i as nat);
                        assert(**d == s.advance(i as nat));
                        assert(start.depth() == s.depth() + 1);
                    }
                    let item = d.next();
                    proof {
                        source->0.lemma_admits_shift(i as nat, 0, item@);
                    }
                    item
                },
                None => JsonValue::Null,
            };
            items.push(item);
            i += 1;
        }
        let v = JsonValue::Array(items);
        proof {
            assert(0 * len as nat == 0) by (nonlinear_arith);
            assert forall|k: int| 0 <= k < len implies (#[trigger] v@->Array_0[k]) == items@[k]@ by {}
        }
        v
    }
}


impl GeneratorFunc for Null {
    open spec fn as_func(&self) -> Func {
        Func::Null(*self)
    }

    fn into_func(self) -> (f: Func) {
        Func::Null(self)
    }

    fn next_value(&mut self) -> (v: JsonValue) {
        self.produce()
    }

    fn merge(&self, another_gf: Func) -> (r: Result<Func, GenError>) {
        Err(cannot_merge())
    }
}

impl GeneratorFunc for UUID {
    open spec fn as_func(&self) -> Func {
        Func::Uuid(*self)
    }

    fn into_func(self) -> (f: Func) {
        Func::Uuid(self)
    }

    fn next_value(&mut self) -> (v: JsonValue) {
        self.produce()
    }

    fn merge(&self, another_gf: Func) -> (r: Result<Func, GenError>) {
        Err(cannot_merge())
    }
}

impl GeneratorFunc for Sequence {
    open spec fn as_func(&self) -> Func {
        Func::Sequence(*self)
    }

    fn into_func(self) -> (f: Func) {
        Func::Sequence(self)
    }

    fn next_value(&mut self) -> (v: JsonValue) {
        self.produce()
    }

    fn merge(&self, another_gf: Func) -> (r: Result<Func, GenError>) {
        Err(cannot_merge())
    }
}

impl GeneratorFunc for RandomBool {
    open spec fn as_func(&self) -> Func {
        Func::Bool(*self)
    }

    fn into_func(self) -> (f: Func) {
        Func::Bool(self)
    }

    fn next_value(&mut self) -> (v: JsonValue) {
        self.produce()
    }

    fn merge(&self, another_gf: Func) -> (r: Result<Func, GenError>) {
        Err(cannot_merge())
    }
}

impl GeneratorFunc for RandomInt {
    open spec fn as_func(&self) -> Func {
        Func::Int(*self)
    }

    fn into_func(self) -> (f: Func) {
        Func::Int(self)
    }

    fn next_value(&mut self) -> (v: JsonValue) {
        self.produce()
    }

    fn merge(&self, another_gf: Func) -> (r: Result<Func, GenError>) {
        Err(cannot_merge())
    }
}

impl GeneratorFunc for RandomString {
    open spec fn as_func(&self) -> Func {
        Func::Str(*self)
    }

    fn into_func(self) -> (f: Func) {
        Func::Str(self)
    }

    fn next_value(&mut self) -> (v: JsonValue) {
        self.produce()
    }

    fn merge(&self, another_gf: Func) -> (r: Result<Func, GenError>) {
        Err(cannot_merge())
    }
}

impl GeneratorFunc for CurrentDateTime {
    open spec fn as_func(&self) -> Func {
        Func::DateTime(*self)
    }

    fn into_func(self) -> (f: Func) {
        Func::DateTime(self)
    }

    fn next_value(&mut self) -> (v: JsonValue) {
        self.produce()
    }

    fn merge(&self, another_gf: Func) -> (r: Result<Func, GenError>) {
        Err(cannot_merge())
    }
}

impl GeneratorFunc for RandomFromList<String> {
    open spec fn as_func(&self) -> Func {
        Func::StrList(*self)
    }

    fn into_func(self) -> (f: Func) {
        Func::StrList(self)
    }

    fn next_value(&mut self) -> (v: JsonValue) {
        self.produce()
    }

    fn merge(&self, another_gf: Func) -> (r: Result<Func, GenError>) {
        Err(cannot_merge())
    }
}

impl GeneratorFunc for RandomFromList<i64> {
    open spec fn as_func(&self) -> Func {
        Func::IntList(*self)
    }

    fn into_func(self) -> (f: Func) {
        Func::IntList(self)
    }

    fn next_value(&mut self) -> (v: JsonValue) {
        self.produce()
    }

    fn merge(&self, another_gf: Func) -> (r: Result<Func, GenError>) {
        Err(cannot_merge())
    }
}

impl GeneratorFunc for RandomFromFile<String> {
    open spec fn as_func(&self) -> Func {
        Func::StrFile(*self)
    }

    fn into_func(self) -> (f: Func) {
        Func::StrFile(self)
    }

    fn next_value(&mut self) -> (v: JsonValue) {
        self.delegate.produce()
    }

    fn merge(&self, another_gf: Func) -> (r: Result<Func, GenError>) {
        Err(cannot_merge())
    }
}

impl GeneratorFunc for RandomFromFile<i64> {
    open spec fn as_func(&self) -> Func {
        Func::IntFile(*self)
    }

    fn into_func(self) -> (f: Func) {
        Func::IntFile(self)
    }

    fn next_value(&mut self) -> (v: JsonValue) {
        self.delegate.produce()
    }

    fn merge(&self, another_gf: Func) -> (r: Result<Func, GenError>) {
        Err(cannot_merge())
    }
}

impl GeneratorFunc for RandomArray {
    open spec fn as_func(&self) -> Func {
        Func::Array(*self)
    }

    fn into_func(self) -> (f: Func) {
        Func::Array(self)
    }

    fn next_value(&mut self) -> (v: JsonValue) {
        self.produce()
    }

    fn merge(&self, another_gf: Func) -> (r: Result<Func, GenError>) {
        Ok(Func::Array(RandomArray::new(self.len, Generator { function: another_gf })))
    }
}

} // verus!

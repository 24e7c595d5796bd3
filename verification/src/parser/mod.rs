//! The grammar of generator expressions.
//!
//! ```text
//! chain   := call ( "->" call )*
//! call    := NAME "(" arg ( "," arg )* ")"
//! arg     := quoted | bare
//! quoted  := "'" body "'"  |  "\" "'" body "'" "\"
//! bare    := any run of characters but ',' and ')'
//! ```
//!
//! Blanks may stand around every token. The body of a quoted argument is a
//! run, not empty, of characters other than `'` and `\`, and of the pair
//! `\'`; it is taken as written. An argument that starts like a quoted one
//! but is not one is read as a bare argument. A bare argument loses the
//! blanks at its end.
pub mod generator;

use crate::text::text_of;
use vstd::prelude::*;

verus! {

/// One call of an expression: the name of the function and its arguments
/// as they were written.
#[derive(Debug)]
pub struct Call {
    pub name: String,
    pub args: Vec<String>,
}

/// The content of a [`Call`].
pub struct CallModel {
    pub name: Seq<char>,
    pub args: Seq<Seq<char>>,
}

impl View for Call {
    type V = CallModel;

    open spec fn view(&self) -> CallModel {
        CallModel { name: self.name@, args: crate::text::texts(self.args@) }
    }
}

/// The views of a list of calls, in order.
pub open spec fn calls(v: Seq<Call>) -> Seq<CallModel> {
    Seq::new(v.len(), |i: int| v[i]@)
}

/// Where an argument stands: its text is `from..to`, and what follows it
/// starts at `next`.
#[derive(Debug)]
pub struct Span {
    pub from: usize,
    pub to: usize,
    pub next: usize,
}

/// A [`Span`] in a text of any length.
pub struct SpanModel {
    pub from: int,
    pub to: int,
    pub next: int,
}

impl View for Span {
    type V = SpanModel;

    open spec fn view(&self) -> SpanModel {
        SpanModel { from: self.from as int, to: self.to as int, next: self.next as int }
    }
}

/// A list of arguments, and the place after its closing bracket.
#[derive(Debug)]
pub struct ArgList {
    pub list: Vec<String>,
    pub next: usize,
}

/// An [`ArgList`] in a text of any length.
pub struct ArgListModel {
    pub list: Seq<Seq<char>>,
    pub next: int,
}

impl View for ArgList {
    type V = ArgListModel;

    open spec fn view(&self) -> ArgListModel {
        ArgListModel { list: crate::text::texts(self.list@), next: self.next as int }
    }
}

/// A call, and the place after it.
#[derive(Debug)]
pub struct Found {
    pub call: Call,
    pub next: usize,
}

/// A [`Found`] in a text of any length.
pub struct FoundModel {
    pub call: CallModel,
    pub next: int,
}

impl View for Found {
    type V = FoundModel;

    open spec fn view(&self) -> FoundModel {
        FoundModel { call: self.call@, next: self.next as int }
    }
}

/// A blank: a space, a tab, a carriage return or a line feed.
pub open spec fn is_blank(c: char) -> bool {
    c == ' ' || c == '\t' || c == '\r' || c == '\n'
}

/// A character of a function's name: a letter, a digit or `_`.
pub open spec fn is_name_char(c: char) -> bool {
    ('a' <= c && c <= 'z') || ('A' <= c && c <= 'Z') || ('0' <= c && c <= '9') || c == '_'
}

/// The first place from `i` on that holds no blank.
pub open spec fn skip_blank(s: Seq<char>, i: int) -> int
    decreases s.len() - i,
{
    if 0 <= i < s.len() && is_blank(s[i]) {
        skip_blank(s, i + 1)
    } else {
        i
    }
}

/// The first place from `i` on that holds no character of a name.
pub open spec fn name_end(s: Seq<char>, i: int) -> int
    decreases s.len() - i,
{
    if 0 <= i < s.len() && is_name_char(s[i]) {
        name_end(s, i + 1)
    } else {
        i
    }
}

/// Where the body of a quoted argument that starts at `i` ends.
pub open spec fn body_end(s: Seq<char>, i: int) -> int
    decreases s.len() - i,
{
    if 0 <= i < s.len() && s[i] != '\'' && s[i] != '\\' {
        body_end(s, i + 1)
    } else if 0 <= i && i + 1 < s.len() && s[i] == '\\' && s[i + 1] == '\'' {
        body_end(s, i + 2)
    } else {
        i
    }
}

/// The first place from `i` on that holds `,` or `)`.
pub open spec fn bare_end(s: Seq<char>, i: int) -> int
    decreases s.len() - i,
{
    if 0 <= i < s.len() && s[i] != ',' && s[i] != ')' {
        bare_end(s, i + 1)
    } else {
        i
    }
}

/// The end of `from..to` without the blanks it ends with.
pub open spec fn blank_trimmed(s: Seq<char>, from: int, to: int) -> int
    decreases to - from,
{
    if from < to <= s.len() && is_blank(s[to - 1]) {
        blank_trimmed(s, from, to - 1)
    } else {
        to
    }
}

/// The quoted argument that starts at `i`, if there is one.
pub open spec fn quoted_at(s: Seq<char>, i: int) -> Option<SpanModel> {
    let e = body_end(s, i + 1);
    if 0 <= i < s.len() && s[i] == '\'' && i + 1 < e < s.len() && s[e] == '\'' {
        Some(SpanModel { from: i + 1, to: e, next: e + 1 })
    } else {
        None
    }
}

/// The quoted argument between backslashes that starts at `i`, if there is
/// one.
pub open spec fn escaped_at(s: Seq<char>, i: int) -> Option<SpanModel> {
    let q = quoted_at(s, skip_blank(s, i + 1));
    if 0 <= i < s.len() && s[i] == '\\' && q is Some && q->0.next < s.len() && s[q->0.next] == '\\' {
        Some(SpanModel { from: q->0.from, to: q->0.to, next: q->0.next + 1 })
    } else {
        None
    }
}

/// The argument that starts at `i`, blanks before it and after it left out.
pub open spec fn arg_at(s: Seq<char>, i: int) -> SpanModel {
    let j = skip_blank(s, i);
    if escaped_at(s, j) is Some {
        let q = escaped_at(s, j)->0;
        SpanModel { from: q.from, to: q.to, next: skip_blank(s, q.next) }
    } else if quoted_at(s, j) is Some {
        let q = quoted_at(s, j)->0;
        SpanModel { from: q.from, to: q.to, next: skip_blank(s, q.next) }
    } else {
        let e = bare_end(s, j);
        SpanModel { from: j, to: blank_trimmed(s, j, e), next: e }
    }
}

/// The arguments from `i` up to the closing bracket, and the place after
/// the bracket; nothing where the list is not closed.
pub open spec fn args_from(s: Seq<char>, i: int) -> Option<ArgListModel>
    decreases s.len() - i,
{
    let a = arg_at(s, i);
    if !(0 <= i <= a.from <= a.to <= a.next < s.len()) {
        None
    } else if s[a.next] == ')' {
        Some(ArgListModel { list: seq![s.subrange(a.from, a.to)], next: a.next + 1 })
    } else if s[a.next] == ',' {
        match args_from(s, a.next + 1) {
            Some(rest) => Some(
                ArgListModel { list: seq![s.subrange(a.from, a.to)] + rest.list, next: rest.next },
            ),
            None => None,
        }
    } else {
        None
    }
}

/// The call that starts at `i`, and the place after it and the blanks that
/// follow; nothing where no call stands there.
pub open spec fn call_at(s: Seq<char>, i: int) -> Option<FoundModel> {
    let j = skip_blank(s, i);
    let k = name_end(s, j);
    let p = skip_blank(s, k);
    if 0 <= j < k <= p < s.len() && s[p] == '(' {
        match args_from(s, p + 1) {
            Some(a) => Some(
                FoundModel {
                    call: CallModel { name: s.subrange(j, k), args: a.list },
                    next: skip_blank(s, a.next),
                },
            ),
            None => None,
        }
    } else {
        None
    }
}

/// The calls of the chain that starts at `i` and runs to the end of the
/// text; nothing where the text from `i` on is no chain.
pub open spec fn chain_from(s: Seq<char>, i: int) -> Option<Seq<CallModel>>
    decreases s.len() - i,
{
    match call_at(s, i) {
        None => None,
        Some(f) => {
            let n = f.next;
            if n >= s.len() {
                Some(seq![f.call])
            } else if i <= n && n + 1 < s.len() && s[n] == '-' && s[n + 1] == '>' {
                match chain_from(s, n + 2) {
                    Some(rest) => Some(seq![f.call] + rest),
                    None => None,
                }
            } else {
                None
            }
        },
    }
}

/// The calls of an expression; nothing where the text is no expression.
pub open spec fn parsed(s: Seq<char>) -> Option<Seq<CallModel>> {
    chain_from(s, 0)
}

/// Whether a character is a blank.
pub fn is_space(c: char) -> (b: bool)
    ensures
        b == is_blank(c),
{
    c == ' ' || c == '\t' || c == '\r' || c == '\n'
}

/// Whether a character may stand in a function's name.
pub fn is_name(c: char) -> (b: bool)
    ensures
        b == is_name_char(c),
{
    ('a' <= c && c <= 'z') || ('A' <= c && c <= 'Z') || ('0' <= c && c <= '9') || c == '_'
}

/// Skips the blanks from `i` on.
pub fn sp(chars: &Vec<char>, i: usize) -> (j: usize)
    requires
        i <= chars.len(),
    ensures
        j == skip_blank(chars@, i as int),
        i <= j <= chars.len(),
{
    let mut j: usize = i;
    while j < chars.len() && is_space(chars[j])
        invariant
            i <= j <= chars.len(),
            skip_blank(chars@, i as int) == skip_blank(chars@, j as int),
        decreases chars.len() - j,
    {
        j += 1;
    }
    j
}

/// Skips the characters of a name from `i` on.
pub fn name_stop(chars: &Vec<char>, i: usize) -> (j: usize)
    requires
        i <= chars.len(),
    ensures
        j == name_end(chars@, i as int),
        i <= j <= chars.len(),
{
    let mut j: usize = i;
    while j < chars.len() && is_name(chars[j])
        invariant
            i <= j <= chars.len(),
            name_end(chars@, i as int) == name_end(chars@, j as int),
        decreases chars.len() - j,
    {
        j += 1;
    }
    j
}

/// Skips the body of a quoted argument from `i` on.
pub fn body_stop(chars: &Vec<char>, i: usize) -> (j: usize)
    requires
        i <= chars.len(),
    ensures
        j == body_end(chars@, i as int),
        i <= j <= chars.len(),
{
    let mut j: usize = i;
    loop
        invariant
            i <= j <= chars.len(),
            body_end(chars@, i as int) == body_end(chars@, j as int),
        ensures
            j == body_end(chars@, j as int),
        decreases chars.len() - j,
    {
        if j >= chars.len() {
            break ;
        }
        let c = chars[j];
        if c != '\'' && c != '\\' {
            j += 1;
        } else if c == '\\' && j + 1 < chars.len() && chars[j + 1] == '\'' {
            j += 2;
        } else {
            break ;
        }
    }
    j
}

/// Skips everything from `i` on up to the next `,` or `)`.
pub fn bare_stop(chars: &Vec<char>, i: usize) -> (j: usize)
    requires
        i <= chars.len(),
    ensures
        j == bare_end(chars@, i as int),
        i <= j <= chars.len(),
{
    let mut j: usize = i;
    while j < chars.len() && chars[j] != ',' && chars[j] != ')'
        invariant
            i <= j <= chars.len(),
            bare_end(chars@, i as int) == bare_end(chars@, j as int),
        decreases chars.len() - j,
    {
        j += 1;
    }
    j
}

/// The end of `from..to` without the blanks it ends with.
pub fn blank_trim(chars: &Vec<char>, from: usize, to: usize) -> (t: usize)
    requires
        from <= to <= chars.len(),
    ensures
        t == blank_trimmed(chars@, from as int, to as int),
        from <= t <= to,
{
    let mut t: usize = to;
    while from < t && is_space(chars[t - 1])
        invariant
            from <= t <= to <= chars.len(),
            blank_trimmed(chars@, from as int, to as int) == blank_trimmed(chars@, from as int, t as int),
        decreases t - from,
    {
        t -= 1;
    }
    t
}

/// Reads a quoted argument at `i`.
pub fn escaped_string(chars: &Vec<char>, i: usize) -> (r: Option<Span>)
    requires
        i <= chars.len(),
    ensures
        r is Some <==> quoted_at(chars@, i as int) is Some,
        r is Some ==> r->0@ == quoted_at(chars@, i as int)->0,
        r is Some ==> i < r->0.from <= r->0.to < r->0.next <= chars.len(),
{
    if i >= chars.len() || chars[i] != '\'' {
        return None;
    }
    let e = body_stop(chars, i + 1);
    if i + 1 < e && e < chars.len() && chars[e] == '\'' {
        Some(Span { from: i + 1, to: e, next: e + 1 })
    } else {
        None
    }
}

/// Reads a quoted argument between backslashes at `i`.
pub fn start_from_esc_string(chars: &Vec<char>, i: usize) -> (r: Option<Span>)
    requires
        i <= chars.len(),
    ensures
        r is Some <==> escaped_at(chars@, i as int) is Some,
        r is Some ==> r->0@ == escaped_at(chars@, i as int)->0,
        r is Some ==> i < r->0.from <= r->0.to < r->0.next <= chars.len(),
{
    if i >= chars.len() || chars[i] != '\\' {
        return None;
    }
    let j = sp(chars, i + 1);
    match escaped_string(chars, j) {
        Some(q) => {
            if q.next < chars.len() && chars[q.next] == '\\' {
                Some(Span { from: q.from, to: q.to, next: q.next + 1 })
            } else {
                None
            }
        },
        None => None,
    }
}

/// Reads a bare argument at `i`.
pub fn string(chars: &Vec<char>, i: usize) -> (r: Span)
    requires
        i <= chars.len(),
    ensures
        r.from == i,
        r.next == bare_end(chars@, i as int),
        r.to == blank_trimmed(chars@, i as int, r.next as int),
        i <= r.to <= r.next <= chars.len(),
{
    let e = bare_stop(chars, i);
    Span { from: i, to: blank_trim(chars, i, e), next: e }
}

/// Reads the argument at `i`: a quoted one where one stands there, a bare
/// one otherwise.
pub fn plain_string(chars: &Vec<char>, i: usize) -> (r: Span)
    requires
        i <= chars.len(),
    ensures
        r@ == arg_at(chars@, i as int),
        i <= r.from <= r.to <= r.next <= chars.len(),
{
    let j = sp(chars, i);
    match start_from_esc_string(chars, j) {
        Some(q) => Span { from: q.from, to: q.to, next: sp(chars, q.next) },
        None => match escaped_string(chars, j) {
            Some(q) => Span { from: q.from, to: q.to, next: sp(chars, q.next) },
            None => string(chars, j),
        },
    }
}

/// Reads the arguments from `i` up to the closing bracket.
pub fn args(chars: &Vec<char>, i: usize) -> (r: Option<ArgList>)
    requires
        i <= chars.len(),
    ensures
        r is Some <==> args_from(chars@, i as int) is Some,
        r is Some ==> r->0@ == args_from(chars@, i as int)->0,
        r is Some ==> i < r->0.next <= chars.len(),
    decreases chars.len() - i,
{
    let a = plain_string(chars, i);
    if a.next >= chars.len() {
        return None;
    }
    let head = text_of(chars, a.from, a.to);
    if chars[a.next] == ')' {
        let mut list: Vec<String> = Vec::new();
        list.push(head);
        assert(crate::text::texts(list@) =~= seq![chars@.subrange(a.from as int, a.to as int)]);
        Some(ArgList { list, next: a.next + 1 })
    } else if chars[a.next] == ',' {
        match args(chars, a.next + 1) {
            Some(rest) => {
                let mut list = rest.list;
                let ghost before = crate::text::texts(list@);
                list.insert(0, head);
                assert(crate::text::texts(list@) =~= seq![chars@.subrange(a.from as int, a.to as int)]
                    + before);
                Some(ArgList { list, next: rest.next })
            },
            None => None,
        }
    } else {
        None
    }
}

/// Reads the call at `i`: a name, then the arguments in brackets.
pub fn func_with_br(chars: &Vec<char>, i: usize) -> (r: Option<Found>)
    requires
        i <= chars.len(),
    ensures
        r is Some <==> call_at(chars@, i as int) is Some,
        r is Some ==> r->0@ == call_at(chars@, i as int)->0,
        r is Some ==> i < r->0.next <= chars.len(),
{
    let j = sp(chars, i);
    let k = name_stop(chars, j);
    let p = sp(chars, k);
    if j < k && p < chars.len() && chars[p] == '(' {
        match args(chars, p + 1) {
            Some(a) => {
                let name = text_of(chars, j, k);
                Some(Found { call: Call { name, args: a.list }, next: sp(chars, a.next) })
            },
            None => None,
        }
    } else {
        None
    }
}

/// Reads the chain of calls from `i` to the end of the text.
pub fn chain(chars: &Vec<char>, i: usize) -> (r: Option<Vec<Call>>)
    requires
        i <= chars.len(),
    ensures
        r is Some <==> chain_from(chars@, i as int) is Some,
        r is Some ==> calls(r->0@) == chain_from(chars@, i as int)->0,
        r is Some ==> r->0@.len() > 0,
    decreases chars.len() - i,
{
    match func_with_br(chars, i) {
        None => None,
        Some(f) => {
            let n = f.next;
            let c = f.call;
            if n >= chars.len() {
                let mut list: Vec<Call> = Vec::new();
                let ghost first = c@;
                list.push(c);
                assert(calls(list@) =~= seq![first]);
                Some(list)
            } else if n + 1 < chars.len() && chars[n] == '-' && chars[n + 1] == '>' {
                match chain(chars, n + 2) {
                    Some(rest) => {
                        let mut list = rest;
                        let ghost before = calls(list@);
                        let ghost first = c@;
                        list.insert(0, c);
                        assert(calls(list@) =~= seq![first] + before);
                        Some(list)
                    },
                    None => None,
                }
            } else {
                None
            }
        },
    }
}

/// Reads an expression.
pub fn parse(expr: &str) -> (r: Option<Vec<Call>>)
    ensures
        r is Some <==> parsed(expr@) is Some,
        r is Some ==> calls(r->0@) == parsed(expr@)->0,
        r is Some ==> r->0@.len() > 0,
{
    let chars = crate::text::chars_of(expr);
    chain(&chars, 0)
}

} // verus!

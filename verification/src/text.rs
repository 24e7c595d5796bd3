//! Texts as sequences of characters: taking one apart and putting one
//! together.
use vstd::prelude::*;

verus! {

broadcast use vstd::string::group_string_axioms;

/// `String::push` appends one character.
pub assume_specification[ std::string::String::push ](s: &mut std::string::String, c: char)
    ensures
        final(s)@ == old(s)@.push(c),
;

/// The characters of a text, in order.
pub fn chars_of(s: &str) -> (v: Vec<char>)
    ensures
        v@ == s@,
{
    let mut v: Vec<char> = Vec::new();
    for c in it: s.chars()
        invariant
            it.seq() == s@,
            v@ == s@.subrange(0, it.index() as int),
    {
        v.push(c);
    }
    v
}

/// The text made of the characters `chars[from..to]`.
pub fn text_of(chars: &Vec<char>, from: usize, to: usize) -> (s: String)
    requires
        from <= to <= chars.len(),
    ensures
        s@ == chars@.subrange(from as int, to as int),
{
    let mut s = String::new();
    let mut i: usize = from;
    while i < to
        invariant
            from <= i <= to <= chars.len(),
            s@ == chars@.subrange(from as int, i as int),
        decreases to - i,
    {
        s.push(chars[i]);
        i += 1;
    }
    s
}

/// The views of a list of texts, in order.
pub open spec fn texts(v: Seq<String>) -> Seq<Seq<char>> {
    Seq::new(v.len(), |i: int| v[i]@)
}

/// White space as the standard library's `trim` knows it.
pub open spec fn is_whitespace(c: char) -> bool {
    ||| ('\u{9}' <= c && c <= '\u{d}')
    ||| c == ' '
    ||| c == '\u{85}'
    ||| c == '\u{a0}'
    ||| c == '\u{1680}'
    ||| ('\u{2000}' <= c && c <= '\u{200a}')
    ||| c == '\u{2028}'
    ||| c == '\u{2029}'
    ||| c == '\u{202f}'
    ||| c == '\u{205f}'
    ||| c == '\u{3000}'
}

/// A text without the white space it starts with.
pub open spec fn trimmed_start(s: Seq<char>) -> Seq<char>
    decreases s.len(),
{
    if s.len() > 0 && is_whitespace(s[0]) {
        trimmed_start(s.skip(1))
    } else {
        s
    }
}

/// A text without the white space it ends with.
pub open spec fn trimmed_end(s: Seq<char>) -> Seq<char>
    decreases s.len(),
{
    if s.len() > 0 && is_whitespace(s.last()) {
        trimmed_end(s.drop_last())
    } else {
        s
    }
}

/// A text without the white space around it.
pub open spec fn trimmed(s: Seq<char>) -> Seq<char> {
    trimmed_end(trimmed_start(s))
}

/// The pieces into which the occurrences of `delim` cut the text `s`, found
/// from left to right, where the piece being read began at `start` and the
/// search has come to `at`.
pub open spec fn pieces_from(s: Seq<char>, delim: Seq<char>, start: int, at: int) -> Seq<Seq<char>>
    decreases s.len() - at,
{
    if delim.len() == 0 || at < 0 || at + delim.len() > s.len() {
        seq![s.subrange(start, s.len() as int)]
    } else if s.subrange(at, at + delim.len()) == delim {
        seq![s.subrange(start, at)] + pieces_from(s, delim, at + delim.len(), at + delim.len())
    } else {
        pieces_from(s, delim, start, at + 1)
    }
}

/// The pieces into which `delim` cuts the text `s`. An empty `delim` cuts
/// before, between and after the characters, so that the first piece and the
/// last are empty.
pub open spec fn pieces(s: Seq<char>, delim: Seq<char>) -> Seq<Seq<char>> {
    if delim.len() == 0 {
        seq![Seq::<char>::empty()] + Seq::new(s.len(), |i: int| seq![s[i]]) + seq![Seq::<char>::empty()]
    } else {
        pieces_from(s, delim, 0, 0)
    }
}

/// Whether the text `s` begins with the text `prefix`.
pub open spec fn starts_with(s: Seq<char>, prefix: Seq<char>) -> bool {
    prefix.len() <= s.len() && s.subrange(0, prefix.len() as int) == prefix
}

/// The texts of `parts` with `delim` between each two of them.
pub open spec fn joined(parts: Seq<Seq<char>>, delim: Seq<char>) -> Seq<char>
    decreases parts.len(),
{
    if parts.len() == 0 {
        Seq::empty()
    } else if parts.len() == 1 {
        parts[0]
    } else {
        parts[0] + delim + joined(parts.skip(1), delim)
    }
}

/// The pieces read from a place on, put together again with the delimiter
/// between them, are the text from where the first of them began.
pub proof fn lemma_pieces_from_join(s: Seq<char>, delim: Seq<char>, start: int, at: int)
    requires
        delim.len() > 0,
        0 <= start <= at <= s.len(),
    ensures
        pieces_from(s, delim, start, at).len() > 0,
        joined(pieces_from(s, delim, start, at), delim) == s.subrange(start, s.len() as int),
    decreases s.len() - at,
{
    if at + delim.len() > s.len() {
    } else if s.subrange(at, at + delim.len()) == delim {
        let next = at + delim.len();
        let rest = pieces_from(s, delim, next, next);
        lemma_pieces_from_join(s, delim, next, next);
        let all = seq![s.subrange(start, at)] + rest;
        assert(all.skip(1) =~= rest);
        assert(all[0] == s.subrange(start, at));
        assert(s.subrange(start, at) + delim + s.subrange(next, s.len() as int) =~= s.subrange(
            start,
            s.len() as int,
        ));
    } else {
        lemma_pieces_from_join(s, delim, start, at + 1);
    }
}

/// The characters of a text from `i` on, each a text of its own, and an
/// empty text behind them, put together with nothing in between, are the
/// text from `i` on.
pub proof fn lemma_singles_join(s: Seq<char>, i: int)
    requires
        0 <= i <= s.len(),
    ensures
        joined(
            Seq::new((s.len() - i) as nat, |j: int| seq![s[i + j]]) + seq![Seq::<char>::empty()],
            Seq::empty(),
        ) == s.subrange(i, s.len() as int),
    decreases s.len() - i,
{
    let here = Seq::new((s.len() - i) as nat, |j: int| seq![s[i + j]]) + seq![Seq::<char>::empty()];
    if i == s.len() {
        assert(here.len() == 1);
        assert(here[0] =~= s.subrange(i, s.len() as int));
    } else {
        let rest = Seq::new((s.len() - i - 1) as nat, |j: int| seq![s[i + 1 + j]]) + seq![
            Seq::<char>::empty(),
        ];
        lemma_singles_join(s, i + 1);
        assert(here.skip(1) =~= rest);
        assert(here[0] == seq![s[i]]);
        assert(seq![s[i]] + Seq::<char>::empty() + s.subrange(i + 1, s.len() as int) =~= s.subrange(
            i,
            s.len() as int,
        ));
    }
}

/// Cutting a text and putting the pieces together again with the delimiter
/// between them gives the text back.
pub proof fn lemma_pieces_join(s: Seq<char>, delim: Seq<char>)
    ensures
        pieces(s, delim).len() > 0,
        joined(pieces(s, delim), delim) == s,
{
    if delim.len() == 0 {
        let tail = Seq::new(s.len(), |i: int| seq![s[i]]) + seq![Seq::<char>::empty()];
        let all = pieces(s, delim);
        lemma_singles_join(s, 0);
        assert(Seq::new((s.len() - 0) as nat, |j: int| seq![s[0 + j]]) =~= Seq::new(
            s.len(),
            |i: int| seq![s[i]],
        ));
        assert(all =~= seq![Seq::<char>::empty()] + tail);
        assert(all.skip(1) =~= tail);
        assert(all[0] == Seq::<char>::empty());
        assert(Seq::<char>::empty() + delim + s.subrange(0, s.len() as int) =~= s);
    } else {
        lemma_pieces_from_join(s, delim, 0, 0);
        assert(s.subrange(0, s.len() as int) =~= s);
    }
}

/// Whether a character is white space.
pub fn whitespace(c: char) -> (b: bool)
    ensures
        b == is_whitespace(c),
{
    ('\u{9}' <= c && c <= '\u{d}') || c == ' ' || c == '\u{85}' || c == '\u{a0}' || c == '\u{1680}' || (
    '\u{2000}' <= c && c <= '\u{200a}') || c == '\u{2028}' || c == '\u{2029}' || c == '\u{202f}' || c
        == '\u{205f}' || c == '\u{3000}'
}

/// The bounds of `chars[from..to]` without the white space around it.
pub fn trim_bounds(chars: &Vec<char>, from: usize, to: usize) -> (r: (usize, usize))
    requires
        from <= to <= chars.len(),
    ensures
        from <= r.0 <= r.1 <= to,
        chars@.subrange(r.0 as int, r.1 as int) == trimmed(chars@.subrange(from as int, to as int)),
{
    let mut a: usize = from;
    while a < to && whitespace(chars[a])
        invariant
            from <= a <= to <= chars.len(),
            trimmed_start(chars@.subrange(from as int, to as int)) == trimmed_start(
                chars@.subrange(a as int, to as int),
            ),
        decreases to - a,
    {
        assert(chars@.subrange(a as int, to as int).skip(1) == chars@.subrange(a + 1, to as int));
        a += 1;
    }
    let mut b: usize = to;
    while a < b && whitespace(chars[b - 1])
        invariant
            a <= b <= to <= chars.len(),
            trimmed_end(chars@.subrange(a as int, to as int)) == trimmed_end(
                chars@.subrange(a as int, b as int),
            ),
        decreases b - a,
    {
        assert(chars@.subrange(a as int, b as int).drop_last() == chars@.subrange(a as int, b - 1));
        b -= 1;
    }
    (a, b)
}

/// Whether `delim` stands in `chars` at `at`.
pub fn stands_at(chars: &Vec<char>, delim: &Vec<char>, at: usize) -> (b: bool)
    requires
        at <= chars.len(),
        delim.len() <= chars.len() - at,
    ensures
        b == (chars@.subrange(at as int, at + delim.len()) == delim@),
{
    let mut k: usize = 0;
    while k < delim.len()
        invariant
            k <= delim.len() <= chars.len() - at,
            at <= chars.len(),
            forall|j: int| 0 <= j < k ==> chars@[at + j] == delim@[j],
        decreases delim.len() - k,
    {
        if chars[at + k] != delim[k] {
            assert(chars@.subrange(at as int, at + delim.len())[k as int] != delim@[k as int]);
            return false;
        }
        k += 1;
    }
    assert(chars@.subrange(at as int, at + delim.len()) =~= delim@);
    true
}

/// Cuts a text at every occurrence of `delim`.
pub fn split(chars: &Vec<char>, delim: &Vec<char>) -> (out: Vec<String>)
    ensures
        texts(out@) == pieces(chars@, delim@),
{
    let mut out: Vec<String> = Vec::new();
    if delim.len() == 0 {
        out.push(String::new());
        let mut i: usize = 0;
        while i < chars.len()
            invariant
                i <= chars.len(),
                texts(out@) == seq![Seq::<char>::empty()] + Seq::new(i as nat, |j: int| seq![chars@[j]]),
            decreases chars.len() - i,
        {
            let piece = text_of(chars, i, i + 1);
            assert(piece@ =~= seq![chars@[i as int]]);
            let ghost before = texts(out@);
            out.push(piece);
            assert(texts(out@) =~= before.push(seq![chars@[i as int]]));
            assert(texts(out@) =~= seq![Seq::<char>::empty()] + Seq::new(
                (i + 1) as nat,
                |j: int| seq![chars@[j]],
            ));
            i += 1;
        }
        out.push(String::new());
        assert(texts(out@) =~= pieces(chars@, delim@));
        return out;
    }
    let mut start: usize = 0;
    let mut at: usize = 0;
    while at <= chars.len() && delim.len() <= chars.len() - at
        invariant
            0 < delim.len(),
            start <= at,
            start <= chars.len(),
            pieces(chars@, delim@) == texts(out@) + pieces_from(chars@, delim@, start as int, at as int),
        decreases chars.len() + 1 - at,
    {
        if stands_at(chars, delim, at) {
            let piece = text_of(chars, start, at);
            let ghost before = texts(out@);
            out.push(piece);
            assert(texts(out@) =~= before + seq![chars@.subrange(start as int, at as int)]);
            at = at + delim.len();
            start = at;
        } else {
            at += 1;
        }
    }
    let piece = text_of(chars, start, chars.len());
    let ghost before = texts(out@);
    out.push(piece);
    assert(texts(out@) =~= before + seq![chars@.subrange(start as int, chars@.len() as int)]);
    out
}

/// Whether two lists hold the same characters.
pub fn same_chars(x: &Vec<char>, y: &Vec<char>) -> (r: bool)
    ensures
        r == (x@ == y@),
{
    if x.len() != y.len() {
        return false;
    }
    let mut i: usize = 0;
    while i < x.len()
        invariant
            i <= x.len(),
            x.len() == y.len(),
            forall|k: int| 0 <= k < i ==> x@[k] == y@[k],
        decreases x.len() - i,
    {
        if x[i] != y[i] {
            return false;
        }
        i += 1;
    }
    assert(x@ =~= y@);
    true
}

/// Whether two texts hold the same characters.
pub fn same_text(a: &str, b: &str) -> (r: bool)
    ensures
        r == (a@ == b@),
{
    let x = chars_of(a);
    let y = chars_of(b);
    same_chars(&x, &y)
}

} // verus!

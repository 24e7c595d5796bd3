//! Values as JSON text, on one line and without blanks.
use crate::text::chars_of;
use crate::value::{JsonModel, JsonValue, Number};
use vstd::prelude::*;

verus! {

/// The character for a digit below sixteen: `0` to `9`, then `a` to `f`.
pub open spec fn hex_char(d: int) -> char {
    if d == 0 {
        '0'
    } else if d == 1 {
        '1'
    } else if d == 2 {
        '2'
    } else if d == 3 {
        '3'
    } else if d == 4 {
        '4'
    } else if d == 5 {
        '5'
    } else if d == 6 {
        '6'
    } else if d == 7 {
        '7'
    } else if d == 8 {
        '8'
    } else if d == 9 {
        '9'
    } else if d == 10 {
        'a'
    } else if d == 11 {
        'b'
    } else if d == 12 {
        'c'
    } else if d == 13 {
        'd'
    } else if d == 14 {
        'e'
    } else {
        'f'
    }
}

/// A number in decimal notation, without needless zeros.
pub open spec fn digits_of(n: nat) -> Seq<char>
    decreases n,
{
    if n < 10 {
        seq![hex_char(n as int)]
    } else {
        digits_of(n / 10).push(hex_char((n % 10) as int))
    }
}

/// A whole number in decimal notation, with a minus sign where it is
/// negative.
pub open spec fn int_text(i: int) -> Seq<char> {
    if i < 0 {
        seq!['-'] + digits_of((-i) as nat)
    } else {
        digits_of(i as nat)
    }
}

/// How a character stands inside quotes: a quote, a backslash and a control
/// character are written with a backslash; any other stands for itself.
pub open spec fn escape_of(c: char) -> Seq<char> {
    if c == '"' {
        seq!['\\', '"']
    } else if c == '\\' {
        seq!['\\', '\\']
    } else if c == '\n' {
        seq!['\\', 'n']
    } else if c == '\r' {
        seq!['\\', 'r']
    } else if c == '\t' {
        seq!['\\', 't']
    } else if c == '\u{8}' {
        seq!['\\', 'b']
    } else if c == '\u{c}' {
        seq!['\\', 'f']
    } else if (c as int) < 32 {
        seq!['\\', 'u', '0', '0', hex_char((c as int) / 16), hex_char((c as int) % 16)]
    } else {
        seq![c]
    }
}

/// A text as it stands inside quotes.
pub open spec fn escaped(s: Seq<char>) -> Seq<char>
    decreases s.len(),
{
    if s.len() == 0 {
        Seq::empty()
    } else {
        escaped(s.drop_last()) + escape_of(s.last())
    }
}

/// A text in quotes.
pub open spec fn quoted(s: Seq<char>) -> Seq<char> {
    seq!['"'] + escaped(s) + seq!['"']
}

/// The number of items of an array or of fields of an object.
pub open spec fn count(v: JsonModel) -> nat {
    match v {
        JsonModel::Array(items) => items.len(),
        JsonModel::Object(fields) => fields.len(),
        _ => 0,
    }
}

/// A value as JSON text.
pub open spec fn json_text(v: JsonModel) -> Seq<char>
    decreases v, 1nat, 0nat,
{
    match v {
        JsonModel::Null => "null"@,
        JsonModel::Bool(b) => if b {
            "true"@
        } else {
            "false"@
        },
        JsonModel::Int(i) => int_text(i),
        JsonModel::Decimal(t) => t,
        JsonModel::Text(s) => quoted(s),
        JsonModel::Array(_) => seq!['['] + parts_text(v, 0) + seq![']'],
        JsonModel::Object(_) => seq!['{'] + parts_text(v, 0) + seq!['}'],
    }
}

/// The items of an array, or the fields of an object, from part `i` on, as
/// JSON text: a comma before each but the first, and each field as its name
/// in quotes, a colon and its value.
pub open spec fn parts_text(v: JsonModel, i: int) -> Seq<char>
    decreases v, 0nat, count(v) - i,
{
    if i < 0 || i >= count(v) {
        Seq::empty()
    } else {
        let comma = if i > 0 {
            seq![',']
        } else {
            Seq::empty()
        };
        let here = match v {
            JsonModel::Array(items) => json_text(items[i]),
            JsonModel::Object(fields) => quoted(fields[i].0) + seq![':'] + json_text(fields[i].1),
            _ => Seq::empty(),
        };
        comma + here + parts_text(v, i + 1)
    }
}

/// The character for a digit below sixteen.
pub fn hex_digit(d: u32) -> (c: char)
    requires
        d < 16,
    ensures
        c == hex_char(d as int),
{
    if d == 0 {
        '0'
    } else if d == 1 {
        '1'
    } else if d == 2 {
        '2'
    } else if d == 3 {
        '3'
    } else if d == 4 {
        '4'
    } else if d == 5 {
        '5'
    } else if d == 6 {
        '6'
    } else if d == 7 {
        '7'
    } else if d == 8 {
        '8'
    } else if d == 9 {
        '9'
    } else if d == 10 {
        'a'
    } else if d == 11 {
        'b'
    } else if d == 12 {
        'c'
    } else if d == 13 {
        'd'
    } else if d == 14 {
        'e'
    } else {
        'f'
    }
}

/// Writes a number in decimal notation.
pub fn push_digits(n: u64, out: &mut String)
    ensures
        final(out)@ == old(out)@ + digits_of(n as nat),
    decreases n,
{
    if n >= 10 {
        push_digits(n / 10, out);
    }
    out.push(hex_digit((n % 10) as u32));
    assert(out@ =~= old(out)@ + digits_of(n as nat));
}

/// Writes a whole number in decimal notation.
pub fn push_int(i: i64, out: &mut String)
    ensures
        final(out)@ == old(out)@ + int_text(i as int),
{
    if i < 0 {
        out.push('-');
        let size: u64 = if i == i64::MIN {
            9223372036854775808
        } else {
            (-i) as u64
        };
        push_digits(size, out);
        assert(out@ =~= old(out)@ + int_text(i as int));
    } else {
        push_digits(i as u64, out);
    }
}

/// Writes a character as it stands inside quotes.
pub fn push_escape(c: char, out: &mut String)
    ensures
        final(out)@ == old(out)@ + escape_of(c),
{
    if c == '"' {
        out.push('\\');
        out.push('"');
    } else if c == '\\' {
        out.push('\\');
        out.push('\\');
    } else if c == '\n' {
        out.push('\\');
        out.push('n');
    } else if c == '\r' {
        out.push('\\');
        out.push('r');
    } else if c == '\t' {
        out.push('\\');
        out.push('t');
    } else if c == '\u{8}' {
        out.push('\\');
        out.push('b');
    } else if c == '\u{c}' {
        out.push('\\');
        out.push('f');
    } else if (c as u32) < 32 {
        let code = c as u32;
        out.push('\\');
        out.push('u');
        out.push('0');
        out.push('0');
        out.push(hex_digit(code / 16));
        out.push(hex_digit(code % 16));
    } else {
        out.push(c);
    }
    assert(out@ =~= old(out)@ + escape_of(c));
}

/// Writes a text in quotes.
pub fn push_quoted(s: &str, out: &mut String)
    ensures
        final(out)@ == old(out)@ + quoted(s@),
{
    let chars = chars_of(s);
    out.push('"');
    let mut i: usize = 0;
    while i < chars.len()
        invariant
            i <= chars.len(),
            chars@ == s@,
            out@ == old(out)@ + seq!['"'] + escaped(chars@.subrange(0, i as int)),
        decreases chars.len() - i,
    {
        assert(chars@.subrange(0, i + 1).drop_last() == chars@.subrange(0, i as int));
        push_escape(chars[i], out);
        assert(out@ =~= old(out)@ + seq!['"'] + escaped(chars@.subrange(0, i + 1)));
        i += 1;
    }
    assert(chars@.subrange(0, i as int) == chars@);
    out.push('"');
    assert(out@ =~= old(out)@ + quoted(s@));
}

impl JsonValue {
    /// Writes the value as JSON text behind what `out` holds.
    #[verifier::loop_isolation(false)]
    pub fn write_to(&self, out: &mut String)
        ensures
            final(out)@ == old(out)@ + json_text(self@),
        decreases self,
    {
        match self {
            JsonValue::Null => out.append("null"),
            JsonValue::Bool(b) => {
                if *b {
                    out.append("true");
                } else {
                    out.append("false");
                }
            },
            JsonValue::Number(Number::Int(i)) => push_int(*i, out),
            JsonValue::Number(Number::Decimal(t)) => out.append(t.as_str()),
            JsonValue::String(s) => push_quoted(s.as_str(), out),
            JsonValue::Array(items) => {
                out.push('[');
                let ghost base = out@;
                let mut i: usize = 0;
                assert(out@ + parts_text(self@, 0) =~= base + parts_text(self@, 0));
                while i < items.len()
                    invariant
                        i <= items.len(),
                        base == old(out)@.push('['),
                        out@ + parts_text(self@, i as int) == base + parts_text(self@, 0),
                    decreases items.len() - i,
                {
                    assert(self@->Array_0[i as int] == items[i as int]@);
                    let ghost before = out@;
                    let ghost rest = parts_text(self@, i + 1);
                    if i > 0 {
                        out.push(',');
                    }
                    items[i].write_to(out);
                    let ghost comma = if i > 0 {
                        seq![',']
                    } else {
                        Seq::<char>::empty()
                    };
                    assert(out@ =~= before + comma + json_text(items[i as int]@));
                    assert(out@ + rest =~= before + (comma + json_text(items[i as int]@) + rest));
                    i += 1;
                }
                assert(out@ + Seq::<char>::empty() =~= out@);
                out.push(']');
                assert(out@ =~= old(out)@ + json_text(self@));
            },
            JsonValue::Object(fields) => {
                out.push('{');
                let ghost base = out@;
                let mut i: usize = 0;
                assert(out@ + parts_text(self@, 0) =~= base + parts_text(self@, 0));
                while i < fields.len()
                    invariant
                        i <= fields.len(),
                        base == old(out)@.push('{'),
                        out@ + parts_text(self@, i as int) == base + parts_text(self@, 0),
                    decreases fields.len() - i,
                {
                    assert(self@->Object_0[i as int] == (fields[i as int].0@, fields[i as int].1@));
                    let ghost before = out@;
                    let ghost rest = parts_text(self@, i + 1);
                    if i > 0 {
                        out.push(',');
                    }
                    push_quoted(fields[i].0.as_str(), out);
                    out.push(':');
                    fields[i].1.write_to(out);
                    let ghost comma = if i > 0 {
                        seq![',']
                    } else {
                        Seq::<char>::empty()
                    };
                    let ghost here = quoted(fields[i as int].0@) + seq![':'] + json_text(
                        fields[i as int].1@,
                    );
                    assert(out@ =~= before + comma + here);
                    assert(out@ + rest =~= before + (comma + here + rest));
                    i += 1;
                }
                assert(out@ + Seq::<char>::empty() =~= out@);
                out.push('}');
                assert(out@ =~= old(out)@ + json_text(self@));
            },
        }
    }

    /// The value as JSON text.
    pub fn to_string(&self) -> (s: String)
        ensures
            s@ == json_text(self@),
    {
        let mut s = String::new();
        self.write_to(&mut s);
        assert(Seq::<char>::empty() + json_text(self@) =~= json_text(self@));
        s
    }
}

} // verus!

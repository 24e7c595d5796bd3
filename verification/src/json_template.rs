//! Templates: JSON documents in which generators stand for some values.
use crate::document::{document_error_text, json_document, read_document};
use crate::error::{GenError, GenErrorKind, GenErrorType};
use crate::files::Files;
use crate::generator::Generator;
use crate::json_text::json_text;
use crate::parser::generator::{
    ends_with, expression_paths, failure, generator, is_chain, paths,
};
use crate::parser::parsed;
use crate::text::{chars_of, stands_at, starts_with, text_of, texts};
use crate::value::{JsonModel, JsonValue};
use vstd::prelude::*;

verus! {

broadcast use vstd::std_specs::vec::group_vec_axioms;

/// A JSON document whose values are fixed or come from generators.
#[derive(Debug)]
pub enum JsonTemplate {
    /// An object: its fields, in order.
    Object(Vec<(String, JsonTemplate)>),
    /// An array: its items, in order.
    Array(Vec<JsonTemplate>),
    /// A fixed value.
    Plain(JsonValue),
    /// A value that a generator produces afresh for every document.
    Gen(Generator),
}

/// A name without the indicator it begins with.
pub open spec fn stripped(name: Seq<char>, indicator: Seq<char>) -> Seq<char> {
    name.subrange(indicator.len() as int, name.len() as int)
}

/// The number of fields of an object or of items of an array.
pub open spec fn parts(v: JsonModel) -> nat {
    match v {
        JsonModel::Object(fields) => fields.len(),
        JsonModel::Array(items) => items.len(),
        _ => 0,
    }
}

/// Why a document cannot be compiled: what is wrong, and the text that it
/// is wrong with.
pub struct CompileFailure {
    /// What is wrong.
    pub kind: GenErrorKind,
    /// The expression that gives no generator, or the name, as it is written,
    /// of the marked field that holds no text.
    pub about: Seq<char>,
}

/// Whether `e` is the error for `f`: it is of the kind of `f`, and its cause
/// ends with the text that `f` is about.
pub open spec fn reports(e: GenError, f: CompileFailure) -> bool {
    e.kind == f.kind && ends_with(e.reason@, f.about)
}

/// Why a document cannot be compiled, if it cannot: the first failure met
/// when its fields and items are gone through in order.
pub open spec fn compile_failure(v: JsonModel, indicator: Seq<char>, files: Files) -> Option<
    CompileFailure,
>
    decreases v, 1nat, 0nat,
{
    failure_from(v, indicator, files, 0)
}

/// Why the text of a marked field gives no generator, if it gives none.
pub open spec fn expression_failure(e: Seq<char>, files: Files) -> Option<CompileFailure> {
    match failure(e, files) {
        Some(kind) => Some(CompileFailure { kind, about: e }),
        None => None,
    }
}

/// Why part `i` of a document, or a later part, cannot be compiled. A field
/// whose name begins with the indicator must hold a text, and the text must
/// be an expression that gives a generator.
pub open spec fn failure_from(v: JsonModel, indicator: Seq<char>, files: Files, i: int) -> Option<
    CompileFailure,
>
    decreases v, 0nat, parts(v) - i,
{
    if i < 0 || i >= parts(v) {
        None
    } else {
        let here = match v {
            JsonModel::Object(fields) => if starts_with(fields[i].0, indicator) {
                match fields[i].1 {
                    JsonModel::Text(e) => expression_failure(e, files),
                    _ => Some(
                        CompileFailure {
                            kind: GenErrorKind::GeneratorMustBeString,
                            about: fields[i].0,
                        },
                    ),
                }
            } else {
                compile_failure(fields[i].1, indicator, files)
            },
            JsonModel::Array(items) => compile_failure(items[i], indicator, files),
            _ => None,
        };
        if here is Some {
            here
        } else {
            failure_from(v, indicator, files, i + 1)
        }
    }
}

/// The files that the expressions of a document read, in the order of the
/// document.
pub open spec fn document_paths(v: JsonModel, indicator: Seq<char>) -> Seq<Seq<char>>
    decreases v, 1nat, 0nat,
{
    paths_of_parts(v, indicator, 0)
}

/// The files that the expressions of a document read from part `i` on.
pub open spec fn paths_of_parts(v: JsonModel, indicator: Seq<char>, i: int) -> Seq<Seq<char>>
    decreases v, 0nat, parts(v) - i,
{
    if i < 0 || i >= parts(v) {
        Seq::empty()
    } else {
        let here = match v {
            JsonModel::Object(fields) => if starts_with(fields[i].0, indicator) {
                match fields[i].1 {
                    JsonModel::Text(e) => expression_paths(e),
                    _ => Seq::empty(),
                }
            } else {
                document_paths(fields[i].1, indicator)
            },
            JsonModel::Array(items) => document_paths(items[i], indicator),
            _ => Seq::empty(),
        };
        here + paths_of_parts(v, indicator, i + 1)
    }
}

/// Whether `t` is the template that a document compiles to: fields whose
/// name begins with the indicator lose the indicator and hold the generator
/// of their expression; every other value is kept, objects and arrays part
/// for part.
pub open spec fn is_compiled(v: JsonModel, indicator: Seq<char>, files: Files, t: &JsonTemplate) -> bool
    decreases v,
{
    match v {
        JsonModel::Object(fields) => {
            &&& t matches JsonTemplate::Object(tf)
            &&& tf.len() == fields.len()
            &&& forall|i: int|
                0 <= i < fields.len() ==> if starts_with(fields[i].0, indicator) {
                    &&& (#[trigger] tf[i]).0@ == stripped(fields[i].0, indicator)
                    &&& fields[i].1 is Text
                    &&& parsed(fields[i].1->Text_0) is Some
                    &&& tf[i].1 matches JsonTemplate::Gen(g) && is_chain(
                        parsed(fields[i].1->Text_0)->0,
                        files,
                        parsed(fields[i].1->Text_0)->0.len() as int,
                        g,
                    )
                } else {
                    &&& tf[i].0@ == fields[i].0
                    &&& is_compiled(fields[i].1, indicator, files, &tf[i].1)
                }
        },
        JsonModel::Array(items) => {
            &&& t matches JsonTemplate::Array(ti)
            &&& ti.len() == items.len()
            &&& forall|i: int|
                0 <= i < items.len() ==> is_compiled(items[i], indicator, files, #[trigger] &ti[i])
        },
        _ => t matches JsonTemplate::Plain(p) && p@ == v,
    }
}

/// Whether no field of a document is marked with the indicator.
pub open spec fn unmarked(v: JsonModel, indicator: Seq<char>) -> bool
    decreases v,
{
    match v {
        JsonModel::Object(fields) => forall|i: int|
            0 <= i < fields.len() ==> !starts_with((#[trigger] fields[i]).0, indicator) && unmarked(
                fields[i].1,
                indicator,
            ),
        JsonModel::Array(items) => forall|i: int|
            0 <= i < items.len() ==> unmarked(#[trigger] items[i], indicator),
        _ => true,
    }
}

/// The name under which a field of a document stands in the documents
/// produced from it: without the indicator, where it began with it.
pub open spec fn produced_name(name: Seq<char>, indicator: Seq<char>) -> Seq<char> {
    if starts_with(name, indicator) {
        stripped(name, indicator)
    } else {
        name
    }
}

/// A document without marked fields compiles to a template that produces
/// the document itself, every time.
pub proof fn lemma_plain_document(
    v: JsonModel,
    indicator: Seq<char>,
    files: Files,
    t: &JsonTemplate,
    k: nat,
    w: JsonModel,
)
    requires
        is_compiled(v, indicator, files, t),
        unmarked(v, indicator),
        t.admits_at(k, w),
    ensures
        w == v,
    decreases v,
{
    match v {
        JsonModel::Object(fields) => {
            let tf = t->Object_0;
            assert forall|i: int| 0 <= i < fields.len() implies (#[trigger] w->Object_0[i])
                == fields[i] by {
                assert(!starts_with(fields[i].0, indicator));
                assert(tf[i].0@ == fields[i].0);
                lemma_plain_document(fields[i].1, indicator, files, &tf[i].1, k, w->Object_0[i].1);
            }
            assert(w->Object_0 =~= fields);
        },
        JsonModel::Array(items) => {
            let ti = t->Array_0;
            assert forall|i: int| 0 <= i < items.len() implies (#[trigger] w->Array_0[i])
                == items[i] by {
                lemma_plain_document(items[i], indicator, files, &ti[i], k, w->Array_0[i]);
            }
            assert(w->Array_0 =~= items);
        },
        _ => {},
    }
}

/// Every document produced from a compiled object has the fields of the
/// object it was compiled from, in their order, each under its name without
/// the indicator.
pub proof fn lemma_produced_names(
    v: JsonModel,
    indicator: Seq<char>,
    files: Files,
    t: &JsonTemplate,
    k: nat,
    w: JsonModel,
)
    requires
        v is Object,
        is_compiled(v, indicator, files, t),
        t.admits_at(k, w),
    ensures
        w is Object,
        w->Object_0.len() == v->Object_0.len(),
        forall|i: int|
            0 <= i < v->Object_0.len() ==> (#[trigger] w->Object_0[i]).0 == produced_name(
                v->Object_0[i].0,
                indicator,
            ),
{
    let tf = t->Object_0;
    assert forall|i: int| 0 <= i < v->Object_0.len() implies (#[trigger] w->Object_0[i]).0
        == produced_name(v->Object_0[i].0, indicator) by {
        assert(w->Object_0[i].0 == tf[i].0@);
    }
}

/// The error for a text that is no JSON document.
pub(crate) fn not_a_document(e: &serde_json::Error) -> (r: GenError)
    ensures
        r.kind == GenErrorKind::Json,
        r.tpe == GenErrorType::Common,
{
    let text = document_error_text(e);
    GenError::of_kind(GenErrorKind::Json, GenErrorType::Common, "error: ", text.as_str())
}

impl JsonTemplate {
    /// Compiles a document into a template. A field whose name begins with
    /// `indicator` must hold an expression: it loses the indicator and gets
    /// the generator of the expression. Files that expressions name are
    /// looked up among `files`.
    pub fn new(value: JsonValue, indicator: &str, files: &Files) -> (r: Result<Self, GenError>)
        ensures
            r is Ok <==> compile_failure(value@, indicator@, *files) is None,
            r is Ok ==> is_compiled(value@, indicator@, *files, &r->Ok_0) && r->Ok_0.ready(),
            r is Err ==> reports(r->Err_0, compile_failure(value@, indicator@, *files)->0),
    {
        let marker = chars_of(indicator);
        compile(&value, &marker, files)
    }

    /// The files that the expressions of a document read, in the order of
    /// the document. Whoever compiles the document loads them first and
    /// hands their texts over.
    pub fn paths(value: &JsonValue, indicator: &str) -> (r: Vec<String>)
        ensures
            texts(r@) == document_paths(value@, indicator@),
    {
        let marker = chars_of(indicator);
        let mut out: Vec<String> = Vec::new();
        assert(texts(out@) =~= Seq::empty());
        collect_paths(value, &marker, &mut out);
        assert(Seq::<Seq<char>>::empty() + document_paths(value@, indicator@) =~= document_paths(
            value@,
            indicator@,
        ));
        out
    }

    /// The files that the expressions of the document in `json` read.
    pub fn paths_in(json: &str, indicator: &str) -> (r: Result<Vec<String>, GenError>)
        ensures
            r is Ok <==> json_document(json@) is Some,
            r is Ok ==> texts(r->Ok_0@) == document_paths(json_document(json@)->0, indicator@),
            r is Err ==> r->Err_0.kind == GenErrorKind::Json,
    {
        match read_document(json) {
            Ok(value) => Ok(JsonTemplate::paths(&value, indicator)),
            Err(e) => Err(not_a_document(&e)),
        }
    }

    /// Reads a JSON document from `json` and compiles it into a template.
    pub fn from_str(json: &str, indicator: &str, files: &Files) -> (r: Result<Self, GenError>)
        ensures
            r is Ok <==> json_document(json@) is Some && compile_failure(
                json_document(json@)->0,
                indicator@,
                *files,
            ) is None,
            r is Ok ==> is_compiled(json_document(json@)->0, indicator@, *files, &r->Ok_0)
                && r->Ok_0.ready(),
            r is Err ==> if json_document(json@) is None {
                r->Err_0.kind == GenErrorKind::Json
            } else {
                reports(r->Err_0, compile_failure(json_document(json@)->0, indicator@, *files)->0)
            },
    {
        match read_document(json) {
            Ok(value) => JsonTemplate::new(value, indicator, files),
            Err(e) => Err(not_a_document(&e)),
        }
    }

    /// The number of fields of an object or of items of an array.
    pub open spec fn size(&self) -> nat {
        match self {
            JsonTemplate::Object(fields) => fields.len() as nat,
            JsonTemplate::Array(items) => items.len() as nat,
            _ => 0,
        }
    }

    /// The template in words: an object as its fields in braces, each as its
    /// name, a colon, its value and a comma; an array as its items in
    /// brackets, each with a comma behind it; a fixed value as JSON text; a
    /// generator by the name of its entry.
    pub open spec fn shown(&self) -> Seq<char>
        decreases self, 1nat, 0nat,
    {
        match self {
            JsonTemplate::Object(_) => seq!['{'] + self.parts_shown(0) + seq!['}'],
            JsonTemplate::Array(_) => seq!['['] + self.parts_shown(0) + seq![']'],
            JsonTemplate::Plain(p) => json_text(p@),
            JsonTemplate::Gen(g) => g.shown(),
        }
    }

    /// The fields of an object, or the items of an array, from part `i` on,
    /// in words.
    pub open spec fn parts_shown(&self, i: int) -> Seq<char>
        decreases self, 0nat, self.size() - i,
    {
        if i < 0 || i >= self.size() {
            Seq::empty()
        } else {
            let here = match self {
                JsonTemplate::Object(fields) => fields[i].0@ + seq![':'] + fields[i].1.shown(),
                JsonTemplate::Array(items) => items[i].shown(),
                _ => Seq::empty(),
            };
            here + seq![','] + self.parts_shown(i + 1)
        }
    }

    /// Writes the template in words behind what `out` holds.
    #[verifier::loop_isolation(false)]
    pub fn show_to(&self, out: &mut String)
        ensures
            final(out)@ == old(out)@ + self.shown(),
        decreases self,
    {
        match self {
            JsonTemplate::Object(fields) => {
                out.push('{');
                let ghost base = out@;
                let mut i: usize = 0;
                while i < fields.len()
                    invariant
                        i <= fields.len(),
                        base == old(out)@.push('{'),
                        out@ + self.parts_shown(i as int) == base + self.parts_shown(0),
                    decreases fields.len() - i,
                {
                    let ghost before = out@;
                    let ghost rest = self.parts_shown(i + 1);
                    out.append(fields[i].0.as_str());
                    out.push(':');
                    fields[i].1.show_to(out);
                    out.push(',');
                    let ghost here = fields[i as int].0@ + seq![':'] + fields[i as int].1.shown();
                    assert(out@ =~= before + here + seq![',']);
                    assert(out@ + rest =~= before + (here + seq![','] + rest));
                    i += 1;
                }
                assert(out@ + Seq::<char>::empty() =~= out@);
                out.push('}');
                assert(out@ =~= old(out)@ + self.shown());
            },
            JsonTemplate::Array(items) => {
                out.push('[');
                let ghost base = out@;
                let mut i: usize = 0;
                while i < items.len()
                    invariant
                        i <= items.len(),
                        base == old(out)@.push('['),
                        out@ + self.parts_shown(i as int) == base + self.parts_shown(0),
                    decreases items.len() - i,
                {
                    let ghost before = out@;
                    let ghost rest = self.parts_shown(i + 1);
                    items[i].show_to(out);
                    out.push(',');
                    let ghost here = items[i as int].shown();
                    assert(out@ =~= before + here + seq![',']);
                    assert(out@ + rest =~= before + (here + seq![','] + rest));
                    i += 1;
                }
                assert(out@ + Seq::<char>::empty() =~= out@);
                out.push(']');
                assert(out@ =~= old(out)@ + self.shown());
            },
            JsonTemplate::Plain(p) => p.write_to(out),
            JsonTemplate::Gen(g) => {
                let text = g.to_string();
                out.append(text.as_str());
            },
        }
    }

    /// The template in words.
    pub fn to_string(&self) -> (s: String)
        ensures
            s@ == self.shown(),
    {
        let mut s = String::new();
        self.show_to(&mut s);
        assert(Seq::<char>::empty() + self.shown() =~= self.shown());
        s
    }

    /// Whether every generator of the template can be run.
    pub open spec fn ready(&self) -> bool
        decreases self,
    {
        match self {
            JsonTemplate::Object(fields) => forall|i: int|
                0 <= i < fields.len() ==> (#[trigger] fields[i]).1.ready(),
            JsonTemplate::Array(items) => forall|i: int|
                0 <= i < items.len() ==> (#[trigger] items[i]).ready(),
            JsonTemplate::Plain(_) => true,
            JsonTemplate::Gen(g) => g.ready(),
        }
    }

    /// Whether `n` more documents can be produced without a sequence leaving
    /// the range of its numbers.
    pub open spec fn can_step(&self, n: nat) -> bool
        decreases self,
    {
        match self {
            JsonTemplate::Object(fields) => forall|i: int|
                0 <= i < fields.len() ==> (#[trigger] fields[i]).1.can_step(n),
            JsonTemplate::Array(items) => forall|i: int|
                0 <= i < items.len() ==> (#[trigger] items[i]).can_step(n),
            JsonTemplate::Plain(_) => true,
            JsonTemplate::Gen(g) => g.can_step(n),
        }
    }

    /// Whether `v` may be the document produced after `k` earlier ones: an
    /// object with the template's field names and, for each field, a value
    /// that the field admits; likewise for an array; a fixed value itself;
    /// for a generator, a value that it admits.
    pub open spec fn admits_at(&self, k: nat, v: JsonModel) -> bool
        decreases self,
    {
        match self {
            JsonTemplate::Object(fields) => {
                &&& v is Object
                &&& v->Object_0.len() == fields.len()
                &&& forall|i: int|
                    0 <= i < fields.len() ==> (#[trigger] v->Object_0[i]).0 == fields[i].0@
                        && fields[i].1.admits_at(k, v->Object_0[i].1)
            },
            JsonTemplate::Array(items) => {
                &&& v is Array
                &&& v->Array_0.len() == items.len()
                &&& forall|i: int|
                    0 <= i < items.len() ==> items[i].admits_at(k, #[trigger] v->Array_0[i])
            },
            JsonTemplate::Plain(p) => v == p@,
            JsonTemplate::Gen(g) => g.admits_at(k, v),
        }
    }

    /// Whether `v` may be the next document.
    pub open spec fn admits(&self, v: JsonModel) -> bool {
        self.admits_at(0, v)
    }

    /// Whether `after` is this template after `n` documents were produced:
    /// the same shape, names and fixed values, each generator `n` values on.
    pub open spec fn is_advanced(&self, n: nat, after: &JsonTemplate) -> bool
        decreases self,
    {
        match self {
            JsonTemplate::Object(fields) => {
                &&& after matches JsonTemplate::Object(next)
                &&& next.len() == fields.len()
                &&& forall|i: int|
                    0 <= i < fields.len() ==> (#[trigger] next[i]).0@ == fields[i].0@
                        && fields[i].1.is_advanced(n, &next[i].1)
            },
            JsonTemplate::Array(items) => {
                &&& after matches JsonTemplate::Array(next)
                &&& next.len() == items.len()
                &&& forall|i: int|
                    0 <= i < items.len() ==> items[i].is_advanced(n, #[trigger] &next[i])
            },
            JsonTemplate::Plain(p) => after matches JsonTemplate::Plain(q) && q@ == p@,
            JsonTemplate::Gen(g) => after matches JsonTemplate::Gen(h) && *h == g.advance(n),
        }
    }

    /// Produces the next document.
    pub fn next_value(&mut self) -> (v: JsonValue)
        requires
            old(self).ready(),
            old(self).can_step(1),
        ensures
            old(self).admits(v@),
            old(self).is_advanced(1, &*final(self)),
        decreases *old(self),
    {
        match self {
            JsonTemplate::Object(fields) => {
                let out = next_fields(fields);
                let v = JsonValue::Object(out);
                assert(v@->Object_0.len() == out@.len());
                assert forall|i: int| 0 <= i < out@.len() implies (#[trigger] v@->Object_0[i])
                    == (out@[i].0@, out@[i].1@) by {}
                v
            },
            JsonTemplate::Array(items) => {
                let out = next_items(items);
                let v = JsonValue::Array(out);
                assert forall|i: int| 0 <= i < out@.len() implies (#[trigger] v@->Array_0[i])
                    == out@[i]@ by {}
                v
            },
            JsonTemplate::Plain(p) => p.clone(),
            JsonTemplate::Gen(g) => g.next(),
        }
    }

    /// A template after no document is the template itself.
    pub proof fn lemma_advanced_zero(&self)
        ensures
            self.is_advanced(0, self),
        decreases self,
    {
        match self {
            JsonTemplate::Object(fields) => {
                assert forall|i: int| 0 <= i < fields.len() implies (#[trigger] fields[i]).1.is_advanced(
                    0,
                    &fields[i].1,
                ) by {
                    fields[i].1.lemma_advanced_zero();
                }
            },
            JsonTemplate::Array(items) => {
                assert forall|i: int| 0 <= i < items.len() implies items[i].is_advanced(
                    0,
                    #[trigger] &items[i],
                ) by {
                    items[i].lemma_advanced_zero();
                }
            },
            JsonTemplate::Plain(_) => {},
            JsonTemplate::Gen(g) => {
                g.lemma_advance_zero();
            },
        }
    }

    /// A template that can produce `n` more documents can produce any
    /// lesser number of them.
    pub proof fn lemma_can_step_less(&self, k: nat, n: nat)
        requires
            self.can_step(n),
            k <= n,
        ensures
            self.can_step(k),
        decreases self,
    {
        match self {
            JsonTemplate::Object(fields) => {
                assert forall|i: int| 0 <= i < fields.len() implies (#[trigger] fields[i]).1.can_step(
                    k,
                ) by {
                    fields[i].1.lemma_can_step_less(k, n);
                }
            },
            JsonTemplate::Array(items) => {
                assert forall|i: int| 0 <= i < items.len() implies (#[trigger] items[i]).can_step(
                    k,
                ) by {
                    items[i].lemma_can_step_less(k, n);
                }
            },
            JsonTemplate::Plain(_) => {},
            JsonTemplate::Gen(g) => {
                g.lemma_can_step_less(k, n);
            },
        }
    }

    /// Where `mid` is this template after `a` documents and `end` is `mid`
    /// after `b` more, `end` is this template after `a + b` documents; `mid`
    /// can be run where this template can, and can produce `b` documents
    /// where this template can produce `a + b`.
    pub proof fn lemma_advanced_add(&self, a: nat, mid: &JsonTemplate, b: nat, end: &JsonTemplate)
        requires
            self.can_step(a),
            self.is_advanced(a, mid),
        ensures
            mid.ready() == self.ready(),
            mid.can_step(b) == self.can_step(a + b),
            mid.is_advanced(b, end) ==> self.is_advanced(a + b, end),
        decreases self,
    {
        match self {
            JsonTemplate::Object(fields) => {
                let next = mid->Object_0;
                assert forall|i: int| 0 <= i < fields.len() implies (#[trigger] next[i]).1.ready()
                    == fields[i].1.ready() && next[i].1.can_step(b) == fields[i].1.can_step(a + b) by {
                    fields[i].1.lemma_advanced_add(a, &next[i].1, b, &next[i].1);
                }
                assert(mid.ready() == self.ready()) by {
                    if self.ready() {
                        assert forall|i: int| 0 <= i < next.len() implies (#[trigger] next[i]).1.ready() by {
                            assert(fields[i].1.ready());
                        }
                    }
                    if mid.ready() {
                        assert forall|i: int| 0 <= i < fields.len() implies (
                        #[trigger] fields[i]).1.ready() by {
                            assert(next[i].1.ready());
                        }
                    }
                }
                assert(mid.can_step(b) == self.can_step(a + b)) by {
                    if self.can_step(a + b) {
                        assert forall|i: int| 0 <= i < next.len() implies (
                        #[trigger] next[i]).1.can_step(b) by {
                            assert(fields[i].1.can_step(a + b));
                        }
                    }
                    if mid.can_step(b) {
                        assert forall|i: int| 0 <= i < fields.len() implies (
                        #[trigger] fields[i]).1.can_step(a + b) by {
                            assert(next[i].1.can_step(b));
                        }
                    }
                }
                if mid.is_advanced(b, end) {
                    let last = end->Object_0;
                    assert forall|i: int| 0 <= i < fields.len() implies (#[trigger] last[i]).0@
                        == fields[i].0@ && fields[i].1.is_advanced(a + b, &last[i].1) by {
                        assert(next[i].0@ == fields[i].0@);
                        fields[i].1.lemma_advanced_add(a, &next[i].1, b, &last[i].1);
                    }
                }
            },
            JsonTemplate::Array(items) => {
                let next = mid->Array_0;
                assert forall|i: int| 0 <= i < items.len() implies (#[trigger] next[i]).ready()
                    == items[i].ready() && next[i].can_step(b) == items[i].can_step(a + b) by {
                    items[i].lemma_advanced_add(a, &next[i], b, &next[i]);
                }
                assert(mid.ready() == self.ready()) by {
                    if self.ready() {
                        assert forall|i: int| 0 <= i < next.len() implies (#[trigger] next[i]).ready() by {
                            assert(items[i].ready());
                        }
                    }
                    if mid.ready() {
                        assert forall|i: int| 0 <= i < items.len() implies (
                        #[trigger] items[i]).ready() by {
                            assert(next[i].ready());
                        }
                    }
                }
                assert(mid.can_step(b) == self.can_step(a + b)) by {
                    if self.can_step(a + b) {
                        assert forall|i: int| 0 <= i < next.len() implies (
                        #[trigger] next[i]).can_step(b) by {
                            assert(items[i].can_step(a + b));
                        }
                    }
                    if mid.can_step(b) {
                        assert forall|i: int| 0 <= i < items.len() implies (
                        #[trigger] items[i]).can_step(a + b) by {
                            assert(next[i].can_step(b));
                        }
                    }
                }
                if mid.is_advanced(b, end) {
                    let last = end->Array_0;
                    assert forall|i: int| 0 <= i < items.len() implies items[i].is_advanced(
                        a + b,
                        #[trigger] &last[i],
                    ) by {
                        items[i].lemma_advanced_add(a, &next[i], b, &last[i]);
                    }
                }
            },
            JsonTemplate::Plain(_) => {},
            JsonTemplate::Gen(g) => {
                g.lemma_advance_add(a, b);
            },
        }
    }

    /// Where `mid` is this template after `a` documents, what `mid` admits
    /// after `k` more is what this template admits after `a + k`.
    pub proof fn lemma_admits_shift(&self, a: nat, mid: &JsonTemplate, k: nat, v: JsonModel)
        requires
            self.can_step(a),
            self.is_advanced(a, mid),
        ensures
            mid.admits_at(k, v) == self.admits_at(a + k, v),
        decreases self,
    {
        match self {
            JsonTemplate::Object(fields) => {
                let next = mid->Object_0;
                if v is Object && v->Object_0.len() == fields.len() {
                    assert forall|i: int| 0 <= i < fields.len() implies next[i].1.admits_at(
                        k,
                        (#[trigger] v->Object_0[i]).1,
                    ) == fields[i].1.admits_at(a + k, v->Object_0[i].1) && next[i].0@
                        == fields[i].0@ by {
                        fields[i].1.lemma_admits_shift(a, &next[i].1, k, v->Object_0[i].1);
                    }
                }
            },
            JsonTemplate::Array(items) => {
                let next = mid->Array_0;
                if v is Array && v->Array_0.len() == items.len() {
                    assert forall|i: int| 0 <= i < items.len() implies next[i].admits_at(
                        k,
                        #[trigger] v->Array_0[i],
                    ) == items[i].admits_at(a + k, v->Array_0[i]) by {
                        items[i].lemma_admits_shift(a, &next[i], k, v->Array_0[i]);
                    }
                }
            },
            JsonTemplate::Plain(_) => {},
            JsonTemplate::Gen(g) => {
                g.lemma_admits_shift(a, k, v);
            },
        }
    }

    /// Whether every generator of the template can be run.
    #[verifier::loop_isolation(false)]
    pub fn is_ready(&self) -> (b: bool)
        ensures
            b == self.ready(),
        decreases self,
    {
        match self {
            JsonTemplate::Object(fields) => {
                let mut i: usize = 0;
                while i < fields.len()
                    invariant
                        i <= fields.len(),
                        forall|j: int| 0 <= j < i ==> (#[trigger] fields[j]).1.ready(),
                    decreases fields.len() - i,
                {
                    if !fields[i].1.is_ready() {
                        return false;
                    }
                    i += 1;
                }
                true
            },
            JsonTemplate::Array(items) => {
                let mut i: usize = 0;
                while i < items.len()
                    invariant
                        i <= items.len(),
                        forall|j: int| 0 <= j < i ==> (#[trigger] items[j]).ready(),
                    decreases items.len() - i,
                {
                    if !items[i].is_ready() {
                        return false;
                    }
                    i += 1;
                }
                true
            },
            JsonTemplate::Plain(_) => true,
            JsonTemplate::Gen(g) => g.is_ready(),
        }
    }

    /// Whether `n` more documents can be produced.
    #[verifier::loop_isolation(false)]
    pub fn fits(&self, n: usize) -> (b: bool)
        ensures
            b == self.can_step(n as nat),
        decreases self,
    {
        match self {
            JsonTemplate::Object(fields) => {
                let mut i: usize = 0;
                while i < fields.len()
                    invariant
                        i <= fields.len(),
                        forall|j: int| 0 <= j < i ==> (#[trigger] fields[j]).1.can_step(n as nat),
                    decreases fields.len() - i,
                {
                    if !fields[i].1.fits(n) {
                        return false;
                    }
                    i += 1;
                }
                true
            },
            JsonTemplate::Array(items) => {
                let mut i: usize = 0;
                while i < items.len()
                    invariant
                        i <= items.len(),
                        forall|j: int| 0 <= j < i ==> (#[trigger] items[j]).can_step(n as nat),
                    decreases items.len() - i,
                {
                    if !items[i].fits(n) {
                        return false;
                    }
                    i += 1;
                }
                true
            },
            JsonTemplate::Plain(_) => true,
            JsonTemplate::Gen(g) => g.fits(n),
        }
    }

    /// In a document that the template admits, everything but what the
    /// generators gave is as the template holds it.
    pub proof fn lemma_fixed_part(&self, k: nat, v: JsonModel)
        requires
            self.admits_at(k, v),
        ensures
            self.fixed_part(v) == self.frame(),
        decreases self,
    {
        match self {
            JsonTemplate::Object(fields) => {
                assert forall|i: int| 0 <= i < fields.len() implies (#[trigger] fields[i]).1.fixed_part(
                    v->Object_0[i].1,
                ) == fields[i].1.frame() by {
                    assert(v->Object_0[i].0 == fields[i].0@);
                    fields[i].1.lemma_fixed_part(k, v->Object_0[i].1);
                }
                assert(self.fixed_part(v)->Object_0 =~= self.frame()->Object_0) by {
                    assert forall|i: int| 0 <= i < fields.len() implies (
                    #[trigger] self.fixed_part(v)->Object_0[i]) == self.frame()->Object_0[i] by {
                        assert(v->Object_0[i].0 == fields[i].0@);
                        assert(fields[i].1.fixed_part(v->Object_0[i].1) == fields[i].1.frame());
                    }
                }
            },
            JsonTemplate::Array(items) => {
                assert forall|i: int| 0 <= i < items.len() implies (#[trigger] items[i]).fixed_part(
                    v->Array_0[i],
                ) == items[i].frame() by {
                    items[i].lemma_fixed_part(k, v->Array_0[i]);
                }
                assert(self.fixed_part(v)->Array_0 =~= self.frame()->Array_0);
            },
            JsonTemplate::Plain(_) => {},
            JsonTemplate::Gen(_) => {},
        }
    }

    /// Producing documents leaves the names and the fixed values of a
    /// template as they are.
    pub proof fn lemma_frame_kept(&self, n: nat, after: &JsonTemplate)
        requires
            self.is_advanced(n, after),
        ensures
            after.frame() == self.frame(),
        decreases self,
    {
        match self {
            JsonTemplate::Object(fields) => {
                let next = after->Object_0;
                assert forall|i: int| 0 <= i < fields.len() implies (#[trigger] next[i]).1.frame()
                    == fields[i].1.frame() && next[i].0@ == fields[i].0@ by {
                    fields[i].1.lemma_frame_kept(n, &next[i].1);
                }
                assert(after.frame()->Object_0 =~= self.frame()->Object_0);
            },
            JsonTemplate::Array(items) => {
                let next = after->Array_0;
                assert forall|i: int| 0 <= i < items.len() implies (#[trigger] next[i]).frame()
                    == items[i].frame() by {
                    items[i].lemma_frame_kept(n, &next[i]);
                }
                assert(after.frame()->Array_0 =~= self.frame()->Array_0);
            },
            JsonTemplate::Plain(_) => {},
            JsonTemplate::Gen(_) => {},
        }
    }

    /// Any two documents of one template, whenever they are produced, agree
    /// in everything that no generator gave: no fixed value ever changes.
    pub proof fn lemma_fixed_values_stay(&self, i: nat, v: JsonModel, j: nat, w: JsonModel)
        requires
            self.admits_at(i, v),
            self.admits_at(j, w),
        ensures
            self.fixed_part(v) == self.fixed_part(w),
    {
        self.lemma_fixed_part(i, v);
        self.lemma_fixed_part(j, w);
    }

    /// What is fixed in a document of the template `t` that holds the values
    /// `v`: the document with `null` wherever a generator gave the value.
    pub open spec fn fixed_part(&self, v: JsonModel) -> JsonModel
        decreases self,
    {
        match self {
            JsonTemplate::Object(fields) => if v is Object && v->Object_0.len() == fields.len() {
                JsonModel::Object(
                    Seq::new(
                        fields.len() as nat,
                        |i: int|
                            if 0 <= i < fields.len() {
                                (v->Object_0[i].0, fields[i].1.fixed_part(v->Object_0[i].1))
                            } else {
                                (Seq::empty(), JsonModel::Null)
                            },
                    ),
                )
            } else {
                JsonModel::Null
            },
            JsonTemplate::Array(items) => if v is Array && v->Array_0.len() == items.len() {
                JsonModel::Array(
                    Seq::new(
                        items.len() as nat,
                        |i: int|
                            if 0 <= i < items.len() {
                                items[i].fixed_part(v->Array_0[i])
                            } else {
                                JsonModel::Null
                            },
                    ),
                )
            } else {
                JsonModel::Null
            },
            JsonTemplate::Plain(_) => v,
            JsonTemplate::Gen(_) => JsonModel::Null,
        }
    }

    /// The fixed part of every document of the template: its names and its
    /// fixed values, with `null` for each generator.
    pub open spec fn frame(&self) -> JsonModel
        decreases self,
    {
        match self {
            JsonTemplate::Object(fields) => JsonModel::Object(
                Seq::new(
                    fields.len() as nat,
                    |i: int|
                        if 0 <= i < fields.len() {
                            (fields[i].0@, fields[i].1.frame())
                        } else {
                            (Seq::empty(), JsonModel::Null)
                        },
                ),
            ),
            JsonTemplate::Array(items) => JsonModel::Array(
                Seq::new(
                    items.len() as nat,
                    |i: int|
                        if 0 <= i < items.len() {
                            items[i].frame()
                        } else {
                            JsonModel::Null
                        },
                ),
            ),
            JsonTemplate::Plain(p) => p@,
            JsonTemplate::Gen(_) => JsonModel::Null,
        }
    }
}

/// The error for a marked field that holds something other than a text.
pub fn generator_must_be_string(field: &str) -> (e: GenError)
    ensures
        e.kind == GenErrorKind::GeneratorMustBeString,
        e.tpe == GenErrorType::Parser,
        e.reason@ == "a generator function should be a string, in the field: "@ + field@,
        ends_with(e.reason@, field@),
{
    let e = GenError::of_kind(
        GenErrorKind::GeneratorMustBeString,
        GenErrorType::Parser,
        "a generator function should be a string, in the field: ",
        field,
    );
    assert(e.reason@.subrange(e.reason@.len() - field@.len(), e.reason@.len() as int) =~= field@);
    e
}

/// Compiles a document into a template.
#[verifier::loop_isolation(false)]
pub fn compile(value: &JsonValue, indicator: &Vec<char>, files: &Files) -> (r: Result<
    JsonTemplate,
    GenError,
>)
    ensures
        r is Ok <==> compile_failure(value@, indicator@, *files) is None,
        r is Ok ==> is_compiled(value@, indicator@, *files, &r->Ok_0) && r->Ok_0.ready(),
        r is Err ==> reports(r->Err_0, compile_failure(value@, indicator@, *files)->0),
    decreases value,
{
    match value {
        JsonValue::Object(pairs) => {
            let ghost fields = value@->Object_0;
            let mut out: Vec<(String, JsonTemplate)> = Vec::new();
            let mut i: usize = 0;
            while i < pairs.len()
                invariant
                    i <= pairs.len(),
                    out.len() == i,
                    fields.len() == pairs.len(),
                    compile_failure(value@, indicator@, *files) == failure_from(
                        value@,
                        indicator@,
                        *files,
                        i as int,
                    ),
                    forall|j: int| 0 <= j < i ==> (#[trigger] out[j]).1.ready(),
                    forall|j: int|
                        0 <= j < i ==> if starts_with(fields[j].0, indicator@) {
                            &&& (#[trigger] out[j]).0@ == stripped(fields[j].0, indicator@)
                            &&& fields[j].1 is Text
                            &&& parsed(fields[j].1->Text_0) is Some
                            &&& out[j].1 matches JsonTemplate::Gen(g) && is_chain(
                                parsed(fields[j].1->Text_0)->0,
                                *files,
                                parsed(fields[j].1->Text_0)->0.len() as int,
                                g,
                            )
                        } else {
                            &&& out[j].0@ == fields[j].0
                            &&& is_compiled(fields[j].1, indicator@, *files, &out[j].1)
                        },
                decreases pairs.len() - i,
            {
                assert(fields[i as int] == (pairs[i as int].0@, pairs[i as int].1@));
                let name = chars_of(pairs[i].0.as_str());
                let marked = indicator.len() <= name.len() && stands_at(&name, indicator, 0);
                if marked {
                    match &pairs[i].1 {
                        JsonValue::String(e) => match generator(e.as_str(), files) {
                            Ok(g) => {
                                out.push(
                                    (text_of(&name, indicator.len(), name.len()), JsonTemplate::Gen(g)),
                                );
                            },
                            Err(er) => {
                                return Err(er);
                            },
                        },
                        _ => {
                            return Err(generator_must_be_string(pairs[i].0.as_str()));
                        },
                    }
                } else {
                    match compile(&pairs[i].1, indicator, files) {
                        Ok(t) => {
                            out.push((pairs[i].0.clone(), t));
                        },
                        Err(er) => {
                            return Err(er);
                        },
                    }
                }
                i += 1;
            }
            Ok(JsonTemplate::Object(out))
        },
        JsonValue::Array(list) => {
            let ghost items = value@->Array_0;
            let mut out: Vec<JsonTemplate> = Vec::new();
            let mut i: usize = 0;
            while i < list.len()
                invariant
                    i <= list.len(),
                    out.len() == i,
                    items.len() == list.len(),
                    compile_failure(value@, indicator@, *files) == failure_from(
                        value@,
                        indicator@,
                        *files,
                        i as int,
                    ),
                    forall|j: int| 0 <= j < i ==> (#[trigger] out[j]).ready(),
                    forall|j: int|
                        0 <= j < i ==> is_compiled(items[j], indicator@, *files, #[trigger] &out[j]),
                decreases list.len() - i,
            {
                assert(items[i as int] == list[i as int]@);
                match compile(&list[i], indicator, files) {
                    Ok(t) => {
                        out.push(t);
                    },
                    Err(er) => {
                        return Err(er);
                    },
                }
                i += 1;
            }
            Ok(JsonTemplate::Array(out))
        },
        _ => Ok(JsonTemplate::Plain(value.clone())),
    }
}

/// Adds to `out` the files that the expressions of a document read.
#[verifier::loop_isolation(false)]
pub fn collect_paths(value: &JsonValue, indicator: &Vec<char>, out: &mut Vec<String>)
    ensures
        texts(final(out)@) == texts(old(out)@) + document_paths(value@, indicator@),
    decreases value,
{
    let ghost start = texts(out@);
    match value {
        JsonValue::Object(pairs) => {
            let ghost fields = value@->Object_0;
            let mut i: usize = 0;
            assert(texts(out@) + paths_of_parts(value@, indicator@, 0) =~= start + document_paths(
                value@,
                indicator@,
            ));
            while i < pairs.len()
                invariant
                    i <= pairs.len(),
                    fields.len() == pairs.len(),
                    texts(out@) + paths_of_parts(value@, indicator@, i as int) == start
                        + document_paths(value@, indicator@),
                decreases pairs.len() - i,
            {
                assert(fields[i as int] == (pairs[i as int].0@, pairs[i as int].1@));
                let ghost before = texts(out@);
                let ghost rest = paths_of_parts(value@, indicator@, i + 1);
                let name = chars_of(pairs[i].0.as_str());
                let marked = indicator.len() <= name.len() && stands_at(&name, indicator, 0);
                if marked {
                    match &pairs[i].1 {
                        JsonValue::String(e) => {
                            let mut found = paths(e.as_str());
                            let ghost added = texts(found@);
                            out.append(&mut found);
                            assert(texts(out@) =~= before + added);
                            assert((before + added) + rest =~= before + (added + rest));
                        },
                        _ => {
                            assert(before + (Seq::<Seq<char>>::empty() + rest) =~= before + rest);
                        },
                    }
                } else {
                    collect_paths(&pairs[i].1, indicator, out);
                    let ghost added = document_paths(pairs[i as int].1@, indicator@);
                    assert((before + added) + rest =~= before + (added + rest));
                }
                i += 1;
            }
            assert(texts(out@) + Seq::<Seq<char>>::empty() =~= texts(out@));
        },
        JsonValue::Array(list) => {
            let ghost items = value@->Array_0;
            let mut i: usize = 0;
            assert(texts(out@) + paths_of_parts(value@, indicator@, 0) =~= start + document_paths(
                value@,
                indicator@,
            ));
            while i < list.len()
                invariant
                    i <= list.len(),
                    items.len() == list.len(),
                    texts(out@) + paths_of_parts(value@, indicator@, i as int) == start
                        + document_paths(value@, indicator@),
                decreases list.len() - i,
            {
                assert(items[i as int] == list[i as int]@);
                let ghost before = texts(out@);
                let ghost rest = paths_of_parts(value@, indicator@, i + 1);
                collect_paths(&list[i], indicator, out);
                let ghost added = document_paths(list[i as int]@, indicator@);
                assert((before + added) + rest =~= before + (added + rest));
                i += 1;
            }
            assert(texts(out@) + Seq::<Seq<char>>::empty() =~= texts(out@));
        },
        _ => {
            assert(start + document_paths(value@, indicator@) =~= start);
        },
    }
}

/// Produces the next value of every field, in order.
pub fn next_fields(fields: &mut Vec<(String, JsonTemplate)>) -> (out: Vec<(String, JsonValue)>)
    requires
        forall|i: int| 0 <= i < old(fields).len() ==> (#[trigger] old(fields)[i]).1.ready(),
        forall|i: int| 0 <= i < old(fields).len() ==> (#[trigger] old(fields)[i]).1.can_step(1),
    ensures
        final(fields).len() == old(fields).len(),
        out.len() == old(fields).len(),
        forall|i: int|
            0 <= i < old(fields).len() ==> (#[trigger] final(fields)[i]).0@ == old(fields)[i].0@
                && old(fields)[i].1.is_advanced(1, &final(fields)[i].1),
        forall|i: int|
            0 <= i < old(fields).len() ==> (#[trigger] out[i]).0@ == old(fields)[i].0@ && old(
                fields,
            )[i].1.admits_at(0, out[i].1@),
    decreases *old(fields),
{
    let mut out: Vec<(String, JsonValue)> = Vec::new();
    let mut i: usize = 0;
    while i < fields.len()
        invariant
            fields.len() == old(fields).len(),
            i <= fields.len(),
            out.len() == i,
            forall|j: int| 0 <= j < old(fields).len() ==> (#[trigger] old(fields)[j]).1.ready(),
            forall|j: int| 0 <= j < old(fields).len() ==> (#[trigger] old(fields)[j]).1.can_step(1),
            forall|j: int| i <= j < fields.len() ==> #[trigger] fields[j] == old(fields)[j],
            forall|j: int|
                0 <= j < i ==> (#[trigger] fields[j]).0@ == old(fields)[j].0@ && old(
                    fields,
                )[j].1.is_advanced(1, &fields[j].1),
            forall|j: int|
                0 <= j < i ==> (#[trigger] out[j]).0@ == old(fields)[j].0@ && old(
                    fields,
                )[j].1.admits_at(0, out[j].1@),
        decreases fields.len() - i,
    {
        let name = fields[i].0.clone();
        let value = fields[i].1.next_value();
        out.push((name, value));
        i += 1;
    }
    out
}

/// Produces the next value of every item, in order.
pub fn next_items(items: &mut Vec<JsonTemplate>) -> (out: Vec<JsonValue>)
    requires
        forall|i: int| 0 <= i < old(items).len() ==> (#[trigger] old(items)[i]).ready(),
        forall|i: int| 0 <= i < old(items).len() ==> (#[trigger] old(items)[i]).can_step(1),
    ensures
        final(items).len() == old(items).len(),
        out.len() == old(items).len(),
        forall|i: int|
            0 <= i < old(items).len() ==> old(items)[i].is_advanced(1, #[trigger] &final(items)[i]),
        forall|i: int| 0 <= i < old(items).len() ==> old(items)[i].admits_at(0, (#[trigger] out[i])@),
    decreases *old(items),
{
    let mut out: Vec<JsonValue> = Vec::new();
    let mut i: usize = 0;
    while i < items.len()
        invariant
            items.len() == old(items).len(),
            i <= items.len(),
            out.len() == i,
            forall|j: int| 0 <= j < old(items).len() ==> (#[trigger] old(items)[j]).ready(),
            forall|j: int| 0 <= j < old(items).len() ==> (#[trigger] old(items)[j]).can_step(1),
            forall|j: int| i <= j < items.len() ==> #[trigger] items[j] == old(items)[j],
            forall|j: int| 0 <= j < i ==> old(items)[j].is_advanced(1, #[trigger] &items[j]),
            forall|j: int| 0 <= j < i ==> old(items)[j].admits_at(0, (#[trigger] out[j])@),
        decreases items.len() - i,
    {
        let value = items[i].next_value();
        out.push(value);
        i += 1;
    }
    out
}

} // verus!

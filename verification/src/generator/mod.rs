//! The generators: what produces the values of a template's marked fields.
pub mod from_string;
pub mod generators;

use crate::generator::generators::{
    CurrentDateTime, Null, RandomArray, RandomBool, RandomFromFile, RandomFromList, RandomInt,
    RandomString, Sequence, UUID,
};
use crate::error::{GenError, GenErrorKind, GenErrorType};
use crate::value::{JsonModel, JsonValue};
use vstd::prelude::*;

verus! {

/// One entry of the catalogue, with its state.
#[derive(Debug)]
pub enum Func {
    Null(Null),
    Uuid(UUID),
    Sequence(Sequence),
    Bool(RandomBool),
    Int(RandomInt),
    Str(RandomString),
    DateTime(CurrentDateTime),
    StrList(RandomFromList<String>),
    IntList(RandomFromList<i64>),
    StrFile(RandomFromFile<String>),
    IntFile(RandomFromFile<i64>),
    Array(RandomArray),
}

/// A generator: it owns one entry of the catalogue.
#[derive(Debug)]
pub struct Generator {
    pub function: Func,
}

/// The generator that owns `function`.
pub open spec fn generator_of(function: Func) -> Generator {
    Generator { function }
}

/// What becomes of `target` when the generator `source` is chained into it:
/// an array takes `source` for its items; nothing else takes a generator in.
pub open spec fn merged(target: Func, source: Func) -> Option<Func> {
    match target {
        Func::Array(a) => Some(
            Func::Array(RandomArray { len: a.len, delegate: Some(Box::new(generator_of(source))) }),
        ),
        _ => None,
    }
}

/// The error for a generator that takes no other generator in.
pub fn cannot_merge() -> (e: GenError)
    ensures
        e.kind == GenErrorKind::Unsupported,
        e.tpe == GenErrorType::Generator,
{
    GenError::of_kind(
        GenErrorKind::Unsupported,
        GenErrorType::Generator,
        "the functions are unable to merge in the order",
        "",
    )
}

/// What every entry of the catalogue can do.
pub trait GeneratorFunc: Sized {
    /// This entry, as the catalogue holds it.
    spec fn as_func(&self) -> Func;

    /// Hands the entry over to the catalogue.
    fn into_func(self) -> (f: Func)
        ensures
            f == self.as_func(),
    ;

    /// Produces the next value.
    fn next_value(&mut self) -> (v: JsonValue)
        requires
            generator_of(old(self).as_func()).ready(),
            generator_of(old(self).as_func()).can_step(1),
        ensures
            generator_of(old(self).as_func()).admits(v@),
            generator_of(final(self).as_func()) == generator_of(old(self).as_func()).advance(1),
    ;

    /// Takes another generator in, where this entry is made for that.
    fn merge(&self, another_gf: Func) -> (r: Result<Func, GenError>)
        ensures
            r is Ok <==> merged(self.as_func(), another_gf) is Some,
            r is Ok ==> r->Ok_0 == merged(self.as_func(), another_gf)->0,
            r is Err ==> r->Err_0.kind == GenErrorKind::Unsupported,
    ;
}

/// The name of an entry of the catalogue.
pub open spec fn func_name(function: Func) -> Seq<char> {
    match function {
        Func::Null(_) => "Null"@,
        Func::Uuid(_) => "UUID"@,
        Func::Sequence(_) => "Sequence"@,
        Func::Bool(_) => "RandomBool"@,
        Func::Int(_) => "RandomInt"@,
        Func::Str(_) => "RandomString"@,
        Func::DateTime(_) => "CurrentDateTime"@,
        Func::StrList(_) => "RandomFromList"@,
        Func::IntList(_) => "RandomFromList"@,
        Func::StrFile(_) => "RandomFromFile"@,
        Func::IntFile(_) => "RandomFromFile"@,
        Func::Array(_) => "RandomArray"@,
    }
}

impl Generator {
    /// The generator in words: the name of its entry, in brackets.
    pub open spec fn shown(&self) -> Seq<char> {
        "Generator["@ + func_name(self.function) + "]"@
    }

    /// The generator in words.
    pub fn to_string(&self) -> (s: String)
        ensures
            s@ == self.shown(),
    {
        let mut s = String::from_str("Generator[");
        match &self.function {
            Func::Null(_) => s.append("Null"),
            Func::Uuid(_) => s.append("UUID"),
            Func::Sequence(_) => s.append("Sequence"),
            Func::Bool(_) => s.append("RandomBool"),
            Func::Int(_) => s.append("RandomInt"),
            Func::Str(_) => s.append("RandomString"),
            Func::DateTime(_) => s.append("CurrentDateTime"),
            Func::StrList(_) => s.append("RandomFromList"),
            Func::IntList(_) => s.append("RandomFromList"),
            Func::StrFile(_) => s.append("RandomFromFile"),
            Func::IntFile(_) => s.append("RandomFromFile"),
            Func::Array(_) => s.append("RandomArray"),
        }
        s.append("]");
        s
    }

    /// A generator that owns the given entry.
    pub fn new<T: GeneratorFunc>(entity: T) -> (g: Self)
        ensures
            g.function == entity.as_func(),
    {
        Generator { function: entity.into_func() }
    }

    /// Chains `gen` into this generator: an array generator becomes one of
    /// the same length whose items come from `gen`. No other generator can
    /// take one in.
    pub fn merge(&self, gen: Generator) -> (r: Result<Generator, GenError>)
        ensures
            r is Ok <==> self.function is Array,
            r is Ok ==> r->Ok_0 == Self::array_of(self.item_count(), Some(gen)),
            r is Err ==> r->Err_0.kind == GenErrorKind::Unsupported,
    {
        match &self.function {
            Func::Array(a) => Ok(Generator { function: Func::Array(RandomArray::new(a.len, gen)) }),
            _ => Err(cannot_merge()),
        }
    }

    /// Whether every part can be run: each range of random numbers holds a
    /// number, and each date format can be printed in.
    pub open spec fn ready(&self) -> bool
        decreases self,
    {
        match self.function {
            Func::Int(g) => g.ready(),
            Func::DateTime(g) => g.ready(),
            Func::Array(a) => match a.delegate {
                Some(d) => d.ready(),
                None => true,
            },
            _ => true,
        }
    }

    /// Whether `n` more values can be produced without a sequence leaving
    /// the range of its numbers.
    pub open spec fn can_step(&self, n: nat) -> bool
        decreases self,
    {
        match self.function {
            Func::Sequence(s) => s.can_step(n),
            Func::Array(a) => match a.delegate {
                Some(d) => d.can_step(n * a.len as nat),
                None => true,
            },
            _ => true,
        }
    }

    /// The generator after `n` values have been produced.
    pub open spec fn advance(&self, n: nat) -> Generator
        decreases self,
    {
        match self.function {
            Func::Sequence(s) => Generator { function: Func::Sequence(s.advance(n)) },
            Func::Array(a) => match a.delegate {
                Some(d) => Generator {
                    function: Func::Array(
                        RandomArray { len: a.len, delegate: Some(Box::new(d.advance(n * a.len as nat))) },
                    ),
                },
                None => *self,
            },
            _ => *self,
        }
    }

    /// Whether `v` may be the value produced after `k` earlier ones.
    pub open spec fn admits_at(&self, k: nat, v: JsonModel) -> bool
        decreases self,
    {
        match self.function {
            Func::Null(g) => g.admits(v),
            Func::Uuid(g) => g.admits(v),
            Func::Sequence(g) => v == JsonModel::Int(g.value_at(k)),
            Func::Bool(g) => g.admits(v),
            Func::Int(g) => g.admits(v),
            Func::Str(g) => g.admits(v),
            Func::DateTime(g) => g.admits(v),
            Func::StrList(g) => g.admits(v),
            Func::IntList(g) => g.admits(v),
            Func::StrFile(g) => g.delegate.admits(v),
            Func::IntFile(g) => g.delegate.admits(v),
            Func::Array(a) => {
                &&& v is Array
                &&& v->Array_0.len() == a.len
                &&& forall|i: int|
                    0 <= i < a.len ==> match a.delegate {
                        Some(d) => d.admits_at(k * a.len as nat + i as nat, #[trigger] v->Array_0[i]),
                        None => v->Array_0[i] == JsonModel::Null,
                    }
            },
        }
    }

    /// Whether `v` may be the next value.
    pub open spec fn admits(&self, v: JsonModel) -> bool {
        self.admits_at(0, v)
    }

    /// How deep arrays are nested in one another.
    pub open spec fn depth(&self) -> nat
        decreases self,
    {
        match self.function {
            Func::Array(a) => match a.delegate {
                Some(d) => d.depth() + 1,
                None => 0,
            },
            _ => 0,
        }
    }

    /// An array generator whose items come from `d`, where there is one.
    pub open spec fn array_of(len: usize, d: Option<Generator>) -> Generator {
        Generator {
            function: Func::Array(
                RandomArray {
                    len,
                    delegate: match d {
                        Some(g) => Some(Box::new(g)),
                        None => None,
                    },
                },
            ),
        }
    }

    /// What produces the items of an array generator.
    pub open spec fn item_source(&self) -> Option<Generator> {
        match self.function {
            Func::Array(a) => match a.delegate {
                Some(d) => Some(*d),
                None => None,
            },
            _ => None,
        }
    }

    /// The number of items of an array generator.
    pub open spec fn item_count(&self) -> usize {
        match self.function {
            Func::Array(a) => a.len,
            _ => 0,
        }
    }

    /// An array generator in the middle of a call, `i` items produced.
    pub open spec fn midway(&self, i: nat) -> Generator {
        match self.item_source() {
            Some(d) => Self::array_of(self.item_count(), Some(d.advance(i))),
            None => *self,
        }
    }

    /// Produces the next value.
    pub fn next(&mut self) -> (v: JsonValue)
        requires
            old(self).ready(),
            old(self).can_step(1),
        ensures
            old(self).admits(v@),
            *final(self) == old(self).advance(1),
        decreases old(self).depth(), 1nat,
    {
        match &mut self.function {
            Func::Null(g) => g.produce(),
            Func::Uuid(g) => g.produce(),
            Func::Sequence(g) => g.produce(),
            Func::Bool(g) => g.produce(),
            Func::Int(g) => g.produce(),
            Func::Str(g) => g.produce(),
            Func::DateTime(g) => g.produce(),
            Func::StrList(g) => g.produce(),
            Func::IntList(g) => g.produce(),
            Func::StrFile(g) => g.delegate.produce(),
            Func::IntFile(g) => g.delegate.produce(),
            Func::Array(a) => a.produce(),
        }
    }

    /// Whether no sequence that is ever asked moves: such a generator can
    /// produce values without end.
    pub open spec fn steady(&self) -> bool
        decreases self,
    {
        match self.function {
            Func::Sequence(s) => s.step == 0,
            Func::Array(a) => match a.delegate {
                Some(d) => a.len == 0 || d.steady(),
                None => true,
            },
            _ => true,
        }
    }

    /// A steady generator can produce any number of values.
    pub proof fn lemma_steady(&self, n: nat)
        requires
            self.steady(),
        ensures
            self.can_step(n),
        decreases self,
    {
        match self.function {
            Func::Sequence(s) => {
                assert(n * s.step == 0) by (nonlinear_arith)
                    requires
                        s.step == 0,
                ;
            },
            Func::Array(a) => match a.delegate {
                Some(d) => {
                    if a.len == 0 {
                        assert(n * a.len as nat == 0) by (nonlinear_arith)
                            requires
                                a.len == 0,
                        ;
                        d.lemma_can_step_zero();
                    } else {
                        d.lemma_steady(n * a.len as nat);
                    }
                },
                None => {},
            },
            _ => {},
        }
    }

    /// Every generator can produce no value.
    pub proof fn lemma_can_step_zero(&self)
        ensures
            self.can_step(0),
        decreases self,
    {
        match self.function {
            Func::Sequence(s) => {
                assert(0 * s.step == 0) by (nonlinear_arith);
            },
            Func::Array(a) => match a.delegate {
                Some(d) => {
                    assert(0 * a.len as nat == 0) by (nonlinear_arith);
                    d.lemma_can_step_zero();
                },
                None => {},
            },
            _ => {},
        }
    }

    /// A generator that can produce as many values as there are numbers in
    /// the range of a sequence is steady.
    pub proof fn lemma_many_steps(&self, n: nat)
        requires
            self.can_step(n),
            n >= 0x1_0000_0000,
        ensures
            self.steady(),
        decreases self,
    {
        match self.function {
            Func::Sequence(s) => {
                if s.step != 0 {
                    assert(n * s.step >= 0x1_0000_0000 || n * s.step <= -0x1_0000_0000)
                        by (nonlinear_arith)
                        requires
                            n >= 0x1_0000_0000,
                            s.step != 0,
                    ;
                }
            },
            Func::Array(a) => match a.delegate {
                Some(d) => {
                    if a.len != 0 {
                        assert(n * a.len as nat >= n) by (nonlinear_arith)
                            requires
                                a.len >= 1,
                        ;
                        d.lemma_many_steps(n * a.len as nat);
                    }
                },
                None => {},
            },
            _ => {},
        }
    }

    /// Whether the generator is steady.
    pub fn is_steady(&self) -> (b: bool)
        ensures
            b == self.steady(),
        decreases self,
    {
        match &self.function {
            Func::Sequence(s) => s.step == 0,
            Func::Array(a) => match &a.delegate {
                Some(d) => a.len == 0 || d.is_steady(),
                None => true,
            },
            _ => true,
        }
    }

    /// Whether `n` more values can be produced.
    pub fn fits(&self, n: usize) -> (b: bool)
        ensures
            b == self.can_step(n as nat),
        decreases self,
    {
        match &self.function {
            Func::Sequence(s) => {
                assert(-0x8000_0000_0000_0000_0000_0000 <= (n as int) * (s.step as int)
                    <= 0x8000_0000_0000_0000_0000_0000) by (nonlinear_arith)
                    requires
                        0 <= n <= 0xffff_ffff_ffff_ffff,
                        -0x8000_0000 <= s.step <= 0x7fff_ffff,
                ;
                let last: i128 = s.val as i128 + (n as i128) * (s.step as i128);
                -0x8000_0000 <= last && last <= 0x7fff_ffff
            },
            Func::Array(a) => match &a.delegate {
                Some(d) => {
                    if a.len == 0 {
                        proof {
                            assert(n as nat * a.len as nat == 0) by (nonlinear_arith)
                                requires
                                    a.len == 0,
                            ;
                        }
                        d.fits(0)
                    } else if n > usize::MAX / a.len {
                        proof {
                            assert(n as nat * a.len as nat > usize::MAX) by (nonlinear_arith)
                                requires
                                    n > usize::MAX as nat / a.len as nat,
                                    a.len > 0,
                            ;
                            if d.steady() {
                                d.lemma_steady(n as nat * a.len as nat);
                            }
                            if d.can_step(n as nat * a.len as nat) {
                                d.lemma_many_steps(n as nat * a.len as nat);
                            }
                        }
                        d.is_steady()
                    } else {
                        proof {
                            assert(n as nat * a.len as nat <= usize::MAX) by (nonlinear_arith)
                                requires
                                    n <= usize::MAX as nat / a.len as nat,
                                    a.len > 0,
                            ;
                        }
                        d.fits(n * a.len)
                    }
                },
                None => true,
            },
            _ => true,
        }
    }

    /// Whether the generator can be run.
    pub fn is_ready(&self) -> (b: bool)
        ensures
            b == self.ready(),
        decreases self,
    {
        match &self.function {
            Func::Int(g) => g.start < g.end,
            Func::DateTime(g) => g.is_ready(),
            Func::Array(a) => match &a.delegate {
                Some(d) => d.is_ready(),
                None => true,
            },
            _ => true,
        }
    }

    /// Produces the next value where that can be done, and leaves the
    /// generator alone where it cannot.
    pub fn try_next(&mut self) -> (v: Option<JsonValue>)
        ensures
            v is Some <==> old(self).ready() && old(self).can_step(1),
            v is Some ==> old(self).admits(v->0@) && *final(self) == old(self).advance(1),
            v is None ==> *final(self) == *old(self),
    {
        if self.is_ready() && self.fits(1) {
            Some(self.next())
        } else {
            None
        }
    }

    /// Producing no value leaves the generator as it is.
    pub proof fn lemma_advance_zero(&self)
        ensures
            self.advance(0) == *self,
        decreases self,
    {
        match self.function {
            Func::Sequence(s) => {
                assert(0 * s.step == 0) by (nonlinear_arith);
            },
            Func::Array(a) => match a.delegate {
                Some(d) => {
                    assert(0 * a.len as nat == 0) by (nonlinear_arith);
                    d.lemma_advance_zero();
                },
                None => {},
            },
            _ => {},
        }
    }

    /// Producing values leaves the nesting of arrays as it is.
    pub proof fn lemma_advance_depth(&self, n: nat)
        ensures
            self.advance(n).depth() == self.depth(),
        decreases self,
    {
        match self.function {
            Func::Array(a) => match a.delegate {
                Some(d) => {
                    d.lemma_advance_depth(n * a.len as nat);
                },
                None => {},
            },
            _ => {},
        }
    }

    /// A generator that can produce `n` more values can produce any lesser
    /// number of them.
    pub proof fn lemma_can_step_less(&self, k: nat, n: nat)
        requires
            self.can_step(n),
            k <= n,
        ensures
            self.can_step(k),
        decreases self,
    {
        match self.function {
            Func::Sequence(s) => {
                assert(0 <= k * s.step <= n * s.step || n * s.step <= k * s.step <= 0)
                    by (nonlinear_arith)
                    requires
                        k <= n,
                ;
            },
            Func::Array(a) => match a.delegate {
                Some(d) => {
                    assert(k * a.len as nat <= n * a.len as nat) by (nonlinear_arith)
                        requires
                            k <= n,
                    ;
                    d.lemma_can_step_less(k * a.len as nat, n * a.len as nat);
                },
                None => {},
            },
            _ => {},
        }
    }

    /// Producing `a` values and then `b` more leaves the generator as
    /// producing `a + b` values does, and the second part can be done where
    /// the whole can.
    pub proof fn lemma_advance_add(&self, a: nat, b: nat)
        requires
            self.can_step(a),
        ensures
            self.advance(a).advance(b) == self.advance(a + b),
            self.advance(a).can_step(b) == self.can_step(a + b),
            self.advance(a).ready() == self.ready(),
        decreases self,
    {
        match self.function {
            Func::Sequence(s) => {
                assert((a + b) * s.step == a * s.step + b * s.step) by (nonlinear_arith);
            },
            Func::Array(r) => match r.delegate {
                Some(d) => {
                    assert((a + b) * r.len as nat == a * r.len as nat + b * r.len as nat)
                        by (nonlinear_arith);
                    d.lemma_advance_add(a * r.len as nat, b * r.len as nat);
                },
                None => {},
            },
            _ => {},
        }
    }

    /// What a generator admits after `a` values were produced is what it
    /// admitted from the start for the values after the first `a`.
    pub proof fn lemma_admits_shift(&self, a: nat, k: nat, v: JsonModel)
        requires
            self.can_step(a),
        ensures
            self.advance(a).admits_at(k, v) == self.admits_at(a + k, v),
        decreases self,
    {
        match self.function {
            Func::Sequence(s) => {
                assert((a + k + 1) * s.step == a * s.step + (k + 1) * s.step) by (nonlinear_arith);
            },
            Func::Array(r) => match r.delegate {
                Some(d) => {
                    assert((a + k) * r.len as nat == a * r.len as nat + k * r.len as nat)
                        by (nonlinear_arith);
                    if v is Array && v->Array_0.len() == r.len {
                        assert forall|i: int| 0 <= i < r.len implies d.advance(
                            a * r.len as nat,
                        ).admits_at(k * r.len as nat + i as nat, #[trigger] v->Array_0[i])
                            == d.admits_at((a + k) * r.len as nat + i as nat, v->Array_0[i]) by {
                            d.lemma_admits_shift(
                                a * r.len as nat,
                                k * r.len as nat + i as nat,
                                v->Array_0[i],
                            );
                        }
                    }
                },
                None => {},
            },
            _ => {},
        }
    }
}

} // verus!

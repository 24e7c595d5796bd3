//! A generator of JSON documents from a template.
//!
//! A template is an ordinary JSON document in which some object fields are
//! marked by a prefix on their name. The text of a marked field is an
//! expression such as `seq(1,2)` or `int(1,100) -> array(5)`; it is compiled
//! into a generator, and every rendering of the template asks each generator
//! for a fresh value.
pub mod document;
pub mod error;
pub mod files;
pub mod generator;
pub mod json_template;
pub mod json_text;
pub mod parser;
pub mod sources;
pub mod text;
pub mod value;

use crate::json_template::JsonTemplate;
use crate::value::JsonValue;
use vstd::prelude::*;

verus! {

/// Produces `rep` documents from a template, one after the other.
///
/// Document `i` is one that the template admits after `i` earlier ones, and
/// the template is left as `rep` documents leave it: its fixed values and
/// its shape as they were, each generator `rep` rounds on.
pub fn generate(json: &mut JsonTemplate, rep: usize) -> (res: Vec<JsonValue>)
    requires
        old(json).ready(),
        old(json).can_step(rep as nat),
    ensures
        res.len() == rep,
        forall|i: int| 0 <= i < rep ==> old(json).admits_at(i as nat, (#[trigger] res[i])@),
        old(json).is_advanced(rep as nat, &*final(json)),
{
    let ghost start = *json;
    proof {
        start.lemma_advanced_zero();
    }
    let mut res: Vec<JsonValue> = Vec::new();
    let mut i: usize = 0;
    while i < rep
        invariant
            i <= rep,
            start == *old(json),
            start.ready(),
            start.can_step(rep as nat),
            start.is_advanced(i as nat, &*json),
            res.len() == i,
            forall|j: int| 0 <= j < i ==> start.admits_at(j as nat, (#[trigger] res[j])@),
        decreases rep - i,
    {
        let ghost mid = *json;
        proof {
            start.lemma_can_step_less(i as nat, rep as nat);
            start.lemma_can_step_less((i + 1) as nat, rep as nat);
            start.lemma_advanced_add(i as nat, &mid, 1, &mid);
        }
        let value = json.next_value();
        proof {
            start.lemma_admits_shift(i as nat, &mid, 0, value@);
            start.lemma_advanced_add(i as nat, &mid, 1, &*json);
        }
        res.push(value);
        i += 1;
    }
    res
}

/// Produces `rep` documents where that can be done, and leaves the template
/// alone where it cannot: where a generator cannot be run, or a sequence
/// would leave the range of its numbers on the way.
pub fn try_generate(json: &mut JsonTemplate, rep: usize) -> (r: Option<Vec<JsonValue>>)
    ensures
        r is Some <==> old(json).ready() && old(json).can_step(rep as nat),
        r is Some ==> r->0.len() == rep && old(json).is_advanced(rep as nat, &*final(json)),
        r is Some ==> forall|i: int|
            0 <= i < rep ==> old(json).admits_at(i as nat, (#[trigger] r->0[i])@),
        r is None ==> *final(json) == *old(json),
{
    if json.is_ready() && json.fits(rep) {
        Some(generate(json, rep))
    } else {
        None
    }
}

} // verus!

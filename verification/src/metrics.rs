//! Metrics that score a prediction against a labelled example.
use vstd::prelude::*;
use crate::example::{Example, lookup};
use crate::prediction::Prediction;
use crate::text::{trim, eq_ignore_ascii_case, chars_of, trim_chars, eq_ignore_case};
use crate::value::value_str;

verus! {

/// Exact-match metric: compares one field, ignoring surrounding whitespace
/// and ASCII case.
pub struct ExactMatch {
    pub field: String,
}

/// Both the example and the prediction hold a string in `field`, and the two
/// strings are equal once trimmed, up to ASCII case.
pub open spec fn exact_match_holds(field: Seq<char>, example: Example, prediction: Prediction) -> bool {
    match (value_str_of(lookup(example@.entries, field)), value_str_of(lookup(prediction.example@.entries, field))) {
        (Some(e), Some(a)) => eq_ignore_ascii_case(trim(e), trim(a)),
        _ => false,
    }
}

/// The string held, where a value is present and is a string.
pub open spec fn value_str_of(v: Option<crate::value::ValueModel>) -> Option<Seq<char>> {
    match v {
        Some(x) => value_str(x),
        None => None,
    }
}

impl ExactMatch {
    /// An exact-match metric on `field`.
    pub fn new(field: String) -> (r: ExactMatch)
        ensures
            r.field@ == field@,
    {
        ExactMatch { field }
    }

    /// Whether the prediction matches the example on the field; the score is
    /// 1 where it does and 0 where it does not.
    pub fn is_match(&self, example: &Example, prediction: &Prediction) -> (r: bool)
        ensures
            r == exact_match_holds(self.field@, *example, *prediction),
    {
        let expected = example.get_str(self.field.as_str());
        let actual = prediction.get_str(self.field.as_str());
        match (expected, actual) {
            (Some(e), Some(a)) => {
                let ec = chars_of(e);
                let ac = chars_of(a);
                let et = trim_chars(ec.as_slice());
                let at = trim_chars(ac.as_slice());
                eq_ignore_case(et.as_slice(), at.as_slice())
            },
            _ => false,
        }
    }
}

/// An exact-match metric on `field`.
pub fn exact_match(field: &str) -> (r: ExactMatch)
    ensures
        r.field@ == field@,
{
    ExactMatch::new(field.to_owned())
}

/// A metric given by a function of the example and the prediction; it is
/// scored by calling the function.
pub struct FnMetric<F>(pub F);

} // verus!

//! `Prediction`: the output fields of a module run, with an optional trace.
use vstd::prelude::*;
use crate::example::{Example, EntryModel, lookup, set_entry};
use crate::value::{FieldValue, ValueModel};

verus! {

/// One step of a run: which module ran, on what input, with what output.
#[derive(Debug, Clone)]
pub struct TraceEntry {
    pub module_name: String,
    pub input: Example,
    pub output: Example,
}

/// The output of a module: the produced fields plus optional trace
/// information for optimizers to inspect.
#[derive(Debug, Clone)]
pub struct Prediction {
    pub example: Example,
    pub trace: Option<Vec<TraceEntry>>,
}

impl Prediction {
    /// An empty prediction without trace.
    pub fn new() -> (r: Prediction)
        ensures
            r.example@.entries == Seq::<EntryModel>::empty(),
            r.example@.input_keys is None,
            r.trace is None,
    {
        Prediction { example: Example::new(), trace: None }
    }

    /// The prediction made of the given output fields, without trace.
    pub fn from_example(example: Example) -> (r: Prediction)
        ensures
            r.example == example,
            r.trace is None,
    {
        Prediction { example, trace: None }
    }

    /// The value of the output field named `key`.
    pub fn get(&self, key: &str) -> (r: Option<&FieldValue>)
        ensures
            match r {
                Some(v) => lookup(self.example@.entries, key@) == Some(v@),
                None => lookup(self.example@.entries, key@) is None,
            },
    {
        self.example.get(key)
    }

    /// The string value of the output field named `key`, if it holds a string.
    pub fn get_str(&self, key: &str) -> (r: Option<&str>)
        ensures
            match r {
                Some(s) => lookup(self.example@.entries, key@) == Some(ValueModel::Str(s@)),
                None => !(lookup(self.example@.entries, key@) matches Some(ValueModel::Str(_))),
            },
    {
        self.example.get_str(key)
    }

    /// Sets the output field named `key` to `value`.
    pub fn set(&mut self, key: &str, value: FieldValue)
        ensures
            final(self).example@.entries == set_entry(old(self).example@.entries, key@, value@),
            final(self).example@.input_keys == old(self).example@.input_keys,
            final(self).trace == old(self).trace,
    {
        self.example.set(key, value);
    }

    /// This prediction with the given trace.
    pub fn with_trace(self, trace: Vec<TraceEntry>) -> (r: Prediction)
        ensures
            r.example == self.example,
            r.trace == Some(trace),
    {
        let mut r = self;
        r.trace = Some(trace);
        r
    }

    /// The output fields.
    pub fn completions(&self) -> (r: &Example)
        ensures
            *r == self.example,
    {
        &self.example
    }
}

impl Default for Prediction {
    fn default() -> (r: Prediction)
        ensures
            r.example@.entries == Seq::<EntryModel>::empty(),
            r.trace is None,
    {
        Prediction::new()
    }
}

} // verus!

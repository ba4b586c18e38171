//! Choosing few-shot demos: labeled examples taken as they are, and examples
//! completed with the fields of a prediction that passed the metric.
use vstd::prelude::*;
use rand::seq::SliceRandom;
use crate::example::{Example, ExampleModel, set_all};
use crate::prediction::Prediction;
use crate::predict::state::{example_models, copy_examples, lemma_example_models_push};

verus! {

broadcast use vstd::seq_lib::group_to_multiset_ensures;

/// The first `n` examples, or all of them where there are fewer.
pub fn take_examples(set: &[Example], n: usize) -> (r: Vec<Example>)
    ensures
        example_models(r@) == example_models(set@).take(if n < set@.len() { n as int } else { set@.len() as int }),
{
    let m = if n < set.len() { n } else { set.len() };
    let mut r: Vec<Example> = Vec::new();
    let mut i: usize = 0;
    while i < m
        invariant
            i <= m <= set@.len(),
            example_models(r@) == example_models(set@).take(i as int),
        decreases m - i,
    {
        let e = set[i].duplicate();
        let ghost before = r@;
        r.push(e);
        proof {
            lemma_example_models_push(before, e);
        }
        assert(example_models(r@) =~= example_models(set@).take(i + 1));
        i = i + 1;
    }
    r
}

/// The simplest optimizer: the first `k` labeled examples become the demos.
pub struct LabeledFewShot {
    pub k: usize,
}

impl LabeledFewShot {
    /// An optimizer that takes `k` demos.
    pub fn new(k: usize) -> (r: LabeledFewShot)
        ensures
            r.k == k,
    {
        LabeledFewShot { k }
    }

    /// The demos chosen from a training set: its first `k` examples, or all
    /// of them where there are fewer.
    pub fn select_demos(&self, trainset: &[Example]) -> (r: Vec<Example>)
        ensures
            example_models(r@) == example_models(trainset@).take(
                if self.k < trainset@.len() { self.k as int } else { trainset@.len() as int },
            ),
    {
        take_examples(trainset, self.k)
    }
}

impl Default for LabeledFewShot {
    /// Sixteen demos.
    fn default() -> (r: LabeledFewShot)
        ensures
            r.k == 16,
    {
        LabeledFewShot { k: 16 }
    }
}

/// An example with each field of `output` set on it (a trace's input and
/// output made one demo).
pub fn merge_fields(example: &Example, output: &Example) -> (r: Example)
    ensures
        r@.entries == set_all(example@.entries, output@.entries),
        r@.input_keys == example@.input_keys,
{
    let mut r = example.duplicate();
    let fields = output.iter();
    let mut i: usize = 0;
    while i < fields.len()
        invariant
            i <= fields@.len(),
            crate::example::entry_models(fields@) == output@.entries,
            r@.entries == set_all(example@.entries, output@.entries.take(i as int)),
            r@.input_keys == example@.input_keys,
        decreases fields@.len() - i,
    {
        assert(output@.entries.take(i + 1).drop_last() =~= output@.entries.take(i as int));
        r.set(fields[i].0.as_str(), fields[i].1.duplicate());
        i = i + 1;
    }
    assert(output@.entries.take(i as int) =~= output@.entries);
    r
}

/// A demo made of an example and a prediction on it: the example with each
/// predicted field set on it.
pub fn merge_prediction(example: &Example, prediction: &Prediction) -> (r: Example)
    ensures
        r@.entries == set_all(example@.entries, prediction.example@.entries),
        r@.input_keys == example@.input_keys,
{
    merge_fields(example, prediction.completions())
}

/// The demos a bootstrapping run ends with: the bootstrapped ones, then the
/// first `max_labeled` labeled examples.
pub fn combine_demos(bootstrapped: Vec<Example>, trainset: &[Example], max_labeled: usize) -> (r: Vec<Example>)
    ensures
        example_models(r@) == example_models(bootstrapped@) + example_models(trainset@).take(
            if max_labeled < trainset@.len() { max_labeled as int } else { trainset@.len() as int },
        ),
{
    let labeled = take_examples(trainset, max_labeled);
    let mut r = bootstrapped;
    let ghost start = example_models(r@);
    let mut i: usize = 0;
    while i < labeled.len()
        invariant
            i <= labeled@.len(),
            example_models(r@) == start + example_models(labeled@).take(i as int),
        decreases labeled@.len() - i,
    {
        let e = labeled[i].duplicate();
        let ghost before = r@;
        r.push(e);
        proof {
            lemma_example_models_push(before, e);
        }
        assert(example_models(r@) =~= start + example_models(labeled@).take(i + 1));
        i = i + 1;
    }
    assert(example_models(labeled@).take(i as int) =~= example_models(labeled@));
    r
}

/// Where a training set is split into the part that demos are drawn from and
/// the part that candidates are scored on: at three quarters, but at least 1.
pub open spec fn split_point_of(len: nat) -> nat {
    if len * 3 / 4 >= 1 {
        len * 3 / 4
    } else {
        1
    }
}

/// Where a training set of `len` examples is split (see `split_point_of`).
pub fn split_point(len: usize) -> (r: usize)
    requires
        len * 3 <= usize::MAX,
    ensures
        r == split_point_of(len as nat),
{
    let p = len * 3 / 4;
    if p >= 1 {
        p
    } else {
        1
    }
}

/// A training set split into the part demos are drawn from and the part
/// candidates are scored on (see `split_point_of`).
pub fn split_trainset(trainset: &[Example]) -> (r: (Vec<Example>, Vec<Example>))
    requires
        1 <= trainset@.len(),
        trainset@.len() * 3 <= usize::MAX,
    ensures
        example_models(r.0@) == example_models(trainset@).take(split_point_of(trainset@.len()) as int),
        example_models(r.1@) == example_models(trainset@).skip(split_point_of(trainset@.len()) as int),
{
    let p = split_point(trainset.len());
    assert(p <= trainset@.len()) by (nonlinear_arith)
        requires
            p == split_point_of(trainset@.len()),
            1 <= trainset@.len(),
    ;
    let first = take_examples(trainset, p);
    let all = copy_examples(trainset);
    assert(all@.len() == trainset@.len()) by {
        assert(example_models(all@).len() == example_models(trainset@).len());
    }
    let mut rest: Vec<Example> = Vec::new();
    let mut i: usize = p;
    while i < all.len()
        invariant
            p <= i <= all@.len(),
            example_models(all@) == example_models(trainset@),
            example_models(rest@) == example_models(trainset@).subrange(p as int, i as int),
        decreases all@.len() - i,
    {
        let e = all[i].duplicate();
        let ghost before = rest@;
        rest.push(e);
        proof {
            lemma_example_models_push(before, e);
        }
        assert(example_models(rest@) =~= example_models(trainset@).subrange(p as int, i + 1));
        i = i + 1;
    }
    assert(example_models(trainset@).subrange(p as int, i as int) =~= example_models(trainset@).skip(p as int));
    (first, rest)
}

/// Wraps `SliceRandom::shuffle` with the thread's random generator: the
/// examples come out in a random order, each one as often as it went in.
/// (`rand::rng` panics only where the system's random source cannot be
/// opened.)
#[verifier::external_body]
fn shuffle_examples(v: &mut Vec<Example>)
    ensures
        example_models(final(v)@).to_multiset() == example_models(old(v)@).to_multiset(),
{
    v.shuffle(&mut rand::rng());
}

/// The examples in a random order: each one occurs as often as in `set`.
pub fn shuffled(set: &[Example]) -> (r: Vec<Example>)
    ensures
        example_models(r@).to_multiset() == example_models(set@).to_multiset(),
        r@.len() == set@.len(),
{
    let mut r = copy_examples(set);
    shuffle_examples(&mut r);
    assert(example_models(r@).len() == example_models(r@).to_multiset().len());
    assert(example_models(set@).len() == example_models(set@).to_multiset().len());
    r
}

/// SIMBA's demos after a round: the demos so far, then the new ones, cut to
/// at most `max_demos`.
pub fn accumulate_demos(accumulated: Vec<Example>, new_demos: Vec<Example>, max_demos: usize) -> (r: Vec<Example>)
    ensures
        example_models(r@) == {
            let all = example_models(accumulated@) + example_models(new_demos@);
            if max_demos < all.len() { all.take(max_demos as int) } else { all }
        },
{
    let mut r = accumulated;
    let ghost start = example_models(r@);
    let mut i: usize = 0;
    while i < new_demos.len()
        invariant
            i <= new_demos@.len(),
            example_models(r@) == start + example_models(new_demos@).take(i as int),
        decreases new_demos@.len() - i,
    {
        let e = new_demos[i].duplicate();
        let ghost before = r@;
        r.push(e);
        proof {
            lemma_example_models_push(before, e);
        }
        assert(example_models(r@) =~= start + example_models(new_demos@).take(i + 1));
        i = i + 1;
    }
    assert(example_models(new_demos@).take(i as int) =~= example_models(new_demos@));
    let ghost full = r@;
    r.truncate(max_demos);
    assert(example_models(r@) =~= (if max_demos < full.len() { example_models(full).take(max_demos as int) } else { example_models(full) }));
    r
}

/// Whether a round may still add a demo: the demos so far and the new ones
/// leave room under `max_demos`.
pub fn has_room(accumulated: usize, new_demos: usize, max_demos: usize) -> (r: bool)
    ensures
        r == (accumulated + new_demos < max_demos),
{
    if accumulated >= max_demos {
        false
    } else {
        new_demos < max_demos - accumulated
    }
}

/// SIMBA's count of rounds without improvement after a round, and whether it
/// stops: an improvement sets the count to 0; otherwise it grows by one and
/// the run stops once it reaches `patience`.
pub fn patience_step(improved: bool, stale_rounds: u64, patience: u64) -> (r: (u64, bool))
    requires
        stale_rounds < u64::MAX,
    ensures
        improved ==> r == (0u64, false),
        !improved ==> r.0 == stale_rounds + 1 && r.1 == (stale_rounds + 1 >= patience),
{
    if improved {
        (0, false)
    } else {
        let s = stale_rounds + 1;
        (s, s >= patience)
    }
}

/// The demo made of an example and the fields predicted for it.
pub open spec fn merged_model(example: ExampleModel, output: ExampleModel) -> ExampleModel {
    ExampleModel { entries: set_all(example.entries, output.entries), input_keys: example.input_keys }
}

/// The demos a bootstrapping round collects, up to a limit: each example
/// whose prediction passed the metric, completed with the predicted fields.
pub struct DemoCollector {
    demos: Vec<Example>,
    limit: usize,
}

impl View for DemoCollector {
    type V = (Seq<ExampleModel>, nat);

    closed spec fn view(&self) -> (Seq<ExampleModel>, nat) {
        (example_models(self.demos@), self.limit as nat)
    }
}

impl DemoCollector {
    #[verifier::type_invariant]
    spec fn inv(self) -> bool {
        self.demos@.len() <= self.limit
    }

    /// A collector of at most `limit` demos, with none yet.
    pub fn new(limit: usize) -> (r: DemoCollector)
        ensures
            r@.0 == Seq::<ExampleModel>::empty(),
            r@.1 == limit,
    {
        let r = DemoCollector { demos: Vec::new(), limit };
        assert(r@.0 =~= Seq::<ExampleModel>::empty());
        r
    }

    /// Whether another example is to be tried: fewer demos than the limit.
    pub fn has_room(&self) -> (r: bool)
        ensures
            r == (self@.0.len() < self@.1),
    {
        proof {
            use_type_invariant(self);
        }
        self.demos.len() < self.limit
    }

    /// Takes the outcome of one example, tried while there was room: where
    /// its prediction passed the metric, the completed example becomes a demo.
    pub fn offer(&mut self, example: &Example, prediction: &Prediction, passed: bool)
        requires
            old(self)@.0.len() < old(self)@.1,
        ensures
            final(self)@.1 == old(self)@.1,
            final(self)@.0 == if passed {
                old(self)@.0.push(merged_model(example@, prediction.example@))
            } else {
                old(self)@.0
            },
    {
        if passed {
            let d = merge_prediction(example, prediction);
            let ghost before = self.demos@;
            let mut demos: Vec<Example> = Vec::new();
            std::mem::swap(&mut demos, &mut self.demos);
            demos.push(d);
            self.demos = demos;
            proof {
                lemma_example_models_push(before, d);
            }
        }
    }

    /// The demos collected.
    pub fn demos(self) -> (r: Vec<Example>)
        ensures
            example_models(r@) == self@.0,
            r@.len() <= self@.1,
    {
        proof {
            use_type_invariant(&self);
        }
        self.demos
    }
}

} // verus!

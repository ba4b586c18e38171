//! The learnable state of a predictor: its few-shot demos and the
//! instruction that overrides the signature's own.  Optimizers change it, and
//! it is saved and loaded.
use vstd::prelude::*;
use crate::example::{Example, ExampleModel};

verus! {

/// The models of a sequence of examples.
pub open spec fn example_models(v: Seq<Example>) -> Seq<ExampleModel> {
    v.map_values(|e: Example| e@)
}

/// The models after a push are the models before and the model of the new one.
pub proof fn lemma_example_models_push(v: Seq<Example>, x: Example)
    ensures
        example_models(v.push(x)) == example_models(v).push(x@),
{
    assert(example_models(v.push(x)) =~= example_models(v).push(x@));
}

/// A copy of a sequence of examples.
pub fn copy_examples(v: &[Example]) -> (r: Vec<Example>)
    ensures
        example_models(r@) == example_models(v@),
{
    let mut r: Vec<Example> = Vec::new();
    let mut i: usize = 0;
    while i < v.len()
        invariant
            i <= v@.len(),
            example_models(r@) == example_models(v@).take(i as int),
        decreases v@.len() - i,
    {
        let e = v[i].duplicate();
        let ghost before = r@;
        r.push(e);
        proof {
            lemma_example_models_push(before, e);
        }
        assert(example_models(r@) =~= example_models(v@).take(i + 1));
        i = i + 1;
    }
    assert(example_models(v@).take(i as int) =~= example_models(v@));
    r
}

/// The model of a predictor's state.
pub struct StateModel {
    pub demos: Seq<ExampleModel>,
    pub instruction: Option<Seq<char>>,
}

/// The model of a saved state: what it holds of each part, if anything.
pub struct SavedModel {
    pub instruction: Option<Seq<char>>,
    pub demos: Option<Seq<ExampleModel>>,
}

/// The demos and the instruction override of a predictor.
pub struct PredictState {
    pub demos: Vec<Example>,
    pub instruction: Option<String>,
}

/// A saved predictor state, as it is written out and read back: each part
/// may be missing.
pub struct SavedState {
    pub instruction: Option<String>,
    pub demos: Option<Vec<Example>>,
}

/// The model of an optional string.
pub open spec fn opt_view(s: Option<String>) -> Option<Seq<char>> {
    match s {
        Some(v) => Some(v@),
        None => None,
    }
}

impl View for PredictState {
    type V = StateModel;

    open spec fn view(&self) -> StateModel {
        StateModel { demos: example_models(self.demos@), instruction: opt_view(self.instruction) }
    }
}

impl View for SavedState {
    type V = SavedModel;

    open spec fn view(&self) -> SavedModel {
        SavedModel {
            instruction: opt_view(self.instruction),
            demos: match self.demos {
                Some(d) => Some(example_models(d@)),
                None => None,
            },
        }
    }
}

/// The instruction in effect: the override where there is one, else the
/// signature's instruction.
pub open spec fn instruction_in_effect(s: StateModel, signature_instruction: Seq<char>) -> Seq<char> {
    match s.instruction {
        Some(i) => i,
        None => signature_instruction,
    }
}

/// What is saved of a state: the instruction in effect and the demos.
pub open spec fn dumped(s: StateModel, signature_instruction: Seq<char>) -> SavedModel {
    SavedModel { instruction: Some(instruction_in_effect(s, signature_instruction)), demos: Some(s.demos) }
}

/// A state after loading a saved one: each part that was saved replaces the
/// current one; a missing part leaves it as it was.
pub open spec fn loaded(s: StateModel, saved: SavedModel) -> StateModel {
    StateModel {
        demos: match saved.demos {
            Some(d) => d,
            None => s.demos,
        },
        instruction: match saved.instruction {
            Some(i) => Some(i),
            None => s.instruction,
        },
    }
}

/// A state after loading only the demos of a saved one.
pub open spec fn loaded_demos(s: StateModel, saved: SavedModel) -> StateModel {
    StateModel {
        demos: match saved.demos {
            Some(d) => d,
            None => s.demos,
        },
        instruction: s.instruction,
    }
}

/// The state of a fresh (or reset) predictor: no demos, no override.
pub open spec fn fresh_state() -> StateModel {
    StateModel { demos: Seq::empty(), instruction: None }
}

impl PredictState {
    /// A state with no demos and no instruction override.
    pub fn new() -> (r: PredictState)
        ensures
            r@ == fresh_state(),
    {
        let r = PredictState { demos: Vec::new(), instruction: None };
        assert(r@.demos =~= Seq::<ExampleModel>::empty());
        r
    }

    /// This state with these demos.
    pub fn with_demos(self, demos: Vec<Example>) -> (r: PredictState)
        ensures
            r@.demos == example_models(demos@),
            r@.instruction == self@.instruction,
    {
        PredictState { demos, instruction: self.instruction }
    }

    /// This state with this instruction override.
    pub fn with_instruction(self, instruction: &str) -> (r: PredictState)
        ensures
            r@.demos == self@.demos,
            r@.instruction == Some(instruction@),
    {
        PredictState { demos: self.demos, instruction: Some(instruction.to_string()) }
    }

    /// The instruction in effect, the signature's being `signature_instruction`.
    pub fn effective_instruction(&self, signature_instruction: &str) -> (r: String)
        ensures
            r@ == instruction_in_effect(self@, signature_instruction@),
    {
        match &self.instruction {
            Some(i) => i.clone(),
            None => signature_instruction.to_string(),
        }
    }

    /// Drops the demos and the instruction override.
    pub fn reset(&mut self)
        ensures
            final(self)@ == fresh_state(),
    {
        self.demos = Vec::new();
        self.instruction = None;
        assert(self@.demos =~= Seq::<ExampleModel>::empty());
    }

    /// What is saved of this state.
    pub fn dump(&self, signature_instruction: &str) -> (r: SavedState)
        ensures
            r@ == dumped(self@, signature_instruction@),
    {
        let instruction = self.effective_instruction(signature_instruction);
        let demos = copy_examples(self.demos.as_slice());
        SavedState { instruction: Some(instruction), demos: Some(demos) }
    }

    /// Loads a saved state: each part that was saved replaces the current one.
    pub fn load(&mut self, saved: &SavedState)
        ensures
            final(self)@ == loaded(old(self)@, saved@),
    {
        match &saved.instruction {
            Some(i) => {
                self.instruction = Some(i.clone());
            },
            None => {},
        }
        match &saved.demos {
            Some(d) => {
                self.demos = copy_examples(d.as_slice());
            },
            None => {},
        }
    }

    /// Loads only the demos of a saved state.
    pub fn load_demos(&mut self, saved: &SavedState)
        ensures
            final(self)@ == loaded_demos(old(self)@, saved@),
    {
        match &saved.demos {
            Some(d) => {
                self.demos = copy_examples(d.as_slice());
            },
            None => {},
        }
    }
}

impl Default for PredictState {
    fn default() -> (r: PredictState)
        ensures
            r@ == fresh_state(),
    {
        PredictState::new()
    }
}

/// Loading what was saved of a state restores its demos and the instruction
/// in effect, whatever the state it is loaded into.
pub proof fn law_load_after_dump(s: StateModel, into: StateModel, signature_instruction: Seq<char>)
    ensures
        loaded(into, dumped(s, signature_instruction)).demos == s.demos,
        instruction_in_effect(loaded(into, dumped(s, signature_instruction)), signature_instruction)
            == instruction_in_effect(s, signature_instruction),
{
}

/// Saving a state that was loaded from a save gives that save again.
pub proof fn law_dump_after_load(s: StateModel, into: StateModel, signature_instruction: Seq<char>)
    ensures
        dumped(loaded(into, dumped(s, signature_instruction)), signature_instruction) == dumped(s, signature_instruction),
{
}

/// After a reset the signature's own instruction is in effect and no demos
/// are left.
pub proof fn law_reset_clears(signature_instruction: Seq<char>)
    ensures
        fresh_state().demos.len() == 0,
        instruction_in_effect(fresh_state(), signature_instruction) == signature_instruction,
{
}

} // verus!

//! Retry and Refine: asking the model again, with feedback on an invalid
//! answer (Retry) or with its previous answer to improve (Refine).
use vstd::prelude::*;
use crate::example::{Example, EntryModel, set_all};
use crate::signature::FieldDescriptor;
use crate::text::{concat2, concat3, decimal, decimal_string};

verus! {

/// The instruction of attempt `attempt`: the plain instruction first, then
/// with the reason the previous answer was refused.
pub open spec fn retry_instruction_of(instruction: Seq<char>, attempt: nat, last_error: Seq<char>) -> Seq<char> {
    if attempt == 0 {
        instruction
    } else {
        instruction + "\n\nPrevious attempt was invalid: "@ + last_error + ". Please try again."@
    }
}

/// The instruction of attempt `attempt` (see `retry_instruction_of`).
pub fn retry_instruction(instruction: &str, attempt: u64, last_error: &str) -> (r: String)
    ensures
        r@ == retry_instruction_of(instruction@, attempt as nat, last_error@),
{
    if attempt == 0 {
        instruction.to_string()
    } else {
        let mut r = concat3(instruction, "\n\nPrevious attempt was invalid: ", last_error);
        r.append(". Please try again.");
        r
    }
}

/// The error of a run whose every attempt was refused.
pub open spec fn retry_exhausted_text(max_retries: nat, last_error: Seq<char>) -> Seq<char> {
    "Retry exhausted "@ + decimal(max_retries + 1) + " attempts. Last error: "@ + last_error
}

/// The error of a run whose every attempt was refused.
pub fn retry_exhausted_message(max_retries: u64, last_error: &str) -> (r: String)
    requires
        max_retries < u64::MAX,
    ensures
        r@ == retry_exhausted_text(max_retries as nat, last_error@),
{
    let n = decimal_string(max_retries + 1);
    let mut r = concat3("Retry exhausted ", n.as_str(), " attempts. Last error: ");
    r.append(last_error);
    r
}

/// What follows an attempt.
#[derive(Debug)]
pub enum RetryAction {
    /// The answer stands.
    Accept,
    /// Ask again; the answer was refused for this reason.
    TryAgain(String),
    /// Give up with this error.
    GiveUp(String),
}

/// The model of what follows an attempt.
pub enum RetryModel {
    Accept,
    TryAgain(Seq<char>),
    GiveUp(Seq<char>),
}

/// The model of an action.
pub open spec fn retry_model(a: RetryAction) -> RetryModel {
    match a {
        RetryAction::Accept => RetryModel::Accept,
        RetryAction::TryAgain(e) => RetryModel::TryAgain(e@),
        RetryAction::GiveUp(m) => RetryModel::GiveUp(m@),
    }
}

/// After attempt `attempt` (from 0) of `max_retries + 1`: an answer with no
/// validator, or one the validator accepts, stands; a refused one is asked
/// again while attempts are left, else the run gives up.
pub open spec fn retry_after(attempt: nat, max_retries: nat, verdict: Option<Result<(), Seq<char>>>) -> RetryModel {
    match verdict {
        Some(Err(e)) => if attempt < max_retries {
            RetryModel::TryAgain(e)
        } else {
            RetryModel::GiveUp(retry_exhausted_text(max_retries, e))
        },
        _ => RetryModel::Accept,
    }
}

/// The model of a validator's verdict.
pub open spec fn verdict_model(v: Option<Result<(), String>>) -> Option<Result<(), Seq<char>>> {
    match v {
        Some(Ok(())) => Some(Ok(())),
        Some(Err(e)) => Some(Err(e@)),
        None => None,
    }
}

/// What follows attempt `attempt`, given the validator's verdict on its
/// answer (none where there is no validator).
pub fn retry_decide(attempt: u64, max_retries: u64, verdict: Option<Result<(), String>>) -> (r: RetryAction)
    requires
        attempt <= max_retries < u64::MAX,
    ensures
        retry_model(r) == retry_after(attempt as nat, max_retries as nat, verdict_model(verdict)),
{
    match verdict {
        Some(Err(e)) => {
            if attempt < max_retries {
                RetryAction::TryAgain(e)
            } else {
                RetryAction::GiveUp(retry_exhausted_message(max_retries, e.as_str()))
            }
        },
        _ => RetryAction::Accept,
    }
}

/// What follows attempt `attempt`: the validator, if there is one, is run on
/// the answer, and its verdict decides as in `retry_after`.
pub fn retry_check<V: Fn(&Example) -> Result<(), String>>(
    validator: Option<&V>,
    attempt: u64,
    max_retries: u64,
    output: &Example,
) -> (r: RetryAction)
    requires
        attempt <= max_retries < u64::MAX,
        validator matches Some(v) ==> call_requires(*v, (output,)),
    ensures
        validator is None ==> r is Accept,
        validator matches Some(v) ==> exists|verdict: Result<(), String>|
            #[trigger] call_ensures(*v, (output,), verdict)
                && retry_model(r) == retry_after(attempt as nat, max_retries as nat, verdict_model(Some(verdict))),
{
    match validator {
        Some(v) => {
            let verdict = v(output);
            let r = retry_decide(attempt, max_retries, Some(verdict));
            assert(call_ensures(*v, (output,), verdict));
            r
        },
        None => RetryAction::Accept,
    }
}

/// The instruction of a refinement round.
pub open spec fn refine_instruction_of(instruction: Seq<char>) -> Seq<char> {
    instruction + "\n\nYou previously produced the output below. Improve it \u{2014} fix errors, add detail, or make it more precise."@
}

/// The instruction of a refinement round.
pub fn refine_instruction(instruction: &str) -> (r: String)
    ensures
        r@ == refine_instruction_of(instruction@),
{
    concat2(instruction, "\n\nYou previously produced the output below. Improve it \u{2014} fix errors, add detail, or make it more precise.")
}

/// The previous answer's fields, each named `previous_` and its name.
pub open spec fn previous_entries(es: Seq<EntryModel>) -> Seq<EntryModel> {
    es.map_values(|e: EntryModel| ("previous_"@ + e.0, e.1))
}

/// The input of a refinement round: the input with the previous answer's
/// fields added under `previous_` names.
pub fn refined_input(input: &Example, previous: &Example) -> (r: Example)
    ensures
        r@.entries == set_all(input@.entries, previous_entries(previous@.entries)),
        r@.input_keys == input@.input_keys,
{
    let mut r = input.duplicate();
    let fields = previous.iter();
    let mut i: usize = 0;
    while i < fields.len()
        invariant
            i <= fields@.len(),
            crate::example::entry_models(fields@) == previous@.entries,
            r@.entries == set_all(input@.entries, previous_entries(previous@.entries).take(i as int)),
            r@.input_keys == input@.input_keys,
        decreases fields@.len() - i,
    {
        assert(previous_entries(previous@.entries).take(i + 1).drop_last()
            =~= previous_entries(previous@.entries).take(i as int));
        let key = concat2("previous_", fields[i].0.as_str());
        r.set(key.as_str(), fields[i].1.duplicate());
        i = i + 1;
    }
    assert(previous_entries(previous@.entries).take(i as int) =~= previous_entries(previous@.entries));
    r
}

/// Wraps `String::leak`: the same characters, kept for the rest of the run.
#[verifier::external_body]
fn leak(s: String) -> (r: &'static str)
    ensures
        r@ == s@,
{
    s.leak()
}

/// The field under which a refinement round shows the previous value of `f`.
pub open spec fn previous_field_of(f: FieldDescriptor) -> (Seq<char>, Seq<char>, Seq<char>, Seq<char>) {
    ("previous_"@ + f.name@, "your previous "@ + f.name@ + " to improve"@, Seq::empty(), f.field_type@)
}

/// The parts of a field.
pub open spec fn field_parts(f: FieldDescriptor) -> (Seq<char>, Seq<char>, Seq<char>, Seq<char>) {
    (f.name@, f.desc@, f.prefix@, f.field_type@)
}

/// The input fields of a refinement round: the inputs, then a `previous_`
/// field for each output.
pub fn extended_input_fields(inputs: &[FieldDescriptor], outputs: &[FieldDescriptor]) -> (r: Vec<FieldDescriptor>)
    ensures
        r@.len() == inputs@.len() + outputs@.len(),
        forall|i: int| 0 <= i < inputs@.len() ==> #[trigger] r@[i] == inputs@[i],
        forall|j: int| 0 <= j < outputs@.len()
            ==> #[trigger] field_parts(r@[inputs@.len() + j]) == previous_field_of(outputs@[j]),
{
    let mut r: Vec<FieldDescriptor> = Vec::new();
    let mut i: usize = 0;
    while i < inputs.len()
        invariant
            i <= inputs@.len(),
            r@ == inputs@.take(i as int),
        decreases inputs@.len() - i,
    {
        r.push(inputs[i]);
        assert(r@ =~= inputs@.take(i + 1));
        i = i + 1;
    }
    let mut j: usize = 0;
    while j < outputs.len()
        invariant
            j <= outputs@.len(),
            i == inputs@.len(),
            r@.len() == inputs@.len() + j,
            forall|k: int| 0 <= k < inputs@.len() ==> #[trigger] r@[k] == inputs@[k],
            forall|k: int| 0 <= k < j ==> #[trigger] field_parts(r@[inputs@.len() + k]) == previous_field_of(outputs@[k]),
        decreases outputs@.len() - j,
    {
        let f = outputs[j];
        let name = leak(concat2("previous_", f.name));
        let desc = leak(concat3("your previous ", f.name, " to improve"));
        proof {
            reveal_strlit("");
        }
        r.push(FieldDescriptor { name, desc, prefix: "", field_type: f.field_type });
        j = j + 1;
    }
    r
}

} // verus!

//! Parallel: several named modules run on one input; their results are
//! gathered into one output, a field per module.
use vstd::prelude::*;
use crate::example::{Example, EntryModel, entry_models, set_all};
use crate::json::{json_object_text, spec_json_object_text};
use crate::value::{FieldValue, ValueModel};

verus! {

/// The JSON text a module's result is recorded as: its output fields under
/// `fields`, or its error message under `error`.
pub open spec fn outcome_json(outcome: Result<Seq<EntryModel>, Seq<char>>) -> Seq<char> {
    match outcome {
        Ok(es) => spec_json_object_text(seq![("fields"@, ValueModel::Json(spec_json_object_text(es)))]),
        Err(m) => spec_json_object_text(seq![("error"@, ValueModel::Str(m))]),
    }
}

/// The model of a module's result.
pub open spec fn outcome_model(o: (String, Result<Example, String>)) -> EntryModel {
    (
        o.0@,
        ValueModel::Json(outcome_json(match o.1 {
            Ok(e) => Ok(e@.entries),
            Err(m) => Err(m@),
        })),
    )
}

/// The gathered output: for each module, in order, a field of its name that
/// holds its result's JSON text (see `outcome_json`).
pub fn parallel_result(outcomes: &[(String, Result<Example, String>)]) -> (r: Example)
    ensures
        r@.entries == set_all(Seq::empty(), outcomes@.map_values(|o: (String, Result<Example, String>)| outcome_model(o))),
        r@.input_keys is None,
{
    let ghost want = outcomes@.map_values(|o: (String, Result<Example, String>)| outcome_model(o));
    let mut r = Example::new();
    let mut i: usize = 0;
    while i < outcomes.len()
        invariant
            i <= outcomes@.len(),
            want == outcomes@.map_values(|o: (String, Result<Example, String>)| outcome_model(o)),
            r@.entries == set_all(Seq::empty(), want.take(i as int)),
            r@.input_keys is None,
        decreases outcomes@.len() - i,
    {
        assert(want.take(i + 1).drop_last() =~= want.take(i as int));
        let text = match &outcomes[i].1 {
            Ok(e) => {
                let inner = json_object_text(e.to_map().as_slice());
                let mut members: Vec<(String, FieldValue)> = Vec::new();
                members.push(("fields".to_string(), FieldValue::Json(inner)));
                proof {
                    reveal_strlit("fields");
                }
                assert(entry_models(members@) =~= seq![("fields"@, ValueModel::Json(spec_json_object_text(e@.entries)))]);
                json_object_text(members.as_slice())
            },
            Err(m) => {
                let mut members: Vec<(String, FieldValue)> = Vec::new();
                members.push(("error".to_string(), FieldValue::Str(m.clone())));
                proof {
                    reveal_strlit("error");
                }
                assert(entry_models(members@) =~= seq![("error"@, ValueModel::Str(m@))]);
                json_object_text(members.as_slice())
            },
        };
        r.set(outcomes[i].0.as_str(), FieldValue::Json(text));
        i = i + 1;
    }
    assert(want.take(i as int) =~= want);
    r
}

} // verus!

//! Pieces of prompts shared by the modules.
use vstd::prelude::*;
use crate::example::{Example, EntryModel, lookup, lemma_views_push};
use crate::signature::FieldDescriptor;
use crate::text::{join, join_strings, views, concat3};
use crate::value::value_text;

verus! {

/// `name: text` and a newline for each of `fields` that `es` has, run together.
pub open spec fn input_lines(fields: Seq<FieldDescriptor>, es: Seq<EntryModel>) -> Seq<char>
    decreases fields.len(),
{
    if fields.len() == 0 {
        Seq::empty()
    } else {
        let prev = input_lines(fields.drop_last(), es);
        match lookup(es, fields.last().name@) {
            Some(v) => prev + fields.last().name@ + ": "@ + value_text(v) + "\n"@,
            None => prev,
        }
    }
}

/// The given input fields, one `name: text` line each.
pub fn input_text(fields: &[FieldDescriptor], input: &Example) -> (r: String)
    ensures
        r@ == input_lines(fields@, input@.entries),
{
    let mut r = String::new();
    let mut i: usize = 0;
    while i < fields.len()
        invariant
            i <= fields@.len(),
            r@ == input_lines(fields@.take(i as int), input@.entries),
        decreases fields@.len() - i,
    {
        assert(fields@.take(i + 1).drop_last() =~= fields@.take(i as int));
        match input.get(fields[i].name) {
            Some(v) => {
                let text = v.to_text();
                r.append(fields[i].name);
                r.append(": ");
                r.append(text.as_str());
                r.append("\n");
            },
            None => {},
        }
        i = i + 1;
    }
    assert(fields@.take(i as int) =~= fields@);
    r
}

/// The names of the fields.
pub open spec fn names_of(fields: Seq<FieldDescriptor>) -> Seq<Seq<char>> {
    fields.map_values(|f: FieldDescriptor| f.name@)
}

/// The field names joined with `, `.
pub fn field_name_list(fields: &[FieldDescriptor]) -> (r: String)
    ensures
        r@ == join(names_of(fields@), ", "@),
{
    let mut names: Vec<String> = Vec::new();
    let mut i: usize = 0;
    while i < fields.len()
        invariant
            i <= fields@.len(),
            views(names@) == names_of(fields@).take(i as int),
        decreases fields@.len() - i,
    {
        let n = fields[i].name.to_owned();
        proof {
            lemma_views_push(names@, n);
            assert(names_of(fields@).take(i + 1) =~= names_of(fields@).take(i as int).push(n@));
        }
        names.push(n);
        i = i + 1;
    }
    assert(names_of(fields@).take(i as int) =~= names_of(fields@));
    join_strings(&names, ", ")
}

/// The names, each between backticks, joined with `, `.
pub fn backticked_list(fields: &[FieldDescriptor]) -> (r: String)
    ensures
        r@ == join(crate::signature::backticked(crate::signature::field_names(fields@)), ", "@),
{
    join_strings(&crate::signature::backticked_names(fields), ", ")
}

/// The reasoning field that chain of thought puts before the outputs.
pub open spec fn reasoning_field() -> FieldDescriptor {
    FieldDescriptor {
        name: "reasoning",
        desc: "Think step by step to work towards the answer.",
        prefix: "",
        field_type: "String",
    }
}

/// The output fields with the reasoning field first.
pub fn output_fields_with_reasoning(outputs: &[FieldDescriptor]) -> (r: Vec<FieldDescriptor>)
    ensures
        r@ == seq![reasoning_field()] + outputs@,
{
    let mut r: Vec<FieldDescriptor> = Vec::new();
    r.push(FieldDescriptor {
        name: "reasoning",
        desc: "Think step by step to work towards the answer.",
        prefix: "",
        field_type: "String",
    });
    let mut i: usize = 0;
    while i < outputs.len()
        invariant
            i <= outputs@.len(),
            r@ == seq![reasoning_field()] + outputs@.take(i as int),
        decreases outputs@.len() - i,
    {
        r.push(outputs[i]);
        assert(seq![reasoning_field()] + outputs@.take(i + 1) =~= (seq![reasoning_field()] + outputs@.take(i as int)).push(outputs@[i as int]));
        i = i + 1;
    }
    assert(outputs@.take(i as int) =~= outputs@);
    r
}

} // verus!

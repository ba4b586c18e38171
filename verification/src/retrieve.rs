//! Retrieval: the texts that are embedded for documents and queries.
use vstd::prelude::*;
use crate::example::{Example, lookup, lemma_views_push};
use crate::predict::state::example_models;
use crate::text::{views, concat3};
use crate::value::value_text;

verus! {

/// The text of field `field` of an example: its value's text, or empty where
/// it has no such field.
pub open spec fn field_text(es: Seq<crate::example::EntryModel>, field: Seq<char>) -> Seq<char> {
    match lookup(es, field) {
        Some(v) => value_text(v),
        None => Seq::empty(),
    }
}

/// The texts that are embedded for the documents, one per document.
pub fn document_texts(documents: &[Example], text_field: &str) -> (r: Vec<String>)
    ensures
        views(r@) == example_models(documents@).map_values(|d: crate::example::ExampleModel| field_text(d.entries, text_field@)),
{
    let ghost want = example_models(documents@).map_values(|d: crate::example::ExampleModel| field_text(d.entries, text_field@));
    let mut r: Vec<String> = Vec::new();
    let mut i: usize = 0;
    while i < documents.len()
        invariant
            i <= documents@.len(),
            want == example_models(documents@).map_values(|d: crate::example::ExampleModel| field_text(d.entries, text_field@)),
            views(r@) == want.take(i as int),
        decreases documents@.len() - i,
    {
        let t = match documents[i].get(text_field) {
            Some(v) => v.to_text(),
            None => String::new(),
        };
        proof {
            lemma_views_push(r@, t);
        }
        r.push(t);
        assert(want.take(i + 1) =~= want.take(i as int).push(t@));
        i = i + 1;
    }
    assert(want.take(i as int) =~= want);
    r
}

/// The error of a query whose field is missing.
pub open spec fn missing_query_text(field: Seq<char>) -> Seq<char> {
    "Missing query field '"@ + field + "' in input"@
}

/// The query text of an input: the text of its query field, or an error
/// where the input has no such field.
pub fn query_text(input: &Example, query_field: &str) -> (r: Result<String, String>)
    ensures
        match lookup(input@.entries, query_field@) {
            Some(v) => r matches Ok(q) && q@ == value_text(v),
            None => r matches Err(e) && e@ == missing_query_text(query_field@),
        },
{
    match input.get(query_field) {
        Some(v) => Ok(v.to_text()),
        None => Err(concat3("Missing query field '", query_field, "' in input")),
    }
}

} // verus!

//! Fine-tuning data: successful traces turned into chat examples.
use vstd::prelude::*;
use crate::example::{Example, EntryModel, lemma_views_push};
use crate::message::{Message, MessageRole};
use crate::text::{join, views, join_strings, concat3};
use crate::value::value_text;

verus! {

/// One message of a fine-tuning example.
#[derive(Debug, Clone)]
pub struct FineTuningMessage {
    pub role: String,
    pub content: String,
}

/// A single training example for fine-tuning, in chat format.
#[derive(Debug, Clone)]
pub struct FineTuningExample {
    pub messages: Vec<FineTuningMessage>,
}

/// The name of a role in fine-tuning data.
pub open spec fn role_name(r: MessageRole) -> Seq<char> {
    match r {
        MessageRole::System => "system"@,
        MessageRole::User => "user"@,
        MessageRole::Assistant => "assistant"@,
        MessageRole::Developer => "developer"@,
    }
}

impl FineTuningMessage {
    /// The fine-tuning form of a chat message: its role's name and its text.
    pub fn from_message(m: &Message) -> (r: FineTuningMessage)
        ensures
            r.role@ == role_name(m.role),
            r.content@ == m.content@,
    {
        let role = match m.role {
            MessageRole::System => "system",
            MessageRole::User => "user",
            MessageRole::Assistant => "assistant",
            MessageRole::Developer => "developer",
        };
        proof {
            reveal_strlit("system");
            reveal_strlit("user");
            reveal_strlit("assistant");
            reveal_strlit("developer");
        }
        FineTuningMessage { role: role.to_string(), content: m.content.clone() }
    }
}

/// `name: text` for each field.
pub open spec fn field_pair_lines(es: Seq<EntryModel>) -> Seq<Seq<char>> {
    es.map_values(|e: EntryModel| e.0 + ": "@ + value_text(e.1))
}

/// The text of an example in fine-tuning data: one `name: text` line per field.
pub open spec fn fields_text(es: Seq<EntryModel>) -> Seq<char> {
    join(field_pair_lines(es), "\n"@)
}

/// The text of an example in fine-tuning data (see `fields_text`).
pub fn example_text(ex: &Example) -> (r: String)
    ensures
        r@ == fields_text(ex@.entries),
{
    let fields = ex.iter();
    let mut ls: Vec<String> = Vec::new();
    let mut k: usize = 0;
    while k < fields.len()
        invariant
            k <= fields@.len(),
            crate::example::entry_models(fields@) == ex@.entries,
            views(ls@) == field_pair_lines(ex@.entries).take(k as int),
        decreases fields@.len() - k,
    {
        let text = fields[k].1.to_text();
        let s = concat3(fields[k].0.as_str(), ": ", text.as_str());
        proof {
            lemma_views_push(ls@, s);
        }
        ls.push(s);
        assert(field_pair_lines(ex@.entries).take(k + 1) =~= field_pair_lines(ex@.entries).take(k as int).push(s@));
        k = k + 1;
    }
    assert(field_pair_lines(ex@.entries).take(k as int) =~= field_pair_lines(ex@.entries));
    join_strings(&ls, "\n")
}

/// The model of a fine-tuning example: its messages' roles and texts.
pub open spec fn finetune_model(e: FineTuningExample) -> Seq<(Seq<char>, Seq<char>)> {
    e.messages@.map_values(|m: FineTuningMessage| (m.role@, m.content@))
}

/// The fine-tuning example of a trace: the input's fields as the user's
/// message, the output's as the assistant's.
pub open spec fn trace_example(input: Seq<EntryModel>, output: Seq<EntryModel>) -> Seq<(Seq<char>, Seq<char>)> {
    seq![("user"@, fields_text(input)), ("assistant"@, fields_text(output))]
}

/// The fine-tuning data of the traces, one example per (input, output) pair.
pub fn generate_finetune_data(traces: &[(Example, Example)]) -> (r: Vec<FineTuningExample>)
    ensures
        r@.len() == traces@.len(),
        forall|i: int| 0 <= i < traces@.len()
            ==> finetune_model(#[trigger] r@[i]) == trace_example(traces@[i].0@.entries, traces@[i].1@.entries),
{
    let mut r: Vec<FineTuningExample> = Vec::new();
    let mut i: usize = 0;
    while i < traces.len()
        invariant
            i <= traces@.len(),
            r@.len() == i,
            forall|j: int| 0 <= j < i
                ==> finetune_model(#[trigger] r@[j]) == trace_example(traces@[j].0@.entries, traces@[j].1@.entries),
        decreases traces@.len() - i,
    {
        let user = example_text(&traces[i].0);
        let assistant = example_text(&traces[i].1);
        let mut messages: Vec<FineTuningMessage> = Vec::new();
        messages.push(FineTuningMessage { role: "user".to_string(), content: user });
        messages.push(FineTuningMessage { role: "assistant".to_string(), content: assistant });
        let e = FineTuningExample { messages };
        proof {
            reveal_strlit("user");
            reveal_strlit("assistant");
        }
        assert(finetune_model(e) =~= trace_example(traces@[i as int].0@.entries, traces@[i as int].1@.entries));
        r.push(e);
        i = i + 1;
    }
    r
}

} // verus!

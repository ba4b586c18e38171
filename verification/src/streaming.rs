//! Streamify: a one-shot prompt whose answer may be read token by token; the
//! complete answer is read back into the output fields.
use vstd::prelude::*;
use crate::adapters::chat::{ChatAdapter, chat_parse};
use crate::example::{Example, EntryModel, set_entry};
use crate::message::{Message, MessageRole, message_models};
use crate::predict::prompt::{input_lines, input_text, names_of, field_name_list};
use crate::signature::FieldDescriptor;
use crate::text::{join, trim, trim_str, concat3};
use crate::value::{FieldValue, ValueModel};

verus! {

/// The system prompt: the instruction, then the fields to answer with.
pub open spec fn stream_system_text(instruction: Seq<char>, outputs: Seq<FieldDescriptor>) -> Seq<char> {
    instruction + "\n\nRespond with the following fields: "@ + join(names_of(outputs), ", "@)
}

/// The system prompt (see `stream_system_text`).
pub fn stream_system_prompt(instruction: &str, output_fields: &[FieldDescriptor]) -> (r: String)
    ensures
        r@ == stream_system_text(instruction@, output_fields@),
{
    let names = field_name_list(output_fields);
    concat3(instruction, "\n\nRespond with the following fields: ", names.as_str())
}

/// The two messages sent: the system prompt and one `name: text` line per
/// input field that the input has.
pub fn stream_messages(
    instruction: &str,
    input_fields: &[FieldDescriptor],
    output_fields: &[FieldDescriptor],
    input: &Example,
) -> (r: Vec<Message>)
    ensures
        message_models(r@) == seq![
            (MessageRole::System, stream_system_text(instruction@, output_fields@)),
            (MessageRole::User, input_lines(input_fields@, input@.entries)),
        ],
{
    let system = stream_system_prompt(instruction, output_fields);
    let user = input_text(input_fields, input);
    let mut r: Vec<Message> = Vec::new();
    r.push(Message::system(system));
    r.push(Message::user(user));
    assert(message_models(r@) =~= seq![
        (MessageRole::System, stream_system_text(instruction@, output_fields@)),
        (MessageRole::User, input_lines(input_fields@, input@.entries)),
    ]);
    r
}

/// The output read from a complete answer: the chat format where it parses;
/// otherwise a lone output field takes the whole trimmed answer, and with
/// several fields nothing is read.
pub open spec fn stream_result_of(outputs: Seq<FieldDescriptor>, content: Seq<char>) -> Seq<EntryModel> {
    match chat_parse(content, outputs) {
        Ok(r) => r,
        Err(_) => if outputs.len() == 1 {
            set_entry(Seq::empty(), outputs[0].name@, ValueModel::Str(trim(content)))
        } else {
            Seq::empty()
        },
    }
}

/// The output read from a complete answer (see `stream_result_of`).
pub fn stream_result(output_fields: &[FieldDescriptor], content: &str) -> (r: Example)
    ensures
        r@.entries == stream_result_of(output_fields@, content@),
        r@.input_keys is None,
{
    let adapter = ChatAdapter;
    match adapter.parse_response(content, output_fields) {
        Ok(r) => r,
        Err(_) => {
            let mut result = Example::new();
            if output_fields.len() == 1 {
                result.set(output_fields[0].name, FieldValue::Str(trim_str(content)));
            }
            result
        },
    }
}

} // verus!

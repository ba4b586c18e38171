//! The JSON adapter: the reply is a JSON object with one member per output field.
use vstd::prelude::*;
use crate::adapters::chat::{MessagesModel, demo_models, parse_model};
use crate::adapters::error::{AdapterError, ErrorModel};
use crate::example::{Example, EntryModel, lookup, set_entry, lemma_views_push, entry_models, lemma_entry_models_push, distinct_keys};
use crate::json::{JsonDoc, JsonModel, json_model, spec_parse_json, spec_json_object_text, parse_json, json_object_text};
use crate::message::{Message, MessageRole, message_models};
use crate::signature::{FieldDescriptor, display_desc_of};
use crate::text::{
    join, join_strings, views, trim, trim_start, trim_end, string_of, trim_chars, chars_of, concat3, starts_with, slice_copy,
    lemma_trim_push_ws, lemma_trim_chars_from,
};
use crate::value::value_text;

verus! {

/// Adapter that requests structured JSON output from the LM.
pub struct JsonAdapter;

/// For each of `fields` that `es` has: `name: text`.
pub open spec fn named_parts(fields: Seq<FieldDescriptor>, es: Seq<EntryModel>) -> Seq<Seq<char>>
    decreases fields.len(),
{
    if fields.len() == 0 {
        Seq::empty()
    } else {
        let prev = named_parts(fields.drop_last(), es);
        match lookup(es, fields.last().name@) {
            Some(v) => prev.push(fields.last().name@ + ": "@ + value_text(v)),
            None => prev,
        }
    }
}

/// `  "name": "<description>"` for each output field.
pub open spec fn schema_lines(fields: Seq<FieldDescriptor>) -> Seq<Seq<char>> {
    fields.map_values(|f: FieldDescriptor| "  \""@ + f.name@ + "\": \"<"@ + display_desc_of(f) + ">\""@)
}

/// The system message: the instruction and the shape of the JSON object.
pub open spec fn json_system_text(instruction: Seq<char>, outputs: Seq<FieldDescriptor>) -> Seq<char> {
    join(
        seq![
            instruction,
            ""@,
            "Respond with a JSON object with the following fields:"@,
            "{\n"@ + join(schema_lines(outputs), ",\n"@) + "\n}"@,
        ],
        "\n"@,
    )
}

/// The output fields that `es` has, as the members of a JSON object.
pub open spec fn output_object(fields: Seq<FieldDescriptor>, es: Seq<EntryModel>) -> Seq<EntryModel>
    decreases fields.len(),
{
    if fields.len() == 0 {
        Seq::empty()
    } else {
        let prev = output_object(fields.drop_last(), es);
        match lookup(es, fields.last().name@) {
            Some(v) => set_entry(prev, fields.last().name@, v),
            None => prev,
        }
    }
}

/// For each demo: a user message with its inputs, and an assistant message
/// with its outputs as a JSON object.
pub open spec fn json_demo_messages(inputs: Seq<FieldDescriptor>, outputs: Seq<FieldDescriptor>, demos: Seq<Seq<EntryModel>>) -> MessagesModel
    decreases demos.len(),
{
    if demos.len() == 0 {
        Seq::empty()
    } else {
        json_demo_messages(inputs, outputs, demos.drop_last())
            .push((MessageRole::User, join(named_parts(inputs, demos.last()), "\n"@)))
            .push((MessageRole::Assistant, spec_json_object_text(output_object(outputs, demos.last()))))
    }
}

/// All messages of a JSON-format request.
pub open spec fn json_messages(
    instruction: Seq<char>,
    inputs: Seq<FieldDescriptor>,
    outputs: Seq<FieldDescriptor>,
    demos: Seq<Seq<EntryModel>>,
    es: Seq<EntryModel>,
) -> MessagesModel {
    seq![(MessageRole::System, json_system_text(instruction, outputs))]
        + json_demo_messages(inputs, outputs, demos)
        + seq![(MessageRole::User, join(named_parts(inputs, es), "\n"@))]
}

/// `s` with every leading repetition of `p` removed.
pub open spec fn strip_prefix_all(s: Seq<char>, p: Seq<char>) -> Seq<char>
    decreases s.len(),
{
    if p.len() > 0 && p.is_prefix_of(s) {
        strip_prefix_all(s.skip(p.len() as int), p)
    } else {
        s
    }
}

/// `s` with every trailing repetition of `p` removed.
pub open spec fn strip_suffix_all(s: Seq<char>, p: Seq<char>) -> Seq<char>
    decreases s.len(),
{
    if p.len() > 0 && p.is_suffix_of(s) {
        strip_suffix_all(s.take(s.len() - p.len()), p)
    } else {
        s
    }
}

/// The JSON text of a reply: the trimmed reply, with a surrounding code fence
/// (```` ```json ```` or ```` ``` ````) removed where it starts with one.
pub open spec fn json_payload(response: Seq<char>) -> Seq<char> {
    let t = trim(response);
    if "```"@.is_prefix_of(t) {
        trim(strip_suffix_all(strip_prefix_all(strip_prefix_all(t, "```json"@), "```"@), "```"@))
    } else {
        t
    }
}

/// Taking each output field from the object: a missing one is an error.
pub open spec fn json_fill(obj: Seq<EntryModel>, outputs: Seq<FieldDescriptor>) -> Result<Seq<EntryModel>, ErrorModel>
    decreases outputs.len(),
{
    if outputs.len() == 0 {
        Ok(Seq::empty())
    } else {
        match json_fill(obj, outputs.drop_last()) {
            Err(e) => Err(e),
            Ok(r) => match lookup(obj, outputs.last().name@) {
                Some(v) => Ok(set_entry(r, outputs.last().name@, v)),
                None => Err(ErrorModel::MissingJsonField(outputs.last().name@)),
            },
        }
    }
}

/// The output fields read from the parsed JSON payload of a reply: the
/// parser's error with the payload, an error for JSON that is no object, or
/// each output field taken from the object.
pub open spec fn json_result(doc: JsonModel, payload: Seq<char>, outputs: Seq<FieldDescriptor>) -> Result<Seq<EntryModel>, ErrorModel> {
    match doc {
        JsonModel::Invalid(message) => Err(ErrorModel::InvalidJson(message, payload)),
        JsonModel::Other(_) => Err(ErrorModel::NotAnObject),
        JsonModel::Object(obj) => json_fill(obj, outputs),
    }
}

/// What a JSON-format reply parses to.
pub open spec fn json_parse(response: Seq<char>, outputs: Seq<FieldDescriptor>) -> Result<Seq<EntryModel>, ErrorModel> {
    json_result(spec_parse_json(json_payload(response)), json_payload(response), outputs)
}

/// `v` with every leading repetition of `p` removed.
fn strip_prefix_all_exec(v: &Vec<char>, p: &Vec<char>) -> (r: Vec<char>)
    ensures
        r@ == strip_prefix_all(v@, p@),
{
    if p.len() == 0 {
        return slice_copy(v.as_slice(), 0, v.len());
    }
    let mut cur = slice_copy(v.as_slice(), 0, v.len());
    assert(cur@ =~= v@);
    while starts_with(cur.as_slice(), p.as_slice())
        invariant
            p@.len() > 0,
            strip_prefix_all(cur@, p@) == strip_prefix_all(v@, p@),
        decreases cur@.len(),
    {
        let next = slice_copy(cur.as_slice(), p.len(), cur.len());
        assert(next@ =~= cur@.skip(p@.len() as int));
        cur = next;
    }
    cur
}

/// `v` with every trailing repetition of `p` removed.
fn strip_suffix_all_exec(v: &Vec<char>, p: &Vec<char>) -> (r: Vec<char>)
    ensures
        r@ == strip_suffix_all(v@, p@),
{
    let mut cur = slice_copy(v.as_slice(), 0, v.len());
    assert(cur@ =~= v@);
    if p.len() == 0 {
        return cur;
    }
    loop
        invariant
            p@.len() > 0,
            strip_suffix_all(cur@, p@) == strip_suffix_all(v@, p@),
        decreases cur@.len(),
    {
        if p.len() > cur.len() {
            return cur;
        }
        let start = cur.len() - p.len();
        let tail = slice_copy(cur.as_slice(), start, cur.len());
        let mut same = true;
        let mut k: usize = 0;
        while k < p.len()
            invariant
                k <= p@.len() == tail@.len(),
                same == (forall|j: int| 0 <= j < k ==> tail@[j] == p@[j]),
            decreases p@.len() - k,
        {
            if tail[k] != p[k] {
                same = false;
            }
            k = k + 1;
        }
        proof {
            if same {
                assert(tail@ =~= p@);
                assert forall|i: int| 0 <= i < p@.len() implies p@[i] == cur@[cur@.len() - p@.len() + i] by {
                    assert(tail@[i] == cur@[start + i]);
                }
            } else {
                if p@.is_suffix_of(cur@) {
                    assert forall|j: int| 0 <= j < p@.len() implies tail@[j] == p@[j] by {
                        assert(tail@[j] == cur@[start + j]);
                    }
                }
            }
        }
        if !same {
            return cur;
        }
        let next = slice_copy(cur.as_slice(), 0, start);
        assert(next@ =~= cur@.take(cur@.len() - p@.len()));
        cur = next;
    }
}

/// The JSON text of a reply.
pub fn json_payload_of(response: &str) -> (r: String)
    ensures
        r@ == json_payload(response@),
{
    let chars = chars_of(response);
    let t = trim_chars(chars.as_slice());
    let fence = chars_of("```");
    let fence_json = chars_of("```json");
    if starts_with(t.as_slice(), fence.as_slice()) {
        let a = strip_prefix_all_exec(&t, &fence_json);
        let b = strip_prefix_all_exec(&a, &fence);
        let c = strip_suffix_all_exec(&b, &fence);
        let d = trim_chars(c.as_slice());
        string_of(d.as_slice())
    } else {
        string_of(t.as_slice())
    }
}

/// Appends, for each of `fields` that `ex` has, `name: text`.
fn push_named_parts(parts: &mut Vec<String>, fields: &[FieldDescriptor], ex: &Example)
    ensures
        views(final(parts)@) == views(old(parts)@) + named_parts(fields@, ex@.entries),
{
    let mut i: usize = 0;
    while i < fields.len()
        invariant
            i <= fields@.len(),
            views(parts@) == views(old(parts)@) + named_parts(fields@.take(i as int), ex@.entries),
        decreases fields@.len() - i,
    {
        assert(fields@.take(i + 1).drop_last() =~= fields@.take(i as int));
        match ex.get(fields[i].name) {
            Some(v) => {
                let text = v.to_text();
                let s = concat3(fields[i].name, ": ", text.as_str());
                proof {
                    lemma_views_push(parts@, s);
                }
                parts.push(s);
                assert(views(parts@) =~= views(old(parts)@) + named_parts(fields@.take(i + 1), ex@.entries));
            },
            None => {
                assert(views(parts@) =~= views(old(parts)@) + named_parts(fields@.take(i + 1), ex@.entries));
            },
        }
        i = i + 1;
    }
    assert(fields@.take(i as int) =~= fields@);
}

/// The output fields that `ex` has, as JSON object members.
fn output_members(fields: &[FieldDescriptor], ex: &Example) -> (r: Vec<(String, FieldValue)>)
    ensures
        entry_models(r@) == output_object(fields@, ex@.entries),
{
    let mut obj = Example::new();
    let mut i: usize = 0;
    while i < fields.len()
        invariant
            i <= fields@.len(),
            obj@.entries == output_object(fields@.take(i as int), ex@.entries),
        decreases fields@.len() - i,
    {
        assert(fields@.take(i + 1).drop_last() =~= fields@.take(i as int));
        match ex.get(fields[i].name) {
            Some(v) => {
                obj.set(fields[i].name, v.duplicate());
            },
            None => {},
        }
        i = i + 1;
    }
    assert(fields@.take(i as int) =~= fields@);
    obj.into_map()
}

use crate::value::FieldValue;

impl JsonAdapter {
    /// The system message text.
    pub fn format_system(&self, instruction: &str, output_fields: &[FieldDescriptor]) -> (r: String)
        ensures
            r@ == json_system_text(instruction@, output_fields@),
    {
        let mut schema: Vec<String> = Vec::new();
        let mut i: usize = 0;
        while i < output_fields.len()
            invariant
                i <= output_fields@.len(),
                views(schema@) == schema_lines(output_fields@).take(i as int),
            decreases output_fields@.len() - i,
        {
            let mut s = concat3("  \"", output_fields[i].name, "\": \"<");
            s.append(output_fields[i].display_desc());
            s.append(">\"");
            proof {
                lemma_views_push(schema@, s);
                assert(schema_lines(output_fields@).take(i + 1) =~= schema_lines(output_fields@).take(i as int).push(s@));
            }
            schema.push(s);
            i = i + 1;
        }
        assert(schema_lines(output_fields@).take(i as int) =~= schema_lines(output_fields@));
        let body = join_strings(&schema, ",\n");
        let mut parts: Vec<String> = Vec::new();
        parts.push(instruction.to_owned());
        parts.push("".to_owned());
        parts.push("Respond with a JSON object with the following fields:".to_owned());
        parts.push(concat3("{\n", body.as_str(), "\n}"));
        assert(views(parts@) =~= seq![
            instruction@,
            ""@,
            "Respond with a JSON object with the following fields:"@,
            "{\n"@ + join(schema_lines(output_fields@), ",\n"@) + "\n}"@,
        ]);
        join_strings(&parts, "\n")
    }

    /// The messages of a JSON-format request: the system message, a user and
    /// assistant pair per demo, and the user message with the inputs.
    pub fn format_messages(
        &self,
        instruction: &str,
        input_fields: &[FieldDescriptor],
        output_fields: &[FieldDescriptor],
        demos: &[Example],
        inputs: &Example,
    ) -> (r: Vec<Message>)
        ensures
            message_models(r@) == json_messages(instruction@, input_fields@, output_fields@, demo_models(demos@), inputs@.entries),
    {
        let mut messages: Vec<Message> = Vec::new();
        messages.push(Message::system(self.format_system(instruction, output_fields)));
        let ghost first = message_models(messages@);
        let mut i: usize = 0;
        while i < demos.len()
            invariant
                i <= demos@.len(),
                first == seq![(MessageRole::System, json_system_text(instruction@, output_fields@))],
                message_models(messages@) == first + json_demo_messages(input_fields@, output_fields@, demo_models(demos@).take(i as int)),
            decreases demos@.len() - i,
        {
            let ghost before = message_models(messages@);
            let mut parts: Vec<String> = Vec::new();
            push_named_parts(&mut parts, input_fields, &demos[i]);
            assert(views(parts@) =~= named_parts(input_fields@, demos@[i as int]@.entries));
            let user_text = join_strings(&parts, "\n");
            let members = output_members(output_fields, &demos[i]);
            let out_text = json_object_text(members.as_slice());
            messages.push(Message::user(user_text));
            messages.push(Message::assistant(out_text));
            proof {
                let t = demo_models(demos@).take(i + 1);
                assert(t.drop_last() =~= demo_models(demos@).take(i as int));
                assert(message_models(messages@) =~= before.push((MessageRole::User, join(named_parts(input_fields@, t.last()), "\n"@))).push((MessageRole::Assistant, spec_json_object_text(output_object(output_fields@, t.last())))));
            }
            i = i + 1;
        }
        assert(demo_models(demos@).take(i as int) =~= demo_models(demos@));
        let ghost mid = message_models(messages@);
        let mut parts: Vec<String> = Vec::new();
        push_named_parts(&mut parts, input_fields, inputs);
        assert(views(parts@) =~= named_parts(input_fields@, inputs@.entries));
        messages.push(Message::user(join_strings(&parts, "\n")));
        assert(message_models(messages@) =~= mid.push((MessageRole::User, join(named_parts(input_fields@, inputs@.entries), "\n"@))));
        messages
    }

    /// Parses a JSON-format reply: the (possibly code-fenced) JSON object must
    /// have a member for every output field.
    pub fn parse_response(&self, response: &str, output_fields: &[FieldDescriptor]) -> (r: Result<Example, AdapterError>)
        ensures
            parse_model(r) == json_parse(response@, output_fields@),
            r matches Ok(e) ==> e@.input_keys is None,
    {
        let payload = json_payload_of(response);
        let doc = parse_json(payload.as_str());
        json_fields_from(doc, payload, output_fields)
    }
}

/// The output fields read from `doc`, the parsed JSON `payload` of a reply
/// (see `json_result`).
pub fn json_fields_from(doc: JsonDoc, payload: String, output_fields: &[FieldDescriptor]) -> (r: Result<Example, AdapterError>)
    requires
        doc matches JsonDoc::Object(v) ==> distinct_keys(entry_models(v@)),
    ensures
        parse_model(r) == json_result(json_model(doc), payload@, output_fields@),
        r matches Ok(e) ==> e@.input_keys is None,
{
    let ghost dm = json_model(doc);
    match doc {
        JsonDoc::Invalid(message) => Err(AdapterError::InvalidJson { message, raw: payload }),
        JsonDoc::Other(_) => Err(AdapterError::NotAnObject),
        JsonDoc::Object(members) => {
            let obj = Example::from_map(members);
            proof {
                crate::example::lemma_set_all_id(entry_models(members@));
            }
            let mut result = Example::new();
            let n = output_fields.len();
            let mut j: usize = 0;
            while j < n
                invariant
                    j <= n == output_fields@.len(),
                    obj@.entries == entry_models(members@),
                    dm == JsonModel::Object(entry_models(members@)),
                    dm == json_model(doc),
                    result@.input_keys is None,
                    json_fill(entry_models(members@), output_fields@.take(j as int)) == Ok::<Seq<EntryModel>, ErrorModel>(result@.entries),
                decreases n - j,
            {
                assert(output_fields@.take(j + 1).drop_last() =~= output_fields@.take(j as int));
                let name = output_fields[j].name;
                match obj.get(name) {
                    Some(v) => {
                        result.set(name, v.duplicate());
                    },
                    None => {
                        proof {
                            lemma_json_fill_err(entry_models(members@), output_fields@, j + 1);
                        }
                        return Err(AdapterError::MissingJsonField(name.to_owned()));
                    },
                }
                j = j + 1;
            }
            assert(output_fields@.take(n as int) =~= output_fields@);
            Ok(result)
        },
    }
}

/// Once taking the output fields fails on a prefix, it fails with the same
/// error on the whole.
proof fn lemma_json_fill_err(obj: Seq<EntryModel>, outputs: Seq<FieldDescriptor>, j: int)
    requires
        0 <= j <= outputs.len(),
        json_fill(obj, outputs.take(j)) is Err,
    ensures
        json_fill(obj, outputs) == json_fill(obj, outputs.take(j)),
    decreases outputs.len() - j,
{
    if j < outputs.len() {
        assert(outputs.take(j + 1).drop_last() =~= outputs.take(j));
        lemma_json_fill_err(obj, outputs, j + 1);
    } else {
        assert(outputs.take(j) =~= outputs);
    }
}

/// `"\n" + j + "\n```"` loses no leading fence and its closing fence, and
/// trims to `j` trimmed.
proof fn lemma_fence_body(j: Seq<char>)
    ensures
        ({
            let y = seq!['\n'] + j + seq!['\n', '`', '`', '`'];
            &&& strip_prefix_all(y, "```json"@) == y
            &&& strip_prefix_all(y, "```"@) == y
            &&& trim(strip_suffix_all(y, "```"@)) == trim(j)
        }),
{
    reveal_strlit("```json");
    reveal_strlit("```");
    let y = seq!['\n'] + j + seq!['\n', '`', '`', '`'];
    assert(y[0] == '\n');
    assert(!"```json"@.is_prefix_of(y)) by {
        if "```json"@.is_prefix_of(y) {
            assert(y.take(7)[0] == y[0]);
        }
    }
    assert(!"```"@.is_prefix_of(y)) by {
        if "```"@.is_prefix_of(y) {
            assert(y.take(3)[0] == y[0]);
        }
    }
    let z = seq!['\n'] + j + seq!['\n'];
    assert("```"@.is_suffix_of(y)) by {
        assert(y.skip(y.len() - 3) =~= "```"@);
    }
    assert(y.take(y.len() - 3) =~= z);
    assert(!"```"@.is_suffix_of(z)) by {
        if "```"@.is_suffix_of(z) {
            assert(z.skip(z.len() - 3)[2] == z[z.len() - 1]);
        }
    }
    assert(strip_suffix_all(z, "```"@) == z);
    assert(strip_suffix_all(y, "```"@) == z);
    let w = seq!['\n'] + j;
    assert(z =~= w.push('\n'));
    lemma_trim_push_ws(w, '\n');
    assert(w.drop_first() =~= j);
    assert(trim_start(w) == trim_start(j));
}

/// A reply fenced as ```` ``` ```` or ```` ```json ```` parses as the text
/// inside the fence: its payload is that text trimmed, as is the payload of
/// the unfenced text, for a text without backticks.
pub proof fn law_json_fence_removed(j: Seq<char>, outputs: Seq<FieldDescriptor>)
    requires
        !j.contains('`'),
    ensures
        json_payload("```\n"@ + j + "\n```"@) == trim(j),
        json_payload("```json\n"@ + j + "\n```"@) == trim(j),
        json_payload(j) == trim(j),
        json_parse("```\n"@ + j + "\n```"@, outputs) == json_parse(j, outputs),
        json_parse("```json\n"@ + j + "\n```"@, outputs) == json_parse(j, outputs),
{
    reveal_strlit("```\n");
    reveal_strlit("```json\n");
    reveal_strlit("\n```");
    reveal_strlit("```json");
    reveal_strlit("```");
    let y = seq!['\n'] + j + seq!['\n', '`', '`', '`'];
    lemma_fence_body(j);
    let close = "\n```"@;
    // A plain fence.
    let r1 = "```\n"@ + j + close;
    assert(r1 =~= "```"@ + y);
    assert(r1[0] == '`' && r1.last() == '`');
    assert(trim_start(r1) == r1);
    assert(trim_end(r1) == r1);
    assert("```"@.is_prefix_of(r1)) by {
        assert(r1.take(3) =~= "```"@);
    }
    assert(!"```json"@.is_prefix_of(r1)) by {
        if "```json"@.is_prefix_of(r1) {
            assert(r1.take(7)[3] == r1[3]);
        }
    }
    assert(r1.skip(3) =~= y);
    assert(strip_prefix_all(r1, "```"@) == y);
    // A json fence.
    let r2 = "```json\n"@ + j + close;
    assert(r2 =~= "```json"@ + y);
    assert(r2[0] == '`' && r2.last() == '`');
    assert(trim_start(r2) == r2);
    assert(trim_end(r2) == r2);
    assert("```"@.is_prefix_of(r2)) by {
        assert(r2.take(3) =~= "```"@);
    }
    assert("```json"@.is_prefix_of(r2)) by {
        assert(r2.take(7) =~= "```json"@);
    }
    assert(r2.skip(7) =~= y);
    assert(strip_prefix_all(r2, "```json"@) == y);
    // No fence.
    lemma_trim_chars_from(j, '`');
    assert(!"```"@.is_prefix_of(trim(j))) by {
        if "```"@.is_prefix_of(trim(j)) {
            assert(trim(j).take(3)[0] == trim(j)[0]);
            assert(trim(j)[0] == '`');
        }
    }
}

} // verus!

//! The XML adapter: each field is wrapped in `<name>...</name>` tags.
use vstd::prelude::*;
use crate::adapters::chat::{MessagesModel, demo_models, parse_model};
use crate::adapters::error::{AdapterError, ErrorModel};
use crate::example::{Example, EntryModel, lookup, set_entry, lemma_views_push};
use crate::message::{Message, MessageRole, message_models};
use crate::patterns::{first_capture, spec_first_capture, capture_model, xml_field_pattern, plain_name, xml_field_facts, open_tag, close_tag, is_name_char};
use crate::signature::{FieldDescriptor, display_desc_of};
use crate::text::{
    join, join_strings, views, trim, trim_start, string_of, trim_chars, chars_of, concat3, trim_str, contains, occurs_at,
    lemma_trim_push_ws, lemma_trim_idempotent, lemma_join_contains,
};
use crate::value::{FieldValue, ValueModel, value_text};

verus! {

/// Adapter that uses XML tags to delimit fields in the LM prompt and response.
///
/// Some models perform well with XML-structured prompts. This adapter wraps
/// each field in `<field_name>...</field_name>` tags.
pub struct XmlAdapter;

/// `<name>\nvalue\n</name>`.
pub open spec fn xml_field(name: Seq<char>, value: Seq<char>) -> Seq<char> {
    "<"@ + name + ">\n"@ + value + "\n</"@ + name + ">"@
}

/// For each of `fields` that `es` has: the field in tags.
pub open spec fn xml_parts(fields: Seq<FieldDescriptor>, es: Seq<EntryModel>) -> Seq<Seq<char>>
    decreases fields.len(),
{
    if fields.len() == 0 {
        Seq::empty()
    } else {
        let prev = xml_parts(fields.drop_last(), es);
        match lookup(es, fields.last().name@) {
            Some(v) => prev.push(xml_field(fields.last().name@, value_text(v))),
            None => prev,
        }
    }
}

/// One demo: its input and output fields in tags, inside `<example>` tags.
pub open spec fn xml_demo_text(inputs: Seq<FieldDescriptor>, outputs: Seq<FieldDescriptor>, es: Seq<EntryModel>) -> Seq<char> {
    "<example>\n"@ + join(xml_parts(inputs + outputs, es), "\n"@) + "\n</example>"@
}

/// `  <name> — description` for each field.
pub open spec fn xml_format_lines(fields: Seq<FieldDescriptor>) -> Seq<Seq<char>> {
    fields.map_values(|f: FieldDescriptor| "  <"@ + f.name@ + "> — "@ + display_desc_of(f))
}

/// The system message: the instruction and the description of the fields.
pub open spec fn xml_system_text(instruction: Seq<char>, inputs: Seq<FieldDescriptor>, outputs: Seq<FieldDescriptor>) -> Seq<char> {
    join(
        seq![instruction, ""@, "<format_description>"@, "Input fields:"@] + xml_format_lines(inputs)
            + seq!["Output fields:"@] + xml_format_lines(outputs) + seq!["</format_description>"@],
        "\n"@,
    )
}

/// The demo texts.
pub open spec fn xml_demo_texts(inputs: Seq<FieldDescriptor>, outputs: Seq<FieldDescriptor>, demos: Seq<Seq<EntryModel>>) -> Seq<Seq<char>> {
    demos.map_values(|d: Seq<EntryModel>| xml_demo_text(inputs, outputs, d))
}

/// `<name>` for each output field.
pub open spec fn open_tags(fields: Seq<FieldDescriptor>) -> Seq<Seq<char>> {
    fields.map_values(|f: FieldDescriptor| "<"@ + f.name@ + ">"@)
}

/// The final user message: the given inputs in tags, then which tags to reply with.
pub open spec fn xml_input_text(inputs: Seq<FieldDescriptor>, outputs: Seq<FieldDescriptor>, es: Seq<EntryModel>) -> Seq<char> {
    join(
        xml_parts(inputs, es).push("Please respond with the following XML tags: "@ + join(open_tags(outputs), ", "@)),
        "\n"@,
    )
}

/// All messages of an XML-format request: the system message; where there
/// are demos, one user message with all of them and an assistant reply; and
/// the user message with the inputs.
pub open spec fn xml_messages(
    instruction: Seq<char>,
    inputs: Seq<FieldDescriptor>,
    outputs: Seq<FieldDescriptor>,
    demos: Seq<Seq<EntryModel>>,
    es: Seq<EntryModel>,
) -> MessagesModel {
    seq![(MessageRole::System, xml_system_text(instruction, inputs, outputs))]
        + (if demos.len() == 0 {
        Seq::empty()
    } else {
        seq![
            (MessageRole::User, "<examples>\n"@ + join(xml_demo_texts(inputs, outputs, demos), "\n\n"@) + "\n</examples>"@),
            (MessageRole::Assistant, "I understand the format from the examples."@),
        ]
    }) + seq![(MessageRole::User, xml_input_text(inputs, outputs, es))]
}

/// Every output field name can stand for itself in a pattern.
pub open spec fn plain_names(fields: Seq<FieldDescriptor>) -> bool {
    forall|i: int| 0 <= i < fields.len() ==> plain_name(#[trigger] fields[i].name@)
}

/// Whether `c` may stand in a plain name.
fn name_char(c: char) -> (r: bool)
    ensures
        r == is_name_char(c),
{
    !(c == '\\' || c == '.' || c == '+' || c == '*' || c == '?' || c == '(' || c == ')' || c == '|'
        || c == '\x5b' || c == '\x5d' || c == '{' || c == '}' || c == '^' || c == '$' || c == '<' || c == '>')
}

/// Whether every field name is plain (see `plain_name`), as
/// `parse_response` needs.
pub fn has_plain_names(fields: &[FieldDescriptor]) -> (r: bool)
    ensures
        r == plain_names(fields@),
{
    let mut i: usize = 0;
    while i < fields.len()
        invariant
            i <= fields@.len(),
            forall|j: int| 0 <= j < i ==> plain_name(#[trigger] fields@[j].name@),
        decreases fields@.len() - i,
    {
        let name = chars_of(fields[i].name);
        if name.len() == 0 || name.len() > 1024 {
            return false;
        }
        let mut k: usize = 0;
        while k < name.len()
            invariant
                i < fields@.len(),
                name@ == fields@[i as int].name@,
                k <= name@.len(),
                forall|m: int| 0 <= m < k ==> is_name_char(#[trigger] name@[m]),
            decreases name@.len() - k,
        {
            if !name_char(name[k]) {
                assert(!is_name_char(fields@[i as int].name@[k as int]));
                return false;
            }
            k = k + 1;
        }
        i = i + 1;
    }
    true
}

/// Taking each output field from its tags, given `caps`, the capture of each
/// field's tag pattern in the reply: the trimmed content of the first tagged
/// occurrence; a lone output field without tags takes the whole trimmed
/// reply; otherwise a missing field is an error.
pub open spec fn xml_fill(
    response: Seq<char>,
    outputs: Seq<FieldDescriptor>,
    caps: Seq<Result<Option<Seq<char>>, Seq<char>>>,
    n_outputs: nat,
) -> Result<Seq<EntryModel>, ErrorModel>
    decreases outputs.len(),
{
    if outputs.len() == 0 {
        Ok(Seq::empty())
    } else {
        match xml_fill(response, outputs.drop_last(), caps, n_outputs) {
            Err(e) => Err(e),
            Ok(r) => {
                let name = outputs.last().name@;
                match caps[outputs.len() - 1] {
                    Ok(Some(c)) => Ok(set_entry(r, name, ValueModel::Str(trim(c)))),
                    Ok(None) => if n_outputs == 1 {
                        Ok(set_entry(r, name, ValueModel::Str(trim(response))))
                    } else {
                        Err(ErrorModel::MissingXmlField(name))
                    },
                    Err(m) => Err(ErrorModel::InvalidPattern(name, m)),
                }
            },
        }
    }
}

/// The capture of each field's tag pattern in the reply.
pub open spec fn field_captures(outputs: Seq<FieldDescriptor>, response: Seq<char>) -> Seq<Result<Option<Seq<char>>, Seq<char>>> {
    outputs.map_values(|f: FieldDescriptor| spec_first_capture(xml_field_pattern(f.name@), response))
}

/// The models of capture results.
pub open spec fn capture_models(caps: Seq<Result<Option<String>, String>>) -> Seq<Result<Option<Seq<char>>, Seq<char>>> {
    caps.map_values(|c: Result<Option<String>, String>| capture_model(c))
}

/// What an XML-format reply parses to.
pub open spec fn xml_parse(response: Seq<char>, outputs: Seq<FieldDescriptor>) -> Result<Seq<EntryModel>, ErrorModel> {
    xml_fill(response, outputs, field_captures(outputs, response), outputs.len())
}

/// The tag pattern of a field.
fn field_pattern(name: &str) -> (r: String)
    ensures
        r@ == xml_field_pattern(name@),
{
    let mut r = String::new();
    r.append("<");
    r.append(name);
    r.append(">\\s*([\\s\\S]*?)\\s*</");
    r.append(name);
    r.append(">");
    proof {
        reveal_strlit("<");
        reveal_strlit(">\\s*([\\s\\S]*?)\\s*</");
        reveal_strlit(">");
        assert(r@ =~= xml_field_pattern(name@));
    }
    r
}

/// Appends, for each of `fields` that `ex` has, the field in tags.
fn push_xml_parts(parts: &mut Vec<String>, fields: &[FieldDescriptor], ex: &Example)
    ensures
        views(final(parts)@) == views(old(parts)@) + xml_parts(fields@, ex@.entries),
{
    let mut i: usize = 0;
    while i < fields.len()
        invariant
            i <= fields@.len(),
            views(parts@) == views(old(parts)@) + xml_parts(fields@.take(i as int), ex@.entries),
        decreases fields@.len() - i,
    {
        assert(fields@.take(i + 1).drop_last() =~= fields@.take(i as int));
        match ex.get(fields[i].name) {
            Some(v) => {
                let text = v.to_text();
                let s = XmlAdapter::format_field(fields[i].name, text.as_str());
                proof {
                    lemma_views_push(parts@, s);
                }
                parts.push(s);
                assert(views(parts@) =~= views(old(parts)@) + xml_parts(fields@.take(i + 1), ex@.entries));
            },
            None => {
                assert(views(parts@) =~= views(old(parts)@) + xml_parts(fields@.take(i + 1), ex@.entries));
            },
        }
        i = i + 1;
    }
    assert(fields@.take(i as int) =~= fields@);
}

/// Appends `  <name> — description` for each field.
fn push_xml_format_lines(parts: &mut Vec<String>, fields: &[FieldDescriptor])
    ensures
        views(final(parts)@) == views(old(parts)@) + xml_format_lines(fields@),
{
    let mut i: usize = 0;
    while i < fields.len()
        invariant
            i <= fields@.len(),
            views(parts@) == views(old(parts)@) + xml_format_lines(fields@).take(i as int),
        decreases fields@.len() - i,
    {
        let s = concat3(concat3("  <", fields[i].name, "> — ").as_str(), fields[i].display_desc(), "");
        proof {
            reveal_strlit("");
            lemma_views_push(parts@, s);
            assert(s@ =~= "  <"@ + fields@[i as int].name@ + "> — "@ + display_desc_of(fields@[i as int]));
            assert(xml_format_lines(fields@).take(i + 1) =~= xml_format_lines(fields@).take(i as int).push(s@));
        }
        parts.push(s);
        i = i + 1;
    }
    assert(xml_format_lines(fields@).take(i as int) =~= xml_format_lines(fields@));
}

impl XmlAdapter {
    /// `<name>\nvalue\n</name>`.
    pub fn format_field(name: &str, value: &str) -> (r: String)
        ensures
            r@ == xml_field(name@, value@),
    {
        let mut r = concat3("<", name, ">\n");
        r.append(value);
        r.append("\n</");
        r.append(name);
        r.append(">");
        r
    }

    /// One demo inside `<example>` tags.
    pub fn format_demo(&self, input_fields: &[FieldDescriptor], output_fields: &[FieldDescriptor], demo: &Example) -> (r: String)
        ensures
            r@ == xml_demo_text(input_fields@, output_fields@, demo@.entries),
    {
        let mut parts: Vec<String> = Vec::new();
        push_xml_parts(&mut parts, input_fields, demo);
        push_xml_parts(&mut parts, output_fields, demo);
        proof {
            lemma_xml_parts_append(input_fields@, output_fields@, demo@.entries);
        }
        assert(views(parts@) =~= xml_parts(input_fields@ + output_fields@, demo@.entries));
        let body = join_strings(&parts, "\n");
        concat3("<example>\n", body.as_str(), "\n</example>")
    }

    /// The system message text.
    pub fn format_system(&self, instruction: &str, input_fields: &[FieldDescriptor], output_fields: &[FieldDescriptor]) -> (r: String)
        ensures
            r@ == xml_system_text(instruction@, input_fields@, output_fields@),
    {
        let mut parts: Vec<String> = Vec::new();
        parts.push(instruction.to_owned());
        parts.push("".to_owned());
        parts.push("<format_description>".to_owned());
        parts.push("Input fields:".to_owned());
        let ghost a = views(parts@);
        assert(a =~= seq![instruction@, ""@, "<format_description>"@, "Input fields:"@]);
        push_xml_format_lines(&mut parts, input_fields);
        let ghost b = views(parts@);
        let s1 = "Output fields:".to_owned();
        proof {
            lemma_views_push(parts@, s1);
        }
        parts.push(s1);
        push_xml_format_lines(&mut parts, output_fields);
        let ghost c = views(parts@);
        let s2 = "</format_description>".to_owned();
        proof {
            lemma_views_push(parts@, s2);
        }
        parts.push(s2);
        assert(views(parts@) =~= seq![instruction@, ""@, "<format_description>"@, "Input fields:"@] + xml_format_lines(input_fields@)
            + seq!["Output fields:"@] + xml_format_lines(output_fields@) + seq!["</format_description>"@]);
        join_strings(&parts, "\n")
    }

    /// The messages of an XML-format request.
    pub fn format_messages(
        &self,
        instruction: &str,
        input_fields: &[FieldDescriptor],
        output_fields: &[FieldDescriptor],
        demos: &[Example],
        inputs: &Example,
    ) -> (r: Vec<Message>)
        ensures
            message_models(r@) == xml_messages(instruction@, input_fields@, output_fields@, demo_models(demos@), inputs@.entries),
    {
        let mut messages: Vec<Message> = Vec::new();
        messages.push(Message::system(self.format_system(instruction, input_fields, output_fields)));
        let ghost first = message_models(messages@);
        if demos.len() > 0 {
            let mut texts: Vec<String> = Vec::new();
            let mut i: usize = 0;
            while i < demos.len()
                invariant
                    i <= demos@.len(),
                    views(texts@) == xml_demo_texts(input_fields@, output_fields@, demo_models(demos@)).take(i as int),
                decreases demos@.len() - i,
            {
                let t = self.format_demo(input_fields, output_fields, &demos[i]);
                proof {
                    lemma_views_push(texts@, t);
                    assert(xml_demo_texts(input_fields@, output_fields@, demo_models(demos@)).take(i + 1)
                        =~= xml_demo_texts(input_fields@, output_fields@, demo_models(demos@)).take(i as int).push(t@));
                }
                texts.push(t);
                i = i + 1;
            }
            assert(xml_demo_texts(input_fields@, output_fields@, demo_models(demos@)).take(i as int)
                =~= xml_demo_texts(input_fields@, output_fields@, demo_models(demos@)));
            let all = join_strings(&texts, "\n\n");
            messages.push(Message::user(concat3("<examples>\n", all.as_str(), "\n</examples>")));
            messages.push(Message::assistant("I understand the format from the examples.".to_owned()));
        }
        let ghost mid = message_models(messages@);
        let mut parts: Vec<String> = Vec::new();
        push_xml_parts(&mut parts, input_fields, inputs);
        let mut tags: Vec<String> = Vec::new();
        let mut j: usize = 0;
        while j < output_fields.len()
            invariant
                j <= output_fields@.len(),
                views(tags@) == open_tags(output_fields@).take(j as int),
            decreases output_fields@.len() - j,
        {
            let t = concat3("<", output_fields[j].name, ">");
            proof {
                lemma_views_push(tags@, t);
                assert(open_tags(output_fields@).take(j + 1) =~= open_tags(output_fields@).take(j as int).push(t@));
            }
            tags.push(t);
            j = j + 1;
        }
        assert(open_tags(output_fields@).take(j as int) =~= open_tags(output_fields@));
        let tag_list = join_strings(&tags, ", ");
        let last = concat3("Please respond with the following XML tags: ", tag_list.as_str(), "");
        proof {
            reveal_strlit("");
            assert(last@ =~= "Please respond with the following XML tags: "@ + join(open_tags(output_fields@), ", "@));
            lemma_views_push(parts@, last);
        }
        parts.push(last);
        messages.push(Message::user(join_strings(&parts, "\n")));
        assert(message_models(messages@) =~= xml_messages(instruction@, input_fields@, output_fields@, demo_models(demos@), inputs@.entries));
        messages
    }

    /// Parses an XML-format reply: each output field is the trimmed content
    /// of its first `<name>...</name>` pair.  A lone output field without tags
    /// takes the whole trimmed reply; otherwise a missing field is an error.
    pub fn parse_response(&self, response: &str, output_fields: &[FieldDescriptor]) -> (r: Result<Example, AdapterError>)
        requires
            plain_names(output_fields@),
        ensures
            parse_model(r) == xml_parse(response@, output_fields@),
            r matches Ok(e) ==> e@.input_keys is None,
            forall|v: Seq<char>| output_fields@.len() == 1
                && response@ == #[trigger] xml_field(output_fields@[0].name@, v)
                && !contains(v, close_tag(output_fields@[0].name@))
                ==> parse_model(r) == Ok::<Seq<EntryModel>, ErrorModel>(seq![(output_fields@[0].name@, ValueModel::Str(trim(v)))]),
    {
        let n = output_fields.len();
        let mut caps: Vec<Result<Option<String>, String>> = Vec::new();
        let mut j: usize = 0;
        while j < n
            invariant
                j <= n == output_fields@.len(),
                plain_names(output_fields@),
                caps@.len() == j,
                forall|i: int| 0 <= i < j ==> capture_model(#[trigger] caps@[i])
                    == spec_first_capture(xml_field_pattern(output_fields@[i].name@), response@),
                j > 0 ==> xml_field_facts(
                    xml_field_pattern(output_fields@[0].name@),
                    response@,
                    spec_first_capture(xml_field_pattern(output_fields@[0].name@), response@),
                ),
            decreases n - j,
        {
            let pattern = field_pattern(output_fields[j].name);
            assert(plain_name(output_fields@[j as int].name@));
            caps.push(first_capture(pattern.as_str(), response));
            j = j + 1;
        }
        assert(capture_models(caps@) =~= field_captures(output_fields@, response@));
        let result = xml_fields_from(response, output_fields, caps.as_slice());
        proof {
            assert forall|v: Seq<char>| output_fields@.len() == 1
                && response@ == #[trigger] xml_field(output_fields@[0].name@, v)
                && !contains(v, close_tag(output_fields@[0].name@))
                implies xml_parse(response@, output_fields@)
                    == Ok::<Seq<EntryModel>, ErrorModel>(seq![(output_fields@[0].name@, ValueModel::Str(trim(v)))]) by {
                lemma_xml_single_field(output_fields@, response@, v);
            }
        }
        result
    }
}

/// The output fields read from an XML-format reply, given `captures`, the
/// capture of each output field's tag pattern in it (see `xml_fill`).
pub fn xml_fields_from(
    response: &str,
    output_fields: &[FieldDescriptor],
    captures: &[Result<Option<String>, String>],
) -> (r: Result<Example, AdapterError>)
    requires
        captures@.len() == output_fields@.len(),
    ensures
        parse_model(r) == xml_fill(response@, output_fields@, capture_models(captures@), output_fields@.len()),
        r matches Ok(e) ==> e@.input_keys is None,
{
    let ghost cm = capture_models(captures@);
    let mut result = Example::new();
    let n = output_fields.len();
    let mut j: usize = 0;
    while j < n
        invariant
            j <= n == output_fields@.len(),
            n == captures@.len(),
            cm == capture_models(captures@),
            result@.input_keys is None,
            xml_fill(response@, output_fields@.take(j as int), cm, n as nat) == Ok::<Seq<EntryModel>, ErrorModel>(result@.entries),
        decreases n - j,
    {
        assert(output_fields@.take(j + 1).drop_last() =~= output_fields@.take(j as int));
        assert(cm[j as int] == capture_model(captures@[j as int]));
        let name = output_fields[j].name;
        match &captures[j] {
            Ok(Some(c)) => {
                result.set(name, FieldValue::Str(trim_str(c.as_str())));
            },
            Ok(None) => {
                if n == 1 {
                    result.set(name, FieldValue::Str(trim_str(response)));
                } else {
                    proof {
                        lemma_xml_fill_err(response@, output_fields@, cm, n as nat, j + 1);
                    }
                    return Err(AdapterError::MissingXmlField(name.to_owned()));
                }
            },
            Err(message) => {
                proof {
                    lemma_xml_fill_err(response@, output_fields@, cm, n as nat, j + 1);
                }
                return Err(AdapterError::InvalidPattern { field: name.to_owned(), message: message.clone() });
            },
        }
        j = j + 1;
    }
    assert(output_fields@.take(n as int) =~= output_fields@);
    Ok(result)
}

/// A lone field written as `<name>\nv\n</name>`, with no closing tag in `v`,
/// reads back as `v` trimmed, given what the regex wrapper states of the
/// field pattern.
#[verifier::spinoff_prover]
#[verifier::rlimit(40)]
proof fn lemma_xml_single_field(outputs: Seq<FieldDescriptor>, response: Seq<char>, v: Seq<char>)
    requires
        outputs.len() == 1,
        plain_name(outputs[0].name@),
        response == xml_field(outputs[0].name@, v),
        !contains(v, close_tag(outputs[0].name@)),
        xml_field_facts(
            xml_field_pattern(outputs[0].name@),
            response,
            spec_first_capture(xml_field_pattern(outputs[0].name@), response),
        ),
    ensures
        xml_parse(response, outputs) == Ok::<Seq<EntryModel>, ErrorModel>(seq![(outputs[0].name@, ValueModel::Str(trim(v)))]),
{
    reveal_strlit("<");
    reveal_strlit(">\n");
    reveal_strlit("\n</");
    reveal_strlit(">");
    let n = outputs[0].name@;
    let w = seq!['\n'] + v + seq!['\n'];
    let close = close_tag(n);
    assert(response =~= open_tag(n) + w + close);
    assert(!contains(w, close)) by {
        if contains(w, close) {
            let i = choose|i: int| occurs_at(w, close, i);
            assert(w.subrange(i, i + close.len())[0] == close[0]);
            assert(w[i] == '<');
            assert(i >= 1);
            let last = i + close.len() - 1;
            assert(w.subrange(i, i + close.len())[close.len() - 1] == close[close.len() - 1]);
            assert(w[last] == '>');
            assert(last < w.len() - 1);
            assert(v.subrange(i - 1, i - 1 + close.len()) =~= w.subrange(i, i + close.len()));
            assert(occurs_at(v, close, i - 1));
        }
    }
    assert(trim(w) == trim(v)) by {
        let pre = seq!['\n'] + v;
        assert(w =~= pre.push('\n'));
        lemma_trim_push_ws(pre, '\n');
        assert(pre[0] == '\n');
        assert(pre.drop_first() =~= v);
        assert(trim_start(pre) == trim_start(v));
    }
    let cap = spec_first_capture(xml_field_pattern(n), response);
    assert(cap == Ok::<Option<Seq<char>>, Seq<char>>(Some(trim(w))));
    lemma_trim_idempotent(v);
    assert(outputs.drop_last() =~= Seq::<FieldDescriptor>::empty());
    let caps = field_captures(outputs, response);
    assert(caps[0] == cap);
    assert(xml_fill(response, outputs.drop_last(), caps, 1) == Ok::<Seq<EntryModel>, ErrorModel>(Seq::empty()));
    assert(outputs.last().name@ == n);
    assert(xml_fill(response, outputs, caps, 1) == Ok::<Seq<EntryModel>, ErrorModel>(set_entry(Seq::empty(), n, ValueModel::Str(trim(trim(w))))));
    assert(set_entry(Seq::empty(), n, ValueModel::Str(trim(trim(w)))) =~= seq![(n, ValueModel::Str(trim(v)))]);
}

/// The tagged parts of two field lists are those of each, one after the other.
proof fn lemma_xml_parts_append(a: Seq<FieldDescriptor>, b: Seq<FieldDescriptor>, es: Seq<EntryModel>)
    ensures
        xml_parts(a + b, es) == xml_parts(a, es) + xml_parts(b, es),
    decreases b.len(),
{
    if b.len() == 0 {
        assert(a + b =~= a);
        assert(xml_parts(a, es) + xml_parts(b, es) =~= xml_parts(a, es));
    } else {
        assert((a + b).drop_last() =~= a + b.drop_last());
        lemma_xml_parts_append(a, b.drop_last(), es);
        assert((a + b).last() == b.last());
        match lookup(es, b.last().name@) {
            Some(v) => {
                assert(xml_parts(a, es) + xml_parts(b, es) =~= (xml_parts(a, es) + xml_parts(b.drop_last(), es)).push(xml_field(b.last().name@, value_text(v))));
            },
            None => {},
        }
    }
}

/// Once taking the output fields fails on a prefix, it fails with the same
/// error on the whole.
proof fn lemma_xml_fill_err(
    response: Seq<char>,
    outputs: Seq<FieldDescriptor>,
    caps: Seq<Result<Option<Seq<char>>, Seq<char>>>,
    n: nat,
    j: int,
)
    requires
        0 <= j <= outputs.len(),
        xml_fill(response, outputs.take(j), caps, n) is Err,
    ensures
        xml_fill(response, outputs, caps, n) == xml_fill(response, outputs.take(j), caps, n),
    decreases outputs.len() - j,
{
    if j < outputs.len() {
        assert(outputs.take(j + 1).drop_last() =~= outputs.take(j));
        lemma_xml_fill_err(response, outputs, caps, n, j + 1);
    } else {
        assert(outputs.take(j) =~= outputs);
    }
}

/// Where `es` has the field `fields[i]`, its tagged part is among the parts.
proof fn lemma_xml_parts_index(fields: Seq<FieldDescriptor>, es: Seq<EntryModel>, i: int) -> (k: int)
    requires
        0 <= i < fields.len(),
        lookup(es, fields[i].name@) is Some,
    ensures
        0 <= k < xml_parts(fields, es).len(),
        xml_parts(fields, es)[k] == xml_field(fields[i].name@, value_text(lookup(es, fields[i].name@)->0)),
    decreases fields.len(),
{
    let prev = xml_parts(fields.drop_last(), es);
    if i == fields.len() - 1 {
        prev.len() as int
    } else {
        assert(fields.drop_last()[i] == fields[i]);
        lemma_xml_parts_index(fields.drop_last(), es, i)
    }
}

/// A demo shows every input and every output field that it has, each in
/// its tags.
pub proof fn law_xml_demo_shows_fields(inputs: Seq<FieldDescriptor>, outputs: Seq<FieldDescriptor>, es: Seq<EntryModel>)
    ensures
        forall|i: int| 0 <= i < inputs.len() && lookup(es, #[trigger] inputs[i].name@) is Some ==> contains(
            xml_demo_text(inputs, outputs, es),
            xml_field(inputs[i].name@, value_text(lookup(es, inputs[i].name@)->0)),
        ),
        forall|i: int| 0 <= i < outputs.len() && lookup(es, #[trigger] outputs[i].name@) is Some ==> contains(
            xml_demo_text(inputs, outputs, es),
            xml_field(outputs[i].name@, value_text(lookup(es, outputs[i].name@)->0)),
        ),
{
    let all = inputs + outputs;
    let parts = xml_parts(all, es);
    let body = join(parts, "\n"@);
    let pre = "<example>\n"@;
    let text = xml_demo_text(inputs, outputs, es);
    assert(text == pre + body + "\n</example>"@);
    assert forall|j: int| 0 <= j < all.len() && lookup(es, #[trigger] all[j].name@) is Some implies contains(
        text,
        xml_field(all[j].name@, value_text(lookup(es, all[j].name@)->0)),
    ) by {
        let k = lemma_xml_parts_index(all, es, j);
        lemma_join_contains(parts, "\n"@, k);
        let p = parts[k];
        let at = choose|at: int| occurs_at(body, p, at);
        let t = pre.len() + at;
        assert(text.subrange(t, t + p.len()) =~= body.subrange(at, at + p.len()));
        assert(occurs_at(text, p, t));
    }
    assert forall|i: int| 0 <= i < inputs.len() && lookup(es, #[trigger] inputs[i].name@) is Some implies contains(
        text,
        xml_field(inputs[i].name@, value_text(lookup(es, inputs[i].name@)->0)),
    ) by {
        assert(all[i] == inputs[i]);
    }
    assert forall|i: int| 0 <= i < outputs.len() && lookup(es, #[trigger] outputs[i].name@) is Some implies contains(
        text,
        xml_field(outputs[i].name@, value_text(lookup(es, outputs[i].name@)->0)),
    ) by {
        assert(all[inputs.len() + i] == outputs[i]);
    }
}

} // verus!

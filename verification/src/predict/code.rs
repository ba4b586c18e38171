//! CodeAct and ProgramOfThought: the model writes code, which is run, and the
//! output is read back.
use vstd::prelude::*;
use crate::adapters::chat::{ChatAdapter, chat_parse};
use crate::adapters::json_adapter::output_object;
use crate::example::{Example, EntryModel, lookup, set_entry, entry_models, distinct_keys};
use crate::json::{JsonDoc, JsonModel, json_model, spec_parse_json, parse_json};
use crate::signature::{FieldDescriptor, backticked, field_names};
use crate::predict::prompt::{backticked_list, field_name_list, names_of};
use crate::text::{
    join, trim, lines, occurs_at, lines_of, trim_chars, chars_of, string_of, concat2, concat3, find, find_exec,
    slice_copy, trim_start_by, lemma_trim_start_by_at, decimal, decimal_string, trim_str,
};
use crate::value::{FieldValue, ValueModel};
use crate::message::{Message, MessageRole, message_models};
use crate::predict::prompt::{input_lines, input_text};
use crate::predict::react::RunModel;

verus! {

/// What `char::is_alphabetic` gives: whether a character has the Unicode
/// `Alphabetic` property.
pub uninterp spec fn spec_is_alphabetic(c: char) -> bool;

/// Wraps `char::is_alphabetic`: whether `c` has the Unicode `Alphabetic`
/// property (a table of the Unicode Character Database, named here rather
/// than written out).
#[verifier::external_body]
pub(crate) fn is_alphabetic(c: char) -> (r: bool)
    ensures
        r == spec_is_alphabetic(c),
{
    c.is_alphabetic()
}

/// The characters skipped after an opening fence with no language match:
/// letters (a language tag) and newlines.
pub open spec fn fence_tag_char(c: char) -> bool {
    spec_is_alphabetic(c) || c == '\n'
}

/// Three backticks.
pub open spec fn fence() -> Seq<char> {
    "```"@
}

/// The code after the first plain fence, where a closing fence follows.
pub open spec fn code_after_plain_fence(text: Seq<char>) -> Option<Seq<char>> {
    match find(text, fence()) {
        Some(s) => {
            let rest = trim_start_by(text.skip(s + 3), |c: char| fence_tag_char(c));
            match find(rest, fence()) {
                Some(e) => Some(trim(rest.take(e))),
                None => None,
            }
        },
        None => None,
    }
}

/// The code of the first fenced block: after the first ```` ```language ````
/// up to the next fence, trimmed; failing that, after the first ```` ``` ````
/// (skipping a language tag of letters and newlines) up to the next fence.
pub open spec fn extract_code_of(text: Seq<char>, language: Seq<char>) -> Option<Seq<char>> {
    let open = fence() + language;
    match find(text, open) {
        Some(s) => {
            let rest = text.skip(s + open.len());
            match find(rest, fence()) {
                Some(e) => Some(trim(rest.take(e))),
                None => code_after_plain_fence(text),
            }
        },
        None => code_after_plain_fence(text),
    }
}

/// `v` from index `a` on, without its leading letters and newlines.
fn skip_fence_tag(v: &Vec<char>, a: usize) -> (r: Vec<char>)
    requires
        a <= v@.len(),
    ensures
        r@ == trim_start_by(v@.skip(a as int), |c: char| fence_tag_char(c)),
{
    let ghost rest = v@.skip(a as int);
    let mut i = a;
    while i < v.len() && (v[i] == '\n' || is_alphabetic(v[i]))
        invariant
            a <= i <= v@.len(),
            rest == v@.skip(a as int),
            forall|j: int| 0 <= j < i - a ==> fence_tag_char(#[trigger] rest[j]),
        decreases v@.len() - i,
    {
        assert(rest[i - a] == v@[i as int]);
        i = i + 1;
    }
    proof {
        if i < v@.len() {
            assert(rest[i - a] == v@[i as int]);
        }
        lemma_trim_start_by_at(rest, |c: char| fence_tag_char(c), i - a);
        assert(rest.subrange(i - a, rest.len() as int) =~= v@.skip(i as int));
    }
    let r = slice_copy(v.as_slice(), i, v.len());
    assert(r@ =~= v@.skip(i as int));
    r
}

/// The code after the first plain fence.
fn plain_fence_code(t: &Vec<char>, fence_chars: &Vec<char>) -> (r: Option<String>)
    requires
        fence_chars@ == fence(),
    ensures
        match r {
            Some(c) => code_after_plain_fence(t@) == Some(c@),
            None => code_after_plain_fence(t@) is None,
        },
{
    proof {
        reveal_strlit("```");
    }
    match find_exec(t.as_slice(), fence_chars.as_slice()) {
        Some(s) => {
            proof {
                crate::text::lemma_find_from_spec(t@, fence(), 0);
                assert(fence().len() == 3);
                assert(occurs_at(t@, fence(), s as int));
                assert(t@.len() == t.len());
            }
            let rest = skip_fence_tag(t, s + 3);
            match find_exec(rest.as_slice(), fence_chars.as_slice()) {
                Some(e) => {
                    proof {
                        crate::text::lemma_find_from_spec(rest@, fence(), 0);
                    }
                    let body = slice_copy(rest.as_slice(), 0, e);
                    assert(body@ =~= rest@.take(e as int));
                    let tb = trim_chars(body.as_slice());
                    Some(string_of(tb.as_slice()))
                },
                None => None,
            }
        },
        None => None,
    }
}

/// The code of the first fenced block (see `extract_code_of`).
pub fn extract_code_block(text: &str, language: &str) -> (r: Option<String>)
    ensures
        match r {
            Some(c) => extract_code_of(text@, language@) == Some(c@),
            None => extract_code_of(text@, language@) is None,
        },
{
    let t = chars_of(text);
    let fence_chars = chars_of("```");
    let open_str = concat2("```", language);
    let open = chars_of(open_str.as_str());
    match find_exec(t.as_slice(), open.as_slice()) {
        Some(s) => {
            proof {
                crate::text::lemma_find_from_spec(t@, open@, 0);
                assert(occurs_at(t@, open@, s as int));
                assert(t@.len() == t.len() && open@.len() == open.len());
            }
            let rest = slice_copy(t.as_slice(), s + open.len(), t.len());
            assert(rest@ =~= t@.skip(s + open@.len()));
            match find_exec(rest.as_slice(), fence_chars.as_slice()) {
                Some(e) => {
                    proof {
                        crate::text::lemma_find_from_spec(rest@, fence(), 0);
                    }
                    let body = slice_copy(rest.as_slice(), 0, e);
                    assert(body@ =~= rest@.take(e as int));
                    let tb = trim_chars(body.as_slice());
                    Some(string_of(tb.as_slice()))
                },
                None => plain_fence_code(&t, &fence_chars),
            }
        },
        None => plain_fence_code(&t, &fence_chars),
    }
}

/// The system prompt of a CodeAct run.
pub open spec fn code_act_system_text(instruction: Seq<char>, language: Seq<char>, outputs: Seq<FieldDescriptor>) -> Seq<char> {
    instruction + "\n\nYou can write and execute "@ + language + " code to help solve this "@ + "task.\n"@ + "Wrap code in ```"@
        + language + "\n...\n``` blocks.\n\nWhen you have the final answer, output it clearly with the fields: "@
        + join(backticked(field_names(outputs)), ", "@) + ".\nDo NOT wrap the final answer in code blocks."@
}

/// The system prompt of a CodeAct run.
pub fn code_act_system_prompt(instruction: &str, language: &str, output_fields: &[FieldDescriptor]) -> (r: String)
    ensures
        r@ == code_act_system_text(instruction@, language@, output_fields@),
{
    let outs = backticked_list(output_fields);
    let mut r = String::new();
    r.append(instruction);
    r.append("\n\nYou can write and execute ");
    r.append(language);
    r.append(" code to help solve this ");
    r.append("task.\n");
    r.append("Wrap code in ```");
    r.append(language);
    r.append("\n...\n``` blocks.\n\nWhen you have the final answer, output it clearly with the fields: ");
    r.append(outs.as_str());
    r.append(".\nDo NOT wrap the final answer in code blocks.");
    r
}

/// What the runtime is to do after a CodeAct reply.
#[derive(Debug)]
pub enum CodeActDecision {
    /// Run this code and report its output.
    Execute(String),
    /// Stop with these output fields.
    Finish(Example),
    /// Tell the model this and ask again.
    Reply(String),
}

/// The model of a CodeAct decision.
pub enum CodeActModel {
    Execute(Seq<char>),
    Finish(Seq<EntryModel>),
    Reply(Seq<char>),
}

/// The model of a decision value.
pub open spec fn code_act_model(d: CodeActDecision) -> CodeActModel {
    match d {
        CodeActDecision::Execute(c) => CodeActModel::Execute(c@),
        CodeActDecision::Finish(e) => CodeActModel::Finish(e@.entries),
        CodeActDecision::Reply(m) => CodeActModel::Reply(m@),
    }
}

/// The decision after a reply: a code block is run; otherwise a reply that
/// parses as the output finishes; a lone output field takes the whole trimmed
/// reply; else the model is asked again.
pub open spec fn code_act_decision(language: Seq<char>, outputs: Seq<FieldDescriptor>, content: Seq<char>) -> CodeActModel {
    match extract_code_of(content, language) {
        Some(code) => CodeActModel::Execute(code),
        None => match chat_parse(content, outputs) {
            Ok(r) => CodeActModel::Finish(r),
            Err(_) => if outputs.len() == 1 {
                CodeActModel::Finish(set_entry(Seq::empty(), outputs[0].name@, ValueModel::Str(trim(content))))
            } else {
                CodeActModel::Reply("Please provide the output fields or write code to compute them."@)
            },
        },
    }
}

/// The decision after a CodeAct reply (see `code_act_decision`).
pub fn code_act_decide(language: &str, output_fields: &[FieldDescriptor], content: &str) -> (r: CodeActDecision)
    ensures
        code_act_model(r) == code_act_decision(language@, output_fields@, content@),
{
    match extract_code_block(content, language) {
        Some(code) => CodeActDecision::Execute(code),
        None => {
            let adapter = ChatAdapter;
            match adapter.parse_response(content, output_fields) {
                Ok(r) => CodeActDecision::Finish(r),
                Err(_) => {
                    if output_fields.len() == 1 {
                        let mut result = Example::new();
                        result.set(output_fields[0].name, FieldValue::Str(trim_str(content)));
                        CodeActDecision::Finish(result)
                    } else {
                        CodeActDecision::Reply("Please provide the output fields or write code to compute them.".to_owned())
                    }
                },
            }
        },
    }
}

/// The message that reports what the code printed.
pub fn execution_result_message(output: &str) -> (r: String)
    ensures
        r@ == "Code execution result:\n```\n"@ + output@ + "\n```"@,
{
    concat3("Code execution result:\n```\n", output, "\n```")
}

/// The message that reports that the code failed.
pub fn execution_error_message(error: &str) -> (r: String)
    ensures
        r@ == "Code execution error:\n```\n"@ + error@ + "\n```\nPlease fix the code and try again."@,
{
    concat3("Code execution error:\n```\n", error, "\n```\nPlease fix the code and try again.")
}

/// The error a CodeAct run that used up its steps ends with.
pub fn code_act_exceeded_message(max_iters: u64) -> (r: String)
    ensures
        r@ == "CodeAct exceeded max iterations ("@ + decimal(max_iters as nat) + ") without producing output"@,
{
    let n = decimal_string(max_iters);
    concat3("CodeAct exceeded max iterations (", n.as_str(), ") without producing output")
}

/// The system prompt of a ProgramOfThought run.
pub open spec fn program_of_thought_system_text(instruction: Seq<char>, language: Seq<char>, outputs: Seq<FieldDescriptor>) -> Seq<char> {
    instruction + "\n\nWrite a "@ + language
        + " program that computes the answer. The program should print the result as the last line of output.\nOutput fields: "@
        + join(names_of(outputs), ", "@) + "\n\nWrap your code in ```"@ + language
        + "\n...\n``` blocks. Output ONLY the code block, nothing else."@
}

/// The system prompt of a ProgramOfThought run.
pub fn program_of_thought_system_prompt(instruction: &str, language: &str, output_fields: &[FieldDescriptor]) -> (r: String)
    ensures
        r@ == program_of_thought_system_text(instruction@, language@, output_fields@),
{
    let names = field_name_list(output_fields);
    let mut r = String::new();
    r.append(instruction);
    r.append("\n\nWrite a ");
    r.append(language);
    r.append(" program that computes the answer. The program should print the result as the last line of output.\nOutput fields: ");
    r.append(names.as_str());
    r.append("\n\nWrap your code in ```");
    r.append(language);
    r.append("\n...\n``` blocks. Output ONLY the code block, nothing else.");
    r
}

/// Each output field takes the trimmed line of the program output at its
/// position (empty where there are fewer lines).
pub open spec fn fields_from_lines(ls: Seq<Seq<char>>, outputs: Seq<FieldDescriptor>) -> Seq<EntryModel>
    decreases outputs.len(),
{
    if outputs.len() == 0 {
        Seq::empty()
    } else {
        let i = outputs.len() - 1;
        let line = if i < ls.len() { ls[i] } else { Seq::empty() };
        set_entry(fields_from_lines(ls, outputs.drop_last()), outputs.last().name@, ValueModel::Str(trim(line)))
    }
}

/// The output fields read from what the program printed, given `doc`, the
/// output parsed as JSON: the members of an object, or else one trimmed line
/// of the output each.
pub open spec fn program_fields_of(outputs: Seq<FieldDescriptor>, output: Seq<char>, doc: JsonModel) -> Seq<EntryModel> {
    match doc {
        JsonModel::Object(obj) => output_object(outputs, obj),
        _ => fields_from_lines(lines(trim(output)), outputs),
    }
}

/// The output fields read from what the program printed: a lone field takes
/// the whole trimmed output; several fields take the members of a printed
/// JSON object, or else one trimmed line each.
pub open spec fn program_result_of(outputs: Seq<FieldDescriptor>, output: Seq<char>) -> Seq<EntryModel> {
    if outputs.len() == 1 {
        set_entry(Seq::empty(), outputs[0].name@, ValueModel::Str(trim(output)))
    } else {
        program_fields_of(outputs, output, spec_parse_json(output))
    }
}

/// The message of a run whose reply holds no code.
pub fn no_code_block_message() -> (r: String)
    ensures
        r@ == "No code block found in LM response"@,
{
    "No code block found in LM response".to_owned()
}

/// The output fields read from what the program printed (see `program_result_of`).
pub fn program_result(output_fields: &[FieldDescriptor], output: &str) -> (r: Example)
    ensures
        r@.entries == program_result_of(output_fields@, output@),
        r@.input_keys is None,
{
    if output_fields.len() == 1 {
        let mut result = Example::new();
        result.set(output_fields[0].name, FieldValue::Str(trim_str(output)));
        return result;
    }
    let doc = parse_json(output);
    program_fields_from(output_fields, output, doc)
}

/// The output fields read from what the program printed, given `doc`, the
/// output parsed as JSON (see `program_fields_of`).
pub fn program_fields_from(output_fields: &[FieldDescriptor], output: &str, doc: JsonDoc) -> (r: Example)
    requires
        doc matches JsonDoc::Object(v) ==> distinct_keys(entry_models(v@)),
    ensures
        r@.entries == program_fields_of(output_fields@, output@, json_model(doc)),
        r@.input_keys is None,
{
    let mut result = Example::new();
    match doc {
        JsonDoc::Object(members) => {
            let obj = Example::from_map(members);
            proof {
                crate::example::lemma_set_all_id(entry_models(members@));
            }
            let mut i: usize = 0;
            while i < output_fields.len()
                invariant
                    i <= output_fields@.len(),
                    obj@.entries == entry_models(members@),
                    result@.input_keys is None,
                    result@.entries == output_object(output_fields@.take(i as int), obj@.entries),
                decreases output_fields@.len() - i,
            {
                assert(output_fields@.take(i + 1).drop_last() =~= output_fields@.take(i as int));
                match obj.get(output_fields[i].name) {
                    Some(v) => {
                        result.set(output_fields[i].name, v.duplicate());
                    },
                    None => {},
                }
                i = i + 1;
            }
            assert(output_fields@.take(i as int) =~= output_fields@);
            result
        },
        _ => {
            let oc = chars_of(output);
            let t = trim_chars(oc.as_slice());
            let ls = lines_of(t.as_slice());
            let ghost lsm = ls@.map_values(|l: Vec<char>| l@);
            let mut i: usize = 0;
            while i < output_fields.len()
                invariant
                    i <= output_fields@.len(),
                    lsm == ls@.map_values(|l: Vec<char>| l@),
                    lsm == lines(trim(output@)),
                    result@.input_keys is None,
                    result@.entries == fields_from_lines(lsm, output_fields@.take(i as int)),
                decreases output_fields@.len() - i,
            {
                assert(output_fields@.take(i + 1).drop_last() =~= output_fields@.take(i as int));
                let line: Vec<char> = if i < ls.len() {
                    slice_copy(ls[i].as_slice(), 0, ls[i].len())
                } else {
                    Vec::new()
                };
                assert(line@ =~= (if (i as int) < lsm.len() { lsm[i as int] } else { Seq::<char>::empty() }));
                let tl = trim_chars(line.as_slice());
                result.set(output_fields[i].name, FieldValue::Str(string_of(tl.as_slice())));
                i = i + 1;
            }
            assert(output_fields@.take(i as int) =~= output_fields@);
            result
        },
    }
}

/// The error a CodeAct run that used up its steps ends with.
pub open spec fn code_act_exceeded_text(max_iters: nat) -> Seq<char> {
    "CodeAct exceeded max iterations ("@ + decimal(max_iters) + ") without producing output"@
}

/// What the model is told of a run of its code: the output, or the error.
pub open spec fn execution_text(outcome: Result<Seq<char>, Seq<char>>) -> Seq<char> {
    match outcome {
        Ok(output) => "Code execution result:\n```\n"@ + output + "\n```"@,
        Err(error) => "Code execution error:\n```\n"@ + error + "\n```\nPlease fix the code and try again."@,
    }
}

/// A CodeAct conversation in progress.
pub struct CodeActRun {
    messages: Vec<Message>,
    replies_left: u64,
    max_iters: u64,
}

impl View for CodeActRun {
    type V = RunModel;

    closed spec fn view(&self) -> RunModel {
        RunModel {
            messages: message_models(self.messages@),
            replies_left: self.replies_left as nat,
            max_iters: self.max_iters as nat,
        }
    }
}

/// What follows a reply, or the report of a code run, in a CodeAct run.
#[derive(Debug)]
pub enum CodeStep {
    /// Run this code and report its outcome with `on_execution`.
    Execute(String),
    /// Send the messages again for the next reply.
    Continue,
    /// The run ends with these output fields.
    Finish(Example),
    /// The run ran out of replies and ends with this error.
    Exhausted(String),
}

/// A run's messages with one more pushed.
proof fn lemma_models_push(v: Seq<Message>, m: Message)
    ensures
        message_models(v.push(m)) == message_models(v).push((m.role, m.content@)),
{
    assert(message_models(v.push(m)) =~= message_models(v).push((m.role, m.content@)));
}

/// After a step that did not end the run: it is exhausted exactly when no
/// replies are left.
pub open spec fn step_continues(run: RunModel, r: CodeStep) -> bool {
    if run.replies_left == 0 {
        r matches CodeStep::Exhausted(m) && m@ == code_act_exceeded_text(run.max_iters)
    } else {
        r is Continue
    }
}

impl CodeActRun {
    /// A run that starts with the system prompt and the inputs, and allows
    /// `max_iters` replies.
    pub fn start(
        instruction: &str,
        language: &str,
        input_fields: &[FieldDescriptor],
        output_fields: &[FieldDescriptor],
        input: &Example,
        max_iters: u64,
    ) -> (r: CodeActRun)
        ensures
            r@.messages == seq![
                (MessageRole::System, code_act_system_text(instruction@, language@, output_fields@)),
                (MessageRole::User, input_lines(input_fields@, input@.entries)),
            ],
            r@.replies_left == max_iters,
            r@.max_iters == max_iters,
    {
        let mut messages: Vec<Message> = Vec::new();
        messages.push(Message::system(code_act_system_prompt(instruction, language, output_fields)));
        messages.push(Message::user(input_text(input_fields, input)));
        let r = CodeActRun { messages, replies_left: max_iters, max_iters };
        assert(r@.messages =~= seq![
            (MessageRole::System, code_act_system_text(instruction@, language@, output_fields@)),
            (MessageRole::User, input_lines(input_fields@, input@.entries)),
        ]);
        r
    }

    /// The messages to send.
    pub fn messages(&self) -> (r: &[Message])
        ensures
            message_models(r@) == self@.messages,
    {
        self.messages.as_slice()
    }

    /// Whether the model may give another reply.
    pub fn wants_reply(&self) -> (r: bool)
        ensures
            r == (self@.replies_left > 0),
    {
        self.replies_left > 0
    }

    /// Takes the model's reply: it joins the messages, and the decision of
    /// `code_act_decision` follows; code to run uses up the reply, as does
    /// a request to answer, after which the run may be exhausted.
    pub fn on_reply(&mut self, language: &str, output_fields: &[FieldDescriptor], content: &str) -> (r: CodeStep)
        requires
            old(self)@.replies_left > 0,
        ensures
            final(self)@.max_iters == old(self)@.max_iters,
            ({
                let after = old(self)@.messages.push((MessageRole::Assistant, content@));
                match code_act_decision(language@, output_fields@, content@) {
                    CodeActModel::Finish(es) => r matches CodeStep::Finish(e) && e@.entries == es
                        && final(self)@.messages == after && final(self)@.replies_left == old(self)@.replies_left,
                    CodeActModel::Execute(code) => r matches CodeStep::Execute(c) && c@ == code
                        && final(self)@.messages == after && final(self)@.replies_left == old(self)@.replies_left - 1,
                    CodeActModel::Reply(m) => final(self)@.messages == after.push((MessageRole::User, m))
                        && final(self)@.replies_left == old(self)@.replies_left - 1
                        && step_continues(final(self)@, r),
                }
            }),
    {
        let ghost before = self.messages@;
        let reply = Message::assistant(content.to_string());
        proof {
            lemma_models_push(before, reply);
        }
        self.messages.push(reply);
        let ghost after = self.messages@;
        match code_act_decide(language, output_fields, content) {
            CodeActDecision::Finish(e) => CodeStep::Finish(e),
            CodeActDecision::Execute(code) => {
                self.replies_left = self.replies_left - 1;
                CodeStep::Execute(code)
            },
            CodeActDecision::Reply(m) => {
                let told = Message::user(m);
                proof {
                    lemma_models_push(after, told);
                }
                self.messages.push(told);
                self.replies_left = self.replies_left - 1;
                if self.replies_left == 0 {
                    CodeStep::Exhausted(code_act_exceeded_message(self.max_iters))
                } else {
                    CodeStep::Continue
                }
            },
        }
    }

    /// Takes the outcome of running the code: the model is told of it, and
    /// the run goes on or is exhausted.
    pub fn on_execution(&mut self, outcome: Result<String, String>) -> (r: CodeStep)
        ensures
            final(self)@.max_iters == old(self)@.max_iters,
            final(self)@.replies_left == old(self)@.replies_left,
            final(self)@.messages == old(self)@.messages.push((MessageRole::User, execution_text(match outcome {
                Ok(o) => Ok(o@),
                Err(e) => Err(e@),
            }))),
            step_continues(final(self)@, r),
    {
        let text = match &outcome {
            Ok(output) => execution_result_message(output.as_str()),
            Err(error) => execution_error_message(error.as_str()),
        };
        let ghost before = self.messages@;
        let told = Message::user(text);
        proof {
            lemma_models_push(before, told);
        }
        self.messages.push(told);
        if self.replies_left == 0 {
            CodeStep::Exhausted(code_act_exceeded_message(self.max_iters))
        } else {
            CodeStep::Continue
        }
    }

    /// The error of a run that used up its replies.
    pub fn exhausted_message(&self) -> (r: String)
        ensures
            r@ == code_act_exceeded_text(self@.max_iters),
    {
        code_act_exceeded_message(self.max_iters)
    }
}

} // verus!

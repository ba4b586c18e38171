//! ReAct: interleaving Thought / Action / Observation steps with tool calls.
//!
//! The model replies, the reply is read as an action, and either the run
//! finishes, a tool is called, or the model is told something; the runtime
//! that talks to the model and calls the tools follows these decisions.
use vstd::prelude::*;
use crate::adapters::chat::{ChatAdapter, chat_parse, parse_model, chat_reply_ready, chat_reply_text, reply_entries};
use crate::adapters::error::{AdapterError, ErrorModel};
use crate::example::{Example, EntryModel, lemma_views_push};
use crate::message::{Message, MessageRole, message_models};
use crate::predict::prompt::{input_lines, input_text};
use crate::prediction::Prediction;
use crate::signature::FieldDescriptor;
use crate::text::{
    join, join_strings, views, trim, lines, lines_of, trim_chars, chars_of, string_of, concat3, concat2,
    eq_ignore_ascii_case, eq_ignore_case, starts_with, slice_copy, decimal, decimal_string,
};
use crate::predict::prompt::backticked_list;
use crate::signature::{backticked, field_names};

verus! {

/// A tool that the model can call during its action steps: a name and a
/// description that the model is told of, and the function that runs it.
pub struct Tool<F> {
    pub name: String,
    pub desc: String,
    pub func: F,
}

impl<F: Fn(&str) -> String> Tool<F> {
    /// A tool of this name and description that runs `func`.
    pub fn new(name: &str, desc: &str, func: F) -> (t: Tool<F>)
        ensures
            t.name@ == name@,
            t.desc@ == desc@,
            t.func == func,
    {
        Tool { name: name.to_string(), desc: desc.to_string(), func }
    }

    /// Runs the tool on `input`: what its function gives.
    pub fn call(&self, input: &str) -> (r: String)
        requires
            call_requires(self.func, (input,)),
        ensures
            call_ensures(self.func, (input,), r),
    {
        (self.func)(input)
    }
}

/// `  name - description` for each tool.
pub open spec fn tool_lines<F>(tools: Seq<Tool<F>>) -> Seq<Seq<char>> {
    tools.map_values(|t: Tool<F>| "  "@ + t.name@ + " - "@ + t.desc@)
}

/// The tool list shown to the model.
pub open spec fn tool_list_text<F>(tools: Seq<Tool<F>>) -> Seq<char> {
    join(tool_lines(tools), "\n"@)
}

/// The names of the tools.
pub open spec fn tool_names<F>(tools: Seq<Tool<F>>) -> Seq<Seq<char>> {
    tools.map_values(|t: Tool<F>| t.name@)
}

/// The first tool whose name equals `name` (trimmed) up to ASCII case.
pub open spec fn find_tool_from<F>(tools: Seq<Tool<F>>, name: Seq<char>, from: int) -> Option<int>
    decreases tools.len() - from,
{
    if from < 0 || from >= tools.len() {
        None
    } else if eq_ignore_ascii_case(tools[from].name@, trim(name)) {
        Some(from)
    } else {
        find_tool_from(tools, name, from + 1)
    }
}

/// A tool that `find_tool_from` finds is one of the tools.
pub proof fn lemma_find_tool_in_range<F>(tools: Seq<Tool<F>>, name: Seq<char>, from: int)
    ensures
        find_tool_from(tools, name, from) matches Some(i) ==> 0 <= from <= i < tools.len(),
    decreases tools.len() - from,
{
    if from >= 0 && from < tools.len() && !eq_ignore_ascii_case(tools[from].name@, trim(name)) {
        lemma_find_tool_in_range(tools, name, from + 1);
    }
}

/// The system prompt of a ReAct run.
pub open spec fn react_system_text<F>(instruction: Seq<char>, tools: Seq<Tool<F>>, outputs: Seq<FieldDescriptor>) -> Seq<char> {
    instruction + "\n\nYou have access to the following tools:\n"@ + tool_list_text(tools)
        + "\n\nAt each step, provide:\nThought: <your reasoning about what to do next>\nAction: <tool name>\nAction Input: <input to the tool>\n\nWhen you have enough information, respond with:\nThought: I have enough information.\nAction: Finish\nAction Input: <not used>\n\nThen provide the final output fields: "@
        + join(backticked(field_names(outputs)), ", "@) + "."@
}

/// The thought, action and action input read so far.
pub type ActionScan = (Seq<char>, Seq<char>, Seq<char>);

/// One line of a reply: a `Thought:`, `Action:` or `Action Input:` line (after
/// trimming) sets that part to the rest of the line, trimmed.
pub open spec fn action_step(st: ActionScan, line: Seq<char>) -> ActionScan {
    let t = trim(line);
    if "Thought:"@.is_prefix_of(t) {
        (trim(t.skip("Thought:"@.len() as int)), st.1, st.2)
    } else if "Action:"@.is_prefix_of(t) {
        (st.0, trim(t.skip("Action:"@.len() as int)), st.2)
    } else if "Action Input:"@.is_prefix_of(t) {
        (st.0, st.1, trim(t.skip("Action Input:"@.len() as int)))
    } else {
        st
    }
}

/// The scan over the first lines.
pub open spec fn action_scan(ls: Seq<Seq<char>>) -> ActionScan
    decreases ls.len(),
{
    if ls.len() == 0 {
        (Seq::empty(), Seq::empty(), Seq::empty())
    } else {
        action_step(action_scan(ls.drop_last()), ls.last())
    }
}

/// The (thought, action, action input) of a reply; none where no action is given.
pub open spec fn parse_action_of(text: Seq<char>) -> Option<ActionScan> {
    let st = action_scan(lines(text));
    if st.1.len() == 0 {
        None
    } else {
        Some(st)
    }
}

/// What the runtime is to do after a reply.
#[derive(Debug)]
pub enum ReActDecision {
    /// Stop with this result.
    Finish(Result<Example, AdapterError>),
    /// Call the tool at this position with this input, then report what it gave.
    CallTool { tool: usize, input: String },
    /// Tell the model this and ask again.
    Reply(String),
}

/// The model of a decision.
pub enum ReActModel {
    Finish(Result<Seq<EntryModel>, ErrorModel>),
    CallTool(int, Seq<char>),
    Reply(Seq<char>),
}

/// The model of a decision value.
pub open spec fn react_model(d: ReActDecision) -> ReActModel {
    match d {
        ReActDecision::Finish(r) => ReActModel::Finish(parse_model(r)),
        ReActDecision::CallTool { tool, input } => ReActModel::CallTool(tool as int, input@),
        ReActDecision::Reply(m) => ReActModel::Reply(m@),
    }
}

/// What to tell the model when it names a tool that does not exist.
pub open spec fn unknown_tool_text<F>(action: Seq<char>, tools: Seq<Tool<F>>) -> Seq<char> {
    "Observation: Tool '"@ + action + "' not found. Available tools: "@ + join(tool_names(tools), ", "@)
}

/// What to tell the model when its reply is neither an action nor the output.
pub open spec fn format_reminder() -> Seq<char> {
    "Please respond with Thought/Action/Action Input format, or provide the final output fields."@
}

/// The decision after a reply: an action `Finish` (any case) parses the
/// reply as the output; another action calls the tool of that name, or is
/// answered that no such tool exists; a reply without action that parses as
/// the output finishes, else the model is reminded of the format.
pub open spec fn react_decision<F>(tools: Seq<Tool<F>>, outputs: Seq<FieldDescriptor>, content: Seq<char>) -> ReActModel {
    match parse_action_of(content) {
        Some(st) => if eq_ignore_ascii_case(st.1, "Finish"@) {
            ReActModel::Finish(chat_parse(content, outputs))
        } else {
            match find_tool_from(tools, st.1, 0) {
                Some(i) => ReActModel::CallTool(i, st.2),
                None => ReActModel::Reply(unknown_tool_text(st.1, tools)),
            }
        },
        None => match chat_parse(content, outputs) {
            Ok(r) => ReActModel::Finish(Ok(r)),
            Err(_) => ReActModel::Reply(format_reminder()),
        },
    }
}

/// The tool list shown to the model.
pub fn tool_descriptions<F>(tools: &[Tool<F>]) -> (r: String)
    ensures
        r@ == tool_list_text(tools@),
{
    let mut ls: Vec<String> = Vec::new();
    let mut i: usize = 0;
    while i < tools.len()
        invariant
            i <= tools@.len(),
            views(ls@) == tool_lines(tools@).take(i as int),
        decreases tools@.len() - i,
    {
        let mut s = concat3("  ", tools[i].name.as_str(), " - ");
        s.append(tools[i].desc.as_str());
        proof {
            lemma_views_push(ls@, s);
            assert(tool_lines(tools@).take(i + 1) =~= tool_lines(tools@).take(i as int).push(s@));
        }
        ls.push(s);
        i = i + 1;
    }
    assert(tool_lines(tools@).take(i as int) =~= tool_lines(tools@));
    join_strings(&ls, "\n")
}

/// The position of the first tool named `name` (trimmed, up to ASCII case).
pub fn find_tool<F>(tools: &[Tool<F>], name: &str) -> (r: Option<usize>)
    ensures
        match r {
            Some(i) => find_tool_from(tools@, name@, 0) == Some(i as int),
            None => find_tool_from(tools@, name@, 0) is None,
        },
{
    let nc = chars_of(name);
    let wanted = trim_chars(nc.as_slice());
    let mut i: usize = 0;
    while i < tools.len()
        invariant
            i <= tools@.len(),
            wanted@ == trim(name@),
            find_tool_from(tools@, name@, i as int) == find_tool_from(tools@, name@, 0),
        decreases tools@.len() - i,
    {
        let tc = chars_of(tools[i].name.as_str());
        if eq_ignore_case(tc.as_slice(), wanted.as_slice()) {
            return Some(i);
        }
        i = i + 1;
    }
    None
}

/// The system prompt of a ReAct run.
pub fn react_system_prompt<F>(instruction: &str, tools: &[Tool<F>], output_fields: &[FieldDescriptor]) -> (r: String)
    ensures
        r@ == react_system_text(instruction@, tools@, output_fields@),
{
    let tool_list = tool_descriptions(tools);
    let outs = backticked_list(output_fields);
    let mut r = String::new();
    r.append(instruction);
    r.append("\n\nYou have access to the following tools:\n");
    r.append(tool_list.as_str());
    r.append("\n\nAt each step, provide:\nThought: <your reasoning about what to do next>\nAction: <tool name>\nAction Input: <input to the tool>\n\nWhen you have enough information, respond with:\nThought: I have enough information.\nAction: Finish\nAction Input: <not used>\n\nThen provide the final output fields: ");
    r.append(outs.as_str());
    r.append(".");
    r
}

/// The part of `v` after its first `n` characters, trimmed.
fn trimmed_rest(v: &Vec<char>, n: usize) -> (r: Vec<char>)
    requires
        n <= v@.len(),
    ensures
        r@ == trim(v@.skip(n as int)),
{
    let rest = slice_copy(v.as_slice(), n, v.len());
    assert(rest@ =~= v@.skip(n as int));
    trim_chars(rest.as_slice())
}

/// Reads the thought, action and action input of a reply; none where the
/// reply names no action.
pub fn parse_action(text: &str) -> (r: Option<(String, String, String)>)
    ensures
        match r {
            Some((t, a, i)) => parse_action_of(text@) == Some((t@, a@, i@)),
            None => parse_action_of(text@) is None,
        },
{
    let chars = chars_of(text);
    let ls = lines_of(chars.as_slice());
    let ghost lsm = ls@.map_values(|l: Vec<char>| l@);
    let p_thought = chars_of("Thought:");
    let p_action = chars_of("Action:");
    let p_input = chars_of("Action Input:");
    let mut thought: Vec<char> = Vec::new();
    let mut action: Vec<char> = Vec::new();
    let mut input: Vec<char> = Vec::new();
    let mut i: usize = 0;
    while i < ls.len()
        invariant
            i <= ls@.len(),
            lsm == ls@.map_values(|l: Vec<char>| l@),
            lsm == lines(text@),
            p_thought@ == "Thought:"@,
            p_action@ == "Action:"@,
            p_input@ == "Action Input:"@,
            action_scan(lsm.take(i as int)) == (thought@, action@, input@),
        decreases ls@.len() - i,
    {
        assert(lsm.take(i + 1).drop_last() =~= lsm.take(i as int));
        assert(lsm.take(i + 1).last() == ls@[i as int]@);
        let t = trim_chars(ls[i].as_slice());
        if starts_with(t.as_slice(), p_thought.as_slice()) {
            thought = trimmed_rest(&t, p_thought.len());
        } else if starts_with(t.as_slice(), p_action.as_slice()) {
            action = trimmed_rest(&t, p_action.len());
        } else if starts_with(t.as_slice(), p_input.as_slice()) {
            input = trimmed_rest(&t, p_input.len());
        }
        i = i + 1;
    }
    assert(lsm.take(i as int) =~= lsm);
    if action.len() == 0 {
        None
    } else {
        Some((string_of(thought.as_slice()), string_of(action.as_slice()), string_of(input.as_slice())))
    }
}

/// `Observation: ` and what the tool gave.
pub fn observation_message(observation: &str) -> (r: String)
    ensures
        r@ == "Observation: "@ + observation@,
{
    concat2("Observation: ", observation)
}

/// The error a run that used up its steps ends with.
pub fn react_exceeded_message(max_iters: u64) -> (r: String)
    ensures
        r@ == "ReAct exceeded max iterations ("@ + decimal(max_iters as nat) + ") without producing output"@,
{
    let n = decimal_string(max_iters);
    concat3("ReAct exceeded max iterations (", n.as_str(), ") without producing output")
}

/// The decision after a reply (see `react_decision`).
pub fn react_decide<F>(tools: &[Tool<F>], output_fields: &[FieldDescriptor], content: &str) -> (r: ReActDecision)
    ensures
        react_model(r) == react_decision(tools@, output_fields@, content@),
        forall|vals: Seq<Seq<char>>| parse_action_of(content@) is None && chat_reply_ready(output_fields@, vals)
            && #[trigger] chat_reply_text(output_fields@, vals) == content@
            ==> react_model(r) == ReActModel::Finish(Ok(reply_entries(output_fields@, vals))),
{
    let adapter = ChatAdapter;
    match parse_action(content) {
        Some((_thought, action, action_input)) => {
            let ac = chars_of(action.as_str());
            let finish = chars_of("Finish");
            if eq_ignore_case(ac.as_slice(), finish.as_slice()) {
                ReActDecision::Finish(adapter.parse_response(content, output_fields))
            } else {
                match find_tool(tools, action.as_str()) {
                    Some(i) => ReActDecision::CallTool { tool: i, input: action_input },
                    None => {
                        let mut names: Vec<String> = Vec::new();
                        let mut k: usize = 0;
                        while k < tools.len()
                            invariant
                                k <= tools@.len(),
                                views(names@) == tool_names(tools@).take(k as int),
                            decreases tools@.len() - k,
                        {
                            let n = tools[k].name.clone();
                            proof {
                                lemma_views_push(names@, n);
                                assert(tool_names(tools@).take(k + 1) =~= tool_names(tools@).take(k as int).push(n@));
                            }
                            names.push(n);
                            k = k + 1;
                        }
                        assert(tool_names(tools@).take(k as int) =~= tool_names(tools@));
                        let list = join_strings(&names, ", ");
                        let mut m = concat3("Observation: Tool '", action.as_str(), "' not found. Available tools: ");
                        m.append(list.as_str());
                        ReActDecision::Reply(m)
                    },
                }
            }
        },
        None => match adapter.parse_response(content, output_fields) {
            Ok(r) => ReActDecision::Finish(Ok(r)),
            Err(_) => ReActDecision::Reply(
                "Please respond with Thought/Action/Action Input format, or provide the final output fields.".to_owned(),
            ),
        },
    }
}

/// A reply that names no action finishes the run with the output fields
/// where it holds them all, and otherwise reminds the model of the format;
/// it never calls a tool.
pub proof fn law_react_reply_without_action<F>(tools: Seq<Tool<F>>, outputs: Seq<FieldDescriptor>, content: Seq<char>)
    requires
        parse_action_of(content) is None,
    ensures
        chat_parse(content, outputs) matches Ok(r) ==> react_decision(tools, outputs, content) == ReActModel::Finish(Ok(r)),
        chat_parse(content, outputs) is Err ==> react_decision(tools, outputs, content) == ReActModel::Reply(format_reminder()),
        !(react_decision(tools, outputs, content) is CallTool),
{
}

/// Every tool accepts every input.
pub open spec fn tools_callable<F: Fn(&str) -> String>(tools: Seq<Tool<F>>) -> bool {
    forall|i: int, a: &str| 0 <= i < tools.len() ==> #[trigger] call_requires(tools[i].func, (a,))
}

/// `message` tells the model what `tool` gave on `input`.
pub open spec fn observed<F: Fn(&str) -> String>(tool: Tool<F>, input: Seq<char>, message: Seq<char>) -> bool {
    exists|a: &str, out: String|
        a@ == input && #[trigger] call_ensures(tool.func, (a,), out) && message == "Observation: "@ + out@
}

/// What the runtime does after a reply, the tools being called here.
#[derive(Debug)]
pub enum ReActStep {
    /// Stop with this result.
    Finish(Result<Example, AdapterError>),
    /// Tell the model this (an observation or a reminder) and ask again.
    Reply(String),
}

/// The step after a reply: the decision of `react_decision`, where a tool
/// call is made at once and its output told to the model as an observation.
pub fn react_step<F: Fn(&str) -> String>(tools: &[Tool<F>], output_fields: &[FieldDescriptor], content: &str) -> (r: ReActStep)
    requires
        tools_callable(tools@),
    ensures
        match react_decision(tools@, output_fields@, content@) {
            ReActModel::Finish(p) => r matches ReActStep::Finish(q) && parse_model(q) == p,
            ReActModel::Reply(m) => r matches ReActStep::Reply(q) && q@ == m,
            ReActModel::CallTool(i, input) => r matches ReActStep::Reply(q) && observed(tools@[i], input, q@),
        },
{
    match react_decide(tools, output_fields, content) {
        ReActDecision::Finish(res) => ReActStep::Finish(res),
        ReActDecision::Reply(m) => ReActStep::Reply(m),
        ReActDecision::CallTool { tool, input } => {
            proof {
                let st = parse_action_of(content@)->0;
                lemma_find_tool_in_range(tools@, st.1, 0);
            }
            let a = input.as_str();
            assert(call_requires(tools@[tool as int].func, (a,)));
            let out = tools[tool].call(a);
            let m = observation_message(out.as_str());
            assert(call_ensures(tools@[tool as int].func, (a,), out));
            assert(observed(tools@[tool as int], input@, m@));
            ReActStep::Reply(m)
        },
    }
}

/// The error a run that used up its steps ends with.
pub open spec fn react_exceeded_text(max_iters: nat) -> Seq<char> {
    "ReAct exceeded max iterations ("@ + decimal(max_iters) + ") without producing output"@
}

/// The model of a ReAct run: the messages so far, how many more replies
/// the model may give, and how many it could give in all.
pub struct RunModel {
    pub messages: Seq<(MessageRole, Seq<char>)>,
    pub replies_left: nat,
    pub max_iters: nat,
}

/// A ReAct conversation in progress.
pub struct ReActRun {
    messages: Vec<Message>,
    replies_left: u64,
    max_iters: u64,
}

impl View for ReActRun {
    type V = RunModel;

    closed spec fn view(&self) -> RunModel {
        RunModel {
            messages: message_models(self.messages@),
            replies_left: self.replies_left as nat,
            max_iters: self.max_iters as nat,
        }
    }
}

/// What follows a reply in a run.
#[derive(Debug)]
pub enum RunStep {
    /// Send the messages again for the next reply.
    Continue,
    /// The run ends with this result.
    Finish(Result<Example, AdapterError>),
    /// The run ran out of replies and ends with this error.
    Exhausted(String),
}

/// A run's messages with one more pushed.
proof fn lemma_message_models_push(v: Seq<Message>, m: Message)
    ensures
        message_models(v.push(m)) == message_models(v).push((m.role, m.content@)),
{
    assert(message_models(v.push(m)) =~= message_models(v).push((m.role, m.content@)));
}

impl ReActRun {
    /// A run that starts with the system prompt and the inputs, and allows
    /// `max_iters` replies.
    pub fn start<F>(
        instruction: &str,
        tools: &[Tool<F>],
        input_fields: &[FieldDescriptor],
        output_fields: &[FieldDescriptor],
        input: &Example,
        max_iters: u64,
    ) -> (r: ReActRun)
        ensures
            r@.messages == seq![
                (MessageRole::System, react_system_text(instruction@, tools@, output_fields@)),
                (MessageRole::User, input_lines(input_fields@, input@.entries)),
            ],
            r@.replies_left == max_iters,
            r@.max_iters == max_iters,
    {
        let mut messages: Vec<Message> = Vec::new();
        messages.push(Message::system(react_system_prompt(instruction, tools, output_fields)));
        messages.push(Message::user(input_text(input_fields, input)));
        let r = ReActRun { messages, replies_left: max_iters, max_iters };
        assert(r@.messages =~= seq![
            (MessageRole::System, react_system_text(instruction@, tools@, output_fields@)),
            (MessageRole::User, input_lines(input_fields@, input@.entries)),
        ]);
        r
    }

    /// The messages to send.
    pub fn messages(&self) -> (r: &[Message])
        ensures
            message_models(r@) == self@.messages,
    {
        self.messages.as_slice()
    }

    /// Whether the model may give another reply.
    pub fn wants_reply(&self) -> (r: bool)
        ensures
            r == (self@.replies_left > 0),
    {
        self.replies_left > 0
    }

    /// Takes the model's reply: it joins the messages, and the decision of
    /// `react_decision` follows.  A tool call is made at once and its output
    /// told to the model; where no replies are left then, the run is
    /// exhausted.
    pub fn on_reply<F: Fn(&str) -> String>(
        &mut self,
        tools: &[Tool<F>],
        output_fields: &[FieldDescriptor],
        content: &str,
    ) -> (r: RunStep)
        requires
            old(self)@.replies_left > 0,
            tools_callable(tools@),
        ensures
            final(self)@.max_iters == old(self)@.max_iters,
            ({
                let after = old(self)@.messages.push((MessageRole::Assistant, content@));
                match react_decision(tools@, output_fields@, content@) {
                    ReActModel::Finish(p) => r matches RunStep::Finish(q) && parse_model(q) == p
                        && final(self)@.messages == after && final(self)@.replies_left == old(self)@.replies_left,
                    ReActModel::Reply(m) => final(self)@.messages == after.push((MessageRole::User, m))
                        && run_advanced(old(self)@, final(self)@, r),
                    ReActModel::CallTool(i, input) => final(self)@.messages.len() == after.len() + 1
                        && final(self)@.messages.take(after.len() as int) == after
                        && final(self)@.messages.last().0 == MessageRole::User
                        && observed(tools@[i], input, final(self)@.messages.last().1)
                        && run_advanced(old(self)@, final(self)@, r),
                }
            }),
    {
        let ghost before = self.messages@;
        let reply = Message::assistant(content.to_string());
        proof {
            lemma_message_models_push(before, reply);
        }
        self.messages.push(reply);
        let ghost after = self.messages@;
        match react_step(tools, output_fields, content) {
            ReActStep::Finish(res) => RunStep::Finish(res),
            ReActStep::Reply(m) => {
                let told = Message::user(m);
                proof {
                    lemma_message_models_push(after, told);
                }
                self.messages.push(told);
                self.replies_left = self.replies_left - 1;
                if self.replies_left == 0 {
                    RunStep::Exhausted(react_exceeded_message(self.max_iters))
                } else {
                    RunStep::Continue
                }
            },
        }
    }

    /// The error of a run that used up its replies.
    pub fn exhausted_message(&self) -> (r: String)
        ensures
            r@ == react_exceeded_text(self@.max_iters),
    {
        react_exceeded_message(self.max_iters)
    }
}

/// After a reply that did not end the run: one reply fewer is left, and the
/// run is exhausted exactly when none is.
pub open spec fn run_advanced(before: RunModel, after: RunModel, r: RunStep) -> bool {
    &&& after.replies_left == before.replies_left - 1
    &&& if after.replies_left == 0 {
        r matches RunStep::Exhausted(m) && m@ == react_exceeded_text(before.max_iters)
    } else {
        r is Continue
    }
}

/// A run gives at most `max_iters` replies: each reply that does not end
/// it uses one up, and none is taken once they are used up.
pub proof fn law_run_bounded(before: RunModel, after: RunModel, r: RunStep)
    requires
        before.replies_left <= before.max_iters,
        before.replies_left > 0,
        after.max_iters == before.max_iters,
        run_advanced(before, after, r),
    ensures
        after.replies_left < before.replies_left,
        after.replies_left <= after.max_iters,
        after.replies_left == 0 <==> r is Exhausted,
{
}

} // verus!

use dspy_rust::example::Example;
use dspy_rust::json::JsonDoc;
use dspy_rust::predict::code::{
    CodeActRun, CodeStep, code_act_decide, code_act_exceeded_message, execution_error_message, execution_result_message,
    extract_code_block, no_code_block_message, program_fields_from, program_result, CodeActDecision,
};
use dspy_rust::predict::react::{
    ReActRun, RunStep, parse_action, react_decide, react_exceeded_message, react_step, tool_descriptions, ReActDecision, ReActStep, Tool,
};
use dspy_rust::message::MessageRole;
use dspy_rust::signature::FieldDescriptor;
use dspy_rust::value::FieldValue;

fn qa_outputs() -> Vec<FieldDescriptor> {
    vec![FieldDescriptor {
        name: "answer",
        desc: "a concise factual answer",
        prefix: "",
        field_type: "String",
    }]
}

fn multi_outputs() -> Vec<FieldDescriptor> {
    vec![
        FieldDescriptor { name: "label", desc: "the category label", prefix: "", field_type: "String" },
        FieldDescriptor { name: "confidence", desc: "confidence score", prefix: "", field_type: "String" },
    ]
}

type ToolFn = Box<dyn Fn(&str) -> String>;

fn boxed(f: impl Fn(&str) -> String + 'static) -> ToolFn {
    Box::new(f)
}

#[test]
fn react_tool_loop_and_finish() {
    let lookup = Tool::new(
        "lookup",
        "Look up facts",
        boxed(|input: &str| {
            if input.contains("France") {
                "The capital of France is Paris.".to_string()
            } else {
                "Unknown".to_string()
            }
        }),
    );
    let tools = vec![lookup];

    let first = react_step(
        &tools,
        &qa_outputs(),
        "Thought: I need to look up the capital.\nAction: lookup\nAction Input: France",
    );
    match first {
        ReActStep::Reply(m) => assert_eq!(m, "Observation: The capital of France is Paris."),
        other => panic!("expected an observation, got {:?}", other),
    }

    let second = react_step(
        &tools,
        &qa_outputs(),
        "Thought: I have enough information.\nAction: Finish\nAction Input: done\n\n[[ ## answer ## ]]\nParis",
    );
    match second {
        ReActStep::Finish(Ok(result)) => assert_eq!(result.get_str("answer"), Some("Paris")),
        other => panic!("expected the answer, got {:?}", other),
    }
}

#[test]
fn react_unknown_tool_reports_error() {
    let lookup = Tool::new("lookup", "Look up facts", boxed(|_: &str| "result".to_string()));
    let tools = vec![lookup];

    let first = react_step(
        &tools,
        &qa_outputs(),
        "Thought: Let me search.\nAction: google\nAction Input: France capital",
    );
    match first {
        ReActStep::Reply(m) => assert_eq!(m, "Observation: Tool 'google' not found. Available tools: lookup"),
        other => panic!("expected a reply, got {:?}", other),
    }

    let second = react_step(
        &tools,
        &qa_outputs(),
        "Thought: I have enough information.\nAction: Finish\nAction Input: done\n\n[[ ## answer ## ]]\nParis",
    );
    match second {
        ReActStep::Finish(Ok(result)) => assert_eq!(result.get_str("answer"), Some("Paris")),
        other => panic!("expected the answer, got {:?}", other),
    }
}

#[test]
fn react_exceeds_max_iters() {
    let tool = Tool::new("lookup", "look up", boxed(|_: &str| "result".to_string()));
    let tools = vec![tool];
    let input = Example::new().with("question", FieldValue::string("What?"));
    let mut run = ReActRun::start("Answer.", &tools, &qa_inputs(), &qa_outputs(), &input, 2);
    let mut ended: Option<String> = None;
    for reply in ["Thought: thinking\nAction: lookup\nAction Input: x", "Thought: still thinking\nAction: lookup\nAction Input: y"] {
        assert!(run.wants_reply());
        match run.on_reply(&tools, &qa_outputs(), reply) {
            RunStep::Continue => assert_eq!(run.messages().last().unwrap().content, "Observation: result"),
            RunStep::Exhausted(m) => ended = Some(m),
            other => panic!("expected the run to go on, got {:?}", other),
        }
    }
    assert!(!run.wants_reply());
    let message = ended.expect("the run should have used up its iterations");
    assert!(message.contains("exceeded max iterations"));
    assert_eq!(message, "ReAct exceeded max iterations (2) without producing output");
    assert_eq!(message, react_exceeded_message(2));
    assert_eq!(run.messages().len(), 6);
}

#[test]
fn react_decide_names_the_tool_and_input() {
    let tools = vec![
        Tool::new("search", "web search", boxed(|_: &str| String::new())),
        Tool::new("Lookup", "facts", boxed(|_: &str| String::new())),
    ];
    match react_decide(&tools, &qa_outputs(), "Action:  LOOKUP \nAction Input:  Paris ") {
        ReActDecision::CallTool { tool, input } => {
            assert_eq!(tool, 1);
            assert_eq!(input, "Paris");
        },
        other => panic!("expected a tool call, got {:?}", other),
    }
}

#[test]
fn react_reply_without_action_is_reminded() {
    let tools = vec![Tool::new("lookup", "facts", boxed(|_: &str| String::new()))];
    match react_decide(&tools, &multi_outputs(), "I am not sure.") {
        ReActDecision::Reply(m) => assert_eq!(
            m,
            "Please respond with Thought/Action/Action Input format, or provide the final output fields."
        ),
        other => panic!("expected a reminder, got {:?}", other),
    }
}

#[test]
fn react_parse_action_reads_last_of_each() {
    let parsed = parse_action("Thought: a\nAction: first\nThought:  b \nAction Input: in");
    assert_eq!(parsed, Some(("b".to_string(), "first".to_string(), "in".to_string())));
    assert_eq!(parse_action("Thought: only thinking"), None);
}

#[test]
fn react_tool_descriptions_lists_each_tool() {
    let tools = vec![
        Tool::new("a", "first", boxed(|_: &str| String::new())),
        Tool::new("b", "second", boxed(|_: &str| String::new())),
    ];
    assert_eq!(tool_descriptions(&tools), "  a - first\n  b - second");
    assert_eq!(tools[0].call("x"), "");
}

#[test]
fn program_of_thought_single_shot() {
    let code = extract_code_block("```python\nprint(2 + 2)\n```", "python");
    assert_eq!(code, Some("print(2 + 2)".to_string()));
    let result = program_result(&qa_outputs(), "4");
    assert_eq!(result.get_str("answer"), Some("4"));
}

#[test]
fn program_of_thought_no_code_block_errors() {
    let code = extract_code_block("I don't know how to code that.", "python");
    assert_eq!(code, None);
    assert!(no_code_block_message().contains("No code block"));
}

#[test]
fn code_act_multi_turn() {
    let first = code_act_decide("python", &qa_outputs(), "Let me compute this.\n```python\nprint(2+2)\n```");
    match first {
        CodeActDecision::Execute(code) => assert_eq!(code, "print(2+2)"),
        other => panic!("expected code to run, got {:?}", other),
    }
    assert_eq!(execution_result_message("4"), "Code execution result:\n```\n4\n```");
    let second = code_act_decide("python", &qa_outputs(), "[[ ## answer ## ]]\n4");
    match second {
        CodeActDecision::Finish(result) => assert_eq!(result.get_str("answer"), Some("4")),
        other => panic!("expected the answer, got {:?}", other),
    }
}

#[test]
fn code_act_exceeds_max_iters() {
    let input = Example::new().with("question", FieldValue::string("What?"));
    let mut run = CodeActRun::start("Answer.", "python", &qa_inputs(), &qa_outputs(), &input, 2);
    let mut ended: Option<String> = None;
    for (reply, output) in [("```python\nprint('try 1')\n```", "1"), ("```python\nprint('try 2')\n```", "2")] {
        assert!(run.wants_reply());
        match run.on_reply("python", &qa_outputs(), reply) {
            CodeStep::Execute(_) => {},
            other => panic!("expected code to run, got {:?}", other),
        }
        match run.on_execution(Ok(output.to_string())) {
            CodeStep::Continue => {},
            CodeStep::Exhausted(m) => ended = Some(m),
            other => panic!("expected the run to go on, got {:?}", other),
        }
    }
    assert!(!run.wants_reply());
    let message = ended.expect("the run should have used up its iterations");
    assert!(message.contains("exceeded max iterations"));
    assert_eq!(message, code_act_exceeded_message(2));
}

#[test]
fn code_act_error_message_asks_for_a_fix() {
    assert_eq!(
        execution_error_message("boom"),
        "Code execution error:\n```\nboom\n```\nPlease fix the code and try again."
    );
}

#[test]
fn code_act_multi_field_reply_without_fields_is_asked_again() {
    match code_act_decide("python", &multi_outputs(), "no idea") {
        CodeActDecision::Reply(m) => assert_eq!(m, "Please provide the output fields or write code to compute them."),
        other => panic!("expected a request, got {:?}", other),
    }
}

#[test]
fn extract_code_block_falls_back_to_plain_fence() {
    assert_eq!(
        extract_code_block("Here:\n```rust\n  x = 1\n```", "python"),
        Some("x = 1".to_string())
    );
    // Letters right after the fence are taken as a language tag and skipped.
    assert_eq!(
        extract_code_block("```rust\nfn main() {}\n```", "python"),
        Some("main() {}".to_string())
    );
    assert_eq!(extract_code_block("```python\nunfinished", "python"), None);
}

#[test]
fn program_result_reads_json_or_lines() {
    let from_json = program_result(&multi_outputs(), "{\"label\": \"spam\", \"confidence\": \"0.9\"}");
    assert_eq!(from_json.get_str("label"), Some("spam"));
    assert_eq!(from_json.get_str("confidence"), Some("0.9"));

    let from_lines = program_result(&multi_outputs(), "  ham \n 0.4\n");
    assert_eq!(from_lines.get_str("label"), Some("ham"));
    assert_eq!(from_lines.get_str("confidence"), Some("0.4"));

    let short = program_result(&multi_outputs(), "only");
    assert_eq!(short.get_str("confidence"), Some(""));
    let _unused: Example = short;
}

fn qa_inputs() -> Vec<FieldDescriptor> {
    vec![FieldDescriptor { name: "question", desc: "the question to answer", prefix: "", field_type: "String" }]
}

#[test]
fn react_run_keeps_the_conversation() {
    let tools = vec![Tool::new("lookup", "Look up facts", boxed(|_: &str| "Paris".to_string()))];
    let input = Example::new().with("question", FieldValue::string("Capital?"));
    let mut run = ReActRun::start("Answer.", &tools, &qa_inputs(), &qa_outputs(), &input, 2);
    assert_eq!(run.messages().len(), 2);
    assert_eq!(run.messages()[1].content, "question: Capital?\n");
    assert!(run.wants_reply());
    match run.on_reply(&tools, &qa_outputs(), "Action: lookup\nAction Input: France") {
        RunStep::Continue => {},
        other => panic!("expected to go on, got {:?}", other),
    }
    assert_eq!(run.messages().len(), 4);
    assert_eq!(run.messages()[2].role, MessageRole::Assistant);
    assert_eq!(run.messages()[3].content, "Observation: Paris");
    match run.on_reply(&tools, &qa_outputs(), "Action: lookup\nAction Input: again") {
        RunStep::Exhausted(m) => assert_eq!(m, "ReAct exceeded max iterations (2) without producing output"),
        other => panic!("expected the run to end, got {:?}", other),
    }
    assert!(!run.wants_reply());
}

#[test]
fn react_run_finishes_on_finish_action() {
    let tools = vec![Tool::new("lookup", "Look up facts", boxed(|_: &str| String::new()))];
    let input = Example::new().with("question", FieldValue::string("Capital?"));
    let mut run = ReActRun::start("Answer.", &tools, &qa_inputs(), &qa_outputs(), &input, 1);
    match run.on_reply(&tools, &qa_outputs(), "Action: finish\n[[ ## answer ## ]]\nParis") {
        RunStep::Finish(Ok(e)) => assert_eq!(e.get_str("answer"), Some("Paris")),
        other => panic!("expected the answer, got {:?}", other),
    }
}

#[test]
fn code_act_run_executes_and_answers() {
    let input = Example::new().with("question", FieldValue::string("What is 2+2?"));
    let mut run = CodeActRun::start("Answer.", "python", &qa_inputs(), &qa_outputs(), &input, 5);
    match run.on_reply("python", &qa_outputs(), "```python\nprint(2+2)\n```") {
        CodeStep::Execute(code) => assert_eq!(code, "print(2+2)"),
        other => panic!("expected code to run, got {:?}", other),
    }
    match run.on_execution(Ok("4".to_string())) {
        CodeStep::Continue => {},
        other => panic!("expected to go on, got {:?}", other),
    }
    assert_eq!(run.messages().last().unwrap().content, "Code execution result:\n```\n4\n```");
    match run.on_reply("python", &qa_outputs(), "[[ ## answer ## ]]\n4") {
        CodeStep::Finish(e) => assert_eq!(e.get_str("answer"), Some("4")),
        other => panic!("expected the answer, got {:?}", other),
    }
}

#[test]
fn code_act_run_exhausts_after_last_execution() {
    let input = Example::new();
    let mut run = CodeActRun::start("Answer.", "python", &qa_inputs(), &multi_outputs(), &input, 1);
    match run.on_reply("python", &multi_outputs(), "```python\nx\n```") {
        CodeStep::Execute(_) => {},
        other => panic!("expected code to run, got {:?}", other),
    }
    match run.on_execution(Err("boom".to_string())) {
        CodeStep::Exhausted(m) => assert_eq!(m, "CodeAct exceeded max iterations (1) without producing output"),
        other => panic!("expected the run to end, got {:?}", other),
    }
    assert_eq!(run.exhausted_message(), "CodeAct exceeded max iterations (1) without producing output");
}

#[test]
fn program_fields_from_reads_members_or_lines() {
    let doc = JsonDoc::Object(vec![("label".to_string(), FieldValue::string("cat")), ("other".to_string(), FieldValue::string("x"))]);
    let e = program_fields_from(&multi_outputs(), "ignored", doc);
    assert_eq!(e.len(), 1);
    assert_eq!(e.get_str("label"), Some("cat"));

    let doc = JsonDoc::Invalid("expected value".to_string());
    let e = program_fields_from(&multi_outputs(), "  dog \n 0.8 ", doc);
    assert_eq!(e.get_str("label"), Some("dog"));
    assert_eq!(e.get_str("confidence"), Some("0.8"));
}

#[test]
fn program_result_reads_a_printed_object() {
    let e = program_result(&multi_outputs(), "{\"label\": \"cat\", \"confidence\": 0.5}");
    assert_eq!(e.get_str("label"), Some("cat"));
    assert_eq!(e.get("confidence"), Some(&FieldValue::Json("0.5".to_string())));
}

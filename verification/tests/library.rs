use dspy_rust::adapters::chat::ChatAdapter;
use dspy_rust::adapters::error::AdapterError;
use dspy_rust::adapters::json_adapter::JsonAdapter;
use dspy_rust::adapters::xml_adapter::XmlAdapter;
use dspy_rust::example::Example;
use dspy_rust::message::{Message, MessageRole};
use dspy_rust::predict::parallel::parallel_result;
use dspy_rust::predict::retry::{
    extended_input_fields, refine_instruction, refined_input, retry_check, retry_decide, retry_exhausted_message,
    retry_instruction, RetryAction,
};
use dspy_rust::predict::state::PredictState;
use dspy_rust::provider::{completion_content, endpoint_url, request_role, token_usage, TokenCounts};
use dspy_rust::retrieve::{document_texts, query_text};
use dspy_rust::signature::{doc_instruction, field_attr_values, field_kind, FieldDescriptor, FieldKind};
use dspy_rust::streaming::{stream_messages, stream_result, stream_system_prompt};
use dspy_rust::teleprompt::finetune::{example_text, generate_finetune_data, FineTuningMessage};
use dspy_rust::teleprompt::instructions::{
    better_together_candidates, better_together_prompt, clean_instruction, copro_candidates, copro_prompt,
    instruction_candidates, mipro_prompt,
};
use dspy_rust::usage::UsageTracker;
use dspy_rust::value::FieldValue;

fn s(v: &str) -> FieldValue {
    FieldValue::string(v)
}

fn field(name: &'static str) -> FieldDescriptor {
    FieldDescriptor { name, desc: "", prefix: "", field_type: "String" }
}

#[test]
fn example_get_after_set_law() {
    let mut ex = Example::new().with("a", s("1")).with("b", s("2"));
    ex.set("a", s("3"));
    assert_eq!(ex.get_str("a"), Some("3"));
    assert_eq!(ex.get_str("b"), Some("2"));
    assert_eq!(ex.len(), 2);
    ex.set("c", s("4"));
    assert_eq!(ex.len(), 3);
    assert_eq!(ex.keys(), vec!["a".to_string(), "b".to_string(), "c".to_string()]);
}

#[test]
fn example_remove_law() {
    let mut ex = Example::new().with("a", s("1")).with("b", s("2"));
    assert_eq!(ex.remove("a"), Some(s("1")));
    assert_eq!(ex.remove("a"), None);
    assert_eq!(ex.get_str("b"), Some("2"));
}

#[test]
fn example_inputs_follow_marked_keys() {
    let ex = Example::new().with("q", s("1")).with("a", s("2")).with_inputs(vec!["a".to_string(), "missing".to_string()]);
    let inputs = ex.inputs();
    assert_eq!(inputs.len(), 1);
    assert_eq!(inputs.get_str("a"), Some("2"));
    assert_eq!(inputs.input_keys().map(|k| k.len()), Some(2));
    let unmarked = Example::new().with("q", s("1"));
    assert_eq!(unmarked.inputs().len(), 1);
}

#[test]
fn chat_reply_roundtrip_law() {
    let outputs = vec![field("label"), field("confidence")];
    let reply = format!(
        "{}\n\n{}",
        ChatAdapter::format_field_with_value(&outputs[0], " positive "),
        ChatAdapter::format_field_with_value(&outputs[1], "0.95")
    );
    let result = ChatAdapter.parse_response(&reply, &outputs).unwrap();
    assert_eq!(result.get_str("label"), Some("positive"));
    assert_eq!(result.get_str("confidence"), Some("0.95"));
    assert_eq!(result.len(), 2);
}

#[test]
fn xml_single_field_roundtrip_law() {
    let outputs = vec![field("answer")];
    let reply = XmlAdapter::format_field("answer", "  Paris ");
    let result = XmlAdapter.parse_response(&reply, &outputs).unwrap();
    assert_eq!(result.get_str("answer"), Some("Paris"));
}

#[test]
fn adapter_errors_name_the_missing_field() {
    let outputs = vec![field("label"), field("confidence")];
    match ChatAdapter.parse_response("[[ ## label ## ]]\nx", &outputs) {
        Err(AdapterError::MissingField(name)) => assert_eq!(name, "confidence"),
        other => panic!("expected a missing field, got {:?}", other),
    }
    match XmlAdapter.parse_response("<label>x</label>", &outputs) {
        Err(AdapterError::MissingXmlField(name)) => assert_eq!(name, "confidence"),
        other => panic!("expected a missing tag, got {:?}", other),
    }
    match JsonAdapter.parse_response("{\"label\": \"x\"}", &outputs) {
        Err(AdapterError::MissingJsonField(name)) => assert_eq!(name, "confidence"),
        other => panic!("expected a missing member, got {:?}", other),
    }
    match JsonAdapter.parse_response("not json", &outputs) {
        Err(AdapterError::InvalidJson { raw, .. }) => assert_eq!(raw, "not json"),
        other => panic!("expected invalid JSON, got {:?}", other),
    }
    match JsonAdapter.parse_response("[1, 2]", &outputs) {
        Err(AdapterError::NotAnObject) => {},
        other => panic!("expected a non-object, got {:?}", other),
    }
}

#[test]
fn retry_instruction_mentions_the_last_error() {
    assert_eq!(retry_instruction("Do it.", 0, "bad"), "Do it.");
    assert_eq!(
        retry_instruction("Do it.", 1, "bad"),
        "Do it.\n\nPrevious attempt was invalid: bad. Please try again."
    );
    assert_eq!(retry_exhausted_message(3, "bad"), "Retry exhausted 4 attempts. Last error: bad");
}

#[test]
fn retry_decide_accepts_retries_and_gives_up() {
    assert!(matches!(retry_decide(0, 2, None), RetryAction::Accept));
    assert!(matches!(retry_decide(0, 2, Some(Ok(()))), RetryAction::Accept));
    match retry_decide(1, 2, Some(Err("too long".to_string()))) {
        RetryAction::TryAgain(e) => assert_eq!(e, "too long"),
        other => panic!("expected another try, got {:?}", other),
    }
    match retry_decide(2, 2, Some(Err("too long".to_string()))) {
        RetryAction::GiveUp(m) => assert_eq!(m, "Retry exhausted 3 attempts. Last error: too long"),
        other => panic!("expected to give up, got {:?}", other),
    }
}

#[test]
fn retry_check_runs_the_validator() {
    let validator = |e: &Example| -> Result<(), String> {
        if e.get_str("answer") == Some("ok") { Ok(()) } else { Err("not ok".to_string()) }
    };
    let good = Example::new().with("answer", s("ok"));
    let bad = Example::new().with("answer", s("no"));
    assert!(matches!(retry_check(Some(&validator), 0, 1, &good), RetryAction::Accept));
    assert!(matches!(retry_check(Some(&validator), 0, 1, &bad), RetryAction::TryAgain(_)));
    assert!(matches!(retry_check(Some(&validator), 1, 1, &bad), RetryAction::GiveUp(_)));
    let none: Option<&fn(&Example) -> Result<(), String>> = None;
    assert!(matches!(retry_check(none, 1, 1, &bad), RetryAction::Accept));
}

#[test]
fn refine_round_adds_previous_fields() {
    assert_eq!(
        refine_instruction("Answer."),
        "Answer.\n\nYou previously produced the output below. Improve it \u{2014} fix errors, add detail, or make it more precise."
    );
    let input = Example::new().with("question", s("Q"));
    let previous = Example::new().with("answer", s("A"));
    let refined = refined_input(&input, &previous);
    assert_eq!(refined.get_str("question"), Some("Q"));
    assert_eq!(refined.get_str("previous_answer"), Some("A"));
    let fields = extended_input_fields(&[field("question")], &[field("answer")]);
    assert_eq!(fields.len(), 2);
    assert_eq!(fields[1].name, "previous_answer");
    assert_eq!(fields[1].desc, "your previous answer to improve");
    assert_eq!(fields[1].prefix, "");
    assert_eq!(fields[1].field_type, "String");
}

#[test]
fn streaming_prompt_and_fallback() {
    assert_eq!(
        stream_system_prompt("Answer.", &[field("answer"), field("why")]),
        "Answer.\n\nRespond with the following fields: answer, why"
    );
    let input = Example::new().with("question", s("Q?"));
    let msgs = stream_messages("Answer.", &[field("question")], &[field("answer")], &input);
    assert_eq!(msgs.len(), 2);
    assert_eq!(msgs[1].content, "question: Q?\n");
    assert_eq!(stream_result(&[field("answer")], "  Paris \n").get_str("answer"), Some("Paris"));
    assert!(stream_result(&[field("a"), field("b")], "nothing").is_empty());
}

#[test]
fn instruction_candidates_are_cleaned() {
    let content = "1. \"Be brief.\"\n\n2) Think first.\n3.\nplain line";
    let all = instruction_candidates(content);
    assert_eq!(all, vec!["Be brief.".to_string(), "Think first.".to_string(), "plain line".to_string()]);
    assert_eq!(copro_candidates(content, 2, "base"), vec!["Be brief.".to_string(), "Think first.".to_string()]);
    assert_eq!(copro_candidates("", 2, "base"), vec!["base".to_string()]);
    assert_eq!(
        better_together_candidates(content, 1, "base"),
        vec!["base".to_string(), "Be brief.".to_string()]
    );
    assert_eq!(clean_instruction("  \"Quoted\"  "), "Quoted");
}

#[test]
fn proposal_prompts_hold_their_parts() {
    let p = copro_prompt("Answer.", 3);
    assert!(p.starts_with("You are optimizing a prompt instruction for a language model.\n\nCurrent best instruction:\n\"Answer.\""));
    assert!(p.contains("Generate 3 diverse alternative instructions"));
    let b = better_together_prompt("Answer.", 5);
    assert!(b.ends_with("Output each on its own line, numbered."));
    assert!(b.contains("Generate 5 diverse"));
    let demos = vec![Example::new().with("question", s("Q1")).with("answer", s("A1"))];
    let m = mipro_prompt("Answer.", &vec!["question".to_string()], &vec!["answer".to_string()], &demos);
    assert!(m.contains("Input fields: question\nOutput fields: answer"));
    assert!(m.contains("Example 1:\n  question: Q1\n  answer: A1"));
}

#[test]
fn finetune_data_has_user_and_assistant_turns() {
    let input = Example::new().with("question", s("Q"));
    let output = Example::new().with("answer", s("A")).with("n", FieldValue::Json("3".to_string()));
    assert_eq!(example_text(&output), "answer: A\nn: 3");
    let data = generate_finetune_data(&[(input, output)]);
    assert_eq!(data.len(), 1);
    assert_eq!(data[0].messages[0].role, "user");
    assert_eq!(data[0].messages[0].content, "question: Q");
    assert_eq!(data[0].messages[1].role, "assistant");
    let m = FineTuningMessage::from_message(&Message { role: MessageRole::Developer, content: "x".to_string() });
    assert_eq!(m.role, "developer");
}

#[test]
fn retrieval_texts_and_query() {
    let docs = vec![Example::new().with("text", s("hello")), Example::new().with("other", s("x"))];
    assert_eq!(document_texts(&docs, "text"), vec!["hello".to_string(), String::new()]);
    let input = Example::new().with("question", s("What?"));
    assert_eq!(query_text(&input, "question"), Ok("What?".to_string()));
    let err = query_text(&Example::new(), "question").unwrap_err();
    assert!(err.contains("Missing query field"));
    assert_eq!(err, "Missing query field 'question' in input");
}

#[test]
fn provider_endpoint_and_reply_reading() {
    assert_eq!(endpoint_url("https://hp.example//"), "https://hp.example/sequence/execute");
    assert_eq!(endpoint_url("http://x"), "http://x/sequence/execute");
    assert_eq!(completion_content(Some(s("out")), Some(s("text"))), "out");
    assert_eq!(completion_content(None, Some(s("text"))), "text");
    assert_eq!(completion_content(Some(FieldValue::Json("1".to_string())), Some(s("text"))), "");
    assert_eq!(completion_content(None, None), "");
    let usage = token_usage(Some(TokenCounts { prompt: Some(5), completion: None, total: Some((1u64 << 32) + 7) })).unwrap();
    assert_eq!(usage.prompt_tokens, 5);
    assert_eq!(usage.completion_tokens, 0);
    assert_eq!(usage.total_tokens, 7);
    assert!(token_usage(None).is_none());
    assert_eq!(request_role(MessageRole::Developer), MessageRole::System);
    assert_eq!(request_role(MessageRole::User), MessageRole::User);
}

#[test]
fn parallel_gathers_named_results() {
    let ok = Example::new().with("answer", s("Paris"));
    let result = parallel_result(&[
        ("qa".to_string(), Ok(ok)),
        ("broken".to_string(), Err("boom".to_string())),
    ]);
    assert_eq!(result.get("qa"), Some(&FieldValue::Json("{\"fields\":{\"answer\":\"Paris\"}}".to_string())));
    assert_eq!(result.get("broken"), Some(&FieldValue::Json("{\"error\":\"boom\"}".to_string())));
}

#[test]
fn usage_tracker_accumulates_and_resets() {
    let mut tracker = UsageTracker::new();
    tracker.record(10, 5);
    tracker.record(1, 2);
    let summary = tracker.summary();
    assert_eq!(summary.prompt_tokens, 11);
    assert_eq!(summary.completion_tokens, 7);
    assert_eq!(summary.total_tokens, 18);
    assert_eq!(summary.requests, 2);
    tracker.reset();
    assert_eq!(tracker.summary().total_tokens, 0);
    assert_eq!(tracker.summary().requests, 0);
}

#[test]
fn predict_state_effective_instruction() {
    let state = PredictState::new();
    assert_eq!(state.effective_instruction("sig"), "sig");
    let state = state.with_instruction("mine");
    assert_eq!(state.effective_instruction("sig"), "mine");
}

#[test]
fn signature_doc_lines_become_the_instruction() {
    let lines = vec![" Given a question,".to_string(), "produce a concise answer. ".to_string()];
    assert_eq!(doc_instruction(&lines), "Given a question, produce a concise answer.");
    assert_eq!(doc_instruction(&Vec::new()), "");
}

#[test]
fn signature_field_kinds_and_attributes() {
    assert_eq!(field_kind("q", true, true), Ok(FieldKind::Input));
    assert_eq!(field_kind("a", false, true), Ok(FieldKind::Output));
    assert_eq!(
        field_kind("x", false, false),
        Err("Field `x` must have either #[input(...)] or #[output(...)] attribute".to_string())
    );
    let pairs = vec![
        ("desc".to_string(), Some("the question".to_string())),
        ("prefix".to_string(), Some("Q:".to_string())),
        ("other".to_string(), Some("ignored".to_string())),
        ("desc".to_string(), None),
    ];
    assert_eq!(field_attr_values(String::new(), String::new(), &pairs), ("the question".to_string(), "Q:".to_string()));
}

#[test]
fn adapter_error_messages() {
    assert_eq!(
        AdapterError::MissingField("answer".to_string()).message(),
        "Missing output field `answer` in LM response"
    );
    assert_eq!(AdapterError::NotAnObject.message(), "Expected JSON object in response");
    assert_eq!(
        AdapterError::InvalidPattern { field: "a".to_string(), message: "bad".to_string() }.message(),
        "Invalid regex for field a: bad"
    );
}

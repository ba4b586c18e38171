use dspy_rust::adapters::chat::{chat_fields_from, ChatAdapter};
use dspy_rust::adapters::error::AdapterError;
use dspy_rust::adapters::json_adapter::{json_fields_from, JsonAdapter};
use dspy_rust::adapters::xml_adapter::{xml_fields_from, XmlAdapter};
use dspy_rust::example::Example;
use dspy_rust::json::JsonDoc;
use dspy_rust::signature::FieldDescriptor;
use dspy_rust::value::FieldValue;

fn s(v: &str) -> FieldValue {
    FieldValue::string(v)
}

fn qa_input_fields() -> Vec<FieldDescriptor> {
    vec![FieldDescriptor {
        name: "question",
        desc: "the question",
        prefix: "",
        field_type: "String",
    }]
}

fn qa_output_fields() -> Vec<FieldDescriptor> {
    vec![FieldDescriptor {
        name: "answer",
        desc: "the answer",
        prefix: "",
        field_type: "String",
    }]
}

fn multi_output_fields() -> Vec<FieldDescriptor> {
    vec![
        FieldDescriptor { name: "label", desc: "category", prefix: "", field_type: "String" },
        FieldDescriptor { name: "confidence", desc: "score", prefix: "", field_type: "String" },
    ]
}

// ChatAdapter

#[test]
fn chat_adapter_format_messages_has_headers() {
    let adapter = ChatAdapter;
    let input = Example::new().with("question", s("What is 2+2?"));
    let msgs = adapter.format_messages(
        "Answer questions.",
        &qa_input_fields(),
        &qa_output_fields(),
        &[],
        &input,
    );

    assert!(msgs.len() >= 2);
    let system = &msgs[0].content;
    assert!(system.contains("[[ ## question ## ]]"));
    assert!(system.contains("[[ ## answer ## ]]"));
}

#[test]
fn chat_adapter_format_includes_demos() {
    let adapter = ChatAdapter;
    let demo = Example::new().with("question", s("Q1")).with("answer", s("A1"));
    let input = Example::new().with("question", s("Q2"));
    let msgs = adapter.format_messages(
        "Answer.",
        &qa_input_fields(),
        &qa_output_fields(),
        &[demo],
        &input,
    );

    // system + demo_user + demo_assistant + user = 4 messages
    assert!(msgs.len() >= 4);
}

#[test]
fn chat_adapter_parse_response_with_headers() {
    let adapter = ChatAdapter;
    let response = "[[ ## answer ## ]]\nParis";
    let result = adapter.parse_response(response, &qa_output_fields()).unwrap();
    assert_eq!(result.get_str("answer"), Some("Paris"));
}

#[test]
fn chat_adapter_parse_single_field_fallback() {
    let adapter = ChatAdapter;
    let response = "Paris";
    let result = adapter.parse_response(response, &qa_output_fields()).unwrap();
    assert_eq!(result.get_str("answer"), Some("Paris"));
}

#[test]
fn chat_adapter_parse_multi_field() {
    let adapter = ChatAdapter;
    let response = "[[ ## label ## ]]\npositive\n\n[[ ## confidence ## ]]\n0.95";
    let result = adapter.parse_response(response, &multi_output_fields()).unwrap();
    assert_eq!(result.get_str("label"), Some("positive"));
    assert_eq!(result.get_str("confidence"), Some("0.95"));
}

#[test]
fn chat_adapter_parse_multi_field_missing_errors() {
    let adapter = ChatAdapter;
    let response = "[[ ## label ## ]]\npositive";
    let result = adapter.parse_response(response, &multi_output_fields());
    assert!(result.is_err());
}

// JsonAdapter

#[test]
fn json_adapter_parse_valid_json() {
    let adapter = JsonAdapter;
    let response = r#"{"answer": "Paris"}"#;
    let result = adapter.parse_response(response, &qa_output_fields()).unwrap();
    assert_eq!(result.get_str("answer"), Some("Paris"));
}

#[test]
fn json_adapter_parse_json_in_code_fence() {
    let adapter = JsonAdapter;
    let response = "```json\n{\"answer\": \"Paris\"}\n```";
    let result = adapter.parse_response(response, &qa_output_fields()).unwrap();
    assert_eq!(result.get_str("answer"), Some("Paris"));
}

#[test]
fn json_adapter_parse_multi_field() {
    let adapter = JsonAdapter;
    let response = r#"{"label": "positive", "confidence": "0.95"}"#;
    let result = adapter.parse_response(response, &multi_output_fields()).unwrap();
    assert_eq!(result.get_str("label"), Some("positive"));
    assert_eq!(result.get_str("confidence"), Some("0.95"));
}

// XmlAdapter

#[test]
fn xml_adapter_parse_response() {
    let adapter = XmlAdapter;
    let response = "<answer>\nParis\n</answer>";
    let result = adapter.parse_response(response, &qa_output_fields()).unwrap();
    assert_eq!(result.get_str("answer"), Some("Paris"));
}

#[test]
fn xml_adapter_parse_multi_field() {
    let adapter = XmlAdapter;
    let response = "<label>\npositive\n</label>\n<confidence>\n0.95\n</confidence>";
    let result = adapter.parse_response(response, &multi_output_fields()).unwrap();
    assert_eq!(result.get_str("label"), Some("positive"));
    assert_eq!(result.get_str("confidence"), Some("0.95"));
}

#[test]
fn xml_adapter_single_field_fallback() {
    let adapter = XmlAdapter;
    let response = "Paris";
    let result = adapter.parse_response(response, &qa_output_fields()).unwrap();
    assert_eq!(result.get_str("answer"), Some("Paris"));
}

#[test]
fn xml_adapter_multi_field_missing_errors() {
    let adapter = XmlAdapter;
    let response = "<label>positive</label>";
    let result = adapter.parse_response(response, &multi_output_fields());
    assert!(result.is_err());
}

#[test]
fn xml_adapter_format_messages() {
    let adapter = XmlAdapter;
    let input = Example::new().with("question", s("What is 2+2?"));
    let msgs = adapter.format_messages(
        "Answer questions.",
        &qa_input_fields(),
        &qa_output_fields(),
        &[],
        &input,
    );

    assert!(msgs.len() >= 2);
    let system = &msgs[0].content;
    assert!(system.contains("<question>"));
    assert!(system.contains("<answer>"));
}

// Reading fields from results that were already parsed

#[test]
fn json_fields_from_takes_each_output_member() {
    let doc = JsonDoc::Object(vec![
        ("confidence".to_string(), FieldValue::Json("0.9".to_string())),
        ("label".to_string(), s("positive")),
        ("extra".to_string(), s("ignored")),
    ]);
    let e = json_fields_from(doc, "{}".to_string(), &multi_output_fields()).unwrap();
    assert_eq!(e.len(), 2);
    assert_eq!(e.get_str("label"), Some("positive"));
    assert_eq!(e.get("confidence"), Some(&FieldValue::Json("0.9".to_string())));
}

#[test]
fn json_fields_from_reports_each_error() {
    let missing = JsonDoc::Object(vec![("label".to_string(), s("positive"))]);
    match json_fields_from(missing, "{}".to_string(), &multi_output_fields()) {
        Err(AdapterError::MissingJsonField(f)) => assert_eq!(f, "confidence"),
        other => panic!("expected a missing field, got {:?}", other),
    }
    let invalid = JsonDoc::Invalid("expected value at line 1 column 1".to_string());
    match json_fields_from(invalid, "oops".to_string(), &qa_output_fields()) {
        Err(AdapterError::InvalidJson { message, raw }) => {
            assert_eq!(message, "expected value at line 1 column 1");
            assert_eq!(raw, "oops");
        },
        other => panic!("expected invalid JSON, got {:?}", other),
    }
    match json_fields_from(JsonDoc::Other(FieldValue::Json("3".to_string())), "3".to_string(), &qa_output_fields()) {
        Err(AdapterError::NotAnObject) => {},
        other => panic!("expected a non-object error, got {:?}", other),
    }
}

#[test]
fn json_adapter_invalid_reply_keeps_the_parser_message() {
    match JsonAdapter.parse_response("not json", &qa_output_fields()) {
        Err(AdapterError::InvalidJson { message, raw }) => {
            assert!(!message.is_empty());
            assert_eq!(raw, "not json");
        },
        other => panic!("expected invalid JSON, got {:?}", other),
    }
}

#[test]
fn xml_fields_from_uses_the_given_captures() {
    let caps = vec![Ok(Some("  positive ".to_string())), Ok(Some("0.9".to_string()))];
    let e = xml_fields_from("anything", &multi_output_fields(), &caps).unwrap();
    assert_eq!(e.get_str("label"), Some("positive"));
    assert_eq!(e.get_str("confidence"), Some("0.9"));

    let lone: Vec<Result<Option<String>, String>> = vec![Ok(None)];
    let e = xml_fields_from("  just text  ", &qa_output_fields(), &lone).unwrap();
    assert_eq!(e.get_str("answer"), Some("just text"));

    let missing = vec![Ok(Some("positive".to_string())), Ok(None)];
    match xml_fields_from("x", &multi_output_fields(), &missing) {
        Err(AdapterError::MissingXmlField(f)) => assert_eq!(f, "confidence"),
        other => panic!("expected a missing field, got {:?}", other),
    }
    let bad = vec![Err("regex parse error".to_string()), Ok(None)];
    match xml_fields_from("x", &multi_output_fields(), &bad) {
        Err(AdapterError::InvalidPattern { field, message }) => {
            assert_eq!(field, "label");
            assert_eq!(message, "regex parse error");
        },
        other => panic!("expected a pattern error, got {:?}", other),
    }
}

#[test]
fn chat_fields_from_uses_the_given_headers() {
    let reply = "[[ ## label ## ]]\npositive\n\n[[ ## confidence ## ]]\n0.9";
    let headers = vec![Some("label".to_string()), None, None, Some("confidence".to_string()), None];
    let e = chat_fields_from(reply, &multi_output_fields(), &headers).unwrap();
    assert_eq!(e.get_str("label"), Some("positive"));
    assert_eq!(e.get_str("confidence"), Some("0.9"));

    let no_headers = vec![None, None, None, None, None];
    match chat_fields_from(reply, &multi_output_fields(), &no_headers) {
        Err(AdapterError::MissingField(f)) => assert_eq!(f, "label"),
        other => panic!("expected a missing field, got {:?}", other),
    }
}

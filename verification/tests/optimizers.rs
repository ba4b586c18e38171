use dspy_rust::example::Example;
use dspy_rust::predict::state::{PredictState, SavedState};
use dspy_rust::prediction::Prediction;
use dspy_rust::teleprompt::ensemble::{aggregate, AggregationStrategy};
use dspy_rust::teleprompt::fewshot::{
    accumulate_demos, combine_demos, has_room, merge_prediction, patience_step, shuffled, split_point, split_trainset,
    DemoCollector, LabeledFewShot,
};
use dspy_rust::value::FieldValue;

fn s(v: &str) -> FieldValue {
    FieldValue::string(v)
}

fn qa(q: &str, a: &str) -> Example {
    Example::new().with("question", s(q)).with("answer", s(a))
}

#[test]
fn labeled_fewshot_assigns_demos() {
    let trainset = vec![qa("Q1", "A1"), qa("Q2", "A2"), qa("Q3", "A3")];

    let optimizer = LabeledFewShot::new(2);
    let demos = optimizer.select_demos(&trainset);

    assert_eq!(demos.len(), 2);
    assert_eq!(demos[0].get_str("question"), Some("Q1"));
    assert_eq!(demos[1].get_str("question"), Some("Q2"));
}

#[test]
fn labeled_fewshot_k_greater_than_trainset() {
    let trainset = vec![qa("Q1", "A1")];
    let optimizer = LabeledFewShot::new(10);
    let demos = optimizer.select_demos(&trainset);
    assert_eq!(demos.len(), 1);
}

#[test]
fn labeled_fewshot_default_takes_sixteen() {
    assert_eq!(LabeledFewShot::default().k, 16);
}

#[test]
fn predict_state_roundtrip_after_optimization() {
    let trainset = vec![qa("Q1", "A1"), qa("Q2", "A2")];
    let demos = LabeledFewShot::new(2).select_demos(&trainset);
    let predict = PredictState::new().with_demos(demos);

    let state = predict.dump("Given a question, produce a concise answer.");
    let mut predict2 = PredictState::new();
    predict2.load(&state);

    assert_eq!(predict2.demos.len(), predict.demos.len());
    assert_eq!(predict2.demos[0].get_str("question"), predict.demos[0].get_str("question"));
}

#[test]
fn predict_reset_clears_state() {
    let mut predict = PredictState::new()
        .with_demos(vec![Example::new().with("question", s("Q1"))])
        .with_instruction("custom");

    assert_eq!(predict.demos.len(), 1);
    assert!(predict.instruction.is_some());

    predict.reset();
    assert!(predict.demos.is_empty());
    assert!(predict.instruction.is_none());
}

#[test]
fn predict_dump_load_state() {
    let mut predict = PredictState::new();
    predict.demos = vec![qa("Q1", "A1")];
    predict.instruction = Some("Custom instruction".to_string());

    let state = predict.dump("Given a question, produce a concise answer.");
    assert_eq!(state.instruction.as_deref(), Some("Custom instruction"));
    assert_eq!(state.demos.as_ref().map(|d| d.len()), Some(1));

    let mut predict2 = PredictState::new();
    predict2.load(&state);
    assert_eq!(predict2.instruction.as_deref(), Some("Custom instruction"));
    assert_eq!(predict2.demos.len(), 1);
}

#[test]
fn e2e_state_save_load_roundtrip() {
    let predict = PredictState::new().with_instruction("Be concise.").with_demos(vec![qa("Capital of France?", "Paris")]);
    let saved = predict.dump("Given a question, produce a concise answer.");
    let mut predict2 = PredictState::new();
    predict2.load(&saved);
    assert_eq!(predict2.instruction.as_deref(), Some("Be concise."));
    assert_eq!(predict2.demos.len(), 1);
    assert_eq!(
        predict2.effective_instruction("sig"),
        predict.effective_instruction("sig")
    );
}

#[test]
fn dump_saves_the_signature_instruction_without_override() {
    let predict = PredictState::new();
    let saved = predict.dump("Given the fields `question`, produce the fields `answer`.");
    assert_eq!(saved.instruction.as_deref(), Some("Given the fields `question`, produce the fields `answer`."));
    let mut other = PredictState::new().with_instruction("old");
    other.load(&saved);
    assert_eq!(other.effective_instruction("x"), "Given the fields `question`, produce the fields `answer`.");
}

#[test]
fn load_keeps_parts_that_were_not_saved() {
    let mut predict = PredictState::new().with_instruction("keep").with_demos(vec![qa("Q", "A")]);
    predict.load(&SavedState { instruction: None, demos: Some(Vec::new()) });
    assert_eq!(predict.instruction.as_deref(), Some("keep"));
    assert!(predict.demos.is_empty());

    let mut other = PredictState::new().with_instruction("keep");
    other.load_demos(&SavedState { instruction: Some("dropped".to_string()), demos: Some(vec![qa("Q", "A")]) });
    assert_eq!(other.instruction.as_deref(), Some("keep"));
    assert_eq!(other.demos.len(), 1);
}

#[test]
fn bootstrap_fewshot_collects_demos() {
    let trainset = vec![qa("Q1", "A1"), qa("Q2", "A2"), qa("Q3", "A3")];
    let mut collector = DemoCollector::new(2);
    for (i, example) in trainset.iter().enumerate() {
        if !collector.has_room() {
            break;
        }
        let answer = format!("A{}", i + 1);
        let prediction = Prediction::from_example(Example::new().with("answer", s(&answer)));
        collector.offer(example, &prediction, true);
    }
    let demos = combine_demos(collector.demos(), &trainset, 1);
    assert!(!demos.is_empty());
    assert!(demos.len() <= 3);
    assert_eq!(demos.len(), 3);
    assert_eq!(demos[2].get_str("question"), Some("Q1"));
}

#[test]
fn demo_collector_skips_failed_predictions() {
    let mut collector = DemoCollector::new(5);
    let prediction = Prediction::from_example(Example::new().with("answer", s("x")));
    collector.offer(&qa("Q", "A"), &prediction, false);
    assert!(collector.has_room());
    assert!(collector.demos().is_empty());
}

#[test]
fn merge_prediction_overwrites_and_adds_fields() {
    let example = qa("Q", "gold");
    let prediction = Prediction::from_example(Example::new().with("answer", s("pred")).with("reasoning", s("r")));
    let demo = merge_prediction(&example, &prediction);
    assert_eq!(demo.get_str("question"), Some("Q"));
    assert_eq!(demo.get_str("answer"), Some("pred"));
    assert_eq!(demo.get_str("reasoning"), Some("r"));
    assert_eq!(demo.len(), 3);
}

#[test]
fn split_point_is_three_quarters_but_at_least_one() {
    assert_eq!(split_point(0), 1);
    assert_eq!(split_point(1), 1);
    assert_eq!(split_point(4), 3);
    assert_eq!(split_point(10), 7);
    let trainset = vec![qa("1", "a"), qa("2", "b"), qa("3", "c"), qa("4", "d")];
    let (train, dev) = split_trainset(&trainset);
    assert_eq!(train.len(), 3);
    assert_eq!(dev.len(), 1);
    assert_eq!(dev[0].get_str("question"), Some("4"));
}

#[test]
fn shuffled_keeps_every_example() {
    let trainset = vec![qa("1", "a"), qa("2", "b"), qa("3", "c")];
    let order = shuffled(&trainset);
    assert_eq!(order.len(), 3);
    let mut questions: Vec<String> = order.iter().map(|e| e.get_str("question").unwrap().to_string()).collect();
    questions.sort();
    assert_eq!(questions, vec!["1".to_string(), "2".to_string(), "3".to_string()]);
}

#[test]
fn simba_accumulates_and_truncates() {
    let acc = vec![qa("1", "a"), qa("2", "b")];
    let new = vec![qa("3", "c"), qa("4", "d")];
    let all = accumulate_demos(acc, new, 3);
    assert_eq!(all.len(), 3);
    assert_eq!(all[2].get_str("question"), Some("3"));
    assert!(has_room(1, 1, 3));
    assert!(!has_room(2, 1, 3));
    assert!(!has_room(5, 0, 3));
}

#[test]
fn simba_patience_stops_after_stale_rounds() {
    assert_eq!(patience_step(true, 4, 2), (0, false));
    assert_eq!(patience_step(false, 0, 2), (1, false));
    assert_eq!(patience_step(false, 1, 2), (2, true));
}

#[test]
fn ensemble_first_and_majority() {
    let p = |v: &str| Prediction::from_example(Example::new().with("label", s(v)));
    let preds = vec![p("b"), p("a"), p("a"), p("b"), p("c")];
    assert_eq!(aggregate(&AggregationStrategy::First, &preds), Some(0));
    // "a" and "b" tie with two votes; the first prediction holding a top value wins.
    assert_eq!(aggregate(&AggregationStrategy::MajorityVote("label".to_string()), &preds), Some(0));
    let preds2 = vec![p("c"), p("a"), p("a")];
    assert_eq!(aggregate(&AggregationStrategy::MajorityVote("label".to_string()), &preds2), Some(1));
    let none: Vec<Prediction> = Vec::new();
    assert_eq!(aggregate(&AggregationStrategy::First, &none), None);
    let unvoted = vec![Prediction::new(), Prediction::new()];
    assert_eq!(aggregate(&AggregationStrategy::MajorityVote("label".to_string()), &unvoted), Some(0));
}

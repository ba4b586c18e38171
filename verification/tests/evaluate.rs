use dspy_rust::example::Example;
use dspy_rust::metrics::{exact_match, ExactMatch, FnMetric};
use dspy_rust::prediction::Prediction;
use dspy_rust::value::FieldValue;

fn s(v: &str) -> FieldValue {
    FieldValue::string(v)
}

/// The score the exact-match metric gives: 1 for a match, 0 otherwise.
fn score(metric: &ExactMatch, ex: &Example, pred: &Prediction) -> f64 {
    if metric.is_match(ex, pred) {
        1.0
    } else {
        0.0
    }
}

#[test]
fn exact_match_scores_correctly() {
    let metric = exact_match("answer");

    let ex = Example::new().with("answer", s("Paris"));
    let pred = Prediction::from_example(Example::new().with("answer", s("Paris")));
    assert_eq!(score(&metric, &ex, &pred), 1.0);

    let pred_wrong = Prediction::from_example(Example::new().with("answer", s("London")));
    assert_eq!(score(&metric, &ex, &pred_wrong), 0.0);
}

#[test]
fn exact_match_case_insensitive() {
    let metric = exact_match("answer");
    let ex = Example::new().with("answer", s("Paris"));
    let pred = Prediction::from_example(Example::new().with("answer", s("paris")));
    assert_eq!(score(&metric, &ex, &pred), 1.0);
}

#[test]
fn exact_match_trims_whitespace() {
    let metric = exact_match("answer");
    let ex = Example::new().with("answer", s("Paris"));
    let pred = Prediction::from_example(Example::new().with("answer", s("  Paris  ")));
    assert_eq!(score(&metric, &ex, &pred), 1.0);
}

#[test]
fn exact_match_missing_field_scores_zero() {
    let metric = exact_match("answer");
    let ex = Example::new().with("answer", s("Paris"));
    let pred = Prediction::from_example(Example::new());
    assert_eq!(score(&metric, &ex, &pred), 0.0);
}

#[test]
fn fn_metric_works() {
    let metric = FnMetric(|_ex: &Example, pred: &Prediction| {
        if pred.get_str("answer") == Some("42") { 1.0 } else { 0.0 }
    });

    let ex = Example::new();
    let pred = Prediction::from_example(Example::new().with("answer", s("42")));
    assert_eq!((metric.0)(&ex, &pred), 1.0);
}

#[test]
fn exact_match_json_values_do_not_match() {
    let metric = ExactMatch::new("answer".to_string());
    let ex = Example::new().with("answer", FieldValue::Json("4".to_string()));
    let pred = Prediction::from_example(Example::new().with("answer", FieldValue::Json("4".to_string())));
    assert_eq!(score(&metric, &ex, &pred), 0.0);
}

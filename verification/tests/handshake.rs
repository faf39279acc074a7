use preval::evaluator::handshake::{
    handshake_from_json, parse_handshake, wait_for_handshake_step, HandshakeError, WaitError,
    WaitStep,
};
use preval::evaluator::protocol::{
    EvaluationMode, EvaluatorInfo, ExecutionPlan, Handshake, MetricDefinition,
    ValidatedExecutionPlan, ValidatedHandshake, ValidationError,
};
use preval::json::Json;
use preval::text::{NumberError, TextError};

const VALID_HANDSHAKE_JSON: &str = r#"{
        "type": "handshake",
        "mode": "test_suite",
        "version": "1.0",
        "evaluator": {
            "name": "test-evaluator",
            "description": "Test evaluator"
        },
        "execution_plan": {
            "total_samples": 50,
            "batch_size": 10
        },
        "metrics_schema": [
            {
                "name": "accuracy",
                "description": "Classification accuracy",
                "unit": "ratio"
            }
        ]
    }"#;

fn raw_handshake() -> Handshake {
    Handshake {
        msg_type: "handshake".to_string(),
        mode: EvaluationMode::Continuous,
        version: " 2.1 ".to_string(),
        evaluator: EvaluatorInfo {
            name: " eval ".to_string(),
            description: Some("  what it does ".to_string()),
            version: Some(" v ".to_string()),
        },
        execution_plan: Some(ExecutionPlan { total_samples: 7, batch_size: None }),
        metrics_schema: vec![MetricDefinition {
            name: " m ".to_string(),
            description: Some(" d ".to_string()),
            unit: Some(" ms ".to_string()),
        }],
    }
}

#[test]
fn parses_valid_handshake() {
    let result = parse_handshake(VALID_HANDSHAKE_JSON).unwrap();

    assert!(matches!(result.mode, EvaluationMode::TestSuite));
    assert_eq!(result.version.as_ref(), "1.0");
    assert_eq!(result.evaluator.name.as_str(), "test-evaluator");
    assert_eq!(
        result.evaluator.description.as_ref().map(|d| d.as_ref()),
        Some("Test evaluator")
    );

    let plan = result.execution_plan.unwrap();
    assert_eq!(plan.total_samples.into_inner(), 50);
    assert_eq!(plan.batch_size.map(|b| b.into_inner()), Some(10));

    assert_eq!(result.metrics_schema.len(), 1);
    assert_eq!(result.metrics_schema[0].name.as_ref(), "accuracy");
}

#[test]
fn wait_for_handshake_succeeds_with_valid_input() {
    let result = wait_for_handshake_step(Some(VALID_HANDSHAKE_JSON));
    assert!(matches!(result, WaitStep::Received(_)));
}

#[test]
fn wait_for_handshake_times_out() {
    let step = wait_for_handshake_step(Some("not a handshake"));
    assert!(matches!(step, WaitStep::KeepWaiting));
    let error = WaitError::TimedOut { seconds: 5 };
    assert!(error.message().contains("handshake timeout"));
    assert_eq!(
        error.message(),
        "handshake timeout: no valid handshake received within 5 seconds"
    );
    assert_eq!(
        WaitError::TimedOut { seconds: 120 }.message(),
        "handshake timeout: no valid handshake received within 120 seconds"
    );
}

#[test]
fn wait_for_handshake_handles_early_termination() {
    let result = wait_for_handshake_step(None);
    match result {
        WaitStep::Failed(error) => {
            assert_eq!(error, WaitError::OutputEnded);
            assert!(error.message().contains("output ended before handshake"));
        }
        _ => panic!("expected the wait to fail"),
    }
}

#[test]
fn validated_fields_equal_the_trimmed_inputs() {
    let v = ValidatedHandshake::parse(raw_handshake()).unwrap();
    assert_eq!(v.mode, EvaluationMode::Continuous);
    assert_eq!(v.version.as_ref(), "2.1");
    assert_eq!(v.evaluator.name, " eval ");
    assert_eq!(v.evaluator.description.as_ref().map(|d| d.as_ref()), Some("what it does"));
    assert_eq!(v.evaluator.version.as_deref(), Some(" v "));
    let plan = v.execution_plan.unwrap();
    assert_eq!(plan.total_samples.into_inner(), 7);
    assert!(plan.batch_size.is_none());
    assert_eq!(v.metrics_schema.len(), 1);
    assert_eq!(v.metrics_schema[0].name.as_ref(), "m");
    assert_eq!(v.metrics_schema[0].description.as_deref(), Some(" d "));
    assert_eq!(v.metrics_schema[0].unit.as_ref().map(|u| u.as_ref()), Some("ms"));
}

#[test]
fn each_violation_has_its_cause() {
    let mut h = raw_handshake();
    h.version = "   ".to_string();
    assert_eq!(
        ValidatedHandshake::parse(h).unwrap_err(),
        ValidationError::InvalidVersion(TextError::Empty)
    );

    let mut h = raw_handshake();
    h.version = "x".repeat(33);
    assert_eq!(
        ValidatedHandshake::parse(h).unwrap_err(),
        ValidationError::InvalidVersion(TextError::TooLong)
    );

    let mut h = raw_handshake();
    h.version = "x".repeat(32);
    assert!(ValidatedHandshake::parse(h).is_ok());

    let mut h = raw_handshake();
    h.evaluator.name = " \t ".to_string();
    assert_eq!(ValidatedHandshake::parse(h).unwrap_err(), ValidationError::EmptyEvaluatorName);

    let mut h = raw_handshake();
    h.evaluator.description = Some("".to_string());
    assert_eq!(
        ValidatedHandshake::parse(h).unwrap_err(),
        ValidationError::InvalidDescription(TextError::Empty)
    );

    let mut h = raw_handshake();
    h.evaluator.description = Some("d".repeat(513));
    assert_eq!(
        ValidatedHandshake::parse(h).unwrap_err(),
        ValidationError::InvalidDescription(TextError::TooLong)
    );

    let mut h = raw_handshake();
    h.execution_plan = Some(ExecutionPlan { total_samples: 0, batch_size: Some(0) });
    assert_eq!(
        ValidatedHandshake::parse(h).unwrap_err(),
        ValidationError::InvalidTotalSamples(NumberError::NotPositive)
    );

    let mut h = raw_handshake();
    h.execution_plan = Some(ExecutionPlan { total_samples: 1, batch_size: Some(0) });
    assert_eq!(
        ValidatedHandshake::parse(h).unwrap_err(),
        ValidationError::InvalidBatchSize(NumberError::NotPositive)
    );

    let mut h = raw_handshake();
    h.metrics_schema[0].name = "n".repeat(129);
    assert_eq!(
        ValidatedHandshake::parse(h).unwrap_err(),
        ValidationError::InvalidMetricName(TextError::TooLong)
    );

    let mut h = raw_handshake();
    h.metrics_schema[0].unit = Some(" ".to_string());
    assert_eq!(
        ValidatedHandshake::parse(h).unwrap_err(),
        ValidationError::InvalidMetricUnit(TextError::Empty)
    );
}

#[test]
fn the_first_violation_is_reported() {
    let mut h = raw_handshake();
    h.version = "".to_string();
    h.evaluator.name = "".to_string();
    assert_eq!(
        ValidatedHandshake::parse(h).unwrap_err(),
        ValidationError::InvalidVersion(TextError::Empty)
    );

    let mut h = raw_handshake();
    h.metrics_schema.push(MetricDefinition {
        name: "".to_string(),
        description: None,
        unit: None,
    });
    h.metrics_schema[0].unit = Some("u".repeat(33));
    assert_eq!(
        ValidatedHandshake::parse(h).unwrap_err(),
        ValidationError::InvalidMetricUnit(TextError::TooLong)
    );
}

#[test]
fn execution_plan_is_validated_alone() {
    let plan = ValidatedExecutionPlan::parse(ExecutionPlan { total_samples: 3, batch_size: Some(2) })
        .unwrap();
    assert_eq!(plan.total_samples.into_inner(), 3);
    assert_eq!(plan.batch_size.map(|b| b.into_inner()), Some(2));
}

#[test]
fn a_line_that_is_no_json_is_malformed() {
    match parse_handshake("{not json") {
        Err(HandshakeError::MalformedJson(msg)) => assert!(!msg.is_empty()),
        other => panic!("unexpected: {:?}", other.is_ok()),
    }
    assert!(matches!(parse_handshake(""), Err(HandshakeError::MalformedJson(_))));
    assert!(matches!(
        parse_handshake(r#"{"type":"handshake"} trailing"#),
        Err(HandshakeError::MalformedJson(_))
    ));
}

#[test]
fn the_tag_is_looked_at_before_the_fields() {
    assert_eq!(
        parse_handshake(r#"{"type":"metrics","mode":"test_suite"}"#).unwrap_err(),
        HandshakeError::InvalidMessageType
    );
    assert_eq!(parse_handshake(r#"{"mode":"test_suite"}"#).unwrap_err(), HandshakeError::InvalidMessageType);
    assert_eq!(parse_handshake(r#"[1,2]"#).unwrap_err(), HandshakeError::InvalidMessageType);
    assert_eq!(parse_handshake(r#"{"type":7}"#).unwrap_err(), HandshakeError::InvalidMessageType);
    assert_eq!(
        parse_handshake(r#"{"resourceMetrics":[]}"#).unwrap_err(),
        HandshakeError::InvalidMessageType
    );
}

#[test]
fn missing_or_mistyped_fields_are_a_shape_error() {
    let cases = [
        r#"{"type":"handshake"}"#,
        r#"{"type":"handshake","mode":"nope","version":"1","evaluator":{"name":"e"},"metrics_schema":[]}"#,
        r#"{"type":"handshake","mode":"test_suite","version":1,"evaluator":{"name":"e"},"metrics_schema":[]}"#,
        r#"{"type":"handshake","mode":"test_suite","version":"1","evaluator":{},"metrics_schema":[]}"#,
        r#"{"type":"handshake","mode":"test_suite","version":"1","evaluator":null,"metrics_schema":[]}"#,
        r#"{"type":"handshake","mode":"test_suite","version":"1","evaluator":{"name":"e"}}"#,
        r#"{"type":"handshake","mode":"test_suite","version":"1","evaluator":{"name":"e"},"metrics_schema":[{}]}"#,
        r#"{"type":"handshake","mode":"test_suite","version":"1","evaluator":{"name":"e"},"execution_plan":{"total_samples":-1},"metrics_schema":[]}"#,
        r#"{"type":"handshake","mode":"test_suite","version":"1","evaluator":{"name":"e"},"execution_plan":{"total_samples":1.5},"metrics_schema":[]}"#,
        r#"{"type":"handshake","mode":"test_suite","version":"1","evaluator":{"name":"e"},"execution_plan":{"total_samples":4294967296},"metrics_schema":[]}"#,
        r#"{"type":"handshake","mode":"test_suite","version":"1","evaluator":{"name":"e","description":5},"metrics_schema":[]}"#,
    ];
    for case in cases {
        assert_eq!(parse_handshake(case).unwrap_err(), HandshakeError::InvalidShape, "{}", case);
    }
}

#[test]
fn optional_fields_may_be_missing_or_null() {
    let line = r#"{"type":"handshake","mode":"online_collection","version":" 3 ","evaluator":{"name":"e","description":null,"version":"0.1","extra":true},"execution_plan":null,"metrics_schema":[{"name":"m","unit":null,"type":"gauge"}],"more":[1]}"#;
    let h = parse_handshake(line).unwrap();
    assert_eq!(h.mode, EvaluationMode::OnlineCollection);
    assert_eq!(h.version.as_ref(), "3");
    assert!(h.evaluator.description.is_none());
    assert_eq!(h.evaluator.version.as_deref(), Some("0.1"));
    assert!(h.execution_plan.is_none());
    assert!(h.metrics_schema[0].unit.is_none());
    assert!(h.metrics_schema[0].description.is_none());
}

#[test]
fn a_field_out_of_bounds_fails_validation() {
    let line = r#"{"type":"handshake","mode":"continuous","version":"1","evaluator":{"name":"e"},"execution_plan":{"total_samples":0},"metrics_schema":[]}"#;
    assert_eq!(
        parse_handshake(line).unwrap_err(),
        HandshakeError::Validation(ValidationError::InvalidTotalSamples(NumberError::NotPositive))
    );
    let line = r#"{"type":"handshake","mode":"continuous","version":"1","evaluator":{"name":"  "},"metrics_schema":[]}"#;
    let error = parse_handshake(line).unwrap_err();
    assert_eq!(error, HandshakeError::Validation(ValidationError::EmptyEvaluatorName));
    assert_eq!(error.message(), "handshake validation failed: evaluator name cannot be empty");
}

#[test]
fn a_document_is_read_as_a_handshake() {
    let doc = Json::Object(vec![
        ("type".to_string(), Json::String("handshake".to_string())),
        ("mode".to_string(), Json::String("test_suite".to_string())),
        ("version".to_string(), Json::String("1.0".to_string())),
        (
            "evaluator".to_string(),
            Json::Object(vec![("name".to_string(), Json::String("e".to_string()))]),
        ),
        ("metrics_schema".to_string(), Json::Array(vec![])),
    ]);
    let h = handshake_from_json(&doc).unwrap();
    assert_eq!(h.version.as_ref(), "1.0");
    assert_eq!(h.planned_samples(), None);
    assert_eq!(handshake_from_json(&Json::Null).unwrap_err(), HandshakeError::InvalidMessageType);
}

#[test]
fn validation_errors_read_well() {
    assert_eq!(
        ValidationError::InvalidVersion(TextError::Empty).message(),
        "protocol version is invalid: value is empty"
    );
    assert_eq!(
        ValidationError::InvalidBatchSize(NumberError::NotPositive).message(),
        "batch size is invalid: value must be greater than 0"
    );
    assert_eq!(
        HandshakeError::InvalidMessageType.message(),
        "invalid message type: expected 'handshake'"
    );
}

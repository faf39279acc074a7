use preval::double::Double;
use preval::evaluator::parser::parse_metrics_line;
use preval::json::{Json, JsonInteger, JsonNumber};
use preval::evaluator::protocol::{
    EvaluationMode, EvaluatorInfo, ExecutionPlan, Handshake, ValidatedHandshake,
};
use preval::state::app::{AppState, StateError};
use preval::state::clock::saturating_nanos;
use preval::state::metrics::{
    AttributeMap, CounterValue, CounterValueError, DataPoint, GaugeValue, Metric, MetricData,
    MetricName, NonNegativeF64, SampleMetric, SummaryMetric, TimeUnixNano,
};
use preval::state::types::{
    EtaCalculator, EvaluationStatus, EvaluatorCommand, EvaluatorName, JsonValidationError,
    SampleResult, SampleStatus, SampleValue, TerminalSize, TerminalSizeError, ValidJson,
};
use preval::text::TextError;

fn double(f: f64) -> Double {
    Double::from_bits(f.to_bits())
}

fn create_test_handshake() -> ValidatedHandshake {
    let handshake = Handshake {
        msg_type: "handshake".to_string(),
        mode: EvaluationMode::TestSuite,
        version: "1.0".to_string(),
        evaluator: EvaluatorInfo {
            name: "test-evaluator".to_string(),
            description: None,
            version: None,
        },
        execution_plan: Some(ExecutionPlan { total_samples: 10, batch_size: None }),
        metrics_schema: vec![],
    };
    ValidatedHandshake::parse(handshake).unwrap()
}

fn collecting() -> AppState {
    let mut state = AppState::new();
    state.set_handshake(create_test_handshake()).unwrap();
    state.start_collecting().unwrap();
    state
}

fn sample_line(id: &str, value: f64) -> String {
    format!(
        r#"{{"resourceMetrics":[{{"scopeMetrics":[{{"metrics":[{{"name":"acc","gauge":{{"dataPoints":[{{"timeUnixNano":"1","asDouble":{},"attributes":[{{"key":"sample.id","value":{{"stringValue":"{}"}}}}]}}]}}}}]}}]}}]}}"#,
        value, id
    )
}

const SUMMARY_LINE: &str = r#"{"resourceMetrics":[{"scopeMetrics":[{"metrics":[{"name":"acc","gauge":{"dataPoints":[{"timeUnixNano":"1","asDouble":0.81,"attributes":[{"key":"summary","value":{"boolValue":true}},{"key":"sample.id","value":{"stringValue":"s"}}]}]}}]}]}]}"#;

#[test]
fn test_typestate_progression() {
    let mut state = AppState::new();
    assert!(state.evaluator_name().is_none());

    let name = EvaluatorName::try_new("test-evaluator").unwrap();
    state.set_evaluator_name(name).unwrap();
    assert!(state.evaluator_name().is_some());

    // Create a minimal valid handshake
    let handshake = create_test_handshake();
    state.set_handshake(handshake).unwrap();
    assert!(state.handshake().is_some());

    state.start_collecting().unwrap();
    // Now we can add metrics
    let metrics = MetricData { resource_attributes: AttributeMap::new(), metrics: vec![] };
    state.add_metrics(metrics).unwrap();
}

#[test]
fn test_mutually_exclusive_metric_types_demonstrate_type_safety() {
    let sample_metric = Metric::Sample(SampleMetric::Gauge {
        name: MetricName::try_new("accuracy").unwrap(),
        unit: None,
        data_points: vec![DataPoint {
            timestamp: TimeUnixNano::try_new(1234567890).unwrap(),
            value: GaugeValue::new(double(0.85)),
            attributes: AttributeMap::new(),
        }],
    });

    let summary_metric = Metric::Summary(SummaryMetric::Gauge {
        name: MetricName::try_new("accuracy").unwrap(),
        unit: None,
        data_points: vec![DataPoint {
            timestamp: TimeUnixNano::try_new(1234567890).unwrap(),
            value: GaugeValue::new(double(0.81)),
            attributes: AttributeMap::new(),
        }],
    });

    assert!(sample_metric.counts_toward_progress());
    assert!(!summary_metric.counts_toward_progress());
}

#[test]
fn a_name_and_a_handshake_are_set_once() {
    let mut state = AppState::new();
    assert_eq!(state.set_evaluator_name(EvaluatorName::try_new(" one ").unwrap()), Ok(()));
    assert_eq!(
        state.set_evaluator_name(EvaluatorName::try_new("two").unwrap()),
        Err(StateError::AlreadySet)
    );
    assert_eq!(state.evaluator_name().map(|n| n.as_ref()), Some("one"));
    assert_eq!(state.set_handshake(create_test_handshake()), Ok(()));
    assert_eq!(state.set_handshake(create_test_handshake()), Err(StateError::AlreadySet));
    assert_eq!(*state.status(), EvaluationStatus::Starting);
}

#[test]
fn starting_follows_nothing_and_nothing_follows_the_end() {
    let mut state = AppState::new();
    assert_eq!(state.update_status(EvaluationStatus::Starting), Err(StateError::InvalidTransition));
    assert_eq!(state.update_status(EvaluationStatus::WaitingForHandshake), Ok(()));
    assert_eq!(state.update_status(EvaluationStatus::Starting), Err(StateError::InvalidTransition));
    assert_eq!(
        state.update_status(EvaluationStatus::CollectingMetrics { received: 3, total: None }),
        Ok(())
    );
    assert_eq!(state.update_status(EvaluationStatus::Starting), Err(StateError::InvalidTransition));
    assert_eq!(state.update_status(EvaluationStatus::WaitingForHandshake), Ok(()));
    assert!(!state.is_terminal());
    assert_eq!(state.update_status(EvaluationStatus::Completed), Ok(()));
    assert!(state.is_terminal());
    assert_eq!(state.update_status(EvaluationStatus::Starting), Err(StateError::InvalidTransition));
    assert_eq!(
        state.update_status(EvaluationStatus::Failed("late".to_string())),
        Err(StateError::TerminalState)
    );
    assert_eq!(state.update_status(EvaluationStatus::Completed), Err(StateError::TerminalState));
    assert_eq!(*state.status(), EvaluationStatus::Completed);

    let mut state = AppState::new();
    assert_eq!(state.finish(EvaluationStatus::Failed("why".to_string())), Ok(()));
    assert_eq!(*state.status(), EvaluationStatus::Failed("why".to_string()));
    assert_eq!(state.update_status(EvaluationStatus::WaitingForHandshake), Err(StateError::TerminalState));
    assert_eq!(state.start_collecting(), Err(StateError::TerminalState));
    assert_eq!(StateError::TerminalState.message(), "cannot transition from terminal state");
}

#[test]
fn metrics_are_taken_only_while_collecting() {
    let statuses = [
        None,
        Some(EvaluationStatus::WaitingForHandshake),
        Some(EvaluationStatus::Completed),
        Some(EvaluationStatus::Failed("x".to_string())),
    ];
    for status in statuses {
        let mut state = AppState::new();
        if let Some(status) = status {
            state.update_status(status).unwrap();
        }
        let metrics = parse_metrics_line(&sample_line("s", 1.0)).unwrap();
        assert_eq!(state.add_metrics(metrics), Err(StateError::NotCollecting));
        assert_eq!(state.metrics().len(), 0);
        assert_eq!(state.progress(), (0, None));
    }
    let mut state = AppState::new();
    state.update_status(EvaluationStatus::CollectingMetrics { received: 0, total: None }).unwrap();
    assert_eq!(state.add_metrics(parse_metrics_line(&sample_line("s", 1.0)).unwrap()), Ok(()));
    assert_eq!(*state.status(), EvaluationStatus::CollectingMetrics { received: 1, total: None });
}

#[test]
fn a_sample_counts_once_and_a_summary_never() {
    let mut state = collecting();
    assert_eq!(*state.status(), EvaluationStatus::CollectingMetrics { received: 0, total: Some(10) });

    state.add_metrics(parse_metrics_line(&sample_line("s1", 0.5)).unwrap()).unwrap();
    assert_eq!(state.progress(), (1, Some(10)));
    assert_eq!(*state.status(), EvaluationStatus::CollectingMetrics { received: 1, total: Some(10) });
    assert_eq!(state.current_sample(), Some("s1"));
    assert_eq!(state.recent_samples().len(), 1);

    state.add_metrics(parse_metrics_line(SUMMARY_LINE).unwrap()).unwrap();
    assert_eq!(state.progress(), (1, Some(10)));
    assert_eq!(*state.status(), EvaluationStatus::CollectingMetrics { received: 1, total: Some(10) });
    assert_eq!(state.current_sample(), Some("s1"));
    assert_eq!(state.recent_samples().len(), 1);
    assert_eq!(state.metrics().len(), 2);

    // A message without a sample identifier counts, and names no sample.
    let plain = r#"{"resourceMetrics":[{"scopeMetrics":[{"metrics":[{"name":"m","gauge":{"dataPoints":[{"timeUnixNano":"1","asDouble":1}]}}]}]}]}"#;
    state.add_metrics(parse_metrics_line(plain).unwrap()).unwrap();
    assert_eq!(state.progress(), (2, Some(10)));
    assert_eq!(state.current_sample(), Some("s1"));
    assert_eq!(state.recent_samples().len(), 1);

    // An empty message counts as well.
    state.add_metrics(MetricData { resource_attributes: AttributeMap::new(), metrics: vec![] }).unwrap();
    assert_eq!(state.progress(), (3, Some(10)));
    assert_eq!(state.metrics().len(), 4);
}

#[test]
fn a_sample_is_completed_with_what_its_message_reads() {
    let line = r#"{"resourceMetrics":[{"scopeMetrics":[{"metrics":[
        {"name":"sum.up","gauge":{"dataPoints":[{"timeUnixNano":"1","asDouble":9}]}},
        {"name":" acc ","gauge":{"dataPoints":[
            {"timeUnixNano":"1","asDouble":0.5,"attributes":[{"key":"sample.id","value":{"intValue":7}}]},
            {"timeUnixNano":"2","asDouble":0.75,"attributes":[{"key":"sample.id","value":{"stringValue":"first"}}]}]}},
        {"name":"tok","sum":{"isMonotonic":true,"dataPoints":[{"timeUnixNano":"1","asDouble":12,"attributes":[{"key":"sample.id","value":{"stringValue":"second"}}]}]}},
        {"name":"lat","histogram":{"dataPoints":[{"timeUnixNano":"1","count":"4","sum":10.0},{"timeUnixNano":"1","count":"0"}]}}
    ]}]}]}"#;
    let mut state = collecting();
    state.add_metrics(parse_metrics_line(line).unwrap()).unwrap();
    assert_eq!(state.current_sample(), Some("first"));
    let sample = &state.recent_samples()[0];
    assert_eq!(sample.sample_id, "first");
    assert_eq!(sample.status, SampleStatus::Completed);
    assert!(sample.completed_at.is_some());
    assert_eq!(
        sample.metrics,
        vec![
            ("sum.up".to_string(), SampleValue::Exact(double(9.0))),
            ("acc".to_string(), SampleValue::Exact(double(0.5))),
            ("acc".to_string(), SampleValue::Exact(double(0.75))),
            ("tok".to_string(), SampleValue::Exact(double(12.0))),
            ("lat".to_string(), SampleValue::Mean { sum: Some(double(10.0)), count: 4 }),
            ("lat".to_string(), SampleValue::Mean { sum: None, count: 0 }),
        ]
    );
    assert_eq!(state.summary_stats(), (0, 1));
}

#[test]
fn ten_samples_are_kept_for_display() {
    let mut state = collecting();
    assert_eq!(state.summary_stats(), (0, 0));
    for i in 0..13 {
        let id = format!("s{}", i % 12);
        state.add_metrics(parse_metrics_line(&sample_line(&id, i as f64)).unwrap()).unwrap();
        assert_eq!(state.recent_samples().len(), if i < 10 { i + 1 } else { 10 });
    }
    let ids: Vec<&str> = state.recent_samples().iter().map(|s| s.sample_id.as_str()).collect();
    assert_eq!(ids, vec!["s3", "s4", "s5", "s6", "s7", "s8", "s9", "s10", "s11", "s0"]);
    assert_eq!(
        state.recent_samples()[9].metrics,
        vec![("acc".to_string(), SampleValue::Exact(double(12.0)))]
    );
    assert_eq!(state.progress(), (13, Some(10)));
    assert_eq!(state.summary_stats(), (0, 10));
    assert_eq!(state.calculate_eta(), None);
}

#[test]
fn metrics_are_copied_whole() {
    let line = r#"{"resourceMetrics":[{"resource":{"attributes":[{"key":"k","value":{"kvlistValue":{"values":[{"key":"a","value":{"arrayValue":{"values":[{"intValue":1},{"stringValue":"x"}]}}}]}}}]},"scopeMetrics":[{"metrics":[{"name":"h","histogram":{"dataPoints":[{"timeUnixNano":"1","count":"2","bucketCounts":["1","1"],"explicitBounds":[0.5]}]}}]}]}]}"#;
    let data = parse_metrics_line(line).unwrap();
    let copy = data.clone();
    assert_eq!(copy, data);
    assert_eq!(copy.resource_attributes.len(), 1);
    let mut eta = EtaCalculator::new();
    eta.record_progress_at(1, 1);
    eta.record_progress_at(3, 2);
    assert_eq!(eta.clone().eta_at(0, 2, 4), Some(4));
}

#[test]
fn a_state_begins_empty() {
    let state = AppState::default();
    assert_eq!(*state.status(), EvaluationStatus::Starting);
    assert!(state.evaluator_name().is_none());
    assert!(state.handshake().is_none());
    assert_eq!(state.metrics().len(), 0);
    assert_eq!(state.progress(), (0, None));
    assert_eq!(state.current_sample(), None);
    assert!(!state.is_paused());
    assert!(!state.is_terminal());
    assert_eq!(EtaCalculator::default().eta_at(5, 1, 2), Some(5));
}

#[test]
fn pause_is_a_mark_for_display() {
    let mut state = collecting();
    assert!(!state.is_paused());
    state.toggle_pause();
    assert!(state.is_paused());
    assert_eq!(state.add_metrics(parse_metrics_line(&sample_line("s", 1.0)).unwrap()), Ok(()));
    assert_eq!(state.progress().0, 1);
    state.toggle_pause();
    assert!(!state.is_paused());
}

#[test]
fn there_is_no_estimate_without_progress_or_a_plan() {
    let state = collecting();
    assert_eq!(state.calculate_eta(), None);
    let mut state = AppState::new();
    state.update_status(EvaluationStatus::CollectingMetrics { received: 0, total: None }).unwrap();
    state.add_metrics(parse_metrics_line(&sample_line("s", 1.0)).unwrap()).unwrap();
    assert_eq!(state.calculate_eta(), None);
    let _ = state.elapsed_time();
}

#[test]
fn the_estimate_follows_the_rate() {
    let mut eta = EtaCalculator::new();
    // Nothing completed, or all completed: no estimate.
    assert_eq!(eta.eta_at(1_000, 0, 10), None);
    assert_eq!(eta.eta_at(1_000, 10, 10), None);
    assert_eq!(eta.eta_at(1_000, 11, 10), None);
    assert_eq!(eta.calculate_eta(0, 10), None);
    assert_eq!(eta.calculate_eta(10, 10), None);
    // Fewer than two entries: the rate since the start.
    assert_eq!(eta.eta_at(0, 2, 10), None);
    assert_eq!(eta.eta_at(4_000_000_000, 2, 10), Some(16_000_000_000));
    eta.record_progress_at(1_000_000_000, 1);
    assert_eq!(eta.eta_at(3_000_000_000, 3, 10), Some(7_000_000_000));
    assert_eq!(eta.eta_at(10, 3, 10), Some(23));
    // Two entries and more: the rate between the oldest and the newest.
    eta.record_progress_at(3_000_000_000, 5);
    assert_eq!(eta.eta_at(0, 5, 10), Some(2_500_000_000));
    assert_eq!(eta.calculate_eta(5, 10), Some(2_500_000_000));
    assert_eq!(eta.calculate_eta(5, 5), None);
    eta.record_progress_at(3_000_000_000, 5);
    assert_eq!(eta.eta_at(77, 5, 7), Some(1_000_000_000));
    // No gain in time or in samples: no estimate.
    let mut flat = EtaCalculator::new();
    flat.record_progress_at(5, 1);
    flat.record_progress_at(5, 2);
    assert_eq!(flat.eta_at(9, 2, 4), None);
    let mut flat = EtaCalculator::new();
    flat.record_progress_at(5, 2);
    flat.record_progress_at(6, 2);
    assert_eq!(flat.eta_at(9, 2, 4), None);
    let mut flat = EtaCalculator::new();
    flat.record_progress_at(7, 1);
    flat.record_progress_at(6, 2);
    assert_eq!(flat.eta_at(9, 2, 4), None);
}

#[test]
fn the_estimate_looks_back_on_ten_entries() {
    let mut eta = EtaCalculator::new();
    for i in 0..11u64 {
        eta.record_progress_at(i * i * 1_000, i as usize);
    }
    // The oldest entry left is (1_000, 1), the newest (100_000, 10).
    assert_eq!(eta.eta_at(0, 10, 19), Some(99_000));
    eta.record_progress(11);
    let _ = eta.elapsed();
    assert_eq!(eta.eta_at(0, 11, 11), None);
    assert_eq!(eta.eta_at(0, usize::MAX - 1, usize::MAX), eta.calculate_eta(usize::MAX - 1, usize::MAX));
}

#[test]
fn nanoseconds_are_held_in_sixty_four_bits() {
    assert_eq!(saturating_nanos(0), 0);
    assert_eq!(saturating_nanos(1_500_000_000), 1_500_000_000);
    assert_eq!(saturating_nanos(u64::MAX as u128), u64::MAX);
    assert_eq!(saturating_nanos(u64::MAX as u128 + 1), u64::MAX);
    assert_eq!(saturating_nanos(u128::MAX), u64::MAX);
}

#[test]
fn large_numbers_do_not_overflow() {
    let mut eta = EtaCalculator::new();
    assert_eq!(
        eta.eta_at(u64::MAX, 1, usize::MAX),
        Some((usize::MAX as u128 - 1) * (u64::MAX as u128))
    );
    eta.record_progress_at(0, 0);
    eta.record_progress_at(u64::MAX, 1);
    assert_eq!(
        eta.eta_at(0, 1, usize::MAX),
        Some((usize::MAX as u128 - 1) * (u64::MAX as u128))
    );
}

#[test]
fn names_are_trimmed_and_bounded() {
    assert_eq!(EvaluatorName::try_new("  a b  ").unwrap().as_ref(), "a b");
    assert_eq!(EvaluatorName::try_new(" \n ").unwrap_err(), TextError::Empty);
    assert_eq!(EvaluatorName::try_new(&"x".repeat(256)).unwrap_err(), TextError::TooLong);
    assert_eq!(EvaluatorName::try_new(&"\u{e9}".repeat(255)).unwrap().as_ref().chars().count(), 255);
    assert_eq!(EvaluatorName::try_new("n").unwrap().clone().into_inner(), "n");
    assert_eq!(EvaluatorCommand::try_new(&" x ".repeat(200)).unwrap().as_ref().len(), 598);
    assert_eq!(EvaluatorCommand::try_new("\u{3000}").unwrap_err(), TextError::Empty);
    assert_eq!(TextError::TooLong.message(), "value is too long");
}

#[test]
fn a_terminal_has_a_width_and_a_height() {
    let size = TerminalSize::try_new(80, 24).unwrap();
    assert_eq!((size.width(), size.height()), (80, 24));
    assert_eq!(TerminalSize::try_new(0, 24).unwrap_err(), TerminalSizeError::InvalidWidth);
    assert_eq!(TerminalSize::try_new(80, 0).unwrap_err(), TerminalSizeError::InvalidHeight);
    assert_eq!(TerminalSize::try_new(0, 0).unwrap_err(), TerminalSizeError::InvalidWidth);
    assert_eq!(
        TerminalSizeError::InvalidHeight.message(),
        "terminal height must be greater than 0"
    );
}

#[test]
fn valid_json_is_json() {
    let valid = ValidJson::try_new(r#" {"a": [1, 2.5, -3, null, true, "x"]} "#.to_string()).unwrap();
    assert_eq!(valid.as_str(), r#" {"a": [1, 2.5, -3, null, true, "x"]} "#);
    assert_eq!(
        valid.parse(),
        Json::Object(vec![(
            "a".to_string(),
            Json::Array(vec![
                Json::Number(JsonNumber { integer: JsonInteger::Unsigned(1), double: double(1.0) }),
                Json::Number(JsonNumber { integer: JsonInteger::Fractional, double: double(2.5) }),
                Json::Number(JsonNumber { integer: JsonInteger::Negative(-3), double: double(-3.0) }),
                Json::Null,
                Json::Bool(true),
                Json::String("x".to_string()),
            ])
        )])
    );
    assert_eq!(valid.into_string().len(), 38);
    match ValidJson::try_new("{".to_string()) {
        Err(JsonValidationError::MalformedJson(msg)) => {
            assert!(msg.contains("EOF"));
            assert!(JsonValidationError::MalformedJson(msg).message().starts_with("malformed JSON: "));
        }
        Ok(_) => panic!("accepted"),
    }
}

#[test]
fn counters_take_what_is_not_negative() {
    let v = NonNegativeF64::try_new(double(2.0)).unwrap();
    assert_eq!(CounterValue::new(v).value(), double(2.0));
    assert!(NonNegativeF64::try_new(double(-2.0)).is_none());
    assert_eq!(CounterValue::try_new(double(-2.0)).unwrap_err(), CounterValueError::MustBeNonNegative);
    assert_eq!(CounterValueError::NotFinite.message(), "counter value must be finite");
    assert!(Double::positive_infinity().is_nan() == false);
    assert!(!Double::positive_infinity().is_finite());
    assert!(double(f64::NAN).is_nan());
    assert!(double(-0.0).is_zero() && !double(-0.0).is_negative());
    assert!(double(-f64::MIN_POSITIVE).is_negative());
}

#[test]
fn samples_are_marked() {
    let mut sample = SampleResult::new_processing("s".to_string());
    assert_eq!(sample.status, SampleStatus::Processing);
    assert!(sample.completed_at.is_none());
    sample.mark_failed("broke".to_string());
    assert_eq!(sample.status, SampleStatus::Failed("broke".to_string()));
    assert!(sample.completed_at.is_some());
    sample.mark_completed(vec![("m".to_string(), SampleValue::Exact(double(1.0)))]);
    assert_eq!(sample.status, SampleStatus::Completed);
    let copy = sample.clone();
    assert_eq!(copy.status, sample.status);
    assert_eq!(copy.metrics, sample.metrics);
    assert_eq!(copy.completed_at, sample.completed_at);
}

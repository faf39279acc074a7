use preval::evaluator::handshake::parse_handshake;
use preval::state::types::{EvaluationStatus, EvaluatorName};
use preval::ui::display::{format_duration, shortcuts, status_line, subtitle, title};

#[test]
fn a_time_is_shown_in_minutes_and_seconds() {
    assert_eq!(format_duration(0), "0:00");
    assert_eq!(format_duration(9), "0:09");
    assert_eq!(format_duration(10), "0:10");
    assert_eq!(format_duration(59), "0:59");
    assert_eq!(format_duration(60), "1:00");
    assert_eq!(format_duration(61), "1:01");
    assert_eq!(format_duration(3599), "59:59");
    assert_eq!(format_duration(3600), "60:00");
    assert_eq!(format_duration(u64::MAX), "307445734561825860:15");
}

#[test]
fn a_status_is_shown_in_words() {
    assert_eq!(status_line(&EvaluationStatus::Starting), "Status: Starting evaluator...");
    assert_eq!(
        status_line(&EvaluationStatus::WaitingForHandshake),
        "Status: Waiting for handshake..."
    );
    assert_eq!(
        status_line(&EvaluationStatus::CollectingMetrics { received: 3, total: Some(10) }),
        "Status: Collecting metrics... (3/10)"
    );
    assert_eq!(
        status_line(&EvaluationStatus::CollectingMetrics { received: 12, total: None }),
        "Status: Collecting metrics... (12)"
    );
    assert_eq!(status_line(&EvaluationStatus::Completed), "Status: Evaluation completed");
    assert_eq!(
        status_line(&EvaluationStatus::Failed("it broke".to_string())),
        "Status: Failed - it broke"
    );
}

#[test]
fn the_header_names_the_evaluator() {
    let line = r#"{"type":"handshake","mode":"test_suite","version":"1.0","evaluator":{"name":"mock","description":" Mock evaluator "},"metrics_schema":[]}"#;
    let described = parse_handshake(line).unwrap();
    let line = r#"{"type":"handshake","mode":"test_suite","version":" 2 ","evaluator":{"name":"plain"},"metrics_schema":[]}"#;
    let plain = parse_handshake(line).unwrap();
    let name = EvaluatorName::try_new("cargo run").unwrap();

    assert_eq!(title(None, None), "PrEval");
    assert_eq!(title(None, Some(&name)), "PrEval - cargo run");
    assert_eq!(title(Some(&described), Some(&name)), "PrEval - mock");
    assert_eq!(title(Some(&plain), None), "PrEval - plain");
    assert_eq!(subtitle(&described), "Mock evaluator  \u{2022}  Protocol v1.0");
    assert_eq!(subtitle(&plain), "Protocol v2");
}

#[test]
fn the_footer_names_the_keys() {
    assert_eq!(shortcuts(false), "[q] Quit  [Space] Pause  [Ctrl+L] Refresh");
    assert_eq!(shortcuts(true), "[q] Quit  [Space] Resume  [Ctrl+L] Refresh");
}

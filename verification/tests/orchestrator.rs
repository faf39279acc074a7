use preval::app::{App, Event, StartError, Step};
use preval::evaluator::process::{EvaluatorMessage, ExitStatus};
use preval::state::app::StateError;
use preval::state::types::{EvaluationStatus, TerminalSize, UiAction, Action};
use preval::text::TextError;

const HANDSHAKE: &str = r#"{"type":"handshake","mode":"test_suite","version":"1.0","evaluator":{"name":"mock-evaluator"},"execution_plan":{"total_samples":2},"metrics_schema":[]}"#;

const SECOND: u64 = 1_000_000_000;

fn output(line: &str) -> Event {
    Event::Evaluator(Some(EvaluatorMessage::Output(line.to_string())))
}

fn exited(success: bool, code: Option<i32>) -> Event {
    Event::Evaluator(Some(EvaluatorMessage::Exited(ExitStatus::new(success, code))))
}

fn begun() -> App {
    let mut app = App::new(Some("mock --fast".to_string()));
    let command = app.begin().unwrap().unwrap();
    assert_eq!(command.as_ref(), "mock --fast");
    app
}

fn failure(app: &App) -> String {
    match app.state().status() {
        EvaluationStatus::Failed(reason) => reason.clone(),
        other => panic!("not failed: {:?}", other),
    }
}

#[test]
fn a_handshake_and_a_good_end_complete_the_evaluation() {
    let mut app = App::new(Some(" mock ".to_string()));
    assert_eq!(*app.state().status(), EvaluationStatus::Starting);
    assert_eq!(app.begin().unwrap().unwrap().as_ref(), "mock");
    assert_eq!(*app.state().status(), EvaluationStatus::WaitingForHandshake);
    assert_eq!(app.state().evaluator_name().map(|n| n.as_ref()), Some("mock"));

    assert_eq!(app.handle(output(HANDSHAKE), SECOND), Ok(Step::Continue));
    assert_eq!(
        *app.state().status(),
        EvaluationStatus::CollectingMetrics { received: 0, total: Some(2) }
    );
    assert!(app.handshake_received());
    assert_eq!(app.state().handshake().unwrap().evaluator.name, "mock-evaluator");

    assert_eq!(app.handle(exited(true, Some(0)), 2 * SECOND), Ok(Step::Linger));
    assert_eq!(*app.state().status(), EvaluationStatus::Completed);
}

#[test]
fn silence_is_a_timeout() {
    let mut app = begun();
    assert_eq!(app.handle(Event::Tick, SECOND), Ok(Step::Continue));
    assert_eq!(app.handle(Event::Tick, 5 * SECOND), Ok(Step::Continue));
    assert_eq!(*app.state().status(), EvaluationStatus::WaitingForHandshake);
    assert_eq!(app.handle(Event::Tick, 5 * SECOND + 1), Ok(Step::Linger));
    assert_eq!(failure(&app), "Handshake timeout: no valid handshake received within 5 seconds");
    assert!(failure(&app).to_lowercase().contains("timeout"));
    assert_eq!(app.state().metrics().len(), 0);
}

#[test]
fn a_line_that_is_no_handshake_is_waited_out() {
    let mut app = begun();
    assert_eq!(app.handle(output("Compiling mock v0.1.0"), SECOND), Ok(Step::Continue));
    assert_eq!(app.handle(output(r#"{"resourceMetrics":[]}"#), 5 * SECOND), Ok(Step::Continue));
    assert_eq!(*app.state().status(), EvaluationStatus::WaitingForHandshake);
    assert!(!app.handshake_received());
    assert_eq!(app.handle(output("still nothing"), 6 * SECOND), Ok(Step::Linger));
    assert!(failure(&app).contains("timeout"));

    // A handshake is taken however late it comes, if nothing has failed before.
    let mut app = begun();
    assert_eq!(app.handle(output(HANDSHAKE), 60 * SECOND), Ok(Step::Continue));
    assert_eq!(app.handle(Event::Tick, 61 * SECOND), Ok(Step::Continue));
    assert!(!app.state().is_terminal());
}

#[test]
fn an_end_before_the_handshake_is_a_failure() {
    let mut app = begun();
    assert_eq!(app.handle(exited(true, Some(0)), 0), Ok(Step::Linger));
    assert_eq!(failure(&app), "Evaluator exited before sending handshake");
    assert!(failure(&app).contains("before sending handshake"));

    let mut app = begun();
    assert_eq!(app.handle(Event::Evaluator(None), 0), Ok(Step::Linger));
    assert_eq!(failure(&app), "Evaluator terminated before handshake");
    assert!(failure(&app).contains("terminated before handshake"));
    // Once the evaluation has ended, the news changes nothing.
    assert_eq!(app.handle(Event::Evaluator(None), 0), Ok(Step::Linger));
    assert_eq!(failure(&app), "Evaluator terminated before handshake");
}

#[test]
fn an_end_after_the_handshake_tells_how() {
    let mut app = begun();
    app.handle(output(HANDSHAKE), 0).unwrap();
    assert_eq!(app.handle(exited(false, Some(3)), 0), Ok(Step::Linger));
    assert_eq!(failure(&app), "Evaluator exited with code Some(3)");

    let mut app = begun();
    app.handle(output(HANDSHAKE), 0).unwrap();
    app.handle(exited(false, Some(-11)), 0).unwrap();
    assert_eq!(failure(&app), "Evaluator exited with code Some(-11)");

    let mut app = begun();
    app.handle(output(HANDSHAKE), 0).unwrap();
    app.handle(exited(false, Some(i32::MIN)), 0).unwrap();
    assert_eq!(failure(&app), "Evaluator exited with code Some(-2147483648)");

    let mut app = begun();
    app.handle(output(HANDSHAKE), 0).unwrap();
    app.handle(Event::Evaluator(Some(EvaluatorMessage::Exited(ExitStatus::unknown()))), 0).unwrap();
    assert_eq!(failure(&app), "Evaluator exited with code None");

    let mut app = begun();
    app.handle(output(HANDSHAKE), 0).unwrap();
    assert_eq!(app.handle(Event::Evaluator(None), 0), Ok(Step::Linger));
    assert_eq!(failure(&app), "Evaluator terminated unexpectedly");
}

#[test]
fn a_sum_that_is_not_monotonic_is_dropped() {
    let mut app = begun();
    app.handle(output(HANDSHAKE), 0).unwrap();
    let line = r#"{"resourceMetrics":[{"scopeMetrics":[{"metrics":[{"name":"test.sum","sum":{"dataPoints":[{"timeUnixNano":"1234567890000000000","asDouble":10.0}],"isMonotonic":false}}]}]}]}"#;
    assert_eq!(app.handle(output(line), SECOND), Ok(Step::Continue));
    assert_eq!(
        *app.state().status(),
        EvaluationStatus::CollectingMetrics { received: 0, total: Some(2) }
    );
    assert_eq!(app.state().metrics().len(), 0);
    assert_eq!(app.handle(output("stderr: warning"), 9 * SECOND), Ok(Step::Continue));
    assert!(!app.state().is_terminal());
}

#[test]
fn a_summary_is_kept_and_does_not_count() {
    let mut app = begun();
    app.handle(output(HANDSHAKE), 0).unwrap();
    let line = r#"{"resourceMetrics":[{"scopeMetrics":[{"metrics":[{"name":"llm.eval.accuracy","unit":"ratio","gauge":{"dataPoints":[{"timeUnixNano":"1","asDouble":0.81,"attributes":[{"key":"summary","value":{"boolValue":true}}]}]}}]}]}]}"#;
    assert_eq!(app.handle(output(line), SECOND), Ok(Step::Continue));
    assert_eq!(app.state().metrics().len(), 1);
    assert_eq!(app.state().progress(), (0, Some(2)));
    assert_eq!(
        *app.state().status(),
        EvaluationStatus::CollectingMetrics { received: 0, total: Some(2) }
    );
    assert_eq!(app.state().recent_samples().len(), 0);
    assert_eq!(app.state().current_sample(), None);
}

#[test]
fn samples_are_counted_as_they_come() {
    let mut app = begun();
    app.handle(output(HANDSHAKE), 0).unwrap();
    for (i, id) in ["sample-001", "sample-002"].iter().enumerate() {
        let line = format!(
            r#"{{"resourceMetrics":[{{"scopeMetrics":[{{"metrics":[{{"name":"acc","gauge":{{"dataPoints":[{{"timeUnixNano":"1","asDouble":0.5,"attributes":[{{"key":"sample.id","value":{{"stringValue":"{}"}}}}]}}]}}}}]}}]}}]}}"#,
            id
        );
        assert_eq!(app.handle(output(&line), SECOND), Ok(Step::Continue));
        assert_eq!(
            *app.state().status(),
            EvaluationStatus::CollectingMetrics { received: i + 1, total: Some(2) }
        );
        assert_eq!(app.state().current_sample(), Some(*id));
    }
    // A second handshake is a line like any other after the first.
    assert_eq!(app.handle(output(HANDSHAKE), SECOND), Ok(Step::Continue));
    assert_eq!(app.state().progress(), (2, Some(2)));
}

#[test]
fn the_user_is_heard() {
    let mut app = begun();
    assert_eq!(app.handle(Event::Ui(Some(UiAction::TogglePause)), 0), Ok(Step::Continue));
    assert!(app.state().is_paused());
    assert_eq!(app.handle(Event::Ui(Some(UiAction::Refresh)), 0), Ok(Step::Continue));
    let size = TerminalSize::try_new(120, 40).unwrap();
    assert_eq!(app.handle(Event::Ui(Some(UiAction::Resize(size))), 0), Ok(Step::Continue));
    assert!(app.state().is_paused());
    assert_eq!(*app.state().status(), EvaluationStatus::WaitingForHandshake);
    assert_eq!(app.handle(Event::Ui(Some(UiAction::Quit)), 0), Ok(Step::Stop));
    assert_eq!(app.handle(Event::Ui(None), 9 * SECOND), Ok(Step::Stop));
    assert_eq!(*app.state().status(), EvaluationStatus::WaitingForHandshake);
    assert_eq!(UiAction::Quit.description(), "quit");
    assert_eq!(UiAction::Resize(size).description(), "resize");
    assert_eq!(UiAction::TogglePause.description(), "toggle pause");
    assert_eq!(UiAction::Refresh.description(), "refresh");
}

#[test]
fn nothing_follows_the_end() {
    let mut app = begun();
    app.handle(output(HANDSHAKE), 0).unwrap();
    app.handle(exited(true, None), 0).unwrap();
    assert_eq!(app.handle(exited(false, Some(1)), 0), Err(StateError::TerminalState));
    assert_eq!(*app.state().status(), EvaluationStatus::Completed);
    assert_eq!(app.handle(Event::Tick, 99 * SECOND), Ok(Step::Linger));
    let line = r#"{"resourceMetrics":[]}"#;
    assert_eq!(app.handle(output(line), 0), Err(StateError::NotCollecting));
    assert_eq!(app.handle(Event::Ui(Some(UiAction::TogglePause)), 0), Ok(Step::Linger));

    let mut app = begun();
    app.handle(Event::Tick, 6 * SECOND).unwrap();
    assert_eq!(app.handle(output(HANDSHAKE), 7 * SECOND), Err(StateError::TerminalState));
    assert!(app.handshake_received());
    assert!(failure(&app).contains("timeout"));
    assert_eq!(app.handle(output("x"), 7 * SECOND), Ok(Step::Linger));
    assert_eq!(
        app.handle(output(r#"{"resourceMetrics":[]}"#), 7 * SECOND),
        Err(StateError::NotCollecting)
    );
}

#[test]
fn an_evaluation_begins_with_a_command() {
    let mut app = App::new(None);
    assert!(app.begin().unwrap().is_none());
    assert_eq!(*app.state().status(), EvaluationStatus::Starting);

    let mut app = App::new(Some("   ".to_string()));
    assert_eq!(app.begin().unwrap_err(), StartError::InvalidCommand(TextError::Empty));
    assert_eq!(*app.state().status(), EvaluationStatus::WaitingForHandshake);
    assert!(app.state().evaluator_name().is_none());
    assert_eq!(
        StartError::InvalidCommand(TextError::Empty).message(),
        "Invalid evaluator command: value is empty"
    );

    // A command too long for a name is still a command.
    let long = "x".repeat(300);
    let mut app = App::new(Some(long.clone()));
    assert_eq!(app.begin().unwrap().unwrap().as_ref(), long);
    assert!(app.state().evaluator_name().is_none());

    let mut app = begun();
    assert_eq!(app.begin().unwrap_err(), StartError::State(StateError::AlreadySet));
}

//! The decisions of the loop that runs an evaluation: what each event does to the
//! state, and whether the loop goes on.

use vstd::prelude::*;
use vstd::string::*;
use crate::evaluator::handshake::{line_reads_as_handshake, parse_handshake, HandshakeError};
use crate::evaluator::parser::{line_reads_as_metrics, parse_metrics_line, MetricsError};
use crate::evaluator::process::{EvaluatorMessage, ExitStatus};
use crate::evaluator::protocol::ValidatedHandshake;
use crate::json::optional_text;
use crate::state::app::{AppState, StateError};
use crate::state::metrics::MetricData;
use crate::state::types::{
    EvaluationStatus, EvaluatorCommand, EvaluatorName, StatusView, UiAction,
};
use crate::text::{
    blank_text_error, bounded_text_error, render_i32, signed_decimal_text, trim, TextError,
};

verus! {

/// The nanoseconds that an evaluator has for its handshake.
pub const HANDSHAKE_TIMEOUT_NANOS: u64 = 5_000_000_000;

/// The nanoseconds for which the last state stays on display.
pub const GRACE_PERIOD_NANOS: u64 = 2_000_000_000;

/// The nanoseconds between two ticks.
pub const TICK_NANOS: u64 = 100_000_000;

/// The messages that a channel holds before its senders wait.
pub const CHANNEL_CAPACITY: usize = 100;

/// What the loop waits for.
#[derive(Debug)]
pub enum Event {
    /// The user asks for something, or can ask no more.
    Ui(Option<UiAction>),
    /// The evaluator sends something, or can send no more.
    Evaluator(Option<EvaluatorMessage>),
    /// Time has passed.
    Tick,
}

/// What the loop does after an event.
#[derive(Clone, Copy, Debug, PartialEq, Eq, Structural)]
pub enum Step {
    /// It waits for the next event.
    Continue,
    /// It ends at once.
    Stop,
    /// It shows the last state for the grace period, and ends.
    Linger,
}

/// Why an evaluation cannot begin.
#[derive(Clone, Copy, Debug, PartialEq, Eq, Structural)]
pub enum StartError {
    /// The state refuses the move.
    State(StateError),
    /// The command is blank.
    InvalidCommand(TextError),
}

/// Why an evaluation has failed for want of a handshake in time.
pub open spec fn timeout_reason() -> Seq<char> {
    "Handshake timeout: no valid handshake received within 5 seconds"@
}

/// Why an evaluation has failed when the evaluator ended before its handshake.
pub open spec fn early_exit_reason() -> Seq<char> {
    "Evaluator exited before sending handshake"@
}

/// Why an evaluation has failed when the evaluator was gone before its handshake.
pub open spec fn early_end_reason() -> Seq<char> {
    "Evaluator terminated before handshake"@
}

/// Why an evaluation has failed when the evaluator was gone after its handshake.
pub open spec fn late_end_reason() -> Seq<char> {
    "Evaluator terminated unexpectedly"@
}

/// Why an evaluation has failed when the evaluator did not end well.
pub open spec fn exit_reason(code: Option<i32>) -> Seq<char> {
    "Evaluator exited with code "@ + match code {
        Some(c) => "Some("@ + signed_decimal_text(c as int) + ")"@,
        None => "None"@,
    }
}

/// What the loop does when the status is `status`.
pub open spec fn step_at(status: StatusView) -> Step {
    if status.terminal() {
        Step::Linger
    } else {
        Step::Continue
    }
}

/// The status that follows the end of the evaluator.
pub open spec fn status_after_exit(handshake_seen: bool, status: ExitStatus) -> StatusView {
    if !handshake_seen {
        StatusView::Failed(early_exit_reason())
    } else if status.succeeded() {
        StatusView::Completed
    } else {
        StatusView::Failed(exit_reason(status.exit_code()))
    }
}

/// The status that follows when the evaluator can send no more.
pub open spec fn status_after_end(handshake_seen: bool) -> StatusView {
    if !handshake_seen {
        StatusView::Failed(early_end_reason())
    } else {
        StatusView::Failed(late_end_reason())
    }
}

/// An evaluation: the command that starts the evaluator, and the state.
#[derive(Debug)]
pub struct App {
    evaluator_command: Option<String>,
    state: AppState,
    handshake_received: bool,
}

impl App {
    /// The state is well formed, and a handshake is marked as seen when the state
    /// holds one.
    pub closed spec fn well_formed(self) -> bool {
        &&& self.state.well_formed()
        &&& self.handshake_received == self.state.accepted_handshake() is Some
    }

    /// The command that starts the evaluator, if there is one.
    pub closed spec fn command(self) -> Option<Seq<char>> {
        optional_text(self.evaluator_command)
    }

    /// The state of the evaluation.
    pub closed spec fn model(self) -> AppState {
        self.state
    }

    /// Whether a handshake has been seen.
    pub closed spec fn handshake_seen(self) -> bool {
        self.handshake_received
    }

    /// Whether `after` is `self` but for the status.
    pub open spec fn same_but_status(self, after: App) -> bool {
        &&& after.command() == self.command()
        &&& after.handshake_seen() == self.handshake_seen()
        &&& after.model().name() == self.model().name()
        &&& after.model().accepted_handshake() == self.model().accepted_handshake()
        &&& after.model().paused() == self.model().paused()
        &&& after.model().same_intake(self.model())
    }

    /// Whether `after` is `self` once its status has been asked to become `to`,
    /// and `r` is what the loop is told.
    pub open spec fn moved_to(self, to: StatusView, after: App, r: Result<Step,
        StateError>) -> bool {
        &&& self.same_but_status(after)
        &&& match AppState::transition_error(self.model().current_status(), to) {
            Some(e) => after.model().current_status() == self.model().current_status() && r
                == Err::<Step, StateError>(e),
            None => after.model().current_status() == to && r == Ok::<Step, StateError>(
                step_at(to),
            ),
        }
    }

    /// Whether `after` is `self` untouched, and the loop is told to go on as the
    /// status has it.
    pub open spec fn passed(self, after: App, r: Result<Step, StateError>) -> bool {
        after == self && r == Ok::<Step, StateError>(step_at(self.model().current_status()))
    }

    /// Whether `after` is `self` after an attempt to read a handshake.
    ///
    /// A handshake is kept, and the status becomes `CollectingMetrics` with nothing
    /// received, of as many samples as the handshake plans. After a line that was
    /// no handshake the evaluation fails if the time for the handshake is over,
    /// and nothing happens if it is not.
    pub open spec fn attempted_handshake(
        self,
        attempt: Result<ValidatedHandshake, HandshakeError>,
        waited_nanos: u64,
        after: App,
        r: Result<Step, StateError>,
    ) -> bool {
        match attempt {
            Ok(handshake) => if self.handshake_seen() {
                after == self && r == Err::<Step, StateError>(StateError::AlreadySet)
            } else {
                &&& after.command() == self.command()
                &&& after.handshake_seen()
                &&& after.model().name() == self.model().name()
                &&& after.model().accepted_handshake() == Some(handshake)
                &&& after.model().paused() == self.model().paused()
                &&& after.model().same_intake(self.model())
                &&& if self.model().current_status().terminal() {
                    &&& after.model().current_status() == self.model().current_status()
                    &&& r == Err::<Step, StateError>(StateError::TerminalState)
                } else {
                    &&& after.model().current_status() == (StatusView::CollectingMetrics {
                        received: 0,
                        total: handshake.total_samples(),
                    })
                    &&& r == Ok::<Step, StateError>(Step::Continue)
                }
            },
            Err(_) => if waited_nanos > HANDSHAKE_TIMEOUT_NANOS {
                self.moved_to(StatusView::Failed(timeout_reason()), after, r)
            } else {
                self.passed(after, r)
            },
        }
    }

    /// Whether `after` is `self` after an attempt to read a metrics message: the
    /// state is given a message that was read, and a line that was none is dropped.
    pub open spec fn attempted_metrics(
        self,
        attempt: Result<MetricData, MetricsError>,
        after: App,
        r: Result<Step, StateError>,
    ) -> bool {
        match attempt {
            Ok(metrics) => {
                &&& after.command() == self.command()
                &&& after.handshake_seen() == self.handshake_seen()
                &&& self.model().took_metrics(
                    metrics,
                    after.model(),
                    match r {
                        Ok(_) => Ok(()),
                        Err(e) => Err(e),
                    },
                )
                &&& r is Ok ==> r == Ok::<Step, StateError>(Step::Continue)
            },
            Err(_) => self.passed(after, r),
        }
    }

    /// Whether `after` is `self` after `event`, `waited_nanos` nanoseconds after
    /// the evaluator was started, and `r` is what the loop is told.
    pub open spec fn handled(
        self,
        event: Event,
        waited_nanos: u64,
        after: App,
        r: Result<Step, StateError>,
    ) -> bool {
        match event {
            Event::Ui(Some(UiAction::Quit)) => after == self && r == Ok::<Step, StateError>(
                Step::Stop,
            ),
            Event::Ui(None) => after == self && r == Ok::<Step, StateError>(Step::Stop),
            Event::Ui(Some(UiAction::TogglePause)) => {
                &&& after.command() == self.command()
                &&& after.handshake_seen() == self.handshake_seen()
                &&& after.model().name() == self.model().name()
                &&& after.model().accepted_handshake() == self.model().accepted_handshake()
                &&& after.model().current_status() == self.model().current_status()
                &&& after.model().paused() == !self.model().paused()
                &&& after.model().same_intake(self.model())
                &&& r == Ok::<Step, StateError>(step_at(self.model().current_status()))
            },
            Event::Ui(Some(_)) => self.passed(after, r),
            Event::Tick => if !self.handshake_seen() && waited_nanos > HANDSHAKE_TIMEOUT_NANOS {
                self.moved_to(StatusView::Failed(timeout_reason()), after, r)
            } else {
                self.passed(after, r)
            },
            Event::Evaluator(Some(EvaluatorMessage::Output(line))) => if !self.handshake_seen() {
                exists|attempt: Result<ValidatedHandshake, HandshakeError>|
                    #[trigger] line_reads_as_handshake(line@, attempt) && self.attempted_handshake(
                        attempt,
                        waited_nanos,
                        after,
                        r,
                    )
            } else {
                exists|attempt: Result<MetricData, MetricsError>|
                    #[trigger] line_reads_as_metrics(line@, attempt) && self.attempted_metrics(
                        attempt,
                        after,
                        r,
                    )
            },
            Event::Evaluator(Some(EvaluatorMessage::Exited(status))) => self.moved_to(
                status_after_exit(self.handshake_seen(), status),
                after,
                r,
            ),
            Event::Evaluator(None) => if self.model().current_status().terminal() {
                self.passed(after, r)
            } else {
                self.moved_to(status_after_end(self.handshake_seen()), after, r)
            },
        }
    }

    /// An evaluation that has not begun.
    pub fn new(evaluator_command: Option<String>) -> (r: App)
        ensures
            r.well_formed(),
            r.command() == optional_text(evaluator_command),
            !r.handshake_seen(),
            r.model().current_status() is Starting,
            r.model().name() is None,
            r.model().accepted_handshake() is None,
            !r.model().paused(),
            r.model().received() == 0,
            r.model().history().len() == 0,
            r.model().recent().len() == 0,
    {
        App { evaluator_command, state: AppState::new(), handshake_received: false }
    }

    /// The state of the evaluation.
    pub fn state(&self) -> (r: &AppState)
        ensures
            *r == self.model(),
    {
        &self.state
    }

    /// Whether a handshake has been seen.
    pub fn handshake_received(&self) -> (r: bool)
        ensures
            r == self.handshake_seen(),
    {
        self.handshake_received
    }

    /// Begins the evaluation, where there is a command: the evaluator is named
    /// after the command if that makes a name, the status becomes
    /// `WaitingForHandshake`, and the command to start is handed out.
    pub fn begin(&mut self) -> (r: Result<Option<EvaluatorCommand>, StartError>)
        requires
            old(self).well_formed(),
        ensures
            final(self).well_formed(),
            final(self).command() == old(self).command(),
            final(self).handshake_seen() == old(self).handshake_seen(),
            final(self).model().accepted_handshake() == old(self).model().accepted_handshake(),
            final(self).model().paused() == old(self).model().paused(),
            final(self).model().same_intake(old(self).model()),
            match old(self).command() {
                None => *final(self) == *old(self) && r matches Ok(None),
                Some(text) => {
                    let named = bounded_text_error(text, 255) is None;
                    let moves = AppState::transition_error(
                        old(self).model().current_status(),
                        StatusView::WaitingForHandshake,
                    );
                    if named && old(self).model().name() is Some {
                        *final(self) == *old(self) && r == Err::<
                            Option<EvaluatorCommand>,
                            StartError,
                        >(StartError::State(StateError::AlreadySet))
                    } else {
                        &&& if named {
                            final(self).model().name() matches Some(name) && name@ == trim(text)
                        } else {
                            final(self).model().name() == old(self).model().name()
                        }
                        &&& match moves {
                            Some(e) => {
                                &&& final(self).model().current_status()
                                    == old(self).model().current_status()
                                &&& r == Err::<Option<EvaluatorCommand>, StartError>(
                                    StartError::State(e),
                                )
                            },
                            None => {
                                &&& final(self).model().current_status() is WaitingForHandshake
                                &&& match blank_text_error(text) {
                                    Some(e) => r == Err::<Option<EvaluatorCommand>, StartError>(
                                        StartError::InvalidCommand(e),
                                    ),
                                    None => r matches Ok(Some(command)) && command@ == trim(text),
                                }
                            },
                        }
                    }
                },
            },
    {
        let cmd = match &self.evaluator_command {
            Some(cmd) => cmd.clone(),
            None => {
                return Ok(None);
            },
        };
        match EvaluatorName::try_new(cmd.as_str()) {
            Ok(name) => match self.state.set_evaluator_name(name) {
                Ok(_) => {},
                Err(e) => {
                    return Err(StartError::State(e));
                },
            },
            Err(_) => {},
        }
        match self.state.update_status(EvaluationStatus::WaitingForHandshake) {
            Ok(_) => {},
            Err(e) => {
                return Err(StartError::State(e));
            },
        }
        match EvaluatorCommand::try_new(cmd.as_str()) {
            Ok(command) => Ok(Some(command)),
            Err(e) => Err(StartError::InvalidCommand(e)),
        }
    }

    /// What the loop does when the status is as it is.
    fn step(&self) -> (r: Step)
        ensures
            r == step_at(self.model().current_status()),
    {
        if self.state.is_terminal() {
            Step::Linger
        } else {
            Step::Continue
        }
    }

    /// Asks the status to become `to`.
    fn move_to(&mut self, to: EvaluationStatus) -> (r: Result<Step, StateError>)
        requires
            old(self).well_formed(),
        ensures
            final(self).well_formed(),
            old(self).moved_to(to@, *final(self), r),
    {
        match self.state.update_status(to) {
            Ok(_) => Ok(self.step()),
            Err(e) => Err(e),
        }
    }

    /// Takes the result of an attempt to read a handshake from a line that came
    /// `waited_nanos` nanoseconds after the evaluator was started.
    pub fn on_handshake_attempt(
        &mut self,
        attempt: Result<ValidatedHandshake, HandshakeError>,
        waited_nanos: u64,
    ) -> (r: Result<Step, StateError>)
        requires
            old(self).well_formed(),
        ensures
            final(self).well_formed(),
            old(self).attempted_handshake(attempt, waited_nanos, *final(self), r),
    {
        match attempt {
            Ok(handshake) => {
                match self.state.set_handshake(handshake) {
                    Ok(_) => {},
                    Err(e) => {
                        return Err(e);
                    },
                }
                self.handshake_received = true;
                let total = self.state.get_total_samples_from_handshake();
                match self.state.update_status(
                    EvaluationStatus::CollectingMetrics { received: 0, total },
                ) {
                    Ok(_) => Ok(Step::Continue),
                    Err(e) => Err(e),
                }
            },
            Err(_) => {
                if waited_nanos > HANDSHAKE_TIMEOUT_NANOS {
                    self.move_to(
                        EvaluationStatus::Failed(
                            String::from_str(
                                "Handshake timeout: no valid handshake received within 5 seconds",
                            ),
                        ),
                    )
                } else {
                    Ok(self.step())
                }
            },
        }
    }

    /// Takes the result of an attempt to read a metrics message from a line.
    pub fn on_metrics_attempt(&mut self, attempt: Result<MetricData, MetricsError>) -> (r: Result<
        Step,
        StateError,
    >)
        requires
            old(self).well_formed(),
        ensures
            final(self).well_formed(),
            old(self).attempted_metrics(attempt, *final(self), r),
    {
        match attempt {
            Ok(metrics) => match self.state.add_metrics(metrics) {
                Ok(_) => Ok(Step::Continue),
                Err(e) => Err(e),
            },
            Err(_) => Ok(self.step()),
        }
    }

    /// Takes the end of the evaluator: a failure before the handshake, the end of
    /// the evaluation where the evaluator ended well, and a failure with the exit
    /// code where it did not.
    pub fn on_exit(&mut self, status: ExitStatus) -> (r: Result<Step, StateError>)
        requires
            old(self).well_formed(),
        ensures
            final(self).well_formed(),
            old(self).moved_to(
                status_after_exit(old(self).handshake_seen(), status),
                *final(self),
                r,
            ),
    {
        if !self.handshake_received {
            self.move_to(
                EvaluationStatus::Failed(String::from_str("Evaluator exited before sending handshake")),
            )
        } else if status.success() {
            self.move_to(EvaluationStatus::Completed)
        } else {
            let code = match status.code() {
                Some(c) => String::from_str("Some(").concat(render_i32(c).as_str()).concat(")"),
                None => String::from_str("None"),
            };
            let reason = String::from_str("Evaluator exited with code ").concat(code.as_str());
            self.move_to(EvaluationStatus::Failed(reason))
        }
    }

    /// Takes the news that the evaluator can send no more: a failure, unless the
    /// evaluation has ended already.
    pub fn on_closed(&mut self) -> (r: Result<Step, StateError>)
        requires
            old(self).well_formed(),
        ensures
            final(self).well_formed(),
            if old(self).model().current_status().terminal() {
                old(self).passed(*final(self), r)
            } else {
                old(self).moved_to(
                    status_after_end(old(self).handshake_seen()),
                    *final(self),
                    r,
                )
            },
    {
        if self.state.is_terminal() {
            Ok(self.step())
        } else if !self.handshake_received {
            self.move_to(
                EvaluationStatus::Failed(String::from_str("Evaluator terminated before handshake")),
            )
        } else {
            self.move_to(
                EvaluationStatus::Failed(String::from_str("Evaluator terminated unexpectedly")),
            )
        }
    }

    /// Takes a tick: the evaluation fails if no handshake has been seen and the
    /// time for it is over.
    pub fn on_tick(&mut self, waited_nanos: u64) -> (r: Result<Step, StateError>)
        requires
            old(self).well_formed(),
        ensures
            final(self).well_formed(),
            if !old(self).handshake_seen() && waited_nanos > HANDSHAKE_TIMEOUT_NANOS {
                old(self).moved_to(StatusView::Failed(timeout_reason()), *final(self), r)
            } else {
                old(self).passed(*final(self), r)
            },
    {
        if !self.handshake_received && waited_nanos > HANDSHAKE_TIMEOUT_NANOS {
            self.move_to(
                EvaluationStatus::Failed(
                    String::from_str(
                        "Handshake timeout: no valid handshake received within 5 seconds",
                    ),
                ),
            )
        } else {
            Ok(self.step())
        }
    }

    /// Takes one event, `waited_nanos` nanoseconds after the evaluator was started,
    /// and says what the loop does next.
    ///
    /// The loop ends at once when the user asks for it or can ask no more. A line
    /// is read as a handshake until one has been seen, and as a metrics message
    /// after that. Once the status is `Completed` or `Failed`, the loop shows it
    /// for the grace period and ends.
    pub fn handle(&mut self, event: Event, waited_nanos: u64) -> (r: Result<Step, StateError>)
        requires
            old(self).well_formed(),
        ensures
            final(self).well_formed(),
            old(self).handled(event, waited_nanos, *final(self), r),
    {
        match event {
            Event::Ui(action) => match action {
                Some(UiAction::Quit) => Ok(Step::Stop),
                Some(UiAction::TogglePause) => {
                    self.state.toggle_pause();
                    Ok(self.step())
                },
                Some(UiAction::Resize(_)) => Ok(self.step()),
                Some(UiAction::Refresh) => Ok(self.step()),
                None => Ok(Step::Stop),
            },
            Event::Evaluator(message) => match message {
                Some(EvaluatorMessage::Output(line)) => {
                    if !self.handshake_received {
                        let attempt = parse_handshake(line.as_str());
                        self.on_handshake_attempt(attempt, waited_nanos)
                    } else {
                        let attempt = parse_metrics_line(line.as_str());
                        self.on_metrics_attempt(attempt)
                    }
                },
                Some(EvaluatorMessage::Exited(status)) => self.on_exit(status),
                None => self.on_closed(),
            },
            Event::Tick => self.on_tick(waited_nanos),
        }
    }
}

impl StartError {
    /// The error in words.
    pub fn message(&self) -> (r: String)
        ensures
            r@ == match *self {
                StartError::State(e) => e.text(),
                StartError::InvalidCommand(e) => "Invalid evaluator command: "@ + e.text(),
            },
    {
        match self {
            StartError::State(e) => e.message(),
            StartError::InvalidCommand(e) => String::from_str("Invalid evaluator command: ").concat(
                e.message().as_str(),
            ),
        }
    }
}

} // verus!

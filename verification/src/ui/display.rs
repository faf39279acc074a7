//! What the display says, in words and whole numbers.

use vstd::prelude::*;
use vstd::string::*;
use crate::evaluator::protocol::{description_text, ValidatedHandshake};
use crate::state::types::{EvaluationStatus, EvaluatorName, StatusView};
use crate::text::{decimal_text, digit_char, digit_text, render_u64};

verus! {

/// A number below a hundred in two digits.
pub open spec fn two_digit_text(n: nat) -> Seq<char> {
    seq![digit_char(n / 10), digit_char(n % 10)]
}

/// A time in minutes and seconds, the seconds in two digits.
pub open spec fn duration_text(total_seconds: u64) -> Seq<char> {
    decimal_text((total_seconds / 60) as nat) + ":"@ + two_digit_text((total_seconds % 60) as nat)
}

/// Writes a time in minutes and seconds, the seconds in two digits.
pub fn format_duration(total_seconds: u64) -> (r: String)
    ensures
        r@ == duration_text(total_seconds),
{
    let minutes: u64 = total_seconds / 60;
    let seconds: u64 = total_seconds % 60;
    let r = render_u64(minutes).concat(":").concat(digit_text(seconds / 10)).concat(
        digit_text(seconds % 10),
    );
    assert(r@ =~= duration_text(total_seconds));
    r
}

/// The keys that the footer names.
pub open spec fn shortcuts_text(paused: bool) -> Seq<char> {
    if paused {
        "[q] Quit  [Space] Resume  [Ctrl+L] Refresh"@
    } else {
        "[q] Quit  [Space] Pause  [Ctrl+L] Refresh"@
    }
}

/// The keys that the footer names: the space bar goes on where the display is
/// paused, and pauses where it is not.
pub fn shortcuts(paused: bool) -> (r: &'static str)
    ensures
        r@ == shortcuts_text(paused),
{
    if paused {
        "[q] Quit  [Space] Resume  [Ctrl+L] Refresh"
    } else {
        "[q] Quit  [Space] Pause  [Ctrl+L] Refresh"
    }
}

/// What the display says of a status.
pub open spec fn status_text(status: StatusView) -> Seq<char> {
    match status {
        StatusView::Starting => "Status: Starting evaluator..."@,
        StatusView::WaitingForHandshake => "Status: Waiting for handshake..."@,
        StatusView::CollectingMetrics { received, total: Some(total) } =>
            "Status: Collecting metrics... ("@ + decimal_text(received as nat) + "/"@
                + decimal_text(total as nat) + ")"@,
        StatusView::CollectingMetrics { received, total: None } =>
            "Status: Collecting metrics... ("@ + decimal_text(received as nat) + ")"@,
        StatusView::Completed => "Status: Evaluation completed"@,
        StatusView::Failed(reason) => "Status: Failed - "@ + reason,
    }
}

/// What the display says of a status.
pub fn status_line(status: &EvaluationStatus) -> (r: String)
    ensures
        r@ == status_text(status@),
{
    match status {
        EvaluationStatus::Starting => String::from_str("Status: Starting evaluator..."),
        EvaluationStatus::WaitingForHandshake => String::from_str(
            "Status: Waiting for handshake...",
        ),
        EvaluationStatus::CollectingMetrics { received, total } => match total {
            Some(t) => String::from_str("Status: Collecting metrics... (").concat(
                render_u64(*received as u64).as_str(),
            ).concat("/").concat(render_u64(*t as u64).as_str()).concat(")"),
            None => String::from_str("Status: Collecting metrics... (").concat(
                render_u64(*received as u64).as_str(),
            ).concat(")"),
        },
        EvaluationStatus::Completed => String::from_str("Status: Evaluation completed"),
        EvaluationStatus::Failed(reason) => String::from_str("Status: Failed - ").concat(
            reason.as_str(),
        ),
    }
}

/// The title of the display: the name that the handshake gives the evaluator,
/// else the name set for it, else none.
pub open spec fn title_text(
    handshake: Option<ValidatedHandshake>,
    evaluator_name: Option<EvaluatorName>,
) -> Seq<char> {
    match (handshake, evaluator_name) {
        (Some(h), _) => "PrEval - "@ + h.evaluator.name@,
        (None, Some(name)) => "PrEval - "@ + name@,
        (None, None) => "PrEval"@,
    }
}

/// The title of the display.
pub fn title(handshake: Option<&ValidatedHandshake>, evaluator_name: Option<&EvaluatorName>) -> (r:
    String)
    ensures
        r@ == title_text(
            match handshake {
                Some(h) => Some(*h),
                None => None,
            },
            match evaluator_name {
                Some(n) => Some(*n),
                None => None,
            },
        ),
{
    match handshake {
        Some(h) => String::from_str("PrEval - ").concat(h.evaluator.name.as_str()),
        None => match evaluator_name {
            Some(name) => String::from_str("PrEval - ").concat(name.as_ref()),
            None => String::from_str("PrEval"),
        },
    }
}

/// The line under the title: what the evaluator says of itself, if anything, and
/// the version of the protocol.
pub open spec fn subtitle_text(handshake: ValidatedHandshake) -> Seq<char> {
    match description_text(handshake.evaluator.description) {
        Some(d) => d + "  \u{2022}  Protocol v"@ + handshake.version@,
        None => "Protocol v"@ + handshake.version@,
    }
}

/// The line under the title.
pub fn subtitle(handshake: &ValidatedHandshake) -> (r: String)
    ensures
        r@ == subtitle_text(*handshake),
{
    match &handshake.evaluator.description {
        Some(d) => String::from_str(d.as_ref()).concat("  \u{2022}  Protocol v").concat(
            handshake.version.as_ref(),
        ),
        None => String::from_str("Protocol v").concat(handshake.version.as_ref()),
    }
}

} // verus!

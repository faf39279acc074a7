//! The values that the state of an evaluation is made of.

use vstd::prelude::*;
use vstd::string::*;
use std::time::{Duration, Instant};
use crate::double::Double;
use crate::json::{json_document, read_document, Json};
use crate::state::clock::nanos_since;
use crate::text::{
    blank_text_error, bounded_text, bounded_text_error, non_blank_text, trim, NumberError,
    TextError,
};

verus! {

/// The name of an evaluator: 1 to 255 characters, trimmed.
#[derive(Debug, PartialEq, Eq, Hash)]
pub struct EvaluatorName {
    value: String,
}

impl View for EvaluatorName {
    type V = Seq<char>;

    closed spec fn view(&self) -> Seq<char> {
        self.value@
    }
}

impl Clone for EvaluatorName {
    fn clone(&self) -> (r: EvaluatorName)
        ensures
            r@ == self@,
    {
        proof {
            use_type_invariant(self);
        }
        EvaluatorName { value: self.value.clone() }
    }
}

impl EvaluatorName {
    #[verifier::type_invariant]
    spec fn well_formed(self) -> bool {
        0 < self.value@.len() <= 255 && trim(self.value@) == self.value@
    }

    /// Trims `raw` and accepts it as an evaluator's name if 1 to 255 characters are left.
    pub fn try_new(raw: &str) -> (r: Result<EvaluatorName, TextError>)
        ensures
            match r {
                Ok(v) => bounded_text_error(raw@, 255) is None && v@ == trim(raw@),
                Err(e) => bounded_text_error(raw@, 255) == Some(e),
            },
    {
        match bounded_text(raw, 255) {
            Ok(value) => Ok(EvaluatorName { value }),
            Err(e) => Err(e),
        }
    }

    /// The text.
    pub fn as_ref(&self) -> (r: &str)
        ensures
            r@ == self@,
            0 < r@.len() <= 255,
            trim(r@) == r@,
    {
        proof {
            use_type_invariant(self);
        }
        self.value.as_str()
    }

    /// The value that is held.
    pub fn into_inner(self) -> (r: String)
        ensures
            r@ == self@,
            0 < r@.len() <= 255,
            trim(r@) == r@,
    {
        proof {
            use_type_invariant(&self);
        }
        self.value
    }
}

/// The command that starts an evaluator: not blank, trimmed.
#[derive(Debug, PartialEq, Eq)]
pub struct EvaluatorCommand {
    value: String,
}

impl View for EvaluatorCommand {
    type V = Seq<char>;

    closed spec fn view(&self) -> Seq<char> {
        self.value@
    }
}

impl Clone for EvaluatorCommand {
    fn clone(&self) -> (r: EvaluatorCommand)
        ensures
            r@ == self@,
    {
        proof {
            use_type_invariant(self);
        }
        EvaluatorCommand { value: self.value.clone() }
    }
}

impl EvaluatorCommand {
    #[verifier::type_invariant]
    spec fn well_formed(self) -> bool {
        0 < self.value@.len() && trim(self.value@) == self.value@
    }

    /// Trims `raw` and accepts it as a command if at least one character is left.
    pub fn try_new(raw: &str) -> (r: Result<EvaluatorCommand, TextError>)
        ensures
            match r {
                Ok(v) => blank_text_error(raw@) is None && v@ == trim(raw@),
                Err(e) => blank_text_error(raw@) == Some(e),
            },
    {
        match non_blank_text(raw) {
            Ok(value) => Ok(EvaluatorCommand { value }),
            Err(e) => Err(e),
        }
    }

    /// The text.
    pub fn as_ref(&self) -> (r: &str)
        ensures
            r@ == self@,
            0 < r@.len(),
            trim(r@) == r@,
    {
        proof {
            use_type_invariant(self);
        }
        self.value.as_str()
    }

    /// The value that is held.
    pub fn into_inner(self) -> (r: String)
        ensures
            r@ == self@,
            0 < r@.len(),
            trim(r@) == r@,
    {
        proof {
            use_type_invariant(&self);
        }
        self.value
    }
}

/// The width of a terminal in columns: above zero.
#[derive(Clone, Copy, Debug, PartialEq, Eq, PartialOrd, Ord)]
pub struct TerminalWidth {
    value: u16,
}

impl View for TerminalWidth {
    type V = u16;

    closed spec fn view(&self) -> u16 {
        self.value
    }
}

impl TerminalWidth {
    #[verifier::type_invariant]
    spec fn well_formed(self) -> bool {
        self.value > 0
    }

    /// Accepts `value` as a width if it is above zero.
    pub fn try_new(value: u16) -> (r: Result<TerminalWidth, NumberError>)
        ensures
            match r {
                Ok(v) => value > 0 && v@ == value,
                Err(e) => value == 0 && e == NumberError::NotPositive,
            },
    {
        if value > 0 {
            Ok(TerminalWidth { value })
        } else {
            Err(NumberError::NotPositive)
        }
    }

    /// The value that is held.
    pub fn into_inner(self) -> (r: u16)
        ensures
            r == self@,
            r > 0,
    {
        proof {
            use_type_invariant(&self);
        }
        self.value
    }
}

/// The height of a terminal in rows: above zero.
#[derive(Clone, Copy, Debug, PartialEq, Eq, PartialOrd, Ord)]
pub struct TerminalHeight {
    value: u16,
}

impl View for TerminalHeight {
    type V = u16;

    closed spec fn view(&self) -> u16 {
        self.value
    }
}

impl TerminalHeight {
    #[verifier::type_invariant]
    spec fn well_formed(self) -> bool {
        self.value > 0
    }

    /// Accepts `value` as a height if it is above zero.
    pub fn try_new(value: u16) -> (r: Result<TerminalHeight, NumberError>)
        ensures
            match r {
                Ok(v) => value > 0 && v@ == value,
                Err(e) => value == 0 && e == NumberError::NotPositive,
            },
    {
        if value > 0 {
            Ok(TerminalHeight { value })
        } else {
            Err(NumberError::NotPositive)
        }
    }

    /// The value that is held.
    pub fn into_inner(self) -> (r: u16)
        ensures
            r == self@,
            r > 0,
    {
        proof {
            use_type_invariant(&self);
        }
        self.value
    }
}

/// Why a width and a height are refused as the size of a terminal.
#[derive(Clone, Copy, Debug, PartialEq, Eq, Structural)]
pub enum TerminalSizeError {
    /// The width is zero.
    InvalidWidth,
    /// The height is zero.
    InvalidHeight,
}

/// The size of a terminal: a width and a height above zero.
#[derive(Clone, Copy, Debug, PartialEq, Eq)]
pub struct TerminalSize {
    width: TerminalWidth,
    height: TerminalHeight,
}

impl TerminalSize {
    /// The width, in columns.
    pub closed spec fn columns(self) -> u16 {
        self.width@
    }

    /// The height, in rows.
    pub closed spec fn rows(self) -> u16 {
        self.height@
    }

    /// Accepts a width and a height that are both above zero; the width is looked
    /// at first.
    pub fn try_new(width: u16, height: u16) -> (r: Result<TerminalSize, TerminalSizeError>)
        ensures
            match r {
                Ok(size) => width > 0 && height > 0 && size.columns() == width && size.rows()
                    == height,
                Err(TerminalSizeError::InvalidWidth) => width == 0,
                Err(TerminalSizeError::InvalidHeight) => width > 0 && height == 0,
            },
    {
        let w = match TerminalWidth::try_new(width) {
            Ok(w) => w,
            Err(_) => {
                return Err(TerminalSizeError::InvalidWidth);
            },
        };
        let h = match TerminalHeight::try_new(height) {
            Ok(h) => h,
            Err(_) => {
                return Err(TerminalSizeError::InvalidHeight);
            },
        };
        Ok(TerminalSize { width: w, height: h })
    }

    /// The width, in columns.
    pub fn width(&self) -> (r: u16)
        ensures
            r == self.columns(),
            r > 0,
    {
        self.width.into_inner()
    }

    /// The height, in rows.
    pub fn height(&self) -> (r: u16)
        ensures
            r == self.rows(),
            r > 0,
    {
        self.height.into_inner()
    }
}

impl TerminalSizeError {
    /// The error in words.
    pub fn message(&self) -> (r: String)
        ensures
            r@ == match *self {
                TerminalSizeError::InvalidWidth => "terminal width must be greater than 0"@,
                TerminalSizeError::InvalidHeight => "terminal height must be greater than 0"@,
            },
    {
        match self {
            TerminalSizeError::InvalidWidth => "terminal width must be greater than 0".to_owned(),
            TerminalSizeError::InvalidHeight => "terminal height must be greater than 0".to_owned(),
        }
    }
}

/// What a status is, without its representation.
pub enum StatusView {
    Starting,
    WaitingForHandshake,
    CollectingMetrics { received: usize, total: Option<usize> },
    Completed,
    Failed(Seq<char>),
}

/// Where an evaluation stands.
#[derive(Debug, PartialEq, Eq)]
pub enum EvaluationStatus {
    /// The evaluator has not been started.
    Starting,
    /// The evaluator runs and has not sent its handshake.
    WaitingForHandshake,
    /// Metrics come in: so many samples so far, of so many if the number is known.
    CollectingMetrics { received: usize, total: Option<usize> },
    /// The evaluation has ended well.
    Completed,
    /// The evaluation has failed, for the reason given.
    Failed(String),
}

impl View for EvaluationStatus {
    type V = StatusView;

    open spec fn view(&self) -> StatusView {
        match self {
            EvaluationStatus::Starting => StatusView::Starting,
            EvaluationStatus::WaitingForHandshake => StatusView::WaitingForHandshake,
            EvaluationStatus::CollectingMetrics { received,
                total } => StatusView::CollectingMetrics {
                received: *received,
                total: *total,
            },
            EvaluationStatus::Completed => StatusView::Completed,
            EvaluationStatus::Failed(reason) => StatusView::Failed(reason@),
        }
    }
}

impl Clone for EvaluationStatus {
    fn clone(&self) -> (r: EvaluationStatus)
        ensures
            r@ == self@,
    {
        match self {
            EvaluationStatus::Starting => EvaluationStatus::Starting,
            EvaluationStatus::WaitingForHandshake => EvaluationStatus::WaitingForHandshake,
            EvaluationStatus::CollectingMetrics { received, total } => {
                EvaluationStatus::CollectingMetrics { received: *received, total: *total }
            },
            EvaluationStatus::Completed => EvaluationStatus::Completed,
            EvaluationStatus::Failed(reason) => EvaluationStatus::Failed(reason.clone()),
        }
    }
}

impl StatusView {
    /// Whether nothing can follow: the evaluation has ended, well or not.
    pub open spec fn terminal(self) -> bool {
        self is Completed || self is Failed
    }
}

impl EvaluationStatus {
    /// Whether nothing can follow: the evaluation has ended, well or not.
    pub fn is_terminal(&self) -> (r: bool)
        ensures
            r == self@.terminal(),
    {
        match self {
            EvaluationStatus::Completed => true,
            EvaluationStatus::Failed(_) => true,
            _ => false,
        }
    }
}

/// Where a sample stands.
#[derive(Debug, PartialEq, Eq)]
pub enum SampleStatus {
    Processing,
    Completed,
    Failed(String),
}

impl SampleStatus {
    /// Whether two statuses are the same, with the same reason where they have one.
    pub open spec fn same_as(self, other: SampleStatus) -> bool {
        match (self, other) {
            (SampleStatus::Processing, SampleStatus::Processing) => true,
            (SampleStatus::Completed, SampleStatus::Completed) => true,
            (SampleStatus::Failed(a), SampleStatus::Failed(b)) => a@ == b@,
            _ => false,
        }
    }
}

impl Clone for SampleStatus {
    fn clone(&self) -> (r: SampleStatus)
        ensures
            r.same_as(*self),
    {
        match self {
            SampleStatus::Processing => SampleStatus::Processing,
            SampleStatus::Completed => SampleStatus::Completed,
            SampleStatus::Failed(reason) => SampleStatus::Failed(reason.clone()),
        }
    }
}

/// What a sample's metric reads: the value of a point of a gauge or a counter, or
/// the parts of the mean of a point of a histogram.
#[derive(Clone, Copy, Debug, PartialEq, Eq, Structural)]
pub enum SampleValue {
    /// The value of a point of a gauge or of a counter.
    Exact(Double),
    /// The sum, if known, and the count of a point of a histogram.
    Mean { sum: Option<Double>, count: u64 },
}

/// What is known of one sample.
#[derive(Debug)]
pub struct SampleResult {
    pub sample_id: String,
    pub status: SampleStatus,
    /// The names of the sample's metrics, each with what it reads.
    pub metrics: Vec<(String, SampleValue)>,
    /// When the sample was completed or failed.
    pub completed_at: Option<Instant>,
}

/// The names in `metrics` as texts, each with what it reads.
pub open spec fn readings_view(metrics: Seq<(String, SampleValue)>) -> Seq<(Seq<char>,
    SampleValue)> {
    Seq::new(metrics.len(), |i: int| (metrics[i].0@, metrics[i].1))
}

/// A copy of `metrics`.
pub fn copy_readings(metrics: &Vec<(String, SampleValue)>) -> (r: Vec<(String, SampleValue)>)
    ensures
        readings_view(r@) == readings_view(metrics@),
{
    let n: usize = metrics.len();
    let mut out: Vec<(String, SampleValue)> = Vec::new();
    let mut i: usize = 0;
    while i < n
        invariant
            i <= n,
            n == metrics@.len(),
            out@.len() == i,
            forall|k: int| 0 <= k < i
                ==> (#[trigger] out@[k]).0@ == metrics@[k].0@ && out@[k].1 == metrics@[k].1,
        decreases n - i,
    {
        out.push((metrics[i].0.clone(), metrics[i].1));
        i += 1;
    }
    proof {
        assert(readings_view(out@) =~= readings_view(metrics@));
    }
    out
}

impl SampleResult {
    /// Whether the sample has been completed with the readings `readings`.
    pub open spec fn completed_with(self, id: Seq<char>, readings: Seq<(Seq<char>,
        SampleValue)>) -> bool {
        &&& self.sample_id@ == id
        &&& self.status is Completed
        &&& readings_view(self.metrics@) == readings
        &&& self.completed_at is Some
    }

    /// A sample that is being processed, with nothing known of it yet.
    pub fn new_processing(sample_id: String) -> (r: SampleResult)
        ensures
            r.sample_id == sample_id,
            r.status is Processing,
            r.metrics@.len() == 0,
            r.completed_at is None,
    {
        SampleResult {
            sample_id,
            status: SampleStatus::Processing,
            metrics: Vec::new(),
            completed_at: None,
        }
    }

    /// Completes the sample with its readings, now.
    pub fn mark_completed(&mut self, metrics: Vec<(String, SampleValue)>)
        ensures
            final(self).sample_id == old(self).sample_id,
            final(self).status is Completed,
            final(self).metrics == metrics,
            final(self).completed_at is Some,
    {
        self.status = SampleStatus::Completed;
        self.metrics = metrics;
        self.completed_at = Some(Instant::now());
    }

    /// Fails the sample for the reason given, now.
    pub fn mark_failed(&mut self, error: String)
        ensures
            final(self).sample_id == old(self).sample_id,
            final(self).status == SampleStatus::Failed(error),
            final(self).metrics == old(self).metrics,
            final(self).completed_at is Some,
    {
        self.status = SampleStatus::Failed(error);
        self.completed_at = Some(Instant::now());
    }

}

impl Clone for SampleResult {
    fn clone(&self) -> (r: SampleResult)
        ensures
            r.sample_id@ == self.sample_id@,
            r.status.same_as(self.status),
            readings_view(r.metrics@) == readings_view(self.metrics@),
            r.completed_at == self.completed_at,
    {
        SampleResult {
            sample_id: self.sample_id.clone(),
            status: self.status.clone(),
            metrics: copy_readings(&self.metrics),
            completed_at: self.completed_at,
        }
    }
}

/// The most entries that an estimate of the time to go looks back on.
pub const MAX_HISTORY: usize = 10;

/// `history` after `entry` is recorded: at its end, and without the oldest entry
/// where there would be more than ten.
pub open spec fn recorded(history: Seq<(u64, usize)>, entry: (u64, usize)) -> Seq<(u64, usize)> {
    if history.len() + 1 > MAX_HISTORY {
        history.push(entry).drop_first()
    } else {
        history.push(entry)
    }
}

/// The nanoseconds to go until `total` samples are completed, at the rate at which
/// samples have been completed: none while nothing is completed, when all is, or
/// when the rate is not above zero. With fewer than two entries in `history` the
/// rate is `completed` in `elapsed` nanoseconds; else it is what the newest entry
/// has over the oldest, in samples and in nanoseconds.
pub open spec fn eta_nanos(
    history: Seq<(u64, usize)>,
    elapsed: u64,
    completed: usize,
    total: usize,
) -> Option<u128> {
    if completed == 0 || completed >= total {
        None
    } else if history.len() < 2 {
        if elapsed > 0 {
            Some((((total - completed) * elapsed) / (completed as int)) as u128)
        } else {
            None
        }
    } else if history.last().0 > history[0].0 && history.last().1 > history[0].1 {
        Some(
            (((total - completed) * (history.last().0 - history[0].0)) / (history.last().1
                - history[0].1)) as u128,
        )
    } else {
        None
    }
}

/// There is no estimate while nothing is completed and when all is; and where
/// fewer than two entries are recorded, the estimate is what is left to do at the
/// rate of `completed` samples in `elapsed` nanoseconds.
pub proof fn lemma_eta(history: Seq<(u64, usize)>, elapsed: u64, completed: usize, total: usize)
    ensures
        completed == 0 || completed >= total ==> eta_nanos(history, elapsed, completed, total)
            is None,
        history.len() < 2 && 0 < completed < total && elapsed > 0 ==> eta_nanos(
            history,
            elapsed,
            completed,
            total,
        ) == Some((((total - completed) * elapsed) / (completed as int)) as u128),
        history.len() < 2 && elapsed == 0 ==> eta_nanos(history, elapsed, completed, total)
            is None,
{
}

/// `a * b / c` for numbers of 64 bits, in 128 bits.
pub fn scale(a: u64, b: u64, c: u64) -> (r: u128)
    requires
        c > 0,
    ensures
        r == (a * b) / (c as int),
{
    assert(a * b <= 0xffff_ffff_ffff_ffff * 0xffff_ffff_ffff_ffff) by (nonlinear_arith)
        requires
            a <= 0xffff_ffff_ffff_ffff,
            b <= 0xffff_ffff_ffff_ffff,
    ;
    let product: u128 = (a as u128) * (b as u128);
    product / (c as u128)
}

/// Estimates the time to go from the progress recorded so far.
#[derive(Debug)]
pub struct EtaCalculator {
    /// When the evaluation started.
    start_time: Instant,
    /// The newest entries, oldest first: the nanoseconds since the start, and the
    /// samples completed by then.
    completion_history: Vec<(u64, usize)>,
    /// The most entries kept.
    max_history: usize,
}

impl EtaCalculator {
    /// At most ten entries are kept.
    pub closed spec fn well_formed(self) -> bool {
        self.max_history == MAX_HISTORY && self.completion_history@.len() <= MAX_HISTORY
    }

    /// The entries kept, oldest first.
    pub closed spec fn history(self) -> Seq<(u64, usize)> {
        self.completion_history@
    }

    /// A calculator that starts now, with nothing recorded.
    pub fn new() -> (r: EtaCalculator)
        ensures
            r.well_formed(),
            r.history() == Seq::<(u64, usize)>::empty(),
    {
        EtaCalculator {
            start_time: Instant::now(),
            completion_history: Vec::new(),
            max_history: MAX_HISTORY,
        }
    }

    /// Records that `completed` samples were completed `now` nanoseconds after the
    /// start.
    pub fn record_progress_at(&mut self, now: u64, completed: usize)
        requires
            old(self).well_formed(),
        ensures
            final(self).well_formed(),
            final(self).history() == recorded(old(self).history(), (now, completed)),
    {
        self.completion_history.push((now, completed));
        if self.completion_history.len() > self.max_history {
            self.completion_history.remove(0);
        }
        proof {
            assert(old(self).history().push((now,
                completed)).remove(0) =~= old(self).history().push((now, completed)).drop_first());
        }
    }

    /// Records that `completed` samples are completed now.
    pub fn record_progress(&mut self, completed: usize)
        requires
            old(self).well_formed(),
        ensures
            final(self).well_formed(),
            exists|now: u64| final(self).history() == recorded(old(self).history(), (now,
                completed)),
    {
        let now = nanos_since(&self.start_time);
        self.record_progress_at(now, completed);
    }

    /// The nanoseconds to go, where `elapsed` nanoseconds have passed since the start.
    pub fn eta_at(&self, elapsed: u64, completed: usize, total: usize) -> (r: Option<u128>)
        requires
            self.well_formed(),
        ensures
            r == eta_nanos(self.history(), elapsed, completed, total),
    {
        if completed == 0 || completed >= total {
            return None;
        }
        let remaining: u64 = (total - completed) as u64;
        let n: usize = self.completion_history.len();
        if n < 2 {
            if elapsed > 0 {
                Some(scale(remaining, elapsed, completed as u64))
            } else {
                None
            }
        } else {
            let first = self.completion_history[0];
            let last = self.completion_history[n - 1];
            if last.0 > first.0 && last.1 > first.1 {
                Some(scale(remaining, last.0 - first.0, (last.1 - first.1) as u64))
            } else {
                None
            }
        }
    }

    /// The nanoseconds to go until `total` samples are completed, now.
    pub fn calculate_eta(&self, completed: usize, total: usize) -> (r: Option<u128>)
        requires
            self.well_formed(),
        ensures
            exists|elapsed: u64| r == eta_nanos(self.history(), elapsed, completed, total),
            completed == 0 || completed >= total ==> r is None,
            self.history().len() >= 2 ==> r == eta_nanos(self.history(), 0, completed, total),
    {
        let elapsed = nanos_since(&self.start_time);
        self.eta_at(elapsed, completed, total)
    }

    /// The time since the start.
    pub fn elapsed(&self) -> Duration {
        self.start_time.elapsed()
    }
}

impl Clone for EtaCalculator {
    fn clone(&self) -> (r: EtaCalculator)
        ensures
            r.history() == self.history(),
            r.well_formed() == self.well_formed(),
    {
        let n: usize = self.completion_history.len();
        let mut history: Vec<(u64, usize)> = Vec::new();
        let mut i: usize = 0;
        while i < n
            invariant
                i <= n,
                n == self.completion_history@.len(),
                history@ == self.completion_history@.take(i as int),
            decreases n - i,
        {
            history.push(self.completion_history[i]);
            proof {
                assert(self.completion_history@.take(i + 1) =~= self.completion_history@.take(
                    i as int,
                ).push(self.completion_history@[i as int]));
            }
            i += 1;
        }
        proof {
            assert(self.completion_history@.take(n as int) =~= self.completion_history@);
        }
        EtaCalculator {
            start_time: self.start_time,
            completion_history: history,
            max_history: self.max_history,
        }
    }
}

impl Default for EtaCalculator {
    fn default() -> (r: EtaCalculator)
        ensures
            r.well_formed(),
            r.history() == Seq::<(u64, usize)>::empty(),
    {
        EtaCalculator::new()
    }
}

/// Why a text is refused as JSON.
#[derive(Debug, PartialEq, Eq)]
pub enum JsonValidationError {
    /// The text is no JSON document; the text here is the parser's message.
    MalformedJson(String),
}

/// A text that is a JSON document.
#[derive(Debug, PartialEq, Eq)]
pub struct ValidJson {
    text: String,
}

impl View for ValidJson {
    type V = Seq<char>;

    closed spec fn view(&self) -> Seq<char> {
        self.text@
    }
}

impl ValidJson {
    #[verifier::type_invariant]
    spec fn well_formed(self) -> bool {
        json_document(self.text@) is Ok
    }

    /// Accepts a text that is a JSON document.
    pub fn try_new(json_str: String) -> (r: Result<ValidJson, JsonValidationError>)
        ensures
            match r {
                Ok(v) => json_document(json_str@) is Ok && v@ == json_str@,
                Err(JsonValidationError::MalformedJson(msg)) => json_document(json_str@) == Err::<
                    Json,
                    Seq<char>,
                >(msg@),
            },
    {
        match read_document(json_str.as_str()) {
            Ok(_) => Ok(ValidJson { text: json_str }),
            Err(msg) => Err(JsonValidationError::MalformedJson(msg)),
        }
    }

    /// The text.
    pub fn as_str(&self) -> (r: &str)
        ensures
            r@ == self@,
            json_document(r@) is Ok,
    {
        proof {
            use_type_invariant(self);
        }
        self.text.as_str()
    }

    /// The text.
    pub fn into_string(self) -> (r: String)
        ensures
            r@ == self@,
            json_document(r@) is Ok,
    {
        proof {
            use_type_invariant(&self);
        }
        self.text
    }

    /// The document that the text writes.
    pub fn parse(&self) -> (r: Json)
        ensures
            json_document(self@) == Ok::<Json, Seq<char>>(r),
    {
        proof {
            use_type_invariant(self);
        }
        match read_document(self.text.as_str()) {
            Ok(doc) => doc,
            // The text is a document, so there is no error to come here with.
            Err(_) => Json::Null,
        }
    }
}

impl JsonValidationError {
    /// The error in words.
    pub fn message(&self) -> (r: String)
        ensures
            r@ == match *self {
                JsonValidationError::MalformedJson(msg) => "malformed JSON: "@ + msg@,
            },
    {
        match self {
            JsonValidationError::MalformedJson(msg) => String::from_str("malformed JSON: ").concat(
                msg.as_str(),
            ),
        }
    }
}

/// Marks the kinds of action that this library defines.
pub trait Sealed {

}

/// Something that a user can ask for.
pub trait Action: Sealed {
    /// The action in a word or two.
    spec fn described(&self) -> Seq<char>;

    /// The action in a word or two.
    fn description(&self) -> (r: &str)
        ensures
            r@ == self.described(),
    ;
}

/// What a user asks for.
#[derive(Clone, Copy, Debug, PartialEq, Eq)]
pub enum UiAction {
    /// To leave.
    Quit,
    /// The terminal has a new size.
    Resize(TerminalSize),
    /// To pause, or to go on.
    TogglePause,
    /// To draw again.
    Refresh,
}

impl Sealed for UiAction {

}

impl Action for UiAction {
    open spec fn described(&self) -> Seq<char> {
        match self {
            UiAction::Quit => "quit"@,
            UiAction::Resize(_) => "resize"@,
            UiAction::TogglePause => "toggle pause"@,
            UiAction::Refresh => "refresh"@,
        }
    }

    fn description(&self) -> (r: &str) {
        match self {
            UiAction::Quit => "quit",
            UiAction::Resize(_) => "resize",
            UiAction::TogglePause => "toggle pause",
            UiAction::Refresh => "refresh",
        }
    }
}

} // verus!

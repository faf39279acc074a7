//! The state of one evaluation, and the moves that it allows.

use vstd::prelude::*;
use std::time::Duration;
use crate::evaluator::protocol::ValidatedHandshake;
use crate::first::{first_found, lemma_first_found};
use crate::json::optional_text;
use crate::state::metrics::{
    names_sample, sample_named, AttributeValueView, DataPoint, Metric, MetricData, SampleMetric,
};
use crate::state::types::{
    eta_nanos, readings_view, recorded, EtaCalculator, EvaluationStatus, EvaluatorName,
    SampleResult, SampleStatus, SampleValue, StatusView,
};

verus! {

/// The most samples that are kept for display.
pub const MAX_RECENT_SAMPLES: usize = 10;

/// Why the state refuses a move.
#[derive(Clone, Copy, Debug, PartialEq, Eq, Structural)]
pub enum StateError {
    /// The name of the evaluator, or its handshake, is set already.
    AlreadySet,
    /// No status is followed by `Starting`.
    InvalidTransition,
    /// Metrics are taken only while the status is `CollectingMetrics`.
    NotCollecting,
    /// Nothing follows `Completed` or `Failed`.
    TerminalState,
}

/// The attributes of each point, in order.
pub open spec fn attribute_views<V>(points: Seq<DataPoint<V>>) -> Seq<
    Seq<(Seq<char>, AttributeValueView)>,
> {
    Seq::new(points.len(), |i: int| points[i].attributes@)
}

/// The sample that the first point names that names one.
pub open spec fn points_sample_id<V>(points: Seq<DataPoint<V>>) -> Option<Seq<char>> {
    first_found(
        attribute_views(points),
        |a: Seq<(Seq<char>, AttributeValueView)>| sample_named(a),
    )
}

/// The sample that a metric names: that of its first point that names one, and
/// none for a summary.
pub open spec fn metric_sample_id(metric: Metric) -> Option<Seq<char>> {
    match metric {
        Metric::Sample(SampleMetric::Gauge { data_points, .. }) => points_sample_id(data_points@),
        Metric::Sample(SampleMetric::Counter { data_points, .. }) => points_sample_id(
            data_points@,
        ),
        Metric::Sample(SampleMetric::Histogram { data_points, .. }) => points_sample_id(
            data_points@,
        ),
        Metric::Summary(_) => None,
    }
}

/// The sample that a message names: that of its first metric that names one.
pub open spec fn message_sample_id(metrics: Seq<Metric>) -> Option<Seq<char>> {
    first_found(metrics, |m: Metric| metric_sample_id(m))
}

/// Whether a message is a summary: one of its metrics is.
pub open spec fn is_summary_message(metrics: Seq<Metric>) -> bool {
    exists|i: int| 0 <= i < metrics.len() && (#[trigger] metrics[i]) is Summary
}

/// What a metric reads, point by point, under its name; nothing for a summary.
pub open spec fn metric_readings(metric: Metric) -> Seq<(Seq<char>, SampleValue)> {
    match metric {
        Metric::Sample(SampleMetric::Gauge { name, data_points, .. }) => Seq::new(
            data_points@.len(),
            |i: int| (name@, SampleValue::Exact(data_points@[i].value@)),
        ),
        Metric::Sample(SampleMetric::Counter { name, data_points, .. }) => Seq::new(
            data_points@.len(),
            |i: int| (name@, SampleValue::Exact(data_points@[i].value@)),
        ),
        Metric::Sample(SampleMetric::Histogram { name, data_points, .. }) => Seq::new(
            data_points@.len(),
            |i: int|
                (
                    name@,
                    SampleValue::Mean {
                        sum: data_points@[i].value.sum,
                        count: data_points@[i].value.count,
                    },
                ),
        ),
        Metric::Summary(_) => Seq::empty(),
    }
}

/// What the metrics of a message read, metric after metric.
pub open spec fn message_readings(metrics: Seq<Metric>) -> Seq<(Seq<char>, SampleValue)>
    decreases metrics.len(),
{
    if metrics.len() == 0 {
        Seq::empty()
    } else {
        message_readings(metrics.drop_last()) + metric_readings(metrics.last())
    }
}

/// The number of samples that have failed.
pub open spec fn failed_count(samples: Seq<SampleResult>) -> nat
    decreases samples.len(),
{
    if samples.len() == 0 {
        0
    } else {
        failed_count(samples.drop_last()) + if samples.last().status is Failed {
            1nat
        } else {
            0nat
        }
    }
}

/// The place of the first sample with the identifier `id`, or the number of
/// samples if there is none.
pub open spec fn sample_position(samples: Seq<SampleResult>, id: Seq<char>) -> int
    decreases samples.len(),
{
    if samples.len() == 0 {
        0
    } else if samples[0].sample_id@ == id {
        0
    } else {
        1 + sample_position(samples.drop_first(), id)
    }
}

/// Where no sample before place `i` has the identifier and the sample at `i` has
/// it, or `i` is the number of samples, the place of the identifier is `i`.
pub proof fn lemma_sample_position(samples: Seq<SampleResult>, id: Seq<char>, i: int)
    requires
        0 <= i <= samples.len(),
        forall|k: int| 0 <= k < i ==> (#[trigger] samples[k]).sample_id@ != id,
        i == samples.len() || samples[i].sample_id@ == id,
    ensures
        sample_position(samples, id) == i,
    decreases i,
{
    if i > 0 {
        let rest = samples.drop_first();
        assert(samples[0].sample_id@ != id);
        assert forall|k: int| 0 <= k < i - 1 implies (#[trigger] rest[k]).sample_id@ != id by {
            assert(rest[k] == samples[k + 1]);
        }
        lemma_sample_position(rest, id, i - 1);
    }
}

/// Whether `after` is `before` with the sample `id` completed with `readings`: in
/// its place if it was known, at the end if it was not; the others are as before.
pub open spec fn sample_completed(
    before: Seq<SampleResult>,
    after: Seq<SampleResult>,
    id: Seq<char>,
    readings: Seq<(Seq<char>, SampleValue)>,
) -> bool {
    let at = sample_position(before, id);
    &&& 0 <= at <= before.len()
    &&& after.len() == if at < before.len() {
        before.len()
    } else {
        before.len() + 1
    }
    &&& after[at].completed_with(id, readings)
    &&& forall|k: int| 0 <= k < before.len() && k != at ==> #[trigger] after[k] == before[k]
}

/// Whether `after` is `before` with a sample completed with `readings` at its end,
/// and without the oldest sample where there would be more than ten.
pub open spec fn recent_pushed(
    before: Seq<SampleResult>,
    after: Seq<SampleResult>,
    id: Seq<char>,
    readings: Seq<(Seq<char>, SampleValue)>,
) -> bool {
    &&& after.len() > 0
    &&& after.last().completed_with(id, readings)
    &&& after.drop_last() == if before.len() + 1 > MAX_RECENT_SAMPLES {
        before.drop_first()
    } else {
        before
    }
}

/// `Starting` follows no status, and no status follows `Completed` or `Failed`.
pub proof fn lemma_transitions(from: StatusView, to: StatusView)
    ensures
        to is Starting ==> AppState::transition_error(from, to) is Some,
        from is Completed || from is Failed ==> AppState::transition_error(from, to) is Some,
        !(to is Starting) && !(from is Completed) && !(from is Failed)
            ==> AppState::transition_error(from, to) is None,
{
}

/// Metrics are taken if and only if the status is `CollectingMetrics`; then a
/// message that is a summary leaves the number of samples received as it is, and
/// any other message adds one to it.
pub proof fn lemma_metrics_count(
    before: AppState,
    metrics: MetricData,
    after: AppState,
    r: Result<(), StateError>,
)
    requires
        before.took_metrics(metrics, after, r),
    ensures
        r is Ok <==> before.current_status() is CollectingMetrics,
        r is Ok && is_summary_message(metrics.metrics@) ==> after.received() == before.received(),
        r is Ok && !is_summary_message(metrics.metrics@) ==> after.received() == before.received()
            + 1,
        r is Err ==> after.received() == before.received(),
{
}

/// The state of one evaluation.
#[derive(Debug)]
pub struct AppState {
    evaluator_name: Option<EvaluatorName>,
    handshake: Option<ValidatedHandshake>,
    status: EvaluationStatus,
    metrics: Vec<MetricData>,
    paused: bool,
    metrics_received: usize,
    samples: Vec<SampleResult>,
    recent_samples: Vec<SampleResult>,
    max_recent_samples: usize,
    eta_calculator: EtaCalculator,
    current_sample: Option<String>,
}

impl AppState {
    /// No more samples are counted than messages are kept, and at most ten samples
    /// are kept for display.
    pub closed spec fn well_formed(self) -> bool {
        &&& self.metrics_received <= self.metrics@.len()
        &&& self.max_recent_samples == MAX_RECENT_SAMPLES
        &&& self.recent_samples@.len() <= MAX_RECENT_SAMPLES
        &&& self.eta_calculator.well_formed()
    }

    /// The name of the evaluator, once it is set.
    pub closed spec fn name(self) -> Option<EvaluatorName> {
        self.evaluator_name
    }

    /// The handshake of the evaluator, once it is set.
    pub closed spec fn accepted_handshake(self) -> Option<ValidatedHandshake> {
        self.handshake
    }

    /// The status.
    pub closed spec fn current_status(self) -> StatusView {
        self.status@
    }

    /// All messages taken so far, oldest first.
    pub closed spec fn history(self) -> Seq<MetricData> {
        self.metrics@
    }

    /// Whether the display is paused.
    pub closed spec fn paused(self) -> bool {
        self.paused
    }

    /// The number of samples received.
    pub closed spec fn received(self) -> usize {
        self.metrics_received
    }

    /// One record for each sample seen, in the order in which they were first seen.
    pub closed spec fn known_samples(self) -> Seq<SampleResult> {
        self.samples@
    }

    /// The samples completed last, oldest first.
    pub closed spec fn recent(self) -> Seq<SampleResult> {
        self.recent_samples@
    }

    /// The sample named last.
    pub closed spec fn current(self) -> Option<Seq<char>> {
        optional_text(self.current_sample)
    }

    /// The progress recorded for the estimate of the time to go.
    pub closed spec fn progress_history(self) -> Seq<(u64, usize)> {
        self.eta_calculator.history()
    }

    /// The number of samples that the evaluator plans, if its handshake says.
    pub open spec fn planned_total(self) -> Option<usize> {
        match self.accepted_handshake() {
            Some(h) => h.total_samples(),
            None => None,
        }
    }

    /// Whether `self` and `other` hold the same messages, samples and progress.
    pub open spec fn same_intake(self, other: AppState) -> bool {
        &&& self.history() == other.history()
        &&& self.received() == other.received()
        &&& self.known_samples() == other.known_samples()
        &&& self.recent() == other.recent()
        &&& self.current() == other.current()
        &&& self.progress_history() == other.progress_history()
    }

    /// A state at its start: no name, no handshake, nothing received, not paused.
    pub fn new() -> (r: AppState)
        ensures
            r.well_formed(),
            r.name() is None,
            r.accepted_handshake() is None,
            r.current_status() is Starting,
            r.history().len() == 0,
            !r.paused(),
            r.received() == 0,
            r.known_samples().len() == 0,
            r.recent().len() == 0,
            r.current() is None,
            r.progress_history().len() == 0,
    {
        AppState {
            evaluator_name: None,
            handshake: None,
            status: EvaluationStatus::Starting,
            metrics: Vec::new(),
            paused: false,
            metrics_received: 0,
            samples: Vec::new(),
            recent_samples: Vec::new(),
            max_recent_samples: MAX_RECENT_SAMPLES,
            eta_calculator: EtaCalculator::new(),
            current_sample: None,
        }
    }

    /// Sets the name of the evaluator, once.
    pub fn set_evaluator_name(&mut self, name: EvaluatorName) -> (r: Result<(), StateError>)
        ensures
            old(self).well_formed() ==> final(self).well_formed(),
            match r {
                Ok(_) => old(self).name() is None && final(self).name() == Some(name),
                Err(e) => old(self).name() is Some && e == StateError::AlreadySet
                    && final(self).name() == old(self).name(),
            },
            final(self).accepted_handshake() == old(self).accepted_handshake(),
            final(self).current_status() == old(self).current_status(),
            final(self).paused() == old(self).paused(),
            final(self).same_intake(*old(self)),
            r is Err ==> *final(self) == *old(self),
    {
        if self.evaluator_name.is_some() {
            return Err(StateError::AlreadySet);
        }
        self.evaluator_name = Some(name);
        Ok(())
    }

    /// Sets the handshake of the evaluator, once.
    pub fn set_handshake(&mut self, handshake: ValidatedHandshake) -> (r: Result<(), StateError>)
        ensures
            old(self).well_formed() ==> final(self).well_formed(),
            match r {
                Ok(_) => old(self).accepted_handshake() is None
                    && final(self).accepted_handshake() == Some(handshake),
                Err(e) => old(self).accepted_handshake() is Some && e == StateError::AlreadySet
                    && final(self).accepted_handshake() == old(self).accepted_handshake(),
            },
            final(self).name() == old(self).name(),
            final(self).current_status() == old(self).current_status(),
            final(self).paused() == old(self).paused(),
            final(self).same_intake(*old(self)),
            r is Err ==> *final(self) == *old(self),
    {
        if self.handshake.is_some() {
            return Err(StateError::AlreadySet);
        }
        self.handshake = Some(handshake);
        Ok(())
    }

    /// Why a status cannot follow another, if it cannot: `Starting` follows
    /// nothing, and nothing follows `Completed` or `Failed`.
    pub open spec fn transition_error(from: StatusView, to: StatusView) -> Option<StateError> {
        if to is Starting {
            Some(StateError::InvalidTransition)
        } else if from.terminal() {
            Some(StateError::TerminalState)
        } else {
            None
        }
    }

    /// Replaces the status, unless the new one is `Starting` or the present one is
    /// `Completed` or `Failed`.
    pub fn update_status(&mut self, new_status: EvaluationStatus) -> (r: Result<(), StateError>)
        ensures
            old(self).well_formed() ==> final(self).well_formed(),
            match r {
                Ok(_) => Self::transition_error(old(self).current_status(), new_status@) is None
                    && final(self).current_status() == new_status@,
                Err(e) => Self::transition_error(old(self).current_status(), new_status@) == Some(
                    e,
                ) && final(self).current_status() == old(self).current_status(),
            },
            final(self).name() == old(self).name(),
            final(self).accepted_handshake() == old(self).accepted_handshake(),
            final(self).paused() == old(self).paused(),
            final(self).same_intake(*old(self)),
            r is Err ==> *final(self) == *old(self),
    {
        match new_status {
            EvaluationStatus::Starting => {
                return Err(StateError::InvalidTransition);
            },
            _ => {},
        }
        if self.status.is_terminal() {
            return Err(StateError::TerminalState);
        }
        self.status = new_status;
        Ok(())
    }

    /// Begins to collect metrics: the status becomes `CollectingMetrics` with
    /// nothing received, of as many samples as the handshake plans.
    pub fn start_collecting(&mut self) -> (r: Result<(), StateError>)
        ensures
            old(self).well_formed() ==> final(self).well_formed(),
            match r {
                Ok(_) => !old(self).current_status().terminal() && final(self).current_status()
                    == (StatusView::CollectingMetrics {
                    received: 0,
                    total: old(self).planned_total(),
                }),
                Err(e) => old(self).current_status().terminal() && e == StateError::TerminalState
                    && final(self).current_status() == old(self).current_status(),
            },
            final(self).name() == old(self).name(),
            final(self).accepted_handshake() == old(self).accepted_handshake(),
            final(self).paused() == old(self).paused(),
            final(self).same_intake(*old(self)),
            r is Err ==> *final(self) == *old(self),
    {
        let total = self.get_total_samples_from_handshake();
        self.update_status(EvaluationStatus::CollectingMetrics { received: 0, total })
    }

    /// Ends the evaluation with the status given.
    pub fn finish(&mut self, final_status: EvaluationStatus) -> (r: Result<(), StateError>)
        ensures
            old(self).well_formed() ==> final(self).well_formed(),
            match r {
                Ok(_) => Self::transition_error(old(self).current_status(), final_status@)
                    is None && final(self).current_status() == final_status@,
                Err(e) => Self::transition_error(old(self).current_status(), final_status@)
                    == Some(e) && final(self).current_status() == old(self).current_status(),
            },
            final(self).name() == old(self).name(),
            final(self).accepted_handshake() == old(self).accepted_handshake(),
            final(self).paused() == old(self).paused(),
            final(self).same_intake(*old(self)),
            r is Err ==> *final(self) == *old(self),
    {
        self.update_status(final_status)
    }

    /// Whether `after` is the state `self` once it has been given the metrics of a
    /// message, and `r` is what it answers.
    ///
    /// The message is refused unless the status is `CollectingMetrics`. Else it is
    /// kept. Unless it is a summary, it counts as one sample; if it names a sample,
    /// that sample is completed with what the message reads and joins the samples
    /// kept for display; and the new count is recorded for the estimate of the time
    /// to go. The status then says how many samples are received, of how many.
    pub open spec fn took_metrics(
        self,
        metrics: MetricData,
        after: AppState,
        r: Result<(), StateError>,
    ) -> bool {
        &&& after.name() == self.name()
        &&& after.accepted_handshake() == self.accepted_handshake()
        &&& after.paused() == self.paused()
        &&& match r {
            Err(e) => {
                &&& !(self.current_status() is CollectingMetrics)
                &&& e == StateError::NotCollecting
                &&& after == self
            },
            Ok(_) => {
                &&& self.current_status() is CollectingMetrics
                &&& after.history() == self.history().push(metrics)
                &&& after.received() == self.received() + if is_summary_message(
                    metrics.metrics@,
                ) {
                    0int
                } else {
                    1int
                }
                &&& after.current_status() == (StatusView::CollectingMetrics {
                    received: after.received(),
                    total: self.planned_total(),
                })
                &&& if is_summary_message(metrics.metrics@) {
                    &&& after.known_samples() == self.known_samples()
                    &&& after.recent() == self.recent()
                    &&& after.current() == self.current()
                    &&& after.progress_history() == self.progress_history()
                } else {
                    &&& exists|now: u64|
                        after.progress_history() == recorded(
                            self.progress_history(),
                            (now, after.received()),
                        )
                    &&& match message_sample_id(metrics.metrics@) {
                        Some(id) => {
                            &&& after.current() == Some(id)
                            &&& sample_completed(
                                self.known_samples(),
                                after.known_samples(),
                                id,
                                message_readings(metrics.metrics@),
                            )
                            &&& recent_pushed(
                                self.recent(),
                                after.recent(),
                                id,
                                message_readings(metrics.metrics@),
                            )
                        },
                        None => {
                            &&& after.known_samples() == self.known_samples()
                            &&& after.recent() == self.recent()
                            &&& after.current() == self.current()
                        },
                    }
                }
            },
        }
    }

    /// Takes the metrics of one message, while the status is `CollectingMetrics`.
    ///
    /// The message is kept. Unless it is a summary, it counts as one sample; if it
    /// names a sample, that sample is completed with what the message reads and
    /// joins the samples kept for display; and the new count is recorded for the
    /// estimate of the time to go. The status then says how many samples are
    /// received, of how many.
    pub fn add_metrics(&mut self, metrics: MetricData) -> (r: Result<(), StateError>)
        requires
            old(self).well_formed(),
        ensures
            final(self).well_formed(),
            old(self).took_metrics(metrics, *final(self), r),
    {
        match self.status {
            EvaluationStatus::CollectingMetrics { .. } => {},
            _ => {
                return Err(StateError::NotCollecting);
            },
        }
        let is_summary = Self::is_summary_metrics(&metrics);
        if !is_summary {
            match Self::extract_sample_id(&metrics) {
                Some(sample_id) => {
                    let current = sample_id.clone();
                    self.process_sample_metrics(sample_id, &metrics);
                    self.current_sample = Some(current);
                },
                None => {},
            }
        }
        self.metrics.push(metrics);
        let kept: usize = self.metrics.len();
        if !is_summary {
            assert(self.metrics_received < kept);
            self.metrics_received += 1;
            let ghost before = self.eta_calculator.history();
            self.eta_calculator.record_progress(self.metrics_received);
            proof {
                let now = choose|now: u64|
                    self.eta_calculator.history() == recorded(
                        before,
                        (now, self.metrics_received),
                    );
                assert(self.progress_history() == recorded(
                    old(self).progress_history(),
                    (now, self.received()),
                ));
            }
        }
        let total = self.get_total_samples_from_handshake();
        self.status = EvaluationStatus::CollectingMetrics { received: self.metrics_received,
            total };
        Ok(())
    }

    /// Turns the pause of the display on or off. Metrics are taken either way.
    pub fn toggle_pause(&mut self)
        ensures
            old(self).well_formed() ==> final(self).well_formed(),
            final(self).paused() == !old(self).paused(),
            final(self).name() == old(self).name(),
            final(self).accepted_handshake() == old(self).accepted_handshake(),
            final(self).current_status() == old(self).current_status(),
            final(self).same_intake(*old(self)),
    {
        self.paused = !self.paused;
    }

    /// Whether the evaluation has ended, well or not.
    pub fn is_terminal(&self) -> (r: bool)
        ensures
            r == self.current_status().terminal(),
    {
        self.status.is_terminal()
    }

    /// The name of the evaluator, once it is set.
    pub fn evaluator_name(&self) -> (r: Option<&EvaluatorName>)
        ensures
            match r {
                Some(name) => self.name() == Some(*name),
                None => self.name() is None,
            },
    {
        self.evaluator_name.as_ref()
    }

    /// The status.
    pub fn status(&self) -> (r: &EvaluationStatus)
        ensures
            r@ == self.current_status(),
    {
        &self.status
    }

    /// All messages taken so far, oldest first.
    pub fn metrics(&self) -> (r: &Vec<MetricData>)
        ensures
            r@ == self.history(),
    {
        &self.metrics
    }

    /// Whether the display is paused.
    pub fn is_paused(&self) -> (r: bool)
        ensures
            r == self.paused(),
    {
        self.paused
    }

    /// The handshake of the evaluator, once it is set.
    pub fn handshake(&self) -> (r: Option<&ValidatedHandshake>)
        ensures
            match r {
                Some(h) => self.accepted_handshake() == Some(*h),
                None => self.accepted_handshake() is None,
            },
    {
        self.handshake.as_ref()
    }

    /// The samples completed last, oldest first.
    pub fn recent_samples(&self) -> (r: &Vec<SampleResult>)
        ensures
            r@ == self.recent(),
    {
        &self.recent_samples
    }

    /// The sample named last.
    pub fn current_sample(&self) -> (r: Option<&str>)
        ensures
            match r {
                Some(id) => self.current() == Some(id@),
                None => self.current() is None,
            },
    {
        match &self.current_sample {
            Some(id) => Some(id.as_str()),
            None => None,
        }
    }

    /// The nanoseconds to go until all planned samples are received, at the rate
    /// at which they have come: none where no number is planned.
    pub fn calculate_eta(&self) -> (r: Option<u128>)
        requires
            self.well_formed(),
        ensures
            match self.planned_total() {
                Some(total) => exists|elapsed: u64|
                    r == eta_nanos(self.progress_history(), elapsed, self.received(), total),
                None => r is None,
            },
            self.received() == 0 ==> r is None,
    {
        match self.get_total_samples_from_handshake() {
            Some(total) => {
                let r = self.eta_calculator.calculate_eta(self.metrics_received, total);
                proof {
                    let elapsed = choose|elapsed: u64|
                        r == eta_nanos(
                            self.eta_calculator.history(),
                            elapsed,
                            self.metrics_received,
                            total,
                        );
                    assert(r == eta_nanos(
                        self.progress_history(),
                        elapsed,
                        self.received(),
                        total,
                    ));
                }
                r
            },
            None => None,
        }
    }

    /// The time since the state was made.
    pub fn elapsed_time(&self) -> Duration {
        self.eta_calculator.elapsed()
    }

    /// The samples received, and how many are planned, if that is known.
    pub fn progress(&self) -> (r: (usize, Option<usize>))
        ensures
            r.0 == self.received(),
            r.1 == self.planned_total(),
    {
        (self.metrics_received, self.get_total_samples_from_handshake())
    }

    /// Of the samples kept for display: how many have failed, and how many there are.
    pub fn summary_stats(&self) -> (r: (usize, usize))
        ensures
            r.0 == failed_count(self.recent()),
            r.1 == self.recent().len(),
    {
        let n: usize = self.recent_samples.len();
        let mut failed: usize = 0;
        let mut i: usize = 0;
        while i < n
            invariant
                i <= n,
                n == self.recent_samples@.len(),
                failed <= i,
                failed == failed_count(self.recent_samples@.take(i as int)),
            decreases n - i,
        {
            proof {
                assert(self.recent_samples@.take(i + 1).drop_last() =~= self.recent_samples@.take(
                    i as int,
                ));
            }
            match self.recent_samples[i].status {
                SampleStatus::Failed(_) => {
                    failed += 1;
                },
                _ => {},
            }
            i += 1;
        }
        proof {
            assert(self.recent_samples@.take(n as int) =~= self.recent_samples@);
        }
        (failed, n)
    }

    /// Whether a message is a summary: one of its metrics is.
    pub fn is_summary_metrics(metrics: &MetricData) -> (r: bool)
        ensures
            r == is_summary_message(metrics.metrics@),
    {
        let n: usize = metrics.metrics.len();
        let mut i: usize = 0;
        while i < n
            invariant
                i <= n,
                n == metrics.metrics@.len(),
                forall|k: int| 0 <= k < i ==> !((#[trigger] metrics.metrics@[k]) is Summary),
            decreases n - i,
        {
            if !metrics.metrics[i].counts_toward_progress() {
                return true;
            }
            i += 1;
        }
        false
    }

    /// The number of samples that the evaluator plans, if its handshake says.
    pub fn get_total_samples_from_handshake(&self) -> (r: Option<usize>)
        ensures
            r == self.planned_total(),
    {
        match &self.handshake {
            Some(h) => h.planned_samples(),
            None => None,
        }
    }

    /// The sample that the first of `points` names that names one.
    pub fn sample_id_of_points<V>(points: &Vec<DataPoint<V>>) -> (r: Option<String>)
        ensures
            optional_text(r) == points_sample_id(points@),
    {
        let n: usize = points.len();
        let mut i: usize = 0;
        while i < n
            invariant
                i <= n,
                n == points@.len(),
                forall|k: int|
                    0 <= k < i ==> sample_named(#[trigger] attribute_views(points@)[k]) is None,
            decreases n - i,
        {
            match names_sample(&points[i].attributes) {
                Some(id) => {
                    proof {
                        lemma_first_found(
                            attribute_views(points@),
                            |a: Seq<(Seq<char>, AttributeValueView)>| sample_named(a),
                            i as int,
                        );
                    }
                    return Some(id);
                },
                None => {},
            }
            i += 1;
        }
        proof {
            lemma_first_found(
                attribute_views(points@),
                |a: Seq<(Seq<char>, AttributeValueView)>| sample_named(a),
                n as int,
            );
        }
        None
    }

    /// The sample that a message names: the text under `sample.id` of the first
    /// point, of a metric that is no summary, that has such a text.
    pub fn extract_sample_id(metrics: &MetricData) -> (r: Option<String>)
        ensures
            optional_text(r) == message_sample_id(metrics.metrics@),
    {
        let n: usize = metrics.metrics.len();
        let mut i: usize = 0;
        while i < n
            invariant
                i <= n,
                n == metrics.metrics@.len(),
                forall|k: int| 0 <= k < i
                    ==> metric_sample_id(#[trigger] metrics.metrics@[k]) is None,
            decreases n - i,
        {
            let found = match &metrics.metrics[i] {
                Metric::Sample(sample_metric) => match sample_metric {
                    SampleMetric::Gauge { data_points, .. } => Self::sample_id_of_points(
                        data_points,
                    ),
                    SampleMetric::Counter { data_points, .. } => Self::sample_id_of_points(
                        data_points,
                    ),
                    SampleMetric::Histogram { data_points, .. } => Self::sample_id_of_points(
                        data_points,
                    ),
                },
                Metric::Summary(_) => None,
            };
            match found {
                Some(id) => {
                    proof {
                        lemma_first_found(
                            metrics.metrics@,
                            |m: Metric| metric_sample_id(m),
                            i as int,
                        );
                    }
                    return Some(id);
                },
                None => {},
            }
            i += 1;
        }
        proof {
            lemma_first_found(metrics.metrics@, |m: Metric| metric_sample_id(m), n as int);
        }
        None
    }

    /// What one metric reads, point by point, under its name.
    pub fn extract_metric_readings(metric: &Metric) -> (r: Vec<(String, SampleValue)>)
        ensures
            readings_view(r@) == metric_readings(*metric),
    {
        let mut out: Vec<(String, SampleValue)> = Vec::new();
        match metric {
            Metric::Sample(sample_metric) => match sample_metric {
                SampleMetric::Gauge { name, data_points, .. } => {
                    let n: usize = data_points.len();
                    let mut i: usize = 0;
                    while i < n
                        invariant
                            i <= n,
                            n == data_points@.len(),
                            out@.len() == i,
                            forall|k: int|
                                0 <= k < i ==> (#[trigger] out@[k]).0@ == name@ && out@[k].1
                                    == SampleValue::Exact(data_points@[k].value@),
                        decreases n - i,
                    {
                        out.push(
                            (name.as_ref().to_owned(),
                                SampleValue::Exact(data_points[i].value.value())),
                        );
                        i += 1;
                    }
                    proof {
                        assert(readings_view(out@) =~= metric_readings(*metric));
                    }
                },
                SampleMetric::Counter { name, data_points, .. } => {
                    let n: usize = data_points.len();
                    let mut i: usize = 0;
                    while i < n
                        invariant
                            i <= n,
                            n == data_points@.len(),
                            out@.len() == i,
                            forall|k: int|
                                0 <= k < i ==> (#[trigger] out@[k]).0@ == name@ && out@[k].1
                                    == SampleValue::Exact(data_points@[k].value@),
                        decreases n - i,
                    {
                        out.push(
                            (name.as_ref().to_owned(),
                                SampleValue::Exact(data_points[i].value.value())),
                        );
                        i += 1;
                    }
                    proof {
                        assert(readings_view(out@) =~= metric_readings(*metric));
                    }
                },
                SampleMetric::Histogram { name, data_points, .. } => {
                    let n: usize = data_points.len();
                    let mut i: usize = 0;
                    while i < n
                        invariant
                            i <= n,
                            n == data_points@.len(),
                            out@.len() == i,
                            forall|k: int|
                                0 <= k < i ==> (#[trigger] out@[k]).0@ == name@ && out@[k].1 == (
                                SampleValue::Mean {
                                    sum: data_points@[k].value.sum,
                                    count: data_points@[k].value.count,
                                }),
                        decreases n - i,
                    {
                        out.push(
                            (
                                name.as_ref().to_owned(),
                                SampleValue::Mean {
                                    sum: data_points[i].value.sum,
                                    count: data_points[i].value.count,
                                },
                            ),
                        );
                        i += 1;
                    }
                    proof {
                        assert(readings_view(out@) =~= metric_readings(*metric));
                    }
                },
            },
            Metric::Summary(_) => {
                proof {
                    assert(readings_view(out@) =~= metric_readings(*metric));
                }
            },
        }
        out
    }

    /// What the metrics of a message read, metric after metric.
    pub fn extract_readings(metrics: &MetricData) -> (r: Vec<(String, SampleValue)>)
        ensures
            readings_view(r@) == message_readings(metrics.metrics@),
    {
        let n: usize = metrics.metrics.len();
        let mut out: Vec<(String, SampleValue)> = Vec::new();
        let mut i: usize = 0;
        proof {
            assert(readings_view(out@) =~= message_readings(metrics.metrics@.take(0)));
        }
        while i < n
            invariant
                i <= n,
                n == metrics.metrics@.len(),
                readings_view(out@) == message_readings(metrics.metrics@.take(i as int)),
            decreases n - i,
        {
            let mut more = Self::extract_metric_readings(&metrics.metrics[i]);
            proof {
                assert(metrics.metrics@.take(i + 1).drop_last()
                    =~= metrics.metrics@.take(i as int));
                assert(readings_view(out@ + more@) =~= readings_view(out@) + readings_view(more@));
            }
            out.append(&mut more);
            i += 1;
        }
        proof {
            assert(metrics.metrics@.take(n as int) =~= metrics.metrics@);
        }
        out
    }

    /// Completes the sample `sample_id` with what a message reads: its record is
    /// made or renewed, and a copy joins the samples kept for display, of which the
    /// oldest leaves where there would be more than ten.
    pub fn process_sample_metrics(&mut self, sample_id: String, metrics: &MetricData)
        requires
            old(self).well_formed(),
        ensures
            final(self).well_formed(),
            sample_completed(
                old(self).known_samples(),
                final(self).known_samples(),
                sample_id@,
                message_readings(metrics.metrics@),
            ),
            recent_pushed(
                old(self).recent(),
                final(self).recent(),
                sample_id@,
                message_readings(metrics.metrics@),
            ),
            final(self).name() == old(self).name(),
            final(self).accepted_handshake() == old(self).accepted_handshake(),
            final(self).current_status() == old(self).current_status(),
            final(self).paused() == old(self).paused(),
            final(self).history() == old(self).history(),
            final(self).received() == old(self).received(),
            final(self).current() == old(self).current(),
            final(self).progress_history() == old(self).progress_history(),
    {
        let extracted_metrics = Self::extract_readings(metrics);
        let mut sample_result = SampleResult::new_processing(sample_id);
        sample_result.mark_completed(extracted_metrics);
        let copy = sample_result.clone();

        let n: usize = self.samples.len();
        let mut at: usize = 0;
        let mut found: bool = false;
        while at < n && !found
            invariant
                at <= n,
                n == self.samples@.len(),
                self.samples@ == old(self).samples@,
                found ==> at < n && self.samples@[at as int].sample_id@ == sample_result.sample_id@,
                forall|k: int|
                    0 <= k < at ==> (#[trigger] self.samples@[k]).sample_id@
                        != sample_result.sample_id@,
            decreases n - at + if found { 0int } else { 1int },
        {
            if crate::text::str_equal(
                self.samples[at].sample_id.as_str(),
                sample_result.sample_id.as_str(),
            ) {
                found = true;
            } else {
                at += 1;
            }
        }
        proof {
            lemma_sample_position(self.samples@, sample_result.sample_id@, at as int);
        }
        if at < n {
            self.samples.set(at, sample_result);
        } else {
            self.samples.push(sample_result);
        }
        self.recent_samples.push(copy);
        if self.recent_samples.len() > self.max_recent_samples {
            self.recent_samples.remove(0);
            proof {
                let pushed = old(self).recent_samples@.push(copy);
                assert(pushed.remove(0).drop_last() =~= old(self).recent_samples@.drop_first());
            }
        } else {
            proof {
                assert(old(self).recent_samples@.push(copy).drop_last()
                    =~= old(self).recent_samples@);
            }
        }
    }
}

impl Default for AppState {
    fn default() -> (r: AppState)
        ensures
            r.well_formed(),
            r.name() is None,
            r.accepted_handshake() is None,
            r.current_status() is Starting,
            r.history().len() == 0,
            !r.paused(),
            r.received() == 0,
            r.known_samples().len() == 0,
            r.recent().len() == 0,
            r.current() is None,
            r.progress_history().len() == 0,
    {
        AppState::new()
    }
}

impl StateError {
    /// The error in words.
    pub open spec fn text(self) -> Seq<char> {
        match self {
            StateError::AlreadySet => "value is already set"@,
            StateError::InvalidTransition => "cannot transition back to starting"@,
            StateError::NotCollecting => "cannot add metrics when not collecting"@,
            StateError::TerminalState => "cannot transition from terminal state"@,
        }
    }

    /// The error in words.
    pub fn message(&self) -> (r: String)
        ensures
            r@ == self.text(),
    {
        match self {
            StateError::AlreadySet => "value is already set".to_owned(),
            StateError::InvalidTransition => "cannot transition back to starting".to_owned(),
            StateError::NotCollecting => "cannot add metrics when not collecting".to_owned(),
            StateError::TerminalState => "cannot transition from terminal state".to_owned(),
        }
    }
}

} // verus!

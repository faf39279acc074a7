//! The handshake: the first message of an evaluator, raw and validated.

use vstd::prelude::*;
use vstd::string::*;
use crate::first::{
    first_found, lemma_first_found, lemma_first_found_place, lemma_first_found_same,
};
use crate::json::optional_text;
use crate::text::{
    blank, bounded_text, bounded_text_error, is_blank, trim, NumberError, TextError,
};

verus! {

/// A protocol version: 1 to 32 characters, trimmed.
#[derive(Debug, PartialEq, Eq)]
pub struct ProtocolVersion {
    value: String,
}

impl View for ProtocolVersion {
    type V = Seq<char>;

    closed spec fn view(&self) -> Seq<char> {
        self.value@
    }
}

impl Clone for ProtocolVersion {
    fn clone(&self) -> (r: ProtocolVersion)
        ensures
            r@ == self@,
    {
        proof {
            use_type_invariant(self);
        }
        ProtocolVersion { value: self.value.clone() }
    }
}

impl ProtocolVersion {
    #[verifier::type_invariant]
    spec fn well_formed(self) -> bool {
        0 < self.value@.len() <= 32 && trim(self.value@) == self.value@
    }

    /// Trims `raw` and accepts it as a protocol version if 1 to 32 characters are left.
    pub fn try_new(raw: &str) -> (r: Result<ProtocolVersion, TextError>)
        ensures
            match r {
                Ok(v) => bounded_text_error(raw@, 32) is None && v@ == trim(raw@),
                Err(e) => bounded_text_error(raw@, 32) == Some(e),
            },
    {
        match bounded_text(raw, 32) {
            Ok(value) => Ok(ProtocolVersion { value }),
            Err(e) => Err(e),
        }
    }

    /// The text.
    pub fn as_ref(&self) -> (r: &str)
        ensures
            r@ == self@,
            0 < r@.len() <= 32,
            trim(r@) == r@,
    {
        proof {
            use_type_invariant(self);
        }
        self.value.as_str()
    }

    /// The value that is held.
    pub fn into_inner(self) -> (r: String)
        ensures
            r@ == self@,
            0 < r@.len() <= 32,
            trim(r@) == r@,
    {
        proof {
            use_type_invariant(&self);
        }
        self.value
    }
}

/// An evaluator's description: 1 to 512 characters, trimmed.
#[derive(Debug, PartialEq, Eq)]
pub struct EvaluatorDescription {
    value: String,
}

impl View for EvaluatorDescription {
    type V = Seq<char>;

    closed spec fn view(&self) -> Seq<char> {
        self.value@
    }
}

impl Clone for EvaluatorDescription {
    fn clone(&self) -> (r: EvaluatorDescription)
        ensures
            r@ == self@,
    {
        proof {
            use_type_invariant(self);
        }
        EvaluatorDescription { value: self.value.clone() }
    }
}

impl EvaluatorDescription {
    #[verifier::type_invariant]
    spec fn well_formed(self) -> bool {
        0 < self.value@.len() <= 512 && trim(self.value@) == self.value@
    }

    /// Trims `raw` and accepts it as a description if 1 to 512 characters are left.
    pub fn try_new(raw: &str) -> (r: Result<EvaluatorDescription, TextError>)
        ensures
            match r {
                Ok(v) => bounded_text_error(raw@, 512) is None && v@ == trim(raw@),
                Err(e) => bounded_text_error(raw@, 512) == Some(e),
            },
    {
        match bounded_text(raw, 512) {
            Ok(value) => Ok(EvaluatorDescription { value }),
            Err(e) => Err(e),
        }
    }

    /// The text.
    pub fn as_ref(&self) -> (r: &str)
        ensures
            r@ == self@,
            0 < r@.len() <= 512,
            trim(r@) == r@,
    {
        proof {
            use_type_invariant(self);
        }
        self.value.as_str()
    }

    /// The value that is held.
    pub fn into_inner(self) -> (r: String)
        ensures
            r@ == self@,
            0 < r@.len() <= 512,
            trim(r@) == r@,
    {
        proof {
            use_type_invariant(&self);
        }
        self.value
    }
}

/// The name of a declared metric: 1 to 128 characters, trimmed.
#[derive(Debug, PartialEq, Eq, Hash)]
pub struct MetricDefinitionName {
    value: String,
}

impl View for MetricDefinitionName {
    type V = Seq<char>;

    closed spec fn view(&self) -> Seq<char> {
        self.value@
    }
}

impl Clone for MetricDefinitionName {
    fn clone(&self) -> (r: MetricDefinitionName)
        ensures
            r@ == self@,
    {
        proof {
            use_type_invariant(self);
        }
        MetricDefinitionName { value: self.value.clone() }
    }
}

impl MetricDefinitionName {
    #[verifier::type_invariant]
    spec fn well_formed(self) -> bool {
        0 < self.value@.len() <= 128 && trim(self.value@) == self.value@
    }

    /// Trims `raw` and accepts it as a metric's name if 1 to 128 characters are left.
    pub fn try_new(raw: &str) -> (r: Result<MetricDefinitionName, TextError>)
        ensures
            match r {
                Ok(v) => bounded_text_error(raw@, 128) is None && v@ == trim(raw@),
                Err(e) => bounded_text_error(raw@, 128) == Some(e),
            },
    {
        match bounded_text(raw, 128) {
            Ok(value) => Ok(MetricDefinitionName { value }),
            Err(e) => Err(e),
        }
    }

    /// The text.
    pub fn as_ref(&self) -> (r: &str)
        ensures
            r@ == self@,
            0 < r@.len() <= 128,
            trim(r@) == r@,
    {
        proof {
            use_type_invariant(self);
        }
        self.value.as_str()
    }

    /// The value that is held.
    pub fn into_inner(self) -> (r: String)
        ensures
            r@ == self@,
            0 < r@.len() <= 128,
            trim(r@) == r@,
    {
        proof {
            use_type_invariant(&self);
        }
        self.value
    }
}

/// The unit of a declared metric: 1 to 32 characters, trimmed.
#[derive(Debug, PartialEq, Eq)]
pub struct MetricUnit {
    value: String,
}

impl View for MetricUnit {
    type V = Seq<char>;

    closed spec fn view(&self) -> Seq<char> {
        self.value@
    }
}

impl Clone for MetricUnit {
    fn clone(&self) -> (r: MetricUnit)
        ensures
            r@ == self@,
    {
        proof {
            use_type_invariant(self);
        }
        MetricUnit { value: self.value.clone() }
    }
}

impl MetricUnit {
    #[verifier::type_invariant]
    spec fn well_formed(self) -> bool {
        0 < self.value@.len() <= 32 && trim(self.value@) == self.value@
    }

    /// Trims `raw` and accepts it as a metric's unit if 1 to 32 characters are left.
    pub fn try_new(raw: &str) -> (r: Result<MetricUnit, TextError>)
        ensures
            match r {
                Ok(v) => bounded_text_error(raw@, 32) is None && v@ == trim(raw@),
                Err(e) => bounded_text_error(raw@, 32) == Some(e),
            },
    {
        match bounded_text(raw, 32) {
            Ok(value) => Ok(MetricUnit { value }),
            Err(e) => Err(e),
        }
    }

    /// The text.
    pub fn as_ref(&self) -> (r: &str)
        ensures
            r@ == self@,
            0 < r@.len() <= 32,
            trim(r@) == r@,
    {
        proof {
            use_type_invariant(self);
        }
        self.value.as_str()
    }

    /// The value that is held.
    pub fn into_inner(self) -> (r: String)
        ensures
            r@ == self@,
            0 < r@.len() <= 32,
            trim(r@) == r@,
    {
        proof {
            use_type_invariant(&self);
        }
        self.value
    }
}

/// The number of samples of a run: above zero.
#[derive(Clone, Copy, Debug, PartialEq, Eq, PartialOrd, Ord)]
pub struct TotalSamples {
    value: u32,
}

impl View for TotalSamples {
    type V = u32;

    closed spec fn view(&self) -> u32 {
        self.value
    }
}

impl TotalSamples {
    #[verifier::type_invariant]
    spec fn well_formed(self) -> bool {
        self.value > 0
    }

    /// Accepts `value` as a number of samples if it is above zero.
    pub fn try_new(value: u32) -> (r: Result<TotalSamples, NumberError>)
        ensures
            match r {
                Ok(v) => value > 0 && v@ == value,
                Err(e) => value == 0 && e == NumberError::NotPositive,
            },
    {
        if value > 0 {
            Ok(TotalSamples { value })
        } else {
            Err(NumberError::NotPositive)
        }
    }

    /// The value that is held.
    pub fn into_inner(self) -> (r: u32)
        ensures
            r == self@,
            r > 0,
    {
        proof {
            use_type_invariant(&self);
        }
        self.value
    }
}

/// The size of a batch: above zero.
#[derive(Clone, Copy, Debug, PartialEq, Eq, PartialOrd, Ord)]
pub struct BatchSize {
    value: u32,
}

impl View for BatchSize {
    type V = u32;

    closed spec fn view(&self) -> u32 {
        self.value
    }
}

impl BatchSize {
    #[verifier::type_invariant]
    spec fn well_formed(self) -> bool {
        self.value > 0
    }

    /// Accepts `value` as a batch size if it is above zero.
    pub fn try_new(value: u32) -> (r: Result<BatchSize, NumberError>)
        ensures
            match r {
                Ok(v) => value > 0 && v@ == value,
                Err(e) => value == 0 && e == NumberError::NotPositive,
            },
    {
        if value > 0 {
            Ok(BatchSize { value })
        } else {
            Err(NumberError::NotPositive)
        }
    }

    /// The value that is held.
    pub fn into_inner(self) -> (r: u32)
        ensures
            r == self@,
            r > 0,
    {
        proof {
            use_type_invariant(&self);
        }
        self.value
    }
}

/// How the evaluator runs.
#[derive(Clone, Copy, Debug, PartialEq, Eq, Structural)]
pub enum EvaluationMode {
    TestSuite,
    OnlineCollection,
    Continuous,
}

/// Who the evaluator is, as it says.
#[derive(Clone, Debug, PartialEq, Eq)]
pub struct EvaluatorInfo {
    pub name: String,
    pub description: Option<String>,
    pub version: Option<String>,
}

/// How much the evaluator is going to do, as it says.
#[derive(Clone, Copy, Debug, PartialEq, Eq, Structural)]
pub struct ExecutionPlan {
    pub total_samples: u32,
    pub batch_size: Option<u32>,
}

/// A metric that the evaluator declares.
#[derive(Clone, Debug, PartialEq, Eq)]
pub struct MetricDefinition {
    pub name: String,
    pub description: Option<String>,
    pub unit: Option<String>,
}

/// The handshake as the evaluator wrote it.
#[derive(Clone, Debug, PartialEq, Eq)]
pub struct Handshake {
    pub msg_type: String,
    pub mode: EvaluationMode,
    pub version: String,
    pub evaluator: EvaluatorInfo,
    pub execution_plan: Option<ExecutionPlan>,
    pub metrics_schema: Vec<MetricDefinition>,
}

/// A handshake whose every field is within its bounds.
#[derive(Clone, Debug)]
pub struct ValidatedHandshake {
    pub mode: EvaluationMode,
    pub version: ProtocolVersion,
    pub evaluator: ValidatedEvaluatorInfo,
    pub execution_plan: Option<ValidatedExecutionPlan>,
    pub metrics_schema: Vec<ValidatedMetricDefinition>,
}

#[derive(Clone, Debug)]
pub struct ValidatedEvaluatorInfo {
    /// Not blank; kept as written.
    pub name: String,
    pub description: Option<EvaluatorDescription>,
    pub version: Option<String>,
}

#[derive(Clone, Copy, Debug)]
pub struct ValidatedExecutionPlan {
    pub total_samples: TotalSamples,
    pub batch_size: Option<BatchSize>,
}

#[derive(Clone, Debug)]
pub struct ValidatedMetricDefinition {
    pub name: MetricDefinitionName,
    pub description: Option<String>,
    pub unit: Option<MetricUnit>,
}

/// The field of a handshake that is out of bounds, and how.
#[derive(Clone, Copy, Debug, PartialEq, Eq, Structural)]
pub enum ValidationError {
    InvalidVersion(TextError),
    EmptyEvaluatorName,
    InvalidDescription(TextError),
    InvalidTotalSamples(NumberError),
    InvalidBatchSize(NumberError),
    InvalidMetricName(TextError),
    InvalidMetricUnit(TextError),
}

/// What is wrong with an evaluator's description of itself, if anything: a blank
/// name, else a description out of bounds.
pub open spec fn evaluator_info_error(info: EvaluatorInfo) -> Option<ValidationError> {
    if is_blank(info.name@) {
        Some(ValidationError::EmptyEvaluatorName)
    } else {
        match info.description {
            Some(d) => match bounded_text_error(d@, 512) {
                Some(e) => Some(ValidationError::InvalidDescription(e)),
                None => None,
            },
            None => None,
        }
    }
}

/// What is wrong with an execution plan, if anything: no samples, else an empty batch.
pub open spec fn execution_plan_error(plan: ExecutionPlan) -> Option<ValidationError> {
    if plan.total_samples == 0 {
        Some(ValidationError::InvalidTotalSamples(NumberError::NotPositive))
    } else if plan.batch_size == Some(0u32) {
        Some(ValidationError::InvalidBatchSize(NumberError::NotPositive))
    } else {
        None
    }
}

/// What is wrong with a declared metric, if anything: its name, else its unit.
pub open spec fn metric_definition_error(def: MetricDefinition) -> Option<ValidationError> {
    match bounded_text_error(def.name@, 128) {
        Some(e) => Some(ValidationError::InvalidMetricName(e)),
        None => match def.unit {
            Some(u) => match bounded_text_error(u@, 32) {
                Some(e) => Some(ValidationError::InvalidMetricUnit(e)),
                None => None,
            },
            None => None,
        },
    }
}

/// What is wrong with the first declared metric that has anything wrong.
pub open spec fn metrics_schema_error(defs: Seq<MetricDefinition>) -> Option<ValidationError> {
    first_found(defs, |def: MetricDefinition| metric_definition_error(def))
}

/// The first thing wrong with a handshake, if anything is: the version, the
/// evaluator, the execution plan and the declared metrics are looked at in this order.
pub open spec fn handshake_error(h: Handshake) -> Option<ValidationError> {
    match bounded_text_error(h.version@, 32) {
        Some(e) => Some(ValidationError::InvalidVersion(e)),
        None => match evaluator_info_error(h.evaluator) {
            Some(e) => Some(e),
            None => match h.execution_plan {
                Some(plan) if execution_plan_error(plan) is Some => execution_plan_error(plan),
                _ => metrics_schema_error(h.metrics_schema@),
            },
        },
    }
}

/// Whether two declared metrics hold the same texts.
pub open spec fn same_definition(a: MetricDefinition, b: MetricDefinition) -> bool {
    &&& a.name@ == b.name@
    &&& optional_text(a.description) == optional_text(b.description)
    &&& optional_text(a.unit) == optional_text(b.unit)
}

/// Whether two handshakes hold the same texts and numbers.
pub open spec fn same_handshake(a: Handshake, b: Handshake) -> bool {
    &&& a.msg_type@ == b.msg_type@
    &&& a.mode == b.mode
    &&& a.version@ == b.version@
    &&& a.evaluator.name@ == b.evaluator.name@
    &&& optional_text(a.evaluator.description) == optional_text(b.evaluator.description)
    &&& optional_text(a.evaluator.version) == optional_text(b.evaluator.version)
    &&& a.execution_plan == b.execution_plan
    &&& a.metrics_schema@.len() == b.metrics_schema@.len()
    &&& forall|i: int|
        0 <= i < a.metrics_schema@.len() ==> same_definition(
            #[trigger] a.metrics_schema@[i],
            b.metrics_schema@[i],
        )
}

/// Handshakes that hold the same texts and numbers have the same thing wrong with
/// them, and the same validated handshakes agree with them.
pub proof fn lemma_same_handshake(a: Handshake, b: Handshake)
    requires
        same_handshake(a, b),
    ensures
        handshake_error(a) == handshake_error(b),
        forall|v: ValidatedHandshake| v.agrees_with(a) == v.agrees_with(b),
{
    let check = |def: MetricDefinition| metric_definition_error(def);
    assert forall|k: int| 0 <= k < a.metrics_schema@.len() implies check(
        #[trigger] a.metrics_schema@[k],
    ) == check(b.metrics_schema@[k]) by {
        assert(same_definition(a.metrics_schema@[k], b.metrics_schema@[k]));
    }
    lemma_first_found_same(a.metrics_schema@, b.metrics_schema@, check);
    assert forall|v: ValidatedHandshake| v.agrees_with(a) == v.agrees_with(b) by {
        if v.agrees_with(a) {
            assert forall|i: int| 0 <= i < b.metrics_schema@.len() implies (
            #[trigger] v.metrics_schema@[i]).agrees_with(b.metrics_schema@[i]) by {
                assert(same_definition(a.metrics_schema@[i], b.metrics_schema@[i]));
            }
        }
        if v.agrees_with(b) {
            assert forall|i: int| 0 <= i < a.metrics_schema@.len() implies (
            #[trigger] v.metrics_schema@[i]).agrees_with(a.metrics_schema@[i]) by {
                assert(same_definition(a.metrics_schema@[i], b.metrics_schema@[i]));
            }
        }
    }
}

/// A handshake whose every field is within its bounds has nothing wrong with it.
pub proof fn lemma_handshake_within_bounds(h: Handshake)
    requires
        bounded_text_error(h.version@, 32) is None,
        evaluator_info_error(h.evaluator) is None,
        h.execution_plan matches Some(plan) ==> execution_plan_error(plan) is None,
        forall|i: int|
            0 <= i < h.metrics_schema@.len() ==> metric_definition_error(
                #[trigger] h.metrics_schema@[i],
            ) is None,
    ensures
        handshake_error(h) is None,
{
    lemma_first_found(
        h.metrics_schema@,
        |def: MetricDefinition| metric_definition_error(def),
        h.metrics_schema@.len() as int,
    );
}

/// The cause that is reported for a handshake is the cause for which one of its
/// fields is out of bounds.
pub proof fn lemma_handshake_cause(h: Handshake)
    ensures
        match handshake_error(h) {
            Some(ValidationError::InvalidVersion(e)) => bounded_text_error(h.version@, 32)
                == Some(e),
            Some(ValidationError::EmptyEvaluatorName) => is_blank(h.evaluator.name@),
            Some(ValidationError::InvalidDescription(e)) => h.evaluator.description matches Some(
                d,
            ) && bounded_text_error(d@, 512) == Some(e),
            Some(ValidationError::InvalidTotalSamples(_)) => h.execution_plan matches Some(plan)
                && plan.total_samples == 0,
            Some(ValidationError::InvalidBatchSize(_)) => h.execution_plan matches Some(plan)
                && plan.batch_size == Some(0u32),
            Some(ValidationError::InvalidMetricName(e)) => exists|i: int|
                0 <= i < h.metrics_schema@.len() && bounded_text_error(
                    (#[trigger] h.metrics_schema@[i]).name@,
                    128,
                ) == Some(e),
            Some(ValidationError::InvalidMetricUnit(e)) => exists|i: int|
                0 <= i < h.metrics_schema@.len() && (#[trigger] h.metrics_schema@[i]).unit is Some
                    && bounded_text_error(h.metrics_schema@[i].unit.unwrap()@, 32) == Some(e),
            None => true,
        },
{
    let find = |def: MetricDefinition| metric_definition_error(def);
    if first_found(h.metrics_schema@, find) is Some {
        let i = lemma_first_found_place(h.metrics_schema@, find);
        assert(metric_definition_error(h.metrics_schema@[i]) == first_found(
            h.metrics_schema@,
            find,
        ));
    }
}

/// The text of an optional description, if there is one.
pub open spec fn description_text(d: Option<EvaluatorDescription>) -> Option<Seq<char>> {
    match d {
        Some(t) => Some(t@),
        None => None,
    }
}

/// The text of an optional unit, if there is one.
pub open spec fn unit_text(u: Option<MetricUnit>) -> Option<Seq<char>> {
    match u {
        Some(t) => Some(t@),
        None => None,
    }
}

/// An optional text, trimmed.
pub open spec fn trimmed_text(s: Option<String>) -> Option<Seq<char>> {
    match s {
        Some(t) => Some(trim(t@)),
        None => None,
    }
}

impl ValidatedEvaluatorInfo {
    /// Whether `self` says what `info` says: the name and the version as written,
    /// the description trimmed.
    pub open spec fn agrees_with(self, info: EvaluatorInfo) -> bool {
        &&& self.name@ == info.name@
        &&& description_text(self.description) == trimmed_text(info.description)
        &&& optional_text(self.version) == optional_text(info.version)
    }

    /// Validates what an evaluator says of itself.
    pub fn parse(info: EvaluatorInfo) -> (r: Result<ValidatedEvaluatorInfo, ValidationError>)
        ensures
            match r {
                Ok(v) => evaluator_info_error(info) is None && v.agrees_with(info),
                Err(e) => evaluator_info_error(info) == Some(e),
            },
    {
        if blank(info.name.as_str()) {
            return Err(ValidationError::EmptyEvaluatorName);
        }
        let description = match info.description {
            Some(d) => match EvaluatorDescription::try_new(d.as_str()) {
                Ok(v) => Some(v),
                Err(e) => {
                    return Err(ValidationError::InvalidDescription(e));
                },
            },
            None => None,
        };
        Ok(ValidatedEvaluatorInfo { name: info.name, description, version: info.version })
    }
}

/// The number of an optional batch size, if there is one.
pub open spec fn batch_number(b: Option<BatchSize>) -> Option<u32> {
    match b {
        Some(n) => Some(n@),
        None => None,
    }
}

impl ValidatedExecutionPlan {
    /// Whether `self` holds the numbers of `plan`.
    pub open spec fn agrees_with(self, plan: ExecutionPlan) -> bool {
        &&& self.total_samples@ == plan.total_samples
        &&& batch_number(self.batch_size) == plan.batch_size
    }

    /// Validates an execution plan.
    pub fn parse(plan: ExecutionPlan) -> (r: Result<ValidatedExecutionPlan, ValidationError>)
        ensures
            match r {
                Ok(v) => execution_plan_error(plan) is None && v.agrees_with(plan),
                Err(e) => execution_plan_error(plan) == Some(e),
            },
    {
        let total_samples = match TotalSamples::try_new(plan.total_samples) {
            Ok(v) => v,
            Err(e) => {
                return Err(ValidationError::InvalidTotalSamples(e));
            },
        };
        let batch_size = match plan.batch_size {
            Some(b) => match BatchSize::try_new(b) {
                Ok(v) => Some(v),
                Err(e) => {
                    return Err(ValidationError::InvalidBatchSize(e));
                },
            },
            None => None,
        };
        Ok(ValidatedExecutionPlan { total_samples, batch_size })
    }
}

impl ValidatedMetricDefinition {
    /// Whether `self` says what `def` says: the name and the unit trimmed, the
    /// description as written.
    pub open spec fn agrees_with(self, def: MetricDefinition) -> bool {
        &&& self.name@ == trim(def.name@)
        &&& optional_text(self.description) == optional_text(def.description)
        &&& unit_text(self.unit) == trimmed_text(def.unit)
    }

    /// Validates a declared metric.
    pub fn parse(def: MetricDefinition) -> (r: Result<ValidatedMetricDefinition, ValidationError>)
        ensures
            match r {
                Ok(v) => metric_definition_error(def) is None && v.agrees_with(def),
                Err(e) => metric_definition_error(def) == Some(e),
            },
    {
        let name = match MetricDefinitionName::try_new(def.name.as_str()) {
            Ok(v) => v,
            Err(e) => {
                return Err(ValidationError::InvalidMetricName(e));
            },
        };
        let unit = match def.unit {
            Some(u) => match MetricUnit::try_new(u.as_str()) {
                Ok(v) => Some(v),
                Err(e) => {
                    return Err(ValidationError::InvalidMetricUnit(e));
                },
            },
            None => None,
        };
        Ok(ValidatedMetricDefinition { name, description: def.description, unit })
    }
}

/// Whether an optional validated plan holds the numbers of an optional plan.
pub open spec fn plan_agrees(v: Option<ValidatedExecutionPlan>,
    plan: Option<ExecutionPlan>) -> bool {
    match (v, plan) {
        (Some(a), Some(b)) => a.agrees_with(b),
        (None, None) => true,
        _ => false,
    }
}

impl ValidatedHandshake {
    /// Whether `self` says what `h` says, field by field, the texts trimmed where
    /// their types trim.
    pub open spec fn agrees_with(self, h: Handshake) -> bool {
        &&& self.mode == h.mode
        &&& self.version@ == trim(h.version@)
        &&& self.evaluator.agrees_with(h.evaluator)
        &&& plan_agrees(self.execution_plan, h.execution_plan)
        &&& self.metrics_schema@.len() == h.metrics_schema@.len()
        &&& forall|i: int|
            0 <= i < h.metrics_schema@.len() ==> (#[trigger] self.metrics_schema@[i]).agrees_with(
                h.metrics_schema@[i],
            )
    }

    /// The number of samples that the evaluator plans, if it says.
    pub open spec fn total_samples(self) -> Option<usize> {
        match self.execution_plan {
            Some(plan) => Some(plan.total_samples@ as usize),
            None => None,
        }
    }

    /// Validates a handshake: all of it, or the first thing wrong with it.
    #[verifier::loop_isolation(false)]
    pub fn parse(handshake: Handshake) -> (r: Result<ValidatedHandshake, ValidationError>)
        ensures
            match r {
                Ok(v) => handshake_error(handshake) is None && v.agrees_with(handshake),
                Err(e) => handshake_error(handshake) == Some(e),
            },
    {
        let version = match ProtocolVersion::try_new(handshake.version.as_str()) {
            Ok(v) => v,
            Err(e) => {
                return Err(ValidationError::InvalidVersion(e));
            },
        };
        let evaluator = match ValidatedEvaluatorInfo::parse(handshake.evaluator) {
            Ok(v) => v,
            Err(e) => {
                return Err(e);
            },
        };
        let execution_plan = match handshake.execution_plan {
            Some(plan) => match ValidatedExecutionPlan::parse(plan) {
                Ok(v) => Some(v),
                Err(e) => {
                    return Err(e);
                },
            },
            None => None,
        };
        let ghost defs = handshake.metrics_schema@;
        let mut metrics_schema: Vec<ValidatedMetricDefinition> = Vec::new();
        for def in it: handshake.metrics_schema
            invariant
                it.seq() == defs,
                metrics_schema@.len() == it.index(),
                forall|k: int|
                    0 <= k < it.index() ==> metric_definition_error(#[trigger] defs[k]) is None,
                forall|k: int|
                    0 <= k < it.index() ==> (#[trigger] metrics_schema@[k]).agrees_with(defs[k]),
        {
            match ValidatedMetricDefinition::parse(def) {
                Ok(v) => {
                    metrics_schema.push(v);
                },
                Err(e) => {
                    proof {
                        lemma_first_found(
                            defs,
                            |def: MetricDefinition| metric_definition_error(def),
                            it.index() as int,
                        );
                    }
                    return Err(e);
                },
            }
        }
        proof {
            lemma_first_found(
                defs,
                |def: MetricDefinition| metric_definition_error(def),
                defs.len() as int,
            );
        }
        Ok(ValidatedHandshake { mode: handshake.mode, version, evaluator, execution_plan,
            metrics_schema })
    }

    /// The number of samples that the evaluator plans, if it says.
    pub fn planned_samples(&self) -> (r: Option<usize>)
        ensures
            r == self.total_samples(),
    {
        match &self.execution_plan {
            Some(plan) => Some(plan.total_samples.into_inner() as usize),
            None => None,
        }
    }
}

impl ValidationError {
    /// The error in words.
    pub open spec fn text(self) -> Seq<char> {
        match self {
                ValidationError::InvalidVersion(e) => "protocol version is invalid: "@ + e.text(),
                ValidationError::EmptyEvaluatorName => "evaluator name cannot be empty"@,
                ValidationError::InvalidDescription(e) => "evaluator description is invalid: "@
                    + e.text(),
                ValidationError::InvalidTotalSamples(e) => "total samples count is invalid: "@
                    + e.text(),
                ValidationError::InvalidBatchSize(e) => "batch size is invalid: "@ + e.text(),
                ValidationError::InvalidMetricName(e) => "metric name is invalid: "@ + e.text(),
                ValidationError::InvalidMetricUnit(e) => "metric unit is invalid: "@ + e.text(),
        }
    }

    /// The error in words.
    pub fn message(&self) -> (r: String)
        ensures
            r@ == self.text(),
    {
        match self {
            ValidationError::InvalidVersion(e) => String::from_str(
                "protocol version is invalid: ",
            ).concat(e.message().as_str()),
            ValidationError::EmptyEvaluatorName => String::from_str("evaluator name cannot be empty"),
            ValidationError::InvalidDescription(e) => String::from_str(
                "evaluator description is invalid: ",
            ).concat(e.message().as_str()),
            ValidationError::InvalidTotalSamples(e) => String::from_str(
                "total samples count is invalid: ",
            ).concat(e.message().as_str()),
            ValidationError::InvalidBatchSize(e) => String::from_str(
                "batch size is invalid: ",
            ).concat(e.message().as_str()),
            ValidationError::InvalidMetricName(e) => String::from_str(
                "metric name is invalid: ",
            ).concat(e.message().as_str()),
            ValidationError::InvalidMetricUnit(e) => String::from_str(
                "metric unit is invalid: ",
            ).concat(e.message().as_str()),
        }
    }
}

} // verus!

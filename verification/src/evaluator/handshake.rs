//! Reading a handshake from a line of text.

use vstd::prelude::*;
use vstd::string::*;
use crate::evaluator::protocol::{
    handshake_error, lemma_same_handshake, same_definition, same_handshake, EvaluationMode,
    EvaluatorInfo, ExecutionPlan, Handshake, MetricDefinition, ValidatedHandshake,
    ValidationError,
};
use crate::json::{
    json_document, list_field, optional_string_field, optional_text, optional_unsigned32_field,
    read_document, read_list, read_optional_string, read_optional_unsigned32, read_string,
    read_unsigned32, string_field, unsigned32_field, Json,
};
use crate::text::{decimal_text, render_u64, str_equal};

verus! {

/// Why a line is no handshake.
#[derive(Debug, PartialEq, Eq)]
pub enum HandshakeError {
    /// The line is no JSON document; the text is the parser's message.
    MalformedJson(String),
    /// The document is no object whose `type` is the string `handshake`.
    InvalidMessageType,
    /// A field is missing or of the wrong kind.
    InvalidShape,
    /// A field is out of bounds.
    Validation(ValidationError),
}

/// The mode that a text names.
pub open spec fn mode_named(text: Seq<char>) -> Option<EvaluationMode> {
    if text == "test_suite"@ {
        Some(EvaluationMode::TestSuite)
    } else if text == "online_collection"@ {
        Some(EvaluationMode::OnlineCollection)
    } else if text == "continuous"@ {
        Some(EvaluationMode::Continuous)
    } else {
        None
    }
}

/// Whether a document is an object whose `type` is the string `handshake`.
pub open spec fn has_handshake_tag(doc: Json) -> bool {
    string_field(doc, "type"@) == Some("handshake"@)
}

/// Whether `j` has the fields of an evaluator's description of itself.
pub open spec fn evaluator_info_shape(j: Json) -> bool {
    &&& string_field(j, "name"@) is Some
    &&& optional_string_field(j, "description"@) is Some
    &&& optional_string_field(j, "version"@) is Some
}

/// Whether `out` holds the fields of `j`.
pub open spec fn evaluator_info_decodes(j: Json, out: EvaluatorInfo) -> bool {
    &&& string_field(j, "name"@) == Some(out.name@)
    &&& optional_string_field(j, "description"@) == Some(optional_text(out.description))
    &&& optional_string_field(j, "version"@) == Some(optional_text(out.version))
}

/// The execution plan that `j` writes, if it writes one.
pub open spec fn execution_plan_of(j: Json) -> Option<ExecutionPlan> {
    match (unsigned32_field(j, "total_samples"@), optional_unsigned32_field(j, "batch_size"@)) {
        (Some(total_samples), Some(batch_size)) => Some(
            ExecutionPlan { total_samples, batch_size },
        ),
        _ => None,
    }
}

/// Whether `j` has the fields of a declared metric.
pub open spec fn metric_definition_shape(j: Json) -> bool {
    &&& string_field(j, "name"@) is Some
    &&& optional_string_field(j, "description"@) is Some
    &&& optional_string_field(j, "unit"@) is Some
}

/// Whether `out` holds the fields of `j`.
pub open spec fn metric_definition_decodes(j: Json, out: MetricDefinition) -> bool {
    &&& string_field(j, "name"@) == Some(out.name@)
    &&& optional_string_field(j, "description"@) == Some(optional_text(out.description))
    &&& optional_string_field(j, "unit"@) == Some(optional_text(out.unit))
}

/// The execution plan of a handshake: `Some(None)` where the member is absent,
/// `None` where it is there and is no plan.
pub open spec fn optional_plan_of(doc: Json) -> Option<Option<ExecutionPlan>> {
    match doc.present("execution_plan"@) {
        Some(j) => match execution_plan_of(j) {
            Some(plan) => Some(Some(plan)),
            None => None,
        },
        None => Some(None),
    }
}

/// Whether `doc` has the fields of a handshake, each of its kind.
pub open spec fn handshake_shape(doc: Json) -> bool {
    &&& string_field(doc, "type"@) is Some
    &&& string_field(doc, "mode"@) is Some
    &&& mode_named(string_field(doc, "mode"@).unwrap()) is Some
    &&& string_field(doc, "version"@) is Some
    &&& doc.member("evaluator"@) is Some
    &&& evaluator_info_shape(doc.member("evaluator"@).unwrap())
    &&& optional_plan_of(doc) is Some
    &&& list_field(doc, "metrics_schema"@) is Some
    &&& forall|i: int|
        0 <= i < list_field(doc, "metrics_schema"@).unwrap().len() ==> metric_definition_shape(
            #[trigger] list_field(doc, "metrics_schema"@).unwrap()[i],
        )
}

/// Whether `out` holds the fields of `doc`.
pub open spec fn handshake_decodes(doc: Json, out: Handshake) -> bool {
    &&& handshake_shape(doc)
    &&& string_field(doc, "type"@) == Some(out.msg_type@)
    &&& mode_named(string_field(doc, "mode"@).unwrap()) == Some(out.mode)
    &&& string_field(doc, "version"@) == Some(out.version@)
    &&& evaluator_info_decodes(doc.member("evaluator"@).unwrap(), out.evaluator)
    &&& optional_plan_of(doc) == Some(out.execution_plan)
    &&& out.metrics_schema@.len() == list_field(doc, "metrics_schema"@).unwrap().len()
    &&& forall|i: int|
        0 <= i < out.metrics_schema@.len() ==> metric_definition_decodes(
            list_field(doc, "metrics_schema"@).unwrap()[i],
            #[trigger] out.metrics_schema@[i],
        )
}

/// A handshake that holds the fields of `doc`. All such handshakes hold the same
/// texts and numbers.
pub open spec fn raw_handshake(doc: Json) -> Handshake {
    choose|h: Handshake| handshake_decodes(doc, h)
}

/// Whether `r` is what a document gives as a handshake: the tag is looked at first,
/// then the fields and their kinds, then their bounds.
pub open spec fn reads_as_handshake(
    doc: Json,
    r: Result<ValidatedHandshake, HandshakeError>,
) -> bool {
    if !has_handshake_tag(doc) {
        r matches Err(HandshakeError::InvalidMessageType)
    } else if !handshake_shape(doc) {
        r matches Err(HandshakeError::InvalidShape)
    } else {
        match r {
            Ok(v) => handshake_error(raw_handshake(doc)) is None && v.agrees_with(
                raw_handshake(doc),
            ),
            Err(HandshakeError::Validation(e)) => handshake_error(raw_handshake(doc)) == Some(e),
            Err(_) => false,
        }
    }
}

/// Whether a document is accepted as a handshake.
pub open spec fn is_handshake(doc: Json) -> bool {
    has_handshake_tag(doc) && handshake_shape(doc) && handshake_error(raw_handshake(doc)) is None
}

/// Whether a line is accepted as a handshake.
pub open spec fn accepts_handshake(line: Seq<char>) -> bool {
    match json_document(line) {
        Ok(doc) => is_handshake(doc),
        Err(_) => false,
    }
}

/// Whether `r` is what a line gives as a handshake: the line is read as a JSON
/// document first, and the document as a handshake then.
pub open spec fn line_reads_as_handshake(
    line: Seq<char>,
    r: Result<ValidatedHandshake, HandshakeError>,
) -> bool {
    match json_document(line) {
        Ok(doc) => reads_as_handshake(doc, r),
        Err(msg) => r matches Err(HandshakeError::MalformedJson(m)) && m@ == msg,
    }
}

/// Two handshakes that hold the fields of one document hold the same texts and numbers.
pub proof fn lemma_one_reading(doc: Json, a: Handshake, b: Handshake)
    requires
        handshake_decodes(doc, a),
        handshake_decodes(doc, b),
    ensures
        same_handshake(a, b),
{
    let items = list_field(doc, "metrics_schema"@).unwrap();
    assert forall|i: int| 0 <= i < a.metrics_schema@.len() implies same_definition(
        #[trigger] a.metrics_schema@[i],
        b.metrics_schema@[i],
    ) by {
        assert(metric_definition_decodes(items[i], a.metrics_schema@[i]));
        assert(metric_definition_decodes(items[i], b.metrics_schema@[i]));
    }
}

/// Whatever handshake holds the fields of the document that a line writes: the
/// line is accepted if and only if nothing is wrong with that handshake, what is
/// accepted agrees with it, and what is refused is refused for the first thing
/// wrong with it.
pub proof fn lemma_handshake_line(
    line: Seq<char>,
    doc: Json,
    h: Handshake,
    r: Result<ValidatedHandshake, HandshakeError>,
)
    requires
        json_document(line) == Ok::<Json, Seq<char>>(doc),
        has_handshake_tag(doc),
        handshake_decodes(doc, h),
        line_reads_as_handshake(line, r),
    ensures
        match r {
            Ok(v) => handshake_error(h) is None && v.agrees_with(h),
            Err(HandshakeError::Validation(e)) => handshake_error(h) == Some(e),
            Err(_) => false,
        },
{
    lemma_one_reading(doc, h, raw_handshake(doc));
    lemma_same_handshake(h, raw_handshake(doc));
}

/// The mode that `text` names.
pub fn mode_of(text: &str) -> (r: Option<EvaluationMode>)
    ensures
        r == mode_named(text@),
{
    if str_equal(text, "test_suite") {
        Some(EvaluationMode::TestSuite)
    } else if str_equal(text, "online_collection") {
        Some(EvaluationMode::OnlineCollection)
    } else if str_equal(text, "continuous") {
        Some(EvaluationMode::Continuous)
    } else {
        None
    }
}

/// Reads an evaluator's description of itself.
pub fn decode_evaluator_info(j: &Json) -> (r: Option<EvaluatorInfo>)
    ensures
        match r {
            Some(out) => evaluator_info_decodes(*j, out),
            None => !evaluator_info_shape(*j),
        },
{
    let name = match read_string(j, "name") {
        Some(v) => v,
        None => {
            return None;
        },
    };
    let description = match read_optional_string(j, "description") {
        Some(v) => v,
        None => {
            return None;
        },
    };
    let version = match read_optional_string(j, "version") {
        Some(v) => v,
        None => {
            return None;
        },
    };
    Some(EvaluatorInfo { name, description, version })
}

/// Reads an execution plan.
pub fn decode_execution_plan(j: &Json) -> (r: Option<ExecutionPlan>)
    ensures
        r == execution_plan_of(*j),
{
    let total_samples = match read_unsigned32(j, "total_samples") {
        Some(v) => v,
        None => {
            return None;
        },
    };
    let batch_size = match read_optional_unsigned32(j, "batch_size") {
        Some(v) => v,
        None => {
            return None;
        },
    };
    Some(ExecutionPlan { total_samples, batch_size })
}

/// Reads a declared metric.
pub fn decode_metric_definition(j: &Json) -> (r: Option<MetricDefinition>)
    ensures
        match r {
            Some(out) => metric_definition_decodes(*j, out),
            None => !metric_definition_shape(*j),
        },
{
    let name = match read_string(j, "name") {
        Some(v) => v,
        None => {
            return None;
        },
    };
    let description = match read_optional_string(j, "description") {
        Some(v) => v,
        None => {
            return None;
        },
    };
    let unit = match read_optional_string(j, "unit") {
        Some(v) => v,
        None => {
            return None;
        },
    };
    Some(MetricDefinition { name, description, unit })
}

/// Reads the fields of a handshake, each of its kind.
#[verifier::loop_isolation(false)]
pub fn decode_handshake(doc: &Json) -> (r: Option<Handshake>)
    ensures
        match r {
            Some(out) => handshake_decodes(*doc, out),
            None => !handshake_shape(*doc),
        },
{
    let msg_type = match read_string(doc, "type") {
        Some(v) => v,
        None => {
            return None;
        },
    };
    let mode = match read_string(doc, "mode") {
        Some(text) => match mode_of(text.as_str()) {
            Some(v) => v,
            None => {
                return None;
            },
        },
        None => {
            return None;
        },
    };
    let version = match read_string(doc, "version") {
        Some(v) => v,
        None => {
            return None;
        },
    };
    let evaluator = match doc.get("evaluator") {
        Some(j) => match decode_evaluator_info(j) {
            Some(v) => v,
            None => {
                return None;
            },
        },
        None => {
            return None;
        },
    };
    let execution_plan = match doc.get_present("execution_plan") {
        Some(j) => match decode_execution_plan(j) {
            Some(v) => Some(v),
            None => {
                return None;
            },
        },
        None => None,
    };
    let items = match read_list(doc, "metrics_schema") {
        Some(v) => v,
        None => {
            return None;
        },
    };
    let mut metrics_schema: Vec<MetricDefinition> = Vec::new();
    let n: usize = items.len();
    let mut i: usize = 0;
    while i < n
        invariant
            i <= n,
            n == items@.len(),
            metrics_schema@.len() == i,
            forall|k: int| 0 <= k < i ==> metric_definition_shape(#[trigger] items@[k]),
            forall|k: int|
                0 <= k < i ==> metric_definition_decodes(items@[k], #[trigger] metrics_schema@[k]),
        decreases n - i,
    {
        match decode_metric_definition(&items[i]) {
            Some(def) => {
                metrics_schema.push(def);
            },
            None => {
                proof {
                    assert(list_field(*doc,
                        "metrics_schema"@).unwrap()[i as int] == items@[i as int]);
                }
                return None;
            },
        }
        i += 1;
    }
    Some(Handshake { msg_type, mode, version, evaluator, execution_plan, metrics_schema })
}

/// Reads a handshake from a document: the tag first, then the fields and their
/// kinds, then their bounds.
pub fn handshake_from_json(doc: &Json) -> (r: Result<ValidatedHandshake, HandshakeError>)
    ensures
        reads_as_handshake(*doc, r),
{
    let tagged = match read_string(doc, "type") {
        Some(tag) => str_equal(tag.as_str(), "handshake"),
        None => false,
    };
    if !tagged {
        return Err(HandshakeError::InvalidMessageType);
    }
    let raw = match decode_handshake(doc) {
        Some(v) => v,
        None => {
            return Err(HandshakeError::InvalidShape);
        },
    };
    proof {
        lemma_one_reading(*doc, raw, raw_handshake(*doc));
        lemma_same_handshake(raw, raw_handshake(*doc));
    }
    match ValidatedHandshake::parse(raw) {
        Ok(v) => Ok(v),
        Err(e) => Err(HandshakeError::Validation(e)),
    }
}

/// Reads a handshake from a line of text.
pub fn parse_handshake(line: &str) -> (r: Result<ValidatedHandshake, HandshakeError>)
    ensures
        line_reads_as_handshake(line@, r),
        r is Ok <==> accepts_handshake(line@),
{
    match read_document(line) {
        Ok(doc) => handshake_from_json(&doc),
        Err(msg) => Err(HandshakeError::MalformedJson(msg)),
    }
}

impl HandshakeError {
    /// The error in words.
    pub open spec fn text(self) -> Seq<char> {
        match self {
            HandshakeError::MalformedJson(msg) => "malformed JSON in handshake: "@ + msg@,
            HandshakeError::InvalidMessageType => "invalid message type: expected 'handshake'"@,
            HandshakeError::InvalidShape => "failed to parse handshake JSON"@,
            HandshakeError::Validation(e) => "handshake validation failed: "@ + e.text(),
        }
    }

    /// The error in words.
    pub fn message(&self) -> (r: String)
        ensures
            r@ == self.text(),
    {
        match self {
            HandshakeError::MalformedJson(msg) => String::from_str(
                "malformed JSON in handshake: ",
            ).concat(msg.as_str()),
            HandshakeError::InvalidMessageType => String::from_str(
                "invalid message type: expected 'handshake'",
            ),
            HandshakeError::InvalidShape => String::from_str("failed to parse handshake JSON"),
            HandshakeError::Validation(e) => String::from_str(
                "handshake validation failed: ",
            ).concat(e.message().as_str()),
        }
    }
}

/// Why the wait for a handshake has ended without one.
#[derive(Clone, Copy, Debug, PartialEq, Eq, Structural)]
pub enum WaitError {
    /// The output of the evaluator has ended.
    OutputEnded,
    /// No handshake has come within so many seconds.
    TimedOut { seconds: u64 },
}

/// What the wait for a handshake does next.
#[derive(Debug)]
pub enum WaitStep {
    /// The handshake is here.
    Received(ValidatedHandshake),
    /// The line was no handshake: wait for the next.
    KeepWaiting,
    /// There is nothing more to wait for.
    Failed(WaitError),
}

/// What the wait for a handshake does once it has asked for a line: it ends with
/// the handshake that the line writes, goes on after a line that writes none, and
/// fails where no line is left.
pub fn wait_for_handshake_step(line: Option<&str>) -> (r: WaitStep)
    ensures
        match line {
            None => r matches WaitStep::Failed(WaitError::OutputEnded),
            Some(text) => if accepts_handshake(text@) {
                r matches WaitStep::Received(h) && line_reads_as_handshake(
                    text@,
                    Ok::<ValidatedHandshake, HandshakeError>(h),
                )
            } else {
                r is KeepWaiting
            },
        },
{
    match line {
        Some(text) => match parse_handshake(text) {
            Ok(handshake) => WaitStep::Received(handshake),
            Err(_) => WaitStep::KeepWaiting,
        },
        None => WaitStep::Failed(WaitError::OutputEnded),
    }
}

impl WaitError {
    /// The error in words.
    pub open spec fn text(self) -> Seq<char> {
        match self {
            WaitError::OutputEnded => "evaluator output ended before handshake received"@,
            WaitError::TimedOut { seconds } =>
                "handshake timeout: no valid handshake received within "@ + decimal_text(
                    seconds as nat,
                ) + " seconds"@,
        }
    }

    /// The error in words.
    pub fn message(&self) -> (r: String)
        ensures
            r@ == self.text(),
    {
        match self {
            WaitError::OutputEnded => String::from_str(
                "evaluator output ended before handshake received",
            ),
            WaitError::TimedOut { seconds } => String::from_str(
                "handshake timeout: no valid handshake received within ",
            ).concat(render_u64(*seconds).as_str()).concat(" seconds"),
        }
    }
}

} // verus!

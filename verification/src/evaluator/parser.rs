//! Reading a metrics message from a line of text.

use vstd::prelude::*;
use vstd::string::*;
use crate::double::Double;
use crate::evaluator::alike::lemma_message_alike;
use crate::evaluator::otlp::{
    decode_metrics_data, lemma_metrics_data_reading, metric_error, metrics_data_decodes,
    metrics_data_shape, only_payload, payload_count,
    AnyValue, Attribute, GaugeDataPoint, HistogramDataPoint, KeyValue, MetricsData,
    ResourceMetrics, ScopeMetrics, SumDataPoint, ValidatedMetric, ValidatedMetricData,
    ValidationError,
};
use crate::first::{first_found, lemma_first_found, lemma_first_found_some};
use crate::json::{json_document, optional_text, read_document, Json};
use crate::state::metrics::{
    any_summary, counter_value_error, has_summary_point, pairs_view, put, put_pair, values_view,
    AttributeKey, AttributeMap, AttributeValue, AttributeValueView, CounterValue,
    CounterValueError, DataPoint, GaugeValue, HistogramBucket, HistogramValue, Metric,
    MetricData, MetricName, SampleMetric, SummaryMetric, TimeUnixNano,
};
use crate::text::{
    bounded_text_error, contains, occurs_at, parse_decimal_u64, parse_u64, trim, NumberError,
    TextError,
};

verus! {

/// Why a metrics message of the right shape is refused.
#[derive(Clone, Copy, Debug, PartialEq, Eq, Structural)]
pub enum ConvertError {
    /// The key of an attribute is out of bounds.
    InvalidAttributeKey(TextError),
    /// A metric has a blank name, or not exactly one payload.
    InvalidMetric(ValidationError),
    /// The name of a metric is out of bounds.
    InvalidMetricName(TextError),
    /// A sum is not monotonic, so it is no counter.
    NonMonotonicSum,
    /// A time is not written as a decimal number of 64 bits.
    UnreadableTimestamp,
    /// A time is zero.
    InvalidTimestamp(NumberError),
    /// The value of a counter is below zero or not finite.
    InvalidCounterValue(CounterValueError),
    /// The count of a histogram is not written as a decimal number of 64 bits.
    UnreadableHistogramCount,
    /// The count of a bucket is not written as a decimal number of 64 bits.
    UnreadableBucketCount,
}

/// Why a line is no metrics message.
#[derive(Debug, PartialEq, Eq)]
pub enum MetricsError {
    /// The line is no JSON document; the text is the parser's message.
    MalformedJson(String),
    /// A field is missing or of the wrong kind.
    InvalidShape,
    /// A field is out of bounds.
    Rejected(ConvertError),
}

/// What each of `values` is as an attribute value, in order.
pub open spec fn any_values_model(values: Seq<AnyValue>) -> Seq<AttributeValueView>
    decreases values, 0nat,
{
    if values.len() == 0 {
        Seq::empty()
    } else {
        any_values_model(values.drop_last()).push(any_value_model(values.last()))
    }
}

/// What `pairs` are as keys with values: each is written under its key in turn, so
/// the last value of a key stays, in the place where the key was first seen.
pub open spec fn key_values_model(pairs: Seq<KeyValue>) -> Seq<(Seq<char>, AttributeValueView)>
    decreases pairs, 0nat,
{
    if pairs.len() == 0 {
        Seq::empty()
    } else {
        put(
            key_values_model(pairs.drop_last()),
            pairs.last().key@,
            any_value_model(pairs.last().value),
        )
    }
}

/// What a value on the wire is as an attribute value.
pub open spec fn any_value_model(any: AnyValue) -> AttributeValueView
    decreases any, 1nat,
{
    match any {
        AnyValue::String(s) => AttributeValueView::Text(s@),
        AnyValue::Bool(b) => AttributeValueView::Flag(b),
        AnyValue::Int(n) => AttributeValueView::Integer(n),
        AnyValue::Double(d) => AttributeValueView::Real(d),
        AnyValue::Array(values) => AttributeValueView::Array(any_values_model(values@)),
        AnyValue::KvList(pairs) => AttributeValueView::Kvlist(key_values_model(pairs@)),
    }
}

/// Why an attribute is refused, if it is: for its key.
pub open spec fn attribute_error(attribute: Attribute) -> Option<ConvertError> {
    match bounded_text_error(attribute.key@, 255) {
        Some(e) => Some(ConvertError::InvalidAttributeKey(e)),
        None => None,
    }
}

/// Why the first attribute that is refused is refused.
pub open spec fn attributes_error(attributes: Seq<Attribute>) -> Option<ConvertError> {
    first_found(attributes, |a: Attribute| attribute_error(a))
}

/// `base` after each of `attributes` is written under its trimmed key in turn.
pub open spec fn attributes_onto(
    base: Seq<(Seq<char>, AttributeValueView)>,
    attributes: Seq<Attribute>,
) -> Seq<(Seq<char>, AttributeValueView)>
    decreases attributes.len(),
{
    if attributes.len() == 0 {
        base
    } else {
        put(
            attributes_onto(base, attributes.drop_last()),
            trim(attributes.last().key@),
            any_value_model(attributes.last().value),
        )
    }
}

/// What `attributes` are as keys with values: the last value of a key stays.
pub open spec fn attributes_model(attributes: Seq<Attribute>) -> Seq<
    (Seq<char>, AttributeValueView),
> {
    attributes_onto(Seq::empty(), attributes)
}

/// Writing `a` and then `b` is writing `a + b`.
pub proof fn lemma_attributes_onto_add(
    base: Seq<(Seq<char>, AttributeValueView)>,
    a: Seq<Attribute>,
    b: Seq<Attribute>,
)
    ensures
        attributes_onto(attributes_onto(base, a), b) == attributes_onto(base, a + b),
    decreases b.len(),
{
    if b.len() == 0 {
        assert(a + b =~= a);
    } else {
        lemma_attributes_onto_add(base, a, b.drop_last());
        assert((a + b).drop_last() =~= a + b.drop_last());
        assert((a + b).last() == b.last());
    }
}

/// Why a text is refused as a time, if it is.
pub open spec fn timestamp_error(text: Seq<char>) -> Option<ConvertError> {
    match parse_u64(text) {
        None => Some(ConvertError::UnreadableTimestamp),
        Some(n) => if n == 0 {
            Some(ConvertError::InvalidTimestamp(NumberError::NotPositive))
        } else {
            None
        },
    }
}

/// Why a point of a gauge is refused, if it is: for its time, else for an attribute.
pub open spec fn gauge_point_error(point: GaugeDataPoint) -> Option<ConvertError> {
    match timestamp_error(point.time_unix_nano@) {
        Some(e) => Some(e),
        None => attributes_error(point.attributes@),
    }
}

/// Whether `out` is the point `point`.
pub open spec fn gauge_point_converts(point: GaugeDataPoint, out: DataPoint<GaugeValue>) -> bool {
    &&& Some(out.timestamp@) == parse_u64(point.time_unix_nano@)
    &&& out.value@ == point.as_double
    &&& out.attributes@ == attributes_model(point.attributes@)
}

/// Why a point of a sum is refused as a point of a counter, if it is: for its
/// time, else for an attribute, else for its value.
pub open spec fn counter_point_error(point: SumDataPoint) -> Option<ConvertError> {
    match timestamp_error(point.time_unix_nano@) {
        Some(e) => Some(e),
        None => match attributes_error(point.attributes@) {
            Some(e) => Some(e),
            None => match counter_value_error(point.as_double) {
                Some(e) => Some(ConvertError::InvalidCounterValue(e)),
                None => None,
            },
        },
    }
}

/// Whether `out` is the point `point`.
pub open spec fn counter_point_converts(point: SumDataPoint, out: DataPoint<CounterValue>) -> bool {
    &&& Some(out.timestamp@) == parse_u64(point.time_unix_nano@)
    &&& out.value@ == point.as_double
    &&& out.attributes@ == attributes_model(point.attributes@)
}

/// Why the count of a bucket is refused, if it is.
pub open spec fn bucket_count_error(count: String) -> Option<ConvertError> {
    if parse_u64(count@) is None {
        Some(ConvertError::UnreadableBucketCount)
    } else {
        None
    }
}

/// Why a point of a histogram is refused, if it is: for its time, else for an
/// attribute, else for its count, else for the first count of a bucket that is
/// refused.
pub open spec fn histogram_point_error(point: HistogramDataPoint) -> Option<ConvertError> {
    match timestamp_error(point.time_unix_nano@) {
        Some(e) => Some(e),
        None => match attributes_error(point.attributes@) {
            Some(e) => Some(e),
            None => if parse_u64(point.count@) is None {
                Some(ConvertError::UnreadableHistogramCount)
            } else {
                first_found(point.bucket_counts@, |c: String| bucket_count_error(c))
            },
        },
    }
}

/// The upper bound of bucket `i` where the explicit bounds are `bounds`: the bound
/// at that place, and positive infinity for a bucket beyond the bounds.
pub open spec fn bucket_bound(bounds: Seq<Double>, i: int) -> Double {
    if 0 <= i < bounds.len() {
        bounds[i]
    } else {
        Double::infinity()
    }
}

/// Whether `buckets` are the buckets of a histogram with the counts `counts` and
/// the explicit bounds `bounds`: one bucket for each count, in order.
pub open spec fn buckets_convert(
    counts: Seq<String>,
    bounds: Seq<Double>,
    buckets: Seq<HistogramBucket>,
) -> bool {
    &&& buckets.len() == counts.len()
    &&& forall|i: int|
        0 <= i < counts.len() ==> {
            &&& Some((#[trigger] buckets[i]).count) == parse_u64(counts[i]@)
            &&& buckets[i].upper_bound == bucket_bound(bounds, i)
        }
}

/// A histogram has one bucket for each count of a bucket. A bucket has the explicit
/// bound at its place, and positive infinity where the explicit bounds have ended.
pub proof fn lemma_buckets(counts: Seq<String>, bounds: Seq<Double>, buckets: Seq<HistogramBucket>)
    requires
        buckets_convert(counts, bounds, buckets),
    ensures
        buckets.len() == counts.len(),
        forall|i: int|
            0 <= i < buckets.len() && i < bounds.len() ==> (#[trigger] buckets[i]).upper_bound
                == bounds[i],
        forall|i: int|
            bounds.len() <= i < buckets.len() ==> (#[trigger] buckets[i]).upper_bound
                == Double::infinity(),
{
}

/// Whether `out` is the point `point`.
pub open spec fn histogram_point_converts(
    point: HistogramDataPoint,
    out: DataPoint<HistogramValue>,
) -> bool {
    &&& Some(out.timestamp@) == parse_u64(point.time_unix_nano@)
    &&& out.attributes@ == attributes_model(point.attributes@)
    &&& Some(out.value.count) == parse_u64(point.count@)
    &&& out.value.sum == point.sum
    &&& out.value.min == point.min
    &&& out.value.max == point.max
    &&& buckets_convert(point.bucket_counts@, point.explicit_bounds@, out.value.buckets@)
}

/// Why the payload of a metric is refused, if it is: a sum for not being
/// monotonic, else the first point that is refused.
pub open spec fn payload_error(data: ValidatedMetricData) -> Option<ConvertError> {
    match data {
        ValidatedMetricData::Gauge(gauge) => first_found(
            gauge.data_points@,
            |p: GaugeDataPoint| gauge_point_error(p),
        ),
        ValidatedMetricData::Sum(sum) => if !sum.is_monotonic {
            Some(ConvertError::NonMonotonicSum)
        } else {
            first_found(sum.data_points@, |p: SumDataPoint| counter_point_error(p))
        },
        ValidatedMetricData::Histogram(histogram) => first_found(
            histogram.data_points@,
            |p: HistogramDataPoint| histogram_point_error(p),
        ),
    }
}

/// Why a metric is refused, if it is: for its name, else for its payload.
pub open spec fn convert_metric_error(validated: ValidatedMetric) -> Option<ConvertError> {
    match bounded_text_error(validated.name@, 255) {
        Some(e) => Some(ConvertError::InvalidMetricName(e)),
        None => payload_error(validated.data),
    }
}

/// Whether `out` holds the points of `data`, as a summary if and only if one of
/// the points is marked as one.
pub open spec fn payload_converts(data: ValidatedMetricData, out: Metric) -> bool {
    match data {
        ValidatedMetricData::Gauge(gauge) => {
            &&& out.gauge_points() is Some
            &&& out.gauge_points().unwrap().len() == gauge.data_points@.len()
            &&& forall|i: int|
                0 <= i < gauge.data_points@.len() ==> gauge_point_converts(
                    gauge.data_points@[i],
                    #[trigger] out.gauge_points().unwrap()[i],
                )
            &&& out is Summary <==> any_summary(out.gauge_points().unwrap())
        },
        ValidatedMetricData::Sum(sum) => {
            &&& out.counter_points() is Some
            &&& out.counter_points().unwrap().len() == sum.data_points@.len()
            &&& forall|i: int|
                0 <= i < sum.data_points@.len() ==> counter_point_converts(
                    sum.data_points@[i],
                    #[trigger] out.counter_points().unwrap()[i],
                )
            &&& out is Summary <==> any_summary(out.counter_points().unwrap())
        },
        ValidatedMetricData::Histogram(histogram) => {
            &&& out.histogram_points() is Some
            &&& out.histogram_points().unwrap().len() == histogram.data_points@.len()
            &&& forall|i: int|
                0 <= i < histogram.data_points@.len() ==> histogram_point_converts(
                    histogram.data_points@[i],
                    #[trigger] out.histogram_points().unwrap()[i],
                )
            &&& out is Summary <==> any_summary(out.histogram_points().unwrap())
        },
    }
}

/// Whether `out` is the metric `validated`: its name trimmed, its unit as written,
/// its points converted.
pub open spec fn metric_converts(validated: ValidatedMetric, out: Metric) -> bool {
    &&& out.metric_name()@ == trim(validated.name@)
    &&& optional_text(out.unit()) == optional_text(validated.unit)
    &&& payload_converts(validated.data, out)
}

/// A metric on the wire as it is once it is known to have one payload.
pub open spec fn validated(metric: crate::evaluator::otlp::Metric) -> ValidatedMetric {
    ValidatedMetric { name: metric.name, unit: metric.unit, data: only_payload(metric) }
}

/// Why a metric on the wire is refused, if it is: for a blank name, for not having
/// exactly one payload, for its name's length, else for its payload.
pub open spec fn wire_metric_error(metric: crate::evaluator::otlp::Metric) -> Option<
    ConvertError,
> {
    match metric_error(metric) {
        Some(e) => Some(ConvertError::InvalidMetric(e)),
        None => convert_metric_error(validated(metric)),
    }
}

/// Why the metrics of a scope are refused, if they are: why the first is that is.
pub open spec fn scope_error(scope: ScopeMetrics) -> Option<ConvertError> {
    first_found(scope.metrics@, |m: crate::evaluator::otlp::Metric| wire_metric_error(m))
}

/// The attributes of the resource, if there is one.
pub open spec fn resource_attributes(resource: ResourceMetrics) -> Seq<Attribute> {
    match resource.resource {
        Some(r) => r.attributes@,
        None => Seq::empty(),
    }
}

/// Why the metrics of a resource are refused, if they are: for an attribute of the
/// resource, else for the first scope that is refused.
pub open spec fn resource_error(resource: ResourceMetrics) -> Option<ConvertError> {
    match attributes_error(resource_attributes(resource)) {
        Some(e) => Some(e),
        None => first_found(resource.scope_metrics@, |s: ScopeMetrics| scope_error(s)),
    }
}

/// Why a message is refused, if it is: why the first resource is that is.
pub open spec fn message_error(data: MetricsData) -> Option<ConvertError> {
    first_found(data.resource_metrics@, |r: ResourceMetrics| resource_error(r))
}

/// The metrics of scopes, scope after scope.
pub open spec fn scopes_metrics(scopes: Seq<ScopeMetrics>) -> Seq<crate::evaluator::otlp::Metric>
    decreases scopes.len(),
{
    if scopes.len() == 0 {
        Seq::empty()
    } else {
        scopes_metrics(scopes.drop_last()) + scopes.last().metrics@
    }
}

/// The metrics of resources, resource after resource.
pub open spec fn all_metrics(resources: Seq<ResourceMetrics>) -> Seq<
    crate::evaluator::otlp::Metric,
>
    decreases resources.len(),
{
    if resources.len() == 0 {
        Seq::empty()
    } else {
        all_metrics(resources.drop_last()) + scopes_metrics(resources.last().scope_metrics@)
    }
}

/// The attributes of resources, resource after resource.
pub open spec fn all_resource_attributes(resources: Seq<ResourceMetrics>) -> Seq<Attribute>
    decreases resources.len(),
{
    if resources.len() == 0 {
        Seq::empty()
    } else {
        all_resource_attributes(resources.drop_last()) + resource_attributes(resources.last())
    }
}

/// Whether `out` holds the metrics `metrics`, place by place.
pub open spec fn metrics_convert(
    metrics: Seq<crate::evaluator::otlp::Metric>,
    out: Seq<Metric>,
) -> bool {
    &&& out.len() == metrics.len()
    &&& forall|i: int|
        0 <= i < metrics.len() ==> metric_converts(validated(metrics[i]), #[trigger] out[i])
}

/// Whether `out` is the message `data`: the attributes of all its resources in one
/// map, a later value of a key in the place of an earlier one, and all its metrics
/// in one list, in order.
pub open spec fn message_converts(data: MetricsData, out: MetricData) -> bool {
    &&& out.resource_attributes@ == attributes_model(
        all_resource_attributes(data.resource_metrics@),
    )
    &&& metrics_convert(all_metrics(data.resource_metrics@), out.metrics@)
}

/// A message that holds the fields of `doc`. All such messages hold the same texts
/// and numbers.
pub open spec fn raw_metrics(doc: Json) -> MetricsData {
    choose|data: MetricsData| metrics_data_decodes(doc, data)
}

/// Whether `r` is what a document gives as a metrics message: the fields and their
/// kinds are looked at first, then their bounds.
pub open spec fn reads_as_metrics(doc: Json, r: Result<MetricData, MetricsError>) -> bool {
    if !metrics_data_shape(doc) {
        r matches Err(MetricsError::InvalidShape)
    } else {
        match r {
            Ok(out) => message_error(raw_metrics(doc)) is None && message_converts(
                raw_metrics(doc),
                out,
            ),
            Err(MetricsError::Rejected(e)) => message_error(raw_metrics(doc)) == Some(e),
            Err(_) => false,
        }
    }
}

/// Whatever message holds the fields of the document that a line writes: the line
/// is accepted if and only if the message is not refused, what is accepted is the
/// message converted, and what is refused is refused as the message is.
pub proof fn lemma_metrics_line(
    line: Seq<char>,
    doc: Json,
    data: MetricsData,
    r: Result<MetricData, MetricsError>,
)
    requires
        json_document(line) == Ok::<Json, Seq<char>>(doc),
        metrics_data_shape(doc),
        metrics_data_decodes(doc, data),
        line_reads_as_metrics(line, r),
    ensures
        match r {
            Ok(out) => message_error(data) is None && message_converts(data, out),
            Err(MetricsError::Rejected(e)) => message_error(data) == Some(e),
            Err(_) => false,
        },
{
    lemma_metrics_data_reading(doc, data, raw_metrics(doc));
    lemma_message_alike(data, raw_metrics(doc));
}

/// A line that writes a metric with no payload, or with more than one, is refused.
pub proof fn lemma_one_payload_line(
    line: Seq<char>,
    doc: Json,
    data: MetricsData,
    i: int,
    r: Result<MetricData, MetricsError>,
)
    requires
        json_document(line) == Ok::<Json, Seq<char>>(doc),
        metrics_data_decodes(doc, data),
        0 <= i < all_metrics(data.resource_metrics@).len(),
        payload_count(all_metrics(data.resource_metrics@)[i]) != 1,
        line_reads_as_metrics(line, r),
    ensures
        r is Err,
{
    if metrics_data_shape(doc) {
        lemma_metrics_line(line, doc, data, r);
        lemma_one_payload(data, i);
    }
}

/// A line that writes a sum that is not monotonic is refused.
pub proof fn lemma_non_monotonic_line(
    line: Seq<char>,
    doc: Json,
    data: MetricsData,
    i: int,
    r: Result<MetricData, MetricsError>,
)
    requires
        json_document(line) == Ok::<Json, Seq<char>>(doc),
        metrics_data_decodes(doc, data),
        0 <= i < all_metrics(data.resource_metrics@).len(),
        all_metrics(data.resource_metrics@)[i].sum matches Some(sum) && !sum.is_monotonic,
        line_reads_as_metrics(line, r),
    ensures
        r is Err,
{
    if metrics_data_shape(doc) {
        lemma_metrics_line(line, doc, data, r);
        lemma_non_monotonic_message(data, i);
    }
}

/// Whether `r` is what a line gives as a metrics message: the line is read as a
/// JSON document first, and the document as a metrics message then.
pub open spec fn line_reads_as_metrics(line: Seq<char>, r: Result<MetricData,
    MetricsError>) -> bool {
    match json_document(line) {
        Ok(doc) => reads_as_metrics(doc, r),
        Err(msg) => r matches Err(MetricsError::MalformedJson(m)) && m@ == msg,
    }
}

/// Converts a value on the wire into an attribute value.
#[verifier::loop_isolation(false)]
pub fn convert_any_value(value: &AnyValue) -> (r: AttributeValue)
    ensures
        r@ == any_value_model(*value),
    decreases value,
{
    match value {
        AnyValue::String(s) => AttributeValue::StringValue(s.clone()),
        AnyValue::Bool(b) => AttributeValue::BoolValue(*b),
        AnyValue::Int(i) => AttributeValue::IntValue(*i),
        AnyValue::Double(d) => AttributeValue::DoubleValue(*d),
        AnyValue::Array(values) => {
            let n: usize = values.len();
            let mut out: Vec<AttributeValue> = Vec::new();
            let mut i: usize = 0;
            while i < n
                invariant
                    i <= n,
                    n == values@.len(),
                    out@.len() == i,
                    values_view(out@) == any_values_model(values@.take(i as int)),
                decreases n - i,
            {
                let converted = convert_any_value(&values[i]);
                proof {
                    assert(out@.push(converted).drop_last() =~= out@);
                    assert(values@.take(i + 1).drop_last() =~= values@.take(i as int));
                }
                out.push(converted);
                i += 1;
            }
            proof {
                assert(values@.take(n as int) =~= values@);
            }
            AttributeValue::ArrayValue(out)
        },
        AnyValue::KvList(pairs) => {
            let n: usize = pairs.len();
            let mut out: Vec<(String, AttributeValue)> = Vec::new();
            let mut i: usize = 0;
            while i < n
                invariant
                    i <= n,
                    n == pairs@.len(),
                    pairs_view(out@) == key_values_model(pairs@.take(i as int)),
                decreases n - i,
            {
                let converted = convert_any_value(&pairs[i].value);
                proof {
                    assert(pairs@.take(i + 1).drop_last() =~= pairs@.take(i as int));
                }
                put_pair(&mut out, pairs[i].key.clone(), converted);
                i += 1;
            }
            proof {
                assert(pairs@.take(n as int) =~= pairs@);
            }
            AttributeValue::KvlistValue(out)
        },
    }
}

/// Writes each of `attributes` into `map` under its trimmed key, in turn.
#[verifier::loop_isolation(false)]
pub fn add_attributes(map: AttributeMap, attributes: &Vec<Attribute>) -> (r: Result<
    AttributeMap,
    ConvertError,
>)
    ensures
        match r {
            Ok(out) => attributes_error(attributes@) is None && out@ == attributes_onto(
                map@,
                attributes@,
            ),
            Err(e) => attributes_error(attributes@) == Some(e),
        },
{
    let n: usize = attributes.len();
    let mut out = map;
    let mut i: usize = 0;
    while i < n
        invariant
            i <= n,
            n == attributes@.len(),
            out@ == attributes_onto(map@, attributes@.take(i as int)),
            forall|k: int| 0 <= k < i ==> attribute_error(#[trigger] attributes@[k]) is None,
        decreases n - i,
    {
        let key = match AttributeKey::try_new(attributes[i].key.as_str()) {
            Ok(key) => key,
            Err(e) => {
                proof {
                    lemma_first_found(
                        attributes@,
                        |a: Attribute| attribute_error(a),
                        i as int,
                    );
                }
                return Err(ConvertError::InvalidAttributeKey(e));
            },
        };
        let value = convert_any_value(&attributes[i].value);
        proof {
            assert(attributes@.take(i + 1).drop_last() =~= attributes@.take(i as int));
        }
        out = out.insert(key, value);
        i += 1;
    }
    proof {
        assert(attributes@.take(n as int) =~= attributes@);
        lemma_first_found(attributes@, |a: Attribute| attribute_error(a), n as int);
    }
    Ok(out)
}

/// Converts attributes on the wire into a map: the last value of a key stays.
pub fn convert_attributes(attributes: &Vec<Attribute>) -> (r: Result<AttributeMap, ConvertError>)
    ensures
        match r {
            Ok(out) => attributes_error(attributes@) is None && out@ == attributes_model(
                attributes@,
            ),
            Err(e) => attributes_error(attributes@) == Some(e),
        },
{
    add_attributes(AttributeMap::new(), attributes)
}

/// Reads a time: a decimal number of 64 bits that is not zero.
pub fn parse_time_unix_nano(time_str: &str) -> (r: Result<TimeUnixNano, ConvertError>)
    ensures
        match r {
            Ok(t) => timestamp_error(time_str@) is None && Some(t@) == parse_u64(time_str@),
            Err(e) => timestamp_error(time_str@) == Some(e),
        },
{
    let nanos = match parse_decimal_u64(time_str) {
        Some(n) => n,
        None => {
            return Err(ConvertError::UnreadableTimestamp);
        },
    };
    match TimeUnixNano::try_new(nanos) {
        Ok(t) => Ok(t),
        Err(e) => Err(ConvertError::InvalidTimestamp(e)),
    }
}

/// Converts a point of a gauge.
pub fn convert_gauge_data_point(dp: &GaugeDataPoint) -> (r: Result<
    DataPoint<GaugeValue>,
    ConvertError,
>)
    ensures
        match r {
            Ok(out) => gauge_point_error(*dp) is None && gauge_point_converts(*dp, out),
            Err(e) => gauge_point_error(*dp) == Some(e),
        },
{
    let timestamp = match parse_time_unix_nano(dp.time_unix_nano.as_str()) {
        Ok(t) => t,
        Err(e) => {
            return Err(e);
        },
    };
    let attributes = match convert_attributes(&dp.attributes) {
        Ok(a) => a,
        Err(e) => {
            return Err(e);
        },
    };
    Ok(DataPoint { timestamp, value: GaugeValue::new(dp.as_double), attributes })
}

/// Converts a point of a sum into a point of a counter.
pub fn convert_counter_data_point(dp: &SumDataPoint) -> (r: Result<
    DataPoint<CounterValue>,
    ConvertError,
>)
    ensures
        match r {
            Ok(out) => counter_point_error(*dp) is None && counter_point_converts(*dp, out),
            Err(e) => counter_point_error(*dp) == Some(e),
        },
{
    let timestamp = match parse_time_unix_nano(dp.time_unix_nano.as_str()) {
        Ok(t) => t,
        Err(e) => {
            return Err(e);
        },
    };
    let attributes = match convert_attributes(&dp.attributes) {
        Ok(a) => a,
        Err(e) => {
            return Err(e);
        },
    };
    let value = match CounterValue::try_new(dp.as_double) {
        Ok(v) => v,
        Err(e) => {
            return Err(ConvertError::InvalidCounterValue(e));
        },
    };
    Ok(DataPoint { timestamp, value, attributes })
}

/// Converts a point of a histogram: reads its counts, and gives each count of a
/// bucket the explicit bound at its place, or positive infinity beyond the bounds.
#[verifier::loop_isolation(false)]
pub fn convert_histogram_data_point(dp: &HistogramDataPoint) -> (r: Result<
    DataPoint<HistogramValue>,
    ConvertError,
>)
    ensures
        match r {
            Ok(out) => histogram_point_error(*dp) is None && histogram_point_converts(*dp, out),
            Err(e) => histogram_point_error(*dp) == Some(e),
        },
{
    let timestamp = match parse_time_unix_nano(dp.time_unix_nano.as_str()) {
        Ok(t) => t,
        Err(e) => {
            return Err(e);
        },
    };
    let attributes = match convert_attributes(&dp.attributes) {
        Ok(a) => a,
        Err(e) => {
            return Err(e);
        },
    };
    let count = match parse_decimal_u64(dp.count.as_str()) {
        Some(n) => n,
        None => {
            return Err(ConvertError::UnreadableHistogramCount);
        },
    };
    let n: usize = dp.bucket_counts.len();
    let mut buckets: Vec<HistogramBucket> = Vec::new();
    let mut i: usize = 0;
    while i < n
        invariant
            i <= n,
            n == dp.bucket_counts@.len(),
            buckets@.len() == i,
            forall|k: int| 0 <= k < i
                ==> bucket_count_error(#[trigger] dp.bucket_counts@[k]) is None,
            forall|k: int|
                0 <= k < i ==> {
                    &&& Some((#[trigger] buckets@[k]).count) == parse_u64(dp.bucket_counts@[k]@)
                    &&& buckets@[k].upper_bound == bucket_bound(dp.explicit_bounds@, k)
                },
        decreases n - i,
    {
        let bucket_count = match parse_decimal_u64(dp.bucket_counts[i].as_str()) {
            Some(c) => c,
            None => {
                proof {
                    lemma_first_found(
                        dp.bucket_counts@,
                        |c: String| bucket_count_error(c),
                        i as int,
                    );
                }
                return Err(ConvertError::UnreadableBucketCount);
            },
        };
        let upper_bound = if i < dp.explicit_bounds.len() {
            dp.explicit_bounds[i]
        } else {
            Double::positive_infinity()
        };
        buckets.push(HistogramBucket { upper_bound, count: bucket_count });
        i += 1;
    }
    proof {
        lemma_first_found(dp.bucket_counts@, |c: String| bucket_count_error(c), n as int);
    }
    Ok(
        DataPoint {
            timestamp,
            value: HistogramValue { count, sum: dp.sum, buckets, min: dp.min, max: dp.max },
            attributes,
        },
    )
}

/// Converts the points of a gauge, in order.
#[verifier::loop_isolation(false)]
pub fn convert_gauge_points(points: &Vec<GaugeDataPoint>) -> (r: Result<
    Vec<DataPoint<GaugeValue>>,
    ConvertError,
>)
    ensures
        match r {
            Ok(out) => {
                &&& first_found(points@, |p: GaugeDataPoint| gauge_point_error(p)) is None
                &&& out@.len() == points@.len()
                &&& forall|i: int|
                    0 <= i < points@.len() ==> gauge_point_converts(points@[i], #[trigger] out@[i])
            },
            Err(e) => first_found(points@, |p: GaugeDataPoint| gauge_point_error(p)) == Some(e),
        },
{
    let n: usize = points.len();
    let mut out: Vec<DataPoint<GaugeValue>> = Vec::new();
    let mut i: usize = 0;
    while i < n
        invariant
            i <= n,
            n == points@.len(),
            out@.len() == i,
            forall|k: int| 0 <= k < i ==> gauge_point_error(#[trigger] points@[k]) is None,
            forall|k: int| 0 <= k < i ==> gauge_point_converts(points@[k], #[trigger] out@[k]),
        decreases n - i,
    {
        match convert_gauge_data_point(&points[i]) {
            Ok(p) => {
                out.push(p);
            },
            Err(e) => {
                proof {
                    lemma_first_found(points@, |p: GaugeDataPoint| gauge_point_error(p), i as int);
                }
                return Err(e);
            },
        }
        i += 1;
    }
    proof {
        lemma_first_found(points@, |p: GaugeDataPoint| gauge_point_error(p), n as int);
    }
    Ok(out)
}

/// Converts the points of a sum into points of a counter, in order.
#[verifier::loop_isolation(false)]
pub fn convert_counter_points(points: &Vec<SumDataPoint>) -> (r: Result<
    Vec<DataPoint<CounterValue>>,
    ConvertError,
>)
    ensures
        match r {
            Ok(out) => {
                &&& first_found(points@, |p: SumDataPoint| counter_point_error(p)) is None
                &&& out@.len() == points@.len()
                &&& forall|i: int|
                    0 <= i < points@.len() ==> counter_point_converts(
                        points@[i],
                        #[trigger] out@[i],
                    )
            },
            Err(e) => first_found(points@, |p: SumDataPoint| counter_point_error(p)) == Some(e),
        },
{
    let n: usize = points.len();
    let mut out: Vec<DataPoint<CounterValue>> = Vec::new();
    let mut i: usize = 0;
    while i < n
        invariant
            i <= n,
            n == points@.len(),
            out@.len() == i,
            forall|k: int| 0 <= k < i ==> counter_point_error(#[trigger] points@[k]) is None,
            forall|k: int| 0 <= k < i ==> counter_point_converts(points@[k], #[trigger] out@[k]),
        decreases n - i,
    {
        match convert_counter_data_point(&points[i]) {
            Ok(p) => {
                out.push(p);
            },
            Err(e) => {
                proof {
                    lemma_first_found(points@, |p: SumDataPoint| counter_point_error(p), i as int);
                }
                return Err(e);
            },
        }
        i += 1;
    }
    proof {
        lemma_first_found(points@, |p: SumDataPoint| counter_point_error(p), n as int);
    }
    Ok(out)
}

/// Converts the points of a histogram, in order.
#[verifier::loop_isolation(false)]
pub fn convert_histogram_points(points: &Vec<HistogramDataPoint>) -> (r: Result<
    Vec<DataPoint<HistogramValue>>,
    ConvertError,
>)
    ensures
        match r {
            Ok(out) => {
                &&& first_found(points@, |p: HistogramDataPoint| histogram_point_error(p)) is None
                &&& out@.len() == points@.len()
                &&& forall|i: int|
                    0 <= i < points@.len() ==> histogram_point_converts(
                        points@[i],
                        #[trigger] out@[i],
                    )
            },
            Err(e) => first_found(points@, |p: HistogramDataPoint| histogram_point_error(p))
                == Some(e),
        },
{
    let n: usize = points.len();
    let mut out: Vec<DataPoint<HistogramValue>> = Vec::new();
    let mut i: usize = 0;
    while i < n
        invariant
            i <= n,
            n == points@.len(),
            out@.len() == i,
            forall|k: int| 0 <= k < i ==> histogram_point_error(#[trigger] points@[k]) is None,
            forall|k: int| 0 <= k < i ==> histogram_point_converts(points@[k], #[trigger] out@[k]),
        decreases n - i,
    {
        match convert_histogram_data_point(&points[i]) {
            Ok(p) => {
                out.push(p);
            },
            Err(e) => {
                proof {
                    lemma_first_found(
                        points@,
                        |p: HistogramDataPoint| histogram_point_error(p),
                        i as int,
                    );
                }
                return Err(e);
            },
        }
        i += 1;
    }
    proof {
        lemma_first_found(points@, |p: HistogramDataPoint| histogram_point_error(p), n as int);
    }
    Ok(out)
}

/// Converts a metric: its name is trimmed and bounded, a sum is taken as a counter
/// if it is monotonic, and the metric is a summary if one of its points is marked
/// as one.
pub fn convert_metric(validated: ValidatedMetric) -> (r: Result<Metric, ConvertError>)
    ensures
        match r {
            Ok(out) => convert_metric_error(validated) is None && metric_converts(validated, out),
            Err(e) => convert_metric_error(validated) == Some(e),
        },
{
    let name = match MetricName::try_new(validated.name.as_str()) {
        Ok(name) => name,
        Err(e) => {
            return Err(ConvertError::InvalidMetricName(e));
        },
    };
    let unit = validated.unit;
    match validated.data {
        ValidatedMetricData::Gauge(gauge) => {
            let data_points = match convert_gauge_points(&gauge.data_points) {
                Ok(points) => points,
                Err(e) => {
                    return Err(e);
                },
            };
            if has_summary_point(&data_points) {
                Ok(Metric::Summary(SummaryMetric::Gauge { name, unit, data_points }))
            } else {
                Ok(Metric::Sample(SampleMetric::Gauge { name, unit, data_points }))
            }
        },
        ValidatedMetricData::Sum(sum) => {
            if !sum.is_monotonic {
                return Err(ConvertError::NonMonotonicSum);
            }
            let data_points = match convert_counter_points(&sum.data_points) {
                Ok(points) => points,
                Err(e) => {
                    return Err(e);
                },
            };
            if has_summary_point(&data_points) {
                Ok(Metric::Summary(SummaryMetric::Counter { name, unit, data_points }))
            } else {
                Ok(Metric::Sample(SampleMetric::Counter { name, unit, data_points }))
            }
        },
        ValidatedMetricData::Histogram(histogram) => {
            let data_points = match convert_histogram_points(&histogram.data_points) {
                Ok(points) => points,
                Err(e) => {
                    return Err(e);
                },
            };
            if has_summary_point(&data_points) {
                Ok(Metric::Summary(SummaryMetric::Histogram { name, unit, data_points }))
            } else {
                Ok(Metric::Sample(SampleMetric::Histogram { name, unit, data_points }))
            }
        },
    }
}

/// Metrics that convert, followed by metrics that convert, convert together.
pub proof fn lemma_metrics_convert_add(
    a: Seq<crate::evaluator::otlp::Metric>,
    x: Seq<Metric>,
    b: Seq<crate::evaluator::otlp::Metric>,
    y: Seq<Metric>,
)
    requires
        metrics_convert(a, x),
        metrics_convert(b, y),
    ensures
        metrics_convert(a + b, x + y),
{
    assert forall|i: int| 0 <= i < (a + b).len() implies metric_converts(
        validated((a + b)[i]),
        #[trigger] (x + y)[i],
    ) by {
        if i < a.len() {
            assert((x + y)[i] == x[i]);
        } else {
            assert((x + y)[i] == y[i - a.len()]);
            assert((a + b)[i] == b[i - a.len()]);
        }
    }
}

/// Each of the metrics of scopes is a metric of one of the scopes.
pub proof fn lemma_scopes_metrics_place(scopes: Seq<ScopeMetrics>, i: int) -> (at: (int, int))
    requires
        0 <= i < scopes_metrics(scopes).len(),
    ensures
        0 <= at.0 < scopes.len(),
        0 <= at.1 < scopes[at.0].metrics@.len(),
        scopes[at.0].metrics@[at.1] == scopes_metrics(scopes)[i],
    decreases scopes.len(),
{
    let before = scopes_metrics(scopes.drop_last());
    if i < before.len() {
        let at = lemma_scopes_metrics_place(scopes.drop_last(), i);
        assert(scopes.drop_last()[at.0] == scopes[at.0]);
        at
    } else {
        (scopes.len() - 1, i - before.len())
    }
}

/// Each of the metrics of resources is a metric of a scope of one of the resources.
pub proof fn lemma_all_metrics_place(resources: Seq<ResourceMetrics>, i: int) -> (at: (
    int,
    int,
    int,
))
    requires
        0 <= i < all_metrics(resources).len(),
    ensures
        0 <= at.0 < resources.len(),
        0 <= at.1 < resources[at.0].scope_metrics@.len(),
        0 <= at.2 < resources[at.0].scope_metrics@[at.1].metrics@.len(),
        resources[at.0].scope_metrics@[at.1].metrics@[at.2] == all_metrics(resources)[i],
    decreases resources.len(),
{
    let before = all_metrics(resources.drop_last());
    if i < before.len() {
        let at = lemma_all_metrics_place(resources.drop_last(), i);
        assert(resources.drop_last()[at.0] == resources[at.0]);
        at
    } else {
        let at = lemma_scopes_metrics_place(resources.last().scope_metrics@, i - before.len());
        (resources.len() - 1, at.0, at.1)
    }
}

/// A message with a metric that is refused is refused.
pub proof fn lemma_refused_metric(data: MetricsData, i: int)
    requires
        0 <= i < all_metrics(data.resource_metrics@).len(),
        wire_metric_error(all_metrics(data.resource_metrics@)[i]) is Some,
    ensures
        message_error(data) is Some,
{
    let resources = data.resource_metrics@;
    let at = lemma_all_metrics_place(resources, i);
    let scopes = resources[at.0].scope_metrics@;
    lemma_first_found_some(
        scopes[at.1].metrics@,
        |m: crate::evaluator::otlp::Metric| wire_metric_error(m),
        at.2,
    );
    lemma_first_found_some(scopes, |s: ScopeMetrics| scope_error(s), at.1);
    lemma_first_found_some(resources, |r: ResourceMetrics| resource_error(r), at.0);
}

/// A message with a metric that has no payload, or more than one, is refused.
pub proof fn lemma_one_payload(data: MetricsData, i: int)
    requires
        0 <= i < all_metrics(data.resource_metrics@).len(),
        payload_count(all_metrics(data.resource_metrics@)[i]) != 1,
    ensures
        message_error(data) is Some,
{
    lemma_refused_metric(data, i);
}

/// A sum that is not monotonic, under a name within bounds, is refused as a
/// counter, in words that hold `non-monotonic`.
pub proof fn lemma_non_monotonic(validated: ValidatedMetric)
    requires
        bounded_text_error(validated.name@, 255) is None,
        validated.data matches ValidatedMetricData::Sum(sum) && !sum.is_monotonic,
    ensures
        convert_metric_error(validated) == Some(ConvertError::NonMonotonicSum),
        contains(ConvertError::NonMonotonicSum.text(), "non-monotonic"@),
{
    reveal_strlit("non-monotonic sums are not supported as counters");
    reveal_strlit("non-monotonic");
    let text = ConvertError::NonMonotonicSum.text();
    assert(text.subrange(0, 13) =~= "non-monotonic"@);
    assert(occurs_at(text, "non-monotonic"@, 0));
}

/// A message with a sum that is not monotonic is refused.
pub proof fn lemma_non_monotonic_message(data: MetricsData, i: int)
    requires
        0 <= i < all_metrics(data.resource_metrics@).len(),
        all_metrics(data.resource_metrics@)[i].sum matches Some(sum) && !sum.is_monotonic,
    ensures
        message_error(data) is Some,
{
    lemma_refused_metric(data, i);
}

/// Converts one metric from the wire: checks that it has a name and one payload,
/// then converts it.
pub fn convert_wire_metric(metric: crate::evaluator::otlp::Metric) -> (r: Result<
    Metric,
    ConvertError,
>)
    ensures
        match r {
            Ok(out) => wire_metric_error(metric) is None && metric_converts(
                validated(metric),
                out,
            ),
            Err(e) => wire_metric_error(metric) == Some(e),
        },
{
    match ValidatedMetric::parse(metric) {
        Ok(v) => convert_metric(v),
        Err(e) => Err(ConvertError::InvalidMetric(e)),
    }
}

/// Converts the metrics of a scope, in order.
#[verifier::loop_isolation(false)]
pub fn convert_scope(scope: ScopeMetrics) -> (r: Result<Vec<Metric>, ConvertError>)
    ensures
        match r {
            Ok(out) => scope_error(scope) is None && metrics_convert(scope.metrics@, out@),
            Err(e) => scope_error(scope) == Some(e),
        },
{
    let ghost metrics = scope.metrics@;
    let mut out: Vec<Metric> = Vec::new();
    for metric in it: scope.metrics
        invariant
            it.seq() == metrics,
            out@.len() == it.index(),
            forall|k: int| 0 <= k < it.index() ==> wire_metric_error(#[trigger] metrics[k]) is None,
            forall|k: int|
                0 <= k < it.index() ==> metric_converts(validated(metrics[k]), #[trigger] out@[k]),
    {
        match convert_wire_metric(metric) {
            Ok(m) => {
                out.push(m);
            },
            Err(e) => {
                proof {
                    lemma_first_found(
                        metrics,
                        |m: crate::evaluator::otlp::Metric| wire_metric_error(m),
                        it.index() as int,
                    );
                }
                return Err(e);
            },
        }
    }
    proof {
        lemma_first_found(
            metrics,
            |m: crate::evaluator::otlp::Metric| wire_metric_error(m),
            metrics.len() as int,
        );
    }
    Ok(out)
}

/// Converts the metrics of scopes, scope after scope.
#[verifier::loop_isolation(false)]
pub fn convert_scopes(scopes: Vec<ScopeMetrics>) -> (r: Result<Vec<Metric>, ConvertError>)
    ensures
        match r {
            Ok(out) => {
                &&& first_found(scopes@, |s: ScopeMetrics| scope_error(s)) is None
                &&& metrics_convert(scopes_metrics(scopes@), out@)
            },
            Err(e) => first_found(scopes@, |s: ScopeMetrics| scope_error(s)) == Some(e),
        },
{
    let ghost all = scopes@;
    let mut out: Vec<Metric> = Vec::new();
    for scope in it: scopes
        invariant
            it.seq() == all,
            forall|k: int| 0 <= k < it.index() ==> scope_error(#[trigger] all[k]) is None,
            metrics_convert(scopes_metrics(all.take(it.index() as int)), out@),
    {
        let ghost before = out@;
        let ghost at = it.index() as int;
        match convert_scope(scope) {
            Ok(mut more) => {
                proof {
                    lemma_metrics_convert_add(
                        scopes_metrics(all.take(at)),
                        before,
                        all[at].metrics@,
                        more@,
                    );
                    assert(all.take(at + 1).drop_last() =~= all.take(at));
                }
                out.append(&mut more);
            },
            Err(e) => {
                proof {
                    lemma_first_found(all, |s: ScopeMetrics| scope_error(s), at);
                }
                return Err(e);
            },
        }
    }
    proof {
        assert(all.take(all.len() as int) =~= all);
        lemma_first_found(all, |s: ScopeMetrics| scope_error(s), all.len() as int);
    }
    Ok(out)
}

/// Converts a message: the attributes of all its resources go into one map, a
/// later value of a key in the place of an earlier one, and all its metrics into
/// one list, in order. The first thing that is refused ends the conversion.
#[verifier::loop_isolation(false)]
pub fn convert_message(data: MetricsData) -> (r: Result<MetricData, ConvertError>)
    ensures
        match r {
            Ok(out) => message_error(data) is None && message_converts(data, out),
            Err(e) => message_error(data) == Some(e),
        },
{
    let ghost all = data.resource_metrics@;
    let mut metrics: Vec<Metric> = Vec::new();
    let mut resource_attributes = AttributeMap::new();
    for resource in it: data.resource_metrics
        invariant
            it.seq() == all,
            forall|k: int| 0 <= k < it.index() ==> resource_error(#[trigger] all[k]) is None,
            resource_attributes@ == attributes_model(
                all_resource_attributes(all.take(it.index() as int)),
            ),
            metrics_convert(all_metrics(all.take(it.index() as int)), metrics@),
    {
        let ghost before = metrics@;
        let ghost at = it.index() as int;
        proof {
            assert(all.take(at + 1).drop_last() =~= all.take(at));
        }
        match resource.resource {
            Some(r) => {
                proof {
                    lemma_attributes_onto_add(
                        Seq::empty(),
                        all_resource_attributes(all.take(at)),
                        r.attributes@,
                    );
                }
                match add_attributes(resource_attributes, &r.attributes) {
                    Ok(map) => {
                        resource_attributes = map;
                    },
                    Err(e) => {
                        proof {
                            lemma_first_found(all, |r: ResourceMetrics| resource_error(r), at);
                        }
                        return Err(e);
                    },
                }
            },
            None => {
                proof {
                    assert(all_resource_attributes(all.take(at)) + Seq::<Attribute>::empty()
                        =~= all_resource_attributes(all.take(at)));
                    assert(attributes_error(Seq::<Attribute>::empty()) is None);
                }
            },
        }
        match convert_scopes(resource.scope_metrics) {
            Ok(mut more) => {
                proof {
                    lemma_metrics_convert_add(
                        all_metrics(all.take(at)),
                        before,
                        scopes_metrics(all[at].scope_metrics@),
                        more@,
                    );
                }
                metrics.append(&mut more);
            },
            Err(e) => {
                proof {
                    lemma_first_found(all, |r: ResourceMetrics| resource_error(r), at);
                }
                return Err(e);
            },
        }
    }
    proof {
        assert(all.take(all.len() as int) =~= all);
        lemma_first_found(all, |r: ResourceMetrics| resource_error(r), all.len() as int);
    }
    Ok(MetricData { resource_attributes, metrics })
}

/// Reads a metrics message from a document: the fields and their kinds first, then
/// their bounds.
pub fn metrics_from_json(doc: &Json) -> (r: Result<MetricData, MetricsError>)
    ensures
        reads_as_metrics(*doc, r),
{
    let data = match decode_metrics_data(doc) {
        Some(data) => data,
        None => {
            return Err(MetricsError::InvalidShape);
        },
    };
    proof {
        lemma_metrics_data_reading(*doc, data, raw_metrics(*doc));
        lemma_message_alike(data, raw_metrics(*doc));
    }
    match convert_message(data) {
        Ok(out) => Ok(out),
        Err(e) => Err(MetricsError::Rejected(e)),
    }
}

/// Reads a metrics message from a line of text.
pub fn parse_metrics_line(line: &str) -> (r: Result<MetricData, MetricsError>)
    ensures
        line_reads_as_metrics(line@, r),
{
    match read_document(line) {
        Ok(doc) => metrics_from_json(&doc),
        Err(msg) => Err(MetricsError::MalformedJson(msg)),
    }
}

impl ConvertError {
    /// The error in words.
    pub open spec fn text(self) -> Seq<char> {
        match self {
            ConvertError::InvalidAttributeKey(e) => "invalid attribute key: "@ + e.text(),
            ConvertError::InvalidMetric(e) => "failed to validate OTLP metric: "@ + e.text(),
            ConvertError::InvalidMetricName(e) => "invalid metric name: "@ + e.text(),
            ConvertError::NonMonotonicSum => "non-monotonic sums are not supported as counters"@,
            ConvertError::UnreadableTimestamp => "failed to parse timestamp"@,
            ConvertError::InvalidTimestamp(e) => "invalid timestamp: "@ + e.text(),
            ConvertError::InvalidCounterValue(e) => "invalid counter value: "@ + e.text(),
            ConvertError::UnreadableHistogramCount => "failed to parse histogram count"@,
            ConvertError::UnreadableBucketCount => "failed to parse bucket count"@,
        }
    }

    /// The error in words.
    pub fn message(&self) -> (r: String)
        ensures
            r@ == self.text(),
    {
        match self {
            ConvertError::InvalidAttributeKey(e) => String::from_str(
                "invalid attribute key: ",
            ).concat(e.message().as_str()),
            ConvertError::InvalidMetric(e) => String::from_str(
                "failed to validate OTLP metric: ",
            ).concat(e.message().as_str()),
            ConvertError::InvalidMetricName(e) => String::from_str("invalid metric name: ").concat(
                e.message().as_str(),
            ),
            ConvertError::NonMonotonicSum => String::from_str(
                "non-monotonic sums are not supported as counters",
            ),
            ConvertError::UnreadableTimestamp => String::from_str("failed to parse timestamp"),
            ConvertError::InvalidTimestamp(e) => String::from_str("invalid timestamp: ").concat(
                e.message().as_str(),
            ),
            ConvertError::InvalidCounterValue(e) => String::from_str(
                "invalid counter value: ",
            ).concat(e.message().as_str()),
            ConvertError::UnreadableHistogramCount => String::from_str(
                "failed to parse histogram count",
            ),
            ConvertError::UnreadableBucketCount => String::from_str("failed to parse bucket count"),
        }
    }
}

impl MetricsError {
    /// The error in words.
    pub open spec fn text(self) -> Seq<char> {
        match self {
            MetricsError::MalformedJson(msg) => "malformed JSON in metrics: "@ + msg@,
            MetricsError::InvalidShape => "failed to parse OTLP JSON"@,
            MetricsError::Rejected(e) => e.text(),
        }
    }

    /// The error in words.
    pub fn message(&self) -> (r: String)
        ensures
            r@ == self.text(),
    {
        match self {
            MetricsError::MalformedJson(msg) => String::from_str(
                "malformed JSON in metrics: ",
            ).concat(msg.as_str()),
            MetricsError::InvalidShape => String::from_str("failed to parse OTLP JSON"),
            MetricsError::Rejected(e) => e.message(),
        }
    }
}

} // verus!

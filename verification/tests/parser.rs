use preval::double::Double;
use preval::evaluator::otlp::{
    decode_any_value, AnyValue, Attribute, Gauge, GaugeDataPoint, Histogram, HistogramDataPoint,
    KeyValue, Metric as WireMetric, Sum, SumDataPoint, ValidatedMetric, ValidatedMetricData,
    ValidationError,
};
use preval::evaluator::parser::{
    convert_any_value, convert_attributes, convert_counter_data_point,
    convert_histogram_data_point, convert_metric, metrics_from_json, parse_metrics_line,
    parse_time_unix_nano, ConvertError, MetricsError,
};
use preval::json::Json;
use preval::state::metrics::{
    AttributeValue, CounterValueError, Metric, SampleMetric, SummaryMetric,
};
use preval::text::{NumberError, TextError};

const SAMPLE_GAUGE_JSON: &str = r#"{
        "resourceMetrics": [{
            "resource": {
                "attributes": [{
                    "key": "service.name",
                    "value": {"stringValue": "test-service"}
                }]
            },
            "scopeMetrics": [{
                "metrics": [{
                    "name": "test.gauge",
                    "unit": "ms",
                    "gauge": {
                        "dataPoints": [{
                            "timeUnixNano": "1234567890000000000",
                            "asDouble": 42.5,
                            "attributes": [{
                                "key": "sample.id",
                                "value": {"stringValue": "test-001"}
                            }]
                        }]
                    }
                }]
            }]
        }]
    }"#;

const SAMPLE_COUNTER_JSON: &str = r#"{
        "resourceMetrics": [{
            "scopeMetrics": [{
                "metrics": [{
                    "name": "test.counter",
                    "sum": {
                        "dataPoints": [{
                            "timeUnixNano": "1234567890000000000",
                            "asDouble": 100.0
                        }],
                        "isMonotonic": true
                    }
                }]
            }]
        }]
    }"#;

const SAMPLE_HISTOGRAM_JSON: &str = r#"{
        "resourceMetrics": [{
            "scopeMetrics": [{
                "metrics": [{
                    "name": "test.histogram",
                    "histogram": {
                        "dataPoints": [{
                            "timeUnixNano": "1234567890000000000",
                            "count": "100",
                            "sum": 5050.0,
                            "bucketCounts": ["10", "40", "40", "10"],
                            "explicitBounds": [1.0, 10.0, 100.0],
                            "min": 0.1,
                            "max": 99.9
                        }]
                    }
                }]
            }]
        }]
    }"#;

fn float(d: Double) -> f64 {
    f64::from_bits(d.to_bits())
}

fn double(f: f64) -> Double {
    Double::from_bits(f.to_bits())
}

fn one_metric(metric: &str) -> String {
    format!(r#"{{"resourceMetrics":[{{"scopeMetrics":[{{"metrics":[{}]}}]}}]}}"#, metric)
}

fn rejected(metric: &str) -> ConvertError {
    match parse_metrics_line(&one_metric(metric)) {
        Err(MetricsError::Rejected(e)) => e,
        other => panic!("expected a refusal, got {:?}", other),
    }
}

#[test]
fn parses_gauge_metric() {
    let result = parse_metrics_line(SAMPLE_GAUGE_JSON).unwrap();

    assert_eq!(result.metrics.len(), 1);
    match &result.metrics[0] {
        Metric::Sample(SampleMetric::Gauge { name, unit, data_points }) => {
            assert_eq!(name.as_ref(), "test.gauge");
            assert_eq!(unit.as_deref(), Some("ms"));
            assert_eq!(data_points.len(), 1);
            assert_eq!(float(data_points[0].value.value()), 42.5);
        }
        _ => panic!("Expected sample gauge metric"),
    }

    // Check resource attributes
    assert_eq!(result.resource_attributes.len(), 1);
}

#[test]
fn parses_counter_metric() {
    let result = parse_metrics_line(SAMPLE_COUNTER_JSON).unwrap();

    assert_eq!(result.metrics.len(), 1);
    match &result.metrics[0] {
        Metric::Sample(SampleMetric::Counter { name, data_points, .. }) => {
            assert_eq!(name.as_ref(), "test.counter");
            assert_eq!(data_points.len(), 1);
            assert_eq!(float(data_points[0].value.value()), 100.0);
        }
        _ => panic!("Expected sample counter metric"),
    }
}

#[test]
fn parses_histogram_metric() {
    let result = parse_metrics_line(SAMPLE_HISTOGRAM_JSON).unwrap();

    assert_eq!(result.metrics.len(), 1);
    match &result.metrics[0] {
        Metric::Sample(SampleMetric::Histogram { name, data_points, .. }) => {
            assert_eq!(name.as_ref(), "test.histogram");
            assert_eq!(data_points.len(), 1);

            let hist = &data_points[0].value;
            assert_eq!(hist.count, 100);
            assert_eq!(hist.sum.map(float), Some(5050.0));
            assert_eq!(hist.buckets.len(), 4); // 3 explicit + 1 infinity
            assert_eq!(hist.min.map(float), Some(0.1));
            assert_eq!(hist.max.map(float), Some(99.9));
        }
        _ => panic!("Expected sample histogram metric"),
    }
}

#[test]
fn handles_non_monotonic_sum() {
    let json = r#"{
            "resourceMetrics": [{
                "scopeMetrics": [{
                    "metrics": [{
                        "name": "test.sum",
                        "sum": {
                            "dataPoints": [{
                                "timeUnixNano": "1234567890000000000",
                                "asDouble": 10.0
                            }],
                            "isMonotonic": false
                        }
                    }]
                }]
            }]
        }"#;

    let result = parse_metrics_line(json);
    assert!(result.is_err());
    assert!(result.unwrap_err().message().contains("non-monotonic"));
}

#[test]
fn validates_non_empty_name() {
    let metric = WireMetric {
        name: "  ".to_string(),
        unit: None,
        gauge: Some(Gauge { data_points: vec![] }),
        sum: None,
        histogram: None,
    };

    assert!(ValidatedMetric::parse(metric).is_err());
}

#[test]
fn parses_real_world_evaluator_output() {
    let json = r#"{
        "resourceMetrics": [
            {
                "resource": {
                    "attributes": [
                        {"key": "service.name", "value": {"stringValue": "sentiment-eval"}},
                        {"key": "service.version", "value": {"stringValue": "1.0.0"}}
                    ]
                },
                "scopeMetrics": [
                    {
                        "metrics": [
                            {
                                "name": "llm.eval.accuracy",
                                "unit": "ratio",
                                "gauge": {
                                    "dataPoints": [
                                        {
                                            "timeUnixNano": "1234567890000000000",
                                            "asDouble": 0.92,
                                            "attributes": [
                                                {"key": "sample.id", "value": {"stringValue": "email-001"}},
                                                {"key": "model", "value": {"stringValue": "gpt-4"}}
                                            ]
                                        },
                                        {
                                            "timeUnixNano": "1234567891000000000",
                                            "asDouble": 0.88,
                                            "attributes": [
                                                {"key": "sample.id", "value": {"stringValue": "email-002"}},
                                                {"key": "model", "value": {"stringValue": "gpt-4"}}
                                            ]
                                        }
                                    ]
                                }
                            },
                            {
                                "name": "llm.eval.latency",
                                "unit": "ms",
                                "histogram": {
                                    "dataPoints": [
                                        {
                                            "timeUnixNano": "1234567890000000000",
                                            "count": "10",
                                            "sum": 1523.5,
                                            "bucketCounts": ["2", "3", "3", "2"],
                                            "explicitBounds": [50.0, 100.0, 200.0],
                                            "min": 45.2,
                                            "max": 312.8,
                                            "attributes": [
                                                {"key": "sample.id", "value": {"stringValue": "email-001"}}
                                            ]
                                        }
                                    ]
                                }
                            }
                        ]
                    }
                ]
            }
        ]
    }"#;

    let result = parse_metrics_line(json).unwrap();

    // Verify resource attributes
    assert_eq!(result.resource_attributes.len(), 2);
    let service_name = result.resource_attributes.get("service.name");
    assert!(service_name.is_some());

    // Verify metrics
    assert_eq!(result.metrics.len(), 2);

    // Check accuracy gauge metric
    let accuracy_metric = result
        .metrics
        .iter()
        .find(|m| match m {
            Metric::Sample(SampleMetric::Gauge { name, .. }) => {
                name.as_ref() == "llm.eval.accuracy"
            }
            _ => false,
        })
        .expect("accuracy metric not found");

    match accuracy_metric {
        Metric::Sample(SampleMetric::Gauge { unit, data_points, .. }) => {
            assert_eq!(unit.as_deref(), Some("ratio"));
            assert_eq!(data_points.len(), 2);
            assert_eq!(float(data_points[0].value.value()), 0.92);
            assert_eq!(float(data_points[1].value.value()), 0.88);
        }
        _ => panic!("Expected gauge metric"),
    }

    // Check latency histogram metric
    let latency_metric = result
        .metrics
        .iter()
        .find(|m| match m {
            Metric::Sample(SampleMetric::Histogram { name, .. }) => {
                name.as_ref() == "llm.eval.latency"
            }
            _ => false,
        })
        .expect("latency metric not found");

    match latency_metric {
        Metric::Sample(SampleMetric::Histogram { unit, data_points, .. }) => {
            assert_eq!(unit.as_deref(), Some("ms"));
            assert_eq!(data_points.len(), 1);
            let hist = &data_points[0].value;
            assert_eq!(hist.count, 10);
            assert_eq!(hist.sum.map(float), Some(1523.5));
            assert_eq!(hist.buckets.len(), 4);
            assert_eq!(hist.min.map(float), Some(45.2));
            assert_eq!(hist.max.map(float), Some(312.8));
        }
        _ => panic!("Expected histogram metric"),
    }
}

#[test]
fn handles_multiple_json_lines() {
    let line1 = r#"{"resourceMetrics":[{"scopeMetrics":[{"metrics":[{"name":"metric1","gauge":{"dataPoints":[{"timeUnixNano":"1234567890000000000","asDouble":1.0}]}}]}]}]}"#;
    let line2 = r#"{"resourceMetrics":[{"scopeMetrics":[{"metrics":[{"name":"metric2","gauge":{"dataPoints":[{"timeUnixNano":"1234567890000000000","asDouble":2.0}]}}]}]}]}"#;

    let result1 = parse_metrics_line(line1).unwrap();
    let result2 = parse_metrics_line(line2).unwrap();

    assert_eq!(result1.metrics.len(), 1);
    assert_eq!(result2.metrics.len(), 1);

    match &result1.metrics[0] {
        Metric::Sample(SampleMetric::Gauge { name, data_points, .. }) => {
            assert_eq!(name.as_ref(), "metric1");
            assert_eq!(float(data_points[0].value.value()), 1.0);
        }
        _ => panic!("Expected gauge metric"),
    }

    match &result2.metrics[0] {
        Metric::Sample(SampleMetric::Gauge { name, data_points, .. }) => {
            assert_eq!(name.as_ref(), "metric2");
            assert_eq!(float(data_points[0].value.value()), 2.0);
        }
        _ => panic!("Expected gauge metric"),
    }
}

#[test]
fn a_metric_needs_exactly_one_payload() {
    assert_eq!(rejected(r#"{"name":"m"}"#), ConvertError::InvalidMetric(ValidationError::InvalidMetricType));
    assert_eq!(
        rejected(r#"{"name":"m","gauge":{"dataPoints":[]},"sum":{"dataPoints":[],"isMonotonic":true}}"#),
        ConvertError::InvalidMetric(ValidationError::InvalidMetricType)
    );
    assert_eq!(
        rejected(
            r#"{"name":"m","gauge":{"dataPoints":[]},"sum":{"dataPoints":[]},"histogram":{"dataPoints":[]}}"#
        ),
        ConvertError::InvalidMetric(ValidationError::InvalidMetricType)
    );
    assert_eq!(
        rejected(r#"{"name":"m","gauge":null,"sum":null,"histogram":null}"#),
        ConvertError::InvalidMetric(ValidationError::InvalidMetricType)
    );
    assert_eq!(
        rejected(r#"{"name":" ","gauge":{"dataPoints":[]}}"#),
        ConvertError::InvalidMetric(ValidationError::EmptyMetricName)
    );
    assert_eq!(
        ConvertError::InvalidMetric(ValidationError::InvalidMetricType).message(),
        "failed to validate OTLP metric: metric must have exactly one type (gauge, sum, or histogram)"
    );
}

#[test]
fn a_sum_that_is_not_monotonic_is_no_counter() {
    assert_eq!(rejected(r#"{"name":"m","sum":{"dataPoints":[]}}"#), ConvertError::NonMonotonicSum);
    let validated = ValidatedMetric {
        name: "m".to_string(),
        unit: None,
        data: ValidatedMetricData::Sum(Sum {
            data_points: vec![],
            aggregation_temporality: 2,
            is_monotonic: false,
        }),
    };
    let error = convert_metric(validated).unwrap_err();
    assert_eq!(error, ConvertError::NonMonotonicSum);
    assert_eq!(error.message(), "non-monotonic sums are not supported as counters");
}

#[test]
fn each_refusal_has_its_cause() {
    assert_eq!(
        rejected(&format!(r#"{{"name":"{}","gauge":{{"dataPoints":[]}}}}"#, "n".repeat(256))),
        ConvertError::InvalidMetricName(TextError::TooLong)
    );
    assert_eq!(
        rejected(r#"{"name":"m","gauge":{"dataPoints":[{"timeUnixNano":"soon","asDouble":1}]}}"#),
        ConvertError::UnreadableTimestamp
    );
    assert_eq!(
        rejected(r#"{"name":"m","gauge":{"dataPoints":[{"timeUnixNano":"0","asDouble":1}]}}"#),
        ConvertError::InvalidTimestamp(NumberError::NotPositive)
    );
    assert_eq!(
        rejected(
            r#"{"name":"m","gauge":{"dataPoints":[{"timeUnixNano":"1","asDouble":1,"attributes":[{"key":"  ","value":{"boolValue":true}}]}]}}"#
        ),
        ConvertError::InvalidAttributeKey(TextError::Empty)
    );
    assert_eq!(
        rejected(
            r#"{"name":"m","sum":{"isMonotonic":true,"dataPoints":[{"timeUnixNano":"1","asDouble":-1.5}]}}"#
        ),
        ConvertError::InvalidCounterValue(CounterValueError::MustBeNonNegative)
    );
    assert_eq!(
        rejected(r#"{"name":"m","histogram":{"dataPoints":[{"timeUnixNano":"1","count":"many"}]}}"#),
        ConvertError::UnreadableHistogramCount
    );
    assert_eq!(
        rejected(
            r#"{"name":"m","histogram":{"dataPoints":[{"timeUnixNano":"1","count":"1","bucketCounts":["1","-2"]}]}}"#
        ),
        ConvertError::UnreadableBucketCount
    );
}

#[test]
fn the_first_refusal_in_reading_order_is_reported() {
    let line = r#"{"resourceMetrics":[
        {"scopeMetrics":[{"metrics":[{"name":"a","gauge":{"dataPoints":[]}}]},{"metrics":[{"name":"b"}]}]},
        {"resource":{"attributes":[{"key":"","value":{"intValue":1}}]},"scopeMetrics":[]}
    ]}"#;
    assert_eq!(
        parse_metrics_line(line).unwrap_err(),
        MetricsError::Rejected(ConvertError::InvalidMetric(ValidationError::InvalidMetricType))
    );
    let line = r#"{"resourceMetrics":[
        {"resource":{"attributes":[{"key":"","value":{"intValue":1}}]},"scopeMetrics":[{"metrics":[{"name":"b"}]}]}
    ]}"#;
    assert_eq!(
        parse_metrics_line(line).unwrap_err(),
        MetricsError::Rejected(ConvertError::InvalidAttributeKey(TextError::Empty))
    );
}

#[test]
fn a_line_of_the_wrong_shape_is_refused() {
    assert!(matches!(parse_metrics_line("nope"), Err(MetricsError::MalformedJson(_))));
    let cases = [
        r#"{}"#,
        r#"[]"#,
        r#"{"resourceMetrics":null}"#,
        r#"{"resourceMetrics":[{"scopeMetrics":null}]}"#,
        r#"{"resourceMetrics":[{"scopeMetrics":[{"metrics":[{"unit":"u"}]}]}]}"#,
        r#"{"resourceMetrics":[{"scopeMetrics":[{"metrics":[{"name":"m","gauge":{}}]}]}]}"#,
        r#"{"resourceMetrics":[{"scopeMetrics":[{"metrics":[{"name":"m","gauge":{"dataPoints":[{"asDouble":1}]}}]}]}]}"#,
        r#"{"resourceMetrics":[{"scopeMetrics":[{"metrics":[{"name":"m","gauge":{"dataPoints":[{"timeUnixNano":1,"asDouble":1}]}}]}]}]}"#,
        r#"{"resourceMetrics":[{"scopeMetrics":[{"metrics":[{"name":"m","gauge":{"dataPoints":[{"timeUnixNano":"1","asDouble":"1"}]}}]}]}]}"#,
        r#"{"resourceMetrics":[{"scopeMetrics":[{"metrics":[{"name":"m","sum":{"dataPoints":[],"isMonotonic":1}}]}]}]}"#,
        r#"{"resourceMetrics":[{"scopeMetrics":[{"metrics":[{"name":"m","sum":{"dataPoints":[],"aggregationTemporality":2147483648}}]}]}]}"#,
        r#"{"resourceMetrics":[{"scopeMetrics":[{"metrics":[{"name":"m","histogram":{"dataPoints":[{"timeUnixNano":"1","count":1}]}}]}]}]}"#,
        r#"{"resourceMetrics":[{"scopeMetrics":[{"metrics":[{"name":"m","histogram":{"dataPoints":[{"timeUnixNano":"1","count":"1","bucketCounts":[1]}]}}]}]}]}"#,
        r#"{"resourceMetrics":[{"resource":{"attributes":[{"key":"k","value":{"stringValue":"a","boolValue":true}}]}}]}"#,
        r#"{"resourceMetrics":[{"resource":{"attributes":[{"key":"k","value":{"colourValue":"a"}}]}}]}"#,
        r#"{"resourceMetrics":[{"resource":{"attributes":[{"key":"k","value":{"intValue":1.5}}]}}]}"#,
        r#"{"resourceMetrics":[{"resource":{"attributes":[{"key":"k"}]}}]}"#,
        r#"{"resourceMetrics":[{"resource":{"attributes":null}}]}"#,
    ];
    for case in cases {
        assert_eq!(parse_metrics_line(case).unwrap_err(), MetricsError::InvalidShape, "{}", case);
    }
    assert_eq!(metrics_from_json(&Json::Null).unwrap_err(), MetricsError::InvalidShape);
}

#[test]
fn an_empty_message_is_a_message() {
    let data = parse_metrics_line(r#"{"resourceMetrics":[]}"#).unwrap();
    assert_eq!(data.metrics.len(), 0);
    assert_eq!(data.resource_attributes.len(), 0);
    let data = parse_metrics_line(r#"{"resourceMetrics":[{},{"resource":null,"scopeMetrics":[{}]}]}"#).unwrap();
    assert_eq!(data.metrics.len(), 0);
}

#[test]
fn a_point_marked_as_summary_makes_a_summary() {
    let line = one_metric(
        r#"{"name":"acc","gauge":{"dataPoints":[
            {"timeUnixNano":"1","asDouble":0.5},
            {"timeUnixNano":"2","asDouble":0.81,"attributes":[{"key":"summary","value":{"boolValue":true}}]}
        ]}}"#,
    );
    let data = parse_metrics_line(&line).unwrap();
    match &data.metrics[0] {
        Metric::Summary(SummaryMetric::Gauge { data_points, .. }) => assert_eq!(data_points.len(), 2),
        other => panic!("expected a summary, got {:?}", other),
    }
    assert!(!data.metrics[0].counts_toward_progress());

    for value in [r#"{"boolValue":false}"#, r#"{"stringValue":"true"}"#, r#"{"intValue":1}"#] {
        let line = one_metric(&format!(
            r#"{{"name":"acc","sum":{{"isMonotonic":true,"dataPoints":[{{"timeUnixNano":"1","asDouble":1,"attributes":[{{"key":"summary","value":{}}}]}}]}}}}"#,
            value
        ));
        let data = parse_metrics_line(&line).unwrap();
        assert!(matches!(&data.metrics[0], Metric::Sample(SampleMetric::Counter { .. })));
        assert!(data.metrics[0].counts_toward_progress());
    }

    let line = one_metric(
        r#"{"name":"h","histogram":{"dataPoints":[{"timeUnixNano":"1","count":"0","attributes":[{"key":" summary ","value":{"boolValue":true}}]}]}}"#,
    );
    let data = parse_metrics_line(&line).unwrap();
    assert!(matches!(&data.metrics[0], Metric::Summary(SummaryMetric::Histogram { .. })));
}

#[test]
fn buckets_follow_the_counts() {
    let point = |counts: &[&str], bounds: &[f64]| HistogramDataPoint {
        time_unix_nano: "5".to_string(),
        attributes: vec![],
        count: "+7".to_string(),
        sum: None,
        bucket_counts: counts.iter().map(|c| c.to_string()).collect(),
        explicit_bounds: bounds.iter().map(|b| double(*b)).collect(),
        min: None,
        max: Some(double(2.5)),
    };

    let out = convert_histogram_data_point(&point(&["1", "2", "3"], &[10.0, 20.0])).unwrap();
    assert_eq!(out.timestamp.into_inner(), 5);
    assert_eq!(out.value.count, 7);
    assert_eq!(out.value.max.map(float), Some(2.5));
    assert_eq!(out.value.sum, None);
    let buckets: Vec<(f64, u64)> =
        out.value.buckets.iter().map(|b| (float(b.upper_bound), b.count)).collect();
    assert_eq!(buckets, vec![(10.0, 1), (20.0, 2), (f64::INFINITY, 3)]);

    let out = convert_histogram_data_point(&point(&["1", "2"], &[10.0, 20.0])).unwrap();
    let buckets: Vec<(f64, u64)> =
        out.value.buckets.iter().map(|b| (float(b.upper_bound), b.count)).collect();
    assert_eq!(buckets, vec![(10.0, 1), (20.0, 2)]);

    let out = convert_histogram_data_point(&point(&["4", "5", "6", "7"], &[1.5])).unwrap();
    let buckets: Vec<(f64, u64)> =
        out.value.buckets.iter().map(|b| (float(b.upper_bound), b.count)).collect();
    assert_eq!(buckets, vec![(1.5, 4), (f64::INFINITY, 5), (f64::INFINITY, 6), (f64::INFINITY, 7)]);

    let out = convert_histogram_data_point(&point(&["9"], &[1.0, 2.0, 3.0])).unwrap();
    assert_eq!(out.value.buckets.len(), 1);
    assert_eq!(float(out.value.buckets[0].upper_bound), 1.0);

    let out = convert_histogram_data_point(&point(&[], &[1.0])).unwrap();
    assert_eq!(out.value.buckets.len(), 0);
}

#[test]
fn times_are_decimal_numbers_above_zero() {
    assert_eq!(parse_time_unix_nano("1234567890000000000").unwrap().into_inner(), 1234567890000000000);
    assert_eq!(parse_time_unix_nano("+3").unwrap().into_inner(), 3);
    assert_eq!(parse_time_unix_nano("18446744073709551615").unwrap().into_inner(), u64::MAX);
    assert_eq!(parse_time_unix_nano("18446744073709551616").unwrap_err(), ConvertError::UnreadableTimestamp);
    assert_eq!(parse_time_unix_nano("").unwrap_err(), ConvertError::UnreadableTimestamp);
    assert_eq!(parse_time_unix_nano("-1").unwrap_err(), ConvertError::UnreadableTimestamp);
    assert_eq!(parse_time_unix_nano(" 1").unwrap_err(), ConvertError::UnreadableTimestamp);
    assert_eq!(
        parse_time_unix_nano("000").unwrap_err(),
        ConvertError::InvalidTimestamp(NumberError::NotPositive)
    );
}

#[test]
fn counter_values_are_finite_and_not_negative() {
    let point = |value: f64| SumDataPoint {
        time_unix_nano: "1".to_string(),
        as_double: double(value),
        attributes: vec![],
    };
    assert_eq!(float(convert_counter_data_point(&point(0.0)).unwrap().value.value()), 0.0);
    assert!(convert_counter_data_point(&point(-0.0)).is_ok());
    assert_eq!(float(convert_counter_data_point(&point(1e300)).unwrap().value.value()), 1e300);
    assert_eq!(
        convert_counter_data_point(&point(-1e-300)).unwrap_err(),
        ConvertError::InvalidCounterValue(CounterValueError::MustBeNonNegative)
    );
    assert_eq!(
        convert_counter_data_point(&point(f64::NEG_INFINITY)).unwrap_err(),
        ConvertError::InvalidCounterValue(CounterValueError::MustBeNonNegative)
    );
    assert_eq!(
        convert_counter_data_point(&point(f64::INFINITY)).unwrap_err(),
        ConvertError::InvalidCounterValue(CounterValueError::NotFinite)
    );
    assert_eq!(
        convert_counter_data_point(&point(f64::NAN)).unwrap_err(),
        ConvertError::InvalidCounterValue(CounterValueError::NotFinite)
    );
}

#[test]
fn the_last_value_of_a_key_stays() {
    let attribute = |key: &str, value: i64| Attribute { key: key.to_string(), value: AnyValue::Int(value) };
    let map = convert_attributes(&vec![
        attribute("a", 1),
        attribute("b", 2),
        attribute(" a ", 3),
        attribute("c", 4),
        attribute("b", 5),
    ])
    .unwrap();
    assert_eq!(map.len(), 3);
    assert_eq!(map.get("a"), Some(&AttributeValue::IntValue(3)));
    assert_eq!(map.get("b"), Some(&AttributeValue::IntValue(5)));
    assert_eq!(map.get("c"), Some(&AttributeValue::IntValue(4)));
    assert_eq!(map.get("d"), None);
    assert_eq!(map.key_at(0).as_ref(), "a");
    assert_eq!(map.key_at(2).as_ref(), "c");
    assert_eq!(map.value_at(1), &AttributeValue::IntValue(5));

    let line = r#"{"resourceMetrics":[
        {"resource":{"attributes":[{"key":"host","value":{"stringValue":"one"}},{"key":"zone","value":{"stringValue":"x"}}]}},
        {"resource":{"attributes":[{"key":"host","value":{"stringValue":"two"}}]}}
    ]}"#;
    let data = parse_metrics_line(line).unwrap();
    assert_eq!(data.resource_attributes.len(), 2);
    assert_eq!(
        data.resource_attributes.get("host"),
        Some(&AttributeValue::StringValue("two".to_string()))
    );
}

#[test]
fn values_convert_through_and_through() {
    let line = r#"{"kvlistValue":{"values":[
        {"key":"n","value":{"intValue":-9223372036854775808}},
        {"key":"list","value":{"arrayValue":{"values":[{"doubleValue":1.5},{"doubleValue":2},{"boolValue":false},{"stringValue":""}]}}},
        {"key":"n","value":{"kvlistValue":{"values":[]}}}
    ]}}"#;
    let doc = match preval::state::types::ValidJson::try_new(line.to_string()) {
        Ok(valid) => valid.parse(),
        Err(e) => panic!("{:?}", e),
    };
    let wire = decode_any_value(&doc).unwrap();
    match &wire {
        AnyValue::KvList(pairs) => {
            assert_eq!(pairs.len(), 3);
            assert_eq!(pairs[0], KeyValue { key: "n".to_string(), value: AnyValue::Int(i64::MIN) });
        }
        other => panic!("unexpected {:?}", other),
    }
    let value = convert_any_value(&wire);
    assert_eq!(
        value,
        AttributeValue::KvlistValue(vec![
            ("n".to_string(), AttributeValue::KvlistValue(vec![])),
            (
                "list".to_string(),
                AttributeValue::ArrayValue(vec![
                    AttributeValue::DoubleValue(double(1.5)),
                    AttributeValue::DoubleValue(double(2.0)),
                    AttributeValue::BoolValue(false),
                    AttributeValue::StringValue(String::new()),
                ])
            ),
        ])
    );
}

#[test]
fn a_gauge_point_keeps_its_parts() {
    let point = GaugeDataPoint {
        time_unix_nano: "77".to_string(),
        as_double: double(-3.25),
        attributes: vec![Attribute { key: "sample.id".to_string(), value: AnyValue::String("s1".to_string()) }],
    };
    let wire = WireMetric {
        name: "  g  ".to_string(),
        unit: Some(" u ".to_string()),
        gauge: Some(Gauge { data_points: vec![point] }),
        sum: None,
        histogram: None,
    };
    let metric = convert_metric(ValidatedMetric::parse(wire).unwrap()).unwrap();
    assert_eq!(metric.name().as_ref(), "g");
    match metric {
        Metric::Sample(SampleMetric::Gauge { unit, data_points, .. }) => {
            assert_eq!(unit.as_deref(), Some(" u "));
            assert_eq!(data_points[0].timestamp.into_inner(), 77);
            assert_eq!(float(data_points[0].value.value()), -3.25);
            assert_eq!(
                data_points[0].attributes.get("sample.id"),
                Some(&AttributeValue::StringValue("s1".to_string()))
            );
        }
        other => panic!("unexpected {:?}", other),
    }
    let wire = WireMetric {
        name: "h".to_string(),
        unit: None,
        gauge: None,
        sum: None,
        histogram: Some(Histogram { data_points: vec![], aggregation_temporality: 0 }),
    };
    assert!(matches!(
        convert_metric(ValidatedMetric::parse(wire).unwrap()).unwrap(),
        Metric::Sample(SampleMetric::Histogram { .. })
    ));
}
